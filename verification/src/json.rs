use vstd::prelude::*;
use crate::ascii::bytes_eq;
use crate::money::{is_number, is_number_exec};

verus! {

// Byte values used below: 0x20/0x09/0x0a/0x0d whitespace, 0x22 '"',
// 0x5c '\', 0x7b '{', 0x7d '}', 0x5b '[', 0x5d ']', 0x3a ':', 0x2c ',',
// 0x2d '-', 0x2b '+', 0x2e '.', 0x30..0x39 '0'..'9', 0x65 'e', 0x45 'E'.

/// JSON insignificant whitespace.
pub open spec fn is_ws(b: u8) -> bool {
    b == 0x20 || b == 0x09 || b == 0x0a || b == 0x0d
}

/// A byte that ends a primitive token: whitespace, comma, `}` or `]`.
pub open spec fn is_delim(b: u8) -> bool {
    is_ws(b) || b == 0x2c || b == 0x7d || b == 0x5d
}

/// An ASCII decimal digit.
pub open spec fn is_digit(b: u8) -> bool {
    0x30 <= b && b <= 0x39
}

/// The bytes of `"true"`.
pub open spec fn lit_true() -> Seq<u8> {
    seq![0x74u8, 0x72, 0x75, 0x65]
}

/// The bytes of `"false"`.
pub open spec fn lit_false() -> Seq<u8> {
    seq![0x66u8, 0x61, 0x6c, 0x73, 0x65]
}

/// The bytes of `"null"`.
pub open spec fn lit_null() -> Seq<u8> {
    seq![0x6eu8, 0x75, 0x6c, 0x6c]
}

/// A primitive JSON value token: a number, `true`, `false` or `null`.
pub open spec fn is_prim_token(t: Seq<u8>) -> bool {
    is_number(t) || t == lit_true() || t == lit_false() || t == lit_null()
}

/// Index of the first non-whitespace byte at or after `i`, or the length of `s`.
pub open spec fn ws_end(s: Seq<u8>, i: int) -> int
    decreases s.len() - i,
{
    if i < 0 || i >= s.len() {
        s.len() as int
    } else if is_ws(s[i]) {
        ws_end(s, i + 1)
    } else {
        i
    }
}

/// Index of the first non-digit byte at or after `i`, or the length of `s`.
pub open spec fn digits_end(s: Seq<u8>, i: int) -> int
    decreases s.len() - i,
{
    if i < 0 || i >= s.len() {
        s.len() as int
    } else if is_digit(s[i]) {
        digits_end(s, i + 1)
    } else {
        i
    }
}

/// Index of the first delimiter byte at or after `i`, or the length of `s`.
pub open spec fn prim_end(s: Seq<u8>, i: int) -> int
    decreases s.len() - i,
{
    if i < 0 || i >= s.len() {
        s.len() as int
    } else if is_delim(s[i]) {
        i
    } else {
        prim_end(s, i + 1)
    }
}

/// With `i` just after the opening quote of a JSON string: the index just
/// after the closing quote, honouring backslash escapes, or `None` if the
/// string never closes.
pub open spec fn str_end(s: Seq<u8>, i: int) -> Option<int>
    decreases s.len() - i,
{
    if i < 0 || i >= s.len() {
        None
    } else if s[i] == 0x22 {
        Some(i + 1)
    } else if s[i] == 0x5c {
        if i + 1 >= s.len() {
            None
        } else {
            str_end(s, i + 2)
        }
    } else {
        str_end(s, i + 1)
    }
}

/// With `i` at the first byte of a JSON value: the index just after the
/// value, or `None` if the value is malformed. Objects and arrays are scanned
/// in full; a primitive value must be a number, `true`, `false` or `null`.
/// `f` is recursion fuel; every recursive call consumes input, so any
/// `f > s.len()` behaves the same.
pub open spec fn val_end(s: Seq<u8>, i: int, f: nat) -> Option<int>
    decreases f,
{
    if f == 0 {
        None
    } else if i < 0 || i >= s.len() {
        None
    } else if s[i] == 0x22 {
        str_end(s, i + 1)
    } else if s[i] == 0x7b {
        match obj_rest(s, i + 1, Seq::<u8>::empty(), (f - 1) as nat) {
            None => None,
            Some((e, _found)) => Some(e),
        }
    } else if s[i] == 0x5b {
        arr_rest(s, i + 1, (f - 1) as nat)
    } else {
        let e = prim_end(s, i);
        if e == i || !is_prim_token(s.subrange(i, e)) {
            None
        } else {
            Some(e)
        }
    }
}

/// With `i` just after `{` or after a member-separating comma: scans the
/// remaining members up to the closing `}`. Returns `None` if malformed, and
/// otherwise the index just after `}` together with the position of the value
/// of the first member whose raw key bytes equal `key`, if there is one.
pub open spec fn obj_rest(s: Seq<u8>, i: int, key: Seq<u8>, f: nat) -> Option<(int, Option<int>)>
    decreases f,
{
    if f == 0 {
        None
    } else {
        let j = ws_end(s, i);
        if j >= s.len() {
            None
        } else if s[j] == 0x7d {
            Some((j + 1, None))
        } else if s[j] != 0x22 {
            None
        } else {
            match str_end(s, j + 1) {
                None => None,
                Some(k) => {
                    let k2 = ws_end(s, k);
                    if k2 >= s.len() || s[k2] != 0x3a {
                        None
                    } else {
                        let v = ws_end(s, k2 + 1);
                        match val_end(s, v, (f - 1) as nat) {
                            None => None,
                            Some(m) => {
                                let hit: Option<int> = if s.subrange(j + 1, k - 1) == key {
                                    Some(v)
                                } else {
                                    None
                                };
                                let m2 = ws_end(s, m);
                                if m2 >= s.len() {
                                    None
                                } else if s[m2] == 0x7d {
                                    Some((m2 + 1, hit))
                                } else if s[m2] == 0x2c {
                                    match obj_rest(s, m2 + 1, key, (f - 1) as nat) {
                                        None => None,
                                        Some((e, found)) => Some(
                                            (e, if hit is Some { hit } else { found }),
                                        ),
                                    }
                                } else {
                                    None
                                }
                            },
                        }
                    }
                }
            }
        }
    }
}

/// With `i` just after `[` or after an element-separating comma: scans the
/// remaining elements up to the closing `]`. Returns the index just after
/// `]`, or `None` if malformed.
pub open spec fn arr_rest(s: Seq<u8>, i: int, f: nat) -> Option<int>
    decreases f,
{
    if f == 0 {
        None
    } else {
        let j = ws_end(s, i);
        if j >= s.len() {
            None
        } else if s[j] == 0x5d {
            Some(j + 1)
        } else {
            match val_end(s, j, (f - 1) as nat) {
                None => None,
                Some(m) => {
                    let m2 = ws_end(s, m);
                    if m2 >= s.len() {
                        None
                    } else if s[m2] == 0x5d {
                        Some(m2 + 1)
                    } else if s[m2] == 0x2c {
                        arr_rest(s, m2 + 1, (f - 1) as nat)
                    } else {
                        None
                    }
                },
            }
        }
    }
}

pub open spec fn opt_view(r: Option<usize>) -> Option<int> {
    match r {
        None => None,
        Some(k) => Some(k as int),
    }
}

pub open spec fn scan_view(r: Option<(usize, Option<usize>)>) -> Option<(int, Option<int>)> {
    match r {
        None => None,
        Some((e, found)) => Some((e as int, opt_view(found))),
    }
}

fn ws_end_exec(s: &[u8], i: usize) -> (r: usize)
    requires
        i <= s@.len(),
    ensures
        r as int == ws_end(s@, i as int),
        i <= r <= s@.len(),
    decreases s@.len() - i,
{
    if i >= s.len() {
        s.len()
    } else if s[i] == 0x20 || s[i] == 0x09 || s[i] == 0x0a || s[i] == 0x0d {
        ws_end_exec(s, i + 1)
    } else {
        i
    }
}

pub(crate) fn digits_end_exec(s: &[u8], i: usize) -> (r: usize)
    requires
        i <= s@.len(),
    ensures
        r as int == digits_end(s@, i as int),
        i <= r <= s@.len(),
    decreases s@.len() - i,
{
    if i >= s.len() {
        s.len()
    } else if 0x30 <= s[i] && s[i] <= 0x39 {
        digits_end_exec(s, i + 1)
    } else {
        i
    }
}

fn prim_end_exec(s: &[u8], i: usize) -> (r: usize)
    requires
        i <= s@.len(),
    ensures
        r as int == prim_end(s@, i as int),
        i <= r <= s@.len(),
    decreases s@.len() - i,
{
    if i >= s.len() {
        s.len()
    } else if s[i] == 0x20 || s[i] == 0x09 || s[i] == 0x0a || s[i] == 0x0d || s[i] == 0x2c
        || s[i] == 0x7d || s[i] == 0x5d {
        i
    } else {
        prim_end_exec(s, i + 1)
    }
}

fn str_end_exec(s: &[u8], i: usize) -> (r: Option<usize>)
    requires
        i <= s@.len(),
    ensures
        opt_view(r) == str_end(s@, i as int),
        r matches Some(k) ==> i < k <= s@.len(),
    decreases s@.len() - i,
{
    if i >= s.len() {
        None
    } else if s[i] == 0x22 {
        Some(i + 1)
    } else if s[i] == 0x5c {
        if i + 1 >= s.len() {
            None
        } else {
            str_end_exec(s, i + 2)
        }
    } else {
        str_end_exec(s, i + 1)
    }
}

fn is_prim_token_exec(t: &[u8]) -> (r: bool)
    ensures
        r == is_prim_token(t@),
{
    if is_number_exec(t) {
        return true;
    }
    let tv = vec![0x74u8, 0x72, 0x75, 0x65];
    let fv = vec![0x66u8, 0x61, 0x6c, 0x73, 0x65];
    let nv = vec![0x6eu8, 0x75, 0x6c, 0x6c];
    proof {
        assert(tv@ =~= lit_true());
        assert(fv@ =~= lit_false());
        assert(nv@ =~= lit_null());
    }
    bytes_eq(t, tv.as_slice()) || bytes_eq(t, fv.as_slice()) || bytes_eq(t, nv.as_slice())
}

fn val_end_exec(s: &[u8], i: usize, f: usize) -> (r: Option<usize>)
    requires
        i <= s@.len(),
    ensures
        opt_view(r) == val_end(s@, i as int, f as nat),
        r matches Some(m) ==> i < m <= s@.len(),
    decreases f,
{
    if f == 0 {
        None
    } else if i >= s.len() {
        None
    } else if s[i] == 0x22 {
        str_end_exec(s, i + 1)
    } else if s[i] == 0x7b {
        let empty_key: Vec<u8> = Vec::new();
        match obj_rest_exec(s, i + 1, empty_key.as_slice(), f - 1) {
            None => None,
            Some((e, _found)) => Some(e),
        }
    } else if s[i] == 0x5b {
        arr_rest_exec(s, i + 1, f - 1)
    } else {
        let e = prim_end_exec(s, i);
        if e == i || !is_prim_token_exec(&s[i..e]) {
            None
        } else {
            Some(e)
        }
    }
}

fn obj_rest_exec(s: &[u8], i: usize, key: &[u8], f: usize) -> (r: Option<(usize, Option<usize>)>)
    requires
        i <= s@.len(),
    ensures
        scan_view(r) == obj_rest(s@, i as int, key@, f as nat),
        r matches Some(p) ==> i < p.0 <= s@.len(),
        r matches Some(p) ==> (p.1 matches Some(v) ==> v < s@.len()),
    decreases f,
{
    if f == 0 {
        None
    } else {
        let j = ws_end_exec(s, i);
        if j >= s.len() {
            None
        } else if s[j] == 0x7d {
            Some((j + 1, None))
        } else if s[j] != 0x22 {
            None
        } else {
            match str_end_exec(s, j + 1) {
                None => None,
                Some(k) => {
                    let k2 = ws_end_exec(s, k);
                    if k2 >= s.len() || s[k2] != 0x3a {
                        None
                    } else {
                        let v = ws_end_exec(s, k2 + 1);
                        match val_end_exec(s, v, f - 1) {
                            None => None,
                            Some(m) => {
                                let hit: Option<usize> = if bytes_eq(&s[j + 1..k - 1], key) {
                                    Some(v)
                                } else {
                                    None
                                };
                                let m2 = ws_end_exec(s, m);
                                if m2 >= s.len() {
                                    None
                                } else if s[m2] == 0x7d {
                                    Some((m2 + 1, hit))
                                } else if s[m2] == 0x2c {
                                    match obj_rest_exec(s, m2 + 1, key, f - 1) {
                                        None => None,
                                        Some((e, found)) => Some(
                                            (
                                                e,
                                                if hit.is_some() {
                                                    hit
                                                } else {
                                                    found
                                                },
                                            ),
                                        ),
                                    }
                                } else {
                                    None
                                }
                            },
                        }
                    }
                }
            }
        }
    }
}

fn arr_rest_exec(s: &[u8], i: usize, f: usize) -> (r: Option<usize>)
    requires
        i <= s@.len(),
    ensures
        opt_view(r) == arr_rest(s@, i as int, f as nat),
        r matches Some(m) ==> i < m <= s@.len(),
    decreases f,
{
    if f == 0 {
        None
    } else {
        let j = ws_end_exec(s, i);
        if j >= s.len() {
            None
        } else if s[j] == 0x5d {
            Some(j + 1)
        } else {
            match val_end_exec(s, j, f - 1) {
                None => None,
                Some(m) => {
                    let m2 = ws_end_exec(s, m);
                    if m2 >= s.len() {
                        None
                    } else if s[m2] == 0x5d {
                        Some(m2 + 1)
                    } else if s[m2] == 0x2c {
                        arr_rest_exec(s, m2 + 1, f - 1)
                    } else {
                        None
                    }
                },
            }
        }
    }
}



/// The bytes of `"data"`.
pub open spec fn lit_data() -> Seq<u8> {
    seq![0x64u8, 0x61, 0x74, 0x61]
}

/// The bytes of `"quote"`.
pub open spec fn lit_quote() -> Seq<u8> {
    seq![0x71u8, 0x75, 0x6f, 0x74, 0x65]
}

/// The bytes of `"USD"`.
pub open spec fn lit_usd() -> Seq<u8> {
    seq![0x55u8, 0x53, 0x44]
}

/// The bytes of `"price"`.
pub open spec fn lit_price_key() -> Seq<u8> {
    seq![0x70u8, 0x72, 0x69, 0x63, 0x65]
}

/// Fuel that lets the scanners run to the end of any input of this length.
pub open spec fn body_fuel(s: Seq<u8>) -> nat {
    s.len() + 2
}

/// One step of path navigation, at the value starting at `vpos`.
pub enum Lookup {
    /// The object around `vpos` is malformed.
    Bad,
    /// The value at `vpos` is not an object, or has no member named `key`.
    Absent,
    /// The value of the first member named `key` starts here.
    At(int),
}

/// The value of member `key` of the object starting at `vpos`; `Absent` when
/// the value at `vpos` is not an object or lacks the key.
pub open spec fn member_value(s: Seq<u8>, vpos: int, key: Seq<u8>) -> Lookup {
    if !(0 <= vpos < s.len()) {
        Lookup::Bad
    } else if s[vpos] != 0x7b {
        Lookup::Absent
    } else {
        match obj_rest(s, vpos + 1, key, body_fuel(s)) {
            None => Lookup::Bad,
            Some((_e, None)) => Lookup::Absent,
            Some((_e, Some(v))) => Lookup::At(v),
        }
    }
}

/// What looking up the price in a response body gives.
pub enum PriceLookup {
    /// The body is not JSON of the shape scanned here: not a single
    /// well-formed object followed only by whitespace.
    Malformed,
    /// The body is a well-formed object, but `data.<symbol>.quote.USD.price`
    /// is absent, or is not a primitive token.
    Missing,
    /// The primitive token found at `data.<symbol>.quote.USD.price`.
    Token(Seq<u8>),
}

/// Navigation of `data.<symbol>.quote.USD.price` through the body: the body
/// must be one well-formed JSON value with nothing but whitespace around it,
/// or the lookup is `Malformed`; a well-formed body that is not an object,
/// like a missing or non-primitive path segment, gives `Missing`; otherwise
/// the primitive token at the path is handed out.
pub open spec fn spec_extract_price(s: Seq<u8>, sym: Seq<u8>) -> PriceLookup {
    let j = ws_end(s, 0);
    match val_end(s, j, body_fuel(s)) {
        None => PriceLookup::Malformed,
        Some(e) => {
            if ws_end(s, e) != s.len() {
                PriceLookup::Malformed
            } else if s[j] != 0x7b {
                PriceLookup::Missing
            } else {
                match obj_rest(s, j + 1, lit_data(), body_fuel(s)) {
                    None => PriceLookup::Malformed,
                    Some((_e2, dopt)) => match dopt {
                        None => PriceLookup::Missing,
                        Some(dp) => spec_extract_from_data(s, dp, sym),
                    },
                }
            }
        },
    }
}

/// Navigation below the value of `data`, which starts at `dp`.
pub open spec fn spec_extract_from_data(s: Seq<u8>, dp: int, sym: Seq<u8>) -> PriceLookup {
    match member_value(s, dp, sym) {
        Lookup::Bad => PriceLookup::Malformed,
        Lookup::Absent => PriceLookup::Missing,
        Lookup::At(sp) => match member_value(s, sp, lit_quote()) {
            Lookup::Bad => PriceLookup::Malformed,
            Lookup::Absent => PriceLookup::Missing,
            Lookup::At(qp) => match member_value(s, qp, lit_usd()) {
                Lookup::Bad => PriceLookup::Malformed,
                Lookup::Absent => PriceLookup::Missing,
                Lookup::At(up) => match member_value(s, up, lit_price_key()) {
                    Lookup::Bad => PriceLookup::Malformed,
                    Lookup::Absent => PriceLookup::Missing,
                    Lookup::At(pp) => {
                        if s[pp] == 0x22 || s[pp] == 0x7b || s[pp] == 0x5b {
                            PriceLookup::Missing
                        } else {
                            let e = prim_end(s, pp);
                            if e == pp {
                                PriceLookup::Missing
                            } else {
                                PriceLookup::Token(s.subrange(pp, e))
                            }
                        }
                    },
                },
            },
        },
    }
}

/// The executable form of a `PriceLookup`.
pub enum Extracted {
    Malformed,
    Missing,
    Token(Vec<u8>),
}

impl View for Extracted {
    type V = PriceLookup;

    open spec fn view(&self) -> PriceLookup {
        match self {
            Extracted::Malformed => PriceLookup::Malformed,
            Extracted::Missing => PriceLookup::Missing,
            Extracted::Token(t) => PriceLookup::Token(t@),
        }
    }
}

fn lit_key_vec(which: u8) -> (r: Vec<u8>)
    requires
        which < 4,
    ensures
        which == 0 ==> r@ == lit_data(),
        which == 1 ==> r@ == lit_quote(),
        which == 2 ==> r@ == lit_usd(),
        which == 3 ==> r@ == lit_price_key(),
{
    if which == 0 {
        let v = vec![0x64u8, 0x61, 0x74, 0x61];
        proof {
            assert(v@ =~= lit_data());
        }
        v
    } else if which == 1 {
        let v = vec![0x71u8, 0x75, 0x6f, 0x74, 0x65];
        proof {
            assert(v@ =~= lit_quote());
        }
        v
    } else if which == 2 {
        let v = vec![0x55u8, 0x53, 0x44];
        proof {
            assert(v@ =~= lit_usd());
        }
        v
    } else {
        let v = vec![0x70u8, 0x72, 0x69, 0x63, 0x65];
        proof {
            assert(v@ =~= lit_price_key());
        }
        v
    }
}

/// The result of `member_value`, executable: `None` for `Bad`, otherwise the
/// position if any.
fn member_value_exec(s: &[u8], vpos: usize, key: &[u8]) -> (r: Option<Option<usize>>)
    requires
        vpos < s@.len(),
        s@.len() < usize::MAX - 2,
    ensures
        match member_value(s@, vpos as int, key@) {
            Lookup::Bad => r is None,
            Lookup::Absent => r == Some(None::<usize>),
            Lookup::At(v) => r matches Some(Some(rv)) && rv as int == v && rv < s@.len(),
        },
{
    if s[vpos] != 0x7b {
        Some(None)
    } else {
        match obj_rest_exec(s, vpos + 1, key, s.len() + 2) {
            None => None,
            Some((_e, found)) => Some(found),
        }
    }
}

/// Look the price of `sym` up in the response body: the token at
/// `data.<sym>.quote.USD.price`, if the body is one well-formed JSON value,
/// that value is an object, and the path leads to a primitive token.
pub fn extract_price(s: &[u8], sym: &[u8]) -> (r: Extracted)
    requires
        s@.len() < usize::MAX - 2,
    ensures
        r@ == spec_extract_price(s@, sym@),
        r matches Extracted::Token(v) ==> v@.len() <= s@.len(),
{
    let j = ws_end_exec(s, 0);
    let e = match val_end_exec(s, j, s.len() + 2) {
        None => {
            return Extracted::Malformed;
        },
        Some(e) => e,
    };
    if ws_end_exec(s, e) != s.len() {
        return Extracted::Malformed;
    }
    if s[j] != 0x7b {
        return Extracted::Missing;
    }
    match obj_rest_exec(s, j + 1, lit_key_vec(0).as_slice(), s.len() + 2) {
        None => Extracted::Malformed,
        Some((_e2, dopt)) => {
            match dopt {
                None => Extracted::Missing,
                Some(dp) => {
                    let st1 = member_value_exec(s, dp, sym);
                    match st1 {
                        None => Extracted::Malformed,
                        Some(None) => Extracted::Missing,
                        Some(Some(sp)) => {
                            let st2 = member_value_exec(s, sp, lit_key_vec(1).as_slice());
                            match st2 {
                                None => Extracted::Malformed,
                                Some(None) => Extracted::Missing,
                                Some(Some(qp)) => {
                                    let st3 = member_value_exec(s, qp, lit_key_vec(2).as_slice());
                                    match st3 {
                                        None => Extracted::Malformed,
                                        Some(None) => Extracted::Missing,
                                        Some(Some(up)) => {
                                            let st4 = member_value_exec(
                                                s,
                                                up,
                                                lit_key_vec(3).as_slice(),
                                            );
                                            match st4 {
                                                None => Extracted::Malformed,
                                                Some(None) => Extracted::Missing,
                                                Some(Some(pp)) => extract_token(s, pp),
                                            }
                                        },
                                    }
                                },
                            }
                        },
                    }
                },
            }
        },
    }
}

/// The primitive token at `pp`, as the tail of the extraction.
fn extract_token(s: &[u8], pp: usize) -> (r: Extracted)
    requires
        pp < s@.len(),
    ensures
        r@ == ({
            if s@[pp as int] == 0x22 || s@[pp as int] == 0x7b || s@[pp as int] == 0x5b {
                PriceLookup::Missing
            } else {
                let e = prim_end(s@, pp as int);
                if e == pp {
                    PriceLookup::Missing
                } else {
                    PriceLookup::Token(s@.subrange(pp as int, e))
                }
            }
        }),
        r matches Extracted::Token(v) ==> v@.len() <= s@.len(),
{
    if s[pp] == 0x22 || s[pp] == 0x7b || s[pp] == 0x5b {
        return Extracted::Missing;
    }
    let e = prim_end_exec(s, pp);
    if e == pp {
        return Extracted::Missing;
    }
    let mut tok: Vec<u8> = Vec::new();
    let mut i: usize = pp;
    while i < e
        invariant
            pp <= i <= e <= s@.len(),
            tok@ == s@.subrange(pp as int, i as int),
        decreases e - i,
    {
        tok.push(s[i]);
        proof {
            assert(tok@ =~= s@.subrange(pp as int, i + 1 as int));
        }
        i += 1;
    }
    Extracted::Token(tok)
}

} // verus!
