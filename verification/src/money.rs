use vstd::prelude::*;
use crate::json::{is_digit, digits_end, digits_end_exec};

verus! {

// Byte values used below: 0x24 '$', 0x2d '-', 0x2b '+', 0x2e '.',
// 0x30..0x39 '0'..'9', 0x31 '1', 0x35 '5', 0x65 'e', 0x45 'E'.

/// Position after the optional leading minus sign of a number token.
pub open spec fn num_int_start(t: Seq<u8>) -> int {
    if t.len() > 0 && t[0] == 0x2d {
        1
    } else {
        0
    }
}

/// End of the integer digit run: a lone `0`, or a run led by a nonzero digit.
pub open spec fn num_int_end(t: Seq<u8>) -> int {
    let i = num_int_start(t);
    if i < t.len() && t[i] == 0x30 {
        i + 1
    } else {
        digits_end(t, i)
    }
}

/// End of the fraction digits; equals `num_int_end` when there is no `.`.
pub open spec fn num_frac_end(t: Seq<u8>) -> int {
    let ie = num_int_end(t);
    if ie < t.len() && t[ie] == 0x2e {
        digits_end(t, ie + 1)
    } else {
        ie
    }
}

/// First exponent digit, after `e`/`E` and an optional sign.
pub open spec fn num_exp_digits_start(t: Seq<u8>) -> int {
    let fe = num_frac_end(t);
    if fe + 1 < t.len() && (t[fe + 1] == 0x2b || t[fe + 1] == 0x2d) {
        fe + 2
    } else {
        fe + 1
    }
}

/// Whether `t` is exactly one number in JSON's number grammar.
pub open spec fn is_number(t: Seq<u8>) -> bool {
    let i0 = num_int_start(t);
    let ie = num_int_end(t);
    let fe = num_frac_end(t);
    &&& i0 < t.len() && is_digit(t[i0])
    &&& (fe == ie || (ie < t.len() && t[ie] == 0x2e && fe > ie + 1))
    &&& (if fe < t.len() && (t[fe] == 0x65 || t[fe] == 0x45) {
        let ds = num_exp_digits_start(t);
        ds < t.len() && is_digit(t[ds]) && digits_end(t, ds) == t.len()
    } else {
        fe == t.len()
    })
}

/// Value of the digit run `t[i..j]` on top of `acc`, saturated at 100000.
pub open spec fn exp_val_sat(t: Seq<u8>, i: int, j: int, acc: int) -> int
    decreases j - i,
{
    if i < 0 || i >= j || j > t.len() {
        acc
    } else {
        let d = t[i] - 0x30;
        let next: int = if acc * 10 + d > 100000 {
            100000
        } else {
            acc * 10 + d
        };
        exp_val_sat(t, i + 1, j, next)
    }
}

/// The signed exponent of the token, saturated at magnitude 100000;
/// zero when there is no exponent part.
pub open spec fn num_exp(t: Seq<u8>) -> int {
    let fe = num_frac_end(t);
    if fe < t.len() && (t[fe] == 0x65 || t[fe] == 0x45) {
        let v = exp_val_sat(t, num_exp_digits_start(t), t.len() as int, 0);
        if fe + 1 < t.len() && t[fe + 1] == 0x2d {
            -v
        } else {
            v
        }
    } else {
        0
    }
}

/// The significand: integer digits followed by fraction digits.
pub open spec fn num_digits(t: Seq<u8>) -> Seq<u8> {
    let i0 = num_int_start(t);
    let ie = num_int_end(t);
    let fe = num_frac_end(t);
    t.subrange(i0, ie) + (if fe > ie {
        t.subrange(ie + 1, fe)
    } else {
        Seq::<u8>::empty()
    })
}

/// Whether the token is negative.
pub open spec fn num_neg(t: Seq<u8>) -> bool {
    t.len() > 0 && t[0] == 0x2d
}

/// Where the decimal point falls: the token's value is its significand read
/// as `0.<digits>` times ten to this power (sign apart).
pub open spec fn num_point(t: Seq<u8>) -> int {
    num_int_end(t) - num_int_start(t) + num_exp(t)
}

/// Digit byte of the significand at index `k`; `0` beyond either end.
pub open spec fn dig_at(dd: Seq<u8>, k: int) -> u8 {
    if 0 <= k < dd.len() {
        dd[k]
    } else {
        0x30
    }
}

/// The output digits before rounding: the integer-part digits (a single `0`
/// when the value is below one) followed by the first two fraction digits.
pub open spec fn raw_digits(dd: Seq<u8>, p: int) -> Seq<u8> {
    let ip = if p <= 0 {
        seq![0x30u8]
    } else {
        Seq::new(p as nat, |k: int| dig_at(dd, k))
    };
    ip + seq![dig_at(dd, p), dig_at(dd, p + 1)]
}

/// Rounding at two decimals moves away from zero exactly when the first
/// dropped digit is five or more.
pub open spec fn rounds_up(dd: Seq<u8>, p: int) -> bool {
    dig_at(dd, p + 2) >= 0x35
}

/// Index of the last digit of `u` that is not `9`, or `-1`.
pub open spec fn last_non9(u: Seq<u8>) -> int
    decreases u.len(),
{
    if u.len() == 0 {
        -1
    } else if u[u.len() - 1] != 0x39 {
        u.len() - 1
    } else {
        last_non9(u.drop_last())
    }
}

/// The digit string `u` with one added at its last place; one digit longer
/// when the carry runs off the front.
pub open spec fn inc_digits(u: Seq<u8>) -> Seq<u8> {
    let ln = last_non9(u);
    if ln == -1 {
        seq![0x31u8] + Seq::new(u.len(), |k: int| 0x30u8)
    } else {
        u.subrange(0, ln) + seq![(u[ln] + 1) as u8] + Seq::new(
            (u.len() - ln - 1) as nat,
            |k: int| 0x30u8,
        )
    }
}

/// Index of the first byte at or after `i` that is not `0`, or the length.
pub open spec fn zeros_end(s: Seq<u8>, i: int) -> int
    decreases s.len() - i,
{
    if i < 0 || i >= s.len() {
        s.len() as int
    } else if s[i] == 0x30 {
        zeros_end(s, i + 1)
    } else {
        i
    }
}

/// The display form over rounded output digits `r` (integer digits then two
/// fraction digits): `"$"`, a minus sign when `neg`, the integer digits with
/// leading zeros stripped, `.`, and the two fraction digits.
pub open spec fn render(neg: bool, r: Seq<u8>) -> Seq<u8> {
    let ints = r.subrange(0, r.len() - 2);
    let frac = r.subrange(r.len() - 2, r.len() as int);
    let zs = zeros_end(ints, 0);
    let ints2 = if zs == ints.len() {
        seq![0x30u8]
    } else {
        ints.subrange(zs, ints.len() as int)
    };
    seq![0x24u8] + (if neg {
        seq![0x2du8]
    } else {
        Seq::<u8>::empty()
    }) + ints2 + seq![0x2eu8] + frac
}

/// `"$"`, a minus sign for a negative token, the integer digits with leading
/// zeros stripped, `.`, and exactly two fraction digits: the token's value
/// rounded to two decimals, halves away from zero. `None` when the token is
/// not a number, or its exponent's magnitude reaches the 100000 cap.
pub open spec fn spec_format_price(t: Seq<u8>) -> Option<Seq<u8>> {
    if !is_number(t) {
        None
    } else if num_exp(t) == 100000 || num_exp(t) == -100000 {
        None
    } else {
        let dd = num_digits(t);
        let p = num_point(t);
        let u = raw_digits(dd, p);
        let r = if rounds_up(dd, p) {
            inc_digits(u)
        } else {
            u
        };
        Some(render(num_neg(t), r))
    }
}

/// All bytes in `[i, digits_end(s, i))` are digits.
pub proof fn lemma_digits_run(s: Seq<u8>, i: int)
    requires
        0 <= i,
    ensures
        forall|k: int| i <= k < digits_end(s, i) ==> is_digit(s[k]),
    decreases s.len() - i,
{
    if i < 0 || i >= s.len() {
    } else if is_digit(s[i]) {
        lemma_digits_run(s, i + 1);
        assert forall|k: int| i <= k < digits_end(s, i) implies is_digit(s[k]) by {
            if k != i {
                assert(i + 1 <= k < digits_end(s, i + 1));
            }
        }
    }
}

/// `last_non9` stays within `[-1, len)`.
pub proof fn lemma_last_non9_bounds(u: Seq<u8>)
    ensures
        -1 <= last_non9(u) < u.len(),
    decreases u.len(),
{
    if u.len() == 0 {
    } else if u[u.len() - 1] != 0x39 {
    } else {
        lemma_last_non9_bounds(u.drop_last());
    }
}

/// Appends `src[a..b]` to `out`.
pub fn push_range(out: &mut Vec<u8>, src: &[u8], a: usize, b: usize)
    requires
        a <= b <= src@.len(),
    ensures
        final(out)@ == old(out)@ + src@.subrange(a as int, b as int),
{
    let mut i: usize = a;
    proof {
        assert(out@ =~= old(out)@ + src@.subrange(a as int, a as int));
    }
    while i < b
        invariant
            a <= i <= b <= src@.len(),
            out@ == old(out)@ + src@.subrange(a as int, i as int),
        decreases b - i,
    {
        out.push(src[i]);
        proof {
            assert(out@ =~= old(out)@ + src@.subrange(a as int, i + 1 as int));
        }
        i += 1;
    }
}

/// `(int_start, int_end, frac_end)` of a token.
fn num_positions(t: &[u8]) -> (r: (usize, usize, usize))
    ensures
        r.0 as int == num_int_start(t@),
        r.1 as int == num_int_end(t@),
        r.2 as int == num_frac_end(t@),
        r.0 <= r.1 <= r.2 <= t@.len(),
{
    let i0: usize = if t.len() > 0 && t[0] == 0x2d {
        1
    } else {
        0
    };
    let ie: usize = if i0 < t.len() && t[i0] == 0x30 {
        i0 + 1
    } else {
        digits_end_exec(t, i0)
    };
    let fe: usize = if ie < t.len() && t[ie] == 0x2e {
        digits_end_exec(t, ie + 1)
    } else {
        ie
    };
    (i0, ie, fe)
}

pub(crate) fn is_number_exec(t: &[u8]) -> (r: bool)
    ensures
        r == is_number(t@),
{
    let (i0, ie, fe) = num_positions(t);
    if !(i0 < t.len() && 0x30 <= t[i0] && t[i0] <= 0x39) {
        return false;
    }
    if !(fe == ie || (ie < t.len() && t[ie] == 0x2e && fe > ie + 1)) {
        return false;
    }
    if fe < t.len() && (t[fe] == 0x65 || t[fe] == 0x45) {
        let ds: usize = if fe + 1 < t.len() && (t[fe + 1] == 0x2b || t[fe + 1] == 0x2d) {
            fe + 2
        } else {
            fe + 1
        };
        ds < t.len() && 0x30 <= t[ds] && t[ds] <= 0x39 && digits_end_exec(t, ds) == t.len()
    } else {
        fe == t.len()
    }
}

fn exp_val_sat_exec(t: &[u8], i: usize, j: usize, acc: i64) -> (r: i64)
    requires
        i <= j <= t@.len(),
        0 <= acc <= 100000,
        forall|k: int| i <= k < j ==> is_digit(t@[k]),
    ensures
        r as int == exp_val_sat(t@, i as int, j as int, acc as int),
        0 <= r <= 100000,
    decreases j - i,
{
    if i >= j {
        acc
    } else {
        let d = (t[i] - 0x30) as i64;
        let next: i64 = if acc * 10 + d > 100000 {
            100000
        } else {
            acc * 10 + d
        };
        exp_val_sat_exec(t, i + 1, j, next)
    }
}

fn num_exp_exec(t: &[u8]) -> (r: i64)
    requires
        is_number(t@),
    ensures
        r as int == num_exp(t@),
        -100000 <= r <= 100000,
{
    let (i0, ie, fe) = num_positions(t);
    if fe < t.len() && (t[fe] == 0x65 || t[fe] == 0x45) {
        let ds: usize = if fe + 1 < t.len() && (t[fe + 1] == 0x2b || t[fe + 1] == 0x2d) {
            fe + 2
        } else {
            fe + 1
        };
        proof {
            lemma_digits_run(t@, ds as int);
        }
        let v = exp_val_sat_exec(t, ds, t.len(), 0);
        if fe + 1 < t.len() && t[fe + 1] == 0x2d {
            -v
        } else {
            v
        }
    } else {
        0
    }
}

fn dig_at_exec(dd: &Vec<u8>, k: i64) -> (r: u8)
    ensures
        r == dig_at(dd@, k as int),
{
    if k >= 0 && (k as u64) < (dd.len() as u64) {
        dd[k as usize]
    } else {
        0x30
    }
}

fn last_non9_exec(u: &Vec<u8>, j: usize) -> (r: usize)
    requires
        j <= u@.len(),
    ensures
        r as int - 1 == last_non9(u@.subrange(0, j as int)),
        r <= j,
        r > 0 ==> u@[r - 1] != 0x39,
    decreases j,
{
    if j == 0 {
        proof {
            assert(u@.subrange(0, 0) =~= Seq::<u8>::empty());
        }
        0
    } else if u[j - 1] != 0x39 {
        proof {
            assert(u@.subrange(0, j as int)[j - 1] == u@[j - 1]);
        }
        j
    } else {
        let rr = last_non9_exec(u, j - 1);
        proof {
            assert(u@.subrange(0, j as int).drop_last() =~= u@.subrange(0, j - 1 as int));
        }
        rr
    }
}

fn inc_vec(u: &Vec<u8>) -> (r: Vec<u8>)
    requires
        forall|i: int| 0 <= i < u@.len() ==> is_digit(u@[i]),
    ensures
        r@ == inc_digits(u@),
{
    let lnp = last_non9_exec(u, u.len());
    proof {
        assert(u@.subrange(0, u@.len() as int) =~= u@);
    }
    let mut out: Vec<u8> = Vec::new();
    if lnp == 0 {
        out.push(0x31);
        let mut i: usize = 0;
        proof {
            assert(out@ =~= seq![0x31u8] + Seq::new(0, |k: int| 0x30u8));
        }
        while i < u.len()
            invariant
                i <= u@.len(),
                out@ == seq![0x31u8] + Seq::new(i as nat, |k: int| 0x30u8),
            decreases u@.len() - i,
        {
            out.push(0x30);
            proof {
                assert(out@ =~= seq![0x31u8] + Seq::new((i + 1) as nat, |k: int| 0x30u8));
            }
            i += 1;
        }
        proof {
            assert(out@ =~= inc_digits(u@));
        }
    } else {
        let ln = lnp - 1;
        push_range(&mut out, u.as_slice(), 0, ln);
        let d = u[ln];
        proof {
            assert(is_digit(u@[ln as int]));
        }
        out.push(d + 1);
        let mut i: usize = ln + 1;
        proof {
            assert(out@ =~= u@.subrange(0, ln as int) + seq![(u@[ln as int] + 1) as u8]
                + Seq::new(0, |k: int| 0x30u8));
        }
        while i < u.len()
            invariant
                ln + 1 <= i <= u@.len(),
                ln < u@.len(),
                out@ == u@.subrange(0, ln as int) + seq![(u@[ln as int] + 1) as u8] + Seq::new(
                    (i - ln - 1) as nat,
                    |k: int| 0x30u8,
                ),
            decreases u@.len() - i,
        {
            out.push(0x30);
            proof {
                assert(out@ =~= u@.subrange(0, ln as int) + seq![(u@[ln as int] + 1) as u8]
                    + Seq::new((i - ln) as nat, |k: int| 0x30u8));
            }
            i += 1;
        }
        proof {
            assert(out@ =~= inc_digits(u@));
        }
    }
    out
}

fn zeros_end_exec(s: &[u8], i: usize) -> (r: usize)
    requires
        i <= s@.len(),
    ensures
        r as int == zeros_end(s@, i as int),
        i <= r <= s@.len(),
    decreases s@.len() - i,
{
    if i >= s.len() {
        s.len()
    } else if s[i] == 0x30 {
        zeros_end_exec(s, i + 1)
    } else {
        i
    }
}

/// The unrounded output digits of significand `dd` with point `p`, built
/// digit by digit.
fn build_raw(dd: &Vec<u8>, p: i64) -> (u: Vec<u8>)
    requires
        -0x7fff_ffff <= p <= 0x7fff_ffff,
        forall|k: int| 0 <= k < dd@.len() ==> is_digit(dd@[k]),
    ensures
        u@ == raw_digits(dd@, p as int),
        forall|k: int| 0 <= k < u@.len() ==> is_digit(u@[k]),
{
    let mut u: Vec<u8> = Vec::new();
    if p <= 0 {
        u.push(0x30);
        proof {
            assert(u@ =~= seq![0x30u8]);
        }
    } else {
        let pn: usize = p as usize;
        proof {
            assert(u@ =~= Seq::new(0, |k: int| dig_at(dd@, k)));
        }
        let mut i: usize = 0;
        while i < pn
            invariant
                i <= pn,
                pn as int == p as int,
                p <= 0x7fff_ffff,
                u@ == Seq::new(i as nat, |k: int| dig_at(dd@, k)),
            decreases pn - i,
        {
            let b = dig_at_exec(dd, i as i64);
            u.push(b);
            proof {
                assert(u@ =~= Seq::new((i + 1) as nat, |k: int| dig_at(dd@, k)));
            }
            i += 1;
        }
    }
    u.push(dig_at_exec(dd, p));
    u.push(dig_at_exec(dd, p + 1));
    proof {
        assert(u@ =~= raw_digits(dd@, p as int));
        assert forall|k: int| 0 <= k < u@.len() implies is_digit(u@[k]) by {
            assert(is_digit(dig_at(dd@, k)));
        }
    }
    u
}

/// The display form: strip, punctuate and sign the rounded digits.
fn render_exec(neg: bool, r: &Vec<u8>) -> (out: Vec<u8>)
    requires
        r@.len() >= 2,
    ensures
        out@ == render(neg, r@),
{
    let rl = r.len();
    let mut iv: Vec<u8> = Vec::new();
    push_range(&mut iv, r.as_slice(), 0, rl - 2);
    proof {
        assert(iv@ =~= r@.subrange(0, r@.len() - 2));
    }
    let zs = zeros_end_exec(iv.as_slice(), 0);
    let mut out: Vec<u8> = Vec::new();
    out.push(0x24);
    if neg {
        out.push(0x2d);
    }
    if zs == iv.len() {
        out.push(0x30);
    } else {
        push_range(&mut out, iv.as_slice(), zs, iv.len());
    }
    out.push(0x2e);
    push_range(&mut out, r.as_slice(), rl - 2, rl);
    proof {
        assert(out@ =~= render(neg, r@));
    }
    out
}

/// Render a price token for display, two decimals, or nothing where the
/// token is not a number this formatter covers.
pub fn format_price(t: &[u8]) -> (r: Option<Vec<u8>>)
    requires
        t@.len() < 0x4000_0000,
    ensures
        r matches Some(v) ==> Some(v@) == spec_format_price(t@),
        r is None ==> spec_format_price(t@) is None,
{
    if !is_number_exec(t) {
        return None;
    }
    let e = num_exp_exec(t);
    if e == 100000 || e == -100000 {
        return None;
    }
    let (i0, ie, fe) = num_positions(t);
    let mut dd: Vec<u8> = Vec::new();
    push_range(&mut dd, t, i0, ie);
    if fe > ie {
        push_range(&mut dd, t, ie + 1, fe);
    }
    proof {
        assert(dd@ =~= num_digits(t@));
        lemma_digits_run(t@, i0 as int);
        lemma_digits_run(t@, ie + 1 as int);
        assert(forall|k: int| 0 <= k < dd@.len() ==> is_digit(dd@[k]));
    }
    let p: i64 = (ie as i64) - (i0 as i64) + e;
    let u = build_raw(&dd, p);
    let ru = dig_at_exec(&dd, p + 2);
    let r: Vec<u8> = if ru >= 0x35 {
        inc_vec(&u)
    } else {
        u
    };
    proof {
        assert(raw_digits(dd@, p as int).len() >= 3);
        if rounds_up(dd@, p as int) {
            assert(r@ == inc_digits(raw_digits(dd@, p as int)));
            lemma_last_non9_bounds(raw_digits(dd@, p as int));
            assert(r@.len() >= 3);
        }
    }
    let neg = t.len() > 0 && t[0] == 0x2d;
    let out = render_exec(neg, &r);
    proof {
        assert(Some(out@) == spec_format_price(t@));
    }
    Some(out)
}

} // verus!
