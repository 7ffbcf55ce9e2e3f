use vstd::prelude::*;
use crate::ascii::spec_upper;
use crate::json::{
    spec_extract_price, is_digit, is_delim, is_prim_token, is_ws, digits_end, prim_end, str_end,
    ws_end, val_end, obj_rest, PriceLookup,
};
use crate::money::{spec_format_price, is_number, num_digits, raw_digits, dig_at, render};
use crate::quote::{spec_fetch_price, spec_price_reply, FetchErrorView, lit_not_found};

verus! {

/// A run that is all digits ends only at the end.
proof fn lemma_digits_end_all(s: Seq<u8>, i: int)
    requires
        0 <= i <= s.len(),
        forall|k: int| i <= k < s.len() ==> is_digit(s[k]),
    ensures
        digits_end(s, i) == s.len(),
    decreases s.len() - i,
{
    if i < s.len() {
        lemma_digits_end_all(s, i + 1);
    }
}

/// A whole-dollar price token — digits only, with no leading zero — is shown
/// exactly as itself, with `$` before it and `.00` after it.
#[verifier::rlimit(100)]
#[verifier::spinoff_prover]
pub proof fn lemma_whole_dollars_shown_exactly(tok: Seq<u8>)
    requires
        tok.len() >= 1,
        tok[0] != 0x30,
        forall|k: int| 0 <= k < tok.len() ==> is_digit(tok[k]),
    ensures
        spec_format_price(tok) == Some(seq![0x24u8] + tok + seq![0x2eu8, 0x30, 0x30]),
{
    lemma_digits_end_all(tok, 0);
    let dd = num_digits(tok);
    assert(dd =~= tok);
    let p = tok.len() as int;
    let u = raw_digits(dd, p);
    assert(Seq::new(p as nat, |k: int| dig_at(dd, k)) =~= tok);
    assert(u =~= tok + seq![0x30u8, 0x30]);
    assert(dig_at(dd, p + 2) == 0x30);
    assert(u.subrange(0, u.len() - 2) =~= tok);
    assert(u.subrange(u.len() - 2, u.len() as int) =~= seq![0x30u8, 0x30]);
    assert(render(false, u) =~= seq![0x24u8] + tok + seq![0x2eu8, 0x30, 0x30]);
    assert(spec_format_price(tok) == Some(render(false, u)));
}

/// For any 2xx response whose body carries a numeric USD price for the
/// symbol, the fetch returns exactly that price rendered for display.
pub proof fn lemma_price_present(
    sym: Seq<u8>,
    status: u16,
    body: Seq<u8>,
    tok: Seq<u8>,
    shown: Seq<u8>,
)
    requires
        200 <= status < 300,
        spec_extract_price(body, spec_upper(sym)) == PriceLookup::Token(tok),
        spec_format_price(tok) == Some(shown),
    ensures
        spec_fetch_price(sym, status, body) == Ok::<Seq<u8>, FetchErrorView>(shown),
{
}

/// A well-formed 2xx response without the symbol key, the quote currency or
/// a numeric price field is not an error: the fetch succeeds with the
/// sentinel `"Data not found"`.
pub proof fn lemma_absent_price_is_not_an_error(sym: Seq<u8>, status: u16, body: Seq<u8>)
    requires
        200 <= status < 300,
        spec_extract_price(body, spec_upper(sym)) == PriceLookup::Missing,
    ensures
        spec_fetch_price(sym, status, body) == Ok::<Seq<u8>, FetchErrorView>(lit_not_found()),
{
}

/// Every transport-level failure that reaches the evaluator — a non-2xx
/// status, or a body that is not one well-formed JSON object — is an `Err`,
/// and so stays distinguishable from the successful not-found sentinel.
pub proof fn lemma_transport_failure_is_err(sym: Seq<u8>, status: u16, body: Seq<u8>)
    requires
        !(200 <= status < 300) || spec_extract_price(body, spec_upper(sym))
            == PriceLookup::Malformed,
    ensures
        spec_fetch_price(sym, status, body) is Err,
{
}

/// Replies are a function of the request and the upstream response alone:
/// two evaluations of the same symbol against the same status and body give
/// the same reply text, so repeating a request changes nothing.
pub proof fn lemma_reply_idempotent(
    sym: Seq<u8>,
    status: u16,
    body: Seq<u8>,
    r1: Seq<u8>,
    r2: Seq<u8>,
)
    requires
        r1 == spec_price_reply(sym, spec_fetch_price(sym, status, body)),
        r2 == spec_price_reply(sym, spec_fetch_price(sym, status, body)),
    ensures
        r1 == r2,
{
}



/// For a 2xx status, the fetch succeeds with the sentinel `"Data not found"`
/// exactly when the body is one well-formed JSON value in which the price
/// path is absent, leads to a non-number, or leads to a number the formatter
/// does not cover: never for a transport-level failure, and never when a
/// price is rendered.
pub proof fn lemma_sentinel_iff(sym: Seq<u8>, status: u16, body: Seq<u8>)
    requires
        200 <= status < 300,
    ensures
        (spec_fetch_price(sym, status, body) == Ok::<Seq<u8>, FetchErrorView>(lit_not_found()))
            <==> (match spec_extract_price(body, spec_upper(sym)) {
            PriceLookup::Malformed => false,
            PriceLookup::Missing => true,
            PriceLookup::Token(t) => spec_format_price(t) is None,
        }),
{
    match spec_extract_price(body, spec_upper(sym)) {
        PriceLookup::Token(t) => {
            match spec_format_price(t) {
                Some(x) => {
                    assert(x[0] == 0x24);
                    assert(lit_not_found()[0] == 0x44);
                    assert(x != lit_not_found());
                },
                None => {},
            }
        },
        _ => {},
    }
}

/// A quoted segment without quotes or backslashes ends at its closing quote.
proof fn lemma_str_end_plain(s: Seq<u8>, a: int, b: int)
    requires
        0 <= a <= b < s.len(),
        forall|k: int| a <= k < b ==> s[k] != 0x22 && s[k] != 0x5c,
        s[b] == 0x22,
    ensures
        str_end(s, a) == Some(b + 1),
    decreases b - a,
{
    if a < b {
        lemma_str_end_plain(s, a + 1, b);
    }
}

/// A run of non-delimiter bytes ends at the first delimiter (or the end).
proof fn lemma_prim_end_run(s: Seq<u8>, a: int, b: int)
    requires
        0 <= a <= b <= s.len(),
        forall|k: int| a <= k < b ==> !is_delim(s[k]),
        b == s.len() || is_delim(s[b]),
    ensures
        prim_end(s, a) == b,
    decreases b - a,
{
    if a < b {
        lemma_prim_end_run(s, a + 1, b);
    }
}

/// `{"data":{"` — the head of a canonical quote response body.
pub open spec fn lit_body_head() -> Seq<u8> {
    seq![0x7bu8, 0x22, 0x64, 0x61, 0x74, 0x61, 0x22, 0x3a, 0x7b, 0x22]
}

/// `":{"quote":{"USD":{"price":` — between the symbol and the price token.
pub open spec fn lit_body_mid() -> Seq<u8> {
    seq![0x22u8, 0x3a, 0x7b, 0x22, 0x71, 0x75, 0x6f, 0x74, 0x65, 0x22, 0x3a, 0x7b, 0x22,
        0x55, 0x53, 0x44, 0x22, 0x3a, 0x7b, 0x22, 0x70, 0x72, 0x69, 0x63, 0x65, 0x22, 0x3a]
}

/// `}}}}}` — the tail of a canonical quote response body.
pub open spec fn lit_body_tail() -> Seq<u8> {
    seq![0x7du8, 0x7d, 0x7d, 0x7d, 0x7d]
}

/// The canonical quote response body
/// `{"data":{"<sym>":{"quote":{"USD":{"price":<tok>}}}}}`.
pub open spec fn mk_quote_body(sym: Seq<u8>, tok: Seq<u8>) -> Seq<u8> {
    lit_body_head() + sym + lit_body_mid() + tok + lit_body_tail()
}



/// Scanning an object of exactly one member, written without insignificant
/// whitespace: with `i` at the member's opening quote, `kc` the raw key
/// bytes, the member's value ending at `m`, and `}` at `m`, the scan closes
/// at `m + 1` and finds the value exactly when the searched key is `kc`.
proof fn lemma_obj_one(s: Seq<u8>, i: int, kc: Seq<u8>, key2: Seq<u8>, m: int, f: nat)
    requires
        f >= 1,
        0 <= i,
        i + 3 + kc.len() < s.len(),
        s[i] == 0x22,
        forall|k: int| 0 <= k < kc.len() ==> s[i + 1 + k] == kc[k],
        forall|k: int| 0 <= k < kc.len() ==> kc[k] != 0x22 && kc[k] != 0x5c,
        s[i + 1 + kc.len()] == 0x22,
        s[i + 2 + kc.len()] == 0x3a,
        !is_ws(s[i + 3 + kc.len()]),
        val_end(s, i + 3 + kc.len(), (f - 1) as nat) == Some(m),
        0 <= m < s.len(),
        s[m] == 0x7d,
    ensures
        obj_rest(s, i, key2, f) == Some(
            (m + 1, if kc == key2 { Some(i + 3 + kc.len()) } else { None::<int> }),
        ),
{
    let ll = kc.len() as int;
    assert(ws_end(s, i) == i);
    assert forall|k: int| i + 1 <= k < i + 1 + ll implies s[k] != 0x22 && s[k] != 0x5c by {
        assert(s[k] == kc[k - i - 1]);
    }
    lemma_str_end_plain(s, i + 1, i + 1 + ll);
    assert(str_end(s, i + 1) == Some(i + 2 + ll));
    assert(!is_ws(0x3a));
    assert(ws_end(s, i + 2 + ll) == i + 2 + ll);
    assert(ws_end(s, i + 3 + ll) == i + 3 + ll);
    assert(s.subrange(i + 1, i + 1 + ll) =~= kc);
    assert(!is_ws(0x7d));
    assert(ws_end(s, m) == m);
    if kc == key2 {
        assert(obj_rest(s, i, key2, f) == Some((m + 1, Some(i + 3 + ll))));
    } else {
        assert(s.subrange(i + 1, i + 1 + ll) != key2);
        assert(obj_rest(s, i, key2, f) == Some((m + 1, None::<int>)));
    }
}





/// The requirements on the symbol and the token for a canonical body: the
/// symbol holds no quote and no backslash, and the token is one primitive
/// value token.
pub open spec fn canonical_parts(sym: Seq<u8>, tok: Seq<u8>) -> bool {
    &&& 1 <= sym.len()
    &&& forall|k: int| 0 <= k < sym.len() ==> sym[k] != 0x22 && sym[k] != 0x5c
    &&& 1 <= tok.len()
    &&& forall|k: int| 0 <= k < tok.len() ==> !is_delim(tok[k])
    &&& tok[0] != 0x22 && tok[0] != 0x7b && tok[0] != 0x5b
    &&& is_prim_token(tok)
}

/// Where each piece of the canonical body lies.
spec fn body_layout(sym: Seq<u8>, tok: Seq<u8>) -> bool {
    let s = mk_quote_body(sym, tok);
    let sl = sym.len() as int;
    let tl = tok.len() as int;
    &&& s.len() == 42 + sl + tl
    &&& (forall|k: int| 0 <= k < 10 ==> s[k] == lit_body_head()[k])
    &&& (forall|k: int| 0 <= k < sl ==> s[10 + k] == sym[k])
    &&& (forall|k: int| 0 <= k < 27 ==> s[10 + sl + k] == lit_body_mid()[k])
    &&& (forall|k: int| 0 <= k < tl ==> s[37 + sl + k] == tok[k])
    &&& (forall|k: int| 0 <= k < 5 ==> s[37 + sl + tl + k] == lit_body_tail()[k])
}

#[verifier::rlimit(100)]
#[verifier::spinoff_prover]
proof fn lemma_body_layout(sym: Seq<u8>, tok: Seq<u8>)
    ensures
        body_layout(sym, tok),
{
    let s = mk_quote_body(sym, tok);
    let sl = sym.len() as int;
    let tl = tok.len() as int;
    assert forall|k: int| 0 <= k < 10 implies s[k] == lit_body_head()[k] by {}
    assert forall|k: int| 0 <= k < 27 implies s[10 + sl + k] == lit_body_mid()[k] by {}
    assert forall|k: int| 0 <= k < tl implies s[37 + sl + k] == tok[k] by {}
    assert forall|k: int| 0 <= k < 5 implies s[37 + sl + tl + k] == lit_body_tail()[k] by {}
}




/// Every structural byte of the canonical body, by position, together with
/// the key regions; and that no key byte is a quote or a backslash.
spec fn anchor_bytes(sym: Seq<u8>, tok: Seq<u8>) -> bool {
    let s = mk_quote_body(sym, tok);
    let sl = sym.len() as int;
    let tl = tok.len() as int;
    let t1 = 37 + sl + tl;
    &&& s.len() == 42 + sl + tl
    &&& s[0] == 0x7b && s[1] == 0x22 && s[6] == 0x22 && s[7] == 0x3a && s[8] == 0x7b
    &&& (forall|k: int| 0 <= k < 4 ==> s[2 + k] == crate::json::lit_data()[k])
    &&& s[9] == 0x22 && s[10 + sl] == 0x22 && s[11 + sl] == 0x3a && s[12 + sl] == 0x7b
    &&& (forall|k: int| 0 <= k < sl ==> s[10 + k] == sym[k])
    &&& s[13 + sl] == 0x22 && s[19 + sl] == 0x22 && s[20 + sl] == 0x3a && s[21 + sl] == 0x7b
    &&& (forall|k: int| 0 <= k < 5 ==> s[14 + sl + k] == crate::json::lit_quote()[k])
    &&& s[22 + sl] == 0x22 && s[26 + sl] == 0x22 && s[27 + sl] == 0x3a && s[28 + sl] == 0x7b
    &&& (forall|k: int| 0 <= k < 3 ==> s[23 + sl + k] == crate::json::lit_usd()[k])
    &&& s[29 + sl] == 0x22 && s[35 + sl] == 0x22 && s[36 + sl] == 0x3a
    &&& (forall|k: int| 0 <= k < 5 ==> s[30 + sl + k] == crate::json::lit_price_key()[k])
    &&& (forall|k: int| 0 <= k < tl ==> s[37 + sl + k] == tok[k])
    &&& s[t1] == 0x7d && s[t1 + 1] == 0x7d && s[t1 + 2] == 0x7d && s[t1 + 3] == 0x7d && s[t1 + 4]
        == 0x7d
    &&& (forall|k: int| 0 <= k < 4 ==> crate::json::lit_data()[k] != 0x22
        && crate::json::lit_data()[k] != 0x5c)
    &&& (forall|k: int| 0 <= k < 5 ==> crate::json::lit_quote()[k] != 0x22
        && crate::json::lit_quote()[k] != 0x5c)
    &&& (forall|k: int| 0 <= k < 3 ==> crate::json::lit_usd()[k] != 0x22
        && crate::json::lit_usd()[k] != 0x5c)
    &&& (forall|k: int| 0 <= k < 5 ==> crate::json::lit_price_key()[k] != 0x22
        && crate::json::lit_price_key()[k] != 0x5c)
}

#[verifier::rlimit(100)]
#[verifier::spinoff_prover]
proof fn lemma_anchor_bytes(sym: Seq<u8>, tok: Seq<u8>)
    ensures
        anchor_bytes(sym, tok),
{
    lemma_body_layout(sym, tok);
    let s = mk_quote_body(sym, tok);
    let sl = sym.len() as int;
    let tl = tok.len() as int;
    assert forall|k: int| 0 <= k < tl implies s[37 + sl + k] == tok[k] by {}
}

/// With `i` at the opening quote of the one member of an object in the
/// canonical body and the member's value ending at `m`: prove the scan of
/// that object for one fuel value, given the value scan at one fuel less.
#[verifier::rlimit(100)]
#[verifier::spinoff_prover]
proof fn lemma_one_level(
    sym: Seq<u8>,
    tok: Seq<u8>,
    pos: int,
    kc: Seq<u8>,
    key2: Seq<u8>,
    m: int,
    g: nat,
)
    requires
        g >= 1,
        0 <= pos,
        pos + 3 + kc.len() < mk_quote_body(sym, tok).len(),
        mk_quote_body(sym, tok)[pos] == 0x22,
        forall|k: int| 0 <= k < kc.len() ==> mk_quote_body(sym, tok)[pos + 1 + k] == kc[k],
        forall|k: int| 0 <= k < kc.len() ==> kc[k] != 0x22 && kc[k] != 0x5c,
        mk_quote_body(sym, tok)[pos + 1 + kc.len()] == 0x22,
        mk_quote_body(sym, tok)[pos + 2 + kc.len()] == 0x3a,
        !is_ws(mk_quote_body(sym, tok)[pos + 3 + kc.len()]),
        val_end(mk_quote_body(sym, tok), pos + 3 + kc.len(), (g - 1) as nat) == Some(m),
        0 <= m < mk_quote_body(sym, tok).len(),
        mk_quote_body(sym, tok)[m] == 0x7d,
    ensures
        obj_rest(mk_quote_body(sym, tok), pos, key2, g) == Some(
            (m + 1, if kc == key2 {
                Some(pos + 3 + kc.len())
            } else {
                None::<int>
            }),
        ),
{
    lemma_obj_one(mk_quote_body(sym, tok), pos, kc, key2, m, g);
}

/// The scan of the price token, for one fuel value.
#[verifier::rlimit(100)]
#[verifier::spinoff_prover]
proof fn lemma_val_tok(sym: Seq<u8>, tok: Seq<u8>, g: nat)
    requires
        canonical_parts(sym, tok),
        anchor_bytes(sym, tok),
        g >= 1,
    ensures
        val_end(mk_quote_body(sym, tok), 37 + sym.len() as int, g) == Some(
            37 + sym.len() as int + tok.len() as int,
        ),
        prim_end(mk_quote_body(sym, tok), 37 + sym.len() as int) == 37 + sym.len() as int
            + tok.len() as int,
{
    let s = mk_quote_body(sym, tok);
    let t0 = 37 + sym.len() as int;
    let t1 = 37 + sym.len() as int + tok.len() as int;
    assert forall|k: int| t0 <= k < t1 implies !is_delim(s[k]) by {
        assert(s[k] == tok[k - t0]);
    }
    assert(is_delim(0x7d));
    assert(s[t1] == 0x7d);
    lemma_prim_end_run(s, t0, t1);
    assert(s[t0] == tok[0]);
    assert(!is_ws(s[t0]));
    assert(s.subrange(t0, t1) =~= tok);
    assert(is_prim_token(s.subrange(t0, t1)));
}

/// The scan of the object that holds `price`, for one fuel value.
#[verifier::rlimit(100)]
#[verifier::spinoff_prover]
proof fn lemma_obj_price(sym: Seq<u8>, tok: Seq<u8>, key2: Seq<u8>, g: nat)
    requires
        canonical_parts(sym, tok),
        anchor_bytes(sym, tok),
        g >= 2,
    ensures
        obj_rest(mk_quote_body(sym, tok), 29 + sym.len() as int, key2, g) == Some(
            (38 + sym.len() as int + tok.len() as int, if crate::json::lit_price_key() == key2 {
                Some(37 + sym.len() as int)
            } else {
                None::<int>
            }),
        ),
{
    let s = mk_quote_body(sym, tok);
    let sl = sym.len() as int;
    let t1 = 37 + sl + tok.len() as int;
    lemma_val_tok(sym, tok, (g - 1) as nat);
    assert(!is_ws(s[37 + sl]));
    assert(s[t1] == 0x7d);
    lemma_one_level(sym, tok, 29 + sl, crate::json::lit_price_key(), key2, t1, g);
}

/// The scan of the `USD` record — the value under the `USD` key — for one
/// fuel value.
#[verifier::rlimit(100)]
#[verifier::spinoff_prover]
proof fn lemma_val_usd(sym: Seq<u8>, tok: Seq<u8>, g: nat)
    requires
        canonical_parts(sym, tok),
        anchor_bytes(sym, tok),
        g >= 3,
    ensures
        val_end(mk_quote_body(sym, tok), 28 + sym.len() as int, g) == Some(
            38 + sym.len() as int + tok.len() as int,
        ),
{
    let s = mk_quote_body(sym, tok);
    lemma_obj_price(sym, tok, Seq::<u8>::empty(), (g - 1) as nat);
    assert(s[28 + sym.len() as int] == 0x7b);
    assert(crate::json::lit_price_key().len() != 0);
    assert(crate::json::lit_price_key() != Seq::<u8>::empty());
}

/// The scan of the object that holds `USD`, for one fuel value.
#[verifier::rlimit(100)]
#[verifier::spinoff_prover]
proof fn lemma_obj_usd(sym: Seq<u8>, tok: Seq<u8>, key2: Seq<u8>, g: nat)
    requires
        canonical_parts(sym, tok),
        anchor_bytes(sym, tok),
        g >= 4,
    ensures
        obj_rest(mk_quote_body(sym, tok), 22 + sym.len() as int, key2, g) == Some(
            (39 + sym.len() as int + tok.len() as int, if crate::json::lit_usd() == key2 {
                Some(28 + sym.len() as int)
            } else {
                None::<int>
            }),
        ),
{
    let s = mk_quote_body(sym, tok);
    let sl = sym.len() as int;
    let t1 = 37 + sl + tok.len() as int;
    lemma_val_usd(sym, tok, (g - 1) as nat);
    assert(!is_ws(s[28 + sl]));
    assert(s[t1 + 1] == 0x7d);
    lemma_one_level(sym, tok, 22 + sl, crate::json::lit_usd(), key2, t1 + 1, g);
}

/// The scan of the quote record, for one fuel value.
#[verifier::rlimit(100)]
#[verifier::spinoff_prover]
proof fn lemma_val_quote(sym: Seq<u8>, tok: Seq<u8>, g: nat)
    requires
        canonical_parts(sym, tok),
        anchor_bytes(sym, tok),
        g >= 5,
    ensures
        val_end(mk_quote_body(sym, tok), 21 + sym.len() as int, g) == Some(
            39 + sym.len() as int + tok.len() as int,
        ),
{
    let s = mk_quote_body(sym, tok);
    lemma_obj_usd(sym, tok, Seq::<u8>::empty(), (g - 1) as nat);
    assert(s[21 + sym.len() as int] == 0x7b);
    assert(crate::json::lit_usd().len() != 0);
    assert(crate::json::lit_usd() != Seq::<u8>::empty());
}

/// The scan of the object that holds `quote`, for one fuel value.
#[verifier::rlimit(100)]
#[verifier::spinoff_prover]
proof fn lemma_obj_quote(sym: Seq<u8>, tok: Seq<u8>, key2: Seq<u8>, g: nat)
    requires
        canonical_parts(sym, tok),
        anchor_bytes(sym, tok),
        g >= 6,
    ensures
        obj_rest(mk_quote_body(sym, tok), 13 + sym.len() as int, key2, g) == Some(
            (40 + sym.len() as int + tok.len() as int, if crate::json::lit_quote() == key2 {
                Some(21 + sym.len() as int)
            } else {
                None::<int>
            }),
        ),
{
    let s = mk_quote_body(sym, tok);
    let sl = sym.len() as int;
    let t1 = 37 + sl + tok.len() as int;
    lemma_val_quote(sym, tok, (g - 1) as nat);
    assert(!is_ws(s[21 + sl]));
    assert(s[t1 + 2] == 0x7d);
    lemma_one_level(sym, tok, 13 + sl, crate::json::lit_quote(), key2, t1 + 2, g);
}

/// The scan of the symbol's record, for one fuel value.
#[verifier::rlimit(100)]
#[verifier::spinoff_prover]
proof fn lemma_val_sym(sym: Seq<u8>, tok: Seq<u8>, g: nat)
    requires
        canonical_parts(sym, tok),
        anchor_bytes(sym, tok),
        g >= 7,
    ensures
        val_end(mk_quote_body(sym, tok), 12 + sym.len() as int, g) == Some(
            40 + sym.len() as int + tok.len() as int,
        ),
{
    let s = mk_quote_body(sym, tok);
    lemma_obj_quote(sym, tok, Seq::<u8>::empty(), (g - 1) as nat);
    assert(s[12 + sym.len() as int] == 0x7b);
    assert(crate::json::lit_quote().len() != 0);
    assert(crate::json::lit_quote() != Seq::<u8>::empty());
}

/// The scan of the `data` object — keyed by the symbol — for one fuel value.
#[verifier::rlimit(100)]
#[verifier::spinoff_prover]
proof fn lemma_obj_sym(sym: Seq<u8>, tok: Seq<u8>, key2: Seq<u8>, g: nat)
    requires
        canonical_parts(sym, tok),
        anchor_bytes(sym, tok),
        g >= 8,
    ensures
        obj_rest(mk_quote_body(sym, tok), 9, key2, g) == Some(
            (41 + sym.len() as int + tok.len() as int, if sym == key2 {
                Some(12 + sym.len() as int)
            } else {
                None::<int>
            }),
        ),
{
    let s = mk_quote_body(sym, tok);
    let sl = sym.len() as int;
    let t1 = 37 + sl + tok.len() as int;
    lemma_val_sym(sym, tok, (g - 1) as nat);
    assert(s[9] == 0x22);
    assert(s[10 + sl] == 0x22);
    assert(s[11 + sl] == 0x3a);
    assert(!is_ws(s[12 + sl]));
    assert(s[t1 + 3] == 0x7d);
    lemma_one_level(sym, tok, 9, sym, key2, t1 + 3, g);
}

/// The scan of the value of `data`, for one fuel value.
#[verifier::rlimit(100)]
#[verifier::spinoff_prover]
proof fn lemma_val_data(sym: Seq<u8>, tok: Seq<u8>, g: nat)
    requires
        canonical_parts(sym, tok),
        anchor_bytes(sym, tok),
        g >= 9,
    ensures
        val_end(mk_quote_body(sym, tok), 8, g) == Some(41 + sym.len() as int + tok.len() as int),
{
    let s = mk_quote_body(sym, tok);
    lemma_obj_sym(sym, tok, Seq::<u8>::empty(), (g - 1) as nat);
    assert(s[8] == 0x7b);
    assert(sym.len() != 0);
    assert(sym != Seq::<u8>::empty());
}

/// The scan of the top-level object, for one fuel value.
#[verifier::rlimit(100)]
#[verifier::spinoff_prover]
proof fn lemma_obj_data(sym: Seq<u8>, tok: Seq<u8>, key2: Seq<u8>, g: nat)
    requires
        canonical_parts(sym, tok),
        anchor_bytes(sym, tok),
        g >= 10,
    ensures
        obj_rest(mk_quote_body(sym, tok), 1, key2, g) == Some(
            (42 + sym.len() as int + tok.len() as int, if crate::json::lit_data() == key2 {
                Some(8int)
            } else {
                None::<int>
            }),
        ),
{
    let s = mk_quote_body(sym, tok);
    let sl = sym.len() as int;
    let t1 = 37 + sl + tok.len() as int;
    lemma_val_data(sym, tok, (g - 1) as nat);
    assert(s[1] == 0x22);
    assert(s[6] == 0x22);
    assert(s[7] == 0x3a);
    assert(!is_ws(s[8]));
    assert(s[t1 + 4] == 0x7d);
    lemma_one_level(sym, tok, 1, crate::json::lit_data(), key2, t1 + 4, g);
}

/// Building a canonical body around any symbol and any primitive price token
/// and then extracting gives back exactly that token: the scanner inverts the
/// canonical writer.
#[verifier::rlimit(100)]
#[verifier::spinoff_prover]
pub proof fn lemma_canonical_body_extracts(sym: Seq<u8>, tok: Seq<u8>)
    requires
        canonical_parts(sym, tok),
    ensures
        spec_extract_price(mk_quote_body(sym, tok), sym) == PriceLookup::Token(tok),
{
    let s = mk_quote_body(sym, tok);
    let sl = sym.len() as int;
    let tl = tok.len() as int;
    let t0 = 37 + sl;
    let t1 = 37 + sl + tl;
    let fb = crate::json::body_fuel(s);
    lemma_anchor_bytes(sym, tok);
    assert(fb >= 11);
    lemma_obj_data(sym, tok, crate::json::lit_data(), fb);
    lemma_obj_data(sym, tok, Seq::<u8>::empty(), (fb - 1) as nat);
    lemma_obj_sym(sym, tok, sym, fb);
    lemma_obj_quote(sym, tok, crate::json::lit_quote(), fb);
    lemma_obj_usd(sym, tok, crate::json::lit_usd(), fb);
    lemma_obj_price(sym, tok, crate::json::lit_price_key(), fb);
    lemma_val_tok(sym, tok, 1);
    assert(s[0] == 0x7b);
    assert(ws_end(s, 0) == 0);
    assert(crate::json::lit_data().len() != 0);
    assert(crate::json::lit_data() != Seq::<u8>::empty());
    assert(val_end(s, 0, fb) == Some(t1 + 5));
    assert(t1 + 5 == s.len());
    assert(ws_end(s, t1 + 5) == s.len());
    assert(s[8] == 0x7b);
    assert(s[12 + sl] == 0x7b);
    assert(s[21 + sl] == 0x7b);
    assert(s[28 + sl] == 0x7b);
    assert(s[t0] == tok[0]);
    assert(s.subrange(t0, t1) =~= tok);
    assert(spec_extract_price(s, sym) == PriceLookup::Token(tok));
}

/// End to end over the models: a 2xx response whose body is the canonical
/// quote object for the upper-cased symbol, carrying a whole-dollar price,
/// yields exactly the reply `Price of <sym>: $<tok>.00`.
#[verifier::rlimit(100)]
#[verifier::spinoff_prover]
pub proof fn lemma_canonical_price_reply(sym: Seq<u8>, tok: Seq<u8>, status: u16)
    requires
        200 <= status < 300,
        1 <= sym.len(),
        forall|k: int| 0 <= k < sym.len() ==> sym[k] != 0x22 && sym[k] != 0x5c,
        1 <= tok.len(),
        forall|k: int| 0 <= k < tok.len() ==> is_digit(tok[k]),
        tok[0] != 0x30,
    ensures
        spec_price_reply(sym, spec_fetch_price(sym, status, mk_quote_body(spec_upper(sym), tok)))
            == crate::quote::lit_price_of() + sym + crate::quote::lit_colon() + (seq![0x24u8]
            + tok + seq![0x2eu8, 0x30, 0x30]),
{
    let up = spec_upper(sym);
    let shown = seq![0x24u8] + tok + seq![0x2eu8, 0x30, 0x30];
    assert(up.len() == sym.len());
    assert forall|k: int| 0 <= k < up.len() implies up[k] != 0x22 && up[k] != 0x5c by {
        assert(up[k] == crate::ascii::spec_upper_byte(sym[k]));
    }
    assert forall|k: int| 0 <= k < tok.len() implies !is_delim(tok[k]) by {}
    lemma_digits_end_all(tok, 0);
    assert(is_number(tok));
    assert(is_prim_token(tok));
    assert(canonical_parts(up, tok));
    lemma_canonical_body_extracts(up, tok);
    lemma_whole_dollars_shown_exactly(tok);
    lemma_price_present(sym, status, mk_quote_body(up, tok), tok, shown);
}

} // verus!
