use vstd::prelude::*;
use crate::ascii::{spec_lower, lower_bytes, bytes_eq};

verus! {

/// A parsed chat command: the closed command set of the bot.
#[derive(Clone, Debug, PartialEq, Eq)]
pub enum Command {
    /// `/start`
    Start,
    /// `/help`
    Help,
    /// `/price <symbol>` or `/market <symbol>`; the symbol may be empty.
    PriceQuery(Vec<u8>),
    /// Anything else, carrying the raw message text.
    Unknown(Vec<u8>),
}

/// The mathematical model of a `Command`.
pub enum CommandView {
    Start,
    Help,
    PriceQuery(Seq<u8>),
    Unknown(Seq<u8>),
}

impl View for Command {
    type V = CommandView;

    open spec fn view(&self) -> CommandView {
        match self {
            Command::Start => CommandView::Start,
            Command::Help => CommandView::Help,
            Command::PriceQuery(s) => CommandView::PriceQuery(s@),
            Command::Unknown(s) => CommandView::Unknown(s@),
        }
    }
}

/// The bytes of `"/start"`.
pub open spec fn lit_start() -> Seq<u8> {
    seq![0x2fu8, 0x73, 0x74, 0x61, 0x72, 0x74]
}

/// The bytes of `"/help"`.
pub open spec fn lit_help() -> Seq<u8> {
    seq![0x2fu8, 0x68, 0x65, 0x6c, 0x70]
}

/// The bytes of `"/price"`.
pub open spec fn lit_price() -> Seq<u8> {
    seq![0x2fu8, 0x70, 0x72, 0x69, 0x63, 0x65]
}

/// The bytes of `"/market"`.
pub open spec fn lit_market() -> Seq<u8> {
    seq![0x2fu8, 0x6d, 0x61, 0x72, 0x6b, 0x65, 0x74]
}

/// Index of the first space at or after `i`, or the length of `t` if there is none.
pub open spec fn space_pos(t: Seq<u8>, i: int) -> int
    decreases t.len() - i,
{
    if i < 0 || i >= t.len() {
        t.len() as int
    } else if t[i] == 0x20 {
        i
    } else {
        space_pos(t, i + 1)
    }
}

/// Index of the first non-space byte at or after `i`, or the length of `t` if there is none.
pub open spec fn nonspace_pos(t: Seq<u8>, i: int) -> int
    decreases t.len() - i,
{
    if i < 0 || i >= t.len() {
        t.len() as int
    } else if t[i] != 0x20 {
        i
    } else {
        nonspace_pos(t, i + 1)
    }
}

/// What `parse` returns: the first word of the message, lower-cased ASCII-wise,
/// selects the command; for a price command the argument is the rest of the
/// message after the word and any following spaces; any other first word gives
/// `Unknown` carrying the whole message.
pub open spec fn spec_parse(t: Seq<u8>) -> CommandView {
    let he = space_pos(t, 0);
    let h = spec_lower(t.subrange(0, he));
    if h == lit_start() {
        CommandView::Start
    } else if h == lit_help() {
        CommandView::Help
    } else if h == lit_price() || h == lit_market() {
        CommandView::PriceQuery(t.subrange(nonspace_pos(t, he), t.len() as int))
    } else {
        CommandView::Unknown(t)
    }
}

fn space_pos_exec(t: &[u8], i: usize) -> (r: usize)
    requires
        i <= t@.len(),
    ensures
        r as int == space_pos(t@, i as int),
        i <= r <= t@.len(),
    decreases t@.len() - i,
{
    if i >= t.len() {
        t.len()
    } else if t[i] == 0x20 {
        i
    } else {
        space_pos_exec(t, i + 1)
    }
}

fn nonspace_pos_exec(t: &[u8], i: usize) -> (r: usize)
    requires
        i <= t@.len(),
    ensures
        r as int == nonspace_pos(t@, i as int),
        i <= r <= t@.len(),
    decreases t@.len() - i,
{
    if i >= t.len() {
        t.len()
    } else if t[i] != 0x20 {
        i
    } else {
        nonspace_pos_exec(t, i + 1)
    }
}

fn lit_start_vec() -> (r: Vec<u8>)
    ensures
        r@ == lit_start(),
{
    let v = vec![0x2fu8, 0x73, 0x74, 0x61, 0x72, 0x74];
    proof {
        assert(v@ =~= lit_start());
    }
    v
}

fn lit_help_vec() -> (r: Vec<u8>)
    ensures
        r@ == lit_help(),
{
    let v = vec![0x2fu8, 0x68, 0x65, 0x6c, 0x70];
    proof {
        assert(v@ =~= lit_help());
    }
    v
}

fn lit_price_vec() -> (r: Vec<u8>)
    ensures
        r@ == lit_price(),
{
    let v = vec![0x2fu8, 0x70, 0x72, 0x69, 0x63, 0x65];
    proof {
        assert(v@ =~= lit_price());
    }
    v
}

fn lit_market_vec() -> (r: Vec<u8>)
    ensures
        r@ == lit_market(),
{
    let v = vec![0x2fu8, 0x6d, 0x61, 0x72, 0x6b, 0x65, 0x74];
    proof {
        assert(v@ =~= lit_market());
    }
    v
}

/// Map raw message text to a `Command`: case-insensitive recognition of
/// `/start`, `/help`, `/price <symbol>` and `/market <symbol>`, with
/// `Unknown` as the fallback. A pure function of the text.
pub fn parse(text: &[u8]) -> (c: Command)
    ensures
        c@ == spec_parse(text@),
{
    let he = space_pos_exec(text, 0);
    let head = lower_bytes(&text[0..he]);
    if bytes_eq(head.as_slice(), lit_start_vec().as_slice()) {
        Command::Start
    } else if bytes_eq(head.as_slice(), lit_help_vec().as_slice()) {
        Command::Help
    } else if bytes_eq(head.as_slice(), lit_price_vec().as_slice())
        || bytes_eq(head.as_slice(), lit_market_vec().as_slice()) {
        let a = nonspace_pos_exec(text, he);
        let mut arg: Vec<u8> = Vec::new();
        let mut i: usize = a;
        while i < text.len()
            invariant
                a <= i <= text@.len(),
                arg@ == text@.subrange(a as int, i as int),
            decreases text@.len() - i,
        {
            arg.push(text[i]);
            proof {
                assert(arg@ =~= text@.subrange(a as int, i + 1 as int));
            }
            i += 1;
        }
        Command::PriceQuery(arg)
    } else {
        let mut raw: Vec<u8> = Vec::new();
        let mut i: usize = 0;
        while i < text.len()
            invariant
                i <= text@.len(),
                raw@ == text@.subrange(0, i as int),
            decreases text@.len() - i,
        {
            raw.push(text[i]);
            proof {
                assert(raw@ =~= text@.subrange(0, i + 1 as int));
            }
            i += 1;
        }
        proof {
            assert(raw@ =~= text@);
        }
        Command::Unknown(raw)
    }
}

} // verus!
