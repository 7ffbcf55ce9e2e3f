use vstd::prelude::*;
use crate::ascii::{spec_upper, upper_bytes};
use crate::commands::{Command, CommandView};
use crate::json::{spec_extract_price, extract_price, Extracted, PriceLookup};
use crate::money::{spec_format_price, format_price, push_range};

verus! {

/// The bytes of `"Welcome! Use /help to see available commands."`.
pub open spec fn lit_welcome() -> Seq<u8> {
    seq![0x57u8, 0x65, 0x6c, 0x63, 0x6f, 0x6d, 0x65, 0x21, 0x20, 0x55, 0x73, 0x65, 0x20, 0x2f, 0x68, 0x65, 0x6c, 0x70, 0x20, 0x74, 0x6f, 0x20, 0x73, 0x65, 0x65, 0x20, 0x61, 0x76, 0x61, 0x69, 0x6c, 0x61, 0x62, 0x6c, 0x65, 0x20, 0x63, 0x6f, 0x6d, 0x6d, 0x61, 0x6e, 0x64, 0x73, 0x2e]
}

/// Executable form of `lit_welcome`.
pub fn lit_welcome_vec() -> (r: Vec<u8>)
    ensures
        r@ == lit_welcome(),
{
    let v = vec![0x57u8, 0x65, 0x6c, 0x63, 0x6f, 0x6d, 0x65, 0x21, 0x20, 0x55, 0x73, 0x65, 0x20, 0x2f, 0x68, 0x65, 0x6c, 0x70, 0x20, 0x74, 0x6f, 0x20, 0x73, 0x65, 0x65, 0x20, 0x61, 0x76, 0x61, 0x69, 0x6c, 0x61, 0x62, 0x6c, 0x65, 0x20, 0x63, 0x6f, 0x6d, 0x6d, 0x61, 0x6e, 0x64, 0x73, 0x2e];
    proof {
        assert(v@ =~= lit_welcome());
    }
    v
}

/// The bytes of `"/start - Start the bot\n/help - Show help\n/price <symbol> - Get price of a cryptocurrency (e.g., /price btc)"`.
pub open spec fn lit_help_text() -> Seq<u8> {
    seq![0x2fu8, 0x73, 0x74, 0x61, 0x72, 0x74, 0x20, 0x2d, 0x20, 0x53, 0x74, 0x61, 0x72, 0x74, 0x20, 0x74, 0x68, 0x65, 0x20, 0x62, 0x6f, 0x74, 0x0a, 0x2f, 0x68, 0x65, 0x6c, 0x70, 0x20, 0x2d, 0x20, 0x53, 0x68, 0x6f, 0x77, 0x20, 0x68, 0x65, 0x6c, 0x70, 0x0a, 0x2f, 0x70, 0x72, 0x69, 0x63, 0x65, 0x20, 0x3c, 0x73, 0x79, 0x6d, 0x62, 0x6f, 0x6c, 0x3e, 0x20, 0x2d, 0x20, 0x47, 0x65, 0x74, 0x20, 0x70, 0x72, 0x69, 0x63, 0x65, 0x20, 0x6f, 0x66, 0x20, 0x61, 0x20, 0x63, 0x72, 0x79, 0x70, 0x74, 0x6f, 0x63, 0x75, 0x72, 0x72, 0x65, 0x6e, 0x63, 0x79, 0x20, 0x28, 0x65, 0x2e, 0x67, 0x2e, 0x2c, 0x20, 0x2f, 0x70, 0x72, 0x69, 0x63, 0x65, 0x20, 0x62, 0x74, 0x63, 0x29]
}

/// Executable form of `lit_help_text`.
pub fn lit_help_text_vec() -> (r: Vec<u8>)
    ensures
        r@ == lit_help_text(),
{
    let v = vec![0x2fu8, 0x73, 0x74, 0x61, 0x72, 0x74, 0x20, 0x2d, 0x20, 0x53, 0x74, 0x61, 0x72, 0x74, 0x20, 0x74, 0x68, 0x65, 0x20, 0x62, 0x6f, 0x74, 0x0a, 0x2f, 0x68, 0x65, 0x6c, 0x70, 0x20, 0x2d, 0x20, 0x53, 0x68, 0x6f, 0x77, 0x20, 0x68, 0x65, 0x6c, 0x70, 0x0a, 0x2f, 0x70, 0x72, 0x69, 0x63, 0x65, 0x20, 0x3c, 0x73, 0x79, 0x6d, 0x62, 0x6f, 0x6c, 0x3e, 0x20, 0x2d, 0x20, 0x47, 0x65, 0x74, 0x20, 0x70, 0x72, 0x69, 0x63, 0x65, 0x20, 0x6f, 0x66, 0x20, 0x61, 0x20, 0x63, 0x72, 0x79, 0x70, 0x74, 0x6f, 0x63, 0x75, 0x72, 0x72, 0x65, 0x6e, 0x63, 0x79, 0x20, 0x28, 0x65, 0x2e, 0x67, 0x2e, 0x2c, 0x20, 0x2f, 0x70, 0x72, 0x69, 0x63, 0x65, 0x20, 0x62, 0x74, 0x63, 0x29];
    proof {
        assert(v@ =~= lit_help_text());
    }
    v
}

/// The bytes of `"Unknown command: "`.
pub open spec fn lit_unknown_prefix() -> Seq<u8> {
    seq![0x55u8, 0x6e, 0x6b, 0x6e, 0x6f, 0x77, 0x6e, 0x20, 0x63, 0x6f, 0x6d, 0x6d, 0x61, 0x6e, 0x64, 0x3a, 0x20]
}

/// Executable form of `lit_unknown_prefix`.
pub fn lit_unknown_prefix_vec() -> (r: Vec<u8>)
    ensures
        r@ == lit_unknown_prefix(),
{
    let v = vec![0x55u8, 0x6e, 0x6b, 0x6e, 0x6f, 0x77, 0x6e, 0x20, 0x63, 0x6f, 0x6d, 0x6d, 0x61, 0x6e, 0x64, 0x3a, 0x20];
    proof {
        assert(v@ =~= lit_unknown_prefix());
    }
    v
}

/// The bytes of `"Usage: /price <symbol> (e.g., /price btc)"`.
pub open spec fn lit_usage() -> Seq<u8> {
    seq![0x55u8, 0x73, 0x61, 0x67, 0x65, 0x3a, 0x20, 0x2f, 0x70, 0x72, 0x69, 0x63, 0x65, 0x20, 0x3c, 0x73, 0x79, 0x6d, 0x62, 0x6f, 0x6c, 0x3e, 0x20, 0x28, 0x65, 0x2e, 0x67, 0x2e, 0x2c, 0x20, 0x2f, 0x70, 0x72, 0x69, 0x63, 0x65, 0x20, 0x62, 0x74, 0x63, 0x29]
}

/// Executable form of `lit_usage`.
pub fn lit_usage_vec() -> (r: Vec<u8>)
    ensures
        r@ == lit_usage(),
{
    let v = vec![0x55u8, 0x73, 0x61, 0x67, 0x65, 0x3a, 0x20, 0x2f, 0x70, 0x72, 0x69, 0x63, 0x65, 0x20, 0x3c, 0x73, 0x79, 0x6d, 0x62, 0x6f, 0x6c, 0x3e, 0x20, 0x28, 0x65, 0x2e, 0x67, 0x2e, 0x2c, 0x20, 0x2f, 0x70, 0x72, 0x69, 0x63, 0x65, 0x20, 0x62, 0x74, 0x63, 0x29];
    proof {
        assert(v@ =~= lit_usage());
    }
    v
}

/// The bytes of `"Data not found"`.
pub open spec fn lit_not_found() -> Seq<u8> {
    seq![0x44u8, 0x61, 0x74, 0x61, 0x20, 0x6e, 0x6f, 0x74, 0x20, 0x66, 0x6f, 0x75, 0x6e, 0x64]
}

/// Executable form of `lit_not_found`.
pub fn lit_not_found_vec() -> (r: Vec<u8>)
    ensures
        r@ == lit_not_found(),
{
    let v = vec![0x44u8, 0x61, 0x74, 0x61, 0x20, 0x6e, 0x6f, 0x74, 0x20, 0x66, 0x6f, 0x75, 0x6e, 0x64];
    proof {
        assert(v@ =~= lit_not_found());
    }
    v
}

/// The bytes of `"Error fetching data"`.
pub open spec fn lit_fetch_error() -> Seq<u8> {
    seq![0x45u8, 0x72, 0x72, 0x6f, 0x72, 0x20, 0x66, 0x65, 0x74, 0x63, 0x68, 0x69, 0x6e, 0x67, 0x20, 0x64, 0x61, 0x74, 0x61]
}

/// Executable form of `lit_fetch_error`.
pub fn lit_fetch_error_vec() -> (r: Vec<u8>)
    ensures
        r@ == lit_fetch_error(),
{
    let v = vec![0x45u8, 0x72, 0x72, 0x6f, 0x72, 0x20, 0x66, 0x65, 0x74, 0x63, 0x68, 0x69, 0x6e, 0x67, 0x20, 0x64, 0x61, 0x74, 0x61];
    proof {
        assert(v@ =~= lit_fetch_error());
    }
    v
}

/// The bytes of `"Price of "`.
pub open spec fn lit_price_of() -> Seq<u8> {
    seq![0x50u8, 0x72, 0x69, 0x63, 0x65, 0x20, 0x6f, 0x66, 0x20]
}

/// Executable form of `lit_price_of`.
pub fn lit_price_of_vec() -> (r: Vec<u8>)
    ensures
        r@ == lit_price_of(),
{
    let v = vec![0x50u8, 0x72, 0x69, 0x63, 0x65, 0x20, 0x6f, 0x66, 0x20];
    proof {
        assert(v@ =~= lit_price_of());
    }
    v
}

/// The bytes of `": "`.
pub open spec fn lit_colon() -> Seq<u8> {
    seq![0x3au8, 0x20]
}

/// Executable form of `lit_colon`.
pub fn lit_colon_vec() -> (r: Vec<u8>)
    ensures
        r@ == lit_colon(),
{
    let v = vec![0x3au8, 0x20];
    proof {
        assert(v@ =~= lit_colon());
    }
    v
}

/// The bytes of `"https://pro-api.coinmarketcap.com/v1/cryptocurrency/quotes/latest?symbol="`.
pub open spec fn lit_url_prefix() -> Seq<u8> {
    seq![0x68u8, 0x74, 0x74, 0x70, 0x73, 0x3a, 0x2f, 0x2f, 0x70, 0x72, 0x6f, 0x2d, 0x61, 0x70, 0x69, 0x2e, 0x63, 0x6f, 0x69, 0x6e, 0x6d, 0x61, 0x72, 0x6b, 0x65, 0x74, 0x63, 0x61, 0x70, 0x2e, 0x63, 0x6f, 0x6d, 0x2f, 0x76, 0x31, 0x2f, 0x63, 0x72, 0x79, 0x70, 0x74, 0x6f, 0x63, 0x75, 0x72, 0x72, 0x65, 0x6e, 0x63, 0x79, 0x2f, 0x71, 0x75, 0x6f, 0x74, 0x65, 0x73, 0x2f, 0x6c, 0x61, 0x74, 0x65, 0x73, 0x74, 0x3f, 0x73, 0x79, 0x6d, 0x62, 0x6f, 0x6c, 0x3d]
}

/// Executable form of `lit_url_prefix`.
pub fn lit_url_prefix_vec() -> (r: Vec<u8>)
    ensures
        r@ == lit_url_prefix(),
{
    let v = vec![0x68u8, 0x74, 0x74, 0x70, 0x73, 0x3a, 0x2f, 0x2f, 0x70, 0x72, 0x6f, 0x2d, 0x61, 0x70, 0x69, 0x2e, 0x63, 0x6f, 0x69, 0x6e, 0x6d, 0x61, 0x72, 0x6b, 0x65, 0x74, 0x63, 0x61, 0x70, 0x2e, 0x63, 0x6f, 0x6d, 0x2f, 0x76, 0x31, 0x2f, 0x63, 0x72, 0x79, 0x70, 0x74, 0x6f, 0x63, 0x75, 0x72, 0x72, 0x65, 0x6e, 0x63, 0x79, 0x2f, 0x71, 0x75, 0x6f, 0x74, 0x65, 0x73, 0x2f, 0x6c, 0x61, 0x74, 0x65, 0x73, 0x74, 0x3f, 0x73, 0x79, 0x6d, 0x62, 0x6f, 0x6c, 0x3d];
    proof {
        assert(v@ =~= lit_url_prefix());
    }
    v
}

/// Why a quote fetch failed, as distinct from the sentinel "Data not found"
/// result of a successful call.
pub enum FetchError {
    /// The transport itself failed before a response arrived; carries the
    /// cause as reported by the caller who performed the request.
    Transport(Vec<u8>),
    /// The upstream answered outside the 2xx range.
    Status(u16),
    /// The response body is not well-formed JSON of the scanned shape.
    MalformedBody,
}

/// The mathematical model of a `FetchError`.
pub enum FetchErrorView {
    Transport(Seq<u8>),
    Status(u16),
    MalformedBody,
}

impl View for FetchError {
    type V = FetchErrorView;

    open spec fn view(&self) -> FetchErrorView {
        match self {
            FetchError::Transport(c) => FetchErrorView::Transport(c@),
            FetchError::Status(s) => FetchErrorView::Status(*s),
            FetchError::MalformedBody => FetchErrorView::MalformedBody,
        }
    }
}

/// The model of a fetch result.
pub open spec fn res_view(r: Result<Vec<u8>, FetchError>) -> Result<Seq<u8>, FetchErrorView> {
    match r {
        Ok(v) => Ok(v@),
        Err(e) => Err(e@),
    }
}

/// The request URL for one symbol: the fixed quote endpoint with the symbol
/// as its query argument. The caller must pass the same upper-cased symbol
/// here and to `fetch_price`, since the upstream echoes it back as the key
/// under `data`.
pub fn quote_url(sym_upper: &[u8]) -> (r: Vec<u8>)
    ensures
        r@ == lit_url_prefix() + sym_upper@,
{
    let mut out = lit_url_prefix_vec();
    push_range(&mut out, sym_upper, 0, sym_upper.len());
    proof {
        assert(sym_upper@.subrange(0, sym_upper@.len() as int) =~= sym_upper@);
    }
    out
}

/// What evaluating a quote response must give: a non-2xx status is a
/// transport-level error; a body that is not one well-formed JSON value is a
/// transport-level error; a well-formed body without a numeric
/// `data.<SYM>.quote.USD.price` — among them one whose top-level value is no
/// object at all — is the successful sentinel `"Data not found"`; and a
/// numeric price is rendered to two decimals with a `$` prefix. The symbol is
/// upper-cased before the lookup.
pub open spec fn spec_fetch_price(sym: Seq<u8>, status: u16, body: Seq<u8>) -> Result<
    Seq<u8>,
    FetchErrorView,
> {
    if !(200 <= status < 300) {
        Err(FetchErrorView::Status(status))
    } else {
        match spec_extract_price(body, spec_upper(sym)) {
            PriceLookup::Malformed => Err(FetchErrorView::MalformedBody),
            PriceLookup::Missing => Ok(lit_not_found()),
            PriceLookup::Token(t) => match spec_format_price(t) {
                None => Ok(lit_not_found()),
                Some(x) => Ok(x),
            },
        }
    }
}

/// Evaluate one quote response for `sym`: the computing half of the quote
/// client. The caller performs the HTTP GET on `quote_url` and hands the
/// status and body here; a transport failure before any response never
/// reaches this function.
pub fn fetch_price(sym: &[u8], status: u16, body: &[u8]) -> (r: Result<Vec<u8>, FetchError>)
    requires
        body@.len() < 0x4000_0000,
    ensures
        res_view(r) == spec_fetch_price(sym@, status, body@),
{
    if !(200 <= status && status < 300) {
        return Err(FetchError::Status(status));
    }
    let up = upper_bytes(sym);
    match extract_price(body, up.as_slice()) {
        Extracted::Malformed => Err(FetchError::MalformedBody),
        Extracted::Missing => Ok(lit_not_found_vec()),
        Extracted::Token(t) => match format_price(t.as_slice()) {
            None => Ok(lit_not_found_vec()),
            Some(x) => Ok(x),
        },
    }
}

/// What handling a command asks of the caller.
pub enum Action {
    /// Send this reply; no network call is needed.
    Reply(Vec<u8>),
    /// Fetch a quote for this upper-cased symbol (via `quote_url`), then
    /// compose the reply with `fetch_price` and `price_reply`.
    Fetch(Vec<u8>),
}

/// The mathematical model of an `Action`.
pub enum ActionView {
    Reply(Seq<u8>),
    Fetch(Seq<u8>),
}

impl View for Action {
    type V = ActionView;

    open spec fn view(&self) -> ActionView {
        match self {
            Action::Reply(v) => ActionView::Reply(v@),
            Action::Fetch(v) => ActionView::Fetch(v@),
        }
    }
}

/// The decision for each command: fixed texts for `/start`, `/help` and
/// unknown commands, a usage hint for a price command without a symbol
/// (rejected before any network call), and otherwise a fetch of the
/// upper-cased symbol.
pub open spec fn spec_handle_command(c: CommandView) -> ActionView {
    match c {
        CommandView::Start => ActionView::Reply(lit_welcome()),
        CommandView::Help => ActionView::Reply(lit_help_text()),
        CommandView::PriceQuery(s) => if s.len() == 0 {
            ActionView::Reply(lit_usage())
        } else {
            ActionView::Fetch(spec_upper(s))
        },
        CommandView::Unknown(t) => ActionView::Reply(lit_unknown_prefix() + t),
    }
}

/// Decide what to do for one parsed command. Pure: the only I/O the bot
/// needs, the quote fetch, is handed back to the caller as an `Action`.
pub fn handle_command(cmd: &Command) -> (a: Action)
    ensures
        a@ == spec_handle_command(cmd@),
{
    match cmd {
        Command::Start => Action::Reply(lit_welcome_vec()),
        Command::Help => Action::Reply(lit_help_text_vec()),
        Command::PriceQuery(s) => {
            if s.len() == 0 {
                Action::Reply(lit_usage_vec())
            } else {
                Action::Fetch(upper_bytes(s.as_slice()))
            }
        },
        Command::Unknown(t) => {
            let mut out = lit_unknown_prefix_vec();
            push_range(&mut out, t.as_slice(), 0, t.len());
            proof {
                assert(t@.subrange(0, t@.len() as int) =~= t@);
            }
            Action::Reply(out)
        },
    }
}

/// The reply for a price query: `"Price of <sym>: "` followed by the fetched
/// display string, or by `"Error fetching data"` for any fetch error. Only
/// here are the error and not-found outcomes flattened into user-facing text.
pub open spec fn spec_price_reply(sym: Seq<u8>, f: Result<Seq<u8>, FetchErrorView>) -> Seq<u8> {
    lit_price_of() + sym + lit_colon() + (match f {
        Ok(p) => p,
        Err(_) => lit_fetch_error(),
    })
}

/// Compose the user-facing reply to a price query out of the raw symbol the
/// user typed and the fetch result.
pub fn price_reply(sym: &[u8], fetched: &Result<Vec<u8>, FetchError>) -> (r: Vec<u8>)
    ensures
        r@ == spec_price_reply(sym@, res_view(*fetched)),
{
    let mut out = lit_price_of_vec();
    push_range(&mut out, sym, 0, sym.len());
    let c = lit_colon_vec();
    push_range(&mut out, c.as_slice(), 0, c.len());
    match fetched {
        Ok(p) => push_range(&mut out, p.as_slice(), 0, p.len()),
        Err(_) => {
            let e = lit_fetch_error_vec();
            push_range(&mut out, e.as_slice(), 0, e.len());
        },
    }
    proof {
        assert(out@ =~= spec_price_reply(sym@, res_view(*fetched)));
    }
    out
}

} // verus!
