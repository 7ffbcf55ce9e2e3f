use coinbot::commands::{parse, Command};
use coinbot::quote::{fetch_price, handle_command, price_reply, quote_url, Action, FetchError};

fn ok_body(sym: &str, price: &str) -> Vec<u8> {
    format!(
        "{{\"status\":{{\"error_code\":0}},\"data\":{{\"{}\":{{\"quote\":{{\"USD\":{{\"price\":{}}}}}}}}}}}",
        sym, price
    )
    .into_bytes()
}

fn fetch_ok(sym: &str, body: &[u8]) -> String {
    match fetch_price(sym.as_bytes(), 200, body) {
        Ok(v) => String::from_utf8(v).unwrap(),
        Err(_) => panic!("expected Ok"),
    }
}

#[test]
fn parse_start() {
    assert_eq!(parse(b"/start"), Command::Start);
}

#[test]
fn parse_help() {
    assert_eq!(parse(b"/help"), Command::Help);
}

#[test]
fn parse_price_with_symbol() {
    assert_eq!(parse(b"/price btc"), Command::PriceQuery(b"btc".to_vec()));
}

#[test]
fn parse_price_without_symbol() {
    assert_eq!(parse(b"/price"), Command::PriceQuery(Vec::new()));
}

#[test]
fn parse_unknown() {
    assert_eq!(parse(b"/xyz"), Command::Unknown(b"/xyz".to_vec()));
}

#[test]
fn parse_is_case_insensitive() {
    assert_eq!(parse(b"/PRICE btc"), Command::PriceQuery(b"btc".to_vec()));
    assert_eq!(parse(b"/Start"), Command::Start);
}

#[test]
fn parse_market_is_a_price_query() {
    assert_eq!(parse(b"/market eth"), Command::PriceQuery(b"eth".to_vec()));
    assert_eq!(parse(b"/market"), Command::PriceQuery(Vec::new()));
}

#[test]
fn parse_plain_text_is_unknown() {
    assert_eq!(parse(b"hello there"), Command::Unknown(b"hello there".to_vec()));
}

#[test]
fn handle_start_and_help() {
    match handle_command(&Command::Start) {
        Action::Reply(v) => assert_eq!(
            String::from_utf8(v).unwrap(),
            "Welcome! Use /help to see available commands."
        ),
        _ => panic!("expected a reply"),
    }
    match handle_command(&Command::Help) {
        Action::Reply(v) => assert_eq!(
            String::from_utf8(v).unwrap(),
            "/start - Start the bot\n/help - Show help\n/price <symbol> - Get price of a cryptocurrency (e.g., /price btc)"
        ),
        _ => panic!("expected a reply"),
    }
}

#[test]
fn handle_unknown_echoes_the_text() {
    match handle_command(&Command::Unknown(b"/xyz".to_vec())) {
        Action::Reply(v) => assert_eq!(String::from_utf8(v).unwrap(), "Unknown command: /xyz"),
        _ => panic!("expected a reply"),
    }
}

#[test]
fn handle_empty_symbol_is_rejected_before_any_fetch() {
    match handle_command(&Command::PriceQuery(Vec::new())) {
        Action::Reply(v) => assert_eq!(
            String::from_utf8(v).unwrap(),
            "Usage: /price <symbol> (e.g., /price btc)"
        ),
        _ => panic!("an empty symbol must not lead to a fetch"),
    }
}

#[test]
fn handle_price_uppercases_the_symbol() {
    match handle_command(&Command::PriceQuery(b"btc".to_vec())) {
        Action::Fetch(sym) => assert_eq!(sym, b"BTC".to_vec()),
        _ => panic!("expected a fetch"),
    }
}

#[test]
fn url_carries_the_symbol() {
    assert_eq!(
        String::from_utf8(quote_url(b"BTC")).unwrap(),
        "https://pro-api.coinmarketcap.com/v1/cryptocurrency/quotes/latest?symbol=BTC"
    );
}

#[test]
fn price_is_formatted_to_two_decimals() {
    assert_eq!(fetch_ok("BTC", &ok_body("BTC", "65000.004")), "$65000.00");
    assert_eq!(fetch_ok("BTC", &ok_body("BTC", "1234.5")), "$1234.50");
    assert_eq!(fetch_ok("BTC", &ok_body("BTC", "65000")), "$65000.00");
    assert_eq!(fetch_ok("BTC", &ok_body("BTC", "0")), "$0.00");
}

#[test]
fn rounding_is_half_away_from_zero() {
    assert_eq!(fetch_ok("BTC", &ok_body("BTC", "2.675")), "$2.68");
    assert_eq!(fetch_ok("BTC", &ok_body("BTC", "2.674")), "$2.67");
    assert_eq!(fetch_ok("BTC", &ok_body("BTC", "999.995")), "$1000.00");
    assert_eq!(fetch_ok("BTC", &ok_body("BTC", "0.005")), "$0.01");
}

#[test]
fn negative_and_exponent_forms_are_rendered() {
    assert_eq!(fetch_ok("BTC", &ok_body("BTC", "-0.001")), "$-0.00");
    assert_eq!(fetch_ok("BTC", &ok_body("BTC", "-12.345")), "$-12.35");
    assert_eq!(fetch_ok("BTC", &ok_body("BTC", "6.5e4")), "$65000.00");
    assert_eq!(fetch_ok("BTC", &ok_body("BTC", "1.23e-7")), "$0.00");
    assert_eq!(fetch_ok("BTC", &ok_body("BTC", "1.2E+2")), "$120.00");
}

#[test]
fn symbol_lookup_is_case_normalized() {
    // fetch_price upper-cases the symbol before the lookup, as quote_url does.
    assert_eq!(fetch_ok("btc", &ok_body("BTC", "42")), "$42.00");
}

#[test]
fn missing_symbol_key_is_data_not_found() {
    assert_eq!(fetch_ok("ETH", &ok_body("BTC", "65000.004")), "Data not found");
    assert_eq!(fetch_ok("eth", b"{\"data\":{}}"), "Data not found");
}

#[test]
fn missing_quote_or_currency_or_price_is_data_not_found() {
    assert_eq!(fetch_ok("BTC", b"{\"data\":{\"BTC\":{}}}"), "Data not found");
    assert_eq!(
        fetch_ok("BTC", b"{\"data\":{\"BTC\":{\"quote\":{}}}}"),
        "Data not found"
    );
    assert_eq!(
        fetch_ok("BTC", b"{\"data\":{\"BTC\":{\"quote\":{\"EUR\":{\"price\":1}}}}}"),
        "Data not found"
    );
    assert_eq!(
        fetch_ok("BTC", b"{\"data\":{\"BTC\":{\"quote\":{\"USD\":{}}}}}"),
        "Data not found"
    );
}

#[test]
fn non_numeric_price_is_data_not_found() {
    assert_eq!(
        fetch_ok("BTC", &ok_body("BTC", "\"65000\"")),
        "Data not found"
    );
    assert_eq!(fetch_ok("BTC", &ok_body("BTC", "true")), "Data not found");
    assert_eq!(fetch_ok("BTC", &ok_body("BTC", "null")), "Data not found");
    assert_eq!(
        fetch_ok("BTC", &ok_body("BTC", "1e999999999")),
        "Data not found"
    );
}

#[test]
fn extraction_skips_unrelated_fields() {
    let mut body = String::new();
    body.push_str("{\"status\":{\"error_code\":0,\"error_message\":\"odd \\\"}{[ text\",\"elapsed\":10},");
    body.push_str("\"data\":{\"ETH\":{\"quote\":{\"USD\":{\"price\":1.0}}},");
    body.push_str("\"BTC\":{\"id\":1,\"name\":\"Bitcoin\",");
    body.push_str("\"quote\":{\"EUR\":{\"price\":1.5},\"USD\":{\"volume_24h\":9.9,\"price\":65000.004}}}}}");
    assert_eq!(fetch_ok("BTC", body.as_bytes()), "$65000.00");
}

#[test]
fn non_2xx_status_is_an_error_distinct_from_not_found() {
    match fetch_price(b"BTC", 500, &ok_body("BTC", "65000.004")) {
        Err(FetchError::Status(500)) => {}
        _ => panic!("a 500 must be a status error"),
    }
    match fetch_price(b"BTC", 404, b"{}") {
        Err(FetchError::Status(404)) => {}
        _ => panic!("a 404 must be a status error"),
    }
}

#[test]
fn invalid_json_is_an_error_distinct_from_not_found() {
    for body in [
        &b"not json at all"[..],
        &b"{\"data\":{\"BTC\":"[..],
        &b"{\"a\":b}"[..],
        &b"{\"a\":truex}"[..],
        &b"{\"a\":01}"[..],
        &b"{\"data\":{}} trailing"[..],
        &b""[..],
    ] {
        match fetch_price(b"BTC", 200, body) {
            Err(FetchError::MalformedBody) => {}
            other => panic!("expected a malformed-body error, got {:?}", other.is_ok()),
        }
    }
}

#[test]
fn valid_non_object_body_is_data_not_found() {
    // Valid JSON in which every path segment is absent: a success with the
    // sentinel, not an error.
    for body in [
        &b"[1,2,3]"[..],
        &b"\"hello\""[..],
        &b"42"[..],
        &b"true"[..],
        &b"null"[..],
        &b" [ {\"data\": 1} , 2 ] "[..],
    ] {
        match fetch_price(b"BTC", 200, body) {
            Ok(v) => assert_eq!(String::from_utf8(v).unwrap(), "Data not found"),
            Err(_) => panic!("a well-formed non-object body must give the sentinel"),
        }
    }
}

#[test]
fn transport_error_is_flattened_only_in_the_reply() {
    let failed: Result<Vec<u8>, FetchError> =
        Err(FetchError::Transport(b"connect timed out".to_vec()));
    assert_eq!(
        String::from_utf8(price_reply(b"btc", &failed)).unwrap(),
        "Price of btc: Error fetching data"
    );
}

#[test]
fn end_to_end_price_query() {
    let body = b"{\"data\":{\"BTC\":{\"quote\":{\"USD\":{\"price\":65000.004}}}}}";
    let cmd = parse(b"/price btc");
    let sym = match handle_command(&cmd) {
        Action::Fetch(sym) => sym,
        _ => panic!("expected a fetch"),
    };
    assert_eq!(sym, b"BTC".to_vec());
    let fetched = fetch_price(b"btc", 200, body);
    let reply = price_reply(b"btc", &fetched);
    assert_eq!(String::from_utf8(reply).unwrap(), "Price of btc: $65000.00");
}

#[test]
fn end_to_end_unknown_symbol() {
    let body = b"{\"data\":{}}";
    let cmd = parse(b"/price eth");
    match handle_command(&cmd) {
        Action::Fetch(sym) => assert_eq!(sym, b"ETH".to_vec()),
        _ => panic!("expected a fetch"),
    }
    let fetched = fetch_price(b"eth", 200, body);
    let reply = String::from_utf8(price_reply(b"eth", &fetched)).unwrap();
    assert!(reply.contains("Data not found"));
    assert_eq!(reply, "Price of eth: Data not found");
}

#[test]
fn identical_requests_give_identical_replies() {
    let body = b"{\"data\":{\"BTC\":{\"quote\":{\"USD\":{\"price\":65000.004}}}}}";
    let r1 = price_reply(b"btc", &fetch_price(b"btc", 200, body));
    let r2 = price_reply(b"btc", &fetch_price(b"btc", 200, body));
    assert_eq!(r1, r2);
}

#[test]
fn whitespace_and_arrays_are_handled() {
    let body = "{\n  \"status\" : { \"warnings\" : [1, 2, [\"a\", \"b\"], {}] },\n  \"data\" : {\n    \"BTC\" : { \"tags\" : [ \"store-of-value\" ],\n      \"quote\" : { \"USD\" : { \"price\" : 1.5 } } }\n  }\n}";
    assert_eq!(fetch_ok("BTC", body.as_bytes()), "$1.50");
}
