use orderbook::frame::{decode_frame, Kind};

#[test]
fn delta_frame_decodes_with_symbol_and_sequence() {
    let text =
        "{\"type\":\"orderbook_delta\",\"seq\":7,\"msg\":{\"market_ticker\":\"FED-JAN\",\"delta\":500}}"
            .to_string();
    let rec = decode_frame(&text).unwrap();
    assert_eq!(rec.kind, Kind::Delta);
    assert_eq!(rec.ticker, None);
    assert_eq!(rec.market_ticker, Some("FED-JAN".to_string()));
    assert_eq!(rec.seq, Some(7));
    assert_eq!(rec.raw, text);
}

#[test]
fn ticker_frame_decodes_as_ticker_kind() {
    let text = "{\"type\":\"ticker\",\"msg\":{\"market_ticker\":\"BTC-2026\",\"price\":93000}}"
        .to_string();
    let rec = decode_frame(&text).unwrap();
    assert_eq!(rec.kind, Kind::Ticker);
    assert_eq!(rec.market_ticker, Some("BTC-2026".to_string()));
    assert_eq!(rec.seq, None);
}

#[test]
fn snapshot_and_unknown_type_tags() {
    let snap = "{\"type\":\"orderbook_snapshot\",\"seq\":1}".to_string();
    assert_eq!(decode_frame(&snap).unwrap().kind, Kind::Snapshot);
    let other = "{\"type\":\"heartbeat\"}".to_string();
    assert_eq!(decode_frame(&other).unwrap().kind, Kind::Other);
    let untyped = "{\"price\":3}".to_string();
    assert_eq!(decode_frame(&untyped).unwrap().kind, Kind::Other);
}

#[test]
fn undecodable_frame_is_none() {
    assert!(decode_frame(&"not json at all".to_string()).is_none());
}

#[test]
fn log_line_round_trips_routing_fields() {
    let text =
        "{\"type\":\"orderbook_delta\",\"seq\":9,\"ticker\":\"AAA\",\"msg\":{\"market_ticker\":\"AAA\"}}"
            .to_string();
    let rec = decode_frame(&text).unwrap();
    let again = decode_frame(&rec.raw).unwrap();
    assert_eq!(again.kind, rec.kind);
    assert_eq!(again.ticker, rec.ticker);
    assert_eq!(again.market_ticker, rec.market_ticker);
    assert_eq!(again.seq, rec.seq);
    assert_eq!(again.raw, rec.raw);
}
