use orderbook::commands::{subscribe_cmd, unsubscribe_cmd};
use orderbook::frame::{Kind, Record};
use orderbook::session::{Session, SessionAction};

fn delta(symbol: &str, seq: u64) -> Record {
    Record {
        kind: Kind::Delta,
        ticker: None,
        market_ticker: Some(symbol.to_string()),
        seq: Some(seq),
        raw: format!("{{\"seq\":{}}}", seq),
    }
}

#[test]
fn contiguous_deltas_are_forwarded() {
    let mut s = Session::new();
    assert!(matches!(s.handle_record(&delta("FED-JAN", 5)), SessionAction::Forward));
    assert!(matches!(s.handle_record(&delta("FED-JAN", 6)), SessionAction::Forward));
    assert!(matches!(s.handle_record(&delta("FED-JAN", 7)), SessionAction::Forward));
}

#[test]
fn gap_resubscribes_exactly_that_symbol_and_resets() {
    let mut s = Session::new();
    assert!(matches!(s.handle_record(&delta("FED-JAN", 5)), SessionAction::Forward));
    match s.handle_record(&delta("FED-JAN", 8)) {
        SessionAction::Resync { unsubscribe, subscribe } => {
            assert_eq!(
                unsubscribe,
                "{\"id\":10,\"cmd\":\"unsubscribe\",\"params\":{\"market_tickers\":[\"FED-JAN\"]}}"
            );
            assert_eq!(
                subscribe,
                "{\"id\":11,\"cmd\":\"subscribe\",\"params\":{\"channels\":[\"orderbook_delta\"],\"market_tickers\":[\"FED-JAN\"]}}"
            );
        },
        _ => panic!("a gap must trigger a scoped resubscribe"),
    }
    // After the reset any sequence number is accepted as the new baseline.
    assert!(matches!(s.handle_record(&delta("FED-JAN", 3)), SessionAction::Forward));
    assert!(matches!(s.handle_record(&delta("FED-JAN", 4)), SessionAction::Forward));
}

#[test]
fn gap_on_one_symbol_leaves_batch_mates_alone() {
    let mut s = Session::new();
    assert!(matches!(s.handle_record(&delta("AAA", 5)), SessionAction::Forward));
    assert!(matches!(s.handle_record(&delta("BBB", 9)), SessionAction::Forward));
    assert!(matches!(s.handle_record(&delta("AAA", 99)), SessionAction::Resync { .. }));
    assert!(matches!(s.handle_record(&delta("BBB", 10)), SessionAction::Forward));
}

#[test]
fn non_delta_frames_skip_the_sequence_check() {
    let mut s = Session::new();
    let mut tick = delta("FED-JAN", 5);
    tick.kind = Kind::Ticker;
    assert!(matches!(s.handle_record(&tick), SessionAction::Forward));
    let mut tick2 = delta("FED-JAN", 42);
    tick2.kind = Kind::Ticker;
    assert!(matches!(s.handle_record(&tick2), SessionAction::Forward));
}

#[test]
fn frame_without_symbol_is_ignored() {
    let mut s = Session::new();
    let mut rec = delta("FED-JAN", 5);
    rec.market_ticker = None;
    assert!(matches!(s.handle_record(&rec), SessionAction::Ignore));
}

#[test]
fn command_envelopes_have_the_wire_shape() {
    let channels = vec!["orderbook_delta".to_string(), "ticker".to_string()];
    let tickers = vec!["AAA".to_string(), "BBB".to_string()];
    assert_eq!(
        subscribe_cmd(1, &channels, &tickers),
        "{\"id\":1,\"cmd\":\"subscribe\",\"params\":{\"channels\":[\"orderbook_delta\",\"ticker\"],\"market_tickers\":[\"AAA\",\"BBB\"]}}"
    );
    assert_eq!(
        unsubscribe_cmd(10, &vec!["AAA".to_string()]),
        "{\"id\":10,\"cmd\":\"unsubscribe\",\"params\":{\"market_tickers\":[\"AAA\"]}}"
    );
}
