use orderbook::frame::decode_frame;
use orderbook::persist::{route_symbol, Writers};

#[test]
fn worker_partitions_messages_by_symbol_in_order() {
    let msg1 = "{\"ticker\":\"BTC-2026\",\"price\":93000}".to_string();
    let msg2 = "{\"msg\":{\"market_ticker\":\"FED-JAN\"},\"delta\":500}".to_string();
    let msg3 = "{\"ticker\":\"BTC-2026\",\"price\":93001}".to_string();
    let rec1 = decode_frame(&msg1).unwrap();
    let rec2 = decode_frame(&msg2).unwrap();
    let rec3 = decode_frame(&msg3).unwrap();

    let mut w = Writers::new();
    w.step(&rec1, false);
    w.step(&rec2, false);
    w.step(&rec3, false);
    w.flush_all();

    assert_eq!(w.file_count(), 2);
    assert_eq!(w.written_lines(&"BTC-2026".to_string()), vec![msg1, msg3]);
    assert_eq!(w.written_lines(&"FED-JAN".to_string()), vec![msg2]);
}

#[test]
fn top_level_symbol_wins_over_nested() {
    let text = "{\"ticker\":\"TOP\",\"msg\":{\"market_ticker\":\"NESTED\"}}".to_string();
    let rec = decode_frame(&text).unwrap();
    assert_eq!(route_symbol(&rec), "TOP");
}

#[test]
fn unresolved_symbol_routes_to_fallback_file() {
    let text = "{\"price\":3}".to_string();
    let rec = decode_frame(&text).unwrap();
    assert_eq!(route_symbol(&rec), "unknown");

    let mut w = Writers::new();
    w.step(&rec, true);
    assert_eq!(w.file_count(), 1);
    assert_eq!(w.written_lines(&"unknown".to_string()), vec![text]);
}

#[test]
fn drain_checkpoint_flushes_everything_buffered() {
    let text = "{\"ticker\":\"AAA\"}".to_string();
    let rec = decode_frame(&text).unwrap();

    let mut w = Writers::new();
    w.step(&rec, false);
    assert_eq!(w.pending_count(&"AAA".to_string()), 1);
    assert_eq!(w.written_lines(&"AAA".to_string()), Vec::<String>::new());

    w.step(&rec, true);
    assert_eq!(w.pending_count(&"AAA".to_string()), 0);
    assert_eq!(w.written_lines(&"AAA".to_string()), vec![text.clone(), text]);
}

#[test]
fn final_flush_leaves_no_buffered_lines() {
    let a = "{\"ticker\":\"AAA\"}".to_string();
    let b = "{\"ticker\":\"BBB\"}".to_string();
    let mut w = Writers::new();
    w.step(&decode_frame(&a).unwrap(), false);
    w.step(&decode_frame(&b).unwrap(), false);
    w.flush_all();
    assert_eq!(w.pending_count(&"AAA".to_string()), 0);
    assert_eq!(w.pending_count(&"BBB".to_string()), 0);
    assert_eq!(w.written_lines(&"AAA".to_string()), vec![a]);
    assert_eq!(w.written_lines(&"BBB".to_string()), vec![b]);
}
