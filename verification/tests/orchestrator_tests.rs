use orderbook::orchestrator::partition_symbols;
use orderbook::u64_to_dec;

#[test]
fn two_symbols_at_batch_size_one_make_two_sessions() {
    let symbols = vec!["AAA".to_string(), "BBB".to_string()];
    let batches = partition_symbols(&symbols, 1);
    assert_eq!(batches.len(), 2);
    assert_eq!(batches[0], vec!["AAA".to_string()]);
    assert_eq!(batches[1], vec!["BBB".to_string()]);
}

#[test]
fn batches_cover_the_list_in_order_and_cap_at_twenty() {
    let symbols: Vec<String> = (0..45).map(|i| format!("SYM-{}", i)).collect();
    let batches = partition_symbols(&symbols, 20);
    assert_eq!(batches.len(), 3);
    assert_eq!(batches[0].len(), 20);
    assert_eq!(batches[1].len(), 20);
    assert_eq!(batches[2].len(), 5);
    let flat: Vec<String> = batches.into_iter().flatten().collect();
    assert_eq!(flat, symbols);
}

#[test]
fn decimal_rendering_is_exact() {
    assert_eq!(u64_to_dec(0), "0");
    assert_eq!(u64_to_dec(10), "10");
    assert_eq!(u64_to_dec(93000), "93000");
    assert_eq!(u64_to_dec(u64::MAX), "18446744073709551615");
}
