use llama_bridge::ledger::Ledger;

#[test]
fn calls_take_the_connection_one_at_a_time() {
    let mut ledger = Ledger::new();
    assert_eq!(ledger.holder(), None);
    ledger.acquire(1);
    assert_eq!(ledger.holder(), Some(1));
    ledger.record_use(1);
    ledger.record_use(1);
    ledger.release(1);
    assert_eq!(ledger.holder(), None);
    ledger.acquire(2);
    assert_eq!(ledger.holder(), Some(2));
    ledger.record_use(2);
    ledger.release(2);
    assert_eq!(ledger.holder(), None);
}
