use seirchain::ledger::{Ledger, LedgerTransaction};
use seirchain::onboarding::Onboarding;

#[test]
fn test_add_and_get_transactions() {
    let mut ledger = Ledger::new(10);
    let tx1 = LedgerTransaction {
        from: "wallet1".to_string(),
        to: "wallet2".to_string(),
        amount: 100,
        timestamp: 1234567890,
    };
    let tx2 = LedgerTransaction {
        from: "wallet2".to_string(),
        to: "wallet3".to_string(),
        amount: 50,
        timestamp: 1234567891,
    };
    ledger.add_transaction(tx1.clone());
    ledger.add_transaction(tx2.clone());

    let transactions = ledger.get_recent_transactions();
    assert_eq!(transactions.len(), 2);
    assert_eq!(transactions[0].from, "wallet1");
    assert_eq!(transactions[1].to, "wallet3");
}

#[test]
fn ledger_drops_oldest_when_full() {
    let mut ledger = Ledger::new(1);
    for i in 0..3u64 {
        ledger.add_transaction(LedgerTransaction { from: "a".to_string(), to: "b".to_string(), amount: i, timestamp: i });
    }
    let txs = ledger.get_recent_transactions();
    assert_eq!(txs.len(), 1);
    assert_eq!(txs[0].amount, 2);
    ledger.clear_transactions();
    assert!(ledger.get_recent_transactions().is_empty());
}

#[test]
fn test_onboarding_creation() {
    let ledger = Ledger::new(1000);
    let onboarding = Onboarding::new(ledger);
    assert_eq!(onboarding.ledger.max_history, 1000);
}
