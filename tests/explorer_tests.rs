use seirchain::explorer::{TriadActivity, TriadExplorer};
use seirchain::triad::Transaction;

#[test]
fn test_add_and_get_activities() {
    let mut explorer = TriadExplorer::new(10);
    let tx = Transaction {
        sender: "wallet1".to_string(),
        receiver: "wallet2".to_string(),
        amount: 50,
        timestamp: 1234567890,
    };
    explorer.add_activity(TriadActivity::TransactionAdded(tx.clone()));
    explorer.add_activity(TriadActivity::ConsensusReached("Consensus1".to_string()));

    let activities = explorer.get_recent_activities();
    assert_eq!(activities.len(), 2);
    match &activities[0] {
        TriadActivity::TransactionAdded(t) => assert_eq!(t.sender, "wallet1"),
        _ => panic!("Expected TransactionAdded activity"),
    }
    match &activities[1] {
        TriadActivity::ConsensusReached(desc) => assert_eq!(desc, "Consensus1"),
        _ => panic!("Expected ConsensusReached activity"),
    }
}

#[test]
fn test_max_history_limit() {
    let mut explorer = TriadExplorer::new(3);
    for i in 0..5 {
        explorer.add_activity(TriadActivity::Other(format!("Activity {}", i)));
    }
    let activities = explorer.get_recent_activities();
    assert_eq!(activities.len(), 3);
    assert_eq!(activities[0], TriadActivity::Other("Activity 2".to_string()));
}

#[test]
fn clearing_empties_the_history() {
    let mut explorer = TriadExplorer::new(2);
    explorer.add_activity(TriadActivity::ProofOfFractalSolved(7));
    explorer.clear_activities();
    assert!(explorer.get_recent_activities().is_empty());
    explorer.add_activity(TriadActivity::ProofOfFractalSolved(8));
    assert_eq!(explorer.get_recent_activities(), vec![TriadActivity::ProofOfFractalSolved(8)]);
}
