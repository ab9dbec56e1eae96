use seirchain::triad::{Transaction, Triad, TriadError};

fn tx(sender: &str, receiver: &str, amount: u64, timestamp: u64) -> Transaction {
    Transaction {
        sender: sender.to_string(),
        receiver: receiver.to_string(),
        amount,
        timestamp,
    }
}

#[test]
fn test_new_triad() {
    let triad = Triad::new();
    assert!(triad.transactions.is_empty());
    assert!(triad.child_references.iter().all(|c| c.is_none()));
    assert_eq!(triad.merkle_root, [0u8; 32]);
    assert_eq!(triad.parent_hash, [0u8; 32]);
}

#[test]
fn test_genesis_triad() {
    let t = tx("genesis", "user1", 100, 0);
    let triad = Triad::genesis(Some(vec![t]));
    assert_eq!(triad.transactions.len(), 1);
    assert_ne!(triad.merkle_root, [0u8; 32]);
}

#[test]
fn test_insert_transaction() {
    let mut triad = Triad::new();
    triad.insert_transaction(tx("user1", "user2", 50, 1));
    assert_eq!(triad.transactions.len(), 1);
    assert_ne!(triad.merkle_root, [0u8; 32]);
}

#[test]
fn test_add_remove_child() {
    let mut parent = Triad::new();
    let child = Triad::new();
    assert!(parent.add_child(0, child).is_ok());
    assert!(parent.child_references[0].is_some());
    assert!(parent.remove_child(0).is_ok());
    assert!(parent.child_references[0].is_none());
}

#[test]
fn test_clear_transactions() {
    let mut triad = Triad::new();
    triad.insert_transaction(tx("user1", "user2", 50, 1));
    triad.clear_transactions();
    assert!(triad.transactions.is_empty());
    assert_eq!(triad.merkle_root, [0u8; 32]);
}

#[test]
fn test_transaction_hash() {
    let tx1 = tx("user1", "user2", 50, 1);
    let tx2 = tx("user1", "user2", 50, 1);
    let tx3 = tx("user2", "user1", 50, 1);
    assert_eq!(tx1.hash(), tx2.hash());
    assert_ne!(tx1.hash(), tx3.hash());
}

#[test]
fn transaction_hash_covers_fields_in_order() {
    let h = tx("user1", "user2", 50, 1).hash();
    assert_eq!(hex::encode(h), "f09e0e0a5e199976d707cdec1307bb9141c87ade630e0b4324e7cdc36e445c1a");
}

#[test]
fn merkle_root_of_one_transaction_is_its_hash() {
    let t = tx("user1", "user2", 50, 1);
    let h = t.hash();
    let triad = Triad::genesis(Some(vec![t]));
    assert_eq!(triad.merkle_root, h);
}

#[test]
fn merkle_root_pairs_and_duplicates_odd_digest() {
    let mut triad = Triad::new();
    triad.insert_transaction(tx("user1", "user2", 50, 1));
    triad.insert_transaction(tx("user2", "user3", 20, 2));
    assert_eq!(
        hex::encode(triad.merkle_root),
        "e1e64fda31eb26860de421d835404b546d390fc2c5b29b00fc31ae380ea536c7"
    );
    triad.insert_transaction(tx("user3", "user1", 5, 3));
    assert_eq!(
        hex::encode(triad.merkle_root),
        "724954e40315b6df9944330d6312a1d6d1c499d77b1f8986fe7121d419a525c5"
    );
}

#[test]
fn merkle_root_is_order_sensitive_and_deterministic() {
    let a = Triad::genesis(Some(vec![tx("user1", "user2", 50, 1), tx("user2", "user3", 20, 2)]));
    let b = Triad::genesis(Some(vec![tx("user2", "user3", 20, 2), tx("user1", "user2", 50, 1)]));
    let c = Triad::genesis(Some(vec![tx("user1", "user2", 50, 1), tx("user2", "user3", 20, 2)]));
    assert_ne!(a.merkle_root, b.merkle_root);
    assert_eq!(a.merkle_root, c.merkle_root);
    assert_eq!(
        hex::encode(b.merkle_root),
        "f46852647d90493067308788ab9a8196cd8a3864baae74328fe3b02287a566cd"
    );
}

#[test]
fn empty_batch_has_zero_root() {
    let triad = Triad::genesis(None);
    assert_eq!(triad.merkle_root, [0u8; 32]);
    let triad = Triad::genesis(Some(Vec::new()));
    assert_eq!(triad.merkle_root, [0u8; 32]);
}

#[test]
fn duplicate_and_invalid_child_slots_are_refused() {
    let mut parent = Triad::new();
    assert_eq!(parent.add_child(0, Triad::new()), Ok(()));
    assert_eq!(parent.add_child(0, Triad::new()), Err(TriadError::DuplicateChildSlot));
    assert_eq!(parent.add_child(3, Triad::new()), Err(TriadError::InvalidChildSlot));
}

#[test]
fn removing_missing_or_invalid_child_is_refused() {
    let mut parent = Triad::new();
    assert_eq!(parent.remove_child(1), Err(TriadError::NoSuchChild));
    assert_eq!(parent.remove_child(5), Err(TriadError::InvalidChildSlot));
    assert!(parent.get_child(1).is_none());
    assert!(parent.get_child(7).is_none());
}

#[test]
fn get_child_returns_the_child_put_there() {
    let mut parent = Triad::new();
    let mut child = Triad::new();
    child.insert_transaction(tx("a", "b", 1, 2));
    let root = child.merkle_root;
    parent.add_child(2, child).unwrap();
    assert_eq!(parent.get_child(2).unwrap().merkle_root, root);
    assert_eq!(parent.get_all_transactions().len(), 0);
}
