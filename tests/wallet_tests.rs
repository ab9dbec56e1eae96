use seirchain::create_wallet::create_sample_wallet;
use seirchain::explorer::{TriadActivity, TriadExplorer};
use seirchain::ledger::Ledger;
use seirchain::token::{TokenError, WaclaniumToken};
use seirchain::wallet::{Wallet, WalletError};

#[test]
fn test_wallet_create_and_transfer() {
    let token = WaclaniumToken::new(1000, 10000, 1);
    let ledger = Ledger::new(100);
    let explorer = TriadExplorer::new(100);
    let mut wallet = Wallet::new(token, ledger, explorer);

    let addr1 = wallet.create_address("user1".to_string());
    let addr2 = wallet.create_address("user2".to_string());

    wallet.token.mint("user1", 500).unwrap();

    assert_eq!(wallet.get_balance(&addr1), 500);
    assert_eq!(wallet.get_balance(&addr2), 0);

    wallet.transfer(&addr1, &addr2, 200).unwrap();

    assert_eq!(wallet.get_balance(&addr1), 300);
    assert_eq!(wallet.get_balance(&addr2), 200);

    let txs1 = wallet.get_transaction_history(&addr1);
    let txs2 = wallet.get_transaction_history(&addr2);
    assert_eq!(txs1.len(), 2);
    assert_eq!(txs2.len(), 2);
    assert_eq!(txs1[1].amount, 200);
    assert_eq!(txs2[1].amount, 200);
}

#[test]
fn test_create_wallet_and_address_with_w() {
    let mut wallet = create_sample_wallet();

    let address = wallet.create_address_with_w("user1".to_string());
    assert!(address.starts_with('W'));

    let balance = wallet.get_balance(&address);
    assert_eq!(balance, 500);

    let address2 = wallet.create_address_with_w("user2".to_string());
    wallet.transfer(&address, &address2, 200).unwrap();

    assert_eq!(wallet.get_balance(&address), 300);
    assert_eq!(wallet.get_balance(&address2), 200);
}

#[test]
fn addresses_have_prefix_and_alphanumeric_tail() {
    let mut wallet = create_sample_wallet();
    let a = wallet.create_address("u".to_string());
    assert_eq!(a.len(), 31);
    assert!(a.starts_with('w'));
    assert!(a[1..].chars().all(|c| c.is_ascii_alphanumeric()));
    let b = wallet.create_address_with_w("u".to_string());
    assert_eq!(b.len(), 30);
    assert!(b[1..].chars().all(|c| c.is_ascii_alphanumeric()));
    assert_ne!(a[1..], b[1..]);
}

#[test]
fn address_creation_is_recorded() {
    let mut wallet = create_sample_wallet();
    let a = wallet.create_address("u".to_string());
    let txs = wallet.ledger.get_recent_transactions();
    assert_eq!(txs.len(), 1);
    assert_eq!(txs[0].from, "system");
    assert_eq!(txs[0].to, a);
    assert!(txs[0].timestamp > 1_600_000_000);
    assert_eq!(
        wallet.explorer.get_recent_activities(),
        vec![TriadActivity::Other(format!("Wallet created: {}", a))]
    );
}

#[test]
fn transfer_refusals_in_order() {
    let mut wallet = create_sample_wallet();
    wallet.register_address("A".to_string(), "user1".to_string(), 5);
    wallet.register_address("B".to_string(), "user2".to_string(), 6);
    assert_eq!(wallet.transfer("X", "Y", 1), Err(WalletError::InvalidFromAddress));
    assert_eq!(wallet.transfer("A", "Y", 1), Err(WalletError::InvalidToAddress));
    assert_eq!(wallet.transfer("A", "B", 501), Err(WalletError::Token(TokenError::InsufficientBalance)));
    assert_eq!(wallet.transfer_at("A", "B", 1, 77), Ok(()));
    let history = wallet.get_transaction_history("B");
    assert_eq!(history.len(), 2);
    assert_eq!(history[1].timestamp, 77);
    assert_eq!(wallet.get_balance("B"), 1);
    assert_eq!(wallet.get_balance("nowhere"), 0);
}
