use seirchain::token::{isqrt, TokenError, WaclaniumToken};

#[test]
fn test_new_waclanium_token() {
    let token = WaclaniumToken::new(1000, 10000, 1);
    assert_eq!(token.get_balance("genesis"), 1000);
}

#[test]
fn test_transfer() {
    let mut token = WaclaniumToken::new(1000, 10000, 1);
    token.mint("user1", 100).unwrap();
    assert!(token.transfer("user1", "user2", 50).is_ok());
    assert_eq!(token.get_balance("user1"), 50);
    assert_eq!(token.get_balance("user2"), 50);
}

#[test]
fn test_stake_and_unstake() {
    let mut token = WaclaniumToken::new(1000, 10000, 1);
    token.mint("user1", 100).unwrap();
    assert!(token.stake("user1", 50).is_ok());
    assert_eq!(token.get_balance("user1"), 50);
    assert_eq!(token.get_stake("user1"), 50);
    assert!(token.unstake("user1", 50).is_ok());
    assert_eq!(token.get_balance("user1"), 100);
    assert_eq!(token.get_stake("user1"), 0);
}

#[test]
fn test_mint() {
    let mut token = WaclaniumToken::new(1000, 10000, 1);
    assert!(token.mint("user1", 100).is_ok());
    assert_eq!(token.get_balance("user1"), 100);
    assert_eq!(token.total_supply, 1100);
}

#[test]
fn test_governance() {
    let mut token = WaclaniumToken::new(1000, 10000, 1);
    token.mint("user1", 100).unwrap();
    token.stake("user1", 100).unwrap();
    token.mint("user2", 100).unwrap();
    token.stake("user2", 25).unwrap();
    let proposal_id = token.create_proposal("Test proposal".to_string());
    assert!(token.cast_vote("user1", proposal_id, true).is_ok());
    assert!(token.cast_vote("user2", proposal_id, false).is_ok());
    assert!(token.has_voted("user1", proposal_id));
    assert!(token.has_voted("user2", proposal_id));
    assert_eq!(token.tally_votes(proposal_id), Some((10, 5)));
    assert_eq!(token.proposal_passed(proposal_id), Some(true));
}

#[test]
fn refusals_name_their_cause() {
    let mut token = WaclaniumToken::new(1000, 1500, 1);
    assert_eq!(token.transfer("nobody", "user1", 1), Err(TokenError::InsufficientBalance));
    assert_eq!(token.stake("nobody", 1), Err(TokenError::InsufficientBalance));
    assert_eq!(token.unstake("genesis", 1), Err(TokenError::InsufficientStake));
    assert_eq!(token.mint("user1", 501), Err(TokenError::ExceedsMaxSupply));
    assert!(token.mint("user1", 500).is_ok());
    assert_eq!(token.total_supply(), 1500);
    assert_eq!(token.cast_vote("genesis", 1, true), Err(TokenError::ProposalNotFound));
    let id = token.create_proposal("p".to_string());
    assert_eq!(id, 1);
    assert_eq!(token.cast_vote("genesis", id, true), Err(TokenError::NoStake));
    token.stake("genesis", 10).unwrap();
    assert!(token.cast_vote("genesis", id, true).is_ok());
    assert_eq!(token.cast_vote("genesis", id, false), Err(TokenError::AlreadyVoted));
    assert_eq!(TokenError::ProposalNotFound.message(), "Proposal does not exist");
}

#[test]
fn transfer_to_self_keeps_balance() {
    let mut token = WaclaniumToken::new(1000, 10000, 1);
    assert!(token.transfer("genesis", "genesis", 300).is_ok());
    assert_eq!(token.get_balance("genesis"), 1000);
}

#[test]
fn unknown_proposal_has_no_tally() {
    let mut token = WaclaniumToken::new(0, 10, 0);
    assert_eq!(token.tally_votes(0), None);
    assert_eq!(token.tally_votes(1), None);
    assert_eq!(token.proposal_passed(1), None);
    let id = token.create_proposal("none".to_string());
    assert_eq!(token.tally_votes(id), Some((0, 0)));
    assert_eq!(token.proposal_passed(id), Some(false));
    assert!(!token.has_voted("x", id));
}

#[test]
fn voting_power_is_integer_square_root() {
    let mut token = WaclaniumToken::new(1000, 10000, 1);
    token.stake("genesis", 99).unwrap();
    assert_eq!(token.get_voting_power("genesis"), 9);
    assert_eq!(isqrt(0), 0);
    assert_eq!(isqrt(1), 1);
    assert_eq!(isqrt(15), 3);
    assert_eq!(isqrt(16), 4);
    assert_eq!(isqrt(u64::MAX), 4294967295);
}

#[test]
fn balances_and_stakes_maps_are_exposed() {
    let mut token = WaclaniumToken::new(1000, 10000, 1);
    token.stake("genesis", 10).unwrap();
    assert_eq!(token.balances().get("genesis"), Some(&990));
    assert_eq!(token.stakes().get("genesis"), Some(&10));
}
