use nest_markets::outcome_token::OutcomeToken;
use nest_markets::types::{MarketError, Outcome};

fn market_account() -> String {
    "market.testnet".to_string()
}

fn alice() -> String {
    "alice.testnet".to_string()
}

fn bob() -> String {
    "bob.testnet".to_string()
}

fn setup() -> OutcomeToken {
    OutcomeToken::new(market_account())
}

#[test]
fn test_mint_and_balance() {
    let mut contract = setup();
    let caller = market_account();
    contract.mint(0, Outcome::Yes, alice(), 1_000_000, &caller).expect("mint");
    assert_eq!(contract.balance_of(0, Outcome::Yes, alice()), 1_000_000);
    assert_eq!(contract.total_supply(0, Outcome::Yes), 1_000_000);
    assert_eq!(contract.balance_of(0, Outcome::No, alice()), 0);
}

#[test]
fn test_burn() {
    let mut contract = setup();
    let caller = market_account();
    contract.mint(0, Outcome::Yes, alice(), 1_000_000, &caller).expect("mint");
    contract.burn(0, Outcome::Yes, alice(), 400_000, &caller).expect("burn");
    assert_eq!(contract.balance_of(0, Outcome::Yes, alice()), 600_000);
    assert_eq!(contract.total_supply(0, Outcome::Yes), 600_000);
}

#[test]
fn test_burn_insufficient() {
    let mut contract = setup();
    let caller = market_account();
    contract.mint(0, Outcome::Yes, alice(), 100, &caller).expect("mint");
    let result = contract.burn(0, Outcome::Yes, alice(), 200, &caller);
    assert_eq!(result.err(), Some(MarketError::InsufficientBalanceError));
    // Nothing was debited.
    assert_eq!(contract.balance_of(0, Outcome::Yes, alice()), 100);
    assert_eq!(contract.total_supply(0, Outcome::Yes), 100);
}

#[test]
fn test_internal_transfer() {
    let mut contract = setup();
    let caller = market_account();
    contract.mint(0, Outcome::No, alice(), 500, &caller).expect("mint");
    contract
        .internal_transfer(0, Outcome::No, alice(), bob(), 200, &caller)
        .expect("transfer");
    assert_eq!(contract.balance_of(0, Outcome::No, alice()), 300);
    assert_eq!(contract.balance_of(0, Outcome::No, bob()), 200);
}

#[test]
fn test_unauthorized_mint() {
    let mut contract = setup();
    let hacker = "hacker.testnet".to_string();
    let result = contract.mint(0, Outcome::Yes, alice(), 100, &hacker);
    assert_eq!(result.err(), Some(MarketError::AuthorizationError));
    assert_eq!(contract.balance_of(0, Outcome::Yes, alice()), 0);
}

#[test]
fn test_different_markets_isolated() {
    let mut contract = setup();
    let caller = market_account();
    contract.mint(0, Outcome::Yes, alice(), 100, &caller).expect("mint");
    contract.mint(1, Outcome::Yes, alice(), 200, &caller).expect("mint");
    assert_eq!(contract.balance_of(0, Outcome::Yes, alice()), 100);
    assert_eq!(contract.balance_of(1, Outcome::Yes, alice()), 200);
}

#[test]
fn redeeming_more_claims_than_held_fails_without_mutation() {
    // The redemption saga's burn step refuses an over-redemption and
    // leaves every balance untouched, so no payout can follow.
    let mut claims = setup();
    let caller = market_account();
    claims.mint(0, Outcome::Yes, alice(), 700, &caller).expect("mint");
    let result = claims.burn(0, Outcome::Yes, alice(), 701, &caller);
    assert_eq!(result.err(), Some(MarketError::InsufficientBalanceError));
    assert_eq!(claims.balance_of(0, Outcome::Yes, alice()), 700);
    assert_eq!(claims.total_supply(0, Outcome::Yes), 700);
}

#[test]
fn transfer_to_self_changes_nothing() {
    let mut contract = setup();
    let caller = market_account();
    contract.mint(2, Outcome::Yes, alice(), 50, &caller).expect("mint");
    contract
        .internal_transfer(2, Outcome::Yes, alice(), alice(), 20, &caller)
        .expect("self transfer");
    assert_eq!(contract.balance_of(2, Outcome::Yes, alice()), 50);
}
