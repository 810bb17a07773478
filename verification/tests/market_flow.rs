use nest_markets::contract::MarketContract;
use nest_markets::types::{MarketError, MarketStatus, Outcome, AMM_SCALE, USDC_ONE};

fn test_contract() -> MarketContract {
    MarketContract::new(
        "owner.testnet".to_string(),
        "usdc.testnet".to_string(),
        "outcome.testnet".to_string(),
        "oracle.testnet".to_string(),
    )
}

fn contract_with_market(creator: &str, liquidity: u128) -> MarketContract {
    let mut contract = test_contract();
    contract
        .internal_create_market(
            "Will test pass?".to_string(),
            "test".to_string(),
            999_999_999_999,
            liquidity,
            creator.to_string(),
            0,
        )
        .expect("create market");
    contract
}

#[test]
fn test_create_market() {
    let mut contract = test_contract();
    let receipt = contract
        .internal_create_market(
            "Will ETH hit $10k?".to_string(),
            "Resolves YES if ETH > $10k on Coinbase.".to_string(),
            2_000_000_000_000,
            100 * USDC_ONE,
            "alice.testnet".to_string(),
            0,
        )
        .expect("CreateMarket failed");
    assert_eq!(receipt.market_id, 0);
    assert_eq!(contract.get_market_count(), 1);

    let market = contract.get_market(0).expect("market exists");
    assert_eq!(market.status, MarketStatus::Open);
    assert_eq!(market.question, "Will ETH hit $10k?");

    let (yes_price, no_price) = contract.get_prices(0).expect("prices");
    assert_eq!(yes_price, 500000);
    assert_eq!(no_price, 500000);

    assert_eq!(contract.get_lp_shares(0, "alice.testnet".to_string()), 100 * USDC_ONE);
}

#[test]
fn test_buy_yes_moves_price() {
    let mut contract = contract_with_market("alice.testnet", 100 * USDC_ONE);
    let receipt = contract
        .internal_buy(0, Outcome::Yes, 50 * USDC_ONE, 0, "bob.testnet".to_string())
        .expect("Buy failed");

    let (yes_price, no_price) = contract.get_prices(0).expect("prices");
    assert!(yes_price > 500000, "YES price should increase: {}", yes_price);
    assert!(no_price < 500000, "NO price should decrease: {}", no_price);
    assert!(receipt.tokens_out > 0, "Bob should have YES tokens: {}", receipt.tokens_out);
}

#[test]
fn test_buy_no_moves_price() {
    let mut contract = contract_with_market("alice.testnet", 100 * USDC_ONE);
    contract
        .internal_buy(0, Outcome::No, 50 * USDC_ONE, 0, "bob.testnet".to_string())
        .expect("Buy failed");

    let (yes_price, no_price) = contract.get_prices(0).expect("prices");
    assert!(yes_price < 500000, "YES should decrease after NO buy: {}", yes_price);
    assert!(no_price > 500000, "NO should increase after NO buy: {}", no_price);
}

#[test]
fn test_sell_flow() {
    let mut contract = contract_with_market("alice.testnet", 100 * USDC_ONE);
    let buy = contract
        .internal_buy(0, Outcome::Yes, 50 * USDC_ONE, 0, "bob.testnet".to_string())
        .expect("Buy failed");

    let sell = contract
        .sell(0, Outcome::Yes, buy.tokens_out, 0, "bob.testnet".to_string())
        .expect("Sell failed");
    assert!(
        sell.collateral_out > 0,
        "Should receive USDC back: gained {}",
        sell.collateral_out
    );
}

#[test]
fn test_add_remove_liquidity() {
    let mut contract = contract_with_market("alice.testnet", 100 * USDC_ONE);
    let added = contract
        .internal_add_liquidity(0, 50 * USDC_ONE, "bob.testnet".to_string())
        .expect("AddLiquidity failed");
    assert!(added.lp_shares > 0);
    assert_eq!(contract.get_lp_shares(0, "bob.testnet".to_string()), added.lp_shares);

    let removed = contract
        .remove_liquidity(0, added.lp_shares, "bob.testnet".to_string())
        .expect("RemoveLiquidity failed");
    assert!(
        removed.collateral_out > 0,
        "Should receive USDC back after removing liquidity"
    );
    assert_eq!(
        contract.get_lp_shares(0, "bob.testnet".to_string()),
        0,
        "LP shares should be 0 after full removal"
    );
}

#[test]
fn test_min_liquidity_enforced() {
    let mut contract = test_contract();
    let result = contract.internal_create_market(
        "Too little liquidity?".to_string(),
        "".to_string(),
        2_000_000_000_000,
        2000,
        "alice.testnet".to_string(),
        0,
    );
    assert_eq!(result.err(), Some(MarketError::ValidationError));
    assert_eq!(contract.get_market_count(), 0, "No market should have been created");
}

#[test]
fn test_estimate_buy_matches_actual() {
    let mut contract = contract_with_market("alice.testnet", 100 * USDC_ONE);
    let estimate = contract
        .estimate_buy(0, Outcome::Yes, 20 * USDC_ONE)
        .expect("estimate_buy");
    let actual = contract
        .internal_buy(0, Outcome::Yes, 20 * USDC_ONE, 0, "bob.testnet".to_string())
        .expect("Buy failed")
        .tokens_out;
    assert_eq!(estimate, actual, "Estimate {} vs actual {}", estimate, actual);
}

#[test]
fn sell_updates_market_state_and_fees() {
    let mut contract = contract_with_market("creator.testnet", 100 * USDC_ONE);
    contract
        .sell(0, Outcome::Yes, 10 * USDC_ONE, 0, "seller.testnet".to_string())
        .expect("sell");

    let market = contract.get_market(0).expect("market exists");
    assert!(market.total_collateral < 100 * USDC_ONE);
    assert!(market.accrued_fees > 0);
}

#[test]
fn remove_liquidity_updates_market_and_lp_position() {
    let mut contract = contract_with_market("lp.testnet", 100 * USDC_ONE);
    contract
        .remove_liquidity(0, 20 * USDC_ONE, "lp.testnet".to_string())
        .expect("remove_liquidity");

    let market = contract.get_market(0).expect("market exists");
    assert!(market.total_lp_shares < 100 * USDC_ONE);
    assert!(market.total_collateral < 100 * USDC_ONE);
}

#[test]
fn on_sell_burn_complete_succeeds_on_successful_burn() {
    let mut contract = test_contract();
    let transfer = contract
        .on_sell_burn_complete("seller.testnet".to_string(), 10 * USDC_ONE, true)
        .expect("burn reported success");
    assert_eq!(transfer.receiver_id, "seller.testnet");
    assert_eq!(transfer.amount, 10 * USDC_ONE);
}

#[test]
fn on_sell_burn_complete_fails_on_failed_burn() {
    let mut contract = test_contract();
    let result = contract.on_sell_burn_complete("seller.testnet".to_string(), 10 * USDC_ONE, false);
    assert_eq!(result.err(), Some(MarketError::CollaboratorFailure));
}

#[test]
fn on_remove_liquidity_burn_complete_succeeds_when_both_burns_succeed() {
    let mut contract = test_contract();
    contract
        .on_remove_liquidity_burn_complete("lp.testnet".to_string(), 5 * USDC_ONE, true, true)
        .expect("both burns succeeded");
}

#[test]
fn on_remove_liquidity_burn_complete_fails_if_any_burn_fails() {
    let mut contract = test_contract();
    let result =
        contract.on_remove_liquidity_burn_complete("lp.testnet".to_string(), 5 * USDC_ONE, true, false);
    assert_eq!(result.err(), Some(MarketError::CollaboratorFailure));
}

#[test]
fn create_market_minimum_liquidity_boundary() {
    // 9.999999 collateral units fail; exactly 10 succeed with 50/50
    // reserves and balanced prices.
    let mut contract = test_contract();
    let too_little = contract.internal_create_market(
        "Boundary?".to_string(),
        "".to_string(),
        2_000_000_000_000,
        9_999_999,
        "alice.testnet".to_string(),
        0,
    );
    assert_eq!(too_little.err(), Some(MarketError::ValidationError));

    contract
        .internal_create_market(
            "Boundary?".to_string(),
            "".to_string(),
            2_000_000_000_000,
            10_000_000,
            "alice.testnet".to_string(),
            0,
        )
        .expect("exactly 10 units succeed");
    let market = contract.get_market(0).expect("market exists");
    assert_eq!(market.yes_reserve, 5_000_000);
    assert_eq!(market.no_reserve, 5_000_000);
    assert_eq!(market.yes_reserve + market.no_reserve, 10_000_000);
    let (yes_price, no_price) = contract.get_prices(0).expect("prices");
    assert_eq!(yes_price, AMM_SCALE / 2);
    assert_eq!(no_price, AMM_SCALE / 2);
}

#[test]
fn product_non_decreasing_on_buy() {
    let mut contract = contract_with_market("alice.testnet", 100 * USDC_ONE);
    let before = contract.get_market(0).unwrap();
    contract
        .internal_buy(0, Outcome::Yes, 7 * USDC_ONE, 0, "bob.testnet".to_string())
        .expect("buy");
    let after = contract.get_market(0).unwrap();
    assert!(after.yes_reserve * after.no_reserve >= before.yes_reserve * before.no_reserve);

    contract
        .internal_buy(0, Outcome::No, 3 * USDC_ONE, 0, "bob.testnet".to_string())
        .expect("buy");
    let last = contract.get_market(0).unwrap();
    assert!(last.yes_reserve * last.no_reserve >= after.yes_reserve * after.no_reserve);
}

#[test]
fn round_trip_returns_less() {
    let mut contract = contract_with_market("alice.testnet", 100 * USDC_ONE);
    let spent = 10 * USDC_ONE;
    let buy = contract
        .internal_buy(0, Outcome::Yes, spent, 0, "bob.testnet".to_string())
        .expect("buy");
    let sell = contract
        .sell(0, Outcome::Yes, buy.tokens_out, 0, "bob.testnet".to_string())
        .expect("sell");
    assert!(sell.collateral_out < spent);
}

#[test]
fn lp_shares_conserved() {
    let mut contract = contract_with_market("alice.testnet", 100 * USDC_ONE);
    let added = contract
        .internal_add_liquidity(0, 30 * USDC_ONE, "bob.testnet".to_string())
        .expect("add");
    let market = contract.get_market(0).unwrap();
    let alice = contract.get_lp_shares(0, "alice.testnet".to_string());
    let bob = contract.get_lp_shares(0, "bob.testnet".to_string());
    assert_eq!(bob, added.lp_shares);
    assert_eq!(alice + bob, market.total_lp_shares);

    contract
        .remove_liquidity(0, added.lp_shares / 2, "bob.testnet".to_string())
        .expect("remove");
    let market = contract.get_market(0).unwrap();
    let alice = contract.get_lp_shares(0, "alice.testnet".to_string());
    let bob = contract.get_lp_shares(0, "bob.testnet".to_string());
    assert_eq!(alice + bob, market.total_lp_shares);
}

#[test]
fn buy_on_unknown_market_is_rejected() {
    let mut contract = test_contract();
    let result = contract.internal_buy(5, Outcome::Yes, USDC_ONE, 0, "bob.testnet".to_string());
    assert_eq!(result.err(), Some(MarketError::ValidationError));
}

#[test]
fn buy_slippage_is_rejected() {
    let mut contract = contract_with_market("alice.testnet", 100 * USDC_ONE);
    let estimate = contract.estimate_buy(0, Outcome::Yes, USDC_ONE).expect("estimate");
    let result = contract.internal_buy(
        0,
        Outcome::Yes,
        USDC_ONE,
        estimate + 1,
        "bob.testnet".to_string(),
    );
    assert_eq!(result.err(), Some(MarketError::SlippageError));
    // The exact quote still executes.
    contract
        .internal_buy(0, Outcome::Yes, USDC_ONE, estimate, "bob.testnet".to_string())
        .expect("buy at quoted minimum");
}

#[test]
fn remove_more_than_position_is_rejected() {
    let mut contract = contract_with_market("alice.testnet", 100 * USDC_ONE);
    let result = contract.remove_liquidity(0, 101 * USDC_ONE, "alice.testnet".to_string());
    assert_eq!(result.err(), Some(MarketError::InsufficientBalanceError));
}

#[test]
fn set_owner_requires_owner() {
    let mut contract = test_contract();
    let caller = "mallory.testnet".to_string();
    let result = contract.set_owner(&caller, "mallory.testnet".to_string());
    assert_eq!(result.err(), Some(MarketError::AuthorizationError));

    let owner = "owner.testnet".to_string();
    contract.set_owner(&owner, "new-owner.testnet".to_string()).expect("owner may transfer");
    assert_eq!(contract.get_config().owner, "new-owner.testnet");
}

#[test]
fn buy_and_sell_quote_exact_values() {
    // 100-unit pool, 2% fee, buy 20 units of YES:
    // fee 400000, net 19600000, swap leaves reserves (54306727, 89200000)
    // and releases 15293273 YES claims; selling them straight back
    // releases 14987408 collateral units after the second fee.
    let mut contract = contract_with_market("alice.testnet", 100 * USDC_ONE);
    let estimate = contract.estimate_buy(0, Outcome::Yes, 20 * USDC_ONE).expect("estimate");
    assert_eq!(estimate, 15_293_273);

    let buy = contract
        .internal_buy(0, Outcome::Yes, 20 * USDC_ONE, 0, "bob.testnet".to_string())
        .expect("buy");
    assert_eq!(buy.tokens_out, 15_293_273);
    let market = contract.get_market(0).unwrap();
    assert_eq!(market.yes_reserve, 54_306_727);
    assert_eq!(market.no_reserve, 89_200_000);
    assert_eq!(market.accrued_fees, 400_000);
    assert_eq!(market.total_collateral, 100 * USDC_ONE + 19_600_000);

    let sell = contract
        .sell(0, Outcome::Yes, buy.tokens_out, 0, "bob.testnet".to_string())
        .expect("sell");
    assert_eq!(sell.collateral_out, 14_987_408);
    assert!(sell.collateral_out < 20 * USDC_ONE);
}
