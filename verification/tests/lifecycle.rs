use nest_markets::contract::MarketContract;
use nest_markets::resolution::DEFAULT_ORACLE_LIVENESS_NS;
use nest_markets::types::{MarketError, MarketStatus, Outcome, USDC_ONE};

fn test_contract() -> MarketContract {
    MarketContract::new(
        "owner.testnet".to_string(),
        "usdc.testnet".to_string(),
        "outcome.testnet".to_string(),
        "oracle.testnet".to_string(),
    )
}

fn contract_with_market(resolution_time_ns: u64, creator: &str) -> MarketContract {
    let mut contract = test_contract();
    contract
        .internal_create_market(
            "Will test pass?".to_string(),
            "test".to_string(),
            resolution_time_ns,
            100 * USDC_ONE,
            creator.to_string(),
            0,
        )
        .expect("create market");
    contract
}

fn digest(fill: u8) -> Vec<u8> {
    vec![fill; 32]
}

#[test]
fn propose_then_undisputed_settle() {
    let mut contract = contract_with_market(100, "creator.testnet");

    let submit_ts = 120;
    contract
        .internal_submit_resolution(
            0,
            Outcome::Yes,
            10 * USDC_ONE,
            "resolver.testnet".to_string(),
            submit_ts,
            digest(7),
        )
        .expect("submission accepted after the deadline");

    let resolving = contract.get_resolution_status(0, 130).expect("status");
    assert_eq!(resolving.status, MarketStatus::Resolving);
    assert!(resolving.active_assertion_id.is_some());
    let assertion_hex = resolving.active_assertion_id.unwrap();
    assert_eq!(assertion_hex, hex::encode(digest(7)));

    let oracle = "oracle.testnet".to_string();
    contract
        .assertion_resolved_callback(assertion_hex, true, &oracle)
        .expect("oracle settles");

    let settled = contract.get_market(0).expect("market exists");
    assert_eq!(settled.status, MarketStatus::Settled);
    assert_eq!(settled.outcome, Some(Outcome::Yes));
    let status = contract.get_resolution_status(0, 200).expect("status");
    assert!(status.active_assertion_id.is_none());
}

#[test]
fn propose_then_dispute_then_false_settle_reopens_market() {
    let mut contract = contract_with_market(100, "creator.testnet");

    let submit_ts = 130;
    contract
        .internal_submit_resolution(
            0,
            Outcome::No,
            10 * USDC_ONE,
            "resolver.testnet".to_string(),
            submit_ts,
            digest(9),
        )
        .expect("submission accepted");

    let assertion_hex = contract
        .get_resolution_status(0, 140)
        .expect("status")
        .active_assertion_id
        .expect("assertion id set");

    let oracle = "oracle.testnet".to_string();
    contract
        .assertion_disputed_callback(assertion_hex.clone(), &oracle)
        .expect("oracle records dispute");
    assert_eq!(
        contract.get_market(0).unwrap().status,
        MarketStatus::Disputed
    );

    contract
        .assertion_resolved_callback(assertion_hex, false, &oracle)
        .expect("oracle resolves against the asserter");

    let reopened = contract.get_market(0).unwrap();
    assert_eq!(reopened.status, MarketStatus::Closed);
    assert!(reopened.outcome.is_none());
    let status = contract.get_resolution_status(0, 200).expect("status");
    assert!(status.active_assertion_id.is_none());
    assert!(status.asserted_outcome.is_none());
}

#[test]
fn callback_rejected_for_non_oracle_caller() {
    let mut contract = test_contract();
    let attacker = "attacker.testnet".to_string();
    let result = contract.assertion_disputed_callback("00".repeat(32), &attacker);
    assert_eq!(result.err(), Some(MarketError::AuthorizationError));
}

#[test]
fn submit_before_deadline_is_rejected() {
    let mut contract = contract_with_market(1_000, "creator.testnet");
    let result = contract.internal_submit_resolution(
        0,
        Outcome::Yes,
        10 * USDC_ONE,
        "resolver.testnet".to_string(),
        999,
        digest(1),
    );
    assert_eq!(result.err(), Some(MarketError::StateError));
    assert_eq!(contract.get_market(0).unwrap().status, MarketStatus::Open);
}

#[test]
fn failed_bond_transfer_rolls_back_submission() {
    let mut contract = contract_with_market(100, "creator.testnet");
    let before = contract.get_market(0).unwrap();

    let receipt = contract
        .internal_submit_resolution(
            0,
            Outcome::Yes,
            10 * USDC_ONE,
            "resolver.testnet".to_string(),
            120,
            digest(5),
        )
        .expect("submission accepted");
    assert_eq!(receipt.previous_status, MarketStatus::Open);
    assert_eq!(receipt.liveness_ns, DEFAULT_ORACLE_LIVENESS_NS);
    assert_eq!(
        contract.get_market(0).unwrap().status,
        MarketStatus::Resolving
    );

    // The bond transfer failed: the orchestrator reports back.
    let rolled = contract
        .on_resolution_submitted(
            0,
            Outcome::Yes,
            "resolver.testnet".to_string(),
            digest(5),
            receipt.previous_status,
            false,
        )
        .expect("rollback accepted");
    assert!(rolled.is_none());

    let after = contract.get_market(0).unwrap();
    assert_eq!(after.status, before.status);
    assert_eq!(after.yes_reserve, before.yes_reserve);
    assert_eq!(after.no_reserve, before.no_reserve);
    assert_eq!(after.total_collateral, before.total_collateral);
    let status = contract.get_resolution_status(0, 130).expect("status");
    assert!(status.active_assertion_id.is_none());
    assert!(status.asserted_outcome.is_none());
    assert!(status.resolver.is_none());
    assert!(status.is_resolvable_now);

    // The market is eligible for a fresh submission.
    contract
        .internal_submit_resolution(
            0,
            Outcome::No,
            10 * USDC_ONE,
            "resolver.testnet".to_string(),
            140,
            digest(6),
        )
        .expect("re-submission accepted");
}

#[test]
fn trading_rejected_while_not_open() {
    let mut contract = contract_with_market(100, "creator.testnet");
    contract
        .internal_submit_resolution(
            0,
            Outcome::Yes,
            10 * USDC_ONE,
            "resolver.testnet".to_string(),
            120,
            digest(2),
        )
        .expect("submission accepted");

    let result = contract.internal_buy(0, Outcome::Yes, USDC_ONE, 0, "bob.testnet".to_string());
    assert_eq!(result.err(), Some(MarketError::StateError));
    let result = contract.sell(0, Outcome::Yes, USDC_ONE, 0, "bob.testnet".to_string());
    assert_eq!(result.err(), Some(MarketError::StateError));
}

#[test]
fn redeem_only_when_settled() {
    let mut contract = contract_with_market(100, "creator.testnet");

    // Before settlement the redemption is refused and nothing changes.
    let before = contract.get_market(0).unwrap();
    let result = contract.redeem_tokens(0, 5 * USDC_ONE, "bob.testnet".to_string());
    assert_eq!(result.err(), Some(MarketError::StateError));
    let after = contract.get_market(0).unwrap();
    assert_eq!(after.total_collateral, before.total_collateral);
    assert_eq!(after.total_lp_shares, before.total_lp_shares);

    // Settle, then redeem the winning side.
    contract
        .internal_submit_resolution(
            0,
            Outcome::Yes,
            10 * USDC_ONE,
            "resolver.testnet".to_string(),
            120,
            digest(3),
        )
        .expect("submission accepted");
    let oracle = "oracle.testnet".to_string();
    contract
        .assertion_resolved_callback(hex::encode(digest(3)), true, &oracle)
        .expect("settled");

    let burn = contract
        .redeem_tokens(0, 5 * USDC_ONE, "bob.testnet".to_string())
        .expect("redeem accepted once settled");
    assert_eq!(burn.outcome, Outcome::Yes);
    assert_eq!(burn.amount, 5 * USDC_ONE);

    // Burn succeeded: payment released one-for-one.
    let (transfer, _event) = contract
        .on_redeem_burn_complete(0, "bob.testnet".to_string(), 5 * USDC_ONE, true)
        .expect("payout follows burn");
    assert_eq!(transfer.amount, 5 * USDC_ONE);
    assert_eq!(transfer.receiver_id, "bob.testnet");

    // Burn failed: no payout.
    let result = contract.on_redeem_burn_complete(0, "bob.testnet".to_string(), 5 * USDC_ONE, false);
    assert_eq!(result.err(), Some(MarketError::CollaboratorFailure));
}

#[test]
fn ft_on_transfer_routes_actions() {
    let mut contract = test_contract();
    let usdc = "usdc.testnet".to_string();
    let other = "othertoken.testnet".to_string();

    let refused = contract.ft_on_transfer(
        "alice.testnet".to_string(),
        100 * USDC_ONE,
        nest_markets::types::MarketFtMsg::CreateMarket {
            question: "Routed?".to_string(),
            description: "".to_string(),
            resolution_time_ns: 2_000_000_000_000,
        },
        &other,
        0,
        Vec::new(),
    );
    assert_eq!(refused.err(), Some(MarketError::AuthorizationError));

    let (refund, _receipt) = contract
        .ft_on_transfer(
            "alice.testnet".to_string(),
            100 * USDC_ONE,
            nest_markets::types::MarketFtMsg::CreateMarket {
                question: "Routed?".to_string(),
                description: "".to_string(),
                resolution_time_ns: 2_000_000_000_000,
            },
            &usdc,
            0,
            Vec::new(),
        )
        .expect("create via router");
    assert_eq!(refund, 0);
    assert_eq!(contract.get_market_count(), 1);

    let (refund, receipt) = contract
        .ft_on_transfer(
            "bob.testnet".to_string(),
            5 * USDC_ONE,
            nest_markets::types::MarketFtMsg::Buy {
                market_id: 0,
                outcome: Outcome::Yes,
                min_tokens_out: 0,
            },
            &usdc,
            0,
            Vec::new(),
        )
        .expect("buy via router");
    assert_eq!(refund, 0);
    match receipt {
        nest_markets::contract::FtMsgReceipt::Bought(b) => assert!(b.tokens_out > 0),
        _ => panic!("expected a buy receipt"),
    }
}
