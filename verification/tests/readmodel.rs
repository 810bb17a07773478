use nest_markets::ingest::{
    effective_limit, get_ws_url, liveness_deadline_text, ns_string_to_ms, plan_market_event,
    EventMeta, MarketEventPayload, ResolutionSubmittedEvent, TradeEvent,
    INGEST_ORACLE_LIVENESS_NS,
};
use nest_markets::prims::{parse_i128, u64_to_dec_string};
use nest_markets::resolution::{assertion_preimage, default_identifier, resolution_claim_text};
use nest_markets::types::Outcome;

#[test]
fn ns_string_to_ms_parses_timestamps() {
    assert_eq!(ns_string_to_ms("1700000000000000000"), 1_700_000_000_000);
    assert_eq!(ns_string_to_ms("2000000"), 2);
    assert_eq!(ns_string_to_ms("+42000000"), 42);
    assert_eq!(ns_string_to_ms("-3000000"), -3);
    assert_eq!(ns_string_to_ms("abc"), 0);
    assert_eq!(ns_string_to_ms(""), 0);
    assert_eq!(ns_string_to_ms("12x"), 0);
}

#[test]
fn parse_i128_matches_std() {
    for s in ["0", "-1", "42", "+42", "170141183460469231731687303715884105727", "-170141183460469231731687303715884105728", "170141183460469231731687303715884105728", "junk", "", "9e4", "--3"] {
        assert_eq!(parse_i128(s), s.parse::<i128>().ok(), "input {:?}", s);
    }
}

#[test]
fn decimal_rendering_matches_std() {
    for v in [0u64, 7, 10, 12345, u64::MAX] {
        assert_eq!(u64_to_dec_string(v), v.to_string());
    }
}

#[test]
fn ws_url_selected_by_network() {
    assert_eq!(
        get_ws_url(true),
        "wss://ws-events-v3-testnet.intear.tech/events/log_nep297"
    );
    assert_eq!(
        get_ws_url(false),
        "wss://ws-events-v3.intear.tech/events/log_nep297"
    );
}

#[test]
fn effective_limit_clamps() {
    assert_eq!(effective_limit(None, 200, 2000), 200);
    assert_eq!(effective_limit(Some(0), 200, 2000), 1);
    assert_eq!(effective_limit(Some(5000), 200, 2000), 2000);
    assert_eq!(effective_limit(Some(50), 50, 500), 50);
}

#[test]
fn liveness_deadline_adds_window() {
    let expected = (100u64 + INGEST_ORACLE_LIVENESS_NS).to_string();
    assert_eq!(liveness_deadline_text("100"), Some(expected));
    assert_eq!(liveness_deadline_text("-100"), None);
    assert_eq!(liveness_deadline_text("junk"), None);
}

#[test]
fn claim_text_is_deterministic() {
    assert_eq!(resolution_claim_text(7, Outcome::Yes), "market:7:outcome:yes");
    assert_eq!(resolution_claim_text(123, Outcome::No), "market:123:outcome:no");
}

fn meta(event_type: &str) -> EventMeta {
    EventMeta {
        event_type: event_type.to_string(),
        block_height: 99,
        block_timestamp_ns: "1000".to_string(),
        transaction_id: "tx".to_string(),
        receipt_id: "rc".to_string(),
    }
}

#[test]
fn trade_events_record_price_points() {
    let payload = MarketEventPayload::Trade(TradeEvent {
        market_id: 3,
        trader: "bob.testnet".to_string(),
        outcome: Outcome::Yes,
        is_buy: true,
        collateral_amount: "1000000".to_string(),
        token_amount: "1800000".to_string(),
        yes_price: "560000".to_string(),
        no_price: "440000".to_string(),
    });
    let plan = plan_market_event(meta("trade"), &payload, "{}".to_string()).expect("plan");
    assert!(plan.record_price_point);
    assert_eq!(plan.insert.market_id, 3);
    assert_eq!(plan.insert.event_type, "trade");
    assert_eq!(plan.projection.status, "open");
    assert_eq!(plan.projection.latest_yes_price.as_deref(), Some("560000"));
    assert_eq!(plan.projection.latest_no_price.as_deref(), Some("440000"));
    assert!(plan.lifecycle.is_none());
}

#[test]
fn resolution_events_update_lifecycle() {
    let payload = MarketEventPayload::ResolutionSubmitted(ResolutionSubmittedEvent {
        market_id: 4,
        outcome: Outcome::No,
        resolver: "resolver.testnet".to_string(),
        assertion_id: "ab".repeat(32),
    });
    let plan =
        plan_market_event(meta("resolution_submitted"), &payload, "{}".to_string()).expect("plan");
    assert!(!plan.record_price_point);
    assert_eq!(plan.projection.status, "resolving");
    assert_eq!(plan.projection.outcome.as_deref(), Some("No"));
    let lifecycle = plan.lifecycle.expect("lifecycle row");
    assert_eq!(lifecycle.assertion_id.as_deref(), Some("ab".repeat(32).as_str()));
    assert_eq!(lifecycle.resolver.as_deref(), Some("resolver.testnet"));
    assert_eq!(lifecycle.submitted_block_height, Some(99));
    assert_eq!(
        lifecycle.liveness_deadline_ns,
        Some((1000u64 + INGEST_ORACLE_LIVENESS_NS).to_string())
    );
}

#[test]
fn unknown_events_without_market_are_dropped() {
    let payload = MarketEventPayload::Unknown { market_id: None };
    assert!(plan_market_event(meta("mystery"), &payload, "{}".to_string()).is_none());
    let payload = MarketEventPayload::Unknown { market_id: Some(8) };
    let plan = plan_market_event(meta("mystery"), &payload, "{}".to_string()).expect("captured");
    assert_eq!(plan.insert.market_id, 8);
    assert_eq!(plan.projection.status, "open");
}

#[test]
fn assertion_preimage_concatenates_terms() {
    let identifier = default_identifier();
    assert_eq!(identifier.len(), 32);
    assert_eq!(&identifier[..12], b"ASSERT_TRUTH");
    assert!(identifier[12..].iter().all(|b| *b == 0));

    let claim = vec![0xaa; 32];
    let preimage = assertion_preimage(
        &claim,
        10_000_000,
        120,
        7_200_000_000_000,
        "usdc.testnet",
        Some("market.testnet"),
        &identifier,
        "market.testnet",
    );
    let mut expected = Vec::new();
    expected.extend_from_slice(&claim);
    expected.extend_from_slice(&10_000_000u128.to_le_bytes());
    expected.extend_from_slice(&120u64.to_le_bytes());
    expected.extend_from_slice(&7_200_000_000_000u64.to_le_bytes());
    expected.extend_from_slice(b"usdc.testnet");
    expected.extend_from_slice(b"market.testnet");
    expected.extend_from_slice(&identifier);
    expected.extend_from_slice(b"market.testnet");
    assert_eq!(preimage, expected);
}
