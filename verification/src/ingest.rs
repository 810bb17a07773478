//! Read-model ingestion: the decisions of the event listener. Given a
//! parsed domain event, these functions compute exactly which rows the
//! read model must write — the event row, the market projection, and
//! the lifecycle projection — leaving the socket and database work to
//! the surrounding runtime.

use vstd::prelude::*;

use crate::prims::{dec_str, fits_i128, int_text_val, is_int_text, parse_i128, u64_to_dec_string};
use crate::types::Outcome;

verus! {

use vstd::string::StringSliceAdditionalSpecFns;

/// The dispute window assumed by the read model, in nanoseconds.
pub const INGEST_ORACLE_LIVENESS_NS: u64 = 7_200_000_000_000;

/// Runtime configuration of the read-model service.
pub struct AppConfig {
    pub database_url: String,
    pub bind_address: String,
    pub is_testnet: bool,
    pub market_contract_id: String,
    pub event_standard: String,
}

/// Configuration of the event listener.
pub struct EventListenerConfig {
    pub market_contract_id: String,
    pub event_standard: String,
    pub is_testnet: bool,
}

/// One row of the append-only event table.
pub struct EventInsert {
    pub market_id: u64,
    pub event_type: String,
    pub block_height: u64,
    pub block_timestamp_ns: String,
    pub transaction_id: String,
    pub receipt_id: String,
    pub event_json: String,
}

/// One upsert of the per-market projection.
pub struct ProjectionUpdate {
    pub market_id: u64,
    pub status: String,
    pub outcome: Option<String>,
    pub latest_yes_price: Option<String>,
    pub latest_no_price: Option<String>,
    pub updated_block_height: u64,
}

/// One upsert of the per-market lifecycle projection.
pub struct LifecycleProjectionUpdate {
    pub market_id: u64,
    pub assertion_id: Option<String>,
    pub resolver: Option<String>,
    pub disputer: Option<String>,
    pub submitted_block_height: Option<u64>,
    pub disputed_block_height: Option<u64>,
    pub settled_block_height: Option<u64>,
    pub submitted_timestamp_ns: Option<String>,
    pub disputed_timestamp_ns: Option<String>,
    pub settled_timestamp_ns: Option<String>,
    pub liveness_deadline_ns: Option<String>,
}

/// Wire payloads of the published events, as the read model receives
/// them (amounts travel as decimal strings).
pub struct MarketCreatedEvent {
    pub market_id: u64,
    pub question: String,
    pub resolution_time_ns: String,
    pub creator: String,
    pub initial_liquidity: String,
}

pub struct TradeEvent {
    pub market_id: u64,
    pub trader: String,
    pub outcome: Outcome,
    pub is_buy: bool,
    pub collateral_amount: String,
    pub token_amount: String,
    pub yes_price: String,
    pub no_price: String,
}

pub struct LiquidityAddedEvent {
    pub market_id: u64,
    pub provider: String,
    pub amount: String,
    pub lp_shares: String,
}

pub struct LiquidityRemovedEvent {
    pub market_id: u64,
    pub provider: String,
    pub amount: String,
    pub lp_shares: String,
}

pub struct ResolutionSubmittedEvent {
    pub market_id: u64,
    pub outcome: Outcome,
    pub resolver: String,
    pub assertion_id: String,
}

pub struct MarketDisputedEvent {
    pub market_id: u64,
    pub assertion_id: String,
}

pub struct MarketSettledEvent {
    pub market_id: u64,
    pub outcome: Outcome,
}

pub struct RedeemedEvent {
    pub market_id: u64,
    pub user: String,
    pub collateral_out: String,
}

/// Health summary served by the read model.
pub struct HealthResponse {
    pub status: String,
    pub market_events_count: i64,
    pub price_points_count: i64,
    pub last_block_height: Option<u64>,
}

/// Query-string parameter limiting a listing.
pub struct LimitQuery {
    pub limit: Option<u32>,
}

/// One trade in a trade listing.
pub struct TradeResponseItem {
    pub block_height: u64,
    pub timestamp_ms: i64,
    pub transaction_id: String,
    pub trader: String,
    pub outcome: String,
    pub is_buy: bool,
    pub collateral_amount: String,
    pub token_amount: String,
    pub yes_price: String,
    pub no_price: String,
}

/// A trade listing for one market.
pub struct TradesResponse {
    pub market_id: u64,
    pub trades: Vec<TradeResponseItem>,
}

/// Lifecycle summary served for one market.
pub struct ResolutionStatusResponse {
    pub market_id: u64,
    pub status: String,
    pub outcome: Option<String>,
    pub assertion_id: Option<String>,
    pub resolver: Option<String>,
    pub disputer: Option<String>,
    pub submitted_block_height: Option<u64>,
    pub disputed_block_height: Option<u64>,
    pub settled_block_height: Option<u64>,
    pub submitted_timestamp_ns: Option<String>,
    pub disputed_timestamp_ns: Option<String>,
    pub settled_timestamp_ns: Option<String>,
    pub liveness_deadline_ns: Option<String>,
}

/// Nanoseconds to milliseconds with machine (truncating) division.
pub open spec fn ns_to_ms_val(v: int) -> int {
    if v >= 0 {
        v / 1000000
    } else {
        -((-v) / 1000000)
    }
}

/// Nanosecond timestamp text to milliseconds, as the read model
/// renders times: zero when the text is not a well-formed integer.
pub fn ns_string_to_ms(ns: &str) -> (r: i64)
    ensures
        !(is_int_text(ns.spec_bytes()) && fits_i128(int_text_val(ns.spec_bytes()))) ==> r == 0,
        is_int_text(ns.spec_bytes()) && fits_i128(int_text_val(ns.spec_bytes()))
            && -9223372036854775808 <= ns_to_ms_val(int_text_val(ns.spec_bytes()))
            <= 9223372036854775807 ==> r == ns_to_ms_val(int_text_val(ns.spec_bytes())),
{
    match parse_i128(ns) {
        Some(v) => {
            if v >= 0 {
                let q = v / 1_000_000;
                if q <= 9223372036854775807 {
                    q as i64
                } else {
                    0
                }
            } else if v >= -170141183460469231731687303715884105727 {
                let q = (-v) / 1_000_000;
                if q <= 9223372036854775808 {
                    (-q) as i64
                } else {
                    0
                }
            } else {
                0
            }
        },
        None => 0,
    }
}

/// The event socket to listen on.
pub fn get_ws_url(is_testnet: bool) -> (r: String)
    ensures
        is_testnet ==> r@ == "wss://ws-events-v3-testnet.intear.tech/events/log_nep297"@,
        !is_testnet ==> r@ == "wss://ws-events-v3.intear.tech/events/log_nep297"@,
{
    if is_testnet {
        "wss://ws-events-v3-testnet.intear.tech/events/log_nep297".to_owned()
    } else {
        "wss://ws-events-v3.intear.tech/events/log_nep297".to_owned()
    }
}

/// The page size actually used for a listing: the requested limit, or
/// `default` when absent, clamped into `[1, max]`.
pub fn effective_limit(requested: Option<u32>, default: u32, max: u32) -> (r: u32)
    requires
        1 <= default <= max,
    ensures
        r == ({
            let want = match requested {
                Some(v) => v as int,
                None => default as int,
            };
            if want < 1 {
                1int
            } else if want > max {
                max as int
            } else {
                want
            }
        }),
{
    let want = match requested {
        Some(v) => v,
        None => default,
    };
    if want < 1 {
        1
    } else if want > max {
        max
    } else {
        want
    }
}

/// The liveness deadline recorded for a submission observed at
/// `block_timestamp_ns`: the timestamp plus the dispute window, as
/// decimal text; absent when the timestamp does not parse as an
/// unsigned 64-bit number or the sum leaves the type.
pub fn liveness_deadline_text(block_timestamp_ns: &str) -> (r: Option<String>)
    ensures
        r is Some <==> is_int_text(block_timestamp_ns.spec_bytes())
            && block_timestamp_ns.spec_bytes()[0] != 45 && int_text_val(
            block_timestamp_ns.spec_bytes(),
        ) + INGEST_ORACLE_LIVENESS_NS <= 18446744073709551615,
        r is Some ==> r->0@ == dec_str(
            int_text_val(block_timestamp_ns.spec_bytes()) + INGEST_ORACLE_LIVENESS_NS,
        ),
{
    let bs = block_timestamp_ns.as_bytes();
    if bs.len() > 0 && bs[0] == 45 {
        // The read model records times as unsigned; a signed text is
        // not a timestamp.
        return None;
    }
    let v = match parse_i128(block_timestamp_ns) {
        Some(v) => v,
        None => {
            proof {
                if is_int_text(block_timestamp_ns.spec_bytes())
                    && block_timestamp_ns.spec_bytes()[0] != 45 {
                    crate::prims::lemma_int_text_val_nonneg(block_timestamp_ns.spec_bytes());
                }
            }
            return None;
        },
    };
    if v < 0 {
        proof {
            crate::prims::lemma_int_text_val_nonneg(block_timestamp_ns.spec_bytes());
        }
        return None;
    }
    if v > 18446744073709551615 - (INGEST_ORACLE_LIVENESS_NS as i128) {
        return None;
    }
    let with_window: u64 = (v as u64) + INGEST_ORACLE_LIVENESS_NS;
    Some(u64_to_dec_string(with_window))
}

} // verus!

verus! {

/// A parsed domain event, ready for planning.
pub enum MarketEventPayload {
    MarketCreated(MarketCreatedEvent),
    Trade(TradeEvent),
    LiquidityAdded(LiquidityAddedEvent),
    LiquidityRemoved(LiquidityRemovedEvent),
    ResolutionSubmitted(ResolutionSubmittedEvent),
    MarketDisputed(MarketDisputedEvent),
    MarketSettled(MarketSettledEvent),
    Redeemed(RedeemedEvent),
    /// An event type the read model does not know; captured anyway when
    /// it names a market.
    Unknown { market_id: Option<u64> },
}

/// Envelope of a received event: where and when it was observed.
pub struct EventMeta {
    pub event_type: String,
    pub block_height: u64,
    pub block_timestamp_ns: String,
    pub transaction_id: String,
    pub receipt_id: String,
}

/// Everything the read model must write for one received event.
pub struct IngestPlan {
    /// The append-only event row.
    pub insert: EventInsert,
    /// The per-market projection upsert.
    pub projection: ProjectionUpdate,
    /// The lifecycle projection upsert, for resolution events.
    pub lifecycle: Option<LifecycleProjectionUpdate>,
    /// Whether a price point (and live trade message) must be recorded.
    pub record_price_point: bool,
}

/// The market a payload speaks about.
pub open spec fn payload_market_id(p: MarketEventPayload) -> Option<u64> {
    match p {
        MarketEventPayload::MarketCreated(e) => Some(e.market_id),
        MarketEventPayload::Trade(e) => Some(e.market_id),
        MarketEventPayload::LiquidityAdded(e) => Some(e.market_id),
        MarketEventPayload::LiquidityRemoved(e) => Some(e.market_id),
        MarketEventPayload::ResolutionSubmitted(e) => Some(e.market_id),
        MarketEventPayload::MarketDisputed(e) => Some(e.market_id),
        MarketEventPayload::MarketSettled(e) => Some(e.market_id),
        MarketEventPayload::Redeemed(e) => Some(e.market_id),
        MarketEventPayload::Unknown { market_id } => market_id,
    }
}

/// The projected status text for each event kind.
pub open spec fn payload_status_text(p: MarketEventPayload) -> Seq<char> {
    match p {
        MarketEventPayload::ResolutionSubmitted(_) => "resolving"@,
        MarketEventPayload::MarketDisputed(_) => "disputed"@,
        MarketEventPayload::MarketSettled(_) => "settled"@,
        MarketEventPayload::Redeemed(_) => "settled"@,
        _ => "open"@,
    }
}

/// Whether a timestamp text admits a liveness deadline.
pub open spec fn deadline_defined(bs: Seq<u8>) -> bool {
    &&& is_int_text(bs)
    &&& bs[0] != 45
    &&& int_text_val(bs) + INGEST_ORACLE_LIVENESS_NS <= 18446744073709551615
}

/// Plan the read-model writes for one received event: the event row,
/// the projection upsert with the status the event implies, the
/// lifecycle upsert for resolution events, and whether to record a
/// price point. Unknown events without a market id are dropped.
pub fn plan_market_event(meta: EventMeta, payload: &MarketEventPayload, event_json: String) -> (r:
    Option<IngestPlan>)
    ensures
        r is Some <==> payload_market_id(*payload) is Some,
        r is Some ==> ({
            let p = r->0;
            let mid = payload_market_id(*payload)->0;
            &&& p.insert.market_id == mid
            &&& p.insert.event_type@ == meta.event_type@
            &&& p.insert.block_height == meta.block_height
            &&& p.insert.block_timestamp_ns@ == meta.block_timestamp_ns@
            &&& p.insert.transaction_id@ == meta.transaction_id@
            &&& p.insert.receipt_id@ == meta.receipt_id@
            &&& p.insert.event_json@ == event_json@
            &&& p.projection.market_id == mid
            &&& p.projection.status@ == payload_status_text(*payload)
            &&& p.projection.updated_block_height == meta.block_height
            &&& (p.record_price_point <==> payload matches MarketEventPayload::Trade(_))
            &&& (match *payload {
                MarketEventPayload::Trade(e) => {
                    &&& (p.projection.latest_yes_price matches Some(s) && s@ == e.yes_price@)
                    &&& (p.projection.latest_no_price matches Some(s) && s@ == e.no_price@)
                    &&& p.projection.outcome is None
                    &&& p.lifecycle is None
                },
                MarketEventPayload::ResolutionSubmitted(e) => {
                    &&& (p.projection.outcome matches Some(s) && s@ == (if e.outcome
                        == Outcome::Yes {
                        "Yes"@
                    } else {
                        "No"@
                    }))
                    &&& p.projection.latest_yes_price is None
                    &&& p.projection.latest_no_price is None
                    &&& (p.lifecycle matches Some(l) && {
                        &&& (l.assertion_id matches Some(s) && s@ == e.assertion_id@)
                        &&& (l.resolver matches Some(s) && s@ == e.resolver@)
                        &&& l.disputer is None
                        &&& l.submitted_block_height == Some(meta.block_height)
                        &&& l.disputed_block_height is None
                        &&& l.settled_block_height is None
                        &&& (l.submitted_timestamp_ns matches Some(s) && s@
                            == meta.block_timestamp_ns@)
                        &&& l.disputed_timestamp_ns is None
                        &&& l.settled_timestamp_ns is None
                        &&& l.market_id == mid
                        &&& (l.liveness_deadline_ns is Some <==> deadline_defined(
                            vstd::utf8::encode_utf8(meta.block_timestamp_ns@),
                        ))
                        &&& (l.liveness_deadline_ns matches Some(s) ==> s@ == dec_str(
                            int_text_val(vstd::utf8::encode_utf8(meta.block_timestamp_ns@))
                                + INGEST_ORACLE_LIVENESS_NS,
                        ))
                    })
                },
                MarketEventPayload::MarketDisputed(e) => {
                    &&& p.projection.outcome is None
                    &&& p.projection.latest_yes_price is None
                    &&& p.projection.latest_no_price is None
                    &&& (p.lifecycle matches Some(l) && {
                        &&& (l.assertion_id matches Some(s) && s@ == e.assertion_id@)
                        &&& l.resolver is None
                        &&& l.disputer is None
                        &&& l.submitted_block_height is None
                        &&& l.disputed_block_height == Some(meta.block_height)
                        &&& l.settled_block_height is None
                        &&& l.submitted_timestamp_ns is None
                        &&& (l.disputed_timestamp_ns matches Some(s) && s@
                            == meta.block_timestamp_ns@)
                        &&& l.settled_timestamp_ns is None
                        &&& l.liveness_deadline_ns is None
                        &&& l.market_id == mid
                    })
                },
                MarketEventPayload::MarketSettled(e) => {
                    &&& (p.projection.outcome matches Some(s) && s@ == (if e.outcome
                        == Outcome::Yes {
                        "Yes"@
                    } else {
                        "No"@
                    }))
                    &&& p.projection.latest_yes_price is None
                    &&& p.projection.latest_no_price is None
                    &&& (p.lifecycle matches Some(l) && {
                        &&& l.assertion_id is None
                        &&& l.resolver is None
                        &&& l.disputer is None
                        &&& l.submitted_block_height is None
                        &&& l.disputed_block_height is None
                        &&& l.settled_block_height == Some(meta.block_height)
                        &&& l.submitted_timestamp_ns is None
                        &&& l.disputed_timestamp_ns is None
                        &&& (l.settled_timestamp_ns matches Some(s) && s@
                            == meta.block_timestamp_ns@)
                        &&& l.liveness_deadline_ns is None
                        &&& l.market_id == mid
                    })
                },
                _ => {
                    &&& p.projection.outcome is None
                    &&& p.projection.latest_yes_price is None
                    &&& p.projection.latest_no_price is None
                    &&& p.lifecycle is None
                },
            })
        }),
{
    let market_id: u64 = match payload {
        MarketEventPayload::MarketCreated(e) => e.market_id,
        MarketEventPayload::Trade(e) => e.market_id,
        MarketEventPayload::LiquidityAdded(e) => e.market_id,
        MarketEventPayload::LiquidityRemoved(e) => e.market_id,
        MarketEventPayload::ResolutionSubmitted(e) => e.market_id,
        MarketEventPayload::MarketDisputed(e) => e.market_id,
        MarketEventPayload::MarketSettled(e) => e.market_id,
        MarketEventPayload::Redeemed(e) => e.market_id,
        MarketEventPayload::Unknown { market_id } => {
            match market_id {
                Some(m) => *m,
                None => {
                    return None;
                },
            }
        },
    };

    let status: String = match payload {
        MarketEventPayload::ResolutionSubmitted(_) => "resolving".to_owned(),
        MarketEventPayload::MarketDisputed(_) => "disputed".to_owned(),
        MarketEventPayload::MarketSettled(_) => "settled".to_owned(),
        MarketEventPayload::Redeemed(_) => "settled".to_owned(),
        _ => "open".to_owned(),
    };

    let outcome: Option<String> = match payload {
        MarketEventPayload::ResolutionSubmitted(e) => Some(
            match e.outcome {
                Outcome::Yes => "Yes".to_owned(),
                Outcome::No => "No".to_owned(),
            },
        ),
        MarketEventPayload::MarketSettled(e) => Some(
            match e.outcome {
                Outcome::Yes => "Yes".to_owned(),
                Outcome::No => "No".to_owned(),
            },
        ),
        _ => None,
    };

    let (latest_yes_price, latest_no_price): (Option<String>, Option<String>) = match payload {
        MarketEventPayload::Trade(e) => (Some(e.yes_price.clone()), Some(e.no_price.clone())),
        _ => (None, None),
    };

    let lifecycle: Option<LifecycleProjectionUpdate> = match payload {
        MarketEventPayload::ResolutionSubmitted(e) => Some(
            LifecycleProjectionUpdate {
                market_id,
                assertion_id: Some(e.assertion_id.clone()),
                resolver: Some(e.resolver.clone()),
                disputer: None,
                submitted_block_height: Some(meta.block_height),
                disputed_block_height: None,
                settled_block_height: None,
                submitted_timestamp_ns: Some(meta.block_timestamp_ns.clone()),
                disputed_timestamp_ns: None,
                settled_timestamp_ns: None,
                liveness_deadline_ns: liveness_deadline_text(meta.block_timestamp_ns.as_str()),
            },
        ),
        MarketEventPayload::MarketDisputed(e) => Some(
            LifecycleProjectionUpdate {
                market_id,
                assertion_id: Some(e.assertion_id.clone()),
                resolver: None,
                disputer: None,
                submitted_block_height: None,
                disputed_block_height: Some(meta.block_height),
                settled_block_height: None,
                submitted_timestamp_ns: None,
                disputed_timestamp_ns: Some(meta.block_timestamp_ns.clone()),
                settled_timestamp_ns: None,
                liveness_deadline_ns: None,
            },
        ),
        MarketEventPayload::MarketSettled(_) => Some(
            LifecycleProjectionUpdate {
                market_id,
                assertion_id: None,
                resolver: None,
                disputer: None,
                submitted_block_height: None,
                disputed_block_height: None,
                settled_block_height: Some(meta.block_height),
                submitted_timestamp_ns: None,
                disputed_timestamp_ns: None,
                settled_timestamp_ns: Some(meta.block_timestamp_ns.clone()),
                liveness_deadline_ns: None,
            },
        ),
        _ => None,
    };

    let record_price_point = match payload {
        MarketEventPayload::Trade(_) => true,
        _ => false,
    };

    Some(
        IngestPlan {
            insert: EventInsert {
                market_id,
                event_type: meta.event_type,
                block_height: meta.block_height,
                block_timestamp_ns: meta.block_timestamp_ns,
                transaction_id: meta.transaction_id,
                receipt_id: meta.receipt_id,
                event_json,
            },
            projection: ProjectionUpdate {
                market_id,
                status,
                outcome,
                latest_yes_price,
                latest_no_price,
                updated_block_height: meta.block_height,
            },
            lifecycle,
            record_price_point,
        },
    )
}

} // verus!
