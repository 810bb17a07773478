//! Domain events. Every state-changing operation returns the event it
//! emits; the surrounding runtime serialises and publishes them as the
//! append-only feed the read model consumes.

use vstd::prelude::*;

use crate::types::{MarketId, Outcome};

verus! {

/// One entry of the durable event feed. Each variant carries enough to
/// reconstruct the resulting price and status without re-reading the
/// ledger.
pub enum Event {
    MarketCreated {
        market_id: MarketId,
        question: String,
        resolution_time_ns: u64,
        creator: String,
        initial_liquidity: u128,
    },
    Trade {
        market_id: MarketId,
        trader: String,
        outcome: Outcome,
        is_buy: bool,
        collateral_amount: u128,
        token_amount: u128,
        yes_price: u128,
        no_price: u128,
    },
    LiquidityAdded { market_id: MarketId, provider: String, amount: u128, lp_shares: u128 },
    LiquidityRemoved { market_id: MarketId, provider: String, amount: u128, lp_shares: u128 },
    ResolutionSubmitted {
        market_id: MarketId,
        outcome: Outcome,
        resolver: String,
        assertion_id: String,
    },
    MarketDisputed { market_id: MarketId, assertion_id: String },
    MarketSettled { market_id: MarketId, outcome: Outcome },
    Redeemed { market_id: MarketId, user: String, collateral_out: u128 },
}

} // verus!
