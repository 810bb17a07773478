//! Core data model: outcomes, market status, the market record itself,
//! read-side view types, and the error taxonomy shared by every operation.

use vstd::prelude::*;

verus! {

/// Identifier of a market; assigned sequentially, never reused.
pub type MarketId = u64;

/// The collateral token uses 6 decimals.
pub const USDC_DECIMALS: u8 = 6;

/// One whole collateral unit in raw (6-decimal) form.
pub const USDC_ONE: u128 = 1_000_000;

/// Minimum initial liquidity for creating a market: 10 collateral units.
pub const MIN_INITIAL_LIQUIDITY: u128 = 10 * USDC_ONE;

/// Price scale: quoted prices of the two outcomes sum to this value.
pub const AMM_SCALE: u128 = 1_000_000;

/// Default protocol fee in basis points (2%).
pub const DEFAULT_FEE_BPS: u16 = 200;

/// Basis-point denominator.
pub const BPS_DENOMINATOR: u16 = 10_000;

/// Upper bound kept on each reserve so that price computations
/// (`reserve * AMM_SCALE / total`) can never overflow a `u128`;
/// this is `u128::MAX / (2 * AMM_SCALE)`.
pub const RESERVE_LIMIT: u128 = 170_141_183_460_469_231_731_687_303_715_884;

/// One of the two sides of a binary market.
#[derive(Clone, Copy, Debug, PartialEq, Eq, Structural)]
pub enum Outcome {
    Yes,
    No,
}

impl Outcome {
    /// The boolean encoding used in storage keys: Yes is true.
    pub fn as_bool(&self) -> (r: bool)
        ensures
            r == (*self == Outcome::Yes),
    {
        match self {
            Outcome::Yes => true,
            Outcome::No => false,
        }
    }

    /// Inverse of `as_bool`.
    pub fn from_bool(val: bool) -> (r: Self)
        ensures
            r == (if val { Outcome::Yes } else { Outcome::No }),
    {
        if val { Outcome::Yes } else { Outcome::No }
    }

    /// The other side.
    pub fn opposite(&self) -> (r: Self)
        ensures
            r == (if *self == Outcome::Yes { Outcome::No } else { Outcome::Yes }),
    {
        match self {
            Outcome::Yes => Outcome::No,
            Outcome::No => Outcome::Yes,
        }
    }

    /// Display name used by the read model.
    pub fn as_str(self) -> (r: &'static str)
        ensures
            self == Outcome::Yes ==> r@ == "Yes"@,
            self == Outcome::No ==> r@ == "No"@,
    {
        match self {
            Outcome::Yes => "Yes",
            Outcome::No => "No",
        }
    }
}

/// Lifecycle state of a market.
#[derive(Clone, Copy, Debug, PartialEq, Eq, Structural)]
pub enum MarketStatus {
    Open,
    Closed,
    Resolving,
    Disputed,
    Settled,
}

/// Why an operation was rejected, following the engine's taxonomy.
#[derive(Clone, Copy, Debug, PartialEq, Eq, Structural)]
pub enum MarketError {
    /// Bad input: empty question, deadline in the past, liquidity below
    /// minimum, zero-value or unknown-market operations.
    ValidationError,
    /// A quoted minimum was not met.
    SlippageError,
    /// The caller is not the owner or the configured oracle.
    AuthorizationError,
    /// A balance or position is smaller than the amount debited.
    InsufficientBalanceError,
    /// The operation is invalid for the market's current status.
    StateError,
    /// An external mint/burn/transfer/oracle call reported failure.
    CollaboratorFailure,
    /// Arithmetic overflow/underflow or a solvency defect; the operation
    /// aborts with no state change.
    InvariantViolation,
}

/// The authoritative record of one market.
pub struct Market {
    pub id: MarketId,
    pub question: String,
    pub description: String,
    pub creator: String,
    pub resolution_time_ns: u64,
    pub status: MarketStatus,
    pub outcome: Option<Outcome>,

    // AMM reserves
    pub yes_reserve: u128,
    pub no_reserve: u128,

    // Liquidity
    pub total_lp_shares: u128,

    // Collateral
    pub total_collateral: u128,

    // Fees
    pub fee_bps: u16,
    pub accrued_fees: u128,

    // Active bonded assertion (all unset unless Resolving or Disputed)
    pub assertion_id: Option<Vec<u8>>,
    pub asserted_outcome: Option<Outcome>,
    pub resolver: Option<String>,
    pub disputer: Option<String>,
    pub assertion_submitted_at_ns: Option<u64>,
    pub assertion_expires_at_ns: Option<u64>,
}

impl Market {
    /// All assertion fields are populated (the dispute recorder stays unset
    /// until someone disputes).
    pub open spec fn has_assertion(&self) -> bool {
        &&& self.assertion_id is Some
        &&& self.asserted_outcome is Some
        &&& self.resolver is Some
        &&& self.assertion_submitted_at_ns is Some
        &&& self.assertion_expires_at_ns is Some
    }

    /// All assertion fields are unset.
    pub open spec fn no_assertion(&self) -> bool {
        &&& self.assertion_id is None
        &&& self.asserted_outcome is None
        &&& self.resolver is None
        &&& self.disputer is None
        &&& self.assertion_submitted_at_ns is None
        &&& self.assertion_expires_at_ns is None
    }

    /// Well-formedness of a single market record. Constructors establish it
    /// and every operation preserves it.
    pub open spec fn wf(&self) -> bool {
        &&& 0 < self.yes_reserve <= RESERVE_LIMIT
        &&& 0 < self.no_reserve <= RESERVE_LIMIT
        &&& self.total_lp_shares > 0
        &&& self.total_collateral > 0
        &&& 0 < self.fee_bps < BPS_DENOMINATOR
        &&& if self.status == MarketStatus::Resolving || self.status == MarketStatus::Disputed {
                self.has_assertion() && self.assertion_id->Some_0@.len() == 32
            } else {
                self.no_assertion()
            }
        &&& (self.outcome is Some <==> self.status == MarketStatus::Settled)
    }

    /// Quoted price of the YES side, on the scale of `AMM_SCALE`.
    pub open spec fn spec_yes_price(&self) -> int {
        self.no_reserve * AMM_SCALE / (self.yes_reserve + self.no_reserve)
    }

    /// Quoted price of the NO side, on the scale of `AMM_SCALE`.
    pub open spec fn spec_no_price(&self) -> int {
        self.yes_reserve * AMM_SCALE / (self.yes_reserve + self.no_reserve)
    }

    /// Read-side projection of this record, with prices filled in.
    pub fn to_view(&self) -> (v: MarketView)
        requires
            self.wf(),
        ensures
            v.id == self.id,
            v.question@ == self.question@,
            v.description@ == self.description@,
            v.creator@ == self.creator@,
            v.resolution_time_ns == self.resolution_time_ns,
            v.status == self.status,
            v.outcome == self.outcome,
            v.yes_reserve == self.yes_reserve,
            v.no_reserve == self.no_reserve,
            v.yes_price == self.spec_yes_price(),
            v.no_price == self.spec_no_price(),
            v.total_lp_shares == self.total_lp_shares,
            v.total_collateral == self.total_collateral,
            v.fee_bps == self.fee_bps,
            v.accrued_fees == self.accrued_fees,
    {
        proof {
            assert(self.yes_reserve + self.no_reserve <= u128::MAX);
            assert(self.no_reserve * AMM_SCALE <= RESERVE_LIMIT * AMM_SCALE) by (nonlinear_arith)
                requires 0 < self.no_reserve <= RESERVE_LIMIT;
            assert(self.yes_reserve * AMM_SCALE <= RESERVE_LIMIT * AMM_SCALE) by (nonlinear_arith)
                requires 0 < self.yes_reserve <= RESERVE_LIMIT;
        }
        let total = self.yes_reserve + self.no_reserve;
        let yes_price = self.no_reserve * AMM_SCALE / total;
        let no_price = self.yes_reserve * AMM_SCALE / total;

        MarketView {
            id: self.id,
            question: self.question.clone(),
            description: self.description.clone(),
            creator: self.creator.clone(),
            resolution_time_ns: self.resolution_time_ns,
            status: self.status,
            outcome: self.outcome,
            yes_reserve: self.yes_reserve,
            no_reserve: self.no_reserve,
            yes_price,
            no_price,
            total_lp_shares: self.total_lp_shares,
            total_collateral: self.total_collateral,
            fee_bps: self.fee_bps,
            accrued_fees: self.accrued_fees,
        }
    }
}

/// Read-side projection of a market.
pub struct MarketView {
    pub id: MarketId,
    pub question: String,
    pub description: String,
    pub creator: String,
    pub resolution_time_ns: u64,
    pub status: MarketStatus,
    pub outcome: Option<Outcome>,
    pub yes_reserve: u128,
    pub no_reserve: u128,
    pub yes_price: u128,
    pub no_price: u128,
    pub total_lp_shares: u128,
    pub total_collateral: u128,
    pub fee_bps: u16,
    pub accrued_fees: u128,
}

/// The action requested in a collateral-token transfer message.
pub enum MarketFtMsg {
    CreateMarket { question: String, description: String, resolution_time_ns: u64 },
    Buy { market_id: MarketId, outcome: Outcome, min_tokens_out: u128 },
    AddLiquidity { market_id: MarketId },
    SubmitResolution { market_id: MarketId, outcome: Outcome },
}

/// Static configuration of the ledger, for the read side.
pub struct ConfigView {
    pub owner: String,
    pub usdc_token: String,
    pub outcome_token: String,
    pub oracle: String,
    pub market_count: u64,
    pub default_fee_bps: u16,
}

/// Resolution-lifecycle snapshot of one market, for the read side.
pub struct ResolutionStatusView {
    pub market_id: MarketId,
    pub status: MarketStatus,
    pub active_assertion_id: Option<String>,
    pub asserted_outcome: Option<Outcome>,
    pub resolver: Option<String>,
    pub disputer: Option<String>,
    pub assertion_submitted_at_ns: Option<u64>,
    pub assertion_expires_at_ns: Option<u64>,
    pub now_ns: u64,
    pub is_disputable_now: bool,
    pub is_resolvable_now: bool,
}

} // verus!
