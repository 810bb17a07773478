//! The market ledger: authoritative storage for markets, liquidity
//! positions and the assertion index, with the ledger-wide invariant
//! that every operation preserves.

use vstd::prelude::*;

use crate::types::{Market, MarketError, MarketId, Outcome};

verus! {

/// One liquidity provider's position in one market.
pub struct LpEntry {
    pub account: String,
    pub shares: u128,
}

/// One routing entry from an oracle assertion id to the market that
/// owns the assertion.
pub struct AssertionEntry {
    pub assertion_id: Vec<u8>,
    pub market_id: MarketId,
}

/// A requested mint of outcome claims on the external claim ledger.
pub struct MintAction {
    pub token: String,
    pub market_id: MarketId,
    pub outcome: Outcome,
    pub account_id: String,
    pub amount: u128,
}

/// A requested burn of outcome claims on the external claim ledger.
pub struct BurnAction {
    pub token: String,
    pub market_id: MarketId,
    pub outcome: Outcome,
    pub account_id: String,
    pub amount: u128,
}

/// A requested payment-token transfer.
pub struct FtTransferAction {
    pub token: String,
    pub receiver_id: String,
    pub amount: u128,
}

/// A requested native-balance transfer.
pub struct NearTransferAction {
    pub receiver_id: String,
    pub amount: u128,
}

/// Sum of the shares of a run of LP entries.
pub open spec fn lp_sum(s: Seq<LpEntry>) -> int
    decreases s.len(),
{
    if s.len() == 0 {
        0
    } else {
        lp_sum(s.drop_last()) + s.last().shares
    }
}

/// Each account appears at most once.
pub open spec fn lp_accounts_unique(s: Seq<LpEntry>) -> bool {
    forall|i: int, j: int| 0 <= i < j < s.len() ==> s[i].account@ != s[j].account@
}

/// The shares held by `account`, zero when it has no entry.
pub open spec fn lp_lookup(s: Seq<LpEntry>, account: Seq<char>) -> int
    decreases s.len(),
{
    if s.len() == 0 {
        0
    } else if s.last().account@ == account {
        s.last().shares as int
    } else {
        lp_lookup(s.drop_last(), account)
    }
}

pub proof fn lemma_lp_sum_push(s: Seq<LpEntry>, e: LpEntry)
    ensures
        lp_sum(s.push(e)) == lp_sum(s) + e.shares,
{
    assert(s.push(e).drop_last() =~= s);
}

pub proof fn lemma_lp_sum_update(s: Seq<LpEntry>, i: int, e: LpEntry)
    requires
        0 <= i < s.len(),
    ensures
        lp_sum(s.update(i, e)) == lp_sum(s) - s[i].shares + e.shares,
    decreases s.len(),
{
    let t = s.update(i, e);
    if i == s.len() - 1 {
        assert(t.drop_last() =~= s.drop_last());
    } else {
        assert(t.drop_last() =~= s.drop_last().update(i, e));
        lemma_lp_sum_update(s.drop_last(), i, e);
    }
}

pub proof fn lemma_lp_lookup_at(s: Seq<LpEntry>, i: int)
    requires
        lp_accounts_unique(s),
        0 <= i < s.len(),
    ensures
        lp_lookup(s, s[i].account@) == s[i].shares,
    decreases s.len(),
{
    if i < s.len() - 1 {
        assert(s.drop_last()[i] == s[i]);
        lemma_lp_lookup_at(s.drop_last(), i);
    }
}

pub proof fn lemma_lp_lookup_absent(s: Seq<LpEntry>, account: Seq<char>)
    requires
        forall|j: int| 0 <= j < s.len() ==> s[j].account@ != account,
    ensures
        lp_lookup(s, account) == 0,
    decreases s.len(),
{
    if s.len() > 0 {
        lemma_lp_lookup_absent(s.drop_last(), account);
    }
}

pub proof fn lemma_lp_lookup_push(s: Seq<LpEntry>, e: LpEntry, account: Seq<char>)
    ensures
        lp_lookup(s.push(e), account) == if e.account@ == account { e.shares as int } else {
            lp_lookup(s, account)
        },
{
    assert(s.push(e).drop_last() =~= s);
}

pub proof fn lemma_lp_lookup_update(s: Seq<LpEntry>, i: int, e: LpEntry, account: Seq<char>)
    requires
        0 <= i < s.len(),
        s[i].account@ == e.account@,
        lp_accounts_unique(s),
    ensures
        lp_lookup(s.update(i, e), account) == if e.account@ == account { e.shares as int } else {
            lp_lookup(s, account)
        },
    decreases s.len(),
{
    let t = s.update(i, e);
    if i == s.len() - 1 {
        assert(t.drop_last() =~= s.drop_last());
        if e.account@ != account && s.last().account@ == account {
            assert(forall|j: int| 0 <= j < s.len() - 1 ==> s.drop_last()[j] == s[j]);
            lemma_lp_lookup_absent(s.drop_last(), account);
        }
    } else {
        assert(t.drop_last() =~= s.drop_last().update(i, e));
        assert(s.drop_last()[i] == s[i]);
        lemma_lp_lookup_update(s.drop_last(), i, e, account);
        if s.last().account@ == account {
            // `account` lives at the last slot, so slot `i` is a different
            // account and the update leaves the lookup unchanged.
            assert(s[i].account@ != account);
        }
    }
}

/// The market ledger.
pub struct MarketContract {
    /// Contract owner.
    pub owner: String,

    /// Payment-token (collateral) ledger account.
    pub usdc_token: String,

    /// Outcome-claim ledger account.
    pub outcome_token: String,

    /// Arbitration / optimistic-oracle account.
    pub oracle: String,

    /// All markets; a market's id is its position here.
    pub markets: Vec<Market>,

    /// Number of markets ever created.
    pub market_count: u64,

    /// LP positions, one list per market, indexed by market id.
    pub lp_positions: Vec<Vec<LpEntry>>,

    /// Routing from active oracle assertion ids to market ids.
    pub assertion_to_market: Vec<AssertionEntry>,
}

impl MarketContract {
    /// Markets are stored at their ids and individually well formed.
    pub open spec fn markets_ok(&self) -> bool {
        &&& self.markets@.len() == self.market_count
        &&& forall|i: int|
            0 <= i < self.markets@.len() ==> (#[trigger] self.markets@[i]).id == i
                && self.markets@[i].wf()
    }

    /// Every market's positions list sums to its recorded share total,
    /// with one entry per account.
    pub open spec fn lp_ok(&self) -> bool {
        &&& self.lp_positions@.len() == self.market_count
        &&& forall|m: int|
            0 <= m < self.markets@.len() ==> lp_accounts_unique(
                (#[trigger] self.lp_positions@[m])@,
            )
        &&& forall|m: int|
            0 <= m < self.markets@.len() ==> lp_sum((#[trigger] self.lp_positions@[m])@)
                == self.markets@[m].total_lp_shares
    }

    /// There is an index entry with this assertion id routing to market `m`.
    pub open spec fn index_has(&self, aid: Seq<u8>, m: int) -> bool {
        exists|i: int|
            0 <= i < self.assertion_to_market@.len()
                && (#[trigger] self.assertion_to_market@[i]).assertion_id@ == aid
                && self.assertion_to_market@[i].market_id == m
    }

    /// The assertion index routes exactly the active assertions: every
    /// entry points at a market holding that assertion id, ids are
    /// distinct, and every market with an active assertion is indexed.
    pub open spec fn index_ok(&self) -> bool {
        &&& forall|i: int|
            0 <= i < self.assertion_to_market@.len() ==> {
                let e = #[trigger] self.assertion_to_market@[i];
                &&& e.market_id < self.market_count
                &&& self.markets@[e.market_id as int].assertion_id is Some
                &&& self.markets@[e.market_id as int].assertion_id->Some_0@ == e.assertion_id@
            }
        &&& forall|i: int, j: int|
            0 <= i < j < self.assertion_to_market@.len()
                ==> self.assertion_to_market@[i].assertion_id@
                != self.assertion_to_market@[j].assertion_id@
    }

    /// Every market with an active assertion has an index entry.
    pub open spec fn index_complete(&self) -> bool {
        forall|m: int|
            0 <= m < self.markets@.len() && (#[trigger] self.markets@[m]).assertion_id is Some
                ==> self.index_has(self.markets@[m].assertion_id->Some_0@, m)
    }

    /// The ledger-wide invariant: every operation requires and preserves it.
    pub open spec fn inv(&self) -> bool {
        &&& self.markets_ok()
        &&& self.lp_ok()
        &&& self.index_ok()
        &&& self.index_complete()
    }

    /// All configuration fields are unchanged.
    pub open spec fn same_config(&self, other: &Self) -> bool {
        &&& self.owner@ == other.owner@
        &&& self.usdc_token@ == other.usdc_token@
        &&& self.outcome_token@ == other.outcome_token@
        &&& self.oracle@ == other.oracle@
    }

    /// A fresh ledger bound to its collaborators.
    pub fn new(owner: String, usdc_token: String, outcome_token: String, oracle: String) -> (c:
        Self)
        ensures
            c.inv(),
            c.owner@ == owner@,
            c.usdc_token@ == usdc_token@,
            c.outcome_token@ == outcome_token@,
            c.oracle@ == oracle@,
            c.market_count == 0,
            c.markets@.len() == 0,
            c.assertion_to_market@.len() == 0,
    {
        MarketContract {
            owner,
            usdc_token,
            outcome_token,
            oracle,
            markets: Vec::new(),
            market_count: 0,
            lp_positions: Vec::new(),
            assertion_to_market: Vec::new(),
        }
    }

    /// Transfer contract ownership; only the current owner may.
    pub fn set_owner(&mut self, caller: &String, new_owner: String) -> (r: Result<
        (),
        MarketError,
    >)
        requires
            old(self).inv(),
        ensures
            final(self).inv(),
            r is Ok <==> caller@ == old(self).owner@,
            r is Ok ==> final(self).owner@ == new_owner@ && final(self).markets@
                == old(self).markets@ && final(self).lp_positions@ == old(self).lp_positions@
                && final(self).assertion_to_market@ == old(self).assertion_to_market@
                && final(self).usdc_token@ == old(self).usdc_token@
                && final(self).outcome_token@ == old(self).outcome_token@ && final(self).oracle@
                == old(self).oracle@ && final(self).market_count == old(self).market_count,
            r is Err ==> *final(self) == *old(self) && r->Err_0 == MarketError::AuthorizationError,
    {
        if !(*caller == self.owner) {
            return Err(MarketError::AuthorizationError);
        }
        self.owner = new_owner;
        Ok(())
    }

    /// Owner-only recovery transfer of an arbitrary token held by the
    /// ledger; validates and describes the transfer, mutating nothing.
    pub fn emergency_withdraw_token(
        &mut self,
        caller: &String,
        token: String,
        receiver_id: String,
        amount: u128,
    ) -> (r: Result<FtTransferAction, MarketError>)
        requires
            old(self).inv(),
        ensures
            *final(self) == *old(self),
            final(self).inv(),
            r is Ok <==> caller@ == old(self).owner@ && amount > 0,
            caller@ != old(self).owner@ ==> r == Err::<FtTransferAction, MarketError>(
                MarketError::AuthorizationError,
            ),
            caller@ == old(self).owner@ && amount == 0 ==> r == Err::<FtTransferAction, MarketError>(
                MarketError::ValidationError,
            ),
            r is Ok ==> r->Ok_0.token@ == token@ && r->Ok_0.receiver_id@ == receiver_id@
                && r->Ok_0.amount == amount,
    {
        if !(*caller == self.owner) {
            return Err(MarketError::AuthorizationError);
        }
        if amount == 0 {
            return Err(MarketError::ValidationError);
        }
        Ok(FtTransferAction { token, receiver_id, amount })
    }

    /// Owner-only recovery transfer of native balance; `account_balance`
    /// is the ledger's current balance as reported by the host.
    pub fn emergency_withdraw_near(
        &mut self,
        caller: &String,
        receiver_id: String,
        amount: u128,
        account_balance: u128,
    ) -> (r: Result<NearTransferAction, MarketError>)
        requires
            old(self).inv(),
        ensures
            *final(self) == *old(self),
            final(self).inv(),
            r is Ok <==> caller@ == old(self).owner@ && amount > 0 && account_balance >= amount,
            r is Ok ==> r->Ok_0.receiver_id@ == receiver_id@ && r->Ok_0.amount == amount,
            caller@ != old(self).owner@ ==> r == Err::<NearTransferAction, MarketError>(
                MarketError::AuthorizationError,
            ),
    {
        if !(*caller == self.owner) {
            return Err(MarketError::AuthorizationError);
        }
        if amount == 0 {
            return Err(MarketError::ValidationError);
        }
        if account_balance < amount {
            return Err(MarketError::InvariantViolation);
        }
        Ok(NearTransferAction { receiver_id, amount })
    }
}

/// Share-conservation law: in every well-formed ledger state the sum
/// of all providers' positions for a market equals that market's
/// recorded share total.
pub proof fn lemma_lp_shares_conserved(c: &MarketContract, m: int)
    requires
        c.inv(),
        0 <= m < c.markets@.len(),
    ensures
        lp_sum(c.lp_positions@[m]@) == c.markets@[m].total_lp_shares,
{
}

/// Find the position entry for `account`, if any.
pub fn lp_find(entries: &Vec<LpEntry>, account: &String) -> (r: Option<usize>)
    ensures
        match r {
            Some(i) => i < entries@.len() && entries@[i as int].account@ == account@,
            None => forall|j: int| 0 <= j < entries@.len() ==> entries@[j].account@ != account@,
        },
{
    let n = entries.len();
    let mut i: usize = 0;
    while i < n
        invariant
            i <= n,
            n == entries@.len(),
            forall|j: int| 0 <= j < i ==> entries@[j].account@ != account@,
        decreases n - i,
    {
        if entries[i].account == *account {
            return Some(i);
        }
        i += 1;
    }
    None
}

} // verus!

verus! {

use crate::types::{ConfigView, MarketStatus, MarketView, DEFAULT_FEE_BPS, MIN_INITIAL_LIQUIDITY,
    RESERVE_LIMIT};
use crate::events::Event;

/// Outcome of creating a market. The runtime must mint `half` YES and
/// `half` NO claims to the pool's custody account to back the reserves.
pub struct CreateMarketReceipt {
    pub market_id: MarketId,
    pub half: u128,
    pub event: Event,
}

impl MarketContract {
    /// Create a market funded with `initial_liquidity` collateral:
    /// 50/50 reserves, shares one-for-one to the creator, default fee.
    ///
    /// Rejected, leaving the ledger untouched, when the deposit is below
    /// the minimum, the deadline is not strictly in the future, or the
    /// question is empty.
    pub fn internal_create_market(
        &mut self,
        question: String,
        description: String,
        resolution_time_ns: u64,
        initial_liquidity: u128,
        creator: String,
        now: u64,
    ) -> (r: Result<CreateMarketReceipt, MarketError>)
        requires
            old(self).inv(),
        ensures
            final(self).inv(),
            r is Err ==> *final(self) == *old(self),
            r is Ok <==> {
                &&& initial_liquidity >= MIN_INITIAL_LIQUIDITY
                &&& resolution_time_ns > now
                &&& question@.len() > 0
                &&& old(self).market_count < u64::MAX
                &&& initial_liquidity / 2 <= RESERVE_LIMIT
            },
            initial_liquidity < MIN_INITIAL_LIQUIDITY ==> r == Err::<
                CreateMarketReceipt,
                MarketError,
            >(MarketError::ValidationError),
            initial_liquidity >= MIN_INITIAL_LIQUIDITY && resolution_time_ns <= now ==> r == Err::<
                CreateMarketReceipt,
                MarketError,
            >(MarketError::ValidationError),
            initial_liquidity >= MIN_INITIAL_LIQUIDITY && resolution_time_ns > now && question@.len()
                == 0 ==> r == Err::<CreateMarketReceipt, MarketError>(MarketError::ValidationError),
            r is Ok ==> ({
                let mid = old(self).market_count as int;
                let m1 = final(self).markets@[mid];
                let half = initial_liquidity as int / 2;
                &&& r->Ok_0.market_id == old(self).market_count
                &&& r->Ok_0.half == half
                &&& final(self).market_count == old(self).market_count + 1
                &&& final(self).markets@ == old(self).markets@.push(m1)
                &&& final(self).assertion_to_market@ == old(self).assertion_to_market@
                &&& final(self).same_config(old(self))
                &&& m1.id == old(self).market_count
                &&& m1.question@ == question@
                &&& m1.description@ == description@
                &&& m1.creator@ == creator@
                &&& m1.resolution_time_ns == resolution_time_ns
                &&& m1.status == MarketStatus::Open
                &&& m1.outcome is None
                &&& m1.yes_reserve == half
                &&& m1.no_reserve == half
                &&& m1.total_lp_shares == initial_liquidity
                &&& m1.total_collateral == initial_liquidity
                &&& m1.fee_bps == DEFAULT_FEE_BPS
                &&& m1.accrued_fees == 0
                &&& m1.no_assertion()
                &&& final(self).lp_positions@.len() == old(self).lp_positions@.len() + 1
                &&& lp_lookup(final(self).lp_positions@[mid]@, creator@) == initial_liquidity
                &&& r->Ok_0.event matches Event::MarketCreated {
                    market_id: e_mid,
                    question: e_q,
                    resolution_time_ns: e_rt,
                    creator: e_creator,
                    initial_liquidity: e_liq,
                } && e_mid == old(self).market_count && e_q@ == question@ && e_rt
                    == resolution_time_ns && e_creator@ == creator@ && e_liq == initial_liquidity
            }),
    {
        if initial_liquidity < MIN_INITIAL_LIQUIDITY {
            return Err(MarketError::ValidationError);
        }
        if resolution_time_ns <= now {
            return Err(MarketError::ValidationError);
        }
        if question.as_str().is_empty() {
            return Err(MarketError::ValidationError);
        }
        if self.market_count == u64::MAX {
            return Err(MarketError::InvariantViolation);
        }
        let half = initial_liquidity / 2;
        if half > RESERVE_LIMIT {
            return Err(MarketError::InvariantViolation);
        }

        let market_id = self.market_count;
        self.market_count = self.market_count + 1;

        let e_question = question.clone();
        let e_creator = creator.clone();
        let lp_account = creator.clone();

        let market = Market {
            id: market_id,
            question,
            description,
            creator,
            resolution_time_ns,
            status: MarketStatus::Open,
            outcome: None,
            yes_reserve: half,
            no_reserve: half,
            total_lp_shares: initial_liquidity,
            total_collateral: initial_liquidity,
            fee_bps: DEFAULT_FEE_BPS,
            accrued_fees: 0,
            assertion_id: None,
            asserted_outcome: None,
            resolver: None,
            disputer: None,
            assertion_submitted_at_ns: None,
            assertion_expires_at_ns: None,
        };
        self.markets.push(market);

        let mut entries: Vec<LpEntry> = Vec::new();
        entries.push(LpEntry { account: lp_account, shares: initial_liquidity });
        proof {
            lemma_lp_sum_push(Seq::<LpEntry>::empty(), entries@[0]);
            lemma_lp_lookup_push(Seq::<LpEntry>::empty(), entries@[0], creator@);
        }
        self.lp_positions.push(entries);

        proof {
            assert forall|i: int| 0 <= i < self.markets@.len() implies (
            #[trigger] self.markets@[i]).id == i && self.markets@[i].wf() by {
                if i < old(self).markets@.len() {
                    assert(old(self).markets@[i].wf());
                }
            }
            assert forall|i: int| 0 <= i < self.markets@.len() implies lp_accounts_unique(
                (#[trigger] self.lp_positions@[i])@,
            ) && lp_sum(self.lp_positions@[i]@) == self.markets@[i].total_lp_shares by {
                if i < old(self).markets@.len() {
                    assert(lp_accounts_unique((old(self).lp_positions@[i])@));
                    assert(lp_sum((old(self).lp_positions@[i])@) == old(
                        self,
                    ).markets@[i].total_lp_shares);
                }
            }
            assert(self.inv());
        }

        Ok(CreateMarketReceipt {
            market_id,
            half,
            event: Event::MarketCreated {
                market_id,
                question: e_question,
                resolution_time_ns,
                creator: e_creator,
                initial_liquidity,
            },
        })
    }

    /// The market's read-side projection, if it exists.
    pub fn get_market(&self, market_id: MarketId) -> (r: Option<MarketView>)
        requires
            self.inv(),
        ensures
            r is Some <==> market_id < self.market_count,
            r is Some ==> ({
                let m = self.markets@[market_id as int];
                let v = r->0;
                &&& v.id == market_id
                &&& v.question@ == m.question@
                &&& v.status == m.status
                &&& v.outcome == m.outcome
                &&& v.yes_reserve == m.yes_reserve
                &&& v.no_reserve == m.no_reserve
                &&& v.yes_price == m.spec_yes_price()
                &&& v.no_price == m.spec_no_price()
                &&& v.total_lp_shares == m.total_lp_shares
                &&& v.total_collateral == m.total_collateral
                &&& v.fee_bps == m.fee_bps
                &&& v.accrued_fees == m.accrued_fees
            }),
    {
        let n_markets = self.markets.len();
        if market_id >= self.market_count {
            return None;
        }
        proof {
            assert(market_id < n_markets);
        }
        Some(self.markets[market_id as usize].to_view())
    }

    /// How many markets have ever been created.
    pub fn get_market_count(&self) -> (r: u64)
        ensures
            r == self.market_count,
    {
        self.market_count
    }

    /// Quoted prices `(yes, no)` of a market; they sum to `AMM_SCALE`
    /// up to the rounding of each division.
    pub fn get_prices(&self, market_id: MarketId) -> (r: Result<(u128, u128), MarketError>)
        requires
            self.inv(),
        ensures
            r is Ok <==> market_id < self.market_count,
            r is Err ==> r->Err_0 == MarketError::ValidationError,
            r is Ok ==> ({
                let m = self.markets@[market_id as int];
                r->Ok_0.0 == m.spec_yes_price() && r->Ok_0.1 == m.spec_no_price()
            }),
    {
        let n_markets = self.markets.len();
        if market_id >= self.market_count {
            return Err(MarketError::ValidationError);
        }
        proof {
            assert(market_id < n_markets);
        }
        let mid = market_id as usize;
        let y = self.markets[mid].yes_reserve;
        let n = self.markets[mid].no_reserve;
        proof {
            assert(n * crate::types::AMM_SCALE <= RESERVE_LIMIT * 1000000) by (nonlinear_arith)
                requires
                    0 < n <= RESERVE_LIMIT,
            ;
            assert(y * crate::types::AMM_SCALE <= RESERVE_LIMIT * 1000000) by (nonlinear_arith)
                requires
                    0 < y <= RESERVE_LIMIT,
            ;
        }
        let total = y + n;
        Ok((n * crate::types::AMM_SCALE / total, y * crate::types::AMM_SCALE / total))
    }

    /// The provider's share position in a market; zero when the market
    /// or the position does not exist.
    pub fn get_lp_shares(&self, market_id: MarketId, account_id: String) -> (r: u128)
        requires
            self.inv(),
        ensures
            r == if market_id < self.market_count {
                lp_lookup(self.lp_positions@[market_id as int]@, account_id@)
            } else {
                0
            },
    {
        let n_markets = self.markets.len();
        if market_id >= self.market_count {
            return 0;
        }
        proof {
            assert(market_id < n_markets);
        }
        let mid = market_id as usize;
        match lp_find(&self.lp_positions[mid], &account_id) {
            Some(i) => {
                proof {
                    lemma_lp_lookup_at(self.lp_positions@[mid as int]@, i as int);
                }
                self.lp_positions[mid][i].shares
            },
            None => {
                proof {
                    lemma_lp_lookup_absent(self.lp_positions@[mid as int]@, account_id@);
                }
                0
            },
        }
    }

    /// The ledger's static configuration.
    pub fn get_config(&self) -> (r: ConfigView)
        ensures
            r.owner@ == self.owner@,
            r.usdc_token@ == self.usdc_token@,
            r.outcome_token@ == self.outcome_token@,
            r.oracle@ == self.oracle@,
            r.market_count == self.market_count,
            r.default_fee_bps == DEFAULT_FEE_BPS,
    {
        ConfigView {
            owner: self.owner.clone(),
            usdc_token: self.usdc_token.clone(),
            outcome_token: self.outcome_token.clone(),
            oracle: self.oracle.clone(),
            market_count: self.market_count,
            default_fee_bps: DEFAULT_FEE_BPS,
        }
    }
}

} // verus!

verus! {

use crate::amm::{AddLiquidityReceipt, BuyReceipt, add_liq_fits, add_liq_shares, buy_fits,
    buy_net, buy_new_no, buy_new_yes, buy_tokens_out};
use crate::resolution::{SubmitResolutionReceipt, index_contains, DEFAULT_ORACLE_LIVENESS_NS};
use crate::types::{MarketFtMsg, MarketStatus as Status};

/// What a routed collateral deposit did.
pub enum FtMsgReceipt {
    Created(CreateMarketReceipt),
    Bought(BuyReceipt),
    LiquidityAdded(AddLiquidityReceipt),
    ResolutionSubmitted(SubmitResolutionReceipt),
}

impl MarketContract {
    /// Route an incoming collateral transfer to the operation its
    /// message names: create a market, buy, add liquidity, or submit a
    /// resolution (the attached amount is the bond). Only transfers of
    /// the configured payment token are accepted, and every accepted
    /// deposit is consumed in full (zero refund).
    ///
    /// `now` is the host's current time; `assertion_id` is the digest
    /// for a resolution submission and is ignored by the other actions.
    pub fn ft_on_transfer(
        &mut self,
        sender_id: String,
        amount: u128,
        msg: MarketFtMsg,
        token: &String,
        now: u64,
        assertion_id: Vec<u8>,
    ) -> (r: Result<(u128, FtMsgReceipt), MarketError>)
        requires
            old(self).inv(),
        ensures
            final(self).inv(),
            r is Err ==> *final(self) == *old(self),
            token@ != old(self).usdc_token@ ==> r == Err::<(u128, FtMsgReceipt), MarketError>(
                MarketError::AuthorizationError,
            ),
            r is Ok ==> r->Ok_0.0 == 0,
            r is Ok ==> token@ == old(self).usdc_token@,
            ({
                &&& (msg matches MarketFtMsg::CreateMarket { question, resolution_time_ns, .. }
                    ==> {
                    &&& (r is Ok <==> {
                        &&& token@ == old(self).usdc_token@
                        &&& amount >= crate::types::MIN_INITIAL_LIQUIDITY
                        &&& resolution_time_ns > now
                        &&& question@.len() > 0
                        &&& old(self).market_count < u64::MAX
                        &&& amount / 2 <= crate::types::RESERVE_LIMIT
                    })
                    &&& (r is Ok ==> (r->Ok_0.1 matches FtMsgReceipt::Created(c) && c.market_id
                        == old(self).market_count && c.half == amount / 2
                        && final(self).market_count == old(self).market_count + 1))
                })
                &&& (msg matches MarketFtMsg::Buy { market_id, outcome, min_tokens_out } ==> {
                    let m0 = old(self).markets@[market_id as int];
                    let net = buy_net(amount as int, m0.fee_bps as int);
                    &&& (r is Ok <==> {
                        &&& token@ == old(self).usdc_token@
                        &&& market_id < old(self).market_count
                        &&& m0.status == Status::Open
                        &&& amount > 0
                        &&& buy_fits(m0, amount as int, outcome)
                        &&& buy_tokens_out(m0.yes_reserve as int, m0.no_reserve as int, net,
                        outcome) >= min_tokens_out
                    })
                    &&& (r is Ok ==> (r->Ok_0.1 matches FtMsgReceipt::Bought(b) && b.tokens_out
                        == buy_tokens_out(
                        m0.yes_reserve as int,
                        m0.no_reserve as int,
                        net,
                        outcome,
                    ) && b.mint.amount == b.tokens_out && b.mint.account_id@ == sender_id@
                        && b.mint.outcome == outcome && b.mint.market_id == market_id
                        && final(self).markets@[market_id as int].yes_reserve == buy_new_yes(
                        m0.yes_reserve as int,
                        m0.no_reserve as int,
                        net,
                        outcome,
                    ) && final(self).markets@[market_id as int].no_reserve == buy_new_no(
                        m0.yes_reserve as int,
                        m0.no_reserve as int,
                        net,
                        outcome,
                    )))
                })
                &&& (msg matches MarketFtMsg::AddLiquidity { market_id } ==> {
                    let m0 = old(self).markets@[market_id as int];
                    let shares = add_liq_shares(
                        m0.total_lp_shares as int,
                        m0.total_collateral as int,
                        amount as int,
                    );
                    &&& (r is Ok <==> {
                        &&& token@ == old(self).usdc_token@
                        &&& market_id < old(self).market_count
                        &&& m0.status == Status::Open
                        &&& amount * m0.total_lp_shares <= u128::MAX
                        &&& shares > 0
                        &&& add_liq_fits(
                            m0,
                            amount as int,
                            lp_lookup(old(self).lp_positions@[market_id as int]@, sender_id@),
                        )
                    })
                    &&& (r is Ok ==> (r->Ok_0.1 matches FtMsgReceipt::LiquidityAdded(l)
                        && l.lp_shares == shares
                        && l.yes_add == crate::amm::liq_scaled(
                        m0.yes_reserve as int,
                        m0.total_collateral as int,
                        amount as int,
                    ) && l.no_add == crate::amm::liq_scaled(
                        m0.no_reserve as int,
                        m0.total_collateral as int,
                        amount as int,
                    ) && final(self).markets@[market_id as int].total_lp_shares
                        == m0.total_lp_shares + shares))
                })
                &&& (msg matches MarketFtMsg::SubmitResolution { market_id, outcome } ==> {
                    let m0 = old(self).markets@[market_id as int];
                    &&& (r is Ok <==> {
                        &&& token@ == old(self).usdc_token@
                        &&& market_id < old(self).market_count
                        &&& (m0.status == Status::Open || m0.status == Status::Closed)
                        &&& now >= m0.resolution_time_ns
                        &&& assertion_id@.len() == 32
                        &&& !index_contains(old(self).assertion_to_market@, assertion_id@)
                        &&& now + DEFAULT_ORACLE_LIVENESS_NS <= u64::MAX
                    })
                    &&& (r is Ok ==> (r->Ok_0.1 matches FtMsgReceipt::ResolutionSubmitted(s)
                        && s.previous_status == m0.status && s.assertion_id_hex@
                        == crate::hexutil::hex_chars(assertion_id@)
                        && final(self).markets@[market_id as int].status == Status::Resolving))
                })
            }),
    {
        if !(*token == self.usdc_token) {
            return Err(MarketError::AuthorizationError);
        }
        match msg {
            MarketFtMsg::CreateMarket { question, description, resolution_time_ns } => {
                match self.internal_create_market(
                    question,
                    description,
                    resolution_time_ns,
                    amount,
                    sender_id,
                    now,
                ) {
                    Ok(receipt) => Ok((0, FtMsgReceipt::Created(receipt))),
                    Err(e) => Err(e),
                }
            },
            MarketFtMsg::Buy { market_id, outcome, min_tokens_out } => {
                match self.internal_buy(market_id, outcome, amount, min_tokens_out, sender_id) {
                    Ok(receipt) => Ok((0, FtMsgReceipt::Bought(receipt))),
                    Err(e) => Err(e),
                }
            },
            MarketFtMsg::AddLiquidity { market_id } => {
                match self.internal_add_liquidity(market_id, amount, sender_id) {
                    Ok(receipt) => Ok((0, FtMsgReceipt::LiquidityAdded(receipt))),
                    Err(e) => Err(e),
                }
            },
            MarketFtMsg::SubmitResolution { market_id, outcome } => {
                match self.internal_submit_resolution(
                    market_id,
                    outcome,
                    amount,
                    sender_id,
                    now,
                    assertion_id,
                ) {
                    Ok(receipt) => Ok((0, FtMsgReceipt::ResolutionSubmitted(receipt))),
                    Err(e) => Err(e),
                }
            },
        }
    }
}

} // verus!
