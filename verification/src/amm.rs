//! The automated market maker: constant-product buy/sell mechanics and
//! proportional liquidity accounting, with fee deduction.
//!
//! Trades conceptually mint equal amounts of both claims into the pool
//! and then swap out the side the trader does not want; the division in
//! the swap is rounded up by one unit so the pool never releases more
//! than it can back.

use vstd::prelude::*;

use crate::contract::{BurnAction, FtTransferAction, LpEntry, MarketContract, MintAction};
use crate::contract::{lemma_lp_lookup_at, lemma_lp_lookup_absent, lemma_lp_lookup_push,
    lemma_lp_lookup_update, lemma_lp_sum_push, lemma_lp_sum_update, lp_accounts_unique, lp_find,
    lp_lookup, lp_sum};
use crate::events::Event;
use crate::types::{Market, MarketError, MarketId, MarketStatus, Outcome};
use crate::types::{AMM_SCALE, BPS_DENOMINATOR, RESERVE_LIMIT};

verus! {

use vstd::arithmetic::div_mod::{lemma_fundamental_div_mod, lemma_multiply_divide_lt,
    lemma_div_is_ordered};
use vstd::arithmetic::mul::lemma_mul_is_commutative;

/// The fee taken from `amount` at `bps` basis points, rounded down.
pub open spec fn fee_amount(amount: int, bps: int) -> int {
    amount * bps / (BPS_DENOMINATOR as int)
}

/// What remains of a payment after the fee.
pub open spec fn buy_net(amount: int, bps: int) -> int {
    amount - fee_amount(amount, bps)
}

/// New reserve of the YES side after buying with `net` collateral.
pub open spec fn buy_new_yes(y: int, n: int, net: int, o: Outcome) -> int {
    if o == Outcome::Yes {
        (y + net) * (n + net) / (n + 2 * net) + 1
    } else {
        y + 2 * net
    }
}

/// New reserve of the NO side after buying with `net` collateral.
pub open spec fn buy_new_no(y: int, n: int, net: int, o: Outcome) -> int {
    if o == Outcome::Yes {
        n + 2 * net
    } else {
        (y + net) * (n + net) / (y + 2 * net) + 1
    }
}

/// Outcome claims released to the buyer.
pub open spec fn buy_tokens_out(y: int, n: int, net: int, o: Outcome) -> int {
    if o == Outcome::Yes {
        (y + net) - buy_new_yes(y, n, net, o)
    } else {
        (n + net) - buy_new_no(y, n, net, o)
    }
}

/// The pure buy computation (as the estimator replays it) stays within
/// 128-bit arithmetic.
pub open spec fn buy_calc_fits(y: int, n: int, bps: int, coll: int, o: Outcome) -> bool {
    let net = buy_net(coll, bps);
    &&& coll * bps <= u128::MAX
    &&& y + net <= u128::MAX
    &&& n + net <= u128::MAX
    &&& (y + net) * (n + net) <= u128::MAX
    &&& (if o == Outcome::Yes { n + 2 * net } else { y + 2 * net }) <= u128::MAX
}

/// A committed buy additionally keeps the fee and collateral ledgers and
/// the new reserves within bounds.
pub open spec fn buy_fits(m: Market, coll: int, o: Outcome) -> bool {
    let y = m.yes_reserve as int;
    let n = m.no_reserve as int;
    let bps = m.fee_bps as int;
    let net = buy_net(coll, bps);
    &&& buy_calc_fits(y, n, bps, coll, o)
    &&& m.accrued_fees + fee_amount(coll, bps) <= u128::MAX
    &&& m.total_collateral + net <= u128::MAX
    &&& buy_new_yes(y, n, net, o) <= RESERVE_LIMIT
    &&& buy_new_no(y, n, net, o) <= RESERVE_LIMIT
}

/// The fee is strictly smaller than the amount it is taken from.
pub proof fn lemma_fee_lt(amount: int, bps: int)
    requires
        amount >= 1,
        0 <= bps < BPS_DENOMINATOR,
        amount * bps <= u128::MAX,
    ensures
        0 <= fee_amount(amount, bps) < amount,
        1 <= buy_net(amount, bps) <= amount,
{
    let d = BPS_DENOMINATOR as int;
    assert(amount * bps >= 0) by (nonlinear_arith)
        requires
            amount >= 0,
            bps >= 0,
    ;
    assert(amount * bps < d * amount) by (nonlinear_arith)
        requires
            amount >= 1,
            0 <= bps < d,
    ;
    lemma_multiply_divide_lt(amount * bps, d, amount);
}

/// The rounded-up swap leaves a quotient strictly below the reserve it
/// draws from, so the subtraction in `buy_tokens_out` cannot underflow,
/// and the product of the committed reserves can only grow.
pub proof fn lemma_buy_bounds(y: int, n: int, net: int, o: Outcome)
    requires
        y >= 1,
        n >= 1,
        net >= 1,
    ensures
        1 <= buy_new_yes(y, n, net, o),
        1 <= buy_new_no(y, n, net, o),
        o == Outcome::Yes ==> buy_new_yes(y, n, net, o) <= y + net,
        o == Outcome::No ==> buy_new_no(y, n, net, o) <= n + net,
        0 <= buy_tokens_out(y, n, net, o) < y + n + 2 * net,
        buy_new_yes(y, n, net, o) * buy_new_no(y, n, net, o) > (y + net) * (n + net),
        buy_new_yes(y, n, net, o) * buy_new_no(y, n, net, o) > y * n,
{
    let k = (y + net) * (n + net);
    assert(k >= 1 && k >= y * n) by (nonlinear_arith)
        requires
            y >= 1,
            n >= 1,
            net >= 1,
            k == (y + net) * (n + net),
    ;
    if o == Outcome::Yes {
        let d = n + 2 * net;
        let q = k / d;
        assert(k < d * (y + net)) by (nonlinear_arith)
            requires
                y >= 1,
                n >= 1,
                y + net >= 1,
                n + net >= 1,
                net >= 1,
                k == (y + net) * (n + net),
                d == n + 2 * net,
        ;
        lemma_multiply_divide_lt(k, d, y + net);
        assert(q >= 0) by {
            lemma_div_is_ordered(0, k, d);
        }
        assert((q + 1) * d > k) by {
            lemma_fundamental_div_mod(k, d);
            assert((q + 1) * d == q * d + d) by (nonlinear_arith);
            assert(q * d + d > k);
            assert(d * q == q * d) by {
                lemma_mul_is_commutative(d, q);
            }
        }
        assert(buy_new_yes(y, n, net, o) * buy_new_no(y, n, net, o) == (q + 1) * d);
    } else {
        let d = y + 2 * net;
        let q = k / d;
        assert(k < d * (n + net)) by (nonlinear_arith)
            requires
                y >= 1,
                n >= 1,
                y + net >= 1,
                n + net >= 1,
                net >= 1,
                k == (y + net) * (n + net),
                d == y + 2 * net,
        ;
        lemma_multiply_divide_lt(k, d, n + net);
        assert(q >= 0) by {
            lemma_div_is_ordered(0, k, d);
        }
        assert((q + 1) * d > k) by {
            lemma_fundamental_div_mod(k, d);
            assert((q + 1) * d == q * d + d) by (nonlinear_arith);
            assert(q * d + d > k);
            assert(d * q == q * d) by {
                lemma_mul_is_commutative(d, q);
            }
        }
        assert(buy_new_yes(y, n, net, o) * buy_new_no(y, n, net, o) == d * (q + 1));
        assert(d * (q + 1) == (q + 1) * d) by {
            lemma_mul_is_commutative(d, q + 1);
        }
    }
}

/// Outcome of a committed buy.
pub struct BuyReceipt {
    /// Outcome claims owed to the buyer.
    pub tokens_out: u128,
    /// The external mint the runtime must issue (fire-and-forget).
    pub mint: MintAction,
    /// The trade event to publish.
    pub event: Event,
}

impl MarketContract {
    /// Buy `outcome` claims with `collateral` payment tokens: deduct the
    /// fee, mint equal claims into both reserves, swap out the unwanted
    /// side (rounded in the pool's favour), and release the difference.
    ///
    /// Rejected, leaving the ledger untouched, when the market is
    /// unknown, not open, the payment is zero, the arithmetic would
    /// leave 128 bits, or the released amount is below `min_tokens_out`.
    /// The product of the reserves never decreases.
    pub fn internal_buy(
        &mut self,
        market_id: MarketId,
        outcome: Outcome,
        collateral: u128,
        min_tokens_out: u128,
        buyer: String,
    ) -> (r: Result<BuyReceipt, MarketError>)
        requires
            old(self).inv(),
        ensures
            final(self).inv(),
            r is Err ==> *final(self) == *old(self),
            ({
                let mid = market_id as int;
                let m0 = old(self).markets@[mid];
                let net = buy_net(collateral as int, m0.fee_bps as int);
                r is Ok <==> {
                    &&& market_id < old(self).market_count
                    &&& m0.status == MarketStatus::Open
                    &&& collateral > 0
                    &&& buy_fits(m0, collateral as int, outcome)
                    &&& buy_tokens_out(m0.yes_reserve as int, m0.no_reserve as int, net, outcome)
                        >= min_tokens_out
                }
            }),
            market_id >= old(self).market_count ==> r == Err::<BuyReceipt, MarketError>(
                MarketError::ValidationError,
            ),
            market_id < old(self).market_count && old(self).markets@[market_id as int].status
                != MarketStatus::Open ==> r == Err::<BuyReceipt, MarketError>(
                MarketError::StateError,
            ),
            market_id < old(self).market_count && old(self).markets@[market_id as int].status
                == MarketStatus::Open && collateral == 0 ==> r == Err::<BuyReceipt, MarketError>(
                MarketError::ValidationError,
            ),
            ({
                let mid = market_id as int;
                let m0 = old(self).markets@[mid];
                let y = m0.yes_reserve as int;
                let n = m0.no_reserve as int;
                let net = buy_net(collateral as int, m0.fee_bps as int);
                &&& (market_id < old(self).market_count && m0.status == MarketStatus::Open
                    && collateral > 0 && !buy_fits(m0, collateral as int, outcome) ==> r
                    == Err::<BuyReceipt, MarketError>(MarketError::InvariantViolation))
                &&& (market_id < old(self).market_count && m0.status == MarketStatus::Open
                    && collateral > 0 && buy_fits(m0, collateral as int, outcome)
                    && buy_tokens_out(y, n, net, outcome) < min_tokens_out ==> r
                    == Err::<BuyReceipt, MarketError>(MarketError::SlippageError))
            }),
            r is Ok ==> ({
                let mid = market_id as int;
                let m0 = old(self).markets@[mid];
                let m1 = final(self).markets@[mid];
                let y = m0.yes_reserve as int;
                let n = m0.no_reserve as int;
                let net = buy_net(collateral as int, m0.fee_bps as int);
                let out = buy_tokens_out(y, n, net, outcome);
                &&& final(self).markets@ == old(self).markets@.update(mid, m1)
                &&& final(self).lp_positions@ == old(self).lp_positions@
                &&& final(self).assertion_to_market@ == old(self).assertion_to_market@
                &&& final(self).market_count == old(self).market_count
                &&& final(self).same_config(old(self))
                &&& m1.yes_reserve == buy_new_yes(y, n, net, outcome)
                &&& m1.no_reserve == buy_new_no(y, n, net, outcome)
                &&& m1.yes_reserve * m1.no_reserve > y * n
                &&& m1.total_collateral == m0.total_collateral + net
                &&& m1.accrued_fees == m0.accrued_fees + fee_amount(collateral as int, m0.fee_bps as int)
                &&& m1.total_lp_shares == m0.total_lp_shares
                &&& m1.status == m0.status
                &&& m1.id == m0.id
                &&& m1.question == m0.question
                &&& m1.description == m0.description
                &&& m1.creator == m0.creator
                &&& m1.resolution_time_ns == m0.resolution_time_ns
                &&& m1.outcome == m0.outcome
                &&& m1.fee_bps == m0.fee_bps
                &&& m1.no_assertion()
                &&& r->Ok_0.tokens_out == out
                &&& r->Ok_0.mint.token == old(self).outcome_token
                &&& r->Ok_0.mint.market_id == market_id
                &&& r->Ok_0.mint.outcome == outcome
                &&& r->Ok_0.mint.account_id@ == buyer@
                &&& r->Ok_0.mint.amount == out
                &&& r->Ok_0.event matches Event::Trade {
                    market_id: e_mid,
                    trader: e_trader,
                    outcome: e_outcome,
                    is_buy: e_is_buy,
                    collateral_amount: e_coll,
                    token_amount: e_tokens,
                    yes_price: e_yes_price,
                    no_price: e_no_price,
                } && e_mid == market_id && e_trader@ == buyer@ && e_outcome == outcome && e_is_buy
                    && e_coll == collateral && e_tokens == out && e_yes_price
                    == m1.spec_yes_price() && e_no_price == m1.spec_no_price()
            }),
    {
        let n_markets = self.markets.len();
        if market_id >= self.market_count {
            return Err(MarketError::ValidationError);
        }
        proof {
            assert(market_id < n_markets);
        }
        let mid = market_id as usize;
        let y0 = self.markets[mid].yes_reserve;
        let n0 = self.markets[mid].no_reserve;
        let bps = self.markets[mid].fee_bps;
        let fees0 = self.markets[mid].accrued_fees;
        let tc0 = self.markets[mid].total_collateral;
        if !(self.markets[mid].status == MarketStatus::Open) {
            return Err(MarketError::StateError);
        }
        if collateral == 0 {
            return Err(MarketError::ValidationError);
        }

        // Fee deduction.
        let fee_prod = match collateral.checked_mul(bps as u128) {
            Some(p) => p,
            None => {
                return Err(MarketError::InvariantViolation);
            },
        };
        let fee = fee_prod / (BPS_DENOMINATOR as u128);
        proof {
            lemma_fee_lt(collateral as int, bps as int);
        }
        let net = collateral - fee;

        let fees1 = match fees0.checked_add(fee) {
            Some(v) => v,
            None => {
                return Err(MarketError::InvariantViolation);
            },
        };
        let tc1 = match tc0.checked_add(net) {
            Some(v) => v,
            None => {
                return Err(MarketError::InvariantViolation);
            },
        };

        // Mint `net` of both claims into the pool, then swap.
        let yes_r = match y0.checked_add(net) {
            Some(v) => v,
            None => {
                return Err(MarketError::InvariantViolation);
            },
        };
        let no_r = match n0.checked_add(net) {
            Some(v) => v,
            None => {
                return Err(MarketError::InvariantViolation);
            },
        };
        let k = match yes_r.checked_mul(no_r) {
            Some(v) => v,
            None => {
                return Err(MarketError::InvariantViolation);
            },
        };

        let ghost yi = y0 as int;
        let ghost ni = n0 as int;
        let ghost neti = net as int;
        proof {
            lemma_buy_bounds(yi, ni, neti, outcome);
        }

        let (new_yes, new_no, tokens_out): (u128, u128, u128) = match outcome {
            Outcome::Yes => {
                let final_no = match no_r.checked_add(net) {
                    Some(v) => v,
                    None => {
                        return Err(MarketError::InvariantViolation);
                    },
                };
                let final_yes = k / final_no + 1;
                (final_yes, final_no, yes_r - final_yes)
            },
            Outcome::No => {
                let final_yes = match yes_r.checked_add(net) {
                    Some(v) => v,
                    None => {
                        return Err(MarketError::InvariantViolation);
                    },
                };
                let final_no = k / final_yes + 1;
                (final_yes, final_no, no_r - final_no)
            },
        };
        if new_yes > RESERVE_LIMIT || new_no > RESERVE_LIMIT {
            return Err(MarketError::InvariantViolation);
        }
        if tokens_out < min_tokens_out {
            return Err(MarketError::SlippageError);
        }

        // Commit the new state.
        let mut m = self.markets.remove(mid);
        m.yes_reserve = new_yes;
        m.no_reserve = new_no;
        m.accrued_fees = fees1;
        m.total_collateral = tc1;
        self.markets.insert(mid, m);
        proof {
            let m1 = self.markets@[mid as int];
            assert(self.markets@ =~= old(self).markets@.update(mid as int, m1));
            assert forall|i: int| 0 <= i < self.markets@.len() implies (
            #[trigger] self.markets@[i]).id == i && self.markets@[i].wf() by {
                assert(old(self).markets@[i].wf());
            }
            assert(self.inv());
        }

        let total = new_yes + new_no;
        let yes_price = new_no * AMM_SCALE / total;
        let no_price = new_yes * AMM_SCALE / total;

        let trader = buyer.clone();
        let account_id = buyer.clone();
        Ok(BuyReceipt {
            tokens_out,
            mint: MintAction {
                token: self.outcome_token.clone(),
                market_id,
                outcome,
                account_id,
                amount: tokens_out,
            },
            event: Event::Trade {
                market_id,
                trader,
                outcome,
                is_buy: true,
                collateral_amount: collateral,
                token_amount: tokens_out,
                yes_price,
                no_price,
            },
        })
    }

    /// Pure replay of the buy computation for slippage previews: returns
    /// exactly what `internal_buy` would release for the same inputs,
    /// mutating nothing.
    pub fn estimate_buy(&self, market_id: MarketId, outcome: Outcome, collateral_in: u128) -> (r:
        Result<u128, MarketError>)
        requires
            self.inv(),
        ensures
            ({
                let m0 = self.markets@[market_id as int];
                r is Ok <==> {
                    &&& market_id < self.market_count
                    &&& collateral_in > 0
                    &&& buy_calc_fits(
                        m0.yes_reserve as int,
                        m0.no_reserve as int,
                        m0.fee_bps as int,
                        collateral_in as int,
                        outcome,
                    )
                }
            }),
            r is Ok ==> ({
                let m0 = self.markets@[market_id as int];
                r->Ok_0 == buy_tokens_out(
                    m0.yes_reserve as int,
                    m0.no_reserve as int,
                    buy_net(collateral_in as int, m0.fee_bps as int),
                    outcome,
                )
            }),
            market_id >= self.market_count ==> r == Err::<u128, MarketError>(
                MarketError::ValidationError,
            ),
    {
        let n_markets = self.markets.len();
        if market_id >= self.market_count {
            return Err(MarketError::ValidationError);
        }
        proof {
            assert(market_id < n_markets);
        }
        let mid = market_id as usize;
        let y0 = self.markets[mid].yes_reserve;
        let n0 = self.markets[mid].no_reserve;
        let bps = self.markets[mid].fee_bps;
        if collateral_in == 0 {
            return Err(MarketError::ValidationError);
        }
        let fee_prod = match collateral_in.checked_mul(bps as u128) {
            Some(p) => p,
            None => {
                return Err(MarketError::InvariantViolation);
            },
        };
        let fee = fee_prod / (BPS_DENOMINATOR as u128);
        proof {
            lemma_fee_lt(collateral_in as int, bps as int);
        }
        let net = collateral_in - fee;
        let yes_r = match y0.checked_add(net) {
            Some(v) => v,
            None => {
                return Err(MarketError::InvariantViolation);
            },
        };
        let no_r = match n0.checked_add(net) {
            Some(v) => v,
            None => {
                return Err(MarketError::InvariantViolation);
            },
        };
        let k = match yes_r.checked_mul(no_r) {
            Some(v) => v,
            None => {
                return Err(MarketError::InvariantViolation);
            },
        };
        proof {
            lemma_buy_bounds(y0 as int, n0 as int, net as int, outcome);
        }
        let tokens_out: u128 = match outcome {
            Outcome::Yes => {
                let final_no = match no_r.checked_add(net) {
                    Some(v) => v,
                    None => {
                        return Err(MarketError::InvariantViolation);
                    },
                };
                let final_yes = k / final_no + 1;
                yes_r - final_yes
            },
            Outcome::No => {
                let final_yes = match yes_r.checked_add(net) {
                    Some(v) => v,
                    None => {
                        return Err(MarketError::InvariantViolation);
                    },
                };
                let final_no = k / final_yes + 1;
                no_r - final_no
            },
        };
        Ok(tokens_out)
    }
}

/// The estimator agrees with execution: whenever a buy can commit, the
/// pure replay is defined on the same inputs and both yield the same
/// `buy_tokens_out` of the pre-trade reserves — the quantity each
/// function's contract promises.
pub proof fn lemma_estimate_buy_matches_buy(m: Market, outcome: Outcome, collateral: int)
    requires
        collateral >= 1,
        buy_fits(m, collateral, outcome),
    ensures
        buy_calc_fits(
            m.yes_reserve as int,
            m.no_reserve as int,
            m.fee_bps as int,
            collateral,
            outcome,
        ),
{
}

} // verus!

verus! {

/// The smaller of two integers.
pub open spec fn min_int(a: int, b: int) -> int {
    if a <= b {
        a
    } else {
        b
    }
}

/// Matched pairs released by selling `t` claims of side `o` into
/// reserves `(y, n)`: the sale adds `t` to that side, extracts the
/// opposite side by the constant-product division rounded up, and
/// releases one collateral unit per matched pair.
pub open spec fn sell_pairs(y: int, n: int, t: int, o: Outcome) -> int {
    if o == Outcome::Yes {
        min_int(t, n - (y * n / (y + t) + 1))
    } else {
        min_int(t, y - (y * n / (n + t) + 1))
    }
}

/// New YES reserve after the sale commits.
pub open spec fn sell_new_yes(y: int, n: int, t: int, o: Outcome) -> int {
    if o == Outcome::Yes {
        y + t - sell_pairs(y, n, t, o)
    } else {
        y * n / (n + t) + 1
    }
}

/// New NO reserve after the sale commits.
pub open spec fn sell_new_no(y: int, n: int, t: int, o: Outcome) -> int {
    if o == Outcome::Yes {
        y * n / (y + t) + 1
    } else {
        n + t - sell_pairs(y, n, t, o)
    }
}

/// The swap stage of the sale stays within 128-bit arithmetic.
pub open spec fn sell_calc_fits(y: int, n: int, t: int, o: Outcome) -> bool {
    &&& y * n <= u128::MAX
    &&& (if o == Outcome::Yes {
        y + t
    } else {
        n + t
    }) <= u128::MAX
}

/// A committed sale additionally keeps the fee ledger in range, leaves
/// collateral in the pool, and keeps the new reserves within bounds.
pub open spec fn sell_fits(m: Market, t: int, o: Outcome) -> bool {
    let y = m.yes_reserve as int;
    let n = m.no_reserve as int;
    let pairs = sell_pairs(y, n, t, o);
    &&& m.accrued_fees + fee_amount(pairs, m.fee_bps as int) <= u128::MAX
    &&& pairs < m.total_collateral
    &&& sell_new_yes(y, n, t, o) <= RESERVE_LIMIT
    &&& sell_new_no(y, n, t, o) <= RESERVE_LIMIT
}

/// Collateral released to the seller after the fee.
pub open spec fn sell_collateral_out(y: int, n: int, t: int, bps: int, o: Outcome) -> int {
    sell_pairs(y, n, t, o) - fee_amount(sell_pairs(y, n, t, o), bps)
}

/// Range facts for the sale: the rounded-up division leaves a positive
/// opposite reserve below the old one, pairs are bounded by both the
/// tokens sold and the extracted amount, and the swap stage (before the
/// matched pairs are burned) strictly grows the reserve product.
pub proof fn lemma_sell_bounds(y: int, n: int, t: int, o: Outcome)
    requires
        y >= 1,
        n >= 1,
        t >= 1,
    ensures
        0 <= sell_pairs(y, n, t, o) <= t,
        o == Outcome::Yes ==> {
            &&& 1 <= sell_new_no(y, n, t, o) <= n
            &&& sell_pairs(y, n, t, o) <= n - 1
            &&& y <= sell_new_yes(y, n, t, o) <= y + t
            &&& (y + t) * sell_new_no(y, n, t, o) > y * n
        },
        o == Outcome::No ==> {
            &&& 1 <= sell_new_yes(y, n, t, o) <= y
            &&& sell_pairs(y, n, t, o) <= y - 1
            &&& n <= sell_new_no(y, n, t, o) <= n + t
            &&& sell_new_yes(y, n, t, o) * (n + t) > y * n
        },
{
    let k = y * n;
    assert(k >= 1) by (nonlinear_arith)
        requires
            y >= 1,
            n >= 1,
            k == y * n,
    ;
    if o == Outcome::Yes {
        let d = y + t;
        let q = k / d;
        assert(k < d * n) by (nonlinear_arith)
            requires
                y >= 1,
                n >= 1,
                t >= 1,
                k == y * n,
                d == y + t,
        ;
        lemma_multiply_divide_lt(k, d, n);
        assert(q >= 0) by {
            lemma_div_is_ordered(0, k, d);
        }
        assert((q + 1) * d > k) by {
            lemma_fundamental_div_mod(k, d);
            assert((q + 1) * d == q * d + d) by (nonlinear_arith);
            assert(d * q == q * d) by {
                lemma_mul_is_commutative(d, q);
            }
        }
        assert(d * (q + 1) == (q + 1) * d) by {
            lemma_mul_is_commutative(d, q + 1);
        }
    } else {
        let d = n + t;
        let q = k / d;
        assert(k < d * y) by (nonlinear_arith)
            requires
                y >= 1,
                n >= 1,
                t >= 1,
                k == y * n,
                d == n + t,
        ;
        lemma_multiply_divide_lt(k, d, y);
        assert(q >= 0) by {
            lemma_div_is_ordered(0, k, d);
        }
        assert((q + 1) * d > k) by {
            lemma_fundamental_div_mod(k, d);
            assert((q + 1) * d == q * d + d) by (nonlinear_arith);
            assert(d * q == q * d) by {
                lemma_mul_is_commutative(d, q);
            }
        }
    }
}

/// Outcome of a committed sale. The runtime must first issue the burn,
/// then report its result to `on_sell_burn_complete`, which releases the
/// payment only if the burn succeeded.
pub struct SellReceipt {
    /// Collateral owed to the seller once the burn confirms.
    pub collateral_out: u128,
    /// The external burn of the seller's claims.
    pub burn: BurnAction,
    /// The trade event to publish.
    pub event: Event,
}

impl MarketContract {
    /// Sell `tokens_in` claims of `outcome` back to the pool: the claims
    /// join their reserve, the opposite side is extracted by the
    /// constant-product division rounded up, matched pairs release
    /// collateral, and the fee comes out of the released amount.
    ///
    /// Rejected, leaving the ledger untouched, when the market is
    /// unknown, not open, the sale is zero, the arithmetic would leave
    /// 128 bits, or the released amount is below `min_collateral_out`.
    pub fn sell(
        &mut self,
        market_id: MarketId,
        outcome: Outcome,
        tokens_in: u128,
        min_collateral_out: u128,
        seller: String,
    ) -> (r: Result<SellReceipt, MarketError>)
        requires
            old(self).inv(),
        ensures
            final(self).inv(),
            r is Err ==> *final(self) == *old(self),
            ({
                let m0 = old(self).markets@[market_id as int];
                let y = m0.yes_reserve as int;
                let n = m0.no_reserve as int;
                let t = tokens_in as int;
                r is Ok <==> {
                    &&& market_id < old(self).market_count
                    &&& m0.status == MarketStatus::Open
                    &&& tokens_in > 0
                    &&& sell_calc_fits(y, n, t, outcome)
                    &&& sell_collateral_out(y, n, t, m0.fee_bps as int, outcome)
                        >= min_collateral_out
                    &&& sell_fits(m0, t, outcome)
                }
            }),
            market_id >= old(self).market_count ==> r == Err::<SellReceipt, MarketError>(
                MarketError::ValidationError,
            ),
            market_id < old(self).market_count && old(self).markets@[market_id as int].status
                != MarketStatus::Open ==> r == Err::<SellReceipt, MarketError>(
                MarketError::StateError,
            ),
            market_id < old(self).market_count && old(self).markets@[market_id as int].status
                == MarketStatus::Open && tokens_in == 0 ==> r == Err::<SellReceipt, MarketError>(
                MarketError::ValidationError,
            ),
            r is Ok ==> ({
                let mid = market_id as int;
                let m0 = old(self).markets@[mid];
                let m1 = final(self).markets@[mid];
                let y = m0.yes_reserve as int;
                let n = m0.no_reserve as int;
                let t = tokens_in as int;
                let pairs = sell_pairs(y, n, t, outcome);
                let out = sell_collateral_out(y, n, t, m0.fee_bps as int, outcome);
                &&& final(self).markets@ == old(self).markets@.update(mid, m1)
                &&& final(self).lp_positions@ == old(self).lp_positions@
                &&& final(self).assertion_to_market@ == old(self).assertion_to_market@
                &&& final(self).market_count == old(self).market_count
                &&& final(self).same_config(old(self))
                &&& m1.yes_reserve == sell_new_yes(y, n, t, outcome)
                &&& m1.no_reserve == sell_new_no(y, n, t, outcome)
                &&& m1.total_collateral == m0.total_collateral - pairs
                &&& m1.accrued_fees == m0.accrued_fees + fee_amount(pairs, m0.fee_bps as int)
                &&& m1.total_lp_shares == m0.total_lp_shares
                &&& m1.status == m0.status
                &&& m1.id == m0.id
                &&& m1.question == m0.question
                &&& m1.description == m0.description
                &&& m1.creator == m0.creator
                &&& m1.resolution_time_ns == m0.resolution_time_ns
                &&& m1.outcome == m0.outcome
                &&& m1.fee_bps == m0.fee_bps
                &&& m1.no_assertion()
                &&& r->Ok_0.collateral_out == out
                &&& r->Ok_0.burn.token == old(self).outcome_token
                &&& r->Ok_0.burn.market_id == market_id
                &&& r->Ok_0.burn.outcome == outcome
                &&& r->Ok_0.burn.account_id@ == seller@
                &&& r->Ok_0.burn.amount == tokens_in
                &&& r->Ok_0.event matches Event::Trade {
                    market_id: e_mid,
                    trader: e_trader,
                    outcome: e_outcome,
                    is_buy: e_is_buy,
                    collateral_amount: e_coll,
                    token_amount: e_tokens,
                    yes_price: e_yes_price,
                    no_price: e_no_price,
                } && e_mid == market_id && e_trader@ == seller@ && e_outcome == outcome && !e_is_buy
                    && e_coll == out && e_tokens == tokens_in && e_yes_price == m1.spec_yes_price()
                    && e_no_price == m1.spec_no_price()
            }),
    {
        let n_markets = self.markets.len();
        if market_id >= self.market_count {
            return Err(MarketError::ValidationError);
        }
        proof {
            assert(market_id < n_markets);
        }
        let mid = market_id as usize;
        let y0 = self.markets[mid].yes_reserve;
        let n0 = self.markets[mid].no_reserve;
        let bps = self.markets[mid].fee_bps;
        let fees0 = self.markets[mid].accrued_fees;
        let tc0 = self.markets[mid].total_collateral;
        if !(self.markets[mid].status == MarketStatus::Open) {
            return Err(MarketError::StateError);
        }
        if tokens_in == 0 {
            return Err(MarketError::ValidationError);
        }

        let k = match y0.checked_mul(n0) {
            Some(v) => v,
            None => {
                return Err(MarketError::InvariantViolation);
            },
        };
        proof {
            lemma_sell_bounds(y0 as int, n0 as int, tokens_in as int, outcome);
        }
        let (new_yes, new_no, pairs): (u128, u128, u128) = match outcome {
            Outcome::Yes => {
                let grown = match y0.checked_add(tokens_in) {
                    Some(v) => v,
                    None => {
                        return Err(MarketError::InvariantViolation);
                    },
                };
                let shrunk = k / grown + 1;
                let extracted = n0 - shrunk;
                let pairs = if tokens_in <= extracted {
                    tokens_in
                } else {
                    extracted
                };
                (grown - pairs, shrunk, pairs)
            },
            Outcome::No => {
                let grown = match n0.checked_add(tokens_in) {
                    Some(v) => v,
                    None => {
                        return Err(MarketError::InvariantViolation);
                    },
                };
                let shrunk = k / grown + 1;
                let extracted = y0 - shrunk;
                let pairs = if tokens_in <= extracted {
                    tokens_in
                } else {
                    extracted
                };
                (shrunk, grown - pairs, pairs)
            },
        };

        proof {
            assert(pairs <= RESERVE_LIMIT);
            assert(pairs * bps <= 170141183460469231731687303715884 * 10000) by (nonlinear_arith)
                requires
                    0 <= pairs <= 170141183460469231731687303715884,
                    0 <= bps <= 10000,
            ;
            if pairs >= 1 {
                lemma_fee_lt(pairs as int, bps as int);
            } else {
                assert(pairs * bps == 0) by (nonlinear_arith)
                    requires
                        pairs == 0,
                ;
            }
        }
        let fee = pairs * (bps as u128) / (BPS_DENOMINATOR as u128);
        let collateral_out = pairs - fee;
        if collateral_out < min_collateral_out {
            return Err(MarketError::SlippageError);
        }
        let fees1 = match fees0.checked_add(fee) {
            Some(v) => v,
            None => {
                return Err(MarketError::InvariantViolation);
            },
        };
        if pairs >= tc0 {
            return Err(MarketError::InvariantViolation);
        }
        let tc1 = tc0 - pairs;
        if new_yes > RESERVE_LIMIT || new_no > RESERVE_LIMIT {
            return Err(MarketError::InvariantViolation);
        }

        // Commit the new state.
        let mut m = self.markets.remove(mid);
        m.yes_reserve = new_yes;
        m.no_reserve = new_no;
        m.accrued_fees = fees1;
        m.total_collateral = tc1;
        self.markets.insert(mid, m);
        proof {
            let m1 = self.markets@[mid as int];
            assert(self.markets@ =~= old(self).markets@.update(mid as int, m1));
            assert forall|i: int| 0 <= i < self.markets@.len() implies (
            #[trigger] self.markets@[i]).id == i && self.markets@[i].wf() by {
                assert(old(self).markets@[i].wf());
            }
            assert(self.inv());
        }

        let total = new_yes + new_no;
        let yes_price = new_no * AMM_SCALE / total;
        let no_price = new_yes * AMM_SCALE / total;

        let trader = seller.clone();
        let account_id = seller.clone();
        Ok(SellReceipt {
            collateral_out,
            burn: BurnAction {
                token: self.outcome_token.clone(),
                market_id,
                outcome,
                account_id,
                amount: tokens_in,
            },
            event: Event::Trade {
                market_id,
                trader,
                outcome,
                is_buy: false,
                collateral_amount: collateral_out,
                token_amount: tokens_in,
                yes_price,
                no_price,
            },
        })
    }

    /// Continuation of a sale after the external burn reports back:
    /// releases the payment when the burn succeeded, and surfaces the
    /// collaborator failure otherwise. The ledger itself is unchanged
    /// either way; the reserve update was already committed.
    pub fn on_sell_burn_complete(&mut self, seller: String, amount: u128, burn_ok: bool) -> (r:
        Result<FtTransferAction, MarketError>)
        requires
            old(self).inv(),
        ensures
            final(self).inv(),
            *final(self) == *old(self),
            r is Ok <==> burn_ok,
            !burn_ok ==> r == Err::<FtTransferAction, MarketError>(MarketError::CollaboratorFailure),
            r is Ok ==> r->Ok_0.token == old(self).usdc_token && r->Ok_0.receiver_id@ == seller@
                && r->Ok_0.amount == amount,
    {
        if !burn_ok {
            return Err(MarketError::CollaboratorFailure);
        }
        Ok(FtTransferAction { token: self.usdc_token.clone(), receiver_id: seller, amount })
    }
}

} // verus!

verus! {

/// Shares minted for adding `amount` collateral: proportional to the
/// existing share total, or one-for-one into an empty pool.
pub open spec fn add_liq_shares(tlp: int, tc: int, amount: int) -> int {
    if tlp == 0 {
        amount
    } else {
        amount * tlp / tc
    }
}

/// Growth of one reserve when `amount` collateral joins a pool holding
/// `tc` collateral: proportional to the reserve.
pub open spec fn liq_scaled(v: int, tc: int, amount: int) -> int {
    amount * v / tc
}

/// A committed liquidity addition stays within 128-bit arithmetic and
/// reserve bounds.
pub open spec fn add_liq_fits(m: Market, amount: int, position: int) -> bool {
    let y = m.yes_reserve as int;
    let n = m.no_reserve as int;
    let tc = m.total_collateral as int;
    let tlp = m.total_lp_shares as int;
    let shares = add_liq_shares(tlp, tc, amount);
    &&& amount * tlp <= u128::MAX
    &&& amount * y <= u128::MAX
    &&& amount * n <= u128::MAX
    &&& y + liq_scaled(y, tc, amount) <= RESERVE_LIMIT
    &&& n + liq_scaled(n, tc, amount) <= RESERVE_LIMIT
    &&& tc + amount <= u128::MAX
    &&& tlp + shares <= u128::MAX
    &&& position + shares <= u128::MAX
}

/// A proportional slice is non-negative, and strictly below the whole
/// when the share fraction is proper.
pub proof fn lemma_scaled_bounds(v: int, d: int, num: int)
    requires
        v >= 1,
        d >= 1,
        num >= 0,
    ensures
        0 <= num * v / d,
        num < d ==> num * v / d < v,
        num <= d ==> num * v / d <= v,
{
    assert(num * v >= 0) by (nonlinear_arith)
        requires
            num >= 0,
            v >= 0,
    ;
    lemma_div_is_ordered(0, num * v, d);
    if num < d {
        assert(num * v < d * v) by (nonlinear_arith)
            requires
                num < d,
                v >= 1,
        ;
        lemma_multiply_divide_lt(num * v, d, v);
    } else if num <= d {
        assert(num * v <= d * v) by (nonlinear_arith)
            requires
                num <= d,
                v >= 1,
        ;
        vstd::arithmetic::div_mod::lemma_multiply_divide_le(num * v, d, v);
    }
}

/// A single position never exceeds the sum of all positions.
pub proof fn lemma_lp_lookup_le_sum(s: Seq<LpEntry>, account: Seq<char>)
    ensures
        0 <= lp_lookup(s, account) <= lp_sum(s),
        lp_sum(s) >= 0,
    decreases s.len(),
{
    if s.len() > 0 {
        lemma_lp_lookup_le_sum(s.drop_last(), account);
    }
}

/// Outcome of a committed liquidity addition. The runtime must mint
/// `yes_add` and `no_add` claims to the pool's own custody account.
pub struct AddLiquidityReceipt {
    pub lp_shares: u128,
    pub yes_add: u128,
    pub no_add: u128,
    pub event: Event,
}

/// Outcome of a committed liquidity removal. The runtime must burn
/// `yes_remove` and `no_remove` custody claims, then report to
/// `on_remove_liquidity_burn_complete` to release the payment.
pub struct RemoveLiquidityReceipt {
    pub collateral_out: u128,
    pub yes_remove: u128,
    pub no_remove: u128,
    pub event: Event,
}

impl MarketContract {
    /// Add `amount` collateral as pool liquidity: shares are minted in
    /// proportion to the existing pool, both reserves grow
    /// proportionally, and the provider's position records the shares.
    pub fn internal_add_liquidity(&mut self, market_id: MarketId, amount: u128, provider: String)
        -> (r: Result<AddLiquidityReceipt, MarketError>)
        requires
            old(self).inv(),
        ensures
            final(self).inv(),
            r is Err ==> *final(self) == *old(self),
            ({
                let m0 = old(self).markets@[market_id as int];
                let tc = m0.total_collateral as int;
                let tlp = m0.total_lp_shares as int;
                let position = lp_lookup(old(self).lp_positions@[market_id as int]@, provider@);
                r is Ok <==> {
                    &&& market_id < old(self).market_count
                    &&& m0.status == MarketStatus::Open
                    &&& amount * tlp <= u128::MAX
                    &&& add_liq_shares(tlp, tc, amount as int) > 0
                    &&& add_liq_fits(m0, amount as int, position)
                }
            }),
            market_id >= old(self).market_count ==> r == Err::<AddLiquidityReceipt, MarketError>(
                MarketError::ValidationError,
            ),
            market_id < old(self).market_count && old(self).markets@[market_id as int].status
                != MarketStatus::Open ==> r == Err::<AddLiquidityReceipt, MarketError>(
                MarketError::StateError,
            ),
            market_id < old(self).market_count && old(self).markets@[market_id as int].status
                == MarketStatus::Open && amount * old(self).markets@[market_id as int].total_lp_shares
                <= u128::MAX && add_liq_shares(
                old(self).markets@[market_id as int].total_lp_shares as int,
                old(self).markets@[market_id as int].total_collateral as int,
                amount as int,
            ) == 0 ==> r == Err::<AddLiquidityReceipt, MarketError>(MarketError::ValidationError),
            r is Ok ==> ({
                let mid = market_id as int;
                let m0 = old(self).markets@[mid];
                let m1 = final(self).markets@[mid];
                let y = m0.yes_reserve as int;
                let n = m0.no_reserve as int;
                let tc = m0.total_collateral as int;
                let tlp = m0.total_lp_shares as int;
                let shares = add_liq_shares(tlp, tc, amount as int);
                &&& final(self).markets@ == old(self).markets@.update(mid, m1)
                &&& final(self).assertion_to_market@ == old(self).assertion_to_market@
                &&& final(self).market_count == old(self).market_count
                &&& final(self).same_config(old(self))
                &&& m1.yes_reserve == y + liq_scaled(y, tc, amount as int)
                &&& m1.no_reserve == n + liq_scaled(n, tc, amount as int)
                &&& m1.total_collateral == tc + amount
                &&& m1.total_lp_shares == tlp + shares
                &&& m1.accrued_fees == m0.accrued_fees
                &&& m1.status == m0.status
                &&& m1.id == m0.id
                &&& m1.question == m0.question
                &&& m1.description == m0.description
                &&& m1.creator == m0.creator
                &&& m1.resolution_time_ns == m0.resolution_time_ns
                &&& m1.outcome == m0.outcome
                &&& m1.fee_bps == m0.fee_bps
                &&& m1.no_assertion()
                &&& final(self).lp_positions@ == old(self).lp_positions@.update(
                    mid,
                    final(self).lp_positions@[mid],
                )
                &&& lp_lookup(final(self).lp_positions@[mid]@, provider@) == lp_lookup(
                    old(self).lp_positions@[mid]@,
                    provider@,
                ) + shares
                &&& forall|a: Seq<char>|
                    a != provider@ ==> lp_lookup(final(self).lp_positions@[mid]@, a) == lp_lookup(
                        old(self).lp_positions@[mid]@,
                        a,
                    )
                &&& r->Ok_0.lp_shares == shares
                &&& r->Ok_0.yes_add == liq_scaled(y, tc, amount as int)
                &&& r->Ok_0.no_add == liq_scaled(n, tc, amount as int)
                &&& r->Ok_0.event matches Event::LiquidityAdded {
                    market_id: e_mid,
                    provider: e_provider,
                    amount: e_amount,
                    lp_shares: e_shares,
                } && e_mid == market_id && e_provider@ == provider@ && e_amount == amount
                    && e_shares == shares
            }),
    {
        let n_markets = self.markets.len();
        if market_id >= self.market_count {
            return Err(MarketError::ValidationError);
        }
        proof {
            assert(market_id < n_markets);
        }
        let mid = market_id as usize;
        let y0 = self.markets[mid].yes_reserve;
        let n0 = self.markets[mid].no_reserve;
        let tc0 = self.markets[mid].total_collateral;
        let tlp0 = self.markets[mid].total_lp_shares;
        if !(self.markets[mid].status == MarketStatus::Open) {
            return Err(MarketError::StateError);
        }

        // Shares proportional to the existing pool.
        let shares_prod = match amount.checked_mul(tlp0) {
            Some(v) => v,
            None => {
                return Err(MarketError::InvariantViolation);
            },
        };
        let lp_shares = if tlp0 == 0 {
            amount
        } else {
            shares_prod / tc0
        };
        if lp_shares == 0 {
            return Err(MarketError::ValidationError);
        }

        // Both reserves grow proportionally.
        let yes_prod = match amount.checked_mul(y0) {
            Some(v) => v,
            None => {
                return Err(MarketError::InvariantViolation);
            },
        };
        let no_prod = match amount.checked_mul(n0) {
            Some(v) => v,
            None => {
                return Err(MarketError::InvariantViolation);
            },
        };
        let yes_add = yes_prod / tc0;
        let no_add = no_prod / tc0;
        let new_yes = match y0.checked_add(yes_add) {
            Some(v) => v,
            None => {
                return Err(MarketError::InvariantViolation);
            },
        };
        let new_no = match n0.checked_add(no_add) {
            Some(v) => v,
            None => {
                return Err(MarketError::InvariantViolation);
            },
        };
        if new_yes > RESERVE_LIMIT || new_no > RESERVE_LIMIT {
            return Err(MarketError::InvariantViolation);
        }
        let tc1 = match tc0.checked_add(amount) {
            Some(v) => v,
            None => {
                return Err(MarketError::InvariantViolation);
            },
        };
        let tlp1 = match tlp0.checked_add(lp_shares) {
            Some(v) => v,
            None => {
                return Err(MarketError::InvariantViolation);
            },
        };

        // Record the provider's position.
        let existing: u128 = match lp_find(&self.lp_positions[mid], &provider) {
            Some(i) => {
                proof {
                    lemma_lp_lookup_at(self.lp_positions@[mid as int]@, i as int);
                }
                self.lp_positions[mid][i].shares
            },
            None => {
                proof {
                    lemma_lp_lookup_absent(self.lp_positions@[mid as int]@, provider@);
                }
                0
            },
        };
        let new_position = match existing.checked_add(lp_shares) {
            Some(v) => v,
            None => {
                return Err(MarketError::InvariantViolation);
            },
        };

        proof {
            lemma_lp_lookup_le_sum(self.lp_positions@[mid as int]@, provider@);
        }

        let mut entries = self.lp_positions.remove(mid);
        let ghost entries0 = entries@;
        match lp_find(&entries, &provider) {
            Some(i) => {
                proof {
                    lemma_lp_lookup_at(entries@, i as int);
                }
                let mut e = entries.remove(i);
                e.shares = new_position;
                entries.insert(i, e);
                proof {
                    assert(entries@ =~= entries0.update(i as int, entries@[i as int]));
                    lemma_lp_sum_update(entries0, i as int, entries@[i as int]);
                    lemma_lp_lookup_update(entries0, i as int, entries@[i as int], provider@);
                    assert forall|a: Seq<char>| a != provider@ implies lp_lookup(entries@, a)
                        == lp_lookup(entries0, a) by {
                        lemma_lp_lookup_update(entries0, i as int, entries@[i as int], a);
                    }
                }
            },
            None => {
                proof {
                    lemma_lp_lookup_absent(entries@, provider@);
                }
                let account = provider.clone();
                entries.push(LpEntry { account, shares: new_position });
                proof {
                    lemma_lp_sum_push(entries0, entries@.last());
                    lemma_lp_lookup_push(entries0, entries@.last(), provider@);
                    assert forall|a: Seq<char>| a != provider@ implies lp_lookup(entries@, a)
                        == lp_lookup(entries0, a) by {
                        lemma_lp_lookup_push(entries0, entries@.last(), a);
                    }
                }
            },
        }
        self.lp_positions.insert(mid, entries);

        let mut m = self.markets.remove(mid);
        m.yes_reserve = new_yes;
        m.no_reserve = new_no;
        m.total_collateral = tc1;
        m.total_lp_shares = tlp1;
        self.markets.insert(mid, m);

        proof {
            let m1 = self.markets@[mid as int];
            assert(self.markets@ =~= old(self).markets@.update(mid as int, m1));
            assert(self.lp_positions@ =~= old(self).lp_positions@.update(
                mid as int,
                self.lp_positions@[mid as int],
            ));
            assert forall|i: int| 0 <= i < self.markets@.len() implies (
            #[trigger] self.markets@[i]).id == i && self.markets@[i].wf() by {
                assert(old(self).markets@[i].wf());
            }
            assert forall|i: int| 0 <= i < self.markets@.len() implies lp_accounts_unique(
                (#[trigger] self.lp_positions@[i])@,
            ) && lp_sum(self.lp_positions@[i]@) == self.markets@[i].total_lp_shares by {
                assert(lp_accounts_unique((old(self).lp_positions@[i])@));
                assert(lp_sum((old(self).lp_positions@[i])@) == old(
                    self,
                ).markets@[i].total_lp_shares);
            }
            assert(self.inv());
        }

        let e_provider = provider.clone();
        Ok(AddLiquidityReceipt {
            lp_shares,
            yes_add,
            no_add,
            event: Event::LiquidityAdded {
                market_id,
                provider: e_provider,
                amount,
                lp_shares,
            },
        })
    }
}

} // verus!

verus! {

/// A committed liquidity removal stays within 128-bit arithmetic.
pub open spec fn remove_liq_fits(m: Market, shares: int) -> bool {
    &&& shares * m.total_collateral <= u128::MAX
    &&& shares * m.yes_reserve <= u128::MAX
    &&& shares * m.no_reserve <= u128::MAX
}

/// Proportional withdrawal for `shares` of `tlp` total: how much of `v`
/// leaves the pool.
pub open spec fn remove_scaled(v: int, tlp: int, shares: int) -> int {
    shares * v / tlp
}

impl MarketContract {
    /// Withdraw `shares` of the provider's position: collateral and both
    /// reserves shrink by the matching proportion.
    ///
    /// Rejected, leaving the ledger untouched, when the position is
    /// smaller than `shares`, the market is unknown or not open, the
    /// withdrawal is zero or would drain the pool entirely, or the
    /// arithmetic would leave 128 bits.
    pub fn remove_liquidity(&mut self, market_id: MarketId, shares: u128, provider: String) -> (r:
        Result<RemoveLiquidityReceipt, MarketError>)
        requires
            old(self).inv(),
        ensures
            final(self).inv(),
            r is Err ==> *final(self) == *old(self),
            ({
                let m0 = old(self).markets@[market_id as int];
                let balance = if market_id < old(self).market_count {
                    lp_lookup(old(self).lp_positions@[market_id as int]@, provider@)
                } else {
                    0
                };
                r is Ok <==> {
                    &&& shares <= balance
                    &&& market_id < old(self).market_count
                    &&& m0.status == MarketStatus::Open
                    &&& shares > 0
                    &&& shares < m0.total_lp_shares
                    &&& remove_liq_fits(m0, shares as int)
                }
            }),
            ({
                let balance = if market_id < old(self).market_count {
                    lp_lookup(old(self).lp_positions@[market_id as int]@, provider@)
                } else {
                    0
                };
                shares > balance ==> r == Err::<RemoveLiquidityReceipt, MarketError>(
                    MarketError::InsufficientBalanceError,
                )
            }),
            r is Ok ==> ({
                let mid = market_id as int;
                let m0 = old(self).markets@[mid];
                let m1 = final(self).markets@[mid];
                let y = m0.yes_reserve as int;
                let n = m0.no_reserve as int;
                let tc = m0.total_collateral as int;
                let tlp = m0.total_lp_shares as int;
                let out = remove_scaled(tc, tlp, shares as int);
                &&& final(self).markets@ == old(self).markets@.update(mid, m1)
                &&& final(self).assertion_to_market@ == old(self).assertion_to_market@
                &&& final(self).market_count == old(self).market_count
                &&& final(self).same_config(old(self))
                &&& m1.yes_reserve == y - remove_scaled(y, tlp, shares as int)
                &&& m1.no_reserve == n - remove_scaled(n, tlp, shares as int)
                &&& m1.total_collateral == tc - out
                &&& m1.total_lp_shares == tlp - shares
                &&& m1.accrued_fees == m0.accrued_fees
                &&& m1.status == m0.status
                &&& m1.id == m0.id
                &&& m1.question == m0.question
                &&& m1.description == m0.description
                &&& m1.creator == m0.creator
                &&& m1.resolution_time_ns == m0.resolution_time_ns
                &&& m1.outcome == m0.outcome
                &&& m1.fee_bps == m0.fee_bps
                &&& m1.no_assertion()
                &&& final(self).lp_positions@ == old(self).lp_positions@.update(
                    mid,
                    final(self).lp_positions@[mid],
                )
                &&& lp_lookup(final(self).lp_positions@[mid]@, provider@) == lp_lookup(
                    old(self).lp_positions@[mid]@,
                    provider@,
                ) - shares
                &&& forall|a: Seq<char>|
                    a != provider@ ==> lp_lookup(final(self).lp_positions@[mid]@, a) == lp_lookup(
                        old(self).lp_positions@[mid]@,
                        a,
                    )
                &&& r->Ok_0.collateral_out == out
                &&& r->Ok_0.yes_remove == remove_scaled(y, tlp, shares as int)
                &&& r->Ok_0.no_remove == remove_scaled(n, tlp, shares as int)
                &&& r->Ok_0.event matches Event::LiquidityRemoved {
                    market_id: e_mid,
                    provider: e_provider,
                    amount: e_amount,
                    lp_shares: e_shares,
                } && e_mid == market_id && e_provider@ == provider@ && e_amount == out && e_shares
                    == shares
            }),
    {
        let n_markets = self.markets.len();

        // The provider's current position (zero for an unknown market),
        // checked before anything else.
        let balance: u128 = if market_id < self.market_count {
            proof {
                assert(market_id < n_markets);
            }
            let m = market_id as usize;
            match lp_find(&self.lp_positions[m], &provider) {
                Some(i) => {
                    proof {
                        lemma_lp_lookup_at(self.lp_positions@[m as int]@, i as int);
                    }
                    self.lp_positions[m][i].shares
                },
                None => {
                    proof {
                        lemma_lp_lookup_absent(self.lp_positions@[m as int]@, provider@);
                    }
                    0
                },
            }
        } else {
            0
        };
        if balance < shares {
            return Err(MarketError::InsufficientBalanceError);
        }
        if market_id >= self.market_count {
            return Err(MarketError::ValidationError);
        }
        proof {
            assert(market_id < n_markets);
        }
        let mid = market_id as usize;
        let y0 = self.markets[mid].yes_reserve;
        let n0 = self.markets[mid].no_reserve;
        let tc0 = self.markets[mid].total_collateral;
        let tlp0 = self.markets[mid].total_lp_shares;
        if !(self.markets[mid].status == MarketStatus::Open) {
            return Err(MarketError::StateError);
        }
        if shares == 0 {
            return Err(MarketError::ValidationError);
        }
        proof {
            lemma_lp_lookup_le_sum(self.lp_positions@[mid as int]@, provider@);
        }
        if shares == tlp0 {
            // Withdrawing every share would empty the pool's reserves.
            return Err(MarketError::ValidationError);
        }

        let tc_prod = match shares.checked_mul(tc0) {
            Some(v) => v,
            None => {
                return Err(MarketError::InvariantViolation);
            },
        };
        let yes_prod = match shares.checked_mul(y0) {
            Some(v) => v,
            None => {
                return Err(MarketError::InvariantViolation);
            },
        };
        let no_prod = match shares.checked_mul(n0) {
            Some(v) => v,
            None => {
                return Err(MarketError::InvariantViolation);
            },
        };
        proof {
            lemma_scaled_bounds(tc0 as int, tlp0 as int, shares as int);
            lemma_scaled_bounds(y0 as int, tlp0 as int, shares as int);
            lemma_scaled_bounds(n0 as int, tlp0 as int, shares as int);
        }
        let collateral_out = tc_prod / tlp0;
        let yes_remove = yes_prod / tlp0;
        let no_remove = no_prod / tlp0;

        // Debit the provider's position.
        let mut entries = self.lp_positions.remove(mid);
        let ghost entries0 = entries@;
        match lp_find(&entries, &provider) {
            Some(i) => {
                proof {
                    lemma_lp_lookup_at(entries@, i as int);
                }
                let mut e = entries.remove(i);
                e.shares = e.shares - shares;
                entries.insert(i, e);
                proof {
                    assert(entries@ =~= entries0.update(i as int, entries@[i as int]));
                    lemma_lp_sum_update(entries0, i as int, entries@[i as int]);
                    lemma_lp_lookup_update(entries0, i as int, entries@[i as int], provider@);
                    assert forall|a: Seq<char>| a != provider@ implies lp_lookup(entries@, a)
                        == lp_lookup(entries0, a) by {
                        lemma_lp_lookup_update(entries0, i as int, entries@[i as int], a);
                    }
                }
            },
            None => {
                // Unreachable: the balance check above found the position.
                proof {
                    lemma_lp_lookup_absent(entries@, provider@);
                }
                self.lp_positions.insert(mid, entries);
                return Err(MarketError::InsufficientBalanceError);
            },
        }
        self.lp_positions.insert(mid, entries);

        let mut m = self.markets.remove(mid);
        m.yes_reserve = y0 - yes_remove;
        m.no_reserve = n0 - no_remove;
        m.total_collateral = tc0 - collateral_out;
        m.total_lp_shares = tlp0 - shares;
        self.markets.insert(mid, m);

        proof {
            let m1 = self.markets@[mid as int];
            assert(self.markets@ =~= old(self).markets@.update(mid as int, m1));
            assert(self.lp_positions@ =~= old(self).lp_positions@.update(
                mid as int,
                self.lp_positions@[mid as int],
            ));
            assert forall|i: int| 0 <= i < self.markets@.len() implies (
            #[trigger] self.markets@[i]).id == i && self.markets@[i].wf() by {
                assert(old(self).markets@[i].wf());
            }
            assert forall|i: int| 0 <= i < self.markets@.len() implies lp_accounts_unique(
                (#[trigger] self.lp_positions@[i])@,
            ) && lp_sum(self.lp_positions@[i]@) == self.markets@[i].total_lp_shares by {
                assert(lp_accounts_unique((old(self).lp_positions@[i])@));
                assert(lp_sum((old(self).lp_positions@[i])@) == old(
                    self,
                ).markets@[i].total_lp_shares);
            }
            assert(self.inv());
        }

        let e_provider = provider.clone();
        Ok(RemoveLiquidityReceipt {
            collateral_out,
            yes_remove,
            no_remove,
            event: Event::LiquidityRemoved {
                market_id,
                provider: e_provider,
                amount: collateral_out,
                lp_shares: shares,
            },
        })
    }

    /// Continuation of a liquidity removal after both custody burns
    /// report back: releases the payment only when both succeeded. The
    /// ledger itself is unchanged either way.
    pub fn on_remove_liquidity_burn_complete(
        &mut self,
        provider: String,
        amount: u128,
        first_ok: bool,
        second_ok: bool,
    ) -> (r: Result<FtTransferAction, MarketError>)
        requires
            old(self).inv(),
        ensures
            final(self).inv(),
            *final(self) == *old(self),
            r is Ok <==> first_ok && second_ok,
            !(first_ok && second_ok) ==> r == Err::<FtTransferAction, MarketError>(
                MarketError::CollaboratorFailure,
            ),
            r is Ok ==> r->Ok_0.token == old(self).usdc_token && r->Ok_0.receiver_id@ == provider@
                && r->Ok_0.amount == amount,
    {
        if !first_ok || !second_ok {
            return Err(MarketError::CollaboratorFailure);
        }
        Ok(FtTransferAction { token: self.usdc_token.clone(), receiver_id: provider, amount })
    }
}

} // verus!

verus! {

use vstd::arithmetic::div_mod::lemma_div_multiples_vanish;

/// Round-trip law: buying with `x` collateral and immediately selling
/// every received claim back releases strictly less collateral than
/// `x` — less by at least the two fee deductions and one rounding unit.
///
/// `y` and `n` are the reserves before the buy; the sale runs against
/// the post-buy reserves, as `internal_buy` and `sell` ensure them.
pub proof fn lemma_round_trip_returns_less(y: int, n: int, bps: int, x: int, o: Outcome)
    requires
        y >= 1,
        n >= 1,
        0 < bps < BPS_DENOMINATOR,
        x >= 1,
        buy_tokens_out(y, n, buy_net(x, bps), o) >= 1,
    ensures
        ({
            let net = buy_net(x, bps);
            let y1 = buy_new_yes(y, n, net, o);
            let n1 = buy_new_no(y, n, net, o);
            let t = buy_tokens_out(y, n, net, o);
            sell_collateral_out(y1, n1, t, bps, o) + fee_amount(x, bps) + fee_amount(
                sell_pairs(y1, n1, t, o),
                bps,
            ) < x
        }),
{
    let d = BPS_DENOMINATOR as int;
    let fee1 = fee_amount(x, bps);
    let net = buy_net(x, bps);
    assert(x * bps >= 0) by (nonlinear_arith)
        requires
            x >= 0,
            bps >= 0,
    ;
    assert(x * bps < d * x) by (nonlinear_arith)
        requires
            x >= 1,
            0 <= bps < d,
    ;
    lemma_multiply_divide_lt(x * bps, d, x);
    assert(1 <= net <= x);

    let k = (y + net) * (n + net);
    let y1 = buy_new_yes(y, n, net, o);
    let n1 = buy_new_no(y, n, net, o);
    let t = buy_tokens_out(y, n, net, o);
    lemma_buy_bounds(y, n, net, o);
    lemma_sell_bounds(buy_new_yes(y, n, net, o), buy_new_no(y, n, net, o), t, o);

    if o == Outcome::Yes {
        // Selling the claims back: they rejoin the YES reserve, which
        // returns exactly to its mid-trade level `y + net`.
        assert(y1 + t == y + net);
        let k2 = y1 * n1;
        assert(k2 > k);
        let q2 = k2 / (y + net);
        // The pre-trade product divides evenly, so the rounded-up swap
        // leaves at least one more unit than was minted in.
        assert(k / (y + net) == n + net) by {
            lemma_div_multiples_vanish(n + net, y + net);
            lemma_mul_is_commutative(y + net, n + net);
        }
        lemma_div_is_ordered(k, k2, y + net);
        assert(q2 >= n + net);
        let new_no = sell_new_no(y1, n1, t, o);
        assert(new_no == q2 + 1);
        let extracted = n1 - new_no;
        assert(extracted <= net - 1);
        let pairs = sell_pairs(y1, n1, t, o);
        assert(pairs <= extracted);
        let fee2 = fee_amount(pairs, bps);
        assert(fee2 >= 0) by {
            assert(pairs * bps >= 0) by (nonlinear_arith)
                requires
                    pairs >= 0,
                    bps >= 0,
            ;
            lemma_div_is_ordered(0, pairs * bps, d);
        }
        assert(sell_collateral_out(y1, n1, t, bps, o) == pairs - fee2);
        assert(pairs - fee2 + fee1 + fee2 <= net - 1 + fee1);
        assert(net - 1 + fee1 < x);
    } else {
        assert(n1 + t == n + net);
        let k2 = y1 * n1;
        assert(k2 > k);
        let q2 = k2 / (n + net);
        assert(k / (n + net) == y + net) by {
            lemma_div_multiples_vanish(y + net, n + net);
            lemma_mul_is_commutative(n + net, y + net);
        }
        lemma_div_is_ordered(k, k2, n + net);
        assert(q2 >= y + net);
        let new_yes = sell_new_yes(y1, n1, t, o);
        assert(new_yes == q2 + 1);
        let extracted = y1 - new_yes;
        assert(extracted <= net - 1);
        let pairs = sell_pairs(y1, n1, t, o);
        assert(pairs <= extracted);
        let fee2 = fee_amount(pairs, bps);
        assert(fee2 >= 0) by {
            assert(pairs * bps >= 0) by (nonlinear_arith)
                requires
                    pairs >= 0,
                    bps >= 0,
            ;
            lemma_div_is_ordered(0, pairs * bps, d);
        }
        assert(sell_collateral_out(y1, n1, t, bps, o) == pairs - fee2);
        assert(pairs - fee2 + fee1 + fee2 <= net - 1 + fee1);
        assert(net - 1 + fee1 < x);
    }
}

} // verus!

verus! {

/// Product law for sales, swap stage: adding the sold claims to their
/// reserve and extracting the opposite side by the rounded-up division
/// strictly grows the reserve product. Burning the matched pairs
/// afterwards removes collateral from one reserve, so the committed
/// product after a sale can fall below its pre-trade value; only the
/// swap itself is product-preserving.
pub proof fn lemma_sell_swap_grows_product(y: int, n: int, t: int, o: Outcome)
    requires
        y >= 1,
        n >= 1,
        t >= 1,
    ensures
        o == Outcome::Yes ==> (y + t) * sell_new_no(y, n, t, o) > y * n,
        o == Outcome::No ==> sell_new_yes(y, n, t, o) * (n + t) > y * n,
{
    lemma_sell_bounds(y, n, t, o);
}

/// When a sale releases no collateral (no pairs match), the committed
/// reserve product strictly grows; with matched pairs it can shrink,
/// since the released pairs leave one reserve.
pub proof fn lemma_sell_product_grows_without_pairs(y: int, n: int, t: int, o: Outcome)
    requires
        y >= 1,
        n >= 1,
        t >= 1,
        sell_pairs(y, n, t, o) == 0,
    ensures
        sell_new_yes(y, n, t, o) * sell_new_no(y, n, t, o) > y * n,
{
    lemma_sell_bounds(y, n, t, o);
}

} // verus!
