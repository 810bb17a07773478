//! Redemption of winning outcome claims for collateral, one-for-one,
//! after settlement. The burn-then-pay sequence never pays out if the
//! burn fails.

use vstd::prelude::*;

use crate::contract::{BurnAction, FtTransferAction, MarketContract};
use crate::events::Event;
use crate::types::{MarketError, MarketId, MarketStatus};

verus! {

impl MarketContract {
    /// Begin redeeming `amount` winning claims: validates and describes
    /// the burn of the holder's claims, mutating nothing. Permitted only
    /// once the market is settled.
    pub fn redeem_tokens(&mut self, market_id: MarketId, amount: u128, redeemer: String) -> (r:
        Result<BurnAction, MarketError>)
        requires
            old(self).inv(),
        ensures
            final(self).inv(),
            *final(self) == *old(self),
            ({
                let m0 = old(self).markets@[market_id as int];
                r is Ok <==> {
                    &&& amount > 0
                    &&& market_id < old(self).market_count
                    &&& m0.status == MarketStatus::Settled
                }
            }),
            amount == 0 ==> r == Err::<BurnAction, MarketError>(MarketError::ValidationError),
            amount > 0 && market_id >= old(self).market_count ==> r == Err::<
                BurnAction,
                MarketError,
            >(MarketError::ValidationError),
            amount > 0 && market_id < old(self).market_count && old(
                self,
            ).markets@[market_id as int].status != MarketStatus::Settled ==> r == Err::<
                BurnAction,
                MarketError,
            >(MarketError::StateError),
            r is Ok ==> ({
                let m0 = old(self).markets@[market_id as int];
                &&& r->Ok_0.token == old(self).outcome_token
                &&& r->Ok_0.market_id == market_id
                &&& Some(r->Ok_0.outcome) == m0.outcome
                &&& r->Ok_0.account_id@ == redeemer@
                &&& r->Ok_0.amount == amount
            }),
    {
        if amount == 0 {
            return Err(MarketError::ValidationError);
        }
        let n_markets = self.markets.len();
        if market_id >= self.market_count {
            return Err(MarketError::ValidationError);
        }
        proof {
            assert(market_id < n_markets);
        }
        let mid = market_id as usize;
        if !(self.markets[mid].status == MarketStatus::Settled) {
            return Err(MarketError::StateError);
        }
        let winning_outcome = match self.markets[mid].outcome {
            Some(o) => o,
            None => {
                // Unreachable: a settled market has its outcome fixed.
                proof {
                    assert(self.markets@[mid as int].wf());
                    assert(false);
                }
                return Err(MarketError::InvariantViolation);
            },
        };
        Ok(BurnAction {
            token: self.outcome_token.clone(),
            market_id,
            outcome: winning_outcome,
            account_id: redeemer,
            amount,
        })
    }

    /// Continuation of a redemption after the burn reports back: pays
    /// the holder one collateral unit per burned claim when the burn
    /// succeeded, and surfaces the collaborator failure otherwise. The
    /// ledger itself is unchanged either way; in particular no payout
    /// happens when the burn failed.
    pub fn on_redeem_burn_complete(
        &mut self,
        market_id: MarketId,
        redeemer: String,
        amount: u128,
        burn_ok: bool,
    ) -> (r: Result<(FtTransferAction, Event), MarketError>)
        requires
            old(self).inv(),
        ensures
            final(self).inv(),
            *final(self) == *old(self),
            r is Ok <==> burn_ok,
            !burn_ok ==> r == Err::<(FtTransferAction, Event), MarketError>(
                MarketError::CollaboratorFailure,
            ),
            r is Ok ==> ({
                &&& r->Ok_0.0.token == old(self).usdc_token
                &&& r->Ok_0.0.receiver_id@ == redeemer@
                &&& r->Ok_0.0.amount == amount
                &&& (r->Ok_0.1 matches Event::Redeemed {
                    market_id: e_mid,
                    user: e_user,
                    collateral_out: e_out,
                } && e_mid == market_id && e_user@ == redeemer@ && e_out == amount)
            }),
    {
        if !burn_ok {
            return Err(MarketError::CollaboratorFailure);
        }
        let user = redeemer.clone();
        Ok(
            (
                FtTransferAction {
                    token: self.usdc_token.clone(),
                    receiver_id: redeemer,
                    amount,
                },
                Event::Redeemed { market_id, user, collateral_out: amount },
            ),
        )
    }
}

} // verus!
