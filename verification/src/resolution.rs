//! The resolve → dispute → settle state machine, driven by bonded
//! assertion submissions and oracle callbacks.
//!
//! Submission optimistically commits the `Resolving` transition before
//! the bond is forwarded to the oracle; if that external call fails, the
//! rollback continuation restores the market exactly to its
//! pre-submission state. Oracle callbacks settle, dispute, or reopen
//! the market, routed through the assertion index.

use vstd::prelude::*;

use crate::contract::{AssertionEntry, MarketContract, lp_accounts_unique, lp_sum};
use crate::events::Event;
use crate::hexutil::{hex_chars, hex_encode};
use crate::prims::{bytes_eq, dec_str, le_bytes, push_bytes, push_str_bytes, push_u128_le,
    push_u64_le, u64_to_dec_string};
use crate::types::{MarketError, MarketId, MarketStatus, Outcome, ResolutionStatusView};

verus! {

use vstd::string::StringSliceAdditionalSpecFns;
use vstd::string::StringExecFns;

/// How long a submitted assertion can be disputed: two hours, in
/// nanoseconds.
pub const DEFAULT_ORACLE_LIVENESS_NS: u64 = 7_200_000_000_000;

/// The 32-byte identifier under which assertions are filed with the
/// oracle: the ASCII bytes of `ASSERT_TRUTH`, zero-padded.
pub open spec fn default_identifier_bytes() -> Seq<u8> {
    seq![65u8, 83, 83, 69, 82, 84, 95, 84, 82, 85, 84, 72] + Seq::new(20, |i: int| 0u8)
}

/// Build the oracle identifier.
pub fn default_identifier() -> (r: Vec<u8>)
    ensures
        r@ == default_identifier_bytes(),
        r@.len() == 32,
{
    let mut v: Vec<u8> = Vec::new();
    v.push(65);
    v.push(83);
    v.push(83);
    v.push(69);
    v.push(82);
    v.push(84);
    v.push(95);
    v.push(84);
    v.push(82);
    v.push(85);
    v.push(84);
    v.push(72);
    proof {
        assert(v@ =~= seq![65u8, 83, 83, 69, 82, 84, 95, 84, 82, 85, 84, 72]);
    }
    let mut j: usize = 0;
    while j < 20
        invariant
            j <= 20,
            v@ =~= seq![65u8, 83, 83, 69, 82, 84, 95, 84, 82, 85, 84, 72] + Seq::new(
                j as nat,
                |t: int| 0u8,
            ),
        decreases 20 - j,
    {
        v.push(0);
        j += 1;
    }
    proof {
        assert(v@ =~= default_identifier_bytes());
    }
    v
}

/// The text whose digest is asserted for a market and outcome:
/// `market:{id}:outcome:{yes|no}`.
pub open spec fn claim_text(market_id: int, outcome: Outcome) -> Seq<char> {
    "market:"@ + dec_str(market_id) + ":outcome:"@ + (if outcome == Outcome::Yes {
        "yes"@
    } else {
        "no"@
    })
}

/// Render the claim text for a market and outcome.
pub fn resolution_claim_text(market_id: MarketId, outcome: Outcome) -> (r: String)
    ensures
        r@ == claim_text(market_id as int, outcome),
{
    let mut s = String::new();
    s.append("market:");
    let digits = u64_to_dec_string(market_id);
    s.append(digits.as_str());
    s.append(":outcome:");
    match outcome {
        Outcome::Yes => s.append("yes"),
        Outcome::No => s.append("no"),
    }
    s
}

/// The byte string whose digest becomes the assertion id: claim digest,
/// bond, time, liveness window, payment-token identity, callback
/// recipient, identifier, and caller, concatenated in order, so that
/// assertion ids are reproducible and never collide across
/// resubmissions.
pub open spec fn assertion_preimage_bytes(
    claim: Seq<u8>,
    bond: int,
    time: int,
    liveness: int,
    currency: Seq<u8>,
    callback_recipient: Option<Seq<u8>>,
    identifier: Seq<u8>,
    caller: Seq<u8>,
) -> Seq<u8> {
    claim + le_bytes(bond, 16) + le_bytes(time, 8) + le_bytes(liveness, 8) + currency + (
    match callback_recipient {
        Some(cr) => cr,
        None => Seq::<u8>::empty(),
    }) + identifier + caller
}

/// Build the assertion-id preimage.
pub fn assertion_preimage(
    claim: &Vec<u8>,
    bond: u128,
    time: u64,
    liveness: u64,
    currency: &str,
    callback_recipient: Option<&str>,
    identifier: &Vec<u8>,
    caller: &str,
) -> (r: Vec<u8>)
    ensures
        r@ == assertion_preimage_bytes(
            claim@,
            bond as int,
            time as int,
            liveness as int,
            currency.spec_bytes(),
            match callback_recipient {
                Some(cr) => Some(cr.spec_bytes()),
                None => None,
            },
            identifier@,
            caller.spec_bytes(),
        ),
{
    let mut data: Vec<u8> = Vec::new();
    push_bytes(&mut data, claim);
    push_u128_le(&mut data, bond);
    push_u64_le(&mut data, time);
    push_u64_le(&mut data, liveness);
    push_str_bytes(&mut data, currency);
    match callback_recipient {
        Some(cr) => push_str_bytes(&mut data, cr),
        None => (),
    }
    push_bytes(&mut data, identifier);
    push_str_bytes(&mut data, caller);
    proof {
        assert(data@ =~= assertion_preimage_bytes(
            claim@,
            bond as int,
            time as int,
            liveness as int,
            currency.spec_bytes(),
            match callback_recipient {
                Some(cr) => Some(cr.spec_bytes()),
                None => None,
            },
            identifier@,
            caller.spec_bytes(),
        ));
    }
    data
}

/// Whether the index holds an entry with this assertion id.
pub open spec fn index_contains(s: Seq<AssertionEntry>, aid: Seq<u8>) -> bool {
    exists|i: int| 0 <= i < s.len() && (#[trigger] s[i]).assertion_id@ == aid
}

/// Find the index entry carrying `aid`, if any.
pub fn index_find(entries: &Vec<AssertionEntry>, aid: &Vec<u8>) -> (r: Option<usize>)
    ensures
        match r {
            Some(i) => i < entries@.len() && entries@[i as int].assertion_id@ == aid@,
            None => forall|j: int|
                0 <= j < entries@.len() ==> (#[trigger] entries@[j]).assertion_id@ != aid@,
        },
{
    let n = entries.len();
    let mut i: usize = 0;
    while i < n
        invariant
            i <= n,
            n == entries@.len(),
            forall|j: int| 0 <= j < i ==> (#[trigger] entries@[j]).assertion_id@ != aid@,
        decreases n - i,
    {
        if bytes_eq(&entries[i].assertion_id, aid) {
            return Some(i);
        }
        i += 1;
    }
    None
}

/// Removing one entry keeps every other entry findable.
pub proof fn lemma_index_remove_keeps(s: Seq<AssertionEntry>, i: int, j: int)
    requires
        0 <= i < s.len(),
        0 <= j < s.len(),
        j != i,
    ensures
        exists|k: int|
            0 <= k < s.remove(i).len() && s.remove(i)[k] == s[j],
{
    if j < i {
        assert(s.remove(i)[j] == s[j]);
    } else {
        assert(s.remove(i)[j - 1] == s[j]);
    }
}

/// What the runtime must send to the oracle after a committed
/// submission: forward the bond with the assertion terms attached, then
/// report the transfer's outcome to `on_resolution_submitted`.
pub struct SubmitResolutionReceipt {
    /// Status to restore if the bond transfer fails.
    pub previous_status: MarketStatus,
    /// The assertion id, in lowercase hex, as the oracle will echo it.
    pub assertion_id_hex: String,
    /// The dispute window, in nanoseconds.
    pub liveness_ns: u64,
}

impl MarketContract {
    /// Submit a bonded resolution for a market whose deadline has
    /// passed: records the assertion terms, indexes the assertion id,
    /// and moves the market to `Resolving` before the bond is forwarded.
    ///
    /// `assertion_id` is the 32-byte digest of the assertion preimage,
    /// computed by the host runtime over `assertion_preimage`.
    pub fn internal_submit_resolution(
        &mut self,
        market_id: MarketId,
        outcome: Outcome,
        bond_amount: u128,
        resolver: String,
        now: u64,
        assertion_id: Vec<u8>,
    ) -> (r: Result<SubmitResolutionReceipt, MarketError>)
        requires
            old(self).inv(),
        ensures
            final(self).inv(),
            r is Err ==> *final(self) == *old(self),
            ({
                let m0 = old(self).markets@[market_id as int];
                r is Ok <==> {
                    &&& market_id < old(self).market_count
                    &&& (m0.status == MarketStatus::Open || m0.status == MarketStatus::Closed)
                    &&& now >= m0.resolution_time_ns
                    &&& assertion_id@.len() == 32
                    &&& !index_contains(old(self).assertion_to_market@, assertion_id@)
                    &&& now + DEFAULT_ORACLE_LIVENESS_NS <= u64::MAX
                }
            }),
            market_id >= old(self).market_count ==> r == Err::<
                SubmitResolutionReceipt,
                MarketError,
            >(MarketError::ValidationError),
            market_id < old(self).market_count && !(old(self).markets@[market_id as int].status
                == MarketStatus::Open || old(self).markets@[market_id as int].status
                == MarketStatus::Closed) ==> r == Err::<SubmitResolutionReceipt, MarketError>(
                MarketError::StateError,
            ),
            market_id < old(self).market_count && (old(self).markets@[market_id as int].status
                == MarketStatus::Open || old(self).markets@[market_id as int].status
                == MarketStatus::Closed) && now < old(
                self,
            ).markets@[market_id as int].resolution_time_ns ==> r == Err::<
                SubmitResolutionReceipt,
                MarketError,
            >(MarketError::StateError),
            r is Ok ==> ({
                let mid = market_id as int;
                let m0 = old(self).markets@[mid];
                let m1 = final(self).markets@[mid];
                &&& final(self).markets@ == old(self).markets@.update(mid, m1)
                &&& final(self).lp_positions@ == old(self).lp_positions@
                &&& final(self).market_count == old(self).market_count
                &&& final(self).same_config(old(self))
                &&& m1.status == MarketStatus::Resolving
                &&& m1.asserted_outcome == Some(outcome)
                &&& m1.resolver is Some && m1.resolver->0@ == resolver@
                &&& m1.disputer is None
                &&& m1.assertion_submitted_at_ns == Some(now)
                &&& m1.assertion_expires_at_ns == Some((now + DEFAULT_ORACLE_LIVENESS_NS) as u64)
                &&& m1.assertion_id is Some && m1.assertion_id->0@ == assertion_id@
                &&& m1.id == m0.id
                &&& m1.question == m0.question
                &&& m1.description == m0.description
                &&& m1.creator == m0.creator
                &&& m1.resolution_time_ns == m0.resolution_time_ns
                &&& m1.outcome == m0.outcome
                &&& m1.yes_reserve == m0.yes_reserve
                &&& m1.no_reserve == m0.no_reserve
                &&& m1.total_lp_shares == m0.total_lp_shares
                &&& m1.total_collateral == m0.total_collateral
                &&& m1.fee_bps == m0.fee_bps
                &&& m1.accrued_fees == m0.accrued_fees
                &&& final(self).assertion_to_market@.len() == old(
                    self,
                ).assertion_to_market@.len() + 1
                &&& final(self).assertion_to_market@ == old(self).assertion_to_market@.push(
                    final(self).assertion_to_market@.last(),
                )
                &&& final(self).assertion_to_market@.last().assertion_id@ == assertion_id@
                &&& final(self).assertion_to_market@.last().market_id == market_id
                &&& r->Ok_0.previous_status == m0.status
                &&& r->Ok_0.assertion_id_hex@ == hex_chars(assertion_id@)
                &&& r->Ok_0.liveness_ns == DEFAULT_ORACLE_LIVENESS_NS
            }),
    {
        let n_markets = self.markets.len();
        if market_id >= self.market_count {
            return Err(MarketError::ValidationError);
        }
        proof {
            assert(market_id < n_markets);
        }
        let mid = market_id as usize;
        let status = self.markets[mid].status;
        if !(status == MarketStatus::Open || status == MarketStatus::Closed) {
            return Err(MarketError::StateError);
        }
        if now < self.markets[mid].resolution_time_ns {
            return Err(MarketError::StateError);
        }
        if assertion_id.len() != 32 {
            return Err(MarketError::ValidationError);
        }
        match index_find(&self.assertion_to_market, &assertion_id) {
            Some(_) => {
                // A pending assertion elsewhere already uses this id.
                return Err(MarketError::ValidationError);
            },
            None => (),
        }
        let expires = match now.checked_add(DEFAULT_ORACLE_LIVENESS_NS) {
            Some(v) => v,
            None => {
                return Err(MarketError::InvariantViolation);
            },
        };

        let assertion_id_hex = hex_encode(&assertion_id);
        let index_id = assertion_id.clone();
        proof {
            assert(index_id@ == assertion_id@);
        }

        let mut m = self.markets.remove(mid);
        let previous_status = m.status;
        m.status = MarketStatus::Resolving;
        m.asserted_outcome = Some(outcome);
        m.resolver = Some(resolver);
        m.disputer = None;
        m.assertion_submitted_at_ns = Some(now);
        m.assertion_expires_at_ns = Some(expires);
        m.assertion_id = Some(assertion_id);
        self.markets.insert(mid, m);
        self.assertion_to_market.push(AssertionEntry { assertion_id: index_id, market_id });

        proof {
            let m1 = self.markets@[mid as int];
            assert(self.markets@ =~= old(self).markets@.update(mid as int, m1));
            assert forall|i: int| 0 <= i < self.markets@.len() implies (
            #[trigger] self.markets@[i]).id == i && self.markets@[i].wf() by {
                assert(old(self).markets@[i].wf());
            }
            assert forall|i: int| 0 <= i < self.markets@.len() implies lp_accounts_unique(
                (#[trigger] self.lp_positions@[i])@,
            ) && lp_sum(self.lp_positions@[i]@) == self.markets@[i].total_lp_shares by {
                assert(lp_accounts_unique((old(self).lp_positions@[i])@));
                assert(lp_sum((old(self).lp_positions@[i])@) == old(
                    self,
                ).markets@[i].total_lp_shares);
            }
            let entries1 = self.assertion_to_market@;
            let entries0 = old(self).assertion_to_market@;
            assert forall|i: int| 0 <= i < entries1.len() implies {
                let e = #[trigger] entries1[i];
                &&& e.market_id < self.market_count
                &&& self.markets@[e.market_id as int].assertion_id is Some
                &&& self.markets@[e.market_id as int].assertion_id->Some_0@ == e.assertion_id@
            } by {
                if i < entries0.len() {
                    assert(entries1[i] == entries0[i]);
                    assert(entries0[i].market_id != market_id);
                }
            }
            assert forall|m_i: int|
                0 <= m_i < self.markets@.len() && (#[trigger] self.markets@[m_i]).assertion_id
                    is Some implies self.index_has(
                self.markets@[m_i].assertion_id->Some_0@,
                m_i,
            ) by {
                if m_i == mid as int {
                    assert(entries1[entries1.len() - 1].assertion_id@ == self.markets@[
                        m_i].assertion_id->Some_0@);
                } else {
                    assert(old(self).markets@[m_i].assertion_id is Some);
                    assert(old(self).index_has(
                        old(self).markets@[m_i].assertion_id->Some_0@,
                        m_i,
                    ));
                    let w = choose|k: int|
                        0 <= k < entries0.len() && (#[trigger] entries0[k]).assertion_id@ == old(
                            self,
                        ).markets@[m_i].assertion_id->Some_0@ && entries0[k].market_id == m_i;
                    assert(entries1[w].assertion_id@ == self.markets@[m_i].assertion_id->Some_0@);
                }
            }
            assert(self.inv());
        }

        Ok(SubmitResolutionReceipt {
            previous_status,
            assertion_id_hex,
            liveness_ns: DEFAULT_ORACLE_LIVENESS_NS,
        })
    }
}

} // verus!

verus! {

impl MarketContract {
    /// Continuation of a submission after the bond transfer reports
    /// back. On success the submission event is published and the ledger
    /// is untouched; on failure the `Resolving` transition is rolled
    /// back exactly: the market returns to `previous_status` with all
    /// assertion fields cleared, and the index entry is removed.
    pub fn on_resolution_submitted(
        &mut self,
        market_id: MarketId,
        outcome: Outcome,
        resolver: String,
        assertion_id: Vec<u8>,
        previous_status: MarketStatus,
        transfer_ok: bool,
    ) -> (r: Result<Option<Event>, MarketError>)
        requires
            old(self).inv(),
        ensures
            final(self).inv(),
            r is Err ==> *final(self) == *old(self),
            transfer_ok ==> *final(self) == *old(self),
            transfer_ok ==> (r matches Ok(Some(e)) && (e matches Event::ResolutionSubmitted {
                market_id: e_mid,
                outcome: e_outcome,
                resolver: e_resolver,
                assertion_id: e_aid,
            } && e_mid == market_id && e_outcome == outcome && e_resolver@ == resolver@ && e_aid@
                == hex_chars(assertion_id@))),
            !transfer_ok ==> ({
                let m0 = old(self).markets@[market_id as int];
                r is Ok <==> {
                    &&& (previous_status == MarketStatus::Open || previous_status
                        == MarketStatus::Closed)
                    &&& market_id < old(self).market_count
                    &&& m0.assertion_id is Some
                    &&& m0.assertion_id->0@ == assertion_id@
                }
            }),
            !transfer_ok && r is Ok ==> ({
                let mid = market_id as int;
                let m0 = old(self).markets@[mid];
                let m1 = final(self).markets@[mid];
                &&& r->Ok_0 is None
                &&& final(self).markets@ == old(self).markets@.update(mid, m1)
                &&& final(self).lp_positions@ == old(self).lp_positions@
                &&& final(self).market_count == old(self).market_count
                &&& final(self).same_config(old(self))
                &&& m1.status == previous_status
                &&& m1.no_assertion()
                &&& m1.id == m0.id
                &&& m1.question == m0.question
                &&& m1.description == m0.description
                &&& m1.creator == m0.creator
                &&& m1.resolution_time_ns == m0.resolution_time_ns
                &&& m1.outcome == m0.outcome
                &&& m1.yes_reserve == m0.yes_reserve
                &&& m1.no_reserve == m0.no_reserve
                &&& m1.total_lp_shares == m0.total_lp_shares
                &&& m1.total_collateral == m0.total_collateral
                &&& m1.fee_bps == m0.fee_bps
                &&& m1.accrued_fees == m0.accrued_fees
                &&& exists|i: int|
                    #![trigger old(self).assertion_to_market@.remove(i)]
                    0 <= i < old(self).assertion_to_market@.len()
                        && old(self).assertion_to_market@[i].assertion_id@ == assertion_id@
                        && final(self).assertion_to_market@
                            == old(self).assertion_to_market@.remove(i)
            }),
    {
        if transfer_ok {
            let assertion_id_hex = hex_encode(&assertion_id);
            return Ok(
                Some(
                    Event::ResolutionSubmitted {
                        market_id,
                        outcome,
                        resolver,
                        assertion_id: assertion_id_hex,
                    },
                ),
            );
        }

        // The bond transfer failed: undo the committed transition.
        if !(previous_status == MarketStatus::Open || previous_status == MarketStatus::Closed) {
            return Err(MarketError::ValidationError);
        }
        let n_markets = self.markets.len();
        if market_id >= self.market_count {
            return Err(MarketError::ValidationError);
        }
        proof {
            assert(market_id < n_markets);
        }
        let mid = market_id as usize;
        let matches_market: bool = match &self.markets[mid].assertion_id {
            Some(aid) => bytes_eq(aid, &assertion_id),
            None => false,
        };
        if !matches_market {
            return Err(MarketError::StateError);
        }

        let idx = match index_find(&self.assertion_to_market, &assertion_id) {
            Some(i) => i,
            None => {
                // Unreachable: the invariant indexes every active assertion.
                proof {
                    assert(old(self).index_has(
                        old(self).markets@[mid as int].assertion_id->Some_0@,
                        mid as int,
                    ));
                    assert(false);
                }
                return Err(MarketError::StateError);
            },
        };
        self.assertion_to_market.remove(idx);

        let mut m = self.markets.remove(mid);
        m.status = previous_status;
        m.assertion_id = None;
        m.asserted_outcome = None;
        m.resolver = None;
        m.disputer = None;
        m.assertion_submitted_at_ns = None;
        m.assertion_expires_at_ns = None;
        self.markets.insert(mid, m);

        proof {
            let m1 = self.markets@[mid as int];
            let entries0 = old(self).assertion_to_market@;
            let entries1 = self.assertion_to_market@;
            assert(self.markets@ =~= old(self).markets@.update(mid as int, m1));
            assert forall|i: int| 0 <= i < self.markets@.len() implies (
            #[trigger] self.markets@[i]).id == i && self.markets@[i].wf() by {
                assert(old(self).markets@[i].wf());
            }
            assert forall|i: int| 0 <= i < self.markets@.len() implies lp_accounts_unique(
                (#[trigger] self.lp_positions@[i])@,
            ) && lp_sum(self.lp_positions@[i]@) == self.markets@[i].total_lp_shares by {
                assert(lp_accounts_unique((old(self).lp_positions@[i])@));
                assert(lp_sum((old(self).lp_positions@[i])@) == old(
                    self,
                ).markets@[i].total_lp_shares);
            }
            assert forall|i: int| 0 <= i < entries1.len() implies {
                let e = #[trigger] entries1[i];
                &&& e.market_id < self.market_count
                &&& self.markets@[e.market_id as int].assertion_id is Some
                &&& self.markets@[e.market_id as int].assertion_id->Some_0@ == e.assertion_id@
            } by {
                let e = entries1[i];
                if i < idx {
                    assert(e == entries0[i]);
                } else {
                    assert(e == entries0[i + 1]);
                }
                assert(e.market_id != market_id);
            }
            assert forall|m_i: int|
                0 <= m_i < self.markets@.len() && (#[trigger] self.markets@[m_i]).assertion_id
                    is Some implies self.index_has(
                self.markets@[m_i].assertion_id->Some_0@,
                m_i,
            ) by {
                assert(m_i != mid as int);
                assert(old(self).markets@[m_i].assertion_id is Some);
                assert(old(self).index_has(old(self).markets@[m_i].assertion_id->Some_0@, m_i));
                let w = choose|k: int|
                    0 <= k < entries0.len() && (#[trigger] entries0[k]).assertion_id@ == old(
                        self,
                    ).markets@[m_i].assertion_id->Some_0@ && entries0[k].market_id == m_i;
                assert(entries0[w].market_id != market_id);
                assert(w != idx);
                lemma_index_remove_keeps(entries0, idx as int, w);
            }
            assert(self.inv());
        }
        Ok(None)
    }

    /// Oracle callback settling an assertion. Truthful: the market
    /// settles with the asserted outcome. Not truthful: the market
    /// returns to `Closed` with empty assertion fields, eligible for
    /// re-submission by anyone. Either way the assertion fields clear
    /// and the index entry is removed. Only the configured oracle may
    /// call.
    pub fn assertion_resolved_callback(
        &mut self,
        assertion_id: String,
        asserted_truthfully: bool,
        caller: &String,
    ) -> (r: Result<Option<Event>, MarketError>)
        requires
            old(self).inv(),
        ensures
            final(self).inv(),
            r is Err ==> *final(self) == *old(self),
            caller@ != old(self).oracle@ ==> r == Err::<Option<Event>, MarketError>(
                MarketError::AuthorizationError,
            ),
            ({
                let bs = vstd::utf8::encode_utf8(assertion_id@);
                let aid = crate::hexutil::hex_decoded(bs);
                &&& (r is Ok <==> caller@ == old(self).oracle@ && crate::hexutil::valid_hex_bytes(
                    bs,
                ) && aid.len() == 32 && index_contains(old(self).assertion_to_market@, aid))
                &&& (r is Ok ==> {
                    let i = choose|i: int|
                        0 <= i < old(self).assertion_to_market@.len() && (#[trigger] old(
                            self,
                        ).assertion_to_market@[i]).assertion_id@ == aid;
                    let mid = old(self).assertion_to_market@[i].market_id as int;
                    let m0 = old(self).markets@[mid];
                    let m1 = final(self).markets@[mid];
                    &&& final(self).assertion_to_market@ == old(self).assertion_to_market@.remove(
                        i,
                    )
                    &&& final(self).markets@ == old(self).markets@.update(mid, m1)
                    &&& final(self).lp_positions@ == old(self).lp_positions@
                    &&& final(self).market_count == old(self).market_count
                    &&& final(self).same_config(old(self))
                    &&& m1.no_assertion()
                    &&& (asserted_truthfully ==> m1.status == MarketStatus::Settled && m1.outcome
                        == m0.asserted_outcome)
                    &&& (!asserted_truthfully ==> m1.status == MarketStatus::Closed && m1.outcome
                        is None)
                    &&& m1.id == m0.id
                    &&& m1.question == m0.question
                    &&& m1.description == m0.description
                    &&& m1.creator == m0.creator
                    &&& m1.resolution_time_ns == m0.resolution_time_ns
                    &&& m1.yes_reserve == m0.yes_reserve
                    &&& m1.no_reserve == m0.no_reserve
                    &&& m1.total_lp_shares == m0.total_lp_shares
                    &&& m1.total_collateral == m0.total_collateral
                    &&& m1.fee_bps == m0.fee_bps
                    &&& m1.accrued_fees == m0.accrued_fees
                    &&& (asserted_truthfully ==> (r->Ok_0 matches Some(e) && (
                    e matches Event::MarketSettled { market_id: e_mid, outcome: e_outcome }
                        && e_mid == old(self).assertion_to_market@[i].market_id && Some(e_outcome)
                        == m0.asserted_outcome)))
                    &&& (!asserted_truthfully ==> r->Ok_0 is None)
                })
            }),
    {
        if !(*caller == self.oracle) {
            return Err(MarketError::AuthorizationError);
        }
        let decoded = match crate::hexutil::hex_decode(assertion_id.as_str()) {
            Some(v) => v,
            None => {
                return Err(MarketError::ValidationError);
            },
        };
        if decoded.len() != 32 {
            proof {
                if index_contains(self.assertion_to_market@, decoded@) {
                    let w = choose|w: int|
                        0 <= w < self.assertion_to_market@.len() && (
                        #[trigger] self.assertion_to_market@[w]).assertion_id@ == decoded@;
                    assert(self.markets@[self.assertion_to_market@[w].market_id as int].wf());
                }
            }
            return Err(MarketError::ValidationError);
        }
        let idx = match index_find(&self.assertion_to_market, &decoded) {
            Some(i) => i,
            None => {
                return Err(MarketError::ValidationError);
            },
        };
        let n_markets = self.markets.len();
        let market_id = self.assertion_to_market[idx].market_id;
        proof {
            assert(market_id < n_markets);
            let aid = decoded@;
            let w = choose|w: int|
                0 <= w < self.assertion_to_market@.len() && (
                #[trigger] self.assertion_to_market@[w]).assertion_id@ == aid;
            assert(w == idx as int);
        }
        let mid = market_id as usize;
        self.assertion_to_market.remove(idx);

        let mut m = self.markets.remove(mid);
        let event: Option<Event>;
        if asserted_truthfully {
            // The asserter was correct: settle with the asserted outcome.
            m.outcome = m.asserted_outcome;
            m.status = MarketStatus::Settled;
            let e_outcome = match m.asserted_outcome {
                Some(o) => o,
                None => {
                    // Unreachable: an indexed assertion is fully populated.
                    proof {
                        assert(old(self).markets@[mid as int].wf());
                        assert(false);
                    }
                    Outcome::Yes
                },
            };
            event = Some(Event::MarketSettled { market_id, outcome: e_outcome });
        } else {
            // The disputer prevailed: reopen for re-resolution.
            m.status = MarketStatus::Closed;
            event = None;
        }
        m.assertion_id = None;
        m.asserted_outcome = None;
        m.resolver = None;
        m.disputer = None;
        m.assertion_submitted_at_ns = None;
        m.assertion_expires_at_ns = None;
        self.markets.insert(mid, m);

        proof {
            let m1 = self.markets@[mid as int];
            let entries0 = old(self).assertion_to_market@;
            let entries1 = self.assertion_to_market@;
            assert(self.markets@ =~= old(self).markets@.update(mid as int, m1));
            assert forall|i: int| 0 <= i < self.markets@.len() implies (
            #[trigger] self.markets@[i]).id == i && self.markets@[i].wf() by {
                assert(old(self).markets@[i].wf());
            }
            assert forall|i: int| 0 <= i < self.markets@.len() implies lp_accounts_unique(
                (#[trigger] self.lp_positions@[i])@,
            ) && lp_sum(self.lp_positions@[i]@) == self.markets@[i].total_lp_shares by {
                assert(lp_accounts_unique((old(self).lp_positions@[i])@));
                assert(lp_sum((old(self).lp_positions@[i])@) == old(
                    self,
                ).markets@[i].total_lp_shares);
            }
            assert forall|i: int| 0 <= i < entries1.len() implies {
                let e = #[trigger] entries1[i];
                &&& e.market_id < self.market_count
                &&& self.markets@[e.market_id as int].assertion_id is Some
                &&& self.markets@[e.market_id as int].assertion_id->Some_0@ == e.assertion_id@
            } by {
                let e = entries1[i];
                if i < idx {
                    assert(e == entries0[i]);
                } else {
                    assert(e == entries0[i + 1]);
                }
                assert(e.market_id != market_id);
            }
            assert forall|m_i: int|
                0 <= m_i < self.markets@.len() && (#[trigger] self.markets@[m_i]).assertion_id
                    is Some implies self.index_has(
                self.markets@[m_i].assertion_id->Some_0@,
                m_i,
            ) by {
                assert(m_i != mid as int);
                assert(old(self).markets@[m_i].assertion_id is Some);
                assert(old(self).index_has(old(self).markets@[m_i].assertion_id->Some_0@, m_i));
                let w = choose|k: int|
                    0 <= k < entries0.len() && (#[trigger] entries0[k]).assertion_id@ == old(
                        self,
                    ).markets@[m_i].assertion_id->Some_0@ && entries0[k].market_id == m_i;
                assert(entries0[w].market_id != market_id);
                assert(w != idx);
                lemma_index_remove_keeps(entries0, idx as int, w);
            }
            assert(self.inv());
        }
        Ok(event)
    }

    /// Oracle callback recording a dispute: the market moves to
    /// `Disputed` with its assertion fields intact (the dispute is
    /// recorded, not yet resolved). Only the configured oracle may call.
    pub fn assertion_disputed_callback(&mut self, assertion_id: String, caller: &String) -> (r:
        Result<Event, MarketError>)
        requires
            old(self).inv(),
        ensures
            final(self).inv(),
            r is Err ==> *final(self) == *old(self),
            caller@ != old(self).oracle@ ==> r == Err::<Event, MarketError>(
                MarketError::AuthorizationError,
            ),
            ({
                let bs = vstd::utf8::encode_utf8(assertion_id@);
                let aid = crate::hexutil::hex_decoded(bs);
                &&& (r is Ok <==> caller@ == old(self).oracle@ && crate::hexutil::valid_hex_bytes(
                    bs,
                ) && aid.len() == 32 && index_contains(old(self).assertion_to_market@, aid))
                &&& (r is Ok ==> {
                    let i = choose|i: int|
                        0 <= i < old(self).assertion_to_market@.len() && (#[trigger] old(
                            self,
                        ).assertion_to_market@[i]).assertion_id@ == aid;
                    let mid = old(self).assertion_to_market@[i].market_id as int;
                    let m0 = old(self).markets@[mid];
                    let m1 = final(self).markets@[mid];
                    &&& final(self).assertion_to_market@ == old(self).assertion_to_market@
                    &&& final(self).markets@ == old(self).markets@.update(mid, m1)
                    &&& final(self).lp_positions@ == old(self).lp_positions@
                    &&& final(self).market_count == old(self).market_count
                    &&& final(self).same_config(old(self))
                    &&& m1.status == MarketStatus::Disputed
                    &&& m1.disputer is None
                    &&& m1.assertion_id == m0.assertion_id
                    &&& m1.asserted_outcome == m0.asserted_outcome
                    &&& m1.resolver == m0.resolver
                    &&& m1.assertion_submitted_at_ns == m0.assertion_submitted_at_ns
                    &&& m1.assertion_expires_at_ns == m0.assertion_expires_at_ns
                    &&& m1.id == m0.id
                    &&& m1.question == m0.question
                    &&& m1.outcome == m0.outcome
                    &&& m1.yes_reserve == m0.yes_reserve
                    &&& m1.no_reserve == m0.no_reserve
                    &&& m1.total_lp_shares == m0.total_lp_shares
                    &&& m1.total_collateral == m0.total_collateral
                    &&& m1.fee_bps == m0.fee_bps
                    &&& m1.accrued_fees == m0.accrued_fees
                    &&& r->Ok_0 matches Event::MarketDisputed { market_id: e_mid, assertion_id: e_aid }
                        && e_mid == old(self).assertion_to_market@[i].market_id && e_aid@
                        == assertion_id@
                })
            }),
    {
        if !(*caller == self.oracle) {
            return Err(MarketError::AuthorizationError);
        }
        let decoded = match crate::hexutil::hex_decode(assertion_id.as_str()) {
            Some(v) => v,
            None => {
                return Err(MarketError::ValidationError);
            },
        };
        if decoded.len() != 32 {
            proof {
                if index_contains(self.assertion_to_market@, decoded@) {
                    let w = choose|w: int|
                        0 <= w < self.assertion_to_market@.len() && (
                        #[trigger] self.assertion_to_market@[w]).assertion_id@ == decoded@;
                    assert(self.markets@[self.assertion_to_market@[w].market_id as int].wf());
                }
            }
            return Err(MarketError::ValidationError);
        }
        let idx = match index_find(&self.assertion_to_market, &decoded) {
            Some(i) => i,
            None => {
                return Err(MarketError::ValidationError);
            },
        };
        let n_markets = self.markets.len();
        let market_id = self.assertion_to_market[idx].market_id;
        proof {
            assert(market_id < n_markets);
            let aid = decoded@;
            let w = choose|w: int|
                0 <= w < self.assertion_to_market@.len() && (
                #[trigger] self.assertion_to_market@[w]).assertion_id@ == aid;
            assert(w == idx as int);
        }
        let mid = market_id as usize;
        let mut m = self.markets.remove(mid);
        m.status = MarketStatus::Disputed;
        m.disputer = None;
        self.markets.insert(mid, m);

        proof {
            let m1 = self.markets@[mid as int];
            assert(self.markets@ =~= old(self).markets@.update(mid as int, m1));
            assert forall|i: int| 0 <= i < self.markets@.len() implies (
            #[trigger] self.markets@[i]).id == i && self.markets@[i].wf() by {
                assert(old(self).markets@[i].wf());
            }
            assert forall|i: int| 0 <= i < self.markets@.len() implies lp_accounts_unique(
                (#[trigger] self.lp_positions@[i])@,
            ) && lp_sum(self.lp_positions@[i]@) == self.markets@[i].total_lp_shares by {
                assert(lp_accounts_unique((old(self).lp_positions@[i])@));
                assert(lp_sum((old(self).lp_positions@[i])@) == old(
                    self,
                ).markets@[i].total_lp_shares);
            }
            let entries1 = self.assertion_to_market@;
            assert forall|i: int| 0 <= i < entries1.len() implies {
                let e = #[trigger] entries1[i];
                &&& e.market_id < self.market_count
                &&& self.markets@[e.market_id as int].assertion_id is Some
                &&& self.markets@[e.market_id as int].assertion_id->Some_0@ == e.assertion_id@
            } by {
                assert(old(self).markets@[entries1[i].market_id as int].assertion_id is Some);
            }
            assert(self.inv());
        }
        Ok(Event::MarketDisputed { market_id, assertion_id })
    }

    /// Resolution-lifecycle snapshot of a market at host time `now`.
    pub fn get_resolution_status(&self, market_id: MarketId, now: u64) -> (r: Result<
        ResolutionStatusView,
        MarketError,
    >)
        requires
            self.inv(),
        ensures
            r is Ok <==> market_id < self.market_count,
            r is Err ==> r->Err_0 == MarketError::ValidationError,
            r is Ok ==> ({
                let m = self.markets@[market_id as int];
                let v = r->Ok_0;
                &&& v.market_id == market_id
                &&& v.status == m.status
                &&& (v.active_assertion_id is Some <==> m.assertion_id is Some)
                &&& (m.assertion_id is Some ==> v.active_assertion_id->0@ == hex_chars(
                    m.assertion_id->0@,
                ))
                &&& v.asserted_outcome == m.asserted_outcome
                &&& (v.resolver is Some <==> m.resolver is Some)
                &&& (m.resolver is Some ==> v.resolver->0@ == m.resolver->0@)
                &&& (v.disputer is Some <==> m.disputer is Some)
                &&& (m.disputer is Some ==> v.disputer->0@ == m.disputer->0@)
                &&& v.assertion_submitted_at_ns == m.assertion_submitted_at_ns
                &&& v.assertion_expires_at_ns == m.assertion_expires_at_ns
                &&& v.now_ns == now
                &&& v.is_resolvable_now == (now >= m.resolution_time_ns && (m.status
                    == MarketStatus::Open || m.status == MarketStatus::Closed))
                &&& v.is_disputable_now == (m.status == MarketStatus::Resolving
                    && m.assertion_expires_at_ns is Some && now < m.assertion_expires_at_ns->0)
            }),
    {
        let n_markets = self.markets.len();
        if market_id >= self.market_count {
            return Err(MarketError::ValidationError);
        }
        proof {
            assert(market_id < n_markets);
        }
        let mid = market_id as usize;
        let m = &self.markets[mid];
        let status = m.status;
        let is_resolvable_now = now >= m.resolution_time_ns && (status == MarketStatus::Open
            || status == MarketStatus::Closed);
        let is_disputable_now = status == MarketStatus::Resolving && (match m.assertion_expires_at_ns {
            Some(expiry) => now < expiry,
            None => false,
        });
        let active_assertion_id = match &m.assertion_id {
            Some(aid) => Some(hex_encode(aid)),
            None => None,
        };
        let resolver = match &m.resolver {
            Some(x) => Some(x.clone()),
            None => None,
        };
        let disputer = match &m.disputer {
            Some(x) => Some(x.clone()),
            None => None,
        };
        Ok(ResolutionStatusView {
            market_id,
            status,
            active_assertion_id,
            asserted_outcome: m.asserted_outcome,
            resolver,
            disputer,
            assertion_submitted_at_ns: m.assertion_submitted_at_ns,
            assertion_expires_at_ns: m.assertion_expires_at_ns,
            now_ns: now,
            is_disputable_now,
            is_resolvable_now,
        })
    }
}

} // verus!

verus! {

/// Rollback law: when a resolution submission commits (taking the
/// ledger from `pre` to `mid_st`, as `internal_submit_resolution`
/// ensures) and the bond transfer then fails (taking `mid_st` to
/// `post`, as `on_resolution_submitted` ensures), the ledger is
/// restored exactly: markets, index, positions and count all equal
/// their pre-submission values.
pub proof fn lemma_failed_submission_rolls_back(
    pre: MarketContract,
    mid_st: MarketContract,
    post: MarketContract,
    market_id: MarketId,
    assertion_id: Seq<u8>,
    previous_status: MarketStatus,
)
    requires
        pre.inv(),
        market_id < pre.market_count,
        pre.markets@[market_id as int].status == previous_status,
        previous_status == MarketStatus::Open || previous_status == MarketStatus::Closed,
        !index_contains(pre.assertion_to_market@, assertion_id),
        // What the submission committed.
        mid_st.markets@ == pre.markets@.update(
            market_id as int,
            mid_st.markets@[market_id as int],
        ),
        mid_st.lp_positions@ == pre.lp_positions@,
        mid_st.market_count == pre.market_count,
        mid_st.assertion_to_market@ == pre.assertion_to_market@.push(
            mid_st.assertion_to_market@.last(),
        ),
        mid_st.assertion_to_market@.len() == pre.assertion_to_market@.len() + 1,
        mid_st.assertion_to_market@.last().assertion_id@ == assertion_id,
        ({
            let m0 = pre.markets@[market_id as int];
            let m1 = mid_st.markets@[market_id as int];
            &&& m1.id == m0.id
            &&& m1.question == m0.question
            &&& m1.description == m0.description
            &&& m1.creator == m0.creator
            &&& m1.resolution_time_ns == m0.resolution_time_ns
            &&& m1.outcome == m0.outcome
            &&& m1.yes_reserve == m0.yes_reserve
            &&& m1.no_reserve == m0.no_reserve
            &&& m1.total_lp_shares == m0.total_lp_shares
            &&& m1.total_collateral == m0.total_collateral
            &&& m1.fee_bps == m0.fee_bps
            &&& m1.accrued_fees == m0.accrued_fees
        }),
        // What the failed transfer's rollback did.
        post.markets@ == mid_st.markets@.update(
            market_id as int,
            post.markets@[market_id as int],
        ),
        post.lp_positions@ == mid_st.lp_positions@,
        post.market_count == mid_st.market_count,
        ({
            let m1 = mid_st.markets@[market_id as int];
            let m2 = post.markets@[market_id as int];
            &&& m2.status == previous_status
            &&& m2.no_assertion()
            &&& m2.id == m1.id
            &&& m2.question == m1.question
            &&& m2.description == m1.description
            &&& m2.creator == m1.creator
            &&& m2.resolution_time_ns == m1.resolution_time_ns
            &&& m2.outcome == m1.outcome
            &&& m2.yes_reserve == m1.yes_reserve
            &&& m2.no_reserve == m1.no_reserve
            &&& m2.total_lp_shares == m1.total_lp_shares
            &&& m2.total_collateral == m1.total_collateral
            &&& m2.fee_bps == m1.fee_bps
            &&& m2.accrued_fees == m1.accrued_fees
        }),
        exists|i: int|
            #![trigger mid_st.assertion_to_market@.remove(i)]
            0 <= i < mid_st.assertion_to_market@.len()
                && mid_st.assertion_to_market@[i].assertion_id@ == assertion_id
                && post.assertion_to_market@ == mid_st.assertion_to_market@.remove(i),
    ensures
        post.markets@ == pre.markets@,
        post.assertion_to_market@ == pre.assertion_to_market@,
        post.lp_positions@ == pre.lp_positions@,
        post.market_count == pre.market_count,
{
    let mid = market_id as int;
    let m0 = pre.markets@[mid];
    let m2 = post.markets@[mid];
    // The pre-submission market carried no assertion, so clearing the
    // fields restores it exactly.
    assert(m0.wf());
    assert(m0.no_assertion());
    assert(m2 == m0);
    assert(post.markets@ =~= pre.markets@);

    // The removed index entry is the one the submission pushed: no
    // earlier entry carries this assertion id.
    let entries0 = pre.assertion_to_market@;
    let entries1 = mid_st.assertion_to_market@;
    let i = choose|i: int|
        #![trigger mid_st.assertion_to_market@.remove(i)]
        0 <= i < entries1.len() && entries1[i].assertion_id@ == assertion_id
            && post.assertion_to_market@ == entries1.remove(i);
    if i < entries0.len() {
        assert(entries1[i] == entries0[i]);
        assert(index_contains(entries0, assertion_id));
        assert(false);
    }
    assert(i == entries0.len());
    assert(entries1.remove(i) =~= entries0);
}

} // verus!
