//! The outcome-claim ledger: mint/burn/balance bookkeeping for YES/NO
//! claims, keyed by market, side and account, authorized only to the
//! market ledger's identity.

use vstd::prelude::*;

use crate::prims::{bytes_eq, le_bytes, push_str_bytes, push_u64_le};
use crate::types::{MarketError, MarketId, Outcome};

verus! {

use vstd::string::StringSliceAdditionalSpecFns;

/// One storage cell: an amount under a byte key.
pub struct TokenCell {
    pub key: Vec<u8>,
    pub amount: u128,
}

/// Each key appears at most once.
pub open spec fn kv_unique(s: Seq<TokenCell>) -> bool {
    forall|i: int, j: int| 0 <= i < j < s.len() ==> s[i].key@ != s[j].key@
}

/// The amount stored under `key`, zero when absent.
pub open spec fn kv_get(s: Seq<TokenCell>, key: Seq<u8>) -> int
    decreases s.len(),
{
    if s.len() == 0 {
        0
    } else if s.last().key@ == key {
        s.last().amount as int
    } else {
        kv_get(s.drop_last(), key)
    }
}

pub proof fn lemma_kv_get_at(s: Seq<TokenCell>, i: int)
    requires
        kv_unique(s),
        0 <= i < s.len(),
    ensures
        kv_get(s, s[i].key@) == s[i].amount,
    decreases s.len(),
{
    if i < s.len() - 1 {
        assert(s.drop_last()[i] == s[i]);
        lemma_kv_get_at(s.drop_last(), i);
    }
}

pub proof fn lemma_kv_get_absent(s: Seq<TokenCell>, key: Seq<u8>)
    requires
        forall|j: int| 0 <= j < s.len() ==> s[j].key@ != key,
    ensures
        kv_get(s, key) == 0,
    decreases s.len(),
{
    if s.len() > 0 {
        lemma_kv_get_absent(s.drop_last(), key);
    }
}

pub proof fn lemma_kv_get_push(s: Seq<TokenCell>, e: TokenCell, key: Seq<u8>)
    ensures
        kv_get(s.push(e), key) == if e.key@ == key {
            e.amount as int
        } else {
            kv_get(s, key)
        },
{
    assert(s.push(e).drop_last() =~= s);
}

pub proof fn lemma_kv_get_update(s: Seq<TokenCell>, i: int, e: TokenCell, key: Seq<u8>)
    requires
        0 <= i < s.len(),
        s[i].key@ == e.key@,
        kv_unique(s),
    ensures
        kv_get(s.update(i, e), key) == if e.key@ == key {
            e.amount as int
        } else {
            kv_get(s, key)
        },
    decreases s.len(),
{
    let t = s.update(i, e);
    if i == s.len() - 1 {
        assert(t.drop_last() =~= s.drop_last());
        if e.key@ != key && s.last().key@ == key {
            assert(forall|j: int| 0 <= j < s.len() - 1 ==> s.drop_last()[j] == s[j]);
            lemma_kv_get_absent(s.drop_last(), key);
        }
    } else {
        assert(t.drop_last() =~= s.drop_last().update(i, e));
        assert(s.drop_last()[i] == s[i]);
        lemma_kv_get_update(s.drop_last(), i, e, key);
        if s.last().key@ == key {
            assert(s[i].key@ != key);
        }
    }
}

/// A stored amount is a machine integer: non-negative and bounded.
pub proof fn lemma_kv_get_bounds(s: Seq<TokenCell>, key: Seq<u8>)
    ensures
        0 <= kv_get(s, key) <= u128::MAX,
    decreases s.len(),
{
    if s.len() > 0 {
        lemma_kv_get_bounds(s.drop_last(), key);
    }
}

/// Find the cell under `key`, if any.
pub fn kv_find(entries: &Vec<TokenCell>, key: &Vec<u8>) -> (r: Option<usize>)
    ensures
        match r {
            Some(i) => i < entries@.len() && entries@[i as int].key@ == key@,
            None => forall|j: int| 0 <= j < entries@.len() ==> (#[trigger] entries@[j]).key@ != key@,
        },
{
    let n = entries.len();
    let mut i: usize = 0;
    while i < n
        invariant
            i <= n,
            n == entries@.len(),
            forall|j: int| 0 <= j < i ==> (#[trigger] entries@[j]).key@ != key@,
        decreases n - i,
    {
        if bytes_eq(&entries[i].key, key) {
            return Some(i);
        }
        i += 1;
    }
    None
}

/// Store `amount` under `key`, overwriting or creating the cell.
pub fn kv_put(entries: &mut Vec<TokenCell>, key: Vec<u8>, amount: u128)
    requires
        kv_unique(old(entries)@),
    ensures
        kv_unique(final(entries)@),
        kv_get(final(entries)@, key@) == amount,
        forall|k: Seq<u8>| k != key@ ==> kv_get(final(entries)@, k) == kv_get(old(entries)@, k),
{
    let ghost entries0 = entries@;
    match kv_find(entries, &key) {
        Some(i) => {
            let mut e = entries.remove(i);
            e.amount = amount;
            entries.insert(i, e);
            proof {
                assert(entries@ =~= entries0.update(i as int, entries@[i as int]));
                lemma_kv_get_update(entries0, i as int, entries@[i as int], key@);
                assert forall|k: Seq<u8>| k != key@ implies kv_get(entries@, k) == kv_get(
                    entries0,
                    k,
                ) by {
                    lemma_kv_get_update(entries0, i as int, entries@[i as int], k);
                }
            }
        },
        None => {
            entries.push(TokenCell { key, amount });
            proof {
                lemma_kv_get_push(entries0, entries@.last(), entries@.last().key@);
                assert forall|k: Seq<u8>| k != entries@.last().key@ implies kv_get(entries@, k)
                    == kv_get(entries0, k) by {
                    lemma_kv_get_push(entries0, entries@.last(), k);
                }
            }
        },
    }
}

/// Read the amount stored under `key`.
pub fn kv_read(entries: &Vec<TokenCell>, key: &Vec<u8>) -> (r: u128)
    requires
        kv_unique(entries@),
    ensures
        r == kv_get(entries@, key@),
{
    match kv_find(entries, key) {
        Some(i) => {
            proof {
                lemma_kv_get_at(entries@, i as int);
            }
            entries[i].amount
        },
        None => {
            proof {
                lemma_kv_get_absent(entries@, key@);
            }
            0
        },
    }
}

/// The storage key of one account's balance in one market and side.
pub open spec fn balance_key_bytes(market_id: int, outcome: Outcome, account: Seq<u8>) -> Seq<u8> {
    le_bytes(market_id, 8) + seq![(if outcome == Outcome::Yes { 1u8 } else { 0u8 })] + account
}

/// The storage key of one market-and-side's total supply.
pub open spec fn supply_key_bytes(market_id: int, outcome: Outcome) -> Seq<u8> {
    le_bytes(market_id, 8) + seq![(if outcome == Outcome::Yes { 1u8 } else { 0u8 })]
}

/// Build a storage key for a specific user balance.
pub fn balance_key(market_id: MarketId, outcome: &Outcome, account_id: &str) -> (r: Vec<u8>)
    ensures
        r@ == balance_key_bytes(market_id as int, *outcome, account_id.spec_bytes()),
{
    let mut key: Vec<u8> = Vec::new();
    push_u64_le(&mut key, market_id);
    key.push(if outcome.as_bool() { 1 } else { 0 });
    push_str_bytes(&mut key, account_id);
    proof {
        assert(key@ =~= balance_key_bytes(market_id as int, *outcome, account_id.spec_bytes()));
    }
    key
}

/// Build a storage key for total supply.
pub fn supply_key(market_id: MarketId, outcome: &Outcome) -> (r: Vec<u8>)
    ensures
        r@ == supply_key_bytes(market_id as int, *outcome),
{
    let mut key: Vec<u8> = Vec::new();
    push_u64_le(&mut key, market_id);
    key.push(if outcome.as_bool() { 1 } else { 0 });
    proof {
        assert(key@ =~= supply_key_bytes(market_id as int, *outcome));
    }
    key
}

/// The outcome-claim ledger.
pub struct OutcomeToken {
    /// The market ledger authorized to mint and burn.
    pub market_contract: String,

    /// Balances: (market, side, account) key to amount.
    pub balances: Vec<TokenCell>,

    /// Total supply: (market, side) key to amount.
    pub supply: Vec<TokenCell>,
}

impl OutcomeToken {
    /// Storage keys stay unique.
    pub open spec fn inv(&self) -> bool {
        &&& kv_unique(self.balances@)
        &&& kv_unique(self.supply@)
    }

    /// A fresh claim ledger bound to its market ledger.
    pub fn new(market_contract: String) -> (c: Self)
        ensures
            c.inv(),
            c.market_contract@ == market_contract@,
            c.balances@.len() == 0,
            c.supply@.len() == 0,
    {
        OutcomeToken { market_contract, balances: Vec::new(), supply: Vec::new() }
    }

    /// Mint `amount` claims to an account; only the market ledger may.
    /// A zero amount is accepted and changes nothing.
    pub fn mint(
        &mut self,
        market_id: MarketId,
        outcome: Outcome,
        account_id: String,
        amount: u128,
        caller: &String,
    ) -> (r: Result<(), MarketError>)
        requires
            old(self).inv(),
        ensures
            final(self).inv(),
            r is Err ==> *final(self) == *old(self),
            final(self).market_contract@ == old(self).market_contract@,
            caller@ != old(self).market_contract@ <==> r == Err::<(), MarketError>(
                MarketError::AuthorizationError,
            ),
            ({
                let bkey = balance_key_bytes(
                    market_id as int,
                    outcome,
                    vstd::utf8::encode_utf8(account_id@),
                );
                let skey = supply_key_bytes(market_id as int, outcome);
                &&& (r is Ok <==> caller@ == old(self).market_contract@ && kv_get(
                    old(self).balances@,
                    bkey,
                ) + amount <= u128::MAX && kv_get(old(self).supply@, skey) + amount <= u128::MAX)
                &&& (r is Ok ==> {
                    &&& kv_get(final(self).balances@, bkey) == kv_get(old(self).balances@, bkey)
                        + amount
                    &&& kv_get(final(self).supply@, skey) == kv_get(old(self).supply@, skey)
                        + amount
                    &&& forall|k: Seq<u8>|
                        k != bkey ==> kv_get(final(self).balances@, k) == kv_get(
                            old(self).balances@,
                            k,
                        )
                    &&& forall|k: Seq<u8>|
                        k != skey ==> kv_get(final(self).supply@, k) == kv_get(
                            old(self).supply@,
                            k,
                        )
                })
            }),
    {
        if !(*caller == self.market_contract) {
            return Err(MarketError::AuthorizationError);
        }
        if amount == 0 {
            proof {
                lemma_kv_get_bounds(self.balances@, balance_key_bytes(market_id as int, outcome,
                    vstd::utf8::encode_utf8(account_id@)));
                lemma_kv_get_bounds(self.supply@, supply_key_bytes(market_id as int, outcome));
            }
            return Ok(());
        }
        let bkey = balance_key(market_id, &outcome, account_id.as_str());
        let balance = kv_read(&self.balances, &bkey);
        let new_balance = match balance.checked_add(amount) {
            Some(v) => v,
            None => {
                return Err(MarketError::InvariantViolation);
            },
        };
        let skey = supply_key(market_id, &outcome);
        let supply = kv_read(&self.supply, &skey);
        let new_supply = match supply.checked_add(amount) {
            Some(v) => v,
            None => {
                return Err(MarketError::InvariantViolation);
            },
        };
        kv_put(&mut self.balances, bkey, new_balance);
        kv_put(&mut self.supply, skey, new_supply);
        Ok(())
    }

    /// Burn `amount` claims from an account; only the market ledger may,
    /// and the account and supply must both cover the amount. A zero
    /// amount is accepted and changes nothing.
    pub fn burn(
        &mut self,
        market_id: MarketId,
        outcome: Outcome,
        account_id: String,
        amount: u128,
        caller: &String,
    ) -> (r: Result<(), MarketError>)
        requires
            old(self).inv(),
        ensures
            final(self).inv(),
            r is Err ==> *final(self) == *old(self),
            final(self).market_contract@ == old(self).market_contract@,
            caller@ != old(self).market_contract@ <==> r == Err::<(), MarketError>(
                MarketError::AuthorizationError,
            ),
            ({
                let bkey = balance_key_bytes(
                    market_id as int,
                    outcome,
                    vstd::utf8::encode_utf8(account_id@),
                );
                let skey = supply_key_bytes(market_id as int, outcome);
                &&& (r is Ok <==> caller@ == old(self).market_contract@ && kv_get(
                    old(self).balances@,
                    bkey,
                ) >= amount && kv_get(old(self).supply@, skey) >= amount)
                &&& (r is Ok ==> {
                    &&& kv_get(final(self).balances@, bkey) == kv_get(old(self).balances@, bkey)
                        - amount
                    &&& kv_get(final(self).supply@, skey) == kv_get(old(self).supply@, skey)
                        - amount
                    &&& forall|k: Seq<u8>|
                        k != bkey ==> kv_get(final(self).balances@, k) == kv_get(
                            old(self).balances@,
                            k,
                        )
                    &&& forall|k: Seq<u8>|
                        k != skey ==> kv_get(final(self).supply@, k) == kv_get(
                            old(self).supply@,
                            k,
                        )
                })
            }),
    {
        if !(*caller == self.market_contract) {
            return Err(MarketError::AuthorizationError);
        }
        if amount == 0 {
            proof {
                lemma_kv_get_bounds(self.balances@, balance_key_bytes(market_id as int, outcome,
                    vstd::utf8::encode_utf8(account_id@)));
                lemma_kv_get_bounds(self.supply@, supply_key_bytes(market_id as int, outcome));
            }
            return Ok(());
        }
        let bkey = balance_key(market_id, &outcome, account_id.as_str());
        let balance = kv_read(&self.balances, &bkey);
        if balance < amount {
            return Err(MarketError::InsufficientBalanceError);
        }
        let skey = supply_key(market_id, &outcome);
        let supply = kv_read(&self.supply, &skey);
        if supply < amount {
            return Err(MarketError::InsufficientBalanceError);
        }
        kv_put(&mut self.balances, bkey, balance - amount);
        kv_put(&mut self.supply, skey, supply - amount);
        Ok(())
    }

    /// Move claims between two accounts; only the market ledger may, and
    /// the sender must cover the amount. A zero amount is accepted and
    /// changes nothing.
    pub fn internal_transfer(
        &mut self,
        market_id: MarketId,
        outcome: Outcome,
        from: String,
        to: String,
        amount: u128,
        caller: &String,
    ) -> (r: Result<(), MarketError>)
        requires
            old(self).inv(),
        ensures
            final(self).inv(),
            r is Err ==> *final(self) == *old(self),
            final(self).market_contract@ == old(self).market_contract@,
            final(self).supply@ == old(self).supply@,
            caller@ != old(self).market_contract@ <==> r == Err::<(), MarketError>(
                MarketError::AuthorizationError,
            ),
            ({
                let fkey = balance_key_bytes(
                    market_id as int,
                    outcome,
                    vstd::utf8::encode_utf8(from@),
                );
                let tkey = balance_key_bytes(
                    market_id as int,
                    outcome,
                    vstd::utf8::encode_utf8(to@),
                );
                &&& (r is Ok <==> caller@ == old(self).market_contract@ && kv_get(
                    old(self).balances@,
                    fkey,
                ) >= amount && (fkey == tkey || kv_get(old(self).balances@, tkey) + amount
                    <= u128::MAX))
                &&& (r is Ok && fkey == tkey ==> final(self).balances@ == old(self).balances@)
                &&& (r is Ok && fkey != tkey ==> {
                    &&& kv_get(final(self).balances@, fkey) == kv_get(old(self).balances@, fkey)
                        - amount
                    &&& kv_get(final(self).balances@, tkey) == kv_get(old(self).balances@, tkey)
                        + amount
                    &&& forall|k: Seq<u8>|
                        k != fkey && k != tkey ==> kv_get(final(self).balances@, k) == kv_get(
                            old(self).balances@,
                            k,
                        )
                })
            }),
    {
        if !(*caller == self.market_contract) {
            return Err(MarketError::AuthorizationError);
        }
        if amount == 0 {
            proof {
                lemma_kv_get_bounds(self.balances@, balance_key_bytes(market_id as int, outcome,
                    vstd::utf8::encode_utf8(from@)));
                lemma_kv_get_bounds(self.balances@, balance_key_bytes(market_id as int, outcome,
                    vstd::utf8::encode_utf8(to@)));
            }
            return Ok(());
        }
        let fkey = balance_key(market_id, &outcome, from.as_str());
        let from_balance = kv_read(&self.balances, &fkey);
        if from_balance < amount {
            return Err(MarketError::InsufficientBalanceError);
        }
        let tkey = balance_key(market_id, &outcome, to.as_str());
        if bytes_eq(&fkey, &tkey) {
            // Debiting and crediting the same cell nets to no change.
            return Ok(());
        }
        let to_balance = kv_read(&self.balances, &tkey);
        let new_to = match to_balance.checked_add(amount) {
            Some(v) => v,
            None => {
                return Err(MarketError::InvariantViolation);
            },
        };
        kv_put(&mut self.balances, fkey, from_balance - amount);
        kv_put(&mut self.balances, tkey, new_to);
        Ok(())
    }

    /// An account's claim balance for one market and side.
    pub fn balance_of(&self, market_id: MarketId, outcome: Outcome, account_id: String) -> (r:
        u128)
        requires
            self.inv(),
        ensures
            r == kv_get(
                self.balances@,
                balance_key_bytes(market_id as int, outcome, vstd::utf8::encode_utf8(account_id@)),
            ),
    {
        let key = balance_key(market_id, &outcome, account_id.as_str());
        kv_read(&self.balances, &key)
    }

    /// Total minted claims for one market and side.
    pub fn total_supply(&self, market_id: MarketId, outcome: Outcome) -> (r: u128)
        requires
            self.inv(),
        ensures
            r == kv_get(self.supply@, supply_key_bytes(market_id as int, outcome)),
    {
        let key = supply_key(market_id, &outcome);
        kv_read(&self.supply, &key)
    }
}

} // verus!
