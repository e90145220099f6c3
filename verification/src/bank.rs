//! Model of the external multi-asset currency primitive.
//!
//! The engine's operations move funds exclusively through this ledger:
//! it keeps one balance per `(currency, owner)` pair and one total
//! issuance per currency.  Every operation is atomic and fail-fast —
//! on an error nothing at all has changed — which is what the rest of
//! the crate relies on to keep each public operation all-or-nothing.

use vstd::prelude::*;

verus! {

/// One `(currency, owner) -> amount` cell of a ledger table.
struct LedgerCell {
    currency: u64,
    owner: u64,
    amount: u128,
}

/// Why a ledger operation was refused.
#[derive(Clone, Copy, PartialEq, Eq, Structural, Debug)]
pub enum BankError {
    /// The debited balance (or the issuance being burned) is too small.
    InsufficientBalance,
    /// The credited balance or issuance would exceed the 128-bit range.
    Overflow,
}

/// No two cells share a `(currency, owner)` key.
spec fn distinct_keys(s: Seq<LedgerCell>) -> bool {
    forall|i: int, j: int|
        #![trigger s[i], s[j]]
        0 <= i < j < s.len() ==> !(s[i].currency == s[j].currency && s[i].owner == s[j].owner)
}

/// The amount recorded for a key, zero when the key is absent.
spec fn seq_amount(s: Seq<LedgerCell>, currency: u64, owner: u64) -> u128 {
    if exists|i: int|
        #![trigger s[i]]
        0 <= i < s.len() && s[i].currency == currency && s[i].owner == owner {
        let i = choose|i: int|
            #![trigger s[i]]
            0 <= i < s.len() && s[i].currency == currency && s[i].owner == owner;
        s[i].amount
    } else {
        0
    }
}

/// A key present at index `i` of a duplicate-free table is the one the
/// lookup finds.
proof fn lemma_seq_amount_at(s: Seq<LedgerCell>, i: int)
    requires
        distinct_keys(s),
        0 <= i < s.len(),
    ensures
        seq_amount(s, s[i].currency, s[i].owner) == s[i].amount,
{
    let c = s[i].currency;
    let o = s[i].owner;
    assert(0 <= i < s.len() && s[i].currency == c && s[i].owner == o);
    let j = choose|j: int|
        #![trigger s[j]]
        0 <= j < s.len() && s[j].currency == c && s[j].owner == o;
    assert(j == i);
}

/// Overwriting the amount at index `i` (keeping its key) changes the
/// lookup at that key and nothing else.
proof fn lemma_seq_amount_update(s: Seq<LedgerCell>, i: int, e: LedgerCell)
    requires
        distinct_keys(s),
        0 <= i < s.len(),
        s[i].currency == e.currency,
        s[i].owner == e.owner,
    ensures
        distinct_keys(s.update(i, e)),
        seq_amount(s.update(i, e), e.currency, e.owner) == e.amount,
        forall|c: u64, o: u64|
            !(c == e.currency && o == e.owner) ==> #[trigger] seq_amount(s.update(i, e), c, o)
                == seq_amount(s, c, o),
{
    let t = s.update(i, e);
    assert(distinct_keys(t)) by {
        assert forall|p: int, q: int|
            #![trigger t[p], t[q]]
            0 <= p < q < t.len() implies !(t[p].currency == t[q].currency && t[p].owner
            == t[q].owner) by {
            assert(s[p].currency == t[p].currency && s[p].owner == t[p].owner);
            assert(s[q].currency == t[q].currency && s[q].owner == t[q].owner);
        }
    }
    lemma_seq_amount_at(t, i);
    assert forall|c: u64, o: u64| !(c == e.currency && o == e.owner) implies #[trigger] seq_amount(
        t,
        c,
        o,
    ) == seq_amount(s, c, o) by {
        if exists|k: int| #![trigger t[k]] 0 <= k < t.len() && t[k].currency == c && t[k].owner
            == o {
            let k = choose|k: int|
                #![trigger t[k]]
                0 <= k < t.len() && t[k].currency == c && t[k].owner == o;
            assert(k != i);
            assert(s[k] == t[k]);
            lemma_seq_amount_at(t, k);
            lemma_seq_amount_at(s, k);
        } else {
            assert(forall|k: int|
                #![trigger s[k]]
                0 <= k < s.len() ==> !(s[k].currency == c && s[k].owner == o)) by {
                assert forall|k: int|
                    #![trigger s[k]]
                    0 <= k < s.len() implies !(s[k].currency == c && s[k].owner == o) by {
                    if k != i {
                        assert(t[k] == s[k]);
                    }
                }
            }
        }
    }
}

/// Appending a fresh key makes it found and leaves every other lookup
/// unchanged.
proof fn lemma_seq_amount_push(s: Seq<LedgerCell>, e: LedgerCell)
    requires
        distinct_keys(s),
        forall|k: int|
            #![trigger s[k]]
            0 <= k < s.len() ==> !(s[k].currency == e.currency && s[k].owner == e.owner),
    ensures
        distinct_keys(s.push(e)),
        seq_amount(s.push(e), e.currency, e.owner) == e.amount,
        forall|c: u64, o: u64|
            !(c == e.currency && o == e.owner) ==> #[trigger] seq_amount(s.push(e), c, o)
                == seq_amount(s, c, o),
{
    let t = s.push(e);
    assert(t[s.len() as int] == e);
    assert(distinct_keys(t)) by {
        assert forall|p: int, q: int|
            #![trigger t[p], t[q]]
            0 <= p < q < t.len() implies !(t[p].currency == t[q].currency && t[p].owner
            == t[q].owner) by {
            if q < s.len() {
                assert(t[p] == s[p] && t[q] == s[q]);
            } else {
                assert(t[p] == s[p] && t[q] == e);
            }
        }
    }
    lemma_seq_amount_at(t, s.len() as int);
    assert forall|c: u64, o: u64| !(c == e.currency && o == e.owner) implies #[trigger] seq_amount(
        t,
        c,
        o,
    ) == seq_amount(s, c, o) by {
        if exists|k: int| #![trigger t[k]] 0 <= k < t.len() && t[k].currency == c && t[k].owner
            == o {
            let k = choose|k: int|
                #![trigger t[k]]
                0 <= k < t.len() && t[k].currency == c && t[k].owner == o;
            assert(k != s.len() as int);
            assert(s[k] == t[k]);
            lemma_seq_amount_at(t, k);
            lemma_seq_amount_at(s, k);
        } else {
            assert forall|k: int|
                #![trigger s[k]]
                0 <= k < s.len() implies !(s[k].currency == c && s[k].owner == o) by {
                assert(t[k] == s[k]);
            }
        }
    }
}

/// The total amount a table holds in one currency, over all owners.
spec fn sum_for(s: Seq<LedgerCell>, currency: u64) -> int
    decreases s.len(),
{
    if s.len() == 0 {
        0
    } else {
        sum_for(s.drop_last(), currency) + if s.last().currency == currency {
            s.last().amount as int
        } else {
            0
        }
    }
}

proof fn lemma_sum_for_nonneg(s: Seq<LedgerCell>, currency: u64)
    ensures
        sum_for(s, currency) >= 0,
    decreases s.len(),
{
    if s.len() != 0 {
        lemma_sum_for_nonneg(s.drop_last(), currency);
    }
}

/// Overwriting the amount at index `i` (keeping its key) moves each
/// currency total by exactly the change at that cell.
proof fn lemma_sum_for_update(s: Seq<LedgerCell>, i: int, e: LedgerCell)
    requires
        0 <= i < s.len(),
        s[i].currency == e.currency,
    ensures
        forall|c: u64|
            #[trigger] sum_for(s.update(i, e), c) == sum_for(s, c) + (if e.currency == c {
                e.amount - s[i].amount
            } else {
                0
            }),
    decreases s.len(),
{
    let t = s.update(i, e);
    if i == s.len() - 1 {
        assert forall|c: u64|
            #[trigger] sum_for(t, c) == sum_for(s, c) + (if e.currency == c {
                e.amount - s[i].amount
            } else {
                0
            }) by {
            assert(t.drop_last() =~= s.drop_last());
            assert(t.last() == e);
        }
    } else {
        lemma_sum_for_update(s.drop_last(), i, e);
        assert forall|c: u64|
            #[trigger] sum_for(t, c) == sum_for(s, c) + (if e.currency == c {
                e.amount - s[i].amount
            } else {
                0
            }) by {
            assert(t.drop_last() =~= s.drop_last().update(i, e));
            assert(t.last() == s.last());
            assert(s.drop_last()[i] == s[i]);
            assert(sum_for(s.drop_last().update(i, e), c) == sum_for(s.drop_last(), c) + (if e
                .currency == c {
                e.amount - s.drop_last()[i].amount
            } else {
                0
            }));
            assert(sum_for(t, c) == sum_for(t.drop_last(), c) + (if t.last().currency == c {
                t.last().amount as int
            } else {
                0
            }));
            assert(sum_for(s, c) == sum_for(s.drop_last(), c) + (if s.last().currency == c {
                s.last().amount as int
            } else {
                0
            }));
        }
    }
}

/// Appending a cell grows exactly its currency's total by its amount.
proof fn lemma_sum_for_push(s: Seq<LedgerCell>, e: LedgerCell)
    ensures
        forall|c: u64|
            #[trigger] sum_for(s.push(e), c) == sum_for(s, c) + (if e.currency == c {
                e.amount as int
            } else {
                0
            }),
{
    assert forall|c: u64|
        #[trigger] sum_for(s.push(e), c) == sum_for(s, c) + (if e.currency == c {
            e.amount as int
        } else {
            0
        }) by {
        assert(s.push(e).drop_last() =~= s);
        assert(s.push(e).last() == e);
    }
}

/// One cell's amount never exceeds its currency's total.
proof fn lemma_element_le_sum(s: Seq<LedgerCell>, i: int, currency: u64)
    requires
        0 <= i < s.len(),
        s[i].currency == currency,
    ensures
        s[i].amount <= sum_for(s, currency),
    decreases s.len(),
{
    if i == s.len() - 1 {
        lemma_sum_for_nonneg(s.drop_last(), currency);
    } else {
        lemma_element_le_sum(s.drop_last(), i, currency);
        assert(s.drop_last()[i] == s[i]);
    }
}

/// The index holding a key, if any.
fn find_cell(v: &Vec<LedgerCell>, currency: u64, owner: u64) -> (r: Option<usize>)
    ensures
        match r {
            Some(i) => i < v@.len() && v@[i as int].currency == currency && v@[i as int].owner
                == owner,
            None => forall|k: int|
                #![trigger v@[k]]
                0 <= k < v@.len() ==> !(v@[k].currency == currency && v@[k].owner == owner),
        },
{
    let mut i: usize = 0;
    while i < v.len()
        invariant
            i <= v@.len(),
            forall|k: int|
                #![trigger v@[k]]
                0 <= k < i ==> !(v@[k].currency == currency && v@[k].owner == owner),
        decreases v@.len() - i,
    {
        if v[i].currency == currency && v[i].owner == owner {
            return Some(i);
        }
        i = i + 1;
    }
    None
}

/// The amount stored for a key, zero when absent.
fn get_cell(v: &Vec<LedgerCell>, currency: u64, owner: u64) -> (r: u128)
    requires
        distinct_keys(v@),
    ensures
        r == seq_amount(v@, currency, owner),
{
    match find_cell(v, currency, owner) {
        Some(i) => {
            proof {
                lemma_seq_amount_at(v@, i as int);
            }
            v[i].amount
        },
        None => 0,
    }
}

/// Stores `value` for a key, updating in place or appending.
fn set_cell(v: &mut Vec<LedgerCell>, currency: u64, owner: u64, value: u128)
    requires
        distinct_keys(old(v)@),
    ensures
        distinct_keys(final(v)@),
        seq_amount(final(v)@, currency, owner) == value,
        forall|c: u64, o: u64|
            !(c == currency && o == owner) ==> #[trigger] seq_amount(final(v)@, c, o)
                == seq_amount(old(v)@, c, o),
        forall|c: u64|
            #[trigger] sum_for(final(v)@, c) == sum_for(old(v)@, c) + (if c == currency {
                value - seq_amount(old(v)@, currency, owner)
            } else {
                0
            }),
{
    let cell = LedgerCell { currency, owner, amount: value };
    match find_cell(v, currency, owner) {
        Some(i) => {
            proof {
                lemma_seq_amount_at(v@, i as int);
                lemma_seq_amount_update(v@, i as int, cell);
                lemma_sum_for_update(v@, i as int, cell);
            }
            v[i] = cell;
        },
        None => {
            proof {
                lemma_seq_amount_push(v@, cell);
                lemma_sum_for_push(v@, cell);
            }
            v.push(cell);
        },
    }
}

/// The multi-asset ledger: balances per `(currency, owner)` pair and a
/// running total issuance per currency.
pub struct Bank {
    balances: Vec<LedgerCell>,
    issuances: Vec<LedgerCell>,
}

impl Bank {
    /// Internal tables are free of duplicate keys, and each currency's
    /// recorded total issuance is exactly the sum of all balances held
    /// in it: no unit appears or vanishes except through mint and burn.
    pub closed spec fn wf(self) -> bool {
        &&& distinct_keys(self.balances@)
        &&& distinct_keys(self.issuances@)
        &&& forall|c: u64|
            #[trigger] seq_amount(self.issuances@, c, 0) as int == sum_for(self.balances@, c)
    }

    /// The free balance of `owner` in `currency`.
    pub closed spec fn balance_of(self, currency: u64, owner: u64) -> u128 {
        seq_amount(self.balances@, currency, owner)
    }

    /// The total units of `currency` in existence.
    pub closed spec fn issuance_of(self, currency: u64) -> u128 {
        seq_amount(self.issuances@, currency, 0)
    }

    /// An empty ledger: no balances, no issuance.
    pub fn new() -> (r: Bank)
        ensures
            r.wf(),
            forall|c: u64, o: u64| #[trigger] r.balance_of(c, o) == 0,
            forall|c: u64| #[trigger] r.issuance_of(c) == 0,
    {
        Bank { balances: Vec::new(), issuances: Vec::new() }
    }

    /// The free balance of `owner` in `currency`.
    pub fn free_balance(&self, currency: u64, owner: u64) -> (r: u128)
        requires
            self.wf(),
        ensures
            r == self.balance_of(currency, owner),
    {
        get_cell(&self.balances, currency, owner)
    }

    /// The total units of `currency` in existence.
    pub fn total_issuance(&self, currency: u64) -> (r: u128)
        requires
            self.wf(),
        ensures
            r == self.issuance_of(currency),
    {
        get_cell(&self.issuances, currency, 0)
    }

    /// Whether `owner` could have `amount` of `currency` set aside.
    pub fn can_reserve(&self, currency: u64, owner: u64, amount: u128) -> (r: bool)
        requires
            self.wf(),
        ensures
            r == (self.balance_of(currency, owner) >= amount),
    {
        self.free_balance(currency, owner) >= amount
    }

    /// Mints `amount` of `currency` into `owner`'s balance, growing the
    /// total issuance by the same amount; fails on 128-bit overflow of
    /// either total, changing nothing.
    pub fn deposit(&mut self, currency: u64, owner: u64, amount: u128) -> (r: Result<
        (),
        BankError,
    >)
        requires
            old(self).wf(),
        ensures
            final(self).wf(),
            r is Ok <==> old(self).issuance_of(currency) + amount <= u128::MAX && old(
                self,
            ).balance_of(currency, owner) + amount <= u128::MAX,
            r is Err ==> r == Err::<(), BankError>(BankError::Overflow) && *final(self) == *old(
                self,
            ),
            r is Ok ==> final(self).balance_of(currency, owner) == old(self).balance_of(
                currency,
                owner,
            ) + amount,
            r is Ok ==> final(self).issuance_of(currency) == old(self).issuance_of(currency)
                + amount,
            forall|c: u64, o: u64|
                !(c == currency && o == owner) ==> #[trigger] final(self).balance_of(c, o) == old(
                    self,
                ).balance_of(c, o),
            forall|c: u64| c != currency ==> #[trigger] final(self).issuance_of(c) == old(
                self,
            ).issuance_of(c),
    {
        let issuance: u128 = get_cell(&self.issuances, currency, 0);
        let balance: u128 = get_cell(&self.balances, currency, owner);
        let new_issuance: u128 = match issuance.checked_add(amount) {
            Some(v) => v,
            None => {
                return Err(BankError::Overflow);
            },
        };
        let new_balance: u128 = match balance.checked_add(amount) {
            Some(v) => v,
            None => {
                return Err(BankError::Overflow);
            },
        };
        set_cell(&mut self.issuances, currency, 0, new_issuance);
        set_cell(&mut self.balances, currency, owner, new_balance);
        Ok(())
    }

    /// Burns `amount` of `currency` from `owner`'s balance, shrinking the
    /// total issuance by the same amount; fails when either is too small,
    /// changing nothing.
    pub fn withdraw(&mut self, currency: u64, owner: u64, amount: u128) -> (r: Result<
        (),
        BankError,
    >)
        requires
            old(self).wf(),
        ensures
            final(self).wf(),
            r is Ok <==> old(self).balance_of(currency, owner) >= amount && old(self).issuance_of(
                currency,
            ) >= amount,
            r is Err ==> r == Err::<(), BankError>(BankError::InsufficientBalance) && *final(self)
                == *old(self),
            r is Ok ==> final(self).balance_of(currency, owner) == old(self).balance_of(
                currency,
                owner,
            ) - amount,
            r is Ok ==> final(self).issuance_of(currency) == old(self).issuance_of(currency)
                - amount,
            forall|c: u64, o: u64|
                !(c == currency && o == owner) ==> #[trigger] final(self).balance_of(c, o) == old(
                    self,
                ).balance_of(c, o),
            forall|c: u64| c != currency ==> #[trigger] final(self).issuance_of(c) == old(
                self,
            ).issuance_of(c),
    {
        let issuance: u128 = get_cell(&self.issuances, currency, 0);
        let balance: u128 = get_cell(&self.balances, currency, owner);
        if balance < amount || issuance < amount {
            return Err(BankError::InsufficientBalance);
        }
        set_cell(&mut self.issuances, currency, 0, issuance - amount);
        set_cell(&mut self.balances, currency, owner, balance - amount);
        Ok(())
    }

    /// Moves `amount` of `currency` from `from` to `to`; the issuance is
    /// untouched.  A transfer to oneself succeeds without any effect.
    /// Fails when the debited balance is too small or the credited one
    /// would overflow, changing nothing.
    pub fn transfer(&mut self, currency: u64, from: u64, to: u64, amount: u128) -> (r: Result<
        (),
        BankError,
    >)
        requires
            old(self).wf(),
        ensures
            final(self).wf(),
            r is Ok <==> old(self).balance_of(currency, from) >= amount && (from == to || old(
                self,
            ).balance_of(currency, to) + amount <= u128::MAX),
            r is Err ==> *final(self) == *old(self),
            r == Err::<(), BankError>(BankError::InsufficientBalance) <==> old(self).balance_of(
                currency,
                from,
            ) < amount,
            r is Ok && from != to ==> final(self).balance_of(currency, from) == old(
                self,
            ).balance_of(currency, from) - amount && final(self).balance_of(currency, to) == old(
                self,
            ).balance_of(currency, to) + amount,
            r is Ok && from == to ==> *final(self) == *old(self),
            forall|c: u64, o: u64|
                !(c == currency && (o == from || o == to)) ==> #[trigger] final(self).balance_of(
                    c,
                    o,
                ) == old(self).balance_of(c, o),
            forall|c: u64| #[trigger] final(self).issuance_of(c) == old(self).issuance_of(c),
    {
        let from_balance: u128 = get_cell(&self.balances, currency, from);
        if from_balance < amount {
            return Err(BankError::InsufficientBalance);
        }
        if from == to {
            return Ok(());
        }
        let to_balance: u128 = get_cell(&self.balances, currency, to);
        let new_to: u128 = match to_balance.checked_add(amount) {
            Some(v) => v,
            None => {
                return Err(BankError::Overflow);
            },
        };
        set_cell(&mut self.balances, currency, from, from_balance - amount);
        set_cell(&mut self.balances, currency, to, new_to);
        Ok(())
    }
}

/// Conservation: in a well-formed ledger no account holds more units of
/// a currency than exist in total, so a balance can never be debited
/// beyond what was ever minted.
pub proof fn lemma_balance_within_issuance(b: Bank, currency: u64, owner: u64)
    requires
        b.wf(),
    ensures
        b.balance_of(currency, owner) <= b.issuance_of(currency),
{
    assert(b.issuance_of(currency) as int == sum_for(b.balances@, currency));
    if exists|i: int|
        #![trigger b.balances@[i]]
        0 <= i < b.balances@.len() && b.balances@[i].currency == currency && b.balances@[i].owner
            == owner {
        let i = choose|i: int|
            #![trigger b.balances@[i]]
            0 <= i < b.balances@.len() && b.balances@[i].currency == currency
                && b.balances@[i].owner == owner;
        lemma_element_le_sum(b.balances@, i, currency);
    }
}

} // verus!
