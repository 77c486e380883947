//! The balance store: a mapping from a string key (an account identity or a
//! fund-pool label) to a non-negative 128-bit balance, with atomic credit and
//! underflow-protected debit.
//!
//! Entries are kept in insertion order, which gives `list` a stable iteration
//! order across calls. A key appears at most once.

use vstd::prelude::*;

verus! {

/// No key occurs twice in the sequence of entries.
pub open spec fn keys_distinct(s: Seq<(Seq<char>, u128)>) -> bool {
    forall|i: int, j: int| 0 <= i < j < s.len() ==> s[i].0 !== s[j].0
}

/// Whether some entry carries the key `k`.
pub open spec fn has_key(s: Seq<(Seq<char>, u128)>, k: Seq<char>) -> bool {
    exists|i: int| 0 <= i < s.len() && s[i].0 == k
}

/// The index of the entry carrying `k` (meaningful only when `has_key`;
/// unique when keys are distinct).
pub open spec fn key_index(s: Seq<(Seq<char>, u128)>, k: Seq<char>) -> int {
    choose|i: int| 0 <= i < s.len() && s[i].0 == k
}

/// The balance stored under `k`: 0 for an unknown key.
pub open spec fn bal_of(s: Seq<(Seq<char>, u128)>, k: Seq<char>) -> u128 {
    if has_key(s, k) {
        s[key_index(s, k)].1
    } else {
        0
    }
}

/// The sum of all stored balances.
pub open spec fn sum_of(s: Seq<(Seq<char>, u128)>) -> int
    decreases s.len(),
{
    if s.len() == 0 {
        0
    } else {
        sum_of(s.drop_last()) + s.last().1
    }
}

/// The entries after adding `amount` to the balance under `k`; an unknown key
/// is appended at the end with `amount` as its balance.
pub open spec fn credit_spec(
    s: Seq<(Seq<char>, u128)>,
    k: Seq<char>,
    amount: u128,
) -> Seq<(Seq<char>, u128)> {
    if has_key(s, k) {
        s.update(key_index(s, k), (k, (bal_of(s, k) + amount) as u128))
    } else {
        s.push((k, amount))
    }
}

/// The entries after subtracting `amount` from the balance under `k`;
/// meaningful only when `bal_of(s, k) >= amount`. An unknown key (whose
/// balance, 0, can only cover `amount == 0`) is appended with balance 0,
/// mirroring a store that writes back the difference unconditionally.
pub open spec fn debit_spec(
    s: Seq<(Seq<char>, u128)>,
    k: Seq<char>,
    amount: u128,
) -> Seq<(Seq<char>, u128)> {
    if has_key(s, k) {
        s.update(key_index(s, k), (k, (bal_of(s, k) - amount) as u128))
    } else {
        s.push((k, 0))
    }
}

proof fn lemma_has_key_update(s: Seq<(Seq<char>, u128)>, i: int, p: (Seq<char>, u128))
    requires
        0 <= i < s.len(),
        p.0 == s[i].0,
    ensures
        forall|k2: Seq<char>| has_key(s.update(i, p), k2) == has_key(s, k2),
{
    let s2 = s.update(i, p);
    assert forall|k2: Seq<char>| has_key(s2, k2) == has_key(s, k2) by {
        if has_key(s2, k2) {
            let j = key_index(s2, k2);
            assert(0 <= j < s2.len() && s2[j].0 == k2);
            assert(s[j].0 == k2);
            assert(has_key(s, k2));
        }
        if has_key(s, k2) {
            let j = key_index(s, k2);
            assert(0 <= j < s.len() && s[j].0 == k2);
            assert(s2[j].0 == k2);
            assert(has_key(s2, k2));
        }
    }
}

proof fn lemma_has_key_push(s: Seq<(Seq<char>, u128)>, p: (Seq<char>, u128))
    ensures
        forall|k2: Seq<char>| has_key(s.push(p), k2) == (has_key(s, k2) || k2 == p.0),
{
    let s2 = s.push(p);
    assert forall|k2: Seq<char>| has_key(s2, k2) == (has_key(s, k2) || k2 == p.0) by {
        if has_key(s2, k2) {
            let j = key_index(s2, k2);
            assert(0 <= j < s2.len() && s2[j].0 == k2);
            if j < s.len() {
                assert(s[j].0 == k2);
                assert(has_key(s, k2));
            } else {
                assert(k2 == p.0);
            }
        }
        if has_key(s, k2) {
            let j = key_index(s, k2);
            assert(0 <= j < s.len() && s[j].0 == k2);
            assert(s2[j].0 == k2);
            assert(has_key(s2, k2));
        }
        if k2 == p.0 {
            assert(s2[s.len() as int].0 == k2);
            assert(has_key(s2, k2));
        }
    }
}

proof fn lemma_sum_update(s: Seq<(Seq<char>, u128)>, i: int, p: (Seq<char>, u128))
    requires
        0 <= i < s.len(),
    ensures
        sum_of(s.update(i, p)) == sum_of(s) - s[i].1 + p.1,
    decreases s.len(),
{
    if i == s.len() - 1 {
        assert(s.update(i, p).drop_last() =~= s.drop_last());
    } else {
        assert(s.update(i, p).drop_last() =~= s.drop_last().update(i, p));
        lemma_sum_update(s.drop_last(), i, p);
    }
}

proof fn lemma_sum_push(s: Seq<(Seq<char>, u128)>, p: (Seq<char>, u128))
    ensures
        sum_of(s.push(p)) == sum_of(s) + p.1,
{
    assert(s.push(p).drop_last() =~= s);
}

/// What a credit does: the named balance grows by `amount`, every other
/// balance is untouched, distinctness of keys is kept, the sum grows by
/// `amount`, and the key count grows exactly when the key was new.
pub proof fn lemma_credit(s: Seq<(Seq<char>, u128)>, k: Seq<char>, amount: u128)
    requires
        keys_distinct(s),
        bal_of(s, k) + amount <= u128::MAX,
    ensures
        keys_distinct(credit_spec(s, k, amount)),
        bal_of(credit_spec(s, k, amount), k) == bal_of(s, k) + amount,
        forall|k2: Seq<char>|
            k2 !== k ==> bal_of(credit_spec(s, k, amount), k2) == bal_of(s, k2),
        forall|k2: Seq<char>|
            has_key(credit_spec(s, k, amount), k2) == (has_key(s, k2) || k2 == k),
        sum_of(credit_spec(s, k, amount)) == sum_of(s) + amount,
        credit_spec(s, k, amount).len() == s.len() + (if has_key(s, k) {
            0int
        } else {
            1int
        }),
{
    let s2 = credit_spec(s, k, amount);
    if has_key(s, k) {
        let i = key_index(s, k);
        let p = (k, (bal_of(s, k) + amount) as u128);
        lemma_sum_update(s, i, p);
        lemma_has_key_update(s, i, p);
        assert forall|k2: Seq<char>| k2 !== k implies bal_of(s2, k2) == bal_of(s, k2) by {
            lemma_update_other(s, i, p, k2);
        }
        assert(s2[i].0 == k);
        assert(has_key(s2, k));
        let j = key_index(s2, k);
        assert(0 <= j < s2.len() && s2[j].0 == k);
        assert(j == i) by {
            if j != i {
                assert(s[j].0 == k);
                assert(s[i].0 == k);
            }
        }
    } else {
        let p = (k, amount);
        lemma_sum_push(s, p);
        lemma_has_key_push(s, p);
        assert forall|k2: Seq<char>| k2 !== k implies bal_of(s2, k2) == bal_of(s, k2) by {
            lemma_push_other(s, p, k2);
        }
        assert(s2[s.len() as int].0 == k);
        assert(has_key(s2, k));
        let j = key_index(s2, k);
        assert(0 <= j < s2.len() && s2[j].0 == k);
        assert(j == s.len()) by {
            if j < s.len() {
                assert(s[j].0 == k);
                assert(has_key(s, k));
            }
        }
    }
}

/// What a debit does, when the stored balance covers it: the named balance
/// shrinks by `amount`, every other balance is untouched, distinctness is
/// kept, and the sum shrinks by `amount`.
pub proof fn lemma_debit(s: Seq<(Seq<char>, u128)>, k: Seq<char>, amount: u128)
    requires
        keys_distinct(s),
        bal_of(s, k) >= amount,
    ensures
        keys_distinct(debit_spec(s, k, amount)),
        bal_of(debit_spec(s, k, amount), k) == bal_of(s, k) - amount,
        forall|k2: Seq<char>|
            k2 !== k ==> bal_of(debit_spec(s, k, amount), k2) == bal_of(s, k2),
        forall|k2: Seq<char>|
            has_key(debit_spec(s, k, amount), k2) == (has_key(s, k2) || k2 == k),
        sum_of(debit_spec(s, k, amount)) == sum_of(s) - amount,
        debit_spec(s, k, amount).len() == s.len() + (if has_key(s, k) {
            0int
        } else {
            1int
        }),
{
    let s2 = debit_spec(s, k, amount);
    if has_key(s, k) {
        let i = key_index(s, k);
        let p = (k, (bal_of(s, k) - amount) as u128);
        lemma_sum_update(s, i, p);
        lemma_has_key_update(s, i, p);
        assert forall|k2: Seq<char>| k2 !== k implies bal_of(s2, k2) == bal_of(s, k2) by {
            lemma_update_other(s, i, p, k2);
        }
        assert(s2[i].0 == k);
        assert(has_key(s2, k));
        let j = key_index(s2, k);
        assert(0 <= j < s2.len() && s2[j].0 == k);
        assert(j == i) by {
            if j != i {
                assert(s[j].0 == k);
                assert(s[i].0 == k);
            }
        }
    } else {
        let p = (k, 0u128);
        lemma_sum_push(s, p);
        lemma_has_key_push(s, p);
        assert forall|k2: Seq<char>| k2 !== k implies bal_of(s2, k2) == bal_of(s, k2) by {
            lemma_push_other(s, p, k2);
        }
        assert(s2[s.len() as int].0 == k);
        assert(has_key(s2, k));
        let j = key_index(s2, k);
        assert(0 <= j < s2.len() && s2[j].0 == k);
        assert(j == s.len()) by {
            if j < s.len() {
                assert(s[j].0 == k);
                assert(has_key(s, k));
            }
        }
    }
}

proof fn lemma_update_other(
    s: Seq<(Seq<char>, u128)>,
    i: int,
    p: (Seq<char>, u128),
    k2: Seq<char>,
)
    requires
        keys_distinct(s),
        0 <= i < s.len(),
        p.0 == s[i].0,
        k2 !== s[i].0,
    ensures
        bal_of(s.update(i, p), k2) == bal_of(s, k2),
{
    let s2 = s.update(i, p);
    if has_key(s, k2) {
        let j = key_index(s, k2);
        assert(j != i);
        assert(s2[j].0 == k2);
        let j2 = key_index(s2, k2);
        assert(0 <= j2 < s2.len() && s2[j2].0 == k2);
        assert(j2 != i);
        assert(s[j2].0 == k2);
        assert(j2 == j);
    } else {
        if has_key(s2, k2) {
            let j2 = key_index(s2, k2);
            assert(0 <= j2 < s2.len() && s2[j2].0 == k2);
            assert(j2 != i);
            assert(s[j2].0 == k2);
        }
    }
}

proof fn lemma_push_other(s: Seq<(Seq<char>, u128)>, p: (Seq<char>, u128), k2: Seq<char>)
    requires
        keys_distinct(s),
        k2 !== p.0,
    ensures
        bal_of(s.push(p), k2) == bal_of(s, k2),
{
    let s2 = s.push(p);
    if has_key(s, k2) {
        let j = key_index(s, k2);
        assert(0 <= j < s.len() && s[j].0 == k2);
        assert(s2[j].0 == k2);
        assert(has_key(s2, k2));
        let j2 = key_index(s2, k2);
        assert(0 <= j2 < s2.len() && s2[j2].0 == k2);
        assert(j2 < s.len());
        assert(s[j2].0 == k2);
        assert(j2 == j) by {
            if j2 != j {
                assert(s[j].0 !== s[j2].0 || s[j2].0 !== s[j].0);
            }
        }
    } else {
        if has_key(s2, k2) {
            let j2 = key_index(s2, k2);
            assert(0 <= j2 < s2.len() && s2[j2].0 == k2);
            assert(j2 < s.len());
            assert(s[j2].0 == k2);
            assert(has_key(s, k2));
        }
    }
}

/// An exclusively owned balance mapping. `entries` holds each key at most
/// once, in the order of first credit.
pub struct Balances {
    pub entries: Vec<(String, u128)>,
}

impl View for Balances {
    type V = Seq<(Seq<char>, u128)>;

    open spec fn view(&self) -> Seq<(Seq<char>, u128)> {
        Seq::new(self.entries@.len(), |i: int| (self.entries@[i].0@, self.entries@[i].1))
    }
}

impl Balances {
    /// Every key occurs at most once.
    pub open spec fn wf(self) -> bool {
        keys_distinct(self@)
    }

    /// An empty store.
    pub fn new() -> (r: Balances)
        ensures
            r@ =~= Seq::<(Seq<char>, u128)>::empty(),
            r.wf(),
    {
        Balances { entries: Vec::new() }
    }

    /// The index of `k` among the entries, if present.
    fn find(&self, k: &String) -> (r: Option<usize>)
        requires
            self.wf(),
        ensures
            match r {
                Some(i) => i < self@.len() && self@[i as int].0 == k@ && has_key(self@, k@)
                    && key_index(self@, k@) == i,
                None => !has_key(self@, k@),
            },
    {
        let n = self.entries.len();
        let mut i: usize = 0;
        while i < n
            invariant
                self.wf(),
                n == self@.len(),
                i <= n,
                forall|j: int| 0 <= j < i ==> self@[j].0 !== k@,
            decreases n - i,
        {
            if self.entries[i].0 == *k {
                proof {
                    assert(self@[i as int].0 == k@);
                    assert(has_key(self@, k@));
                    let j = key_index(self@, k@);
                    assert(0 <= j < self@.len() && self@[j].0 == k@);
                    assert(j == i) by {
                        if j < i {
                            assert(self@[j].0 !== k@);
                        }
                        if j > i {
                            assert(self@[i as int].0 !== self@[j].0);
                        }
                    }
                }
                return Some(i);
            }
            i += 1;
        }
        None
    }

    /// The balance under `k`; 0 for an unknown key. Never fails, never
    /// mutates.
    pub fn balance_of(&self, k: &String) -> (r: u128)
        requires
            self.wf(),
        ensures
            r == bal_of(self@, k@),
    {
        match self.find(k) {
            Some(i) => self.entries[i].1,
            None => 0,
        }
    }

    /// Adds `amount` to the balance under `k`, creating the entry (at the
    /// end of the iteration order) if the key is new.
    pub fn credit(&mut self, k: &String, amount: u128)
        requires
            old(self).wf(),
            bal_of(old(self)@, k@) + amount <= u128::MAX,
        ensures
            final(self).wf(),
            final(self)@ == credit_spec(old(self)@, k@, amount),
    {
        proof {
            lemma_credit(self@, k@, amount);
        }
        match self.find(k) {
            Some(i) => {
                let b = self.entries[i].1;
                self.entries[i].1 = b + amount;
                assert(final(self)@ =~= credit_spec(old(self)@, k@, amount));
            },
            None => {
                self.entries.push((k.clone(), amount));
                assert(final(self)@ =~= credit_spec(old(self)@, k@, amount));
            },
        }
    }

    /// Subtracts `amount` from the balance under `k` and reports `true`; if
    /// the stored balance is smaller than `amount`, reports `false` and
    /// changes nothing. A debit never drives a balance below zero.
    pub fn debit(&mut self, k: &String, amount: u128) -> (r: bool)
        requires
            old(self).wf(),
        ensures
            final(self).wf(),
            r == (bal_of(old(self)@, k@) >= amount),
            r ==> final(self)@ == debit_spec(old(self)@, k@, amount),
            !r ==> *final(self) == *old(self),
    {
        match self.find(k) {
            Some(i) => {
                let b = self.entries[i].1;
                if b < amount {
                    false
                } else {
                    proof {
                        lemma_debit(self@, k@, amount);
                    }
                    self.entries[i].1 = b - amount;
                    assert(final(self)@ =~= debit_spec(old(self)@, k@, amount));
                    true
                }
            },
            None => {
                if amount > 0 {
                    false
                } else {
                    proof {
                        lemma_debit(self@, k@, amount);
                    }
                    self.entries.push((k.clone(), 0));
                    assert(final(self)@ =~= debit_spec(old(self)@, k@, amount));
                    true
                }
            },
        }
    }

    /// The number of distinct keys ever credited (or touched by a debit).
    pub fn count(&self) -> (r: u64)
        ensures
            r == self@.len(),
    {
        self.entries.len() as u64
    }

    /// The entries in their stable iteration order, skipping `start` of them
    /// and yielding at most `limit`.
    pub fn list(&self, start: usize, limit: usize) -> (r: Vec<(String, u128)>)
        ensures
            ({
                let lo = if start as int <= self@.len() {
                    start as int
                } else {
                    self@.len() as int
                };
                let hi = if start as int + limit as int <= self@.len() {
                    start as int + limit as int
                } else {
                    self@.len() as int
                };
                &&& r@.len() == hi - lo
                &&& forall|j: int|
                    0 <= j < r@.len() ==> r@[j].0@ == self@[lo + j].0 && r@[j].1 == self@[lo
                        + j].1
            }),
    {
        let ghost lo: int = if start as int <= self@.len() {
            start as int
        } else {
            self@.len() as int
        };
        let n = self.entries.len();
        let mut r: Vec<(String, u128)> = Vec::new();
        let mut i: usize = start;
        if i > n {
            i = n;
        }
        let mut taken: usize = 0;
        while i < n && taken < limit
            invariant
                n == self@.len(),
                lo <= i <= n,
                taken <= limit,
                i == lo + taken,
                r@.len() == taken,
                forall|j: int|
                    0 <= j < r@.len() ==> r@[j].0@ == self@[lo + j].0 && r@[j].1 == self@[lo
                        + j].1,
            decreases n - i,
        {
            let key = self.entries[i].0.clone();
            let bal = self.entries[i].1;
            r.push((key, bal));
            i += 1;
            taken += 1;
        }
        r
    }
}

} // verus!
