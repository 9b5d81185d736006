//! Sparse tables backing the ledger: one from accounts to balances and one
//! from (owner, spender) pairs to allowances. A key that is absent means a
//! value of zero, so memory stays proportional to the accounts actually
//! touched. Each table keeps at most one entry per key.

use vstd::prelude::*;

use crate::AccountId;
use crate::Balance;

verus! {

// ---------------------------------------------------------------------------
// Balances
// ---------------------------------------------------------------------------

/// The value associated with `key`: the first entry that carries `key`, or
/// zero when no entry does.
pub(crate) open spec fn lookup_bal(s: Seq<(AccountId, Balance)>, key: AccountId) -> Balance
    decreases s.len(),
{
    if s.len() == 0 {
        0
    } else if s[0].0 == key {
        s[0].1
    } else {
        lookup_bal(s.subrange(1, s.len() as int), key)
    }
}

/// The sum of all stored values, as an unbounded integer.
pub(crate) open spec fn sum_bal(s: Seq<(AccountId, Balance)>) -> int
    decreases s.len(),
{
    if s.len() == 0 {
        0
    } else {
        s[0].1 + sum_bal(s.subrange(1, s.len() as int))
    }
}

proof fn lemma_sum_bal_nonneg(s: Seq<(AccountId, Balance)>)
    ensures
        sum_bal(s) >= 0,
    decreases s.len(),
{
    if s.len() > 0 {
        lemma_sum_bal_nonneg(s.subrange(1, s.len() as int));
    }
}

proof fn lemma_lookup_bal_le_sum(s: Seq<(AccountId, Balance)>, key: AccountId)
    ensures
        lookup_bal(s, key) <= sum_bal(s),
        0 <= sum_bal(s),
    decreases s.len(),
{
    lemma_sum_bal_nonneg(s);
    if s.len() > 0 {
        let rest = s.subrange(1, s.len() as int);
        lemma_lookup_bal_le_sum(rest, key);
    }
}

proof fn lemma_lookup_bal_absent(s: Seq<(AccountId, Balance)>, key: AccountId)
    requires
        forall|j: int| 0 <= j < s.len() ==> (#[trigger] s[j]).0 != key,
    ensures
        lookup_bal(s, key) == 0,
    decreases s.len(),
{
    if s.len() > 0 {
        let rest = s.subrange(1, s.len() as int);
        assert(forall|j: int| 0 <= j < rest.len() ==> (#[trigger] rest[j]).0 != key);
        lemma_lookup_bal_absent(rest, key);
    }
}

proof fn lemma_lookup_bal_found(s: Seq<(AccountId, Balance)>, key: AccountId, i: int)
    requires
        0 <= i < s.len(),
        s[i].0 == key,
        forall|j: int| 0 <= j < i ==> (#[trigger] s[j]).0 != key,
    ensures
        lookup_bal(s, key) == s[i].1,
    decreases i,
{
    if i > 0 {
        let rest = s.subrange(1, s.len() as int);
        assert(forall|j: int| 0 <= j < i - 1 ==> (#[trigger] rest[j]).0 != key);
        lemma_lookup_bal_found(rest, key, i - 1);
    }
}

proof fn lemma_lookup_bal_update_match(s: Seq<(AccountId, Balance)>, i: int, value: Balance)
    requires
        0 <= i < s.len(),
        forall|j: int| 0 <= j < i ==> (#[trigger] s[j]).0 != s[i].0,
    ensures
        lookup_bal(s.update(i, (s[i].0, value)), s[i].0) == value,
    decreases i,
{
    let t = s.update(i, (s[i].0, value));
    if i == 0 {
        assert(t[0] == (s[0].0, value));
    } else {
        let rest = s.subrange(1, s.len() as int);
        assert(forall|j: int| 0 <= j < i - 1 ==> (#[trigger] rest[j]).0 != rest[i - 1].0);
        lemma_lookup_bal_update_match(rest, i - 1, value);
        assert(t.subrange(1, t.len() as int) =~= rest.update(i - 1, (rest[i - 1].0, value)));
    }
}

proof fn lemma_lookup_bal_update_other(
    s: Seq<(AccountId, Balance)>,
    i: int,
    value: Balance,
    key: AccountId,
)
    requires
        0 <= i < s.len(),
        s[i].0 != key,
    ensures
        lookup_bal(s.update(i, (s[i].0, value)), key) == lookup_bal(s, key),
    decreases i,
{
    let t = s.update(i, (s[i].0, value));
    if i == 0 {
        assert(t.subrange(1, t.len() as int) =~= s.subrange(1, s.len() as int));
    } else {
        let rest = s.subrange(1, s.len() as int);
        lemma_lookup_bal_update_other(rest, i - 1, value, key);
        assert(t.subrange(1, t.len() as int) =~= rest.update(i - 1, (rest[i - 1].0, value)));
    }
}

proof fn lemma_sum_bal_update(s: Seq<(AccountId, Balance)>, i: int, value: Balance)
    requires
        0 <= i < s.len(),
    ensures
        sum_bal(s.update(i, (s[i].0, value))) == sum_bal(s) - s[i].1 + value,
    decreases i,
{
    let t = s.update(i, (s[i].0, value));
    if i == 0 {
        assert(t.subrange(1, t.len() as int) =~= s.subrange(1, s.len() as int));
    } else {
        let rest = s.subrange(1, s.len() as int);
        lemma_sum_bal_update(rest, i - 1, value);
        assert(t.subrange(1, t.len() as int) =~= rest.update(i - 1, (rest[i - 1].0, value)));
    }
}

proof fn lemma_lookup_bal_push(s: Seq<(AccountId, Balance)>, entry: (AccountId, Balance), key: AccountId)
    ensures
        lookup_bal(s.push(entry), key) == if exists|j: int|
            0 <= j < s.len() && (#[trigger] s[j]).0 == key {
            lookup_bal(s, key)
        } else if entry.0 == key {
            entry.1
        } else {
            0
        },
    decreases s.len(),
{
    let t = s.push(entry);
    if s.len() == 0 {
        assert(t[0] == entry);
        if entry.0 != key {
            assert(t.subrange(1, t.len() as int) =~= Seq::<(AccountId, Balance)>::empty());
            assert(lookup_bal(Seq::<(AccountId, Balance)>::empty(), key) == 0);
        }
    } else {
        let rest = s.subrange(1, s.len() as int);
        lemma_lookup_bal_push(rest, entry, key);
        assert(t[0] == s[0]);
        assert(t.subrange(1, t.len() as int) =~= rest.push(entry));
        if s[0].0 == key {
            assert(exists|j: int| 0 <= j < s.len() && (#[trigger] s[j]).0 == key);
        } else {
            assert((exists|j: int| 0 <= j < s.len() && (#[trigger] s[j]).0 == key) <==> (exists|j: int|
                0 <= j < rest.len() && (#[trigger] rest[j]).0 == key)) by {
                if exists|j: int| 0 <= j < s.len() && (#[trigger] s[j]).0 == key {
                    let j = choose|j: int| 0 <= j < s.len() && (#[trigger] s[j]).0 == key;
                    assert(rest[j - 1].0 == key);
                }
                if exists|j: int| 0 <= j < rest.len() && (#[trigger] rest[j]).0 == key {
                    let j = choose|j: int| 0 <= j < rest.len() && (#[trigger] rest[j]).0 == key;
                    assert(s[j + 1].0 == key);
                }
            }
        }
    }
}

proof fn lemma_sum_bal_push(s: Seq<(AccountId, Balance)>, entry: (AccountId, Balance))
    ensures
        sum_bal(s.push(entry)) == sum_bal(s) + entry.1,
    decreases s.len(),
{
    let t = s.push(entry);
    if s.len() == 0 {
        assert(t[0] == entry);
        assert(t.subrange(1, t.len() as int) =~= Seq::<(AccountId, Balance)>::empty());
        assert(sum_bal(Seq::<(AccountId, Balance)>::empty()) == 0);
    } else {
        let rest = s.subrange(1, s.len() as int);
        lemma_sum_bal_push(rest, entry);
        assert(t[0] == s[0]);
        assert(t.subrange(1, t.len() as int) =~= rest.push(entry));
    }
}

/// The balance table: account -> balance, with absent accounts at zero.
pub struct BalanceTable {
    entries: Vec<(AccountId, Balance)>,
}

impl BalanceTable {
    /// At most one entry per account.
    pub closed spec fn wf(self) -> bool {
        forall|i: int, j: int|
            0 <= i < j < self.entries@.len() ==> (#[trigger] self.entries@[i]).0 != (
            #[trigger] self.entries@[j]).0
    }

    /// The balance of `key`: the stored value, or zero when absent.
    pub closed spec fn spec_get(self, key: AccountId) -> Balance {
        lookup_bal(self.entries@, key)
    }

    /// The sum of every stored balance.
    pub closed spec fn spec_sum(self) -> int {
        sum_bal(self.entries@)
    }

    /// Any single balance is at most the sum of all of them.
    pub proof fn lemma_get_le_sum(&self, key: AccountId)
        ensures
            self.spec_get(key) <= self.spec_sum(),
            0 <= self.spec_sum(),
    {
        lemma_lookup_bal_le_sum(self.entries@, key);
    }

    pub fn empty() -> (table: Self)
        ensures
            table.wf(),
            table.spec_sum() == 0,
            forall|key: AccountId| table.spec_get(key) == 0,
    {
        BalanceTable { entries: Vec::new() }
    }

    pub fn get(&self, key: AccountId) -> (value: Balance)
        ensures
            value == self.spec_get(key),
    {
        let n = self.entries.len();
        let mut i: usize = 0;
        while i < n
            invariant
                n == self.entries@.len(),
                i <= n,
                forall|j: int| 0 <= j < i ==> (#[trigger] self.entries@[j]).0 != key,
            decreases n - i,
        {
            if self.entries[i].0 == key {
                proof {
                    lemma_lookup_bal_found(self.entries@, key, i as int);
                }
                return self.entries[i].1;
            }
            i += 1;
        }
        proof {
            lemma_lookup_bal_absent(self.entries@, key);
        }
        0
    }

    /// Stores `value` for `key`, overwriting the previous entry or adding one.
    pub fn set(&mut self, key: AccountId, value: Balance)
        requires
            old(self).wf(),
        ensures
            final(self).wf(),
            final(self).spec_get(key) == value,
            forall|other: AccountId|
                other != key ==> final(self).spec_get(other) == old(self).spec_get(other),
            final(self).spec_sum() == old(self).spec_sum() - old(self).spec_get(key) + value,
    {
        let ghost s0 = self.entries@;
        let n = self.entries.len();
        let mut i: usize = 0;
        while i < n
            invariant
                old(self).wf(),
                *self == *old(self),
                s0 == self.entries@,
                n == self.entries@.len(),
                i <= n,
                forall|j: int| 0 <= j < i ==> (#[trigger] self.entries@[j]).0 != key,
            decreases n - i,
        {
            if self.entries[i].0 == key {
                self.entries[i] = (key, value);
                proof {
                    assert(self.entries@ =~= s0.update(i as int, (s0[i as int].0, value)));
                    assert forall|a: int, b: int|
                        0 <= a < b < self.entries@.len() implies (#[trigger] self.entries@[a]).0
                        != (#[trigger] self.entries@[b]).0 by {
                        assert(s0[a].0 != s0[b].0);
                    }
                    lemma_lookup_bal_found(s0, key, i as int);
                    lemma_lookup_bal_update_match(s0, i as int, value);
                    lemma_sum_bal_update(s0, i as int, value);
                    assert forall|other: AccountId| other != key implies self.spec_get(other)
                        == old(self).spec_get(other) by {
                        lemma_lookup_bal_update_other(s0, i as int, value, other);
                    }
                }
                return ;
            }
            i += 1;
        }
        self.entries.push((key, value));
        proof {
            assert(self.entries@ =~= s0.push((key, value)));
            assert forall|a: int, b: int|
                0 <= a < b < self.entries@.len() implies (#[trigger] self.entries@[a]).0 != (
            #[trigger] self.entries@[b]).0 by {
                if b < s0.len() {
                    assert(s0[a].0 != s0[b].0);
                } else {
                    assert(self.entries@[a] == s0[a]);
                }
            }
            lemma_lookup_bal_absent(s0, key);
            lemma_sum_bal_push(s0, (key, value));
            lemma_lookup_bal_push(s0, (key, value), key);
            assert forall|other: AccountId| other != key implies self.spec_get(other) == old(
                self,
            ).spec_get(other) by {
                lemma_lookup_bal_push(s0, (key, value), other);
                if exists|j: int| 0 <= j < s0.len() && (#[trigger] s0[j]).0 == other {
                } else {
                    lemma_lookup_bal_absent(s0, other);
                }
            }
        }
    }
}

// ---------------------------------------------------------------------------
// Allowances
// ---------------------------------------------------------------------------

/// The value stored for the pair (`owner`, `spender`): the first entry that
/// carries that pair, or zero when no entry does.
pub(crate) open spec fn lookup_alw(
    s: Seq<(AccountId, AccountId, Balance)>,
    owner: AccountId,
    spender: AccountId,
) -> Balance
    decreases s.len(),
{
    if s.len() == 0 {
        0
    } else if s[0].0 == owner && s[0].1 == spender {
        s[0].2
    } else {
        lookup_alw(s.subrange(1, s.len() as int), owner, spender)
    }
}

proof fn lemma_lookup_alw_absent(
    s: Seq<(AccountId, AccountId, Balance)>,
    owner: AccountId,
    spender: AccountId,
)
    requires
        forall|j: int|
            0 <= j < s.len() ==> !((#[trigger] s[j]).0 == owner && s[j].1 == spender),
    ensures
        lookup_alw(s, owner, spender) == 0,
    decreases s.len(),
{
    if s.len() > 0 {
        let rest = s.subrange(1, s.len() as int);
        assert(forall|j: int|
            0 <= j < rest.len() ==> !((#[trigger] rest[j]).0 == owner && rest[j].1 == spender));
        lemma_lookup_alw_absent(rest, owner, spender);
    }
}

proof fn lemma_lookup_alw_found(
    s: Seq<(AccountId, AccountId, Balance)>,
    owner: AccountId,
    spender: AccountId,
    i: int,
)
    requires
        0 <= i < s.len(),
        s[i].0 == owner && s[i].1 == spender,
        forall|j: int| 0 <= j < i ==> !((#[trigger] s[j]).0 == owner && s[j].1 == spender),
    ensures
        lookup_alw(s, owner, spender) == s[i].2,
    decreases i,
{
    if i > 0 {
        let rest = s.subrange(1, s.len() as int);
        assert(forall|j: int|
            0 <= j < i - 1 ==> !((#[trigger] rest[j]).0 == owner && rest[j].1 == spender));
        lemma_lookup_alw_found(rest, owner, spender, i - 1);
    }
}

proof fn lemma_lookup_alw_update_match(
    s: Seq<(AccountId, AccountId, Balance)>,
    i: int,
    value: Balance,
)
    requires
        0 <= i < s.len(),
        forall|j: int|
            0 <= j < i ==> !((#[trigger] s[j]).0 == s[i].0 && s[j].1 == s[i].1),
    ensures
        lookup_alw(s.update(i, (s[i].0, s[i].1, value)), s[i].0, s[i].1) == value,
    decreases i,
{
    let t = s.update(i, (s[i].0, s[i].1, value));
    if i == 0 {
        assert(t[0] == (s[0].0, s[0].1, value));
    } else {
        let rest = s.subrange(1, s.len() as int);
        assert(forall|j: int|
            0 <= j < i - 1 ==> !((#[trigger] rest[j]).0 == rest[i - 1].0 && rest[j].1 == rest[i
                - 1].1));
        lemma_lookup_alw_update_match(rest, i - 1, value);
        assert(t.subrange(1, t.len() as int) =~= rest.update(
            i - 1,
            (rest[i - 1].0, rest[i - 1].1, value),
        ));
    }
}

proof fn lemma_lookup_alw_update_other(
    s: Seq<(AccountId, AccountId, Balance)>,
    i: int,
    value: Balance,
    owner: AccountId,
    spender: AccountId,
)
    requires
        0 <= i < s.len(),
        !(s[i].0 == owner && s[i].1 == spender),
    ensures
        lookup_alw(s.update(i, (s[i].0, s[i].1, value)), owner, spender) == lookup_alw(
            s,
            owner,
            spender,
        ),
    decreases i,
{
    let t = s.update(i, (s[i].0, s[i].1, value));
    if i == 0 {
        assert(t.subrange(1, t.len() as int) =~= s.subrange(1, s.len() as int));
    } else {
        let rest = s.subrange(1, s.len() as int);
        lemma_lookup_alw_update_other(rest, i - 1, value, owner, spender);
        assert(t.subrange(1, t.len() as int) =~= rest.update(
            i - 1,
            (rest[i - 1].0, rest[i - 1].1, value),
        ));
    }
}

proof fn lemma_lookup_alw_push(
    s: Seq<(AccountId, AccountId, Balance)>,
    entry: (AccountId, AccountId, Balance),
    owner: AccountId,
    spender: AccountId,
)
    ensures
        lookup_alw(s.push(entry), owner, spender) == if exists|j: int|
            0 <= j < s.len() && (#[trigger] s[j]).0 == owner && s[j].1 == spender {
            lookup_alw(s, owner, spender)
        } else if entry.0 == owner && entry.1 == spender {
            entry.2
        } else {
            0
        },
    decreases s.len(),
{
    let t = s.push(entry);
    if s.len() == 0 {
        assert(t[0] == entry);
        if !(entry.0 == owner && entry.1 == spender) {
            assert(t.subrange(1, t.len() as int) =~= Seq::<
                (AccountId, AccountId, Balance),
            >::empty());
            assert(lookup_alw(Seq::<(AccountId, AccountId, Balance)>::empty(), owner, spender)
                == 0);
        }
    } else {
        let rest = s.subrange(1, s.len() as int);
        lemma_lookup_alw_push(rest, entry, owner, spender);
        assert(t[0] == s[0]);
        assert(t.subrange(1, t.len() as int) =~= rest.push(entry));
        if s[0].0 == owner && s[0].1 == spender {
            assert(exists|j: int|
                0 <= j < s.len() && (#[trigger] s[j]).0 == owner && s[j].1 == spender);
        } else {
            assert((exists|j: int|
                0 <= j < s.len() && (#[trigger] s[j]).0 == owner && s[j].1 == spender) <==> (
            exists|j: int|
                0 <= j < rest.len() && (#[trigger] rest[j]).0 == owner && rest[j].1 == spender))
                by {
                if exists|j: int|
                    0 <= j < s.len() && (#[trigger] s[j]).0 == owner && s[j].1 == spender {
                    let j = choose|j: int|
                        0 <= j < s.len() && (#[trigger] s[j]).0 == owner && s[j].1 == spender;
                    assert(rest[j - 1].0 == owner && rest[j - 1].1 == spender);
                }
                if exists|j: int|
                    0 <= j < rest.len() && (#[trigger] rest[j]).0 == owner && rest[j].1
                        == spender {
                    let j = choose|j: int|
                        0 <= j < rest.len() && (#[trigger] rest[j]).0 == owner && rest[j].1
                            == spender;
                    assert(s[j + 1].0 == owner && s[j + 1].1 == spender);
                }
            }
        }
    }
}

/// The allowance table: (owner, spender) -> remaining allowance, with absent
/// pairs at zero.
pub struct AllowanceTable {
    entries: Vec<(AccountId, AccountId, Balance)>,
}

impl AllowanceTable {
    /// At most one entry per (owner, spender) pair.
    pub closed spec fn wf(self) -> bool {
        forall|i: int, j: int|
            0 <= i < j < self.entries@.len() ==> !((#[trigger] self.entries@[i]).0 == (
            #[trigger] self.entries@[j]).0 && self.entries@[i].1 == self.entries@[j].1)
    }

    /// The allowance granted by `owner` to `spender`: the stored value, or
    /// zero when absent.
    pub closed spec fn spec_get(self, owner: AccountId, spender: AccountId) -> Balance {
        lookup_alw(self.entries@, owner, spender)
    }

    pub fn empty() -> (table: Self)
        ensures
            table.wf(),
            forall|owner: AccountId, spender: AccountId| table.spec_get(owner, spender) == 0,
    {
        AllowanceTable { entries: Vec::new() }
    }

    pub fn get(&self, owner: AccountId, spender: AccountId) -> (value: Balance)
        ensures
            value == self.spec_get(owner, spender),
    {
        let n = self.entries.len();
        let mut i: usize = 0;
        while i < n
            invariant
                n == self.entries@.len(),
                i <= n,
                forall|j: int|
                    0 <= j < i ==> !((#[trigger] self.entries@[j]).0 == owner
                        && self.entries@[j].1 == spender),
            decreases n - i,
        {
            if self.entries[i].0 == owner && self.entries[i].1 == spender {
                proof {
                    lemma_lookup_alw_found(self.entries@, owner, spender, i as int);
                }
                return self.entries[i].2;
            }
            i += 1;
        }
        proof {
            lemma_lookup_alw_absent(self.entries@, owner, spender);
        }
        0
    }

    /// Stores `value` for the pair (`owner`, `spender`), overwriting the
    /// previous entry or adding one.
    pub fn set(&mut self, owner: AccountId, spender: AccountId, value: Balance)
        requires
            old(self).wf(),
        ensures
            final(self).wf(),
            final(self).spec_get(owner, spender) == value,
            forall|o: AccountId, s: AccountId|
                !(o == owner && s == spender) ==> final(self).spec_get(o, s) == old(
                    self,
                ).spec_get(o, s),
    {
        let ghost s0 = self.entries@;
        let n = self.entries.len();
        let mut i: usize = 0;
        while i < n
            invariant
                old(self).wf(),
                *self == *old(self),
                s0 == self.entries@,
                n == self.entries@.len(),
                i <= n,
                forall|j: int|
                    0 <= j < i ==> !((#[trigger] self.entries@[j]).0 == owner
                        && self.entries@[j].1 == spender),
            decreases n - i,
        {
            if self.entries[i].0 == owner && self.entries[i].1 == spender {
                self.entries[i] = (owner, spender, value);
                proof {
                    assert(self.entries@ =~= s0.update(
                        i as int,
                        (s0[i as int].0, s0[i as int].1, value),
                    ));
                    assert forall|a: int, b: int|
                        0 <= a < b < self.entries@.len() implies !((
                    #[trigger] self.entries@[a]).0 == (#[trigger] self.entries@[b]).0
                        && self.entries@[a].1 == self.entries@[b].1) by {
                        assert(!(s0[a].0 == s0[b].0 && s0[a].1 == s0[b].1));
                    }
                    lemma_lookup_alw_update_match(s0, i as int, value);
                    assert forall|o: AccountId, s: AccountId|
                        !(o == owner && s == spender) implies self.spec_get(o, s) == old(
                        self,
                    ).spec_get(o, s) by {
                        lemma_lookup_alw_update_other(s0, i as int, value, o, s);
                    }
                }
                return ;
            }
            i += 1;
        }
        self.entries.push((owner, spender, value));
        proof {
            assert(self.entries@ =~= s0.push((owner, spender, value)));
            assert forall|a: int, b: int|
                0 <= a < b < self.entries@.len() implies !((#[trigger] self.entries@[a]).0 == (
            #[trigger] self.entries@[b]).0 && self.entries@[a].1 == self.entries@[b].1) by {
                if b < s0.len() {
                    assert(!(s0[a].0 == s0[b].0 && s0[a].1 == s0[b].1));
                } else {
                    assert(self.entries@[a] == s0[a]);
                }
            }
            lemma_lookup_alw_push(s0, (owner, spender, value), owner, spender);
            assert forall|o: AccountId, s: AccountId|
                !(o == owner && s == spender) implies self.spec_get(o, s) == old(self).spec_get(
                o,
                s,
            ) by {
                lemma_lookup_alw_push(s0, (owner, spender, value), o, s);
                if exists|j: int| 0 <= j < s0.len() && (#[trigger] s0[j]).0 == o && s0[j].1 == s {
                } else {
                    lemma_lookup_alw_absent(s0, o, s);
                }
            }
        }
    }
}

} // verus!
