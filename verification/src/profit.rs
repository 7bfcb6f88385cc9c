//! The profit map: which lock is owed how much capacity, accumulated across
//! the New items of a confirmed proposal. An association list keyed by lock,
//! with a recursive mathematical model and the summation lemmas the income
//! reconciliation rests on.

use vstd::prelude::*;

verus! {

use crate::entity::IncomeRecord;
use crate::entity::IncomeRecordV;
use crate::entity::records_v;
use crate::model::Script;
use crate::model::ScriptV;
use crate::model::script_clone;
use crate::model::script_eq;

/// The capacity the map holds for a lock: the first entry with that key.
pub open spec fn map_get(m: Seq<IncomeRecordV>, lock: ScriptV) -> Option<u64>
    decreases m.len(),
{
    if m.len() == 0 {
        Option::None
    } else if m[0].belong_to == lock {
        Option::Some(m[0].capacity)
    } else {
        map_get(m.subrange(1, m.len() as int), lock)
    }
}

/// The map after crediting `amount` to a lock: added to its entry when one
/// exists, appended as a fresh entry otherwise; nothing on `u64` overflow.
pub open spec fn map_add(m: Seq<IncomeRecordV>, lock: ScriptV, amount: u64) -> Option<
    Seq<IncomeRecordV>,
>
    decreases m.len(),
{
    if m.len() == 0 {
        Option::Some(seq![IncomeRecordV { belong_to: lock, capacity: amount }])
    } else if m[0].belong_to == lock {
        if m[0].capacity + amount <= u64::MAX {
            Option::Some(
                seq![IncomeRecordV { belong_to: lock, capacity: (m[0].capacity + amount) as u64 }]
                    + m.subrange(1, m.len() as int),
            )
        } else {
            Option::None
        }
    } else {
        match map_add(m.subrange(1, m.len() as int), lock, amount) {
            Option::None => Option::None,
            Option::Some(rest) => Option::Some(seq![m[0]] + rest),
        }
    }
}

/// The map with the first entry keyed by `lock` taken out.
pub open spec fn map_remove(m: Seq<IncomeRecordV>, lock: ScriptV) -> Seq<IncomeRecordV>
    decreases m.len(),
{
    if m.len() == 0 {
        m
    } else if m[0].belong_to == lock {
        m.subrange(1, m.len() as int)
    } else {
        seq![m[0]] + map_remove(m.subrange(1, m.len() as int), lock)
    }
}

/// The sum of all capacities the map holds.
pub open spec fn map_sum(m: Seq<IncomeRecordV>) -> int
    decreases m.len(),
{
    if m.len() == 0 {
        0int
    } else {
        m[0].capacity + map_sum(m.subrange(1, m.len() as int))
    }
}

/// Crediting an amount raises the sum by exactly that amount.
pub proof fn lemma_map_add_sum(m: Seq<IncomeRecordV>, lock: ScriptV, amount: u64)
    ensures
        match map_add(m, lock, amount) {
            Option::Some(m2) => map_sum(m2) == map_sum(m) + amount,
            Option::None => true,
        },
    decreases m.len(),
{
    if m.len() == 0 {
        match map_add(m, lock, amount) {
            Option::Some(m2) => {
                assert(m2.subrange(1, m2.len() as int) =~= Seq::<IncomeRecordV>::empty());
                assert(map_sum(m2) == m2[0].capacity + map_sum(m2.subrange(1, m2.len() as int)));
                assert(map_sum(m2) == amount + 0);
            },
            Option::None => {},
        }
    } else if m[0].belong_to == lock {
        match map_add(m, lock, amount) {
            Option::Some(m2) => {
                assert(m2.subrange(1, m2.len() as int) =~= m.subrange(1, m.len() as int));
                assert(map_sum(m2) == m2[0].capacity + map_sum(m2.subrange(1, m2.len() as int)));
                assert(map_sum(m) == m[0].capacity + map_sum(m.subrange(1, m.len() as int)));
                assert(m2[0].capacity == m[0].capacity + amount);
            },
            Option::None => {},
        }
    } else {
        lemma_map_add_sum(m.subrange(1, m.len() as int), lock, amount);
        match map_add(m.subrange(1, m.len() as int), lock, amount) {
            Option::Some(rest) => {
                let m2 = seq![m[0]] + rest;
                assert(map_add(m, lock, amount) == Option::Some(m2));
                assert(m2.subrange(1, m2.len() as int) =~= rest);
                assert(map_sum(m2) == m2[0].capacity + map_sum(m2.subrange(1, m2.len() as int)));
                assert(map_sum(m) == m[0].capacity + map_sum(m.subrange(1, m.len() as int)));
            },
            Option::None => {},
        }
    }
}

/// Removing a present entry lowers the sum by exactly its capacity.
pub proof fn lemma_map_remove_sum(m: Seq<IncomeRecordV>, lock: ScriptV)
    ensures
        match map_get(m, lock) {
            Option::Some(c) => map_sum(map_remove(m, lock)) == map_sum(m) - c,
            Option::None => map_remove(m, lock) == m,
        },
    decreases m.len(),
{
    if m.len() == 0 {
    } else if m[0].belong_to == lock {
    } else {
        lemma_map_remove_sum(m.subrange(1, m.len() as int), lock);
        match map_get(m.subrange(1, m.len() as int), lock) {
            Option::Some(c) => {
                let m2 = seq![m[0]] + map_remove(m.subrange(1, m.len() as int), lock);
                assert(m2.subrange(1, m2.len() as int) =~= map_remove(
                    m.subrange(1, m.len() as int),
                    lock,
                ));
            },
            Option::None => {
                assert(seq![m[0]] + m.subrange(1, m.len() as int) =~= m);
            },
        }
    }
}

/// An empty map sums to nothing; its lookups find nothing.
pub proof fn lemma_map_empty(m: Seq<IncomeRecordV>)
    requires
        m.len() == 0,
    ensures
        map_sum(m) == 0,
        forall|lock: ScriptV| map_get(m, lock) is None,
{
}

/// The profit map a confirm run accumulates.
pub struct ProfitMap {
    pub entries: Vec<IncomeRecord>,
}

impl View for ProfitMap {
    type V = Seq<IncomeRecordV>;

    open spec fn view(&self) -> Seq<IncomeRecordV> {
        records_v(self.entries@)
    }
}

/// The first index keyed by the lock is `i`; earlier entries miss it.
spec fn first_match_at(m: Seq<IncomeRecordV>, lock: ScriptV, i: int) -> bool {
    &&& 0 <= i < m.len()
    &&& m[i].belong_to == lock
    &&& forall|j: int| 0 <= j < i ==> (#[trigger] m[j]).belong_to != lock
}

/// A lookup that hits its first match at `i` yields that entry's capacity.
proof fn lemma_map_get_at(m: Seq<IncomeRecordV>, lock: ScriptV, i: int)
    requires
        first_match_at(m, lock, i),
    ensures
        map_get(m, lock) == Option::Some(m[i].capacity),
    decreases i,
{
    if i > 0 {
        let rest = m.subrange(1, m.len() as int);
        assert(forall|j: int| 0 <= j < i - 1 ==> #[trigger] rest[j] == m[j + 1]);
        lemma_map_get_at(rest, lock, i - 1);
    }
}

/// A lookup over a map without the key yields nothing.
proof fn lemma_map_get_absent(m: Seq<IncomeRecordV>, lock: ScriptV)
    requires
        forall|j: int| 0 <= j < m.len() ==> (#[trigger] m[j]).belong_to != lock,
    ensures
        map_get(m, lock) is None,
    decreases m.len(),
{
    if m.len() > 0 {
        let rest = m.subrange(1, m.len() as int);
        assert(forall|j: int| 0 <= j < rest.len() ==> #[trigger] rest[j] == m[j + 1]);
        lemma_map_get_absent(rest, lock);
    }
}

/// Crediting a key whose first match sits at `i` updates that entry in
/// place.
proof fn lemma_map_add_at(m: Seq<IncomeRecordV>, lock: ScriptV, amount: u64, i: int)
    requires
        first_match_at(m, lock, i),
        m[i].capacity + amount <= u64::MAX,
    ensures
        map_add(m, lock, amount) == Option::Some(
            m.update(
                i,
                IncomeRecordV { belong_to: lock, capacity: (m[i].capacity + amount) as u64 },
            ),
        ),
    decreases i,
{
    let rest = m.subrange(1, m.len() as int);
    if i == 0 {
        assert(seq![IncomeRecordV { belong_to: lock, capacity: (m[0].capacity + amount) as u64 }]
            + rest =~= m.update(
            0,
            IncomeRecordV { belong_to: lock, capacity: (m[0].capacity + amount) as u64 },
        ));
    } else {
        assert(forall|j: int| 0 <= j < rest.len() ==> #[trigger] rest[j] == m[j + 1]);
        lemma_map_add_at(rest, lock, amount, i - 1);
        let e = IncomeRecordV { belong_to: lock, capacity: (m[i].capacity + amount) as u64 };
        assert(seq![m[0]] + rest.update(i - 1, e) =~= m.update(i, e));
    }
}

/// Crediting a key whose first match sits at `i` overflows exactly when that
/// entry would exceed `u64`.
proof fn lemma_map_add_overflow_at(m: Seq<IncomeRecordV>, lock: ScriptV, amount: u64, i: int)
    requires
        first_match_at(m, lock, i),
        m[i].capacity + amount > u64::MAX,
    ensures
        map_add(m, lock, amount) is None,
    decreases i,
{
    if i > 0 {
        let rest = m.subrange(1, m.len() as int);
        assert(forall|j: int| 0 <= j < rest.len() ==> #[trigger] rest[j] == m[j + 1]);
        lemma_map_add_overflow_at(rest, lock, amount, i - 1);
    }
}

/// Crediting an absent key appends a fresh entry.
proof fn lemma_map_add_absent(m: Seq<IncomeRecordV>, lock: ScriptV, amount: u64)
    requires
        forall|j: int| 0 <= j < m.len() ==> (#[trigger] m[j]).belong_to != lock,
    ensures
        map_add(m, lock, amount) == Option::Some(
            m.push(IncomeRecordV { belong_to: lock, capacity: amount }),
        ),
    decreases m.len(),
{
    let e = IncomeRecordV { belong_to: lock, capacity: amount };
    if m.len() == 0 {
        assert(seq![e] =~= m.push(e));
    } else {
        let rest = m.subrange(1, m.len() as int);
        assert(forall|j: int| 0 <= j < rest.len() ==> #[trigger] rest[j] == m[j + 1]);
        lemma_map_add_absent(rest, lock, amount);
        assert(seq![m[0]] + rest.push(e) =~= m.push(e));
    }
}

/// Removing a key whose first match sits at `i` takes that entry out.
proof fn lemma_map_remove_at(m: Seq<IncomeRecordV>, lock: ScriptV, i: int)
    requires
        first_match_at(m, lock, i),
    ensures
        map_remove(m, lock) == m.remove(i),
    decreases i,
{
    let rest = m.subrange(1, m.len() as int);
    if i == 0 {
        assert(rest =~= m.remove(0));
    } else {
        assert(forall|j: int| 0 <= j < rest.len() ==> #[trigger] rest[j] == m[j + 1]);
        lemma_map_remove_at(rest, lock, i - 1);
        assert(seq![m[0]] + rest.remove(i - 1) =~= m.remove(i));
    }
}

impl ProfitMap {
    /// A fresh, empty map.
    pub fn new() -> (r: ProfitMap)
        ensures
            r@.len() == 0,
    {
        let r = ProfitMap { entries: Vec::new() };
        proof {
            assert(r@.len() == 0);
        }
        r
    }

    /// How many locks the map holds.
    pub fn len(&self) -> (r: usize)
        ensures
            r == self@.len(),
    {
        self.entries.len()
    }

    /// Whether the map holds nothing.
    pub fn is_empty(&self) -> (r: bool)
        ensures
            r == (self@.len() == 0),
    {
        self.entries.len() == 0
    }

    /// The first index keyed by the lock, if any.
    fn index_of(&self, lock: &Script) -> (r: Option<usize>)
        ensures
            match r {
                Option::Some(i) => first_match_at(self@, lock@, i as int),
                Option::None => forall|j: int|
                    0 <= j < self@.len() ==> (#[trigger] self@[j]).belong_to != lock@,
            },
    {
        let n: usize = self.entries.len();
        let mut i: usize = 0;
        while i < n
            invariant
                n == self.entries@.len(),
                i <= n,
                forall|j: int| 0 <= j < i ==> (#[trigger] self@[j]).belong_to != lock@,
            decreases n - i,
        {
            if script_eq(&self.entries[i].belong_to, lock) {
                proof {
                    assert(self@[i as int] == self.entries@[i as int]@);
                }
                return Option::Some(i);
            }
            proof {
                assert(self@[i as int] == self.entries@[i as int]@);
            }
            i += 1;
        }
        Option::None
    }

    /// Looks a lock up, exactly as `map_get` reads the model.
    pub fn get(&self, lock: &Script) -> (r: Option<u64>)
        ensures
            r == map_get(self@, lock@),
    {
        match self.index_of(lock) {
            Option::Some(i) => {
                proof {
                    lemma_map_get_at(self@, lock@, i as int);
                }
                Option::Some(self.entries[i].capacity)
            },
            Option::None => {
                proof {
                    lemma_map_get_absent(self@, lock@);
                }
                Option::None
            },
        }
    }

    /// Credits `amount` to a lock, exactly as `map_add` changes the model;
    /// answers false, leaving the map unchanged, exactly when that entry
    /// would overflow.
    pub fn add(&mut self, lock: &Script, amount: u64) -> (r: bool)
        ensures
            match map_add(old(self)@, lock@, amount) {
                Option::Some(m2) => r && final(self)@ == m2,
                Option::None => !r && final(self)@ == old(self)@,
            },
    {
        match self.index_of(lock) {
            Option::Some(i) => {
                let have: u64 = self.entries[i].capacity;
                if amount <= u64::MAX - have {
                    proof {
                        lemma_map_add_at(self@, lock@, amount, i as int);
                    }
                    let ghost pre = self@;
                    let entry = vstd::std_specs::vec::vec_index_mut(&mut self.entries, i);
                    entry.capacity = have + amount;
                    proof {
                        assert(records_v(self.entries@) =~= pre.update(
                            i as int,
                            IncomeRecordV { belong_to: lock@, capacity: (have + amount) as u64 },
                        ));
                    }
                    true
                } else {
                    proof {
                        lemma_map_add_overflow_at(self@, lock@, amount, i as int);
                    }
                    false
                }
            },
            Option::None => {
                proof {
                    lemma_map_add_absent(self@, lock@, amount);
                }
                let ghost pre = self@;
                self.entries.push(IncomeRecord { belong_to: script_clone(lock), capacity: amount });
                proof {
                    assert(records_v(self.entries@) =~= pre.push(
                        IncomeRecordV { belong_to: lock@, capacity: amount },
                    ));
                }
                true
            },
        }
    }

    /// Takes a lock's entry out, exactly as `map_remove` changes the model.
    pub fn remove(&mut self, lock: &Script)
        ensures
            final(self)@ == map_remove(old(self)@, lock@),
    {
        match self.index_of(lock) {
            Option::Some(i) => {
                proof {
                    lemma_map_remove_at(self@, lock@, i as int);
                }
                let ghost pre = self@;
                self.entries.remove(i);
                proof {
                    assert(records_v(self.entries@) =~= pre.remove(i as int));
                }
            },
            Option::None => {
                proof {
                    lemma_map_remove_absent(self@, lock@);
                }
            },
        }
    }
}

/// Removing an absent key leaves the map as it stands.
proof fn lemma_map_remove_absent(m: Seq<IncomeRecordV>, lock: ScriptV)
    requires
        forall|j: int| 0 <= j < m.len() ==> (#[trigger] m[j]).belong_to != lock,
    ensures
        map_remove(m, lock) == m,
    decreases m.len(),
{
    if m.len() > 0 {
        let rest = m.subrange(1, m.len() as int);
        assert(forall|j: int| 0 <= j < rest.len() ==> #[trigger] rest[j] == m[j + 1]);
        lemma_map_remove_absent(rest, lock);
        assert(seq![m[0]] + rest =~= m);
    }
}

} // verus!
