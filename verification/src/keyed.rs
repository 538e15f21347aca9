//! Sums over sequences, and the two small keyed collections that the stores
//! keep their books in: a set of byte strings and a table of counters.

use vstd::prelude::*;

use crate::text::bytes_eq;

verus! {

/// The sum of `f` over the items of `s`.
pub open spec fn sum_by<T>(s: Seq<T>, f: spec_fn(T) -> nat) -> nat
    decreases s.len(),
{
    if s.len() == 0 {
        0
    } else {
        sum_by(s.drop_last(), f) + f(s.last())
    }
}

pub proof fn lemma_sum_push<T>(s: Seq<T>, x: T, f: spec_fn(T) -> nat)
    ensures
        sum_by(s.push(x), f) == sum_by(s, f) + f(x),
{
    assert(s.push(x).drop_last() =~= s);
}

pub proof fn lemma_sum_concat<T>(a: Seq<T>, b: Seq<T>, f: spec_fn(T) -> nat)
    ensures
        sum_by(a + b, f) == sum_by(a, f) + sum_by(b, f),
    decreases b.len(),
{
    if b.len() == 0 {
        assert(a + b =~= a);
    } else {
        lemma_sum_concat(a, b.drop_last(), f);
        assert((a + b).drop_last() =~= a + b.drop_last());
    }
}

pub proof fn lemma_sum_remove<T>(s: Seq<T>, i: int, f: spec_fn(T) -> nat)
    requires
        0 <= i < s.len(),
    ensures
        sum_by(s.remove(i), f) + f(s[i]) == sum_by(s, f),
{
    lemma_sum_concat(s.take(i), s.skip(i), f);
    lemma_sum_concat(s.take(i), s.skip(i + 1), f);
    lemma_sum_concat(seq![s[i]], s.skip(i + 1), f);
    assert(s.take(i) + s.skip(i) =~= s);
    assert(s.take(i) + s.skip(i + 1) =~= s.remove(i));
    assert(seq![s[i]] + s.skip(i + 1) =~= s.skip(i));
    assert(seq![s[i]] =~= Seq::<T>::empty().push(s[i]));
    lemma_sum_push(Seq::<T>::empty(), s[i], f);
}

pub proof fn lemma_sum_update<T>(s: Seq<T>, i: int, x: T, f: spec_fn(T) -> nat)
    requires
        0 <= i < s.len(),
    ensures
        sum_by(s.update(i, x), f) + f(s[i]) == sum_by(s, f) + f(x),
{
    lemma_sum_remove(s, i, f);
    lemma_sum_remove(s.update(i, x), i, f);
    assert(s.update(i, x).remove(i) =~= s.remove(i));
}

pub proof fn lemma_sum_at_least<T>(s: Seq<T>, i: int, f: spec_fn(T) -> nat)
    requires
        0 <= i < s.len(),
    ensures
        f(s[i]) <= sum_by(s, f),
{
    lemma_sum_remove(s, i, f);
}

/// A sum is zero exactly when every summand is.
pub proof fn lemma_sum_zero<T>(s: Seq<T>, f: spec_fn(T) -> nat)
    ensures
        sum_by(s, f) == 0 <==> (forall|i: int| 0 <= i < s.len() ==> f(#[trigger] s[i]) == 0),
    decreases s.len(),
{
    if s.len() > 0 {
        lemma_sum_zero(s.drop_last(), f);
        if sum_by(s, f) == 0 {
            assert forall|i: int| 0 <= i < s.len() implies f(#[trigger] s[i]) == 0 by {
                lemma_sum_at_least(s, i, f);
            }
        } else if forall|i: int| 0 <= i < s.len() ==> f(#[trigger] s[i]) == 0 {
            assert forall|i: int| 0 <= i < s.drop_last().len() implies f(#[trigger] s.drop_last()[i]) == 0 by {
                assert(s.drop_last()[i] == s[i]);
            }
            assert(f(s[s.len() - 1]) == 0);
        }
    }
}

/// What a prefix one item longer contains.
pub proof fn lemma_take_contains<T>(s: Seq<T>, j: int, k: T)
    requires
        0 <= j < s.len(),
    ensures
        s.take(j + 1).contains(k) == (k == s[j] || s.take(j).contains(k)),
{
    let longer = s.take(j + 1);
    let shorter = s.take(j);
    if shorter.contains(k) {
        let m = choose|m: int| 0 <= m < shorter.len() && shorter[m] == k;
        assert(longer[m] == k);
    }
    if k == s[j] {
        assert(longer[j] == k);
    }
    if longer.contains(k) {
        let m = choose|m: int| 0 <= m < longer.len() && longer[m] == k;
        if m < j {
            assert(shorter[m] == k);
        }
    }
}

/// Filtering a prefix one item longer.
pub proof fn lemma_filter_step<T>(s: Seq<T>, j: int, keep: spec_fn(T) -> bool)
    requires
        0 <= j < s.len(),
    ensures
        s.take(j + 1).filter(keep) == if keep(s[j]) {
            s.take(j).filter(keep).push(s[j])
        } else {
            s.take(j).filter(keep)
        },
{
    reveal(Seq::filter);
    assert(s.take(j + 1).drop_last() =~= s.take(j));
}

/// A filtered sequence holds only items of the whole.
pub proof fn lemma_filter_from<T>(s: Seq<T>, keep: spec_fn(T) -> bool)
    ensures
        forall|i: int|
            0 <= i < s.filter(keep).len() ==> s.contains(#[trigger] s.filter(keep)[i]) && keep(
                s.filter(keep)[i],
            ),
        s.filter(keep).len() <= s.len(),
    decreases s.len(),
{
    reveal(Seq::filter);
    if s.len() > 0 {
        lemma_filter_from(s.drop_last(), keep);
        assert forall|i: int| 0 <= i < s.filter(keep).len() implies s.contains(
            #[trigger] s.filter(keep)[i],
        ) && keep(s.filter(keep)[i]) by {
            let rest = s.drop_last().filter(keep);
            if i < rest.len() {
                assert(s.filter(keep)[i] == rest[i]);
                assert(s.drop_last().contains(rest[i]));
                let m = choose|m: int| 0 <= m < s.drop_last().len() && s.drop_last()[m] == rest[i];
                assert(s[m] == rest[i]);
            } else {
                assert(s.filter(keep)[i] == s[s.len() - 1]);
            }
        }
    }
}

/// A set of byte strings.
pub struct ByteSet {
    items: Vec<Vec<u8>>,
}

impl ByteSet {
    /// The members, in the order in which they were added.
    pub closed spec fn listed(&self) -> Seq<Seq<u8>> {
        self.items@.map_values(|v: Vec<u8>| v@)
    }

    /// No byte string is listed twice.
    pub open spec fn wf(&self) -> bool {
        self.listed().no_duplicates()
    }

    /// The set of members.
    pub open spec fn view(&self) -> Set<Seq<u8>> {
        self.listed().to_set()
    }

    pub fn new() -> (r: ByteSet)
        ensures
            r.wf(),
            r@ == Set::<Seq<u8>>::empty(),
            r.listed().len() == 0,
    {
        let r = ByteSet { items: Vec::new() };
        assert(r@ =~= Set::<Seq<u8>>::empty());
        r
    }

    fn position(&self, key: &[u8]) -> (r: Option<usize>)
        ensures
            match r {
                Some(i) => i < self.listed().len() && self.listed()[i as int] == key@,
                None => !self@.contains(key@),
            },
    {
        let mut i: usize = 0;
        while i < self.items.len()
            invariant
                i <= self.items@.len(),
                forall|j: int| 0 <= j < i ==> #[trigger] self.listed()[j] != key@,
            decreases self.items@.len() - i,
        {
            if bytes_eq(self.items[i].as_slice(), key) {
                return Some(i);
            }
            assert(self.listed()[i as int] == self.items@[i as int]@);
            i += 1;
        }
        None
    }

    pub fn contains(&self, key: &[u8]) -> (r: bool)
        ensures
            r == self@.contains(key@),
    {
        self.position(key).is_some()
    }

    pub fn is_empty(&self) -> (r: bool)
        ensures
            r == (self@ == Set::<Seq<u8>>::empty()),
            r == (self.listed().len() == 0),
    {
        let r = self.items.len() == 0;
        proof {
            if r {
                assert(self@ =~= Set::<Seq<u8>>::empty());
            } else {
                assert(self.listed()[0] == self.items@[0]@);
                assert(self@.contains(self.listed()[0]));
            }
        }
        r
    }

    pub fn len(&self) -> (r: usize)
        ensures
            r == self.listed().len(),
    {
        self.items.len()
    }

    pub fn at(&self, i: usize) -> (r: &Vec<u8>)
        requires
            i < self.listed().len(),
        ensures
            r@ == self.listed()[i as int],
    {
        &self.items[i]
    }

    /// Adds a member; tells whether it is new.
    pub fn insert(&mut self, key: &[u8]) -> (r: bool)
        requires
            old(self).wf(),
        ensures
            final(self).wf(),
            r == !old(self)@.contains(key@),
            final(self)@ == old(self)@.insert(key@),
    {
        if self.contains(key) {
            assert(self@.insert(key@) =~= self@);
            return false;
        }
        let ghost before = self.listed();
        self.items.push(vstd::slice::slice_to_vec(key));
        proof {
            assert(self.listed() =~= before.push(key@));
            assert forall|i: int, j: int|
                0 <= i < self.listed().len() && 0 <= j < self.listed().len() && i
                    != j implies self.listed()[i] != self.listed()[j] by {
                if i == before.len() {
                    assert(before.contains(before[j]));
                } else if j == before.len() {
                    assert(before.contains(before[i]));
                }
            }
            assert forall|k: Seq<u8>| self@.contains(k) == before.to_set().insert(key@).contains(k) by {
                if before.contains(k) {
                    let i = choose|i: int| 0 <= i < before.len() && before[i] == k;
                    assert(self.listed()[i] == k);
                }
                if k == key@ {
                    assert(self.listed()[before.len() as int] == k);
                }
                if self.listed().contains(k) {
                    let i = choose|i: int| 0 <= i < self.listed().len() && self.listed()[i] == k;
                    if i < before.len() {
                        assert(before[i] == k);
                    }
                }
            }
            assert(self@ =~= before.to_set().insert(key@));
        }
        true
    }

    /// Takes a member out; tells whether it was there.
    pub fn remove(&mut self, key: &[u8]) -> (r: bool)
        requires
            old(self).wf(),
        ensures
            final(self).wf(),
            r == old(self)@.contains(key@),
            final(self)@ == old(self)@.remove(key@),
    {
        match self.position(key) {
            None => {
                assert(self@.remove(key@) =~= self@);
                false
            },
            Some(i) => {
                let ghost before = self.listed();
                proof {
                    assert(before[i as int] == key@);
                    assert(before.contains(key@));
                }
                self.items.remove(i);
                proof {
                    assert(self.listed() =~= before.remove(i as int));
                    assert forall|k: Seq<u8>| self@.contains(k) == before.to_set().remove(key@).contains(k) by {
                        if before.contains(k) && k != key@ {
                            let j = choose|j: int| 0 <= j < before.len() && before[j] == k;
                            if j < i {
                                assert(self.listed()[j] == k);
                            } else {
                                assert(self.listed()[j - 1] == k);
                            }
                        }
                        if self.listed().contains(k) {
                            let j = choose|j: int| 0 <= j < self.listed().len() && self.listed()[j] == k;
                            if j < i {
                                assert(before[j] == k);
                            } else {
                                assert(before[j + 1] == k);
                            }
                        }
                    }
                    assert(self@ =~= before.to_set().remove(key@));
                }
                true
            },
        }
    }
}

/// A table of counters keyed by byte strings. A key without a row counts zero.
pub struct CounterTable {
    keys: Vec<Vec<u8>>,
    counts: Vec<usize>,
}

impl CounterTable {
    closed spec fn key_seq(&self) -> Seq<Seq<u8>> {
        self.keys@.map_values(|v: Vec<u8>| v@)
    }

    /// No key has two rows, and no row counts zero.
    pub closed spec fn wf(&self) -> bool {
        &&& self.keys@.len() == self.counts@.len()
        &&& self.key_seq().no_duplicates()
        &&& forall|i: int| 0 <= i < self.counts@.len() ==> #[trigger] self.counts@[i] > 0
    }

    /// What is counted for `key`.
    pub closed spec fn count(&self, key: Seq<u8>) -> nat {
        if exists|i: int| 0 <= i < self.key_seq().len() && self.key_seq()[i] == key {
            self.counts@[choose|i: int| 0 <= i < self.key_seq().len() && self.key_seq()[i] == key] as nat
        } else {
            0
        }
    }

    /// The number of keys that count something.
    pub closed spec fn rows(&self) -> nat {
        self.keys@.len()
    }

    proof fn lemma_count(&self, i: int)
        requires
            self.wf(),
            0 <= i < self.keys@.len(),
        ensures
            self.count(self.keys@[i]@) == self.counts@[i],
    {
        assert(self.key_seq()[i] == self.keys@[i]@);
        let j = choose|j: int| 0 <= j < self.key_seq().len() && self.key_seq()[j] == self.keys@[i]@;
        assert(self.key_seq()[j] == self.key_seq()[i]);
        assert(i == j);
    }

    pub fn new() -> (r: CounterTable)
        ensures
            r.wf(),
            forall|k: Seq<u8>| r.count(k) == 0,
            r.rows() == 0,
    {
        CounterTable { keys: Vec::new(), counts: Vec::new() }
    }

    fn position(&self, key: &[u8]) -> (r: Option<usize>)
        requires
            self.wf(),
        ensures
            match r {
                Some(i) => i < self.keys@.len() && self.keys@[i as int]@ == key@ && self.count(key@)
                    == self.counts@[i as int],
                None => self.count(key@) == 0 && forall|j: int|
                    0 <= j < self.key_seq().len() ==> #[trigger] self.key_seq()[j] != key@,
            },
    {
        let mut i: usize = 0;
        while i < self.keys.len()
            invariant
                self.wf(),
                i <= self.keys@.len(),
                forall|j: int| 0 <= j < i ==> #[trigger] self.key_seq()[j] != key@,
            decreases self.keys@.len() - i,
        {
            if bytes_eq(self.keys[i].as_slice(), key) {
                proof {
                    self.lemma_count(i as int);
                }
                return Some(i);
            }
            assert(self.key_seq()[i as int] == self.keys@[i as int]@);
            i += 1;
        }
        None
    }

    pub fn is_empty(&self) -> (r: bool)
        ensures
            r == (self.rows() == 0),
    {
        self.keys.len() == 0
    }

    pub fn get(&self, key: &[u8]) -> (r: usize)
        requires
            self.wf(),
        ensures
            r == self.count(key@),
    {
        match self.position(key) {
            Some(i) => self.counts[i],
            None => 0,
        }
    }

    /// Sets the count of one key and leaves the others as they are.
    pub fn set(&mut self, key: &[u8], value: usize)
        requires
            old(self).wf(),
        ensures
            final(self).wf(),
            final(self).count(key@) == value,
            forall|k: Seq<u8>| k != key@ ==> final(self).count(k) == old(self).count(k),
    {
        let ghost before = *self;
        match self.position(key) {
            Some(i) => {
                if value == 0 {
                    self.keys.remove(i);
                    self.counts.remove(i);
                    proof {
                        assert(self.key_seq() =~= before.key_seq().remove(i as int));
                        assert(self.wf());
                        assert forall|k: Seq<u8>| self.count(k) == (if k == key@ {
                            0
                        } else {
                            before.count(k)
                        }) by {
                            self.lemma_removed(before, i as int, k);
                        }
                    }
                } else {
                    self.counts.set(i, value);
                    proof {
                        assert(self.key_seq() =~= before.key_seq());
                        assert(self.wf());
                        assert(self.keys@ == before.keys@);
                        self.lemma_count(i as int);
                        assert forall|k: Seq<u8>| k != key@ implies self.count(k) == before.count(
                            k,
                        ) by {
                            if exists|j: int| 0 <= j < self.key_seq().len() && self.key_seq()[j] == k {
                                let j = choose|j: int|
                                    0 <= j < self.key_seq().len() && self.key_seq()[j] == k;
                                self.lemma_count(j);
                                before.lemma_count(j);
                            }
                        }
                    }
                }
            },
            None => {
                if value != 0 {
                    self.keys.push(vstd::slice::slice_to_vec(key));
                    self.counts.push(value);
                    proof {
                        assert(self.key_seq() =~= before.key_seq().push(key@));
                        assert(self.wf());
                        self.lemma_count(before.keys@.len() as int);
                        assert forall|k: Seq<u8>| k != key@ implies self.count(k) == before.count(
                            k,
                        ) by {
                            self.lemma_pushed(before, key@, k);
                        }
                    }
                }
            },
        }
    }

    proof fn lemma_removed(&self, before: Self, i: int, k: Seq<u8>)
        requires
            self.wf(),
            before.wf(),
            0 <= i < before.keys@.len(),
            self.keys@ == before.keys@.remove(i),
            self.counts@ == before.counts@.remove(i),
        ensures
            self.count(k) == (if k == before.keys@[i]@ {
                0
            } else {
                before.count(k)
            }),
    {
        assert(self.key_seq() =~= before.key_seq().remove(i));
        assert(before.key_seq()[i] == before.keys@[i]@);
        if exists|j: int| 0 <= j < self.key_seq().len() && self.key_seq()[j] == k {
            let j = choose|j: int| 0 <= j < self.key_seq().len() && self.key_seq()[j] == k;
            self.lemma_count(j);
            let b = if j < i {
                j
            } else {
                j + 1
            };
            assert(before.key_seq()[b] == k);
            before.lemma_count(b);
        } else if exists|j: int| 0 <= j < before.key_seq().len() && before.key_seq()[j] == k {
            let j = choose|j: int| 0 <= j < before.key_seq().len() && before.key_seq()[j] == k;
            if j < i {
                assert(self.key_seq()[j] == k);
            } else if j > i {
                assert(self.key_seq()[j - 1] == k);
            }
        }
    }

    proof fn lemma_pushed(&self, before: Self, key: Seq<u8>, k: Seq<u8>)
        requires
            self.wf(),
            before.wf(),
            self.key_seq() == before.key_seq().push(key),
            self.counts@.len() == before.counts@.len() + 1,
            forall|i: int| 0 <= i < before.counts@.len() ==> self.counts@[i] == before.counts@[i],
            k != key,
        ensures
            self.count(k) == before.count(k),
    {
        if exists|j: int| 0 <= j < before.key_seq().len() && before.key_seq()[j] == k {
            let j = choose|j: int| 0 <= j < before.key_seq().len() && before.key_seq()[j] == k;
            assert(self.key_seq()[j] == k);
            self.lemma_count(j);
            before.lemma_count(j);
        } else if exists|j: int| 0 <= j < self.key_seq().len() && self.key_seq()[j] == k {
            let j = choose|j: int| 0 <= j < self.key_seq().len() && self.key_seq()[j] == k;
            assert(before.key_seq()[j] == k);
        }
    }

    /// Counts `amount` more for a key.
    pub fn increment(&mut self, key: &[u8], amount: usize)
        requires
            old(self).wf(),
            old(self).count(key@) + amount <= usize::MAX,
        ensures
            final(self).wf(),
            final(self).count(key@) == old(self).count(key@) + amount,
            forall|k: Seq<u8>| k != key@ ==> final(self).count(k) == old(self).count(k),
    {
        let current: usize = self.get(key);
        self.set(key, current + amount);
    }
}

/// Counts `amount` less for an owner, at least zero; a key that counts zero
/// leaves the table.
pub fn decrement_counter(map: &mut CounterTable, owner: &[u8], amount: usize)
    requires
        old(map).wf(),
    ensures
        final(map).wf(),
        final(map).count(owner@) == if old(map).count(owner@) >= amount {
            old(map).count(owner@) - amount
        } else {
            0
        },
        forall|k: Seq<u8>| k != owner@ ==> final(map).count(k) == old(map).count(k),
{
    let current: usize = map.get(owner);
    map.set(owner, current.saturating_sub(amount));
}

/// There are no more distinct places than there are places.
pub proof fn lemma_distinct_places(places: Seq<int>, count: nat)
    requires
        places.no_duplicates(),
        forall|i: int| 0 <= i < places.len() ==> 0 <= #[trigger] places[i] < count,
    ensures
        places.len() <= count,
{
    places.unique_seq_to_set();
    let all = vstd::set_lib::set_int_range(0, count as int);
    vstd::set_lib::lemma_int_range(0, count as int);
    assert(places.to_set().subset_of(all)) by {
        assert forall|x: int| #[trigger] places.to_set().contains(x) implies all.contains(x) by {
            let i = choose|i: int| 0 <= i < places.len() && places[i] == x;
            assert(0 <= places[i] < count);
        }
    }
    vstd::set_lib::lemma_len_subset(places.to_set(), all);
}

/// What was added is there, and what was there before still is.
pub proof fn lemma_push_contains<T>(s: Seq<T>, added: T, x: T)
    ensures
        s.push(added).contains(x) <==> x == added || s.contains(x),
{
    let longer = s.push(added);
    assert(longer[s.len() as int] == added);
    if s.contains(x) {
        let i = choose|i: int| 0 <= i < s.len() && s[i] == x;
        assert(longer[i] == x);
    }
    if longer.contains(x) && x != added {
        let i = choose|i: int| 0 <= i < longer.len() && longer[i] == x;
        assert(s[i] == x);
    }
}

} // verus!
