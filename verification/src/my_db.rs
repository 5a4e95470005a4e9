use vstd::prelude::*;
use crate::clock::Timestamp;

verus! {

/// The longest time, in milliseconds, that a changed store goes without a
/// snapshot being asked for.
pub const PERSIST_INTERVAL_MILLIS: i64 = 5000;

/// Whether no key occurs twice among `entries`.
pub open spec fn distinct_keys<T>(entries: Seq<(String, T)>) -> bool {
    forall|i: int, j: int|
        0 <= i < j < entries.len() ==> (#[trigger] entries[i]).0@ != (#[trigger] entries[j]).0@
}

/// Whether some entry of `entries` is filed under `key`.
pub open spec fn has_key<T>(entries: Seq<(String, T)>, key: Seq<char>) -> bool {
    exists|i: int| 0 <= i < entries.len() && (#[trigger] entries[i]).0@ == key
}

/// The position of an entry filed under `key`; meaningful where there is one.
pub open spec fn position_of<T>(entries: Seq<(String, T)>, key: Seq<char>) -> int {
    choose|i: int| 0 <= i < entries.len() && (#[trigger] entries[i]).0@ == key
}

/// The record filed under `key`, if any.
pub open spec fn lookup<T>(entries: Seq<(String, T)>, key: Seq<char>) -> Option<T> {
    if has_key(entries, key) {
        Some(entries[position_of(entries, key)].1)
    } else {
        None
    }
}

/// `entries` after `value` has been filed under `key`: in the place of the
/// record that was there, or behind all others where the key is new.
pub open spec fn upsert<T>(entries: Seq<(String, T)>, key: String, value: T) -> Seq<(String, T)> {
    if has_key(entries, key@) {
        entries.update(position_of(entries, key@), (entries[position_of(entries, key@)].0, value))
    } else {
        entries.push((key, value))
    }
}

/// `base` after each of `records` has been filed in it, first to last.
pub open spec fn upsert_all<T>(base: Seq<(String, T)>, records: Seq<(String, T)>) -> Seq<
    (String, T),
>
    decreases records.len(),
{
    if records.len() == 0 {
        base
    } else {
        upsert(upsert_all(base, records.drop_last()), records.last().0, records.last().1)
    }
}

/// Whether a store last saved at `last_save` owes a snapshot at `now`.
pub open spec fn persist_due(last_save: Timestamp, now: Timestamp) -> bool {
    now.millis_since(last_save) > PERSIST_INTERVAL_MILLIS
}

/// The start of the saving interval after a write at `now` into a store
/// whose interval started at `last_save`.
pub open spec fn clock_after(last_save: Timestamp, now: Timestamp) -> Timestamp {
    if persist_due(last_save, now) {
        now
    } else {
        last_save
    }
}

/// Where distinct keys are given, the one position that holds `key` is the
/// position that `position_of` names.
pub proof fn lemma_position_unique<T>(entries: Seq<(String, T)>, key: Seq<char>, i: int)
    requires
        distinct_keys(entries),
        0 <= i < entries.len(),
        entries[i].0@ == key,
    ensures
        has_key(entries, key),
        position_of(entries, key) == i,
        lookup(entries, key) == Some(entries[i].1),
{
    let p = position_of(entries, key);
    assert(0 <= p < entries.len() && entries[p].0@ == key);
    if p < i {
        assert(entries[p].0@ != entries[i].0@);
    } else if i < p {
        assert(entries[i].0@ != entries[p].0@);
    }
}

/// Whether `f` can be asked about every entry of `entries`.
pub open spec fn can_judge<T, F: Fn(&(&String, &T)) -> bool>(f: F, entries: Seq<(String, T)>) -> bool {
    forall|i: int|
        0 <= i < entries.len() ==> call_requires(f, (&(&(#[trigger] entries[i]).0, &entries[i].1),))
}

/// Whether every answer that `f` may give about an entry of `entries` is
/// the answer of `pred`.
pub open spec fn agrees<T, F: Fn(&(&String, &T)) -> bool>(
    f: F,
    entries: Seq<(String, T)>,
    pred: spec_fn((String, T)) -> bool,
) -> bool {
    forall|i: int, answer: bool|
        0 <= i < entries.len() && #[trigger] call_ensures(f, (&(&entries[i].0, &entries[i].1),), answer)
            ==> answer == pred(entries[i])
}

/// What satisfies `pred` among the first `n` entries stands at the front of
/// what satisfies it among all.
pub proof fn lemma_filter_prefix<A>(entries: Seq<A>, pred: spec_fn(A) -> bool, n: int)
    requires
        0 <= n <= entries.len(),
    ensures
        entries.take(n).filter(pred).len() <= entries.filter(pred).len(),
        forall|j: int|
            0 <= j < entries.take(n).filter(pred).len() ==> #[trigger] entries.filter(pred)[j]
                == entries.take(n).filter(pred)[j],
{
    assert(entries =~= entries.take(n) + entries.skip(n));
    Seq::filter_distributes_over_add(entries.take(n), entries.skip(n), pred);
}

/// The number of records that a filter hands out: all that pass, or `limit`
/// of them where fewer are asked for.
pub open spec fn capped(passing: nat, limit: Option<usize>) -> nat {
    match limit {
        Some(n) => if (n as nat) < passing { n as nat } else { passing },
        None => passing,
    }
}

/// Filing a record keeps the keys distinct, makes the record the one found
/// under its key, and leaves what is found under every other key as it was.
pub proof fn lemma_upsert<T>(entries: Seq<(String, T)>, key: String, value: T)
    requires
        distinct_keys(entries),
    ensures
        distinct_keys(upsert(entries, key, value)),
        lookup(upsert(entries, key, value), key@) == Some(value),
        forall|other: Seq<char>|
            other != key@ ==> #[trigger] lookup(upsert(entries, key, value), other) == lookup(
                entries,
                other,
            ),
        has_key(entries, key@) ==> upsert(entries, key, value).len() == entries.len(),
        !has_key(entries, key@) ==> upsert(entries, key, value).len() == entries.len() + 1,
{
    let after = upsert(entries, key, value);
    if has_key(entries, key@) {
        let p = position_of(entries, key@);
        assert(0 <= p < entries.len() && entries[p].0@ == key@);
        assert forall|i: int, j: int| 0 <= i < j < after.len() implies (#[trigger] after[i]).0@ != (
        #[trigger] after[j]).0@ by {
            assert(entries[i].0@ != entries[j].0@);
        }
        lemma_position_unique(after, key@, p);
        assert forall|other: Seq<char>| other != key@ implies #[trigger] lookup(after, other)
            == lookup(entries, other) by {
            if has_key(entries, other) {
                let q = position_of(entries, other);
                assert(0 <= q < entries.len() && entries[q].0@ == other);
                assert(after[q] == entries[q]);
                lemma_position_unique(after, other, q);
            } else if has_key(after, other) {
                let q = position_of(after, other);
                assert(0 <= q < after.len() && after[q].0@ == other);
                assert(entries[q].0@ == other);
            }
        }
    } else {
        let p = entries.len() as int;
        assert forall|i: int, j: int| 0 <= i < j < after.len() implies (#[trigger] after[i]).0@ != (
        #[trigger] after[j]).0@ by {
            if j < p {
                assert(entries[i].0@ != entries[j].0@);
            } else {
                assert(entries[i].0@ != key@);
            }
        }
        lemma_position_unique(after, key@, p);
        assert forall|other: Seq<char>| other != key@ implies #[trigger] lookup(after, other)
            == lookup(entries, other) by {
            if has_key(entries, other) {
                let q = position_of(entries, other);
                assert(0 <= q < entries.len() && entries[q].0@ == other);
                assert(after[q] == entries[q]);
                lemma_position_unique(after, other, q);
            } else if has_key(after, other) {
                let q = position_of(after, other);
                assert(0 <= q < after.len() && after[q].0@ == other);
                assert(entries[q].0@ == other);
            }
        }
    }
}

/// Two writes that are no more than the saving interval apart do not both
/// call for a snapshot: where the write at `first` does, the interval starts
/// again there, and the write at `second` finds it still running.
pub proof fn lemma_throttle_spares_close_writes(
    last_save: Timestamp,
    first: Timestamp,
    second: Timestamp,
)
    requires
        second.millis_since(first) <= PERSIST_INTERVAL_MILLIS,
    ensures
        !(persist_due(last_save, first) && persist_due(
            clock_after(last_save, first),
            second,
        )),
{
}

/// Two writes call for a snapshot each where the first comes more than the
/// saving interval after the last snapshot and the second more than the
/// interval after the first.
pub proof fn lemma_throttle_serves_distant_writes(
    last_save: Timestamp,
    first: Timestamp,
    second: Timestamp,
)
    requires
        first.millis_since(last_save) > PERSIST_INTERVAL_MILLIS,
        second.millis_since(first) > PERSIST_INTERVAL_MILLIS,
    ensures
        persist_due(last_save, first),
        persist_due(clock_after(last_save, first), second),
{
}

/// The position in `data` at which `key` is filed.
pub fn find<T>(data: &Vec<(String, T)>, key: &String) -> (at: Option<usize>)
    requires
        distinct_keys(data@),
    ensures
        at is Some <==> has_key(data@, key@),
        at matches Some(i) ==> i < data@.len() && i == position_of(data@, key@),
{
    let mut i: usize = 0;
    while i < data.len()
        invariant
            distinct_keys(data@),
            0 <= i <= data.len(),
            forall|j: int| 0 <= j < i ==> (#[trigger] data@[j]).0@ != key@,
        decreases data.len() - i,
    {
        if data[i].0 == *key {
            proof {
                lemma_position_unique(data@, key@, i as int);
            }
            return Some(i);
        }
        i += 1;
    }
    None
}

/// Files `value` under `key` in `data` and hands back the record that it
/// replaces.
pub fn put<T>(data: &mut Vec<(String, T)>, key: &String, value: T) -> (previous: Option<T>)
    requires
        distinct_keys(old(data)@),
    ensures
        distinct_keys(final(data)@),
        final(data)@ == upsert(old(data)@, *key, value),
        previous == lookup(old(data)@, key@),
{
    let ghost filed = value;
    match find(data, key) {
        Some(i) => {
            let mut slot = value;
            core::mem::swap(&mut data[i].1, &mut slot);
            assert(data@ =~= upsert(old(data)@, *key, filed));
            Some(slot)
        },
        None => {
            data.push((key.clone(), value));
            None
        },
    }
}

/// What `set` hands back.
#[derive(Debug, PartialEq, Eq)]
pub struct SetOutcome<T> {
    /// The record that the key held before.
    pub previous: Option<T>,
    /// Whether the whole store is to be written out now.
    pub persist_due: bool,
}

/// Records filed under string keys, one per key, kept in the order in which
/// their keys first came.
#[derive(Debug, PartialEq, Eq)]
pub struct KeyValueStore<T> {
    pub data: Vec<(String, T)>,
    pub path: String,
    pub last_save_at: Timestamp,
}

impl<T> View for KeyValueStore<T> {
    type V = Seq<(String, T)>;

    open spec fn view(&self) -> Seq<(String, T)> {
        self.data@
    }
}

impl<T> KeyValueStore<T> {
    /// The store's invariant: no key is held twice.
    pub open spec fn wf(&self) -> bool {
        distinct_keys(self@)
    }

    /// An empty store that belongs to the file at `path` and counts its
    /// saving interval from `now`.
    pub fn new_at(path: &str, now: Timestamp) -> (store: Self)
        ensures
            store.wf(),
            store@ == Seq::<(String, T)>::empty(),
            store.path@ == path@,
            store.last_save_at == now,
    {
        KeyValueStore { data: Vec::new(), path: path.to_owned(), last_save_at: now }
    }

    /// An empty store that belongs to the file at `path`; its saving interval
    /// starts at the time of the call.
    pub fn new(path: &str) -> (store: Self)
        ensures
            store.wf(),
            store@ == Seq::<(String, T)>::empty(),
            store.path@ == path@,
    {
        Self::new_at(path, Timestamp::now())
    }

    /// Whether the store's invariant holds: for a caller that has filled
    /// `data` by hand.
    pub fn is_well_formed(&self) -> (ok: bool)
        ensures
            ok == self.wf(),
    {
        let mut j: usize = 0;
        while j < self.data.len()
            invariant
                0 <= j <= self.data.len(),
                forall|a: int, b: int|
                    0 <= a < b < j ==> (#[trigger] self@[a]).0@ != (#[trigger] self@[b]).0@,
            decreases self.data.len() - j,
        {
            let mut i: usize = 0;
            while i < j
                invariant
                    0 <= i <= j < self.data.len(),
                    forall|a: int| 0 <= a < i ==> (#[trigger] self@[a]).0@ != self@[j as int].0@,
                decreases j - i,
            {
                if self.data[i].0 == self.data[j].0 {
                    return false;
                }
                i += 1;
            }
            j += 1;
        }
        true
    }

    /// The number of records.
    pub fn len(&self) -> (n: usize)
        ensures
            n == self@.len(),
    {
        self.data.len()
    }

    /// All records, in the store's order.
    pub fn get_all(&self) -> (all: Vec<&T>)
        ensures
            all@.len() == self@.len(),
            forall|i: int| 0 <= i < all@.len() ==> *(#[trigger] all@[i]) == self@[i].1,
    {
        let mut all: Vec<&T> = Vec::new();
        let mut i: usize = 0;
        while i < self.data.len()
            invariant
                0 <= i <= self.data.len(),
                all@.len() == i,
                forall|j: int| 0 <= j < i ==> *(#[trigger] all@[j]) == self@[j].1,
            decreases self.data.len() - i,
        {
            all.push(&self.data[i].1);
            i += 1;
        }
        all
    }

    /// The record filed under `key`.
    pub fn get(&self, key: &String) -> (found: Option<&T>)
        requires
            self.wf(),
        ensures
            match found {
                Some(record) => lookup(self@, key@) == Some(*record),
                None => lookup(self@, key@) is None,
            },
    {
        match find(&self.data, key) {
            Some(i) => Some(&self.data[i].1),
            None => None,
        }
    }

    /// A copy of the record filed under `key`.
    pub fn get_cloned(&self, key: &String) -> (copy: Option<T>) where T: Clone
        requires
            self.wf(),
        ensures
            match copy {
                Some(record) => lookup(self@, key@) is Some && cloned(
                    lookup(self@, key@)->0,
                    record,
                ),
                None => lookup(self@, key@) is None,
            },
    {
        match find(&self.data, key) {
            Some(i) => Some(self.data[i].1.clone()),
            None => None,
        }
    }

    /// Copies of the first records that `filter_fn` lets through, in the
    /// store's order: all of them without a `limit`, at most `limit` with one.
    /// The contract speaks through any predicate that the answers of
    /// `filter_fn` agree with.
    pub fn filter_values<F>(&self, filter_fn: F, limit: Option<usize>) -> (results: Vec<T>) where
        T: Clone,
        F: Fn(&(&String, &T)) -> bool,

        requires
            can_judge(filter_fn, self@),
        ensures
            forall|pred: spec_fn((String, T)) -> bool| #[trigger]
                agrees(filter_fn, self@, pred) ==> {
                    &&& results@.len() == capped(self@.filter(pred).len(), limit)
                    &&& forall|i: int|
                        0 <= i < results@.len() ==> cloned(
                            self@.filter(pred)[i].1,
                            #[trigger] results@[i],
                        )
                },
    {
        let mut results: Vec<T> = Vec::new();
        let max_items: usize = match limit {
            Some(n) => n,
            None => self.data.len(),
        };
        let mut i: usize = 0;
        proof {
            assert forall|pred: spec_fn((String, T)) -> bool|
                self@.take(0).filter(pred).len() == 0 by {
                self@.take(0).lemma_filter_len(pred);
            }
        }
        while i < self.data.len() && results.len() < max_items
            invariant
                can_judge(filter_fn, self@),
                0 <= i <= self.data.len(),
                results@.len() <= max_items,
                forall|pred: spec_fn((String, T)) -> bool| #[trigger]
                    agrees(filter_fn, self@, pred) ==> {
                        &&& results@.len() == self@.take(i as int).filter(pred).len()
                        &&& forall|j: int|
                            0 <= j < results@.len() ==> cloned(
                                self@.take(i as int).filter(pred)[j].1,
                                #[trigger] results@[j],
                            )
                    },
            decreases self.data.len() - i,
        {
            let keep = filter_fn(&(&self.data[i].0, &self.data[i].1));
            let ghost before = results@;
            if keep {
                results.push(self.data[i].1.clone());
            }
            proof {
                assert forall|pred: spec_fn((String, T)) -> bool| #[trigger]
                    agrees(filter_fn, self@, pred) implies {
                    &&& results@.len() == self@.take(i + 1).filter(pred).len()
                    &&& forall|j: int|
                        0 <= j < results@.len() ==> cloned(
                            self@.take(i + 1).filter(pred)[j].1,
                            #[trigger] results@[j],
                        )
                } by {
                    assert(self@.take(i + 1) =~= self@.take(i as int).push(self@[i as int]));
                    self@.take(i as int).lemma_filter_push(self@[i as int], pred);
                    assert(keep == pred(self@[i as int]));
                    assert(before.len() == self@.take(i as int).filter(pred).len());
                    assert forall|j: int| 0 <= j < results@.len() implies cloned(
                        self@.take(i + 1).filter(pred)[j].1,
                        #[trigger] results@[j],
                    ) by {
                        if j < before.len() {
                            assert(results@[j] == before[j]);
                        }
                    }
                }
            }
            i += 1;
        }
        proof {
            assert forall|pred: spec_fn((String, T)) -> bool| #[trigger]
                agrees(filter_fn, self@, pred) implies {
                &&& results@.len() == capped(self@.filter(pred).len(), limit)
                &&& forall|j: int|
                    0 <= j < results@.len() ==> cloned(
                        self@.filter(pred)[j].1,
                        #[trigger] results@[j],
                    )
            } by {
                lemma_filter_prefix(self@, pred, i as int);
                self@.lemma_filter_len(pred);
                if i == self.data.len() {
                    assert(self@.take(i as int) =~= self@);
                }
            }
        }
        results
    }

    /// Puts `records` in the place of all that the store holds, as when a
    /// saved snapshot is read back. Where a key comes twice, the later record
    /// stands, in the earlier one's place.
    pub fn load(&mut self, records: Vec<(String, T)>)
        ensures
            final(self).wf(),
            final(self)@ == upsert_all(Seq::empty(), records@),
            final(self).path == old(self).path,
            final(self).last_save_at == old(self).last_save_at,
    {
        let mut data: Vec<(String, T)> = Vec::new();
        let ghost all = records@;
        for record in it: records
            invariant
                it.seq() == all,
                distinct_keys(data@),
                data@ == upsert_all(Seq::empty(), all.take(it.index() as int)),
        {
            proof {
                assert(all.take(it.index() + 1).drop_last() =~= all.take(it.index() as int));
            }
            let (key, value) = record;
            put(&mut data, &key, value);
        }
        proof {
            assert(all.take(all.len() as int) =~= all);
        }
        self.data = data;
    }

    /// Files `t` under `key` and reports the record that it replaces. Whether
    /// a snapshot is due is decided by the system clock, as `set_at` decides it
    /// for a given time.
    pub fn set(&mut self, key: &String, t: T) -> (outcome: SetOutcome<T>)
        requires
            old(self).wf(),
        ensures
            final(self).wf(),
            final(self)@ == upsert(old(self)@, *key, t),
            outcome.previous == lookup(old(self)@, key@),
            exists|now: Timestamp|
                outcome.persist_due == #[trigger] persist_due(old(self).last_save_at, now)
                    && final(self).last_save_at == clock_after(old(self).last_save_at, now),
            final(self).path == old(self).path,
    {
        let now = Timestamp::now();
        let outcome = self.set_at(key, t, now);
        outcome
    }

    /// Whether a write at `now` calls for a snapshot: more than
    /// `PERSIST_INTERVAL_MILLIS` have passed since the last one.
    pub fn should_persist(&self, now: Timestamp) -> (due: bool)
        ensures
            due == persist_due(self.last_save_at, now),
    {
        now.later_by_more_than(&self.last_save_at, PERSIST_INTERVAL_MILLIS)
    }

    /// Files `t` under `key` and reports the record that it replaces. A
    /// snapshot is due where more than `PERSIST_INTERVAL_MILLIS` have passed
    /// from the last one to `now`; the interval then starts again at `now`.
    pub fn set_at(&mut self, key: &String, t: T, now: Timestamp) -> (outcome: SetOutcome<T>)
        requires
            old(self).wf(),
        ensures
            final(self).wf(),
            final(self)@ == upsert(old(self)@, *key, t),
            outcome.previous == lookup(old(self)@, key@),
            outcome.persist_due == persist_due(old(self).last_save_at, now),
            final(self).last_save_at == clock_after(old(self).last_save_at, now),
            final(self).path == old(self).path,
    {
        let previous = put(&mut self.data, key, t);
        let due = self.should_persist(now);
        if due {
            self.last_save_at = now;
        }
        SetOutcome { previous, persist_due: due }
    }
}

} // verus!
