//! Occurrence counts keyed by text, kept in the order in which keys first appear.

use vstd::prelude::*;
use vstd::string::StringExecFns;

verus! {

/// The keys of `keys`, each once, in the order in which they first occur.
pub open spec fn distinct<K>(keys: Seq<K>) -> Seq<K>
    decreases keys.len(),
{
    if keys.len() == 0 {
        Seq::empty()
    } else {
        let earlier = distinct(keys.drop_last());
        if earlier.contains(keys.last()) {
            earlier
        } else {
            earlier.push(keys.last())
        }
    }
}

/// How many times `key` occurs in `keys`.
pub open spec fn occurrences<K>(keys: Seq<K>, key: K) -> nat {
    keys.to_multiset().count(key)
}

/// One key with the number of times it was counted.
pub struct CountView {
    pub key: Seq<char>,
    pub count: nat,
}

/// The tally of a sequence of keys: one entry per distinct key, in order of
/// first occurrence, holding the number of occurrences of that key.
pub open spec fn tally_of(keys: Seq<Seq<char>>) -> Seq<CountView> {
    distinct(keys).map_values(|k: Seq<char>| CountView { key: k, count: occurrences(keys, k) })
}

/// The keys of a tally, in entry order.
pub open spec fn keys_of(entries: Seq<CountView>) -> Seq<Seq<char>> {
    entries.map_values(|e: CountView| e.key)
}

/// A tally after counting `key` once more: its entry grows by one, or a new
/// entry with count one is appended when the key is new.
pub open spec fn bumped(entries: Seq<CountView>, key: Seq<char>) -> Seq<CountView> {
    if keys_of(entries).contains(key) {
        let i = keys_of(entries).index_of(key);
        entries.update(i, CountView { key: key, count: entries[i].count + 1 })
    } else {
        entries.push(CountView { key: key, count: 1 })
    }
}

/// The count recorded for `key`, zero when the tally has no entry for it.
pub open spec fn count_in(entries: Seq<CountView>, key: Seq<char>) -> nat {
    if keys_of(entries).contains(key) {
        entries[keys_of(entries).index_of(key)].count
    } else {
        0
    }
}

/// No key has two entries and no entry has a zero count.
pub open spec fn well_formed(entries: Seq<CountView>) -> bool {
    &&& keys_of(entries).no_duplicates()
    &&& forall|i: int| 0 <= i < entries.len() ==> (#[trigger] entries[i]).count > 0
}

/// `distinct` keeps exactly the keys that occur, and none of them twice.
pub proof fn lemma_distinct(keys: Seq<Seq<char>>)
    ensures
        distinct(keys).no_duplicates(),
        forall|k: Seq<char>| #[trigger] distinct(keys).contains(k) ==> keys.contains(k),
        forall|k: Seq<char>| #[trigger] keys.contains(k) ==> distinct(keys).contains(k),
        distinct(keys).len() <= keys.len(),
    decreases keys.len(),
{
    if keys.len() > 0 {
        let rest = keys.drop_last();
        let last = keys.last();
        lemma_distinct(rest);
        assert forall|k: Seq<char>| #[trigger] keys.contains(k) implies distinct(keys).contains(
            k,
        ) by {
            if keys.contains(k) {
                let i = choose|i: int| 0 <= i < keys.len() && keys[i] == k;
                if i < keys.len() - 1 {
                    assert(rest[i] == k);
                    assert(rest.contains(k));
                    let j = choose|j: int| 0 <= j < distinct(rest).len() && distinct(rest)[j] == k;
                    assert(distinct(keys)[j] == k);
                } else {
                    if !distinct(rest).contains(last) {
                        assert(distinct(keys)[distinct(rest).len() as int] == k);
                    }
                }
            }
        }
        assert forall|k: Seq<char>| #[trigger] distinct(keys).contains(k) implies keys.contains(
            k,
        ) by {
            if distinct(keys).contains(k) {
                let j = choose|j: int| 0 <= j < distinct(keys).len() && distinct(keys)[j] == k;
                if j < distinct(rest).len() {
                    assert(distinct(rest)[j] == k);
                    assert(distinct(rest).contains(k));
                    let i = choose|i: int| 0 <= i < rest.len() && rest[i] == k;
                    assert(keys[i] == k);
                } else {
                    assert(keys[keys.len() - 1] == k);
                }
            }
        }
    }
}

/// Counting one more key turns the tally of `keys` into the tally of `keys`
/// followed by that key.
pub proof fn lemma_tally_push(keys: Seq<Seq<char>>, key: Seq<char>)
    ensures
        tally_of(keys.push(key)) == bumped(tally_of(keys), key),
{
    broadcast use {vstd::seq_lib::to_multiset_build, vstd::seq_lib::to_multiset_contains};

    let grown = keys.push(key);
    let before = tally_of(keys);
    assert(grown.drop_last() == keys);
    lemma_distinct(keys);
    assert(keys_of(before) == distinct(keys));
    assert forall|k: Seq<char>| occurrences(grown, k) == occurrences(keys, k) + (if k == key {
        1nat
    } else {
        0nat
    }) by {}
    if distinct(keys).contains(key) {
        let i = keys_of(before).index_of(key);
        assert(distinct(grown) == distinct(keys));
        assert forall|j: int| 0 <= j < before.len() implies #[trigger] tally_of(grown)[j] == bumped(
            before,
            key,
        )[j] by {
            if j != i {
                assert(distinct(keys)[j] != distinct(keys)[i]);
            }
        }
        assert(tally_of(grown) == bumped(before, key));
    } else {
        assert(!keys.contains(key));
        assert(occurrences(keys, key) == 0);
        assert(tally_of(grown) == bumped(before, key));
    }
}

/// Every tally of a key sequence is well formed.
pub proof fn lemma_tally_well_formed(keys: Seq<Seq<char>>)
    ensures
        well_formed(tally_of(keys)),
        keys_of(tally_of(keys)) == distinct(keys),
{
    broadcast use vstd::seq_lib::to_multiset_contains;

    lemma_distinct(keys);
    assert(keys_of(tally_of(keys)) == distinct(keys));
    assert forall|i: int| 0 <= i < tally_of(keys).len() implies (#[trigger] tally_of(
        keys,
    )[i]).count > 0 by {
        assert(distinct(keys).contains(distinct(keys)[i]));
        assert(keys.contains(distinct(keys)[i]));
    }
}

/// A tally holds one entry for each key that occurs and none for any other,
/// and each entry holds the number of times its key occurs.
pub proof fn lemma_tally_counts(keys: Seq<Seq<char>>)
    ensures
        keys_of(tally_of(keys)).no_duplicates(),
        forall|k: Seq<char>| #[trigger] keys_of(tally_of(keys)).contains(k) <==> keys.contains(k),
        forall|k: Seq<char>| #[trigger] count_in(tally_of(keys), k) == occurrences(keys, k),
        forall|i: int|
            0 <= i < tally_of(keys).len() ==> (#[trigger] tally_of(keys)[i]).count == occurrences(
                keys,
                tally_of(keys)[i].key,
            ),
{
    broadcast use vstd::seq_lib::to_multiset_contains;

    lemma_distinct(keys);
    lemma_tally_well_formed(keys);
    assert forall|k: Seq<char>| #[trigger]
        count_in(tally_of(keys), k) == occurrences(keys, k) by {
        if keys_of(tally_of(keys)).contains(k) {
            let i = keys_of(tally_of(keys)).index_of(k);
            assert(distinct(keys)[i] == k);
        } else {
            assert(!keys.contains(k));
        }
    }
}

/// The order of the keys does not change what is counted: two sequences
/// that hold the same keys the same number of times give every key the same
/// count.
pub proof fn lemma_counts_ignore_order(first: Seq<Seq<char>>, second: Seq<Seq<char>>)
    requires
        first.to_multiset() == second.to_multiset(),
    ensures
        forall|k: Seq<char>| #[trigger]
            count_in(tally_of(first), k) == count_in(tally_of(second), k),
{
    lemma_tally_counts(first);
    lemma_tally_counts(second);
}

/// The counts of a tally add up to the number of keys counted.
pub open spec fn total(entries: Seq<CountView>) -> nat
    decreases entries.len(),
{
    if entries.len() == 0 {
        0
    } else {
        total(entries.drop_last()) + entries.last().count
    }
}

/// Counting a key once more adds one to the total of a tally.
pub proof fn lemma_total_bumped(entries: Seq<CountView>, key: Seq<char>)
    ensures
        total(bumped(entries, key)) == total(entries) + 1,
{
    let after = bumped(entries, key);
    if keys_of(entries).contains(key) {
        let i = keys_of(entries).index_of(key);
        assert(keys_of(entries)[i] == key);
        let rest = entries.drop_last();
        if i == entries.len() - 1 {
            assert(after.drop_last() == rest);
        } else {
            assert(keys_of(rest)[i] == key);
            assert(keys_of(rest).contains(key));
            lemma_total_updated(rest, i, CountView { key: key, count: entries[i].count + 1 });
            assert(after.drop_last() == rest.update(
                i,
                CountView { key: key, count: entries[i].count + 1 },
            ));
            assert(after.last() == entries.last());
        }
    } else {
        assert(after.drop_last() == entries);
    }
}

/// Replacing one entry changes the total by the difference of the counts.
pub proof fn lemma_total_updated(entries: Seq<CountView>, i: int, entry: CountView)
    requires
        0 <= i < entries.len(),
    ensures
        total(entries.update(i, entry)) + entries[i].count == total(entries) + entry.count,
    decreases entries.len(),
{
    let after = entries.update(i, entry);
    let rest = entries.drop_last();
    if i == entries.len() - 1 {
        assert(after.drop_last() == rest);
    } else {
        lemma_total_updated(rest, i, entry);
        assert(after.drop_last() == rest.update(i, entry));
    }
}

/// Every key is counted in exactly one entry: the counts of the tally of
/// `keys` add up to the length of `keys`.
pub proof fn lemma_tally_total(keys: Seq<Seq<char>>)
    ensures
        total(tally_of(keys)) == keys.len(),
    decreases keys.len(),
{
    if keys.len() == 0 {
        assert(tally_of(keys) =~= Seq::<CountView>::empty());
    } else {
        let rest = keys.drop_last();
        assert(keys == rest.push(keys.last()));
        lemma_tally_total(rest);
        lemma_tally_push(rest, keys.last());
        lemma_total_bumped(tally_of(rest), keys.last());
    }
}

/// Keys that are all the same make one entry, which counts them all.
pub proof fn lemma_tally_of_one_key(keys: Seq<Seq<char>>, key: Seq<char>)
    requires
        keys.len() > 0,
        forall|i: int| 0 <= i < keys.len() ==> keys[i] == key,
    ensures
        tally_of(keys) == seq![CountView { key: key, count: keys.len() }],
    decreases keys.len(),
{
    let rest = keys.drop_last();
    assert(keys == rest.push(key));
    lemma_tally_push(rest, key);
    if rest.len() == 0 {
        assert(tally_of(rest) =~= Seq::<CountView>::empty());
        assert(keys_of(tally_of(rest)) =~= Seq::<Seq<char>>::empty());
        assert(bumped(tally_of(rest), key) =~= seq![CountView { key: key, count: 1 }]);
    } else {
        lemma_tally_of_one_key(rest, key);
        let before = seq![CountView { key: key, count: rest.len() }];
        assert(keys_of(before)[0] == key);
        assert(keys_of(before).contains(key));
        let i = keys_of(before).index_of(key);
        assert(i == 0);
        assert(bumped(before, key) =~= seq![CountView { key: key, count: keys.len() }]);
    }
}

/// One counted key.
#[derive(Debug)]
pub struct Count {
    pub key: String,
    pub count: usize,
}

impl View for Count {
    type V = CountView;

    open spec fn view(&self) -> CountView {
        CountView { key: self.key@, count: self.count as nat }
    }
}

/// The views of a sequence of counted keys.
pub open spec fn count_views(entries: Seq<Count>) -> Seq<CountView> {
    entries.map_values(|c: Count| c@)
}

/// Occurrence counts by key. No key has two entries, and entries stay in the
/// order in which their keys were first counted.
#[derive(Debug)]
pub struct Tally {
    entries: Vec<Count>,
}

impl View for Tally {
    type V = Seq<CountView>;

    closed spec fn view(&self) -> Seq<CountView> {
        count_views(self.entries@)
    }
}

impl Tally {
    #[verifier::type_invariant]
    closed spec fn inv(&self) -> bool {
        well_formed(self@)
    }

    /// A tally with no entries.
    pub fn new() -> (tally: Tally)
        ensures
            tally@ == Seq::<CountView>::empty(),
    {
        let tally = Tally { entries: Vec::new() };
        assert(tally@ =~= Seq::<CountView>::empty());
        tally
    }

    /// The number of distinct keys counted so far.
    pub fn len(&self) -> (n: usize)
        ensures
            n == self@.len(),
    {
        self.entries.len()
    }

    /// The entries, in order of first occurrence of their keys.
    pub fn entries(&self) -> (entries: &Vec<Count>)
        ensures
            count_views(entries@) == self@,
            well_formed(self@),
    {
        proof {
            use_type_invariant(self);
        }
        &self.entries
    }

    /// The index of the entry for `key`, if there is one.
    pub fn find(&self, key: &str) -> (found: Option<usize>)
        ensures
            found is Some <==> keys_of(self@).contains(key@),
            found matches Some(i) ==> i < self@.len() && i == keys_of(self@).index_of(key@),
    {
        let wanted = String::from_str(key);
        self.position(&wanted)
    }

    fn position(&self, key: &String) -> (found: Option<usize>)
        ensures
            found is Some <==> keys_of(self@).contains(key@),
            found matches Some(i) ==> i < self@.len() && i == keys_of(self@).index_of(key@),
    {
        proof {
            use_type_invariant(self);
        }
        let mut i: usize = 0;
        while i < self.entries.len()
            invariant
                i <= self.entries.len(),
                well_formed(self@),
                forall|j: int| 0 <= j < i ==> self.entries@[j].key@ != key@,
            decreases self.entries.len() - i,
        {
            if self.entries[i].key == *key {
                proof {
                    let keys = keys_of(self@);
                    assert(keys[i as int] == key@);
                    assert(keys.contains(key@));
                    let at = keys.index_of(key@);
                    assert(keys[at] == key@);
                }
                return Some(i);
            }
            i += 1;
        }
        proof {
            let keys = keys_of(self@);
            assert forall|j: int| 0 <= j < keys.len() implies keys[j] != key@ by {}
        }
        None
    }

    /// The count recorded for `key`: zero when it was never counted.
    pub fn count(&self, key: &str) -> (n: usize)
        ensures
            n == count_in(self@, key@),
    {
        match self.find(key) {
            Some(i) => self.entries[i].count,
            None => 0,
        }
    }

    /// Counts `key` once more, and says whether it was new to the tally.
    pub fn bump(&mut self, key: String) -> (fresh: bool)
        requires
            count_in(old(self)@, key@) < usize::MAX,
        ensures
            final(self)@ == bumped(old(self)@, key@),
            fresh == !keys_of(old(self)@).contains(key@),
            well_formed(final(self)@),
    {
        proof {
            use_type_invariant(&*self);
        }
        let found = self.position(&key);
        let ghost before = self@;
        let mut entries: Vec<Count> = Vec::new();
        proof {
            assert(count_views(entries@) =~= Seq::<CountView>::empty());
        }
        std::mem::swap(&mut self.entries, &mut entries);
        let fresh = match found {
            Some(i) => {
                let count = entries[i].count;
                entries.set(i, Count { key, count: count + 1 });
                false
            },
            None => {
                entries.push(Count { key, count: 1 });
                true
            },
        };
        proof {
            let after = count_views(entries@);
            assert(after =~= bumped(before, key@));
            if fresh {
                assert(keys_of(after) =~= keys_of(before).push(key@));
                assert forall|a: int, b: int|
                    0 <= a < keys_of(after).len() && 0 <= b < keys_of(after).len() && a != b
                    implies keys_of(after)[a] != keys_of(after)[b] by {
                    if a < before.len() {
                        assert(keys_of(before)[a] == keys_of(after)[a]);
                    }
                    if b < before.len() {
                        assert(keys_of(before)[b] == keys_of(after)[b]);
                    }
                }
            } else {
                assert(keys_of(after) =~= keys_of(before));
            }
        }
        std::mem::swap(&mut self.entries, &mut entries);
        fresh
    }
}

} // verus!
