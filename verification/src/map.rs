//! `ConfigMap`: an ordered map from keys to values, kept as a vector of
//! entries sorted by key in the key order (the order of `String`).

use vstd::prelude::*;

use crate::order::{compare_keys, key_lt, lemma_key_lt_order, KeyOrder};

verus! {

/// A key and a value, as character sequences.
pub type Entry = (Seq<char>, Seq<char>);

/// Keys in strictly increasing key order (hence without repetition).
pub open spec fn sorted_keys(ks: Seq<Seq<char>>) -> bool {
    forall|i: int, j: int| 0 <= i < j < ks.len() ==> key_lt(ks[i], ks[j])
}

/// The keys of a sequence of entries, in order.
pub open spec fn keys_of(ps: Seq<Entry>) -> Seq<Seq<char>> {
    ps.map_values(|p: Entry| p.0)
}

/// The map that a sequence of entries with distinct keys stands for.
pub open spec fn map_of(ps: Seq<Entry>) -> Map<Seq<char>, Seq<char>> {
    Map::new(
        |k: Seq<char>| exists|i: int| 0 <= i < ps.len() && #[trigger] ps[i].0 == k,
        |k: Seq<char>| ps[choose|i: int| 0 <= i < ps.len() && #[trigger] ps[i].0 == k].1,
    )
}

/// The map built by inserting entries one after another: a later entry
/// replaces an earlier one with the same key.
pub open spec fn map_from_entries(ps: Seq<Entry>) -> Map<Seq<char>, Seq<char>>
    decreases ps.len(),
{
    if ps.len() == 0 {
        Map::empty()
    } else {
        map_from_entries(ps.drop_last()).insert(ps.last().0, ps.last().1)
    }
}

/// The character view of a pair of strings.
pub open spec fn entry_view(p: (String, String)) -> Entry {
    (p.0@, p.1@)
}

/// The character view of a pair of string slices.
pub open spec fn str_entry_view(p: (&str, &str)) -> Entry {
    (p.0@, p.1@)
}

/// The character views of a sequence of strings.
pub open spec fn string_views(v: Seq<String>) -> Seq<Seq<char>> {
    v.map_values(|s: String| s@)
}

/// Entries with sorted keys have distinct keys.
pub proof fn lemma_sorted_distinct(ps: Seq<Entry>)
    requires
        sorted_keys(keys_of(ps)),
    ensures
        forall|i: int, j: int| 0 <= i < ps.len() && 0 <= j < ps.len() && i != j ==> ps[i].0 != ps[j].0,
{
    assert forall|i: int, j: int| 0 <= i < ps.len() && 0 <= j < ps.len() && i != j implies ps[i].0
        != ps[j].0 by {
        lemma_key_lt_order(ps[i].0, ps[j].0, ps[j].0);
        if i < j {
            assert(key_lt(keys_of(ps)[i], keys_of(ps)[j]));
        } else {
            assert(key_lt(keys_of(ps)[j], keys_of(ps)[i]));
        }
    }
}

/// In entries with sorted keys, the map holds each entry.
pub proof fn lemma_map_of_at(ps: Seq<Entry>, i: int)
    requires
        sorted_keys(keys_of(ps)),
        0 <= i < ps.len(),
    ensures
        map_of(ps).contains_key(ps[i].0),
        map_of(ps)[ps[i].0] == ps[i].1,
{
    lemma_sorted_distinct(ps);
    assert(ps[i].0 == ps[i].0);
    let j = choose|j: int| 0 <= j < ps.len() && #[trigger] ps[j].0 == ps[i].0;
    assert(ps[j].0 == ps[i].0);
}

/// The map of entries with sorted keys holds exactly those entries.
pub proof fn lemma_map_of_entries(ps: Seq<Entry>)
    requires
        sorted_keys(keys_of(ps)),
    ensures
        forall|i: int| 0 <= i < ps.len() ==> #[trigger] map_of(ps).contains_key(ps[i].0) && map_of(
            ps,
        )[ps[i].0] == ps[i].1,
        forall|k: Seq<char>| #[trigger]
            map_of(ps).contains_key(k) ==> exists|i: int| 0 <= i < ps.len() && ps[i].0 == k,
{
    assert forall|i: int| 0 <= i < ps.len() implies #[trigger] map_of(ps).contains_key(ps[i].0)
        && map_of(ps)[ps[i].0] == ps[i].1 by {
        lemma_map_of_at(ps, i);
    }
}

/// The map of entries with sorted keys has one key per entry.
pub proof fn lemma_map_of_len(ps: Seq<Entry>)
    requires
        sorted_keys(keys_of(ps)),
    ensures
        map_of(ps).dom() == keys_of(ps).to_set(),
        map_of(ps).dom().finite(),
        map_of(ps).len() == ps.len(),
{
    lemma_sorted_distinct(ps);
    let ks = keys_of(ps);
    assert forall|k: Seq<char>| map_of(ps).dom().contains(k) <==> ks.to_set().contains(k) by {
        if map_of(ps).dom().contains(k) {
            let i = choose|i: int| 0 <= i < ps.len() && #[trigger] ps[i].0 == k;
            assert(ks[i] == k);
        }
        if ks.to_set().contains(k) {
            let i = choose|i: int| 0 <= i < ks.len() && ks[i] == k;
            assert(ps[i].0 == k);
        }
    }
    assert(map_of(ps).dom() =~= ks.to_set());
    assert(ks.no_duplicates()) by {
        assert forall|i: int, j: int| 0 <= i < ks.len() && 0 <= j < ks.len() && i != j implies ks[i]
            != ks[j] by {
            assert(ks[i] == ps[i].0);
            assert(ks[j] == ps[j].0);
        }
    }
    ks.unique_seq_to_set();
}

/// Replacing the value of an existing entry replaces it in the map.
proof fn lemma_map_of_update(ps: Seq<Entry>, i: int, v: Seq<char>)
    requires
        sorted_keys(keys_of(ps)),
        0 <= i < ps.len(),
    ensures
        keys_of(ps.update(i, (ps[i].0, v))) == keys_of(ps),
        map_of(ps.update(i, (ps[i].0, v))) == map_of(ps).insert(ps[i].0, v),
{
    let qs = ps.update(i, (ps[i].0, v));
    assert(keys_of(qs) =~= keys_of(ps));
    lemma_map_of_entries(ps);
    lemma_map_of_entries(qs);
    assert forall|k: Seq<char>| #[trigger] map_of(qs).contains_key(k) <==> map_of(ps).insert(
        ps[i].0,
        v,
    ).contains_key(k) by {
        if map_of(ps).contains_key(k) {
            let j = choose|j: int| 0 <= j < ps.len() && ps[j].0 == k;
            assert(qs[j].0 == k);
        }
        if map_of(qs).contains_key(k) {
            let j = choose|j: int| 0 <= j < qs.len() && qs[j].0 == k;
            assert(ps[j].0 == k);
        }
    }
    assert forall|k: Seq<char>| #[trigger] map_of(qs).contains_key(k) implies map_of(qs)[k]
        == map_of(ps).insert(ps[i].0, v)[k] by {
        let j = choose|j: int| 0 <= j < qs.len() && qs[j].0 == k;
        assert(map_of(qs)[qs[j].0] == qs[j].1);
        if j != i {
            assert(map_of(ps)[ps[j].0] == ps[j].1);
            lemma_sorted_distinct(ps);
        }
    }
    assert(map_of(qs) =~= map_of(ps).insert(ps[i].0, v));
}

/// Inserting a new key at its place in the key order keeps the keys sorted
/// and adds the entry to the map.
proof fn lemma_map_of_insert(ps: Seq<Entry>, i: int, k: Seq<char>, v: Seq<char>)
    requires
        sorted_keys(keys_of(ps)),
        0 <= i <= ps.len(),
        forall|j: int| 0 <= j < i ==> key_lt(#[trigger] ps[j].0, k),
        forall|j: int| i <= j < ps.len() ==> key_lt(k, #[trigger] ps[j].0),
    ensures
        sorted_keys(keys_of(ps.insert(i, (k, v)))),
        map_of(ps.insert(i, (k, v))) == map_of(ps).insert(k, v),
{
    let qs = ps.insert(i, (k, v));
    let ks = keys_of(ps);
    let qks = keys_of(qs);
    assert forall|a: int, b: int| 0 <= a < b < qks.len() implies key_lt(qks[a], qks[b]) by {
        if b < i {
            assert(qks[a] == ks[a] && qks[b] == ks[b]);
        } else if b == i {
            assert(qks[a] == ps[a].0);
        } else if a == i {
            assert(qks[b] == ps[b - 1].0);
        } else if a < i {
            assert(qks[a] == ps[a].0 && qks[b] == ps[b - 1].0);
            lemma_key_lt_order(ps[a].0, k, ps[b - 1].0);
        } else {
            assert(qks[a] == ks[a - 1] && qks[b] == ks[b - 1]);
        }
    }
    lemma_map_of_entries(ps);
    lemma_map_of_entries(qs);
    assert forall|key: Seq<char>| #[trigger] map_of(qs).contains_key(key) <==> map_of(ps).insert(
        k,
        v,
    ).contains_key(key) by {
        if map_of(ps).contains_key(key) {
            let j = choose|j: int| 0 <= j < ps.len() && ps[j].0 == key;
            if j < i {
                assert(qs[j].0 == key);
            } else {
                assert(qs[j + 1].0 == key);
            }
        }
        if key == k {
            assert(qs[i].0 == k);
        }
        if map_of(qs).contains_key(key) {
            let j = choose|j: int| 0 <= j < qs.len() && qs[j].0 == key;
            if j < i {
                assert(ps[j].0 == key);
            } else if j > i {
                assert(ps[j - 1].0 == key);
            }
        }
    }
    assert forall|key: Seq<char>| #[trigger] map_of(qs).contains_key(key) implies map_of(qs)[key]
        == map_of(ps).insert(k, v)[key] by {
        let j = choose|j: int| 0 <= j < qs.len() && qs[j].0 == key;
        assert(map_of(qs)[qs[j].0] == qs[j].1);
        if j < i {
            assert(map_of(ps)[ps[j].0] == ps[j].1);
            lemma_key_lt_order(ps[j].0, k, k);
        } else if j > i {
            lemma_map_of_at(ps, j - 1);
            lemma_key_lt_order(k, ps[j - 1].0, k);
        }
    }
    assert(map_of(qs) =~= map_of(ps).insert(k, v));
}

/// Entries with sorted keys, inserted one after another, give the map they stand for.
pub proof fn lemma_map_from_sorted_entries(ps: Seq<Entry>)
    requires
        sorted_keys(keys_of(ps)),
    ensures
        map_from_entries(ps) == map_of(ps),
    decreases ps.len(),
{
    if ps.len() == 0 {
        assert(map_of(ps) =~= Map::<Seq<char>, Seq<char>>::empty());
    } else {
        let init = ps.drop_last();
        assert(keys_of(init) =~= keys_of(ps).drop_last());
        lemma_map_from_sorted_entries(init);
        assert forall|j: int| 0 <= j < init.len() implies key_lt(#[trigger] init[j].0, ps.last().0) by {
            assert(keys_of(ps)[j] == init[j].0);
            assert(keys_of(ps)[ps.len() - 1] == ps.last().0);
        }
        lemma_map_of_insert(init, init.len() as int, ps.last().0, ps.last().1);
        assert(init.insert(init.len() as int, (ps.last().0, ps.last().1)) =~= ps);
    }
}

/// An ordered map from configuration keys to values.
///
/// Entries are kept in increasing key order, which is the order of `String`:
/// lexicographic over the UTF-8 bytes of the keys.
#[derive(Debug, PartialEq, Eq)]
pub struct ConfigMap {
    entries: Vec<(String, String)>,
}

impl View for ConfigMap {
    type V = Map<Seq<char>, Seq<char>>;

    open spec fn view(&self) -> Map<Seq<char>, Seq<char>> {
        map_of(self.pairs())
    }
}

impl ConfigMap {
    /// The entries, in increasing key order.
    pub closed spec fn pairs(&self) -> Seq<Entry> {
        self.entries@.map_values(|p: (String, String)| entry_view(p))
    }

    /// The keys, in increasing key order.
    pub open spec fn key_seq(&self) -> Seq<Seq<char>> {
        keys_of(self.pairs())
    }

    #[verifier::type_invariant]
    closed spec fn keys_in_order(&self) -> bool {
        sorted_keys(keys_of(self.pairs()))
    }

    /// States that the keys are in increasing key order; costs nothing at run time.
    pub(crate) fn lemma_sorted(&self)
        ensures
            sorted_keys(self.key_seq()),
            self@ == map_of(self.pairs()),
            self@.dom().finite(),
            self@.len() == self.pairs().len(),
            forall|i: int| 0 <= i < self.pairs().len() ==> #[trigger] self@.contains_key(self.pairs()[i].0)
                && self@[self.pairs()[i].0] == self.pairs()[i].1,
            forall|k: Seq<char>| #[trigger]
                self@.contains_key(k) ==> exists|i: int| 0 <= i < self.pairs().len() && self.pairs()[i].0 == k,
    {
        proof {
            use_type_invariant(self);
            lemma_map_of_len(self.pairs());
            lemma_map_of_entries(self.pairs());
        }
    }

    /// An empty map.
    pub fn new() -> (r: Self)
        ensures
            r@ == Map::<Seq<char>, Seq<char>>::empty(),
            r.pairs() == Seq::<Entry>::empty(),
    {
        let r = ConfigMap { entries: Vec::new() };
        assert(r.pairs() =~= Seq::<Entry>::empty());
        assert(r@ =~= Map::<Seq<char>, Seq<char>>::empty());
        r
    }

    /// Number of entries.
    pub fn len(&self) -> (r: usize)
        ensures
            r == self@.len(),
            r == self.pairs().len(),
    {
        self.lemma_sorted();
        self.entries.len()
    }

    /// Whether the map has no entry.
    pub fn is_empty(&self) -> (r: bool)
        ensures
            r == (self@.len() == 0),
            r == (self.pairs().len() == 0),
    {
        self.lemma_sorted();
        self.entries.len() == 0
    }

    /// Where `key` is (`Ok`), or where it would go (`Err`), in the entries.
    fn find_index(&self, key: &str) -> (r: Result<usize, usize>)
        ensures
            r matches Ok(i) ==> i < self.pairs().len() && self.pairs()[i as int].0 == key@,
            r matches Err(i) ==> {
                &&& i <= self.pairs().len()
                &&& forall|j: int| 0 <= j < i ==> key_lt(#[trigger] self.pairs()[j].0, key@)
                &&& forall|j: int| i <= j < self.pairs().len() ==> key_lt(key@, #[trigger] self.pairs()[j].0)
            },
    {
        proof {
            use_type_invariant(self);
        }
        let ghost ps = self.pairs();
        let mut lo: usize = 0;
        let mut hi: usize = self.entries.len();
        while lo < hi
            invariant
                ps == self.pairs(),
                ps.len() == self.entries@.len(),
                sorted_keys(keys_of(ps)),
                lo <= hi <= ps.len(),
                forall|j: int| 0 <= j < lo ==> key_lt(#[trigger] ps[j].0, key@),
                forall|j: int| hi <= j < ps.len() ==> key_lt(key@, #[trigger] ps[j].0),
            decreases hi - lo,
        {
            let mid = lo + (hi - lo) / 2;
            assert(ps[mid as int].0 == self.entries@[mid as int].0@);
            match compare_keys(self.entries[mid].0.as_str(), key) {
                KeyOrder::Less => {
                    assert forall|j: int| 0 <= j <= mid implies key_lt(#[trigger] ps[j].0, key@) by {
                        if j < mid {
                            assert(key_lt(keys_of(ps)[j], keys_of(ps)[mid as int]));
                            lemma_key_lt_order(ps[j].0, ps[mid as int].0, key@);
                        }
                    }
                    lo = mid + 1;
                },
                KeyOrder::Greater => {
                    assert forall|j: int| mid <= j < ps.len() implies key_lt(key@, #[trigger] ps[j].0) by {
                        if j > mid {
                            assert(key_lt(keys_of(ps)[mid as int], keys_of(ps)[j]));
                            lemma_key_lt_order(key@, ps[mid as int].0, ps[j].0);
                        }
                    }
                    hi = mid;
                },
                KeyOrder::Equal => {
                    return Ok(mid);
                },
            }
        }
        Err(lo)
    }

    /// The value stored under `key`, if any; keys are compared exactly.
    pub fn get(&self, key: &str) -> (r: Option<&String>)
        ensures
            match r {
                Some(v) => self@.contains_key(key@) && self@[key@] == v@,
                None => !self@.contains_key(key@),
            },
    {
        self.lemma_sorted();
        match self.find_index(key) {
            Ok(i) => {
                assert(self.pairs()[i as int] == entry_view(self.entries@[i as int]));
                assert(self@.contains_key(self.pairs()[i as int].0));
                Some(&self.entries[i].1)
            },
            Err(i) => {
                proof {
                    assert forall|j: int| 0 <= j < self.pairs().len() implies self.pairs()[j].0 != key@ by {
                        lemma_key_lt_order(self.pairs()[j].0, key@, key@);
                    }
                }
                None
            },
        }
    }

    /// Whether `key` has an entry; keys are compared exactly.
    pub fn contains_key(&self, key: &str) -> (r: bool)
        ensures
            r == self@.contains_key(key@),
    {
        self.get(key).is_some()
    }

    /// Sets the value of `key`, and returns the value that it replaces, if any.
    pub fn insert(&mut self, key: String, value: String) -> (r: Option<String>)
        ensures
            final(self)@ == old(self)@.insert(key@, value@),
            r matches Some(v) ==> old(self)@.contains_key(key@) && old(self)@[key@] == v@,
            r is None ==> !old(self)@.contains_key(key@),
    {
        proof {
            use_type_invariant(&*self);
        }
        self.lemma_sorted();
        let ghost ps = self.pairs();
        let found = self.find_index(key.as_str());
        let mut entries: Vec<(String, String)> = Vec::new();
        std::mem::swap(&mut entries, &mut self.entries);
        assert(entries@.map_values(|p: (String, String)| entry_view(p)) == ps);
        match found {
            Ok(i) => {
                let previous = entries[i].1.clone();
                assert(ps[i as int] == entry_view(entries@[i as int]));
                entries.set(i, (key, value));
                proof {
                    lemma_map_of_at(ps, i as int);
                    lemma_map_of_update(ps, i as int, value@);
                    assert(entries@.map_values(|p: (String, String)| entry_view(p)) =~= ps.update(
                        i as int,
                        (ps[i as int].0, value@),
                    ));
                }
                self.entries = entries;
                Some(previous)
            },
            Err(i) => {
                entries.insert(i, (key, value));
                proof {
                    lemma_map_of_insert(ps, i as int, key@, value@);
                    assert(entries@.map_values(|p: (String, String)| entry_view(p)) =~= ps.insert(
                        i as int,
                        (key@, value@),
                    ));
                    assert forall|j: int| 0 <= j < ps.len() implies ps[j].0 != key@ by {
                        lemma_key_lt_order(ps[j].0, key@, key@);
                    }
                }
                self.entries = entries;
                None
            },
        }
    }

    /// The keys, in increasing key order.
    pub fn keys(&self) -> (r: Vec<String>)
        ensures
            string_views(r@) == self.key_seq(),
            sorted_keys(string_views(r@)),
    {
        self.lemma_sorted();
        let mut r: Vec<String> = Vec::new();
        let mut i: usize = 0;
        while i < self.entries.len()
            invariant
                i <= self.entries@.len(),
                string_views(r@) == self.key_seq().take(i as int),
                r@.len() == i,
                self.key_seq().len() == self.entries@.len(),
                forall|j: int| 0 <= j < self.entries@.len() ==> #[trigger] self.key_seq()[j] == self.entries@[j].0@,
            decreases self.entries@.len() - i,
        {
            let k = self.entries[i].0.clone();
            assert(k@ == self.key_seq()[i as int]);
            let ghost before = r@;
            r.push(k);
            assert forall|j: int| 0 <= j < i implies #[trigger] r@[j]@ == self.key_seq()[j] by {
                assert(r@[j] == before[j]);
                assert(string_views(before)[j] == before[j]@);
            }
            assert(string_views(r@) =~= self.key_seq().take(i + 1));
            i = i + 1;
        }
        assert(self.key_seq().take(i as int) == self.key_seq());
        r
    }

    /// The entries, in increasing key order.
    pub fn entries(&self) -> (r: &[(String, String)])
        ensures
            r@.map_values(|p: (String, String)| entry_view(p)) == self.pairs(),
    {
        self.entries.as_slice()
    }

    /// A map holding the given pairs; when a key repeats, the later pair wins.
    pub fn from_pairs(pairs: &[(&str, &str)]) -> (r: Self)
        ensures
            r@ == map_from_entries(pairs@.map_values(|p: (&str, &str)| str_entry_view(p))),
    {
        let ghost views = pairs@.map_values(|p: (&str, &str)| str_entry_view(p));
        let mut r = ConfigMap::new();
        let mut i: usize = 0;
        while i < pairs.len()
            invariant
                i <= pairs@.len(),
                views == pairs@.map_values(|p: (&str, &str)| str_entry_view(p)),
                r@ == map_from_entries(views.take(i as int)),
            decreases pairs@.len() - i,
        {
            let (k, v) = pairs[i];
            r.insert(k.to_owned(), v.to_owned());
            assert(views.take(i + 1).drop_last() == views.take(i as int));
            i = i + 1;
        }
        assert(views.take(i as int) == views);
        r
    }
}

impl Clone for ConfigMap {
    /// A copy holding the same entries.
    fn clone(&self) -> (r: Self)
        ensures
            r@ == self@,
            r.pairs() == self.pairs(),
    {
        proof {
            use_type_invariant(self);
        }
        let mut entries: Vec<(String, String)> = Vec::new();
        let mut i: usize = 0;
        while i < self.entries.len()
            invariant
                i <= self.entries@.len(),
                entries@.map_values(|p: (String, String)| entry_view(p)) == self.pairs().take(i as int),
                entries@.len() == i,
                self.pairs().len() == self.entries@.len(),
            decreases self.entries@.len() - i,
        {
            let k = self.entries[i].0.clone();
            let v = self.entries[i].1.clone();
            assert(self.pairs()[i as int] == entry_view(self.entries@[i as int]));
            assert(entry_view((k, v)) == self.pairs()[i as int]);
            let ghost before = entries@;
            entries.push((k, v));
            assert forall|j: int| 0 <= j < i implies #[trigger] entry_view(entries@[j]) == self.pairs()[j] by {
                assert(entries@[j] == before[j]);
                assert(before.map_values(|p: (String, String)| entry_view(p))[j] == entry_view(before[j]));
            }
            assert(entries@.map_values(|p: (String, String)| entry_view(p)) =~= self.pairs().take(i + 1));
            i = i + 1;
        }
        assert(self.pairs().take(i as int) == self.pairs());
        ConfigMap { entries }
    }
}

} // verus!
