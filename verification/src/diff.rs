//! Key-level differences between two snapshots.

use vstd::prelude::*;

use crate::map::{entry_view, keys_of, map_of, sorted_keys, string_views, ConfigMap, Entry};
use crate::order::{key_lt, lemma_key_lt_order};

verus! {

/// Keys that `m` does not hold.
pub open spec fn absent_from(m: Map<Seq<char>, Seq<char>>) -> spec_fn(Seq<char>) -> bool {
    |k: Seq<char>| !m.contains_key(k)
}

/// Keys that both maps hold with different values.
pub open spec fn changed_between(
    l: Map<Seq<char>, Seq<char>>,
    r: Map<Seq<char>, Seq<char>>,
) -> spec_fn(Seq<char>) -> bool {
    |k: Seq<char>| l.contains_key(k) && r.contains_key(k) && l[k] != r[k]
}

/// Keys of `left`, in order, that `right` lacks.
pub open spec fn only_left_spec(left: Seq<Entry>, right: Seq<Entry>) -> Seq<Seq<char>> {
    keys_of(left).filter(absent_from(map_of(right)))
}

/// Keys of `left`, in order, that both hold with different values.
pub open spec fn changed_spec(left: Seq<Entry>, right: Seq<Entry>) -> Seq<Seq<char>> {
    keys_of(left).filter(changed_between(map_of(left), map_of(right)))
}

/// A filter keeps nothing exactly when no element passes.
pub proof fn lemma_filter_empty<A>(s: Seq<A>, p: spec_fn(A) -> bool)
    ensures
        s.filter(p).len() == 0 <==> forall|i: int| 0 <= i < s.len() ==> !p(#[trigger] s[i]),
    decreases s.len(),
{
    reveal(Seq::filter);
    if s.len() > 0 {
        let init = s.drop_last();
        lemma_filter_empty(init, p);
        if !p(s.last()) {
            if init.filter(p).len() == 0 {
                assert forall|i: int| 0 <= i < s.len() implies !p(#[trigger] s[i]) by {
                    if i < s.len() - 1 {
                        assert(init[i] == s[i]);
                    }
                }
            } else {
                let i = choose|i: int| 0 <= i < init.len() && p(#[trigger] init[i]);
                assert(init[i] == s[i]);
            }
        }
    }
}

/// Filtering keys in increasing order leaves them in increasing order.
pub proof fn lemma_filter_sorted(ks: Seq<Seq<char>>, p: spec_fn(Seq<char>) -> bool)
    requires
        sorted_keys(ks),
    ensures
        sorted_keys(ks.filter(p)),
    decreases ks.len(),
{
    broadcast use vstd::seq_lib::group_filter_ensures;

    if ks.len() > 0 {
        let init = ks.drop_last();
        assert(ks == init.push(ks.last()));
        init.lemma_filter_push(ks.last(), p);
        lemma_filter_sorted(init, p);
        if p(ks.last()) {
            let f = init.filter(p);
            let g = f.push(ks.last());
            assert forall|i: int, j: int| 0 <= i < j < g.len() implies key_lt(g[i], g[j]) by {
                if j == g.len() - 1 {
                    assert(f.contains(f[i]));
                    init.lemma_filter_contains_rev(p, f[i]);
                    let m = choose|m: int| 0 <= m < init.len() && init[m] == f[i];
                    assert(ks[m] == init[m]);
                } else {
                    assert(g[i] == f[i] && g[j] == f[j]);
                }
            }
        }
    }
}

/// Key-level difference between two snapshots. Each list is in increasing key
/// order.
#[derive(Debug, Clone, PartialEq, Eq, Default)]
pub struct ConfigDiff {
    /// Keys held only by the left snapshot.
    pub only_left: Vec<String>,
    /// Keys held only by the right snapshot.
    pub only_right: Vec<String>,
    /// Keys held by both with different values.
    pub changed: Vec<String>,
}

impl ConfigDiff {
    /// Whether the snapshots agree: all three lists are empty.
    pub fn is_empty(&self) -> (r: bool)
        ensures
            r == (self.only_left@.len() == 0 && self.only_right@.len() == 0 && self.changed@.len()
                == 0),
    {
        self.only_left.len() == 0 && self.only_right.len() == 0 && self.changed.len() == 0
    }

    /// Number of keys that differ: the sum of the lengths of the three lists.
    pub fn total_changes(&self) -> (r: usize)
        requires
            self.only_left@.len() + self.only_right@.len() + self.changed@.len() <= usize::MAX,
        ensures
            r == self.only_left@.len() + self.only_right@.len() + self.changed@.len(),
    {
        self.only_left.len() + self.only_right.len() + self.changed.len()
    }
}

/// The test that `filtered_keys` applies: keys that `other` lacks, or keys
/// that both hold with different values.
spec fn key_test(map: Map<Seq<char>, Seq<char>>, other: Map<Seq<char>, Seq<char>>, changed: bool) -> spec_fn(Seq<char>) -> bool {
    if changed {
        changed_between(map, other)
    } else {
        absent_from(other)
    }
}

/// Keys of `map` (in order) that pass `key_test`.
fn filtered_keys(map: &ConfigMap, other: &ConfigMap, changed: bool) -> (r: Vec<String>)
    ensures
        string_views(r@) == map.key_seq().filter(key_test(map@, other@, changed)),
{
    let ghost keep = key_test(map@, other@, changed);
    map.lemma_sorted();
    let es = map.entries();
    let ghost ks = map.key_seq();
    let mut out: Vec<String> = Vec::new();
    let mut i: usize = 0;
    while i < es.len()
        invariant
            es@.map_values(|p: (String, String)| entry_view(p)) == map.pairs(),
            ks == map.key_seq(),
            ks.len() == es@.len(),
            i <= es@.len(),
            keep == key_test(map@, other@, changed),
            forall|j: int| 0 <= j < map.pairs().len() ==> #[trigger] map@.contains_key(map.pairs()[j].0)
                && map@[map.pairs()[j].0] == map.pairs()[j].1,
            string_views(out@) == ks.take(i as int).filter(keep),
        decreases es@.len() - i,
    {
        let k = &es[i].0;
        let v = &es[i].1;
        assert(map.pairs()[i as int] == entry_view(es@[i as int]));
        assert(ks[i as int] == k@);
        assert(map@.contains_key(map.pairs()[i as int].0));
        assert(map@.contains_key(k@) && map@[k@] == v@);
        let take = if changed {
            match other.get(k.as_str()) {
                Some(w) => !v.eq(w),
                None => false,
            }
        } else {
            !other.contains_key(k.as_str())
        };
        assert(take == keep(k@));
        proof {
            ks.take(i as int).lemma_filter_push(k@, keep);
            assert(ks.take(i + 1) == ks.take(i as int).push(k@));
        }
        if take {
            let ghost before = out@;
            out.push(k.clone());
            assert(string_views(out@) =~= string_views(before).push(k@));
        }
        i = i + 1;
    }
    assert(ks.take(i as int) == ks);
    out
}

/// The difference of `left` relative to `right`: keys only on the left, keys
/// only on the right, and keys on both sides with different values, each list
/// in increasing key order. Values are compared exactly, as text.
pub fn diff_snapshots(left: &ConfigMap, right: &ConfigMap) -> (r: ConfigDiff)
    ensures
        string_views(r.only_left@) == only_left_spec(left.pairs(), right.pairs()),
        string_views(r.only_right@) == only_left_spec(right.pairs(), left.pairs()),
        string_views(r.changed@) == changed_spec(left.pairs(), right.pairs()),
{
    let only_left = filtered_keys(left, right, false);
    let only_right = filtered_keys(right, left, false);
    let changed = filtered_keys(left, right, true);
    ConfigDiff { only_left, only_right, changed }
}

/// The three lists of a difference are in increasing key order.
pub proof fn lemma_diff_lists_sorted(left: Seq<Entry>, right: Seq<Entry>)
    requires
        sorted_keys(keys_of(left)),
        sorted_keys(keys_of(right)),
    ensures
        sorted_keys(only_left_spec(left, right)),
        sorted_keys(only_left_spec(right, left)),
        sorted_keys(changed_spec(left, right)),
{
    lemma_filter_sorted(keys_of(left), absent_from(map_of(right)));
    lemma_filter_sorted(keys_of(right), absent_from(map_of(left)));
    lemma_filter_sorted(keys_of(left), changed_between(map_of(left), map_of(right)));
}

/// Two snapshots have an empty difference exactly when they hold the same
/// entries.
pub proof fn lemma_diff_empty_iff_equal(left: Seq<Entry>, right: Seq<Entry>)
    requires
        sorted_keys(keys_of(left)),
        sorted_keys(keys_of(right)),
    ensures
        (only_left_spec(left, right).len() == 0 && only_left_spec(right, left).len() == 0
            && changed_spec(left, right).len() == 0) <==> map_of(left) == map_of(right),
{
    let (lm, rm) = (map_of(left), map_of(right));
    crate::map::lemma_map_of_entries(left);
    crate::map::lemma_map_of_entries(right);
    lemma_filter_empty(keys_of(left), absent_from(rm));
    lemma_filter_empty(keys_of(right), absent_from(lm));
    lemma_filter_empty(keys_of(left), changed_between(lm, rm));
    if only_left_spec(left, right).len() == 0 && only_left_spec(right, left).len() == 0
        && changed_spec(left, right).len() == 0 {
        assert forall|k: Seq<char>| lm.contains_key(k) <==> rm.contains_key(k) by {
            if lm.contains_key(k) {
                let i = choose|i: int| 0 <= i < left.len() && left[i].0 == k;
                assert(keys_of(left)[i] == k);
            }
            if rm.contains_key(k) {
                let i = choose|i: int| 0 <= i < right.len() && right[i].0 == k;
                assert(keys_of(right)[i] == k);
            }
        }
        assert forall|k: Seq<char>| lm.contains_key(k) implies lm[k] == rm[k] by {
            let i = choose|i: int| 0 <= i < left.len() && left[i].0 == k;
            assert(keys_of(left)[i] == k);
        }
        assert(lm =~= rm);
    }
    if lm == rm {
        assert forall|i: int| 0 <= i < keys_of(left).len() implies !absent_from(rm)(
            #[trigger] keys_of(left)[i],
        ) by {
            assert(keys_of(left)[i] == left[i].0);
        }
        assert forall|i: int| 0 <= i < keys_of(right).len() implies !absent_from(lm)(
            #[trigger] keys_of(right)[i],
        ) by {
            assert(keys_of(right)[i] == right[i].0);
        }
        assert forall|i: int| 0 <= i < keys_of(left).len() implies !changed_between(lm, rm)(
            #[trigger] keys_of(left)[i],
        ) by {
            assert(keys_of(left)[i] == left[i].0);
        }
    }
}

/// Keys in increasing key order are fixed by their members: two such
/// sequences with the same members are the same sequence.
pub proof fn lemma_sorted_keys_unique(a: Seq<Seq<char>>, b: Seq<Seq<char>>)
    requires
        sorted_keys(a),
        sorted_keys(b),
        forall|k: Seq<char>| a.contains(k) <==> b.contains(k),
    ensures
        a == b,
    decreases a.len(),
{
    if a.len() == 0 {
        if b.len() > 0 {
            assert(b.contains(b[0]));
        }
        assert(a =~= b);
    } else if b.len() == 0 {
        assert(a.contains(a[0]));
    } else {
        let x = a.last();
        let y = b.last();
        assert(a.contains(x));
        assert(b.contains(y));
        let j = choose|j: int| 0 <= j < b.len() && b[j] == x;
        let i = choose|i: int| 0 <= i < a.len() && a[i] == y;
        lemma_key_lt_order(x, y, x);
        if x != y {
            assert(j < b.len() - 1);
            assert(key_lt(b[j], b[b.len() - 1]));
            assert(i < a.len() - 1);
            assert(key_lt(a[i], a[a.len() - 1]));
        }
        let a2 = a.drop_last();
        let b2 = b.drop_last();
        assert forall|k: Seq<char>| a2.contains(k) <==> b2.contains(k) by {
            if a2.contains(k) {
                let m = choose|m: int| 0 <= m < a2.len() && a2[m] == k;
                assert(a[m] == k);
                assert(key_lt(a[m], a[a.len() - 1]));
                lemma_key_lt_order(k, x, x);
                assert(a.contains(k));
                let n = choose|n: int| 0 <= n < b.len() && b[n] == k;
                assert(n != b.len() - 1);
                assert(b2[n] == k);
            }
            if b2.contains(k) {
                let m = choose|m: int| 0 <= m < b2.len() && b2[m] == k;
                assert(b[m] == k);
                assert(key_lt(b[m], b[b.len() - 1]));
                lemma_key_lt_order(k, y, y);
                assert(b.contains(k));
                let n = choose|n: int| 0 <= n < a.len() && a[n] == k;
                assert(n != a.len() - 1);
                assert(a2[n] == k);
            }
        }
        lemma_sorted_keys_unique(a2, b2);
        assert(a =~= a2.push(x));
        assert(b =~= b2.push(y));
    }
}

/// Swapping the snapshots swaps the keys held on one side only, and leaves
/// the keys that both hold with different values as they are.
pub proof fn lemma_diff_swaps_sides(left: Seq<Entry>, right: Seq<Entry>)
    requires
        sorted_keys(keys_of(left)),
        sorted_keys(keys_of(right)),
    ensures
        changed_spec(left, right) == changed_spec(right, left),
{
    broadcast use vstd::seq_lib::group_filter_ensures;

    let lm = map_of(left);
    let rm = map_of(right);
    crate::map::lemma_map_of_entries(left);
    crate::map::lemma_map_of_entries(right);
    lemma_filter_sorted(keys_of(left), changed_between(lm, rm));
    lemma_filter_sorted(keys_of(right), changed_between(rm, lm));
    let a = changed_spec(left, right);
    let b = changed_spec(right, left);
    assert forall|k: Seq<char>| a.contains(k) <==> b.contains(k) by {
        if a.contains(k) {
            let i = choose|i: int| 0 <= i < a.len() && a[i] == k;
            assert(changed_between(lm, rm)(a[i]));
            let j = choose|j: int| 0 <= j < right.len() && right[j].0 == k;
            assert(keys_of(right)[j] == k);
            keys_of(right).lemma_filter_contains(changed_between(rm, lm), j);
        }
        if b.contains(k) {
            let i = choose|i: int| 0 <= i < b.len() && b[i] == k;
            assert(changed_between(rm, lm)(b[i]));
            let j = choose|j: int| 0 <= j < left.len() && left[j].0 == k;
            assert(keys_of(left)[j] == k);
            keys_of(left).lemma_filter_contains(changed_between(lm, rm), j);
        }
    }
    lemma_sorted_keys_unique(a, b);
}

} // verus!
