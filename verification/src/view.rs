//! Read-only views: subsets of a store's snapshot, and agreement of snapshots
//! on chosen keys.

use vstd::prelude::*;

use crate::error::{error_is, ConfigxResult, ErrorKind};
use crate::key::{key_error_message, validate_key};
use crate::layered::first_bad_key;
use crate::map::ConfigMap;
use crate::source::ConfigSource;
use crate::store::ConfigxStore;

verus! {

/// The character views of a list of keys.
pub open spec fn key_views(keys: Seq<&str>) -> Seq<Seq<char>> {
    keys.map_values(|k: &str| k@)
}

/// The entries of `m` whose key is one of `ks`.
pub open spec fn subset_spec(m: Map<Seq<char>, Seq<char>>, ks: Seq<Seq<char>>) -> Map<Seq<char>, Seq<char>> {
    Map::new(|k: Seq<char>| m.contains_key(k) && ks.contains(k), |k: Seq<char>| m[k])
}

/// Two maps agree on `k`: both lack it, or both hold it with the same value.
pub open spec fn agree_at(l: Map<Seq<char>, Seq<char>>, r: Map<Seq<char>, Seq<char>>, k: Seq<char>) -> bool {
    &&& l.contains_key(k) == r.contains_key(k)
    &&& l.contains_key(k) ==> l[k] == r[k]
}

/// Two maps agree on every key of `ks`.
pub open spec fn agree_on(l: Map<Seq<char>, Seq<char>>, r: Map<Seq<char>, Seq<char>>, ks: Seq<Seq<char>>) -> bool {
    forall|i: int| 0 <= i < ks.len() ==> agree_at(l, r, #[trigger] ks[i])
}

/// A subset taken over every key of a snapshot is the snapshot itself.
pub proof fn lemma_subset_of_all_keys_is_whole(m: Map<Seq<char>, Seq<char>>, ks: Seq<Seq<char>>)
    requires
        forall|k: Seq<char>| #[trigger] m.contains_key(k) ==> ks.contains(k),
    ensures
        subset_spec(m, ks) == m,
{
    assert(subset_spec(m, ks) =~= m);
}

/// A subset agrees with the snapshot it was taken from on the chosen keys.
pub proof fn lemma_subset_agrees_with_source(m: Map<Seq<char>, Seq<char>>, ks: Seq<Seq<char>>)
    ensures
        agree_on(subset_spec(m, ks), m, ks),
{
    assert forall|i: int| 0 <= i < ks.len() implies agree_at(subset_spec(m, ks), m, #[trigger] ks[i]) by {
        assert(ks.contains(ks[i]));
    }
}

/// Agreement is symmetric, and every pair of maps agrees on no key at all.
pub proof fn lemma_agreement_symmetric(l: Map<Seq<char>, Seq<char>>, r: Map<Seq<char>, Seq<char>>, ks: Seq<Seq<char>>)
    ensures
        agree_on(l, r, ks) == agree_on(r, l, ks),
        agree_on(l, r, Seq::empty()),
{
    if agree_on(l, r, ks) {
        assert forall|i: int| 0 <= i < ks.len() implies agree_at(r, l, #[trigger] ks[i]) by {
            assert(agree_at(l, r, ks[i]));
        }
    }
    if agree_on(r, l, ks) {
        assert forall|i: int| 0 <= i < ks.len() implies agree_at(l, r, #[trigger] ks[i]) by {
            assert(agree_at(r, l, ks[i]));
        }
    }
}

/// The entries of the store's snapshot under the requested keys; a key that is
/// not there is skipped. A requested key that is not acceptable (empty, with a
/// control character, longer than 512 bytes) is reported, the first one first.
pub fn try_subset_snapshot<S: ConfigSource + ?Sized>(store: &ConfigxStore<S>, keys: &[&str]) -> (r: ConfigxResult<ConfigMap>)
    ensures
        match first_bad_key(key_views(keys@)) {
            Some(k) => r matches Err(e) && error_is(e, ErrorKind::Invalid, key_error_message(k)),
            None => r matches Ok(m) && m@ == subset_spec(store.entries(), key_views(keys@)),
        },
{
    let full = store.snapshot();
    let ghost ks = key_views(keys@);
    let mut subset = ConfigMap::new();
    let mut i: usize = 0;
    assert(ks.skip(0) == ks);
    while i < keys.len()
        invariant
            ks == key_views(keys@),
            full@ == store.entries(),
            i <= keys@.len(),
            first_bad_key(ks) == first_bad_key(ks.skip(i as int)),
            subset@ == subset_spec(full@, ks.take(i as int)),
        decreases keys@.len() - i,
    {
        let key = keys[i];
        assert(ks[i as int] == key@);
        assert(ks.skip(i as int).drop_first() == ks.skip(i + 1));
        match validate_key(key) {
            Err(e) => {
                return Err(e);
            },
            Ok(()) => {},
        }
        let ghost before = subset@;
        match full.get(key) {
            Some(value) => {
                subset.insert(key.to_owned(), value.clone());
            },
            None => {},
        }
        proof {
            let t = ks.take(i + 1);
            assert(t == ks.take(i as int).push(key@));
            assert forall|k: Seq<char>| #[trigger] t.contains(k) <==> (ks.take(i as int).contains(k) || k == key@) by {
                if t.contains(k) {
                    let j = choose|j: int| 0 <= j < t.len() && t[j] == k;
                    if j < i {
                        assert(ks.take(i as int)[j] == k);
                    }
                }
                if ks.take(i as int).contains(k) {
                    let j = choose|j: int| 0 <= j < i && ks.take(i as int)[j] == k;
                    assert(t[j] == k);
                }
                if k == key@ {
                    assert(t[i as int] == k);
                }
            }
            assert(subset@ =~= subset_spec(full@, t));
        }
        i = i + 1;
    }
    assert(ks.take(i as int) == ks);
    assert(ks.skip(i as int).len() == 0);
    Ok(subset)
}

/// Like `try_subset_snapshot`, but a request with an unacceptable key gives an
/// empty map rather than an error.
pub fn subset_snapshot<S: ConfigSource + ?Sized>(store: &ConfigxStore<S>, keys: &[&str]) -> (r: ConfigMap)
    ensures
        match first_bad_key(key_views(keys@)) {
            Some(_) => r@ == Map::<Seq<char>, Seq<char>>::empty(),
            None => r@ == subset_spec(store.entries(), key_views(keys@)),
        },
{
    match try_subset_snapshot(store, keys) {
        Ok(m) => m,
        Err(_) => ConfigMap::new(),
    }
}

/// Whether two snapshots agree on every given key: both lack it, or both hold
/// it with the same value. An empty list of keys always agrees.
pub fn snapshots_agree(left: &ConfigMap, right: &ConfigMap, keys: &[&str]) -> (r: bool)
    ensures
        r == agree_on(left@, right@, key_views(keys@)),
{
    let ghost ks = key_views(keys@);
    let mut i: usize = 0;
    while i < keys.len()
        invariant
            ks == key_views(keys@),
            i <= keys@.len(),
            forall|j: int| 0 <= j < i ==> agree_at(left@, right@, #[trigger] ks[j]),
        decreases keys@.len() - i,
    {
        let key = keys[i];
        assert(ks[i as int] == key@);
        let same = match (left.get(key), right.get(key)) {
            (Some(a), Some(b)) => a.eq(b),
            (None, None) => true,
            _ => false,
        };
        if !same {
            assert(!agree_at(left@, right@, ks[i as int]));
            return false;
        }
        i = i + 1;
    }
    true
}

} // verus!
