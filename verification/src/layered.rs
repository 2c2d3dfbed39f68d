//! Merging of layers: sources are merged in the order in which they were
//! added, and a later layer overrides an earlier one.

use std::sync::Arc;

use vstd::prelude::*;

use crate::error::{error_is, ConfigxError, ConfigxResult, ErrorKind};
use crate::key::{key_error_message, key_is_valid, validate_key};
use crate::map::{
    entry_view, keys_of, lemma_map_from_sorted_entries, map_from_entries, map_of, sorted_keys,
    ConfigMap, Entry,
};
use crate::source::{ConfigSource, MemorySource};
use crate::text::{push_decimal, push_str};

verus! {

/// The first key of `ks` that is not acceptable, if any.
pub open spec fn first_bad_key(ks: Seq<Seq<char>>) -> Option<Seq<char>>
    decreases ks.len(),
{
    if ks.len() == 0 {
        None
    } else if !key_is_valid(ks[0]) {
        Some(ks[0])
    } else {
        first_bad_key(ks.drop_first())
    }
}

/// Outcome of merging layers.
pub enum MergeOutcome {
    /// The merged entries.
    Merged(Map<Seq<char>, Seq<char>>),
    /// The merge stopped at this unacceptable key.
    BadKey(Seq<char>),
}

/// Merging layers (each given by its entries in key order) one after another:
/// each layer's keys are checked in key order, the first unacceptable key stops
/// the merge, and otherwise the layer's entries override what came before.
pub open spec fn merge_spec(ls: Seq<Seq<Entry>>) -> MergeOutcome
    decreases ls.len(),
{
    if ls.len() == 0 {
        MergeOutcome::Merged(Map::empty())
    } else {
        match merge_spec(ls.drop_last()) {
            MergeOutcome::Merged(m) => match first_bad_key(keys_of(ls.last())) {
                Some(k) => MergeOutcome::BadKey(k),
                None => MergeOutcome::Merged(m.union_prefer_right(map_of(ls.last()))),
            },
            bad => bad,
        }
    }
}

/// The entries of each layer, in key order.
pub open spec fn layer_entries(ls: Seq<ConfigMap>) -> Seq<Seq<Entry>> {
    ls.map_values(|l: ConfigMap| l.pairs())
}

/// Every layer has its keys in increasing key order.
pub open spec fn layers_sorted(ls: Seq<Seq<Entry>>) -> bool {
    forall|i: int| 0 <= i < ls.len() ==> sorted_keys(keys_of(#[trigger] ls[i]))
}

/// The layers `srcs` returned the snapshots `ls` (each given by its entries in
/// key order), one per layer from the first on: `ls` covers a prefix of the
/// layers, and each snapshot is one that its layer may return.
pub open spec fn layers_loaded<S: ConfigSource + ?Sized>(srcs: Seq<Arc<S>>, ls: Seq<Seq<Entry>>) -> bool {
    &&& ls.len() <= srcs.len()
    &&& layers_sorted(ls)
    &&& forall|j: int| 0 <= j < ls.len() ==> (#[trigger] srcs[j]).loads(map_of(ls[j]))
}

/// Every layer of `srcs` returned its snapshot in `ls`, and merging them gave `m`.
pub open spec fn merge_succeeds<S: ConfigSource + ?Sized>(
    srcs: Seq<Arc<S>>,
    ls: Seq<Seq<Entry>>,
    m: Map<Seq<char>, Seq<char>>,
) -> bool {
    &&& layers_loaded(srcs, ls)
    &&& ls.len() == srcs.len()
    &&& merge_spec(ls) == MergeOutcome::Merged(m)
}

/// The layers before the first `ls.len()` returned `ls` and merged without
/// fault, and then `e` came: either the next layer failed with `e`, its own
/// error, or the last snapshot of `ls` held an unacceptable key and `e` is the
/// invalid-key error for the first such key.
pub open spec fn merge_fails_with<S: ConfigSource + ?Sized>(
    srcs: Seq<Arc<S>>,
    ls: Seq<Seq<Entry>>,
    e: ConfigxError,
) -> bool {
    &&& layers_loaded(srcs, ls)
    &&& {
        ||| (merge_spec(ls) is Merged && ls.len() < srcs.len() && srcs[ls.len() as int].fails_with(e))
        ||| (ls.len() > 0 && merge_spec(ls.drop_last()) is Merged && (merge_spec(ls) matches MergeOutcome::BadKey(k) && error_is(
            e,
            ErrorKind::Invalid,
            key_error_message(k),
        )))
    }
}

/// Loading and merging the layers `srcs` can give `m`.
pub open spec fn merge_gives<S: ConfigSource + ?Sized>(srcs: Seq<Arc<S>>, m: Map<Seq<char>, Seq<char>>) -> bool {
    exists|ls: Seq<Seq<Entry>>| #[trigger] merge_succeeds(srcs, ls, m)
}

/// Loading and merging the layers `srcs` can fail with `e`.
pub open spec fn merge_refuses<S: ConfigSource + ?Sized>(srcs: Seq<Arc<S>>, e: ConfigxError) -> bool {
    exists|ls: Seq<Seq<Entry>>| #[trigger] merge_fails_with(srcs, ls, e)
}

/// The snapshots `ms` laid over one another in order, a later one winning.
pub open spec fn overlay(ms: Seq<Map<Seq<char>, Seq<char>>>) -> Map<Seq<char>, Seq<char>>
    decreases ms.len(),
{
    if ms.len() == 0 {
        Map::empty()
    } else {
        overlay(ms.drop_last()).union_prefer_right(ms.last())
    }
}

/// The snapshot of each layer.
pub open spec fn layer_maps(ls: Seq<Seq<Entry>>) -> Seq<Map<Seq<char>, Seq<char>>> {
    ls.map_values(|l: Seq<Entry>| map_of(l))
}

/// A successful merge is the overlay of the layers' snapshots: it depends on
/// what each layer holds, not on anything else.
pub proof fn lemma_merge_is_overlay(ls: Seq<Seq<Entry>>)
    requires
        merge_spec(ls) is Merged,
    ensures
        merge_spec(ls) == MergeOutcome::Merged(overlay(layer_maps(ls))),
    decreases ls.len(),
{
    if ls.len() > 0 {
        lemma_merge_is_overlay(ls.drop_last());
        assert(layer_maps(ls).drop_last() == layer_maps(ls.drop_last()));
    }
}

/// Layers that always give the same snapshot merge to the same entries: two
/// successful merges of the same in-memory layers agree, however they were
/// put together (`push` or `with_source`).
pub proof fn lemma_memory_layers_merge_alike(
    srcs: Seq<Arc<MemorySource>>,
    ls1: Seq<Seq<Entry>>,
    m1: Map<Seq<char>, Seq<char>>,
    ls2: Seq<Seq<Entry>>,
    m2: Map<Seq<char>, Seq<char>>,
)
    requires
        merge_succeeds(srcs, ls1, m1),
        merge_succeeds(srcs, ls2, m2),
    ensures
        m1 == m2,
        m1 == overlay(srcs.map_values(|s: Arc<MemorySource>| s@)),
{
    lemma_merge_is_overlay(ls1);
    lemma_merge_is_overlay(ls2);
    let views = srcs.map_values(|s: Arc<MemorySource>| s@);
    assert forall|j: int| 0 <= j < ls1.len() implies #[trigger] layer_maps(ls1)[j] == views[j] by {
        assert(srcs[j].loads(map_of(ls1[j])));
    }
    assert forall|j: int| 0 <= j < ls2.len() implies #[trigger] layer_maps(ls2)[j] == views[j] by {
        assert(srcs[j].loads(map_of(ls2[j])));
    }
    assert(layer_maps(ls1) =~= views);
    assert(layer_maps(ls2) =~= views);
}

/// When no key is refused, every key of the sequence is acceptable.
proof fn lemma_no_bad_key(ks: Seq<Seq<char>>)
    requires
        first_bad_key(ks) is None,
    ensures
        forall|i: int| 0 <= i < ks.len() ==> key_is_valid(#[trigger] ks[i]),
    decreases ks.len(),
{
    if ks.len() > 0 {
        lemma_no_bad_key(ks.drop_first());
        assert forall|i: int| 0 <= i < ks.len() implies key_is_valid(#[trigger] ks[i]) by {
            if i > 0 {
                assert(ks.drop_first()[i - 1] == ks[i]);
            }
        }
    }
}

/// Once a layer holds a refused key, later layers do not change the outcome.
pub proof fn lemma_bad_layer_fails_merge(ls: Seq<Seq<Entry>>, more: Seq<Seq<Entry>>)
    requires
        merge_spec(ls) is BadKey,
    ensures
        merge_spec(ls + more) == merge_spec(ls),
    decreases more.len(),
{
    if more.len() == 0 {
        assert(ls + more == ls);
    } else {
        lemma_bad_layer_fails_merge(ls, more.drop_last());
        assert((ls + more).drop_last() == ls + more.drop_last());
    }
}

/// A merged key comes from some layer.
pub proof fn lemma_merged_keys_come_from_layers(ls: Seq<Seq<Entry>>, k: Seq<char>)
    requires
        merge_spec(ls) matches MergeOutcome::Merged(m) && m.contains_key(k),
    ensures
        exists|i: int| 0 <= i < ls.len() && #[trigger] map_of(ls[i]).contains_key(k),
    decreases ls.len(),
{
    let init = ls.drop_last();
    if let MergeOutcome::Merged(m) = merge_spec(init) {
        if m.contains_key(k) {
            lemma_merged_keys_come_from_layers(init, k);
            let i = choose|i: int| 0 <= i < init.len() && #[trigger] map_of(init[i]).contains_key(k);
            assert(ls[i] == init[i]);
        } else {
            assert(map_of(ls[ls.len() - 1]).contains_key(k));
        }
    }
}

/// Every merged key is acceptable.
pub proof fn lemma_merged_keys_are_valid(ls: Seq<Seq<Entry>>, k: Seq<char>)
    requires
        merge_spec(ls) matches MergeOutcome::Merged(m) && m.contains_key(k),
    ensures
        key_is_valid(k),
    decreases ls.len(),
{
    let init = ls.drop_last();
    if let MergeOutcome::Merged(m) = merge_spec(init) {
        if m.contains_key(k) {
            lemma_merged_keys_are_valid(init, k);
        } else {
            let last = ls.last();
            lemma_no_bad_key(keys_of(last));
            let i = choose|i: int| 0 <= i < last.len() && #[trigger] last[i].0 == k;
            assert(keys_of(last)[i] == k);
        }
    }
}

/// A later layer wins: the merged value of a key is its value in the last
/// layer that holds it, and a key held by an earlier layer only is kept.
pub proof fn lemma_later_layer_wins(ls: Seq<Seq<Entry>>, k: Seq<char>, i: int)
    requires
        merge_spec(ls) is Merged,
        0 <= i < ls.len(),
        map_of(ls[i]).contains_key(k),
        forall|j: int| i < j < ls.len() ==> !(#[trigger] map_of(ls[j])).contains_key(k),
    ensures
        merge_spec(ls) matches MergeOutcome::Merged(m) && m.contains_key(k) && m[k] == map_of(
            ls[i],
        )[k],
    decreases ls.len(),
{
    let init = ls.drop_last();
    if i < ls.len() - 1 {
        assert forall|j: int| i < j < init.len() implies !(#[trigger] map_of(init[j])).contains_key(k) by {
            assert(init[j] == ls[j]);
        }
        assert(!map_of(ls[ls.len() - 1]).contains_key(k));
        assert(init[i] == ls[i]);
        lemma_later_layer_wins(init, k, i);
    }
}

/// Merges `layer` over `acc` when every key of `layer` is acceptable; leaves
/// `acc` unchanged otherwise.
fn merge_layer(acc: &mut ConfigMap, layer: &ConfigMap) -> (r: ConfigxResult<()>)
    ensures
        match first_bad_key(layer.key_seq()) {
            Some(k) => r matches Err(e) && error_is(e, ErrorKind::Invalid, key_error_message(k))
                && final(acc)@ == old(acc)@,
            None => r is Ok && final(acc)@ == old(acc)@.union_prefer_right(layer@),
        },
{
    layer.lemma_sorted();
    let es = layer.entries();
    let ghost ps = layer.pairs();
    let ghost ks = layer.key_seq();
    let mut i: usize = 0;
    assert(ks.skip(0) == ks);
    while i < es.len()
        invariant
            es@.map_values(|p: (String, String)| entry_view(p)) == ps,
            ps == layer.pairs(),
            ks == keys_of(ps),
            i <= es@.len(),
            first_bad_key(ks) == first_bad_key(ks.skip(i as int)),
        decreases es@.len() - i,
    {
        assert(ks[i as int] == es@[i as int].0@);
        assert(ks.skip(i as int).drop_first() == ks.skip(i + 1));
        match validate_key(es[i].0.as_str()) {
            Err(e) => {
                return Err(e);
            },
            Ok(()) => {},
        }
        i = i + 1;
    }
    assert(ks.skip(i as int).len() == 0);
    let ghost start = acc@;
    let mut j: usize = 0;
    while j < es.len()
        invariant
            es@.map_values(|p: (String, String)| entry_view(p)) == ps,
            j <= es@.len(),
            acc@ == start.union_prefer_right(map_from_entries(ps.take(j as int))),
        decreases es@.len() - j,
    {
        assert(ps[j as int] == entry_view(es@[j as int]));
        acc.insert(es[j].0.clone(), es[j].1.clone());
        assert(ps.take(j + 1).drop_last() == ps.take(j as int));
        assert(acc@ =~= start.union_prefer_right(map_from_entries(ps.take(j + 1))));
        j = j + 1;
    }
    assert(ps.take(j as int) == ps);
    proof {
        lemma_map_from_sorted_entries(ps);
    }
    Ok(())
}

/// Merges layers in order, a later layer overriding an earlier one; the first
/// unacceptable key (each layer's keys taken in key order) fails the whole merge.
pub fn merge_layers(layers: &[ConfigMap]) -> (r: ConfigxResult<ConfigMap>)
    ensures
        match merge_spec(layer_entries(layers@)) {
            MergeOutcome::Merged(m) => r matches Ok(x) && x@ == m,
            MergeOutcome::BadKey(k) => r matches Err(e) && error_is(
                e,
                ErrorKind::Invalid,
                key_error_message(k),
            ),
        },
{
    let ghost ls = layer_entries(layers@);
    let mut merged = ConfigMap::new();
    let mut i: usize = 0;
    while i < layers.len()
        invariant
            ls == layer_entries(layers@),
            i <= layers@.len(),
            merge_spec(ls.take(i as int)) == MergeOutcome::Merged(merged@),
        decreases layers@.len() - i,
    {
        assert(ls.take(i + 1).drop_last() == ls.take(i as int));
        assert(ls.take(i + 1).last() == layers@[i as int].pairs());
        match merge_layer(&mut merged, &layers[i]) {
            Err(e) => {
                proof {
                    assert(ls == ls.take(i + 1) + ls.skip(i + 1));
                    lemma_bad_layer_fails_merge(ls.take(i + 1), ls.skip(i + 1));
                }
                return Err(e);
            },
            Ok(()) => {},
        }
        i = i + 1;
    }
    assert(ls.take(i as int) == ls);
    Ok(merged)
}

/// Layers of configuration sources, merged in the order in which they were
/// added: a later layer has a higher priority. When a key occurs in several
/// layers the later value wins, and keys of earlier layers that later layers
/// do not hold are kept.
pub struct LayeredConfig<S: ConfigSource + ?Sized = crate::source::MemorySource> {
    sources: Vec<Arc<S>>,
}

impl<S: ConfigSource + ?Sized> View for LayeredConfig<S> {
    type V = Seq<Arc<S>>;

    open spec fn view(&self) -> Seq<Arc<S>> {
        self.layers()
    }
}

impl<S: ConfigSource + ?Sized> LayeredConfig<S> {
    /// The layers, lowest priority first.
    pub closed spec fn layers(&self) -> Seq<Arc<S>> {
        self.sources@
    }

    /// No layer.
    pub fn new() -> (r: Self)
        ensures
            r@ == Seq::<Arc<S>>::empty(),
    {
        LayeredConfig { sources: Vec::new() }
    }

    /// Adds a layer, which becomes the one with the highest priority.
    pub fn push(&mut self, source: Arc<S>)
        ensures
            final(self)@ == old(self)@.push(source),
    {
        self.sources.push(source);
    }

    /// Adds a layer and returns the layers.
    pub fn with_source(self, source: Arc<S>) -> (r: Self)
        ensures
            r@ == self@.push(source),
    {
        let mut layered = self;
        layered.push(source);
        layered
    }

    /// Number of layers.
    pub fn len(&self) -> (r: usize)
        ensures
            r == self@.len(),
    {
        self.sources.len()
    }

    /// Whether there is no layer.
    pub fn is_empty(&self) -> (r: bool)
        ensures
            r == (self@.len() == 0),
    {
        self.sources.len() == 0
    }

    /// Loads every layer in order and merges them.
    ///
    /// Each layer is loaded, then its keys are checked, before the next one is
    /// loaded. A failing source or an unacceptable key fails the whole merge,
    /// and no partial result is returned: the error is the failing source's
    /// own, or the invalid-key error for the first unacceptable key of the
    /// first layer that holds one. On success the merged entries are the merge
    /// of what each layer returned, in order, a later layer winning.
    pub fn load_merged(&self) -> (r: ConfigxResult<ConfigMap>)
        ensures
            self@.len() == 0 ==> (r matches Ok(m) && m@ == Map::<Seq<char>, Seq<char>>::empty()),
            match r {
                Ok(m) => merge_gives(self@, m@),
                Err(e) => merge_refuses(self@, e),
            },
            r matches Ok(m) ==> forall|k: Seq<char>| #[trigger] m@.contains_key(k) ==> key_is_valid(k),
    {
        let mut merged = ConfigMap::new();
        let ghost mut loaded: Seq<Seq<Entry>> = Seq::empty();
        let mut i: usize = 0;
        while i < self.sources.len()
            invariant
                i <= self.sources@.len(),
                loaded.len() == i,
                layers_loaded(self@, loaded),
                merge_spec(loaded) == MergeOutcome::Merged(merged@),
            decreases self.sources@.len() - i,
        {
            let layer = match self.sources[i].load() {
                Ok(layer) => layer,
                Err(e) => {
                    assert(merge_fails_with(self@, loaded, e));
                    return Err(e);
                },
            };
            layer.lemma_sorted();
            let ghost before = loaded;
            let ghost next = loaded.push(layer.pairs());
            proof {
                assert(next.drop_last() == before);
                assert(next.last() == layer.pairs());
                assert forall|j: int| 0 <= j < next.len() implies sorted_keys(keys_of(#[trigger] next[j])) by {
                    if j < before.len() {
                        assert(next[j] == before[j]);
                    }
                }
                assert forall|j: int| 0 <= j < next.len() implies (#[trigger] self@[j]).loads(map_of(next[j])) by {
                    if j < before.len() {
                        assert(next[j] == before[j]);
                    }
                }
                assert(layers_loaded(self@, next));
            }
            match merge_layer(&mut merged, &layer) {
                Err(e) => {
                    assert(merge_fails_with(self@, next, e));
                    return Err(e);
                },
                Ok(()) => {},
            }
            proof {
                loaded = next;
            }
            i = i + 1;
        }
        proof {
            assert(merge_succeeds(self@, loaded, merged@));
            assert(merge_gives(self@, merged@));
            assert forall|k: Seq<char>| #[trigger] merged@.contains_key(k) implies key_is_valid(k) by {
                lemma_merged_keys_are_valid(loaded, k);
            }
        }
        Ok(merged)
    }

    /// A description that gives the number of layers and nothing of their content.
    pub fn debug_string(&self) -> (r: String)
        ensures
            r@ == "LayeredConfig { layers: "@ + crate::text::decimal(self@.len()) + " }"@,
    {
        let mut out = "LayeredConfig { layers: ".to_owned();
        push_decimal(&mut out, self.sources.len() as u128);
        push_str(&mut out, " }");
        out
    }
}

impl<S: ConfigSource + ?Sized> Default for LayeredConfig<S> {
    /// No layer.
    fn default() -> (r: Self)
        ensures
            r@ == Seq::<Arc<S>>::empty(),
    {
        LayeredConfig::new()
    }
}

} // verus!
