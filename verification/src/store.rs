//! The store: layered sources, one immutable snapshot, and change notification.

use std::sync::Arc;

use vstd::prelude::*;

use crate::config::{default_settings, ConfigxConfig};
use crate::error::{error_is, ConfigxError, ConfigxResult, ErrorKind};
use crate::key::key_is_valid;
use crate::layered::{merge_gives, merge_refuses, LayeredConfig};
use crate::map::{ConfigMap, Entry};
use crate::secret::{map_text, push_entries_text};
use crate::source::ConfigSource;
use crate::text::{decimal, push_decimal, push_str};
use crate::watch::{notify_refusal, ConfigSubscription, ConfigWatch};

verus! {

/// Message of the conflict that refuses an empty snapshot.
pub const EMPTY_SNAPSHOT_REFUSED: &'static str = "不允许把配置替换为空快照（allow_empty_snapshot=false）";

/// The message of `ping` when no source has been loaded: the numbers of
/// registered and of loaded sources.
pub open spec fn unhealthy_message(registered: nat, loaded: nat) -> Seq<char> {
    "没有已成功加载的配置源（已注册 "@ + decimal(registered) + " 个，已加载 "@ + decimal(loaded)
        + " 个）"@
}

/// The message for a typed read of a key that is not there; it names the key.
pub open spec fn missing_key_message(key: Seq<char>) -> Seq<char> {
    "配置键不存在："@ + key
}

/// The message for a value that cannot be read as the requested type; it names
/// the key and the type, never the value.
pub open spec fn type_mismatch_message(key: Seq<char>, target_type: Seq<char>) -> Seq<char> {
    "配置键 "@ + key + " 的值无法转换为类型 "@ + target_type
}

/// The errors with which reloading the layers `srcs` under `config` can fail:
/// what merging them can fail with; the conflict that refuses an empty merged
/// snapshot when empty snapshots are not allowed; or, once a merged snapshot
/// is admitted, a failed announcement of the change.
pub open spec fn reload_refusal<S: ConfigSource + ?Sized>(
    srcs: Seq<Arc<S>>,
    config: ConfigxConfig,
    e: ConfigxError,
) -> bool {
    ||| merge_refuses(srcs, e)
    ||| ((exists|m: Map<Seq<char>, Seq<char>>| #[trigger] merge_gives(srcs, m) && m.len() == 0)
        && !config.allow_empty_snapshot && error_is(e, ErrorKind::Conflict, EMPTY_SNAPSHOT_REFUSED@))
    ||| ((exists|m: Map<Seq<char>, Seq<char>>| #[trigger] merge_gives(srcs, m) && (m.len() > 0 || config.allow_empty_snapshot))
        && notify_refusal(e))
}

/// Runtime summary of a store.
///
/// Healthy means that at least one source was loaded by the last successful
/// `reload`, whatever the number of keys: a source may load no entry at all.
#[derive(Debug, Clone, Copy, PartialEq, Eq, Structural)]
pub struct ConfigxHealth {
    /// Number of sources loaded by the last successful `reload`.
    pub sources: usize,
    /// Number of keys in the current snapshot.
    pub keys: usize,
    /// Whether at least one source has been loaded.
    pub healthy: bool,
}

/// Whether the settings admit `merged` as the next snapshot: an empty snapshot
/// is refused with a conflict when empty snapshots are not allowed.
pub fn check_snapshot_policy(config: &ConfigxConfig, merged: &ConfigMap) -> (r: ConfigxResult<()>)
    ensures
        r is Err <==> (merged@.len() == 0 && !config.allow_empty_snapshot),
        r matches Err(e) ==> error_is(e, ErrorKind::Conflict, EMPTY_SNAPSHOT_REFUSED@),
{
    if merged.is_empty() && !config.allow_empty_snapshot {
        return Err(ConfigxError::conflict(EMPTY_SNAPSHOT_REFUSED));
    }
    Ok(())
}

/// What a typed read returns, given the raw value of `key` (if any) and what
/// reading it as the requested type gave (if it could be read).
///
/// A missing key gives `Missing`; a value that could not be read gives
/// `TypeMismatch`. Neither message holds the value.
pub fn typed_outcome<T>(key: &str, target_type: &str, raw: Option<&str>, decoded: Option<T>) -> (r: ConfigxResult<T>)
    ensures
        raw is None ==> (r matches Err(e) && error_is(e, ErrorKind::Missing, missing_key_message(key@))),
        raw is Some && decoded is None ==> (r matches Err(e) && error_is(
            e,
            ErrorKind::TypeMismatch,
            type_mismatch_message(key@, target_type@),
        )),
        raw is Some ==> (decoded matches Some(v) ==> (r matches Ok(x) && x == v)),
{
    match raw {
        None => {
            let mut message = "配置键不存在：".to_owned();
            push_str(&mut message, key);
            Err(ConfigxError::missing(message.as_str()))
        },
        Some(_) => match decoded {
            Some(value) => Ok(value),
            None => {
                let mut message = "配置键 ".to_owned();
                push_str(&mut message, key);
                push_str(&mut message, " 的值无法转换为类型 ");
                push_str(&mut message, target_type);
                Err(ConfigxError::type_mismatch(message.as_str()))
            },
        },
    }
}

/// The layered configuration store.
///
/// - Sources are merged in the order in which they were registered; a later
///   source overrides an earlier one.
/// - `reload` loads and checks every source before it replaces the snapshot as
///   a whole, so a reader sees the old snapshot or the new one, never a part.
/// - A failing source, an unacceptable key, a refused empty snapshot or a
///   failed notification leaves the snapshot as it was.
/// - Keys are stored and looked up exactly as written.
/// - Reading never masks: `get` returns the value itself; masking applies to
///   descriptions only.
///
/// Reading takes `&self` and may happen from several threads; replacing the
/// snapshot (`reload`, `register_source`) takes `&mut self`.
pub struct ConfigxStore<S: ConfigSource + ?Sized = crate::source::MemorySource> {
    config: ConfigxConfig,
    layered: LayeredConfig<S>,
    snapshot: Arc<ConfigMap>,
    loaded_sources: usize,
    watch: Arc<ConfigWatch>,
}

impl<S: ConfigSource + ?Sized> ConfigxStore<S> {
    /// The entries of the current snapshot.
    pub closed spec fn entries(&self) -> Map<Seq<char>, Seq<char>> {
        self.snapshot@
    }

    /// The entries of the current snapshot, in increasing key order.
    pub closed spec fn entry_seq(&self) -> Seq<Entry> {
        self.snapshot.pairs()
    }

    /// The settings of the store.
    pub closed spec fn settings(&self) -> ConfigxConfig {
        self.config
    }

    /// The registered sources, lowest priority first.
    pub closed spec fn layers(&self) -> Seq<Arc<S>> {
        self.layered@
    }

    /// Number of sources loaded by the last successful `reload`.
    pub closed spec fn loaded(&self) -> nat {
        self.loaded_sources as nat
    }

    /// The change bus of the store.
    pub closed spec fn bus(&self) -> Arc<ConfigWatch> {
        self.watch
    }

    /// Every key of the snapshot is acceptable.
    #[verifier::type_invariant]
    closed spec fn keys_are_valid(&self) -> bool {
        forall|k: Seq<char>| #[trigger] self.snapshot@.contains_key(k) ==> key_is_valid(k)
    }

    /// An empty store with the given settings.
    fn empty_with(config: ConfigxConfig) -> (r: Self)
        ensures
            r.entries() == Map::<Seq<char>, Seq<char>>::empty(),
            r.entry_seq().len() == 0,
            r.settings() == config,
            r.layers().len() == 0,
            r.loaded() == 0,
    {
        ConfigxStore {
            config,
            layered: LayeredConfig::new(),
            snapshot: Arc::new(ConfigMap::new()),
            loaded_sources: 0,
            watch: Arc::new(ConfigWatch::new()),
        }
    }

    /// An empty store: no source, an empty snapshot, the default settings.
    pub fn new() -> (r: Self)
        ensures
            r.entries() == Map::<Seq<char>, Seq<char>>::empty(),
            r.entry_seq().len() == 0,
            r.settings() == default_settings(),
            r.layers().len() == 0,
            r.loaded() == 0,
    {
        Self::empty_with(ConfigxConfig::default())
    }

    /// An empty store with the given settings, once they are checked.
    pub fn from_config(config: ConfigxConfig) -> (r: ConfigxResult<Self>)
        ensures
            r matches Ok(s) && s.settings() == config && s.entries() == Map::<
                Seq<char>,
                Seq<char>,
            >::empty() && s.layers().len() == 0 && s.loaded() == 0,
    {
        match config.validate() {
            Err(e) => Err(e),
            Ok(()) => Ok(Self::empty_with(config)),
        }
    }

    /// Adds a shared source, which becomes the layer with the highest priority.
    pub fn register_shared_source(&mut self, source: Arc<S>)
        ensures
            final(self).layers() == old(self).layers().push(source),
            final(self).entries() == old(self).entries(),
            final(self).entry_seq() == old(self).entry_seq(),
            final(self).settings() == old(self).settings(),
            final(self).loaded() == old(self).loaded(),
            final(self).bus() == old(self).bus(),
    {
        proof {
            use_type_invariant(&*self);
        }
        let mut layered = LayeredConfig::new();
        std::mem::swap(&mut layered, &mut self.layered);
        layered.push(source);
        self.layered = layered;
    }

    /// The settings.
    pub fn config(&self) -> (r: &ConfigxConfig)
        ensures
            *r == self.settings(),
    {
        &self.config
    }

    /// Number of registered sources, loaded or not.
    pub fn source_count(&self) -> (r: usize)
        ensures
            r == self.layers().len(),
    {
        self.layered.len()
    }

    /// Loads every source in order and, when all of them load and every key is
    /// acceptable, replaces the snapshot as a whole and announces one change.
    ///
    /// The change is announced before the snapshot is replaced; every failure
    /// (a source, a key, a refused empty snapshot, a closed or poisoned bus, an
    /// exhausted generation) happens before, and leaves the snapshot and the
    /// number of loaded sources as they were. The error is the failing
    /// source's own, the invalid-key error for the first unacceptable key, the
    /// conflict that refuses an empty snapshot, or the conflict of the bus.
    pub fn reload(&mut self) -> (r: ConfigxResult<()>)
        ensures
            final(self).layers() == old(self).layers(),
            final(self).settings() == old(self).settings(),
            final(self).bus() == old(self).bus(),
            r is Err ==> final(self).entries() == old(self).entries() && final(self).entry_seq()
                == old(self).entry_seq() && final(self).loaded() == old(self).loaded(),
            r is Ok ==> final(self).loaded() == old(self).layers().len(),
            r is Ok ==> merge_gives(old(self).layers(), final(self).entries()),
            r matches Err(e) ==> reload_refusal(old(self).layers(), old(self).settings(), e),
            r is Ok ==> final(self).entries().len() > 0 || old(self).settings().allow_empty_snapshot,
    {
        let merged = match self.layered.load_merged() {
            Ok(m) => m,
            Err(e) => {
                return Err(e);
            },
        };
        match check_snapshot_policy(&self.config, &merged) {
            Err(e) => {
                return Err(e);
            },
            Ok(()) => {},
        }
        match self.watch.notify() {
            Err(e) => {
                return Err(e);
            },
            Ok(_) => {},
        }
        self.snapshot = Arc::new(merged);
        self.loaded_sources = self.layered.len();
        Ok(())
    }

    /// The value of `key`, exactly as loaded: `None` exactly when the key is
    /// not there. Values are never masked here.
    pub fn get(&self, key: &str) -> (r: Option<&str>)
        ensures
            match r {
                Some(v) => self.entries().contains_key(key@) && self.entries()[key@] == v@
                    && key_is_valid(key@),
                None => !self.entries().contains_key(key@),
            },
    {
        proof {
            use_type_invariant(self);
        }
        match self.snapshot.get(key) {
            Some(v) => Some(v.as_str()),
            None => None,
        }
    }

    /// Whether `key` is there.
    pub fn contains_key(&self, key: &str) -> (r: bool)
        ensures
            r == self.entries().contains_key(key@),
    {
        self.snapshot.contains_key(key)
    }

    /// Number of keys in the snapshot.
    pub fn len(&self) -> (r: usize)
        ensures
            r == self.entries().len(),
    {
        self.snapshot.len()
    }

    /// Whether the snapshot holds no key.
    pub fn is_empty(&self) -> (r: bool)
        ensures
            r == (self.entries().len() == 0),
    {
        self.snapshot.is_empty()
    }

    /// The current snapshot. It does not change: a later `reload` replaces the
    /// store's snapshot, not this one. Values are not masked.
    pub fn snapshot(&self) -> (r: Arc<ConfigMap>)
        ensures
            r@ == self.entries(),
            (*r).pairs() == self.entry_seq(),
            forall|k: Seq<char>| #[trigger] r@.contains_key(k) ==> key_is_valid(k),
    {
        proof {
            use_type_invariant(self);
        }
        Arc::clone(&self.snapshot)
    }

    /// Succeeds when at least one source has been loaded; otherwise reports an
    /// unavailable store, which a `reload` after registering a source mends.
    pub fn ping(&self) -> (r: ConfigxResult<()>)
        ensures
            r is Ok <==> self.loaded() > 0,
            r matches Err(e) ==> error_is(
                e,
                ErrorKind::Unavailable,
                unhealthy_message(self.layers().len(), self.loaded()),
            ),
    {
        let health = match self.health_check() {
            Ok(h) => h,
            Err(e) => {
                return Err(e);
            },
        };
        if health.healthy {
            return Ok(());
        }
        let mut message = "没有已成功加载的配置源（已注册 ".to_owned();
        push_decimal(&mut message, self.layered.len() as u128);
        push_str(&mut message, " 个，已加载 ");
        push_decimal(&mut message, self.loaded_sources as u128);
        push_str(&mut message, " 个）");
        Err(ConfigxError::unavailable(message.as_str()))
    }

    /// A summary of the store; never an error, the `Result` keeps the shape of
    /// the other checks.
    pub fn health_check(&self) -> (r: ConfigxResult<ConfigxHealth>)
        ensures
            r matches Ok(h) && h.sources == self.loaded() && h.keys == self.entries().len() && h.healthy
                == (self.loaded() > 0),
    {
        Ok(ConfigxHealth {
            sources: self.loaded_sources,
            keys: self.snapshot.len(),
            healthy: self.loaded_sources > 0,
        })
    }

    /// A subscription to the changes of the store.
    pub fn watch(&self) -> (r: ConfigSubscription)
        ensures
            r.bus() == self.bus(),
    {
        self.watch.subscribe()
    }

    /// A subscription to the changes of the store (same as `watch`).
    pub fn subscribe(&self) -> (r: ConfigSubscription)
        ensures
            r.bus() == self.bus(),
    {
        self.watch()
    }

    /// The change bus, to announce or close by hand.
    pub fn notifier(&self) -> (r: Arc<ConfigWatch>)
        ensures
            r == self.bus(),
    {
        Arc::clone(&self.watch)
    }

    /// The current generation of changes.
    pub fn generation(&self) -> (r: u64) {
        self.watch.generation()
    }

    /// A description of the store: numbers of sources, the generation and the
    /// entries in key order, secret values masked unless masking is switched off.
    pub fn debug_string(&self) -> (r: String)
        ensures
            exists|g: u64|
                r@ == "ConfigxStore { sources: "@ + decimal(self.layers().len()) + ", loaded_sources: "@
                    + decimal(self.loaded()) + ", generation: "@ + decimal(g as nat) + ", entries: "@
                    + map_text(self.entry_seq(), self.settings().redact_secrets) + " }"@,
    {
        let generation = self.generation();
        let mut out = "ConfigxStore { sources: ".to_owned();
        push_decimal(&mut out, self.layered.len() as u128);
        push_str(&mut out, ", loaded_sources: ");
        push_decimal(&mut out, self.loaded_sources as u128);
        push_str(&mut out, ", generation: ");
        push_decimal(&mut out, generation as u128);
        push_str(&mut out, ", entries: ");
        push_entries_text(&mut out, &self.snapshot, self.config.redact_secrets);
        push_str(&mut out, " }");
        assert(out@ =~= "ConfigxStore { sources: "@ + decimal(self.layers().len()) + ", loaded_sources: "@
            + decimal(self.loaded()) + ", generation: "@ + decimal(generation as nat) + ", entries: "@
            + map_text(self.entry_seq(), self.settings().redact_secrets) + " }"@);
        out
    }
}

impl<S: ConfigSource> ConfigxStore<S> {
    /// Adds a source, which becomes the layer with the highest priority.
    pub fn register_source(&mut self, source: S)
        ensures
            final(self).layers().len() == old(self).layers().len() + 1,
            final(self).layers().drop_last() == old(self).layers(),
            *final(self).layers().last() == source,
            final(self).entries() == old(self).entries(),
            final(self).entry_seq() == old(self).entry_seq(),
            final(self).settings() == old(self).settings(),
            final(self).loaded() == old(self).loaded(),
            final(self).bus() == old(self).bus(),
    {
        self.register_shared_source(Arc::new(source));
    }

    /// Adds a source and returns the store.
    pub fn with_source(self, source: S) -> (r: Self)
        ensures
            r.layers().len() == self.layers().len() + 1,
            r.layers().drop_last() == self.layers(),
            *r.layers().last() == source,
            r.entries() == self.entries(),
            r.entry_seq() == self.entry_seq(),
            r.settings() == self.settings(),
            r.loaded() == self.loaded(),
            r.bus() == self.bus(),
    {
        let mut store = self;
        store.register_source(source);
        store
    }
}

impl<S: ConfigSource + ?Sized> Default for ConfigxStore<S> {
    /// An empty store: no source, an empty snapshot, the default settings.
    fn default() -> (r: Self)
        ensures
            r.entries() == Map::<Seq<char>, Seq<char>>::empty(),
            r.settings() == default_settings(),
            r.layers().len() == 0,
            r.loaded() == 0,
    {
        Self::new()
    }
}

} // verus!
