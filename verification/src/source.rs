//! Configuration sources: in memory, environment variables, `KEY=VALUE` files
//! and the optional global file.

use vstd::prelude::*;

use crate::error::{error_is, ConfigxError, ConfigxResult, ErrorKind};
use crate::kv::{
    empty_key_message, missing_separator_message, parse_key_value_file, parse_kv_spec, KvParse,
};
use crate::map::{entry_view, ConfigMap};
use crate::secret::{is_secret, is_secret_key};
use crate::text::{chars_of, push_str, string_of};

verus! {

// ---------------------------------------------------------------------------
// Sources
// ---------------------------------------------------------------------------

/// A source of configuration entries.
///
/// An implementation returns a complete snapshot of its entries on every call;
/// the caller merges layers and decides which one wins, a source knows nothing
/// of its rank. Sources are shared by stores that readers use from several
/// threads, hence `Send + Sync`. Loading may block (reading a file, asking a
/// service), so it belongs to synchronous code.
pub trait ConfigSource: Send + Sync {
    /// Whether `m` is a snapshot that a load of this source may return. A
    /// source that does not say admits every snapshot.
    open spec fn loads(&self, m: Map<Seq<char>, Seq<char>>) -> bool {
        true
    }

    /// Whether `e` is an error that a load of this source may return. A source
    /// that does not say admits every error.
    open spec fn fails_with(&self, e: ConfigxError) -> bool {
        true
    }

    /// Loads the current entries. The caller checks every key.
    fn load(&self) -> (r: ConfigxResult<ConfigMap>)
        ensures
            match r {
                Ok(m) => self.loads(m@),
                Err(e) => self.fails_with(e),
            },
    ;
}

/// A source whose entries are given when it is built.
#[derive(Debug)]
pub struct MemorySource {
    entries: ConfigMap,
}

impl View for MemorySource {
    type V = Map<Seq<char>, Seq<char>>;

    open spec fn view(&self) -> Map<Seq<char>, Seq<char>> {
        self.contents()
    }
}

impl MemorySource {
    /// The entries held by the source.
    pub closed spec fn contents(&self) -> Map<Seq<char>, Seq<char>> {
        self.entries@
    }

    /// The entries, in increasing key order.
    pub closed spec fn entry_seq(&self) -> Seq<crate::map::Entry> {
        self.entries.pairs()
    }

    /// A source with no entry.
    pub fn new() -> (r: Self)
        ensures
            r@ == Map::<Seq<char>, Seq<char>>::empty(),
    {
        MemorySource { entries: ConfigMap::new() }
    }

    /// A source holding the given pairs; when a key repeats, the later pair wins.
    pub fn from_pairs(pairs: &[(&str, &str)]) -> (r: Self)
        ensures
            r@ == crate::map::map_from_entries(pairs@.map_values(|p: (&str, &str)| crate::map::str_entry_view(p))),
    {
        MemorySource { entries: ConfigMap::from_pairs(pairs) }
    }

    /// A description of the source; secret values are always masked, since a
    /// source carries no masking setting.
    pub fn debug_string(&self) -> (r: String)
        ensures
            r@ == "MemorySource { entries: "@ + crate::secret::map_text(self.entry_seq(), true) + " }"@,
    {
        let mut out = "MemorySource { entries: ".to_owned();
        crate::secret::push_entries_text(&mut out, &self.entries, true);
        push_str(&mut out, " }");
        out
    }

    /// The entries held by the source, in increasing key order.
    pub fn entries(&self) -> (r: &ConfigMap)
        ensures
            r@ == self@,
            r.pairs() == self.entry_seq(),
    {
        &self.entries
    }
}

impl Default for MemorySource {
    /// A source with no entry.
    fn default() -> (r: Self)
        ensures
            r@ == Map::<Seq<char>, Seq<char>>::empty(),
    {
        MemorySource::new()
    }
}

impl Clone for MemorySource {
    /// A source holding the same entries.
    fn clone(&self) -> (r: Self)
        ensures
            r@ == self@,
    {
        MemorySource { entries: self.entries.clone() }
    }
}

impl ConfigSource for MemorySource {
    /// A load gives exactly the entries held.
    open spec fn loads(&self, m: Map<Seq<char>, Seq<char>>) -> bool {
        m == self@
    }

    /// A load never fails.
    open spec fn fails_with(&self, e: ConfigxError) -> bool {
        false
    }

    /// An independent copy of the entries: what the caller does with it does
    /// not reach the source.
    fn load(&self) -> (r: ConfigxResult<ConfigMap>)
        ensures
            r matches Ok(m) && m@ == self@,
    {
        Ok(self.entries.clone())
    }
}

// ---------------------------------------------------------------------------
// Environment variables
// ---------------------------------------------------------------------------

/// Message when a variable's name is not valid Unicode.
pub const ENV_KEY_NOT_UNICODE: &'static str = "环境变量键不是有效 Unicode";

/// Message when a variable's value is not valid Unicode.
pub const ENV_VALUE_NOT_UNICODE: &'static str = "环境变量值不是有效 Unicode";

/// A name or a value read from the process environment.
#[derive(Debug, Clone, PartialEq, Eq)]
pub enum EnvText {
    /// Valid Unicode text.
    Unicode(String),
    /// Text that is not valid Unicode.
    NotUnicode,
}

/// What one variable adds to the entries of a source with prefix `prefix`:
/// a variable whose name starts with the prefix and goes on after it is
/// stored under the rest of its name; any other variable is skipped.
pub open spec fn env_step(prefix: Seq<char>, m: Map<Seq<char>, Seq<char>>, k: Seq<char>, v: Seq<char>) -> Map<Seq<char>, Seq<char>> {
    if prefix.is_prefix_of(k) && k.len() > prefix.len() {
        m.insert(k.skip(prefix.len() as int), v)
    } else {
        m
    }
}

/// The entries that variables give, read in order; a later variable wins.
pub open spec fn env_fold(prefix: Seq<char>, vars: Seq<crate::map::Entry>) -> Map<Seq<char>, Seq<char>>
    decreases vars.len(),
{
    if vars.len() == 0 {
        Map::empty()
    } else {
        env_step(prefix, env_fold(prefix, vars.drop_last()), vars.last().0, vars.last().1)
    }
}

/// The entries of a source with prefix `prefix`: none for an empty prefix (so
/// that the whole environment is never taken in), the stripped variables otherwise.
pub open spec fn env_map(prefix: Seq<char>, vars: Seq<crate::map::Entry>) -> Map<Seq<char>, Seq<char>> {
    if prefix.len() == 0 {
        Map::empty()
    } else {
        env_fold(prefix, vars)
    }
}

/// Two names that both start with `prefix` are equal when what follows the
/// prefix is.
proof fn lemma_prefixed_names_equal(prefix: Seq<char>, a: Seq<char>, b: Seq<char>)
    requires
        prefix.is_prefix_of(a),
        prefix.is_prefix_of(b),
        a.skip(prefix.len() as int) == b.skip(prefix.len() as int),
    ensures
        a == b,
{
    let n = prefix.len() as int;
    assert(a.subrange(0, n) =~= prefix);
    assert(b.subrange(0, n) =~= prefix);
    assert(a.skip(n).len() == a.len() - n);
    assert(b.skip(n).len() == b.len() - n);
    assert(a.len() == b.len());
    assert forall|i: int| 0 <= i < a.len() implies a[i] == b[i] by {
        if i < n {
            assert(a.subrange(0, n)[i] == a[i]);
            assert(b.subrange(0, n)[i] == b[i]);
            assert(a.subrange(0, n)[i] == prefix[i]);
            assert(b.subrange(0, n)[i] == prefix[i]);
        } else {
            assert(a[i] == a.skip(n)[i - n]);
            assert(b[i] == b.skip(n)[i - n]);
        }
    }
    assert(a =~= b);
}

/// With a non-empty prefix, every variable whose name starts with the prefix
/// and goes on after it gives an entry: the rest of its name maps to its value,
/// whatever that value is (an empty one included), unless a later variable has
/// the same name.
pub proof fn lemma_prefixed_variable_gives_entry(prefix: Seq<char>, vars: Seq<crate::map::Entry>, i: int)
    requires
        prefix.len() > 0,
        0 <= i < vars.len(),
        prefix.is_prefix_of(vars[i].0),
        vars[i].0.len() > prefix.len(),
        forall|j: int| i < j < vars.len() ==> (#[trigger] vars[j]).0 != vars[i].0,
    ensures
        env_map(prefix, vars).contains_key(vars[i].0.skip(prefix.len() as int)),
        env_map(prefix, vars)[vars[i].0.skip(prefix.len() as int)] == vars[i].1,
    decreases vars.len(),
{
    let key = vars[i].0.skip(prefix.len() as int);
    if i < vars.len() - 1 {
        let init = vars.drop_last();
        assert forall|j: int| i < j < init.len() implies (#[trigger] init[j]).0 != init[i].0 by {
            assert(init[j] == vars[j]);
        }
        lemma_prefixed_variable_gives_entry(prefix, init, i);
        let (k, v) = vars.last();
        assert(vars[vars.len() - 1].0 != vars[i].0);
        if prefix.is_prefix_of(k) && k.len() > prefix.len() {
            if k.skip(prefix.len() as int) == key {
                lemma_prefixed_names_equal(prefix, k, vars[i].0);
            }
        }
    }
}

/// A variable whose name does not start with the prefix, or is only the
/// prefix, adds nothing: the entries are those of the other variables.
pub proof fn lemma_unprefixed_variable_adds_nothing(prefix: Seq<char>, vars: Seq<crate::map::Entry>, k: Seq<char>, v: Seq<char>)
    requires
        !(prefix.is_prefix_of(k) && k.len() > prefix.len()),
    ensures
        env_map(prefix, vars.push((k, v))) == env_map(prefix, vars),
{
    assert(vars.push((k, v)).drop_last() == vars);
}

/// Outcome of reading raw variables: the variables as text, or which part of
/// the first faulty one is not valid Unicode.
pub enum EnvScan {
    /// Every name and value is text.
    Pairs(Seq<crate::map::Entry>),
    /// A name is not valid Unicode.
    BadKey,
    /// A value is not valid Unicode.
    BadValue,
}

/// Reads raw variables in order; the first that is not valid Unicode decides,
/// its name before its value.
pub open spec fn scan_env(vars: Seq<(EnvText, EnvText)>) -> EnvScan
    decreases vars.len(),
{
    if vars.len() == 0 {
        EnvScan::Pairs(Seq::empty())
    } else {
        match scan_env(vars.drop_last()) {
            EnvScan::Pairs(ps) => match vars.last() {
                (EnvText::NotUnicode, _) => EnvScan::BadKey,
                (EnvText::Unicode(_), EnvText::NotUnicode) => EnvScan::BadValue,
                (EnvText::Unicode(k), EnvText::Unicode(v)) => EnvScan::Pairs(ps.push((k@, v@))),
            },
            bad => bad,
        }
    }
}

/// Whether `prefix` starts `key`, comparing characters.
fn starts_with_chars(key: &Vec<char>, prefix: &Vec<char>) -> (r: bool)
    ensures
        r == prefix@.is_prefix_of(key@),
{
    if prefix.len() > key.len() {
        return false;
    }
    let mut i: usize = 0;
    while i < prefix.len()
        invariant
            prefix@.len() <= key@.len(),
            i <= prefix@.len(),
            forall|j: int| 0 <= j < i ==> prefix@[j] == key@[j],
        decreases prefix@.len() - i,
    {
        if prefix[i] != key[i] {
            return false;
        }
        i = i + 1;
    }
    true
}

/// Adds what one variable gives to `out`.
fn env_insert(out: &mut ConfigMap, prefix: &Vec<char>, key: &str, value: &str)
    ensures
        final(out)@ == env_step(prefix@, old(out)@, key@, value@),
{
    let k = chars_of(key);
    if starts_with_chars(&k, prefix) && k.len() > prefix.len() {
        let stripped = string_of(&k, prefix.len(), k.len());
        assert(stripped@ == key@.skip(prefix@.len() as int));
        out.insert(stripped, value.to_owned());
    }
}

/// A source of environment variables that start with a prefix.
///
/// Only variables whose name starts with `prefix` are taken, and they are
/// stored under the rest of their name: with prefix `APP_`, `APP_HOST=h` gives
/// the key `HOST`. Names are compared case-sensitively.
#[derive(Debug, Clone)]
pub struct EnvSource {
    prefix: String,
}

impl EnvSource {
    /// The prefix.
    pub closed spec fn prefix_spec(&self) -> Seq<char> {
        self.prefix@
    }

    /// A source for the variables that start with `prefix`; with an empty
    /// prefix it loads nothing, so that the whole environment is never taken in.
    pub fn new(prefix: &str) -> (r: Self)
        ensures
            r.prefix_spec() == prefix@,
    {
        EnvSource { prefix: prefix.to_owned() }
    }

    /// The prefix.
    pub fn prefix(&self) -> (r: &str)
        ensures
            r@ == self.prefix_spec(),
    {
        self.prefix.as_str()
    }

    /// The entries that the given variables give; a variable whose name is only
    /// the prefix is skipped, and a later variable wins over an earlier one with
    /// the same name. Never an error: the `Result` keeps the shape of `load`.
    pub fn load_from_iter(&self, vars: &[(&str, &str)]) -> (r: ConfigxResult<ConfigMap>)
        ensures
            r matches Ok(m) && m@ == env_map(
                self.prefix_spec(),
                vars@.map_values(|p: (&str, &str)| crate::map::str_entry_view(p)),
            ),
    {
        let ghost views = vars@.map_values(|p: (&str, &str)| crate::map::str_entry_view(p));
        let mut out = ConfigMap::new();
        if self.prefix.as_str().is_empty() {
            return Ok(out);
        }
        let prefix = chars_of(self.prefix.as_str());
        let mut i: usize = 0;
        while i < vars.len()
            invariant
                views == vars@.map_values(|p: (&str, &str)| crate::map::str_entry_view(p)),
                prefix@ == self.prefix_spec(),
                i <= vars@.len(),
                out@ == env_fold(prefix@, views.take(i as int)),
            decreases vars@.len() - i,
        {
            let (k, v) = vars[i];
            env_insert(&mut out, &prefix, k, v);
            assert(views.take(i + 1).drop_last() == views.take(i as int));
            i = i + 1;
        }
        assert(views.take(i as int) == views);
        Ok(out)
    }

    /// The entries that raw variables give; a name or a value that is not valid
    /// Unicode is an error, the first such variable deciding, its name before
    /// its value.
    pub fn load_from_os_iter(&self, vars: &[(EnvText, EnvText)]) -> (r: ConfigxResult<ConfigMap>)
        ensures
            match scan_env(vars@) {
                EnvScan::BadKey => r matches Err(e) && error_is(e, ErrorKind::Invalid, ENV_KEY_NOT_UNICODE@),
                EnvScan::BadValue => r matches Err(e) && error_is(e, ErrorKind::Invalid, ENV_VALUE_NOT_UNICODE@),
                EnvScan::Pairs(ps) => r matches Ok(m) && m@ == env_map(self.prefix_spec(), ps),
            },
    {
        let mut texts: Vec<(String, String)> = Vec::new();
        let mut i: usize = 0;
        assert(vars@.take(0).len() == 0);
        assert(texts@.map_values(|p: (String, String)| entry_view(p)) =~= Seq::<crate::map::Entry>::empty());
        while i < vars.len()
            invariant
                i <= vars@.len(),
                scan_env(vars@.take(i as int)) == EnvScan::Pairs(
                    texts@.map_values(|p: (String, String)| entry_view(p)),
                ),
            decreases vars@.len() - i,
        {
            assert(vars@.take(i + 1).drop_last() == vars@.take(i as int));
            let ghost before = texts@;
            match &vars[i] {
                (EnvText::NotUnicode, _) => {
                    proof {
                        lemma_env_fault_persists(vars@.take(i + 1), vars@.skip(i + 1));
                        assert(vars@ == vars@.take(i + 1) + vars@.skip(i + 1));
                    }
                    return Err(ConfigxError::invalid(ENV_KEY_NOT_UNICODE));
                },
                (EnvText::Unicode(_), EnvText::NotUnicode) => {
                    proof {
                        lemma_env_fault_persists(vars@.take(i + 1), vars@.skip(i + 1));
                        assert(vars@ == vars@.take(i + 1) + vars@.skip(i + 1));
                    }
                    return Err(ConfigxError::invalid(ENV_VALUE_NOT_UNICODE));
                },
                (EnvText::Unicode(k), EnvText::Unicode(v)) => {
                    texts.push((k.clone(), v.clone()));
                    assert(texts@.map_values(|p: (String, String)| entry_view(p)) =~= before.map_values(
                        |p: (String, String)| entry_view(p),
                    ).push((k@, v@)));
                },
            }
            i = i + 1;
        }
        assert(vars@.take(i as int) == vars@);
        let ghost ps = texts@.map_values(|p: (String, String)| entry_view(p));
        let mut out = ConfigMap::new();
        if self.prefix.as_str().is_empty() {
            return Ok(out);
        }
        let prefix = chars_of(self.prefix.as_str());
        let mut j: usize = 0;
        while j < texts.len()
            invariant
                ps == texts@.map_values(|p: (String, String)| entry_view(p)),
                prefix@ == self.prefix_spec(),
                j <= texts@.len(),
                out@ == env_fold(prefix@, ps.take(j as int)),
            decreases texts@.len() - j,
        {
            assert(ps[j as int] == entry_view(texts@[j as int]));
            env_insert(&mut out, &prefix, texts[j].0.as_str(), texts[j].1.as_str());
            assert(ps.take(j + 1).drop_last() == ps.take(j as int));
            j = j + 1;
        }
        assert(ps.take(j as int) == ps);
        Ok(out)
    }

    /// What loading gives for the process environment `vars`: nothing at all
    /// for an empty prefix, whose environment is not even looked at; otherwise
    /// what `load_from_os_iter` gives.
    pub fn load_environment(&self, vars: &[(EnvText, EnvText)]) -> (r: ConfigxResult<ConfigMap>)
        ensures
            self.prefix_spec().len() == 0 ==> (r matches Ok(m) && m@ == Map::<Seq<char>, Seq<char>>::empty()),
            self.prefix_spec().len() > 0 ==> match scan_env(vars@) {
                EnvScan::BadKey => r matches Err(e) && error_is(e, ErrorKind::Invalid, ENV_KEY_NOT_UNICODE@),
                EnvScan::BadValue => r matches Err(e) && error_is(e, ErrorKind::Invalid, ENV_VALUE_NOT_UNICODE@),
                EnvScan::Pairs(ps) => r matches Ok(m) && m@ == env_map(self.prefix_spec(), ps),
            },
    {
        if self.prefix.as_str().is_empty() {
            return Ok(ConfigMap::new());
        }
        self.load_from_os_iter(vars)
    }
}

/// Once a variable is faulty, later variables do not change the outcome.
proof fn lemma_env_fault_persists(vars: Seq<(EnvText, EnvText)>, more: Seq<(EnvText, EnvText)>)
    requires
        !(scan_env(vars) is Pairs),
    ensures
        scan_env(vars + more) == scan_env(vars),
    decreases more.len(),
{
    if more.len() == 0 {
        assert(vars + more == vars);
    } else {
        lemma_env_fault_persists(vars, more.drop_last());
        assert((vars + more).drop_last() == vars + more.drop_last());
    }
}

// ---------------------------------------------------------------------------
// Files
// ---------------------------------------------------------------------------

/// What reading a file gave.
#[derive(Debug)]
pub enum FileRead {
    /// The text of the file.
    Text(String),
    /// The file does not exist.
    NotFound(std::io::Error),
    /// Reading failed otherwise.
    Failed(std::io::Error),
}

/// The error of a failed read: it names the path and keeps the I/O error.
pub open spec fn read_failure(e: ConfigxError, context: Seq<char>, path: Seq<char>, source: std::io::Error) -> bool {
    &&& e matches ConfigxError::Io { source: kept, .. } && kept == source
    &&& e.message_spec() == context + path
    &&& e.kind_spec() == ErrorKind::Invalid
}

/// `r` is what `parse_key_value_file` gives for `text`.
pub open spec fn parsed_as(r: ConfigxResult<ConfigMap>, text: Seq<char>) -> bool {
    match parse_kv_spec(text) {
        KvParse::Entries(m) => r matches Ok(map) && map@ == m,
        KvParse::MissingSeparator(n) => r matches Err(e) && error_is(
            e,
            ErrorKind::Invalid,
            missing_separator_message(n),
        ),
        KvParse::EmptyKey(n) => r matches Err(e) && error_is(e, ErrorKind::Invalid, empty_key_message(n)),
    }
}

/// A source that reads a `KEY=VALUE` file (see `parse_key_value_file`).
///
/// Reading the file blocks; the reading itself is done by the caller, who hands
/// what it read to `load_text`.
#[derive(Debug, Clone)]
pub struct FileSource {
    path: String,
}

impl FileSource {
    /// The path of the file.
    pub closed spec fn path_spec(&self) -> Seq<char> {
        self.path@
    }

    /// A source for the file at `path`.
    pub fn new(path: &str) -> (r: Self)
        ensures
            r.path_spec() == path@,
    {
        FileSource { path: path.to_owned() }
    }

    /// The path of the file.
    pub fn path(&self) -> (r: &str)
        ensures
            r@ == self.path_spec(),
    {
        self.path.as_str()
    }

    /// The entries that the file gives, from what reading it gave: a failed read
    /// (a missing file too) is an I/O error that names the path; otherwise the
    /// text is parsed.
    pub fn load_text(&self, read: FileRead) -> (r: ConfigxResult<ConfigMap>)
        ensures
            match read {
                FileRead::Text(t) => parsed_as(r, t@),
                FileRead::NotFound(io) => r matches Err(e) && read_failure(e, "读取配置文件失败：路径="@, self.path_spec(), io),
                FileRead::Failed(io) => r matches Err(e) && read_failure(e, "读取配置文件失败：路径="@, self.path_spec(), io),
            },
    {
        match read {
            FileRead::Text(text) => parse_key_value_file(text.as_str()),
            FileRead::NotFound(error) | FileRead::Failed(error) => {
                let mut message = "读取配置文件失败：路径=".to_owned();
                push_str(&mut message, self.path.as_str());
                Err(ConfigxError::io(message.as_str(), error))
            },
        }
    }
}

/// Message when the global file holds a secret key.
pub const GLOBAL_SECRET_REFUSED: &'static str = "全局配置文件不得包含 secret: 前缀键";

/// An optional global `KEY=VALUE` file: a missing file counts as empty, and a
/// file that holds a `secret:` key is refused. The file is never created,
/// changed or watched.
#[derive(Debug, Clone)]
pub struct GlobalFileSource {
    path: String,
}

impl GlobalFileSource {
    /// The path of the file.
    pub closed spec fn path_spec(&self) -> Seq<char> {
        self.path@
    }

    /// A source for the global file at `path`, already resolved.
    pub fn new(path: &str) -> (r: Self)
        ensures
            r.path_spec() == path@,
    {
        GlobalFileSource { path: path.to_owned() }
    }

    /// The path of the file.
    pub fn path(&self) -> (r: &str)
        ensures
            r@ == self.path_spec(),
    {
        self.path.as_str()
    }

    /// The entries that the global file gives, from what reading it gave: no
    /// entry for a missing file; an I/O error that names the path for another
    /// failed read; otherwise the parsed text, unless it holds a secret key.
    pub fn load_text(&self, read: FileRead) -> (r: ConfigxResult<ConfigMap>)
        ensures
            match read {
                FileRead::NotFound(_) => r matches Ok(m) && m@ == Map::<Seq<char>, Seq<char>>::empty(),
                FileRead::Failed(io) => r matches Err(e) && read_failure(e, "读取全局配置文件失败：路径="@, self.path_spec(), io),
                FileRead::Text(t) => match parse_kv_spec(t@) {
                    KvParse::Entries(m) => if exists|k: Seq<char>| #[trigger] m.contains_key(k) && is_secret(k) {
                        r matches Err(e) && error_is(e, ErrorKind::Invalid, GLOBAL_SECRET_REFUSED@)
                    } else {
                        r matches Ok(map) && map@ == m
                    },
                    _ => parsed_as(r, t@),
                },
            },
    {
        match read {
            FileRead::NotFound(_) => Ok(ConfigMap::new()),
            FileRead::Failed(error) => {
                let mut message = "读取全局配置文件失败：路径=".to_owned();
                push_str(&mut message, self.path.as_str());
                Err(ConfigxError::io(message.as_str(), error))
            },
            FileRead::Text(text) => {
                let loaded = match parse_key_value_file(text.as_str()) {
                    Ok(m) => m,
                    Err(e) => {
                        return Err(e);
                    },
                };
                if has_secret_key(&loaded) {
                    return Err(ConfigxError::invalid(GLOBAL_SECRET_REFUSED));
                }
                Ok(loaded)
            },
        }
    }
}

/// Whether some key of `m` is secret.
fn has_secret_key(m: &ConfigMap) -> (r: bool)
    ensures
        r == exists|k: Seq<char>| #[trigger] m@.contains_key(k) && is_secret(k),
{
    m.lemma_sorted();
    let es = m.entries();
    let ghost ps = m.pairs();
    let mut i: usize = 0;
    while i < es.len()
        invariant
            es@.map_values(|p: (String, String)| entry_view(p)) == ps,
            ps == m.pairs(),
            i <= es@.len(),
            forall|j: int| 0 <= j < ps.len() ==> #[trigger] m@.contains_key(ps[j].0),
            forall|k: Seq<char>| #[trigger] m@.contains_key(k) ==> exists|j: int| 0 <= j < ps.len() && ps[j].0 == k,
            forall|j: int| 0 <= j < i ==> !is_secret(#[trigger] ps[j].0),
        decreases es@.len() - i,
    {
        assert(ps[i as int] == entry_view(es@[i as int]));
        if is_secret_key(es[i].0.as_str()) {
            assert(m@.contains_key(ps[i as int].0));
            return true;
        }
        i = i + 1;
    }
    assert forall|k: Seq<char>| #[trigger] m@.contains_key(k) implies !is_secret(k) by {
        let j = choose|j: int| 0 <= j < ps.len() && ps[j].0 == k;
        assert(!is_secret(ps[j].0));
    }
    false
}

} // verus!
