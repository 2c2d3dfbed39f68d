//! Masking of secret values: pure functions that stay away from the reading path.
//!
//! Masking applies to logs and debugging output only. Reading a value from the
//! store always gives the value itself, whatever the masking setting.

use vstd::prelude::*;

use crate::map::{entry_view, lemma_map_from_sorted_entries, map_from_entries, ConfigMap, Entry};
use crate::text::{chars_of, push_str};

verus! {

/// Prefix that marks a key as secret.
pub const SECRET_KEY_PREFIX: &'static str = "secret:";

/// Text shown in place of a secret value.
pub const REDACTED_VALUE: &'static str = "***";

/// The characters of `SECRET_KEY_PREFIX`.
pub open spec fn secret_prefix() -> Seq<char> {
    seq!['s', 'e', 'c', 'r', 'e', 't', ':']
}

/// The characters of `REDACTED_VALUE`.
pub open spec fn redacted_text() -> Seq<char> {
    seq!['*', '*', '*']
}

/// A key is secret when it starts with `secret:`, case-sensitively.
pub open spec fn is_secret(k: Seq<char>) -> bool {
    secret_prefix().is_prefix_of(k)
}

/// What is shown for the value `v` of key `k`.
pub open spec fn shown_value(k: Seq<char>, v: Seq<char>) -> Seq<char> {
    if is_secret(k) {
        redacted_text()
    } else {
        v
    }
}

/// The map with every secret value masked.
pub open spec fn redacted_view(m: Map<Seq<char>, Seq<char>>) -> Map<Seq<char>, Seq<char>> {
    Map::new(|k: Seq<char>| m.contains_key(k), |k: Seq<char>| shown_value(k, m[k]))
}

/// Whether `key` is marked as secret, that is starts with `secret:`; the
/// decision rests on the prefix alone and is case-sensitive.
pub fn is_secret_key(key: &str) -> (r: bool)
    ensures
        r == is_secret(key@),
{
    let k = chars_of(key);
    proof {
        reveal_strlit("secret:");
    }
    let p = chars_of(SECRET_KEY_PREFIX);
    assert(p@ == secret_prefix());
    if k.len() < p.len() {
        return false;
    }
    let mut i: usize = 0;
    while i < p.len()
        invariant
            p@ == secret_prefix(),
            k@ == key@,
            p@.len() <= k@.len(),
            i <= p@.len(),
            forall|j: int| 0 <= j < i ==> k@[j] == p@[j],
        decreases p@.len() - i,
    {
        if k[i] != p[i] {
            return false;
        }
        i = i + 1;
    }
    true
}

/// The value to show for `value` under `key`: `***` for a secret key, the value
/// itself otherwise. Nothing is allocated.
pub fn redact_value<'a>(key: &str, value: &'a str) -> (r: &'a str)
    ensures
        r@ == shown_value(key@, value@),
{
    if is_secret_key(key) {
        proof {
            reveal_strlit("***");
        }
        REDACTED_VALUE
    } else {
        value
    }
}

/// A copy of `entries` with every secret value replaced by `***`; the keys stay
/// the same and `entries` is left untouched.
pub fn redact_map(entries: &ConfigMap) -> (r: ConfigMap)
    ensures
        r@ == redacted_view(entries@),
{
    entries.lemma_sorted();
    let es = entries.entries();
    let ghost ps = entries.pairs();
    let mut out = ConfigMap::new();
    let mut i: usize = 0;
    while i < es.len()
        invariant
            es@.map_values(|p: (String, String)| entry_view(p)) == ps,
            ps == entries.pairs(),
            crate::map::sorted_keys(crate::map::keys_of(ps)),
            i <= es@.len(),
            out@ == redacted_view(map_from_entries(ps.take(i as int))),
        decreases es@.len() - i,
    {
        let k = &es[i].0;
        let v = &es[i].1;
        assert(ps[i as int] == entry_view(es@[i as int]));
        let shown = redact_value(k.as_str(), v.as_str());
        out.insert(k.clone(), shown.to_owned());
        assert(ps.take(i + 1).drop_last() == ps.take(i as int));
        assert(out@ =~= redacted_view(map_from_entries(ps.take(i + 1))));
        i = i + 1;
    }
    assert(ps.take(i as int) == ps);
    proof {
        lemma_map_from_sorted_entries(ps);
    }
    out
}

/// Masking twice shows the same as masking once: the mask of a secret value is
/// again a secret value, and other values are left as they are.
pub proof fn lemma_redaction_is_idempotent(m: Map<Seq<char>, Seq<char>>)
    ensures
        redacted_view(redacted_view(m)) == redacted_view(m),
{
    assert(redacted_view(redacted_view(m)) =~= redacted_view(m));
}

/// Masking keeps every key and every value whose key is not secret.
pub proof fn lemma_redaction_keeps_plain_values(m: Map<Seq<char>, Seq<char>>, k: Seq<char>)
    requires
        m.contains_key(k),
    ensures
        redacted_view(m).contains_key(k),
        !is_secret(k) ==> redacted_view(m)[k] == m[k],
        is_secret(k) ==> redacted_view(m)[k] == redacted_text(),
{
}

/// What `{:?}` writes for a string: the text in double quotes, with quotes,
/// backslashes and characters that are not printable escaped.
pub uninterp spec fn debug_quoted(s: Seq<char>) -> Seq<char>;

/// `s` written as `{:?}` writes a string (std's `Debug` for `str`).
#[verifier::external_body]
fn quote_debug(s: &str) -> (r: String)
    ensures
        r@ == debug_quoted(s@),
{
    format!("{:?}", s)
}

/// One entry as a map description shows it, its value masked when `redact`
/// holds and its key is secret.
pub open spec fn entry_text(e: Entry, redact: bool) -> Seq<char> {
    debug_quoted(e.0) + ": "@ + debug_quoted(
        if redact {
            shown_value(e.0, e.1)
        } else {
            e.1
        },
    )
}

/// Entries one after another, separated by `, `.
pub open spec fn entries_text(ps: Seq<Entry>, redact: bool) -> Seq<char>
    decreases ps.len(),
{
    if ps.len() == 0 {
        Seq::empty()
    } else if ps.len() == 1 {
        entry_text(ps[0], redact)
    } else {
        entries_text(ps.drop_last(), redact) + ", "@ + entry_text(ps.last(), redact)
    }
}

/// A map described as `{:?}` describes an ordered map: its entries in key
/// order between braces.
pub open spec fn map_text(ps: Seq<Entry>, redact: bool) -> Seq<char> {
    "{"@ + entries_text(ps, redact) + "}"@
}

/// Appends the description of `entries` to `out`: entries in key order, each
/// value masked when `redact` holds and its key is secret.
pub fn push_entries_text(out: &mut String, entries: &ConfigMap, redact: bool)
    ensures
        final(out)@ == old(out)@ + map_text(entries.pairs(), redact),
{
    let es = entries.entries();
    let ghost ps = entries.pairs();
    let ghost start = out@;
    push_str(out, "{");
    let mut i: usize = 0;
    while i < es.len()
        invariant
            es@.map_values(|p: (String, String)| entry_view(p)) == ps,
            i <= es@.len(),
            out@ == start + "{"@ + entries_text(ps.take(i as int), redact),
        decreases es@.len() - i,
    {
        assert(ps[i as int] == entry_view(es@[i as int]));
        let ghost before = out@;
        if i > 0 {
            push_str(out, ", ");
        }
        let key = quote_debug(es[i].0.as_str());
        push_str(out, key.as_str());
        push_str(out, ": ");
        let shown = if redact {
            redact_value(es[i].0.as_str(), es[i].1.as_str())
        } else {
            es[i].1.as_str()
        };
        let value = quote_debug(shown);
        push_str(out, value.as_str());
        proof {
            let t = ps.take(i + 1);
            assert(t.drop_last() == ps.take(i as int));
            assert(t.last() == ps[i as int]);
            if i == 0 {
                assert(t.len() == 1);
                assert(t[0] == ps[0]);
                assert(entries_text(ps.take(0), redact) == Seq::<char>::empty());
                assert(out@ =~= start + "{"@ + entries_text(t, redact));
            } else {
                assert(out@ =~= start + "{"@ + entries_text(t, redact));
            }
        }
        i = i + 1;
    }
    assert(ps.take(i as int) == ps);
    push_str(out, "}");
    assert(out@ =~= start + map_text(ps, redact));
}

} // verus!
