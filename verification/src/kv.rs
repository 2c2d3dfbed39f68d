//! The `KEY=VALUE` text format of configuration files.

use vstd::prelude::*;

use crate::error::{error_is, ConfigxError, ConfigxResult, ErrorKind};
use crate::map::ConfigMap;
use crate::text::{
    chars_of, decimal, lemma_trim_idempotent, push_decimal, push_str, string_of, trim, trim_bounds,
};

verus! {

/// The lines of a text, split at `'\n'`. A text that ends with `'\n'` has an
/// empty last line; a `'\r'` before the `'\n'` stays in the line, where
/// trimming removes it.
pub open spec fn lines_of(t: Seq<char>) -> Seq<Seq<char>>
    decreases t.len(),
{
    if t.len() == 0 {
        seq![Seq::<char>::empty()]
    } else if t.last() == '\n' {
        lines_of(t.drop_last()).push(Seq::<char>::empty())
    } else {
        let ls = lines_of(t.drop_last());
        ls.update(ls.len() - 1, ls.last().push(t.last()))
    }
}

/// Position of the first `c` in `s`, or `s.len()` when there is none.
pub open spec fn find_char(s: Seq<char>, c: char) -> nat
    decreases s.len(),
{
    if s.len() == 0 {
        0
    } else if s[0] == c {
        0
    } else {
        1 + find_char(s.drop_first(), c)
    }
}

/// `v` without one pair of matching double or single quotes around it.
pub open spec fn unquote(v: Seq<char>) -> Seq<char> {
    if v.len() >= 2 && ((v[0] == '"' && v.last() == '"') || (v[0] == '\'' && v.last() == '\'')) {
        v.subrange(1, v.len() - 1)
    } else {
        v
    }
}

/// What one line of a `KEY=VALUE` text holds.
pub enum LineParse {
    /// A blank line or a comment.
    Skip,
    /// A key and its value.
    Entry(Seq<char>, Seq<char>),
    /// A line with no `=`.
    NoSeparator,
    /// A line whose key is empty.
    NoKey,
}

/// Reading of one line: surrounding whitespace is ignored; blank lines and
/// lines starting with `#` are skipped; otherwise the line is split at its first
/// `=`, the key is trimmed, and the value is trimmed and loses one pair of
/// matching quotes.
pub open spec fn parse_line(line: Seq<char>) -> LineParse {
    let l = trim(line);
    if l.len() == 0 || l[0] == '#' {
        LineParse::Skip
    } else if find_char(l, '=') == l.len() {
        LineParse::NoSeparator
    } else {
        let p = find_char(l, '=') as int;
        let key = trim(l.take(p));
        if key.len() == 0 {
            LineParse::NoKey
        } else {
            LineParse::Entry(key, unquote(trim(l.skip(p + 1))))
        }
    }
}

/// Surrounding whitespace does not change what a line holds: a line reads
/// as its trimmed text does.
pub proof fn lemma_line_reads_as_trimmed(line: Seq<char>)
    ensures
        parse_line(line) == parse_line(trim(line)),
{
    lemma_trim_idempotent(line);
}

/// A line whose text, once trimmed, is empty or starts with `#` is skipped: it
/// adds no entry and is never an error, however it is indented.
pub proof fn lemma_comment_and_blank_lines_are_skipped(line: Seq<char>)
    requires
        trim(line).len() == 0 || trim(line)[0] == '#',
    ensures
        parse_line(line) is Skip,
{
}

/// Blank and comment lines change nothing in a text: reading the lines with
/// such a line appended gives what the lines gave without it.
pub proof fn lemma_skipped_line_changes_nothing(ls: Seq<Seq<char>>, line: Seq<char>)
    requires
        trim(line).len() == 0 || trim(line)[0] == '#',
    ensures
        parse_lines(ls.push(line)) == parse_lines(ls),
{
    assert(ls.push(line).drop_last() == ls);
}

/// Outcome of reading a `KEY=VALUE` text.
pub enum KvParse {
    /// The entries read; a later line replaces an earlier one with the same key.
    Entries(Map<Seq<char>, Seq<char>>),
    /// The line with this 1-based number has no `=`.
    MissingSeparator(nat),
    /// The line with this 1-based number has an empty key.
    EmptyKey(nat),
}

/// Reads lines in order; the first faulty line decides the outcome.
pub open spec fn parse_lines(ls: Seq<Seq<char>>) -> KvParse
    decreases ls.len(),
{
    if ls.len() == 0 {
        KvParse::Entries(Map::empty())
    } else {
        match parse_lines(ls.drop_last()) {
            KvParse::Entries(m) => match parse_line(ls.last()) {
                LineParse::Skip => KvParse::Entries(m),
                LineParse::Entry(k, v) => KvParse::Entries(m.insert(k, v)),
                LineParse::NoSeparator => KvParse::MissingSeparator(ls.len()),
                LineParse::NoKey => KvParse::EmptyKey(ls.len()),
            },
            fault => fault,
        }
    }
}

/// What `parse_key_value_file` makes of a text.
pub open spec fn parse_kv_spec(t: Seq<char>) -> KvParse {
    parse_lines(lines_of(t))
}

/// The message for a line without `=`: it names the line, not its content.
pub open spec fn missing_separator_message(line: nat) -> Seq<char> {
    "配置文件第 "@ + decimal(line) + " 行：应为 KEY=VALUE"@
}

/// The message for a line with an empty key: it names the line, not its content.
pub open spec fn empty_key_message(line: nat) -> Seq<char> {
    "配置文件第 "@ + decimal(line) + " 行：键为空"@
}

/// Lines already complete in a prefix of a text stay as they are when the text grows.
proof fn lemma_lines_stable(t: Seq<char>, i: int, j: int)
    requires
        0 <= i <= j <= t.len(),
    ensures
        lines_of(t.take(j)).len() >= lines_of(t.take(i)).len() >= 1,
        forall|k: int|
            0 <= k < lines_of(t.take(i)).len() - 1 ==> #[trigger] lines_of(t.take(j))[k] == lines_of(
                t.take(i),
            )[k],
    decreases j - i,
{
    if j == i {
        lemma_lines_nonempty(t.take(i));
    } else {
        lemma_lines_stable(t, i, j - 1);
        assert(t.take(j).drop_last() == t.take(j - 1));
        lemma_lines_nonempty(t.take(j - 1));
    }
}

/// A text has at least one line.
proof fn lemma_lines_nonempty(t: Seq<char>)
    ensures
        lines_of(t).len() >= 1,
    decreases t.len(),
{
    if t.len() > 0 {
        lemma_lines_nonempty(t.drop_last());
    }
}

/// Once a line is faulty, later lines do not change the outcome.
proof fn lemma_fault_persists(ls: Seq<Seq<char>>, extra: Seq<Seq<char>>)
    requires
        !(parse_lines(ls) is Entries),
    ensures
        parse_lines(ls + extra) == parse_lines(ls),
    decreases extra.len(),
{
    if extra.len() == 0 {
        assert(ls + extra == ls);
    } else {
        lemma_fault_persists(ls, extra.drop_last());
        assert((ls + extra).drop_last() == ls + extra.drop_last());
    }
}

/// Position of the first `c` in `v[from..to]`, or `to`.
fn find_char_in(v: &Vec<char>, from: usize, to: usize, c: char) -> (p: usize)
    requires
        from <= to <= v@.len(),
    ensures
        from <= p <= to,
        p - from == find_char(v@.subrange(from as int, to as int), c),
{
    let mut p = from;
    while p < to && v[p] != c
        invariant
            from <= p <= to <= v@.len(),
            find_char(v@.subrange(from as int, to as int), c) == (p - from) + find_char(
                v@.subrange(p as int, to as int),
                c,
            ),
        decreases to - p,
    {
        assert(v@.subrange(p as int, to as int).drop_first() == v@.subrange(p + 1, to as int));
        p = p + 1;
    }
    p
}

/// What one line holds, with its key and value as strings.
enum LineExec {
    Skip,
    Entry(String, String),
    NoSeparator,
    NoKey,
}

/// Reads the line `v[start..end]`.
fn parse_line_at(v: &Vec<char>, start: usize, end: usize) -> (r: LineExec)
    requires
        start <= end <= v@.len(),
    ensures
        match parse_line(v@.subrange(start as int, end as int)) {
            LineParse::Skip => r is Skip,
            LineParse::NoSeparator => r is NoSeparator,
            LineParse::NoKey => r is NoKey,
            LineParse::Entry(k, val) => r matches LineExec::Entry(rk, rv) && rk@ == k && rv@ == val,
        },
{
    let ghost line = v@.subrange(start as int, end as int);
    let (a, b) = trim_bounds(v, start, end);
    let ghost l = v@.subrange(a as int, b as int);
    assert(l == trim(line));
    if a == b || v[a] == '#' {
        return LineExec::Skip;
    }
    let p = find_char_in(v, a, b, '=');
    if p == b {
        return LineExec::NoSeparator;
    }
    assert(l.take(p - a) == v@.subrange(a as int, p as int));
    assert(l.skip(p - a + 1) == v@.subrange(p + 1, b as int));
    let (ka, kb) = trim_bounds(v, a, p);
    if ka == kb {
        return LineExec::NoKey;
    }
    let (va, vb) = trim_bounds(v, p + 1, b);
    let ghost value = v@.subrange(va as int, vb as int);
    let quoted = vb - va >= 2 && ((v[va] == '"' && v[vb - 1] == '"') || (v[va] == '\'' && v[vb
        - 1] == '\''));
    let key = string_of(v, ka, kb);
    if quoted {
        assert(value.subrange(1, value.len() - 1) == v@.subrange(va + 1, vb - 1));
        LineExec::Entry(key, string_of(v, va + 1, vb - 1))
    } else {
        LineExec::Entry(key, string_of(v, va, vb))
    }
}

/// The error for a faulty line, which names the line by its 1-based number only.
fn line_error(line: u128, missing_separator: bool) -> (e: ConfigxError)
    ensures
        missing_separator ==> error_is(e, ErrorKind::Invalid, missing_separator_message(line as nat)),
        !missing_separator ==> error_is(e, ErrorKind::Invalid, empty_key_message(line as nat)),
{
    let mut message = "配置文件第 ".to_owned();
    push_decimal(&mut message, line);
    if missing_separator {
        push_str(&mut message, " 行：应为 KEY=VALUE");
    } else {
        push_str(&mut message, " 行：键为空");
    }
    ConfigxError::invalid(message.as_str())
}

/// Parses `KEY=VALUE` text.
///
/// Lines are read one at a time with surrounding whitespace ignored; blank lines
/// and lines starting with `#` are skipped; every other line must hold `=`; the
/// key (before the first `=`) is trimmed and must not be empty; the value is
/// trimmed and loses one pair of matching single or double quotes. A later line
/// replaces an earlier one with the same key. Errors name the line number only,
/// never the content of the line.
pub fn parse_key_value_file(text: &str) -> (r: ConfigxResult<ConfigMap>)
    ensures
        match parse_kv_spec(text@) {
            KvParse::Entries(m) => r matches Ok(map) && map@ == m,
            KvParse::MissingSeparator(n) => r matches Err(e) && error_is(
                e,
                ErrorKind::Invalid,
                missing_separator_message(n),
            ),
            KvParse::EmptyKey(n) => r matches Err(e) && error_is(e, ErrorKind::Invalid, empty_key_message(n)),
        },
{
    let v = chars_of(text);
    let ghost t = v@;
    let mut out = ConfigMap::new();
    let mut start: usize = 0;
    let mut line_no: u128 = 0;
    let mut i: usize = 0;
    let ghost mut done: Seq<Seq<char>> = Seq::empty();
    assert(t.take(0) == Seq::<char>::empty());
    assert(t.subrange(0, 0) == Seq::<char>::empty());
    while i < v.len()
        invariant
            t == v@,
            t == text@,
            start <= i <= v@.len(),
            line_no == done.len(),
            line_no <= i,
            lines_of(t.take(i as int)) == done.push(t.subrange(start as int, i as int)),
            parse_lines(done) == KvParse::Entries(out@),
        decreases v@.len() - i,
    {
        assert(t.take(i + 1).drop_last() == t.take(i as int));
        if v[i] == '\n' {
            let ghost line = t.subrange(start as int, i as int);
            proof {
                assert(lines_of(t.take(i + 1)) == done.push(line).push(Seq::<char>::empty()));
                assert(done.push(line).drop_last() == done);
            }
            match parse_line_at(&v, start, i) {
                LineExec::Skip => {},
                LineExec::Entry(k, val) => {
                    out.insert(k, val);
                },
                LineExec::NoSeparator => {
                    proof {
                        lemma_prefix_outcome(t, i as int, done.push(line));
                    }
                    return Err(line_error(line_no + 1, true));
                },
                LineExec::NoKey => {
                    proof {
                        lemma_prefix_outcome(t, i as int, done.push(line));
                    }
                    return Err(line_error(line_no + 1, false));
                },
            }
            proof {
                done = done.push(line);
            }
            line_no = line_no + 1;
            start = i + 1;
            assert(t.subrange(start as int, i + 1) == Seq::<char>::empty());
        } else {
            assert(t.subrange(start as int, i + 1) == t.subrange(start as int, i as int).push(t[i as int]));
        }
        i = i + 1;
    }
    assert(t.take(i as int) == t);
    let ghost last = t.subrange(start as int, i as int);
    assert(done.push(last).drop_last() == done);
    match parse_line_at(&v, start, i) {
        LineExec::Skip => Ok(out),
        LineExec::Entry(k, val) => {
            out.insert(k, val);
            Ok(out)
        },
        LineExec::NoSeparator => Err(line_error(line_no + 1, true)),
        LineExec::NoKey => Err(line_error(line_no + 1, false)),
    }
}

/// When the lines up to a newline at `i` already hold a faulty line, the whole
/// text has the same outcome.
proof fn lemma_prefix_outcome(t: Seq<char>, i: int, prefix: Seq<Seq<char>>)
    requires
        0 <= i < t.len(),
        t[i] == '\n',
        lines_of(t.take(i + 1)) == prefix.push(Seq::<char>::empty()),
        !(parse_lines(prefix) is Entries),
    ensures
        parse_lines(lines_of(t)) == parse_lines(prefix),
{
    lemma_lines_stable(t, i + 1, t.len() as int);
    assert(t.take(t.len() as int) == t);
    let all = lines_of(t);
    assert(all.take(prefix.len() as int) == prefix);
    assert(all == prefix + all.skip(prefix.len() as int));
    lemma_fault_persists(prefix, all.skip(prefix.len() as int));
}

} // verus!
