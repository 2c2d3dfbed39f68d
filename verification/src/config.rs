//! Settings of the store, their builder, and the reading of settings from
//! environment variables and of positions in TOML text.

use vstd::prelude::*;
use vstd::utf8::{encode_utf8, is_char_boundary, is_continuation_byte};

use crate::error::{error_is, ConfigxError, ConfigxResult, ErrorKind};
use crate::text::{chars_of, decimal, push_decimal, push_str, same_chars, trim, trimmed};

verus! {

/// Name of the variable that switches the masking of secrets (a boolean).
pub const ENV_REDACT_SECRETS: &'static str = "FOUNDATIONX_CONFIGX_REDACT_SECRETS";

/// Name of the variable that allows an empty snapshot (a boolean).
pub const ENV_ALLOW_EMPTY_SNAPSHOT: &'static str = "FOUNDATIONX_CONFIGX_ALLOW_EMPTY_SNAPSHOT";

/// Name of the variable that gives the path of the global configuration file;
/// when it is set and not blank, neither `XDG_CONFIG_HOME` nor `HOME` is used.
pub const ENV_GLOBAL_FILE: &'static str = "FOUNDATIONX_CONFIGX_GLOBAL_FILE";

/// The default settings: masking on, empty snapshots allowed.
pub open spec fn default_settings() -> ConfigxConfig {
    ConfigxConfig { redact_secrets: true, allow_empty_snapshot: true }
}

/// Default of `redact_secrets`.
fn default_redact_secrets() -> (r: bool)
    ensures
        r,
{
    true
}

/// Default of `allow_empty_snapshot`.
fn default_allow_empty_snapshot() -> (r: bool)
    ensures
        r,
{
    true
}

/// Settings of a store.
///
/// Both fields have defaults, so TOML text and environment variables may set
/// only some of them. All constraints are checked in `validate`.
#[derive(Debug, Clone, Copy, PartialEq, Eq, Structural)]
pub struct ConfigxConfig {
    /// Whether secret values are masked in descriptions and logs. Default `true`.
    ///
    /// When off, descriptions show values as they are; meant for local
    /// debugging only. Reading is not affected.
    pub redact_secrets: bool,
    /// Whether `reload` may replace the entries with an empty snapshot. Default `true`.
    ///
    /// When `false`, a `reload` whose merge is empty fails with a conflict and the
    /// previous entries stay, so that a source that briefly returns nothing
    /// cannot wipe the configuration.
    pub allow_empty_snapshot: bool,
}

impl Default for ConfigxConfig {
    /// Masking on, empty snapshots allowed.
    fn default() -> (r: Self)
        ensures
            r.redact_secrets,
            r.allow_empty_snapshot,
    {
        ConfigxConfig {
            redact_secrets: default_redact_secrets(),
            allow_empty_snapshot: default_allow_empty_snapshot(),
        }
    }
}

/// What the process environment holds for one variable.
#[derive(Debug, Clone, PartialEq, Eq)]
pub enum EnvValue {
    /// The variable is not set.
    NotPresent,
    /// The variable is set but its value is not valid Unicode.
    NotUnicode,
    /// The variable holds this value.
    Present(String),
}

/// Outcome of reading one setting.
pub enum Setting {
    /// The setting, or its default.
    Value(bool),
    /// The message of the error that refuses it.
    Refused(Seq<char>),
}

/// `c` in lower case when it is an ASCII capital letter, `c` otherwise.
pub open spec fn ascii_lower(c: char) -> char {
    if 65 <= (c as u32) && (c as u32) <= 90 {
        (((c as u32) + 32) as u8) as char
    } else {
        c
    }
}

/// `s` with its ASCII capital letters in lower case.
pub open spec fn ascii_lower_text(s: Seq<char>) -> Seq<char> {
    s.map_values(|c: char| ascii_lower(c))
}

/// The boolean that a word stands for: `1`, `true`, `yes`, `on` and `0`,
/// `false`, `no`, `off`, in ASCII lower case.
pub open spec fn bool_word(w: Seq<char>) -> Option<bool> {
    if w == "1"@ || w == "true"@ || w == "yes"@ || w == "on"@ {
        Some(true)
    } else if w == "0"@ || w == "false"@ || w == "no"@ || w == "off"@ {
        Some(false)
    } else {
        None
    }
}

/// The message that refuses the value of variable `name` as a boolean; it names
/// the variable and never the value.
pub open spec fn bad_bool_message(name: Seq<char>) -> Seq<char> {
    "环境变量 "@ + name + " 不是合法布尔值：期望 true/false、yes/no、on/off 或 1/0"@
}

/// The message for a variable whose value is not valid Unicode.
pub open spec fn not_unicode_message(name: Seq<char>) -> Seq<char> {
    "环境变量不是有效 Unicode："@ + name
}

/// What reading variable `name` gives: nothing when it is unset or blank, its
/// trimmed value otherwise, and an error when it is not valid Unicode.
pub open spec fn read_env_spec(name: Seq<char>, value: EnvValue) -> Result<Option<Seq<char>>, Seq<char>> {
    match value {
        EnvValue::NotPresent => Ok(None),
        EnvValue::NotUnicode => Err(not_unicode_message(name)),
        EnvValue::Present(v) => if trim(v@).len() == 0 {
            Ok(None)
        } else {
            Ok(Some(trim(v@)))
        },
    }
}

/// What the variable `name` sets a boolean setting with default `default` to.
pub open spec fn setting_spec(name: Seq<char>, value: EnvValue, default: bool) -> Setting {
    match read_env_spec(name, value) {
        Err(m) => Setting::Refused(m),
        Ok(None) => Setting::Value(default),
        Ok(Some(t)) => match bool_word(ascii_lower_text(t)) {
            Some(b) => Setting::Value(b),
            None => Setting::Refused(bad_bool_message(name)),
        },
    }
}

/// The position `byte_offset` moved back to the nearest character boundary.
pub open spec fn char_floor(bs: Seq<u8>, i: int) -> int
    decreases i,
{
    if i <= 0 {
        0
    } else if is_char_boundary(bs, i) {
        i
    } else {
        char_floor(bs, i - 1)
    }
}

/// Number of `'\n'` bytes.
pub open spec fn newline_count(bs: Seq<u8>) -> nat
    decreases bs.len(),
{
    if bs.len() == 0 {
        0
    } else {
        newline_count(bs.drop_last()) + if bs.last() == 10 {
            1nat
        } else {
            0nat
        }
    }
}

/// Where the last line starts: just after the last `'\n'`, or at 0.
pub open spec fn line_start(bs: Seq<u8>) -> int
    decreases bs.len(),
{
    if bs.len() == 0 {
        0
    } else if bs.last() == 10 {
        bs.len() as int
    } else {
        line_start(bs.drop_last())
    }
}

/// Number of characters in UTF-8 bytes: the bytes that start a character.
pub open spec fn char_count(bs: Seq<u8>) -> nat
    decreases bs.len(),
{
    if bs.len() == 0 {
        0
    } else {
        char_count(bs.drop_last()) + if is_continuation_byte(bs.last()) {
            0nat
        } else {
            1nat
        }
    }
}

/// The 1-based line and column (in characters) of the byte offset `off` in
/// `bs`; an offset past the end counts as the end, and one inside a character
/// as the start of that character.
pub open spec fn position_spec(bs: Seq<u8>, off: int) -> (nat, nat) {
    let o = char_floor(bs, if off < bs.len() { off } else { bs.len() as int });
    let before = bs.take(o);
    (1 + newline_count(before), 1 + char_count(bs.subrange(line_start(before), o)))
}

/// The message of a TOML failure at a known byte offset: a position, never text.
pub open spec fn toml_position_message(bs: Seq<u8>, off: int) -> Seq<char> {
    "TOML 解析失败：第 "@ + decimal(position_spec(bs, off).0) + " 行第 "@ + decimal(
        position_spec(bs, off).1,
    ) + " 列"@
}

/// The message of a TOML failure without a position.
pub open spec fn toml_malformed_message() -> Seq<char> {
    "TOML 解析失败：文档格式不合法"@
}

impl ConfigxConfig {
    /// The settings that the two environment variables give, in the order in
    /// which they are read: the first refused value decides the error.
    pub open spec fn from_env_spec(redact: EnvValue, allow: EnvValue) -> Result<ConfigxConfig, Seq<char>> {
        match setting_spec(ENV_REDACT_SECRETS@, redact, true) {
            Setting::Refused(m) => Err(m),
            Setting::Value(r) => match setting_spec(ENV_ALLOW_EMPTY_SNAPSHOT@, allow, true) {
                Setting::Refused(m) => Err(m),
                Setting::Value(a) => Ok(ConfigxConfig { redact_secrets: r, allow_empty_snapshot: a }),
            },
        }
    }

    /// Settings from the values of `FOUNDATIONX_CONFIGX_REDACT_SECRETS` and
    /// `FOUNDATIONX_CONFIGX_ALLOW_EMPTY_SNAPSHOT`, over the defaults.
    ///
    /// A variable that is unset or blank leaves its default; a boolean is one of
    /// `1/0`, `true/false`, `yes/no`, `on/off`, in any ASCII case. A value that
    /// is not a boolean or not valid Unicode is refused; the error names the
    /// variable and never the value.
    pub fn from_env(redact_secrets: EnvValue, allow_empty_snapshot: EnvValue) -> (r: ConfigxResult<Self>)
        ensures
            match Self::from_env_spec(redact_secrets, allow_empty_snapshot) {
                Ok(c) => r == Ok::<ConfigxConfig, ConfigxError>(c),
                Err(m) => r matches Err(e) && error_is(e, ErrorKind::Invalid, m),
            },
    {
        let mut config = Self::default();
        match read_env(ENV_REDACT_SECRETS, redact_secrets) {
            Err(e) => {
                return Err(e);
            },
            Ok(None) => {},
            Ok(Some(value)) => match parse_bool(ENV_REDACT_SECRETS, value.as_str()) {
                Err(e) => {
                    return Err(e);
                },
                Ok(b) => {
                    config.redact_secrets = b;
                },
            },
        }
        match read_env(ENV_ALLOW_EMPTY_SNAPSHOT, allow_empty_snapshot) {
            Err(e) => {
                return Err(e);
            },
            Ok(None) => {},
            Ok(Some(value)) => match parse_bool(ENV_ALLOW_EMPTY_SNAPSHOT, value.as_str()) {
                Err(e) => {
                    return Err(e);
                },
                Ok(b) => {
                    config.allow_empty_snapshot = b;
                },
            },
        }
        match config.validate() {
            Err(e) => Err(e),
            Ok(()) => Ok(config),
        }
    }

    /// Checks the settings. Both fields are booleans with no constraint between
    /// them, so every value passes; new fields with constraints are checked here.
    pub fn validate(&self) -> (r: ConfigxResult<()>)
        ensures
            r is Ok,
    {
        Ok(())
    }

    /// A builder that starts from the defaults.
    pub fn builder() -> (r: ConfigxConfigBuilder)
        ensures
            r.settings() == default_settings(),
    {
        ConfigxConfigBuilder::new()
    }
}

/// Builder of `ConfigxConfig`; each setter takes and returns the builder, and
/// `build` checks the result.
#[derive(Debug, Clone, Copy)]
pub struct ConfigxConfigBuilder {
    config: ConfigxConfig,
}

impl ConfigxConfigBuilder {
    /// The settings built so far.
    pub closed spec fn settings(&self) -> ConfigxConfig {
        self.config
    }

    /// A builder that starts from the defaults.
    pub fn new() -> (r: Self)
        ensures
            r.settings() == default_settings(),
    {
        ConfigxConfigBuilder { config: ConfigxConfig::default() }
    }

    /// Sets whether secrets are masked in descriptions.
    pub fn redact_secrets(self, redact_secrets: bool) -> (r: Self)
        ensures
            r.settings() == (ConfigxConfig { redact_secrets, ..self.settings() }),
    {
        let mut builder = self;
        builder.config.redact_secrets = redact_secrets;
        builder
    }

    /// Sets whether an empty snapshot is allowed.
    pub fn allow_empty_snapshot(self, allow_empty: bool) -> (r: Self)
        ensures
            r.settings() == (ConfigxConfig { allow_empty_snapshot: allow_empty, ..self.settings() }),
    {
        let mut builder = self;
        builder.config.allow_empty_snapshot = allow_empty;
        builder
    }

    /// The settings, once checked.
    pub fn build(self) -> (r: ConfigxResult<ConfigxConfig>)
        ensures
            r == Ok::<ConfigxConfig, ConfigxError>(self.settings()),
    {
        match self.config.validate() {
            Err(e) => Err(e),
            Ok(()) => Ok(self.config),
        }
    }
}

impl Default for ConfigxConfigBuilder {
    /// A builder that starts from the defaults.
    fn default() -> (r: Self)
        ensures
            r.settings() == default_settings(),
    {
        ConfigxConfigBuilder::new()
    }
}

/// Marks the parse error of the `toml` crate, which a TOML failure carries.
#[verifier::external_type_specification]
#[verifier::external_body]
pub struct ExTomlError(toml::de::Error);

/// Where the parser located a failure: the start of the byte span of the error
/// (`toml::de::Error::span`), when it located one. Nothing is promised of the
/// value: the parser alone decides where it reports a failure.
#[verifier::external_body]
fn span_start(error: &toml::de::Error) -> Option<usize> {
    error.span().map(|span| span.start)
}

/// The message of a TOML failure in `text`, reduced to the position at which
/// the parser located it: the parser's own message would quote the value and
/// the line, and no value of the configuration may reach a message.
pub fn describe_toml_failure(text: &str, error: &toml::de::Error) -> (r: String)
    requires
        encode_utf8(text@).len() < usize::MAX,
    ensures
        r@ == toml_malformed_message() || exists|off: usize|
            r@ == toml_position_message(encode_utf8(text@), off as int),
{
    describe_toml_position(text, span_start(error))
}

/// The message of a TOML failure, given where in `text` it was located, if
/// anywhere: the line and column of that byte offset, never text.
pub fn describe_toml_position(text: &str, span_start: Option<usize>) -> (r: String)
    requires
        encode_utf8(text@).len() < usize::MAX,
    ensures
        match span_start {
            Some(off) => r@ == toml_position_message(encode_utf8(text@), off as int),
            None => r@ == toml_malformed_message(),
        },
{
    match span_start {
        Some(off) => {
            let (line, column) = line_and_column(text, off);
            let mut out = "TOML 解析失败：第 ".to_owned();
            push_decimal(&mut out, line as u128);
            push_str(&mut out, " 行第 ");
            push_decimal(&mut out, column as u128);
            push_str(&mut out, " 列");
            out
        },
        None => "TOML 解析失败：文档格式不合法".to_owned(),
    }
}

/// The 1-based line and column of a byte offset in `text`; columns count
/// characters. An offset past the end, or inside a character, is moved back to
/// the nearest character boundary.
pub fn line_and_column(text: &str, byte_offset: usize) -> (r: (usize, usize))
    requires
        encode_utf8(text@).len() < usize::MAX,
    ensures
        r.0 == position_spec(encode_utf8(text@), byte_offset as int).0,
        r.1 == position_spec(encode_utf8(text@), byte_offset as int).1,
{
    let bytes = text.as_bytes();
    let ghost bs = encode_utf8(text@);
    let mut offset: usize = if byte_offset < bytes.len() {
        byte_offset
    } else {
        bytes.len()
    };
    let ghost start = offset as int;
    while offset > 0 && !text.is_char_boundary(offset)
        invariant
            bs == encode_utf8(text@),
            0 <= offset <= start <= bs.len(),
            char_floor(bs, start) == char_floor(bs, offset as int),
        decreases offset,
    {
        offset = offset - 1;
    }
    let mut line: usize = 1;
    let mut line_begin: usize = 0;
    let mut i: usize = 0;
    assert(bs.take(0) == Seq::<u8>::empty());
    while i < offset
        invariant
            bytes@ == bs,
            offset <= bs.len() < usize::MAX,
            i <= offset,
            line == 1 + newline_count(bs.take(i as int)),
            line_begin == line_start(bs.take(i as int)),
            newline_count(bs.take(i as int)) <= i,
            line_start(bs.take(i as int)) <= i,
        decreases offset - i,
    {
        assert(bs.take(i + 1).drop_last() == bs.take(i as int));
        if bytes[i] == 10 {
            line = line + 1;
            line_begin = i + 1;
        }
        i = i + 1;
    }
    let mut column: usize = 1;
    let mut j: usize = line_begin;
    assert(bs.subrange(line_begin as int, line_begin as int) == Seq::<u8>::empty());
    while j < offset
        invariant
            bytes@ == bs,
            offset <= bs.len() < usize::MAX,
            line_begin <= j <= offset,
            column == 1 + char_count(bs.subrange(line_begin as int, j as int)),
            char_count(bs.subrange(line_begin as int, j as int)) <= j - line_begin,
        decreases offset - j,
    {
        assert(bs.subrange(line_begin as int, j + 1).drop_last() == bs.subrange(
            line_begin as int,
            j as int,
        ));
        if !(0x80 <= bytes[j] && bytes[j] < 0xc0) {
            column = column + 1;
        }
        j = j + 1;
    }
    (line, column)
}

/// What the environment holds for `name`: nothing when it is unset or blank,
/// its trimmed value otherwise.
pub fn read_env(name: &str, value: EnvValue) -> (r: ConfigxResult<Option<String>>)
    ensures
        match read_env_spec(name@, value) {
            Ok(None) => r matches Ok(None),
            Ok(Some(t)) => r matches Ok(Some(s)) && s@ == t,
            Err(m) => r matches Err(e) && error_is(e, ErrorKind::Invalid, m),
        },
{
    match value {
        EnvValue::NotPresent => Ok(None),
        EnvValue::NotUnicode => {
            let mut message = "环境变量不是有效 Unicode：".to_owned();
            push_str(&mut message, name);
            Err(ConfigxError::invalid(message.as_str()))
        },
        EnvValue::Present(v) => {
            let t = trimmed(v.as_str());
            if t.as_str().is_empty() {
                Ok(None)
            } else {
                Ok(Some(t))
            }
        },
    }
}

/// `c` in lower case when it is an ASCII capital letter.
fn lower_ascii_char(c: char) -> (r: char)
    ensures
        r == ascii_lower(c),
{
    let u = c as u32;
    if 65 <= u && u <= 90 {
        ((u as u8) + 32) as char
    } else {
        c
    }
}

/// Reads a boolean from the value of variable `name`: `1`, `true`, `yes`, `on`
/// or `0`, `false`, `no`, `off`, in any ASCII case. The error names the variable
/// and never echoes the value.
pub fn parse_bool(name: &str, value: &str) -> (r: ConfigxResult<bool>)
    ensures
        match bool_word(ascii_lower_text(value@)) {
            Some(b) => r == Ok::<bool, ConfigxError>(b),
            None => r matches Err(e) && error_is(e, ErrorKind::Invalid, bad_bool_message(name@)),
        },
{
    let chars = chars_of(value);
    let mut lower: Vec<char> = Vec::new();
    let mut i: usize = 0;
    while i < chars.len()
        invariant
            i <= chars@.len(),
            chars@ == value@,
            lower@ == ascii_lower_text(value@).take(i as int),
        decreases chars@.len() - i,
    {
        lower.push(lower_ascii_char(chars[i]));
        assert(lower@ == ascii_lower_text(value@).take(i + 1));
        i = i + 1;
    }
    assert(lower@ == ascii_lower_text(value@));
    if same_chars(&lower, "1") || same_chars(&lower, "true") || same_chars(&lower, "yes")
        || same_chars(&lower, "on") {
        Ok(true)
    } else if same_chars(&lower, "0") || same_chars(&lower, "false") || same_chars(&lower, "no")
        || same_chars(&lower, "off") {
        Ok(false)
    } else {
        let mut message = "环境变量 ".to_owned();
        push_str(&mut message, name);
        push_str(&mut message, " 不是合法布尔值：期望 true/false、yes/no、on/off 或 1/0");
        Err(ConfigxError::invalid(message.as_str()))
    }
}

} // verus!
