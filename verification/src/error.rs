//! Error type and its coarse classification.
//!
//! Messages never carry configuration values: failures name a key, a type, a
//! variable or a line number, so that an error can be logged safely.

use vstd::prelude::*;

use crate::text::push_str;

verus! {

/// Marks `std::io::Error` so that the `Io` variant can carry it.
#[verifier::external_type_specification]
#[verifier::external_body]
pub struct ExIoError(std::io::Error);

/// Coarse classification of a configuration error, for callers that decide on
/// the category (retry, fall back, alert) rather than the exact variant.
#[non_exhaustive]
#[derive(Debug, Clone, Copy, PartialEq, Eq, Hash, Structural)]
pub enum ErrorKind {
    /// A parameter, a setting or a configuration key is not acceptable.
    Invalid,
    /// A key is missing, or no configuration source has been loaded.
    Missing,
    /// The key exists but its value cannot be converted to the requested type.
    TypeMismatch,
    /// The request conflicts with the current state (empty-snapshot policy, closed watch, poisoned lock).
    Conflict,
    /// Configuration text (TOML or `KEY=VALUE`) could not be parsed.
    Parse,
    /// The operation is not supported.
    Unsupported,
    /// A source is temporarily unavailable; the only category worth retrying.
    Unavailable,
}

/// Errors of the configuration store.
#[derive(Debug)]
#[non_exhaustive]
pub enum ConfigxError {
    /// A parameter, a setting or a configuration key is not acceptable.
    Invalid(String),
    /// A key or a source is missing.
    Missing(String),
    /// The key exists but its value cannot be converted to the requested type.
    TypeMismatch(String),
    /// The request conflicts with the current state.
    Conflict(String),
    /// Configuration text could not be parsed.
    Parse(String),
    /// The operation is not supported.
    Unsupported(String),
    /// A source is temporarily unavailable; the same operation may succeed later.
    Unavailable(String),
    /// Reading a source failed; the underlying I/O error is kept.
    Io {
        /// Human-readable context, such as the path of the file.
        message: String,
        /// The underlying I/O error.
        source: std::io::Error,
    },
}

/// Result type of this crate.
pub type ConfigxResult<T> = Result<T, ConfigxError>;

impl ConfigxError {
    /// The category of the error; reading failures count as `Invalid`, since a
    /// missing file or a denied permission needs a human to fix it.
    pub open spec fn kind_spec(self) -> ErrorKind {
        match self {
            ConfigxError::Invalid(_) => ErrorKind::Invalid,
            ConfigxError::Io { .. } => ErrorKind::Invalid,
            ConfigxError::Missing(_) => ErrorKind::Missing,
            ConfigxError::TypeMismatch(_) => ErrorKind::TypeMismatch,
            ConfigxError::Conflict(_) => ErrorKind::Conflict,
            ConfigxError::Parse(_) => ErrorKind::Parse,
            ConfigxError::Unsupported(_) => ErrorKind::Unsupported,
            ConfigxError::Unavailable(_) => ErrorKind::Unavailable,
        }
    }

    /// The message that the error carries.
    pub open spec fn message_spec(self) -> Seq<char> {
        match self {
            ConfigxError::Invalid(m) => m@,
            ConfigxError::Missing(m) => m@,
            ConfigxError::TypeMismatch(m) => m@,
            ConfigxError::Conflict(m) => m@,
            ConfigxError::Parse(m) => m@,
            ConfigxError::Unsupported(m) => m@,
            ConfigxError::Unavailable(m) => m@,
            ConfigxError::Io { message, .. } => message@,
        }
    }

    /// The fixed text that precedes the message when the error is displayed.
    pub open spec fn prefix_spec(self) -> Seq<char> {
        match self {
            ConfigxError::Invalid(_) => "配置无效: "@,
            ConfigxError::Missing(_) => "缺失配置: "@,
            ConfigxError::TypeMismatch(_) => "类型不匹配: "@,
            ConfigxError::Conflict(_) => "状态冲突: "@,
            ConfigxError::Parse(_) => "解析失败: "@,
            ConfigxError::Unsupported(_) => "不支持的操作: "@,
            ConfigxError::Unavailable(_) => "配置源暂不可用: "@,
            ConfigxError::Io { .. } => "I/O 失败: "@,
        }
    }

    /// The displayed form of the error: its prefix followed by its message.
    pub open spec fn display_spec(self) -> Seq<char> {
        self.prefix_spec() + self.message_spec()
    }

    /// Builds an `Invalid` error.
    pub fn invalid(message: &str) -> (r: Self)
        ensures
            error_is(r, ErrorKind::Invalid, message@),
    {
        ConfigxError::Invalid(message.to_owned())
    }

    /// Builds a `Missing` error.
    pub fn missing(message: &str) -> (r: Self)
        ensures
            error_is(r, ErrorKind::Missing, message@),
    {
        ConfigxError::Missing(message.to_owned())
    }

    /// Builds a `TypeMismatch` error.
    pub fn type_mismatch(message: &str) -> (r: Self)
        ensures
            error_is(r, ErrorKind::TypeMismatch, message@),
    {
        ConfigxError::TypeMismatch(message.to_owned())
    }

    /// Builds a `Conflict` error.
    pub fn conflict(message: &str) -> (r: Self)
        ensures
            error_is(r, ErrorKind::Conflict, message@),
    {
        ConfigxError::Conflict(message.to_owned())
    }

    /// Builds a `Parse` error.
    pub fn parse(message: &str) -> (r: Self)
        ensures
            error_is(r, ErrorKind::Parse, message@),
    {
        ConfigxError::Parse(message.to_owned())
    }

    /// Builds an `Unsupported` error.
    pub fn unsupported(message: &str) -> (r: Self)
        ensures
            error_is(r, ErrorKind::Unsupported, message@),
    {
        ConfigxError::Unsupported(message.to_owned())
    }

    /// Builds an `Unavailable` error.
    pub fn unavailable(message: &str) -> (r: Self)
        ensures
            error_is(r, ErrorKind::Unavailable, message@),
    {
        ConfigxError::Unavailable(message.to_owned())
    }

    /// Builds an `Io` error that keeps the underlying I/O error.
    pub fn io(message: &str, source: std::io::Error) -> (r: Self)
        ensures
            r matches ConfigxError::Io { source: kept, .. } && kept == source,
            r.message_spec() == message@,
            r.kind_spec() == ErrorKind::Invalid,
    {
        ConfigxError::Io { message: message.to_owned(), source }
    }

    /// The category of the error.
    pub fn kind(&self) -> (r: ErrorKind)
        ensures
            r == self.kind_spec(),
    {
        match self {
            ConfigxError::Invalid(_) | ConfigxError::Io { .. } => ErrorKind::Invalid,
            ConfigxError::Missing(_) => ErrorKind::Missing,
            ConfigxError::TypeMismatch(_) => ErrorKind::TypeMismatch,
            ConfigxError::Conflict(_) => ErrorKind::Conflict,
            ConfigxError::Parse(_) => ErrorKind::Parse,
            ConfigxError::Unsupported(_) => ErrorKind::Unsupported,
            ConfigxError::Unavailable(_) => ErrorKind::Unavailable,
        }
    }

    /// Whether retrying the same operation later may succeed: only an
    /// unavailable source is a transient failure.
    pub fn is_retryable(&self) -> (r: bool)
        ensures
            r == (self.kind_spec() == ErrorKind::Unavailable),
    {
        match self.kind() {
            ErrorKind::Unavailable => true,
            _ => false,
        }
    }

    /// The message that the error carries.
    pub fn message(&self) -> (r: &str)
        ensures
            r@ == self.message_spec(),
    {
        match self {
            ConfigxError::Invalid(m) => m.as_str(),
            ConfigxError::Missing(m) => m.as_str(),
            ConfigxError::TypeMismatch(m) => m.as_str(),
            ConfigxError::Conflict(m) => m.as_str(),
            ConfigxError::Parse(m) => m.as_str(),
            ConfigxError::Unsupported(m) => m.as_str(),
            ConfigxError::Unavailable(m) => m.as_str(),
            ConfigxError::Io { message, .. } => message.as_str(),
        }
    }

    /// The underlying I/O error, which only a reading failure carries.
    pub fn source(&self) -> (r: Option<&std::io::Error>)
        ensures
            r is Some <==> self is Io,
            r matches Some(s) ==> (self matches ConfigxError::Io { source, .. } && *s == source),
    {
        match self {
            ConfigxError::Io { source, .. } => Some(source),
            _ => None,
        }
    }

    /// The displayed form of the error: a fixed prefix for the variant, then the message.
    pub fn to_string(&self) -> (r: String)
        ensures
            r@ == self.display_spec(),
    {
        let prefix: &str = match self {
            ConfigxError::Invalid(_) => "配置无效: ",
            ConfigxError::Missing(_) => "缺失配置: ",
            ConfigxError::TypeMismatch(_) => "类型不匹配: ",
            ConfigxError::Conflict(_) => "状态冲突: ",
            ConfigxError::Parse(_) => "解析失败: ",
            ConfigxError::Unsupported(_) => "不支持的操作: ",
            ConfigxError::Unavailable(_) => "配置源暂不可用: ",
            ConfigxError::Io { .. } => "I/O 失败: ",
        };
        let mut out = prefix.to_owned();
        push_str(&mut out, self.message());
        out
    }
}

/// `e` is the non-I/O error of category `kind` whose message is `message`.
pub open spec fn error_is(e: ConfigxError, kind: ErrorKind, message: Seq<char>) -> bool {
    &&& !(e is Io)
    &&& e.kind_spec() == kind
    &&& e.message_spec() == message
}

} // verus!
