//! Layered configuration store: configuration sources are merged, in the order
//! in which they were registered, into one immutable snapshot that can be read,
//! compared, subscribed to and described with secrets masked.
//!
//! - Keys are neither case-folded nor otherwise normalised; only empty keys,
//!   keys with control characters and keys longer than 512 bytes are refused.
//! - A failing source or an unacceptable key leaves the snapshot and the
//!   generation as they were.
//! - Reading never masks: masking applies to descriptions and logs only.
//! - Change notification is synchronous and blocking; nothing watches files.

pub mod config;
pub mod diff;
pub mod error;
pub mod global_path;
pub mod key;
pub mod kv;
pub mod layered;
pub mod map;
pub mod order;
pub mod secret;
pub mod source;
pub mod store;
pub mod text;
pub mod view;
pub mod watch;

pub use config::{
    ConfigxConfig, ConfigxConfigBuilder, EnvValue, ENV_ALLOW_EMPTY_SNAPSHOT, ENV_GLOBAL_FILE,
    ENV_REDACT_SECRETS,
};
pub use diff::{diff_snapshots, ConfigDiff};
pub use error::{ConfigxError, ConfigxResult, ErrorKind};
pub use key::validate_key;
pub use layered::{merge_layers, LayeredConfig};
pub use map::ConfigMap;
pub use secret::{is_secret_key, redact_map, redact_value, REDACTED_VALUE, SECRET_KEY_PREFIX};
pub use global_path::{resolve_global_file_path_from_env, GlobalPathParts};
pub use kv::parse_key_value_file;
pub use source::{
    ConfigSource, EnvSource, EnvText, FileRead, FileSource, GlobalFileSource, MemorySource,
};
pub use store::{check_snapshot_policy, typed_outcome, ConfigxHealth, ConfigxStore};
pub use view::{snapshots_agree, subset_snapshot, try_subset_snapshot};
pub use watch::{ConfigChange, ConfigSubscription, ConfigWaitOutcome, ConfigWatch};
