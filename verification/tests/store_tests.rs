//! The store: layering, reload, reading, health, descriptions and views.

use std::sync::Arc;
use std::time::Duration;

use configx::{
    diff_snapshots, is_secret_key, parse_key_value_file, redact_map, redact_value,
    snapshots_agree, subset_snapshot, try_subset_snapshot, typed_outcome, ConfigChange, ConfigDiff,
    ConfigMap, ConfigSource, ConfigSubscription, ConfigWaitOutcome, ConfigWatch, ConfigxConfig,
    ConfigxConfigBuilder, ConfigxError, ConfigxHealth, ConfigxResult, ConfigxStore, EnvSource,
    ErrorKind, FileRead, FileSource, GlobalFileSource, LayeredConfig, MemorySource,
    ENV_ALLOW_EMPTY_SNAPSHOT, ENV_REDACT_SECRETS,
};

/// A typed read: the raw value as JSON, or else as a JSON string.
fn get_typed<T: serde::de::DeserializeOwned, S: ConfigSource + ?Sized>(
    store: &ConfigxStore<S>,
    key: &str,
    target: &str,
) -> ConfigxResult<T> {
    let raw = store.get(key);
    let decoded = raw.and_then(|raw| {
        serde_json::from_str::<T>(raw)
            .ok()
            .or_else(|| serde_json::from_value::<T>(serde_json::Value::String(raw.to_string())).ok())
    });
    typed_outcome(key, target, raw, decoded)
}

/// A file source whose file does not exist: loading it reports the file as not found.
struct MissingFile(FileSource);

impl ConfigSource for MissingFile {
    fn load(&self) -> ConfigxResult<ConfigMap> {
        self.0.load_text(FileRead::NotFound(std::io::Error::new(
            std::io::ErrorKind::NotFound,
            "No such file or directory",
        )))
    }
}

/// An environment source over an environment that holds none of its variables.
struct QuietEnvironment(EnvSource);

impl ConfigSource for QuietEnvironment {
    fn load(&self) -> ConfigxResult<ConfigMap> {
        self.0.load_environment(&[])
    }
}

fn assert_send_sync<T: Send + Sync>() {}

fn sample_store() -> ConfigxStore {
    let mut store = ConfigxStore::new();
    store.register_source(MemorySource::from_pairs(&[
        ("app.host", "db.local"),
        ("app.port", "5432"),
        ("app.tls", "true"),
        ("app.hosts", r#"["a","b"]"#),
        ("secret:token", "top-secret"),
    ]));
    store.reload().expect("reload must succeed");
    store
}

#[test]
fn public_reexports_compose_through_the_crate_root() {
    let mut store = ConfigxStore::new();
    store.register_source(MemorySource::from_pairs(&[
        ("app.port", "5432"),
        ("secret:token", "top-secret"),
    ]));
    store.reload().expect("reload 成功");

    assert_eq!(store.get("app.port"), Some("5432"));
    assert_eq!(get_typed::<u16, _>(&store, "app.port", "u16").expect("类型读取"), 5432);
    store.ping().expect("已加载源必须健康");

    let subset = try_subset_snapshot(&store, &["app.port"]).expect("子集合法");
    assert!(subset_snapshot(&store, &["app.port"]).contains_key("app.port"));
    assert!(snapshots_agree(&subset, &store.snapshot(), &["app.port"]));
    assert!(
        !diff_snapshots(&subset, &store.snapshot()).is_empty(),
        "子集相对完整快照在被排除的键上应有差异"
    );
    let full = subset_snapshot(&store, &["app.port", "secret:token"]);
    assert!(
        diff_snapshots(&full, &store.snapshot()).is_empty(),
        "覆盖全部键时差异必须为空"
    );

    assert_eq!(redact_value("secret:token", "v"), configx::REDACTED_VALUE);
    assert!(is_secret_key(configx::SECRET_KEY_PREFIX));
    assert_eq!(ErrorKind::Invalid, ConfigxError::invalid("x").kind());
    assert!(parse_key_value_file("A=1\n")
        .expect("解析成功")
        .contains_key("A"));
    assert_eq!(
        ConfigxConfig::default(),
        ConfigxConfig::builder().build().expect("构建成功")
    );

    let _: ConfigxResult<()> = Ok(());
    let _: ConfigDiff = ConfigDiff::default();
    let _: LayeredConfig = LayeredConfig::new();
    let _: ConfigxHealth = store.health_check().expect("health_check 不报错");
    let _: ConfigChange = ConfigChange { generation: 0 };
    assert_eq!(store.generation(), 1);
}

#[test]
fn failed_reload_keeps_previous_snapshot_and_generation() {
    let mut store = ConfigxStore::<dyn ConfigSource>::new();
    store.register_shared_source(Arc::new(MemorySource::from_pairs(&[("keep", "alive")])));
    store.reload().unwrap();

    store.register_shared_source(Arc::new(MissingFile(FileSource::new(
        "/no/such/configx-missing.conf",
    ))));
    let error = store.reload().unwrap_err();
    assert_eq!(error.kind(), ErrorKind::Invalid);
    assert!(error
        .to_string()
        .contains("读取配置文件失败：路径=/no/such/configx-missing.conf"));
    assert_eq!(store.get("keep"), Some("alive"));
    assert_eq!(store.generation(), 1, "失败的 reload 不得推进 generation");
    assert!(store.ping().is_ok());
}

#[test]
fn invalid_key_is_rejected_without_touching_snapshot() {
    let mut store = ConfigxStore::new();
    store.register_source(MemorySource::from_pairs(&[("keep", "alive")]));
    store.reload().unwrap();

    store.register_source(MemorySource::from_pairs(&[("bad\nkey", "value")]));
    let error = store.reload().unwrap_err();
    assert_eq!(error.kind(), ErrorKind::Invalid);
    assert!(error.to_string().contains("配置键不能包含控制字符"));
    assert_eq!(store.get("keep"), Some("alive"));
    assert_eq!(store.generation(), 1);
}

#[test]
fn empty_snapshot_can_be_refused_by_config() {
    let config = ConfigxConfig::builder()
        .allow_empty_snapshot(false)
        .build()
        .unwrap();
    let mut store = ConfigxStore::from_config(config).unwrap();
    store.register_source(MemorySource::new());

    let error = store.reload().unwrap_err();
    assert_eq!(error.kind(), ErrorKind::Conflict);
    assert!(store.is_empty());
    assert!(!store.health_check().unwrap().healthy);
    assert_eq!(store.generation(), 0);

    store.register_source(MemorySource::from_pairs(&[("a", "1")]));
    store.reload().unwrap();
    assert_eq!(store.get("a"), Some("1"));
    assert_eq!(store.generation(), 1);
}

#[test]
fn env_and_key_value_sources_keep_documented_semantics() {
    let env = EnvSource::new("APP_");
    assert_eq!(env.prefix(), "APP_");
    let map = env
        .load_from_iter(&[
            ("APP_HOST", "h"),
            ("APP_PORT", "80"),
            ("OTHER", "x"),
            ("APP_", "skip"),
        ])
        .unwrap();
    assert_eq!(map.get("HOST").map(String::as_str), Some("h"));
    assert_eq!(map.get("PORT").map(String::as_str), Some("80"));
    assert!(!map.contains_key("OTHER"));
    assert!(!map.contains_key(""));
    assert!(QuietEnvironment(EnvSource::new("")).load().unwrap().is_empty());

    let parsed = parse_key_value_file("# 注释\nHOST=h\nPORT = \"8080\"\nEMPTY=\n").unwrap();
    assert_eq!(parsed.get("HOST").map(String::as_str), Some("h"));
    assert_eq!(parsed.get("PORT").map(String::as_str), Some("8080"));
    assert_eq!(parsed.get("EMPTY").map(String::as_str), Some(""));

    let missing_separator = parse_key_value_file("secret-looking-value").unwrap_err();
    assert_eq!(missing_separator.kind(), ErrorKind::Invalid);
    assert!(missing_separator
        .to_string()
        .contains("第 1 行：应为 KEY=VALUE"));
    assert!(
        !missing_separator
            .to_string()
            .contains("secret-looking-value"),
        "不得回显原始行"
    );
    assert!(parse_key_value_file("=v")
        .unwrap_err()
        .to_string()
        .contains("键为空"));

    let mut store = ConfigxStore::new();
    store.register_source(QuietEnvironment(EnvSource::new("UNLIKELY_PREFIX_CONFIGX_XYZ_")));
    store.reload().unwrap();
    assert!(store.is_empty());
    store.ping().expect("空映射也是成功加载");
}

#[test]
fn watch_reports_changed_timeout_and_closed() {
    let mut store = ConfigxStore::new();
    store.register_source(MemorySource::from_pairs(&[("k", "v")]));
    let mut subscription = store.subscribe();
    assert_eq!(subscription.seen(), 0);

    assert_eq!(
        subscription
            .wait_timeout_outcome(Duration::from_millis(10))
            .unwrap(),
        ConfigWaitOutcome::TimedOut
    );
    assert!(subscription
        .wait_timeout(Duration::from_millis(1))
        .unwrap()
        .is_none());

    store.reload().unwrap();
    assert_eq!(store.generation(), 1);
    assert_eq!(
        subscription.wait_outcome().unwrap(),
        ConfigWaitOutcome::Changed(ConfigChange { generation: 1 })
    );
    assert_eq!(subscription.seen(), 1);

    store.notifier().close().unwrap();
    assert_eq!(
        subscription.wait_outcome().unwrap(),
        ConfigWaitOutcome::Closed
    );
    assert!(subscription.wait().unwrap().is_none());

    let before = store.snapshot();
    let error = store.reload().unwrap_err();
    assert_eq!(error.kind(), ErrorKind::Conflict);
    assert_eq!(store.snapshot(), before);
}

#[test]
fn snapshots_are_stable_and_views_agree() {
    let mut store = ConfigxStore::new();
    store.register_source(MemorySource::from_pairs(&[
        ("a", "1"),
        ("b", "2"),
        ("c", "3"),
    ]));
    store.reload().unwrap();

    let before = store.snapshot();
    assert_eq!(before.len(), 3);

    let subset = subset_snapshot(&store, &["a", "c", "missing"]);
    assert_eq!(subset.len(), 2);
    assert_eq!(subset.get("a").map(String::as_str), Some("1"));
    assert!(snapshots_agree(&before, &subset, &["a", "c"]));
    assert!(!snapshots_agree(&before, &subset, &["b"]));
    assert!(snapshots_agree(&before, &subset, &[]));
    assert_eq!(
        try_subset_snapshot(&store, &["b"])
            .unwrap()
            .get("b")
            .map(String::as_str),
        Some("2")
    );
    assert_eq!(
        try_subset_snapshot(&store, &[""]).unwrap_err().kind(),
        ErrorKind::Invalid
    );
    assert!(
        subset_snapshot(&store, &[""]).is_empty(),
        "非法键折叠为空快照"
    );

    store.register_source(MemorySource::from_pairs(&[("a", "9")]));
    store.reload().unwrap();
    assert_eq!(store.get("a"), Some("9"));
    assert_eq!(store.get("b"), Some("2"), "低优先级层的独有键保留");
    assert_eq!(before.get("a").map(String::as_str), Some("1"));
    assert_eq!(before.len(), 3);

    let mut other = ConfigxStore::new();
    other.register_source(MemorySource::from_pairs(&[("a", "9"), ("d", "4")]));
    other.reload().unwrap();
    let after = other.snapshot();

    let diff = diff_snapshots(after.as_ref(), before.as_ref());
    assert!(!diff.is_empty());
    assert_eq!(diff.only_left, vec!["d".to_string()]);
    assert_eq!(diff.only_right, vec!["b".to_string(), "c".to_string()]);
    assert_eq!(diff.changed, vec!["a".to_string()]);
    assert_eq!(diff.total_changes(), 4);
}

#[test]
fn key_length_boundary() {
    let ok_key = "k".repeat(512);
    let mut ok = ConfigxStore::new();
    ok.register_source(MemorySource::from_pairs(&[(ok_key.as_str(), "v")]));
    ok.reload().expect("512 字节键合法");
    assert_eq!(ok.get(&ok_key), Some("v"));

    let mut too_long = ConfigxStore::new();
    too_long.register_source(MemorySource::from_pairs(&[("keep", "1")]));
    too_long.reload().unwrap();
    let long_key = "k".repeat(513);
    too_long.register_source(MemorySource::from_pairs(&[(long_key.as_str(), "v")]));
    assert_eq!(too_long.reload().unwrap_err().kind(), ErrorKind::Invalid);
    assert_eq!(too_long.get("keep"), Some("1"), "失败不改状态");
}

#[test]
fn key_with_control_characters() {
    for bad in [
        "line\nbreak",
        "carriage\rreturn",
        "nul\u{0}byte",
        "ansi\u{1b}[31m",
        "tab\tkey",
    ] {
        let mut store = ConfigxStore::new();
        store.register_source(MemorySource::from_pairs(&[(bad, "v")]));
        let error = store.reload().unwrap_err();
        assert_eq!(error.kind(), ErrorKind::Invalid, "键 {bad:?} 必须被拒绝");
        assert!(store.is_empty(), "被拒绝的键不得进入快照");
    }
}

#[test]
fn unicode_keys_are_stored_verbatim() {
    let mut store = ConfigxStore::new();
    store.register_source(MemorySource::from_pairs(&[
        ("数据库．查询", "1"),
        ("cafe\u{0301}", "2"),
        ("大小写敏感", "3"),
    ]));
    store.reload().expect("非 ASCII 键合法");
    assert_eq!(store.get("数据库．查询"), Some("1"));
    assert_eq!(store.get("cafe\u{0301}"), Some("2"));
    assert_eq!(store.get("大小写敏感"), Some("3"));
    assert_eq!(store.len(), 3);
}

#[test]
fn timed_wait_without_change_returns() {
    let mut store = ConfigxStore::new();
    store.register_source(MemorySource::from_pairs(&[("k", "v")]));
    let mut subscription = store.subscribe();

    let started = std::time::Instant::now();
    let outcome = subscription
        .wait_timeout_outcome(Duration::from_millis(30))
        .unwrap();
    assert_eq!(outcome, ConfigWaitOutcome::TimedOut);
    assert!(
        started.elapsed() < Duration::from_secs(5),
        "限时等待必须受 deadline 约束"
    );
    assert!(subscription
        .wait_timeout(Duration::from_millis(5))
        .unwrap()
        .is_none());
}

#[test]
fn reload_after_watch_closed_keeps_snapshot() {
    let mut store = ConfigxStore::new();
    store.register_source(MemorySource::from_pairs(&[("keep", "alive")]));
    store.reload().unwrap();
    let before = store.snapshot();

    store.notifier().close().unwrap();
    let error = store.reload().unwrap_err();
    assert_eq!(error.kind(), ErrorKind::Conflict);
    assert_eq!(store.snapshot(), before);
    assert_eq!(store.generation(), 1);
    assert_eq!(store.get("keep"), Some("alive"));
}

#[test]
fn error_messages_never_echo_values() {
    let mut store = ConfigxStore::new();
    store.register_source(MemorySource::from_pairs(&[
        ("secret:token", "top-secret-value"),
        ("app.host", "db.internal"),
    ]));
    store.reload().unwrap();

    let mismatch = get_typed::<u16, _>(&store, "secret:token", "u16").unwrap_err();
    assert_eq!(mismatch.kind(), ErrorKind::TypeMismatch);
    assert!(!mismatch.to_string().contains("top-secret-value"));
    assert!(!mismatch.to_string().contains("db.internal"));

    let parse = parse_key_value_file("secret-looking-value").unwrap_err();
    assert_eq!(parse.kind(), ErrorKind::Invalid);
    assert!(
        !parse.to_string().contains("secret-looking-value"),
        "解析错误只报行号：{}",
        parse.to_string()
    );

    assert!(!store.debug_string().contains("top-secret-value"));
}

#[test]
fn empty_source_cannot_wipe_snapshot() {
    let policy = ConfigxConfig::builder()
        .allow_empty_snapshot(false)
        .build()
        .unwrap();
    let mut store = ConfigxStore::from_config(policy).unwrap();
    store.register_source(MemorySource::from_pairs(&[("a", "1"), ("b", "2")]));
    store.reload().unwrap();
    assert_eq!(store.len(), 2);

    store.register_source(MemorySource::new());
    store.reload().unwrap();
    assert_eq!(store.len(), 2);

    let before = store.snapshot();
    let mut empty = ConfigxStore::from_config(
        ConfigxConfig::builder()
            .allow_empty_snapshot(false)
            .build()
            .unwrap(),
    )
    .unwrap();
    empty.register_source(MemorySource::new());
    assert_eq!(empty.reload().unwrap_err().kind(), ErrorKind::Conflict);
    assert!(empty.is_empty());
    assert_eq!(store.snapshot(), before);
}

#[test]
fn core_types_are_send_and_sync() {
    assert_send_sync::<ConfigxStore>();
    assert_send_sync::<ConfigxConfig>();
    assert_send_sync::<ConfigxConfigBuilder>();
    assert_send_sync::<ConfigxError>();
    assert_send_sync::<ConfigxHealth>();
    assert_send_sync::<ConfigDiff>();
    assert_send_sync::<LayeredConfig>();
    assert_send_sync::<ConfigWatch>();
    assert_send_sync::<ConfigSubscription>();
    assert_send_sync::<ConfigChange>();
    assert_send_sync::<ConfigWaitOutcome>();
    assert_send_sync::<MemorySource>();
    assert_send_sync::<EnvSource>();
    assert_send_sync::<FileSource>();
    assert_send_sync::<GlobalFileSource>();
}

#[test]
fn redaction_helpers_are_pure_and_prefix_based() {
    assert_eq!(configx::SECRET_KEY_PREFIX, "secret:");
    assert_eq!(configx::REDACTED_VALUE, "***");
    assert!(is_secret_key("secret:token"));
    assert!(!is_secret_key("token"));
    assert!(!is_secret_key("Secret:token"), "判定大小写敏感");

    assert_eq!(redact_value("secret:token", "abc"), "***");
    assert_eq!(redact_value("plain", "abc"), "abc");

    let mut entries = ConfigMap::new();
    entries.insert("plain".to_string(), "visible".to_string());
    entries.insert("secret:token".to_string(), "hidden".to_string());
    let redacted = redact_map(&entries);
    assert_eq!(redacted.get("plain").map(String::as_str), Some("visible"));
    assert_eq!(
        redacted.get("secret:token").map(String::as_str),
        Some("***")
    );
}

#[test]
fn typed_read_and_health_check() {
    let store = sample_store();

    assert_eq!(store.get("secret:token"), Some("top-secret"));
    assert_eq!(get_typed::<u16, _>(&store, "app.port", "u16").unwrap(), 5432);
    assert_eq!(get_typed::<String, _>(&store, "app.host", "String").unwrap(), "db.local");
    assert!(get_typed::<bool, _>(&store, "app.tls", "bool").unwrap());
    assert_eq!(
        get_typed::<Vec<String>, _>(&store, "app.hosts", "Vec<String>").unwrap(),
        vec!["a", "b"]
    );

    let health = store.health_check().unwrap();
    assert_eq!(health.sources, 1);
    assert_eq!(health.keys, 5);
    assert!(health.healthy);
    store.ping().expect("加载成功的存储必须 ping 通");
}

#[test]
fn missing_and_type_mismatch_errors_do_not_leak_values() {
    let store = sample_store();

    let missing = get_typed::<u16, _>(&store, "app.absent", "u16").unwrap_err();
    assert_eq!(missing.kind(), ErrorKind::Missing);

    let mismatch = get_typed::<u16, _>(&store, "app.host", "u16").unwrap_err();
    assert_eq!(mismatch.kind(), ErrorKind::TypeMismatch);
    assert!(
        !mismatch.to_string().contains("db.local"),
        "错误消息不得回显配置值"
    );

    let secret_mismatch = get_typed::<u16, _>(&store, "secret:token", "u16").unwrap_err();
    assert_eq!(secret_mismatch.kind(), ErrorKind::TypeMismatch);
    assert!(
        !secret_mismatch.to_string().contains("top-secret"),
        "错误消息不得回显敏感值"
    );
}

#[test]
fn ping_fails_when_no_source_is_loaded() {
    let mut store = ConfigxStore::new();
    assert!(!store.health_check().unwrap().healthy);
    let error = store.ping().unwrap_err();
    assert_eq!(error.kind(), ErrorKind::Unavailable);
    assert!(error.is_retryable());

    store.register_source(MemorySource::new());
    assert_eq!(store.source_count(), 1);
    assert!(store.ping().is_err());

    store.reload().unwrap();
    store.ping().expect("reload 之后必须恢复健康");
    assert_eq!(store.health_check().unwrap().sources, 1);
}

#[test]
fn store_debug_redacts_by_default_and_can_be_disabled() {
    let store = sample_store();
    let debug = store.debug_string();
    assert!(debug.contains("***"), "默认必须在 Debug 中脱敏：{debug}");
    assert!(!debug.contains("top-secret"));
    assert!(debug.contains("db.local"), "非敏感值应保持可读");

    let config = ConfigxConfig::builder()
        .redact_secrets(false)
        .build()
        .unwrap();
    let mut open = ConfigxStore::from_config(config).unwrap();
    open.register_source(MemorySource::from_pairs(&[("secret:token", "top-secret")]));
    open.reload().unwrap();
    assert!(
        open.debug_string().contains("top-secret"),
        "关闭脱敏后应输出原始值"
    );
}

#[test]
fn source_trait_is_object_safe_and_usable_as_dyn() {
    fn reload_via_alias(store: &mut ConfigxStore<dyn ConfigSource>) -> ConfigxResult<()> {
        store.reload()
    }

    let source: Arc<dyn ConfigSource> = Arc::new(MemorySource::from_pairs(&[("k", "v")]));
    let mut store = ConfigxStore::new();
    store.register_shared_source(source);
    reload_via_alias(&mut store).expect("reload 必须成功");
    assert_eq!(store.get("k"), Some("v"));
}

#[test]
fn assert_positioning() {
    let mut store = ConfigxStore::new();
    store.register_source(MemorySource::from_pairs(&[("app.port", "5432")]));
    store.reload().unwrap();

    assert_eq!(store.get("app.port"), Some("5432"));
    assert_eq!(get_typed::<u16, _>(&store, "app.port", "u16").unwrap(), 5432);

    let source: Arc<dyn ConfigSource> = Arc::new(MemorySource::from_pairs(&[("k", "v")]));
    let mut via_dyn = ConfigxStore::new();
    via_dyn.register_shared_source(source);
    via_dyn.reload().unwrap();
    assert_eq!(via_dyn.get("k"), Some("v"));

    assert_send_sync::<ConfigxStore>();
    assert_send_sync::<ConfigxConfig>();
}

#[test]
fn assert_data_and_key_governance() {
    let mut store = ConfigxStore::new();
    store.register_source(MemorySource::from_pairs(&[("Key", "upper"), ("key", "lower")]));
    store.reload().unwrap();
    assert_eq!(store.get("Key"), Some("upper"));
    assert_eq!(store.get("key"), Some("lower"));

    for bad in ["", "bad\nkey", "bad\u{1f}key"] {
        let mut candidate = ConfigxStore::new();
        candidate.register_source(MemorySource::from_pairs(&[("keep", "alive")]));
        candidate.reload().unwrap();
        candidate.register_source(MemorySource::from_pairs(&[(bad, "v")]));
        let error = candidate.reload().unwrap_err();
        assert_eq!(error.kind(), ErrorKind::Invalid, "键 {bad:?} 必须被拒绝");
        assert_eq!(candidate.get("keep"), Some("alive"), "失败不改状态");
    }

    let mut boundary = ConfigxStore::new();
    let at_limit = "k".repeat(512);
    boundary.register_source(MemorySource::from_pairs(&[(at_limit.as_str(), "ok")]));
    boundary.reload().expect("512 字节键合法");
    let mut too_long = ConfigxStore::new();
    let beyond = "k".repeat(513);
    too_long.register_source(MemorySource::from_pairs(&[(beyond.as_str(), "no")]));
    assert_eq!(
        too_long.reload().unwrap_err().kind(),
        ErrorKind::Invalid,
        "513 字节键必须被拒绝"
    );

    let mut ordered = ConfigxStore::new();
    ordered.register_source(MemorySource::from_pairs(&[("c", "3"), ("a", "1"), ("b", "2")]));
    ordered.reload().unwrap();
    let snapshot = ordered.snapshot();
    assert_eq!(
        snapshot.keys(),
        vec!["a".to_string(), "b".to_string(), "c".to_string()]
    );
    ordered.register_source(MemorySource::from_pairs(&[("d", "4")]));
    ordered.reload().unwrap();
    assert_eq!(snapshot.len(), 3, "已取得的快照视图不受后续 reload 影响");

    let mut layered = ConfigxStore::new();
    layered.register_source(MemorySource::from_pairs(&[("k", "low"), ("only_low", "1")]));
    layered.register_source(MemorySource::from_pairs(&[("k", "high")]));
    layered.reload().unwrap();
    assert_eq!(layered.get("k"), Some("high"));
    assert_eq!(layered.get("only_low"), Some("1"));

    let mut secret = ConfigxStore::new();
    secret.register_source(MemorySource::from_pairs(&[("secret:token", "top-secret")]));
    secret.reload().unwrap();
    assert_eq!(secret.get("secret:token"), Some("top-secret"));
    assert!(
        !secret.debug_string().contains("top-secret"),
        "Debug 必须脱敏"
    );
}

#[test]
fn assert_config_governance() {
    assert_eq!(ENV_REDACT_SECRETS, "FOUNDATIONX_CONFIGX_REDACT_SECRETS");
    assert_eq!(
        ENV_ALLOW_EMPTY_SNAPSHOT,
        "FOUNDATIONX_CONFIGX_ALLOW_EMPTY_SNAPSHOT"
    );

    let config = ConfigxConfig::builder()
        .redact_secrets(true)
        .allow_empty_snapshot(false)
        .build()
        .expect("build 必须校验");
    config.validate().expect("validate fail-fast 通过");

    let mut store = ConfigxStore::from_config(config).unwrap();
    store.register_source(MemorySource::new());
    assert_eq!(store.reload().unwrap_err().kind(), ErrorKind::Conflict);
    assert!(store.is_empty());
    assert_eq!(store.generation(), 0);
    store.register_source(MemorySource::from_pairs(&[("a", "1")]));
    store.reload().unwrap();
    assert_eq!(store.get("a"), Some("1"));

    let debug = format!("{:?}", ConfigxConfig::default());
    assert!(
        !debug.contains("access_key") && !debug.contains("password") && !debug.contains("token"),
        "配置 Debug 不含凭据字段：{debug}"
    );
    assert!(debug.contains("redact_secrets"));
    assert!(debug.contains("allow_empty_snapshot"));
}

#[test]
fn store_new_is_empty_and_unhealthy() {
    let store: ConfigxStore = ConfigxStore::new();
    assert_eq!(store.source_count(), 0);
    assert!(store.is_empty());
    assert_eq!(store.len(), 0);
    assert_eq!(store.generation(), 0);
    assert_eq!(store.get("any"), None);

    let health = store.health_check().unwrap();
    assert_eq!(health.sources, 0);
    assert!(!health.healthy);
}

#[test]
fn register_source_later_wins() {
    let mut store = ConfigxStore::new();
    store.register_source(MemorySource::from_pairs(&[("k", "low"), ("only_low", "1")]));
    store.register_source(MemorySource::from_pairs(&[("k", "high")]));
    assert_eq!(store.source_count(), 2);
    store.reload().unwrap();

    assert_eq!(store.get("k"), Some("high"));
    assert_eq!(store.get("only_low"), Some("1"), "低优先级独有键保留");
}

#[test]
fn reload_is_atomic_and_failure_preserving() {
    let mut store = ConfigxStore::<dyn ConfigSource>::new();
    store.register_shared_source(Arc::new(MemorySource::from_pairs(&[("a", "1")])));
    store.reload().unwrap();
    assert_eq!(store.generation(), 1);

    store.register_shared_source(Arc::new(MemorySource::from_pairs(&[("b", "2")])));
    store.reload().unwrap();
    assert_eq!(store.get("b"), Some("2"));
    assert_eq!(store.get("a"), Some("1"));
    assert_eq!(store.generation(), 2);

    let before = store.snapshot();
    store.register_shared_source(Arc::new(MissingFile(FileSource::new(
        "/no/such/configx-tdd.conf",
    ))));
    let error = store.reload().unwrap_err();
    assert_eq!(error.kind(), ErrorKind::Invalid);
    assert_eq!(store.snapshot(), before);
    assert_eq!(store.generation(), 2);

    let policy = ConfigxConfig::builder()
        .allow_empty_snapshot(false)
        .build()
        .unwrap();
    let mut strict = ConfigxStore::from_config(policy).unwrap();
    strict.register_source(MemorySource::new());
    let error = strict.reload().unwrap_err();
    assert_eq!(error.kind(), ErrorKind::Conflict);
    assert!(strict.is_empty());
    assert_eq!(strict.generation(), 0);
}

#[test]
fn ping_requires_a_loaded_source() {
    let mut store = ConfigxStore::new();
    let error = store.ping().unwrap_err();
    assert_eq!(error.kind(), ErrorKind::Unavailable);
    assert!(error.is_retryable(), "源暂不可用是唯一可安全重试的分类");

    store.register_source(MemorySource::new());
    assert!(store.ping().is_err());

    store.reload().unwrap();
    store.ping().expect("reload 之后必须恢复健康");
    assert_eq!(store.health_check().unwrap().sources, 1);
    assert!(store.health_check().unwrap().healthy);
}

#[test]
fn ping_message_counts_registered_and_loaded_sources() {
    let mut store = ConfigxStore::new();
    store.register_source(MemorySource::new());
    store.register_source(MemorySource::new());
    assert_eq!(
        store.ping().unwrap_err().to_string(),
        "配置源暂不可用: 没有已成功加载的配置源（已注册 2 个，已加载 0 个）"
    );
}

#[test]
fn typed_outcome_decides_missing_mismatch_and_value() {
    let missing = typed_outcome::<u16>("k", "u16", None, None).unwrap_err();
    assert_eq!(missing.to_string(), "缺失配置: 配置键不存在：k");
    let mismatch = typed_outcome::<u16>("k", "u16", Some("abc"), None).unwrap_err();
    assert_eq!(
        mismatch.to_string(),
        "类型不匹配: 配置键 k 的值无法转换为类型 u16"
    );
    assert_eq!(typed_outcome("k", "u16", Some("7"), Some(7u16)).unwrap(), 7);
}

#[test]
fn store_description_lists_counts_and_sorted_entries() {
    let mut store = ConfigxStore::new();
    store.register_source(MemorySource::from_pairs(&[("z", "1"), ("secret:t", "s"), ("a", "2")]));
    store.reload().unwrap();
    assert_eq!(
        store.debug_string(),
        r#"ConfigxStore { sources: 1, loaded_sources: 1, generation: 1, entries: {"a": "2", "secret:t": "***", "z": "1"} }"#
    );
    let with = ConfigxStore::new().with_source(MemorySource::from_pairs(&[("c", "1")]));
    assert_eq!(with.source_count(), 1);
    assert!(with.is_empty());
    assert!(with.config().redact_secrets);
}

/// A source whose entries can be changed between loads.
struct Changing(std::sync::Mutex<ConfigMap>);

impl ConfigSource for Changing {
    fn load(&self) -> ConfigxResult<ConfigMap> {
        Ok(self.0.lock().unwrap().clone())
    }
}

#[test]
fn reload_replaces_the_snapshot_as_a_whole() {
    let source = Arc::new(Changing(std::sync::Mutex::new(ConfigMap::from_pairs(&[("A", "1")]))));
    let mut store = ConfigxStore::<Changing>::new();
    store.register_shared_source(Arc::clone(&source));
    store.reload().unwrap();
    assert_eq!(store.get("A"), Some("1"));

    *source.0.lock().unwrap() = ConfigMap::from_pairs(&[("B", "2")]);
    store.reload().unwrap();
    assert_eq!(store.get("B"), Some("2"));
    assert_eq!(store.get("A"), None);
    assert_eq!(store.len(), 1);
    assert_eq!(store.generation(), 2);
    assert_eq!(store.health_check().unwrap().keys, 1);
}

/// A global file source over given file contents.
struct GlobalFileText(GlobalFileSource, String);

impl ConfigSource for GlobalFileText {
    fn load(&self) -> ConfigxResult<ConfigMap> {
        self.0.load_text(FileRead::Text(self.1.clone()))
    }
}

#[test]
fn global_file_then_memory_overrides() {
    let mut store = ConfigxStore::<dyn ConfigSource>::new();
    store.register_shared_source(Arc::new(GlobalFileText(
        GlobalFileSource::new("/tmp/configx-layered-global"),
        "k=file\nonly_file=1\n".to_string(),
    )));
    store.register_shared_source(Arc::new(MemorySource::from_pairs(&[("k", "mem")])));
    store.reload().unwrap();
    assert_eq!(store.get("k"), Some("mem"));
    assert_eq!(store.get("only_file"), Some("1"));
}
