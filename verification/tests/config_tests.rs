//! Settings, their builder, environment switches and TOML positions.

use configx::config::{
    describe_toml_failure, describe_toml_position, line_and_column, parse_bool, read_env,
};
use std::collections::HashMap;

use configx::{
    ConfigxConfig, ConfigxConfigBuilder, ConfigxError, ConfigxResult, EnvValue, ErrorKind,
    ENV_ALLOW_EMPTY_SNAPSHOT, ENV_GLOBAL_FILE, ENV_REDACT_SECRETS,
};

/// Settings from TOML text: the two switches over their defaults; a failure of
/// the parser is described by its position only.
fn settings_from_toml(text: &str) -> ConfigxResult<ConfigxConfig> {
    let table: HashMap<String, bool> = toml::from_str(text)
        .map_err(|error| ConfigxError::parse(&describe_toml_failure(text, &error)))?;
    let mut config = ConfigxConfig::default();
    if let Some(value) = table.get("redact_secrets") {
        config.redact_secrets = *value;
    }
    if let Some(value) = table.get("allow_empty_snapshot") {
        config.allow_empty_snapshot = *value;
    }
    config.validate()?;
    Ok(config)
}

fn settings_to_toml(config: &ConfigxConfig) -> String {
    let mut table = HashMap::new();
    table.insert("redact_secrets".to_string(), config.redact_secrets);
    table.insert("allow_empty_snapshot".to_string(), config.allow_empty_snapshot);
    toml::to_string(&table).unwrap()
}

fn set(value: &str) -> EnvValue {
    EnvValue::Present(value.to_string())
}

#[test]
fn defaults_enable_redaction_and_empty_snapshots() {
    let config = ConfigxConfig::default();
    assert!(config.redact_secrets);
    assert!(config.allow_empty_snapshot);
    config.validate().expect("默认配置必须通过校验");
}

#[test]
fn builder_starts_from_defaults_and_overrides_fields() {
    let built = ConfigxConfigBuilder::new().build().expect("构建成功");
    assert_eq!(built, ConfigxConfig::default());
    assert_eq!(
        ConfigxConfig::builder().build().expect("构建成功"),
        ConfigxConfig::default(),
        "builder() 与 new() 起点一致"
    );

    let overridden = ConfigxConfig::builder()
        .redact_secrets(false)
        .allow_empty_snapshot(false)
        .build()
        .expect("构建成功");
    assert!(!overridden.redact_secrets);
    assert!(!overridden.allow_empty_snapshot);
}

#[test]
fn validate_accepts_every_boolean_combination() {
    for redact in [true, false] {
        for allow in [true, false] {
            let config = ConfigxConfig::builder()
                .redact_secrets(redact)
                .allow_empty_snapshot(allow)
                .build()
                .expect("布尔字段无取值约束");
            assert_eq!(config.redact_secrets, redact);
            assert_eq!(config.allow_empty_snapshot, allow);
            config.validate().expect("恒为通过");
        }
    }
}

#[test]
fn line_and_column_maps_offsets_to_1_based_positions() {
    let text = "a\nbb\nccc\n";
    assert_eq!(line_and_column(text, 0), (1, 1));
    assert_eq!(line_and_column(text, 2), (2, 1));
    assert_eq!(line_and_column(text, 5), (3, 1));
    assert_eq!(line_and_column(text, 8), (3, 4), "第三行末尾（换行符前）");
    assert_eq!(line_and_column(text, 9), (4, 1), "文本末尾之后");

    assert_eq!(line_and_column("中=1", 3), (1, 2));
    assert_eq!(line_and_column("中", 1), (1, 1));
    assert_eq!(line_and_column("中", 99), (1, 2));
}

#[test]
fn parse_bool_accepts_documented_aliases_case_insensitively() {
    for value in ["1", "true", "TRUE", "True", "yes", "YES", "on", "ON"] {
        assert!(
            parse_bool(ENV_REDACT_SECRETS, value).expect("真值别名"),
            "{value}"
        );
    }
    for value in ["0", "false", "FALSE", "False", "no", "NO", "off", "OFF"] {
        assert!(
            !parse_bool(ENV_REDACT_SECRETS, value).expect("假值别名"),
            "{value}"
        );
    }
}

#[test]
fn parse_bool_rejects_unknown_values_without_echoing_them() {
    for value in ["maybe", "2", "", "enabled", " yes"] {
        let error = parse_bool(ENV_REDACT_SECRETS, value).expect_err("非法布尔值必须报错");
        assert_eq!(error.kind(), ErrorKind::Invalid, "值：{value:?}");
        let rendered = error.to_string();
        assert!(
            rendered.contains(ENV_REDACT_SECRETS),
            "应报告变量名：{rendered}"
        );
        if !value.is_empty() {
            assert!(!rendered.contains(value), "不得回显原始值：{rendered}");
        }
    }
}

#[test]
fn read_env_treats_absent_and_blank_as_unset() {
    const PROBE: &str = "CONFIGX_TEST_READ_ENV_PROBE";
    assert!(read_env(PROBE, EnvValue::NotPresent)
        .expect("未设置不是错误")
        .is_none());
    assert!(read_env(PROBE, set("   \t "))
        .expect("仅空白视为未设置")
        .is_none());
    assert_eq!(
        read_env(PROBE, set("  value  ")).expect("读取成功").as_deref(),
        Some("value")
    );
    let error = read_env(PROBE, EnvValue::NotUnicode).expect_err("非 Unicode 必须报错");
    assert_eq!(error.kind(), ErrorKind::Invalid);
    assert_eq!(
        error.to_string(),
        "配置无效: 环境变量不是有效 Unicode：CONFIGX_TEST_READ_ENV_PROBE"
    );
}

#[test]
fn defaults_are_valid_and_documented() {
    let config = ConfigxConfig::default();
    assert!(config.redact_secrets);
    assert!(config.allow_empty_snapshot);
    config.validate().expect("默认配置必须合法");

    let built = ConfigxConfigBuilder::new().build().unwrap();
    assert_eq!(built, config);
    assert_eq!(ConfigxConfig::builder().build().unwrap(), config);
}

#[test]
fn builder_overrides_fields() {
    let config = ConfigxConfig::builder()
        .redact_secrets(false)
        .allow_empty_snapshot(false)
        .build()
        .unwrap();
    assert!(!config.redact_secrets);
    assert!(!config.allow_empty_snapshot);
    config.validate().expect("布尔字段无取值约束，校验必须通过");
}

#[test]
fn from_env_reads_prefixed_variables_and_rejects_bad_values() {
    let unset = || EnvValue::NotPresent;
    assert_eq!(
        ConfigxConfig::from_env(unset(), unset()).unwrap(),
        ConfigxConfig::default()
    );

    let config = ConfigxConfig::from_env(set("off"), set("YES")).unwrap();
    assert!(!config.redact_secrets);
    assert!(config.allow_empty_snapshot);

    assert!(
        ConfigxConfig::from_env(set("   "), set("YES"))
            .unwrap()
            .redact_secrets
    );

    let error = ConfigxConfig::from_env(set("maybe"), set("YES")).unwrap_err();
    assert_eq!(error.kind(), ErrorKind::Invalid);
    assert!(!error.to_string().contains("maybe"));

    let error = ConfigxConfig::from_env(unset(), set("1.5")).unwrap_err();
    assert_eq!(error.kind(), ErrorKind::Invalid);
    assert!(!error.to_string().contains("1.5"));

    assert_eq!(
        ConfigxConfig::from_env(unset(), unset()).unwrap(),
        ConfigxConfig::default()
    );
}

#[test]
fn from_env_reads_prefixed_switches() {
    assert_eq!(
        ConfigxConfig::from_env(EnvValue::NotPresent, EnvValue::NotPresent).unwrap(),
        ConfigxConfig::default()
    );

    let config = ConfigxConfig::from_env(set("off"), set("YES")).unwrap();
    assert!(!config.redact_secrets, "off 必须映射为 false");
    assert!(
        config.allow_empty_snapshot,
        "YES 必须映射为 true（忽略大小写）"
    );

    assert!(
        ConfigxConfig::from_env(set("   "), set("YES"))
            .unwrap()
            .redact_secrets
    );

    let error = ConfigxConfig::from_env(set("maybe"), set("YES")).unwrap_err();
    assert_eq!(error.kind(), ErrorKind::Invalid);
    assert!(!error.to_string().contains("maybe"), "不得回显原始值");

    assert_eq!(
        ConfigxConfig::from_env(EnvValue::NotPresent, EnvValue::NotPresent).unwrap(),
        ConfigxConfig::default()
    );
}

#[test]
fn from_env_reports_the_first_refused_variable() {
    let error = ConfigxConfig::from_env(set("nope"), set("also-nope")).unwrap_err();
    assert_eq!(
        error.to_string(),
        "配置无效: 环境变量 FOUNDATIONX_CONFIGX_REDACT_SECRETS 不是合法布尔值：期望 true/false、yes/no、on/off 或 1/0"
    );
    let error = ConfigxConfig::from_env(EnvValue::NotPresent, EnvValue::NotUnicode).unwrap_err();
    assert_eq!(
        error.to_string(),
        "配置无效: 环境变量不是有效 Unicode：FOUNDATIONX_CONFIGX_ALLOW_EMPTY_SNAPSHOT"
    );
}

#[test]
fn validate_is_total_over_boolean_fields() {
    ConfigxConfig::default().validate().expect("默认配置合法");
    let toggled = ConfigxConfig::builder()
        .redact_secrets(false)
        .allow_empty_snapshot(false)
        .build()
        .unwrap();
    assert!(!toggled.redact_secrets);
    assert!(!toggled.allow_empty_snapshot);
    toggled.validate().expect("布尔字段无取值约束");
}

#[test]
fn environment_variable_names_are_stable() {
    assert_eq!(ENV_REDACT_SECRETS, "FOUNDATIONX_CONFIGX_REDACT_SECRETS");
    assert_eq!(
        ENV_ALLOW_EMPTY_SNAPSHOT,
        "FOUNDATIONX_CONFIGX_ALLOW_EMPTY_SNAPSHOT"
    );
    assert_eq!(ENV_GLOBAL_FILE, "FOUNDATIONX_CONFIGX_GLOBAL_FILE");
}

#[test]
fn toml_failures_report_a_position_only() {
    assert_eq!(
        describe_toml_position("redact_secrets = \"leak\"\n", Some(17)),
        "TOML 解析失败：第 1 行第 18 列"
    );
    assert_eq!(
        describe_toml_position("a = 1\nredact_secrets = \n", Some(23)),
        "TOML 解析失败：第 2 行第 18 列"
    );
    assert_eq!(
        describe_toml_position("whatever", None),
        "TOML 解析失败：文档格式不合法"
    );
}

#[test]
fn a_parser_failure_is_described_without_the_document_text() {
    let text = "a = 1\nsecret = \"top-secret-value\"\nb = \n";
    let error = toml::from_str::<toml::Table>(text).unwrap_err();
    let message = describe_toml_failure(text, &error);
    assert!(message.starts_with("TOML 解析失败："), "{message}");
    assert!(!message.contains("top-secret-value"), "{message}");
    assert!(!message.contains("b ="), "{message}");
    assert!(message.contains("第 3 行"), "{message}");
}

#[test]
fn from_toml_uses_per_field_defaults() {
    let partial = settings_from_toml("redact_secrets = false\n").expect("解析成功");
    assert!(!partial.redact_secrets);
    assert!(partial.allow_empty_snapshot, "未出现的字段回落到默认值");

    assert_eq!(
        settings_from_toml("").expect("空文本解析成功"),
        ConfigxConfig::default()
    );

    let full = settings_from_toml("redact_secrets = false\nallow_empty_snapshot = false\n")
        .expect("解析成功");
    assert_eq!(
        full,
        ConfigxConfig::builder()
            .redact_secrets(false)
            .allow_empty_snapshot(false)
            .build()
            .expect("构建成功")
    );
}

#[test]
fn from_toml_classifies_syntax_and_type_errors_as_parse() {
    for text in ["redact_secrets = ", "redact_secrets = \"yes\"", "= 1"] {
        let error = settings_from_toml(text).expect_err("必须报解析失败");
        assert_eq!(error.kind(), ErrorKind::Parse, "文本：{text:?}");
        assert!(error.to_string().starts_with("解析失败: "), "{}", error.to_string());
    }
}

#[test]
fn from_toml_parse_error_reports_position_without_value_or_source() {
    let probe = "MARKER_LEAK_PROBE";
    let error = settings_from_toml(&format!("redact_secrets = \"{probe}\"\n"))
        .expect_err("类型错误必须报错");
    assert_eq!(error.kind(), ErrorKind::Parse);
    let rendered = error.to_string();
    assert!(!rendered.contains(probe), "不得回显配置值：{rendered}");
    assert!(
        !rendered.contains("redact_secrets ="),
        "不得回显源码行：{rendered}"
    );
    assert!(!rendered.contains(" |"), "不得渲染行号块：{rendered}");
    assert!(rendered.contains("第 1 行"), "应保留位置信息：{rendered}");
}

#[test]
fn syntax_error_also_omits_value_and_reports_position() {
    let error = settings_from_toml("redact_secrets = \n").expect_err("语法错误必须报错");
    assert_eq!(error.kind(), ErrorKind::Parse);
    let rendered = error.to_string();
    assert!(
        rendered.starts_with("解析失败: TOML 解析失败："),
        "{rendered}"
    );
    assert!(rendered.contains("第 1 行"), "应保留位置信息：{rendered}");
}

#[test]
fn from_toml_accepts_partial_and_rejects_bad_input() {
    let full = settings_from_toml(
        r#"
redact_secrets = false
allow_empty_snapshot = false
"#,
    )
    .unwrap();
    assert!(!full.redact_secrets);
    assert!(!full.allow_empty_snapshot);

    let partial = settings_from_toml("redact_secrets = false\n").unwrap();
    assert!(!partial.redact_secrets);
    assert!(partial.allow_empty_snapshot);

    let empty = settings_from_toml("").unwrap();
    assert_eq!(empty, ConfigxConfig::default());

    let syntax_error = settings_from_toml("redact_secrets = ").unwrap_err();
    assert_eq!(syntax_error.kind(), ErrorKind::Parse);

    let wrong_type = settings_from_toml("redact_secrets = \"yes\"").unwrap_err();
    assert_eq!(wrong_type.kind(), ErrorKind::Parse);

    let wrong_type = settings_from_toml("allow_empty_snapshot = 1").unwrap_err();
    assert_eq!(wrong_type.kind(), ErrorKind::Parse);
}

#[test]
fn config_round_trips_through_toml() {
    let settings = ConfigxConfig::builder()
        .redact_secrets(false)
        .allow_empty_snapshot(false)
        .build()
        .unwrap();
    let text = settings_to_toml(&settings);
    let restored = settings_from_toml(&text).unwrap();
    assert_eq!(restored, settings);
}

#[test]
fn config_error_messages_use_expected_prefixes() {
    let error: ConfigxError = settings_from_toml("=").unwrap_err();
    assert!(
        error.to_string().starts_with("解析失败: "),
        "实际消息：{}",
        error.to_string()
    );
}

#[test]
fn from_toml_partial_and_fail_fast() {
    let partial = settings_from_toml("redact_secrets = false\n").unwrap();
    assert!(!partial.redact_secrets);
    assert!(partial.allow_empty_snapshot, "缺省字段取默认值而不是零值");

    assert_eq!(settings_from_toml("").unwrap(), ConfigxConfig::default());

    let syntax = settings_from_toml("redact_secrets = ").unwrap_err();
    assert_eq!(syntax.kind(), ErrorKind::Parse);
    let wrong_type = settings_from_toml("allow_empty_snapshot = 1").unwrap_err();
    assert_eq!(wrong_type.kind(), ErrorKind::Parse);
}
