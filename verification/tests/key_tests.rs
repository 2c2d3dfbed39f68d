//! The key rules: not empty, no control character, at most 512 bytes.

use configx::key::MAX_KEY_BYTES;
use configx::{validate_key, ConfigxError, ErrorKind};

#[test]
fn accepts_ordinary_keys_without_normalizing() {
    assert!(matches!(validate_key("app.host"), Ok(())));
    assert!(matches!(validate_key("A-b_c/9"), Ok(())));
    assert!(matches!(validate_key("a b"), Ok(())));
    assert!(matches!(validate_key("中文键"), Ok(())));
}

#[test]
fn rejects_empty_key() {
    let error = validate_key("").expect_err("空键必须被拒绝");
    assert_eq!(error.kind(), ErrorKind::Invalid);
    assert!(matches!(error, ConfigxError::Invalid(_)));
    assert!(
        error.to_string().contains("不能为空"),
        "实际消息：{}",
        error.to_string()
    );
}

#[test]
fn rejects_keys_with_control_characters() {
    for key in ["a\nb", "a\rb", "a\tb", "a\u{7}b"] {
        let error = validate_key(key).expect_err("控制字符必须被拒绝");
        assert_eq!(error.kind(), ErrorKind::Invalid);
        assert!(
            error.to_string().contains("控制字符"),
            "键 {key:?} 的实际消息：{}",
            error.to_string()
        );
    }
}

#[test]
fn accepts_key_at_byte_limit_and_rejects_beyond() {
    let at_limit = "a".repeat(MAX_KEY_BYTES);
    assert!(matches!(validate_key(&at_limit), Ok(())));

    let beyond = "a".repeat(MAX_KEY_BYTES + 1);
    let error = validate_key(&beyond).expect_err("超长键必须被拒绝");
    assert_eq!(error.kind(), ErrorKind::Invalid);
    assert!(
        error.to_string().contains("512"),
        "实际消息：{}",
        error.to_string()
    );
}

#[test]
fn length_limit_counts_utf8_bytes_not_characters() {
    assert!(matches!(validate_key(&"字".repeat(170)), Ok(())));
    let error = validate_key(&"字".repeat(171)).expect_err("按字节超限必须被拒绝");
    assert_eq!(error.kind(), ErrorKind::Invalid);
}

#[test]
fn first_broken_rule_decides_the_message() {
    // A key that is both too long and holds a control character is refused for the character.
    let key = format!("{}\n", "a".repeat(600));
    let error = validate_key(&key).expect_err("must be refused");
    assert_eq!(error.to_string(), "配置无效: 配置键不能包含控制字符");
    assert_eq!(
        validate_key("").unwrap_err().to_string(),
        "配置无效: 配置键不能为空"
    );
    assert_eq!(
        validate_key(&"b".repeat(513)).unwrap_err().to_string(),
        "配置无效: 配置键长度超过 512 字节"
    );
    // DEL and C1 controls count as control characters too.
    assert!(validate_key("a\u{7f}").is_err());
    assert!(validate_key("a\u{85}").is_err());
    assert!(validate_key("a\u{a0}").is_ok());
}
