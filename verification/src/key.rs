//! Validation of configuration keys: the one gate at the schema boundary.
//!
//! Keys are neither case-folded nor split nor otherwise normalised: a key is
//! stored and looked up exactly as written. Only keys that are certain to be
//! ambiguous are refused.

use vstd::prelude::*;
use vstd::utf8::encode_utf8;

use crate::error::{error_is, ConfigxError, ConfigxResult, ErrorKind};

verus! {

/// Upper bound on the UTF-8 length of a key, in bytes.
pub const MAX_KEY_BYTES: usize = 512;

/// Unicode control characters (general category `Cc`, what `char::is_control` accepts).
pub open spec fn is_control(c: char) -> bool {
    (c as u32) < 0x20 || (0x7f <= (c as u32) && (c as u32) < 0xa0)
}

/// Whether some character of `s` is a control character.
pub open spec fn has_control(s: Seq<char>) -> bool {
    exists|i: int| 0 <= i < s.len() && is_control(#[trigger] s[i])
}

/// A key is acceptable when it is not empty, holds no control character and
/// takes at most 512 bytes in UTF-8.
pub open spec fn key_is_valid(k: Seq<char>) -> bool {
    &&& k.len() > 0
    &&& !has_control(k)
    &&& encode_utf8(k).len() <= MAX_KEY_BYTES
}

/// The message of the error that refuses key `k`; the first rule it breaks decides.
pub open spec fn key_error_message(k: Seq<char>) -> Seq<char> {
    if k.len() == 0 {
        "配置键不能为空"@
    } else if has_control(k) {
        "配置键不能包含控制字符"@
    } else {
        "配置键长度超过 512 字节"@
    }
}

/// Whether `c` is a Unicode control character.
pub(crate) fn char_is_control(c: char) -> (r: bool)
    ensures
        r == is_control(c),
{
    let u = c as u32;
    u < 0x20 || (0x7f <= u && u < 0xa0)
}

/// Whether `s` holds a Unicode control character.
pub(crate) fn contains_control(s: &str) -> (r: bool)
    ensures
        r == has_control(s@),
{
    let mut found = false;
    for c in it: s.chars()
        invariant
            it.seq() == s@,
            found == exists|i: int| 0 <= i < it.index() && is_control(#[trigger] s@[i]),
    {
        if char_is_control(c) {
            found = true;
        }
    }
    found
}

/// Checks that a configuration key is acceptable: not empty, free of control
/// characters and at most 512 bytes long in UTF-8.
pub fn validate_key(key: &str) -> (r: ConfigxResult<()>)
    ensures
        r is Ok <==> key_is_valid(key@),
        r matches Err(e) ==> error_is(e, ErrorKind::Invalid, key_error_message(key@)),
{
    if key.is_empty() {
        return Err(ConfigxError::invalid("配置键不能为空"));
    }
    if contains_control(key) {
        return Err(ConfigxError::invalid("配置键不能包含控制字符"));
    }
    if key.as_bytes().len() > MAX_KEY_BYTES {
        return Err(ConfigxError::invalid("配置键长度超过 512 字节"));
    }
    Ok(())
}

} // verus!
