//! Where the optional global configuration file lies.

use vstd::prelude::*;
use vstd::utf8::encode_utf8;

use crate::error::{error_is, ConfigxError, ConfigxResult, ErrorKind};
use crate::key::{contains_control, has_control};
use crate::source::EnvText;
use crate::text::{chars_of, same_chars, trim, trimmed};

verus! {

/// Upper bound on the UTF-8 length of an application id, in bytes.
pub const MAX_APP_ID_BYTES: usize = 64;

/// Whether `s` holds two dots in a row.
pub open spec fn has_double_dot(s: Seq<char>) -> bool {
    exists|i: int| 0 <= i < s.len() - 1 && #[trigger] s[i] == '.' && s[i + 1] == '.'
}

/// Why an application id is refused, the first rule it breaks deciding: it
/// must not be empty, longer than 64 bytes, hold a control character, a path
/// separator or `..`.
pub open spec fn app_id_error(a: Seq<char>) -> Option<Seq<char>> {
    if a.len() == 0 {
        Some("app_id 不能为空"@)
    } else if encode_utf8(a).len() > MAX_APP_ID_BYTES {
        Some("app_id 长度超过 64 字节"@)
    } else if has_control(a) {
        Some("app_id 不能包含控制字符"@)
    } else if a.contains('/') || a.contains('\\') {
        Some("app_id 不能包含路径分隔符"@)
    } else if has_double_dot(a) {
        Some("app_id 不能包含 .."@)
    } else {
        None
    }
}

/// Whether `c` occurs in `v`.
fn has_char(v: &Vec<char>, c: char) -> (r: bool)
    ensures
        r == v@.contains(c),
{
    let mut i: usize = 0;
    while i < v.len()
        invariant
            i <= v@.len(),
            forall|j: int| 0 <= j < i ==> v@[j] != c,
        decreases v@.len() - i,
    {
        if v[i] == c {
            assert(v@[i as int] == c);
            return true;
        }
        i = i + 1;
    }
    false
}

/// Whether `v` holds two dots in a row.
fn has_dot_pair(v: &Vec<char>) -> (r: bool)
    ensures
        r == has_double_dot(v@),
{
    let mut i: usize = 0;
    while i < v.len()
        invariant
            i <= v@.len(),
            forall|j: int| 0 <= j < i && j < v@.len() - 1 ==> !(#[trigger] v@[j] == '.' && v@[j + 1] == '.'),
        decreases v@.len() - i,
    {
        if i + 1 < v.len() && v[i] == '.' && v[i + 1] == '.' {
            return true;
        }
        i = i + 1;
    }
    false
}

/// Checks an application id before it becomes part of a path.
pub fn validate_app_id(app_id: &str) -> (r: ConfigxResult<()>)
    ensures
        match app_id_error(app_id@) {
            None => r is Ok,
            Some(m) => r matches Err(e) && error_is(e, ErrorKind::Invalid, m),
        },
{
    if app_id.is_empty() {
        return Err(ConfigxError::invalid("app_id 不能为空"));
    }
    if app_id.as_bytes().len() > MAX_APP_ID_BYTES {
        return Err(ConfigxError::invalid("app_id 长度超过 64 字节"));
    }
    if contains_control(app_id) {
        return Err(ConfigxError::invalid("app_id 不能包含控制字符"));
    }
    let v = chars_of(app_id);
    if has_char(&v, '/') || has_char(&v, '\\') {
        return Err(ConfigxError::invalid("app_id 不能包含路径分隔符"));
    }
    if has_dot_pair(&v) {
        return Err(ConfigxError::invalid("app_id 不能包含 .."));
    }
    Ok(())
}

/// The value of variable `name` among raw variables: the last one with that
/// name wins, and variables that are not valid Unicode are skipped.
pub open spec fn env_lookup(vars: Seq<(EnvText, EnvText)>, name: Seq<char>) -> Option<Seq<char>>
    decreases vars.len(),
{
    if vars.len() == 0 {
        None
    } else {
        match vars.last() {
            (EnvText::Unicode(k), EnvText::Unicode(v)) => if k@ == name {
                Some(v@)
            } else {
                env_lookup(vars.drop_last(), name)
            },
            _ => env_lookup(vars.drop_last(), name),
        }
    }
}

/// The trimmed value of `name`, when it is set and not blank.
pub open spec fn env_setting(vars: Seq<(EnvText, EnvText)>, name: Seq<char>) -> Option<Seq<char>> {
    match env_lookup(vars, name) {
        Some(v) => if trim(v).len() > 0 {
            Some(trim(v))
        } else {
            None
        },
        None => None,
    }
}

/// Message when no root for the global file can be found.
pub const GLOBAL_PATH_UNRESOLVED: &'static str = "无法解析全局配置文件路径：未设置覆盖变量且缺少 XDG_CONFIG_HOME 与 HOME";

/// Where the global file lies: a root directory and the path components below
/// it, in order.
#[derive(Debug, Clone, PartialEq, Eq)]
pub struct GlobalPathParts {
    /// The root: the override, `XDG_CONFIG_HOME` or `HOME`.
    pub root: String,
    /// The components to join below the root.
    pub components: Vec<String>,
}

/// Where the global file lies, or why that cannot be told.
pub enum GlobalPathSpec {
    /// A root and the components below it.
    Found(Seq<char>, Seq<Seq<char>>),
    /// The message of the error.
    Refused(Seq<char>),
}

/// The rules for the path of the global file: the override variable, when set
/// and not blank, is the path; otherwise the application id is checked and the
/// path is `{XDG_CONFIG_HOME}/{app_id}/config`, or else
/// `{HOME}/.config/{app_id}/config`. Values are trimmed.
pub open spec fn global_path_spec(app_id: Seq<char>, vars: Seq<(EnvText, EnvText)>) -> GlobalPathSpec {
    match env_setting(vars, crate::config::ENV_GLOBAL_FILE@) {
        Some(path) => GlobalPathSpec::Found(path, Seq::empty()),
        None => match app_id_error(app_id) {
            Some(m) => GlobalPathSpec::Refused(m),
            None => match env_setting(vars, "XDG_CONFIG_HOME"@) {
                Some(xdg) => GlobalPathSpec::Found(xdg, seq![app_id, "config"@]),
                None => match env_setting(vars, "HOME"@) {
                    Some(home) => GlobalPathSpec::Found(home, seq![".config"@, app_id, "config"@]),
                    None => GlobalPathSpec::Refused(GLOBAL_PATH_UNRESOLVED@),
                },
            },
        },
    }
}

/// The override variable, when it is set and not blank, is the path, whatever
/// the application id and the other variables are.
pub proof fn lemma_override_is_the_path(app_id: Seq<char>, vars: Seq<(EnvText, EnvText)>, v: Seq<char>)
    requires
        env_lookup(vars, crate::config::ENV_GLOBAL_FILE@) == Some(v),
        trim(v).len() > 0,
    ensures
        global_path_spec(app_id, vars) == GlobalPathSpec::Found(trim(v), Seq::<Seq<char>>::empty()),
{
}

/// Without a usable override, an unacceptable application id is refused with
/// the message of the first rule it breaks, whatever the other variables are.
pub proof fn lemma_bad_app_id_is_refused(app_id: Seq<char>, vars: Seq<(EnvText, EnvText)>, m: Seq<char>)
    requires
        env_lookup(vars, crate::config::ENV_GLOBAL_FILE@) matches Some(v) ==> trim(v).len() == 0,
        app_id_error(app_id) == Some(m),
    ensures
        global_path_spec(app_id, vars) == GlobalPathSpec::Refused(m),
{
}

/// Without a usable override and with an acceptable application id, a set,
/// non-blank `XDG_CONFIG_HOME` decides: the file is `{XDG_CONFIG_HOME}/{app_id}/config`,
/// its value trimmed, whatever `HOME` holds.
pub proof fn lemma_xdg_comes_before_home(app_id: Seq<char>, vars: Seq<(EnvText, EnvText)>, x: Seq<char>)
    requires
        env_lookup(vars, crate::config::ENV_GLOBAL_FILE@) matches Some(v) ==> trim(v).len() == 0,
        app_id_error(app_id) is None,
        env_lookup(vars, "XDG_CONFIG_HOME"@) == Some(x),
        trim(x).len() > 0,
    ensures
        global_path_spec(app_id, vars) == GlobalPathSpec::Found(trim(x), seq![app_id, "config"@]),
{
}

/// `HOME` is used only when `XDG_CONFIG_HOME` is unset or blank: then a set,
/// non-blank `HOME` gives `{HOME}/.config/{app_id}/config`, its value trimmed.
pub proof fn lemma_home_when_no_xdg(app_id: Seq<char>, vars: Seq<(EnvText, EnvText)>, h: Seq<char>)
    requires
        env_lookup(vars, crate::config::ENV_GLOBAL_FILE@) matches Some(v) ==> trim(v).len() == 0,
        app_id_error(app_id) is None,
        env_lookup(vars, "XDG_CONFIG_HOME"@) matches Some(x) ==> trim(x).len() == 0,
        env_lookup(vars, "HOME"@) == Some(h),
        trim(h).len() > 0,
    ensures
        global_path_spec(app_id, vars) == GlobalPathSpec::Found(trim(h), seq![".config"@, app_id, "config"@]),
{
}

/// With no usable override, `XDG_CONFIG_HOME` or `HOME`, an acceptable
/// application id still gives no path: the lookup is refused.
pub proof fn lemma_no_root_is_refused(app_id: Seq<char>, vars: Seq<(EnvText, EnvText)>)
    requires
        env_lookup(vars, crate::config::ENV_GLOBAL_FILE@) matches Some(v) ==> trim(v).len() == 0,
        app_id_error(app_id) is None,
        env_lookup(vars, "XDG_CONFIG_HOME"@) matches Some(x) ==> trim(x).len() == 0,
        env_lookup(vars, "HOME"@) matches Some(h) ==> trim(h).len() == 0,
    ensures
        global_path_spec(app_id, vars) == GlobalPathSpec::Refused(GLOBAL_PATH_UNRESOLVED@),
{
}

/// The last variable with a name decides its value: a variable appended with
/// a valid name and value is what the lookup of that name gives, whatever came
/// before.
pub proof fn lemma_last_variable_wins(vars: Seq<(EnvText, EnvText)>, k: String, v: String)
    ensures
        env_lookup(vars.push((EnvText::Unicode(k), EnvText::Unicode(v))), k@) == Some(v@),
{
    assert(vars.push((EnvText::Unicode(k), EnvText::Unicode(v))).last() == (EnvText::Unicode(k), EnvText::Unicode(v)));
}

/// The value of variable `name` among raw variables, as `env_lookup` says.
fn lookup_env(vars: &[(EnvText, EnvText)], name: &str) -> (r: Option<String>)
    ensures
        match env_lookup(vars@, name@) {
            Some(v) => r matches Some(s) && s@ == v,
            None => r is None,
        },
{
    let name_chars = chars_of(name);
    let mut found: Option<String> = None;
    let mut i: usize = 0;
    while i < vars.len()
        invariant
            i <= vars@.len(),
            name_chars@ == name@,
            match env_lookup(vars@.take(i as int), name@) {
                Some(v) => found matches Some(s) && s@ == v,
                None => found is None,
            },
        decreases vars@.len() - i,
    {
        assert(vars@.take(i + 1).drop_last() == vars@.take(i as int));
        assert(vars@.take(i + 1).last() == vars@[i as int]);
        match &vars[i] {
            (EnvText::Unicode(k), EnvText::Unicode(v)) => {
                if same_chars(&name_chars, k.as_str()) {
                    found = Some(v.clone());
                }
            },
            _ => {},
        }
        i = i + 1;
    }
    assert(vars@.take(i as int) == vars@);
    found
}

/// The trimmed value of `name`, when it is set and not blank.
fn setting_of(vars: &[(EnvText, EnvText)], name: &str) -> (r: Option<String>)
    ensures
        match env_setting(vars@, name@) {
            Some(v) => r matches Some(s) && s@ == v,
            None => r is None,
        },
{
    match lookup_env(vars, name) {
        Some(raw) => {
            let t = trimmed(raw.as_str());
            if t.as_str().is_empty() {
                None
            } else {
                Some(t)
            }
        },
        None => None,
    }
}

/// Where the global configuration file lies, from the given raw environment
/// variables (later ones win; those that are not valid Unicode are skipped).
///
/// A set, non-blank `FOUNDATIONX_CONFIGX_GLOBAL_FILE` is the path. Otherwise
/// `app_id` is checked, and the file is `{XDG_CONFIG_HOME}/{app_id}/config`, or
/// else `{HOME}/.config/{app_id}/config`; values are trimmed. The path is
/// given as a root and the components to join below it.
pub fn resolve_global_file_path_from_env(app_id: &str, vars: &[(EnvText, EnvText)]) -> (r: ConfigxResult<GlobalPathParts>)
    ensures
        match global_path_spec(app_id@, vars@) {
            GlobalPathSpec::Found(root, parts) => r matches Ok(p) && p.root@ == root && crate::map::string_views(
                p.components@,
            ) == parts,
            GlobalPathSpec::Refused(m) => r matches Err(e) && error_is(e, ErrorKind::Invalid, m),
        },
{
    match setting_of(vars, crate::config::ENV_GLOBAL_FILE) {
        Some(path) => {
            let components: Vec<String> = Vec::new();
            assert(crate::map::string_views(components@) =~= Seq::<Seq<char>>::empty());
            return Ok(GlobalPathParts { root: path, components });
        },
        None => {},
    }
    match validate_app_id(app_id) {
        Err(e) => {
            return Err(e);
        },
        Ok(()) => {},
    }
    match setting_of(vars, "XDG_CONFIG_HOME") {
        Some(xdg) => {
            let mut components: Vec<String> = Vec::new();
            components.push(app_id.to_owned());
            components.push("config".to_owned());
            assert(crate::map::string_views(components@) =~= seq![app_id@, "config"@]);
            return Ok(GlobalPathParts { root: xdg, components });
        },
        None => {},
    }
    match setting_of(vars, "HOME") {
        Some(home) => {
            let mut components: Vec<String> = Vec::new();
            components.push(".config".to_owned());
            components.push(app_id.to_owned());
            components.push("config".to_owned());
            assert(crate::map::string_views(components@) =~= seq![".config"@, app_id@, "config"@]);
            Ok(GlobalPathParts { root: home, components })
        },
        None => Err(ConfigxError::invalid(GLOBAL_PATH_UNRESOLVED)),
    }
}

} // verus!
