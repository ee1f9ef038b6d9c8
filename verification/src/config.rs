//! Application configuration with file persistence.
//!
//! An [`AppConfig`] is an immutable snapshot of the user-adjustable settings.
//! It is stored as a pretty-printed JSON object; a missing field falls back
//! to its documented default, and a document that cannot be repaired that way
//! (not valid JSON, a field of the wrong type, a repeated field) makes the
//! whole snapshot fall back to all-defaults.

use vstd::prelude::*;

use crate::chars::{chars_to_string, str_to_chars};
use crate::json::{
    bool_str, dec_str, esc_str, is_digit_char, is_float_cont_char, is_ws_char,
    lemma_parse_bool_region, lemma_parse_esc_region, lemma_parse_u32_region, parse_bool,
    parse_string_body, parse_u32, push_dec, push_escaped, skip_value, skip_ws, spec_parse_bool,
    spec_parse_string_body, spec_parse_u32, spec_skip_value, spec_skip_ws, MAX_DEPTH,
};
use vstd::string::StringExecFns;

verus! {

/// Error type for configuration operations.
#[derive(Debug, Clone, Copy, PartialEq, Eq, Structural)]
pub enum ConfigError {
    /// A read, write or directory creation failed.
    Io,
    /// The document did not parse as a settings object.
    Parse,
    /// No per-user configuration directory could be determined.
    NoConfigDir,
}

/// The mathematical value of a settings snapshot.
pub ghost struct SettingsV {
    pub username: Seq<char>,
    pub dark_mode: bool,
    pub notifications_enabled: bool,
    pub auto_save_interval: u32,
    pub theme: Seq<char>,
}

/// Application configuration that persists to disk.
#[derive(Debug, Clone)]
pub struct AppConfig {
    pub username: String,
    pub dark_mode: bool,
    pub notifications_enabled: bool,
    pub auto_save_interval: u32,
    pub theme: String,
}

impl View for AppConfig {
    type V = SettingsV;

    open spec fn view(&self) -> SettingsV {
        SettingsV {
            username: self.username@,
            dark_mode: self.dark_mode,
            notifications_enabled: self.notifications_enabled,
            auto_save_interval: self.auto_save_interval,
            theme: self.theme@,
        }
    }
}

/// Default theme name as a character sequence.
pub open spec fn spec_default_theme() -> Seq<char> {
    seq!['s', 'y', 's', 't', 'e', 'm']
}

/// The documented all-defaults snapshot: empty username, dark mode off,
/// notifications on, auto-save every 300 seconds, theme `system`.
pub open spec fn spec_default() -> SettingsV {
    SettingsV {
        username: Seq::<char>::empty(),
        dark_mode: false,
        notifications_enabled: true,
        auto_save_interval: 300,
        theme: spec_default_theme(),
    }
}

/// Default for `notifications_enabled`.
pub fn default_true() -> (b: bool)
    ensures
        b,
{
    true
}

/// Default for `auto_save_interval`, in seconds.
pub fn default_auto_save_interval() -> (n: u32)
    ensures
        n == 300,
{
    300
}

/// Default for `theme`.
pub fn default_theme() -> (t: String)
    ensures
        t@ == spec_default_theme(),
{
    let t = String::from_str("system");
    proof {
        reveal_strlit("system");
        assert(t@ =~= spec_default_theme());
    }
    t
}

impl Default for AppConfig {
    /// The all-defaults snapshot, [`spec_default`].
    fn default() -> (c: Self)
        ensures
            c@ == spec_default(),
    {
        let c = AppConfig {
            username: String::new(),
            dark_mode: false,
            notifications_enabled: true,
            auto_save_interval: 300,
            theme: default_theme(),
        };
        c
    }
}

impl AppConfig {
    /// Returns the configuration directory path for this application, if the
    /// host provides one.
    ///
    /// Relies on `directories::ProjectDirs::from` with a fixed
    /// organization and application identifier: it resolves the per-user,
    /// per-platform configuration directory, or `None` when the host has no
    /// usable home directory.  The result depends on the environment, so
    /// nothing more is promised of it.
    #[verifier::external_body]
    pub fn config_dir() -> Option<String> {
        directories::ProjectDirs::from("com", "example", "config-store").map(
            |dirs| dirs.config_dir().to_string_lossy().to_string(),
        )
    }

    /// Returns the full path to the config file: the configuration directory
    /// with `/config.json` appended.
    pub fn config_path() -> (r: Option<String>)
        ensures
            (match r {
                Some(p) => exists|d: Seq<char>| p@ == d + "/config.json"@,
                None => true,
            }),
    {
        match Self::config_dir() {
            None => None,
            Some(dir) => {
                let ghost d = dir@;
                let p = dir.concat("/config.json");
                proof {
                    assert(p@ == d + "/config.json"@);
                }
                Some(p)
            },
        }
    }
}

// ---------------------------------------------------------------------------
// Field names of the stored object
// ---------------------------------------------------------------------------

pub open spec fn key_username() -> Seq<char> {
    seq!['u', 's', 'e', 'r', 'n', 'a', 'm', 'e']
}

pub open spec fn key_dark_mode() -> Seq<char> {
    seq!['d', 'a', 'r', 'k', 'M', 'o', 'd', 'e']
}

pub open spec fn key_notifications_enabled() -> Seq<char> {
    seq![
        'n',
        'o',
        't',
        'i',
        'f',
        'i',
        'c',
        'a',
        't',
        'i',
        'o',
        'n',
        's',
        'E',
        'n',
        'a',
        'b',
        'l',
        'e',
        'd',
    ]
}

pub open spec fn key_auto_save_interval() -> Seq<char> {
    seq![
        'a',
        'u',
        't',
        'o',
        'S',
        'a',
        'v',
        'e',
        'I',
        'n',
        't',
        'e',
        'r',
        'v',
        'a',
        'l',
        'S',
        'e',
        'c',
        'o',
        'n',
        'd',
        's',
    ]
}

pub open spec fn key_theme() -> Seq<char> {
    seq!['t', 'h', 'e', 'm', 'e']
}

proof fn lemma_key_literals()
    ensures
        "username"@ == key_username(),
        "darkMode"@ == key_dark_mode(),
        "notificationsEnabled"@ == key_notifications_enabled(),
        "autoSaveIntervalSeconds"@ == key_auto_save_interval(),
        "theme"@ == key_theme(),
{
    reveal_strlit("username");
    reveal_strlit("darkMode");
    reveal_strlit("notificationsEnabled");
    reveal_strlit("autoSaveIntervalSeconds");
    reveal_strlit("theme");
    assert("username"@ =~= key_username());
    assert("darkMode"@ =~= key_dark_mode());
    assert("notificationsEnabled"@ =~= key_notifications_enabled());
    assert("autoSaveIntervalSeconds"@ =~= key_auto_save_interval());
    assert("theme"@ =~= key_theme());
}

// ---------------------------------------------------------------------------
// Reading a stored document
// ---------------------------------------------------------------------------

/// Fields seen so far while reading the members of the stored object.
pub ghost struct PartialV {
    pub username: Option<Seq<char>>,
    pub dark_mode: Option<bool>,
    pub notifications_enabled: Option<bool>,
    pub auto_save_interval: Option<u32>,
    pub theme: Option<Seq<char>>,
}

/// No field seen yet.
pub open spec fn empty_partial() -> PartialV {
    PartialV {
        username: None,
        dark_mode: None,
        notifications_enabled: None,
        auto_save_interval: None,
        theme: None,
    }
}

/// Every field that the document did not provide takes its default.
pub open spec fn fill_defaults(p: PartialV) -> SettingsV {
    SettingsV {
        username: match p.username {
            Some(u) => u,
            None => Seq::<char>::empty(),
        },
        dark_mode: match p.dark_mode {
            Some(b) => b,
            None => false,
        },
        notifications_enabled: match p.notifications_enabled {
            Some(b) => b,
            None => true,
        },
        auto_save_interval: match p.auto_save_interval {
            Some(n) => n,
            None => 300,
        },
        theme: match p.theme {
            Some(t) => t,
            None => spec_default_theme(),
        },
    }
}

/// Reads the members of the settings object, positioned at a member's opening
/// quote, with `p` holding the fields seen so far.  A known field must have a
/// value of its documented type and may appear only once; an unknown field is
/// skipped whatever its value.
pub open spec fn spec_parse_members(s: Seq<char>, i: int, p: PartialV) -> Option<(PartialV, int)>
    decreases s.len() - i,
{
    if !(0 <= i < s.len() && s[i] == '"') {
        None
    } else {
        match spec_parse_string_body(s, i + 1) {
            None => None,
            Some((key, j)) => {
                let k = spec_skip_ws(s, j);
                if !(k < s.len() && s[k] == ':') {
                    None
                } else {
                    let m = spec_skip_ws(s, k + 1);
                    if !(i < m && m <= s.len()) {
                        None
                    } else {
                        let stepped: Option<(PartialV, int)> = if key == key_username() {
                            if p.username is Some {
                                None
                            } else if m < s.len() && s[m] == '"' {
                                match spec_parse_string_body(s, m + 1) {
                                    Some((v, e)) => Some(
                                        (
                                            PartialV {
                                                username: Some(v),
                                                dark_mode: p.dark_mode,
                                                notifications_enabled: p.notifications_enabled,
                                                auto_save_interval: p.auto_save_interval,
                                                theme: p.theme,
                                            },
                                            e,
                                        ),
                                    ),
                                    None => None,
                                }
                            } else {
                                None
                            }
                        } else if key == key_dark_mode() {
                            if p.dark_mode is Some {
                                None
                            } else {
                                match spec_parse_bool(s, m) {
                                    Some((b, e)) => Some(
                                        (
                                            PartialV {
                                                username: p.username,
                                                dark_mode: Some(b),
                                                notifications_enabled: p.notifications_enabled,
                                                auto_save_interval: p.auto_save_interval,
                                                theme: p.theme,
                                            },
                                            e,
                                        ),
                                    ),
                                    None => None,
                                }
                            }
                        } else if key == key_notifications_enabled() {
                            if p.notifications_enabled is Some {
                                None
                            } else {
                                match spec_parse_bool(s, m) {
                                    Some((b, e)) => Some(
                                        (
                                            PartialV {
                                                username: p.username,
                                                dark_mode: p.dark_mode,
                                                notifications_enabled: Some(b),
                                                auto_save_interval: p.auto_save_interval,
                                                theme: p.theme,
                                            },
                                            e,
                                        ),
                                    ),
                                    None => None,
                                }
                            }
                        } else if key == key_auto_save_interval() {
                            if p.auto_save_interval is Some {
                                None
                            } else {
                                match spec_parse_u32(s, m) {
                                    Some((n, e)) => Some(
                                        (
                                            PartialV {
                                                username: p.username,
                                                dark_mode: p.dark_mode,
                                                notifications_enabled: p.notifications_enabled,
                                                auto_save_interval: Some(n),
                                                theme: p.theme,
                                            },
                                            e,
                                        ),
                                    ),
                                    None => None,
                                }
                            }
                        } else if key == key_theme() {
                            if p.theme is Some {
                                None
                            } else if m < s.len() && s[m] == '"' {
                                match spec_parse_string_body(s, m + 1) {
                                    Some((v, e)) => Some(
                                        (
                                            PartialV {
                                                username: p.username,
                                                dark_mode: p.dark_mode,
                                                notifications_enabled: p.notifications_enabled,
                                                auto_save_interval: p.auto_save_interval,
                                                theme: Some(v),
                                            },
                                            e,
                                        ),
                                    ),
                                    None => None,
                                }
                            } else {
                                None
                            }
                        } else {
                            match spec_skip_value(s, m, MAX_DEPTH) {
                                Some(e) => Some((p, e)),
                                None => None,
                            }
                        };
                        match stepped {
                            None => None,
                            Some((p2, e)) => {
                                let w = spec_skip_ws(s, e);
                                if w < s.len() && s[w] == ',' {
                                    let q = spec_skip_ws(s, w + 1);
                                    if i < q && q <= s.len() {
                                        spec_parse_members(s, q, p2)
                                    } else {
                                        None
                                    }
                                } else if w < s.len() && s[w] == '}' {
                                    Some((p2, w + 1))
                                } else {
                                    None
                                }
                            },
                        }
                    }
                }
            },
        }
    }
}

/// Reads a whole stored document: one settings object, possibly surrounded by
/// whitespace, with nothing after it.  `None` means the document cannot be
/// repaired by per-field defaulting.
pub open spec fn spec_try_parse(s: Seq<char>) -> Option<SettingsV> {
    let i = spec_skip_ws(s, 0);
    if i < s.len() && s[i] == '{' {
        let j = spec_skip_ws(s, i + 1);
        if j < s.len() && s[j] == '}' {
            let w = spec_skip_ws(s, j + 1);
            if w == s.len() {
                Some(fill_defaults(empty_partial()))
            } else {
                None
            }
        } else {
            match spec_parse_members(s, j, empty_partial()) {
                Some((p, e)) => {
                    let w = spec_skip_ws(s, e);
                    if w == s.len() {
                        Some(fill_defaults(p))
                    } else {
                        None
                    }
                },
                None => None,
            }
        }
    } else {
        None
    }
}

/// What loading a document yields: the parsed snapshot, or all-defaults when
/// the document cannot be repaired.
pub open spec fn spec_parse_settings(s: Seq<char>) -> SettingsV {
    match spec_try_parse(s) {
        Some(v) => v,
        None => spec_default(),
    }
}

/// Fields collected so far while reading the stored object.
struct PartialConfig {
    username: Option<Vec<char>>,
    dark_mode: Option<bool>,
    notifications_enabled: Option<bool>,
    auto_save_interval: Option<u32>,
    theme: Option<Vec<char>>,
}

impl View for PartialConfig {
    type V = PartialV;

    closed spec fn view(&self) -> PartialV {
        PartialV {
            username: match self.username {
                Some(v) => Some(v@),
                None => None,
            },
            dark_mode: self.dark_mode,
            notifications_enabled: self.notifications_enabled,
            auto_save_interval: self.auto_save_interval,
            theme: match self.theme {
                Some(v) => Some(v@),
                None => None,
            },
        }
    }
}

impl PartialConfig {
    fn empty() -> (p: PartialConfig)
        ensures
            p@ == empty_partial(),
    {
        PartialConfig {
            username: None,
            dark_mode: None,
            notifications_enabled: None,
            auto_save_interval: None,
            theme: None,
        }
    }
}

/// True exactly when the two vectors hold the same characters.
fn chars_eq(a: &Vec<char>, b: &Vec<char>) -> (r: bool)
    ensures
        r == (a@ == b@),
{
    if a.len() != b.len() {
        return false;
    }
    let mut i: usize = 0;
    while i < a.len()
        invariant
            i <= a@.len(),
            a@.len() == b@.len(),
            forall|k: int| 0 <= k < i ==> a@[k] == b@[k],
        decreases a@.len() - i,
    {
        if a[i] != b[i] {
            return false;
        }
        i = i + 1;
    }
    proof {
        assert(a@ =~= b@);
    }
    true
}

/// Reads object members, exactly as [`spec_parse_members`] describes.
#[verifier::rlimit(60)]
fn parse_members(s: &Vec<char>, i: usize, p0: PartialConfig) -> (r: Option<(PartialConfig, usize)>)
    requires
        i <= s@.len(),
    ensures
        (match r {
            Some((p, e)) => {
                &&& spec_parse_members(s@, i as int, p0@) == Some((p@, e as int))
                &&& i < e <= s@.len()
            },
            None => spec_parse_members(s@, i as int, p0@) is None,
        }),
{
    let k_username = str_to_chars("username");
    let k_dark_mode = str_to_chars("darkMode");
    let k_notifications = str_to_chars("notificationsEnabled");
    let k_auto_save = str_to_chars("autoSaveIntervalSeconds");
    let k_theme = str_to_chars("theme");
    proof {
        lemma_key_literals();
    }
    let mut p = p0;
    let mut cur = i;
    loop
        invariant
            i <= cur <= s@.len(),
            spec_parse_members(s@, i as int, p0@) == spec_parse_members(s@, cur as int, p@),
            k_username@ == key_username(),
            k_dark_mode@ == key_dark_mode(),
            k_notifications@ == key_notifications_enabled(),
            k_auto_save@ == key_auto_save_interval(),
            k_theme@ == key_theme(),
        decreases s@.len() - cur,
    {
        if !(cur < s.len() && s[cur] == '"') {
            return None;
        }
        let (key, j) = match parse_string_body(s, cur + 1) {
            Some(kj) => kj,
            None => {
                return None;
            },
        };
        let k = skip_ws(s, j);
        if !(k < s.len() && s[k] == ':') {
            return None;
        }
        let m = skip_ws(s, k + 1);
        if !(cur < m && m <= s.len()) {
            return None;
        }
        let e: usize;
        if chars_eq(&key, &k_username) {
            if p.username.is_some() {
                return None;
            }
            if !(m < s.len() && s[m] == '"') {
                return None;
            }
            match parse_string_body(s, m + 1) {
                Some((v, e2)) => {
                    p.username = Some(v);
                    e = e2;
                },
                None => {
                    return None;
                },
            }
        } else if chars_eq(&key, &k_dark_mode) {
            if p.dark_mode.is_some() {
                return None;
            }
            match parse_bool(s, m) {
                Some((b, e2)) => {
                    p.dark_mode = Some(b);
                    e = e2;
                },
                None => {
                    return None;
                },
            }
        } else if chars_eq(&key, &k_notifications) {
            if p.notifications_enabled.is_some() {
                return None;
            }
            match parse_bool(s, m) {
                Some((b, e2)) => {
                    p.notifications_enabled = Some(b);
                    e = e2;
                },
                None => {
                    return None;
                },
            }
        } else if chars_eq(&key, &k_auto_save) {
            if p.auto_save_interval.is_some() {
                return None;
            }
            match parse_u32(s, m) {
                Some((n, e2)) => {
                    p.auto_save_interval = Some(n);
                    e = e2;
                },
                None => {
                    return None;
                },
            }
        } else if chars_eq(&key, &k_theme) {
            if p.theme.is_some() {
                return None;
            }
            if !(m < s.len() && s[m] == '"') {
                return None;
            }
            match parse_string_body(s, m + 1) {
                Some((v, e2)) => {
                    p.theme = Some(v);
                    e = e2;
                },
                None => {
                    return None;
                },
            }
        } else {
            match skip_value(s, m, MAX_DEPTH) {
                Some(e2) => {
                    e = e2;
                },
                None => {
                    return None;
                },
            }
        }
        let w = skip_ws(s, e);
        if w < s.len() && s[w] == ',' {
            let q = skip_ws(s, w + 1);
            if cur < q && q <= s.len() {
                cur = q;
            } else {
                return None;
            }
        } else if w < s.len() && s[w] == '}' {
            return Some((p, w + 1));
        } else {
            return None;
        }
    }
}

impl AppConfig {
    /// Reads a stored document; `None` means it cannot be repaired by
    /// per-field defaulting and the whole snapshot must fall back.
    pub fn try_parse(s: &str) -> (r: Option<AppConfig>)
        ensures
            (match r {
                Some(c) => spec_try_parse(s@) == Some(c@),
                None => spec_try_parse(s@) is None,
            }),
    {
        let cs = str_to_chars(s);
        let i = skip_ws(&cs, 0);
        if !(i < cs.len() && cs[i] == '{') {
            return None;
        }
        let j = skip_ws(&cs, i + 1);
        if j < cs.len() && cs[j] == '}' {
            let w = skip_ws(&cs, j + 1);
            if w == cs.len() {
                Some(config_from_partial(PartialConfig::empty()))
            } else {
                None
            }
        } else {
            match parse_members(&cs, j, PartialConfig::empty()) {
                Some((p, e)) => {
                    let w = skip_ws(&cs, e);
                    if w == cs.len() {
                        Some(config_from_partial(p))
                    } else {
                        None
                    }
                },
                None => None,
            }
        }
    }

    /// Reads a stored document with the default-on-corrupt policy: whatever
    /// the input, the result is a settings snapshot.
    pub fn parse(s: &str) -> (r: AppConfig)
        ensures
            r@ == spec_parse_settings(s@),
    {
        match Self::try_parse(s) {
            Some(c) => c,
            None => AppConfig::default(),
        }
    }

    /// What loading yields for the outcome of a read: the parsed snapshot for
    /// file contents, all-defaults when there was nothing to read.
    pub fn from_stored(contents: Option<&str>) -> (r: AppConfig)
        ensures
            (match contents {
                Some(s) => r@ == spec_parse_settings(s@),
                None => r@ == spec_default(),
            }),
    {
        match contents {
            Some(s) => Self::parse(s),
            None => AppConfig::default(),
        }
    }
}

// ---------------------------------------------------------------------------
// Writing a document
// ---------------------------------------------------------------------------

/// The stored form of a snapshot: a pretty-printed JSON object with the five
/// fields in a fixed order, two-space indentation, and string values escaped
/// as [`esc_str`] says.
pub open spec fn spec_serialize(v: SettingsV) -> Seq<char> {
    "{\n  \"username\": \""@ + esc_str(v.username) + "\",\n  \"darkMode\": "@ + bool_str(
        v.dark_mode,
    ) + ",\n  \"notificationsEnabled\": "@ + bool_str(v.notifications_enabled)
        + ",\n  \"autoSaveIntervalSeconds\": "@ + dec_str(v.auto_save_interval as nat)
        + ",\n  \"theme\": \""@ + esc_str(v.theme) + "\"\n}"@
}

proof fn lemma_bool_literals()
    ensures
        "true"@ == bool_str(true),
        "false"@ == bool_str(false),
{
    reveal_strlit("true");
    reveal_strlit("false");
    assert("true"@ =~= bool_str(true));
    assert("false"@ =~= bool_str(false));
}

impl AppConfig {
    /// Writes the snapshot in its stored form, exactly [`spec_serialize`].
    pub fn to_json(&self) -> (r: String)
        ensures
            r@ == spec_serialize(self@),
    {
        proof {
            lemma_bool_literals();
        }
        let mut out = String::new();
        out.append("{\n  \"username\": \"");
        let uchars = str_to_chars(self.username.as_str());
        push_escaped(&mut out, &uchars);
        out.append("\",\n  \"darkMode\": ");
        if self.dark_mode {
            out.append("true");
        } else {
            out.append("false");
        }
        out.append(",\n  \"notificationsEnabled\": ");
        if self.notifications_enabled {
            out.append("true");
        } else {
            out.append("false");
        }
        out.append(",\n  \"autoSaveIntervalSeconds\": ");
        push_dec(&mut out, self.auto_save_interval);
        out.append(",\n  \"theme\": \"");
        let tchars = str_to_chars(self.theme.as_str());
        push_escaped(&mut out, &tchars);
        out.append("\"\n}");
        proof {
            assert(out@ =~= spec_serialize(self@));
        }
        out
    }
}

/// Turns collected fields into a snapshot, defaulting each missing field.
fn config_from_partial(p: PartialConfig) -> (c: AppConfig)
    ensures
        c@ == fill_defaults(p@),
{
    let username = match p.username {
        Some(v) => chars_to_string(&v),
        None => String::new(),
    };
    let dark_mode = match p.dark_mode {
        Some(b) => b,
        None => false,
    };
    let notifications_enabled = match p.notifications_enabled {
        Some(b) => b,
        None => true,
    };
    let auto_save_interval = match p.auto_save_interval {
        Some(n) => n,
        None => 300,
    };
    let theme = match p.theme {
        Some(v) => chars_to_string(&v),
        None => default_theme(),
    };
    AppConfig { username, dark_mode, notifications_enabled, auto_save_interval, theme }
}

// ---------------------------------------------------------------------------
// Writing and then reading gives the same snapshot
// ---------------------------------------------------------------------------

proof fn lemma_keys_esc()
    ensures
        esc_str(key_username()) == key_username(),
        esc_str(key_dark_mode()) == key_dark_mode(),
        esc_str(key_notifications_enabled()) == key_notifications_enabled(),
        esc_str(key_auto_save_interval()) == key_auto_save_interval(),
        esc_str(key_theme()) == key_theme(),
{
    assert(crate::json::plain_seq(key_username()));
    crate::json::lemma_esc_plain(key_username());
    assert(crate::json::plain_seq(key_dark_mode()));
    crate::json::lemma_esc_plain(key_dark_mode());
    assert(crate::json::plain_seq(key_notifications_enabled()));
    crate::json::lemma_esc_plain(key_notifications_enabled());
    assert(crate::json::plain_seq(key_auto_save_interval()));
    crate::json::lemma_esc_plain(key_auto_save_interval());
    assert(crate::json::plain_seq(key_theme()));
    crate::json::lemma_esc_plain(key_theme());
}

proof fn lemma_keys_distinct()
    ensures
        key_dark_mode() != key_username(),
        key_notifications_enabled() != key_username(),
        key_notifications_enabled() != key_dark_mode(),
        key_auto_save_interval() != key_username(),
        key_auto_save_interval() != key_dark_mode(),
        key_auto_save_interval() != key_notifications_enabled(),
        key_theme() != key_username(),
        key_theme() != key_dark_mode(),
        key_theme() != key_notifications_enabled(),
        key_theme() != key_auto_save_interval(),
{
    assert(key_dark_mode()[0] == 'd' && key_username()[0] == 'u');
    assert(key_username().len() == 8 && key_dark_mode().len() == 8
        && key_notifications_enabled().len() == 20 && key_auto_save_interval().len() == 23
        && key_theme().len() == 5);
}

/// One `"username": "<value>"` member followed by a comma and the indentation
/// of the next member: reading it records the username and moves on.
#[verifier::rlimit(100)]
proof fn lemma_member_username(s: Seq<char>, cur: int, p: PartialV, v: Seq<char>)
    requires
        p.username is None,
        0 <= cur,
        s[cur] == '"',
        s.subrange(cur + 1, cur + 9) == key_username(),
        s[cur + 9] == '"',
        s[cur + 10] == ':',
        s[cur + 11] == ' ',
        s[cur + 12] == '"',
        cur + 13 + esc_str(v).len() + 1 <= s.len(),
        s.subrange(cur + 13, cur + 13 + esc_str(v).len()) == esc_str(v),
        s[cur + 13 + esc_str(v).len()] == '"',
        s[cur + 14 + esc_str(v).len()] == ',',
        s[cur + 15 + esc_str(v).len()] == '\n',
        s[cur + 16 + esc_str(v).len()] == ' ',
        s[cur + 17 + esc_str(v).len()] == ' ',
        cur + 18 + esc_str(v).len() < s.len(),
        !is_ws_char(s[cur + 18 + esc_str(v).len()]),
    ensures
        spec_parse_members(s, cur, p) == spec_parse_members(
            s,
            cur + 18 + esc_str(v).len(),
            PartialV {
                username: Some(v),
                dark_mode: p.dark_mode,
                notifications_enabled: p.notifications_enabled,
                auto_save_interval: p.auto_save_interval,
                theme: p.theme,
            },
        ),
{
    lemma_keys_esc();
    lemma_parse_esc_region(s, cur + 1, key_username());
    assert(spec_parse_string_body(s, cur + 1) == Some((key_username(), cur + 10)));
    assert(spec_skip_ws(s, cur + 10) == cur + 10);
    assert(spec_skip_ws(s, cur + 12) == cur + 12);
    assert(spec_skip_ws(s, cur + 11) == cur + 12);
    lemma_parse_esc_region(s, cur + 13, v);
    let e = cur + 14 + esc_str(v).len();
    assert(spec_parse_string_body(s, cur + 13) == Some((v, e)));
    assert(spec_skip_ws(s, e) == e);
    assert(spec_skip_ws(s, e + 4) == e + 4);
    assert(spec_skip_ws(s, e + 3) == e + 4);
    assert(spec_skip_ws(s, e + 2) == e + 4);
    assert(spec_skip_ws(s, e + 1) == e + 4);
}

/// One boolean member under the key `darkMode`, followed by a comma and the
/// next member's indentation.
#[verifier::rlimit(100)]
proof fn lemma_member_dark_mode(s: Seq<char>, cur: int, p: PartialV, b: bool)
    requires
        p.dark_mode is None,
        0 <= cur,
        s[cur] == '"',
        s.subrange(cur + 1, cur + 9) == key_dark_mode(),
        s[cur + 9] == '"',
        s[cur + 10] == ':',
        s[cur + 11] == ' ',
        cur + 12 + bool_str(b).len() <= s.len(),
        s.subrange(cur + 12, cur + 12 + bool_str(b).len()) == bool_str(b),
        s[cur + 12 + bool_str(b).len()] == ',',
        s[cur + 13 + bool_str(b).len()] == '\n',
        s[cur + 14 + bool_str(b).len()] == ' ',
        s[cur + 15 + bool_str(b).len()] == ' ',
        cur + 16 + bool_str(b).len() < s.len(),
        !is_ws_char(s[cur + 16 + bool_str(b).len()]),
    ensures
        spec_parse_members(s, cur, p) == spec_parse_members(
            s,
            cur + 16 + bool_str(b).len(),
            PartialV {
                username: p.username,
                dark_mode: Some(b),
                notifications_enabled: p.notifications_enabled,
                auto_save_interval: p.auto_save_interval,
                theme: p.theme,
            },
        ),
{
    lemma_keys_esc();
    lemma_keys_distinct();
    lemma_parse_esc_region(s, cur + 1, key_dark_mode());
    assert(spec_parse_string_body(s, cur + 1) == Some((key_dark_mode(), cur + 10)));
    assert(spec_skip_ws(s, cur + 10) == cur + 10);
    assert(spec_skip_ws(s, cur + 12) == cur + 12) by {
        assert(bool_str(b)[0] == s.subrange(cur + 12, cur + 12 + bool_str(b).len())[0]);
        assert(s[cur + 12] == bool_str(b)[0]);
        assert(!is_ws_char(bool_str(b)[0]));
    }
    assert(spec_skip_ws(s, cur + 11) == cur + 12);
    lemma_parse_bool_region(s, cur + 12, b);
    let e = cur + 12 + bool_str(b).len();
    assert(spec_skip_ws(s, e) == e);
    assert(spec_skip_ws(s, e + 4) == e + 4);
    assert(spec_skip_ws(s, e + 3) == e + 4);
    assert(spec_skip_ws(s, e + 2) == e + 4);
    assert(spec_skip_ws(s, e + 1) == e + 4);
}

/// One boolean member under the key `notificationsEnabled`, followed by a
/// comma and the next member's indentation.
#[verifier::rlimit(100)]
proof fn lemma_member_notifications(s: Seq<char>, cur: int, p: PartialV, b: bool)
    requires
        p.notifications_enabled is None,
        0 <= cur,
        s[cur] == '"',
        s.subrange(cur + 1, cur + 21) == key_notifications_enabled(),
        s[cur + 21] == '"',
        s[cur + 22] == ':',
        s[cur + 23] == ' ',
        cur + 24 + bool_str(b).len() <= s.len(),
        s.subrange(cur + 24, cur + 24 + bool_str(b).len()) == bool_str(b),
        s[cur + 24 + bool_str(b).len()] == ',',
        s[cur + 25 + bool_str(b).len()] == '\n',
        s[cur + 26 + bool_str(b).len()] == ' ',
        s[cur + 27 + bool_str(b).len()] == ' ',
        cur + 28 + bool_str(b).len() < s.len(),
        !is_ws_char(s[cur + 28 + bool_str(b).len()]),
    ensures
        spec_parse_members(s, cur, p) == spec_parse_members(
            s,
            cur + 28 + bool_str(b).len(),
            PartialV {
                username: p.username,
                dark_mode: p.dark_mode,
                notifications_enabled: Some(b),
                auto_save_interval: p.auto_save_interval,
                theme: p.theme,
            },
        ),
{
    lemma_keys_esc();
    lemma_keys_distinct();
    lemma_parse_esc_region(s, cur + 1, key_notifications_enabled());
    assert(spec_parse_string_body(s, cur + 1) == Some((key_notifications_enabled(), cur + 22)));
    assert(spec_skip_ws(s, cur + 22) == cur + 22);
    assert(spec_skip_ws(s, cur + 24) == cur + 24) by {
        assert(bool_str(b)[0] == s.subrange(cur + 24, cur + 24 + bool_str(b).len())[0]);
        assert(s[cur + 24] == bool_str(b)[0]);
        assert(!is_ws_char(bool_str(b)[0]));
    }
    assert(spec_skip_ws(s, cur + 23) == cur + 24);
    lemma_parse_bool_region(s, cur + 24, b);
    let e = cur + 24 + bool_str(b).len();
    assert(spec_skip_ws(s, e) == e);
    assert(spec_skip_ws(s, e + 4) == e + 4);
    assert(spec_skip_ws(s, e + 3) == e + 4);
    assert(spec_skip_ws(s, e + 2) == e + 4);
    assert(spec_skip_ws(s, e + 1) == e + 4);
}

/// One unsigned-integer member under the key `autoSaveIntervalSeconds`,
/// followed by a comma and the next member's indentation.
#[verifier::rlimit(100)]
proof fn lemma_member_auto_save(s: Seq<char>, cur: int, p: PartialV, n: u32)
    requires
        p.auto_save_interval is None,
        0 <= cur,
        s[cur] == '"',
        s.subrange(cur + 1, cur + 24) == key_auto_save_interval(),
        s[cur + 24] == '"',
        s[cur + 25] == ':',
        s[cur + 26] == ' ',
        cur + 27 + dec_str(n as nat).len() <= s.len(),
        s.subrange(cur + 27, cur + 27 + dec_str(n as nat).len()) == dec_str(n as nat),
        s[cur + 27 + dec_str(n as nat).len()] == ',',
        s[cur + 28 + dec_str(n as nat).len()] == '\n',
        s[cur + 29 + dec_str(n as nat).len()] == ' ',
        s[cur + 30 + dec_str(n as nat).len()] == ' ',
        cur + 31 + dec_str(n as nat).len() < s.len(),
        !is_ws_char(s[cur + 31 + dec_str(n as nat).len()]),
    ensures
        spec_parse_members(s, cur, p) == spec_parse_members(
            s,
            cur + 31 + dec_str(n as nat).len(),
            PartialV {
                username: p.username,
                dark_mode: p.dark_mode,
                notifications_enabled: p.notifications_enabled,
                auto_save_interval: Some(n),
                theme: p.theme,
            },
        ),
{
    lemma_keys_esc();
    lemma_keys_distinct();
    lemma_parse_esc_region(s, cur + 1, key_auto_save_interval());
    assert(spec_parse_string_body(s, cur + 1) == Some((key_auto_save_interval(), cur + 25)));
    assert(spec_skip_ws(s, cur + 25) == cur + 25);
    crate::json::lemma_dec_str_facts(n as nat);
    assert(spec_skip_ws(s, cur + 27) == cur + 27) by {
        assert(dec_str(n as nat)[0] == s.subrange(
            cur + 27,
            cur + 27 + dec_str(n as nat).len(),
        )[0]);
        assert(s[cur + 27] == dec_str(n as nat)[0]);
        assert(is_digit_char(dec_str(n as nat)[0]));
        assert(!is_ws_char(dec_str(n as nat)[0]));
    }
    assert(spec_skip_ws(s, cur + 26) == cur + 27);
    assert(!is_digit_char(',') && !is_float_cont_char(','));
    lemma_parse_u32_region(s, cur + 27, n);
    let e = cur + 27 + dec_str(n as nat).len();
    assert(spec_parse_u32(s, cur + 27) == Some((n, e)));
    assert(spec_skip_ws(s, e) == e);
    assert(spec_skip_ws(s, e + 4) == e + 4);
    assert(spec_skip_ws(s, e + 3) == e + 4);
    assert(spec_skip_ws(s, e + 2) == e + 4);
    assert(spec_skip_ws(s, e + 1) == e + 4);
}

/// The final `"theme": "<value>"` member, followed by the closing newline and
/// brace: reading it records the theme and ends the object.
#[verifier::rlimit(100)]
proof fn lemma_member_theme(s: Seq<char>, cur: int, p: PartialV, v: Seq<char>)
    requires
        p.theme is None,
        0 <= cur,
        s[cur] == '"',
        s.subrange(cur + 1, cur + 6) == key_theme(),
        s[cur + 6] == '"',
        s[cur + 7] == ':',
        s[cur + 8] == ' ',
        s[cur + 9] == '"',
        cur + 10 + esc_str(v).len() + 1 <= s.len(),
        s.subrange(cur + 10, cur + 10 + esc_str(v).len()) == esc_str(v),
        s[cur + 10 + esc_str(v).len()] == '"',
        s[cur + 11 + esc_str(v).len()] == '\n',
        cur + 12 + esc_str(v).len() < s.len(),
        s[cur + 12 + esc_str(v).len()] == '}',
    ensures
        spec_parse_members(s, cur, p) == Some(
            (
                PartialV {
                    username: p.username,
                    dark_mode: p.dark_mode,
                    notifications_enabled: p.notifications_enabled,
                    auto_save_interval: p.auto_save_interval,
                    theme: Some(v),
                },
                cur + 13 + esc_str(v).len(),
            ),
        ),
{
    lemma_keys_esc();
    lemma_keys_distinct();
    lemma_parse_esc_region(s, cur + 1, key_theme());
    assert(spec_parse_string_body(s, cur + 1) == Some((key_theme(), cur + 7)));
    assert(spec_skip_ws(s, cur + 7) == cur + 7);
    assert(spec_skip_ws(s, cur + 9) == cur + 9);
    assert(spec_skip_ws(s, cur + 8) == cur + 9);
    lemma_parse_esc_region(s, cur + 10, v);
    let e = cur + 11 + esc_str(v).len();
    assert(spec_parse_string_body(s, cur + 10) == Some((v, e)));
    assert(spec_skip_ws(s, e + 1) == e + 1);
    assert(spec_skip_ws(s, e) == e + 1);
}


spec fn rt_p1(v: SettingsV) -> PartialV {
    PartialV {
        username: Some(v.username),
        dark_mode: None,
        notifications_enabled: None,
        auto_save_interval: None,
        theme: None,
    }
}

spec fn rt_p2(v: SettingsV) -> PartialV {
    PartialV {
        username: Some(v.username),
        dark_mode: Some(v.dark_mode),
        notifications_enabled: None,
        auto_save_interval: None,
        theme: None,
    }
}

spec fn rt_p3(v: SettingsV) -> PartialV {
    PartialV {
        username: Some(v.username),
        dark_mode: Some(v.dark_mode),
        notifications_enabled: Some(v.notifications_enabled),
        auto_save_interval: None,
        theme: None,
    }
}

spec fn rt_p4(v: SettingsV) -> PartialV {
    PartialV {
        username: Some(v.username),
        dark_mode: Some(v.dark_mode),
        notifications_enabled: Some(v.notifications_enabled),
        auto_save_interval: Some(v.auto_save_interval),
        theme: None,
    }
}

spec fn rt_p5(v: SettingsV) -> PartialV {
    PartialV {
        username: Some(v.username),
        dark_mode: Some(v.dark_mode),
        notifications_enabled: Some(v.notifications_enabled),
        auto_save_interval: Some(v.auto_save_interval),
        theme: Some(v.theme),
    }
}

#[verifier::rlimit(100)]
proof fn lemma_rt_step1(v: SettingsV)
    ensures
        spec_parse_members(spec_serialize(v), 4, empty_partial()) == spec_parse_members(
            spec_serialize(v),
            22int + esc_str(v.username).len(),
            rt_p1(v),
        ),
{
    reveal_strlit("{\n  \"username\": \"");
    reveal_strlit("\",\n  \"darkMode\": ");
    reveal_strlit(",\n  \"notificationsEnabled\": ");
    reveal_strlit(",\n  \"autoSaveIntervalSeconds\": ");
    reveal_strlit(",\n  \"theme\": \"");
    reveal_strlit("\"\n}");
    let s = spec_serialize(v);
    let eu = esc_str(v.username);
    assert(s.subrange(5, 13) =~= key_username());
    assert(s.subrange(17, 17int + eu.len()) =~= eu);
    assert(s[22int + eu.len()] == '"');
    lemma_member_username(s, 4, empty_partial(), v.username);
}

#[verifier::rlimit(100)]
proof fn lemma_rt_step2(v: SettingsV)
    ensures
        spec_parse_members(
            spec_serialize(v),
            22int + esc_str(v.username).len(),
            rt_p1(v),
        ) == spec_parse_members(
            spec_serialize(v),
            38int + esc_str(v.username).len() + bool_str(v.dark_mode).len(),
            rt_p2(v),
        ),
{
    reveal_strlit("{\n  \"username\": \"");
    reveal_strlit("\",\n  \"darkMode\": ");
    reveal_strlit(",\n  \"notificationsEnabled\": ");
    reveal_strlit(",\n  \"autoSaveIntervalSeconds\": ");
    reveal_strlit(",\n  \"theme\": \"");
    reveal_strlit("\"\n}");
    let s = spec_serialize(v);
    let eu = esc_str(v.username);
    let bd = bool_str(v.dark_mode);
    let cur = 22int + eu.len();
    assert(s.subrange(cur + 1, cur + 9) =~= key_dark_mode());
    assert(s.subrange(cur + 12, cur + 12 + bd.len()) =~= bd);
    assert(s[cur + 16 + bd.len()] == '"');
    lemma_member_dark_mode(s, cur, rt_p1(v), v.dark_mode);
}

#[verifier::rlimit(100)]
proof fn lemma_rt_step3(v: SettingsV)
    ensures
        spec_parse_members(
            spec_serialize(v),
            38int + esc_str(v.username).len() + bool_str(v.dark_mode).len(),
            rt_p2(v),
        ) == spec_parse_members(
            spec_serialize(v),
            66int + esc_str(v.username).len() + bool_str(v.dark_mode).len() + bool_str(
                v.notifications_enabled,
            ).len(),
            rt_p3(v),
        ),
{
    reveal_strlit("{\n  \"username\": \"");
    reveal_strlit("\",\n  \"darkMode\": ");
    reveal_strlit(",\n  \"notificationsEnabled\": ");
    reveal_strlit(",\n  \"autoSaveIntervalSeconds\": ");
    reveal_strlit(",\n  \"theme\": \"");
    reveal_strlit("\"\n}");
    let s = spec_serialize(v);
    let eu = esc_str(v.username);
    let bd = bool_str(v.dark_mode);
    let bn = bool_str(v.notifications_enabled);
    let cur = 38int + eu.len() + bd.len();
    assert(s.subrange(cur + 1, cur + 21) =~= key_notifications_enabled());
    assert(s.subrange(cur + 24, cur + 24 + bn.len()) =~= bn);
    assert(s[cur + 28 + bn.len()] == '"');
    lemma_member_notifications(s, cur, rt_p2(v), v.notifications_enabled);
}

#[verifier::rlimit(100)]
proof fn lemma_rt_step4(v: SettingsV)
    ensures
        spec_parse_members(
            spec_serialize(v),
            66int + esc_str(v.username).len() + bool_str(v.dark_mode).len() + bool_str(
                v.notifications_enabled,
            ).len(),
            rt_p3(v),
        ) == spec_parse_members(
            spec_serialize(v),
            97int + esc_str(v.username).len() + bool_str(v.dark_mode).len() + bool_str(
                v.notifications_enabled,
            ).len() + dec_str(v.auto_save_interval as nat).len(),
            rt_p4(v),
        ),
{
    reveal_strlit("{\n  \"username\": \"");
    reveal_strlit("\",\n  \"darkMode\": ");
    reveal_strlit(",\n  \"notificationsEnabled\": ");
    reveal_strlit(",\n  \"autoSaveIntervalSeconds\": ");
    reveal_strlit(",\n  \"theme\": \"");
    reveal_strlit("\"\n}");
    let s = spec_serialize(v);
    let eu = esc_str(v.username);
    let bd = bool_str(v.dark_mode);
    let bn = bool_str(v.notifications_enabled);
    let da = dec_str(v.auto_save_interval as nat);
    let cur = 66int + eu.len() + bd.len() + bn.len();
    assert(s.subrange(cur + 1, cur + 24) =~= key_auto_save_interval());
    assert(s.subrange(cur + 27, cur + 27 + da.len()) =~= da);
    assert(s[cur + 31 + da.len()] == '"');
    lemma_member_auto_save(s, cur, rt_p3(v), v.auto_save_interval);
}

#[verifier::rlimit(100)]
proof fn lemma_rt_step5(v: SettingsV)
    ensures
        spec_parse_members(
            spec_serialize(v),
            97int + esc_str(v.username).len() + bool_str(v.dark_mode).len() + bool_str(
                v.notifications_enabled,
            ).len() + dec_str(v.auto_save_interval as nat).len(),
            rt_p4(v),
        ) == Some((rt_p5(v), spec_serialize(v).len() as int)),
{
    reveal_strlit("{\n  \"username\": \"");
    reveal_strlit("\",\n  \"darkMode\": ");
    reveal_strlit(",\n  \"notificationsEnabled\": ");
    reveal_strlit(",\n  \"autoSaveIntervalSeconds\": ");
    reveal_strlit(",\n  \"theme\": \"");
    reveal_strlit("\"\n}");
    let s = spec_serialize(v);
    let eu = esc_str(v.username);
    let bd = bool_str(v.dark_mode);
    let bn = bool_str(v.notifications_enabled);
    let da = dec_str(v.auto_save_interval as nat);
    let et = esc_str(v.theme);
    let cur = 97int + eu.len() + bd.len() + bn.len() + da.len();
    assert(s.subrange(cur + 1, cur + 6) =~= key_theme());
    assert(s.subrange(cur + 10, cur + 10 + et.len()) =~= et);
    assert(s.len() == cur + 13 + et.len());
    lemma_member_theme(s, cur, rt_p4(v), v.theme);
}

/// Round trip: writing any snapshot with [`spec_serialize`] and reading the
/// result back gives the very same snapshot, field for field.
#[verifier::rlimit(100)]
pub proof fn lemma_parse_serialize_roundtrip(v: SettingsV)
    ensures
        spec_try_parse(spec_serialize(v)) == Some(v),
        spec_parse_settings(spec_serialize(v)) == v,
{
    reveal_strlit("{\n  \"username\": \"");
    reveal_strlit("\",\n  \"darkMode\": ");
    reveal_strlit(",\n  \"notificationsEnabled\": ");
    reveal_strlit(",\n  \"autoSaveIntervalSeconds\": ");
    reveal_strlit(",\n  \"theme\": \"");
    reveal_strlit("\"\n}");
    let s = spec_serialize(v);
    assert(s[0] == '{' && s[1] == '\n' && s[2] == ' ' && s[3] == ' ' && s[4] == '"');
    assert(spec_skip_ws(s, 0) == 0);
    assert(spec_skip_ws(s, 4) == 4);
    assert(spec_skip_ws(s, 3) == 4);
    assert(spec_skip_ws(s, 2) == 4);
    assert(spec_skip_ws(s, 1) == 4);
    lemma_rt_step1(v);
    lemma_rt_step2(v);
    lemma_rt_step3(v);
    lemma_rt_step4(v);
    lemma_rt_step5(v);
    assert(spec_parse_members(s, 4, empty_partial()) == Some((rt_p5(v), s.len() as int)));
    assert(spec_skip_ws(s, s.len() as int) == s.len());
    assert(fill_defaults(rt_p5(v)) == v);
    assert(spec_try_parse(s) == Some(v));
}

} // verus!
