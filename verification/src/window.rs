//! The floating lyric window: what it is sent, which of its settings the
//! native side reads, and when it is shown; and the cookies that the login
//! window hands to the HTTP client.
use vstd::prelude::*;
use crate::text::{push_str, opt_str};

verus! {

/// The last lyric payload sent to the floating window.
pub struct FloatingLyricState {
    payload: Option<String>,
}

impl FloatingLyricState {
    pub closed spec fn stored(&self) -> Option<Seq<char>> {
        opt_str(self.payload)
    }

    pub fn new() -> (r: Self)
        ensures
            r.stored() is None,
    {
        FloatingLyricState { payload: None }
    }

    pub fn set(&mut self, payload: String)
        ensures
            final(self).stored() == Some(payload@),
    {
        self.payload = Some(payload);
    }

    pub fn get(&self) -> (r: Option<String>)
        ensures
            opt_str(r) == self.stored(),
    {
        match &self.payload {
            Some(p) => Some(p.clone()),
            None => None,
        }
    }
}

/// The last settings payload of the floating window (the front end's JSON).
pub struct FloatingLyricSettingsState {
    payload: Option<String>,
}

impl FloatingLyricSettingsState {
    pub closed spec fn stored(&self) -> Option<Seq<char>> {
        opt_str(self.payload)
    }

    pub fn new() -> (r: Self)
        ensures
            r.stored() is None,
    {
        FloatingLyricSettingsState { payload: None }
    }

    pub fn set(&mut self, payload: String)
        ensures
            final(self).stored() == Some(payload@),
    {
        self.payload = Some(payload);
    }

    pub fn get(&self) -> (r: Option<String>)
        ensures
            opt_str(r) == self.stored(),
    {
        match &self.payload {
            Some(p) => Some(p.clone()),
            None => None,
        }
    }
}

/// The boolean found in the JSON text `text` by following the object keys
/// of `path`; `None` where the text is not JSON, a key is missing or the
/// value is not a boolean (`serde_json::from_str`, `Value::get`,
/// `Value::as_bool`).
pub uninterp spec fn json_bool_at(text: Seq<char>, path: Seq<Seq<char>>) -> Option<bool>;

/// Parses `text` with `serde_json` and follows `path` to a boolean.
#[verifier::external_body]
fn json_bool(text: &str, path: &[&str]) -> (r: Option<bool>)
    ensures
        r == json_bool_at(text@, path@.map_values(|p: &str| p@)),
{
    let value: serde_json::Value = serde_json::from_str(text).ok()?;
    let mut current = &value;
    for key in path {
        current = current.get(*key)?;
    }
    current.as_bool()
}

/// What the native side reads of the floating window's settings.
#[derive(Debug, Clone, Copy, PartialEq, Eq)]
pub struct FloatSettings {
    pub enabled: bool,
    pub hide_when_main_visible: bool,
    /// Locked: mouse events pass through to the windows below.
    pub locked: bool,
}

/// The settings as the payload gives them, each with its default where the
/// payload does not say: off, hidden while the main window shows, unlocked.
pub open spec fn float_settings_spec(payload: Option<Seq<char>>) -> FloatSettings {
    match payload {
        None => FloatSettings { enabled: false, hide_when_main_visible: true, locked: false },
        Some(p) => FloatSettings {
            enabled: match json_bool_at(p, seq!["enableLyricFloatingWindow"@]) {
                Some(b) => b,
                None => false,
            },
            hide_when_main_visible: match json_bool_at(
                p,
                seq!["hideLyricFloatingWindowWhenMainVisible"@],
            ) {
                Some(b) => b,
                None => true,
            },
            locked: match json_bool_at(p, seq!["lyricWindow"@, "locked"@]) {
                Some(b) => b,
                None => false,
            },
        },
    }
}

pub fn float_settings(payload: Option<&str>) -> (r: FloatSettings)
    ensures
        r == float_settings_spec(crate::text::opt_text(payload)),
{
    let p = match payload {
        Some(p) => p,
        None => return FloatSettings { enabled: false, hide_when_main_visible: true, locked: false },
    };
    let k1 = ["enableLyricFloatingWindow"];
    let k2 = ["hideLyricFloatingWindowWhenMainVisible"];
    let k3 = ["lyricWindow", "locked"];
    assert(k1@.map_values(|q: &str| q@) =~= seq!["enableLyricFloatingWindow"@]);
    assert(k2@.map_values(|q: &str| q@) =~= seq!["hideLyricFloatingWindowWhenMainVisible"@]);
    assert(k3@.map_values(|q: &str| q@) =~= seq!["lyricWindow"@, "locked"@]);
    let enabled = match json_bool(p, &k1) {
        Some(b) => b,
        None => false,
    };
    let hide_when_main_visible = match json_bool(p, &k2) {
        Some(b) => b,
        None => true,
    };
    let locked = match json_bool(p, &k3) {
        Some(b) => b,
        None => false,
    };
    FloatSettings { enabled, hide_when_main_visible, locked }
}

/// Whether the floating window shows next to a main window that is (or is
/// not) visible: only when enabled, and not beside a visible main window
/// where the settings say so.
pub open spec fn float_visible_spec(s: FloatSettings, main_visible: bool) -> bool {
    s.enabled && !(s.hide_when_main_visible && main_visible)
}

pub fn float_visible(s: FloatSettings, main_visible: bool) -> (r: bool)
    ensures
        r == float_visible_spec(s, main_visible),
{
    s.enabled && !(s.hide_when_main_visible && main_visible)
}

/// A disabled floating window never shows.
pub proof fn lemma_disabled_float_stays_hidden(s: FloatSettings, main_visible: bool)
    requires
        !s.enabled,
    ensures
        !float_visible_spec(s, main_visible),
{
}

/// How `serde_json` writes one character inside a string literal: `"` and
/// `\\` behind a backslash; the control characters below U+0020 as `\b`,
/// `\t`, `\n`, `\f`, `\r` or `\u00XX` (lower-case hex); any other
/// character as itself.
pub open spec fn json_escape(c: char) -> Seq<char> {
    let u = c as u32;
    if c == '"' {
        seq!['\\', '"']
    } else if c == '\\' {
        seq!['\\', '\\']
    } else if u == 0x08 {
        seq!['\\', 'b']
    } else if u == 0x09 {
        seq!['\\', 't']
    } else if u == 0x0a {
        seq!['\\', 'n']
    } else if u == 0x0c {
        seq!['\\', 'f']
    } else if u == 0x0d {
        seq!['\\', 'r']
    } else if u < 0x20 {
        seq!['\\', 'u', '0', '0', crate::cache::hex_lower(u as int / 16), crate::cache::hex_lower(u as int % 16)]
    } else {
        seq![c]
    }
}

/// The characters of `s`, each as `json_escape` writes it.
pub open spec fn json_escaped(s: Seq<char>) -> Seq<char>
    decreases s.len(),
{
    if s.len() == 0 {
        Seq::<char>::empty()
    } else {
        json_escaped(s.drop_last()) + json_escape(s.last())
    }
}

/// The JSON string literal of a text, as `serde_json::to_string` writes it:
/// the escaped text between double quotes.
pub open spec fn json_string_literal(s: Seq<char>) -> Seq<char> {
    seq!['"'] + json_escaped(s) + seq!['"']
}

/// `serde_json::to_string` on a `&str`: the JSON string literal of the text
/// (`format_escaped_str` with the compact formatter, whose escape table is
/// what `json_escape` states). It always succeeds: a `str` serializes through `serialize_str`, which only
/// writes the escaped text into the `Vec<u8>` behind `to_vec`, and writing to
/// a `Vec` does not fail; the error cases the crate documents (a failing
/// `Serialize` impl, a map with non-string keys) cannot arise.
#[verifier::external_body]
fn json_quote(s: &str) -> (r: Option<String>)
    ensures
        r is Some,
        r matches Some(t) ==> t@ == json_string_literal(s@),
{
    serde_json::to_string(s).ok()
}

/// The script that hands a lyric payload to the floating window.
pub open spec fn lyric_update_script_text(payload: Seq<char>) -> Seq<char> {
    "window.dispatchEvent(new CustomEvent('listen1-native-lyric-update', { detail: "@
        + json_string_literal(payload) + " }));"@
}

pub fn lyric_update_script(payload: &str) -> (r: Option<String>)
    ensures
        r matches Some(t) && t@ == lyric_update_script_text(payload@),
{
    let quoted = match json_quote(payload) {
        Some(q) => q,
        None => return None,
    };
    let mut s = String::new();
    push_str(&mut s, "window.dispatchEvent(new CustomEvent('listen1-native-lyric-update', { detail: ");
    push_str(&mut s, quoted.as_str());
    push_str(&mut s, " }));");
    Some(s)
}

/// A cookie of the login window as the HTTP client's jar takes it.
pub open spec fn cookie_line_text(
    name: Seq<char>,
    value: Seq<char>,
    path: Option<Seq<char>>,
    domain: Option<Seq<char>>,
    secure: bool,
) -> Seq<char> {
    let base = name + "="@ + value;
    let with_path = match path {
        Some(p) => base + "; Path="@ + p,
        None => base,
    };
    let with_domain = match domain {
        Some(d) => with_path + "; Domain="@ + d,
        None => with_path,
    };
    if secure {
        with_domain + "; Secure"@
    } else {
        with_domain
    }
}

pub fn cookie_line(name: &str, value: &str, path: Option<&str>, domain: Option<&str>, secure: bool) -> (r: String)
    ensures
        r@ == cookie_line_text(
            name@,
            value@,
            crate::text::opt_text(path),
            crate::text::opt_text(domain),
            secure,
        ),
{
    let mut s = name.to_owned();
    push_str(&mut s, "=");
    push_str(&mut s, value);
    match path {
        Some(p) => {
            push_str(&mut s, "; Path=");
            push_str(&mut s, p);
        },
        None => {},
    }
    match domain {
        Some(d) => {
            push_str(&mut s, "; Domain=");
            push_str(&mut s, d);
        },
        None => {},
    }
    if secure {
        push_str(&mut s, "; Secure");
    }
    s
}

/// The cookie that makes the jar forget `name`.
pub fn expired_cookie(name: &str) -> (r: String)
    ensures
        r@ == name@ + "=; Max-Age=0; Path=/"@,
{
    let mut s = name.to_owned();
    push_str(&mut s, "=; Max-Age=0; Path=/");
    s
}

} // verus!
