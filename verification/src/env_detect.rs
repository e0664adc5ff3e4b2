use vstd::prelude::*;
use vstd::string::*;
use vstd::utf8::*;

use crate::text::{
    contains_infix, has_infix, is_white_space, range_contains, range_equals, skip_end, skip_start,
    has_infix_avoids, has_infix_trans, str_equals, trim_by, trim_end_by, trim_end_by_cut,
    trim_end_ignores_tail, trim_start_by, trim_start_by_cut, trims_are_infixes, CharClass,
};

verus! {

/// The kind of display session the program runs in.
#[derive(Debug, Clone, Copy, PartialEq, Eq, Structural)]
pub enum DisplayEnv {
    /// Running on a native X11 session. All window hints work.
    X11,
    /// Running via XWayland with GDK_BACKEND=x11 set explicitly.
    /// All window hints work.
    XWaylandExplicit,
    /// Running via XWayland but GDK_BACKEND was not set explicitly.
    /// Window hints still work, but GDK_BACKEND=x11 is recommended.
    XWaylandImplicit,
    /// Running on native Wayland. Window hints (skip_taskbar, keep_above) are ignored.
    NativeWayland,
    /// The environment could not be determined. Hints are applied but may not work.
    Unknown,
}

impl DisplayEnv {
    /// Whether the session is X11 or runs through XWayland.
    pub open spec fn spec_is_x11_or_xwayland(self) -> bool {
        self is X11 || self is XWaylandExplicit || self is XWaylandImplicit
    }

    /// The human-readable name of the environment.
    pub open spec fn spec_label(self) -> Seq<char> {
        match self {
            DisplayEnv::X11 => "X11 (native)"@,
            DisplayEnv::XWaylandExplicit => "XWayland (configured)"@,
            DisplayEnv::XWaylandImplicit => "XWayland (auto-detected)"@,
            DisplayEnv::NativeWayland => "Native Wayland"@,
            DisplayEnv::Unknown => "Unknown"@,
        }
    }

    /// Whether hiding the window from the taskbar can take effect.
    pub fn taskbar_hiding_possible(&self) -> (r: bool)
        ensures
            r == self.spec_is_x11_or_xwayland(),
    {
        match self {
            DisplayEnv::X11 | DisplayEnv::XWaylandExplicit | DisplayEnv::XWaylandImplicit => true,
            _ => false,
        }
    }

    /// Whether the session is X11 or runs through XWayland.
    pub fn is_x11_or_xwayland(&self) -> (r: bool)
        ensures
            r == self.spec_is_x11_or_xwayland(),
    {
        match self {
            DisplayEnv::X11 | DisplayEnv::XWaylandExplicit | DisplayEnv::XWaylandImplicit => true,
            _ => false,
        }
    }

    /// The human-readable name of the environment.
    pub fn label(&self) -> (s: &'static str)
        ensures
            s@ == self.spec_label(),
    {
        match self {
            DisplayEnv::X11 => "X11 (native)",
            DisplayEnv::XWaylandExplicit => "XWayland (configured)",
            DisplayEnv::XWaylandImplicit => "XWayland (auto-detected)",
            DisplayEnv::NativeWayland => "Native Wayland",
            DisplayEnv::Unknown => "Unknown",
        }
    }
}


/// The environment that `detect` reports for the given session variables.
pub open spec fn detected_env(
    session_type: Seq<char>,
    has_wayland: bool,
    has_display: bool,
    gdk_backend: Seq<char>,
) -> DisplayEnv {
    if session_type == "wayland"@ || has_wayland {
        if has_display {
            if gdk_backend == "x11"@ {
                DisplayEnv::XWaylandExplicit
            } else {
                DisplayEnv::XWaylandImplicit
            }
        } else {
            DisplayEnv::NativeWayland
        }
    } else if has_display || session_type == "x11"@ {
        DisplayEnv::X11
    } else {
        DisplayEnv::Unknown
    }
}

/// Classifies the display environment from the session variables:
/// the value of `XDG_SESSION_TYPE` (empty when unset), whether
/// `WAYLAND_DISPLAY` and `DISPLAY` are set, and the value of `GDK_BACKEND`
/// (empty when unset).
pub fn detect(session_type: &str, has_wayland: bool, has_display: bool, gdk_backend: &str) -> (env:
    DisplayEnv)
    ensures
        env == detected_env(session_type@, has_wayland, has_display, gdk_backend@),
{
    if str_equals(session_type, "wayland") || has_wayland {
        if has_display {
            if str_equals(gdk_backend, "x11") {
                DisplayEnv::XWaylandExplicit
            } else {
                DisplayEnv::XWaylandImplicit
            }
        } else {
            DisplayEnv::NativeWayland
        }
    } else if has_display || str_equals(session_type, "x11") {
        DisplayEnv::X11
    } else {
        DisplayEnv::Unknown
    }
}

/// What `str::to_lowercase` returns for a string: its characters mapped to
/// their lowercase forms under the Unicode `Lowercase` property.
pub uninterp spec fn lowercase_of(s: Seq<char>) -> Seq<char>;

/// The ASCII lowercase form of a character: `A`..`Z` become `a`..`z`, every
/// other character stays.
pub open spec fn ascii_lower(c: char) -> char {
    if 'A' <= c <= 'Z' {
        ((c as u32) + 32) as char
    } else {
        c
    }
}

/// Calls `str::to_lowercase`. The contract ties the result to the argument
/// through `lowercase_of` and states it for all-ASCII strings, where each
/// upper-case letter becomes its lower-case letter and nothing else changes;
/// the Unicode case tables beyond ASCII are not stated.
#[verifier::external_body]
fn to_lowercase(s: &str) -> (r: String)
    ensures
        r@ == lowercase_of(s@),
        is_ascii_chars(s@) ==> r@ == s@.map_values(|c: char| ascii_lower(c)),
{
    s.to_lowercase()
}

/// Whether an already lowercased desktop name mentions GNOME.
pub fn names_gnome(lowered_desktop: &str) -> (r: bool)
    ensures
        r == has_infix(lowered_desktop@, "gnome"@),
{
    contains_infix(lowered_desktop, "gnome")
}

/// Whether the desktop is GNOME, from the value of `XDG_CURRENT_DESKTOP`
/// (empty when unset) and whether `GNOME_DESKTOP_SESSION_ID` is set.
pub fn is_gnome(current_desktop: &str, gnome_session: bool) -> (r: bool)
    ensures
        r == (has_infix(lowercase_of(current_desktop@), "gnome"@) || gnome_session),
        is_ascii_chars(current_desktop@) ==> r == (has_infix(
            current_desktop@.map_values(|c: char| ascii_lower(c)),
            "gnome"@,
        ) || gnome_session),
{
    let lowered = to_lowercase(current_desktop);
    names_gnome(lowered.as_str()) || gnome_session
}

/// What `String::from_utf8_lossy` returns for a byte string: the decoded
/// text, with each invalid sequence replaced by U+FFFD.
pub uninterp spec fn utf8_lossy_text(bytes: Seq<u8>) -> Seq<char>;

/// Calls `String::from_utf8_lossy`. The contract names the result and
/// states that valid UTF-8 is decoded as is; how invalid sequences are
/// replaced is not stated.
#[verifier::external_body]
fn decode_lossy(bytes: &[u8]) -> (r: String)
    ensures
        r@ == utf8_lossy_text(bytes@),
        valid_utf8(bytes@) ==> r@ == decode_utf8(bytes@),
{
    String::from_utf8_lossy(bytes).into_owned()
}

/// The keybinding that the text printed by
/// `gsettings get org.gnome.desktop.wm.keybindings always-on-top` holds,
/// such as `<Control><Super>t` in `['<Control><Super>t']`; none for an empty
/// list (`[]` or `@as []`) or an empty entry.
pub open spec fn always_on_top_key_in(text: Seq<char>) -> Option<Seq<char>> {
    let raw = trim_by(text, CharClass::Whitespace);
    if raw.contains('@') || raw == "[]"@ {
        None
    } else {
        let inner = trim_end_by(trim_start_by(raw, CharClass::Exactly('[')), CharClass::Exactly(']'));
        let key = trim_by(trim_by(inner, CharClass::Whitespace), CharClass::Exactly('\''));
        if key.len() == 0 {
            None
        } else {
            Some(key)
        }
    }
}

/// The characters of an optional string.
pub open spec fn opt_chars(s: Option<String>) -> Option<Seq<char>> {
    match s {
        Some(t) => Some(t@),
        None => None,
    }
}

/// Extracts the keybinding from the text printed by `gsettings get`.
pub fn parse_always_on_top_key(text: &str) -> (key: Option<String>)
    ensures
        opt_chars(key) == always_on_top_key_in(text@),
{
    let n = text.unicode_len();
    let a = skip_start(text, 0, n, CharClass::Whitespace);
    let b = skip_end(text, a, n, CharClass::Whitespace);
    assert(trim_by(text@, CharClass::Whitespace) == text@.subrange(a as int, b as int)) by {
        assert(text@.subrange(0, n as int) =~= text@);
    }
    if range_contains(text, a, b, '@') || range_equals(text, a, b, "[]") {
        return None;
    }
    let c = skip_start(text, a, b, CharClass::Exactly('['));
    let d = skip_end(text, c, b, CharClass::Exactly(']'));
    let e = skip_start(text, c, d, CharClass::Whitespace);
    let f = skip_end(text, e, d, CharClass::Whitespace);
    let g = skip_start(text, e, f, CharClass::Exactly('\''));
    let h = skip_end(text, g, f, CharClass::Exactly('\''));
    if g == h {
        return None;
    }
    let key = text.substring_char(g, h);
    Some(String::from_str(key))
}

/// Extracts the keybinding from a run of `gsettings get`: its exit status
/// and the bytes it printed. A failed run gives none.
pub fn gsettings_always_on_top_key(status_ok: bool, stdout: &[u8]) -> (key: Option<String>)
    ensures
        !status_ok ==> key is None,
        status_ok ==> opt_chars(key) == always_on_top_key_in(utf8_lossy_text(stdout@)),
        status_ok && valid_utf8(stdout@) ==> opt_chars(key) == always_on_top_key_in(
            decode_utf8(stdout@),
        ),
{
    if !status_ok {
        return None;
    }
    let text = decode_lossy(stdout);
    parse_always_on_top_key(text.as_str())
}

/// What `char::is_alphanumeric` returns: whether the character has the
/// Unicode `Alphabetic` property or a numeric general category.
pub uninterp spec fn unicode_alphanumeric(c: char) -> bool;

/// An ASCII letter or digit.
pub open spec fn ascii_alphanumeric(c: char) -> bool {
    ||| 'a' <= c <= 'z'
    ||| 'A' <= c <= 'Z'
    ||| '0' <= c <= '9'
}

/// Calls `char::is_alphanumeric`. The contract names the result, states it
/// for ASCII characters, where the alphanumeric ones are the letters and
/// digits, and states that no `White_Space` character (a space, separator
/// or control) is alphabetic or numeric; the Unicode tables beyond that are
/// not stated.
#[verifier::external_body]
fn char_is_alphanumeric(c: char) -> (r: bool)
    ensures
        r == unicode_alphanumeric(c),
        c < '\u{80}' ==> (r == ascii_alphanumeric(c)),
        is_white_space(c) ==> !r,
{
    c.is_alphanumeric()
}

/// Whether `char::is_alphanumeric` holds of `c`, with its ASCII part spelled
/// out: there the alphanumeric characters are the letters and digits.
pub open spec fn alphanumeric(c: char) -> bool {
    ||| (c < '\u{80}' && ascii_alphanumeric(c))
    ||| ('\u{80}' <= c && unicode_alphanumeric(c))
}

/// A character that may stand in a keybinding handed to `gsettings`.
pub open spec fn keybinding_char(c: char) -> bool {
    alphanumeric(c) || c == '<' || c == '>' || c == '-' || c == '_'
}

/// A keybinding that may be handed to `gsettings`: only alphanumeric
/// characters and `<`, `>`, `-`, `_`, and at most 64 bytes of UTF-8.
pub open spec fn safe_keybinding(key: &str) -> bool {
    &&& forall|i: int| 0 <= i < key@.len() ==> #[trigger] keybinding_char(key@[i])
    &&& key.len() <= 64
}

/// A character that keeps a keybinding a single plain list entry: not white
/// space, a quote, a bracket, `@`, a comma, `$` or `;`.
pub open spec fn inert_key_char(c: char) -> bool {
    &&& !is_white_space(c)
    &&& c != '\'' && c != '[' && c != ']' && c != '@'
    &&& c != ',' && c != '$' && c != ';'
}

/// Whether a keybinding may be handed to `gsettings`.
pub fn is_safe_keybinding(key: &str) -> (r: bool)
    ensures
        r == safe_keybinding(key),
        r ==> forall|i: int| 0 <= i < key@.len() ==> #[trigger] inert_key_char(key@[i]),
{
    let n = key.unicode_len();
    let mut i: usize = 0;
    while i < n
        invariant
            n == key@.len(),
            i <= n,
            forall|k: int| 0 <= k < i ==> #[trigger] keybinding_char(key@[k]),
            forall|k: int| 0 <= k < i ==> #[trigger] inert_key_char(key@[k]),
        decreases n - i,
    {
        let c = key.get_char(i);
        let alnum = char_is_alphanumeric(c);
        assert(alnum == alphanumeric(c));
        if !(alnum || c == '<' || c == '>' || c == '-' || c == '_') {
            assert(!keybinding_char(key@[i as int]));
            return false;
        }
        i = i + 1;
    }
    key.len() <= 64
}

/// The value `['<key>']` that sets a single always-on-top keybinding.
pub open spec fn always_on_top_value_of(key: Seq<char>) -> Seq<char> {
    "['"@ + key + "']"@
}

/// The value to hand to
/// `gsettings set org.gnome.desktop.wm.keybindings always-on-top`
/// for a keybinding, or none when the keybinding is refused as unsafe.
/// An accepted value is always the one-element list `['KEY']` with a key of
/// at most 64 bytes and no white space, quote, bracket, `@`, comma, `$` or `;`.
pub fn always_on_top_value(key: &str) -> (value: Option<String>)
    ensures
        value is Some <==> safe_keybinding(key),
        value matches Some(v) ==> v@ == always_on_top_value_of(key@),
        value is Some ==> key.len() <= 64,
        value is Some ==> forall|i: int| 0 <= i < key@.len() ==> #[trigger] inert_key_char(key@[i]),
{
    if !is_safe_keybinding(key) {
        return None;
    }
    let mut v = String::from_str("['");
    v.append(key);
    v.append("']");
    Some(v)
}

/// Writing a keybinding and reading it back gives the same keybinding: the
/// value that `always_on_top_value` builds for a non-empty key made of
/// plain characters (which every accepted key is), as `gsettings get` prints
/// it with any trailing white space such as its newline, parses back to that
/// key.
pub proof fn always_on_top_value_round_trip(key: Seq<char>, tail: Seq<char>)
    requires
        key.len() > 0,
        forall|i: int| 0 <= i < key.len() ==> #[trigger] inert_key_char(key[i]),
        forall|i: int| 0 <= i < tail.len() ==> #[trigger] is_white_space(tail[i]),
    ensures
        always_on_top_key_in(always_on_top_value_of(key) + tail) == Some(key),
{
    reveal_strlit("['");
    reveal_strlit("']");
    reveal_strlit("[]");
    let ws = CharClass::Whitespace;
    let t = always_on_top_value_of(key);
    assert(t =~= seq!['[', '\''] + key + seq!['\'', ']']);
    assert(t.len() == key.len() + 4);
    // Trimming the white space leaves the value.
    let printed = t + tail;
    assert(!is_white_space(printed[0]));
    assert(trim_start_by(printed, ws) == printed);
    assert forall|i: int| 0 <= i < tail.len() implies ws.holds(#[trigger] tail[i]) by {
        assert(is_white_space(tail[i]));
    }
    trim_end_ignores_tail(t, tail, ws);
    assert(t.last() == ']');
    assert(trim_end_by(t, ws) == t);
    assert(trim_by(printed, ws) == t);
    // Neither '@' nor the empty list.
    assert forall|i: int| 0 <= i < t.len() implies t[i] != '@' by {
        if 2 <= i < t.len() - 2 {
            assert(t[i] == key[i - 2]);
            assert(inert_key_char(key[i - 2]));
        }
    }
    assert(!t.contains('@'));
    assert(t != "[]"@);
    // Strip the brackets.
    let u = t.drop_first();
    assert(u =~= seq!['\''] + key + seq!['\'', ']']);
    assert(trim_start_by(u, CharClass::Exactly('[')) == u);
    assert(trim_start_by(t, CharClass::Exactly('[')) == u);
    let v = u.drop_last();
    assert(v =~= seq!['\''] + key + seq!['\'']);
    assert(trim_end_by(v, CharClass::Exactly(']')) == v);
    assert(trim_end_by(u, CharClass::Exactly(']')) == v);
    // No white space around the quotes.
    assert(trim_start_by(v, ws) == v);
    assert(trim_end_by(v, ws) == v);
    assert(trim_by(v, ws) == v);
    // Strip the quotes.
    let w = v.drop_first();
    assert(w =~= key + seq!['\'']);
    assert(w[0] == key[0]);
    assert(inert_key_char(key[0]));
    assert(trim_start_by(w, CharClass::Exactly('\'')) == w);
    assert(trim_start_by(v, CharClass::Exactly('\'')) == w);
    assert(w.drop_last() =~= key);
    assert(inert_key_char(key[key.len() - 1]));
    assert(key.last() == key[key.len() - 1]);
    assert(trim_end_by(key, CharClass::Exactly('\'')) == key);
    assert(trim_end_by(w, CharClass::Exactly('\'')) == key);
    assert(trim_by(v, CharClass::Exactly('\'')) == key);
}

/// When `DISPLAY` is set, the detected environment is X11 or XWayland, so
/// the window hints take effect.
pub proof fn display_means_hints_work(
    session_type: Seq<char>,
    has_wayland: bool,
    has_display: bool,
    gdk_backend: Seq<char>,
)
    requires
        has_display,
    ensures
        detected_env(session_type, has_wayland, has_display, gdk_backend).spec_is_x11_or_xwayland(),
{
}

/// The environment is native Wayland exactly when the session is a Wayland
/// one and `DISPLAY` is not set.
pub proof fn native_wayland_exactly_without_display(
    session_type: Seq<char>,
    has_wayland: bool,
    has_display: bool,
    gdk_backend: Seq<char>,
)
    ensures
        (detected_env(session_type, has_wayland, has_display, gdk_backend) == DisplayEnv::NativeWayland)
            <==> ((session_type == "wayland"@ || has_wayland) && !has_display),
{
}

/// Different environments carry different labels.
pub proof fn labels_are_distinct(a: DisplayEnv, b: DisplayEnv)
    requires
        a != b,
    ensures
        a.spec_label() != b.spec_label(),
{
    reveal_strlit("X11 (native)");
    reveal_strlit("XWayland (configured)");
    reveal_strlit("XWayland (auto-detected)");
    reveal_strlit("Native Wayland");
    reveal_strlit("Unknown");
    assert(a.spec_label().len() != b.spec_label().len());
}

/// In a Wayland session with `DISPLAY` set, the program runs through
/// XWayland, and the environment counts as configured (`XWaylandExplicit`)
/// exactly when `GDK_BACKEND` is `x11`, whatever `WAYLAND_DISPLAY` is.
pub proof fn xwayland_configured_exactly_with_x11_backend(
    session_type: Seq<char>,
    has_wayland: bool,
    gdk_backend: Seq<char>,
)
    requires
        session_type == "wayland"@ || has_wayland,
    ensures
        detected_env(session_type, has_wayland, true, gdk_backend) is XWaylandExplicit
            || detected_env(session_type, has_wayland, true, gdk_backend) is XWaylandImplicit,
        (detected_env(session_type, has_wayland, true, gdk_backend) is XWaylandExplicit) <==> gdk_backend
            == "x11"@,
{
}

/// Whatever the session, a configured XWayland environment is only ever
/// reported with `DISPLAY` set and `GDK_BACKEND` equal to `x11`, and an
/// auto-detected one only with `DISPLAY` set and another `GDK_BACKEND`.
pub proof fn xwayland_needs_display_and_backend_decides(
    session_type: Seq<char>,
    has_wayland: bool,
    has_display: bool,
    gdk_backend: Seq<char>,
)
    ensures
        detected_env(session_type, has_wayland, has_display, gdk_backend) is XWaylandExplicit
            ==> has_display && gdk_backend == "x11"@,
        detected_env(session_type, has_wayland, has_display, gdk_backend) is XWaylandImplicit
            ==> has_display && gdk_backend != "x11"@,
{
}

/// Outside a Wayland session the environment is X11 exactly when `DISPLAY`
/// is set or the session type is `x11`, and unknown otherwise.
pub proof fn x11_outside_wayland(
    session_type: Seq<char>,
    has_wayland: bool,
    has_display: bool,
    gdk_backend: Seq<char>,
)
    requires
        session_type != "wayland"@,
        !has_wayland,
    ensures
        (detected_env(session_type, has_wayland, has_display, gdk_backend) is X11) <==> (has_display
            || session_type == "x11"@),
        !(detected_env(session_type, has_wayland, has_display, gdk_backend) is X11)
            ==> detected_env(session_type, has_wayland, has_display, gdk_backend) is Unknown,
{
}

/// Every key of at most 64 bytes made of ASCII letters, digits and `<`,
/// `>`, `-`, `_`, in any order, is accepted.
pub proof fn plain_ascii_keybindings_are_safe(key: &str)
    requires
        key.len() <= 64,
        forall|i: int|
            0 <= i < key@.len() ==> {
                let c = #[trigger] key@[i];
                ||| 'a' <= c <= 'z'
                ||| 'A' <= c <= 'Z'
                ||| '0' <= c <= '9'
                ||| c == '<' || c == '>' || c == '-' || c == '_'
            },
    ensures
        safe_keybinding(key),
{
}

/// A key is accepted exactly when it has at most 64 bytes and each of its
/// characters, taken alone, would be accepted as a one-character key: the
/// verdict on a character does not depend on its neighbours.
pub proof fn keybinding_safety_is_per_character(key: &str)
    ensures
        safe_keybinding(key) <==> (key.len() <= 64 && forall|i: int|
            0 <= i < key@.len() ==> #[trigger] keybinding_char(key@[i])),
        forall|i: int, j: int|
            0 <= i < key@.len() && 0 <= j < key@.len() && key@[i] == key@[j] ==> (keybinding_char(
                #[trigger] key@[i],
            ) == keybinding_char(#[trigger] key@[j])),
{
}

/// What the output parser gives back: an `@` anywhere in the output means
/// no keybinding; a keybinding found is a non-empty part of the output,
/// holds no `@`, and neither starts nor ends with a quote.
pub proof fn parsed_key_properties(text: Seq<char>)
    ensures
        text.contains('@') ==> always_on_top_key_in(text) is None,
        always_on_top_key_in(text) matches Some(k) ==> {
            &&& k.len() > 0
            &&& has_infix(text, k)
            &&& !k.contains('@')
            &&& k[0] != '\''
            &&& k.last() != '\''
        },
{
    let ws = CharClass::Whitespace;
    let s1 = trim_start_by(text, ws);
    let a = trim_start_by_cut(text, ws);
    let b = trim_end_by_cut(s1, ws);
    let raw = trim_by(text, ws);
    assert(raw == text.subrange(a, a + b)) by {
        assert(s1.subrange(0, b) =~= text.subrange(a, a + b));
    }
    if text.contains('@') {
        let p = choose|p: int| 0 <= p < text.len() && text[p] == '@';
        assert(!ws.holds('@'));
        if p < a {
            assert(ws.holds(text[p]));
        } else if p >= a + b {
            assert(s1[p - a] == text[p]);
            assert(ws.holds(s1[p - a]));
        } else {
            assert(raw[p - a] == '@');
        }
        assert(raw.contains('@'));
    }
    if !raw.contains('@') && raw != "[]"@ {
        let lb = CharClass::Exactly('[');
        let rb = CharClass::Exactly(']');
        let q = CharClass::Exactly('\'');
        let i1 = trim_start_by(raw, lb);
        let inner = trim_end_by(i1, rb);
        let m = trim_by(inner, ws);
        let m1 = trim_start_by(m, q);
        let k = trim_end_by(m1, q);
        trims_are_infixes(text, ws);
        trims_are_infixes(raw, lb);
        trims_are_infixes(i1, rb);
        trims_are_infixes(inner, ws);
        trims_are_infixes(m, q);
        trims_are_infixes(m1, q);
        has_infix_trans(text, raw, i1);
        has_infix_trans(text, i1, inner);
        has_infix_trans(text, inner, m);
        has_infix_trans(text, m, m1);
        has_infix_trans(text, m1, k);
        has_infix_trans(raw, i1, inner);
        has_infix_trans(raw, inner, m);
        has_infix_trans(raw, m, m1);
        has_infix_trans(raw, m1, k);
        if k.len() > 0 {
            has_infix_avoids(raw, k, '@');
            let c1 = trim_start_by_cut(m, q);
            let c2 = trim_end_by_cut(m1, q);
            assert(k[0] == m1[0]);
            assert(m1[0] == m[c1]);
            assert(k.last() == m1[c2 - 1]);
        }
    }
}

} // verus!
