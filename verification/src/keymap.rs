//! Layer-key mapping: key names, layer-key validation and the layer state
//! machine that every platform adapter drives.
//!
//! The adapters translate each OS keyboard event into one
//! [`LayerState::on_key`] call and perform the [`Action`] it returns.

use vstd::prelude::*;
use vstd::string::StringExecFns;
use crate::keys::{EventFlags, KeyCode, Platform};
use crate::text::{
    ascii_lowercase, char_lowercase, chars_equal, chars_of, decimal, decimal_string, is_white_space, lowercase_of, owned,
    parse_bounded, parse_unsigned_bounded, string_of, trim, trim_chars,
};

verus! {

/// The layer ("super") key used when none is configured: semicolon.
#[verifier::allow_in_spec]
pub fn default_layer_key(platform: Platform) -> KeyCode
    returns
        platform.key_semicolon(),
{
    platform.key_semicolon()
}

// ---------------------------------------------------------------------------
// Key names
// ---------------------------------------------------------------------------

/// Characters dropped when comparing key names.
pub open spec fn is_name_separator(c: char) -> bool {
    c == '_' || c == '-' || c == ' '
}

/// What `char::to_lowercase` yields: the ASCII lowercase letter for an ASCII
/// character, the Unicode lowercase mapping otherwise.
pub open spec fn lowercase(c: char) -> Seq<char> {
    if (c as u32) < 128 {
        seq![ascii_lowercase(c)]
    } else {
        char_lowercase(c)
    }
}

/// A key name with separators dropped and every character lowercased:
/// names are matched case- and separator-insensitively.
pub open spec fn normalize(s: Seq<char>) -> Seq<char>
    decreases s.len(),
{
    if s.len() == 0 {
        Seq::empty()
    } else {
        normalize(s.drop_last()) + if is_name_separator(s.last()) {
            Seq::empty()
        } else {
            lowercase(s.last())
        }
    }
}

fn normalize_chars(s: &Vec<char>) -> (r: Vec<char>)
    ensures
        r@ == normalize(s@),
{
    let mut r: Vec<char> = Vec::new();
    let mut i: usize = 0;
    while i < s.len()
        invariant
            i <= s@.len(),
            r@ == normalize(s@.subrange(0, i as int)),
        decreases s.len() - i,
    {
        let c = s[i];
        let ghost before = r@;
        if !(c == '_' || c == '-' || c == ' ') {
            let lower = lowercase_of(c);
            let mut j: usize = 0;
            while j < lower.len()
                invariant
                    j <= lower@.len(),
                    r@ == before + lower@.subrange(0, j as int),
                decreases lower.len() - j,
            {
                r.push(lower[j]);
                j = j + 1;
            }
            assert(lower@.subrange(0, lower@.len() as int) == lower@);
        }
        assert(s@.subrange(0, i + 1).drop_last() == s@.subrange(0, i as int));
        i = i + 1;
        assert(r@ == normalize(s@.subrange(0, i as int)));
    }
    assert(s@.subrange(0, s@.len() as int) == s@);
    r
}

/// Normalizes a key name for comparison (see [`normalize`]).
pub fn normalize_key_name(name: &str) -> (r: String)
    ensures
        r@ == normalize(name@),
{
    let chars = chars_of(name);
    let normalized = normalize_chars(&chars);
    string_of(&normalized)
}

/// The code of the first table entry, from index `i` on, whose normalized
/// name is `n`.
pub open spec fn name_lookup_from(platform: Platform, n: Seq<char>, i: int) -> Option<KeyCode>
    decreases platform.layer_key_table_len() - i,
{
    if i < 0 || i >= platform.layer_key_table_len() {
        None
    } else if normalize(platform.layer_key_entry(i).0) == n {
        Some(platform.layer_key_entry(i).1)
    } else {
        name_lookup_from(platform, n, i + 1)
    }
}

/// The key code a (normalized) friendly name stands for, if any.
pub open spec fn name_lookup(platform: Platform, n: Seq<char>) -> Option<KeyCode> {
    name_lookup_from(platform, n, 0)
}

/// The name of the first table entry, from index `i` on, with code `code`.
pub open spec fn code_name_from(platform: Platform, code: KeyCode, i: int) -> Option<Seq<char>>
    decreases platform.layer_key_table_len() - i,
{
    if i < 0 || i >= platform.layer_key_table_len() {
        None
    } else if platform.layer_key_entry(i).1 == code {
        Some(platform.layer_key_entry(i).0)
    } else {
        code_name_from(platform, code, i + 1)
    }
}

/// Canonical display name of a key code: the first name the table gives it.
pub open spec fn code_name(platform: Platform, code: KeyCode) -> Option<Seq<char>> {
    code_name_from(platform, code, 0)
}

fn lookup_name(platform: Platform, n: &Vec<char>) -> (r: Option<KeyCode>)
    ensures
        r == name_lookup(platform, n@),
{
    let len = platform.layer_key_table_len();
    let mut i: usize = 0;
    while i < len
        invariant
            len == platform.layer_key_table_len(),
            i <= len,
            name_lookup(platform, n@) == name_lookup_from(platform, n@, i as int),
        decreases len - i,
    {
        let (name, code) = platform.layer_key_entry_at(i);
        let name_chars = chars_of(name);
        let candidate = normalize_chars(&name_chars);
        if chars_equal(&candidate, n) {
            return Some(code);
        }
        i = i + 1;
    }
    None
}

/// Canonical display name for a key code, if it has one.
pub fn layer_key_name(platform: Platform, key_code: KeyCode) -> (r: Option<&'static str>)
    ensures
        r is Some <==> code_name(platform, key_code) is Some,
        r matches Some(name) ==> name@ == code_name(platform, key_code)->0,
{
    let len = platform.layer_key_table_len();
    let mut i: usize = 0;
    while i < len
        invariant
            len == platform.layer_key_table_len(),
            i <= len,
            code_name(platform, key_code) == code_name_from(platform, key_code, i as int),
        decreases len - i,
    {
        let (name, code) = platform.layer_key_entry_at(i);
        if code == key_code {
            return Some(name);
        }
        i = i + 1;
    }
    None
}

/// How a key code is shown to the user: `name (keycode N)` or `keycode N`.
pub open spec fn key_label(platform: Platform, key_code: KeyCode) -> Seq<char> {
    match code_name(platform, key_code) {
        Some(name) => name + " (keycode "@ + decimal(key_code as nat) + ")"@,
        None => "keycode "@ + decimal(key_code as nat),
    }
}

pub fn layer_key_label(platform: Platform, key_code: KeyCode) -> (r: String)
    ensures
        r@ == key_label(platform, key_code),
{
    let number = decimal_string(key_code as u64);
    match layer_key_name(platform, key_code) {
        Some(name) => {
            let mut r = owned(name);
            r.append(" (keycode ");
            r.append(number.as_str());
            r.append(")");
            r
        },
        None => {
            let mut r = owned("keycode ");
            r.append(number.as_str());
            r
        },
    }
}

/// Display name of the platform shortcut modifier (Command or Control).
pub fn shortcut_modifier_name(platform: Platform) -> (r: &'static str)
    ensures
        r@ == platform.spec_shortcut_modifier_name(),
{
    match platform {
        Platform::MacOs => "Command",
        _ => "Control",
    }
}

/// What raw numeric layer-key values are interpreted as.
pub fn platform_key_code_name(platform: Platform) -> (r: &'static str)
    ensures
        r@ == platform.spec_key_code_name(),
{
    match platform {
        Platform::MacOs => "macOS key code",
        Platform::Windows => "Windows virtual key code",
        Platform::Other => "virtual key code",
    }
}

// ---------------------------------------------------------------------------
// Modifier keys
// ---------------------------------------------------------------------------

/// Whether a key code is a modifier the layer machine drives via
/// platform-specific modifier events. A modifier used as the layer key is not
/// replayed when tapped on its own.
pub fn is_modifier(platform: Platform, key_code: KeyCode) -> (r: bool)
    ensures
        r == platform.is_modifier_key(key_code),
{
    match platform {
        Platform::MacOs => key_code == 55 || key_code == 54 || key_code == 56 || key_code == 60
            || key_code == 59 || key_code == 62 || key_code == 58 || key_code == 61,
        _ => key_code == 0x5B || key_code == 0x5C || key_code == 0xA0 || key_code == 0xA1
            || key_code == 0xA2 || key_code == 0xA3 || key_code == 0xA4 || key_code == 0xA5,
    }
}

/// The device-dependent flag bit set while the given modifier key is held, if
/// it is a supported modifier (macOS only).
pub fn modifier_device_flag(platform: Platform, key_code: KeyCode) -> (r: Option<EventFlags>)
    ensures
        r == platform.device_flag(key_code),
{
    match platform {
        Platform::MacOs => match key_code {
            55 => Some(0x0000_0008),
            54 => Some(0x0000_0010),
            56 => Some(0x0000_0002),
            60 => Some(0x0000_0004),
            59 => Some(0x0000_0001),
            62 => Some(0x0000_2000),
            58 => Some(0x0000_0020),
            61 => Some(0x0000_0040),
            _ => None,
        },
        _ => None,
    }
}

/// All flag bits (general mask + device bit) contributed by holding the given
/// modifier key (macOS only). When the modifier is the layer key, these are
/// stripped from the events the layer emits.
pub fn modifier_clear_mask(platform: Platform, key_code: KeyCode) -> (r: Option<EventFlags>)
    ensures
        r == platform.clear_mask(key_code),
{
    match platform {
        Platform::MacOs => match key_code {
            55 => Some(0x0010_0008),
            54 => Some(0x0010_0010),
            56 => Some(0x0002_0002),
            60 => Some(0x0002_0004),
            58 => Some(0x0008_0020),
            61 => Some(0x0008_0040),
            59 => Some(0x0004_0001),
            62 => Some(0x0004_2000),
            _ => None,
        },
        _ => None,
    }
}

/// `flags` with the platform shortcut modifier bit added; other bits kept.
#[verifier::allow_in_spec]
pub fn with_shortcut_modifier_flag(platform: Platform, flags: EventFlags) -> EventFlags
    returns
        flags | platform.shortcut_modifier_flag_mask(),
{
    flags | platform.shortcut_modifier_flag_mask()
}

// ---------------------------------------------------------------------------
// h/j/k/l
// ---------------------------------------------------------------------------

/// The arrow key that `h`/`j`/`k`/`l` become while the layer is held.
#[verifier::allow_in_spec]
pub fn hjkl_to_arrow(platform: Platform, key_code: KeyCode) -> Option<KeyCode>
    returns
        (if key_code == platform.key_h() {
            Some(platform.key_left_arrow())
        } else if key_code == platform.key_j() {
            Some(platform.key_down_arrow())
        } else if key_code == platform.key_k() {
            Some(platform.key_up_arrow())
        } else if key_code == platform.key_l() {
            Some(platform.key_right_arrow())
        } else {
            None
        }),
{
    if key_code == platform.key_h() {
        Some(platform.key_left_arrow())
    } else if key_code == platform.key_j() {
        Some(platform.key_down_arrow())
    } else if key_code == platform.key_k() {
        Some(platform.key_up_arrow())
    } else if key_code == platform.key_l() {
        Some(platform.key_right_arrow())
    } else {
        None
    }
}

/// Distinct state bit for each layer-mapped key, used to keep tracking a
/// key that went down while the layer was active until it comes back up.
#[verifier::allow_in_spec]
pub fn hjkl_key_bit(platform: Platform, key_code: KeyCode) -> Option<u8>
    returns
        (if key_code == platform.key_h() {
            Some(1u8)
        } else if key_code == platform.key_j() {
            Some(2u8)
        } else if key_code == platform.key_k() {
            Some(4u8)
        } else if key_code == platform.key_l() {
            Some(8u8)
        } else {
            None
        }),
{
    if key_code == platform.key_h() {
        Some(1)
    } else if key_code == platform.key_j() {
        Some(2)
    } else if key_code == platform.key_k() {
        Some(4)
    } else if key_code == platform.key_l() {
        Some(8)
    } else {
        None
    }
}

/// The arrow keys the layer emits.
pub open spec fn is_arrow_key(platform: Platform, key_code: KeyCode) -> bool {
    key_code == platform.key_left_arrow() || key_code == platform.key_right_arrow() || key_code
        == platform.key_down_arrow() || key_code == platform.key_up_arrow()
}

// ---------------------------------------------------------------------------
// Layer-key parsing and validation
// ---------------------------------------------------------------------------

/// A `Result` whose error message is taken by its view.
pub open spec fn result_view<T>(r: Result<T, String>) -> Result<T, Seq<char>> {
    match r {
        Ok(v) => Ok(v),
        Err(e) => Err(e@),
    }
}

pub open spec fn unsupported_key_message(key_code: KeyCode) -> Seq<char> {
    "key code "@ + decimal(key_code as nat)
        + " is not supported as the layer key because it has special/toggle behavior."@
}

pub open spec fn hjkl_key_message(key_code: KeyCode) -> Seq<char> {
    "key code "@ + decimal(key_code as nat)
        + " is one of h/j/k/l, which the layer maps to arrow keys and so cannot also be the layer key."@
}

pub open spec fn arrow_key_message(key_code: KeyCode) -> Seq<char> {
    "key code "@ + decimal(key_code as nat)
        + " is an arrow key that the layer emits, so it cannot also be the layer key."@
}

/// Which key codes may be the layer key, and the message for those that may
/// not: keys with toggle behaviour, h/j/k/l, and the arrow keys.
pub open spec fn layer_key_check(platform: Platform, key_code: KeyCode) -> Result<(), Seq<char>> {
    if platform.is_unsupported_layer_code(key_code) {
        Err(unsupported_key_message(key_code))
    } else if hjkl_key_bit(platform, key_code) is Some {
        Err(hjkl_key_message(key_code))
    } else if is_arrow_key(platform, key_code) {
        Err(arrow_key_message(key_code))
    } else {
        Ok(())
    }
}

/// A key code that the layer machine accepts as the layer key.
pub open spec fn valid_layer_key(platform: Platform, key_code: KeyCode) -> bool {
    layer_key_check(platform, key_code) is Ok
}

fn key_code_message(key_code: KeyCode, tail: &str) -> (r: String)
    ensures
        r@ == "key code "@ + decimal(key_code as nat) + tail@,
{
    let mut r = owned("key code ");
    let number = decimal_string(key_code as u64);
    r.append(number.as_str());
    r.append(tail);
    r
}

pub fn validate_layer_key(platform: Platform, key_code: KeyCode) -> (r: Result<(), String>)
    ensures
        result_view(r) == layer_key_check(platform, key_code),
{
    let unsupported = match platform {
        Platform::MacOs => key_code == 57 || key_code == 63,
        _ => key_code == 0x14,
    };
    if unsupported {
        return Err(
            key_code_message(
                key_code,
                " is not supported as the layer key because it has special/toggle behavior.",
            ),
        );
    }
    if hjkl_key_bit(platform, key_code).is_some() {
        return Err(
            key_code_message(
                key_code,
                " is one of h/j/k/l, which the layer maps to arrow keys and so cannot also be the layer key.",
            ),
        );
    }
    if key_code == platform.key_left_arrow() || key_code == platform.key_right_arrow() || key_code
        == platform.key_down_arrow() || key_code == platform.key_up_arrow() {
        return Err(
            key_code_message(
                key_code,
                " is an arrow key that the layer emits, so it cannot also be the layer key.",
            ),
        );
    }
    Ok(())
}

pub open spec fn unknown_key_message(platform: Platform, spec: Seq<char>) -> Seq<char> {
    "unknown layer key '"@ + spec
        + "'. Use a name like 'semicolon', 'quote', or 'right_command', or a numeric "@
        + platform.spec_key_code_name() + "."@
}

/// The key code a user-supplied layer-key spec denotes before validation: the
/// spec is trimmed and normalized, then looked up as a friendly name, and
/// failing that read as a decimal key code.
pub open spec fn layer_key_code(platform: Platform, spec: Seq<char>) -> Option<KeyCode> {
    let normalized = normalize(trim(spec));
    match name_lookup(platform, normalized) {
        Some(code) => Some(code),
        None => match parse_bounded(normalized, 0xFFFF) {
            Some(v) => Some(v as KeyCode),
            None => None,
        },
    }
}

/// The outcome of parsing a user-supplied layer-key spec.
pub open spec fn layer_key_parse(platform: Platform, spec: Seq<char>) -> Result<KeyCode, Seq<char>> {
    if trim(spec).len() == 0 {
        Err("layer key is empty"@)
    } else {
        match layer_key_code(platform, spec) {
            None => Err(unknown_key_message(platform, spec)),
            Some(code) => match layer_key_check(platform, code) {
                Ok(()) => Ok(code),
                Err(message) => Err(message),
            },
        }
    }
}

/// Parse a user-supplied layer-key spec — either a friendly name
/// (`semicolon`, `quote`, `right_command` …, case- and separator-insensitive)
/// or a raw decimal platform virtual key code — into a validated key code.
pub fn parse_layer_key(platform: Platform, spec: &str) -> (r: Result<KeyCode, String>)
    ensures
        result_view(r) == layer_key_parse(platform, spec@),
{
    let chars = chars_of(spec);
    let trimmed = trim_chars(&chars);
    if trimmed.len() == 0 {
        return Err(owned("layer key is empty"));
    }
    let normalized = normalize_chars(&trimmed);
    let key_code = match lookup_name(platform, &normalized) {
        Some(code) => code,
        None => match parse_unsigned_bounded(&normalized, 0xFFFF) {
            Some(v) => v as KeyCode,
            None => {
                let mut message = owned("unknown layer key '");
                message.append(spec);
                message.append(
                    "'. Use a name like 'semicolon', 'quote', or 'right_command', or a numeric ",
                );
                message.append(platform_key_code_name(platform));
                message.append(".");
                return Err(message);
            },
        },
    };
    match validate_layer_key(platform, key_code) {
        Ok(()) => Ok(key_code),
        Err(message) => Err(message),
    }
}

// ---------------------------------------------------------------------------
// Laws of layer-key parsing
// ---------------------------------------------------------------------------

/// Every name in the layer-key tables starts with a lowercase ASCII letter.
proof fn lemma_table_names_start_with_letter(platform: Platform, i: int)
    requires
        0 <= i < platform.layer_key_table_len(),
    ensures
        platform.layer_key_entry(i).0.len() > 0,
        'a' <= platform.layer_key_entry(i).0[0] && platform.layer_key_entry(i).0[0] <= 'z',
{
    reveal_strlit("semicolon");
    reveal_strlit("quote");
    reveal_strlit("apostrophe");
    reveal_strlit("grave");
    reveal_strlit("backtick");
    reveal_strlit("tab");
    reveal_strlit("return");
    reveal_strlit("enter");
    reveal_strlit("space");
    reveal_strlit("escape");
    reveal_strlit("delete");
    reveal_strlit("backslash");
    reveal_strlit("left_bracket");
    reveal_strlit("right_bracket");
    reveal_strlit("comma");
    reveal_strlit("period");
    reveal_strlit("slash");
    reveal_strlit("minus");
    reveal_strlit("equal");
    reveal_strlit("left_command");
    reveal_strlit("right_command");
    reveal_strlit("left_option");
    reveal_strlit("right_option");
    reveal_strlit("left_alt");
    reveal_strlit("right_alt");
    reveal_strlit("left_control");
    reveal_strlit("right_control");
    reveal_strlit("left_ctrl");
    reveal_strlit("right_ctrl");
    reveal_strlit("left_shift");
    reveal_strlit("right_shift");
    reveal_strlit("backspace");
    reveal_strlit("left_windows");
    reveal_strlit("right_windows");
    reveal_strlit("left_win");
    reveal_strlit("right_win");
}

/// The first character of a normalized name whose first character is an
/// ASCII non-separator.
proof fn lemma_normalize_first(s: Seq<char>)
    requires
        s.len() > 0,
        !is_name_separator(s[0]),
        (s[0] as u32) < 128,
    ensures
        normalize(s).len() > 0,
        normalize(s)[0] == ascii_lowercase(s[0]),
    decreases s.len(),
{
    if s.len() == 1 {
        assert(s.drop_last() =~= Seq::<char>::empty());
        assert(normalize(Seq::<char>::empty()) == Seq::<char>::empty());
        assert(s.last() == s[0]);
        assert(normalize(s) == Seq::<char>::empty() + lowercase(s[0]));
    } else {
        let init = s.drop_last();
        assert(init[0] == s[0]);
        lemma_normalize_first(init);
        let tail = if is_name_separator(s.last()) {
            Seq::<char>::empty()
        } else {
            lowercase(s.last())
        };
        assert(normalize(s) == normalize(init) + tail);
        assert((normalize(init) + tail)[0] == normalize(init)[0]);
    }
}

/// Normalizing leaves alone a string of ASCII characters that are neither
/// separators nor uppercase letters.
proof fn lemma_normalize_plain(s: Seq<char>)
    requires
        forall|k: int|
            0 <= k < s.len() ==> (#[trigger] s[k] as u32) < 128 && !is_name_separator(s[k]) && !(
            'A' <= s[k] && s[k] <= 'Z'),
    ensures
        normalize(s) == s,
    decreases s.len(),
{
    if s.len() > 0 {
        lemma_normalize_plain(s.drop_last());
        assert(s.drop_last().push(s.last()) == s);
    }
}

proof fn lemma_no_name_is_numeric(platform: Platform, d: Seq<char>, i: int)
    requires
        d.len() > 0,
        crate::text::is_digit(d[0]),
        0 <= i,
    ensures
        name_lookup_from(platform, d, i) is None,
    decreases platform.layer_key_table_len() - i,
{
    if i < platform.layer_key_table_len() {
        lemma_table_names_start_with_letter(platform, i);
        lemma_normalize_first(platform.layer_key_entry(i).0);
        lemma_no_name_is_numeric(platform, d, i + 1);
    }
}

/// Whatever parses as a layer key is a valid one: never a key with toggle
/// behaviour, one of h/j/k/l, or an arrow key.
pub proof fn law_parsed_layer_key_is_valid(platform: Platform, spec: Seq<char>)
    ensures
        layer_key_parse(platform, spec) matches Ok(code) ==> valid_layer_key(platform, code),
{
}

/// A valid layer key written as its decimal key code parses back to itself:
/// no key name reads as a number.
pub proof fn law_numeric_layer_key(platform: Platform, code: KeyCode)
    requires
        valid_layer_key(platform, code),
    ensures
        layer_key_parse(platform, decimal(code as nat)) == Ok::<KeyCode, Seq<char>>(code),
{
    let d = decimal(code as nat);
    crate::text::lemma_decimal_shape(code as nat);
    crate::text::lemma_trim_padded(d, Seq::empty());
    assert(d + Seq::<char>::empty() == d);
    lemma_normalize_plain(d);
    lemma_no_name_is_numeric(platform, d, 0);
    crate::text::lemma_parse_decimal(code as nat, 0xFFFF);
}

/// Key names are matched case- and separator-insensitively: two specs with
/// the same trimmed, normalized form parse to the same key code (or both
/// fail).
pub proof fn law_parse_depends_on_normalized_form(platform: Platform, s: Seq<char>, t: Seq<char>)
    requires
        normalize(trim(s)) == normalize(trim(t)),
    ensures
        layer_key_parse(platform, s) is Ok <==> layer_key_parse(platform, t) is Ok,
        layer_key_parse(platform, s) matches Ok(code) ==> layer_key_parse(platform, t) == Ok::<
            KeyCode,
            Seq<char>,
        >(code),
{
    assert(normalize(Seq::<char>::empty()) == Seq::<char>::empty());
    lemma_empty_name_is_unknown(platform);
}

/// The empty normalized name is neither a table name nor a number.
proof fn lemma_empty_name_is_unknown(platform: Platform)
    ensures
        layer_key_code(platform, Seq::empty()) is None,
{
    lemma_no_name_is_empty(platform, 0);
    assert(normalize(trim(Seq::<char>::empty())) == Seq::<char>::empty());
}

proof fn lemma_no_name_is_empty(platform: Platform, i: int)
    requires
        0 <= i,
    ensures
        name_lookup_from(platform, Seq::empty(), i) is None,
    decreases platform.layer_key_table_len() - i,
{
    if i < platform.layer_key_table_len() {
        lemma_table_names_start_with_letter(platform, i);
        lemma_normalize_first(platform.layer_key_entry(i).0);
        lemma_no_name_is_empty(platform, i + 1);
    }
}

/// Which entry of the table a normalized key name is, told apart by its
/// length and its first and last characters (no two names of a table agree
/// on all three); -1 for a name that is none of them.
spec fn name_index(platform: Platform, n: Seq<char>) -> int {
    match platform {
        Platform::MacOs => {
            if n.len() == 9 && n[0] == 's' && n.last() == 'n' {
                0
            } else if n.len() == 5 && n[0] == 'q' && n.last() == 'e' {
                1
            } else if n.len() == 10 && n[0] == 'a' && n.last() == 'e' {
                2
            } else if n.len() == 5 && n[0] == 'g' && n.last() == 'e' {
                3
            } else if n.len() == 8 && n[0] == 'b' && n.last() == 'k' {
                4
            } else if n.len() == 3 && n[0] == 't' && n.last() == 'b' {
                5
            } else if n.len() == 6 && n[0] == 'r' && n.last() == 'n' {
                6
            } else if n.len() == 5 && n[0] == 'e' && n.last() == 'r' {
                7
            } else if n.len() == 5 && n[0] == 's' && n.last() == 'e' {
                8
            } else if n.len() == 6 && n[0] == 'e' && n.last() == 'e' {
                9
            } else if n.len() == 6 && n[0] == 'd' && n.last() == 'e' {
                10
            } else if n.len() == 9 && n[0] == 'b' && n.last() == 'h' {
                11
            } else if n.len() == 11 && n[0] == 'l' && n.last() == 't' {
                12
            } else if n.len() == 12 && n[0] == 'r' && n.last() == 't' {
                13
            } else if n.len() == 5 && n[0] == 'c' && n.last() == 'a' {
                14
            } else if n.len() == 6 && n[0] == 'p' && n.last() == 'd' {
                15
            } else if n.len() == 5 && n[0] == 's' && n.last() == 'h' {
                16
            } else if n.len() == 5 && n[0] == 'm' && n.last() == 's' {
                17
            } else if n.len() == 5 && n[0] == 'e' && n.last() == 'l' {
                18
            } else if n.len() == 11 && n[0] == 'l' && n.last() == 'd' {
                19
            } else if n.len() == 12 && n[0] == 'r' && n.last() == 'd' {
                20
            } else if n.len() == 11 && n[0] == 'l' && n.last() == 's' {
                21
            } else if n.len() == 12 && n[0] == 'r' && n.last() == 's' {
                22
            } else if n.len() == 10 && n[0] == 'l' && n.last() == 'n' {
                23
            } else if n.len() == 11 && n[0] == 'r' && n.last() == 'n' {
                24
            } else if n.len() == 7 && n[0] == 'l' && n.last() == 't' {
                25
            } else if n.len() == 8 && n[0] == 'r' && n.last() == 't' {
                26
            } else if n.len() == 11 && n[0] == 'l' && n.last() == 'l' {
                27
            } else if n.len() == 12 && n[0] == 'r' && n.last() == 'l' {
                28
            } else if n.len() == 8 && n[0] == 'l' && n.last() == 'l' {
                29
            } else if n.len() == 9 && n[0] == 'r' && n.last() == 'l' {
                30
            } else if n.len() == 9 && n[0] == 'l' && n.last() == 't' {
                31
            } else if n.len() == 10 && n[0] == 'r' && n.last() == 't' {
                32
            } else {
                -1
            }
        },
        _ => {
            if n.len() == 9 && n[0] == 's' && n.last() == 'n' {
                0
            } else if n.len() == 5 && n[0] == 'q' && n.last() == 'e' {
                1
            } else if n.len() == 10 && n[0] == 'a' && n.last() == 'e' {
                2
            } else if n.len() == 5 && n[0] == 'g' && n.last() == 'e' {
                3
            } else if n.len() == 8 && n[0] == 'b' && n.last() == 'k' {
                4
            } else if n.len() == 3 && n[0] == 't' && n.last() == 'b' {
                5
            } else if n.len() == 6 && n[0] == 'r' && n.last() == 'n' {
                6
            } else if n.len() == 5 && n[0] == 'e' && n.last() == 'r' {
                7
            } else if n.len() == 5 && n[0] == 's' && n.last() == 'e' {
                8
            } else if n.len() == 6 && n[0] == 'e' && n.last() == 'e' {
                9
            } else if n.len() == 6 && n[0] == 'd' && n.last() == 'e' {
                10
            } else if n.len() == 9 && n[0] == 'b' && n.last() == 'e' {
                11
            } else if n.len() == 9 && n[0] == 'b' && n.last() == 'h' {
                12
            } else if n.len() == 11 && n[0] == 'l' && n.last() == 't' {
                13
            } else if n.len() == 12 && n[0] == 'r' && n.last() == 't' {
                14
            } else if n.len() == 5 && n[0] == 'c' && n.last() == 'a' {
                15
            } else if n.len() == 6 && n[0] == 'p' && n.last() == 'd' {
                16
            } else if n.len() == 5 && n[0] == 's' && n.last() == 'h' {
                17
            } else if n.len() == 5 && n[0] == 'm' && n.last() == 's' {
                18
            } else if n.len() == 5 && n[0] == 'e' && n.last() == 'l' {
                19
            } else if n.len() == 11 && n[0] == 'l' && n.last() == 'd' {
                20
            } else if n.len() == 12 && n[0] == 'r' && n.last() == 'd' {
                21
            } else if n.len() == 10 && n[0] == 'l' && n.last() == 'n' {
                22
            } else if n.len() == 11 && n[0] == 'r' && n.last() == 'n' {
                23
            } else if n.len() == 11 && n[0] == 'l' && n.last() == 's' {
                24
            } else if n.len() == 12 && n[0] == 'r' && n.last() == 's' {
                25
            } else if n.len() == 7 && n[0] == 'l' && n.last() == 'n' {
                26
            } else if n.len() == 8 && n[0] == 'r' && n.last() == 'n' {
                27
            } else if n.len() == 7 && n[0] == 'l' && n.last() == 't' {
                28
            } else if n.len() == 8 && n[0] == 'r' && n.last() == 't' {
                29
            } else if n.len() == 11 && n[0] == 'l' && n.last() == 'l' {
                30
            } else if n.len() == 12 && n[0] == 'r' && n.last() == 'l' {
                31
            } else if n.len() == 8 && n[0] == 'l' && n.last() == 'l' {
                32
            } else if n.len() == 9 && n[0] == 'r' && n.last() == 'l' {
                33
            } else if n.len() == 9 && n[0] == 'l' && n.last() == 't' {
                34
            } else if n.len() == 10 && n[0] == 'r' && n.last() == 't' {
                35
            } else {
                -1
            }
        },
    }
}

/// Each macOS table name starts and ends with a character that is not
/// whitespace, and its normalized form is told apart from every other one by
/// [`name_index`].
#[verifier::rlimit(100)]
#[verifier::spinoff_prover]
proof fn lemma_mac_table_name(i: int)
    requires
        0 <= i < 33,
    ensures
        Platform::MacOs.layer_key_entry(i).0.len() > 0,
        !is_white_space(Platform::MacOs.layer_key_entry(i).0[0]),
        !is_white_space(Platform::MacOs.layer_key_entry(i).0.last()),
        name_index(Platform::MacOs, normalize(Platform::MacOs.layer_key_entry(i).0)) == i,
{
    reveal_with_fuel(normalize, 14);
    if i == 0 {
        reveal_strlit("semicolon");
    } else if i == 1 {
        reveal_strlit("quote");
    } else if i == 2 {
        reveal_strlit("apostrophe");
    } else if i == 3 {
        reveal_strlit("grave");
    } else if i == 4 {
        reveal_strlit("backtick");
    } else if i == 5 {
        reveal_strlit("tab");
    } else if i == 6 {
        reveal_strlit("return");
    } else if i == 7 {
        reveal_strlit("enter");
    } else if i == 8 {
        reveal_strlit("space");
    } else if i == 9 {
        reveal_strlit("escape");
    } else if i == 10 {
        reveal_strlit("delete");
    } else if i == 11 {
        reveal_strlit("backslash");
    } else if i == 12 {
        reveal_strlit("left_bracket");
    } else if i == 13 {
        reveal_strlit("right_bracket");
    } else if i == 14 {
        reveal_strlit("comma");
    } else if i == 15 {
        reveal_strlit("period");
    } else if i == 16 {
        reveal_strlit("slash");
    } else if i == 17 {
        reveal_strlit("minus");
    } else if i == 18 {
        reveal_strlit("equal");
    } else if i == 19 {
        reveal_strlit("left_command");
    } else if i == 20 {
        reveal_strlit("right_command");
    } else if i == 21 {
        reveal_strlit("left_windows");
    } else if i == 22 {
        reveal_strlit("right_windows");
    } else if i == 23 {
        reveal_strlit("left_option");
    } else if i == 24 {
        reveal_strlit("right_option");
    } else if i == 25 {
        reveal_strlit("left_alt");
    } else if i == 26 {
        reveal_strlit("right_alt");
    } else if i == 27 {
        reveal_strlit("left_control");
    } else if i == 28 {
        reveal_strlit("right_control");
    } else if i == 29 {
        reveal_strlit("left_ctrl");
    } else if i == 30 {
        reveal_strlit("right_ctrl");
    } else if i == 31 {
        reveal_strlit("left_shift");
    } else if i == 32 {
        reveal_strlit("right_shift");
    }
}

/// The same for the Windows table (which `Platform::Other` shares).
#[verifier::rlimit(100)]
#[verifier::spinoff_prover]
proof fn lemma_windows_table_name(platform: Platform, i: int)
    requires
        platform != Platform::MacOs,
        0 <= i < 36,
    ensures
        platform.layer_key_entry(i).0.len() > 0,
        !is_white_space(platform.layer_key_entry(i).0[0]),
        !is_white_space(platform.layer_key_entry(i).0.last()),
        name_index(platform, normalize(platform.layer_key_entry(i).0)) == i,
{
    reveal_with_fuel(normalize, 14);
    if i == 0 {
        reveal_strlit("semicolon");
    } else if i == 1 {
        reveal_strlit("quote");
    } else if i == 2 {
        reveal_strlit("apostrophe");
    } else if i == 3 {
        reveal_strlit("grave");
    } else if i == 4 {
        reveal_strlit("backtick");
    } else if i == 5 {
        reveal_strlit("tab");
    } else if i == 6 {
        reveal_strlit("return");
    } else if i == 7 {
        reveal_strlit("enter");
    } else if i == 8 {
        reveal_strlit("space");
    } else if i == 9 {
        reveal_strlit("escape");
    } else if i == 10 {
        reveal_strlit("delete");
    } else if i == 11 {
        reveal_strlit("backspace");
    } else if i == 12 {
        reveal_strlit("backslash");
    } else if i == 13 {
        reveal_strlit("left_bracket");
    } else if i == 14 {
        reveal_strlit("right_bracket");
    } else if i == 15 {
        reveal_strlit("comma");
    } else if i == 16 {
        reveal_strlit("period");
    } else if i == 17 {
        reveal_strlit("slash");
    } else if i == 18 {
        reveal_strlit("minus");
    } else if i == 19 {
        reveal_strlit("equal");
    } else if i == 20 {
        reveal_strlit("left_command");
    } else if i == 21 {
        reveal_strlit("right_command");
    } else if i == 22 {
        reveal_strlit("left_option");
    } else if i == 23 {
        reveal_strlit("right_option");
    } else if i == 24 {
        reveal_strlit("left_windows");
    } else if i == 25 {
        reveal_strlit("right_windows");
    } else if i == 26 {
        reveal_strlit("left_win");
    } else if i == 27 {
        reveal_strlit("right_win");
    } else if i == 28 {
        reveal_strlit("left_alt");
    } else if i == 29 {
        reveal_strlit("right_alt");
    } else if i == 30 {
        reveal_strlit("left_control");
    } else if i == 31 {
        reveal_strlit("right_control");
    } else if i == 32 {
        reveal_strlit("left_ctrl");
    } else if i == 33 {
        reveal_strlit("right_ctrl");
    } else if i == 34 {
        reveal_strlit("left_shift");
    } else if i == 35 {
        reveal_strlit("right_shift");
    }
}

/// Each table name starts and ends with a character that is not whitespace,
/// and its normalized form is told apart from every other one by
/// [`name_index`].
proof fn lemma_table_name(platform: Platform, i: int)
    requires
        0 <= i < platform.layer_key_table_len(),
    ensures
        platform.layer_key_entry(i).0.len() > 0,
        !is_white_space(platform.layer_key_entry(i).0[0]),
        !is_white_space(platform.layer_key_entry(i).0.last()),
        name_index(platform, normalize(platform.layer_key_entry(i).0)) == i,
{
    match platform {
        Platform::MacOs => lemma_mac_table_name(i),
        _ => lemma_windows_table_name(platform, i),
    }
}

/// Looking up the normalized name of entry `i` from any index up to `i`
/// finds entry `i` itself.
proof fn lemma_lookup_table_name(platform: Platform, i: int, j: int)
    requires
        0 <= j <= i < platform.layer_key_table_len(),
    ensures
        name_lookup_from(platform, normalize(platform.layer_key_entry(i).0), j) == Some(
            platform.layer_key_entry(i).1,
        ),
    decreases i - j,
{
    lemma_table_name(platform, i);
    lemma_table_name(platform, j);
    if j < i {
        lemma_lookup_table_name(platform, i, j + 1);
    }
}

/// Every name of the layer-key table parses as its key code, whenever that
/// code may be the layer key: the accepted names are exactly as documented,
/// aliases included.
pub proof fn law_table_names_parse(platform: Platform, i: int)
    requires
        0 <= i < platform.layer_key_table_len(),
        valid_layer_key(platform, platform.layer_key_entry(i).1),
    ensures
        layer_key_parse(platform, platform.layer_key_entry(i).0) == Ok::<KeyCode, Seq<char>>(
            platform.layer_key_entry(i).1,
        ),
{
    let name = platform.layer_key_entry(i).0;
    lemma_table_name(platform, i);
    lemma_lookup_table_name(platform, i, 0);
    crate::text::lemma_trim_ends(name);
}

/// The canonical name of entry `i`'s code is the name of some entry with that
/// code.
proof fn lemma_code_name_entry(platform: Platform, code: KeyCode, i: int) -> (k: int)
    requires
        0 <= i,
        code_name_from(platform, code, i) is Some,
    ensures
        i <= k < platform.layer_key_table_len(),
        platform.layer_key_entry(k).1 == code,
        platform.layer_key_entry(k).0 == code_name_from(platform, code, i)->0,
    decreases platform.layer_key_table_len() - i,
{
    if platform.layer_key_entry(i).1 == code {
        i
    } else {
        lemma_code_name_entry(platform, code, i + 1)
    }
}

/// The name a key code is shown with (`status`, the running banner) parses
/// back to that code.
pub proof fn law_key_name_parses_back(platform: Platform, code: KeyCode)
    requires
        code_name(platform, code) is Some,
        valid_layer_key(platform, code),
    ensures
        layer_key_parse(platform, code_name(platform, code)->0) == Ok::<KeyCode, Seq<char>>(code),
{
    let k = lemma_code_name_entry(platform, code, 0);
    law_table_names_parse(platform, k);
}

} // verus!
