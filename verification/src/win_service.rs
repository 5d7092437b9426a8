//! The Windows background process and its login auto-start task: file
//! locations, the saved layer key, the health record, the command line of the
//! scheduled task, and messages.

use vstd::prelude::*;
use vstd::string::StringExecFns;
use crate::cli::{
    Command, views, law_service_run_arguments, parse_args_spec, service_run_args, service_run_arguments,
};
use crate::command::{join_with_spaces, joined};
use crate::error::Error;
use crate::keymap::{law_numeric_layer_key, layer_key_parse, parse_layer_key, valid_layer_key};
use crate::keys::{KeyCode, Platform};
use crate::keymap::{default_layer_key, key_label, layer_key_label};
use crate::report::{
    auto_start_status, auto_start_text, binary_line, binary_text, labelled, no_auto_start_text, outcome_text,
    yes_no, yes_or_no,
};
use crate::text::{
    chars_of, decimal, decimal_string, is_white_space, lemma_decimal_shape, lemma_words_of_record,
    owned, parse_bounded, parse_unsigned_bounded, push_char, split_words, str_equal, string_of, trim, trim_chars, words,
};

verus! {

/// Identifier of the application's data directory.
pub open spec fn spec_label() -> Seq<char> {
    "com.kazuki-hanai.hjkl"@
}

pub fn label() -> (r: &'static str)
    ensures
        r@ == spec_label(),
{
    "com.kazuki-hanai.hjkl"
}

/// Name of the login auto-start task.
pub fn task_name() -> (r: &'static str)
    ensures
        r@ == "hjkl"@,
{
    "hjkl"
}

/// `PathBuf::join` on Windows for a relative component: a `\` goes between
/// the two unless `base` is empty or already ends with a separator (`\` or
/// `/`). (The base is an absolute directory, never a bare drive prefix.)
pub open spec fn join_windows(base: Seq<char>, rel: Seq<char>) -> Seq<char> {
    if base.len() == 0 || base.last() == '\\' || base.last() == '/' {
        base + rel
    } else {
        base + "\\"@ + rel
    }
}

pub fn join_path(base: &str, rel: &str) -> (r: String)
    ensures
        r@ == join_windows(base@, rel@),
{
    let b = chars_of(base);
    let mut r = owned(base);
    if !(b.len() == 0 || b[b.len() - 1] == '\\' || b[b.len() - 1] == '/') {
        r.append("\\");
    }
    r.append(rel);
    r
}

/// The local application data directory from the value of `LOCALAPPDATA`,
/// which must be set, non-empty and (as `absolute` tells) absolute.
pub fn local_app_data(value: Option<&str>, absolute: bool) -> (r: Result<String, Error>)
    ensures
        match value {
            None => r matches Err(e) && e.spec_message()
                == "LOCALAPPDATA environment variable is not set"@,
            Some(v) => if v@.len() == 0 {
                r matches Err(e) && e.spec_message()
                    == "LOCALAPPDATA environment variable is not set"@
            } else if !absolute {
                r matches Err(e) && e.spec_message() == "LOCALAPPDATA must be an absolute path, got: "@
                    + v@
            } else {
                r matches Ok(p) && p@ == v@
            },
        },
{
    match value {
        None => Err(Error::new(owned("LOCALAPPDATA environment variable is not set"))),
        Some(v) => {
            let chars = chars_of(v);
            if chars.len() == 0 {
                Err(Error::new(owned("LOCALAPPDATA environment variable is not set")))
            } else if !absolute {
                let mut message = owned("LOCALAPPDATA must be an absolute path, got: ");
                message.append(v);
                Err(Error::new(message))
            } else {
                Ok(owned(v))
            }
        },
    }
}

/// The application's data directory.
pub fn app_data_dir(local_app_data: &str) -> (r: String)
    ensures
        r@ == join_windows(local_app_data@, spec_label()),
{
    join_path(local_app_data, label())
}

/// The health record the background process writes.
pub fn health_path(local_app_data: &str) -> (r: String)
    ensures
        r@ == join_windows(join_windows(local_app_data@, spec_label()), "health"@),
{
    let dir = app_data_dir(local_app_data);
    join_path(dir.as_str(), "health")
}

/// The file that remembers the configured layer key.
pub fn config_path(local_app_data: &str) -> (r: String)
    ensures
        r@ == join_windows(join_windows(local_app_data@, spec_label()), "layer-key"@),
{
    let dir = app_data_dir(local_app_data);
    join_path(dir.as_str(), "layer-key")
}

// ---------------------------------------------------------------------------
// The saved layer key
// ---------------------------------------------------------------------------

/// The contents of the layer-key file: the key code and a newline.
pub open spec fn layer_key_config_text(code: KeyCode) -> Seq<char> {
    decimal(code as nat) + "\n"@
}

pub fn layer_key_config(code: KeyCode) -> (r: String)
    ensures
        r@ == layer_key_config_text(code),
{
    let mut r = decimal_string(code as u64);
    r.append("\n");
    r
}

/// The layer key a layer-key file holds: its trimmed contents read as a key
/// code, which must still be accepted as a layer key.
pub open spec fn configured_key(platform: Platform, contents: Seq<char>) -> Option<KeyCode> {
    match parse_bounded(trim(contents), 0xFFFF) {
        Some(code) => match layer_key_parse(platform, decimal(code)) {
            Ok(key) => Some(key),
            Err(_) => None,
        },
        None => None,
    }
}

pub fn configured_layer_key(platform: Platform, contents: &str) -> (r: Option<KeyCode>)
    ensures
        r == configured_key(platform, contents@),
{
    let chars = chars_of(contents);
    let trimmed = trim_chars(&chars);
    match parse_unsigned_bounded(&trimmed, 0xFFFF) {
        Some(code) => {
            let text = decimal_string(code);
            match parse_layer_key(platform, text.as_str()) {
                Ok(key) => Some(key),
                Err(_) => None,
            }
        },
        None => None,
    }
}

/// The layer key to use: the one given on the command line, else the saved
/// one.
pub open spec fn resolved_layer_key(explicit: Option<KeyCode>, configured: Option<KeyCode>) -> Option<
    KeyCode,
> {
    match explicit {
        Some(k) => Some(k),
        None => configured,
    }
}

pub fn resolve_layer_key(explicit: Option<KeyCode>, configured: Option<KeyCode>) -> (r: Option<
    KeyCode,
>)
    ensures
        r == resolved_layer_key(explicit, configured),
{
    match explicit {
        Some(k) => Some(k),
        None => configured,
    }
}

// ---------------------------------------------------------------------------
// Health record
// ---------------------------------------------------------------------------

/// Ground truth written by the background process itself: whether it
/// installed the keyboard hook.
#[derive(Clone, Copy, Debug, PartialEq, Eq, Structural)]
pub enum Health {
    Healthy,
    HookFailed,
}

pub open spec fn health_token(health: Health) -> Seq<char> {
    match health {
        Health::Healthy => "ok"@,
        Health::HookFailed => "hook_failed"@,
    }
}

/// The health file's contents: `<token> <pid> <unix time>` and a newline.
pub open spec fn health_text(health: Health, pid: u32, timestamp: u64) -> Seq<char> {
    health_token(health) + " "@ + decimal(pid as nat) + " "@ + decimal(timestamp as nat) + "\n"@
}

pub fn health_record(health: Health, pid: u32, timestamp: u64) -> (r: String)
    ensures
        r@ == health_text(health, pid, timestamp),
{
    let mut r = match health {
        Health::Healthy => owned("ok"),
        Health::HookFailed => owned("hook_failed"),
    };
    r.append(" ");
    r.append(decimal_string(pid as u64).as_str());
    r.append(" ");
    r.append(decimal_string(timestamp).as_str());
    r.append("\n");
    r
}

/// Reads a health record: the first word names the health, the second is the
/// process id; anything after is ignored.
pub open spec fn health_parse(contents: Seq<char>) -> Option<(Health, u32)> {
    let w = words(contents);
    if w.len() == 0 {
        None
    } else {
        let health = if w[0] == "ok"@ {
            Some(Health::Healthy)
        } else if w[0] == "hook_failed"@ {
            Some(Health::HookFailed)
        } else {
            None
        };
        match health {
            None => None,
            Some(h) => if w.len() < 2 {
                None
            } else {
                match parse_bounded(w[1], 0xFFFF_FFFF) {
                    Some(pid) => Some((h, pid as u32)),
                    None => None,
                }
            },
        }
    }
}

pub fn parse_health_record(contents: &str) -> (r: Option<(Health, u32)>)
    ensures
        r == health_parse(contents@),
{
    let chars = chars_of(contents);
    let w = split_words(&chars);
    if w.len() == 0 {
        return None;
    }
    let first = string_of(&w[0]);
    let health = if str_equal(first.as_str(), "ok") {
        Health::Healthy
    } else if str_equal(first.as_str(), "hook_failed") {
        Health::HookFailed
    } else {
        return None;
    };
    if w.len() < 2 {
        return None;
    }
    match parse_unsigned_bounded(&w[1], 0xFFFF_FFFF) {
        Some(pid) => Some((health, pid as u32)),
        None => None,
    }
}

/// Reading back a written health record gives its health and process id.
pub proof fn law_health_record_round_trip(health: Health, pid: u32, timestamp: u64)
    ensures
        health_parse(health_text(health, pid, timestamp)) == Some((health, pid)),
{
    let token = health_token(health);
    reveal_strlit("ok");
    reveal_strlit("hook_failed");
    reveal_strlit(" ");
    lemma_decimal_shape(pid as nat);
    lemma_decimal_shape(timestamp as nat);
    crate::text::lemma_parse_decimal(pid as nat, 0xFFFF_FFFF);
    let rest = decimal(timestamp as nat) + "\n"@;
    assert(health_text(health, pid, timestamp) == token + " "@ + decimal(pid as nat) + " "@ + rest);
    lemma_words_of_record(token, decimal(pid as nat), rest);
    assert("ok"@ != "hook_failed"@);
}

/// The "key remapping" line of `status`.
pub open spec fn remapping_text(health: Option<Health>) -> Seq<char> {
    match health {
        Some(Health::Healthy) => "active"@,
        Some(Health::HookFailed) => "not active (hook failed)"@,
        None => "not active (not running)"@,
    }
}

pub fn remapping_status(health: Option<Health>) -> (r: &'static str)
    ensures
        r@ == remapping_text(health),
{
    match health {
        Some(Health::Healthy) => "active",
        Some(Health::HookFailed) => "not active (hook failed)",
        None => "not active (not running)",
    }
}

/// The error when the background process reports that its hook failed.
pub fn hook_failed_error() -> (e: Error)
    ensures
        e.spec_message()
            == "The background process started, but the Windows keyboard hook is NOT active."@,
{
    Error::new(
        owned("The background process started, but the Windows keyboard hook is NOT active."),
    )
}

/// What one look at the health record tells `start` and `enable` while they
/// wait for the process: `Ok` once its hook works, the hook error once it
/// reported a failure, and `None` (keep waiting) without a current record.
pub fn readiness(health: Option<Health>) -> (r: Option<Result<(), Error>>)
    ensures
        match health {
            Some(Health::Healthy) => r == Some(Ok::<(), Error>(())),
            Some(Health::HookFailed) => r matches Some(Err(e)) && e.spec_message()
                == "The background process started, but the Windows keyboard hook is NOT active."@,
            None => r is None,
        },
{
    match health {
        Some(Health::Healthy) => Some(Ok(())),
        Some(Health::HookFailed) => Some(Err(hook_failed_error())),
        None => None,
    }
}

/// The error when no health record confirmed the process in time.
pub fn unconfirmed_error() -> (e: Error)
    ensures
        e.spec_message()
            == "Could not confirm key remapping started within 2 seconds.\nCheck `hjkl status`."@,
{
    Error::new(owned("Could not confirm key remapping started within 2 seconds.\nCheck `hjkl status`."))
}

// ---------------------------------------------------------------------------
// Command lines
// ---------------------------------------------------------------------------

/// The arguments of the background process: `run --service`, and the layer
/// key when one is configured.
pub open spec fn run_arguments(layer_key: Option<KeyCode>) -> Seq<Seq<char>> {
    service_run_arguments("--service"@, layer_key)
}

pub fn run_args(layer_key: Option<KeyCode>) -> (r: Vec<String>)
    ensures
        r@.len() == run_arguments(layer_key).len(),
        forall|i: int| 0 <= i < r@.len() ==> #[trigger] r@[i]@ == run_arguments(layer_key)[i],
{
    service_run_args("--service", layer_key)
}

/// The background process started by `start` and `enable` parses as a
/// service-mode run with the saved layer key.
pub proof fn law_background_arguments_parse(platform: Platform, layer_key: Option<KeyCode>)
    requires
        layer_key matches Some(code) ==> valid_layer_key(platform, code),
    ensures
        parse_args_spec(platform, run_arguments(layer_key)) == Ok::<Command, Seq<char>>(
            Command::Run { service_mode: true, layer_key },
        ),
{
    reveal_strlit("--service");
    law_service_run_arguments(platform, "--service"@, layer_key);
}

/// A saved layer key reads back as itself.
pub proof fn law_layer_key_config_round_trip(platform: Platform, code: KeyCode)
    requires
        valid_layer_key(platform, code),
    ensures
        configured_key(platform, layer_key_config_text(code)) == Some(code),
{
    reveal_strlit("\n");
    lemma_decimal_shape(code as nat);
    let d = decimal(code as nat);
    assert(crate::text::is_white_space('\n'));
    crate::text::lemma_trim_padded(d, "\n"@);
    crate::text::lemma_parse_decimal(code as nat, 0xFFFF);
    law_numeric_layer_key(platform, code);
}

/// `restart` (like `start`) keeps the saved layer key: after `start` or
/// `enable` saved `saved`, a `restart` without `--layer-key` runs the
/// background process with `saved` and saves it again unchanged; a
/// `restart` with a key runs with that key and saves it instead.
pub proof fn law_restart_keeps_saved_layer_key(saved: KeyCode, given: Option<KeyCode>)
    requires
        valid_layer_key(Platform::Windows, saved),
        given matches Some(code) ==> valid_layer_key(Platform::Windows, code),
    ensures
        ({
            let key = resolved_layer_key(given, configured_key(Platform::Windows, layer_key_config_text(saved)));
            let expected = match given {
                Some(code) => code,
                None => saved,
            };
            &&& key == Some(expected)
            &&& parse_args_spec(Platform::Windows, run_arguments(key)) == Ok::<Command, Seq<char>>(
                Command::Run { service_mode: true, layer_key: Some(expected) },
            )
            &&& configured_key(Platform::Windows, layer_key_config_text(expected)) == Some(expected)
        }),
{
    law_layer_key_config_round_trip(Platform::Windows, saved);
    let expected = match given {
        Some(code) => code,
        None => saved,
    };
    law_layer_key_config_round_trip(Platform::Windows, expected);
    law_background_arguments_parse(Platform::Windows, Some(expected));
}

/// `n` backslashes.
pub open spec fn backslashes(n: nat) -> Seq<char> {
    Seq::new(n, |i: int| '\\')
}

/// The inside of a quoted argument for `CommandLineToArgvW`, from the rest
/// `s` of the argument with `pending` backslashes not yet written: a run of
/// backslashes is doubled before a `"` (which is escaped) and at the end
/// (before the closing quote), and kept as is elsewhere.
pub open spec fn quoted_body(s: Seq<char>, pending: nat) -> Seq<char>
    decreases s.len(),
{
    if s.len() == 0 {
        backslashes(2 * pending)
    } else if s[0] == '\\' {
        quoted_body(s.drop_first(), pending + 1)
    } else if s[0] == '"' {
        backslashes(2 * pending + 1) + seq!['"'] + quoted_body(s.drop_first(), 0)
    } else {
        backslashes(pending) + seq![s[0]] + quoted_body(s.drop_first(), 0)
    }
}

/// Needs quoting: empty, or holding whitespace or a `"`.
pub open spec fn needs_quotes(arg: Seq<char>) -> bool {
    arg.len() == 0 || exists|i: int| 0 <= i < arg.len() && (is_white_space(#[trigger] arg[i]) || arg[i] == '"')
}

/// One argument as written on a Windows command line.
pub open spec fn windows_quoted(arg: Seq<char>) -> Seq<char> {
    if needs_quotes(arg) {
        seq!['"'] + quoted_body(arg, 0) + seq!['"']
    } else {
        arg
    }
}

fn push_backslashes(out: &mut String, n: usize)
    ensures
        final(out)@ == old(out)@ + backslashes(n as nat),
{
    let mut i: usize = 0;
    while i < n
        invariant
            i <= n,
            out@ == old(out)@ + backslashes(i as nat),
        decreases n - i,
    {
        push_char(out, '\\');
        i = i + 1;
        assert(backslashes(i as nat) == backslashes((i - 1) as nat).push('\\'));
    }
}

/// How the Windows C runtime and `CommandLineToArgvW` read one argument
/// (the text `t` that remains, after `bs` backslashes not yet resolved, and
/// whether a quoted section is open): backslashes are literal unless they
/// come before a `"`; before a `"`, each pair of them yields one backslash,
/// and the `"` opens or closes a quoted section if their number is even and
/// is a literal `"` if it is odd.
pub open spec fn argv_read(t: Seq<char>, bs: nat, quoted: bool) -> Seq<char>
    decreases t.len(),
{
    if t.len() == 0 {
        backslashes(bs)
    } else if t[0] == '\\' {
        argv_read(t.drop_first(), bs + 1, quoted)
    } else if t[0] == '"' {
        if bs % 2 == 0 {
            backslashes(bs / 2) + argv_read(t.drop_first(), 0, !quoted)
        } else {
            backslashes(bs / 2) + seq!['"'] + argv_read(t.drop_first(), 0, quoted)
        }
    } else {
        backslashes(bs) + seq![t[0]] + argv_read(t.drop_first(), 0, quoted)
    }
}

/// The text `t` stays one argument: no space or tab outside a quoted
/// section.
pub open spec fn argv_single(t: Seq<char>, bs: nat, quoted: bool) -> bool
    decreases t.len(),
{
    if t.len() == 0 {
        true
    } else if t[0] == '\\' {
        argv_single(t.drop_first(), bs + 1, quoted)
    } else if t[0] == '"' {
        argv_single(t.drop_first(), 0, if bs % 2 == 0 {
            !quoted
        } else {
            quoted
        })
    } else if !quoted && (t[0] == ' ' || t[0] == '\t') {
        false
    } else {
        argv_single(t.drop_first(), 0, quoted)
    }
}

proof fn lemma_backslashes_add(a: nat, b: nat)
    ensures
        backslashes(a) + backslashes(b) == backslashes(a + b),
{
    assert(backslashes(a) + backslashes(b) =~= backslashes(a + b));
}

proof fn lemma_read_backslashes(n: nat, rest: Seq<char>, bs: nat, quoted: bool)
    ensures
        argv_read(backslashes(n) + rest, bs, quoted) == argv_read(rest, bs + n, quoted),
        argv_single(backslashes(n) + rest, bs, quoted) == argv_single(rest, bs + n, quoted),
    decreases n,
{
    if n > 0 {
        let t = backslashes(n) + rest;
        assert(t[0] == '\\');
        assert(t.drop_first() == backslashes((n - 1) as nat) + rest);
        lemma_read_backslashes((n - 1) as nat, rest, bs + 1, quoted);
    } else {
        assert(backslashes(0) + rest == rest);
    }
}

proof fn lemma_read_quoted_body(s: Seq<char>, pending: nat)
    ensures
        argv_read(quoted_body(s, pending) + seq!['"'], 0, true) == backslashes(pending) + s,
        argv_single(quoted_body(s, pending) + seq!['"'], 0, true),
    decreases s.len(),
{
    let closing = seq!['"'];
    assert(backslashes(0) =~= Seq::<char>::empty());
    if s.len() == 0 {
        lemma_read_backslashes(2 * pending, closing, 0, true);
        assert(closing.drop_first() == Seq::<char>::empty());
        assert((2 * pending) / 2 == pending);
        assert(quoted_body(s, pending) == backslashes(2 * pending));
        assert(argv_read(closing, 2 * pending, true) == backslashes(pending) + argv_read(
            Seq::<char>::empty(),
            0,
            false,
        ));
        assert(argv_single(closing, 2 * pending, true) == argv_single(Seq::<char>::empty(), 0, false));
        assert(backslashes(pending) + Seq::<char>::empty() == backslashes(pending) + s);
    } else if s[0] == '\\' {
        lemma_read_quoted_body(s.drop_first(), pending + 1);
        lemma_backslashes_add(pending, 1);
        assert(backslashes(1) == seq!['\\']);
        assert(seq!['\\'] + s.drop_first() == s);
        assert(backslashes(pending + 1) + s.drop_first() == backslashes(pending) + s);
    } else if s[0] == '"' {
        let rest = quoted_body(s.drop_first(), 0) + closing;
        lemma_read_quoted_body(s.drop_first(), 0);
        let t = seq!['"'] + rest;
        assert(t[0] == '"');
        assert(t.drop_first() == rest);
        assert(quoted_body(s, pending) + closing == backslashes(2 * pending + 1) + t);
        lemma_read_backslashes(2 * pending + 1, t, 0, true);
        assert((2 * pending + 1) / 2 == pending);
        assert((2 * pending + 1) % 2 == 1);
        assert(argv_read(t, 2 * pending + 1, true) == backslashes(pending) + seq!['"'] + argv_read(
            rest,
            0,
            true,
        ));
        assert(argv_single(t, 2 * pending + 1, true) == argv_single(rest, 0, true));
        assert(backslashes(0) + s.drop_first() == s.drop_first());
        assert(seq!['"'] + s.drop_first() == s);
    } else {
        let c = s[0];
        let rest = quoted_body(s.drop_first(), 0) + closing;
        lemma_read_quoted_body(s.drop_first(), 0);
        let t = seq![c] + rest;
        assert(t[0] == c);
        assert(t.drop_first() == rest);
        assert(quoted_body(s, pending) + closing == backslashes(pending) + t);
        lemma_read_backslashes(pending, t, 0, true);
        assert(c != '\\' && c != '"');
        assert(argv_read(t, pending, true) == backslashes(pending) + seq![c] + argv_read(rest, 0, true));
        assert(argv_single(t, pending, true) == argv_single(rest, 0, true));
        assert(backslashes(0) + s.drop_first() == s.drop_first());
        assert(seq![c] + s.drop_first() == s);
    }
}

proof fn lemma_read_plain(s: Seq<char>, bs: nat)
    requires
        forall|i: int| 0 <= i < s.len() ==> !is_white_space(#[trigger] s[i]) && s[i] != '"',
    ensures
        argv_read(s, bs, false) == backslashes(bs) + s,
        argv_single(s, bs, false),
    decreases s.len(),
{
    reveal_strlit(" ");
    if s.len() > 0 {
        let rest = s.drop_first();
        assert(forall|i: int| 0 <= i < rest.len() ==> rest[i] == s[i + 1]);
        assert(!is_white_space(s[0]));
        assert(is_white_space(' ') && is_white_space('\t'));
        if s[0] == '\\' {
            lemma_read_plain(rest, bs + 1);
            lemma_backslashes_add(bs, 1);
            assert(backslashes(1) == seq!['\\']);
            assert(seq!['\\'] + rest == s);
        } else {
            lemma_read_plain(rest, 0);
            assert(backslashes(0) + rest == rest);
            assert(seq![s[0]] + rest == s);
        }
    } else {
        assert(backslashes(bs) + s == backslashes(bs));
    }
}

/// An argument written by [`quote_windows_arg`] is read back by Windows as
/// exactly one argument, equal to the unquoted one.
pub proof fn law_windows_quoting_round_trip(arg: Seq<char>)
    ensures
        argv_single(windows_quoted(arg), 0, false),
        argv_read(windows_quoted(arg), 0, false) == arg,
{
    if needs_quotes(arg) {
        let t = windows_quoted(arg);
        let inner = quoted_body(arg, 0) + seq!['"'];
        assert(t == seq!['"'] + inner);
        assert(t[0] == '"');
        assert(t.drop_first() == inner);
        lemma_read_quoted_body(arg, 0);
        assert(backslashes(0) + arg == arg);
        assert(backslashes(0) == Seq::<char>::empty());
    } else {
        lemma_read_plain(arg, 0);
        assert(backslashes(0) + arg == arg);
    }
}

pub fn quote_windows_arg(arg: &str) -> (r: String)
    ensures
        r@ == windows_quoted(arg@),
{
    let chars = chars_of(arg);
    let n = chars.len();
    let mut plain = n > 0;
    let mut k: usize = 0;
    while k < n
        invariant
            k <= n,
            n == arg@.len(),
            chars@ == arg@,
            plain == (n > 0 && forall|j: int| 0 <= j < k ==> !(is_white_space(#[trigger] arg@[j]) || arg@[j] == '"')),
        decreases n - k,
    {
        let c = chars[k];
        if crate::text::char_is_white_space(c) || c == '"' {
            plain = false;
        }
        k = k + 1;
    }
    if plain {
        return owned(arg);
    }
    let mut quoted = owned("\"");
    proof {
        reveal_strlit("\"");
        assert(arg@.subrange(0, n as int) == arg@);
    }
    let mut pending: usize = 0;
    let mut i: usize = 0;
    while i < n
        invariant
            i <= n,
            n == arg@.len(),
            chars@ == arg@,
            pending <= i,
            seq!['"'] + quoted_body(arg@, 0) == quoted@ + quoted_body(arg@.subrange(i as int, n as int), pending as nat),
        decreases n - i,
    {
        let ghost rest = arg@.subrange(i as int, n as int);
        assert(rest.drop_first() == arg@.subrange(i + 1, n as int));
        assert(rest[0] == arg@[i as int]);
        let c = chars[i];
        if c == '\\' {
            pending = pending + 1;
        } else if c == '"' {
            push_backslashes(&mut quoted, pending);
            push_backslashes(&mut quoted, pending);
            push_char(&mut quoted, '\\');
            push_char(&mut quoted, '"');
            proof {
                assert(backslashes(2 * pending as nat + 1) == backslashes(pending as nat) + backslashes(
                    pending as nat,
                ) + seq!['\\']);
            }
            pending = 0;
        } else {
            push_backslashes(&mut quoted, pending);
            push_char(&mut quoted, c);
            pending = 0;
        }
        i = i + 1;
    }
    assert(arg@.subrange(n as int, n as int) == Seq::<char>::empty());
    push_backslashes(&mut quoted, pending);
    push_backslashes(&mut quoted, pending);
    assert(backslashes(2 * pending as nat) == backslashes(pending as nat) + backslashes(pending as nat));
    push_char(&mut quoted, '"');
    quoted
}

/// The command line the auto-start task runs: the binary and its arguments,
/// each quoted for Windows, separated by spaces.
pub open spec fn task_command(binary: Seq<char>, layer_key: Option<KeyCode>) -> Seq<char> {
    joined(
        seq![windows_quoted(binary)] + run_arguments(layer_key).map_values(
            |a: Seq<char>| windows_quoted(a),
        ),
    )
}

pub fn task_command_line(binary: &str, layer_key: Option<KeyCode>) -> (r: String)
    ensures
        r@ == task_command(binary@, layer_key),
{
    let args = run_args(layer_key);
    let mut parts: Vec<String> = Vec::new();
    parts.push(quote_windows_arg(binary));
    let mut i: usize = 0;
    while i < args.len()
        invariant
            i <= args@.len(),
            args@.len() == run_arguments(layer_key).len(),
            forall|j: int| 0 <= j < args@.len() ==> #[trigger] args@[j]@ == run_arguments(layer_key)[j],
            parts@.len() == i + 1,
            parts@[0]@ == windows_quoted(binary@),
            forall|j: int| 0 <= j < i ==> #[trigger] parts@[j + 1]@ == windows_quoted(run_arguments(layer_key)[j]),
        decreases args.len() - i,
    {
        parts.push(quote_windows_arg(args[i].as_str()));
        i = i + 1;
    }
    let r = join_with_spaces(&parts);
    let ghost expected = seq![windows_quoted(binary@)] + run_arguments(layer_key).map_values(
        |a: Seq<char>| windows_quoted(a),
    );
    let ghost got = parts@.map_values(|p: String| p@);
    assert forall|j: int| 0 <= j < expected.len() implies #[trigger] got[j] == expected[j] by {
        if j > 0 {
            assert(parts@[(j - 1) + 1]@ == windows_quoted(run_arguments(layer_key)[j - 1]));
        }
    }
    assert(got =~= expected);
    r
}

// ---------------------------------------------------------------------------
// Reports
// ---------------------------------------------------------------------------

/// What `status` prints: the label, the saved layer key (semicolon when none
/// is saved), whether the task starts the process at login, whether a health
/// record shows the process running and whether its hook works, the input
/// note, the task name, the binary and the state directory.
pub open spec fn status_report(
    configured: Option<KeyCode>,
    enabled: bool,
    health: Option<Health>,
    binary: Result<Seq<char>, Seq<char>>,
    state_dir: Seq<char>,
) -> Seq<Seq<char>> {
    let layer_key = match configured {
        Some(code) => code,
        None => Platform::Windows.key_semicolon(),
    };
    seq![
        "label:   "@ + spec_label(),
        "layer key: "@ + key_label(Platform::Windows, layer_key),
        "enabled: "@ + auto_start_text(enabled),
        "running: "@ + yes_no(health is Some),
        "key remapping: "@ + remapping_text(health),
        "input access: available for the current desktop session"@,
        "task:    "@ + "hjkl"@,
        binary_text(binary),
        "state:   "@ + state_dir,
    ]
}

pub fn status_lines(
    configured: Option<KeyCode>,
    enabled: bool,
    health: Option<Health>,
    binary: Result<&str, &str>,
    state_dir: &str,
) -> (r: Vec<String>)
    ensures
        r@.len() == 9,
        forall|i: int|
            0 <= i < 9 ==> #[trigger] r@[i]@ == status_report(
                configured,
                enabled,
                health,
                match binary {
                    Ok(path) => Ok(path@),
                    Err(reason) => Err(reason@),
                },
                state_dir@,
            )[i],
{
    let layer_key = match configured {
        Some(code) => code,
        None => default_layer_key(Platform::Windows),
    };
    let mut lines: Vec<String> = Vec::new();
    lines.push(labelled("label:   ", label()));
    lines.push(labelled("layer key: ", layer_key_label(Platform::Windows, layer_key).as_str()));
    lines.push(labelled("enabled: ", auto_start_status(enabled)));
    lines.push(labelled("running: ", yes_or_no(health.is_some())));
    lines.push(labelled("key remapping: ", remapping_status(health)));
    lines.push(owned("input access: available for the current desktop session"));
    lines.push(labelled("task:    ", task_name()));
    lines.push(binary_line(binary));
    lines.push(labelled("state:   ", state_dir));
    lines
}

/// The line naming the layer key in use, printed after `start` and `enable`
/// when one is set.
pub open spec fn layer_key_lines(layer_key: Option<KeyCode>) -> Seq<Seq<char>> {
    match layer_key {
        Some(code) => seq!["layer key: "@ + key_label(Platform::Windows, code)],
        None => Seq::empty(),
    }
}

/// What `start` prints once it has tried to confirm the process: whether key
/// remapping is active, the layer key when one is set, and a reminder when
/// no task starts the process at login.
pub open spec fn start_report(confirmed: bool, layer_key: Option<KeyCode>, enabled: bool) -> Seq<
    Seq<char>,
> {
    seq![
        outcome_text(
            confirmed,
            "hjkl started; key remapping is active now."@,
            "hjkl was started, but it is NOT working yet."@,
        ),
    ] + layer_key_lines(layer_key) + if enabled {
        Seq::empty()
    } else {
        seq![no_auto_start_text()]
    }
}

fn push_layer_key_line(lines: &mut Vec<String>, layer_key: Option<KeyCode>)
    ensures
        views(final(lines)@) == views(old(lines)@) + layer_key_lines(layer_key),
{
    let ghost before = views(lines@);
    if let Some(code) = layer_key {
        let line = labelled("layer key: ", layer_key_label(Platform::Windows, code).as_str());
        let ghost line_view = line@;
        lines.push(line);
        assert(views(lines@) =~= before + seq![line_view]);
    } else {
        assert(views(lines@) =~= before + Seq::<Seq<char>>::empty());
    }
}

pub fn start_lines(confirmed: bool, layer_key: Option<KeyCode>, enabled: bool) -> (r: Vec<String>)
    ensures
        views(r@) == start_report(confirmed, layer_key, enabled),
{
    let mut lines: Vec<String> = Vec::new();
    if confirmed {
        lines.push(owned("hjkl started; key remapping is active now."));
    } else {
        lines.push(owned("hjkl was started, but it is NOT working yet."));
    }
    let ghost first = views(lines@);
    assert(first =~= seq![
        outcome_text(
            confirmed,
            "hjkl started; key remapping is active now."@,
            "hjkl was started, but it is NOT working yet."@,
        ),
    ]);
    push_layer_key_line(&mut lines, layer_key);
    let ghost middle = views(lines@);
    if !enabled {
        let reminder = owned("It will NOT auto-start at login. Run `hjkl enable` for that.");
        lines.push(reminder);
        assert(views(lines@) =~= middle + seq![no_auto_start_text()]);
    } else {
        assert(views(lines@) =~= middle + Seq::<Seq<char>>::empty());
    }
    lines
}

/// What `enable` prints once it has tried to confirm the process.
pub open spec fn enable_report(confirmed: bool, layer_key: Option<KeyCode>) -> Seq<Seq<char>> {
    seq![
        outcome_text(
            confirmed,
            "hjkl enabled: it will auto-start at login and key remapping is active now."@,
            "hjkl enabled: it will auto-start at login, but it is NOT working yet."@,
        ),
    ] + layer_key_lines(layer_key)
}

pub fn enable_lines(confirmed: bool, layer_key: Option<KeyCode>) -> (r: Vec<String>)
    ensures
        views(r@) == enable_report(confirmed, layer_key),
{
    let mut lines: Vec<String> = Vec::new();
    if confirmed {
        lines.push(owned("hjkl enabled: it will auto-start at login and key remapping is active now."));
    } else {
        lines.push(owned("hjkl enabled: it will auto-start at login, but it is NOT working yet."));
    }
    assert(views(lines@) =~= seq![
        outcome_text(
            confirmed,
            "hjkl enabled: it will auto-start at login and key remapping is active now."@,
            "hjkl enabled: it will auto-start at login, but it is NOT working yet."@,
        ),
    ]);
    push_layer_key_line(&mut lines, layer_key);
    lines
}

/// What `stop` prints: whether a health record showed the process running.
pub fn stop_message(running: bool) -> (r: &'static str)
    ensures
        r@ == if running {
            "hjkl stopped."@
        } else {
            "hjkl is not running."@
        },
{
    if running {
        "hjkl stopped."
    } else {
        "hjkl is not running."
    }
}

/// What `hjkl permissions` prints on Windows: no permission is needed, but
/// elevated applications need an elevated remapper.
pub open spec fn input_guidance() -> Seq<Seq<char>> {
    seq![
        "Windows does not require an Accessibility-style permission for hjkl."@,
        "If remapping does not affect applications running as administrator, run hjkl as administrator too."@,
    ]
}

pub fn input_guidance_lines() -> (r: Vec<String>)
    ensures
        views(r@) == input_guidance(),
{
    let mut lines: Vec<String> = Vec::new();
    lines.push(owned("Windows does not require an Accessibility-style permission for hjkl."));
    lines.push(
        owned(
            "If remapping does not affect applications running as administrator, run hjkl as administrator too.",
        ),
    );
    assert(views(lines@) =~= input_guidance());
    lines
}

} // verus!
