//! The per-user launchd LaunchAgent: its identifiers, file locations, plist,
//! health record and messages.
//!
//! The management commands (`start`, `stop`, `enable`, ...) run `launchctl`
//! and touch files; they build every path, document and message with the
//! functions here.

use vstd::prelude::*;
use vstd::string::StringExecFns;
use crate::cli::{Command, views, law_service_run_arguments, parse_args_spec, service_run_args, service_run_arguments};
use crate::error::Error;
use crate::keys::{KeyCode, Platform};
use crate::keymap::{valid_layer_key, default_layer_key, key_label, layer_key_label, layer_key_parse, parse_layer_key};
use crate::report::{
    auto_start_status, auto_start_text, binary_line, binary_text, labelled, no_auto_start_text, outcome_text,
    yes_no, yes_or_no,
};
use crate::text::{
    is_white_space, chars_equal, chars_of, decimal, decimal_string, lemma_decimal_shape, lemma_words_of_record, owned, parse_bounded,
    parse_unsigned_bounded, slice_chars, split_words, str_equal, trim, words,
};

verus! {

/// The launchd label of the agent.
pub open spec fn spec_label() -> Seq<char> {
    "com.kazuki-hanai.hjkl"@
}

pub fn label() -> (r: &'static str)
    ensures
        r@ == spec_label(),
{
    "com.kazuki-hanai.hjkl"
}

/// `launchctl` service target of the agent in the user's GUI domain.
pub fn service_target(uid: u32) -> (r: String)
    ensures
        r@ == "gui/"@ + decimal(uid as nat) + "/"@ + spec_label(),
{
    let mut r = owned("gui/");
    r.append(decimal_string(uid as u64).as_str());
    r.append("/");
    r.append(label());
    r
}

/// `launchctl` target of the user's GUI domain.
pub fn domain_target(uid: u32) -> (r: String)
    ensures
        r@ == "gui/"@ + decimal(uid as nat),
{
    let mut r = owned("gui/");
    r.append(decimal_string(uid as u64).as_str());
    r
}

/// `PathBuf::join` on Unix for a relative `rel`: a `/` goes between the two
/// unless `base` is empty or already ends with one; an absolute `rel`
/// replaces `base`.
pub open spec fn join_unix(base: Seq<char>, rel: Seq<char>) -> Seq<char> {
    if rel.len() > 0 && rel[0] == '/' {
        rel
    } else if base.len() == 0 || base.last() == '/' {
        base + rel
    } else {
        base + "/"@ + rel
    }
}

pub fn join_path(base: &str, rel: &str) -> (r: String)
    ensures
        r@ == join_unix(base@, rel@),
{
    let b = chars_of(base);
    let rc = chars_of(rel);
    if rc.len() > 0 && rc[0] == '/' {
        return owned(rel);
    }
    let mut r = owned(base);
    if !(b.len() == 0 || b[b.len() - 1] == '/') {
        r.append("/");
    }
    r.append(rel);
    r
}

pub open spec fn home_not_set_message() -> Seq<char> {
    "HOME environment variable is not set"@
}

/// The home directory from the value of `HOME`: it must be set, non-empty
/// and absolute.
pub open spec fn home_dir_spec(home: Option<Seq<char>>) -> Result<Seq<char>, Seq<char>> {
    match home {
        None => Err(home_not_set_message()),
        Some(h) => if h.len() == 0 {
            Err(home_not_set_message())
        } else if h[0] != '/' {
            Err("HOME must be an absolute path, got: "@ + h)
        } else {
            Ok(h)
        },
    }
}

pub fn home_dir(home: Option<&str>) -> (r: Result<String, Error>)
    ensures
        home_dir_spec(
            match home {
                Some(h) => Some(h@),
                None => None,
            },
        ) == match r {
            Ok(h) => Ok(h@),
            Err(e) => Err(e.spec_message()),
        },
{
    match home {
        None => Err(Error::new(owned("HOME environment variable is not set"))),
        Some(h) => {
            let chars = chars_of(h);
            if chars.len() == 0 {
                Err(Error::new(owned("HOME environment variable is not set")))
            } else if chars[0] != '/' {
                let mut message = owned("HOME must be an absolute path, got: ");
                message.append(h);
                Err(Error::new(message))
            } else {
                Ok(owned(h))
            }
        },
    }
}

pub open spec fn plist_file_name() -> Seq<char> {
    spec_label() + ".plist"@
}

fn plist_file_name_string() -> (r: String)
    ensures
        r@ == plist_file_name(),
{
    let mut r = owned(label());
    r.append(".plist");
    r
}

/// The plist under `~/Library/LaunchAgents`; its presence there is what
/// makes launchd load the agent at login ("enabled").
pub fn launch_agents_plist(home: &str) -> (r: String)
    ensures
        r@ == join_unix(join_unix(home@, "Library/LaunchAgents"@), plist_file_name()),
{
    let dir = join_path(home, "Library/LaunchAgents");
    let name = plist_file_name_string();
    join_path(dir.as_str(), name.as_str())
}

/// The agent's own directory under `~/Library/Application Support`.
pub open spec fn support_dir(home: Seq<char>) -> Seq<char> {
    join_unix(join_unix(home, "Library/Application Support"@), spec_label())
}

fn support_dir_string(home: &str) -> (r: String)
    ensures
        r@ == support_dir(home@),
{
    let base = join_path(home, "Library/Application Support");
    join_path(base.as_str(), label())
}

/// The plist used by `start` when the agent is not enabled: outside
/// `LaunchAgents`, so launchd runs it now but not at login.
pub fn runtime_plist(home: &str) -> (r: String)
    ensures
        r@ == join_unix(support_dir(home@), plist_file_name()),
{
    let dir = support_dir_string(home);
    let name = plist_file_name_string();
    join_path(dir.as_str(), name.as_str())
}

/// Where the agent's standard output and standard error go.
pub fn log_paths(home: &str) -> (r: (String, String))
    ensures
        r.0@ == join_unix(join_unix(home@, "Library/Logs"@), "hjkl.log"@),
        r.1@ == join_unix(join_unix(home@, "Library/Logs"@), "hjkl.err.log"@),
{
    let dir = join_path(home, "Library/Logs");
    (join_path(dir.as_str(), "hjkl.log"), join_path(dir.as_str(), "hjkl.err.log"))
}

/// The health record the running agent writes.
pub fn health_path(home: &str) -> (r: String)
    ensures
        r@ == join_unix(support_dir(home@), "health"@),
{
    let dir = support_dir_string(home);
    join_path(dir.as_str(), "health")
}

// ---------------------------------------------------------------------------
// The plist
// ---------------------------------------------------------------------------

pub open spec fn xml_escape_char(c: char) -> Seq<char> {
    if c == '&' {
        "&amp;"@
    } else if c == '<' {
        "&lt;"@
    } else if c == '>' {
        "&gt;"@
    } else {
        seq![c]
    }
}

/// `&`, `<` and `>` replaced by their XML entities.
pub open spec fn xml_escaped(s: Seq<char>) -> Seq<char>
    decreases s.len(),
{
    if s.len() == 0 {
        Seq::empty()
    } else {
        xml_escaped(s.drop_last()) + xml_escape_char(s.last())
    }
}

pub fn xml_escape(input: &str) -> (r: String)
    ensures
        r@ == xml_escaped(input@),
{
    let chars = chars_of(input);
    let mut r = String::new();
    let mut i: usize = 0;
    while i < chars.len()
        invariant
            i <= chars@.len(),
            chars@ == input@,
            r@ == xml_escaped(chars@.subrange(0, i as int)),
        decreases chars.len() - i,
    {
        let c = chars[i];
        if c == '&' {
            r.append("&amp;");
        } else if c == '<' {
            r.append("&lt;");
        } else if c == '>' {
            r.append("&gt;");
        } else {
            crate::text::push_char(&mut r, c);
            assert(r@ == xml_escaped(chars@.subrange(0, i as int)) + seq![c]);
        }
        assert(chars@.subrange(0, i + 1).drop_last() == chars@.subrange(0, i as int));
        i = i + 1;
    }
    assert(chars@.subrange(0, chars@.len() as int) == chars@);
    r
}

/// The words of the plist before its argument array, each with the
/// whitespace that follows it. (The label needs no XML escaping.)
pub open spec fn plist_header_pieces() -> Seq<(Seq<char>, Seq<char>)> {
    seq![
        ("<?xml"@, " "@),
        ("version=\"1.0\""@, " "@),
        ("encoding=\"UTF-8\"?>"@, "\n"@),
        ("<!DOCTYPE"@, " "@),
        ("plist"@, " "@),
        ("PUBLIC"@, " "@),
        ("\"-//Apple//DTD"@, " "@),
        ("PLIST"@, " "@),
        ("1.0//EN\""@, " "@),
        ("\"http://www.apple.com/DTDs/PropertyList-1.0.dtd\">"@, "\n"@),
        ("<plist"@, " "@),
        ("version=\"1.0\">"@, "\n"@),
        ("<dict>"@, "\n\t"@),
        ("<key>Label</key>"@, "\n\t"@),
        ("<string>com.kazuki-hanai.hjkl</string>"@, "\n\t"@),
        ("<key>ProgramArguments</key>"@, "\n\t"@),
        ("<array>"@, "\n"@),
    ]
}

/// Words and the whitespace after each, written out in order.
pub open spec fn joined_pieces(pieces: Seq<(Seq<char>, Seq<char>)>) -> Seq<char>
    decreases pieces.len(),
{
    if pieces.len() == 0 {
        Seq::empty()
    } else {
        joined_pieces(pieces.drop_last()) + pieces.last().0 + pieces.last().1
    }
}

pub open spec fn plist_prefix() -> Seq<char> {
    joined_pieces(plist_header_pieces())
}

fn plist_header() -> (r: Vec<(&'static str, &'static str)>)
    ensures
        r@.len() == plist_header_pieces().len(),
        forall|i: int|
            0 <= i < r@.len() ==> (#[trigger] r@[i]).0@ == plist_header_pieces()[i].0 && r@[i].1@
                == plist_header_pieces()[i].1,
{
    let mut r: Vec<(&'static str, &'static str)> = Vec::new();
    r.push(("<?xml", " "));
    r.push(("version=\"1.0\"", " "));
    r.push(("encoding=\"UTF-8\"?>", "\n"));
    r.push(("<!DOCTYPE", " "));
    r.push(("plist", " "));
    r.push(("PUBLIC", " "));
    r.push(("\"-//Apple//DTD", " "));
    r.push(("PLIST", " "));
    r.push(("1.0//EN\"", " "));
    r.push(("\"http://www.apple.com/DTDs/PropertyList-1.0.dtd\">", "\n"));
    r.push(("<plist", " "));
    r.push(("version=\"1.0\">", "\n"));
    r.push(("<dict>", "\n\t"));
    r.push(("<key>Label</key>", "\n\t"));
    r.push(("<string>com.kazuki-hanai.hjkl</string>", "\n\t"));
    r.push(("<key>ProgramArguments</key>", "\n\t"));
    r.push(("<array>", "\n"));
    r
}

fn append_pieces(r: &mut String, pieces: &Vec<(&'static str, &'static str)>)
    ensures
        final(r)@ == old(r)@ + joined_pieces(pieces@.map_values(|p: (&'static str, &'static str)| (p.0@, p.1@))),
{
    let ghost views = pieces@.map_values(|p: (&'static str, &'static str)| (p.0@, p.1@));
    let mut i: usize = 0;
    while i < pieces.len()
        invariant
            i <= pieces@.len(),
            views == pieces@.map_values(|p: (&'static str, &'static str)| (p.0@, p.1@)),
            r@ == old(r)@ + joined_pieces(views.subrange(0, i as int)),
        decreases pieces.len() - i,
    {
        let (word, gap) = pieces[i];
        r.append(word);
        r.append(gap);
        assert(views.subrange(0, i + 1).drop_last() =~= views.subrange(0, i as int));
        i = i + 1;
    }
    assert(views.subrange(0, pieces@.len() as int) =~= views);
}

/// One `<string>` element of the argument array.
pub open spec fn plist_string_line(value: Seq<char>) -> Seq<char> {
    "\t\t<string>"@ + xml_escaped(value) + "</string>\n"@
}

pub open spec fn plist_string_lines(values: Seq<Seq<char>>) -> Seq<char>
    decreases values.len(),
{
    if values.len() == 0 {
        Seq::empty()
    } else {
        plist_string_lines(values.drop_last()) + plist_string_line(values.last())
    }
}

/// The arguments launchd starts the agent's binary with.
pub open spec fn agent_arguments(layer_key: Option<KeyCode>) -> Seq<Seq<char>> {
    service_run_arguments("--launchd"@, layer_key)
}

/// The agent launchd starts parses as a service-mode run with the layer key
/// baked into its plist.
pub proof fn law_agent_arguments_parse(platform: Platform, layer_key: Option<KeyCode>)
    requires
        layer_key matches Some(code) ==> valid_layer_key(platform, code),
    ensures
        parse_args_spec(platform, agent_arguments(layer_key)) == Ok::<Command, Seq<char>>(
            Command::Run { service_mode: true, layer_key },
        ),
{
    reveal_strlit("--launchd");
    law_service_run_arguments(platform, "--launchd"@, layer_key);
}

pub open spec fn plist_tail(stdout_log: Seq<char>, stderr_log: Seq<char>) -> Seq<char> {
    "\t"@ + "</array>"@ + "\n\t<key>RunAtLoad</key>\n\t<true/>\n\t<key>KeepAlive</key>\n\t<true/>\n\t<key>ExitTimeOut</key>\n\t<integer>1</integer>\n\t<key>ProcessType</key>\n\t<string>Interactive</string>\n\t<key>StandardOutPath</key>\n\t<string>"@
        + xml_escaped(stdout_log) + "</string>\n\t<key>StandardErrorPath</key>\n\t<string>"@
        + xml_escaped(stderr_log) + "</string>\n</dict>\n</plist>\n"@
}

/// The LaunchAgent plist: it runs the binary with [`agent_arguments`], kept
/// alive and started at load, with its output sent to the two log files.
pub open spec fn plist_document(
    binary: Seq<char>,
    stdout_log: Seq<char>,
    stderr_log: Seq<char>,
    layer_key: Option<KeyCode>,
) -> Seq<char> {
    plist_prefix() + plist_string_line(binary) + plist_string_lines(agent_arguments(layer_key))
        + plist_tail(stdout_log, stderr_log)
}

fn append_string_line(r: &mut String, value: &str)
    ensures
        final(r)@ == old(r)@ + plist_string_line(value@),
{
    r.append("\t\t<string>");
    r.append(xml_escape(value).as_str());
    r.append("</string>\n");
}

pub fn render_plist(binary: &str, stdout_log: &str, stderr_log: &str, layer_key: Option<KeyCode>) -> (r:
    String)
    ensures
        r@ == plist_document(binary@, stdout_log@, stderr_log@, layer_key),
{
    let mut r = String::new();
    let header = plist_header();
    append_pieces(&mut r, &header);
    assert(header@.map_values(|p: (&'static str, &'static str)| (p.0@, p.1@)) =~= plist_header_pieces());
    append_string_line(&mut r, binary);
    let ghost before = r@;
    let args = service_run_args("--launchd", layer_key);
    proof {
        reveal_strlit("--launchd");
    }
    let mut i: usize = 0;
    while i < args.len()
        invariant
            i <= args@.len(),
            args@.len() == agent_arguments(layer_key).len(),
            forall|j: int| 0 <= j < args@.len() ==> #[trigger] args@[j]@ == agent_arguments(layer_key)[j],
            r@ == before + plist_string_lines(agent_arguments(layer_key).subrange(0, i as int)),
        decreases args.len() - i,
    {
        append_string_line(&mut r, args[i].as_str());
        assert(agent_arguments(layer_key).subrange(0, i + 1).drop_last() == agent_arguments(
            layer_key,
        ).subrange(0, i as int));
        i = i + 1;
    }
    assert(agent_arguments(layer_key).subrange(0, args@.len() as int) == agent_arguments(layer_key));
    r.append("\t");
    r.append("</array>");
    r.append(
        "\n\t<key>RunAtLoad</key>\n\t<true/>\n\t<key>KeepAlive</key>\n\t<true/>\n\t<key>ExitTimeOut</key>\n\t<integer>1</integer>\n\t<key>ProcessType</key>\n\t<string>Interactive</string>\n\t<key>StandardOutPath</key>\n\t<string>",
    );
    r.append(xml_escape(stdout_log).as_str());
    r.append("</string>\n\t<key>StandardErrorPath</key>\n\t<string>");
    r.append(xml_escape(stderr_log).as_str());
    r.append("</string>\n</dict>\n</plist>\n");
    r
}

// ---------------------------------------------------------------------------
// Reading the layer key back from a plist
// ---------------------------------------------------------------------------

/// The argument element that precedes the layer key in the plist.
pub open spec fn layer_key_marker() -> Seq<char> {
    "<string>--layer-key</string>"@
}

/// The text of a `<string>...</string>` element written as one word.
pub open spec fn string_element_text(x: Seq<char>) -> Option<Seq<char>> {
    if x.len() >= 17 && x.subrange(0, 8) == "<string>"@ && x.subrange(x.len() - 9, x.len() as int)
        == "</string>"@ {
        Some(x.subrange(8, x.len() - 9))
    } else {
        None
    }
}

/// A decimal key code that is still accepted as a macOS layer key.
pub open spec fn baked_key_value(digits: Seq<char>) -> Option<KeyCode> {
    match parse_bounded(digits, 0xFFFF) {
        Some(code) => match layer_key_parse(Platform::MacOs, decimal(code)) {
            Ok(key) => Some(key),
            Err(_) => None,
        },
        None => None,
    }
}

/// The layer key named by the first `--layer-key` argument element among
/// `words` from index `j` on, up to the end of the argument array
/// (`</array>`): the element right after it holds the code.
pub open spec fn layer_key_in_words(words: Seq<Seq<char>>, j: int) -> Option<KeyCode>
    decreases words.len() - j,
{
    if j < 0 || j >= words.len() {
        None
    } else if words[j] == "</array>"@ {
        None
    } else if words[j] == layer_key_marker() {
        if j + 1 < words.len() {
            match string_element_text(words[j + 1]) {
                Some(digits) => baked_key_value(digits),
                None => None,
            }
        } else {
            None
        }
    } else {
        layer_key_in_words(words, j + 1)
    }
}

/// The layer key baked into a LaunchAgent plist, if any.
pub open spec fn plist_layer_key_spec(contents: Seq<char>) -> Option<KeyCode> {
    layer_key_in_words(words(contents), 0)
}

fn string_element_text_of(x: &Vec<char>) -> (r: Option<Vec<char>>)
    ensures
        match r {
            Some(t) => string_element_text(x@) == Some(t@),
            None => string_element_text(x@) is None,
        },
{
    let n = x.len();
    if n < 17 {
        return None;
    }
    let open = slice_chars(x, 0, 8);
    let close = slice_chars(x, n - 9, n);
    let open_tag = chars_of("<string>");
    let close_tag = chars_of("</string>");
    if chars_equal(&open, &open_tag) && chars_equal(&close, &close_tag) {
        Some(slice_chars(x, 8, n - 9))
    } else {
        None
    }
}

fn baked_key_value_of(digits: &Vec<char>) -> (r: Option<KeyCode>)
    ensures
        r == baked_key_value(digits@),
{
    match parse_unsigned_bounded(digits, 0xFFFF) {
        Some(code) => {
            let text = decimal_string(code);
            match parse_layer_key(Platform::MacOs, text.as_str()) {
                Ok(key) => Some(key),
                Err(_) => None,
            }
        },
        None => None,
    }
}

/// Reads the layer key baked into a LaunchAgent plist (see
/// [`plist_layer_key_spec`]); `None` when the plist names none.
pub fn plist_layer_key(contents: &str) -> (r: Option<KeyCode>)
    ensures
        r == plist_layer_key_spec(contents@),
{
    let chars = chars_of(contents);
    let w = split_words(&chars);
    let ghost ws = words(contents@);
    let marker = chars_of("<string>--layer-key</string>");
    let array_end = chars_of("</array>");
    let mut j: usize = 0;
    while j < w.len()
        invariant
            j <= w@.len(),
            ws == words(contents@),
            w@.len() == ws.len(),
            forall|i: int| 0 <= i < w@.len() ==> #[trigger] w@[i]@ == ws[i],
            marker@ == layer_key_marker(),
            array_end@ == "</array>"@,
            layer_key_in_words(ws, 0) == layer_key_in_words(ws, j as int),
        decreases w.len() - j,
    {
        assert(w@[j as int]@ == ws[j as int]);
        if chars_equal(&w[j], &array_end) {
            return None;
        }
        if chars_equal(&w[j], &marker) {
            if j + 1 < w.len() {
                assert(w@[j + 1]@ == ws[j + 1]);
                return match string_element_text_of(&w[j + 1]) {
                    Some(digits) => baked_key_value_of(&digits),
                    None => None,
                };
            } else {
                return None;
            }
        }
        j = j + 1;
    }
    None
}

// ---------------------------------------------------------------------------
// Reading back what was rendered
// ---------------------------------------------------------------------------

/// The word an argument element is read as when its text needs no escaping.
pub open spec fn string_word(v: Seq<char>) -> Seq<char> {
    "<string>"@ + v + "</string>"@
}

/// Text that XML escaping leaves alone and that holds no whitespace.
pub open spec fn plain_text(v: Seq<char>) -> bool {
    forall|k: int|
        0 <= k < v.len() ==> !is_white_space(#[trigger] v[k]) && v[k] != '&' && v[k] != '<' && v[k] != '>'
}

proof fn lemma_xml_escaped_plain(v: Seq<char>)
    requires
        forall|k: int| 0 <= k < v.len() ==> #[trigger] v[k] != '&' && v[k] != '<' && v[k] != '>',
    ensures
        xml_escaped(v) == v,
    decreases v.len(),
{
    if v.len() > 0 {
        lemma_xml_escaped_plain(v.drop_last());
        assert(v.drop_last().push(v.last()) =~= v);
    }
}

proof fn lemma_xml_escaped_shape(v: Seq<char>)
    ensures
        forall|k: int| 0 <= k < xml_escaped(v).len() ==> #[trigger] xml_escaped(v)[k] != '<',
        (forall|k: int| 0 <= k < xml_escaped(v).len() ==> #[trigger] xml_escaped(v)[k] != '&')
            ==> xml_escaped(v) == v,
    decreases v.len(),
{
    reveal_strlit("&amp;");
    reveal_strlit("&lt;");
    reveal_strlit("&gt;");
    if v.len() > 0 {
        let init = v.drop_last();
        lemma_xml_escaped_shape(init);
        let e = xml_escaped(init);
        let c = xml_escape_char(v.last());
        assert(xml_escaped(v) == e + c);
        assert forall|k: int| 0 <= k < xml_escaped(v).len() implies #[trigger] xml_escaped(v)[k] != '<' by {
            if k >= e.len() {
                assert(xml_escaped(v)[k] == c[k - e.len()]);
            } else {
                assert(xml_escaped(v)[k] == e[k]);
            }
        }
        if forall|k: int| 0 <= k < xml_escaped(v).len() ==> #[trigger] xml_escaped(v)[k] != '&' {
            assert forall|k: int| 0 <= k < e.len() implies #[trigger] e[k] != '&' by {
                assert(xml_escaped(v)[k] == e[k]);
            }
            assert(xml_escaped(v)[e.len() as int] == c[0]);
            assert(c == seq![v.last()]);
            assert(v =~= init.push(v.last()));
        }
    }
}

/// The words of words and whitespace written out in order.
proof fn lemma_words_of_pieces(pieces: Seq<(Seq<char>, Seq<char>)>, rest: Seq<char>)
    requires
        forall|i: int|
            0 <= i < pieces.len() ==> (#[trigger] pieces[i]).0.len() > 0 && pieces[i].1.len() > 0,
        forall|i: int, k: int|
            0 <= i < pieces.len() && 0 <= k < pieces[i].0.len() ==> !is_white_space(
                #[trigger] pieces[i].0[k],
            ),
        forall|i: int, k: int|
            0 <= i < pieces.len() && 0 <= k < pieces[i].1.len() ==> is_white_space(
                #[trigger] pieces[i].1[k],
            ),
    ensures
        words(joined_pieces(pieces) + rest) == pieces.map_values(|p: (Seq<char>, Seq<char>)| p.0)
            + words(rest),
    decreases pieces.len(),
{
    if pieces.len() == 0 {
        assert(joined_pieces(pieces) + rest =~= rest);
        assert(pieces.map_values(|p: (Seq<char>, Seq<char>)| p.0) + words(rest) =~= words(rest));
    } else {
        let init = pieces.drop_last();
        let (w, gap) = pieces.last();
        assert(pieces.last() == pieces[pieces.len() - 1]);
        lemma_words_of_pieces(init, Seq::empty());
        let j = joined_pieces(init);
        assert(j + Seq::<char>::empty() =~= j);
        let z = w + (gap + rest);
        assert(joined_pieces(pieces) + rest =~= j + z);
        if init.len() > 0 {
            let (w0, gap0) = init.last();
            assert(init.last() == pieces[pieces.len() - 2]);
            assert(j.last() == gap0.last());
            assert(is_white_space(gap0[gap0.len() - 1]));
        }
        crate::text::lemma_words_concat(j, z);
        assert(is_white_space(gap[0]));
        assert((gap + rest)[0] == gap[0]);
        assert forall|k: int| 0 <= k < w.len() implies !is_white_space(#[trigger] w[k]) by {
            assert(w[k] == pieces[pieces.len() - 1].0[k]);
        }
        crate::text::lemma_words_first_word(w, gap + rest);
        assert forall|k: int| 0 <= k < gap.len() implies is_white_space(#[trigger] gap[k]) by {
            assert(gap[k] == pieces[pieces.len() - 1].1[k]);
        }
        crate::text::lemma_words_skip(gap, rest);
        assert(words(Seq::<char>::empty()) =~= Seq::<Seq<char>>::empty());
        assert(pieces.map_values(|p: (Seq<char>, Seq<char>)| p.0) =~= init.map_values(
            |p: (Seq<char>, Seq<char>)| p.0,
        ).push(w));
        assert(init.map_values(|p: (Seq<char>, Seq<char>)| p.0) + Seq::<Seq<char>>::empty() =~= init.map_values(
            |p: (Seq<char>, Seq<char>)| p.0,
        ));
        assert(words(joined_pieces(pieces) + rest) =~= pieces.map_values(|p: (Seq<char>, Seq<char>)| p.0)
            + words(rest));
    }
}

proof fn lemma_key_in_words_shift(x: Seq<Seq<char>>, y: Seq<Seq<char>>, j: int)
    requires
        0 <= j,
    ensures
        layer_key_in_words(x + y, x.len() + j) == layer_key_in_words(y, j),
    decreases y.len() - j,
{
    if j < y.len() {
        assert((x + y)[x.len() + j] == y[j]);
        if j + 1 < y.len() {
            assert((x + y)[x.len() + j + 1] == y[j + 1]);
        }
        lemma_key_in_words_shift(x, y, j + 1);
    }
}

/// Words that are neither the layer-key element nor the end of the argument
/// array are passed over.
proof fn lemma_key_in_words_skip(x: Seq<Seq<char>>, y: Seq<Seq<char>>, i: int)
    requires
        0 <= i <= x.len(),
        forall|k: int| 0 <= k < x.len() ==> #[trigger] x[k] != layer_key_marker() && x[k] != "</array>"@,
    ensures
        layer_key_in_words(x + y, i) == layer_key_in_words(y, 0),
    decreases x.len() - i,
{
    if i < x.len() {
        assert((x + y)[i] == x[i]);
        lemma_key_in_words_skip(x, y, i + 1);
    } else {
        lemma_key_in_words_shift(x, y, 0);
    }
}

/// The words of the plist header, none of which is the layer-key element or
/// the end of the argument array.
#[verifier::rlimit(100)]
#[verifier::spinoff_prover]
proof fn lemma_header_words(rest: Seq<char>)
    ensures
        words(plist_prefix() + rest) == plist_header_pieces().map_values(|p: (Seq<char>, Seq<char>)| p.0)
            + words(rest),
        forall|k: int|
            0 <= k < plist_header_pieces().len() ==> #[trigger] plist_header_pieces()[k].0
                != layer_key_marker() && plist_header_pieces()[k].0 != "</array>"@,
{
    let pieces = plist_header_pieces();
    reveal_strlit("<string>--layer-key</string>");
    reveal_strlit("</array>");
    assert forall|i: int| 0 <= i < pieces.len() implies {
        &&& (#[trigger] pieces[i]).0.len() > 0
        &&& forall|k: int| 0 <= k < pieces[i].0.len() ==> !is_white_space(#[trigger] pieces[i].0[k])
    } by {
        if i == 0 {
            reveal_strlit("<?xml");
            reveal_strlit(" ");
        } else if i == 1 {
            reveal_strlit("version=\"1.0\"");
            reveal_strlit(" ");
        } else if i == 2 {
            reveal_strlit("encoding=\"UTF-8\"?>");
            reveal_strlit("\n");
        } else if i == 3 {
            reveal_strlit("<!DOCTYPE");
            reveal_strlit(" ");
        } else if i == 4 {
            reveal_strlit("plist");
            reveal_strlit(" ");
        } else if i == 5 {
            reveal_strlit("PUBLIC");
            reveal_strlit(" ");
        } else if i == 6 {
            reveal_strlit("\"-//Apple//DTD");
            reveal_strlit(" ");
        } else if i == 7 {
            reveal_strlit("PLIST");
            reveal_strlit(" ");
        } else if i == 8 {
            reveal_strlit("1.0//EN\"");
            reveal_strlit(" ");
        } else if i == 9 {
            reveal_strlit("\"http://www.apple.com/DTDs/PropertyList-1.0.dtd\">");
            reveal_strlit("\n");
        } else if i == 10 {
            reveal_strlit("<plist");
            reveal_strlit(" ");
        } else if i == 11 {
            reveal_strlit("version=\"1.0\">");
            reveal_strlit("\n");
        } else if i == 12 {
            reveal_strlit("<dict>");
            reveal_strlit("\n\t");
        } else if i == 13 {
            reveal_strlit("<key>Label</key>");
            reveal_strlit("\n\t");
        } else if i == 14 {
            reveal_strlit("<string>com.kazuki-hanai.hjkl</string>");
            reveal_strlit("\n\t");
        } else if i == 15 {
            reveal_strlit("<key>ProgramArguments</key>");
            reveal_strlit("\n\t");
        } else if i == 16 {
            reveal_strlit("<array>");
            reveal_strlit("\n");
        }
    }
    assert forall|i: int| 0 <= i < pieces.len() implies {
        &&& (#[trigger] pieces[i]).1.len() > 0
        &&& forall|k: int| 0 <= k < pieces[i].1.len() ==> is_white_space(#[trigger] pieces[i].1[k])
    } by {
        if i == 0 {
            reveal_strlit("<?xml");
            reveal_strlit(" ");
        } else if i == 1 {
            reveal_strlit("version=\"1.0\"");
            reveal_strlit(" ");
        } else if i == 2 {
            reveal_strlit("encoding=\"UTF-8\"?>");
            reveal_strlit("\n");
        } else if i == 3 {
            reveal_strlit("<!DOCTYPE");
            reveal_strlit(" ");
        } else if i == 4 {
            reveal_strlit("plist");
            reveal_strlit(" ");
        } else if i == 5 {
            reveal_strlit("PUBLIC");
            reveal_strlit(" ");
        } else if i == 6 {
            reveal_strlit("\"-//Apple//DTD");
            reveal_strlit(" ");
        } else if i == 7 {
            reveal_strlit("PLIST");
            reveal_strlit(" ");
        } else if i == 8 {
            reveal_strlit("1.0//EN\"");
            reveal_strlit(" ");
        } else if i == 9 {
            reveal_strlit("\"http://www.apple.com/DTDs/PropertyList-1.0.dtd\">");
            reveal_strlit("\n");
        } else if i == 10 {
            reveal_strlit("<plist");
            reveal_strlit(" ");
        } else if i == 11 {
            reveal_strlit("version=\"1.0\">");
            reveal_strlit("\n");
        } else if i == 12 {
            reveal_strlit("<dict>");
            reveal_strlit("\n\t");
        } else if i == 13 {
            reveal_strlit("<key>Label</key>");
            reveal_strlit("\n\t");
        } else if i == 14 {
            reveal_strlit("<string>com.kazuki-hanai.hjkl</string>");
            reveal_strlit("\n\t");
        } else if i == 15 {
            reveal_strlit("<key>ProgramArguments</key>");
            reveal_strlit("\n\t");
        } else if i == 16 {
            reveal_strlit("<array>");
            reveal_strlit("\n");
        }
    }
    assert forall|i: int| 0 <= i < pieces.len() implies {
        &&& (#[trigger] pieces[i]).0 != layer_key_marker()
        &&& pieces[i].0 != "</array>"@
    } by {
        if i == 0 {
            reveal_strlit("<?xml");
            reveal_strlit(" ");
        } else if i == 1 {
            reveal_strlit("version=\"1.0\"");
            reveal_strlit(" ");
        } else if i == 2 {
            reveal_strlit("encoding=\"UTF-8\"?>");
            reveal_strlit("\n");
        } else if i == 3 {
            reveal_strlit("<!DOCTYPE");
            reveal_strlit(" ");
        } else if i == 4 {
            reveal_strlit("plist");
            reveal_strlit(" ");
        } else if i == 5 {
            reveal_strlit("PUBLIC");
            reveal_strlit(" ");
        } else if i == 6 {
            reveal_strlit("\"-//Apple//DTD");
            reveal_strlit(" ");
        } else if i == 7 {
            reveal_strlit("PLIST");
            reveal_strlit(" ");
        } else if i == 8 {
            reveal_strlit("1.0//EN\"");
            reveal_strlit(" ");
        } else if i == 9 {
            reveal_strlit("\"http://www.apple.com/DTDs/PropertyList-1.0.dtd\">");
            reveal_strlit("\n");
        } else if i == 10 {
            reveal_strlit("<plist");
            reveal_strlit(" ");
        } else if i == 11 {
            reveal_strlit("version=\"1.0\">");
            reveal_strlit("\n");
        } else if i == 12 {
            reveal_strlit("<dict>");
            reveal_strlit("\n\t");
        } else if i == 13 {
            reveal_strlit("<key>Label</key>");
            reveal_strlit("\n\t");
        } else if i == 14 {
            reveal_strlit("<string>com.kazuki-hanai.hjkl</string>");
            reveal_strlit("\n\t");
        } else if i == 15 {
            reveal_strlit("<key>ProgramArguments</key>");
            reveal_strlit("\n\t");
        } else if i == 16 {
            reveal_strlit("<array>");
            reveal_strlit("\n");
        }
        if pieces[i].0 == "</array>"@ {
            assert(pieces[i].0[0] == '<' && pieces[i].0[1] == '/');
        }
    }
    lemma_words_of_pieces(pieces, rest);
}

/// An argument element whose text needs no escaping is read as one word.
proof fn lemma_plain_line_words(v: Seq<char>, x: Seq<char>)
    requires
        v.len() > 0,
        plain_text(v),
    ensures
        words(plist_string_line(v) + x) == seq![string_word(v)] + words(x),
{
    reveal_strlit("\t\t<string>");
    reveal_strlit("</string>\n");
    reveal_strlit("<string>");
    reveal_strlit("</string>");
    reveal_strlit("\t\t");
    reveal_strlit("\n");
    lemma_xml_escaped_plain(v);
    let w = string_word(v);
    assert(plist_string_line(v) + x =~= "\t\t"@ + (w + ("\n"@ + x)));
    assert forall|k: int| 0 <= k < w.len() implies !is_white_space(#[trigger] w[k]) by {
        if 8 <= k < 8 + v.len() {
            assert(w[k] == v[k - 8]);
        }
    }
    assert(("\n"@ + x)[0] == '\n');
    crate::text::lemma_words_first_word(w, "\n"@ + x);
    crate::text::lemma_words_skip("\n"@, x);
    crate::text::lemma_words_skip("\t\t"@, w + ("\n"@ + x));
}

/// Where `<` stands in an argument element.
proof fn lemma_line_angles(v: Seq<char>, j: int)
    requires
        0 <= j < plist_string_line(v).len(),
        plist_string_line(v)[j] == '<',
    ensures
        j == 2 || j == 10 + xml_escaped(v).len(),
{
    reveal_strlit("\t\t<string>");
    reveal_strlit("</string>\n");
    let e = xml_escaped(v);
    let s = plist_string_line(v);
    lemma_xml_escaped_shape(v);
    let n = e.len() as int;
    if j < 10 {
        assert(s[j] == "\t\t<string>"@[j]);
        if j == 0 {
        } else if j == 1 {
        } else if j == 2 {
        } else if j == 3 {
        } else if j == 4 {
        } else if j == 5 {
        } else if j == 6 {
        } else if j == 7 {
        } else if j == 8 {
        } else {
        }
    } else if j < 10 + n {
        assert(s[j] == e[j - 10]);
    } else {
        let t = j - 10 - n;
        assert(s[j] == "</string>\n"@[t]);
        if t == 0 {
        } else if t == 1 {
        } else if t == 2 {
        } else if t == 3 {
        } else if t == 4 {
        } else if t == 5 {
        } else if t == 6 {
        } else if t == 7 {
        } else if t == 8 {
        } else {
        }
    }
}

/// The element of any binary path other than `--layer-key` holds no word
/// that is the layer-key element or the end of the argument array.
proof fn lemma_binary_line_words(b: Seq<char>)
    requires
        b != "--layer-key"@,
    ensures
        forall|k: int|
            0 <= k < words(plist_string_line(b)).len() ==> #[trigger] words(plist_string_line(b))[k]
                != layer_key_marker() && words(plist_string_line(b))[k] != "</array>"@,
        is_white_space(plist_string_line(b).last()),
{
    reveal_strlit("\t\t<string>");
    reveal_strlit("</string>\n");
    reveal_strlit("<string>--layer-key</string>");
    reveal_strlit("</array>");
    reveal_strlit("--layer-key");
    let s = plist_string_line(b);
    let e = xml_escaped(b);
    let n = e.len() as int;
    lemma_xml_escaped_shape(b);
    assert(s.len() == n + 20);
    assert(s[n + 19] == '\n');
    let m = layer_key_marker();
    assert forall|a: int| 0 <= a && a + m.len() <= s.len() implies #[trigger] s.subrange(a, a + m.len())
        != m by {
        if s.subrange(a, a + m.len()) == m {
            assert(s[a] == m[0]);
            assert(s[a + 19] == m[19]);
            lemma_line_angles(b, a);
            lemma_line_angles(b, a + 19);
            assert(a == 2 && n == 11);
            assert forall|k: int| 0 <= k < 11 implies e[k] == "--layer-key"@[k] by {
                assert(e[k] == s[10 + k]);
                assert(s[10 + k] == m[8 + k]);
            }
            assert(e =~= "--layer-key"@);
            assert forall|k: int| 0 <= k < e.len() implies #[trigger] e[k] != '&' by {}
        }
    }
    crate::text::lemma_no_word_is(s, 0, m);
    let t = "</array>"@;
    assert forall|a: int| 0 <= a && a + t.len() <= s.len() implies #[trigger] s.subrange(a, a + t.len())
        != t by {
        if s.subrange(a, a + t.len()) == t {
            assert(s[a] == t[0]);
            lemma_line_angles(b, a);
            if a == 2 {
                assert(s[3] == t[1]);
            } else {
                assert(s[a + 2] == t[2]);
            }
        }
    }
    crate::text::lemma_no_word_is(s, 0, t);
}

/// The words of the plist tail start with the end of the argument array.
proof fn lemma_tail_words(stdout_log: Seq<char>, stderr_log: Seq<char>)
    ensures
        words(plist_tail(stdout_log, stderr_log)).len() > 0,
        words(plist_tail(stdout_log, stderr_log))[0] == "</array>"@,
{
    reveal_strlit("\t");
    reveal_strlit("</array>");
    reveal_strlit("\n\t<key>RunAtLoad</key>\n\t<true/>\n\t<key>KeepAlive</key>\n\t<true/>\n\t<key>ExitTimeOut</key>\n\t<integer>1</integer>\n\t<key>ProcessType</key>\n\t<string>Interactive</string>\n\t<key>StandardOutPath</key>\n\t<string>");
    let t = plist_tail(stdout_log, stderr_log);
    let r = t.subrange(9, t.len() as int);
    assert(t =~= "\t"@ + ("</array>"@ + r));
    assert(r[0] == '\n');
    crate::text::lemma_words_first_word("</array>"@, r);
    crate::text::lemma_words_skip("\t"@, "</array>"@ + r);
}

/// The argument lines of the agent, followed by the plist tail, name the
/// layer key they were rendered with.
#[verifier::rlimit(100)]
#[verifier::spinoff_prover]
proof fn lemma_argument_words(layer_key: Option<KeyCode>, t: Seq<char>)
    requires
        layer_key matches Some(code) ==> valid_layer_key(Platform::MacOs, code),
        words(t).len() > 0,
        words(t)[0] == "</array>"@,
    ensures
        layer_key_in_words(words(plist_string_lines(agent_arguments(layer_key)) + t), 0) == layer_key,
{
    reveal_strlit("run");
    reveal_strlit("--launchd");
    reveal_strlit("--layer-key");
    reveal_strlit("<string>");
    reveal_strlit("</string>");
    reveal_strlit("<string>--layer-key</string>");
    reveal_strlit("</array>");
    let args = agent_arguments(layer_key);
    let la = plist_string_lines(args);
    assert(plain_text("run"@));
    assert(plain_text("--launchd"@));
    assert(plain_text("--layer-key"@));
    let l_run = plist_string_line("run"@);
    let l_launchd = plist_string_line("--launchd"@);
    let w_run = string_word("run"@);
    let w_launchd = string_word("--launchd"@);
    assert(w_run.len() == 20);
    assert(w_launchd.len() == 26);
    match layer_key {
        Some(code) => {
            let d = decimal(code as nat);
            crate::text::lemma_decimal_shape(code as nat);
            assert(plain_text(d)) by {
                assert forall|k: int| 0 <= k < d.len() implies !is_white_space(#[trigger] d[k]) && d[k]
                    != '&' && d[k] != '<' && d[k] != '>' by {
                    assert(crate::text::is_digit(d[k]));
                }
            }
            assert(args =~= seq!["run"@, "--launchd"@, "--layer-key"@, d]);
            let a3 = args.drop_last();
            let a2 = a3.drop_last();
            let a1 = a2.drop_last();
            assert(a1.drop_last() =~= Seq::<Seq<char>>::empty());
            assert(la == plist_string_lines(a3) + plist_string_line(d));
            assert(plist_string_lines(a3) == plist_string_lines(a2) + plist_string_line("--layer-key"@));
            assert(plist_string_lines(a2) == plist_string_lines(a1) + l_launchd);
            assert(plist_string_lines(a1) == plist_string_lines(a1.drop_last()) + l_run);
            let l_key = plist_string_line("--layer-key"@);
            let l_d = plist_string_line(d);
            assert(la + t =~= l_run + (l_launchd + (l_key + (l_d + t))));
            lemma_plain_line_words(d, t);
            lemma_plain_line_words("--layer-key"@, l_d + t);
            lemma_plain_line_words("--launchd"@, l_key + (l_d + t));
            lemma_plain_line_words("run"@, l_launchd + (l_key + (l_d + t)));
            let w3 = string_word(d);
            let tw = seq![w_run, w_launchd, string_word("--layer-key"@), w3] + words(t);
            assert(words(la + t) =~= tw);
            assert(w3.subrange(0, 8) =~= "<string>"@);
            assert(w3.subrange(w3.len() - 9, w3.len() as int) =~= "</string>"@);
            assert(w3.subrange(8, w3.len() - 9) =~= d);
            assert(string_element_text(w3) == Some(d));
            crate::text::lemma_parse_decimal(code as nat, 0xFFFF);
            crate::keymap::law_numeric_layer_key(Platform::MacOs, code);
            assert(baked_key_value(d) == Some(code));
            assert(string_word("--layer-key"@) =~= layer_key_marker());
            assert(tw[0] == w_run && tw[1] == w_launchd && tw[2] == layer_key_marker() && tw[3] == w3);
            assert(layer_key_in_words(tw, 2) == Some(code));
            assert(layer_key_in_words(tw, 1) == layer_key_in_words(tw, 2));
            assert(layer_key_in_words(tw, 0) == layer_key_in_words(tw, 1));
        },
        None => {
            assert(args =~= seq!["run"@, "--launchd"@]);
            let a1 = args.drop_last();
            assert(a1.drop_last() =~= Seq::<Seq<char>>::empty());
            assert(la == plist_string_lines(a1) + l_launchd);
            assert(plist_string_lines(a1) == plist_string_lines(a1.drop_last()) + l_run);
            assert(la + t =~= l_run + (l_launchd + t));
            lemma_plain_line_words("--launchd"@, t);
            lemma_plain_line_words("run"@, l_launchd + t);
            let tw = seq![w_run, w_launchd] + words(t);
            assert(words(la + t) =~= tw);
            assert(tw[0] == w_run && tw[1] == w_launchd && tw[2] == "</array>"@);
            assert(layer_key_in_words(tw, 2) is None);
            assert(layer_key_in_words(tw, 1) == layer_key_in_words(tw, 2));
            assert(layer_key_in_words(tw, 0) == layer_key_in_words(tw, 1));
        },
    }
}

/// The layer key baked into a rendered plist is read back exactly: the one
/// rendered, or none. (A binary at the path `--layer-key` itself would be
/// read as the layer-key element and is left out.)
pub proof fn law_plist_layer_key_round_trip(
    binary: Seq<char>,
    stdout_log: Seq<char>,
    stderr_log: Seq<char>,
    layer_key: Option<KeyCode>,
)
    requires
        binary != "--layer-key"@,
        layer_key matches Some(code) ==> valid_layer_key(Platform::MacOs, code),
    ensures
        plist_layer_key_spec(plist_document(binary, stdout_log, stderr_log, layer_key)) == layer_key,
{
    let p = plist_prefix();
    let lb = plist_string_line(binary);
    let la = plist_string_lines(agent_arguments(layer_key));
    let t = plist_tail(stdout_log, stderr_log);
    let doc = plist_document(binary, stdout_log, stderr_log, layer_key);
    lemma_tail_words(stdout_log, stderr_log);
    lemma_argument_words(layer_key, t);
    lemma_binary_line_words(binary);
    crate::text::lemma_words_concat(lb, la + t);
    let y = lb + (la + t);
    assert(doc =~= p + y);
    lemma_header_words(y);
    let h = plist_header_pieces().map_values(|q: (Seq<char>, Seq<char>)| q.0);
    assert forall|k: int| 0 <= k < h.len() implies #[trigger] h[k] != layer_key_marker() && h[k] != "</array>"@ by {
        assert(h[k] == plist_header_pieces()[k].0);
    }
    let wb = words(lb);
    let wr = words(la + t);
    lemma_key_in_words_skip(h, wb + wr, 0);
    lemma_key_in_words_skip(wb, wr, 0);
    assert(words(doc) == h + (wb + wr));
}

// ---------------------------------------------------------------------------
// Health record
// ---------------------------------------------------------------------------

/// Ground truth written by the launchd-run process itself: whether it
/// acquired the keyboard tap.
#[derive(Clone, Copy, Debug, PartialEq, Eq, Structural)]
pub enum Health {
    Healthy,
    TapFailed,
}

pub open spec fn health_token(health: Health) -> Seq<char> {
    match health {
        Health::Healthy => "ok"@,
        Health::TapFailed => "tap_failed"@,
    }
}

/// The health file's contents: `<token> <pid> <unix time>` and a newline.
pub open spec fn health_text(health: Health, pid: u32, timestamp: u64) -> Seq<char> {
    health_token(health) + " "@ + decimal(pid as nat) + " "@ + decimal(timestamp as nat) + "\n"@
}

pub fn health_record(health: Health, pid: u32, timestamp: u64) -> (r: String)
    ensures
        r@ == health_text(health, pid, timestamp),
{
    let mut r = match health {
        Health::Healthy => owned("ok"),
        Health::TapFailed => owned("tap_failed"),
    };
    r.append(" ");
    r.append(decimal_string(pid as u64).as_str());
    r.append(" ");
    r.append(decimal_string(timestamp).as_str());
    r.append("\n");
    r
}

/// Reads a health record: the first word names the health, the second is the
/// process id; anything after is ignored.
pub open spec fn health_parse(contents: Seq<char>) -> Option<(Health, u32)> {
    let w = words(contents);
    if w.len() == 0 {
        None
    } else {
        let health = if w[0] == "ok"@ {
            Some(Health::Healthy)
        } else if w[0] == "tap_failed"@ {
            Some(Health::TapFailed)
        } else {
            None
        };
        match health {
            None => None,
            Some(h) => if w.len() < 2 {
                None
            } else {
                match parse_bounded(w[1], 0xFFFF_FFFF) {
                    Some(pid) => Some((h, pid as u32)),
                    None => None,
                }
            },
        }
    }
}

pub fn parse_health_record(contents: &str) -> (r: Option<(Health, u32)>)
    ensures
        r == health_parse(contents@),
{
    let chars = chars_of(contents);
    let w = split_words(&chars);
    if w.len() == 0 {
        return None;
    }
    let first = crate::text::string_of(&w[0]);
    let health = if str_equal(first.as_str(), "ok") {
        Health::Healthy
    } else if str_equal(first.as_str(), "tap_failed") {
        Health::TapFailed
    } else {
        return None;
    };
    if w.len() < 2 {
        return None;
    }
    match parse_unsigned_bounded(&w[1], 0xFFFF_FFFF) {
        Some(pid) => Some((health, pid as u32)),
        None => None,
    }
}

/// Reading back a written health record gives its health and process id.
pub proof fn law_health_record_round_trip(health: Health, pid: u32, timestamp: u64)
    ensures
        health_parse(health_text(health, pid, timestamp)) == Some((health, pid)),
{
    let token = health_token(health);
    reveal_strlit("ok");
    reveal_strlit("tap_failed");
    reveal_strlit(" ");
    lemma_decimal_shape(pid as nat);
    lemma_decimal_shape(timestamp as nat);
    crate::text::lemma_parse_decimal(pid as nat, 0xFFFF_FFFF);
    let rest = decimal(timestamp as nat) + "\n"@;
    assert(health_text(health, pid, timestamp) == token + " "@ + decimal(pid as nat) + " "@ + rest);
    lemma_words_of_record(token, decimal(pid as nat), rest);
    assert("ok"@ != "tap_failed"@);
}

// ---------------------------------------------------------------------------
// `launchctl print`
// ---------------------------------------------------------------------------

/// First index at or after `i` holding a line feed (or the length).
pub open spec fn line_end(s: Seq<char>, i: int) -> int
    decreases s.len() - i,
{
    if i < 0 || i >= s.len() {
        i
    } else if s[i] == '\n' {
        i
    } else {
        line_end(s, i + 1)
    }
}

/// The process id a `launchctl print` line states: the trimmed line is
/// `pid = ` followed by the number.
pub open spec fn line_pid(line: Seq<char>) -> Option<u32> {
    let t = trim(line);
    if t.len() >= 6 && t.subrange(0, 6) == "pid = "@ {
        match parse_bounded(t.subrange(6, t.len() as int), 0xFFFF_FFFF) {
            Some(pid) => Some(pid as u32),
            None => None,
        }
    } else {
        None
    }
}

/// The process id stated by the first line, from index `i` on, that states
/// one.
pub open spec fn output_pid_from(output: Seq<char>, i: int) -> Option<u32>
    decreases output.len() - i,
{
    if i < 0 || i >= output.len() {
        None
    } else {
        let e = line_end(output, i);
        proof {
            lemma_line_end(output, i);
        }
        match line_pid(output.subrange(i, e)) {
            Some(pid) => Some(pid),
            None => if e >= output.len() {
                None
            } else {
                output_pid_from(output, e + 1)
            },
        }
    }
}

/// A `launchctl print` line that reads `pid = N`, however it is indented
/// and whatever whitespace follows, states the process id `N`.
pub proof fn law_indented_pid_line(lead: Seq<char>, pid: u32, pad: Seq<char>)
    requires
        forall|k: int| 0 <= k < lead.len() ==> is_white_space(#[trigger] lead[k]),
        forall|k: int| 0 <= k < pad.len() ==> is_white_space(#[trigger] pad[k]),
    ensures
        line_pid(lead + "pid = "@ + decimal(pid as nat) + pad) == Some(pid),
{
    reveal_strlit("pid = ");
    let d = decimal(pid as nat);
    lemma_decimal_shape(pid as nat);
    let x = "pid = "@ + d;
    assert(x[0] == 'p');
    assert(x.last() == d[d.len() - 1]);
    crate::text::lemma_trim_surrounded(lead, x, pad);
    assert(lead + "pid = "@ + d + pad == lead + x + pad);
    assert(x.subrange(0, 6) =~= "pid = "@);
    assert(x.subrange(6, x.len() as int) =~= d);
    crate::text::lemma_parse_decimal(pid as nat, 0xFFFF_FFFF);
}

proof fn lemma_line_end_shift(b: Seq<char>, x: Seq<char>, j: int)
    requires
        0 <= j <= x.len(),
    ensures
        line_end(b + x, b.len() + j) == b.len() + line_end(x, j),
    decreases x.len() - j,
{
    if j < x.len() {
        assert((b + x)[b.len() + j] == x[j]);
        lemma_line_end_shift(b, x, j + 1);
    }
}

proof fn lemma_output_pid_shift(b: Seq<char>, x: Seq<char>, j: int)
    requires
        0 <= j <= x.len(),
    ensures
        output_pid_from(b + x, b.len() + j) == output_pid_from(x, j),
    decreases x.len() - j,
{
    if j < x.len() {
        lemma_line_end_shift(b, x, j);
        lemma_line_end(x, j);
        let e = line_end(x, j);
        assert((b + x).subrange(b.len() + j, b.len() + e) =~= x.subrange(j, e));
        if e < x.len() {
            lemma_output_pid_shift(b, x, e + 1);
        }
    }
}

/// Lines of `b` that state no pid are passed over on the way into `x`.
proof fn lemma_output_pid_skip(b: Seq<char>, x: Seq<char>, i: int)
    requires
        0 <= i <= b.len(),
        b.len() == 0 || b.last() == '\n',
        output_pid_from(b, i) is None,
    ensures
        output_pid_from(b + x, i) == output_pid_from(x, 0),
    decreases b.len() - i,
{
    if i == b.len() {
        lemma_output_pid_shift(b, x, 0);
    } else {
        lemma_line_end(b, i);
        let e = line_end(b, i);
        assert(e < b.len()) by {
            if e >= b.len() {
                lemma_line_end_no_break(b, i);
            }
        }
        lemma_line_end_prefix(b, x, i);
        assert((b + x).subrange(i, e) =~= b.subrange(i, e));
        lemma_output_pid_skip(b, x, e + 1);
    }
}

proof fn lemma_line_end_no_break(s: Seq<char>, i: int)
    requires
        0 <= i <= s.len(),
        line_end(s, i) >= s.len(),
    ensures
        forall|k: int| i <= k < s.len() ==> #[trigger] s[k] != '\n',
    decreases s.len() - i,
{
    if i < s.len() {
        lemma_line_end_no_break(s, i + 1);
    }
}

proof fn lemma_line_end_prefix(b: Seq<char>, x: Seq<char>, i: int)
    requires
        0 <= i <= b.len(),
        line_end(b, i) < b.len(),
    ensures
        line_end(b + x, i) == line_end(b, i),
    decreases b.len() - i,
{
    assert((b + x)[i] == b[i]);
    if b[i] != '\n' {
        lemma_line_end_prefix(b, x, i + 1);
    }
}

/// `service_pid` finds an indented `pid = N` line of `launchctl print`
/// output: after lines that state no pid, it reads `N`.
pub proof fn law_pid_line_is_found(
    before: Seq<char>,
    lead: Seq<char>,
    pid: u32,
    pad: Seq<char>,
    rest: Seq<char>,
)
    requires
        before.len() == 0 || before.last() == '\n',
        output_pid_from(before, 0) is None,
        forall|k: int| 0 <= k < lead.len() ==> is_white_space(#[trigger] lead[k]) && lead[k] != '\n',
        forall|k: int| 0 <= k < pad.len() ==> is_white_space(#[trigger] pad[k]) && pad[k] != '\n',
        rest.len() == 0 || rest[0] == '\n',
    ensures
        output_pid_from(before + (lead + "pid = "@ + decimal(pid as nat) + pad + rest), 0) == Some(pid),
{
    reveal_strlit("pid = ");
    let line = lead + "pid = "@ + decimal(pid as nat) + pad;
    let x = line + rest;
    lemma_output_pid_skip(before, x, 0);
    law_indented_pid_line(lead, pid, pad);
    lemma_decimal_shape(pid as nat);
    let d = decimal(pid as nat);
    assert forall|k: int| 0 <= k < line.len() implies #[trigger] line[k] != '\n' by {
        let a = lead.len() as int;
        if k < a {
            assert(line[k] == lead[k]);
        } else if k < a + 6 {
            assert(line[k] == "pid = "@[k - a]);
        } else if k < a + 6 + d.len() {
            assert(line[k] == d[k - a - 6]);
            assert(crate::text::is_digit(d[k - a - 6]));
        } else {
            assert(line[k] == pad[k - a - 6 - d.len()]);
        }
    }
    lemma_line_end_exact_at(x, 0, line.len() as int);
    assert(x.subrange(0, line.len() as int) =~= line);
}

proof fn lemma_line_end_exact_at(s: Seq<char>, i: int, e: int)
    requires
        0 <= i <= e <= s.len(),
        forall|k: int| i <= k < e ==> #[trigger] s[k] != '\n',
        e < s.len() ==> s[e] == '\n',
    ensures
        line_end(s, i) == e,
    decreases e - i,
{
    if i < e {
        lemma_line_end_exact_at(s, i + 1, e);
    }
}

pub proof fn lemma_line_end(s: Seq<char>, i: int)
    requires
        0 <= i <= s.len(),
    ensures
        i <= line_end(s, i) <= s.len(),
    decreases s.len() - i,
{
    if i < s.len() && s[i] != '\n' {
        lemma_line_end(s, i + 1);
    }
}

fn pid_of_line(line: &Vec<char>) -> (r: Option<u32>)
    ensures
        r == line_pid(line@),
{
    let t = crate::text::trim_chars(line);
    let prefix = chars_of("pid = ");
    proof {
        reveal_strlit("pid = ");
    }
    if t.len() < 6 {
        return None;
    }
    let head = crate::text::slice_chars(&t, 0, 6);
    if !crate::text::chars_equal(&head, &prefix) {
        return None;
    }
    let rest = crate::text::slice_chars(&t, 6, t.len());
    match parse_unsigned_bounded(&rest, 0xFFFF_FFFF) {
        Some(pid) => Some(pid as u32),
        None => None,
    }
}

/// The agent's process id from the output of `launchctl print`, if it runs.
pub fn service_pid(output: &str) -> (r: Option<u32>)
    ensures
        r == output_pid_from(output@, 0),
{
    let s = chars_of(output);
    let n = s.len();
    let mut i: usize = 0;
    while i < n
        invariant
            i <= n,
            n == output@.len(),
            s@ == output@,
            output_pid_from(output@, 0) == output_pid_from(output@, i as int),
        decreases n - i,
    {
        let mut e = i;
        proof {
            lemma_line_end(output@, i as int);
        }
        while e < n && s[e] != '\n'
            invariant
                i <= e <= n,
                n == output@.len(),
                s@ == output@,
                line_end(output@, e as int) == line_end(output@, i as int),
            decreases n - e,
        {
            e = e + 1;
        }
        let line = crate::text::slice_chars(&s, i, e);
        if let Some(pid) = pid_of_line(&line) {
            return Some(pid);
        }
        if e >= n {
            return None;
        }
        i = e + 1;
    }
    None
}

// ---------------------------------------------------------------------------
// Readiness and status
// ---------------------------------------------------------------------------

/// What one look at the health record tells the management commands.
#[derive(Clone, Copy, Debug, PartialEq, Eq, Structural)]
pub enum Readiness {
    /// The agent runs and holds the keyboard tap.
    Active,
    /// The agent runs but macOS denied it the keyboard tap.
    Denied,
    /// No current record yet: keep waiting.
    Unknown,
}

pub fn readiness(health: Option<Health>) -> (r: Readiness)
    ensures
        r == match health {
            Some(Health::Healthy) => Readiness::Active,
            Some(Health::TapFailed) => Readiness::Denied,
            None => Readiness::Unknown,
        },
{
    match health {
        Some(Health::Healthy) => Readiness::Active,
        Some(Health::TapFailed) => Readiness::Denied,
        None => Readiness::Unknown,
    }
}

pub open spec fn not_ready_text(trusted: bool, binary: Seq<char>) -> Seq<char> {
    "The service is loaded, but key remapping is NOT active.\n"@ + if trusted {
        "macOS says Accessibility is granted, but it still denied the keyboard tap.\nThis often happens after rebuilding/reinstalling the binary.\n\nRemove and re-add this binary in:\n  System Settings -> Privacy & Security -> Accessibility\nAlso allow it in Input Monitoring if that section lists it.\nThen run `hjkl restart`.\nBinary:\n  "@
            + binary
    } else {
        "macOS has not allowed this binary to read keyboard events.\n\nGrant permission, then run `hjkl restart`:\n  System Settings -> Privacy & Security -> Accessibility\n  (and Input Monitoring, if it is listed)\nAllow this binary:\n  "@
            + binary
    }
}

/// The explanation given when the agent runs but has no keyboard tap;
/// `trusted` is whether macOS reports Accessibility as granted.
pub fn not_ready_message(trusted: bool, binary: &str) -> (r: String)
    ensures
        r@ == not_ready_text(trusted, binary@),
{
    let mut message = owned("The service is loaded, but key remapping is NOT active.\n");
    if trusted {
        message.append(
            "macOS says Accessibility is granted, but it still denied the keyboard tap.\nThis often happens after rebuilding/reinstalling the binary.\n\nRemove and re-add this binary in:\n  System Settings -> Privacy & Security -> Accessibility\nAlso allow it in Input Monitoring if that section lists it.\nThen run `hjkl restart`.\nBinary:\n  ",
        );
    } else {
        message.append(
            "macOS has not allowed this binary to read keyboard events.\n\nGrant permission, then run `hjkl restart`:\n  System Settings -> Privacy & Security -> Accessibility\n  (and Input Monitoring, if it is listed)\nAllow this binary:\n  ",
        );
    }
    message.append(binary);
    message
}

/// The error when no health record confirmed the agent in time; `loaded` is
/// whether launchd still has the agent loaded.
pub fn unconfirmed_error(loaded: bool) -> (e: Error)
    ensures
        e.spec_message() == if loaded {
            "Could not confirm key remapping started within 2 seconds.\nCheck `hjkl status` and the logs."@
        } else {
            "The launchd service did not stay loaded.\nCheck `hjkl status` and the logs."@
        },
{
    if !loaded {
        Error::new(owned("The launchd service did not stay loaded.\nCheck `hjkl status` and the logs."))
    } else {
        Error::new(
            owned(
                "Could not confirm key remapping started within 2 seconds.\nCheck `hjkl status` and the logs.",
            ),
        )
    }
}

/// The "key remapping" line of `status`.
pub fn remapping_status(loaded: bool, health: Option<Health>) -> (r: &'static str)
    ensures
        r@ == remapping_text(loaded, health),
{
    if !loaded {
        "not active (not running)"
    } else {
        match health {
            Some(Health::Healthy) => "active",
            Some(Health::TapFailed) => "not active (permission needed)",
            None => "unknown",
        }
    }
}

/// Which plist `restart` loads.
#[derive(Clone, Copy, Debug, PartialEq, Eq, Structural)]
pub enum RestartPlan {
    /// Reload the enabled agent from `~/Library/LaunchAgents`.
    LaunchAgents,
    /// Reload the agent started without login auto-start.
    Runtime,
    /// Nothing was set up: start it.
    Start,
}

/// `restart` keeps whichever plist exists, the enabled one first; with a new
/// layer key the chosen plist is rendered again.
pub fn restart_plan(launch_agents_exists: bool, runtime_exists: bool) -> (r: RestartPlan)
    ensures
        r == if launch_agents_exists {
            RestartPlan::LaunchAgents
        } else if runtime_exists {
            RestartPlan::Runtime
        } else {
            RestartPlan::Start
        },
{
    if launch_agents_exists {
        RestartPlan::LaunchAgents
    } else if runtime_exists {
        RestartPlan::Runtime
    } else {
        RestartPlan::Start
    }
}

/// The "key remapping" line's value (see [`remapping_status`]).
pub open spec fn remapping_text(loaded: bool, health: Option<Health>) -> Seq<char> {
    if !loaded {
        "not active (not running)"@
    } else {
        match health {
            Some(Health::Healthy) => "active"@,
            Some(Health::TapFailed) => "not active (permission needed)"@,
            None => "unknown"@,
        }
    }
}

/// What `status` prints before the `launchctl print` dump: the agent's
/// label, the layer key baked into its plist (semicolon when none is),
/// whether it starts at login, whether launchd has it loaded, whether
/// it remaps keys (from its health record, read only while loaded), whether
/// Accessibility is granted, and the binary, plist and log paths.
pub open spec fn status_report(
    layer_key: Option<KeyCode>,
    enabled: bool,
    loaded: bool,
    health: Option<Health>,
    trusted: bool,
    binary: Result<Seq<char>, Seq<char>>,
    plist: Seq<char>,
    stdout_log: Seq<char>,
    stderr_log: Seq<char>,
    target: Seq<char>,
) -> Seq<Seq<char>> {
    let key = match layer_key {
        Some(code) => code,
        None => Platform::MacOs.key_semicolon(),
    };
    seq![
        "label:   "@ + spec_label(),
        "layer key: "@ + key_label(Platform::MacOs, key),
        "enabled: "@ + auto_start_text(enabled),
        "running: "@ + yes_no(loaded),
        "key remapping: "@ + remapping_text(loaded, health),
        "accessibility: "@ + if trusted {
            "granted"@
        } else {
            "not granted"@
        },
        binary_text(binary),
        "plist:   "@ + plist,
        "stdout:  "@ + stdout_log,
        "stderr:  "@ + stderr_log,
        Seq::empty(),
        "launchctl print "@ + target + ":"@,
    ]
}

pub fn status_lines(
    layer_key: Option<KeyCode>,
    enabled: bool,
    loaded: bool,
    health: Option<Health>,
    trusted: bool,
    binary: Result<&str, &str>,
    plist: &str,
    stdout_log: &str,
    stderr_log: &str,
    target: &str,
) -> (r: Vec<String>)
    ensures
        r@.len() == 12,
        forall|i: int|
            0 <= i < 12 ==> #[trigger] r@[i]@ == status_report(
                layer_key,
                enabled,
                loaded,
                health,
                trusted,
                match binary {
                    Ok(path) => Ok(path@),
                    Err(reason) => Err(reason@),
                },
                plist@,
                stdout_log@,
                stderr_log@,
                target@,
            )[i],
{
    let mut lines: Vec<String> = Vec::new();
    let key = match layer_key {
        Some(code) => code,
        None => default_layer_key(Platform::MacOs),
    };
    lines.push(labelled("label:   ", label()));
    lines.push(labelled("layer key: ", layer_key_label(Platform::MacOs, key).as_str()));
    lines.push(labelled("enabled: ", auto_start_status(enabled)));
    lines.push(labelled("running: ", yes_or_no(loaded)));
    lines.push(labelled("key remapping: ", remapping_status(loaded, health)));
    lines.push(
        labelled(
            "accessibility: ",
            if trusted {
                "granted"
            } else {
                "not granted"
            },
        ),
    );
    lines.push(binary_line(binary));
    lines.push(labelled("plist:   ", plist));
    lines.push(labelled("stdout:  ", stdout_log));
    lines.push(labelled("stderr:  ", stderr_log));
    lines.push(String::new());
    let mut header = labelled("launchctl print ", target);
    header.append(":");
    lines.push(header);
    lines
}

/// Which plist the agent is loaded from.
#[derive(Clone, Copy, Debug, PartialEq, Eq, Structural)]
pub enum AgentPlist {
    /// `~/Library/LaunchAgents`: loaded at login too.
    LaunchAgents,
    /// The agent's own directory: loaded now only.
    Runtime,
}

/// How `start` loads the agent: the plist it writes and the layer key it
/// bakes into it.
#[derive(Clone, Copy, Debug, PartialEq, Eq, Structural)]
pub struct LoadPlan {
    pub plist: AgentPlist,
    pub layer_key: Option<KeyCode>,
}

/// The layer key a re-rendered plist carries: the one given on the command
/// line, else the one the plist already had.
pub open spec fn kept_layer_key(explicit: Option<KeyCode>, baked: Option<KeyCode>) -> Option<KeyCode> {
    match explicit {
        Some(code) => Some(code),
        None => baked,
    }
}

/// `start` always renders the plist again from trusted state before
/// loading it: the LaunchAgents plist when the agent is enabled, its own
/// plist otherwise, keeping the layer key already baked into that plist
/// unless a new one is given.
pub fn start_plan(enabled: bool, explicit: Option<KeyCode>, baked: Option<KeyCode>) -> (r: LoadPlan)
    ensures
        r.plist == if enabled {
            AgentPlist::LaunchAgents
        } else {
            AgentPlist::Runtime
        },
        r.layer_key == kept_layer_key(explicit, baked),
{
    let layer_key = match explicit {
        Some(code) => Some(code),
        None => baked,
    };
    LoadPlan {
        plist: if enabled {
            AgentPlist::LaunchAgents
        } else {
            AgentPlist::Runtime
        },
        layer_key,
    }
}

/// The layer key `restart` (and `enable`) bake into the plist they render
/// again: the one given, else the one already there.
pub fn kept_key(explicit: Option<KeyCode>, baked: Option<KeyCode>) -> (r: Option<KeyCode>)
    ensures
        r == kept_layer_key(explicit, baked),
{
    match explicit {
        Some(code) => Some(code),
        None => baked,
    }
}

/// What `start` prints once it has tried to confirm the agent: whether key
/// remapping is active, and a reminder when the agent does not start at
/// login.
pub open spec fn start_report(confirmed: bool, enabled: bool) -> Seq<Seq<char>> {
    seq![
        outcome_text(
            confirmed,
            "hjkl started; key remapping is active now."@,
            "hjkl was loaded, but it is NOT working yet."@,
        ),
    ] + if enabled {
        Seq::empty()
    } else {
        seq![no_auto_start_text()]
    }
}

pub fn start_lines(confirmed: bool, enabled: bool) -> (r: Vec<String>)
    ensures
        views(r@) == start_report(confirmed, enabled),
{
    let mut lines: Vec<String> = Vec::new();
    if confirmed {
        lines.push(owned("hjkl started; key remapping is active now."));
    } else {
        lines.push(owned("hjkl was loaded, but it is NOT working yet."));
    }
    let ghost first = views(lines@);
    if !enabled {
        lines.push(owned("It will NOT auto-start at login. Run `hjkl enable` for that."));
        assert(views(lines@) =~= first + seq![no_auto_start_text()]);
    } else {
        assert(views(lines@) =~= first + Seq::<Seq<char>>::empty());
    }
    lines
}

/// What `enable` prints once it has tried to confirm the agent.
pub open spec fn enable_text(confirmed: bool) -> Seq<char> {
    outcome_text(
        confirmed,
        "hjkl enabled: it will auto-start at login and key remapping is active now."@,
        "hjkl enabled: it will auto-start at login, but it is NOT working yet."@,
    )
}

pub fn enable_message(confirmed: bool) -> (r: &'static str)
    ensures
        r@ == enable_text(confirmed),
{
    if confirmed {
        "hjkl enabled: it will auto-start at login and key remapping is active now."
    } else {
        "hjkl enabled: it will auto-start at login, but it is NOT working yet."
    }
}

/// What `restart` prints once it has tried to confirm the agent.
pub open spec fn restart_text(confirmed: bool) -> Seq<char> {
    outcome_text(
        confirmed,
        "hjkl restarted; key remapping is active now."@,
        "hjkl restarted, but it is NOT working yet."@,
    )
}

pub fn restart_message(confirmed: bool) -> (r: &'static str)
    ensures
        r@ == restart_text(confirmed),
{
    if confirmed {
        "hjkl restarted; key remapping is active now."
    } else {
        "hjkl restarted, but it is NOT working yet."
    }
}

/// What `stop` prints: whether launchd had the agent loaded.
pub fn stop_message(loaded: bool) -> (r: &'static str)
    ensures
        r@ == if loaded {
            "hjkl stopped."@
        } else {
            "hjkl is not running."@
        },
{
    if loaded {
        "hjkl stopped."
    } else {
        "hjkl is not running."
    }
}

/// What `hjkl permissions` prints on macOS after asking for the
/// Accessibility prompt: either that permission is granted, or how to grant
/// it to this binary (its path, or the default install location when the
/// path is unknown).
pub open spec fn accessibility_guidance(trusted: bool, binary: Option<Seq<char>>) -> Seq<Seq<char>> {
    if trusted {
        seq!["Accessibility permission is already granted."@]
    } else {
        seq![
            "Requested Accessibility permission for hjkl."@,
            "If macOS opened System Settings, enable hjkl there."@,
            "If hjkl is not listed, add this binary manually:"@,
            "  "@ + match binary {
                Some(path) => path,
                None => "~/.local/bin/hjkl"@,
            },
            "Then run `hjkl restart`."@,
        ]
    }
}

pub fn accessibility_lines(trusted: bool, binary: Option<&str>) -> (r: Vec<String>)
    ensures
        views(r@) == accessibility_guidance(
            trusted,
            match binary {
                Some(path) => Some(path@),
                None => None,
            },
        ),
{
    let mut lines: Vec<String> = Vec::new();
    if trusted {
        lines.push(owned("Accessibility permission is already granted."));
    } else {
        lines.push(owned("Requested Accessibility permission for hjkl."));
        lines.push(owned("If macOS opened System Settings, enable hjkl there."));
        lines.push(owned("If hjkl is not listed, add this binary manually:"));
        let path = match binary {
            Some(path) => path,
            None => "~/.local/bin/hjkl",
        };
        lines.push(labelled("  ", path));
        lines.push(owned("Then run `hjkl restart`."));
    }
    assert(views(lines@) =~= accessibility_guidance(
        trusted,
        match binary {
            Some(path) => Some(path@),
            None => None,
        },
    ));
    lines
}

} // verus!
