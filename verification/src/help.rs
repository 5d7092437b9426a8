//! User-facing texts: the help screen, the running banner and the
//! per-platform notes they include.

use vstd::prelude::*;
use vstd::string::StringExecFns;
use crate::keymap::{hjkl_to_arrow, key_label, layer_key_label, platform_key_code_name, shortcut_modifier_name};
use crate::cli::views;
use crate::keys::{KeyCode, Platform};
use crate::text::owned;

verus! {

/// What runs the remapper in the background.
pub open spec fn spec_service_manager(platform: Platform) -> Seq<char> {
    match platform {
        Platform::MacOs => "per-user launchd LaunchAgent"@,
        Platform::Windows => "per-user Windows scheduled task"@,
        Platform::Other => "background service"@,
    }
}

pub fn service_manager(platform: Platform) -> (r: &'static str)
    ensures
        r@ == spec_service_manager(platform),
{
    match platform {
        Platform::MacOs => "per-user launchd LaunchAgent",
        Platform::Windows => "per-user Windows scheduled task",
        Platform::Other => "background service",
    }
}

/// The platform's input-permission note.
pub open spec fn spec_permissions_note(platform: Platform) -> Seq<char> {
    match platform {
        Platform::MacOs => "macOS will require Accessibility permission for this binary. After granting it, run `hjkl restart`."@,
        Platform::Windows => "Windows does not require Accessibility permission. Run hjkl as administrator only if you need to remap elevated applications."@,
        Platform::Other => "This operating system is not supported."@,
    }
}

pub fn permissions_note(platform: Platform) -> (r: &'static str)
    ensures
        r@ == spec_permissions_note(platform),
{
    match platform {
        Platform::MacOs => "macOS will require Accessibility permission for this binary. After granting it, run `hjkl restart`.",
        Platform::Windows => "Windows does not require Accessibility permission. Run hjkl as administrator only if you need to remap elevated applications.",
        Platform::Other => "This operating system is not supported.",
    }
}

pub open spec fn help_part_one() -> Seq<char> {
    "hjkl\n\nUSAGE:\n    hjkl [SUBCOMMAND]\n\nSUBCOMMANDS:\n    (none) | run   Run the remapper in the foreground (Ctrl-C to stop).\n    start          Start the remapper in the background now.\n    stop           Stop the background remapper.\n    restart        Restart the background remapper.\n    enable         Install auto-start at login (starts now too).\n    disable        Remove auto-start at login (stops now too).\n    status         Show whether it is enabled/running and where files live.\n    permissions    Show platform-specific input permission guidance.\n\nOPTIONS:\n    --layer-key <key>   Use <key> as the layer (\"super\") key instead of the\n                        default semicolon. Accepts a key name or a platform key\n                        code. Names include semicolon, quote, grave, tab,\n                        return, space, and the modifier keys left_command,\n                        right_command, left_option, right_option,\n                        left_control, right_control, left_shift, right_shift.\n                        Valid for run/start/restart/enable; a plain restart\n                        keeps the previously configured key. Caps Lock, Fn, and\n                        h/j/k/l are not allowed.\n\nBEHAVIOR (with the default layer key ';'):\n    ;          -> ;     (when tapped by itself)\n    ; + h      -> Left Arrow\n    ; + j      -> Down Arrow\n    ; + k      -> Up Arrow\n    ; + l      -> Right Arrow\n    ; + other  -> "@
}

pub open spec fn help_part_two() -> Seq<char> {
    " + other\n\n    With a different layer key, that key plays the role ';' has above.\n\nNOTES:\n    The program must keep running to remap keys. `enable`/`start` do this in the\n    background via "@
}

pub open spec fn help_part_three() -> Seq<char> {
    ".\n    `start` runs now but does NOT auto-start at login; `enable` does both.\n    Internal service mode runs in the foreground because the OS service manager\n    owns the background process.\n    Raw numeric layer-key values are interpreted as "@
}

pub open spec fn help_part_four() -> Seq<char> {
    "s.\n    "@
}

pub open spec fn help_part_five() -> Seq<char> {
    "\n    Example: `hjkl enable --layer-key quote` uses the quote key as the layer.\n"@
}

/// The help screen of `hjkl --help` for `platform`.
pub open spec fn help_screen(platform: Platform) -> Seq<char> {
    help_part_one() + platform.spec_shortcut_modifier_name() + help_part_two()
        + spec_service_manager(platform) + help_part_three() + platform.spec_key_code_name()
        + help_part_four() + spec_permissions_note(platform) + help_part_five()
}

/// The name the help screen gives an arrow key.
pub open spec fn arrow_key_name(platform: Platform, key_code: KeyCode) -> Seq<char> {
    if key_code == platform.key_left_arrow() {
        "Left Arrow"@
    } else if key_code == platform.key_down_arrow() {
        "Down Arrow"@
    } else if key_code == platform.key_up_arrow() {
        "Up Arrow"@
    } else if key_code == platform.key_right_arrow() {
        "Right Arrow"@
    } else {
        Seq::empty()
    }
}

/// The BEHAVIOR line of the help screen for the letter `letter`.
pub open spec fn behavior_line(letter: char, arrow: Seq<char>) -> Seq<char> {
    "    ; + "@ + seq![letter] + "      -> "@ + arrow + "\n"@
}

/// `t` occurs in `s`.
pub open spec fn occurs_in(t: Seq<char>, s: Seq<char>) -> bool {
    exists|i: int| 0 <= i && i + t.len() <= s.len() && #[trigger] s.subrange(i, i + t.len()) == t
}

proof fn lemma_occurs_at(t: Seq<char>, s: Seq<char>, i: int)
    requires
        0 <= i && i + t.len() <= s.len(),
        s.subrange(i, i + t.len()) == t,
    ensures
        occurs_in(t, s),
{
}

/// The help screen tells the truth about the layer: for each of h/j/k/l its
/// BEHAVIOR line names the arrow key that the layer turns it into.
pub proof fn law_help_names_the_arrows(platform: Platform)
    ensures
        occurs_in(
            behavior_line('h', arrow_key_name(platform, hjkl_to_arrow(platform, platform.key_h())->0)),
            help_screen(platform),
        ),
        occurs_in(
            behavior_line('j', arrow_key_name(platform, hjkl_to_arrow(platform, platform.key_j())->0)),
            help_screen(platform),
        ),
        occurs_in(
            behavior_line('k', arrow_key_name(platform, hjkl_to_arrow(platform, platform.key_k())->0)),
            help_screen(platform),
        ),
        occurs_in(
            behavior_line('l', arrow_key_name(platform, hjkl_to_arrow(platform, platform.key_l())->0)),
            help_screen(platform),
        ),
{
    reveal_strlit("hjkl\n\nUSAGE:\n    hjkl [SUBCOMMAND]\n\nSUBCOMMANDS:\n    (none) | run   Run the remapper in the foreground (Ctrl-C to stop).\n    start          Start the remapper in the background now.\n    stop           Stop the background remapper.\n    restart        Restart the background remapper.\n    enable         Install auto-start at login (starts now too).\n    disable        Remove auto-start at login (stops now too).\n    status         Show whether it is enabled/running and where files live.\n    permissions    Show platform-specific input permission guidance.\n\nOPTIONS:\n    --layer-key <key>   Use <key> as the layer (\"super\") key instead of the\n                        default semicolon. Accepts a key name or a platform key\n                        code. Names include semicolon, quote, grave, tab,\n                        return, space, and the modifier keys left_command,\n                        right_command, left_option, right_option,\n                        left_control, right_control, left_shift, right_shift.\n                        Valid for run/start/restart/enable; a plain restart\n                        keeps the previously configured key. Caps Lock, Fn, and\n                        h/j/k/l are not allowed.\n\nBEHAVIOR (with the default layer key ';'):\n    ;          -> ;     (when tapped by itself)\n    ; + h      -> Left Arrow\n    ; + j      -> Down Arrow\n    ; + k      -> Up Arrow\n    ; + l      -> Right Arrow\n    ; + other  -> ");
    reveal_strlit("    ; + ");
    reveal_strlit("      -> ");
    reveal_strlit("\n");
    reveal_strlit("Left Arrow");
    reveal_strlit("Down Arrow");
    reveal_strlit("Up Arrow");
    reveal_strlit("Right Arrow");
    let screen = help_screen(platform);
    let one = help_part_one();
    assert(one.len() == 1445);
    let h = behavior_line('h', "Left Arrow"@);
    let j = behavior_line('j', "Down Arrow"@);
    let k = behavior_line('k', "Up Arrow"@);
    let l = behavior_line('l', "Right Arrow"@);
    assert(screen.subrange(1312, 1312 + h.len() as int) =~= h);
    assert(screen.subrange(1341, 1341 + j.len() as int) =~= j);
    assert(screen.subrange(1370, 1370 + k.len() as int) =~= k);
    assert(screen.subrange(1397, 1397 + l.len() as int) =~= l);
    lemma_occurs_at(h, screen, 1312);
    lemma_occurs_at(j, screen, 1341);
    lemma_occurs_at(k, screen, 1370);
    lemma_occurs_at(l, screen, 1397);
}

pub fn help_text(platform: Platform) -> (r: String)
    ensures
        r@ == help_screen(platform),
{
    let mut r = owned(
        "hjkl\n\nUSAGE:\n    hjkl [SUBCOMMAND]\n\nSUBCOMMANDS:\n    (none) | run   Run the remapper in the foreground (Ctrl-C to stop).\n    start          Start the remapper in the background now.\n    stop           Stop the background remapper.\n    restart        Restart the background remapper.\n    enable         Install auto-start at login (starts now too).\n    disable        Remove auto-start at login (stops now too).\n    status         Show whether it is enabled/running and where files live.\n    permissions    Show platform-specific input permission guidance.\n\nOPTIONS:\n    --layer-key <key>   Use <key> as the layer (\"super\") key instead of the\n                        default semicolon. Accepts a key name or a platform key\n                        code. Names include semicolon, quote, grave, tab,\n                        return, space, and the modifier keys left_command,\n                        right_command, left_option, right_option,\n                        left_control, right_control, left_shift, right_shift.\n                        Valid for run/start/restart/enable; a plain restart\n                        keeps the previously configured key. Caps Lock, Fn, and\n                        h/j/k/l are not allowed.\n\nBEHAVIOR (with the default layer key ';'):\n    ;          -> ;     (when tapped by itself)\n    ; + h      -> Left Arrow\n    ; + j      -> Down Arrow\n    ; + k      -> Up Arrow\n    ; + l      -> Right Arrow\n    ; + other  -> ",
    );
    r.append(shortcut_modifier_name(platform));
    r.append(
        " + other\n\n    With a different layer key, that key plays the role ';' has above.\n\nNOTES:\n    The program must keep running to remap keys. `enable`/`start` do this in the\n    background via ",
    );
    r.append(service_manager(platform));
    r.append(
        ".\n    `start` runs now but does NOT auto-start at login; `enable` does both.\n    Internal service mode runs in the foreground because the OS service manager\n    owns the background process.\n    Raw numeric layer-key values are interpreted as ",
    );
    r.append(platform_key_code_name(platform));
    r.append("s.\n    ");
    r.append(permissions_note(platform));
    r.append("\n    Example: `hjkl enable --layer-key quote` uses the quote key as the layer.\n");
    r
}

/// The lines printed when the remapper starts running with `layer_key`. The
/// macOS remapper describes the default semicolon layer; the Windows one
/// names the configured layer key.
pub open spec fn running_banner_lines(platform: Platform, layer_key: KeyCode) -> Seq<Seq<char>> {
    let label = key_label(platform, layer_key);
    match platform {
        Platform::MacOs => seq![
            "hjkl is running."@,
            "Tap ';' alone for ';'. Hold ';' + h/j/k/l for left/down/up/right arrows."@,
            "Hold ';' + another key to send Command + that key."@,
            "Keep this process running. Press Ctrl-C to stop."@,
        ],
        _ => seq![
            "hjkl is running."@,
            "Tap "@ + label + " alone to emit it."@,
            "Hold "@ + label + " + h/j/k/l for left/down/up/right arrows."@,
            "Hold "@ + label + " + another key to send "@ + platform.spec_shortcut_modifier_name()
                + " + that key."@,
            "Keep this process running. Press Ctrl-C to stop."@,
        ],
    }
}

pub fn running_banner(platform: Platform, layer_key: KeyCode) -> (r: Vec<String>)
    ensures
        views(r@) == running_banner_lines(platform, layer_key),
{
    let mut lines: Vec<String> = Vec::new();
    lines.push(owned("hjkl is running."));
    match platform {
        Platform::MacOs => {
            lines.push(
                owned("Tap ';' alone for ';'. Hold ';' + h/j/k/l for left/down/up/right arrows."),
            );
            lines.push(owned("Hold ';' + another key to send Command + that key."));
        },
        _ => {
            let label = layer_key_label(platform, layer_key);
            let mut tap = owned("Tap ");
            tap.append(label.as_str());
            tap.append(" alone to emit it.");
            lines.push(tap);
            let mut arrows = owned("Hold ");
            arrows.append(label.as_str());
            arrows.append(" + h/j/k/l for left/down/up/right arrows.");
            lines.push(arrows);
            let mut shortcut = owned("Hold ");
            shortcut.append(label.as_str());
            shortcut.append(" + another key to send ");
            shortcut.append(shortcut_modifier_name(platform));
            shortcut.append(" + that key.");
            lines.push(shortcut);
        },
    }
    lines.push(owned("Keep this process running. Press Ctrl-C to stop."));
    assert(views(lines@) =~= running_banner_lines(platform, layer_key));
    lines
}

/// The notice printed first when the service manager runs the remapper in
/// the foreground.
pub open spec fn spec_foreground_notice(platform: Platform) -> Seq<char> {
    match platform {
        Platform::MacOs => "Running in launchd foreground mode. Use `hjkl start` or `hjkl enable` to run in the background."@,
        _ => "Running in Windows service foreground mode. Use `hjkl start` or `hjkl enable` to run in the background."@,
    }
}

pub fn foreground_notice(platform: Platform) -> (r: &'static str)
    ensures
        r@ == spec_foreground_notice(platform),
{
    match platform {
        Platform::MacOs => "Running in launchd foreground mode. Use `hjkl start` or `hjkl enable` to run in the background.",
        _ => "Running in Windows service foreground mode. Use `hjkl start` or `hjkl enable` to run in the background.",
    }
}

} // verus!
