use hjkl::cli::{parse_args, Command};
use hjkl::keys::Platform;
use hjkl::layer::KeyDirection::{Down, Up};
use hjkl::layer::LayerState;
use hjkl::mac_service;
use hjkl::mac_tap::{self, arrow_unicode, tap_response, TapResponse};
use hjkl::text::{char_is_white_space, trim_chars};
use hjkl::win_hook::{self, hook_response, HookResponse, HookState, SyntheticKey};
use hjkl::win_service;
use hjkl::win_service::quote_windows_arg;
use hjkl::unsupported;
use hjkl::mac_service::Health as MacHealth;
use hjkl::win_service::Health as WinHealth;
use windows_sys::Win32::UI::Input::KeyboardAndMouse as kbd;
use windows_sys::Win32::UI::WindowsAndMessaging as wm;

const MAC_LEFT_ARROW: u16 = 123;
const MAC_RIGHT_ARROW: u16 = 124;
const MAC_DOWN_ARROW: u16 = 125;
const MAC_UP_ARROW: u16 = 126;
const MAC_KEY_L: u16 = 37;

#[test]
fn arrow_unicode_matches_native_macos_events() {
    assert_eq!(arrow_unicode(MAC_LEFT_ARROW), Some(0x001c));
    assert_eq!(arrow_unicode(MAC_RIGHT_ARROW), Some(0x001d));
    assert_eq!(arrow_unicode(MAC_DOWN_ARROW), Some(0x001f));
    assert_eq!(arrow_unicode(MAC_UP_ARROW), Some(0x001e));
    assert_eq!(arrow_unicode(MAC_KEY_L), None);
}

fn sample_plist() -> String {
    mac_service::render_plist(
        "/Users/me/.local/bin/hjkl",
        "/Users/me/Library/Logs/hjkl.log",
        "/Users/me/Library/Logs/hjkl.err.log",
        None,
    )
}

#[test]
fn rendered_plist_has_expected_structure() {
    let plist = sample_plist();
    assert!(plist.contains("<key>Label</key>"));
    assert!(plist.contains(mac_service::label()));
    assert!(plist.contains("<string>run</string>"));
    assert!(plist.contains("<string>--launchd</string>"));
    assert!(plist.contains("<key>RunAtLoad</key>"));
    assert!(plist.contains("<key>KeepAlive</key>"));
    assert!(plist.trim_start().starts_with("<?xml"));
}

#[test]
fn service_parses_health_records() {
    assert_eq!(mac_service::parse_health_record("ok 123 456\n"), Some((MacHealth::Healthy, 123)));
    assert_eq!(mac_service::parse_health_record("tap_failed 7 8"), Some((MacHealth::TapFailed, 7)));
    assert!(mac_service::parse_health_record("").is_none());
    assert!(mac_service::parse_health_record("weird").is_none());
    assert!(mac_service::parse_health_record("ok").is_none());
    assert!(mac_service::parse_health_record("ok nope 123").is_none());

    assert_eq!(win_service::parse_health_record("ok 123 456\n"), Some((WinHealth::Healthy, 123)));
    assert_eq!(win_service::parse_health_record("hook_failed 7 8"), Some((WinHealth::HookFailed, 7)));
    assert!(win_service::parse_health_record("").is_none());
    assert!(win_service::parse_health_record("weird").is_none());
    assert!(win_service::parse_health_record("ok").is_none());
    assert!(win_service::parse_health_record("ok nope 123").is_none());
}

#[test]
fn quotes_windows_arguments_for_task_scheduler() {
    assert_eq!(quote_windows_arg("simple"), "simple");
    assert_eq!(quote_windows_arg("two words"), "\"two words\"");
    assert_eq!(quote_windows_arg(""), "\"\"");
    assert_eq!(quote_windows_arg("quote\"here"), "\"quote\\\"here\"");
    assert_eq!(quote_windows_arg(r"C:\Program Files\hjkl\"), r#""C:\Program Files\hjkl\\""#);
}

// ---------------------------------------------------------------------------
// Further cases
// ---------------------------------------------------------------------------

#[test]
fn quoting_doubles_backslashes_only_before_quotes() {
    assert_eq!(quote_windows_arg(r"a\b c"), r#""a\b c""#);
    assert_eq!(quote_windows_arg(r#"a\"b"#), r#""a\\\"b""#);
    assert_eq!(quote_windows_arg(r"no\space"), r"no\space");
    assert_eq!(quote_windows_arg("tab\there"), "\"tab\there\"");
}

#[test]
fn health_records_round_trip() {
    let mac = mac_service::health_record(mac_service::Health::TapFailed, 4242, 1700000000);
    assert_eq!(mac, "tap_failed 4242 1700000000\n");
    assert_eq!(mac_service::parse_health_record(&mac), Some((mac_service::Health::TapFailed, 4242)));
    let win = win_service::health_record(win_service::Health::Healthy, u32::MAX, 0);
    assert_eq!(win, "ok 4294967295 0\n");
    assert_eq!(win_service::parse_health_record(&win), Some((win_service::Health::Healthy, u32::MAX)));
    assert!(mac_service::parse_health_record("ok 4294967296 1").is_none());
    assert_eq!(mac_service::parse_health_record("  ok\t+12  "), Some((mac_service::Health::Healthy, 12)));
}

#[test]
fn plist_bakes_in_the_layer_key_and_escapes_paths() {
    let plist = mac_service::render_plist("/A&B/<hjkl>", "/o", "/e", Some(39));
    assert!(plist.contains("<string>/A&amp;B/&lt;hjkl&gt;</string>"));
    assert!(plist.contains(
        "\t\t<string>run</string>\n\t\t<string>--launchd</string>\n\t\t<string>--layer-key</string>\n\t\t<string>39</string>\n\t</array>"
    ));
    assert!(plist.contains("<key>StandardOutPath</key>\n\t<string>/o</string>"));
    assert!(plist.ends_with("</dict>\n</plist>\n"));
    assert_eq!(mac_service::xml_escape("a<b>&c"), "a<b>&c".replace('&', "&amp;").replace('<', "&lt;").replace('>', "&gt;"));
}

#[test]
fn launchd_targets_and_paths() {
    assert_eq!(mac_service::service_target(501), "gui/501/com.kazuki-hanai.hjkl");
    assert_eq!(mac_service::domain_target(0), "gui/0");
    assert_eq!(
        mac_service::launch_agents_plist("/Users/me"),
        "/Users/me/Library/LaunchAgents/com.kazuki-hanai.hjkl.plist"
    );
    assert_eq!(
        mac_service::runtime_plist("/Users/me/"),
        "/Users/me/Library/Application Support/com.kazuki-hanai.hjkl/com.kazuki-hanai.hjkl.plist"
    );
    let (out, err) = mac_service::log_paths("/Users/me");
    assert_eq!(out, "/Users/me/Library/Logs/hjkl.log");
    assert_eq!(err, "/Users/me/Library/Logs/hjkl.err.log");
    assert_eq!(
        mac_service::health_path("/Users/me"),
        "/Users/me/Library/Application Support/com.kazuki-hanai.hjkl/health"
    );
    assert_eq!(mac_service::home_dir(Some("/Users/me")).unwrap(), "/Users/me");
    assert_eq!(
        mac_service::home_dir(Some("relative")).unwrap_err().message(),
        "HOME must be an absolute path, got: relative"
    );
    assert_eq!(
        mac_service::home_dir(None).unwrap_err().message(),
        "HOME environment variable is not set"
    );
    assert!(mac_service::home_dir(Some("")).is_err());
}

#[test]
fn launchd_plist_arguments_parse_as_service_run() {
    // The arguments after the binary in the plist are what `run --launchd` parses.
    let plist = mac_service::render_plist("/bin/hjkl", "/o", "/e", Some(39));
    assert!(plist.contains("<string>--layer-key</string>"));
    let parsed = parse_args(
        Platform::MacOs,
        vec!["run".to_string(), "--launchd".to_string(), "--layer-key".to_string(), "39".to_string()],
    );
    assert_eq!(parsed.unwrap(), Command::Run { service_mode: true, layer_key: Some(39) });
}

#[test]
fn not_ready_messages_depend_on_accessibility() {
    let trusted = mac_service::not_ready_message(true, "/bin/hjkl");
    assert!(trusted.starts_with("The service is loaded, but key remapping is NOT active.\nmacOS says"));
    assert!(trusted.ends_with("Binary:\n  /bin/hjkl"));
    let untrusted = mac_service::not_ready_message(false, "/bin/hjkl");
    assert!(untrusted.contains("macOS has not allowed this binary"));
    assert!(untrusted.ends_with("Allow this binary:\n  /bin/hjkl"));
    assert_eq!(
        mac_service::unconfirmed_error(false).message(),
        "The launchd service did not stay loaded.\nCheck `hjkl status` and the logs."
    );
    assert_eq!(mac_service::remapping_status(true, None), "unknown");
    assert_eq!(mac_service::remapping_status(false, Some(mac_service::Health::Healthy)), "not active (not running)");
    assert_eq!(mac_service::restart_plan(false, true), mac_service::RestartPlan::Runtime);
}

#[test]
fn windows_paths_config_and_command_line() {
    assert_eq!(
        win_service::app_data_dir(r"C:\Users\me\AppData\Local"),
        r"C:\Users\me\AppData\Local\com.kazuki-hanai.hjkl"
    );
    assert_eq!(
        win_service::config_path(r"C:\Local\"),
        r"C:\Local\com.kazuki-hanai.hjkl\layer-key"
    );
    assert_eq!(win_service::health_path("D:/x"), r"D:/x\com.kazuki-hanai.hjkl\health");
    assert_eq!(win_service::layer_key_config(222), "222\n");
    assert_eq!(win_service::configured_layer_key(Platform::Windows, " 222\r\n"), Some(222));
    assert_eq!(win_service::configured_layer_key(Platform::Windows, "72\n"), None);
    assert_eq!(win_service::configured_layer_key(Platform::Windows, "quote"), None);
    assert_eq!(win_service::resolve_layer_key(None, Some(222)), Some(222));
    assert_eq!(win_service::resolve_layer_key(Some(186), Some(222)), Some(186));
    assert_eq!(win_service::run_args(None), vec!["run".to_string(), "--service".to_string()]);
    assert_eq!(
        win_service::task_command_line(r"C:\Program Files\hjkl\hjkl.exe", Some(222)),
        r#""C:\Program Files\hjkl\hjkl.exe" run --service --layer-key 222"#
    );
    assert_eq!(
        win_service::local_app_data(Some("rel"), false).unwrap_err().message(),
        "LOCALAPPDATA must be an absolute path, got: rel"
    );
    assert_eq!(win_service::local_app_data(Some(r"C:\x"), true).unwrap(), r"C:\x");
    assert_eq!(
        hjkl::command::command_failure("schtasks /Run /TN hjkl", Some(-1)).message(),
        "`schtasks /Run /TN hjkl` failed (exit code -1)"
    );
    assert_eq!(
        hjkl::command::command_failure("launchctl print x", None).message(),
        "`launchctl print x` failed (terminated by signal)"
    );
}

#[test]
fn macos_tap_rewrites_modifier_layer_events() {
    let mac = Platform::MacOs;
    let right_command: u16 = 54;
    let mut state = LayerState::new(mac);
    let cmd_flags = 0x10 | (1 << 20);
    // Pressing the modifier layer key arrives as flags-changed with its device bit.
    assert_eq!(
        tap_response(&mut state, right_command, mac_tap::EVENT_FLAGS_CHANGED, 0, right_command as i64, cmd_flags),
        TapResponse::Suppress
    );
    // h while held: an arrow with the command bits stripped and the arrow bits added.
    assert_eq!(
        tap_response(&mut state, right_command, mac_tap::EVENT_KEY_DOWN, 0, 4, cmd_flags),
        TapResponse::DeliverArrow { arrow_key: MAC_LEFT_ARROW, flags: 0x0020_0000 | 0x0080_0000 }
    );
    // Another key gets exactly the Command bit.
    assert_eq!(
        tap_response(&mut state, right_command, mac_tap::EVENT_KEY_DOWN, 0, 0, cmd_flags | 0x2),
        TapResponse::DeliverWithFlags(0x2 | (1 << 20))
    );
    // Releasing the modifier (device bit gone) after use: swallowed, nothing replayed.
    assert_eq!(
        tap_response(&mut state, right_command, mac_tap::EVENT_FLAGS_CHANGED, 0, right_command as i64, 0),
        TapResponse::Suppress
    );
    // A tapped modifier layer key alone is not replayed.
    assert_eq!(
        tap_response(&mut state, right_command, mac_tap::EVENT_FLAGS_CHANGED, 0, right_command as i64, cmd_flags),
        TapResponse::Suppress
    );
    assert_eq!(
        tap_response(&mut state, right_command, mac_tap::EVENT_FLAGS_CHANGED, 0, right_command as i64, 0),
        TapResponse::Suppress
    );
}

#[test]
fn macos_tap_replays_a_tapped_layer_key_and_ignores_its_own_events() {
    let mac = Platform::MacOs;
    let semicolon: u16 = 41;
    let mut state = LayerState::new(mac);
    assert_eq!(
        tap_response(&mut state, semicolon, mac_tap::EVENT_KEY_DOWN, mac_tap::SYNTHETIC_EVENT_TAG, 41, 0),
        TapResponse::Deliver
    );
    assert_eq!(tap_response(&mut state, semicolon, mac_tap::EVENT_KEY_DOWN, 0, 41, 0x20000), TapResponse::Suppress);
    assert_eq!(
        tap_response(&mut state, semicolon, mac_tap::EVENT_KEY_UP, 0, 41, 0),
        TapResponse::PostKeyAndSuppress { key_code: 41, flags: 0x20000 }
    );
    assert_eq!(tap_response(&mut state, semicolon, 0xFFFF_FFFE, 0, 41, 0), TapResponse::Reenable);
    assert_eq!(tap_response(&mut state, semicolon, 12, 0, 56, 0x2), TapResponse::Deliver);
    assert_eq!(tap_response(&mut state, semicolon, 10, 0, -1, 0), TapResponse::Deliver);
    assert_eq!(tap_response(&mut state, semicolon, 10, 0, 0, 0), TapResponse::Deliver);
    assert_eq!(mac_tap::keyboard_event_mask(), (1 << 10) | (1 << 11) | (1 << 12));
    assert_eq!(mac_tap::arrow_event_flags(0x40000), 0x40000 | 0x0020_0000 | 0x0080_0000);
    assert_eq!(mac_tap::cleared_flags(0xFF, 0x0F), 0xF0);
}

fn key(key_code: u16, direction: hjkl::layer::KeyDirection) -> SyntheticKey {
    SyntheticKey { key_code, direction }
}

fn replaced(response: HookResponse) -> Option<Vec<SyntheticKey>> {
    match response {
        HookResponse::CallNext => None,
        HookResponse::Replace(events) => Some(events),
    }
}

#[test]
fn windows_hook_sends_control_around_shortcut_keys() {
    let p = Platform::Windows;
    let semicolon = p.key_semicolon();
    let a: u16 = 0x41;
    let c: u16 = 0x43;
    let mut state = HookState::new(p);
    let down = win_hook::WM_KEYDOWN;
    let up = win_hook::WM_KEYUP;
    assert_eq!(replaced(hook_response(&mut state, semicolon, 0, down, semicolon as u32, 0)), Some(vec![]));
    assert_eq!(
        replaced(hook_response(&mut state, semicolon, 0, down, a as u32, 0)),
        Some(vec![key(win_hook::SHORTCUT_MODIFIER_KEY, Down), key(a, Down)])
    );
    assert_eq!(
        replaced(hook_response(&mut state, semicolon, 0, down, c as u32, 0)),
        Some(vec![key(c, Down)])
    );
    assert_eq!(replaced(hook_response(&mut state, semicolon, 0, up, a as u32, 0)), Some(vec![key(a, Up)]));
    // Layer released while c is still held: c's release still ends the shortcut.
    assert_eq!(replaced(hook_response(&mut state, semicolon, 0, up, semicolon as u32, 0)), Some(vec![]));
    assert_eq!(
        replaced(hook_response(&mut state, semicolon, 0, up, c as u32, 0)),
        Some(vec![key(c, Up), key(win_hook::SHORTCUT_MODIFIER_KEY, Up)])
    );
    // Now plain typing passes through.
    assert_eq!(replaced(hook_response(&mut state, semicolon, 0, down, a as u32, 0)), None);
    assert_eq!(state.release_shortcut_modifier_if_down(), vec![]);
}

#[test]
fn windows_hook_rewrites_arrows_and_replays_layer_key() {
    let p = Platform::Windows;
    let semicolon = p.key_semicolon();
    let mut state = HookState::new(p);
    let down = win_hook::WM_SYSKEYDOWN;
    let up = win_hook::WM_SYSKEYUP;
    assert_eq!(replaced(hook_response(&mut state, semicolon, 0, down, semicolon as u32, 0)), Some(vec![]));
    assert_eq!(
        replaced(hook_response(&mut state, semicolon, 0, down, p.key_j() as u32, 0)),
        Some(vec![key(p.key_down_arrow(), Down)])
    );
    assert_eq!(
        replaced(hook_response(&mut state, semicolon, 0, up, p.key_j() as u32, 0)),
        Some(vec![key(p.key_down_arrow(), Up)])
    );
    assert_eq!(replaced(hook_response(&mut state, semicolon, 0, up, semicolon as u32, 0)), Some(vec![]));
    assert_eq!(replaced(hook_response(&mut state, semicolon, 0, down, semicolon as u32, 0)), Some(vec![]));
    assert_eq!(
        replaced(hook_response(&mut state, semicolon, 0, up, semicolon as u32, 0)),
        Some(vec![key(semicolon, Down), key(semicolon, Up)])
    );
    // Other hook codes, synthetic events, other messages and huge codes go on.
    assert_eq!(replaced(hook_response(&mut state, semicolon, 1, down, semicolon as u32, 0)), None);
    assert_eq!(
        replaced(hook_response(&mut state, semicolon, 0, down, semicolon as u32, win_hook::SYNTHETIC_EVENT_TAG)),
        None
    );
    assert_eq!(replaced(hook_response(&mut state, semicolon, 0, 0x0200, semicolon as u32, 0)), None);
    assert_eq!(replaced(hook_response(&mut state, semicolon, 0, down, 0x1_0000, 0)), None);
}

#[test]
fn windows_key_event_flags() {
    assert_eq!(win_hook::key_event_flags(0x25, Down), 1);
    assert_eq!(win_hook::key_event_flags(0x25, Up), 3);
    assert_eq!(win_hook::key_event_flags(0x41, Up), 2);
    assert_eq!(win_hook::key_event_flags(0x41, Down), 0);
    assert!(win_hook::is_extended_key(0xA5));
    assert!(!win_hook::is_extended_key(0xA4));
    assert_eq!(win_hook::message_direction(0x0101), Some(Up));
    assert_eq!(win_hook::post_key(0xBA), vec![key(0xBA, Down), key(0xBA, Up)]);
}

#[test]
fn windows_codes_match_windows_sys() {
    let p = Platform::Windows;
    assert_eq!(p.key_semicolon(), kbd::VK_OEM_1);
    assert_eq!(p.key_left_arrow(), kbd::VK_LEFT);
    assert_eq!(p.key_up_arrow(), kbd::VK_UP);
    assert_eq!(p.key_right_arrow(), kbd::VK_RIGHT);
    assert_eq!(p.key_down_arrow(), kbd::VK_DOWN);
    assert_eq!(win_hook::SHORTCUT_MODIFIER_KEY, kbd::VK_CONTROL);
    assert_eq!(win_hook::KEYEVENTF_KEYUP, kbd::KEYEVENTF_KEYUP);
    assert_eq!(win_hook::KEYEVENTF_EXTENDEDKEY, kbd::KEYEVENTF_EXTENDEDKEY);
    assert_eq!(win_hook::WM_KEYDOWN, wm::WM_KEYDOWN);
    assert_eq!(win_hook::WM_KEYUP, wm::WM_KEYUP);
    assert_eq!(win_hook::WM_SYSKEYDOWN, wm::WM_SYSKEYDOWN);
    assert_eq!(win_hook::WM_SYSKEYUP, wm::WM_SYSKEYUP);
    assert_eq!(win_hook::HC_ACTION as u32, wm::HC_ACTION);
    let named = [
        ("quote", kbd::VK_OEM_7), ("grave", kbd::VK_OEM_3), ("tab", kbd::VK_TAB), ("return", kbd::VK_RETURN),
        ("space", kbd::VK_SPACE), ("escape", kbd::VK_ESCAPE), ("delete", kbd::VK_DELETE), ("backspace", kbd::VK_BACK),
        ("backslash", kbd::VK_OEM_5), ("left_bracket", kbd::VK_OEM_4), ("right_bracket", kbd::VK_OEM_6),
        ("comma", kbd::VK_OEM_COMMA), ("period", kbd::VK_OEM_PERIOD), ("slash", kbd::VK_OEM_2),
        ("minus", kbd::VK_OEM_MINUS), ("equal", kbd::VK_OEM_PLUS), ("left_windows", kbd::VK_LWIN),
        ("right_windows", kbd::VK_RWIN), ("left_alt", kbd::VK_LMENU), ("right_alt", kbd::VK_RMENU),
        ("left_control", kbd::VK_LCONTROL), ("right_control", kbd::VK_RCONTROL), ("left_shift", kbd::VK_LSHIFT),
        ("right_shift", kbd::VK_RSHIFT),
    ];
    for (name, code) in named {
        assert_eq!(hjkl::keymap::parse_layer_key(p, name), Ok(code), "{name}");
    }
    assert!(hjkl::keymap::parse_layer_key(p, &kbd::VK_CAPITAL.to_string()).is_err());
    for code in [kbd::VK_LEFT, kbd::VK_UP, kbd::VK_RIGHT, kbd::VK_DOWN, kbd::VK_HOME, kbd::VK_END, kbd::VK_PRIOR,
        kbd::VK_NEXT, kbd::VK_INSERT, kbd::VK_DELETE, kbd::VK_RCONTROL, kbd::VK_RMENU] {
        assert!(win_hook::is_extended_key(code));
    }
}

#[test]
fn white_space_matches_char_is_whitespace() {
    for u in 0u32..=0x10FFFF {
        if let Some(c) = char::from_u32(u) {
            assert_eq!(char_is_white_space(c), c.is_whitespace(), "U+{u:04X}");
        }
    }
    let s: Vec<char> = " \u{3000}a b\u{85}".chars().collect();
    assert_eq!(trim_chars(&s), vec!['a', ' ', 'b']);
}

#[test]
fn help_and_banner_texts() {
    let help = hjkl::help::help_text(Platform::Windows);
    assert!(help.contains("; + other  -> Control + other"));
    assert!(help.contains("background via per-user Windows scheduled task."));
    assert!(help.contains("interpreted as Windows virtual key codes."));
    let mac_help = hjkl::help::help_text(Platform::MacOs);
    assert!(mac_help.contains("; + other  -> Command + other"));
    let banner = hjkl::help::running_banner(Platform::MacOs, 41);
    assert_eq!(
        banner,
        vec![
            "hjkl is running.",
            "Tap ';' alone for ';'. Hold ';' + h/j/k/l for left/down/up/right arrows.",
            "Hold ';' + another key to send Command + that key.",
            "Keep this process running. Press Ctrl-C to stop.",
        ]
    );
    let windows_banner = hjkl::help::running_banner(Platform::Windows, 0xDE);
    assert_eq!(
        windows_banner,
        vec![
            "hjkl is running.",
            "Tap quote (keycode 222) alone to emit it.",
            "Hold quote (keycode 222) + h/j/k/l for left/down/up/right arrows.",
            "Hold quote (keycode 222) + another key to send Control + that key.",
            "Keep this process running. Press Ctrl-C to stop.",
        ]
    );
    assert!(hjkl::help::foreground_notice(Platform::MacOs).starts_with("Running in launchd foreground mode."));
    assert!(hjkl::help::foreground_notice(Platform::Windows)
        .starts_with("Running in Windows service foreground mode."));
}

#[test]
fn unsupported_platform_commands_fail() {
    let message = "hjkl currently supports macOS and Windows.";
    assert_eq!(unsupported::run_event_loop(false).unwrap_err().message(), message);
    assert_eq!(unsupported::start(None).unwrap_err().message(), message);
    assert_eq!(unsupported::stop().unwrap_err().message(), message);
    assert_eq!(unsupported::restart(Some(1)).unwrap_err().message(), message);
    assert_eq!(unsupported::enable(None).unwrap_err().message(), message);
    assert_eq!(unsupported::disable().unwrap_err().message(), message);
    assert_eq!(unsupported::status().unwrap_err().message(), message);
    assert_eq!(unsupported::request_permissions().unwrap_err().message(), message);
}

#[test]
fn macos_status_report_lines() {
    let lines = mac_service::status_lines(
        None,
        true,
        true,
        Some(MacHealth::TapFailed),
        false,
        Ok("/Users/me/.local/bin/hjkl"),
        "/Users/me/Library/LaunchAgents/com.kazuki-hanai.hjkl.plist",
        "/Users/me/Library/Logs/hjkl.log",
        "/Users/me/Library/Logs/hjkl.err.log",
        "gui/501/com.kazuki-hanai.hjkl",
    );
    assert_eq!(
        lines,
        vec![
            "label:   com.kazuki-hanai.hjkl",
            "layer key: semicolon (keycode 41)",
            "enabled: yes (auto-start at login)",
            "running: yes",
            "key remapping: not active (permission needed)",
            "accessibility: not granted",
            "binary:  /Users/me/.local/bin/hjkl",
            "plist:   /Users/me/Library/LaunchAgents/com.kazuki-hanai.hjkl.plist",
            "stdout:  /Users/me/Library/Logs/hjkl.log",
            "stderr:  /Users/me/Library/Logs/hjkl.err.log",
            "",
            "launchctl print gui/501/com.kazuki-hanai.hjkl:",
        ]
    );
    let stopped = mac_service::status_lines(
        Some(54),
        false,
        false,
        None,
        true,
        Err("no executable"),
        "p",
        "o",
        "e",
        "t",
    );
    assert_eq!(stopped[1], "layer key: right_command (keycode 54)");
    assert_eq!(stopped[2], "enabled: no");
    assert_eq!(stopped[3], "running: no");
    assert_eq!(stopped[4], "key remapping: not active (not running)");
    assert_eq!(stopped[5], "accessibility: granted");
    assert_eq!(stopped[6], "binary:  <unknown> (no executable)");
    let unknown = mac_service::status_lines(None, true, true, None, true, Ok("b"), "p", "o", "e", "t");
    assert_eq!(unknown[4], "key remapping: unknown");
    let active = mac_service::status_lines(
        None,
        true,
        true,
        Some(MacHealth::Healthy),
        true,
        Ok("b"),
        "p",
        "o",
        "e",
        "t",
    );
    assert_eq!(active[4], "key remapping: active");
}

#[test]
fn macos_plist_layer_key_reads_back() {
    let with_key = mac_service::render_plist(
        "/Applications/My Tools/hjkl",
        "/Users/me/Library/Logs/hjkl.log",
        "/Users/me/Library/Logs/hjkl.err.log",
        Some(39),
    );
    assert_eq!(mac_service::plist_layer_key(&with_key), Some(39));
    let modifier = mac_service::render_plist("/x/hjkl", "/o", "/e", Some(54));
    assert_eq!(mac_service::plist_layer_key(&modifier), Some(54));
    assert_eq!(mac_service::plist_layer_key(&sample_plist()), None);
    assert_eq!(mac_service::plist_layer_key(""), None);
    // A code that is not a valid layer key (the `h` key) is ignored.
    assert_eq!(
        mac_service::plist_layer_key("<string>--layer-key</string>\n\t\t<string>4</string>"),
        None
    );
    assert_eq!(
        mac_service::plist_layer_key("<string>--layer-key</string> <string>41</string>"),
        Some(41)
    );
}

#[test]
fn macos_start_plan_keeps_the_baked_layer_key() {
    let plan = mac_service::start_plan(true, None, Some(39));
    assert_eq!(plan.plist, mac_service::AgentPlist::LaunchAgents);
    assert_eq!(plan.layer_key, Some(39));
    let plan = mac_service::start_plan(false, Some(50), Some(39));
    assert_eq!(plan.plist, mac_service::AgentPlist::Runtime);
    assert_eq!(plan.layer_key, Some(50));
    assert_eq!(mac_service::start_plan(false, None, None).layer_key, None);
    assert_eq!(mac_service::kept_key(None, Some(39)), Some(39));
    assert_eq!(mac_service::kept_key(Some(50), Some(39)), Some(50));
}

#[test]
fn macos_command_outcome_messages() {
    assert_eq!(
        mac_service::start_lines(true, true),
        vec!["hjkl started; key remapping is active now."]
    );
    assert_eq!(
        mac_service::start_lines(false, false),
        vec![
            "hjkl was loaded, but it is NOT working yet.",
            "It will NOT auto-start at login. Run `hjkl enable` for that.",
        ]
    );
    assert_eq!(
        mac_service::enable_message(true),
        "hjkl enabled: it will auto-start at login and key remapping is active now."
    );
    assert_eq!(
        mac_service::enable_message(false),
        "hjkl enabled: it will auto-start at login, but it is NOT working yet."
    );
    assert_eq!(mac_service::restart_message(true), "hjkl restarted; key remapping is active now.");
    assert_eq!(mac_service::restart_message(false), "hjkl restarted, but it is NOT working yet.");
    assert_eq!(mac_service::stop_message(true), "hjkl stopped.");
    assert_eq!(mac_service::stop_message(false), "hjkl is not running.");
}

#[test]
fn windows_status_report_lines() {
    let lines = win_service::status_lines(
        None,
        true,
        Some(WinHealth::Healthy),
        Ok("C:\\Tools\\hjkl.exe"),
        "C:\\Users\\me\\AppData\\Local\\com.kazuki-hanai.hjkl",
    );
    assert_eq!(
        lines,
        vec![
            "label:   com.kazuki-hanai.hjkl",
            "layer key: semicolon (keycode 186)",
            "enabled: yes (auto-start at login)",
            "running: yes",
            "key remapping: active",
            "input access: available for the current desktop session",
            "task:    hjkl",
            "binary:  C:\\Tools\\hjkl.exe",
            "state:   C:\\Users\\me\\AppData\\Local\\com.kazuki-hanai.hjkl",
        ]
    );
    let stopped = win_service::status_lines(Some(0xDE), false, None, Err("gone"), "s");
    assert_eq!(stopped[1], "layer key: quote (keycode 222)");
    assert_eq!(stopped[2], "enabled: no");
    assert_eq!(stopped[3], "running: no");
    assert_eq!(stopped[4], "key remapping: not active (not running)");
    assert_eq!(stopped[7], "binary:  <unknown> (gone)");
    let failed = win_service::status_lines(None, true, Some(WinHealth::HookFailed), Ok("b"), "s");
    assert_eq!(failed[4], "key remapping: not active (hook failed)");
}

#[test]
fn windows_command_outcome_messages() {
    assert_eq!(
        win_service::start_lines(true, None, true),
        vec!["hjkl started; key remapping is active now."]
    );
    assert_eq!(
        win_service::start_lines(false, Some(0xDE), false),
        vec![
            "hjkl was started, but it is NOT working yet.",
            "layer key: quote (keycode 222)",
            "It will NOT auto-start at login. Run `hjkl enable` for that.",
        ]
    );
    assert_eq!(
        win_service::enable_lines(true, Some(0xA3)),
        vec![
            "hjkl enabled: it will auto-start at login and key remapping is active now.",
            "layer key: right_control (keycode 163)",
        ]
    );
    assert_eq!(
        win_service::enable_lines(false, None),
        vec!["hjkl enabled: it will auto-start at login, but it is NOT working yet."]
    );
    assert_eq!(win_service::stop_message(true), "hjkl stopped.");
    assert_eq!(win_service::stop_message(false), "hjkl is not running.");
}

#[test]
fn permission_guidance_lines() {
    assert_eq!(
        mac_service::accessibility_lines(true, Some("/x/hjkl")),
        vec!["Accessibility permission is already granted."]
    );
    assert_eq!(
        mac_service::accessibility_lines(false, Some("/Users/me/.local/bin/hjkl")),
        vec![
            "Requested Accessibility permission for hjkl.",
            "If macOS opened System Settings, enable hjkl there.",
            "If hjkl is not listed, add this binary manually:",
            "  /Users/me/.local/bin/hjkl",
            "Then run `hjkl restart`.",
        ]
    );
    assert_eq!(mac_service::accessibility_lines(false, None)[3], "  ~/.local/bin/hjkl");
    assert_eq!(
        win_service::input_guidance_lines(),
        vec![
            "Windows does not require an Accessibility-style permission for hjkl.",
            "If remapping does not affect applications running as administrator, run hjkl as administrator too.",
        ]
    );
}

#[test]
fn readiness_follows_the_health_record() {
    assert!(matches!(win_service::readiness(Some(WinHealth::Healthy)), Some(Ok(()))));
    match win_service::readiness(Some(WinHealth::HookFailed)) {
        Some(Err(error)) => assert_eq!(
            error.message(),
            "The background process started, but the Windows keyboard hook is NOT active."
        ),
        _ => panic!("a failed hook must be reported"),
    }
    assert!(win_service::readiness(None).is_none());
    assert_eq!(mac_service::readiness(Some(MacHealth::Healthy)), mac_service::Readiness::Active);
    assert_eq!(mac_service::readiness(Some(MacHealth::TapFailed)), mac_service::Readiness::Denied);
    assert_eq!(mac_service::readiness(None), mac_service::Readiness::Unknown);
}

#[test]
fn macos_plist_reader_stops_at_the_argument_array_end() {
    assert_eq!(
        mac_service::plist_layer_key("</array> <string>--layer-key</string> <string>41</string>"),
        None
    );
    // A binary at the path `--layer-key` is read as the layer-key element.
    let odd = mac_service::render_plist("--layer-key", "/o", "/e", Some(39));
    assert_eq!(mac_service::plist_layer_key(&odd), None);
    let spaced = mac_service::render_plist("/a b/--layer-key c", "/o x", "/e y", Some(50));
    assert_eq!(mac_service::plist_layer_key(&spaced), Some(50));
}

#[test]
fn windows_restart_keeps_the_saved_layer_key() {
    let saved = win_service::layer_key_config(0xDE);
    let configured = win_service::configured_layer_key(Platform::Windows, &saved);
    let key = win_service::resolve_layer_key(None, configured);
    assert_eq!(key, Some(0xDE));
    assert_eq!(win_service::run_args(key), vec!["run", "--service", "--layer-key", "222"]);
    assert_eq!(win_service::resolve_layer_key(Some(0xC0), configured), Some(0xC0));
}
