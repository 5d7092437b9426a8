use hjkl::keymap::{
    hjkl_key_bit, hjkl_to_arrow, is_modifier, layer_key_label, layer_key_name, modifier_clear_mask,
    modifier_device_flag, normalize_key_name, parse_layer_key, validate_layer_key,
    with_shortcut_modifier_flag,
};
use hjkl::keys::{EventFlags, KeyCode, Platform};
use hjkl::layer::Action::{AddShortcutModifier, PassThrough, PostLayerKeyAndSuppress, RewriteArrow, Suppress};
use hjkl::layer::KeyDirection::{Down, Up};
use hjkl::layer::LayerState;

// The fallback platform shares the Windows virtual-key codes; it is what a
// development host without a keyboard backend uses.
const P: Platform = Platform::Other;
const KEY_A: KeyCode = 0;
const NO_FLAGS: EventFlags = 0;
const SHIFT_FLAG: EventFlags = 1 << 17;

fn layer() -> KeyCode {
    P.key_semicolon()
}

fn named_key_on(platform: Platform, name: &str) -> KeyCode {
    let normalized = normalize_key_name(name);
    for i in 0..platform.layer_key_table_len() {
        let (candidate, code) = platform.layer_key_entry_at(i);
        if normalize_key_name(candidate) == normalized {
            return code;
        }
    }
    panic!("test key name should exist on this platform")
}

fn named_key(name: &str) -> KeyCode {
    named_key_on(P, name)
}

#[test]
fn maps_hjkl_to_arrow_keys() {
    assert_eq!(hjkl_to_arrow(P, P.key_h()), Some(P.key_left_arrow()));
    assert_eq!(hjkl_to_arrow(P, P.key_j()), Some(P.key_down_arrow()));
    assert_eq!(hjkl_to_arrow(P, P.key_k()), Some(P.key_up_arrow()));
    assert_eq!(hjkl_to_arrow(P, P.key_l()), Some(P.key_right_arrow()));
}

#[test]
fn does_not_map_unrelated_keys() {
    assert_eq!(hjkl_to_arrow(P, P.key_semicolon()), None);
    assert_eq!(hjkl_to_arrow(P, KEY_A), None);
}

#[test]
fn maps_hjkl_keys_to_distinct_state_bits() {
    assert_eq!(hjkl_key_bit(P, P.key_h()), Some(1 << 0));
    assert_eq!(hjkl_key_bit(P, P.key_j()), Some(1 << 1));
    assert_eq!(hjkl_key_bit(P, P.key_k()), Some(1 << 2));
    assert_eq!(hjkl_key_bit(P, P.key_l()), Some(1 << 3));
    assert_eq!(hjkl_key_bit(P, P.key_semicolon()), None);
}

#[test]
fn shortcut_modifier_flag_is_added_without_dropping_other_flags() {
    let shortcut_flag = P.shortcut_modifier_flag_mask();
    assert_eq!(with_shortcut_modifier_flag(P, SHIFT_FLAG), SHIFT_FLAG | shortcut_flag);
    assert_eq!(
        with_shortcut_modifier_flag(P, SHIFT_FLAG | shortcut_flag),
        SHIFT_FLAG | shortcut_flag
    );
}

#[test]
fn layer_key_tapped_alone_is_replayed_on_key_up() {
    let layer = layer();
    let mut state = LayerState::new(P);
    assert_eq!(state.on_key(layer, Down, layer, NO_FLAGS), Suppress);
    assert_eq!(state.on_key(layer, Up, layer, NO_FLAGS), PostLayerKeyAndSuppress(NO_FLAGS));
}

#[test]
fn layer_key_replay_keeps_modifiers_held_at_press_time() {
    let layer = layer();
    let mut state = LayerState::new(P);
    assert_eq!(state.on_key(layer, Down, layer, SHIFT_FLAG), Suppress);
    // Modifiers at key-up time do not matter; press-time flags win.
    assert_eq!(state.on_key(layer, Up, layer, NO_FLAGS), PostLayerKeyAndSuppress(SHIFT_FLAG));
}

#[test]
fn layer_key_repeat_stays_suppressed_without_resetting_capture() {
    let layer = layer();
    let mut state = LayerState::new(P);
    assert_eq!(state.on_key(layer, Down, layer, SHIFT_FLAG), Suppress);
    assert_eq!(state.on_key(layer, Down, layer, NO_FLAGS), Suppress);
    assert_eq!(state.on_key(layer, Up, layer, NO_FLAGS), PostLayerKeyAndSuppress(SHIFT_FLAG));
}

#[test]
fn holding_layer_turns_hjkl_into_arrows_and_swallows_layer_key() {
    let layer = layer();
    let mut state = LayerState::new(P);
    assert_eq!(state.on_key(layer, Down, layer, NO_FLAGS), Suppress);
    assert_eq!(state.on_key(layer, Down, P.key_h(), NO_FLAGS), RewriteArrow(P.key_left_arrow()));
    assert_eq!(state.on_key(layer, Up, P.key_h(), NO_FLAGS), RewriteArrow(P.key_left_arrow()));
    // The layer key was used as a modifier, so it is not emitted.
    assert_eq!(state.on_key(layer, Up, layer, NO_FLAGS), Suppress);
}

#[test]
fn arrow_key_up_is_still_rewritten_after_layer_release() {
    let layer = layer();
    let mut state = LayerState::new(P);
    assert_eq!(state.on_key(layer, Down, layer, NO_FLAGS), Suppress);
    assert_eq!(state.on_key(layer, Down, P.key_j(), NO_FLAGS), RewriteArrow(P.key_down_arrow()));
    // Layer key released while j is still held.
    assert_eq!(state.on_key(layer, Up, layer, NO_FLAGS), Suppress);
    // The j key-up must still become a down-arrow key-up.
    assert_eq!(state.on_key(layer, Up, P.key_j(), NO_FLAGS), RewriteArrow(P.key_down_arrow()));
    // With the layer gone, j is a plain key again.
    assert_eq!(state.on_key(layer, Down, P.key_j(), NO_FLAGS), PassThrough);
}

#[test]
fn key_repeat_of_mapped_key_keeps_rewriting_while_held() {
    let layer = layer();
    let mut state = LayerState::new(P);
    assert_eq!(state.on_key(layer, Down, layer, NO_FLAGS), Suppress);
    assert_eq!(state.on_key(layer, Down, P.key_k(), NO_FLAGS), RewriteArrow(P.key_up_arrow()));
    // Auto-repeat key-downs while held keep being rewritten.
    assert_eq!(state.on_key(layer, Down, P.key_k(), NO_FLAGS), RewriteArrow(P.key_up_arrow()));
    assert_eq!(state.on_key(layer, Up, P.key_k(), NO_FLAGS), RewriteArrow(P.key_up_arrow()));
}

#[test]
fn holding_layer_adds_shortcut_modifier_to_other_keys() {
    let layer = layer();
    let mut state = LayerState::new(P);
    assert_eq!(state.on_key(layer, Down, layer, NO_FLAGS), Suppress);
    assert_eq!(state.on_key(layer, Down, KEY_A, NO_FLAGS), AddShortcutModifier);
    assert_eq!(state.on_key(layer, Up, KEY_A, NO_FLAGS), AddShortcutModifier);
    // The layer key acted as a modifier, so it is not emitted.
    assert_eq!(state.on_key(layer, Up, layer, NO_FLAGS), Suppress);
    // After release the layer is fully reset.
    assert_eq!(state.on_key(layer, Down, KEY_A, NO_FLAGS), PassThrough);
}

#[test]
fn hjkl_key_up_without_prior_layer_press_passes_through() {
    let layer = layer();
    let mut state = LayerState::new(P);
    assert_eq!(state.on_key(layer, Down, layer, NO_FLAGS), Suppress);
    // h was pressed before the layer was activated, so its key-up passes through.
    assert_eq!(state.on_key(layer, Up, P.key_h(), NO_FLAGS), PassThrough);
}

#[test]
fn layer_key_up_without_key_down_passes_through() {
    let layer = layer();
    let mut state = LayerState::new(P);
    assert_eq!(state.on_key(layer, Up, layer, NO_FLAGS), PassThrough);
}

#[test]
fn keys_without_layer_pass_through() {
    let layer = layer();
    let mut state = LayerState::new(P);
    assert_eq!(state.on_key(layer, Down, KEY_A, NO_FLAGS), PassThrough);
    assert_eq!(state.on_key(layer, Down, P.key_h(), NO_FLAGS), PassThrough);
    assert_eq!(state.on_key(layer, Up, P.key_h(), NO_FLAGS), PassThrough);
}

#[test]
fn a_custom_layer_key_drives_the_layer_and_semicolon_types_normally() {
    let quote = named_key("quote");
    let mut state = LayerState::new(P);

    // Semicolon is now just a normal key and passes through.
    assert_eq!(state.on_key(quote, Down, P.key_semicolon(), NO_FLAGS), PassThrough);

    // Quote drives the layer: hold quote + j -> down arrow.
    assert_eq!(state.on_key(quote, Down, quote, NO_FLAGS), Suppress);
    assert_eq!(state.on_key(quote, Down, P.key_j(), NO_FLAGS), RewriteArrow(P.key_down_arrow()));
    assert_eq!(state.on_key(quote, Up, P.key_j(), NO_FLAGS), RewriteArrow(P.key_down_arrow()));
    assert_eq!(state.on_key(quote, Up, quote, NO_FLAGS), Suppress);

    // Tapping quote alone replays quote.
    assert_eq!(state.on_key(quote, Down, quote, NO_FLAGS), Suppress);
    assert_eq!(state.on_key(quote, Up, quote, NO_FLAGS), PostLayerKeyAndSuppress(NO_FLAGS));
}

#[test]
fn parses_layer_key_names_and_codes() {
    assert_eq!(parse_layer_key(P, "semicolon"), Ok(P.key_semicolon()));
    assert_eq!(parse_layer_key(P, "quote"), Ok(named_key("quote")));
    assert_eq!(parse_layer_key(P, "apostrophe"), Ok(named_key("quote")));
    // Case- and separator-insensitive.
    assert_eq!(parse_layer_key(P, "Right-Bracket"), Ok(named_key("right_bracket")));
    assert_eq!(parse_layer_key(P, "  TAB  "), Ok(named_key("tab")));
    // Raw numeric codes.
    let quote = named_key("quote");
    let grave = named_key("grave");
    assert_eq!(parse_layer_key(P, &quote.to_string()), Ok(quote));
    assert_eq!(parse_layer_key(P, &grave.to_string()), Ok(grave));
}

#[test]
fn parses_modifier_layer_keys_with_left_right() {
    let right_command = named_key("right_command");
    let left_command = named_key("left_command");
    assert_eq!(parse_layer_key(P, "right_command"), Ok(right_command));
    assert_eq!(parse_layer_key(P, "left_command"), Ok(left_command));
    assert_eq!(parse_layer_key(P, "Right Option"), Ok(named_key("right_option")));
    assert_eq!(parse_layer_key(P, "left-ctrl"), Ok(named_key("left_control")));
    assert_eq!(parse_layer_key(P, "right_shift"), Ok(named_key("right_shift")));
    // Numeric modifier codes are accepted too.
    assert_eq!(parse_layer_key(P, &right_command.to_string()), Ok(right_command));

    assert!(is_modifier(P, right_command));
    assert!(is_modifier(P, left_command));
    assert!(!is_modifier(P, P.key_semicolon())); // semicolon is not a modifier
}

#[test]
fn macos_modifier_device_flags_track_left_and_right_keys() {
    let mac = Platform::MacOs;
    let left_command = named_key_on(mac, "left_command");
    let right_command = named_key_on(mac, "right_command");
    // Left and right of the same modifier get distinct device flag bits.
    assert_eq!(modifier_device_flag(mac, left_command), Some(0x8));
    assert_eq!(modifier_device_flag(mac, right_command), Some(0x10));
    assert_ne!(modifier_device_flag(mac, left_command), modifier_device_flag(mac, right_command));
    assert_eq!(modifier_device_flag(mac, mac.key_semicolon()), None);
}

#[test]
fn macos_modifier_clear_mask_includes_device_and_general_bits() {
    let mac = Platform::MacOs;
    let right_command = named_key_on(mac, "right_command");
    let left_shift = named_key_on(mac, "left_shift");
    // right command: device bit 0x10 + general command mask (1 << 20).
    assert_eq!(
        modifier_clear_mask(mac, right_command),
        Some(0x10 | mac.shortcut_modifier_flag_mask())
    );
    // left shift: device bit 0x2 + general shift mask (1 << 17).
    assert_eq!(modifier_clear_mask(mac, left_shift), Some(0x2 | (1 << 17)));
    // Non-modifier keys contribute no mask.
    assert_eq!(modifier_clear_mask(mac, mac.key_semicolon()), None);
}

#[test]
fn rejects_invalid_layer_keys() {
    assert!(parse_layer_key(P, "").is_err());
    assert!(parse_layer_key(P, "not_a_key").is_err());
    // Caps Lock has toggle behaviour.
    assert!(parse_layer_key(P, &0x14u16.to_string()).is_err());
    // h/j/k/l are arrow targets and cannot also be the layer key.
    assert!(parse_layer_key(P, &P.key_h().to_string()).is_err());
    assert!(parse_layer_key(P, &P.key_k().to_string()).is_err());
    // The arrow keys the layer emits are rejected too.
    assert!(parse_layer_key(P, &P.key_left_arrow().to_string()).is_err());
    assert!(parse_layer_key(P, &P.key_up_arrow().to_string()).is_err());
}

#[test]
fn reports_canonical_key_names() {
    assert_eq!(layer_key_name(P, P.key_semicolon()), Some("semicolon"));
    assert_eq!(layer_key_name(P, named_key("quote")), Some("quote"));
    assert_eq!(layer_key_name(P, named_key("right_command")), Some("right_command"));
    assert_eq!(layer_key_name(P, named_key("left_command")), Some("left_command"));
    assert_eq!(layer_key_name(P, 999), None);
}

#[test]
fn a_modifier_layer_key_drives_the_layer_like_any_other() {
    let right_command = named_key("right_command");
    let mut state = LayerState::new(P);
    assert_eq!(state.on_key(right_command, Down, right_command, NO_FLAGS), Suppress);
    assert_eq!(
        state.on_key(right_command, Down, P.key_h(), NO_FLAGS),
        RewriteArrow(P.key_left_arrow())
    );
    assert_eq!(
        state.on_key(right_command, Up, P.key_h(), NO_FLAGS),
        RewriteArrow(P.key_left_arrow())
    );
    assert_eq!(state.on_key(right_command, Up, right_command, NO_FLAGS), Suppress);
    // Used with a non-hjkl key it adds the shortcut modifier.
    assert_eq!(state.on_key(right_command, Down, right_command, NO_FLAGS), Suppress);
    assert_eq!(state.on_key(right_command, Down, KEY_A, NO_FLAGS), AddShortcutModifier);
}

// ---------------------------------------------------------------------------
// Further cases
// ---------------------------------------------------------------------------

#[test]
fn layer_key_error_messages_name_the_problem() {
    assert_eq!(parse_layer_key(P, "   "), Err("layer key is empty".to_string()));
    assert_eq!(
        parse_layer_key(P, "not_a_key"),
        Err("unknown layer key 'not_a_key'. Use a name like 'semicolon', 'quote', or 'right_command', or a numeric virtual key code.".to_string())
    );
    assert_eq!(
        parse_layer_key(Platform::MacOs, "nope"),
        Err("unknown layer key 'nope'. Use a name like 'semicolon', 'quote', or 'right_command', or a numeric macOS key code.".to_string())
    );
    assert_eq!(
        validate_layer_key(P, 0x14),
        Err("key code 20 is not supported as the layer key because it has special/toggle behavior.".to_string())
    );
    assert_eq!(
        validate_layer_key(P, P.key_h()),
        Err("key code 72 is one of h/j/k/l, which the layer maps to arrow keys and so cannot also be the layer key.".to_string())
    );
    assert_eq!(
        validate_layer_key(P, P.key_left_arrow()),
        Err("key code 37 is an arrow key that the layer emits, so it cannot also be the layer key.".to_string())
    );
    assert_eq!(validate_layer_key(Platform::MacOs, 63), parse_layer_key(Platform::MacOs, "63").map(|_| ()));
    assert_eq!(validate_layer_key(P, 0xBA), Ok(()));
}

#[test]
fn numeric_layer_keys_follow_integer_parsing() {
    assert_eq!(parse_layer_key(P, "+186"), Ok(186));
    assert_eq!(parse_layer_key(P, "1_86"), Ok(186));
    assert_eq!(parse_layer_key(P, "00186"), Ok(186));
    assert!(parse_layer_key(P, "65536").is_err());
    // `-` is a name separator, so "-1" normalizes to "1".
    assert_eq!(parse_layer_key(P, "-1"), Ok(1));
    assert!(parse_layer_key(P, "+").is_err());
    assert_eq!(parse_layer_key(P, "65535"), Ok(65535));
}

#[test]
fn every_canonical_name_parses_to_its_code() {
    for platform in [Platform::MacOs, Platform::Windows, Platform::Other] {
        for i in 0..platform.layer_key_table_len() {
            let (name, code) = platform.layer_key_entry_at(i);
            assert_eq!(parse_layer_key(platform, name), Ok(code), "{name}");
            assert_eq!(parse_layer_key(platform, &code.to_string()), Ok(code));
            assert_eq!(parse_layer_key(platform, &name.to_uppercase()), Ok(code));
            assert!(layer_key_name(platform, code).is_some());
        }
    }
}

#[test]
fn macos_key_codes_and_names() {
    let mac = Platform::MacOs;
    assert_eq!(hjkl_to_arrow(mac, 4), Some(123));
    assert_eq!(hjkl_to_arrow(mac, 38), Some(125));
    assert_eq!(hjkl_to_arrow(mac, 40), Some(126));
    assert_eq!(hjkl_to_arrow(mac, 37), Some(124));
    assert_eq!(parse_layer_key(mac, "semicolon"), Ok(41));
    assert_eq!(parse_layer_key(mac, "right_command"), Ok(54));
    assert!(parse_layer_key(mac, "57").is_err());
    assert!(parse_layer_key(mac, "backspace").is_err());
    assert!(is_modifier(mac, 54));
    assert!(!is_modifier(mac, 41));
}

#[test]
fn labels_show_name_and_code() {
    assert_eq!(layer_key_label(P, 0xBA), "semicolon (keycode 186)");
    assert_eq!(layer_key_label(P, 0x5B), "left_command (keycode 91)");
    assert_eq!(layer_key_label(P, 999), "keycode 999");
    assert_eq!(layer_key_label(Platform::MacOs, 54), "right_command (keycode 54)");
}

#[test]
fn key_names_normalize_case_and_separators() {
    assert_eq!(normalize_key_name("Right-Bracket"), "rightbracket");
    assert_eq!(normalize_key_name("left_ctrl"), "leftctrl");
    assert_eq!(normalize_key_name("A B-C_D"), "abcd");
    assert_eq!(normalize_key_name("ÄÖ"), "äö");
}

#[test]
fn modifier_flags_are_macos_only() {
    assert_eq!(modifier_device_flag(P, named_key("right_command")), None);
    assert_eq!(modifier_clear_mask(Platform::Windows, 0x5C), None);
    assert_eq!(modifier_clear_mask(Platform::MacOs, 62), Some(0x2000 | (1 << 18)));
}

#[test]
fn windows_key_names_work_on_macos_too() {
    let mac = Platform::MacOs;
    assert_eq!(parse_layer_key(mac, "left_windows"), Ok(55));
    assert_eq!(parse_layer_key(mac, "right_windows"), Ok(54));
    assert_eq!(parse_layer_key(mac, "Right-Windows"), Ok(54));
    assert!(parse_layer_key(mac, "left_win").is_err());
    assert_eq!(layer_key_name(mac, 55), Some("left_command"));
    assert_eq!(parse_layer_key(Platform::Windows, "left_command"), Ok(0x5B));
}
