//! The macOS event-tap callback's decisions: which keyboard events the layer
//! machine sees, and what becomes of each event (delivered, rewritten,
//! swallowed, or replaced by a synthetic key press).
//!
//! The adapter reads the event's type and fields, calls [`tap_response`], and
//! performs the returned [`TapResponse`] on the `CGEventRef`.

use vstd::prelude::*;
use crate::keymap::{
    hjkl_to_arrow, is_modifier, modifier_clear_mask, modifier_device_flag, with_shortcut_modifier_flag,
};
use crate::keys::{EventFlags, KeyCode, Platform};
use crate::layer::{Action, KeyDirection, LayerState, LayerView, is_tracked, layer_step, layer_wf};

verus! {

/// `kCGEventKeyDown`.
pub const EVENT_KEY_DOWN: u32 = 10;

/// `kCGEventKeyUp`.
pub const EVENT_KEY_UP: u32 = 11;

/// `kCGEventFlagsChanged`: a modifier key changed state (modifiers have no
/// key-down/up of their own).
pub const EVENT_FLAGS_CHANGED: u32 = 12;

/// `kCGEventTapDisabledByTimeout`.
pub const EVENT_TAP_DISABLED_BY_TIMEOUT: u32 = 0xFFFF_FFFE;

/// `kCGEventTapDisabledByUserInput`.
pub const EVENT_TAP_DISABLED_BY_USER_INPUT: u32 = 0xFFFF_FFFF;

/// Marker placed in the user-data field of events this process synthesizes,
/// so the tap does not process its own events again ("hjkl_rst").
pub const SYNTHETIC_EVENT_TAG: i64 = 0x686A_6B6C_5F72_7374;

/// `kCGEventFlagMaskNumericPad`.
pub const FLAG_MASK_NUMERIC_PAD: u64 = 0x0020_0000;

/// `kCGEventFlagMaskSecondaryFn`.
pub const FLAG_MASK_SECONDARY_FN: u64 = 0x0080_0000;

/// The bit of an event type in a `CGEventMask`.
pub fn event_mask(event_type: u32) -> (m: u64)
    requires
        event_type < 64,
    ensures
        m == 1u64 << event_type,
{
    1u64 << event_type
}

/// The events the tap listens to: key-down, key-up, and flags-changed (so a
/// modifier key can serve as the layer key).
pub fn keyboard_event_mask() -> (m: u64)
    ensures
        m == (1u64 << 10u32) | (1u64 << 11u32) | (1u64 << 12u32),
{
    event_mask(EVENT_KEY_DOWN) | event_mask(EVENT_KEY_UP) | event_mask(EVENT_FLAGS_CHANGED)
}

/// The character a physical arrow key event carries (macOS arrow keys).
pub open spec fn arrow_character(arrow_key: KeyCode) -> Option<u16> {
    if arrow_key == 123 {
        Some(0x001c)
    } else if arrow_key == 124 {
        Some(0x001d)
    } else if arrow_key == 125 {
        Some(0x001f)
    } else if arrow_key == 126 {
        Some(0x001e)
    } else {
        None
    }
}

pub fn arrow_unicode(arrow_key: KeyCode) -> (r: Option<u16>)
    ensures
        r == arrow_character(arrow_key),
{
    match arrow_key {
        123 => Some(0x001c),
        124 => Some(0x001d),
        125 => Some(0x001f),
        126 => Some(0x001e),
        _ => None,
    }
}

/// Flags of a physical arrow-key event: the held modifiers plus the
/// numeric-pad and secondary-fn bits that mark navigation keys.
#[verifier::allow_in_spec]
pub fn arrow_event_flags(flags: EventFlags) -> EventFlags
    returns
        flags | (FLAG_MASK_NUMERIC_PAD | FLAG_MASK_SECONDARY_FN),
{
    flags | (FLAG_MASK_NUMERIC_PAD | FLAG_MASK_SECONDARY_FN)
}

/// `flags` without the bits of `mask`.
#[verifier::allow_in_spec]
pub fn cleared_flags(flags: EventFlags, mask: EventFlags) -> EventFlags
    returns
        flags & !mask,
{
    flags & !mask
}

/// What the tap callback does with one event.
#[derive(Clone, Copy, Debug, PartialEq, Eq, Structural)]
pub enum TapResponse {
    /// macOS disabled the tap: enable it again and deliver the event.
    Reenable,
    /// Deliver the event unchanged.
    Deliver,
    /// Set the event's flags to the given value, then deliver it.
    DeliverWithFlags(EventFlags),
    /// Deliver, in place of the event, a keyboard event for `arrow_key` in
    /// the same direction with the given flags.
    DeliverArrow { arrow_key: KeyCode, flags: EventFlags },
    /// Swallow the event.
    Suppress,
    /// Post a full press (down and up) of `key_code` with `flags`, tagged as
    /// synthetic, and swallow the event.
    PostKeyAndSuppress { key_code: KeyCode, flags: EventFlags },
}

/// The direction of a key event, if the layer machine should see it: key-down
/// and key-up events, and flags-changed events of the layer key when it is a
/// modifier (down while its device bit is set).
pub open spec fn tap_direction(
    platform: Platform,
    layer_key: KeyCode,
    event_type: u32,
    key_code: KeyCode,
    flags: EventFlags,
) -> Option<KeyDirection> {
    if event_type == EVENT_FLAGS_CHANGED {
        match platform.device_flag(layer_key) {
            Some(mask) => if key_code == layer_key {
                Some(
                    if flags & mask != 0 {
                        KeyDirection::Down
                    } else {
                        KeyDirection::Up
                    },
                )
            } else {
                None
            },
            None => None,
        }
    } else if event_type == EVENT_KEY_DOWN {
        Some(KeyDirection::Down)
    } else {
        Some(KeyDirection::Up)
    }
}

/// `flags` without the bits of a held modifier layer key.
pub open spec fn without_layer_modifier(platform: Platform, layer_key: KeyCode, flags: EventFlags) -> EventFlags {
    match platform.clear_mask(layer_key) {
        Some(mask) => flags & !mask,
        None => flags,
    }
}

/// How a layer action is carried out on an event with `flags`. When the layer
/// key is a modifier, its still-held flag is stripped from every event the
/// layer delivers, so arrows stay bare and "layer + other" becomes exactly the
/// shortcut modifier plus that key. Tapping a modifier layer key alone does
/// nothing; any other layer key is replayed.
pub open spec fn action_response(
    platform: Platform,
    layer_key: KeyCode,
    action: Action,
    flags: EventFlags,
) -> TapResponse {
    match action {
        Action::PassThrough => match platform.clear_mask(layer_key) {
            Some(mask) => TapResponse::DeliverWithFlags(flags & !mask),
            None => TapResponse::Deliver,
        },
        Action::Suppress => TapResponse::Suppress,
        Action::RewriteArrow(arrow_key) => TapResponse::DeliverArrow {
            arrow_key,
            flags: without_layer_modifier(platform, layer_key, arrow_event_flags(flags)),
        },
        Action::PostLayerKeyAndSuppress(captured) => if platform.is_modifier_key(layer_key) {
            TapResponse::Suppress
        } else {
            TapResponse::PostKeyAndSuppress { key_code: layer_key, flags: captured }
        },
        Action::AddShortcutModifier => TapResponse::DeliverWithFlags(
            with_shortcut_modifier_flag(platform, without_layer_modifier(platform, layer_key, flags)),
        ),
    }
}

/// The tap callback's decision for one (non-null) event, and the next layer
/// state.
pub open spec fn tap_step(
    s: LayerView,
    layer_key: KeyCode,
    event_type: u32,
    user_data: i64,
    key_code: i64,
    flags: EventFlags,
) -> (LayerView, TapResponse) {
    if event_type == EVENT_TAP_DISABLED_BY_TIMEOUT || event_type
        == EVENT_TAP_DISABLED_BY_USER_INPUT {
        (s, TapResponse::Reenable)
    } else if user_data == SYNTHETIC_EVENT_TAG {
        (s, TapResponse::Deliver)
    } else if event_type != EVENT_KEY_DOWN && event_type != EVENT_KEY_UP && event_type
        != EVENT_FLAGS_CHANGED {
        (s, TapResponse::Deliver)
    } else if key_code < 0 || key_code > 0xFFFF {
        (s, TapResponse::Deliver)
    } else {
        match tap_direction(s.platform, layer_key, event_type, key_code as KeyCode, flags) {
            None => (s, TapResponse::Deliver),
            Some(direction) => {
                let (next, action) = layer_step(s, layer_key, direction, key_code as KeyCode, flags);
                (next, action_response(s.platform, layer_key, action, flags))
            },
        }
    }
}

/// Decides what the tap does with one event, advancing the layer state.
pub fn tap_response(
    state: &mut LayerState,
    layer_key: KeyCode,
    event_type: u32,
    user_data: i64,
    key_code: i64,
    flags: EventFlags,
) -> (r: TapResponse)
    ensures
        (final(state)@, r) == tap_step(old(state)@, layer_key, event_type, user_data, key_code, flags),
{
    if event_type == EVENT_TAP_DISABLED_BY_TIMEOUT || event_type
        == EVENT_TAP_DISABLED_BY_USER_INPUT {
        return TapResponse::Reenable;
    }
    if user_data == SYNTHETIC_EVENT_TAG {
        return TapResponse::Deliver;
    }
    if event_type != EVENT_KEY_DOWN && event_type != EVENT_KEY_UP && event_type
        != EVENT_FLAGS_CHANGED {
        return TapResponse::Deliver;
    }
    if key_code < 0 || key_code > 0xFFFF {
        return TapResponse::Deliver;
    }
    let key_code = key_code as KeyCode;
    let platform = state.platform();
    let direction = if event_type == EVENT_FLAGS_CHANGED {
        match modifier_device_flag(platform, layer_key) {
            Some(mask) => {
                if key_code == layer_key {
                    if flags & mask != 0 {
                        KeyDirection::Down
                    } else {
                        KeyDirection::Up
                    }
                } else {
                    return TapResponse::Deliver;
                }
            },
            None => {
                return TapResponse::Deliver;
            },
        }
    } else if event_type == EVENT_KEY_DOWN {
        KeyDirection::Down
    } else {
        KeyDirection::Up
    };
    let action = state.on_key(layer_key, direction, key_code, flags);
    let layer_modifier_mask = modifier_clear_mask(platform, layer_key);
    match action {
        Action::PassThrough => match layer_modifier_mask {
            Some(mask) => TapResponse::DeliverWithFlags(cleared_flags(flags, mask)),
            None => TapResponse::Deliver,
        },
        Action::Suppress => TapResponse::Suppress,
        Action::RewriteArrow(arrow_key) => {
            let arrow_flags = arrow_event_flags(flags);
            let arrow_flags = match layer_modifier_mask {
                Some(mask) => cleared_flags(arrow_flags, mask),
                None => arrow_flags,
            };
            TapResponse::DeliverArrow { arrow_key, flags: arrow_flags }
        },
        Action::PostLayerKeyAndSuppress(captured) => {
            if !is_modifier(platform, layer_key) {
                TapResponse::PostKeyAndSuppress { key_code: layer_key, flags: captured }
            } else {
                TapResponse::Suppress
            }
        },
        Action::AddShortcutModifier => {
            let kept = match layer_modifier_mask {
                Some(mask) => cleared_flags(flags, mask),
                None => flags,
            };
            TapResponse::DeliverWithFlags(with_shortcut_modifier_flag(platform, kept))
        },
    }
}

// ---------------------------------------------------------------------------
// Laws of the tap
// ---------------------------------------------------------------------------

/// Whatever event the tap sees, the layer machine stays in a reachable shape.
pub proof fn law_tap_step_preserves_wf(
    s: LayerView,
    layer_key: KeyCode,
    event_type: u32,
    user_data: i64,
    key_code: i64,
    flags: EventFlags,
)
    requires
        layer_wf(s),
    ensures
        layer_wf(tap_step(s, layer_key, event_type, user_data, key_code, flags).0),
        tap_step(s, layer_key, event_type, user_data, key_code, flags).0.platform == s.platform,
{
    if 0 <= key_code <= 0xFFFF {
        if let Some(direction) = tap_direction(s.platform, layer_key, event_type, key_code as KeyCode, flags) {
            crate::layer::law_layer_step_preserves_wf(s, layer_key, direction, key_code as KeyCode, flags);
        }
    }
}

/// Without the layer key held, an ordinary key event (not the layer key
/// going down, not an arrow still being released) is delivered as it came:
/// with exactly its own flags, minus only the bits of a modifier layer key.
/// No shortcut modifier is ever added and nothing is swallowed.
pub proof fn law_idle_events_are_delivered_unchanged(
    s: LayerView,
    layer_key: KeyCode,
    event_type: u32,
    user_data: i64,
    key_code: KeyCode,
    flags: EventFlags,
)
    requires
        !s.layer_down,
        !is_tracked(s, key_code),
        event_type == EVENT_KEY_DOWN || event_type == EVENT_KEY_UP,
        !(event_type == EVENT_KEY_DOWN && key_code == layer_key),
        user_data != SYNTHETIC_EVENT_TAG,
    ensures
        ({
            let (next, response) = tap_step(s, layer_key, event_type, user_data, key_code as i64, flags);
            &&& next == s
            &&& response == match s.platform.clear_mask(layer_key) {
                Some(mask) => TapResponse::DeliverWithFlags(flags & !mask),
                None => TapResponse::Deliver,
            }
            &&& response matches TapResponse::DeliverWithFlags(out) ==> out & !flags == 0
        }),
{
    let direction = if event_type == EVENT_KEY_DOWN {
        KeyDirection::Down
    } else {
        KeyDirection::Up
    };
    crate::layer::law_idle_events_pass_through(s, layer_key, direction, key_code, flags);
    if let Some(mask) = s.platform.clear_mask(layer_key) {
        assert((flags & !mask) & !flags == 0) by (bit_vector);
    }
}

/// Holding the layer key before any shortcut was started, the release of
/// another non-`h`/`j`/`k`/`l` key is delivered with its own flags, minus
/// only the layer modifier's bits: never swallowed, never given Command.
pub proof fn law_held_layer_delivers_other_releases(
    s: LayerView,
    layer_key: KeyCode,
    user_data: i64,
    key_code: KeyCode,
    flags: EventFlags,
)
    requires
        s.layer_down,
        !s.command_layer_active,
        key_code != layer_key,
        hjkl_to_arrow(s.platform, key_code) is None,
        user_data != SYNTHETIC_EVENT_TAG,
    ensures
        tap_step(s, layer_key, EVENT_KEY_UP, user_data, key_code as i64, flags) == (
            s,
            match s.platform.clear_mask(layer_key) {
                Some(mask) => TapResponse::DeliverWithFlags(flags & !mask),
                None => TapResponse::Deliver,
            },
        ),
{
    crate::layer::law_held_layer_passes_other_releases(s, layer_key, key_code, flags);
}

/// Events the layer has no business with are delivered untouched and leave
/// the layer as it was: events that are not key-down, key-up or
/// flags-changed, key codes out of range, and flags-changed events of any
/// key other than a modifier layer key.
pub proof fn law_foreign_events_are_delivered_untouched(
    s: LayerView,
    layer_key: KeyCode,
    event_type: u32,
    user_data: i64,
    key_code: i64,
    flags: EventFlags,
)
    requires
        event_type != EVENT_TAP_DISABLED_BY_TIMEOUT,
        event_type != EVENT_TAP_DISABLED_BY_USER_INPUT,
        ({
            ||| event_type != EVENT_KEY_DOWN && event_type != EVENT_KEY_UP && event_type != EVENT_FLAGS_CHANGED
            ||| key_code < 0 || key_code > 0xFFFF
            ||| event_type == EVENT_FLAGS_CHANGED && (s.platform.device_flag(layer_key) is None
                || key_code != layer_key as i64)
        }),
    ensures
        tap_step(s, layer_key, event_type, user_data, key_code, flags) == (s, TapResponse::Deliver),
{
}

/// Events this process synthesized are delivered untouched and never reach
/// the layer machine.
pub proof fn law_synthetic_events_are_not_remapped(
    s: LayerView,
    layer_key: KeyCode,
    event_type: u32,
    key_code: i64,
    flags: EventFlags,
)
    ensures
        ({
            let (next, response) = tap_step(s, layer_key, event_type, SYNTHETIC_EVENT_TAG, key_code, flags);
            &&& next == s
            &&& (response == TapResponse::Deliver || response == TapResponse::Reenable)
        }),
{
}

/// A modifier layer key tapped alone does nothing: its press and its
/// release (flags-changed events that set and clear its device bit) are both
/// swallowed, nothing is posted, and the layer is back where it started.
pub proof fn law_modifier_layer_key_tap_does_nothing(
    s: LayerView,
    layer_key: KeyCode,
    press_flags: EventFlags,
    release_flags: EventFlags,
    user_data: i64,
)
    requires
        layer_wf(s),
        !s.layer_down,
        !is_tracked(s, layer_key),
        user_data != SYNTHETIC_EVENT_TAG,
        s.platform.device_flag(layer_key) matches Some(bit) && press_flags & bit != 0
            && release_flags & bit == 0,
    ensures
        ({
            let (pressed, first) = tap_step(s, layer_key, EVENT_FLAGS_CHANGED, user_data, layer_key as i64, press_flags);
            let (after, second) = tap_step(pressed, layer_key, EVENT_FLAGS_CHANGED, user_data, layer_key as i64, release_flags);
            &&& first == TapResponse::Suppress
            &&& second == TapResponse::Suppress
            &&& after == s
        }),
{
    crate::layer::law_tap_alone_replays_layer_key(s, layer_key, press_flags, release_flags);
}

proof fn lemma_flag_bits(f: u64, m: u64, a: u64)
    by (bit_vector)
    requires
        m & a == 0,
    ensures
        ((f | a) & !m) & m == 0,
        ((f | a) & !m) & a == a,
{
}

/// While a modifier layer key is held its flag bits never ride on the arrow
/// keys the layer produces: every rewritten arrow carries the navigation-key
/// bits and none of the layer modifier's bits; every other key the layer
/// changes carries exactly the shortcut modifier in place of them.
pub proof fn law_layer_modifier_flags_are_stripped(
    s: LayerView,
    layer_key: KeyCode,
    event_type: u32,
    user_data: i64,
    key_code: i64,
    flags: EventFlags,
)
    requires
        s.platform.clear_mask(layer_key) is Some,
    ensures
        ({
            let mask = s.platform.clear_mask(layer_key)->0;
            let (next, response) = tap_step(s, layer_key, event_type, user_data, key_code, flags);
            &&& response matches TapResponse::DeliverArrow { arrow_key, flags: out } ==> {
                &&& out & mask == 0
                &&& out & (FLAG_MASK_NUMERIC_PAD | FLAG_MASK_SECONDARY_FN) == (
                FLAG_MASK_NUMERIC_PAD | FLAG_MASK_SECONDARY_FN)
            }
            &&& response matches TapResponse::DeliverWithFlags(out) ==> (out == flags & !mask || out
                == with_shortcut_modifier_flag(s.platform, flags & !mask))
        }),
{
    let mask = s.platform.clear_mask(layer_key)->0;
    assert(mask & (FLAG_MASK_NUMERIC_PAD | FLAG_MASK_SECONDARY_FN) == 0) by (bit_vector)
        requires
            mask == 0x0010_0008u64 || mask == 0x0010_0010u64 || mask == 0x0002_0002u64 || mask
                == 0x0002_0004u64 || mask == 0x0008_0020u64 || mask == 0x0008_0040u64 || mask
                == 0x0004_0001u64 || mask == 0x0004_2000u64,
    ;
    lemma_flag_bits(flags, mask, FLAG_MASK_NUMERIC_PAD | FLAG_MASK_SECONDARY_FN);
}

/// Tapping a layer key that is not a modifier alone types it: its key-down
/// is swallowed, its key-up is swallowed too and a full press of the layer
/// key is posted with the modifier flags held at key-down, and the layer is
/// back where it started.
pub proof fn law_layer_key_tap_types_it(
    s: LayerView,
    layer_key: KeyCode,
    press_flags: EventFlags,
    release_flags: EventFlags,
    user_data: i64,
)
    requires
        layer_wf(s),
        !s.layer_down,
        !is_tracked(s, layer_key),
        !s.platform.is_modifier_key(layer_key),
        user_data != SYNTHETIC_EVENT_TAG,
    ensures
        ({
            let (pressed, first) = tap_step(s, layer_key, EVENT_KEY_DOWN, user_data, layer_key as i64, press_flags);
            let (after, second) = tap_step(pressed, layer_key, EVENT_KEY_UP, user_data, layer_key as i64, release_flags);
            &&& first == TapResponse::Suppress
            &&& second == TapResponse::PostKeyAndSuppress { key_code: layer_key, flags: press_flags }
            &&& after == s
        }),
{
    crate::layer::law_tap_alone_replays_layer_key(s, layer_key, press_flags, release_flags);
}

/// Holding the layer key, `h`/`j`/`k`/`l` go down as the matching arrow key
/// (with the navigation-key flags and without the layer modifier's bits),
/// and their key-up comes out as that arrow's key-up, even if the layer key
/// was released in between.
pub proof fn law_held_layer_sends_arrows(
    s: LayerView,
    layer_key: KeyCode,
    key_code: KeyCode,
    press_flags: EventFlags,
    release_flags: EventFlags,
    user_data: i64,
)
    requires
        s.layer_down,
        key_code != layer_key,
        hjkl_to_arrow(s.platform, key_code) is Some,
        !is_tracked(s, key_code),
        user_data != SYNTHETIC_EVENT_TAG,
    ensures
        ({
            let arrow_key = hjkl_to_arrow(s.platform, key_code)->0;
            let (pressed, first) = tap_step(s, layer_key, EVENT_KEY_DOWN, user_data, key_code as i64, press_flags);
            &&& first == TapResponse::DeliverArrow {
                arrow_key,
                flags: without_layer_modifier(s.platform, layer_key, arrow_event_flags(press_flags)),
            }
            &&& forall|later: LayerView|
                #![trigger tap_step(later, layer_key, EVENT_KEY_UP, user_data, key_code as i64, release_flags)]
                later.platform == s.platform && is_tracked(later, key_code) ==> tap_step(
                    later,
                    layer_key,
                    EVENT_KEY_UP,
                    user_data,
                    key_code as i64,
                    release_flags,
                ).1 == TapResponse::DeliverArrow {
                    arrow_key,
                    flags: without_layer_modifier(s.platform, layer_key, arrow_event_flags(release_flags)),
                }
            &&& is_tracked(pressed, key_code)
        }),
{
    crate::layer::law_held_layer_maps_hjkl_to_arrows(s, layer_key, key_code, press_flags);
}

/// Holding the layer key, any other key gets the Command flag: its key-down
/// is delivered with the shortcut modifier added (and a modifier layer key's
/// own bits removed).
pub proof fn law_held_layer_adds_command(
    s: LayerView,
    layer_key: KeyCode,
    key_code: KeyCode,
    flags: EventFlags,
    user_data: i64,
)
    requires
        layer_wf(s),
        s.layer_down,
        key_code != layer_key,
        hjkl_to_arrow(s.platform, key_code) is None,
        user_data != SYNTHETIC_EVENT_TAG,
    ensures
        tap_step(s, layer_key, EVENT_KEY_DOWN, user_data, key_code as i64, flags).1
            == TapResponse::DeliverWithFlags(
            with_shortcut_modifier_flag(s.platform, without_layer_modifier(s.platform, layer_key, flags)),
        ),
{
    crate::layer::law_held_layer_adds_shortcut_modifier(s, layer_key, KeyDirection::Down, key_code, flags);
}

/// The message shown when the keyboard event tap cannot be created.
pub fn event_tap_permission_error() -> (r: &'static str)
    ensures
        r@ == "Failed to create a keyboard event tap.\nGrant this terminal/binary permission in macOS System Settings:\nPrivacy & Security -> Accessibility, and if necessary Input Monitoring.\nThen restart the terminal or daemon."@,
{
    "Failed to create a keyboard event tap.\nGrant this terminal/binary permission in macOS System Settings:\nPrivacy & Security -> Accessibility, and if necessary Input Monitoring.\nThen restart the terminal or daemon."
}

} // verus!
