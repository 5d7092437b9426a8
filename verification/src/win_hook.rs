//! The Windows low-level keyboard hook's decisions.
//!
//! Windows cannot rewrite an intercepted event, so every changed event is
//! swallowed and replaced by synthetic key events (`SendInput`). The layer's
//! shortcut modifier is a synthetic Control key, pressed before the first
//! shortcut key and released after the last one comes back up.

use vstd::prelude::*;
use crate::keymap::{hjkl_to_arrow, is_modifier};
use crate::keys::{KeyCode, Platform};
use crate::layer::{Action, KeyDirection, LayerState, LayerView, is_tracked, layer_step, layer_wf};

verus! {

/// `WM_KEYDOWN`.
pub const WM_KEYDOWN: u32 = 0x0100;

/// `WM_KEYUP`.
pub const WM_KEYUP: u32 = 0x0101;

/// `WM_SYSKEYDOWN`.
pub const WM_SYSKEYDOWN: u32 = 0x0104;

/// `WM_SYSKEYUP`.
pub const WM_SYSKEYUP: u32 = 0x0105;

/// `HC_ACTION`: the hook code of an event the hook must process.
pub const HC_ACTION: i32 = 0;

/// `VK_CONTROL`: the key sent as the platform shortcut modifier.
pub const SHORTCUT_MODIFIER_KEY: KeyCode = 0x11;

/// `KEYEVENTF_EXTENDEDKEY`.
pub const KEYEVENTF_EXTENDEDKEY: u32 = 0x0001;

/// `KEYEVENTF_KEYUP`.
pub const KEYEVENTF_KEYUP: u32 = 0x0002;

/// Marker placed in `dwExtraInfo` of events this process sends, so the hook
/// does not process its own events again ("hjkl_rst").
pub const SYNTHETIC_EVENT_TAG: u64 = 0x686A_6B6C_5F72_7374;

/// One synthetic key event to send.
#[derive(Clone, Copy, Debug, PartialEq, Eq, Structural)]
pub struct SyntheticKey {
    pub key_code: KeyCode,
    pub direction: KeyDirection,
}

pub open spec fn key_event(key_code: KeyCode, direction: KeyDirection) -> SyntheticKey {
    SyntheticKey { key_code, direction }
}

/// The key direction of a keyboard message, if it is one.
pub open spec fn direction_of_message(message: u32) -> Option<KeyDirection> {
    if message == WM_KEYDOWN || message == WM_SYSKEYDOWN {
        Some(KeyDirection::Down)
    } else if message == WM_KEYUP || message == WM_SYSKEYUP {
        Some(KeyDirection::Up)
    } else {
        None
    }
}

pub fn message_direction(message: u32) -> (r: Option<KeyDirection>)
    ensures
        r == direction_of_message(message),
{
    if message == WM_KEYDOWN || message == WM_SYSKEYDOWN {
        Some(KeyDirection::Down)
    } else if message == WM_KEYUP || message == WM_SYSKEYUP {
        Some(KeyDirection::Up)
    } else {
        None
    }
}

/// Keys whose scan codes carry the extended-key prefix: the arrow and
/// navigation keys, right Control and right Alt.
pub open spec fn is_extended(key_code: KeyCode) -> bool {
    // VK_LEFT, VK_UP, VK_RIGHT, VK_DOWN, VK_HOME, VK_END, VK_PRIOR, VK_NEXT,
    // VK_INSERT, VK_DELETE, VK_RCONTROL, VK_RMENU
    key_code == 0x25 || key_code == 0x26 || key_code == 0x27 || key_code == 0x28 || key_code
        == 0x24 || key_code == 0x23 || key_code == 0x21 || key_code == 0x22 || key_code == 0x2D
        || key_code == 0x2E || key_code == 0xA3 || key_code == 0xA5
}

pub fn is_extended_key(key_code: KeyCode) -> (r: bool)
    ensures
        r == is_extended(key_code),
{
    key_code == 0x25 || key_code == 0x26 || key_code == 0x27 || key_code == 0x28 || key_code
        == 0x24 || key_code == 0x23 || key_code == 0x21 || key_code == 0x22 || key_code == 0x2D
        || key_code == 0x2E || key_code == 0xA3 || key_code == 0xA5
}

/// The `dwFlags` of the `KEYBDINPUT` that sends one key event.
pub fn key_event_flags(key_code: KeyCode, direction: KeyDirection) -> (flags: u32)
    ensures
        flags == (if direction == KeyDirection::Up {
            KEYEVENTF_KEYUP
        } else {
            0
        }) | (if is_extended(key_code) {
            KEYEVENTF_EXTENDEDKEY
        } else {
            0
        }),
{
    let up = if direction == KeyDirection::Up {
        KEYEVENTF_KEYUP
    } else {
        0
    };
    let extended = if is_extended_key(key_code) {
        KEYEVENTF_EXTENDEDKEY
    } else {
        0
    };
    up | extended
}

/// A full key press: down then up.
pub fn post_key(key_code: KeyCode) -> (events: Vec<SyntheticKey>)
    ensures
        events@ == seq![key_event(key_code, KeyDirection::Down), key_event(key_code, KeyDirection::Up)],
{
    let mut events = Vec::new();
    events.push(SyntheticKey { key_code, direction: KeyDirection::Down });
    events.push(SyntheticKey { key_code, direction: KeyDirection::Up });
    events
}

pub fn press_shortcut_modifier() -> (e: SyntheticKey)
    ensures
        e == key_event(SHORTCUT_MODIFIER_KEY, KeyDirection::Down),
{
    SyntheticKey { key_code: SHORTCUT_MODIFIER_KEY, direction: KeyDirection::Down }
}

pub fn release_shortcut_modifier() -> (e: SyntheticKey)
    ensures
        e == key_event(SHORTCUT_MODIFIER_KEY, KeyDirection::Up),
{
    SyntheticKey { key_code: SHORTCUT_MODIFIER_KEY, direction: KeyDirection::Up }
}

/// Number of `true` entries.
pub open spec fn count_true(s: Seq<bool>) -> nat
    decreases s.len(),
{
    if s.len() == 0 {
        0
    } else {
        count_true(s.drop_last()) + if s.last() {
            1nat
        } else {
            0nat
        }
    }
}

pub proof fn lemma_count_true_bounds(s: Seq<bool>)
    ensures
        count_true(s) <= s.len(),
    decreases s.len(),
{
    if s.len() > 0 {
        lemma_count_true_bounds(s.drop_last());
    }
}

pub proof fn lemma_count_true_update(s: Seq<bool>, i: int, v: bool)
    requires
        0 <= i < s.len(),
    ensures
        count_true(s.update(i, v)) + (if s[i] {
            1nat
        } else {
            0nat
        }) == count_true(s) + (if v {
            1nat
        } else {
            0nat
        }),
    decreases s.len(),
{
    if i == s.len() - 1 {
        assert(s.update(i, v).drop_last() == s.drop_last());
    } else {
        lemma_count_true_update(s.drop_last(), i, v);
        assert(s.update(i, v).drop_last() == s.drop_last().update(i, v));
    }
}

pub proof fn lemma_count_true_all_false(n: nat)
    ensures
        count_true(Seq::new(n, |i: int| false)) == 0,
    decreases n,
{
    if n > 0 {
        lemma_count_true_all_false((n - 1) as nat);
        assert(Seq::new(n, |i: int| false).drop_last() == Seq::new((n - 1) as nat, |i: int| false));
    }
}

/// The hook's state, as specifications see it.
pub struct HookView {
    pub layer: LayerView,
    /// For each virtual key below 256: it was sent as a shortcut key (with the
    /// synthetic Control held) and has not come back up.
    pub shortcut_keys_down: Seq<bool>,
    pub shortcut_key_count: u16,
    /// The synthetic Control key is down.
    pub shortcut_modifier_down: bool,
}

/// The hook's state: the layer machine plus the synthetic shortcut modifier.
pub struct HookState {
    layer: LayerState,
    shortcut_keys_down: Vec<bool>,
    shortcut_key_count: u16,
    shortcut_modifier_down: bool,
}

impl View for HookState {
    type V = HookView;

    closed spec fn view(&self) -> HookView {
        HookView {
            layer: self.layer@,
            shortcut_keys_down: self.shortcut_keys_down@,
            shortcut_key_count: self.shortcut_key_count,
            shortcut_modifier_down: self.shortcut_modifier_down,
        }
    }
}

/// The states the hook can reach: one entry per virtual key, the count is the
/// number of shortcut keys down, and while any is down the synthetic Control
/// key is down.
pub open spec fn hook_wf(h: HookView) -> bool {
    &&& h.shortcut_keys_down.len() == 256
    &&& h.shortcut_key_count == count_true(h.shortcut_keys_down)
    &&& h.shortcut_key_count > 0 ==> h.shortcut_modifier_down
    &&& layer_wf(h.layer)
}

pub open spec fn is_shortcut_key(h: HookView, key_code: KeyCode) -> bool {
    key_code < h.shortcut_keys_down.len() && h.shortcut_keys_down[key_code as int]
}

/// Sending one key of a shortcut: on the way down, Control is pressed first
/// unless it is already down and the key is recorded; on the way up the key
/// is released and, once no recorded key is down, Control is released too.
pub open spec fn shortcut_key_step(h: HookView, direction: KeyDirection, key_code: KeyCode) -> (
    HookView,
    Seq<SyntheticKey>,
) {
    let k = key_code as int;
    if direction == KeyDirection::Down {
        let record = key_code < h.shortcut_keys_down.len() && !h.shortcut_keys_down[k];
        let next = HookView {
            shortcut_keys_down: if record {
                h.shortcut_keys_down.update(k, true)
            } else {
                h.shortcut_keys_down
            },
            shortcut_key_count: if record && h.shortcut_key_count < u16::MAX {
                (h.shortcut_key_count + 1) as u16
            } else {
                h.shortcut_key_count
            },
            shortcut_modifier_down: true,
            ..h
        };
        let press = if h.shortcut_modifier_down {
            Seq::empty()
        } else {
            seq![key_event(SHORTCUT_MODIFIER_KEY, KeyDirection::Down)]
        };
        (next, press.push(key_event(key_code, KeyDirection::Down)))
    } else {
        let forget = is_shortcut_key(h, key_code);
        let count = if forget && h.shortcut_key_count > 0 {
            (h.shortcut_key_count - 1) as u16
        } else {
            h.shortcut_key_count
        };
        let release = count == 0 && h.shortcut_modifier_down;
        let next = HookView {
            shortcut_keys_down: if forget {
                h.shortcut_keys_down.update(k, false)
            } else {
                h.shortcut_keys_down
            },
            shortcut_key_count: count,
            shortcut_modifier_down: h.shortcut_modifier_down && !release,
            ..h
        };
        let events = seq![key_event(key_code, KeyDirection::Up)];
        (
            next,
            if release {
                events.push(key_event(SHORTCUT_MODIFIER_KEY, KeyDirection::Up))
            } else {
                events
            },
        )
    }
}

/// The hook's handling of one key event of its own keyboard: whether the
/// event is swallowed, the synthetic events sent in its place, and the next
/// state. Events the layer passes through are delivered, except the release
/// of a key still held as a shortcut key, which goes out as a shortcut key.
pub open spec fn handle_step(
    h: HookView,
    layer_key: KeyCode,
    direction: KeyDirection,
    key_code: KeyCode,
) -> (HookView, bool, Seq<SyntheticKey>) {
    let (layer, action) = layer_step(h.layer, layer_key, direction, key_code, 0);
    let h1 = HookView { layer, ..h };
    match action {
        Action::PassThrough => if is_shortcut_key(h1, key_code) {
            let (h2, events) = shortcut_key_step(h1, direction, key_code);
            (h2, true, events)
        } else {
            (h1, false, Seq::empty())
        },
        Action::Suppress => (h1, true, Seq::empty()),
        Action::RewriteArrow(arrow_key) => (h1, true, seq![key_event(arrow_key, direction)]),
        Action::PostLayerKeyAndSuppress(_) => (
            h1,
            true,
            if h.layer.platform.is_modifier_key(layer_key) {
                Seq::empty()
            } else {
                seq![
                    key_event(layer_key, KeyDirection::Down),
                    key_event(layer_key, KeyDirection::Up),
                ]
            },
        ),
        Action::AddShortcutModifier => {
            let (h2, events) = shortcut_key_step(h1, direction, key_code);
            (h2, true, events)
        },
    }
}

/// Sending a shortcut key keeps the hook in a reachable shape.
pub proof fn law_shortcut_key_step_preserves_wf(h: HookView, direction: KeyDirection, key_code: KeyCode)
    requires
        hook_wf(h),
    ensures
        hook_wf(shortcut_key_step(h, direction, key_code).0),
        shortcut_key_step(h, direction, key_code).0.layer == h.layer,
{
    lemma_count_true_bounds(h.shortcut_keys_down);
    if key_code < 256 {
        let k = key_code as int;
        lemma_count_true_update(h.shortcut_keys_down, k, direction == KeyDirection::Down);
    }
}

/// Handling an event keeps the hook in a reachable shape.
pub proof fn law_handle_step_preserves_wf(
    h: HookView,
    layer_key: KeyCode,
    direction: KeyDirection,
    key_code: KeyCode,
)
    requires
        hook_wf(h),
    ensures
        hook_wf(handle_step(h, layer_key, direction, key_code).0),
{
    crate::layer::law_layer_step_preserves_wf(h.layer, layer_key, direction, key_code, 0);
    let (layer, action) = layer_step(h.layer, layer_key, direction, key_code, 0);
    let h1 = HookView { layer, ..h };
    law_shortcut_key_step_preserves_wf(h1, direction, key_code);
}

/// The synthetic Control key is pressed only when it is not already down:
/// a shortcut key going down sends Control first exactly when it is up, and
/// then the key itself.
pub proof fn law_shortcut_press_sends_control_once(h: HookView, key_code: KeyCode)
    ensures
        ({
            let (next, events) = shortcut_key_step(h, KeyDirection::Down, key_code);
            &&& next.shortcut_modifier_down
            &&& events.last() == key_event(key_code, KeyDirection::Down)
            &&& events.len() == if h.shortcut_modifier_down {
                1nat
            } else {
                2nat
            }
            &&& !h.shortcut_modifier_down ==> events[0] == key_event(
                SHORTCUT_MODIFIER_KEY,
                KeyDirection::Down,
            )
        }),
{
}

/// After a shortcut key comes back up, the synthetic Control key is down
/// exactly while some shortcut key is still down; when the last one is
/// released, Control is released right after it.
pub proof fn law_control_released_with_last_shortcut_key(h: HookView, key_code: KeyCode)
    requires
        hook_wf(h),
    ensures
        ({
            let (next, events) = shortcut_key_step(h, KeyDirection::Up, key_code);
            &&& next.shortcut_modifier_down == (next.shortcut_key_count > 0)
            &&& events[0] == key_event(key_code, KeyDirection::Up)
            &&& (h.shortcut_modifier_down && next.shortcut_key_count == 0) ==> events == seq![
                key_event(key_code, KeyDirection::Up),
                key_event(SHORTCUT_MODIFIER_KEY, KeyDirection::Up),
            ]
        }),
{
    law_shortcut_key_step_preserves_wf(h, KeyDirection::Up, key_code);
}

/// What the hook procedure does with one event.
#[derive(Debug)]
pub enum HookResponse {
    /// Hand the event to the next hook (deliver it).
    CallNext,
    /// Swallow the event and send these events in its place, in order.
    Replace(Vec<SyntheticKey>),
}

impl HookState {
    pub fn new(platform: Platform) -> (h: Self)
        ensures
            h@.layer == crate::layer::idle_state(platform),
            h@.shortcut_keys_down == Seq::new(256, |i: int| false),
            h@.shortcut_key_count == 0,
            !h@.shortcut_modifier_down,
            hook_wf(h@),
    {
        let mut keys: Vec<bool> = Vec::new();
        let mut i: usize = 0;
        while i < 256
            invariant
                i <= 256,
                keys@ == Seq::new(i as nat, |j: int| false),
            decreases 256 - i,
        {
            keys.push(false);
            i = i + 1;
        }
        proof {
            lemma_count_true_all_false(256);
        }
        HookState {
            layer: LayerState::new(platform),
            shortcut_keys_down: keys,
            shortcut_key_count: 0,
            shortcut_modifier_down: false,
        }
    }

    pub fn is_shortcut_key_down(&self, key_code: KeyCode) -> (r: bool)
        ensures
            r == is_shortcut_key(self@, key_code),
    {
        let k = key_code as usize;
        if k < self.shortcut_keys_down.len() {
            self.shortcut_keys_down[k]
        } else {
            false
        }
    }

    /// Sends one key of a shortcut (see [`shortcut_key_step`]); returns the
    /// synthetic events to send, in order.
    pub fn send_shortcut_key(&mut self, direction: KeyDirection, key_code: KeyCode) -> (events: Vec<
        SyntheticKey,
    >)
        ensures
            (final(self)@, events@) == shortcut_key_step(old(self)@, direction, key_code),
    {
        let mut events: Vec<SyntheticKey> = Vec::new();
        let k = key_code as usize;
        match direction {
            KeyDirection::Down => {
                if !self.shortcut_modifier_down {
                    events.push(press_shortcut_modifier());
                    self.shortcut_modifier_down = true;
                }
                if k < self.shortcut_keys_down.len() && !self.shortcut_keys_down[k] {
                    self.shortcut_keys_down.set(k, true);
                    self.shortcut_key_count = self.shortcut_key_count.saturating_add(1);
                }
                events.push(SyntheticKey { key_code, direction: KeyDirection::Down });
            },
            KeyDirection::Up => {
                events.push(SyntheticKey { key_code, direction: KeyDirection::Up });
                if k < self.shortcut_keys_down.len() && self.shortcut_keys_down[k] {
                    self.shortcut_keys_down.set(k, false);
                    self.shortcut_key_count = self.shortcut_key_count.saturating_sub(1);
                }
                if self.shortcut_key_count == 0 && self.shortcut_modifier_down {
                    events.push(release_shortcut_modifier());
                    self.shortcut_modifier_down = false;
                }
            },
        }
        events
    }

    /// Releases the synthetic Control key if it is down and forgets every
    /// shortcut key; returns the events to send.
    pub fn release_shortcut_modifier_if_down(&mut self) -> (events: Vec<SyntheticKey>)
        ensures
            events@ == (if old(self)@.shortcut_modifier_down {
                seq![key_event(SHORTCUT_MODIFIER_KEY, KeyDirection::Up)]
            } else {
                Seq::empty()
            }),
            final(self)@.layer == old(self)@.layer,
            !final(self)@.shortcut_modifier_down,
            final(self)@.shortcut_key_count == 0,
            final(self)@.shortcut_keys_down == Seq::new(
                old(self)@.shortcut_keys_down.len(),
                |i: int| false,
            ),
    {
        let mut events: Vec<SyntheticKey> = Vec::new();
        if self.shortcut_modifier_down {
            events.push(release_shortcut_modifier());
            self.shortcut_modifier_down = false;
        }
        let n = self.shortcut_keys_down.len();
        let mut i: usize = 0;
        while i < n
            invariant
                n == self.shortcut_keys_down@.len(),
                i <= n,
                forall|j: int| 0 <= j < i ==> !self.shortcut_keys_down@[j],
                self.layer@ == old(self)@.layer,
                !self.shortcut_modifier_down,
            decreases n - i,
        {
            self.shortcut_keys_down.set(i, false);
            i = i + 1;
        }
        self.shortcut_key_count = 0;
        assert(self.shortcut_keys_down@ =~= Seq::new(n as nat, |i: int| false));
        events
    }
}

/// Handles one key event (see [`handle_step`]): whether to swallow it, and
/// the synthetic events to send.
pub fn handle_event(
    state: &mut HookState,
    layer_key: KeyCode,
    direction: KeyDirection,
    key_code: KeyCode,
) -> (r: (bool, Vec<SyntheticKey>))
    ensures
        (final(state)@, r.0, r.1@) == handle_step(old(state)@, layer_key, direction, key_code),
{
    let platform = state.layer.platform();
    let action = state.layer.on_key(layer_key, direction, key_code, 0);
    match action {
        Action::PassThrough => {
            if state.is_shortcut_key_down(key_code) {
                let events = state.send_shortcut_key(direction, key_code);
                (true, events)
            } else {
                (false, Vec::new())
            }
        },
        Action::Suppress => (true, Vec::new()),
        Action::RewriteArrow(arrow_key) => {
            let mut events = Vec::new();
            events.push(SyntheticKey { key_code: arrow_key, direction });
            (true, events)
        },
        Action::PostLayerKeyAndSuppress(_) => {
            if !is_modifier(platform, layer_key) {
                (true, post_key(layer_key))
            } else {
                (true, Vec::new())
            }
        },
        Action::AddShortcutModifier => {
            let events = state.send_shortcut_key(direction, key_code);
            (true, events)
        },
    }
}

/// Events the hook sent itself go to the next hook untouched and never reach
/// the layer machine.
pub proof fn law_synthetic_events_pass_through(
    h: HookView,
    layer_key: KeyCode,
    code: i32,
    message: u32,
    vk_code: u32,
)
    ensures
        hook_step(h, layer_key, code, message, vk_code, SYNTHETIC_EVENT_TAG) == (h, None::<Seq<SyntheticKey>>),
{
}

/// A modifier layer key tapped alone sends nothing: both its press and its
/// release are swallowed and no synthetic key replaces them.
pub proof fn law_modifier_layer_key_tap_sends_nothing(h: HookView, layer_key: KeyCode)
    requires
        hook_wf(h),
        !h.layer.layer_down,
        !is_tracked(h.layer, layer_key),
        h.layer.platform.is_modifier_key(layer_key),
    ensures
        ({
            let (pressed, first_swallowed, first) = handle_step(h, layer_key, KeyDirection::Down, layer_key);
            let (after, second_swallowed, second) = handle_step(pressed, layer_key, KeyDirection::Up, layer_key);
            &&& first_swallowed && first.len() == 0
            &&& second_swallowed && second.len() == 0
            &&& after == h
        }),
{
    crate::layer::law_tap_alone_replays_layer_key(h.layer, layer_key, 0, 0);
}

/// Tapping a layer key that is not a modifier alone types it: the press is
/// swallowed with nothing sent, the release is swallowed and a full press of
/// the layer key is sent in its place, and the hook is back where it
/// started.
pub proof fn law_layer_key_tap_types_it(h: HookView, layer_key: KeyCode)
    requires
        hook_wf(h),
        !h.layer.layer_down,
        !is_tracked(h.layer, layer_key),
        !h.layer.platform.is_modifier_key(layer_key),
    ensures
        ({
            let (pressed, first_swallowed, first) = handle_step(h, layer_key, KeyDirection::Down, layer_key);
            let (after, second_swallowed, second) = handle_step(pressed, layer_key, KeyDirection::Up, layer_key);
            &&& first_swallowed && first.len() == 0
            &&& second_swallowed
            &&& second == seq![
                key_event(layer_key, KeyDirection::Down),
                key_event(layer_key, KeyDirection::Up),
            ]
            &&& after == h
        }),
{
    crate::layer::law_tap_alone_replays_layer_key(h.layer, layer_key, 0, 0);
}

/// Holding the layer key, `h`/`j`/`k`/`l` are swallowed and the matching
/// arrow key is sent in their place; their release sends the arrow's release,
/// even if the layer key was released in between.
pub proof fn law_held_layer_sends_arrows(h: HookView, layer_key: KeyCode, key_code: KeyCode)
    requires
        h.layer.layer_down,
        key_code != layer_key,
        hjkl_to_arrow(h.layer.platform, key_code) is Some,
        !is_tracked(h.layer, key_code),
    ensures
        ({
            let arrow_key = hjkl_to_arrow(h.layer.platform, key_code)->0;
            let (pressed, swallowed, events) = handle_step(h, layer_key, KeyDirection::Down, key_code);
            &&& swallowed
            &&& events == seq![key_event(arrow_key, KeyDirection::Down)]
            &&& is_tracked(pressed.layer, key_code)
            &&& forall|later: HookView|
                #![trigger handle_step(later, layer_key, KeyDirection::Up, key_code)]
                later.layer.platform == h.layer.platform && is_tracked(later.layer, key_code) ==> {
                    let (released, up_swallowed, up_events) = handle_step(
                        later,
                        layer_key,
                        KeyDirection::Up,
                        key_code,
                    );
                    &&& up_swallowed
                    &&& up_events == seq![key_event(arrow_key, KeyDirection::Up)]
                    &&& !is_tracked(released.layer, key_code)
                }
        }),
{
    crate::layer::law_held_layer_maps_hjkl_to_arrows(h.layer, layer_key, key_code, 0);
    assert forall|later: HookView|
        #![trigger handle_step(later, layer_key, KeyDirection::Up, key_code)]
        later.layer.platform == h.layer.platform && is_tracked(later.layer, key_code) implies {
        let (released, up_swallowed, up_events) = handle_step(
            later,
            layer_key,
            KeyDirection::Up,
            key_code,
        );
        &&& up_swallowed
        &&& up_events == seq![key_event(hjkl_to_arrow(h.layer.platform, key_code)->0, KeyDirection::Up)]
        &&& !is_tracked(released.layer, key_code)
    } by {
        crate::layer::law_tracked_key_is_rewritten_until_released(
            later.layer,
            layer_key,
            KeyDirection::Up,
            key_code,
            key_code,
            0,
        );
    }
}

/// Holding the layer key, any other key is sent with Control held: its
/// press is swallowed and Control (unless it is already down) and then the
/// key are sent in its place; Control stays down.
pub proof fn law_held_layer_sends_control_chord(h: HookView, layer_key: KeyCode, key_code: KeyCode)
    requires
        hook_wf(h),
        h.layer.layer_down,
        key_code != layer_key,
        hjkl_to_arrow(h.layer.platform, key_code) is None,
    ensures
        ({
            let (next, swallowed, events) = handle_step(h, layer_key, KeyDirection::Down, key_code);
            &&& swallowed
            &&& next.shortcut_modifier_down
            &&& events == if h.shortcut_modifier_down {
                seq![key_event(key_code, KeyDirection::Down)]
            } else {
                seq![
                    key_event(SHORTCUT_MODIFIER_KEY, KeyDirection::Down),
                    key_event(key_code, KeyDirection::Down),
                ]
            }
        }),
{
    crate::layer::law_held_layer_adds_shortcut_modifier(h.layer, layer_key, KeyDirection::Down, key_code, 0);
    let (layer, action) = layer_step(h.layer, layer_key, KeyDirection::Down, key_code, 0);
    let h1 = HookView { layer, ..h };
    let (h2, events) = shortcut_key_step(h1, KeyDirection::Down, key_code);
    if h.shortcut_modifier_down {
        assert(events =~= seq![key_event(key_code, KeyDirection::Down)]);
    } else {
        assert(events =~= seq![
            key_event(SHORTCUT_MODIFIER_KEY, KeyDirection::Down),
            key_event(key_code, KeyDirection::Down),
        ]);
    }
}

/// Calls the hook has no business with go to the next hook untouched and
/// leave its state as it was: other hook codes, messages that are not key
/// presses or releases, and key codes out of range.
pub proof fn law_foreign_calls_go_to_the_next_hook(
    h: HookView,
    layer_key: KeyCode,
    code: i32,
    message: u32,
    vk_code: u32,
    extra_info: u64,
)
    requires
        code != HC_ACTION || direction_of_message(message) is None || vk_code > 0xFFFF,
    ensures
        hook_step(h, layer_key, code, message, vk_code, extra_info) == (h, None::<Seq<SyntheticKey>>),
{
}

/// Without the layer key held, an ordinary key event (not the layer key
/// going down, not an arrow or a shortcut key still being released) goes to
/// the next hook untouched: nothing is swallowed, nothing is sent, and the
/// hook's state does not change.
pub proof fn law_idle_events_call_next(
    h: HookView,
    layer_key: KeyCode,
    message: u32,
    vk_code: u32,
    extra_info: u64,
)
    requires
        !h.layer.layer_down,
        vk_code <= 0xFFFF,
        direction_of_message(message) is Some,
        !is_tracked(h.layer, vk_code as KeyCode),
        !is_shortcut_key(h, vk_code as KeyCode),
        !(direction_of_message(message) == Some(KeyDirection::Down) && vk_code as KeyCode == layer_key),
    ensures
        hook_step(h, layer_key, HC_ACTION, message, vk_code, extra_info) == (h, None::<Seq<SyntheticKey>>),
        handle_step(h, layer_key, direction_of_message(message)->0, vk_code as KeyCode) == (
            h,
            false,
            Seq::<SyntheticKey>::empty(),
        ),
{
    let direction = direction_of_message(message)->0;
    crate::layer::law_idle_events_pass_through(h.layer, layer_key, direction, vk_code as KeyCode, 0);
    assert(HookView { layer: h.layer, ..h } == h);
}

/// Holding the layer key before any shortcut was started, the release of
/// another non-`h`/`j`/`k`/`l` key that is not a shortcut key goes to the
/// next hook untouched.
pub proof fn law_held_layer_calls_next_for_other_releases(h: HookView, layer_key: KeyCode, key_code: KeyCode)
    requires
        h.layer.layer_down,
        !h.layer.command_layer_active,
        key_code != layer_key,
        hjkl_to_arrow(h.layer.platform, key_code) is None,
        !is_shortcut_key(h, key_code),
    ensures
        handle_step(h, layer_key, KeyDirection::Up, key_code) == (h, false, Seq::<SyntheticKey>::empty()),
{
    crate::layer::law_held_layer_passes_other_releases(h.layer, layer_key, key_code, 0);
    assert(HookView { layer: h.layer, ..h } == h);
}

/// The hook procedure's decision for one event: events of other hook codes,
/// our own synthetic events, non-keyboard messages and out-of-range key codes
/// go to the next hook; everything else goes through [`handle_step`].
pub open spec fn hook_step(
    h: HookView,
    layer_key: KeyCode,
    code: i32,
    message: u32,
    vk_code: u32,
    extra_info: u64,
) -> (HookView, Option<Seq<SyntheticKey>>) {
    if code != HC_ACTION || extra_info == SYNTHETIC_EVENT_TAG || vk_code > 0xFFFF {
        (h, None)
    } else {
        match direction_of_message(message) {
            None => (h, None),
            Some(direction) => {
                let (next, suppress, events) = handle_step(h, layer_key, direction, vk_code as KeyCode);
                (next, if suppress {
                    Some(events)
                } else {
                    None
                })
            },
        }
    }
}

/// Whatever the hook procedure is called with, the hook stays in a
/// reachable shape.
pub proof fn law_hook_step_preserves_wf(
    h: HookView,
    layer_key: KeyCode,
    code: i32,
    message: u32,
    vk_code: u32,
    extra_info: u64,
)
    requires
        hook_wf(h),
    ensures
        hook_wf(hook_step(h, layer_key, code, message, vk_code, extra_info).0),
{
    if let Some(direction) = direction_of_message(message) {
        if vk_code <= 0xFFFF {
            law_handle_step_preserves_wf(h, layer_key, direction, vk_code as KeyCode);
        }
    }
}

pub fn hook_response(
    state: &mut HookState,
    layer_key: KeyCode,
    code: i32,
    message: u32,
    vk_code: u32,
    extra_info: u64,
) -> (r: HookResponse)
    ensures
        ({
            let (next, replaced) = hook_step(old(state)@, layer_key, code, message, vk_code, extra_info);
            &&& final(state)@ == next
            &&& match r {
                HookResponse::CallNext => replaced is None,
                HookResponse::Replace(events) => replaced == Some(events@),
            }
        }),
{
    if code != HC_ACTION {
        return HookResponse::CallNext;
    }
    if extra_info == SYNTHETIC_EVENT_TAG {
        return HookResponse::CallNext;
    }
    let direction = match message_direction(message) {
        Some(d) => d,
        None => {
            return HookResponse::CallNext;
        },
    };
    if vk_code > 0xFFFF {
        return HookResponse::CallNext;
    }
    let (suppress, events) = handle_event(state, layer_key, direction, vk_code as KeyCode);
    if suppress {
        HookResponse::Replace(events)
    } else {
        HookResponse::CallNext
    }
}

} // verus!
