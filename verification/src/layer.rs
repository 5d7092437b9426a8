//! The layer state machine.
//!
//! Tapping the layer key alone replays it on key-up; holding it turns
//! `h`/`j`/`k`/`l` into arrow keys and adds the platform shortcut modifier to
//! any other key. A key that went down as an arrow keeps being rewritten until
//! it comes back up, even if the layer key is released first.

use vstd::prelude::*;
use crate::keys::{EventFlags, KeyCode, Platform};
use crate::keymap::{hjkl_key_bit, hjkl_to_arrow, valid_layer_key};

verus! {

#[derive(Clone, Copy, Debug, PartialEq, Eq, Structural)]
pub enum KeyDirection {
    Down,
    Up,
}

/// What the platform adapter should do with the current keyboard event.
#[derive(Clone, Copy, Debug, PartialEq, Eq, Structural)]
pub enum Action {
    /// Deliver the event unchanged.
    PassThrough,
    /// Swallow the event.
    Suppress,
    /// Rewrite the event as the given arrow key, then deliver it.
    RewriteArrow(KeyCode),
    /// Post a synthetic press of the layer key with the captured modifier
    /// flags, and swallow the intercepted event.
    PostLayerKeyAndSuppress(EventFlags),
    /// Add the platform shortcut modifier to the event, then deliver it.
    AddShortcutModifier,
}

/// The state of the layer machine, as specifications see it.
pub struct LayerView {
    pub platform: Platform,
    /// The layer key is currently held.
    pub layer_down: bool,
    /// Another key was pressed while the layer key was held, so the layer key
    /// is not replayed on release.
    pub used_as_layer: bool,
    /// A non-h/j/k/l key was pressed while the layer key was held, so further
    /// events get the shortcut modifier.
    pub command_layer_active: bool,
    /// Modifier flags held when the layer key went down.
    pub layer_flags: EventFlags,
    /// One bit per h/j/k/l key that went down as an arrow and has not come
    /// back up yet.
    pub mapped_keys_down: u8,
}

/// The layer state of one keyboard.
#[derive(Clone, Copy, Debug)]
pub struct LayerState {
    platform: Platform,
    layer_down: bool,
    used_as_layer: bool,
    command_layer_active: bool,
    layer_flags: EventFlags,
    mapped_keys_down: u8,
}

impl View for LayerState {
    type V = LayerView;

    closed spec fn view(&self) -> LayerView {
        LayerView {
            platform: self.platform,
            layer_down: self.layer_down,
            used_as_layer: self.used_as_layer,
            command_layer_active: self.command_layer_active,
            layer_flags: self.layer_flags,
            mapped_keys_down: self.mapped_keys_down,
        }
    }
}

/// The state in which no key is held.
pub open spec fn idle_state(platform: Platform) -> LayerView {
    LayerView {
        platform,
        layer_down: false,
        used_as_layer: false,
        command_layer_active: false,
        layer_flags: 0,
        mapped_keys_down: 0,
    }
}

/// `s` with the layer released: everything but the tracked arrow keys reset.
pub open spec fn released(s: LayerView) -> LayerView {
    LayerView {
        layer_down: false,
        used_as_layer: false,
        command_layer_active: false,
        layer_flags: 0,
        ..s
    }
}

/// The key went down while the layer was held and was rewritten as an arrow;
/// it has not come back up yet.
pub open spec fn is_tracked(s: LayerView, key_code: KeyCode) -> bool {
    match hjkl_key_bit(s.platform, key_code) {
        Some(bit) => s.mapped_keys_down & bit != 0,
        None => false,
    }
}

/// The states the machine can reach from [`idle_state`].
pub open spec fn layer_wf(s: LayerView) -> bool {
    &&& s.mapped_keys_down < 16
    &&& !s.layer_down ==> !s.used_as_layer && !s.command_layer_active && s.layer_flags == 0
    &&& s.command_layer_active ==> s.used_as_layer
}

/// One step of the layer machine: the next state and the action for an event
/// `direction`/`key_code` with modifier `flags`, given the layer key.
pub open spec fn layer_step(
    s: LayerView,
    layer_key: KeyCode,
    direction: KeyDirection,
    key_code: KeyCode,
    flags: EventFlags,
) -> (LayerView, Action) {
    let platform = s.platform;
    if is_tracked(s, key_code) {
        // A key that went down as an arrow stays an arrow until it is up.
        let bit = hjkl_key_bit(platform, key_code)->0;
        let next = if direction == KeyDirection::Up {
            LayerView { mapped_keys_down: s.mapped_keys_down & !bit, ..s }
        } else {
            s
        };
        (next, Action::RewriteArrow(hjkl_to_arrow(platform, key_code)->0))
    } else if direction == KeyDirection::Down && key_code == layer_key {
        // The layer key is held back until key-up; a repeat keeps the flags of
        // the first press.
        let next = if !s.layer_down {
            LayerView { layer_down: true, used_as_layer: false, layer_flags: flags, ..s }
        } else {
            s
        };
        (next, Action::Suppress)
    } else if direction == KeyDirection::Up && key_code == layer_key && s.layer_down {
        (
            released(s),
            if !s.used_as_layer {
                Action::PostLayerKeyAndSuppress(s.layer_flags)
            } else {
                Action::Suppress
            },
        )
    } else if s.layer_down {
        match hjkl_to_arrow(platform, key_code) {
            Some(arrow) => if direction == KeyDirection::Down {
                (
                    LayerView {
                        used_as_layer: true,
                        mapped_keys_down: s.mapped_keys_down | hjkl_key_bit(platform, key_code)->0,
                        ..s
                    },
                    Action::RewriteArrow(arrow),
                )
            } else {
                (s, Action::PassThrough)
            },
            None => {
                let next = if direction == KeyDirection::Down {
                    LayerView { used_as_layer: true, command_layer_active: true, ..s }
                } else {
                    s
                };
                (
                    next,
                    if next.command_layer_active {
                        Action::AddShortcutModifier
                    } else {
                        Action::PassThrough
                    },
                )
            },
        }
    } else {
        (s, Action::PassThrough)
    }
}

// ---------------------------------------------------------------------------
// Laws of the layer machine
// ---------------------------------------------------------------------------

proof fn lemma_key_bits(m: u8, b: u8, c: u8)
    by (bit_vector)
    requires
        b == 1 || b == 2 || b == 4 || b == 8,
        c == 1 || c == 2 || c == 4 || c == 8,
    ensures
        (m | b) & b != 0,
        (m & !b) & b == 0,
        b != c ==> (((m | b) & c != 0) == (m & c != 0)),
        b != c ==> (((m & !b) & c != 0) == (m & c != 0)),
        m < 16 ==> (m | b) < 16,
        m < 16 ==> (m & !b) < 16,
{
}

proof fn lemma_hjkl_bits(platform: Platform, k1: KeyCode, k2: KeyCode)
    ensures
        hjkl_key_bit(platform, k1) is Some <==> hjkl_to_arrow(platform, k1) is Some,
        hjkl_key_bit(platform, k1) matches Some(b) ==> (b == 1 || b == 2 || b == 4 || b == 8),
        k1 != k2 && hjkl_key_bit(platform, k1) is Some && hjkl_key_bit(platform, k2) is Some
            ==> hjkl_key_bit(platform, k1)->0 != hjkl_key_bit(platform, k2)->0,
{
}

/// Every step keeps the machine in a reachable shape: only h/j/k/l bits are
/// tracked, and with the layer key up nothing about the layer is remembered.
pub proof fn law_layer_step_preserves_wf(
    s: LayerView,
    layer_key: KeyCode,
    direction: KeyDirection,
    key_code: KeyCode,
    flags: EventFlags,
)
    requires
        layer_wf(s),
    ensures
        layer_wf(layer_step(s, layer_key, direction, key_code, flags).0),
{
    lemma_hjkl_bits(s.platform, key_code, key_code);
    if let Some(b) = hjkl_key_bit(s.platform, key_code) {
        lemma_key_bits(s.mapped_keys_down, b, b);
    }
}

/// The idle state is well formed.
pub proof fn law_idle_state_wf(platform: Platform)
    ensures
        layer_wf(idle_state(platform)),
{
}

/// A valid layer key is never one of h/j/k/l, so it is never tracked as an
/// arrow.
pub proof fn law_valid_layer_key_is_never_tracked(s: LayerView, layer_key: KeyCode)
    requires
        valid_layer_key(s.platform, layer_key),
    ensures
        !is_tracked(s, layer_key),
{
}

/// Tapping the layer key alone: the press is swallowed, and the release
/// replays the layer key with the modifier flags held at press time. The
/// machine is back where it started.
pub proof fn law_tap_alone_replays_layer_key(
    s: LayerView,
    layer_key: KeyCode,
    press_flags: EventFlags,
    release_flags: EventFlags,
)
    requires
        layer_wf(s),
        !s.layer_down,
        !is_tracked(s, layer_key),
    ensures
        ({
            let (pressed, first) = layer_step(s, layer_key, KeyDirection::Down, layer_key, press_flags);
            let (after, second) = layer_step(pressed, layer_key, KeyDirection::Up, layer_key, release_flags);
            &&& first == Action::Suppress
            &&& pressed.layer_down
            &&& second == Action::PostLayerKeyAndSuppress(press_flags)
            &&& after == s
        }),
{
}

/// While the layer key is held, repeated layer-key presses (auto-repeat) are
/// swallowed and change nothing, so the flags of the first press are kept.
pub proof fn law_layer_repeat_is_swallowed(s: LayerView, layer_key: KeyCode, flags: EventFlags)
    requires
        s.layer_down,
        !is_tracked(s, layer_key),
    ensures
        layer_step(s, layer_key, KeyDirection::Down, layer_key, flags) == (s, Action::Suppress),
{
}

/// Releasing the held layer key resets the layer; the layer key is replayed
/// (with its press-time flags) exactly when no other key was used with it.
pub proof fn law_layer_release(s: LayerView, layer_key: KeyCode, flags: EventFlags)
    requires
        s.layer_down,
        !is_tracked(s, layer_key),
    ensures
        layer_step(s, layer_key, KeyDirection::Up, layer_key, flags) == (
            released(s),
            if s.used_as_layer {
                Action::Suppress
            } else {
                Action::PostLayerKeyAndSuppress(s.layer_flags)
            },
        ),
        !released(s).layer_down,
        !released(s).used_as_layer,
        !released(s).command_layer_active,
        released(s).mapped_keys_down == s.mapped_keys_down,
{
}

/// Holding the layer key, `h`/`j`/`k`/`l` go down as the matching arrow key,
/// mark the layer as used, and are tracked until they come back up.
pub proof fn law_held_layer_maps_hjkl_to_arrows(
    s: LayerView,
    layer_key: KeyCode,
    key_code: KeyCode,
    flags: EventFlags,
)
    requires
        s.layer_down,
        key_code != layer_key,
        hjkl_to_arrow(s.platform, key_code) is Some,
        !is_tracked(s, key_code),
    ensures
        ({
            let (next, action) = layer_step(s, layer_key, KeyDirection::Down, key_code, flags);
            &&& action == Action::RewriteArrow(hjkl_to_arrow(s.platform, key_code)->0)
            &&& next.used_as_layer
            &&& next.layer_down
            &&& is_tracked(next, key_code)
        }),
{
    lemma_hjkl_bits(s.platform, key_code, key_code);
    lemma_key_bits(s.mapped_keys_down, hjkl_key_bit(s.platform, key_code)->0, 1);
}

/// A tracked key is rewritten as its arrow on every event for it; its key-up
/// stops the tracking and leaves every other key as it was. So an arrow that
/// went down always comes back up, whatever happened to the layer key.
pub proof fn law_tracked_key_is_rewritten_until_released(
    s: LayerView,
    layer_key: KeyCode,
    direction: KeyDirection,
    key_code: KeyCode,
    other: KeyCode,
    flags: EventFlags,
)
    requires
        is_tracked(s, key_code),
    ensures
        ({
            let (next, action) = layer_step(s, layer_key, direction, key_code, flags);
            &&& action == Action::RewriteArrow(hjkl_to_arrow(s.platform, key_code)->0)
            &&& (direction == KeyDirection::Up <==> !is_tracked(next, key_code))
            &&& other != key_code ==> (is_tracked(next, other) == is_tracked(s, other))
            &&& next.layer_down == s.layer_down
            &&& next.used_as_layer == s.used_as_layer
            &&& next.command_layer_active == s.command_layer_active
        }),
{
    let b = hjkl_key_bit(s.platform, key_code)->0;
    lemma_hjkl_bits(s.platform, key_code, other);
    if let Some(c) = hjkl_key_bit(s.platform, other) {
        lemma_key_bits(s.mapped_keys_down, b, c);
    } else {
        lemma_key_bits(s.mapped_keys_down, b, b);
    }
}

/// Tracking of a key survives every event other than that key's key-up.
pub proof fn law_tracking_survives_other_events(
    s: LayerView,
    layer_key: KeyCode,
    direction: KeyDirection,
    key_code: KeyCode,
    flags: EventFlags,
    held_key: KeyCode,
)
    requires
        is_tracked(s, held_key),
        !(direction == KeyDirection::Up && key_code == held_key),
    ensures
        is_tracked(layer_step(s, layer_key, direction, key_code, flags).0, held_key),
{
    let c = hjkl_key_bit(s.platform, held_key)->0;
    lemma_hjkl_bits(s.platform, key_code, held_key);
    if let Some(b) = hjkl_key_bit(s.platform, key_code) {
        lemma_key_bits(s.mapped_keys_down, b, c);
    }
}

/// Holding the layer key, any other key gets the platform shortcut modifier:
/// its press marks the layer as a command layer, and while that lasts its
/// release gets the modifier too.
pub proof fn law_held_layer_adds_shortcut_modifier(
    s: LayerView,
    layer_key: KeyCode,
    direction: KeyDirection,
    key_code: KeyCode,
    flags: EventFlags,
)
    requires
        layer_wf(s),
        s.layer_down,
        key_code != layer_key,
        hjkl_to_arrow(s.platform, key_code) is None,
        direction == KeyDirection::Down || s.command_layer_active,
    ensures
        ({
            let (next, action) = layer_step(s, layer_key, direction, key_code, flags);
            &&& action == Action::AddShortcutModifier
            &&& next.command_layer_active
            &&& next.used_as_layer
            &&& next.layer_down
        }),
{
    lemma_hjkl_bits(s.platform, key_code, key_code);
}

/// Holding the layer key before any shortcut was started, the release of
/// any other key that is not `h`/`j`/`k`/`l` (a modifier let go, a key
/// rolled over) is delivered unchanged and changes nothing, so no key stays
/// held down in the system.
pub proof fn law_held_layer_passes_other_releases(
    s: LayerView,
    layer_key: KeyCode,
    key_code: KeyCode,
    flags: EventFlags,
)
    requires
        s.layer_down,
        !s.command_layer_active,
        key_code != layer_key,
        hjkl_to_arrow(s.platform, key_code) is None,
    ensures
        layer_step(s, layer_key, KeyDirection::Up, key_code, flags) == (s, Action::PassThrough),
{
    lemma_hjkl_bits(s.platform, key_code, key_code);
}

/// Without the layer key held, every event other than a layer-key press
/// passes through unchanged (an untracked key, or a stray layer-key release).
pub proof fn law_idle_events_pass_through(
    s: LayerView,
    layer_key: KeyCode,
    direction: KeyDirection,
    key_code: KeyCode,
    flags: EventFlags,
)
    requires
        !s.layer_down,
        !is_tracked(s, key_code),
        !(direction == KeyDirection::Down && key_code == layer_key),
    ensures
        layer_step(s, layer_key, direction, key_code, flags) == (s, Action::PassThrough),
{
}

// ---------------------------------------------------------------------------
// Laws over runs of events
// ---------------------------------------------------------------------------

/// Runs the layer machine over `events`, each given as the layer key in
/// force, the direction, the key and the modifier flags: the final state and
/// the action for each event, in order.
pub open spec fn run_events(s: LayerView, events: Seq<(KeyCode, KeyDirection, KeyCode, EventFlags)>) -> (
    LayerView,
    Seq<Action>,
)
    decreases events.len(),
{
    if events.len() == 0 {
        (s, Seq::empty())
    } else {
        let (mid, actions) = run_events(s, events.drop_last());
        let e = events.last();
        let (next, action) = layer_step(mid, e.0, e.1, e.2, e.3);
        (next, actions.push(action))
    }
}

proof fn lemma_run_events_shape(s: LayerView, events: Seq<(KeyCode, KeyDirection, KeyCode, EventFlags)>)
    ensures
        run_events(s, events).1.len() == events.len(),
        run_events(s, events).0.platform == s.platform,
    decreases events.len(),
{
    if events.len() > 0 {
        lemma_run_events_shape(s, events.drop_last());
    }
}

proof fn lemma_tracking_bits(m: u8, b: u8)
    by (bit_vector)
    requires
        b == 1 || b == 2 || b == 4 || b == 8,
    ensures
        0u8 & b == 0,
        m & b != 0 ==> m != 0,
        (m | b) != 0,
{
}

/// Until some layer key goes down, nothing is swallowed or rewritten: from
/// the idle state every event passes through and the machine stays idle.
pub proof fn law_no_layer_press_passes_everything(
    platform: Platform,
    events: Seq<(KeyCode, KeyDirection, KeyCode, EventFlags)>,
)
    requires
        forall|i: int|
            0 <= i < events.len() ==> !(#[trigger] events[i].1 == KeyDirection::Down && events[i].2
                == events[i].0),
    ensures
        run_events(idle_state(platform), events) == (
            idle_state(platform),
            Seq::new(events.len(), |i: int| Action::PassThrough),
        ),
    decreases events.len(),
{
    if events.len() > 0 {
        let init = events.drop_last();
        assert forall|i: int| 0 <= i < init.len() implies !(#[trigger] init[i].1 == KeyDirection::Down
            && init[i].2 == init[i].0) by {
            assert(init[i] == events[i]);
        }
        law_no_layer_press_passes_everything(platform, init);
        let e = events.last();
        assert(!(e.1 == KeyDirection::Down && e.2 == e.0)) by {
            assert(e == events[events.len() - 1]);
        }
        if let Some(b) = hjkl_key_bit(platform, e.2) {
            lemma_hjkl_bits(platform, e.2, e.2);
            lemma_tracking_bits(0, b);
        }
        law_idle_events_pass_through(idle_state(platform), e.0, e.1, e.2, e.3);
        assert(Seq::new(init.len(), |i: int| Action::PassThrough).push(Action::PassThrough)
            =~= Seq::new(events.len(), |i: int| Action::PassThrough));
    }
}

/// No arrow is left stuck: once `h`/`j`/`k`/`l` went down as an arrow, every
/// further event for that key until its release (auto-repeat) is the same
/// arrow, whatever else happens to the layer, and its release is the
/// arrow's release.
pub proof fn law_rewritten_arrow_is_released(
    s: LayerView,
    events: Seq<(KeyCode, KeyDirection, KeyCode, EventFlags)>,
    key_code: KeyCode,
    layer_key: KeyCode,
    flags: EventFlags,
)
    requires
        is_tracked(s, key_code),
        forall|i: int|
            0 <= i < events.len() ==> !(#[trigger] events[i].1 == KeyDirection::Up && events[i].2
                == key_code),
    ensures
        ({
            let arrow = Action::RewriteArrow(hjkl_to_arrow(s.platform, key_code)->0);
            let (end, actions) = run_events(s, events);
            let (released, last) = layer_step(end, layer_key, KeyDirection::Up, key_code, flags);
            &&& actions.len() == events.len()
            &&& is_tracked(end, key_code)
            &&& forall|i: int| 0 <= i < events.len() && #[trigger] events[i].2 == key_code ==> actions[i] == arrow
            &&& last == arrow
            &&& !is_tracked(released, key_code)
        }),
    decreases events.len(),
{
    lemma_run_events_shape(s, events);
    if events.len() > 0 {
        let init = events.drop_last();
        assert forall|i: int| 0 <= i < init.len() implies !(#[trigger] init[i].1 == KeyDirection::Up
            && init[i].2 == key_code) by {
            assert(init[i] == events[i]);
        }
        law_rewritten_arrow_is_released(s, init, key_code, layer_key, flags);
        let (mid, prev) = run_events(s, init);
        let e = events.last();
        assert(e == events[events.len() - 1]);
        lemma_run_events_shape(s, init);
        law_tracking_survives_other_events(mid, e.0, e.1, e.2, e.3, key_code);
        if e.2 == key_code {
            law_tracked_key_is_rewritten_until_released(mid, e.0, e.1, key_code, key_code, e.3);
        }
        let (end, actions) = run_events(s, events);
        assert forall|i: int| 0 <= i < events.len() && #[trigger] events[i].2 == key_code implies actions[i]
            == Action::RewriteArrow(hjkl_to_arrow(s.platform, key_code)->0) by {
            if i < init.len() {
                assert(init[i] == events[i]);
                assert(actions[i] == prev[i]);
            }
        }
        law_tracked_key_is_rewritten_until_released(end, layer_key, KeyDirection::Up, key_code, key_code, flags);
    } else {
        law_tracked_key_is_rewritten_until_released(s, layer_key, KeyDirection::Up, key_code, key_code, flags);
    }
}

/// While the layer key is held and other keys come and go, the layer stays
/// held with its press-time flags, and it counts as used exactly once some
/// other key went down.
proof fn lemma_held_layer_run(
    s: LayerView,
    layer_key: KeyCode,
    held: Seq<(KeyCode, KeyDirection, KeyCode, EventFlags)>,
)
    requires
        s.layer_down,
        hjkl_key_bit(s.platform, layer_key) is None,
        s.mapped_keys_down != 0 ==> s.used_as_layer,
        forall|i: int| 0 <= i < held.len() ==> (#[trigger] held[i]).0 == layer_key && held[i].2 != layer_key,
    ensures
        ({
            let end = run_events(s, held).0;
            &&& end.layer_down
            &&& end.layer_flags == s.layer_flags
            &&& end.platform == s.platform
            &&& end.used_as_layer == (s.used_as_layer || exists|i: int|
                0 <= i < held.len() && (#[trigger] held[i]).1 == KeyDirection::Down)
            &&& end.mapped_keys_down != 0 ==> end.used_as_layer
        }),
    decreases held.len(),
{
    if held.len() > 0 {
        let init = held.drop_last();
        assert forall|i: int| 0 <= i < init.len() implies (#[trigger] init[i]).0 == layer_key && init[i].2
            != layer_key by {
            assert(init[i] == held[i]);
        }
        lemma_held_layer_run(s, layer_key, init);
        let mid = run_events(s, init).0;
        let e = held.last();
        assert(e == held[held.len() - 1]);
        let platform = s.platform;
        lemma_hjkl_bits(platform, e.2, e.2);
        if let Some(b) = hjkl_key_bit(platform, e.2) {
            lemma_tracking_bits(mid.mapped_keys_down, b);
            lemma_key_bits(mid.mapped_keys_down, b, b);
        }
        let any_before = exists|i: int| 0 <= i < init.len() && (#[trigger] init[i]).1 == KeyDirection::Down;
        let any_now = exists|i: int| 0 <= i < held.len() && (#[trigger] held[i]).1 == KeyDirection::Down;
        if any_before {
            let w = choose|i: int| 0 <= i < init.len() && (#[trigger] init[i]).1 == KeyDirection::Down;
            assert(held[w] == init[w]);
        }
        if any_now {
            let w = choose|i: int| 0 <= i < held.len() && (#[trigger] held[i]).1 == KeyDirection::Down;
            if w < init.len() {
                assert(held[w] == init[w]);
            }
        }
        assert(any_now == (any_before || e.1 == KeyDirection::Down));
    }
}

/// A layer key used together with another key is never typed: press it
/// (swallowed), let other keys go down and up, release it. The release
/// replays the layer key with its press-time flags only when no other key
/// went down in between; otherwise it is swallowed too. Either way the layer
/// is released.
pub proof fn law_used_layer_key_is_not_replayed(
    s: LayerView,
    layer_key: KeyCode,
    press_flags: EventFlags,
    held: Seq<(KeyCode, KeyDirection, KeyCode, EventFlags)>,
    release_flags: EventFlags,
)
    requires
        !s.layer_down,
        s.mapped_keys_down == 0,
        hjkl_key_bit(s.platform, layer_key) is None,
        forall|i: int| 0 <= i < held.len() ==> (#[trigger] held[i]).0 == layer_key && held[i].2 != layer_key,
    ensures
        ({
            let (pressed, first) = layer_step(s, layer_key, KeyDirection::Down, layer_key, press_flags);
            let during = run_events(pressed, held).0;
            let (after, last) = layer_step(during, layer_key, KeyDirection::Up, layer_key, release_flags);
            &&& first == Action::Suppress
            &&& last == if exists|i: int| 0 <= i < held.len() && (#[trigger] held[i]).1 == KeyDirection::Down {
                Action::Suppress
            } else {
                Action::PostLayerKeyAndSuppress(press_flags)
            }
            &&& !after.layer_down
        }),
{
    let (pressed, first) = layer_step(s, layer_key, KeyDirection::Down, layer_key, press_flags);
    lemma_held_layer_run(pressed, layer_key, held);
}

impl LayerState {
    /// The idle layer state for `platform`.
    pub fn new(platform: Platform) -> (s: Self)
        ensures
            s@ == idle_state(platform),
    {
        LayerState {
            platform,
            layer_down: false,
            used_as_layer: false,
            command_layer_active: false,
            layer_flags: 0,
            mapped_keys_down: 0,
        }
    }

    pub fn platform(&self) -> (p: Platform)
        ensures
            p == self@.platform,
    {
        self.platform
    }

    /// Releases the layer: everything but the tracked arrow keys is reset.
    pub fn clear_layer(&mut self)
        ensures
            final(self)@ == released(old(self)@),
    {
        self.layer_down = false;
        self.used_as_layer = false;
        self.command_layer_active = false;
        self.layer_flags = 0;
    }

    /// Advance the state machine by one keyboard event and return the action
    /// to perform. `layer_key` is the configured "super" key. `flags` are the
    /// event's modifier flags; they are only consulted when the layer key goes
    /// down, so the delayed layer key can be replayed with the modifiers that
    /// were held at press time.
    pub fn on_key(
        &mut self,
        layer_key: KeyCode,
        direction: KeyDirection,
        key_code: KeyCode,
        flags: EventFlags,
    ) -> (action: Action)
        ensures
            (final(self)@, action) == layer_step(old(self)@, layer_key, direction, key_code, flags),
    {
        let platform = self.platform;
        if let Some(key_bit) = hjkl_key_bit(platform, key_code) {
            if self.mapped_keys_down & key_bit != 0 {
                if direction == KeyDirection::Up {
                    self.mapped_keys_down = self.mapped_keys_down & !key_bit;
                }
                if let Some(arrow_key) = hjkl_to_arrow(platform, key_code) {
                    return Action::RewriteArrow(arrow_key);
                }
            }
        }
        if direction == KeyDirection::Down && key_code == layer_key {
            if !self.layer_down {
                self.layer_down = true;
                self.used_as_layer = false;
                self.layer_flags = flags;
            }
            Action::Suppress
        } else if direction == KeyDirection::Up && key_code == layer_key && self.layer_down {
            let should_post_layer_key = !self.used_as_layer;
            let layer_flags = self.layer_flags;
            self.clear_layer();
            if should_post_layer_key {
                Action::PostLayerKeyAndSuppress(layer_flags)
            } else {
                Action::Suppress
            }
        } else if self.layer_down {
            if let Some(arrow_key) = hjkl_to_arrow(platform, key_code) {
                if direction == KeyDirection::Down {
                    self.used_as_layer = true;
                    if let Some(key_bit) = hjkl_key_bit(platform, key_code) {
                        self.mapped_keys_down = self.mapped_keys_down | key_bit;
                    }
                    Action::RewriteArrow(arrow_key)
                } else {
                    Action::PassThrough
                }
            } else {
                // The layer key acts as a command-like modifier with any other
                // key: the platform shortcut modifier is added to non-hjkl
                // events while the layer is held.
                if direction == KeyDirection::Down {
                    self.used_as_layer = true;
                    self.command_layer_active = true;
                }
                if self.command_layer_active {
                    Action::AddShortcutModifier
                } else {
                    Action::PassThrough
                }
            }
        } else {
            Action::PassThrough
        }
    }
}

} // verus!
