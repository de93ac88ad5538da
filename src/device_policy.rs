//! The per-session device policy, evaluated on every event before it is
//! forwarded to the host device.

use vstd::prelude::*;
use crate::config::DevicePolicy;
use crate::input_event::InputEvent;

verus! {

pub const EV_SYN: u16 = 0x00;
pub const EV_KEY: u16 = 0x01;
pub const EV_REL: u16 = 0x02;
pub const EV_ABS: u16 = 0x03;
pub const EV_MSC: u16 = 0x04;
pub const EV_FF: u16 = 0x15;

pub const SYN_REPORT: u16 = 0;

pub const KEY_LEFTCTRL: u16 = 29;
pub const KEY_LEFTALT: u16 = 56;
pub const KEY_SPACE: u16 = 57;
pub const KEY_F1: u16 = 59;
pub const KEY_F10: u16 = 68;
pub const KEY_KPDOT: u16 = 83;
pub const KEY_F11: u16 = 87;
pub const KEY_F12: u16 = 88;
pub const KEY_RIGHTCTRL: u16 = 97;
pub const KEY_SYSRQ: u16 = 99;
pub const KEY_RIGHTALT: u16 = 100;
pub const KEY_DELETE: u16 = 111;
pub const KEY_POWER: u16 = 116;
pub const KEY_SLEEP: u16 = 142;
pub const KEY_WAKEUP: u16 = 143;

/// First gamepad button range: `[BTN_SOUTH, BTN_THUMBR)`.
pub const BTN_SOUTH: u16 = 0x130;
pub const BTN_THUMBR: u16 = 0x13e;

/// Second gamepad button range: `[BTN_DPAD_UP, BTN_GRIPR2)`.
pub const BTN_DPAD_UP: u16 = 0x220;
pub const BTN_GRIPR2: u16 = 0x227;

/// Press state of the modifier keys, per session.
#[derive(Clone, Copy, Debug, PartialEq, Eq, Structural)]
pub struct KeyTracker {
    pub left_alt_down: bool,
    pub right_alt_down: bool,
    pub left_ctrl_down: bool,
    pub right_ctrl_down: bool,
}

impl KeyTracker {
    /// No modifier pressed.
    pub fn new() -> (r: KeyTracker)
        ensures
            !r.left_alt_down && !r.right_alt_down && !r.left_ctrl_down && !r.right_ctrl_down,
    {
        KeyTracker {
            left_alt_down: false,
            right_alt_down: false,
            left_ctrl_down: false,
            right_ctrl_down: false,
        }
    }
}

/// The modifier state after `e`: a key event on a modifier sets its state to
/// "value > 0"; other events leave the state alone.
pub open spec fn tracker_after(kt: KeyTracker, e: InputEvent) -> KeyTracker {
    if e.type_ != EV_KEY {
        kt
    } else if e.code == KEY_LEFTALT {
        KeyTracker { left_alt_down: e.value > 0, ..kt }
    } else if e.code == KEY_RIGHTALT {
        KeyTracker { right_alt_down: e.value > 0, ..kt }
    } else if e.code == KEY_LEFTCTRL {
        KeyTracker { left_ctrl_down: e.value > 0, ..kt }
    } else if e.code == KEY_RIGHTCTRL {
        KeyTracker { right_ctrl_down: e.value > 0, ..kt }
    } else {
        kt
    }
}

pub open spec fn alt_down(kt: KeyTracker) -> bool {
    kt.left_alt_down || kt.right_alt_down
}

pub open spec fn ctrl_down(kt: KeyTracker) -> bool {
    kt.left_ctrl_down || kt.right_ctrl_down
}

/// Whether `code` is a gamepad button.
pub open spec fn is_gamepad_button(code: u16) -> bool {
    (BTN_SOUTH <= code < BTN_THUMBR) || (BTN_DPAD_UP <= code < BTN_GRIPR2)
}

/// Whether the sanitized policy lets `e` through, `kt` being the modifier
/// state after `e`.
pub open spec fn sanitized_allows(kt: KeyTracker, e: InputEvent) -> bool {
    if e.type_ != EV_KEY {
        true
    } else if e.code == KEY_SYSRQ {
        false
    } else if alt_down(kt) && ((KEY_F1 <= e.code <= KEY_F10) || (KEY_F11 <= e.code <= KEY_F12)) {
        false
    } else if alt_down(kt) && ctrl_down(kt) && (e.code == KEY_DELETE || e.code == KEY_KPDOT) {
        false
    } else {
        !(e.code == KEY_POWER || e.code == KEY_SLEEP || e.code == KEY_WAKEUP)
    }
}

/// Whether the strict-gamepad policy lets `e` through.
pub open spec fn strict_gamepad_allows(e: InputEvent) -> bool {
    if e.type_ == EV_SYN || e.type_ == EV_ABS || e.type_ == EV_FF {
        true
    } else if e.type_ == EV_KEY {
        is_gamepad_button(e.code)
    } else {
        false
    }
}

/// Whether `policy` lets `e` through, given the modifier state before `e`.
pub open spec fn policy_allows(policy: DevicePolicy, kt: KeyTracker, e: InputEvent) -> bool {
    match policy {
        DevicePolicy::Unfiltered => true,
        DevicePolicy::MuteSysRq => !(e.type_ == EV_KEY && e.code == KEY_SYSRQ),
        DevicePolicy::Sanitized => sanitized_allows(tracker_after(kt, e), e),
        DevicePolicy::StrictGamepad => strict_gamepad_allows(e),
    }
}

fn track_modifiers(keytracker: &mut KeyTracker, event: &InputEvent)
    ensures
        *final(keytracker) == tracker_after(*old(keytracker), *event),
{
    if event.type_ == EV_KEY {
        let down = event.value > 0;
        if event.code == KEY_LEFTALT {
            keytracker.left_alt_down = down;
        } else if event.code == KEY_RIGHTALT {
            keytracker.right_alt_down = down;
        } else if event.code == KEY_LEFTCTRL {
            keytracker.left_ctrl_down = down;
        } else if event.code == KEY_RIGHTCTRL {
            keytracker.right_ctrl_down = down;
        }
    }
}

fn is_allowed_in_sanitized_mode(keytracker: &KeyTracker, event: &InputEvent) -> (r: bool)
    ensures
        r == sanitized_allows(*keytracker, *event),
{
    let code = event.code;
    if event.type_ != EV_KEY {
        return true;
    }
    if code == KEY_SYSRQ {
        return false;
    }
    let alt = keytracker.left_alt_down || keytracker.right_alt_down;
    let ctrl = keytracker.left_ctrl_down || keytracker.right_ctrl_down;
    if alt && ((KEY_F1 <= code && code <= KEY_F10) || (KEY_F11 <= code && code <= KEY_F12)) {
        return false;
    }
    if alt && ctrl && (code == KEY_DELETE || code == KEY_KPDOT) {
        return false;
    }
    !(code == KEY_POWER || code == KEY_SLEEP || code == KEY_WAKEUP)
}

fn is_allowed_in_strict_gamepad_mode(event: &InputEvent) -> (r: bool)
    ensures
        r == strict_gamepad_allows(*event),
{
    let t = event.type_;
    let code = event.code;
    if t == EV_SYN || t == EV_ABS || t == EV_FF {
        true
    } else if t == EV_KEY {
        (BTN_SOUTH <= code && code < BTN_THUMBR) || (BTN_DPAD_UP <= code && code < BTN_GRIPR2)
    } else {
        false
    }
}

/// Decides whether `event` may reach the host device under `policy`; under
/// the sanitized policy it also records the modifier keys that the event
/// presses or releases (also when the event is dropped).
pub fn is_allowed(keytracker: &mut KeyTracker, policy: &DevicePolicy, event: &InputEvent) -> (r:
    bool)
    ensures
        r == policy_allows(*policy, *old(keytracker), *event),
        *final(keytracker) == tracker_step(*policy, *old(keytracker), *event),
{
    match policy {
        DevicePolicy::Unfiltered => true,
        DevicePolicy::MuteSysRq => !(event.type_ == EV_KEY && event.code == KEY_SYSRQ),
        DevicePolicy::Sanitized => {
            track_modifiers(keytracker, event);
            is_allowed_in_sanitized_mode(keytracker, event)
        },
        DevicePolicy::StrictGamepad => is_allowed_in_strict_gamepad_mode(event),
    }
}

/// The modifier state after `e` under `policy`: only the sanitized policy
/// tracks modifiers (releases included, also of dropped events).
pub open spec fn tracker_step(policy: DevicePolicy, kt: KeyTracker, e: InputEvent) -> KeyTracker {
    if policy == DevicePolicy::Sanitized {
        tracker_after(kt, e)
    } else {
        kt
    }
}

/// The strict-gamepad policy lets through exactly SYN, ABS and FF events and
/// key events in the gamepad button ranges.
pub proof fn lemma_strict_gamepad_exact(kt: KeyTracker, e: InputEvent)
    ensures
        policy_allows(DevicePolicy::StrictGamepad, kt, e) == (e.type_ == EV_SYN || e.type_ == EV_ABS
            || e.type_ == EV_FF || (e.type_ == EV_KEY && ((0x130 <= e.code && e.code < 0x13e) || (
        0x220 <= e.code && e.code < 0x227)))),
        tracker_step(DevicePolicy::StrictGamepad, kt, e) == kt,
{
}

/// Under the strict-gamepad policy no key event outside the gamepad button
/// ranges is let through, whatever the modifier state.
pub proof fn lemma_strict_gamepad_drops_other_keys(kt: KeyTracker, e: InputEvent)
    requires
        e.type_ == EV_KEY,
        !is_gamepad_button(e.code),
    ensures
        !policy_allows(DevicePolicy::StrictGamepad, kt, e),
{
}

/// Under the policy `none` every event is let through.
pub proof fn lemma_none_allows_all(kt: KeyTracker, e: InputEvent)
    ensures
        policy_allows(DevicePolicy::Unfiltered, kt, e),
{
}

} // verus!
