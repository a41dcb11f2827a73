//! Windows input hook: classification of hook events into mouse actions and
//! hotkey key events, and the hotkey filtering done in the hook callback.
//!
//! [`EventType`], [`Key`] and [`Button`] hold what the classification reads
//! of the hook's events; mouse positions are in coordinate units.
use vstd::prelude::*;

use crate::model::action::{MouseAction, MouseButton};

use super::source::{Hotkey, HotkeyFilter};

verus! {

/// The generic virtual key code of Ctrl, which some injected events and
/// keyboard drivers report instead of the left/right specific codes.
pub const VK_CONTROL: u32 = 0x11;

/// A keyboard key of a hook event.
#[derive(Debug, Clone, Copy, PartialEq, Eq, Structural)]
pub enum Key {
    Num7,
    Num8,
    Num9,
    ControlLeft,
    ControlRight,
    Alt,
    AltGr,
    Escape,
    KeyA,
    F8,
    F9,
    /// A key known only by its virtual key code.
    Unknown(u32),
    /// Any other key.
    Other,
}

/// A mouse button of a hook event.
#[derive(Debug, Clone, Copy, PartialEq, Eq, Structural)]
pub enum Button {
    Left,
    Right,
    Middle,
    Unknown(u8),
}

/// A hook event.
#[derive(Debug, Clone, Copy, PartialEq, Eq, Structural)]
pub enum EventType {
    KeyPress(Key),
    KeyRelease(Key),
    ButtonPress(Button),
    ButtonRelease(Button),
    MouseMove { x: i64, y: i64 },
    Wheel { delta_x: i64, delta_y: i64 },
}

/// A hook event, classified (without time stamp).
#[derive(Debug, Clone, Copy, PartialEq, Eq, Structural)]
pub enum Classified {
    Mouse(MouseAction),
    /// Ctrl pressed (`true`) or released: only updates the filter.
    CtrlChanged(bool),
    HotkeyPressed(Hotkey),
    HotkeyReleased(Hotkey),
}

/// The buttons that are recorded: left, middle and right.
pub open spec fn mouse_button_of(button: Button) -> Option<MouseButton> {
    match button {
        Button::Left => Some(MouseButton::Left),
        Button::Middle => Some(MouseButton::Middle),
        Button::Right => Some(MouseButton::Right),
        Button::Unknown(_) => None,
    }
}

pub fn from_rdev_button(button: Button) -> (b: Option<MouseButton>)
    ensures
        b == mouse_button_of(button),
{
    match button {
        Button::Left => Some(MouseButton::Left),
        Button::Middle => Some(MouseButton::Middle),
        Button::Right => Some(MouseButton::Right),
        _ => None,
    }
}

/// Whether a key is Ctrl (either side, or the generic code).
pub open spec fn is_ctrl(key: Key) -> bool {
    key == Key::ControlLeft || key == Key::ControlRight || key == Key::Unknown(VK_CONTROL)
}

/// The hotkey whose base key is `key`: 8 records, 9 replays.
pub open spec fn hotkey_of_key(key: Key) -> Option<Hotkey> {
    match key {
        Key::Num8 => Some(Hotkey::ToggleRecording),
        Key::Num9 => Some(Hotkey::ToggleReplay),
        _ => None,
    }
}

/// The classification of a hook event.
pub open spec fn classification(event: EventType) -> Option<Classified> {
    match event {
        EventType::MouseMove { x, y } => Some(Classified::Mouse(MouseAction::Move { x, y })),
        EventType::ButtonPress(b) => match mouse_button_of(b) {
            Some(button) => Some(Classified::Mouse(MouseAction::ButtonDown { button })),
            None => None,
        },
        EventType::ButtonRelease(b) => match mouse_button_of(b) {
            Some(button) => Some(Classified::Mouse(MouseAction::ButtonUp { button })),
            None => None,
        },
        EventType::Wheel { delta_x, delta_y } => Some(
            Classified::Mouse(MouseAction::Wheel { delta_x, delta_y }),
        ),
        EventType::KeyPress(key) => match hotkey_of_key(key) {
            Some(h) => Some(Classified::HotkeyPressed(h)),
            None => if is_ctrl(key) {
                Some(Classified::CtrlChanged(true))
            } else {
                None
            },
        },
        EventType::KeyRelease(key) => match hotkey_of_key(key) {
            Some(h) => Some(Classified::HotkeyReleased(h)),
            None => if is_ctrl(key) {
                Some(Classified::CtrlChanged(false))
            } else {
                None
            },
        },
    }
}

/// Classifies a hook event. Only mouse events, the hotkeys' base keys and
/// Ctrl matter; every other key (Escape included) is ignored.
pub fn classify(event_type: &EventType) -> (c: Option<Classified>)
    ensures
        c == classification(*event_type),
{
    match event_type {
        EventType::MouseMove { x, y } => Some(Classified::Mouse(MouseAction::Move { x: *x, y: *y })),
        EventType::ButtonPress(button) => match from_rdev_button(*button) {
            Some(b) => Some(Classified::Mouse(MouseAction::ButtonDown { button: b })),
            None => None,
        },
        EventType::ButtonRelease(button) => match from_rdev_button(*button) {
            Some(b) => Some(Classified::Mouse(MouseAction::ButtonUp { button: b })),
            None => None,
        },
        EventType::Wheel { delta_x, delta_y } => Some(
            Classified::Mouse(MouseAction::Wheel { delta_x: *delta_x, delta_y: *delta_y }),
        ),
        EventType::KeyPress(Key::Num8) => Some(Classified::HotkeyPressed(Hotkey::ToggleRecording)),
        EventType::KeyPress(Key::Num9) => Some(Classified::HotkeyPressed(Hotkey::ToggleReplay)),
        EventType::KeyRelease(Key::Num8) => Some(
            Classified::HotkeyReleased(Hotkey::ToggleRecording),
        ),
        EventType::KeyRelease(Key::Num9) => Some(Classified::HotkeyReleased(Hotkey::ToggleReplay)),
        EventType::KeyPress(key) => {
            if is_ctrl_key(*key) {
                Some(Classified::CtrlChanged(true))
            } else {
                None
            }
        },
        EventType::KeyRelease(key) => {
            if is_ctrl_key(*key) {
                Some(Classified::CtrlChanged(false))
            } else {
                None
            }
        },
    }
}

fn is_ctrl_key(key: Key) -> (r: bool)
    ensures
        r == is_ctrl(key),
{
    match key {
        Key::ControlLeft | Key::ControlRight => true,
        Key::Unknown(code) => code == VK_CONTROL,
        _ => false,
    }
}

/// What the hook callback passes on for a classified event.
#[derive(Debug, Clone, Copy, PartialEq, Eq, Structural)]
pub enum HookOutput {
    Mouse(MouseAction),
    Hotkey(Hotkey),
}

/// The hook callback's handling of a classified event: mouse actions pass
/// through; Ctrl and hotkey key events update `hotkeys`, and a hotkey is
/// passed on only when it fires (Ctrl held, new press edge).
pub fn filter_classified(hotkeys: &mut HotkeyFilter, classified: Classified) -> (r: Option<
    HookOutput,
>)
    ensures
        ({
            let before = old(hotkeys)@;
            let after = final(hotkeys)@;
            match classified {
                Classified::Mouse(a) => r == Some(HookOutput::Mouse(a)) && after.held
                    == before.held && after.control == before.control,
                Classified::CtrlChanged(down) => r is None && after.control == down && after.held
                    == before.held,
                Classified::HotkeyPressed(h) => r == (if !before.held[h] && before.control {
                    Some(HookOutput::Hotkey(h))
                } else {
                    None
                }) && after.held == before.held.insert(h, true) && after.control
                    == before.control,
                Classified::HotkeyReleased(h) => r is None && after.held == before.held.insert(
                    h,
                    false,
                ) && after.control == before.control,
            }
        }),
{
    match classified {
        Classified::Mouse(action) => Some(HookOutput::Mouse(action)),
        Classified::HotkeyPressed(hotkey) => match hotkeys.on_press(hotkey) {
            Some(h) => Some(HookOutput::Hotkey(h)),
            None => None,
        },
        Classified::HotkeyReleased(hotkey) => {
            hotkeys.on_release(hotkey);
            None
        },
        Classified::CtrlChanged(down) => {
            hotkeys.on_ctrl(down);
            None
        },
    }
}

/// Releasing a key mirrors pressing it: a hotkey's press and release are
/// reported for the same hotkey, a Ctrl press reports Ctrl down exactly when
/// its release reports Ctrl up, and a key ignored when pressed is ignored
/// when released.
pub proof fn lemma_key_release_mirrors_press(key: Key)
    ensures
        match classification(EventType::KeyPress(key)) {
            Some(Classified::HotkeyPressed(h)) => classification(EventType::KeyRelease(key))
                == Some(Classified::HotkeyReleased(h)),
            Some(Classified::CtrlChanged(true)) => classification(EventType::KeyRelease(key))
                == Some(Classified::CtrlChanged(false)),
            None => classification(EventType::KeyRelease(key)) is None,
            _ => false,
        },
{
}

/// The hotkeys' base keys are 8, for recording, and 9, for replay: no
/// other key press is taken for a hotkey.
pub proof fn lemma_hotkey_keys(key: Key, hotkey: Hotkey)
    ensures
        classification(EventType::KeyPress(key)) == Some(Classified::HotkeyPressed(hotkey)) <==> (
        (key == Key::Num8 && hotkey == Hotkey::ToggleRecording) || (key == Key::Num9 && hotkey
            == Hotkey::ToggleReplay)),
{
}

/// The Ctrl keys are the left and right Ctrl and the generic Ctrl code: a
/// key press reports Ctrl down, and its release Ctrl up, for exactly these.
pub proof fn lemma_ctrl_keys(key: Key)
    ensures
        classification(EventType::KeyPress(key)) == Some(Classified::CtrlChanged(true)) <==> (key
            == Key::ControlLeft || key == Key::ControlRight || key == Key::Unknown(0x11)),
        classification(EventType::KeyRelease(key)) == Some(Classified::CtrlChanged(false)) <==> (
        key == Key::ControlLeft || key == Key::ControlRight || key == Key::Unknown(0x11)),
{
}

/// Mouse buttons keep their identity: a hook press of the left, middle or
/// right button is recorded as a press of that same button, its release as
/// the release of that same button, and the other buttons not at all.
pub proof fn lemma_hook_buttons_keep_identity(button: Button)
    ensures
        classification(EventType::ButtonPress(Button::Left)) == Some(
            Classified::Mouse(MouseAction::ButtonDown { button: MouseButton::Left }),
        ),
        classification(EventType::ButtonPress(Button::Middle)) == Some(
            Classified::Mouse(MouseAction::ButtonDown { button: MouseButton::Middle }),
        ),
        classification(EventType::ButtonPress(Button::Right)) == Some(
            Classified::Mouse(MouseAction::ButtonDown { button: MouseButton::Right }),
        ),
        forall|b: MouseButton|
            classification(EventType::ButtonPress(button)) == Some(
                Classified::Mouse(MouseAction::ButtonDown { button: b }),
            ) <==> classification(EventType::ButtonRelease(button)) == Some(
                Classified::Mouse(MouseAction::ButtonUp { button: b }),
            ),
        button is Unknown ==> classification(EventType::ButtonPress(button)) is None
            && classification(EventType::ButtonRelease(button)) is None,
{
}

} // verus!
