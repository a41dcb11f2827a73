//! Raw input events and the global hotkeys (Ctrl+8, Ctrl+9).
use vstd::prelude::*;

use crate::model::action::MouseAction;

verus! {

/// The global function hotkeys; each is Ctrl plus a digit key.
#[derive(Debug, Clone, Copy, PartialEq, Eq, Structural)]
pub enum Hotkey {
    /// Ctrl+8: start or stop recording.
    ToggleRecording,
    /// Ctrl+9: start or stop replay.
    ToggleReplay,
}

/// The slot that tracks a hotkey's base key.
pub open spec fn hotkey_slot(h: Hotkey) -> int {
    match h {
        Hotkey::ToggleRecording => 0,
        Hotkey::ToggleReplay => 1,
    }
}

impl Hotkey {
    fn slot(self) -> (i: usize)
        ensures
            i == hotkey_slot(self),
    {
        match self {
            Hotkey::ToggleRecording => 0,
            Hotkey::ToggleReplay => 1,
        }
    }
}

/// Press-edge debouncing: keyboard auto-repeat sends repeated presses
/// without releases, and only the first press after a release counts.
#[derive(Debug)]
pub struct HotkeyDebouncer {
    down: [bool; 2],
}

impl View for HotkeyDebouncer {
    /// For each hotkey, whether its base key is held.
    type V = Map<Hotkey, bool>;

    closed spec fn view(&self) -> Map<Hotkey, bool> {
        Map::new(|h: Hotkey| true, |h: Hotkey| self.down@[hotkey_slot(h)])
    }
}

impl Default for HotkeyDebouncer {
    fn default() -> (d: Self)
        ensures
            forall|h: Hotkey| #[trigger] d@[h] == false,
    {
        HotkeyDebouncer { down: [false, false] }
    }
}

impl HotkeyDebouncer {
    /// Records a press; true when it is a new press edge (the key was not
    /// already held).
    pub fn on_press(&mut self, hotkey: Hotkey) -> (is_new: bool)
        ensures
            is_new == !old(self)@[hotkey],
            final(self)@ == old(self)@.insert(hotkey, true),
    {
        let slot = hotkey.slot();
        let is_new = !self.down[slot];
        self.down[slot] = true;
        proof {
            assert(final(self)@ =~= old(self)@.insert(hotkey, true)) by {
                assert forall|h: Hotkey| final(self)@[h] == old(self)@.insert(hotkey, true)[h] by {
                    if h != hotkey {
                        assert(hotkey_slot(h) != hotkey_slot(hotkey));
                    }
                }
            }
        }
        is_new
    }

    /// Records a release.
    pub fn on_release(&mut self, hotkey: Hotkey)
        ensures
            final(self)@ == old(self)@.insert(hotkey, false),
    {
        let slot = hotkey.slot();
        self.down[slot] = false;
        proof {
            assert(final(self)@ =~= old(self)@.insert(hotkey, false)) by {
                assert forall|h: Hotkey| final(self)@[h] == old(self)@.insert(hotkey, false)[h] by {
                    if h != hotkey {
                        assert(hotkey_slot(h) != hotkey_slot(hotkey));
                    }
                }
            }
        }
    }
}

/// Tracks whether Ctrl is held and debounces the base keys.
#[derive(Debug)]
pub struct HotkeyFilter {
    debouncer: HotkeyDebouncer,
    control: bool,
}

/// The abstract state of a [`HotkeyFilter`].
pub struct HotkeyFilterView {
    /// Whether each hotkey's base key is held.
    pub held: Map<Hotkey, bool>,
    /// Whether Ctrl is held.
    pub control: bool,
}

impl View for HotkeyFilter {
    type V = HotkeyFilterView;

    closed spec fn view(&self) -> HotkeyFilterView {
        HotkeyFilterView { held: self.debouncer@, control: self.control }
    }
}

impl Default for HotkeyFilter {
    fn default() -> (f: Self)
        ensures
            forall|h: Hotkey| #[trigger] f@.held[h] == false,
            !f@.control,
    {
        HotkeyFilter { debouncer: HotkeyDebouncer::default(), control: false }
    }
}

impl HotkeyFilter {
    /// Ctrl pressed or released (either side).
    pub fn on_ctrl(&mut self, down: bool)
        ensures
            final(self)@.control == down,
            final(self)@.held == old(self)@.held,
    {
        self.control = down;
    }

    /// A base key press: yields the hotkey when Ctrl is held and this is a
    /// new press edge. The press is remembered even without Ctrl, so holding
    /// the digit first and adding Ctrl afterwards does not fire.
    pub fn on_press(&mut self, hotkey: Hotkey) -> (r: Option<Hotkey>)
        ensures
            r == (if !old(self)@.held[hotkey] && old(self)@.control {
                Some(hotkey)
            } else {
                None
            }),
            final(self)@.held == old(self)@.held.insert(hotkey, true),
            final(self)@.control == old(self)@.control,
    {
        let is_press_edge = self.debouncer.on_press(hotkey);
        if is_press_edge && self.control {
            Some(hotkey)
        } else {
            None
        }
    }

    /// A base key release: only resets the debouncing.
    pub fn on_release(&mut self, hotkey: Hotkey)
        ensures
            final(self)@.held == old(self)@.held.insert(hotkey, false),
            final(self)@.control == old(self)@.control,
    {
        self.debouncer.on_release(hotkey);
    }
}

/// A mouse action and the monotonic time (nanoseconds) at which the input
/// hook saw it.
#[derive(Debug, Clone, Copy, PartialEq, Eq, Structural)]
pub struct RawMouseEvent {
    pub time: u64,
    pub action: MouseAction,
}

/// A raw input event, before the recorder decides what to keep.
#[derive(Debug, Clone, Copy, PartialEq, Eq, Structural)]
pub enum RawInputEvent {
    Mouse(RawMouseEvent),
    /// A function hotkey (Ctrl+8/9).
    Hotkey(Hotkey),
    Other,
}

} // verus!
