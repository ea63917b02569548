//! Key bindings of the first editor.

use vstd::prelude::*;

use crate::core_binds::{lemma_lookup_binding, lookup_binding};
use crate::keys::{KeyCode, MouseButton};

verus! {
/// Inputs bound to application actions.
#[derive(PartialEq, Eq, Structural, Clone, Copy, Debug, Hash)]
pub enum KeyBind {
    Quit,
    MoveLeft,
    MoveRight,
    MoveBackwards,
    MoveForwards,
    MoveDown,
    MoveUp,
    FlyMode,
    SetSelAxisX,
    SetSelAxisY,
    SetSelAxisZ,
    AxisLockX,
    AxisLockY,
    AxisLockZ,
    AxisLockSelected,
    ResetSelAxisOffset,
    ToggleSnap,
    HoldSnap,
}

/// The device input a binding listens to.
#[derive(PartialEq, Eq, Structural, Clone, Copy, Debug)]
pub enum KeyBindKind {
    Keyboard(KeyCode),
    Mouse(MouseButton),
}

/// A device input together with the modifier keys that must be held.
#[derive(PartialEq, Eq, Structural, Clone, Copy, Debug)]
pub struct KeyBindValue {
    pub kind: KeyBindKind,
    pub ctrl: bool,
    pub shift: bool,
    pub alt: bool,
}

impl KeyBindValue {
    /// Binds a keyboard key, with no modifier.
    pub fn key(keycode: KeyCode) -> (r: KeyBindValue)
        ensures
            r == (KeyBindValue { kind: KeyBindKind::Keyboard(keycode), ctrl: false, shift: false, alt: false }),
    {
        KeyBindValue { kind: KeyBindKind::Keyboard(keycode), ctrl: false, shift: false, alt: false }
    }

    /// Binds a mouse button, with no modifier.
    pub fn mouse_button(button: MouseButton) -> (r: KeyBindValue)
        ensures
            r == (KeyBindValue { kind: KeyBindKind::Mouse(button), ctrl: false, shift: false, alt: false }),
    {
        KeyBindValue { kind: KeyBindKind::Mouse(button), ctrl: false, shift: false, alt: false }
    }

    pub fn with_control(self) -> (r: KeyBindValue)
        ensures
            r == (KeyBindValue { ctrl: true, ..self }),
    {
        KeyBindValue { ctrl: true, ..self }
    }

    pub fn with_shift(self) -> (r: KeyBindValue)
        ensures
            r == (KeyBindValue { shift: true, ..self }),
    {
        KeyBindValue { shift: true, ..self }
    }

    pub fn with_alt(self) -> (r: KeyBindValue)
        ensures
            r == (KeyBindValue { alt: true, ..self }),
    {
        KeyBindValue { alt: true, ..self }
    }

}

/// The default binding of each action.
pub open spec fn default_bound_input(b: KeyBind) -> KeyBindValue {
    match b {
        KeyBind::Quit => KeyBindValue { kind: KeyBindKind::Keyboard(KeyCode::KeyQ), ctrl: true, shift: false, alt: false },
        KeyBind::MoveLeft => KeyBindValue { kind: KeyBindKind::Keyboard(KeyCode::KeyA), ctrl: false, shift: false, alt: false },
        KeyBind::MoveRight => KeyBindValue { kind: KeyBindKind::Keyboard(KeyCode::KeyD), ctrl: false, shift: false, alt: false },
        KeyBind::MoveBackwards => KeyBindValue { kind: KeyBindKind::Keyboard(KeyCode::KeyS), ctrl: false, shift: false, alt: false },
        KeyBind::MoveForwards => KeyBindValue { kind: KeyBindKind::Keyboard(KeyCode::KeyW), ctrl: false, shift: false, alt: false },
        KeyBind::MoveDown => KeyBindValue { kind: KeyBindKind::Keyboard(KeyCode::KeyQ), ctrl: false, shift: false, alt: false },
        KeyBind::MoveUp => KeyBindValue { kind: KeyBindKind::Keyboard(KeyCode::KeyE), ctrl: false, shift: false, alt: false },
        KeyBind::FlyMode => KeyBindValue { kind: KeyBindKind::Mouse(MouseButton::Right), ctrl: false, shift: false, alt: false },
        KeyBind::SetSelAxisX => KeyBindValue { kind: KeyBindKind::Keyboard(KeyCode::KeyX), ctrl: false, shift: false, alt: false },
        KeyBind::SetSelAxisY => KeyBindValue { kind: KeyBindKind::Keyboard(KeyCode::KeyC), ctrl: false, shift: false, alt: false },
        KeyBind::SetSelAxisZ => KeyBindValue { kind: KeyBindKind::Keyboard(KeyCode::KeyZ), ctrl: false, shift: false, alt: false },
        KeyBind::AxisLockX => KeyBindValue { kind: KeyBindKind::Keyboard(KeyCode::KeyX), ctrl: false, shift: true, alt: false },
        KeyBind::AxisLockY => KeyBindValue { kind: KeyBindKind::Keyboard(KeyCode::KeyC), ctrl: false, shift: true, alt: false },
        KeyBind::AxisLockZ => KeyBindValue { kind: KeyBindKind::Keyboard(KeyCode::KeyZ), ctrl: false, shift: true, alt: false },
        KeyBind::AxisLockSelected => KeyBindValue { kind: KeyBindKind::Mouse(MouseButton::Middle), ctrl: false, shift: false, alt: false },
        KeyBind::ResetSelAxisOffset => KeyBindValue { kind: KeyBindKind::Keyboard(KeyCode::Digit0), ctrl: false, shift: false, alt: false },
        KeyBind::ToggleSnap => KeyBindValue { kind: KeyBindKind::Keyboard(KeyCode::KeyT), ctrl: false, shift: false, alt: false },
        KeyBind::HoldSnap => KeyBindValue { kind: KeyBindKind::Keyboard(KeyCode::AltLeft), ctrl: false, shift: false, alt: false },
    }
}

/// The key or button bound to each action.
pub struct KeyBinds {
    pub bindings: Vec<(KeyBind, KeyBindValue)>,
}

impl KeyBinds {
    /// The input bound to an action.
    pub fn get(&self, b: &KeyBind) -> (r: Option<KeyBindValue>)
        ensures
            r == lookup_binding(self.bindings@, *b),
    {
        let mut i: usize = 0;
        assert(self.bindings@.skip(0) =~= self.bindings@);
        while i < self.bindings.len()
            invariant
                i <= self.bindings@.len(),
                lookup_binding(self.bindings@, *b) == lookup_binding(self.bindings@.skip(i as int), *b),
            decreases self.bindings@.len() - i,
        {
            assert(self.bindings@.skip(i as int)[0] == self.bindings@[i as int]);
            if self.bindings[i].0 == *b {
                return Some(self.bindings[i].1);
            }
            assert(self.bindings@.skip(i as int).drop_first() =~= self.bindings@.skip(i + 1));
            i = i + 1;
        }
        None
    }
}

impl Default for KeyBinds {
    /// Every action bound to its default input, each action once.
    fn default() -> (r: KeyBinds)
        ensures
            r.bindings@.len() == 18,
            forall|i: int, j: int| 0 <= i < j < r.bindings@.len() ==> r.bindings@[i].0 != r.bindings@[j].0,
            forall|b: KeyBind| #[trigger] lookup_binding(r.bindings@, b) == Some(default_bound_input(b)),
    {
        let mut v: Vec<(KeyBind, KeyBindValue)> = Vec::new();
        v.push((KeyBind::Quit, KeyBindValue::key(KeyCode::KeyQ).with_control()));
        v.push((KeyBind::MoveLeft, KeyBindValue::key(KeyCode::KeyA)));
        v.push((KeyBind::MoveRight, KeyBindValue::key(KeyCode::KeyD)));
        v.push((KeyBind::MoveBackwards, KeyBindValue::key(KeyCode::KeyS)));
        v.push((KeyBind::MoveForwards, KeyBindValue::key(KeyCode::KeyW)));
        v.push((KeyBind::MoveDown, KeyBindValue::key(KeyCode::KeyQ)));
        v.push((KeyBind::MoveUp, KeyBindValue::key(KeyCode::KeyE)));
        v.push((KeyBind::FlyMode, KeyBindValue::mouse_button(MouseButton::Right)));
        v.push((KeyBind::SetSelAxisX, KeyBindValue::key(KeyCode::KeyX)));
        v.push((KeyBind::SetSelAxisY, KeyBindValue::key(KeyCode::KeyC)));
        v.push((KeyBind::SetSelAxisZ, KeyBindValue::key(KeyCode::KeyZ)));
        v.push((KeyBind::AxisLockX, KeyBindValue::key(KeyCode::KeyX).with_shift()));
        v.push((KeyBind::AxisLockY, KeyBindValue::key(KeyCode::KeyC).with_shift()));
        v.push((KeyBind::AxisLockZ, KeyBindValue::key(KeyCode::KeyZ).with_shift()));
        v.push((KeyBind::AxisLockSelected, KeyBindValue::mouse_button(MouseButton::Middle)));
        v.push((KeyBind::ResetSelAxisOffset, KeyBindValue::key(KeyCode::Digit0)));
        v.push((KeyBind::ToggleSnap, KeyBindValue::key(KeyCode::KeyT)));
        v.push((KeyBind::HoldSnap, KeyBindValue::key(KeyCode::AltLeft)));
        proof {
            assert forall|i: int, j: int| 0 <= i < j < v@.len() implies v@[i].0 != v@[j].0 by {}
            assert forall|i: int| 0 <= i < v@.len() implies #[trigger] v@[i].1 == default_bound_input(v@[i].0) by {}
            assert forall|b: KeyBind| #[trigger] lookup_binding(v@, b) == Some(default_bound_input(b)) by {
                let i: int = match b {
                    KeyBind::Quit => 0,
                    KeyBind::MoveLeft => 1,
                    KeyBind::MoveRight => 2,
                    KeyBind::MoveBackwards => 3,
                    KeyBind::MoveForwards => 4,
                    KeyBind::MoveDown => 5,
                    KeyBind::MoveUp => 6,
                    KeyBind::FlyMode => 7,
                    KeyBind::SetSelAxisX => 8,
                    KeyBind::SetSelAxisY => 9,
                    KeyBind::SetSelAxisZ => 10,
                    KeyBind::AxisLockX => 11,
                    KeyBind::AxisLockY => 12,
                    KeyBind::AxisLockZ => 13,
                    KeyBind::AxisLockSelected => 14,
                    KeyBind::ResetSelAxisOffset => 15,
                    KeyBind::ToggleSnap => 16,
                    KeyBind::HoldSnap => 17,
                };
                assert(v@[i].0 == b);
                lemma_lookup_binding(v@, i);
            }
        }
        KeyBinds { bindings: v }
    }
}

/// Modifier keys held down.
#[derive(PartialEq, Eq, Structural, Clone, Copy, Debug)]
pub struct Modifiers {
    pub ctrl: bool,
    pub shift: bool,
    pub alt: bool,
}

/// What happens to a key binding in a frame.
#[derive(PartialEq, Eq, Structural, Clone, Copy, Debug)]
pub struct BindingEvent {
    pub press: bool,
    pub release: bool,
}

/// How a key binding reacts to this frame's input: it is pressed when its key
/// or button was just pressed with exactly its modifiers held, and released
/// when its key or button was just released, whatever the modifiers.
pub fn keybind_event(
    bind_val: &KeyBindValue,
    held: Modifiers,
    just_pressed: bool,
    just_released: bool,
) -> (r: BindingEvent)
    ensures
        r.press == (held.ctrl == bind_val.ctrl && held.shift == bind_val.shift && held.alt
            == bind_val.alt && just_pressed),
        r.release == just_released,
{
    BindingEvent {
        press: held.ctrl == bind_val.ctrl && held.shift == bind_val.shift && held.alt
            == bind_val.alt && just_pressed,
        release: just_released,
    }
}

} // verus!
