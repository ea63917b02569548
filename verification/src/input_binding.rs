//! Input bindings of the early editor.

use vstd::prelude::*;

use crate::core_binds::{lemma_lookup_binding, lookup_binding};
use crate::keys::{KeyCode, MouseButton};

verus! {
/// Inputs bound to application actions.
#[derive(PartialEq, Eq, Structural, Clone, Copy, Debug, Hash)]
pub enum Binding {
    Quit,
    Playtest,
    MoveLeft,
    MoveRight,
    MoveBackwards,
    MoveForwards,
    MoveDown,
    MoveUp,
    LookLeft,
    LookRight,
    LookUp,
    LookDown,
    FlyMode,
    FlySpeedUp,
    FlySpeedDown,
    SetSelAxisX,
    SetSelAxisY,
    SetSelAxisZ,
    AxisLockX,
    AxisLockY,
    AxisLockZ,
    AxisLockSelected,
    ResetSelAxisOffset,
    ToggleSnap,
    HoldSnap,
    SelNext,
    SelPrev,
}

/// The device input a binding listens to.
#[derive(PartialEq, Eq, Structural, Clone, Copy, Debug)]
pub enum BoundInputSource {
    Keyboard(KeyCode),
    Mouse(MouseButton),
    ScrollUp,
    ScrollDown,
}

/// A device input together with the modifier keys that must be held.
#[derive(PartialEq, Eq, Structural, Clone, Copy, Debug)]
pub struct BoundInput {
    pub source: BoundInputSource,
    pub ctrl: bool,
    pub shift: bool,
    pub alt: bool,
}

impl BoundInput {
    /// Binds a keyboard key, with no modifier.
    pub fn key(keycode: KeyCode) -> (r: BoundInput)
        ensures
            r == (BoundInput { source: BoundInputSource::Keyboard(keycode), ctrl: false, shift: false, alt: false }),
    {
        BoundInput { source: BoundInputSource::Keyboard(keycode), ctrl: false, shift: false, alt: false }
    }

    /// Binds a mouse button, with no modifier.
    pub fn mouse_button(button: MouseButton) -> (r: BoundInput)
        ensures
            r == (BoundInput { source: BoundInputSource::Mouse(button), ctrl: false, shift: false, alt: false }),
    {
        BoundInput { source: BoundInputSource::Mouse(button), ctrl: false, shift: false, alt: false }
    }

    /// Binds scrolling up, with no modifier.
    pub fn scroll_up() -> (r: BoundInput)
        ensures
            r == (BoundInput { source: BoundInputSource::ScrollUp, ctrl: false, shift: false, alt: false }),
    {
        BoundInput { source: BoundInputSource::ScrollUp, ctrl: false, shift: false, alt: false }
    }

    /// Binds scrolling down, with no modifier.
    pub fn scroll_down() -> (r: BoundInput)
        ensures
            r == (BoundInput { source: BoundInputSource::ScrollDown, ctrl: false, shift: false, alt: false }),
    {
        BoundInput { source: BoundInputSource::ScrollDown, ctrl: false, shift: false, alt: false }
    }

    pub fn with_control(self) -> (r: BoundInput)
        ensures
            r == (BoundInput { ctrl: true, ..self }),
    {
        BoundInput { ctrl: true, ..self }
    }

    pub fn with_shift(self) -> (r: BoundInput)
        ensures
            r == (BoundInput { shift: true, ..self }),
    {
        BoundInput { shift: true, ..self }
    }

    pub fn with_alt(self) -> (r: BoundInput)
        ensures
            r == (BoundInput { alt: true, ..self }),
    {
        BoundInput { alt: true, ..self }
    }

}

/// The default binding of each action.
pub open spec fn default_bound_input(b: Binding) -> BoundInput {
    match b {
        Binding::Quit => BoundInput { source: BoundInputSource::Keyboard(KeyCode::KeyQ), ctrl: true, shift: false, alt: false },
        Binding::Playtest => BoundInput { source: BoundInputSource::Keyboard(KeyCode::Tab), ctrl: false, shift: false, alt: false },
        Binding::MoveLeft => BoundInput { source: BoundInputSource::Keyboard(KeyCode::KeyA), ctrl: false, shift: false, alt: false },
        Binding::MoveRight => BoundInput { source: BoundInputSource::Keyboard(KeyCode::KeyD), ctrl: false, shift: false, alt: false },
        Binding::MoveBackwards => BoundInput { source: BoundInputSource::Keyboard(KeyCode::KeyS), ctrl: false, shift: false, alt: false },
        Binding::MoveForwards => BoundInput { source: BoundInputSource::Keyboard(KeyCode::KeyW), ctrl: false, shift: false, alt: false },
        Binding::MoveDown => BoundInput { source: BoundInputSource::Keyboard(KeyCode::KeyQ), ctrl: false, shift: false, alt: false },
        Binding::MoveUp => BoundInput { source: BoundInputSource::Keyboard(KeyCode::KeyE), ctrl: false, shift: false, alt: false },
        Binding::LookLeft => BoundInput { source: BoundInputSource::Keyboard(KeyCode::ArrowLeft), ctrl: false, shift: false, alt: false },
        Binding::LookRight => BoundInput { source: BoundInputSource::Keyboard(KeyCode::ArrowRight), ctrl: false, shift: false, alt: false },
        Binding::LookDown => BoundInput { source: BoundInputSource::Keyboard(KeyCode::ArrowDown), ctrl: false, shift: false, alt: false },
        Binding::LookUp => BoundInput { source: BoundInputSource::Keyboard(KeyCode::ArrowUp), ctrl: false, shift: false, alt: false },
        Binding::FlyMode => BoundInput { source: BoundInputSource::Mouse(MouseButton::Right), ctrl: false, shift: false, alt: false },
        Binding::FlySpeedUp => BoundInput { source: BoundInputSource::ScrollUp, ctrl: false, shift: false, alt: false },
        Binding::FlySpeedDown => BoundInput { source: BoundInputSource::ScrollDown, ctrl: false, shift: false, alt: false },
        Binding::SetSelAxisX => BoundInput { source: BoundInputSource::Keyboard(KeyCode::KeyX), ctrl: false, shift: false, alt: false },
        Binding::SetSelAxisY => BoundInput { source: BoundInputSource::Keyboard(KeyCode::KeyC), ctrl: false, shift: false, alt: false },
        Binding::SetSelAxisZ => BoundInput { source: BoundInputSource::Keyboard(KeyCode::KeyZ), ctrl: false, shift: false, alt: false },
        Binding::AxisLockX => BoundInput { source: BoundInputSource::Keyboard(KeyCode::KeyX), ctrl: false, shift: true, alt: false },
        Binding::AxisLockY => BoundInput { source: BoundInputSource::Keyboard(KeyCode::KeyC), ctrl: false, shift: true, alt: false },
        Binding::AxisLockZ => BoundInput { source: BoundInputSource::Keyboard(KeyCode::KeyZ), ctrl: false, shift: true, alt: false },
        Binding::AxisLockSelected => BoundInput { source: BoundInputSource::Mouse(MouseButton::Middle), ctrl: false, shift: false, alt: false },
        Binding::ResetSelAxisOffset => BoundInput { source: BoundInputSource::Keyboard(KeyCode::Digit0), ctrl: false, shift: false, alt: false },
        Binding::ToggleSnap => BoundInput { source: BoundInputSource::Keyboard(KeyCode::KeyT), ctrl: false, shift: false, alt: false },
        Binding::HoldSnap => BoundInput { source: BoundInputSource::Keyboard(KeyCode::AltLeft), ctrl: false, shift: false, alt: false },
        Binding::SelNext => BoundInput { source: BoundInputSource::ScrollDown, ctrl: false, shift: true, alt: false },
        Binding::SelPrev => BoundInput { source: BoundInputSource::ScrollUp, ctrl: false, shift: true, alt: false },
    }
}

/// The input bound to each action.
pub struct InputBindings {
    pub bindings: Vec<(Binding, BoundInput)>,
}


impl InputBindings {
    /// The input bound to an action.
    pub fn get(&self, b: &Binding) -> (r: Option<BoundInput>)
        ensures
            r == lookup_binding(self.bindings@, *b),
    {
        let mut i: usize = 0;
        assert(self.bindings@.skip(0) =~= self.bindings@);
        while i < self.bindings.len()
            invariant
                i <= self.bindings@.len(),
                lookup_binding(self.bindings@, *b) == lookup_binding(self.bindings@.skip(i as int), *b),
            decreases self.bindings@.len() - i,
        {
            assert(self.bindings@.skip(i as int)[0] == self.bindings@[i as int]);
            if self.bindings[i].0 == *b {
                return Some(self.bindings[i].1);
            }
            assert(self.bindings@.skip(i as int).drop_first() =~= self.bindings@.skip(i + 1));
            i = i + 1;
        }
        None
    }
}

impl Default for InputBindings {
    /// Every action bound to its default input, each action once.
    fn default() -> (r: InputBindings)
        ensures
            r.bindings@.len() == 27,
            forall|i: int, j: int| 0 <= i < j < r.bindings@.len() ==> r.bindings@[i].0 != r.bindings@[j].0,
            forall|b: Binding| #[trigger] lookup_binding(r.bindings@, b) == Some(default_bound_input(b)),
    {
        let mut v: Vec<(Binding, BoundInput)> = Vec::new();
        v.push((Binding::Quit, BoundInput::key(KeyCode::KeyQ).with_control()));
        v.push((Binding::Playtest, BoundInput::key(KeyCode::Tab)));
        v.push((Binding::MoveLeft, BoundInput::key(KeyCode::KeyA)));
        v.push((Binding::MoveRight, BoundInput::key(KeyCode::KeyD)));
        v.push((Binding::MoveBackwards, BoundInput::key(KeyCode::KeyS)));
        v.push((Binding::MoveForwards, BoundInput::key(KeyCode::KeyW)));
        v.push((Binding::MoveDown, BoundInput::key(KeyCode::KeyQ)));
        v.push((Binding::MoveUp, BoundInput::key(KeyCode::KeyE)));
        v.push((Binding::LookLeft, BoundInput::key(KeyCode::ArrowLeft)));
        v.push((Binding::LookRight, BoundInput::key(KeyCode::ArrowRight)));
        v.push((Binding::LookDown, BoundInput::key(KeyCode::ArrowDown)));
        v.push((Binding::LookUp, BoundInput::key(KeyCode::ArrowUp)));
        v.push((Binding::FlyMode, BoundInput::mouse_button(MouseButton::Right)));
        v.push((Binding::FlySpeedUp, BoundInput::scroll_up()));
        v.push((Binding::FlySpeedDown, BoundInput::scroll_down()));
        v.push((Binding::SetSelAxisX, BoundInput::key(KeyCode::KeyX)));
        v.push((Binding::SetSelAxisY, BoundInput::key(KeyCode::KeyC)));
        v.push((Binding::SetSelAxisZ, BoundInput::key(KeyCode::KeyZ)));
        v.push((Binding::AxisLockX, BoundInput::key(KeyCode::KeyX).with_shift()));
        v.push((Binding::AxisLockY, BoundInput::key(KeyCode::KeyC).with_shift()));
        v.push((Binding::AxisLockZ, BoundInput::key(KeyCode::KeyZ).with_shift()));
        v.push((Binding::AxisLockSelected, BoundInput::mouse_button(MouseButton::Middle)));
        v.push((Binding::ResetSelAxisOffset, BoundInput::key(KeyCode::Digit0)));
        v.push((Binding::ToggleSnap, BoundInput::key(KeyCode::KeyT)));
        v.push((Binding::HoldSnap, BoundInput::key(KeyCode::AltLeft)));
        v.push((Binding::SelNext, BoundInput::scroll_down().with_shift()));
        v.push((Binding::SelPrev, BoundInput::scroll_up().with_shift()));
        proof {
            assert forall|i: int, j: int| 0 <= i < j < v@.len() implies v@[i].0 != v@[j].0 by {}
            assert forall|i: int| 0 <= i < v@.len() implies #[trigger] v@[i].1 == default_bound_input(v@[i].0) by {}
            assert forall|b: Binding| #[trigger] lookup_binding(v@, b) == Some(default_bound_input(b)) by {
                let i: int = match b {
                    Binding::Quit => 0,
                    Binding::Playtest => 1,
                    Binding::MoveLeft => 2,
                    Binding::MoveRight => 3,
                    Binding::MoveBackwards => 4,
                    Binding::MoveForwards => 5,
                    Binding::MoveDown => 6,
                    Binding::MoveUp => 7,
                    Binding::LookLeft => 8,
                    Binding::LookRight => 9,
                    Binding::LookDown => 10,
                    Binding::LookUp => 11,
                    Binding::FlyMode => 12,
                    Binding::FlySpeedUp => 13,
                    Binding::FlySpeedDown => 14,
                    Binding::SetSelAxisX => 15,
                    Binding::SetSelAxisY => 16,
                    Binding::SetSelAxisZ => 17,
                    Binding::AxisLockX => 18,
                    Binding::AxisLockY => 19,
                    Binding::AxisLockZ => 20,
                    Binding::AxisLockSelected => 21,
                    Binding::ResetSelAxisOffset => 22,
                    Binding::ToggleSnap => 23,
                    Binding::HoldSnap => 24,
                    Binding::SelNext => 25,
                    Binding::SelPrev => 26,
                };
                assert(v@[i].0 == b);
                lemma_lookup_binding(v@, i);
            }
        }
        InputBindings { bindings: v }
    }
}

/// The last scroll of the mouse wheel in this frame.
#[derive(PartialEq, Eq, Structural, Clone, Copy, Debug)]
pub enum LastScroll {
    /// No scroll happened.
    NoScroll,
    Up,
    Down,
    /// A scroll happened, neither up nor down.
    Level,
}

/// Modifier keys held down.
#[derive(PartialEq, Eq, Structural, Clone, Copy, Debug)]
pub struct Modifiers {
    pub ctrl: bool,
    pub shift: bool,
    pub alt: bool,
}

/// What happens to a binding in a frame.
#[derive(PartialEq, Eq, Structural, Clone, Copy, Debug)]
pub struct BindingEvent {
    pub press: bool,
    pub release: bool,
}

/// Whether the device input of a binding was just pressed: for keys and
/// buttons, as reported; for scrolling, whether the last scroll went that way.
pub open spec fn source_just_pressed(src: BoundInputSource, button_just_pressed: bool, scroll: LastScroll) -> bool {
    match src {
        BoundInputSource::Keyboard(_) => button_just_pressed,
        BoundInputSource::Mouse(_) => button_just_pressed,
        BoundInputSource::ScrollUp => scroll == LastScroll::Up,
        BoundInputSource::ScrollDown => scroll == LastScroll::Down,
    }
}

/// Whether the device input of a binding was just released: for keys and
/// buttons, as reported; for scrolling, whether no scroll happened.
pub open spec fn source_just_released(src: BoundInputSource, button_just_released: bool, scroll: LastScroll) -> bool {
    match src {
        BoundInputSource::Keyboard(_) => button_just_released,
        BoundInputSource::Mouse(_) => button_just_released,
        BoundInputSource::ScrollUp => scroll == LastScroll::NoScroll,
        BoundInputSource::ScrollDown => scroll == LastScroll::NoScroll,
    }
}

/// How a binding reacts to this frame's input: it is pressed when its device
/// input was just pressed with exactly its modifiers held, and released when
/// its device input was just released, whatever the modifiers.
pub fn binding_event(
    bound: &BoundInput,
    held: Modifiers,
    button_just_pressed: bool,
    button_just_released: bool,
    scroll: LastScroll,
) -> (r: BindingEvent)
    ensures
        r.press == (held.ctrl == bound.ctrl && held.shift == bound.shift && held.alt == bound.alt
            && source_just_pressed(bound.source, button_just_pressed, scroll)),
        r.release == source_just_released(bound.source, button_just_released, scroll),
{
    let main_just_pressed = match bound.source {
        BoundInputSource::Keyboard(_) => button_just_pressed,
        BoundInputSource::Mouse(_) => button_just_pressed,
        BoundInputSource::ScrollUp => scroll == LastScroll::Up,
        BoundInputSource::ScrollDown => scroll == LastScroll::Down,
    };
    let main_just_released = match bound.source {
        BoundInputSource::Keyboard(_) => button_just_released,
        BoundInputSource::Mouse(_) => button_just_released,
        BoundInputSource::ScrollUp => scroll == LastScroll::NoScroll,
        BoundInputSource::ScrollDown => scroll == LastScroll::NoScroll,
    };
    BindingEvent {
        press: held.ctrl == bound.ctrl && held.shift == bound.shift && held.alt == bound.alt
            && main_just_pressed,
        release: main_just_released,
    }
}

} // verus!
