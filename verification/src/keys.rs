//! Keyboard keys and mouse buttons that bindings refer to.

use vstd::prelude::*;

verus! {

/// A keyboard key, by its position on a US layout.
#[derive(PartialEq, Eq, Structural, Clone, Copy, Debug, Hash)]
pub enum KeyCode {
    KeyA,
    KeyC,
    KeyD,
    KeyE,
    KeyQ,
    KeyS,
    KeyT,
    KeyW,
    KeyX,
    KeyZ,
    Digit0,
    Tab,
    Space,
    ArrowLeft,
    ArrowRight,
    ArrowUp,
    ArrowDown,
    AltLeft,
    AltRight,
    ControlLeft,
    ControlRight,
    ShiftLeft,
    ShiftRight,
}

/// A mouse button.
#[derive(PartialEq, Eq, Structural, Clone, Copy, Debug, Hash)]
pub enum MouseButton {
    Left,
    Right,
    Middle,
    Back,
    Forward,
    Other(u16),
}

} // verus!
