//! Input bindings of the editor and the game: the actions, the device inputs they are bound to, and how pressed inputs become action presses and axes.

use vstd::prelude::*;

use crate::keys::{KeyCode, MouseButton};

verus! {
/// Inputs bound to application actions.
#[derive(PartialEq, Eq, Structural, Clone, Copy, Debug, Hash)]
pub enum Binding {
    Quit,
    Playtest,
    Undo,
    Redo,
    MoveLeft,
    MoveRight,
    MoveBackwards,
    MoveForwards,
    MoveDown,
    MoveUp,
    Jump,
    LookLeft,
    LookRight,
    LookUp,
    LookDown,
    FlyMode,
    FlySpeedUp,
    FlySpeedDown,
    SetSelAxisX,
    SetSelAxisY,
    SetSelAxisZ,
    AxisLockX,
    AxisLockY,
    AxisLockZ,
    AxisLockSelected,
    ResetSelAxisOffset,
    ToggleSnap,
    HoldSnap,
    SelNext,
    SelPrev,
}

/// The device input a binding listens to.
#[derive(PartialEq, Eq, Structural, Clone, Copy, Debug)]
pub enum BoundInputSource {
    Keyboard(KeyCode),
    Mouse(MouseButton),
    ScrollUp,
    ScrollDown,
}

/// A device input together with the modifier keys that must be held.
#[derive(PartialEq, Eq, Structural, Clone, Copy, Debug)]
pub struct BoundInput {
    pub source: BoundInputSource,
    pub ctrl: bool,
    pub shift: bool,
    pub alt: bool,
}

impl BoundInput {
    /// Binds a keyboard key, with no modifier.
    pub fn key(keycode: KeyCode) -> (r: BoundInput)
        ensures
            r == (BoundInput { source: BoundInputSource::Keyboard(keycode), ctrl: false, shift: false, alt: false }),
    {
        BoundInput { source: BoundInputSource::Keyboard(keycode), ctrl: false, shift: false, alt: false }
    }

    /// Binds a mouse button, with no modifier.
    pub fn mouse(button: MouseButton) -> (r: BoundInput)
        ensures
            r == (BoundInput { source: BoundInputSource::Mouse(button), ctrl: false, shift: false, alt: false }),
    {
        BoundInput { source: BoundInputSource::Mouse(button), ctrl: false, shift: false, alt: false }
    }

    /// Binds scrolling up, with no modifier.
    pub fn scroll_up() -> (r: BoundInput)
        ensures
            r == (BoundInput { source: BoundInputSource::ScrollUp, ctrl: false, shift: false, alt: false }),
    {
        BoundInput { source: BoundInputSource::ScrollUp, ctrl: false, shift: false, alt: false }
    }

    /// Binds scrolling down, with no modifier.
    pub fn scroll_down() -> (r: BoundInput)
        ensures
            r == (BoundInput { source: BoundInputSource::ScrollDown, ctrl: false, shift: false, alt: false }),
    {
        BoundInput { source: BoundInputSource::ScrollDown, ctrl: false, shift: false, alt: false }
    }

    pub fn with_control(self) -> (r: BoundInput)
        ensures
            r == (BoundInput { ctrl: true, ..self }),
    {
        BoundInput { ctrl: true, ..self }
    }

    pub fn with_shift(self) -> (r: BoundInput)
        ensures
            r == (BoundInput { shift: true, ..self }),
    {
        BoundInput { shift: true, ..self }
    }

    pub fn with_alt(self) -> (r: BoundInput)
        ensures
            r == (BoundInput { alt: true, ..self }),
    {
        BoundInput { alt: true, ..self }
    }

    /// The same device input under each of the other seven combinations of
    /// modifiers, in a fixed order.
    pub fn modifier_permutations(&self) -> (r: Vec<BoundInput>)
        ensures
            r@ == permutations_excluding(modifier_combinations(), *self),
    {
        let mut combos: Vec<(bool, bool, bool)> = Vec::new();
        combos.push((false, false, false));
        combos.push((true, false, false));
        combos.push((false, true, false));
        combos.push((false, false, true));
        combos.push((true, true, false));
        combos.push((false, true, true));
        combos.push((true, false, true));
        combos.push((true, true, true));
        assert(combos@ =~= modifier_combinations());
        let mut out: Vec<BoundInput> = Vec::new();
        let mut i: usize = 0;
        while i < combos.len()
            invariant
                i <= combos@.len(),
                out@ == permutations_excluding(combos@.take(i as int), *self),
            decreases combos@.len() - i,
        {
            let (ctrl, shift, alt) = combos[i];
            let bound = BoundInput { source: self.source, ctrl, shift, alt };
            assert(combos@.take(i + 1).drop_last() =~= combos@.take(i as int));
            if bound != *self {
                out.push(bound);
            }
            i = i + 1;
        }
        assert(combos@.take(combos@.len() as int) =~= combos@);
        out
    }

}

/// The default binding of each action.
pub open spec fn default_bound_input(b: Binding) -> BoundInput {
    match b {
        Binding::Quit => BoundInput { source: BoundInputSource::Keyboard(KeyCode::KeyQ), ctrl: true, shift: false, alt: false },
        Binding::Playtest => BoundInput { source: BoundInputSource::Keyboard(KeyCode::Tab), ctrl: false, shift: false, alt: false },
        Binding::Undo => BoundInput { source: BoundInputSource::Keyboard(KeyCode::KeyZ), ctrl: true, shift: false, alt: false },
        Binding::Redo => BoundInput { source: BoundInputSource::Keyboard(KeyCode::KeyZ), ctrl: true, shift: true, alt: false },
        Binding::MoveLeft => BoundInput { source: BoundInputSource::Keyboard(KeyCode::KeyA), ctrl: false, shift: false, alt: false },
        Binding::MoveRight => BoundInput { source: BoundInputSource::Keyboard(KeyCode::KeyD), ctrl: false, shift: false, alt: false },
        Binding::MoveBackwards => BoundInput { source: BoundInputSource::Keyboard(KeyCode::KeyS), ctrl: false, shift: false, alt: false },
        Binding::MoveForwards => BoundInput { source: BoundInputSource::Keyboard(KeyCode::KeyW), ctrl: false, shift: false, alt: false },
        Binding::MoveDown => BoundInput { source: BoundInputSource::Keyboard(KeyCode::KeyQ), ctrl: false, shift: false, alt: false },
        Binding::MoveUp => BoundInput { source: BoundInputSource::Keyboard(KeyCode::KeyE), ctrl: false, shift: false, alt: false },
        Binding::Jump => BoundInput { source: BoundInputSource::Keyboard(KeyCode::Space), ctrl: false, shift: false, alt: false },
        Binding::LookLeft => BoundInput { source: BoundInputSource::Keyboard(KeyCode::ArrowLeft), ctrl: false, shift: false, alt: false },
        Binding::LookRight => BoundInput { source: BoundInputSource::Keyboard(KeyCode::ArrowRight), ctrl: false, shift: false, alt: false },
        Binding::LookDown => BoundInput { source: BoundInputSource::Keyboard(KeyCode::ArrowDown), ctrl: false, shift: false, alt: false },
        Binding::LookUp => BoundInput { source: BoundInputSource::Keyboard(KeyCode::ArrowUp), ctrl: false, shift: false, alt: false },
        Binding::FlyMode => BoundInput { source: BoundInputSource::Mouse(MouseButton::Right), ctrl: false, shift: false, alt: false },
        Binding::FlySpeedUp => BoundInput { source: BoundInputSource::ScrollUp, ctrl: false, shift: false, alt: false },
        Binding::FlySpeedDown => BoundInput { source: BoundInputSource::ScrollDown, ctrl: false, shift: false, alt: false },
        Binding::SetSelAxisX => BoundInput { source: BoundInputSource::Keyboard(KeyCode::KeyX), ctrl: false, shift: false, alt: false },
        Binding::SetSelAxisY => BoundInput { source: BoundInputSource::Keyboard(KeyCode::KeyC), ctrl: false, shift: false, alt: false },
        Binding::SetSelAxisZ => BoundInput { source: BoundInputSource::Keyboard(KeyCode::KeyZ), ctrl: false, shift: false, alt: false },
        Binding::AxisLockX => BoundInput { source: BoundInputSource::Keyboard(KeyCode::KeyX), ctrl: false, shift: true, alt: false },
        Binding::AxisLockY => BoundInput { source: BoundInputSource::Keyboard(KeyCode::KeyC), ctrl: false, shift: true, alt: false },
        Binding::AxisLockZ => BoundInput { source: BoundInputSource::Keyboard(KeyCode::KeyZ), ctrl: false, shift: true, alt: false },
        Binding::AxisLockSelected => BoundInput { source: BoundInputSource::Mouse(MouseButton::Right), ctrl: false, shift: true, alt: false },
        Binding::ResetSelAxisOffset => BoundInput { source: BoundInputSource::Keyboard(KeyCode::Digit0), ctrl: false, shift: false, alt: false },
        Binding::ToggleSnap => BoundInput { source: BoundInputSource::Keyboard(KeyCode::KeyT), ctrl: false, shift: false, alt: false },
        Binding::HoldSnap => BoundInput { source: BoundInputSource::Keyboard(KeyCode::AltLeft), ctrl: false, shift: false, alt: false },
        Binding::SelNext => BoundInput { source: BoundInputSource::ScrollDown, ctrl: false, shift: true, alt: false },
        Binding::SelPrev => BoundInput { source: BoundInputSource::ScrollUp, ctrl: false, shift: true, alt: false },
    }
}

/// The input bound to each action.
pub struct InputBindingMap {
    pub bindings: Vec<(Binding, BoundInput)>,
}

/// The value bound to `b` in a table of bindings: that of the first entry
/// for `b`, if any.
pub open spec fn lookup_binding<B, V>(s: Seq<(B, V)>, b: B) -> Option<V>
    decreases s.len(),
{
    if s.len() == 0 {
        None
    } else if s[0].0 == b {
        Some(s[0].1)
    } else {
        lookup_binding(s.drop_first(), b)
    }
}

/// Looking up the key of an entry that no earlier entry shares gives that
/// entry's value.
pub(crate) proof fn lemma_lookup_binding<B, V>(s: Seq<(B, V)>, i: int)
    requires
        0 <= i < s.len(),
        forall|j: int| 0 <= j < i ==> s[j].0 != s[i].0,
    ensures
        lookup_binding(s, s[i].0) == Some(s[i].1),
    decreases i,
{
    if i > 0 {
        assert(s.drop_first()[i - 1] == s[i]);
        assert forall|j: int| 0 <= j < i - 1 implies #[trigger] s.drop_first()[j].0 != s.drop_first()[i - 1].0 by {
            assert(s.drop_first()[j] == s[j + 1]);
        }
        lemma_lookup_binding(s.drop_first(), i - 1);
    }
}

impl InputBindingMap {
    /// The input bound to an action.
    pub fn get(&self, b: &Binding) -> (r: Option<BoundInput>)
        ensures
            r == lookup_binding(self.bindings@, *b),
    {
        let mut i: usize = 0;
        assert(self.bindings@.skip(0) =~= self.bindings@);
        while i < self.bindings.len()
            invariant
                i <= self.bindings@.len(),
                lookup_binding(self.bindings@, *b) == lookup_binding(self.bindings@.skip(i as int), *b),
            decreases self.bindings@.len() - i,
        {
            assert(self.bindings@.skip(i as int)[0] == self.bindings@[i as int]);
            if self.bindings[i].0 == *b {
                return Some(self.bindings[i].1);
            }
            assert(self.bindings@.skip(i as int).drop_first() =~= self.bindings@.skip(i + 1));
            i = i + 1;
        }
        None
    }
}

impl Default for InputBindingMap {
    /// Every action bound to its default input, each action once.
    fn default() -> (r: InputBindingMap)
        ensures
            r.bindings@.len() == 30,
            forall|i: int, j: int| 0 <= i < j < r.bindings@.len() ==> r.bindings@[i].0 != r.bindings@[j].0,
            forall|b: Binding| #[trigger] lookup_binding(r.bindings@, b) == Some(default_bound_input(b)),
    {
        let mut v: Vec<(Binding, BoundInput)> = Vec::new();
        v.push((Binding::Quit, BoundInput::key(KeyCode::KeyQ).with_control()));
        v.push((Binding::Playtest, BoundInput::key(KeyCode::Tab)));
        v.push((Binding::Undo, BoundInput::key(KeyCode::KeyZ).with_control()));
        v.push((Binding::Redo, BoundInput::key(KeyCode::KeyZ).with_control().with_shift()));
        v.push((Binding::MoveLeft, BoundInput::key(KeyCode::KeyA)));
        v.push((Binding::MoveRight, BoundInput::key(KeyCode::KeyD)));
        v.push((Binding::MoveBackwards, BoundInput::key(KeyCode::KeyS)));
        v.push((Binding::MoveForwards, BoundInput::key(KeyCode::KeyW)));
        v.push((Binding::MoveDown, BoundInput::key(KeyCode::KeyQ)));
        v.push((Binding::MoveUp, BoundInput::key(KeyCode::KeyE)));
        v.push((Binding::Jump, BoundInput::key(KeyCode::Space)));
        v.push((Binding::LookLeft, BoundInput::key(KeyCode::ArrowLeft)));
        v.push((Binding::LookRight, BoundInput::key(KeyCode::ArrowRight)));
        v.push((Binding::LookDown, BoundInput::key(KeyCode::ArrowDown)));
        v.push((Binding::LookUp, BoundInput::key(KeyCode::ArrowUp)));
        v.push((Binding::FlyMode, BoundInput::mouse(MouseButton::Right)));
        v.push((Binding::FlySpeedUp, BoundInput::scroll_up()));
        v.push((Binding::FlySpeedDown, BoundInput::scroll_down()));
        v.push((Binding::SetSelAxisX, BoundInput::key(KeyCode::KeyX)));
        v.push((Binding::SetSelAxisY, BoundInput::key(KeyCode::KeyC)));
        v.push((Binding::SetSelAxisZ, BoundInput::key(KeyCode::KeyZ)));
        v.push((Binding::AxisLockX, BoundInput::key(KeyCode::KeyX).with_shift()));
        v.push((Binding::AxisLockY, BoundInput::key(KeyCode::KeyC).with_shift()));
        v.push((Binding::AxisLockZ, BoundInput::key(KeyCode::KeyZ).with_shift()));
        v.push((Binding::AxisLockSelected, BoundInput::mouse(MouseButton::Right).with_shift()));
        v.push((Binding::ResetSelAxisOffset, BoundInput::key(KeyCode::Digit0)));
        v.push((Binding::ToggleSnap, BoundInput::key(KeyCode::KeyT)));
        v.push((Binding::HoldSnap, BoundInput::key(KeyCode::AltLeft)));
        v.push((Binding::SelNext, BoundInput::scroll_down().with_shift()));
        v.push((Binding::SelPrev, BoundInput::scroll_up().with_shift()));
        proof {
            assert forall|i: int, j: int| 0 <= i < j < v@.len() implies v@[i].0 != v@[j].0 by {}
            assert forall|i: int| 0 <= i < v@.len() implies #[trigger] v@[i].1 == default_bound_input(v@[i].0) by {}
            assert forall|b: Binding| #[trigger] lookup_binding(v@, b) == Some(default_bound_input(b)) by {
                let i: int = match b {
                    Binding::Quit => 0,
                    Binding::Playtest => 1,
                    Binding::Undo => 2,
                    Binding::Redo => 3,
                    Binding::MoveLeft => 4,
                    Binding::MoveRight => 5,
                    Binding::MoveBackwards => 6,
                    Binding::MoveForwards => 7,
                    Binding::MoveDown => 8,
                    Binding::MoveUp => 9,
                    Binding::Jump => 10,
                    Binding::LookLeft => 11,
                    Binding::LookRight => 12,
                    Binding::LookDown => 13,
                    Binding::LookUp => 14,
                    Binding::FlyMode => 15,
                    Binding::FlySpeedUp => 16,
                    Binding::FlySpeedDown => 17,
                    Binding::SetSelAxisX => 18,
                    Binding::SetSelAxisY => 19,
                    Binding::SetSelAxisZ => 20,
                    Binding::AxisLockX => 21,
                    Binding::AxisLockY => 22,
                    Binding::AxisLockZ => 23,
                    Binding::AxisLockSelected => 24,
                    Binding::ResetSelAxisOffset => 25,
                    Binding::ToggleSnap => 26,
                    Binding::HoldSnap => 27,
                    Binding::SelNext => 28,
                    Binding::SelPrev => 29,
                };
                assert(v@[i].0 == b);
                lemma_lookup_binding(v@, i);
            }
        }
        InputBindingMap { bindings: v }
    }
}

/// The eight combinations of (control, shift, alt), in the order in which
/// permutations are listed.
pub open spec fn modifier_combinations() -> Seq<(bool, bool, bool)> {
    seq![
        (false, false, false),
        (true, false, false),
        (false, true, false),
        (false, false, true),
        (true, true, false),
        (false, true, true),
        (true, false, true),
        (true, true, true),
    ]
}

/// `b`'s device input under each combination of `combos`, leaving out `b`
/// itself.
pub open spec fn permutations_excluding(combos: Seq<(bool, bool, bool)>, b: BoundInput) -> Seq<
    BoundInput,
>
    decreases combos.len(),
{
    if combos.len() == 0 {
        Seq::empty()
    } else {
        let rest = permutations_excluding(combos.drop_last(), b);
        let (ctrl, shift, alt) = combos.last();
        let p = BoundInput { source: b.source, ctrl: ctrl, shift: shift, alt: alt };
        if p == b {
            rest
        } else {
            rest.push(p)
        }
    }
}

/// The permutations of a binding are the seven other modifier combinations
/// of the same device input, each once.
pub proof fn lemma_modifier_permutations(b: BoundInput)
    ensures
        permutations_excluding(modifier_combinations(), b).len() == 7,
        forall|i: int|
            0 <= i < 7 ==> {
                let p = #[trigger] permutations_excluding(modifier_combinations(), b)[i];
                &&& p.source == b.source
                &&& p != b
            },
        forall|i: int, j: int|
            0 <= i < j < 7 ==> permutations_excluding(modifier_combinations(), b)[i]
                != permutations_excluding(modifier_combinations(), b)[j],
{
    let c = modifier_combinations();
    reveal_with_fuel(permutations_excluding, 9);
    assert(c.drop_last().drop_last().drop_last().drop_last().drop_last().drop_last().drop_last().drop_last() =~= Seq::<(bool, bool, bool)>::empty());
    assert(c.drop_last() =~= seq![(false, false, false), (true, false, false), (false, true, false), (false, false, true), (true, true, false), (false, true, true), (true, false, true)]);
    assert(c.drop_last().drop_last() =~= seq![(false, false, false), (true, false, false), (false, true, false), (false, false, true), (true, true, false), (false, true, true)]);
    assert(c.drop_last().drop_last().drop_last() =~= seq![(false, false, false), (true, false, false), (false, true, false), (false, false, true), (true, true, false)]);
    assert(c.drop_last().drop_last().drop_last().drop_last() =~= seq![(false, false, false), (true, false, false), (false, true, false), (false, false, true)]);
    assert(c.drop_last().drop_last().drop_last().drop_last().drop_last() =~= seq![(false, false, false), (true, false, false), (false, true, false)]);
    assert(c.drop_last().drop_last().drop_last().drop_last().drop_last().drop_last() =~= seq![(false, false, false), (true, false, false)]);
    assert(c.drop_last().drop_last().drop_last().drop_last().drop_last().drop_last().drop_last() =~= seq![(false, false, false)]);
}

/// The last scroll of the mouse wheel in this frame.
#[derive(PartialEq, Eq, Structural, Clone, Copy, Debug)]
pub enum LastScroll {
    /// No scroll happened.
    NoScroll,
    Up,
    Down,
    /// A scroll happened, neither up nor down.
    Level,
}

/// Modifier keys held down.
#[derive(PartialEq, Eq, Structural, Clone, Copy, Debug)]
pub struct Modifiers {
    pub ctrl: bool,
    pub shift: bool,
    pub alt: bool,
}

/// What happens to a binding in a frame.
#[derive(PartialEq, Eq, Structural, Clone, Copy, Debug)]
pub struct BindingEvent {
    pub press: bool,
    pub release: bool,
}

/// Whether the device input of a binding was just pressed: for keys and
/// buttons, as reported; for scrolling, whether the last scroll went that way.
pub open spec fn source_just_pressed(src: BoundInputSource, button_just_pressed: bool, scroll: LastScroll) -> bool {
    match src {
        BoundInputSource::Keyboard(_) => button_just_pressed,
        BoundInputSource::Mouse(_) => button_just_pressed,
        BoundInputSource::ScrollUp => scroll == LastScroll::Up,
        BoundInputSource::ScrollDown => scroll == LastScroll::Down,
    }
}

/// Whether the device input of a binding was just released: for keys and
/// buttons, as reported; for scrolling, whether no scroll happened.
pub open spec fn source_just_released(src: BoundInputSource, button_just_released: bool, scroll: LastScroll) -> bool {
    match src {
        BoundInputSource::Keyboard(_) => button_just_released,
        BoundInputSource::Mouse(_) => button_just_released,
        BoundInputSource::ScrollUp => scroll == LastScroll::NoScroll,
        BoundInputSource::ScrollDown => scroll == LastScroll::NoScroll,
    }
}

/// How a binding reacts to this frame's input: it is pressed when its device
/// input was just pressed with exactly its modifiers held, and released when
/// its device input was just released, whatever the modifiers.
pub fn binding_event(
    bound: &BoundInput,
    held: Modifiers,
    button_just_pressed: bool,
    button_just_released: bool,
    scroll: LastScroll,
) -> (r: BindingEvent)
    ensures
        r.press == (held.ctrl == bound.ctrl && held.shift == bound.shift && held.alt == bound.alt
            && source_just_pressed(bound.source, button_just_pressed, scroll)),
        r.release == source_just_released(bound.source, button_just_released, scroll),
{
    let main_just_pressed = match bound.source {
        BoundInputSource::Keyboard(_) => button_just_pressed,
        BoundInputSource::Mouse(_) => button_just_pressed,
        BoundInputSource::ScrollUp => scroll == LastScroll::Up,
        BoundInputSource::ScrollDown => scroll == LastScroll::Down,
    };
    let main_just_released = match bound.source {
        BoundInputSource::Keyboard(_) => button_just_released,
        BoundInputSource::Mouse(_) => button_just_released,
        BoundInputSource::ScrollUp => scroll == LastScroll::NoScroll,
        BoundInputSource::ScrollDown => scroll == LastScroll::NoScroll,
    };
    BindingEvent {
        press: held.ctrl == bound.ctrl && held.shift == bound.shift && held.alt == bound.alt
            && main_just_pressed,
        release: main_just_released,
    }
}

/// Axes driven by pairs of opposite bindings.
#[derive(PartialEq, Eq, Structural, Clone, Copy, Debug, Hash)]
pub enum BindingAxis {
    MoveX,
    MoveY,
    MoveZ,
    LookX,
    LookY,
}

/// The binding that pushes an axis towards its positive end.
pub open spec fn axis_positive(axis: BindingAxis) -> Binding {
    match axis {
        BindingAxis::MoveX => Binding::MoveRight,
        BindingAxis::MoveY => Binding::MoveUp,
        BindingAxis::MoveZ => Binding::MoveBackwards,
        BindingAxis::LookX => Binding::LookRight,
        BindingAxis::LookY => Binding::LookUp,
    }
}

/// The binding that pushes an axis towards its negative end.
pub open spec fn axis_negative(axis: BindingAxis) -> Binding {
    match axis {
        BindingAxis::MoveX => Binding::MoveLeft,
        BindingAxis::MoveY => Binding::MoveDown,
        BindingAxis::MoveZ => Binding::MoveForwards,
        BindingAxis::LookX => Binding::LookLeft,
        BindingAxis::LookY => Binding::LookDown,
    }
}

/// 1 when `b` is among the pressed bindings, 0 otherwise.
pub open spec fn pressed_value(pressed: Seq<Binding>, b: Binding) -> int {
    if pressed.contains(b) { 1 } else { 0 }
}

/// Which binding drives each end of each axis: right, up, backwards, right
/// and up push the axes towards their positive ends; left, down, forwards,
/// left and down towards their negative ends.
pub proof fn lemma_axis_bindings()
    ensures
        axis_positive(BindingAxis::MoveX) == Binding::MoveRight,
        axis_negative(BindingAxis::MoveX) == Binding::MoveLeft,
        axis_positive(BindingAxis::MoveY) == Binding::MoveUp,
        axis_negative(BindingAxis::MoveY) == Binding::MoveDown,
        axis_positive(BindingAxis::MoveZ) == Binding::MoveBackwards,
        axis_negative(BindingAxis::MoveZ) == Binding::MoveForwards,
        axis_positive(BindingAxis::LookX) == Binding::LookRight,
        axis_negative(BindingAxis::LookX) == Binding::LookLeft,
        axis_positive(BindingAxis::LookY) == Binding::LookUp,
        axis_negative(BindingAxis::LookY) == Binding::LookDown,
{
}

fn is_pressed(pressed: &Vec<Binding>, b: Binding) -> (r: bool)
    ensures
        r == pressed@.contains(b),
{
    let mut i: usize = 0;
    while i < pressed.len()
        invariant
            i <= pressed@.len(),
            forall|j: int| 0 <= j < i ==> pressed@[j] != b,
        decreases pressed@.len() - i,
    {
        if pressed[i] == b {
            assert(pressed@[i as int] == b);
            return true;
        }
        i = i + 1;
    }
    false
}

/// The value of an axis given the pressed bindings: 1 when only its positive
/// binding is pressed, -1 when only its negative one is, 0 otherwise.
pub fn axis_value(pressed: &Vec<Binding>, axis: BindingAxis) -> (r: i32)
    ensures
        r == (if pressed@.contains(axis_positive(axis)) { 1int } else { 0int }) - (if pressed@.contains(axis_negative(axis)) { 1int } else { 0int }),
        r == match axis {
            BindingAxis::MoveX => pressed_value(pressed@, Binding::MoveRight) - pressed_value(pressed@, Binding::MoveLeft),
            BindingAxis::MoveY => pressed_value(pressed@, Binding::MoveUp) - pressed_value(pressed@, Binding::MoveDown),
            BindingAxis::MoveZ => pressed_value(pressed@, Binding::MoveBackwards) - pressed_value(pressed@, Binding::MoveForwards),
            BindingAxis::LookX => pressed_value(pressed@, Binding::LookRight) - pressed_value(pressed@, Binding::LookLeft),
            BindingAxis::LookY => pressed_value(pressed@, Binding::LookUp) - pressed_value(pressed@, Binding::LookDown),
        },
{
    proof {
        lemma_axis_bindings();
    }
    let (pos, neg) = match axis {
        BindingAxis::MoveX => (Binding::MoveRight, Binding::MoveLeft),
        BindingAxis::MoveY => (Binding::MoveUp, Binding::MoveDown),
        BindingAxis::MoveZ => (Binding::MoveBackwards, Binding::MoveForwards),
        BindingAxis::LookX => (Binding::LookRight, Binding::LookLeft),
        BindingAxis::LookY => (Binding::LookUp, Binding::LookDown),
    };
    let p: i32 = if is_pressed(pressed, pos) { 1 } else { 0 };
    let n: i32 = if is_pressed(pressed, neg) { 1 } else { 0 };
    p - n
}

} // verus!
