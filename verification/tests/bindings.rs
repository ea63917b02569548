use mallet::core_binds::{
    axis_value, binding_event, Binding, BindingAxis, BoundInput, BoundInputSource, InputBindingMap,
    LastScroll, Modifiers,
};
use mallet::input_binding;
use mallet::keybinds::{keybind_event, KeyBind, KeyBindKind, KeyBindValue, KeyBinds};
use mallet::keys::{KeyCode, MouseButton};

fn mods(ctrl: bool, shift: bool, alt: bool) -> Modifiers {
    Modifiers { ctrl, shift, alt }
}

#[test]
fn default_map_binds_every_action_once() {
    let map = InputBindingMap::default();
    assert_eq!(map.bindings.len(), 30);
    for i in 0..map.bindings.len() {
        for j in (i + 1)..map.bindings.len() {
            assert_ne!(map.bindings[i].0, map.bindings[j].0);
        }
    }
}

#[test]
fn default_map_values() {
    let map = InputBindingMap::default();
    assert_eq!(map.get(&Binding::Quit), Some(BoundInput::key(KeyCode::KeyQ).with_control()));
    assert_eq!(
        map.get(&Binding::Redo),
        Some(BoundInput::key(KeyCode::KeyZ).with_control().with_shift())
    );
    assert_eq!(map.get(&Binding::FlyMode), Some(BoundInput::mouse(MouseButton::Right)));
    assert_eq!(map.get(&Binding::FlySpeedUp), Some(BoundInput::scroll_up()));
    assert_eq!(map.get(&Binding::SelNext), Some(BoundInput::scroll_down().with_shift()));
    assert_eq!(
        map.get(&Binding::AxisLockSelected),
        Some(BoundInput::mouse(MouseButton::Right).with_shift())
    );
}

#[test]
fn lookup_of_missing_binding_is_none() {
    let map = InputBindingMap { bindings: vec![(Binding::Jump, BoundInput::key(KeyCode::Space))] };
    assert_eq!(map.get(&Binding::Jump), Some(BoundInput::key(KeyCode::Space)));
    assert_eq!(map.get(&Binding::Quit), None);
}

#[test]
fn lookup_takes_first_entry() {
    let map = InputBindingMap {
        bindings: vec![
            (Binding::Jump, BoundInput::key(KeyCode::Space)),
            (Binding::Jump, BoundInput::key(KeyCode::KeyE)),
        ],
    };
    assert_eq!(map.get(&Binding::Jump), Some(BoundInput::key(KeyCode::Space)));
}

#[test]
fn modifier_setters() {
    let b = BoundInput::key(KeyCode::KeyA).with_alt();
    assert_eq!(
        b,
        BoundInput { source: BoundInputSource::Keyboard(KeyCode::KeyA), ctrl: false, shift: false, alt: true }
    );
}

#[test]
fn modifier_permutations_are_the_other_seven() {
    let b = BoundInput::key(KeyCode::KeyZ).with_control();
    let p = b.modifier_permutations();
    assert_eq!(p.len(), 7);
    assert!(!p.contains(&b));
    let src = BoundInputSource::Keyboard(KeyCode::KeyZ);
    let expected = vec![
        (false, false, false),
        (false, true, false),
        (false, false, true),
        (true, true, false),
        (false, true, true),
        (true, false, true),
        (true, true, true),
    ];
    for (i, (ctrl, shift, alt)) in expected.into_iter().enumerate() {
        assert_eq!(p[i], BoundInput { source: src, ctrl, shift, alt });
    }
}

#[test]
fn key_press_needs_exact_modifiers() {
    let undo = BoundInput::key(KeyCode::KeyZ).with_control();
    let ev = binding_event(&undo, mods(true, false, false), true, false, LastScroll::NoScroll);
    assert!(ev.press);
    assert!(!ev.release);
    let ev = binding_event(&undo, mods(true, true, false), true, false, LastScroll::NoScroll);
    assert!(!ev.press);
    let ev = binding_event(&undo, mods(false, true, false), false, true, LastScroll::NoScroll);
    assert!(!ev.press);
    assert!(ev.release);
}

#[test]
fn scroll_press_and_release() {
    let up = BoundInput::scroll_up();
    let ev = binding_event(&up, mods(false, false, false), false, false, LastScroll::Up);
    assert!(ev.press);
    assert!(!ev.release);
    let ev = binding_event(&up, mods(false, false, false), false, false, LastScroll::Down);
    assert!(!ev.press);
    assert!(!ev.release);
    let ev = binding_event(&up, mods(false, false, false), true, false, LastScroll::NoScroll);
    assert!(!ev.press);
    assert!(ev.release);
    let down = BoundInput::scroll_down();
    let ev = binding_event(&down, mods(false, false, false), false, false, LastScroll::Level);
    assert!(!ev.press);
    assert!(!ev.release);
}

#[test]
fn axis_values() {
    let pressed = vec![Binding::MoveRight];
    assert_eq!(axis_value(&pressed, BindingAxis::MoveX), 1);
    let pressed = vec![Binding::MoveLeft, Binding::Jump];
    assert_eq!(axis_value(&pressed, BindingAxis::MoveX), -1);
    let pressed = vec![Binding::MoveLeft, Binding::MoveRight];
    assert_eq!(axis_value(&pressed, BindingAxis::MoveX), 0);
    let pressed = vec![Binding::MoveForwards];
    assert_eq!(axis_value(&pressed, BindingAxis::MoveZ), -1);
    assert_eq!(axis_value(&pressed, BindingAxis::LookY), 0);
    assert_eq!(axis_value(&vec![], BindingAxis::LookX), 0);
}

#[test]
fn input_bindings_defaults() {
    let map = input_binding::InputBindings::default();
    assert_eq!(map.bindings.len(), 27);
    assert_eq!(
        map.get(&input_binding::Binding::AxisLockSelected),
        Some(input_binding::BoundInput::mouse_button(MouseButton::Middle))
    );
    assert_eq!(
        map.get(&input_binding::Binding::Quit),
        Some(input_binding::BoundInput::key(KeyCode::KeyQ).with_control())
    );
}

#[test]
fn input_bindings_scroll_event() {
    let b = input_binding::BoundInput::scroll_down().with_shift();
    let held = input_binding::Modifiers { ctrl: false, shift: true, alt: false };
    let ev = input_binding::binding_event(&b, held, false, false, input_binding::LastScroll::Down);
    assert!(ev.press);
    assert!(!ev.release);
}

#[test]
fn keybinds_defaults() {
    let binds = KeyBinds::default();
    assert_eq!(binds.bindings.len(), 18);
    assert_eq!(
        binds.get(&KeyBind::AxisLockX),
        Some(KeyBindValue { kind: KeyBindKind::Keyboard(KeyCode::KeyX), ctrl: false, shift: true, alt: false })
    );
    assert_eq!(binds.get(&KeyBind::FlyMode), Some(KeyBindValue::mouse_button(MouseButton::Right)));
}

#[test]
fn keybind_event_modifiers() {
    let quit = KeyBindValue::key(KeyCode::KeyQ).with_control();
    let ev = keybind_event(&quit, mods_kb(true, false, false), true, false);
    assert!(ev.press);
    let ev = keybind_event(&quit, mods_kb(true, false, true), true, true);
    assert!(!ev.press);
    assert!(ev.release);
}

fn mods_kb(ctrl: bool, shift: bool, alt: bool) -> mallet::keybinds::Modifiers {
    mallet::keybinds::Modifiers { ctrl, shift, alt }
}
