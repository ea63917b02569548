use mallet::checksum::{Checksum, Object};
use mallet::id::Id;
use mallet::restore::{plan_restore, RestoreStep};
use mallet::lookup::{ElementLookup, Entity};
use mallet::state::{apply_state_changes, ElementState, MapState, StateChange};

fn c(tag: u8) -> Checksum {
    Object::checksum(&[tag])
}

#[test]
fn set_info_on_new_element() {
    let mut state = MapState::new();
    state.apply_change(&StateChange::SetInfo { id: Id(1), info: c(1) });
    let e = state.elements.get(&Id(1)).unwrap();
    assert_eq!(e.role, None);
    assert_eq!(e.info, c(1));
    assert_eq!(e.params, Checksum::nil());
}

#[test]
fn set_params_on_new_element() {
    let mut state = MapState::new();
    state.apply_change(&StateChange::SetParams { id: Id(1), role: 7, params: c(2) });
    let e = state.elements.get(&Id(1)).unwrap();
    assert_eq!(e.role, Some(7));
    assert_eq!(e.info, Checksum::nil());
    assert_eq!(e.params, c(2));
}

#[test]
fn changes_keep_the_other_half() {
    let mut state = MapState::new();
    apply_state_changes(
        &mut state,
        &vec![
            StateChange::SetInfo { id: Id(1), info: c(1) },
            StateChange::SetParams { id: Id(1), role: 7, params: c(2) },
            StateChange::SetInfo { id: Id(2), info: c(3) },
            StateChange::SetInfo { id: Id(1), info: c(4) },
        ],
    );
    let e = state.elements.get(&Id(1)).unwrap();
    assert_eq!(e.role, Some(7));
    assert_eq!(e.info, c(4));
    assert_eq!(e.params, c(2));
    assert!(state.elements.contains_key(&Id(2)));
    assert_eq!(state.elements.len(), 2);
}

#[test]
fn synced_element_needs_no_second_sync() {
    let mut state = MapState::new();
    assert!(state.needs_info_sync(&Id(1), &c(1)));
    state.apply_change(&StateChange::SetInfo { id: Id(1), info: c(1) });
    assert!(!state.needs_info_sync(&Id(1), &c(1)));
    assert!(state.needs_info_sync(&Id(1), &c(2)));
    assert!(state.needs_params_sync(&Id(1), &c(2)));
    state.apply_change(&StateChange::SetParams { id: Id(1), role: 3, params: c(2) });
    assert!(!state.needs_params_sync(&Id(1), &c(2)));
}

#[test]
fn applying_a_change_twice_is_applying_it_once() {
    let change = StateChange::SetParams { id: Id(9), role: 1, params: c(5) };
    let mut once = MapState::new();
    once.apply_change(&change);
    let mut twice = MapState::new();
    twice.apply_change(&change);
    twice.apply_change(&change);
    let a = once.elements.get(&Id(9)).unwrap();
    let b = twice.elements.get(&Id(9)).unwrap();
    assert_eq!(a.role, b.role);
    assert_eq!(a.info, b.info);
    assert_eq!(a.params, b.params);
    assert_eq!(twice.elements.len(), 1);
}

fn elem(role: u64, info: u8, params: u8) -> ElementState {
    ElementState { role: Some(role), info: c(info), params: c(params) }
}

#[test]
fn restore_plan_updates_creates_and_despawns() {
    let mut cur = MapState::new();
    cur.elements.insert(Id(1), elem(5, 1, 1));
    cur.elements.insert(Id(2), elem(5, 2, 2));
    cur.elements.insert(Id(3), elem(5, 3, 3));
    let mut target = MapState::new();
    target.elements.insert(Id(1), elem(5, 1, 1)); // unchanged
    target.elements.insert(Id(2), elem(5, 9, 8)); // info and params changed
    target.elements.insert(Id(4), elem(6, 4, 4)); // new
    let mut lookup = ElementLookup::new();
    lookup.insert(Id(1), Entity(100));
    lookup.insert(Id(2), Entity(200));
    lookup.insert(Id(3), Entity(300));

    let plan = plan_restore(&cur, &target, &lookup);
    assert_eq!(plan.despawn, vec![Entity(300)]);
    assert_eq!(plan.steps.len(), 3);
    match plan.steps[0] {
        RestoreStep::UpdateInfo { id, info } => {
            assert_eq!(id, Id(2));
            assert_eq!(info, c(9));
        }
        _ => panic!("expected an info update"),
    }
    match plan.steps[1] {
        RestoreStep::UpdateParams { id, role, params } => {
            assert_eq!(id, Id(2));
            assert_eq!(role, 5);
            assert_eq!(params, c(8));
        }
        _ => panic!("expected a parameter update"),
    }
    match plan.steps[2] {
        RestoreStep::Create { id, role, info, params } => {
            assert_eq!(id, Id(4));
            assert_eq!(role, 6);
            assert_eq!(info, c(4));
            assert_eq!(params, c(4));
        }
        _ => panic!("expected a creation"),
    }
}

#[test]
fn restoring_the_current_state_does_nothing() {
    let mut cur = MapState::new();
    cur.elements.insert(Id(1), elem(5, 1, 1));
    let mut target = MapState::new();
    target.elements.insert(Id(1), elem(5, 1, 1));
    let mut lookup = ElementLookup::new();
    lookup.insert(Id(1), Entity(100));
    let plan = plan_restore(&cur, &target, &lookup);
    assert!(plan.steps.is_empty());
    assert!(plan.despawn.is_empty());
}
