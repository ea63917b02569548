use mallet::elements::{ElemMeta, ElemRole, ElemState, NewElemId, NewMeta, State};
use mallet::checksum::Checksum;
use mallet::id::Id;
use mallet::modes::{
    ensure_exists, modify_freelook_speed, toggled_light_visibility, AppState, ClickBlocker, CreateId,
    Interaction, LockedAxis, NotFound, SelAxis, SelIsAxisLocked, SelMode, Visibility,
    FREELOOK_MAX_SPEED, FREELOOK_MIN_SPEED,
};
use mallet::store_keys::{snapshot_state_key, NodeKind, CONTENT_KEY, STATE_KEY};

#[test]
fn app_state_toggles_back_and_forth() {
    assert_eq!(AppState::InEditor.toggled(), AppState::InGame);
    assert_eq!(AppState::InEditor.toggled().toggled(), AppState::InEditor);
}

#[test]
fn axis_lock_toggling() {
    let m = SelMode::Normal.toggle_axis_lock(SelAxis::Y);
    assert_eq!(m, SelMode::AxisLocked(SelAxis::Y));
    assert!(m.is_axis_locked());
    assert_eq!(m.toggle_axis_lock(SelAxis::X), SelMode::AxisLocked(SelAxis::X));
    assert_eq!(m.toggle_axis_lock(SelAxis::Y), SelMode::Normal);
    assert!(!SelMode::Normal.is_axis_locked());
}

#[test]
fn axis_lock_markers() {
    assert_eq!(SelIsAxisLocked::compute(SelMode::Normal), None);
    assert_eq!(SelIsAxisLocked::compute(SelMode::AxisLocked(SelAxis::Z)), Some(SelIsAxisLocked));
    assert_eq!(LockedAxis::compute(SelMode::Normal), None);
    let l = LockedAxis::compute(SelMode::AxisLocked(SelAxis::Z)).unwrap();
    assert_eq!(*l.get_axis(), SelAxis::Z);
}

#[test]
fn freelook_speed_is_clamped() {
    assert_eq!(modify_freelook_speed(5, 1), 6);
    assert_eq!(modify_freelook_speed(10, 1), FREELOOK_MAX_SPEED);
    assert_eq!(modify_freelook_speed(1, -1), FREELOOK_MIN_SPEED);
    assert_eq!(modify_freelook_speed(3, -20), 1);
    assert_eq!(modify_freelook_speed(3, 20), 10);
}

#[test]
fn light_visibility_toggle() {
    assert_eq!(toggled_light_visibility(Visibility::Hidden), Visibility::Inherited);
    assert_eq!(toggled_light_visibility(Visibility::Inherited), Visibility::Hidden);
    assert_eq!(toggled_light_visibility(Visibility::Visible), Visibility::Hidden);
}

#[test]
fn click_blocker_tracks_interactions() {
    let mut b = ClickBlocker::new();
    assert!(b.can_click());
    b.note_interaction(3, Interaction::Hovered);
    assert!(!b.can_click());
    b.note_interaction(4, Interaction::Pressed);
    b.note_interaction(3, Interaction::Untouched);
    assert!(!b.can_click());
    b.note_interaction(4, Interaction::Untouched);
    assert!(b.can_click());
    b.note_interaction(9, Interaction::Untouched);
    assert!(b.can_click());
}

#[test]
fn create_ids() {
    assert_eq!(CreateId::Loaded(Id(7)).loaded_id_or_none(), Some(Id(7)));
    assert_eq!(CreateId::Generated.loaded_id_or_none(), None);
    assert_eq!(NewElemId::Loaded(Id(8)).loaded_id_or_none(), Some(Id(8)));
    assert_eq!(NewElemId::Generated.loaded_id_or_none(), None);
}

#[test]
fn missing_values_are_not_found() {
    assert_eq!(ensure_exists(Some(4u8)), Ok(4u8));
    assert_eq!(ensure_exists::<u8>(None), Err(NotFound));
}

#[test]
fn element_metadata_conversions() {
    let new = NewMeta { name: String::from("wall") };
    let meta = ElemMeta::from_new(&new, ElemRole::Light);
    assert_eq!(meta.name, "wall");
    assert_eq!(meta.role, ElemRole::Light);
    let back: NewMeta = NewMeta::from(meta);
    assert_eq!(back.name, "wall");
}

#[test]
fn element_state_params_and_empty_state() {
    let s = ElemState { id: Id(1), meta: Checksum::nil(), params: Checksum::from_bytes(&[5u8; 32]) };
    assert_eq!(*s.params(), Checksum::from_bytes(&[5u8; 32]));
    assert!(State::empty().elements.is_empty());
}

#[test]
fn store_keys() {
    assert_eq!(NodeKind::Brush.as_byte(), 0);
    assert_eq!(NodeKind::Light.as_byte(), 1);
    assert_eq!(NodeKind::Light.to_node_content_key(), vec![CONTENT_KEY, 1]);
    let k = snapshot_state_key(&Id(0x0102));
    assert_eq!(k.len(), 17);
    assert_eq!(k[0], STATE_KEY);
    assert_eq!(k[15], 0x01);
    assert_eq!(k[16], 0x02);
}
