use mallet::id::Id;
use mallet::idmap::IdMap;
use mallet::lookup::{ElementEntity, ElementId, ElementLookup, ElementLookupError, Entity};

#[test]
fn find_known_and_unknown() {
    let mut lookup = ElementLookup::new();
    lookup.insert(Id(1), Entity(10));
    assert_eq!(lookup.find(&Id(1)), Ok(Entity(10)));
    assert_eq!(lookup.find(&Id(2)), Err(ElementLookupError(Id(2))));
}

#[test]
fn track_added_and_removed_entities() {
    let mut lookup = ElementLookup::new();
    lookup.insert(Id(1), Entity(10));
    lookup.insert(Id(2), Entity(20));
    lookup.track_element_ids(
        &vec![
            ElementEntity { element_id: Id(3), entity: Entity(30) },
            ElementEntity { element_id: Id(4), entity: Entity(20) },
        ],
        &vec![Entity(20)],
    );
    assert_eq!(lookup.find(&Id(1)), Ok(Entity(10)));
    assert!(lookup.find(&Id(2)).is_err());
    assert_eq!(lookup.find(&Id(3)), Ok(Entity(30)));
    assert!(lookup.find(&Id(4)).is_err());
    let pairs = lookup.iter();
    assert_eq!(pairs.len(), 2);
}

#[test]
fn element_id_accessors() {
    let e = ElementId::new(Id(42));
    assert_eq!(*e.id_ref(), Id(42));
}

#[test]
fn id_map_insert_replaces_and_keeps_position() {
    let mut m: IdMap<&str> = IdMap::new();
    m.insert(Id(1), "a");
    m.insert(Id(2), "b");
    m.insert(Id(1), "c");
    assert_eq!(m.len(), 2);
    assert_eq!(m.key_at(0), Id(1));
    assert_eq!(*m.value_at(0), "c");
    assert_eq!(m.get(&Id(2)), Some(&"b"));
    assert_eq!(m.get(&Id(3)), None);
}

#[test]
fn id_map_remove_keeps_order() {
    let mut m: IdMap<u32> = IdMap::new();
    for i in 1..=4 {
        m.insert(Id(i), i as u32 * 10);
    }
    assert_eq!(m.remove(&Id(2)), Some(20));
    assert_eq!(m.remove(&Id(2)), None);
    assert_eq!(m.len(), 3);
    assert_eq!(m.key_at(0), Id(1));
    assert_eq!(m.key_at(1), Id(3));
    assert_eq!(m.key_at(2), Id(4));
    assert!(!m.contains_key(&Id(2)));
}
