use mallet::checksum::{Checksum, Object};
use mallet::id::Id;
use mallet::media::{
    sources_to_sync, MediaCollection, MediaDiff, MediaMeta, MediaSrc, SyncAction, WatchEventKind,
};

fn meta(path: &str, contents: &str) -> MediaMeta {
    MediaMeta {
        path: path.as_bytes().to_vec(),
        hash: Object::checksum(contents.as_bytes()),
        dupe_idx: None,
    }
}

#[test]
fn diff_cases() {
    let a = meta("a.png", "x");
    assert_eq!(a.diff(&meta("a.png", "x")), MediaDiff::Identical);
    assert_eq!(a.diff(&meta("a.png", "y")), MediaDiff::SamePath);
    assert_eq!(a.diff(&meta("b.png", "x")), MediaDiff::SameContent);
    assert_eq!(a.diff(&meta("b.png", "y")), MediaDiff::Unrelated);
}

#[test]
fn diff_ignores_dupe_index() {
    let a = meta("a.png", "x");
    let mut b = meta("a.png", "x");
    b.dupe_idx = Some(3);
    assert_eq!(a.diff(&b), MediaDiff::Identical);
}

#[test]
fn scan_of_new_file_creates_it() {
    let c: MediaCollection<()> = MediaCollection::new();
    assert_eq!(c.sync_action(&MediaSrc::Base, &meta("a.png", "x")), SyncAction::CreateFresh);
}

#[test]
fn scan_of_registered_file_does_nothing() {
    let mut c: MediaCollection<()> = MediaCollection::new();
    c.insert(Id(1), MediaSrc::Base, meta("a.png", "x"), ());
    assert_eq!(c.sync_action(&MediaSrc::Base, &meta("a.png", "x")), SyncAction::NoOp);
}

#[test]
fn scan_of_modified_file_reloads_it() {
    let mut c: MediaCollection<()> = MediaCollection::new();
    c.insert(Id(1), MediaSrc::Base, meta("a.png", "x"), ());
    c.insert(Id(2), MediaSrc::Base, meta("b.png", "z"), ());
    assert_eq!(c.sync_action(&MediaSrc::Base, &meta("a.png", "y")), SyncAction::Reload(Id(1)));
}

#[test]
fn scan_of_copied_file_does_nothing() {
    let mut c: MediaCollection<()> = MediaCollection::new();
    c.insert(Id(1), MediaSrc::Base, meta("a.png", "x"), ());
    assert_eq!(c.sync_action(&MediaSrc::Base, &meta("copy.png", "x")), SyncAction::NoOp);
}

#[test]
fn scan_looks_only_at_its_source() {
    let mut c: MediaCollection<()> = MediaCollection::new();
    c.insert(Id(1), MediaSrc::InMap, meta("a.png", "x"), ());
    assert_eq!(c.sync_action(&MediaSrc::Base, &meta("a.png", "x")), SyncAction::CreateFresh);
}

#[test]
fn purge_and_list_by_source() {
    let mut c: MediaCollection<u8> = MediaCollection::new();
    c.insert(Id(1), MediaSrc::Base, meta("a.png", "x"), 1);
    c.insert(Id(2), MediaSrc::InMap, meta("b.png", "y"), 2);
    c.insert(Id(3), MediaSrc::Base, meta("c.png", "z"), 3);
    let mut base = c.source_ids(&MediaSrc::Base);
    base.sort();
    assert_eq!(base, vec![Id(1), Id(3)]);
    c.purge_source(&MediaSrc::Base);
    assert!(c.get(&Id(1)).is_none());
    assert!(c.get(&Id(3)).is_none());
    assert_eq!(c.get(&Id(2)).unwrap().content, 2);
    c.remove(&Id(2));
    assert!(c.get(&Id(2)).is_none());
}

#[test]
fn insert_all_registers_loaded_media() {
    let mut c: MediaCollection<u8> = MediaCollection::new();
    c.insert_all(
        &MediaSrc::InMap,
        vec![(Id(1), meta("a.png", "x"), 1), (Id(2), meta("b.png", "y"), 2)],
    );
    let m = c.get(&Id(2)).unwrap();
    assert_eq!(m.source, MediaSrc::InMap);
    assert_eq!(m.content, 2);
    assert_eq!(m.meta.path, b"b.png".to_vec());
}

#[test]
fn watch_events_select_sources_once() {
    let out = sources_to_sync(&vec![
        (MediaSrc::Base, WatchEventKind::Other),
        (MediaSrc::InMap, WatchEventKind::Modify),
        (MediaSrc::InMap, WatchEventKind::Create),
        (MediaSrc::Base, WatchEventKind::Remove),
    ]);
    assert_eq!(out, vec![MediaSrc::InMap, MediaSrc::Base]);
    assert!(sources_to_sync(&vec![(MediaSrc::Base, WatchEventKind::Other)]).is_empty());
}

#[test]
fn checksum_compares_contents() {
    assert_ne!(meta("a", "x").hash, Checksum::nil());
}
