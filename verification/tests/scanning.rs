use mallet::checksum::Object;
use mallet::id::{Id, IdGen};
use mallet::media::{MediaCollection, MediaMeta, MediaSrc, ScanOutcome};

fn meta(path: &str, contents: &str) -> MediaMeta {
    MediaMeta { path: path.as_bytes().to_vec(), hash: Object::checksum(contents.as_bytes()), dupe_idx: None }
}

#[test]
fn scan_registers_new_file_once() {
    let mut media: MediaCollection<u8> = MediaCollection::new();
    let mut gen = IdGen::new();
    let r = media.register_scanned(&MediaSrc::Base, meta("a.png", "x"), 1, &mut gen).unwrap();
    let id = match r {
        ScanOutcome::Registered(id) => id,
        other => panic!("{:?}", other),
    };
    let m = media.get(&id).unwrap();
    assert_eq!(m.source, MediaSrc::Base);
    assert_eq!(m.meta.path, b"a.png".to_vec());
    assert_eq!(m.content, 1);
    // the same file again: nothing changes
    let again = media.register_scanned(&MediaSrc::Base, meta("a.png", "x"), 2, &mut gen).unwrap();
    assert_eq!(again, ScanOutcome::Unchanged);
    assert_eq!(media.get(&id).unwrap().content, 1);
    assert_eq!(media.source_ids(&MediaSrc::Base), vec![id]);
}

#[test]
fn scan_reports_modified_and_copies() {
    let mut media: MediaCollection<u8> = MediaCollection::new();
    let mut gen = IdGen::new();
    let first = media.register_scanned(&MediaSrc::Base, meta("a.png", "x"), 1, &mut gen).unwrap();
    let ScanOutcome::Registered(id) = first else { panic!("not registered") };
    let changed = media.register_scanned(&MediaSrc::Base, meta("a.png", "y"), 2, &mut gen).unwrap();
    assert_eq!(changed, ScanOutcome::Modified(id));
    let copy = media.register_scanned(&MediaSrc::Base, meta("b.png", "x"), 3, &mut gen).unwrap();
    assert_eq!(copy, ScanOutcome::Unchanged);
    assert_eq!(media.source_ids(&MediaSrc::Base).len(), 1);
}

#[test]
fn scan_registered_ids_increase_and_never_overwrite() {
    let mut media: MediaCollection<u8> = MediaCollection::new();
    let mut gen = IdGen::new();
    let mut ids: Vec<Id> = Vec::new();
    for i in 0..20u8 {
        let name = format!("f{}.png", i);
        let contents = format!("c{}", i);
        match media.register_scanned(&MediaSrc::InMap, meta(&name, &contents), i, &mut gen).unwrap() {
            ScanOutcome::Registered(id) => ids.push(id),
            other => panic!("{:?}", other),
        }
    }
    for w in ids.windows(2) {
        assert!(w[0] < w[1]);
    }
    assert_eq!(media.source_ids(&MediaSrc::InMap).len(), 20);
}

#[test]
fn rescan_of_same_files_changes_nothing() {
    let files = vec![meta("a.png", "x"), meta("b.png", "x"), meta("c.png", "z")];
    let mut media: MediaCollection<u8> = MediaCollection::new();
    let mut gen = IdGen::new();
    for f in files.iter() {
        media.register_scanned(&MediaSrc::Base, f.clone(), 0, &mut gen).unwrap();
    }
    let before = media.source_ids(&MediaSrc::Base);
    assert_eq!(before.len(), 2);
    for f in files.iter() {
        let r = media.register_scanned(&MediaSrc::Base, f.clone(), 9, &mut gen).unwrap();
        assert_eq!(r, ScanOutcome::Unchanged);
    }
    assert_eq!(media.source_ids(&MediaSrc::Base), before);
}

#[test]
fn scan_files_reports_each_step() {
    let mut media: MediaCollection<u8> = MediaCollection::new();
    let mut gen = IdGen::new();
    let files = vec![(meta("a.png", "x"), 1u8), (meta("b.png", "x"), 2u8), (meta("c.png", "y"), 3u8)];
    let outs = media.scan_files(&MediaSrc::Base, files, &mut gen).unwrap();
    assert_eq!(outs.len(), 3);
    assert!(matches!(outs[0], ScanOutcome::Registered(_)));
    assert_eq!(outs[1], ScanOutcome::Unchanged);
    assert!(matches!(outs[2], ScanOutcome::Registered(_)));
    let again = vec![(meta("a.png", "x"), 7u8), (meta("b.png", "x"), 8u8), (meta("c.png", "y"), 9u8)];
    let outs2 = media.scan_files(&MediaSrc::Base, again, &mut gen).unwrap();
    assert_eq!(outs2, vec![ScanOutcome::Unchanged; 3]);
    assert_eq!(media.source_ids(&MediaSrc::Base).len(), 2);
}

#[test]
fn remove_stale_drops_missing_paths_of_any_source() {
    let mut media: MediaCollection<u8> = MediaCollection::new();
    media.insert(Id(1), MediaSrc::Base, meta("a.png", "x"), 0);
    media.insert(Id(2), MediaSrc::InMap, meta("gone.png", "y"), 0);
    media.insert(Id(3), MediaSrc::Base, meta("sub/c.png", "z"), 0);
    let present = vec![b"a.png".to_vec(), b"sub/c.png".to_vec(), b"other.txt".to_vec()];
    let removed = media.remove_stale(&present);
    assert_eq!(removed, vec![Id(2)]);
    assert!(media.get(&Id(1)).is_some());
    assert!(media.get(&Id(2)).is_none());
    assert!(media.get(&Id(3)).is_some());
    assert!(media.remove_stale(&present).is_empty());
}

#[test]
fn renamed_file_is_registered_again_on_the_next_sync() {
    // old.png was registered, then renamed to new.png with the same contents
    let mut media: MediaCollection<u8> = MediaCollection::new();
    let mut gen = IdGen::new();
    media.scan_files(&MediaSrc::Base, vec![(meta("old.png", "x"), 0)], &mut gen).unwrap();
    let present = vec![b"new.png".to_vec()];
    let first = media.scan_files(&MediaSrc::Base, vec![(meta("new.png", "x"), 0)], &mut gen).unwrap();
    assert_eq!(first, vec![ScanOutcome::Unchanged]);
    assert_eq!(media.remove_stale(&present).len(), 1);
    let second = media.scan_files(&MediaSrc::Base, vec![(meta("new.png", "x"), 0)], &mut gen).unwrap();
    assert!(matches!(second[0], ScanOutcome::Registered(_)));
}
