//! Media bookkeeping: the metadata of media files, how two of them relate,
//! the per-source collections of loaded media, and what a directory scan
//! decides for each file it finds.

use vstd::prelude::*;

use crate::checksum::Checksum;
use crate::id::{random_bits_exhausted, Id, IdGen, IdGenError};
use crate::idmap::IdMap;

verus! {

/// Where a media file comes from.
#[derive(PartialEq, Eq, Structural, Clone, Copy, Debug, Hash)]
pub enum MediaSrc {
    Base,
    /// Media that belong to the open map.
    InMap,
}

/// Metadata of a media file.
#[derive(Clone, Debug)]
pub struct MediaMeta {
    /// Path of the file below its source's base directory, as the bytes of
    /// its components joined by `/`.
    pub path: Vec<u8>,
    /// Checksum of the file's contents.
    pub hash: Checksum,
    /// Index among files with the same contents, if set.
    pub dupe_idx: Option<u32>,
}

/// How two media files relate.
#[derive(PartialEq, Eq, Structural, Clone, Copy, Debug)]
pub enum MediaDiff {
    Identical,
    SamePath,
    SameContent,
    Unrelated,
}

/// How `a` relates to `b`: by whether their paths and their contents agree.
pub open spec fn diff_spec(a: MediaMeta, b: MediaMeta) -> MediaDiff {
    let same_path = a.path@ == b.path@;
    let same_hash = a.hash.0@ == b.hash.0@;
    if same_path && same_hash {
        MediaDiff::Identical
    } else if same_path {
        MediaDiff::SamePath
    } else if same_hash {
        MediaDiff::SameContent
    } else {
        MediaDiff::Unrelated
    }
}

fn same_path(a: &Vec<u8>, b: &Vec<u8>) -> (r: bool)
    ensures
        r == (a@ == b@),
{
    if a.len() != b.len() {
        return false;
    }
    let mut i: usize = 0;
    while i < a.len()
        invariant
            a@.len() == b@.len(),
            i <= a@.len(),
            forall|j: int| 0 <= j < i ==> a@[j] == b@[j],
        decreases a@.len() - i,
    {
        if a[i] != b[i] {
            return false;
        }
        i = i + 1;
    }
    assert(a@ =~= b@);
    true
}

impl MediaMeta {
    /// How this file relates to `other`.
    pub fn diff(&self, other: &MediaMeta) -> (r: MediaDiff)
        ensures
            r == diff_spec(*self, *other),
    {
        let same_path = same_path(&self.path, &other.path);
        let same_hash = self.hash == other.hash;
        if same_path && same_hash {
            MediaDiff::Identical
        } else if same_path {
            MediaDiff::SamePath
        } else if same_hash {
            MediaDiff::SameContent
        } else {
            MediaDiff::Unrelated
        }
    }
}

/// A loaded media file.
pub struct Media<T> {
    pub source: MediaSrc,
    pub meta: MediaMeta,
    pub content: T,
}

/// The loaded media of one kind, by identifier.
pub struct MediaCollection<T> {
    pub media: IdMap<Media<T>>,
}

/// What a scan does with a file it found.
#[derive(PartialEq, Eq, Structural, Clone, Copy, Debug)]
pub enum SyncAction {
    /// Nothing: the file is registered and unchanged, or only its contents
    /// are known under another path.
    NoOp,
    /// Register the file as new media.
    CreateFresh,
    /// The file at this media's path changed: reload its asset.
    Reload(Id),
}

/// A media of `src` exists that is identical to `meta`.
pub open spec fn has_identical<T>(m: Map<Id, Media<T>>, src: MediaSrc, meta: MediaMeta) -> bool {
    exists|id: Id|
        #[trigger] m.contains_key(id) && m[id].source == src && diff_spec(meta, m[id].meta)
            == MediaDiff::Identical
}

/// Every media of `src` is unrelated to `meta`.
pub open spec fn all_unrelated<T>(m: Map<Id, Media<T>>, src: MediaSrc, meta: MediaMeta) -> bool {
    forall|id: Id|
        #[trigger] m.contains_key(id) && m[id].source == src ==> diff_spec(meta, m[id].meta)
            == MediaDiff::Unrelated
}

/// The media `id` of `src` has the path of `meta` but other contents.
pub open spec fn is_same_path<T>(
    m: Map<Id, Media<T>>,
    src: MediaSrc,
    meta: MediaMeta,
    id: Id,
) -> bool {
    m.contains_key(id) && m[id].source == src && diff_spec(meta, m[id].meta) == MediaDiff::SamePath
}

/// The collection without the media of `src`.
pub open spec fn without_source<T>(m: Map<Id, Media<T>>, src: MediaSrc) -> Map<Id, Media<T>> {
    Map::new(|k: Id| m.contains_key(k) && m[k].source != src, |k: Id| m[k])
}

/// What one scan step did with a file.
#[derive(PartialEq, Eq, Structural, Clone, Copy, Debug)]
pub enum ScanOutcome {
    /// The file is registered or only its contents are known elsewhere: nothing changed.
    Unchanged,
    /// The file was registered as new media under this identifier.
    Registered(Id),
    /// The media with this identifier has the file's path but other contents.
    Modified(Id),
}

/// The collection after one scan step on a file described by `meta`: it is
/// registered under `id` with `content` when it is related to no media of
/// `src` (and so identical to none); otherwise the collection stays.
pub open spec fn scan_step<T>(m: Map<Id, Media<T>>, src: MediaSrc, meta: MediaMeta, id: Id, content: T) -> Map<Id, Media<T>> {
    if !has_identical(m, src, meta) && all_unrelated(m, src, meta) {
        m.insert(id, Media { source: src, meta: meta, content: content })
    } else {
        m
    }
}

/// The collection after scan steps on the first `n` files, the `i`-th
/// registered (if at all) under `ids[i]` with `contents[i]`.
pub open spec fn scan_prefix<T>(
    m: Map<Id, Media<T>>,
    src: MediaSrc,
    metas: Seq<MediaMeta>,
    ids: Seq<Id>,
    contents: Seq<T>,
    n: nat,
) -> Map<Id, Media<T>>
    decreases n,
{
    if n == 0 {
        m
    } else {
        scan_step(
            scan_prefix(m, src, metas, ids, contents, (n - 1) as nat),
            src,
            metas[n - 1],
            ids[n - 1],
            contents[n - 1],
        )
    }
}

/// Step `i` of a scan registers its file.
pub open spec fn registers_at<T>(
    m: Map<Id, Media<T>>,
    src: MediaSrc,
    metas: Seq<MediaMeta>,
    ids: Seq<Id>,
    contents: Seq<T>,
    i: int,
) -> bool {
    let p = scan_prefix(m, src, metas, ids, contents, i as nat);
    !has_identical(p, src, metas[i]) && all_unrelated(p, src, metas[i])
}

/// Each of the first `n` steps of a scan that registers its file does so
/// under an identifier new to the collection at that step.
pub open spec fn scan_fresh<T>(
    m: Map<Id, Media<T>>,
    src: MediaSrc,
    metas: Seq<MediaMeta>,
    ids: Seq<Id>,
    contents: Seq<T>,
    n: nat,
) -> bool {
    forall|i: int|
        0 <= i < n && #[trigger] registers_at(m, src, metas, ids, contents, i)
            ==> !scan_prefix(m, src, metas, ids, contents, i as nat).contains_key(ids[i])
}

/// No identifier of the collection is above `bound`.
pub open spec fn keys_below<T>(m: Map<Id, Media<T>>, bound: u128) -> bool {
    forall|k: Id| #[trigger] m.contains_key(k) ==> k.0 <= bound
}

/// The file descriptions of a list of found files.
pub open spec fn metas_of<T>(files: Seq<(MediaMeta, T)>) -> Seq<MediaMeta> {
    files.map_values(|f: (MediaMeta, T)| f.0)
}

/// The contents that a list of found files would be registered with.
pub open spec fn contents_of<T>(files: Seq<(MediaMeta, T)>) -> Seq<T> {
    files.map_values(|f: (MediaMeta, T)| f.1)
}

/// The collection after a whole sync of `src`: a scan of the found files,
/// then dropping the media whose path is not among `present`.
pub open spec fn sync_spec<T>(
    m: Map<Id, Media<T>>,
    src: MediaSrc,
    metas: Seq<MediaMeta>,
    ids: Seq<Id>,
    contents: Seq<T>,
    present: Seq<Vec<u8>>,
) -> Map<Id, Media<T>> {
    without_stale(scan_prefix(m, src, metas, ids, contents, metas.len()), present)
}

/// The outcome `o` of a scan step on a file described by `meta`, taken on
/// the collection `p`, reports a modified file exactly when the file has no
/// identical media of `src` and some media of `src` has its path with other
/// contents, and then names such a media.
pub open spec fn reports_modified_exactly<T>(p: Map<Id, Media<T>>, src: MediaSrc, meta: MediaMeta, o: ScanOutcome) -> bool {
    &&& (o is Modified) <==> (!has_identical(p, src, meta) && exists|id: Id|
        #[trigger] is_same_path(p, src, meta, id))
    &&& o matches ScanOutcome::Modified(id) ==> is_same_path(p, src, meta, id)
}

/// `b` keeps every entry of `a`.
pub open spec fn extends<T>(a: Map<Id, Media<T>>, b: Map<Id, Media<T>>) -> bool {
    forall|k: Id| #[trigger] a.contains_key(k) ==> b.contains_key(k) && b[k] == a[k]
}

/// `path` is one of the paths in `present`.
pub open spec fn is_listed(present: Seq<Vec<u8>>, path: Seq<u8>) -> bool {
    exists|j: int| 0 <= j < present.len() && (#[trigger] present[j])@ == path
}

/// The collection without the media whose path is not listed in `present`.
pub open spec fn without_stale<T>(m: Map<Id, Media<T>>, present: Seq<Vec<u8>>) -> Map<Id, Media<T>> {
    Map::new(|k: Id| m.contains_key(k) && is_listed(present, m[k].meta.path@), |k: Id| m[k])
}

fn is_path_listed(present: &Vec<Vec<u8>>, path: &Vec<u8>) -> (r: bool)
    ensures
        r == is_listed(present@, path@),
{
    let mut i: usize = 0;
    while i < present.len()
        invariant
            i <= present@.len(),
            forall|j: int| 0 <= j < i ==> (#[trigger] present@[j])@ != path@,
        decreases present@.len() - i,
    {
        if same_path(&present[i], path) {
            assert(present@[i as int]@ == path@);
            return true;
        }
        i = i + 1;
    }
    false
}

impl<T> MediaCollection<T> {
    /// An empty collection.
    pub fn new() -> (r: MediaCollection<T>)
        ensures
            r.media@ == Map::<Id, Media<T>>::empty(),
    {
        MediaCollection { media: IdMap::new() }
    }

    pub fn get(&self, id: &Id) -> (r: Option<&Media<T>>)
        ensures
            match r {
                Some(v) => self.media@.contains_key(*id) && *v == self.media@[*id],
                None => !self.media@.contains_key(*id),
            },
    {
        self.media.get(id)
    }

    /// Registers media under `id`, replacing what was there.
    pub fn insert(&mut self, id: Id, source: MediaSrc, meta: MediaMeta, media: T)
        ensures
            final(self).media@ == old(self).media@.insert(
                id,
                Media { source: source, meta: meta, content: media },
            ),
    {
        self.media.insert(id, Media { source, meta, content: media });
    }

    pub fn remove(&mut self, id: &Id)
        ensures
            final(self).media@ == old(self).media@.remove(*id),
    {
        self.media.remove(id);
    }

    /// The identifiers of the media of `source`, each once.
    pub fn source_ids(&self, source: &MediaSrc) -> (r: Vec<Id>)
        ensures
            r@.no_duplicates(),
            forall|id: Id|
                r@.contains(id) <==> (self.media@.contains_key(id) && self.media@[id].source
                    == *source),
    {
        let n = self.media.len();
        let mut out: Vec<Id> = Vec::new();
        let mut i: usize = 0;
        while i < n
            invariant
                n == self.media.entry_seq().len(),
                self.media.entries_match(),
                i <= n,
                out@.no_duplicates(),
                forall|id: Id|
                    out@.contains(id) <==> exists|j: int|
                        0 <= j < i && #[trigger] self.media.entry_seq()[j].0 == id
                            && self.media.entry_seq()[j].1.source == *source,
            decreases n - i,
        {
            let id = self.media.key_at(i);
            let ghost before = out@;
            if self.media.value_at(i).source == *source {
                proof {
                    if before.contains(id) {
                        let j = choose|j: int|
                            0 <= j < i && #[trigger] self.media.entry_seq()[j].0 == id
                                && self.media.entry_seq()[j].1.source == *source;
                        assert(self.media.entry_seq()[j].0 != self.media.entry_seq()[i as int].0);
                    }
                    assert(!before.contains(id));
                }
                out.push(id);
                proof {
                    assert forall|a: int, b: int|
                        0 <= a < out@.len() && 0 <= b < out@.len() && a != b implies out@[a]
                        != out@[b] by {
                        if a == before.len() {
                            assert(out@[b] == before[b]);
                            assert(before.contains(before[b]));
                        } else if b == before.len() {
                            assert(out@[a] == before[a]);
                            assert(before.contains(before[a]));
                        } else {
                            assert(out@[a] == before[a]);
                            assert(out@[b] == before[b]);
                        }
                    }
                }
            }
            proof {
                assert forall|x: Id|
                    out@.contains(x) <==> exists|j: int|
                        0 <= j < i + 1 && #[trigger] self.media.entry_seq()[j].0 == x
                            && self.media.entry_seq()[j].1.source == *source by {
                    if out@.contains(x) {
                        let k = choose|k: int| 0 <= k < out@.len() && out@[k] == x;
                        if k < before.len() {
                            assert(before[k] == x);
                            assert(before.contains(x));
                        } else {
                            assert(self.media.entry_seq()[i as int].0 == x);
                        }
                    }
                    if exists|j: int|
                        0 <= j < i + 1 && #[trigger] self.media.entry_seq()[j].0 == x
                            && self.media.entry_seq()[j].1.source == *source {
                        let j = choose|j: int|
                            0 <= j < i + 1 && #[trigger] self.media.entry_seq()[j].0 == x
                                && self.media.entry_seq()[j].1.source == *source;
                        if j < i {
                            assert(before.contains(x));
                            let k = choose|k: int| 0 <= k < before.len() && before[k] == x;
                            assert(out@[k] == x);
                        } else {
                            assert(out@[out@.len() - 1] == x);
                        }
                    }
                }
            }
            i = i + 1;
        }
        proof {
            assert forall|id: Id|
                out@.contains(id) <==> (self.media@.contains_key(id) && self.media@[id].source
                    == *source) by {
                if self.media@.contains_key(id) && self.media@[id].source == *source {
                    let j = choose|j: int|
                        0 <= j < self.media.entry_seq().len() && self.media.entry_seq()[j].0 == id;
                    assert(self.media.entry_seq()[j].0 == id);
                }
            }
        }
        out
    }

    /// A scan of `source` over the found files, in order: each file goes
    /// through `register_scanned` with its content. On success the collection
    /// is the result of those steps, where step `i` registers (if at all)
    /// under `ids[i]`, and the outcome of each step says whether it
    /// registered. When no identifier of the collection was above the
    /// generator's last one, every registration used an identifier new to the
    /// collection. It stops at the first generator error.
    pub fn scan_files(
        &mut self,
        source: &MediaSrc,
        files: Vec<(MediaMeta, T)>,
        id_gen: &mut IdGen,
    ) -> (r: Result<Vec<ScanOutcome>, IdGenError>)
        ensures
            match r {
                Ok(outcomes) => {
                    &&& outcomes@.len() == files@.len()
                    &&& exists|ids: Seq<Id>|
                        {
                            &&& ids.len() == files@.len()
                            &&& #[trigger] scan_prefix(
                                old(self).media@,
                                *source,
                                metas_of(files@),
                                ids,
                                contents_of(files@),
                                files@.len(),
                            ) == final(self).media@
                            &&& forall|i: int|
                                0 <= i < files@.len() ==> (registers_at(
                                    old(self).media@,
                                    *source,
                                    metas_of(files@),
                                    ids,
                                    contents_of(files@),
                                    i,
                                ) <==> #[trigger] outcomes@[i] == ScanOutcome::Registered(ids[i]))
                            &&& forall|i: int|
                                0 <= i < files@.len() ==> reports_modified_exactly(
                                    scan_prefix(
                                        old(self).media@,
                                        *source,
                                        metas_of(files@),
                                        ids,
                                        contents_of(files@),
                                        i as nat,
                                    ),
                                    *source,
                                    metas_of(files@)[i],
                                    #[trigger] outcomes@[i],
                                )
                            &&& keys_below(old(self).media@, old(id_gen).last_id()) ==> scan_fresh(
                                old(self).media@,
                                *source,
                                metas_of(files@),
                                ids,
                                contents_of(files@),
                                files@.len(),
                            )
                        }
                },
                Err(e) => e == IdGenError::RandomBitsOverflow && random_bits_exhausted(
                    final(id_gen).last_id(),
                ),
            },
    {
        let ghost items = files@;
        let ghost metas = metas_of(items);
        let ghost contents = contents_of(items);
        let ghost m0 = self.media@;
        let ghost last0 = id_gen.last_id();
        let ghost n = items.len();
        assert(n == files.len());
        let ghost mut ids: Seq<Id> = Seq::empty();
        let mut outcomes: Vec<ScanOutcome> = Vec::new();
        let mut rest = files;
        let mut i: usize = 0;
        while rest.len() > 0
            invariant
                rest@ == items.subrange(i as int, n as int),
                i + rest@.len() == n,
                n == items.len(),
                n <= usize::MAX,
                metas == metas_of(items),
                contents == contents_of(items),
                ids.len() == i,
                outcomes@.len() == i,
                self.media@ == scan_prefix(m0, *source, metas, ids, contents, i as nat),
                forall|j: int|
                    0 <= j < i ==> (registers_at(m0, *source, metas, ids, contents, j)
                        <==> #[trigger] outcomes@[j] == ScanOutcome::Registered(ids[j])),
                forall|j: int|
                    0 <= j < i ==> reports_modified_exactly(
                        scan_prefix(m0, *source, metas, ids, contents, j as nat),
                        *source,
                        metas[j],
                        #[trigger] outcomes@[j],
                    ),
                keys_below(m0, last0) ==> scan_fresh(m0, *source, metas, ids, contents, i as nat)
                    && keys_below(self.media@, id_gen.last_id()),
            decreases rest@.len(),
        {
            let (meta, content) = rest.remove(0);
            assert(items[i as int] == (meta, content));
            assert(metas[i as int] == meta);
            assert(contents[i as int] == content);
            let ghost prev = self.media@;
            let ghost last_before = id_gen.last_id();
            let ghost old_ids = ids;
            let out = self.register_scanned(source, meta, content, id_gen);
            match out {
                Err(e) => {
                    return Err(e);
                },
                Ok(o) => {
                    let ghost new_id = match o {
                        ScanOutcome::Registered(id) => id,
                        _ => Id(0),
                    };
                    proof {
                        ids = ids.push(new_id);
                        assert forall|j: int| 0 <= j < i + 1 implies #[trigger] ids[j] == ids[j] by {}
                        lemma_scan_prefix_same_ids(m0, *source, metas, old_ids, ids, contents, i as nat);
                        assert(registers_at(m0, *source, metas, ids, contents, i as int) == (
                        !has_identical(prev, *source, meta) && all_unrelated(prev, *source, meta)));
                        assert(self.media@ == scan_prefix(m0, *source, metas, ids, contents, (i + 1) as nat));
                    }
                    let ghost old_out = outcomes@;
                    outcomes.push(o);
                    proof {
                        assert forall|j: int|
                            0 <= j < i + 1 implies (registers_at(m0, *source, metas, ids, contents, j)
                            <==> #[trigger] outcomes@[j] == ScanOutcome::Registered(ids[j])) by {
                            if j < i {
                                lemma_scan_prefix_same_ids(m0, *source, metas, old_ids, ids, contents, j as nat);
                                assert(registers_at(m0, *source, metas, ids, contents, j) == registers_at(
                                    m0, *source, metas, old_ids, contents, j));
                                assert(outcomes@[j] == old_out[j]);
                            }
                        }
                        assert forall|j: int|
                            0 <= j < i + 1 implies reports_modified_exactly(
                            scan_prefix(m0, *source, metas, ids, contents, j as nat),
                            *source,
                            metas[j],
                            #[trigger] outcomes@[j],
                        ) by {
                            lemma_scan_prefix_same_ids(m0, *source, metas, old_ids, ids, contents, j as nat);
                            if j < i {
                                assert(outcomes@[j] == old_out[j]);
                            } else {
                                assert(outcomes@[j] == o);
                                if exists|id: Id| #[trigger] is_same_path(prev, *source, meta, id) {
                                    let id = choose|id: Id| #[trigger] is_same_path(prev, *source, meta, id);
                                    lemma_same_path_is_related(prev, *source, meta, id);
                                }
                            }
                        }
                        if keys_below(m0, last0) {
                            assert forall|j: int|
                                0 <= j < (i + 1) as nat && #[trigger] registers_at(
                                    m0,
                                    *source,
                                    metas,
                                    ids,
                                    contents,
                                    j,
                                ) implies !scan_prefix(m0, *source, metas, ids, contents, j as nat).contains_key(ids[j]) by {
                                lemma_scan_prefix_same_ids(m0, *source, metas, old_ids, ids, contents, j as nat);
                                if j < i {
                                    assert(registers_at(m0, *source, metas, old_ids, contents, j));
                                }
                            }
                        }
                    }
                    i = i + 1;
                },
            }
        }
        proof {
            assert(ids.len() == n);
        }
        Ok(outcomes)
    }

    /// The identifiers of the media whose path is not listed in `present`,
    /// whatever their source.
    pub fn stale_ids(&self, present: &Vec<Vec<u8>>) -> (r: Vec<Id>)
        ensures
            forall|id: Id|
                r@.contains(id) <==> (self.media@.contains_key(id) && !is_listed(
                    present@,
                    self.media@[id].meta.path@,
                )),
    {
        let n = self.media.len();
        let mut out: Vec<Id> = Vec::new();
        let mut i: usize = 0;
        while i < n
            invariant
                n == self.media.entry_seq().len(),
                self.media.entries_match(),
                i <= n,
                forall|id: Id|
                    out@.contains(id) <==> exists|j: int|
                        0 <= j < i && #[trigger] self.media.entry_seq()[j].0 == id && !is_listed(
                            present@,
                            self.media.entry_seq()[j].1.meta.path@,
                        ),
            decreases n - i,
        {
            let id = self.media.key_at(i);
            let ghost before = out@;
            let listed = is_path_listed(present, &self.media.value_at(i).meta.path);
            if !listed {
                out.push(id);
            }
            proof {
                assert forall|x: Id|
                    out@.contains(x) <==> exists|j: int|
                        0 <= j < i + 1 && #[trigger] self.media.entry_seq()[j].0 == x
                            && !is_listed(present@, self.media.entry_seq()[j].1.meta.path@) by {
                    if out@.contains(x) {
                        let k = choose|k: int| 0 <= k < out@.len() && out@[k] == x;
                        if k < before.len() {
                            assert(before[k] == x);
                            assert(before.contains(x));
                        } else {
                            assert(self.media.entry_seq()[i as int].0 == x);
                        }
                    }
                    if exists|j: int|
                        0 <= j < i + 1 && #[trigger] self.media.entry_seq()[j].0 == x
                            && !is_listed(present@, self.media.entry_seq()[j].1.meta.path@) {
                        let j = choose|j: int|
                            0 <= j < i + 1 && #[trigger] self.media.entry_seq()[j].0 == x
                                && !is_listed(present@, self.media.entry_seq()[j].1.meta.path@);
                        if j < i {
                            assert(before.contains(x));
                            let k = choose|k: int| 0 <= k < before.len() && before[k] == x;
                            assert(out@[k] == x);
                        } else {
                            assert(out@[out@.len() - 1] == x);
                        }
                    }
                }
            }
            i = i + 1;
        }
        proof {
            assert forall|id: Id|
                out@.contains(id) <==> (self.media@.contains_key(id) && !is_listed(
                    present@,
                    self.media@[id].meta.path@,
                )) by {
                if self.media@.contains_key(id) {
                    let j = choose|j: int|
                        0 <= j < self.media.entry_seq().len() && self.media.entry_seq()[j].0 == id;
                    assert(self.media.entry_seq()[j].0 == id);
                }
                if out@.contains(id) {
                    let j = choose|j: int|
                        0 <= j < n && #[trigger] self.media.entry_seq()[j].0 == id && !is_listed(
                            present@,
                            self.media.entry_seq()[j].1.meta.path@,
                        );
                    assert(self.media@.contains_key(self.media.entry_seq()[j].0));
                }
            }
        }
        out
    }

    /// Drops the media whose file is gone: those whose path is not listed in
    /// `present`, whatever their source. Returns their identifiers.
    pub fn remove_stale(&mut self, present: &Vec<Vec<u8>>) -> (r: Vec<Id>)
        ensures
            final(self).media@ == without_stale(old(self).media@, present@),
            forall|id: Id|
                r@.contains(id) <==> (old(self).media@.contains_key(id) && !is_listed(
                    present@,
                    old(self).media@[id].meta.path@,
                )),
    {
        let ghost m0 = self.media@;
        let stale = self.stale_ids(present);
        self.media.remove_all(&stale);
        assert(self.media@ =~= without_stale(m0, present@));
        stale
    }

    /// Drops all media of `source`.
    pub fn purge_source(&mut self, source: &MediaSrc)
        ensures
            final(self).media@ == without_source(old(self).media@, *source),
    {
        let ghost m0 = self.media@;
        let doomed = self.source_ids(source);
        self.media.remove_all(&doomed);
        assert(self.media@ =~= without_source(m0, *source));
    }

    /// Registers loaded media of `source`, in order.
    pub fn insert_all(&mut self, source: &MediaSrc, loaded: Vec<(Id, MediaMeta, T)>)
        ensures
            forall|id: Id|
                (forall|i: int| 0 <= i < loaded@.len() ==> #[trigger] loaded@[i].0 != id) ==> (
                #[trigger] final(self).media@.contains_key(id) == old(self).media@.contains_key(id))
                    && (old(self).media@.contains_key(id) ==> final(self).media@[id] == old(
                    self,
                ).media@[id]),
            forall|i: int|
                0 <= i < loaded@.len() && (forall|j: int|
                    i < j < loaded@.len() ==> loaded@[j].0 != loaded@[i].0) ==> {
                    &&& final(self).media@.contains_key(#[trigger] loaded@[i].0)
                    &&& final(self).media@[loaded@[i].0] == Media {
                        source: *source,
                        meta: loaded@[i].1,
                        content: loaded@[i].2,
                    }
                },
    {
        let ghost items = loaded@;
        let ghost m0 = self.media@;
        let total: usize = loaded.len();
        let mut rest = loaded;
        let mut i: usize = 0;
        let ghost n = items.len();
        while rest.len() > 0
            invariant
                rest@ == items.subrange(i as int, n as int),
                i + rest@.len() == n,
                n == total,
                n == items.len(),
                forall|id: Id|
                    (forall|k: int| 0 <= k < i ==> #[trigger] items[k].0 != id) ==> (
                    #[trigger] self.media@.contains_key(id) == m0.contains_key(id)) && (
                    m0.contains_key(id) ==> self.media@[id] == m0[id]),
                forall|k: int|
                    0 <= k < i && (forall|j: int| k < j < i ==> items[j].0 != items[k].0) ==> {
                        &&& self.media@.contains_key(#[trigger] items[k].0)
                        &&& self.media@[items[k].0] == Media {
                            source: *source,
                            meta: items[k].1,
                            content: items[k].2,
                        }
                    },
            decreases rest@.len(),
        {
            let (id, meta, content) = rest.remove(0);
            assert(items[i as int] == (id, meta, content));
            let ghost before = self.media@;
            let ghost old_i = i as int;
            self.media.insert(id, Media { source: *source, meta, content });
            i = i + 1;
            proof {
                assert forall|x: Id|
                    (forall|k: int| 0 <= k < i ==> #[trigger] items[k].0 != x) implies (
                #[trigger] self.media@.contains_key(x) == m0.contains_key(x)) && (m0.contains_key(x)
                    ==> self.media@[x] == m0[x]) by {
                    assert(items[old_i].0 != x);
                    assert forall|k: int| 0 <= k < old_i implies #[trigger] items[k].0 != x by {}
                    assert(before.contains_key(x) == m0.contains_key(x));
                }
            }
        }
    }

    /// What a scan of `source` does with a file described by `meta`.
    pub fn sync_action(&self, source: &MediaSrc, meta: &MediaMeta) -> (r: SyncAction)
        ensures
            match r {
                SyncAction::NoOp => has_identical(self.media@, *source, *meta) || (!all_unrelated(
                    self.media@,
                    *source,
                    *meta,
                ) && !exists|id: Id| #[trigger]
                    is_same_path(self.media@, *source, *meta, id)),
                SyncAction::CreateFresh => !has_identical(self.media@, *source, *meta)
                    && all_unrelated(self.media@, *source, *meta),
                SyncAction::Reload(id) => !has_identical(self.media@, *source, *meta)
                    && !all_unrelated(self.media@, *source, *meta) && is_same_path(
                    self.media@,
                    *source,
                    *meta,
                    id,
                ),
            },
    {
        let n = self.media.len();
        let mut identical = false;
        let mut related = false;
        let mut same_path_id: Option<Id> = None;
        let mut i: usize = 0;
        while i < n
            invariant
                n == self.media.entry_seq().len(),
                self.media.entries_match(),
                i <= n,
                identical <==> exists|j: int|
                    0 <= j < i && #[trigger] self.media.entry_seq()[j].1.source == *source
                        && diff_spec(*meta, self.media.entry_seq()[j].1.meta)
                        == MediaDiff::Identical,
                related <==> exists|j: int|
                    0 <= j < i && #[trigger] self.media.entry_seq()[j].1.source == *source
                        && diff_spec(*meta, self.media.entry_seq()[j].1.meta)
                        != MediaDiff::Unrelated,
                match same_path_id {
                    Some(id) => is_same_path(self.media@, *source, *meta, id),
                    None => forall|j: int|
                        0 <= j < i && #[trigger] self.media.entry_seq()[j].1.source == *source
                            ==> diff_spec(*meta, self.media.entry_seq()[j].1.meta)
                            != MediaDiff::SamePath,
                },
            decreases n - i,
        {
            let id = self.media.key_at(i);
            let media = self.media.value_at(i);
            if media.source == *source {
                let d = meta.diff(&media.meta);
                if d == MediaDiff::Identical {
                    identical = true;
                }
                if d != MediaDiff::Unrelated {
                    related = true;
                }
                if d == MediaDiff::SamePath && same_path_id.is_none() {
                    same_path_id = Some(id);
                }
            }
            i = i + 1;
        }
        proof {
            let es = self.media.entry_seq();
            if !identical {
                assert forall|id: Id| !(#[trigger] self.media@.contains_key(id)
                    && self.media@[id].source == *source && diff_spec(*meta, self.media@[id].meta)
                    == MediaDiff::Identical) by {
                    if self.media@.contains_key(id) {
                        let j = choose|j: int| 0 <= j < es.len() && es[j].0 == id;
                        assert(es[j].1.source == self.media@[id].source);
                    }
                }
            } else {
                let j = choose|j: int|
                    0 <= j < n && #[trigger] es[j].1.source == *source && diff_spec(
                        *meta,
                        es[j].1.meta,
                    ) == MediaDiff::Identical;
                assert(self.media@.contains_key(es[j].0));
            }
            if !related {
                assert forall|id: Id| #[trigger]
                    self.media@.contains_key(id) && self.media@[id].source == *source implies diff_spec(
                    *meta,
                    self.media@[id].meta,
                ) == MediaDiff::Unrelated by {
                    let j = choose|j: int| 0 <= j < es.len() && es[j].0 == id;
                    assert(es[j].1.source == self.media@[id].source);
                }
            } else {
                let j = choose|j: int|
                    0 <= j < n && #[trigger] es[j].1.source == *source && diff_spec(
                        *meta,
                        es[j].1.meta,
                    ) != MediaDiff::Unrelated;
                assert(self.media@.contains_key(es[j].0));
            }
            if same_path_id is None {
                assert forall|id: Id| !#[trigger] is_same_path(self.media@, *source, *meta, id) by {
                    if self.media@.contains_key(id) {
                        let j = choose|j: int| 0 <= j < es.len() && es[j].0 == id;
                        assert(es[j].1.source == self.media@[id].source);
                    }
                }
            }
        }
        if identical {
            SyncAction::NoOp
        } else if !related {
            SyncAction::CreateFresh
        } else {
            match same_path_id {
                Some(id) => SyncAction::Reload(id),
                None => SyncAction::NoOp,
            }
        }
    }

    /// One step of a scan of `source`: a file related to no media of the
    /// source is registered under a new identifier from `id_gen`, with
    /// `content`; a file whose path matches a media with other contents is
    /// reported for reloading; anything else is left alone. The collection
    /// changes only by the registration.
    pub fn register_scanned(
        &mut self,
        source: &MediaSrc,
        meta: MediaMeta,
        content: T,
        id_gen: &mut IdGen,
    ) -> (r: Result<ScanOutcome, IdGenError>)
        ensures
            match r {
                Ok(ScanOutcome::Registered(id)) => {
                    &&& !has_identical(old(self).media@, *source, meta)
                    &&& all_unrelated(old(self).media@, *source, meta)
                    &&& old(id_gen).last_id() < id.0
                    &&& id.0 == final(id_gen).last_id()
                    &&& final(self).media@ == scan_step(old(self).media@, *source, meta, id, content)
                    &&& (forall|k: Id| #[trigger] old(self).media@.contains_key(k) ==> k.0
                        <= old(id_gen).last_id()) ==> !old(self).media@.contains_key(id)
                },
                Ok(ScanOutcome::Modified(id)) => {
                    &&& !has_identical(old(self).media@, *source, meta)
                    &&& !all_unrelated(old(self).media@, *source, meta)
                    &&& is_same_path(old(self).media@, *source, meta, id)
                    &&& final(self).media@ == old(self).media@
                    &&& final(id_gen).last_id() == old(id_gen).last_id()
                },
                Ok(ScanOutcome::Unchanged) => {
                    &&& has_identical(old(self).media@, *source, meta) || (!all_unrelated(
                        old(self).media@,
                        *source,
                        meta,
                    ) && !exists|id: Id| #[trigger]
                        is_same_path(old(self).media@, *source, meta, id))
                    &&& final(self).media@ == old(self).media@
                    &&& final(id_gen).last_id() == old(id_gen).last_id()
                },
                Err(e) => {
                    &&& e == IdGenError::RandomBitsOverflow
                    &&& !has_identical(old(self).media@, *source, meta)
                    &&& all_unrelated(old(self).media@, *source, meta)
                    &&& random_bits_exhausted(old(id_gen).last_id())
                    &&& final(id_gen).last_id() == old(id_gen).last_id()
                    &&& final(self).media@ == old(self).media@
                },
            },
    {
        match self.sync_action(source, &meta) {
            SyncAction::NoOp => Ok(ScanOutcome::Unchanged),
            SyncAction::Reload(id) => Ok(ScanOutcome::Modified(id)),
            SyncAction::CreateFresh => {
                let id = id_gen.generate()?;
                self.insert(id, *source, meta, content);
                Ok(ScanOutcome::Registered(id))
            },
        }
    }
}

/// A file registered as media of a source is found unchanged by the next scan
/// of that source, which then does nothing with it.
pub proof fn lemma_rescan_after_register<T>(
    m: Map<Id, Media<T>>,
    id: Id,
    src: MediaSrc,
    meta: MediaMeta,
    content: T,
)
    ensures
        has_identical(m.insert(id, Media { source: src, meta: meta, content: content }), src, meta),
{
    let m2 = m.insert(id, Media { source: src, meta: meta, content: content });
    assert(m2.contains_key(id) && m2[id].source == src && diff_spec(meta, m2[id].meta)
        == MediaDiff::Identical);
}

/// Every file relates to itself as identical.
pub proof fn lemma_diff_reflexive(meta: MediaMeta)
    ensures
        diff_spec(meta, meta) == MediaDiff::Identical,
{
}

/// Whether two files share a path, and whether they share contents, does not
/// depend on which of them is compared with the other.
pub proof fn lemma_diff_symmetric(a: MediaMeta, b: MediaMeta)
    ensures
        diff_spec(a, b) == diff_spec(b, a),
{
}

proof fn lemma_related_kept<T>(a: Map<Id, Media<T>>, b: Map<Id, Media<T>>, src: MediaSrc, meta: MediaMeta)
    requires
        extends(a, b),
        !all_unrelated(a, src, meta),
    ensures
        !all_unrelated(b, src, meta),
{
    let id = choose|id: Id|
        #[trigger] a.contains_key(id) && a[id].source == src && diff_spec(meta, a[id].meta)
            != MediaDiff::Unrelated;
    assert(b.contains_key(id) && b[id] == a[id]);
}

/// A media of the source with the file's path is related to the file, so a
/// file with such a media is never registered as new.
pub proof fn lemma_same_path_is_related<T>(m: Map<Id, Media<T>>, src: MediaSrc, meta: MediaMeta, id: Id)
    requires
        is_same_path(m, src, meta, id),
    ensures
        !all_unrelated(m, src, meta),
{
    assert(m.contains_key(id) && m[id].source == src);
}

proof fn lemma_identical_is_related<T>(m: Map<Id, Media<T>>, src: MediaSrc, meta: MediaMeta)
    requires
        has_identical(m, src, meta),
    ensures
        !all_unrelated(m, src, meta),
{
    let id = choose|id: Id|
        #[trigger] m.contains_key(id) && m[id].source == src && diff_spec(meta, m[id].meta)
            == MediaDiff::Identical;
    assert(m.contains_key(id) && m[id].source == src);
}

proof fn lemma_scan_prefix_same_ids<T>(
    m: Map<Id, Media<T>>,
    src: MediaSrc,
    metas: Seq<MediaMeta>,
    ids1: Seq<Id>,
    ids2: Seq<Id>,
    contents: Seq<T>,
    n: nat,
)
    requires
        forall|j: int| 0 <= j < n ==> ids1[j] == ids2[j],
    ensures
        scan_prefix(m, src, metas, ids1, contents, n) == scan_prefix(m, src, metas, ids2, contents, n),
    decreases n,
{
    if n > 0 {
        lemma_scan_prefix_same_ids(m, src, metas, ids1, ids2, contents, (n - 1) as nat);
    }
}

proof fn lemma_scan_prefix_extends<T>(
    m: Map<Id, Media<T>>,
    src: MediaSrc,
    metas: Seq<MediaMeta>,
    ids: Seq<Id>,
    contents: Seq<T>,
    a: nat,
    b: nat,
)
    requires
        a <= b,
        scan_fresh(m, src, metas, ids, contents, b),
    ensures
        extends(
            scan_prefix(m, src, metas, ids, contents, a),
            scan_prefix(m, src, metas, ids, contents, b),
        ),
    decreases b,
{
    if b > a {
        assert(scan_fresh(m, src, metas, ids, contents, (b - 1) as nat)) by {
            assert forall|i: int|
                0 <= i < (b - 1) as nat && #[trigger] registers_at(m, src, metas, ids, contents, i)
                implies !scan_prefix(m, src, metas, ids, contents, i as nat).contains_key(
                ids[i],
            ) by {}
        }
        lemma_scan_prefix_extends(m, src, metas, ids, contents, a, (b - 1) as nat);
        let k = b - 1;
        if registers_at(m, src, metas, ids, contents, k) {
            assert(!scan_prefix(m, src, metas, ids, contents, k as nat).contains_key(ids[k]));
        }
    }
}

proof fn lemma_scanned_file_related<T>(
    m: Map<Id, Media<T>>,
    src: MediaSrc,
    metas: Seq<MediaMeta>,
    ids: Seq<Id>,
    contents: Seq<T>,
    i: int,
)
    requires
        0 <= i < metas.len(),
        scan_fresh(m, src, metas, ids, contents, metas.len()),
    ensures
        !all_unrelated(scan_prefix(m, src, metas, ids, contents, metas.len()), src, metas[i]),
{
    let p = scan_prefix(m, src, metas, ids, contents, i as nat);
    let q = scan_prefix(m, src, metas, ids, contents, (i + 1) as nat);
    if !has_identical(p, src, metas[i]) && all_unrelated(p, src, metas[i]) {
        assert(q.contains_key(ids[i]) && q[ids[i]].source == src && diff_spec(
            metas[i],
            q[ids[i]].meta,
        ) == MediaDiff::Identical);
    } else if has_identical(p, src, metas[i]) {
        lemma_identical_is_related(p, src, metas[i]);
    }
    lemma_scan_prefix_extends(m, src, metas, ids, contents, (i + 1) as nat, metas.len());
    lemma_related_kept(q, scan_prefix(m, src, metas, ids, contents, metas.len()), src, metas[i]);
}

proof fn lemma_scan_prefix_stays<T>(
    m: Map<Id, Media<T>>,
    src: MediaSrc,
    metas: Seq<MediaMeta>,
    ids: Seq<Id>,
    contents: Seq<T>,
    n: nat,
)
    requires
        n <= metas.len(),
        forall|i: int| 0 <= i < metas.len() ==> !all_unrelated(m, src, #[trigger] metas[i]),
    ensures
        scan_prefix(m, src, metas, ids, contents, n) == m,
    decreases n,
{
    if n > 0 {
        lemma_scan_prefix_stays(m, src, metas, ids, contents, (n - 1) as nat);
        assert(!all_unrelated(m, src, metas[n - 1]));
    }
}

/// Scanning the same files a second time changes nothing: after a scan
/// whose registrations each used an identifier new to the collection at the
/// time, every scanned file is related to some media of the source, so a
/// second scan of those files registers nothing, whatever identifiers and
/// contents it would use.
pub proof fn lemma_rescan_changes_nothing<T>(
    m: Map<Id, Media<T>>,
    src: MediaSrc,
    metas: Seq<MediaMeta>,
    ids: Seq<Id>,
    contents: Seq<T>,
    ids2: Seq<Id>,
    contents2: Seq<T>,
)
    requires
        scan_fresh(m, src, metas, ids, contents, metas.len()),
    ensures
        scan_prefix(
            scan_prefix(m, src, metas, ids, contents, metas.len()),
            src,
            metas,
            ids2,
            contents2,
            metas.len(),
        ) == scan_prefix(m, src, metas, ids, contents, metas.len()),
{
    let m1 = scan_prefix(m, src, metas, ids, contents, metas.len());
    assert forall|i: int| 0 <= i < metas.len() implies !all_unrelated(m1, src, #[trigger] metas[i]) by {
        lemma_scanned_file_related(m, src, metas, ids, contents, i);
    }
    lemma_scan_prefix_stays(m1, src, metas, ids2, contents2, metas.len());
}

proof fn lemma_scan_prefix_listed<T>(
    m: Map<Id, Media<T>>,
    src: MediaSrc,
    metas: Seq<MediaMeta>,
    ids: Seq<Id>,
    contents: Seq<T>,
    present: Seq<Vec<u8>>,
    n: nat,
)
    requires
        n <= metas.len(),
        forall|k: Id| #[trigger] m.contains_key(k) ==> is_listed(present, m[k].meta.path@),
        forall|i: int| 0 <= i < metas.len() ==> is_listed(present, (#[trigger] metas[i]).path@),
    ensures
        forall|k: Id| #[trigger]
            scan_prefix(m, src, metas, ids, contents, n).contains_key(k) ==> is_listed(
                present,
                scan_prefix(m, src, metas, ids, contents, n)[k].meta.path@,
            ),
    decreases n,
{
    if n > 0 {
        lemma_scan_prefix_listed(m, src, metas, ids, contents, present, (n - 1) as nat);
        assert(is_listed(present, metas[n - 1].path@));
    }
}

/// A whole sync of a source run twice on unchanged files changes nothing the
/// second time: when every media already had its file and every scanned file
/// is present, the first sync drops nothing and the second neither registers
/// nor drops anything, whatever identifiers and contents it would use.
pub proof fn lemma_sync_twice_changes_nothing<T>(
    m: Map<Id, Media<T>>,
    src: MediaSrc,
    metas: Seq<MediaMeta>,
    ids: Seq<Id>,
    contents: Seq<T>,
    ids2: Seq<Id>,
    contents2: Seq<T>,
    present: Seq<Vec<u8>>,
)
    requires
        scan_fresh(m, src, metas, ids, contents, metas.len()),
        forall|k: Id| #[trigger] m.contains_key(k) ==> is_listed(present, m[k].meta.path@),
        forall|i: int| 0 <= i < metas.len() ==> is_listed(present, (#[trigger] metas[i]).path@),
    ensures
        sync_spec(m, src, metas, ids, contents, present) == scan_prefix(
            m,
            src,
            metas,
            ids,
            contents,
            metas.len(),
        ),
        sync_spec(sync_spec(m, src, metas, ids, contents, present), src, metas, ids2, contents2, present)
            == sync_spec(m, src, metas, ids, contents, present),
{
    let m1 = scan_prefix(m, src, metas, ids, contents, metas.len());
    lemma_scan_prefix_listed(m, src, metas, ids, contents, present, metas.len());
    assert(without_stale(m1, present) =~= m1);
    lemma_rescan_changes_nothing(m, src, metas, ids, contents, ids2, contents2);
}

/// Kind of a change seen in a watched media directory.
#[derive(PartialEq, Eq, Structural, Clone, Copy, Debug)]
pub enum WatchEventKind {
    Create,
    Modify,
    Remove,
    /// Any other event, or a watcher error.
    Other,
}

/// Whether a watch event calls for a rescan of its source.
pub open spec fn triggers_sync(kind: WatchEventKind) -> bool {
    kind == WatchEventKind::Create || kind == WatchEventKind::Modify || kind
        == WatchEventKind::Remove
}

/// The sources to rescan after a batch of watch events: each source with a
/// creation, modification or removal, once.
pub fn sources_to_sync(events: &Vec<(MediaSrc, WatchEventKind)>) -> (r: Vec<MediaSrc>)
    ensures
        r@.no_duplicates(),
        forall|s: MediaSrc|
            r@.contains(s) <==> exists|i: int|
                0 <= i < events@.len() && (#[trigger] events@[i]).0 == s && triggers_sync(
                    events@[i].1,
                ),
{
    let mut out: Vec<MediaSrc> = Vec::new();
    let mut i: usize = 0;
    while i < events.len()
        invariant
            i <= events@.len(),
            out@.no_duplicates(),
            forall|s: MediaSrc|
                out@.contains(s) <==> exists|j: int|
                    0 <= j < i && (#[trigger] events@[j]).0 == s && triggers_sync(events@[j].1),
        decreases events@.len() - i,
    {
        let (src, kind) = events[i];
        let ghost before = out@;
        let relevant = kind == WatchEventKind::Create || kind == WatchEventKind::Modify || kind
            == WatchEventKind::Remove;
        let mut present = false;
        let mut k: usize = 0;
        while k < out.len()
            invariant
                k <= out@.len(),
                out@ == before,
                present <==> exists|x: int| 0 <= x < k && out@[x] == src,
            decreases out@.len() - k,
        {
            if out[k] == src {
                present = true;
            }
            k = k + 1;
        }
        if relevant && !present {
            out.push(src);
            proof {
                assert forall|a: int, b: int|
                    0 <= a < out@.len() && 0 <= b < out@.len() && a != b implies out@[a]
                    != out@[b] by {
                    if a == before.len() {
                        assert(out@[b] == before[b]);
                    } else if b == before.len() {
                        assert(out@[a] == before[a]);
                    }
                }
            }
        }
        proof {
            assert forall|s: MediaSrc|
                out@.contains(s) <==> exists|j: int|
                    0 <= j < i + 1 && (#[trigger] events@[j]).0 == s && triggers_sync(
                        events@[j].1,
                    ) by {
                if out@.contains(s) {
                    let x = choose|x: int| 0 <= x < out@.len() && out@[x] == s;
                    if x < before.len() {
                        assert(before[x] == s);
                        assert(before.contains(s));
                    } else {
                        assert(events@[i as int].0 == s);
                    }
                }
                if exists|j: int|
                    0 <= j < i + 1 && (#[trigger] events@[j]).0 == s && triggers_sync(
                        events@[j].1,
                    ) {
                    let j = choose|j: int|
                        0 <= j < i + 1 && (#[trigger] events@[j]).0 == s && triggers_sync(
                            events@[j].1,
                        );
                    if j < i {
                        assert(before.contains(s));
                        let x = choose|x: int| 0 <= x < before.len() && before[x] == s;
                        assert(out@[x] == s);
                    } else if present {
                        let x = choose|x: int| 0 <= x < before.len() && before[x] == src;
                        assert(out@[x] == s);
                    } else {
                        assert(out@[out@.len() - 1] == s);
                    }
                }
            }
        }
        i = i + 1;
    }
    out
}

} // verus!
