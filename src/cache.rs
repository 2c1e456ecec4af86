//! The cache coordinator: a bounded, least-recently-used map from timecode to
//! frame over one source file and one on-disk cache directory.
use vstd::prelude::*;

use lru::LruCache;
use std::collections::hash_map::RandomState;

use crate::error::ErrorKind;
use crate::frame::{fresh, loaded_with, not_found_text, Frame};
use crate::frame_range::{cached_path_for, timecode_name};
use crate::path::{path_exists, path_is_dir};
use crate::text::joined;

verus! {

#[verifier::external_type_specification]
#[verifier::external_body]
#[verifier::reject_recursive_types(K)]
#[verifier::reject_recursive_types(V)]
#[verifier::reject_recursive_types(S)]
pub struct ExLruCache<K, V, S>(LruCache<K, V, S>);

/// The entries of a cache, least recently used first.
pub uninterp spec fn lru_entries(c: LruCache<usize, Frame, RandomState>) -> Seq<(usize, Frame)>;

/// The number of entries a cache holds at most.
pub uninterp spec fn lru_capacity(c: LruCache<usize, Frame, RandomState>) -> nat;

/// Whether some entry has key `k`.
pub open spec fn has_key(s: Seq<(usize, Frame)>, k: usize) -> bool {
    exists|i: int| 0 <= i < s.len() && s[i].0 == k
}

/// The position of the entry with key `k`.
pub open spec fn index_of(s: Seq<(usize, Frame)>, k: usize) -> int {
    choose|i: int| 0 <= i < s.len() && s[i].0 == k
}

/// No two entries share a key.
pub open spec fn keys_unique(s: Seq<(usize, Frame)>) -> bool {
    forall|i: int, j: int| 0 <= i < s.len() && 0 <= j < s.len() && s[i].0 == s[j].0 ==> i == j
}

/// The entries after pushing `(k, v)`: an entry with key `k` is replaced, else at
/// capacity the least recently used entry leaves; the new entry is the most recent.
pub open spec fn pushed(s: Seq<(usize, Frame)>, cap: nat, k: usize, v: Frame) -> Seq<(
    usize,
    Frame,
)> {
    if has_key(s, k) {
        s.remove(index_of(s, k)).push((k, v))
    } else if s.len() >= cap {
        s.drop_first().push((k, v))
    } else {
        s.push((k, v))
    }
}

/// What pushing `(k, v)` hands back: the replaced or the evicted entry.
pub open spec fn push_returned(s: Seq<(usize, Frame)>, cap: nat, k: usize) -> Option<
    (usize, Frame),
> {
    if has_key(s, k) {
        Some((k, s[index_of(s, k)].1))
    } else if s.len() >= cap {
        Some(s[0])
    } else {
        None
    }
}

/// The entries after marking key `k` as the most recently used.
pub open spec fn promoted(s: Seq<(usize, Frame)>, k: usize) -> Seq<(usize, Frame)> {
    if has_key(s, k) {
        s.remove(index_of(s, k)).push(s[index_of(s, k)])
    } else {
        s
    }
}

/// The entries after pushing each item in turn.
pub open spec fn pushed_all(s: Seq<(usize, Frame)>, cap: nat, items: Seq<(usize, Frame)>) -> Seq<
    (usize, Frame),
>
    decreases items.len(),
{
    if items.len() == 0 {
        s
    } else {
        pushed(pushed_all(s, cap, items.drop_last()), cap, items.last().0, items.last().1)
    }
}

/// Relies on `LruCache::with_hasher`: an empty cache holding at most `cap` entries.
#[verifier::external_body]
fn lru_new(cap: usize) -> (r: LruCache<usize, Frame, RandomState>)
    requires
        cap > 0,
    ensures
        lru_entries(r) == Seq::<(usize, Frame)>::empty(),
        lru_capacity(r) == cap,
{
    LruCache::with_hasher(std::num::NonZeroUsize::new(cap).unwrap(), RandomState::new())
}

/// Relies on `LruCache::push`: replaces an entry with the same key, or evicts the
/// least recently used one at capacity, and makes the new entry the most recent.
#[verifier::external_body]
fn lru_push(c: &mut LruCache<usize, Frame, RandomState>, k: usize, v: Frame) -> (r: Option<(usize, Frame)>)
    requires
        keys_unique(lru_entries(*old(c))),
        lru_entries(*old(c)).len() <= lru_capacity(*old(c)),
    ensures
        lru_entries(*final(c)) == pushed(lru_entries(*old(c)), lru_capacity(*old(c)), k, v),
        lru_capacity(*final(c)) == lru_capacity(*old(c)),
        r == push_returned(lru_entries(*old(c)), lru_capacity(*old(c)), k),
{
    c.push(k, v)
}

/// Relies on `LruCache::peek`: the value of key `k`, leaving the order unchanged.
#[verifier::external_body]
fn lru_peek(c: &LruCache<usize, Frame, RandomState>, k: usize) -> (r: Option<&Frame>)
    requires
        keys_unique(lru_entries(*c)),
    ensures
        has_key(lru_entries(*c), k) ==> r == Some(&lru_entries(*c)[index_of(lru_entries(*c), k)].1),
        !has_key(lru_entries(*c), k) ==> r is None,
{
    c.peek(&k)
}

/// Relies on `LruCache::promote`: key `k`, if present, becomes the most recently used.
#[verifier::external_body]
fn lru_promote(c: &mut LruCache<usize, Frame, RandomState>, k: usize)
    requires
        keys_unique(lru_entries(*old(c))),
    ensures
        lru_entries(*final(c)) == promoted(lru_entries(*old(c)), k),
        lru_capacity(*final(c)) == lru_capacity(*old(c)),
{
    c.promote(&k)
}

/// Relies on `LruCache::len`: the number of entries.
#[verifier::external_body]
fn lru_len(c: &LruCache<usize, Frame, RandomState>) -> (r: usize)
    ensures
        r == lru_entries(*c).len(),
{
    c.len()
}

/// Pushing keeps keys unique and the size within capacity.
proof fn lemma_pushed_wf(s: Seq<(usize, Frame)>, cap: nat, k: usize, v: Frame)
    requires
        keys_unique(s),
        s.len() <= cap,
        cap > 0,
    ensures
        keys_unique(pushed(s, cap, k, v)),
        pushed(s, cap, k, v).len() <= cap,
        has_key(pushed(s, cap, k, v), k),
        pushed(s, cap, k, v).last() == (k, v),
        pushed(s, cap, k, v)[index_of(pushed(s, cap, k, v), k)] == (k, v),
{
    let p = pushed(s, cap, k, v);
    if has_key(s, k) {
        let idx = index_of(s, k);
        let r = s.remove(idx);
        assert forall|i: int| 0 <= i < r.len() implies r[i].0 != k by {
            if i < idx {
                assert(r[i] == s[i]);
            } else {
                assert(r[i] == s[i + 1]);
            }
        }
        assert forall|i: int, j: int|
            0 <= i < p.len() && 0 <= j < p.len() && p[i].0 == p[j].0 implies i == j by {
            if i < r.len() && j < r.len() {
                let si = if i < idx { i } else { i + 1 };
                let sj = if j < idx { j } else { j + 1 };
                assert(r[i] == s[si]);
                assert(r[j] == s[sj]);
            }
        }
    } else if s.len() >= cap {
        let r = s.drop_first();
        assert forall|i: int, j: int|
            0 <= i < p.len() && 0 <= j < p.len() && p[i].0 == p[j].0 implies i == j by {
            if i < r.len() && j < r.len() {
                assert(r[i] == s[i + 1]);
                assert(r[j] == s[j + 1]);
            } else if i < r.len() {
                assert(r[i] == s[i + 1]);
            } else if j < r.len() {
                assert(r[j] == s[j + 1]);
            }
        }
    } else {
        assert forall|i: int, j: int|
            0 <= i < p.len() && 0 <= j < p.len() && p[i].0 == p[j].0 implies i == j by {
            if i < s.len() && j < s.len() {
            } else if i < s.len() {
                assert(p[i] == s[i]);
            } else if j < s.len() {
                assert(p[j] == s[j]);
            }
        }
    }
    assert(p[p.len() - 1].0 == k);
    assert(has_key(p, k));
    assert(index_of(p, k) == p.len() - 1);
}

/// Promoting keeps the entries' values, keys unique and the size.
proof fn lemma_promoted_wf(s: Seq<(usize, Frame)>, k: usize)
    requires
        keys_unique(s),
    ensures
        keys_unique(promoted(s, k)),
        promoted(s, k).len() == s.len(),
        has_key(s, k) <==> has_key(promoted(s, k), k),
        has_key(s, k) ==> promoted(s, k)[index_of(promoted(s, k), k)].1 == s[index_of(s, k)].1,
{
    if has_key(s, k) {
        let idx = index_of(s, k);
        let r = s.remove(idx);
        let p = promoted(s, k);
        assert forall|i: int| 0 <= i < r.len() implies r[i].0 != k by {
            if i < idx {
                assert(r[i] == s[i]);
            } else {
                assert(r[i] == s[i + 1]);
            }
        }
        assert forall|i: int, j: int|
            0 <= i < p.len() && 0 <= j < p.len() && p[i].0 == p[j].0 implies i == j by {
            if i < r.len() && j < r.len() {
                let si = if i < idx { i } else { i + 1 };
                let sj = if j < idx { j } else { j + 1 };
                assert(r[i] == s[si]);
                assert(r[j] == s[sj]);
            }
        }
        assert(p[p.len() - 1] == s[idx]);
        assert(has_key(p, k));
        let pi = index_of(p, k);
        assert(pi == p.len() - 1);
    }
}

/// A full cache that receives a new key evicts exactly its least recently used
/// entry, hands it back, and makes the new entry the most recent.
pub proof fn lemma_full_push_evicts_lru(s: Seq<(usize, Frame)>, cap: nat, k: usize, v: Frame)
    requires
        keys_unique(s),
        s.len() == cap,
        cap > 0,
        !has_key(s, k),
    ensures
        pushed(s, cap, k, v) == s.drop_first().push((k, v)),
        push_returned(s, cap, k) == Some(s[0]),
        !has_key(pushed(s, cap, k, v), s[0].0),
{
    let p = pushed(s, cap, k, v);
    assert forall|i: int| 0 <= i < p.len() implies p[i].0 != s[0].0 by {
        if i < p.len() - 1 {
            assert(p[i] == s[i + 1]);
        }
    }
}

/// Pushing distinct keys into an empty cache without reaching capacity keeps them all, in order.
proof fn lemma_fill_keeps_all(cap: nat, items: Seq<(usize, Frame)>, m: int)
    requires
        keys_unique(items),
        0 <= m <= items.len(),
        m <= cap,
    ensures
        pushed_all(Seq::empty(), cap, items.take(m)) == items.take(m),
    decreases m,
{
    if m > 0 {
        lemma_fill_keeps_all(cap, items, m - 1);
        let t = items.take(m);
        assert(t.drop_last() =~= items.take(m - 1));
        let prev = items.take(m - 1);
        assert(!has_key(prev, items[m - 1].0)) by {
            assert forall|i: int| 0 <= i < prev.len() implies prev[i].0 != items[m - 1].0 by {
                assert(prev[i] == items[i]);
            }
        }
        assert(prev.push(items[m - 1]) =~= t);
    }
}

/// Pushing `cap + 1` distinct keys into an empty cache of capacity `cap` leaves the
/// last `cap` of them: the first, the least recently used, is evicted and no
/// longer found.
pub proof fn lemma_lru_evicts_oldest(cap: nat, items: Seq<(usize, Frame)>)
    requires
        cap > 0,
        items.len() == cap + 1,
        keys_unique(items),
    ensures
        pushed_all(Seq::empty(), cap, items) == items.drop_first(),
        !has_key(pushed_all(Seq::empty(), cap, items), items[0].0),
{
    lemma_fill_keeps_all(cap, items, cap as int);
    let prev = items.take(cap as int);
    assert(items.drop_last() =~= prev);
    assert(keys_unique(prev)) by {
        assert forall|i: int, j: int|
            0 <= i < prev.len() && 0 <= j < prev.len() && prev[i].0 == prev[j].0 implies i
            == j by {
            assert(prev[i] == items[i]);
            assert(prev[j] == items[j]);
        }
    }
    assert(!has_key(prev, items[cap as int].0)) by {
        assert forall|i: int| 0 <= i < prev.len() implies prev[i].0 != items[cap as int].0 by {
            assert(prev[i] == items[i]);
        }
    }
    lemma_full_push_evicts_lru(prev, cap, items[cap as int].0, items[cap as int].1);
    assert(prev.drop_first().push(items[cap as int]) =~= items.drop_first());
}

/// Looking a key up twice gives the same frame: a lookup reorders entries but
/// never changes a value.
pub proof fn lemma_lookup_consistent(s: Seq<(usize, Frame)>, k: usize)
    requires
        keys_unique(s),
        has_key(s, k),
    ensures
        has_key(promoted(s, k), k),
        promoted(s, k)[index_of(promoted(s, k), k)].1 == s[index_of(s, k)].1,
        promoted(promoted(s, k), k)[index_of(promoted(promoted(s, k), k), k)].1 == s[index_of(
            s,
            k,
        )].1,
{
    lemma_promoted_wf(s, k);
    lemma_promoted_wf(promoted(s, k), k);
}

/// What reading a timecode's file from the cache directory gave.
#[derive(Debug, Clone)]
pub enum CachedFile {
    Found(Vec<u8>),
    Missing,
    /// Any other failure, with its description.
    Failed(String),
}

/// The answer to a frame request before any extraction.
#[derive(Debug)]
pub enum Lookup {
    /// The frame's bytes, from disk or from memory.
    Hit(Vec<u8>),
    /// The frame still to be extracted, by this caller alone.
    Miss(Frame),
    /// Another caller is extracting this timecode: ask again once it is done.
    Wait,
}

/// What a request for timecode `i` does, with `on_disk` the frame loaded from the
/// cache directory.
pub open spec fn request_effect(
    before: FrameCache,
    after: FrameCache,
    i: usize,
    on_disk: Frame,
    r: Lookup,
) -> bool {
    match on_disk@.payload {
        Some(b) => {
            &&& after.entries() == pushed(before.entries(), before.capacity(), i, on_disk)
            &&& r matches Lookup::Hit(v) && v@ == b
            &&& after.pending() == before.pending()
        },
        None => {
            &&& after.entries() == promoted(before.entries(), i)
            &&& match stored_payload(before.entries(), i) {
                Some(b) => (r matches Lookup::Hit(v) && v@ == b) && after.pending()
                    == before.pending(),
                None => if before.pending().contains(i) {
                    r is Wait && after.pending() == before.pending()
                } else {
                    (r matches Lookup::Miss(f) && f == on_disk) && after.pending()
                        == before.pending().push(i)
                },
            }
        },
    }
}

/// A request for a key that is not cached, such as an evicted one, with nothing on
/// disk and no extraction of it under way, is a miss: this caller extracts, and
/// the key becomes pending.
pub proof fn lemma_absent_key_is_miss(
    c0: FrameCache,
    c1: FrameCache,
    k: usize,
    d: Frame,
    r: Lookup,
)
    requires
        !has_key(c0.entries(), k),
        d@.payload is None,
        !c0.pending().contains(k),
        request_effect(c0, c1, k, d, r),
    ensures
        r matches Lookup::Miss(f) && f == d,
        c1.pending() == c0.pending().push(k),
{
}

/// Of two requests in a row for the same timecode, with nothing loaded on disk or
/// in memory, only the first is told to extract; the second waits for it.
pub proof fn lemma_single_flight(
    c0: FrameCache,
    c1: FrameCache,
    c2: FrameCache,
    i: usize,
    d1: Frame,
    d2: Frame,
    r1: Lookup,
    r2: Lookup,
)
    requires
        c0.wf(),
        d1@.payload is None,
        d2@.payload is None,
        stored_payload(c0.entries(), i) is None,
        request_effect(c0, c1, i, d1, r1),
        request_effect(c1, c2, i, d2, r2),
    ensures
        !(r1 is Miss && r2 is Miss),
        r1 is Miss ==> r2 is Wait,
{
    lemma_promoted_wf(c0.entries(), i);
    if r1 is Miss {
        assert(c1.pending().last() == i);
        assert(c1.pending().contains(i)) by {
            assert(c1.pending()[c1.pending().len() - 1] == i);
        }
    }
}

/// What loading timecode `i` of `source` gives, given whether the source exists and
/// what reading the cached file gave.
pub open spec fn disk_frame_effect(
    source: Seq<char>,
    i: usize,
    source_exists: bool,
    disk: CachedFile,
    r: Result<Frame, ErrorKind>,
) -> bool {
    if source_exists {
        match disk {
            CachedFile::Found(b) => r matches Ok(f) && loaded_with(fresh(source, i as nat), f@, b@),
            CachedFile::Missing => r matches Ok(f) && f@ == fresh(source, i as nat),
            CachedFile::Failed(m) => r matches Err(ErrorKind::Io(t)) && t@ == m@,
        }
    } else {
        r matches Err(ErrorKind::Io(t)) && t@ == not_found_text()
    }
}

/// The frame at timecode `i` (at least 1) of `source`, carrying the bytes of its
/// cached file when there is one: a missing file is no error.
pub fn frame_from_disk(source: &str, i: usize, source_exists: bool, disk: CachedFile) -> (r:
    Result<Frame, ErrorKind>)
    ensures
        disk_frame_effect(source@, i, source_exists, disk, r),
{
    let mut frm = Frame::located(String::from_str(source), i, source_exists)?;
    match disk {
        CachedFile::Found(bs) => frm.set_data(bs),
        CachedFile::Missing => {},
        CachedFile::Failed(m) => {
            return Err(ErrorKind::Io(m));
        },
    }
    Ok(frm)
}

/// Every load of a batch succeeded.
pub open spec fn all_loaded(loads: Seq<Result<Frame, ErrorKind>>) -> bool {
    forall|j: int| 0 <= j < loads.len() ==> (#[trigger] loads[j]) is Ok
}

/// The frames of successful loads, in order.
pub open spec fn loaded_frames(loads: Seq<Result<Frame, ErrorKind>>) -> Seq<Frame> {
    loads.map_values(|l: Result<Frame, ErrorKind>| l->Ok_0)
}

/// The frames of one source, keyed by timecode, its cache directory, and the
/// timecodes whose extraction is under way.
pub struct FrameCache {
    source_file: String,
    cache_root: String,
    lru: LruCache<usize, Frame, RandomState>,
    in_flight: Vec<usize>,
}

/// The description of an unusable cache directory.
pub open spec fn bad_root_text(root: Seq<char>) -> Seq<char> {
    "Path to cache root \""@ + root + "\" either does not exist or is not a directory"@
}

/// The frames as cache entries keyed by their timecodes.
pub open spec fn keyed(frames: Seq<Frame>) -> Seq<(usize, Frame)> {
    frames.map_values(|f: Frame| (f@.timecode as usize, f))
}

/// The payload stored for key `k`, if an entry has that key.
pub open spec fn stored_payload(s: Seq<(usize, Frame)>, k: usize) -> Option<Seq<u8>> {
    if has_key(s, k) {
        s[index_of(s, k)].1@.payload
    } else {
        None
    }
}

impl FrameCache {
    /// The entries, least recently used first.
    pub closed spec fn entries(&self) -> Seq<(usize, Frame)> {
        lru_entries(self.lru)
    }

    /// The number of entries the cache holds at most.
    pub closed spec fn capacity(&self) -> nat {
        lru_capacity(self.lru)
    }

    /// The source file's path.
    pub closed spec fn source(&self) -> Seq<char> {
        self.source_file@
    }

    /// The cache directory's path.
    pub closed spec fn root(&self) -> Seq<char> {
        self.cache_root@
    }

    /// The timecodes whose extraction is under way.
    pub closed spec fn pending(&self) -> Seq<usize> {
        self.in_flight@
    }

    /// Keys are unique and the entries fit the positive capacity.
    pub open spec fn wf(&self) -> bool {
        &&& keys_unique(self.entries())
        &&& self.entries().len() <= self.capacity()
        &&& self.capacity() > 0
    }

    /// An empty cache, given whether `cache_root` is an existing directory.
    pub fn configured(file: String, cache_root: String, capacity: usize, root_is_dir: bool) -> (r:
        Result<Self, ErrorKind>)
        ensures
            capacity == 0 ==> r == Err::<Self, ErrorKind>(ErrorKind::ArgumentError),
            capacity > 0 && !root_is_dir ==> (r matches Err(ErrorKind::Unhandled(m)) && m@
                == bad_root_text(cache_root@)),
            capacity > 0 && root_is_dir ==> (r matches Ok(c) && c.wf() && c.entries().len() == 0
                && c.capacity() == capacity && c.source() == file@ && c.root() == cache_root@
                && c.pending().len() == 0),
    {
        if capacity == 0 {
            return Err(ErrorKind::ArgumentError);
        }
        if !root_is_dir {
            let mut m = String::from_str("Path to cache root \"");
            m.append(cache_root.as_str());
            m.append("\" either does not exist or is not a directory");
            return Err(ErrorKind::Unhandled(m));
        }
        Ok(FrameCache { source_file: file, cache_root, lru: lru_new(capacity), in_flight: Vec::new() })
    }

    /// An empty cache of `capacity` frames of `file`, staged in the existing directory `cache_root`.
    pub fn new(file: String, cache_root: String, capacity: usize) -> (r: Result<Self, ErrorKind>)
        ensures
            capacity == 0 ==> r == Err::<Self, ErrorKind>(ErrorKind::ArgumentError),
            r matches Ok(c) ==> c.wf() && c.entries().len() == 0 && c.capacity() == capacity
                && c.source() == file@ && c.root() == cache_root@ && c.pending().len() == 0,
            r matches Err(e) ==> e is ArgumentError || (e matches ErrorKind::Unhandled(m) && m@
                == bad_root_text(cache_root@)),
            r matches Err(ErrorKind::ArgumentError) ==> capacity == 0,
    {
        let root_is_dir = path_exists(cache_root.as_str()) && path_is_dir(cache_root.as_str());
        FrameCache::configured(file, cache_root, capacity, root_is_dir)
    }

    /// The source file's path.
    pub fn file(&self) -> (r: &str)
        ensures
            r@ == self.source(),
    {
        self.source_file.as_str()
    }

    /// The number of entries.
    pub fn len(&self) -> (r: usize)
        ensures
            r == self.entries().len(),
    {
        lru_len(&self.lru)
    }

    /// Whether an entry has key `i`; the order of entries is unchanged.
    pub fn contains(&self, i: usize) -> (r: bool)
        requires
            self.wf(),
        ensures
            r == has_key(self.entries(), i),
    {
        lru_peek(&self.lru, i).is_some()
    }

    /// The file of timecode `i` in the cache directory.
    pub fn cached_path(&self, i: usize) -> (r: String)
        ensures
            r@ == joined(self.root(), timecode_name(i as nat)),
    {
        cached_path_for(self.cache_root.as_str(), i)
    }

    /// The frame at timecode `i`, with the payload that its cached file held, if any.
    pub fn frame_from_file(&self, i: usize, disk: CachedFile) -> (r: Result<Frame, ErrorKind>)
        ensures
            exists|source_exists: bool| #[trigger]
                disk_frame_effect(self.source(), i, source_exists, disk, r),
    {
        let source_exists = path_exists(self.source_file.as_str());
        let ghost d = disk;
        let r = frame_from_disk(self.source_file.as_str(), i, source_exists, disk);
        assert(disk_frame_effect(self.source(), i, source_exists, d, r));
        r
    }

    /// Puts `frame` under key `key`, evicting the least recently used entry at capacity.
    pub fn insert(&mut self, key: usize, frame: Frame)
        requires
            old(self).wf(),
        ensures
            final(self).wf(),
            final(self).entries() == pushed(old(self).entries(), old(self).capacity(), key, frame),
            stored_payload(final(self).entries(), key) == frame@.payload,
            final(self).capacity() == old(self).capacity(),
            final(self).source() == old(self).source(),
            final(self).root() == old(self).root(),
            final(self).pending() == old(self).pending(),
    {
        proof {
            lemma_pushed_wf(self.entries(), self.capacity(), key, frame);
        }
        let _ = lru_push(&mut self.lru, key, frame);
    }

    /// The bytes of a loaded frame under key `i`, which becomes the most recently used.
    pub fn lookup(&mut self, i: usize) -> (r: Option<Vec<u8>>)
        requires
            old(self).wf(),
        ensures
            final(self).wf(),
            final(self).entries() == promoted(old(self).entries(), i),
            final(self).capacity() == old(self).capacity(),
            final(self).source() == old(self).source(),
            final(self).root() == old(self).root(),
            final(self).pending() == old(self).pending(),
            match stored_payload(old(self).entries(), i) {
                Some(b) => r matches Some(v) && v@ == b,
                None => r is None,
            },
    {
        let found = match lru_peek(&self.lru, i) {
            Some(f) => f.payload(),
            None => None,
        };
        proof {
            lemma_promoted_wf(self.entries(), i);
        }
        lru_promote(&mut self.lru, i);
        found
    }

    /// Puts each frame under its timecode, in order.
    pub fn ingest(&mut self, frames: Vec<Frame>)
        requires
            old(self).wf(),
        ensures
            final(self).wf(),
            final(self).entries() == pushed_all(old(self).entries(), old(self).capacity(), keyed(
                frames@,
            )),
            final(self).capacity() == old(self).capacity(),
            final(self).source() == old(self).source(),
            final(self).root() == old(self).root(),
            final(self).pending() == old(self).pending(),
    {
        let total = frames.len();
        let mut rest = frames;
        let ghost all = frames@;
        let ghost start = self.entries();
        let mut i: usize = 0;
        while rest.len() > 0
            invariant
                self.wf(),
                i + rest@.len() == all.len(),
                all.len() == total,
                rest@ == all.skip(i as int),
                self.entries() == pushed_all(start, self.capacity(), keyed(all.take(i as int))),
                self.capacity() == old(self).capacity(),
                self.source() == old(self).source(),
                self.root() == old(self).root(),
                self.pending() == old(self).pending(),
                start == old(self).entries(),
            decreases rest@.len(),
        {
            let f = rest.remove(0);
            let t = f.timecode();
            self.insert(t, f);
            proof {
                assert(keyed(all.take(i + 1)).drop_last() =~= keyed(all.take(i as int)));
                assert(all.take(i + 1).last() == f);
                assert(rest@ =~= all.skip(i + 1));
            }
            i = i + 1;
        }
        proof {
            assert(all.take(i as int) =~= all);
        }
    }

    /// Puts the frames of a batch under their timecodes only if every load
    /// succeeded; otherwise the cache is left untouched and a load's error returned.
    pub fn ingest_all(&mut self, loads: Vec<Result<Frame, ErrorKind>>) -> (r: Result<(), ErrorKind>)
        requires
            old(self).wf(),
        ensures
            final(self).wf(),
            final(self).capacity() == old(self).capacity(),
            final(self).source() == old(self).source(),
            final(self).root() == old(self).root(),
            final(self).pending() == old(self).pending(),
            all_loaded(loads@) ==> r is Ok && final(self).entries() == pushed_all(
                old(self).entries(),
                old(self).capacity(),
                keyed(loaded_frames(loads@)),
            ),
            !all_loaded(loads@) ==> final(self).entries() == old(self).entries() && (r matches Err(
                e,
            ) && exists|j: int| 0 <= j < loads@.len() && loads@[j] == Err::<Frame, ErrorKind>(e)),
    {
        let total = loads.len();
        let mut rest = loads;
        let ghost all = loads@;
        let mut frames: Vec<Frame> = Vec::new();
        let mut i: usize = 0;
        while rest.len() > 0
            invariant
                i + rest@.len() == all.len(),
                all.len() == total,
                rest@ == all.skip(i as int),
                all_loaded(all.take(i as int)),
                frames@ == loaded_frames(all.take(i as int)),
                all == loads@,
                self.wf(),
                self.entries() == old(self).entries(),
                self.capacity() == old(self).capacity(),
                self.source() == old(self).source(),
                self.root() == old(self).root(),
                self.pending() == old(self).pending(),
            decreases rest@.len(),
        {
            let item = rest.remove(0);
            proof {
                assert(all[i as int] == item);
                assert(rest@ =~= all.skip(i + 1));
            }
            match item {
                Ok(f) => {
                    frames.push(f);
                    proof {
                        assert(all.take(i + 1).drop_last() =~= all.take(i as int));
                        assert(loaded_frames(all.take(i + 1)) =~= loaded_frames(all.take(i as int)).push(f));
                    }
                },
                Err(e) => {
                    proof {
                        assert(!(all[i as int] is Ok));
                        assert(!all_loaded(all));
                    }
                    return Err(e);
                },
            }
            i = i + 1;
        }
        proof {
            assert(all.take(i as int) =~= all);
        }
        self.ingest(frames);
        Ok(())
    }

    /// Answers a request for timecode `i` without extracting: `on_disk` is the frame
    /// loaded from the cache directory. A loaded `on_disk` is stored under `i` and
    /// answers; else a loaded frame in memory answers; else, if `i` is being extracted,
    /// the caller waits; else `i` becomes pending and `on_disk` must be extracted.
    pub fn request(&mut self, i: usize, on_disk: Frame) -> (r: Lookup)
        requires
            old(self).wf(),
        ensures
            final(self).wf(),
            final(self).capacity() == old(self).capacity(),
            final(self).source() == old(self).source(),
            final(self).root() == old(self).root(),
            request_effect(*old(self), *final(self), i, on_disk, r),
    {
        match on_disk.payload() {
            Some(b) => {
                self.insert(i, on_disk);
                Lookup::Hit(b)
            },
            None => match self.lookup(i) {
                Some(b) => Lookup::Hit(b),
                None => {
                    if self.is_pending(i) {
                        Lookup::Wait
                    } else {
                        self.in_flight.push(i);
                        Lookup::Miss(on_disk)
                    }
                },
            },
        }
    }

    /// Whether timecode `i` is being extracted.
    pub fn is_pending(&self, i: usize) -> (r: bool)
        ensures
            r == self.pending().contains(i),
    {
        let mut j: usize = 0;
        while j < self.in_flight.len()
            invariant
                j <= self.in_flight@.len(),
                forall|k: int| 0 <= k < j ==> self.in_flight@[k] != i,
            decreases self.in_flight@.len() - j,
        {
            if self.in_flight[j] == i {
                return true;
            }
            j = j + 1;
        }
        false
    }

    /// Ends the extraction of timecode `i`, which is no longer pending.
    pub fn finish(&mut self, i: usize)
        ensures
            forall|k: usize| #[trigger]
                final(self).pending().contains(k) <==> old(self).pending().contains(k) && k != i,
            final(self).entries() == old(self).entries(),
            final(self).capacity() == old(self).capacity(),
            final(self).source() == old(self).source(),
            final(self).root() == old(self).root(),
    {
        let mut kept: Vec<usize> = Vec::new();
        let mut j: usize = 0;
        while j < self.in_flight.len()
            invariant
                j <= self.in_flight@.len(),
                forall|k: usize| #[trigger]
                    kept@.contains(k) <==> (exists|m: int|
                        0 <= m < j && self.in_flight@[m] == k) && k != i,
            decreases self.in_flight@.len() - j,
        {
            let t = self.in_flight[j];
            let ghost before = kept@;
            if t != i {
                kept.push(t);
            }
            proof {
                assert forall|k: usize| #[trigger]
                    kept@.contains(k) <==> (exists|m: int|
                        0 <= m < j + 1 && self.in_flight@[m] == k) && k != i by {
                    if t != i {
                        assert(kept@ == before.push(t));
                        if kept@.contains(k) {
                            let p = choose|p: int| 0 <= p < kept@.len() && kept@[p] == k;
                            if p < before.len() {
                                assert(before[p] == k);
                                assert(before.contains(k));
                            } else {
                                assert(self.in_flight@[j as int] == k);
                            }
                        }
                        if k == t {
                            assert(kept@[before.len() as int] == k);
                        }
                        if before.contains(k) {
                            let p = choose|p: int| 0 <= p < before.len() && before[p] == k;
                            assert(kept@[p] == k);
                        }
                    }
                    if (exists|m: int| 0 <= m < j + 1 && self.in_flight@[m] == k) && k != i {
                        let m = choose|m: int| 0 <= m < j + 1 && self.in_flight@[m] == k;
                        if m < j {
                            assert(before.contains(k));
                        }
                    }
                }
            }
            j = j + 1;
        }
        proof {
            assert forall|k: usize| #[trigger]
                kept@.contains(k) <==> self.in_flight@.contains(k) && k != i by {
                if self.in_flight@.contains(k) {
                    let m = choose|m: int| 0 <= m < self.in_flight@.len() && self.in_flight@[m] == k;
                    assert(0 <= m < j && self.in_flight@[m] == k);
                }
            }
        }
        self.in_flight = kept;
    }

    /// Stores a frame just extracted for timecode `i`, which is no longer pending,
    /// and returns its bytes; a frame without payload is an internal failure and is
    /// not stored.
    pub fn store_extracted(&mut self, i: usize, frame: Frame) -> (r: Result<Vec<u8>, ErrorKind>)
        requires
            old(self).wf(),
        ensures
            final(self).wf(),
            final(self).capacity() == old(self).capacity(),
            final(self).source() == old(self).source(),
            final(self).root() == old(self).root(),
            forall|k: usize| #[trigger]
                final(self).pending().contains(k) <==> old(self).pending().contains(k) && k != i,
            match frame@.payload {
                Some(b) => final(self).entries() == pushed(
                    old(self).entries(),
                    old(self).capacity(),
                    i,
                    frame,
                ) && (r matches Ok(v) && v@ == b) && stored_payload(final(self).entries(), i)
                    == Some(b),
                None => final(self).entries() == old(self).entries() && r is Err,
            },
    {
        self.finish(i);
        match frame.payload() {
            Some(b) => {
                self.insert(i, frame);
                Ok(b)
            },
            None => Err(ErrorKind::Unhandled(String::from_str("extraction left no payload"))),
        }
    }
}

} // verus!
