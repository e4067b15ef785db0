//! Session lifecycle management.
//!
//! A *handle* is the stable, client-facing identifier of a registered source
//! (magnet link, URL or local path).  A handle owns at most one engine
//! *session*; the engine itself is an external collaborator, so every
//! operation here is a pure decision: it updates the handle table and the
//! bounded cache of paused sessions, and tells the caller which engine calls
//! to perform (add, unpause, pause-and-prune, purge).
//!
//! The cache holds at most [`CACHE_CAP`] entries, most recently cached first;
//! when an insertion overflows the cap, the least recently cached entry is
//! evicted and its engine session must be purged by the caller.

use vstd::prelude::*;

use crate::errors::StreamError;

verus! {

/// Number of cached (paused, data-pruned) sessions retained for fast resume.
pub const CACHE_CAP: usize = 10;

/// One registered source and its currently bound engine session, if any.
pub struct TorrentEntry {
    pub magnet_url: String,
    pub session_id: Option<usize>,
}

/// A paused engine session whose file data has been pruned but whose
/// engine-side bookkeeping is kept, so that resuming avoids a fresh
/// peer handshake.
pub struct CachedEntry {
    pub handle: usize,
    pub session_id: usize,
    pub source_uri: String,
    pub cached_at: u64,
}

/// The engine call that activation requires.
pub enum ActivateAction {
    /// A cached session exists: unpause it and rebind, fetching nothing anew.
    ResumeCached { session_id: usize },
    /// No cached session: add the source to the engine restricted to the one
    /// selected file, overwriting stale partial state.
    AddForFile { source: String, file_index: usize },
}

/// What deactivation decided, including the engine calls the caller owes.
pub enum DeactivateOutcome {
    /// The handle had no bound session: nothing to do.
    NoSession,
    /// Purge requested: delete the session and its files from the engine.
    Purged { session_id: usize },
    /// The session was cached: pause it and prune its file data; when an
    /// eviction was necessary, the evicted entry's session must be purged.
    Cached { session_id: usize, evicted: Option<CachedEntry> },
}

/// Client-stable handle table, fresh-id counter and bounded session cache.
pub struct TorrentManager {
    pub download_dir: String,
    pub torrents: Vec<(usize, TorrentEntry)>,
    pub next_id: usize,
    pub cache: Vec<CachedEntry>,
}

/// The cache with the entry of handle `h` removed (there is at most one).
pub open spec fn remove_handle(c: Seq<CachedEntry>, h: usize) -> Seq<CachedEntry> {
    if exists|i: int| 0 <= i < c.len() && c[i].handle == h {
        c.remove(choose|i: int| 0 <= i < c.len() && c[i].handle == h)
    } else {
        c
    }
}

/// The cache after pushing `e` to the front, and the entry evicted to keep
/// the cache within [`CACHE_CAP`], if any.  An older entry of the same handle
/// is replaced; when the cache is full, the least recently cached entry (the
/// last one) leaves.
pub open spec fn cache_after_insert(c0: Seq<CachedEntry>, e: CachedEntry) -> (
    Seq<CachedEntry>,
    Option<CachedEntry>,
) {
    let pruned = remove_handle(c0, e.handle);
    if pruned.len() < CACHE_CAP {
        (seq![e] + pruned, Option::None)
    } else {
        (seq![e] + pruned.drop_last(), Option::Some(pruned.last()))
    }
}

/// The engine session ids bound to the handles of `s`, in table order.
pub open spec fn session_ids(s: Seq<(usize, TorrentEntry)>) -> Seq<usize>
    decreases s.len(),
{
    if s.len() == 0 {
        seq![]
    } else {
        session_ids(s.drop_last()) + match s.last().1.session_id {
            Option::Some(sid) => seq![sid],
            Option::None => seq![],
        }
    }
}

impl TorrentManager {
    pub open spec fn handles(self) -> Seq<(usize, TorrentEntry)> {
        self.torrents@
    }

    pub open spec fn cache_entries(self) -> Seq<CachedEntry> {
        self.cache@
    }

    pub open spec fn spec_next_id(self) -> usize {
        self.next_id
    }

    pub open spec fn spec_download_dir(self) -> Seq<char> {
        self.download_dir@
    }

    pub open spec fn has_handle(self, h: usize) -> bool {
        exists|i: int| 0 <= i < self.torrents@.len() && (#[trigger] self.torrents@[i]).0 == h
    }

    pub open spec fn index_of(self, h: usize) -> int {
        choose|i: int| 0 <= i < self.torrents@.len() && (#[trigger] self.torrents@[i]).0 == h
    }

    pub open spec fn entry_of(self, h: usize) -> TorrentEntry {
        self.torrents@[self.index_of(h)].1
    }

    /// The session id of the cached entry of handle `h`, if one is cached.
    pub open spec fn cached_session(self, h: usize) -> Option<usize> {
        if exists|i: int| 0 <= i < self.cache@.len() && (#[trigger] self.cache@[i]).handle == h {
            Option::Some(
                self.cache@[choose|i: int|
                    0 <= i < self.cache@.len() && (#[trigger] self.cache@[i]).handle
                        == h].session_id,
            )
        } else {
            Option::None
        }
    }

    /// Well-formedness: handle keys are unique and below the fresh-id
    /// counter; the cache respects its bound, holds one entry per handle,
    /// and every cached entry belongs to a registered handle whose bound
    /// session is exactly the cached one.
    pub open spec fn wf(self) -> bool {
        &&& self.cache@.len() <= CACHE_CAP
        &&& (forall|i: int, j: int|
            0 <= i < j < self.torrents@.len() ==> (#[trigger] self.torrents@[i]).0 != (
            #[trigger] self.torrents@[j]).0)
        &&& (forall|i: int|
            0 <= i < self.torrents@.len() ==> (#[trigger] self.torrents@[i]).0 < self.next_id)
        &&& (forall|i: int, j: int|
            0 <= i < j < self.cache@.len() ==> (#[trigger] self.cache@[i]).handle != (
            #[trigger] self.cache@[j]).handle)
        &&& (forall|i: int|
            0 <= i < self.cache@.len() ==> self.has_handle((#[trigger] self.cache@[i]).handle))
        &&& (forall|i: int|
            0 <= i < self.cache@.len() ==> self.entry_of((#[trigger] self.cache@[i]).handle).session_id
                == Option::Some(self.cache@[i].session_id))
    }

    /// The decision that activating `(h, file_index)` takes: resume the
    /// cached session when one exists, otherwise add the source restricted
    /// to the selected file; an unknown handle is rejected.
    pub open spec fn spec_activate_action(self, h: usize, file_index: usize) -> Result<
        ActivateAction,
        StreamError,
    > {
        if !self.has_handle(h) {
            Result::Err(StreamError::HandleNotFound)
        } else {
            match self.cached_session(h) {
                Option::Some(sid) => Result::Ok(ActivateAction::ResumeCached { session_id: sid }),
                Option::None => Result::Ok(
                    ActivateAction::AddForFile {
                        source: self.entry_of(h).magnet_url,
                        file_index,
                    },
                ),
            }
        }
    }

    fn find_handle(&self, h: usize) -> (r: Option<usize>)
        requires
            forall|i: int, j: int|
                0 <= i < j < self.torrents@.len() ==> (#[trigger] self.torrents@[i]).0 != (
                #[trigger] self.torrents@[j]).0,
        ensures
            match r {
                Option::Some(i) => i < self.torrents@.len() && self.torrents@[i as int].0 == h
                    && self.has_handle(h) && self.index_of(h) == i,
                Option::None => !self.has_handle(h),
            },
    {
        let n = self.torrents.len();
        let mut i: usize = 0;
        while i < n
            invariant
                n == self.torrents@.len(),
                i <= n,
                forall|k: int| 0 <= k < i ==> (#[trigger] self.torrents@[k]).0 != h,
                forall|a: int, b: int|
                    0 <= a < b < self.torrents@.len() ==> (#[trigger] self.torrents@[a]).0 != (
                    #[trigger] self.torrents@[b]).0,
            decreases n - i,
        {
            if self.torrents[i].0 == h {
                proof {
                    let w = choose|k: int|
                        0 <= k < self.torrents@.len() && (#[trigger] self.torrents@[k]).0 == h;
                    assert(self.torrents@[i as int].0 == h);
                    if w != i {
                        assert(false);
                    }
                }
                return Option::Some(i);
            }
            i = i + 1;
        }
        Option::None
    }

    fn find_cached(&self, h: usize) -> (r: Option<usize>)
        requires
            forall|i: int, j: int|
                0 <= i < j < self.cache@.len() ==> (#[trigger] self.cache@[i]).handle != (
                #[trigger] self.cache@[j]).handle,
        ensures
            match r {
                Option::Some(i) => i < self.cache@.len() && self.cache@[i as int].handle == h
                    && self.cached_session(h) == Option::Some(self.cache@[i as int].session_id)
                    && remove_handle(self.cache@, h) == self.cache@.remove(i as int),
                Option::None => self.cached_session(h) is None && remove_handle(self.cache@, h)
                    == self.cache@,
            },
    {
        let n = self.cache.len();
        let mut i: usize = 0;
        while i < n
            invariant
                n == self.cache@.len(),
                i <= n,
                forall|k: int| 0 <= k < i ==> (#[trigger] self.cache@[k]).handle != h,
                forall|a: int, b: int|
                    0 <= a < b < self.cache@.len() ==> (#[trigger] self.cache@[a]).handle != (
                    #[trigger] self.cache@[b]).handle,
            decreases n - i,
        {
            if self.cache[i].handle == h {
                proof {
                    let w = choose|k: int|
                        0 <= k < self.cache@.len() && (#[trigger] self.cache@[k]).handle == h;
                    if w != i {
                        assert(false);
                    }
                }
                return Option::Some(i);
            }
            i = i + 1;
        }
        Option::None
    }

    /// A fresh manager with no handles and an empty cache.
    pub fn new(download_dir: String) -> (r: Self)
        ensures
            r.wf(),
            r.handles().len() == 0,
            r.cache_entries().len() == 0,
            r.spec_next_id() == 0,
            r.spec_download_dir() == download_dir@,
    {
        TorrentManager { download_dir, torrents: Vec::new(), next_id: 0, cache: Vec::new() }
    }

    /// Register a source and allocate its handle.  The engine's metadata-only
    /// listing happens outside; `session_id` is the session the engine may
    /// already have assigned during that listing (normally none).
    pub fn add_torrent(&mut self, magnet_or_url: String, session_id: Option<usize>) -> (h: usize)
        requires
            old(self).wf(),
            old(self).spec_next_id() < usize::MAX,
        ensures
            final(self).wf(),
            h == old(self).spec_next_id(),
            final(self).spec_next_id() == h + 1,
            final(self).handles() == old(self).handles().push(
                (h, TorrentEntry { magnet_url: magnet_or_url, session_id }),
            ),
            final(self).cache_entries() == old(self).cache_entries(),
            final(self).spec_download_dir() == old(self).spec_download_dir(),
    {
        let h = self.next_id;
        self.next_id = self.next_id + 1;
        self.torrents.push((h, TorrentEntry { magnet_url: magnet_or_url, session_id }));
        proof {
            assert forall|i: int|
                0 <= i < self.cache@.len() implies self.has_handle(
                (#[trigger] self.cache@[i]).handle,
            ) && self.entry_of(self.cache@[i].handle).session_id == Option::Some(
                self.cache@[i].session_id,
            ) by {
                let hh = self.cache@[i].handle;
                let w = choose|k: int|
                    0 <= k < old(self).torrents@.len() && (#[trigger] old(self).torrents@[k]).0
                        == hh;
                assert(old(self).has_handle(hh));
                assert(self.torrents@[w] == old(self).torrents@[w]);
                assert(self.has_handle(hh));
                assert(self.index_of(hh) == w) by {
                    let w2 = self.index_of(hh);
                    if w2 != w {
                        assert(false);
                    }
                }
                assert(old(self).index_of(hh) == w) by {
                    let w2 = old(self).index_of(hh);
                    if w2 != w {
                        assert(false);
                    }
                }
            }
        }
        h
    }

    /// Decide how to activate `(handle_id, file_index)`: resume the cached
    /// session if one exists, otherwise add the source restricted to the one
    /// selected file.  The state is unchanged; the caller performs the engine
    /// call and then reports the resulting session via [`Self::bind_session`].
    pub fn prepare_stream(&self, handle_id: usize, file_index: usize) -> (r: Result<
        ActivateAction,
        StreamError,
    >)
        requires
            self.wf(),
        ensures
            r == self.spec_activate_action(handle_id, file_index),
    {
        let idx = match self.find_handle(handle_id) {
            Option::Some(i) => i,
            Option::None => {
                return Result::Err(StreamError::HandleNotFound);
            },
        };
        match self.find_cached(handle_id) {
            Option::Some(ci) => Result::Ok(
                ActivateAction::ResumeCached { session_id: self.cache[ci].session_id },
            ),
            Option::None => Result::Ok(
                ActivateAction::AddForFile {
                    source: self.torrents[idx].1.magnet_url.clone(),
                    file_index,
                },
            ),
        }
    }

    /// Record the engine session that activation produced: bind it to the
    /// handle and drop the handle's cached entry, which is live again.
    pub fn bind_session(&mut self, handle_id: usize, session_id: usize) -> (r: Result<
        (),
        StreamError,
    >)
        requires
            old(self).wf(),
        ensures
            final(self).wf(),
            match r {
                Result::Ok(()) => old(self).has_handle(handle_id) && final(self).handles()
                    == old(self).handles().update(
                    old(self).index_of(handle_id),
                    (
                        handle_id,
                        TorrentEntry {
                            magnet_url: old(self).entry_of(handle_id).magnet_url,
                            session_id: Option::Some(session_id),
                        },
                    ),
                ) && final(self).cache_entries() == remove_handle(
                    old(self).cache_entries(),
                    handle_id,
                ),
                Result::Err(e) => e == StreamError::HandleNotFound && !old(self).has_handle(
                    handle_id,
                ) && *final(self) == *old(self),
            },
            final(self).spec_next_id() == old(self).spec_next_id(),
            final(self).spec_download_dir() == old(self).spec_download_dir(),
    {
        let idx = match self.find_handle(handle_id) {
            Option::Some(i) => i,
            Option::None => {
                return Result::Err(StreamError::HandleNotFound);
            },
        };
        let url = self.torrents[idx].1.magnet_url.clone();
        self.torrents.set(
            idx,
            (handle_id, TorrentEntry { magnet_url: url, session_id: Option::Some(session_id) }),
        );
        match self.find_cached(handle_id) {
            Option::Some(ci) => {
                self.cache.remove(ci);
            },
            Option::None => {},
        }
        proof {
            self.lemma_wf_after_rebind(*old(self), handle_id, Option::Some(session_id));
        }
        Result::Ok(())
    }

    /// Rebinding or clearing one handle's session and dropping that handle's
    /// cached entry preserves well-formedness.
    proof fn lemma_wf_after_rebind(self, prev: Self, handle_id: usize, new_sid: Option<usize>)
        requires
            prev.wf(),
            prev.has_handle(handle_id),
            self.torrents@ == prev.torrents@.update(
                prev.index_of(handle_id),
                (
                    handle_id,
                    TorrentEntry {
                        magnet_url: prev.entry_of(handle_id).magnet_url,
                        session_id: new_sid,
                    },
                ),
            ),
            self.cache@ == remove_handle(prev.cache@, handle_id),
            self.next_id == prev.next_id,
        ensures
            self.wf(),
    {
        let idx = prev.index_of(handle_id);
        assert(0 <= idx < prev.torrents@.len());
        assert forall|i: int|
            0 <= i < self.cache@.len() implies self.has_handle((#[trigger] self.cache@[i]).handle)
            && self.entry_of(self.cache@[i].handle).session_id == Option::Some(
            self.cache@[i].session_id,
        ) by {
            let e = self.cache@[i];
            assert(prev.cache@.contains(e)) by {
                if exists|k: int|
                    0 <= k < prev.cache@.len() && (#[trigger] prev.cache@[k]).handle == handle_id {
                    let k = choose|k: int|
                        0 <= k < prev.cache@.len() && (#[trigger] prev.cache@[k]).handle
                            == handle_id;
                    assert(self.cache@ == prev.cache@.remove(k));
                    if i < k {
                        assert(e == prev.cache@[i]);
                    } else {
                        assert(e == prev.cache@[i + 1]);
                    }
                } else {
                    assert(e == prev.cache@[i]);
                }
            }
            let pk = choose|k: int| 0 <= k < prev.cache@.len() && prev.cache@[k] == e;
            assert(prev.has_handle(e.handle));
            assert(e.handle != handle_id) by {
                if exists|k: int|
                    0 <= k < prev.cache@.len() && (#[trigger] prev.cache@[k]).handle == handle_id {
                    let k = choose|k: int|
                        0 <= k < prev.cache@.len() && (#[trigger] prev.cache@[k]).handle
                            == handle_id;
                    assert(self.cache@ == prev.cache@.remove(k));
                    if i < k {
                        assert(e == prev.cache@[i] && i != k);
                    } else {
                        assert(e == prev.cache@[i + 1] && i + 1 != k);
                    }
                }
            }
            let w = choose|k: int|
                0 <= k < prev.torrents@.len() && (#[trigger] prev.torrents@[k]).0 == e.handle;
            assert(prev.index_of(e.handle) == w) by {
                let w2 = prev.index_of(e.handle);
                if w2 != w {
                    assert(false);
                }
            }
            assert(w != idx) by {
                assert(prev.torrents@[idx].0 == handle_id);
            }
            assert(self.torrents@[w] == prev.torrents@[w]);
            assert(self.has_handle(e.handle));
            assert(self.index_of(e.handle) == w) by {
                let w2 = self.index_of(e.handle);
                assert(0 <= w2 < self.torrents@.len() && self.torrents@[w2].0 == e.handle);
                if w2 != w {
                    if w2 == idx {
                        assert(self.torrents@[idx].0 == handle_id);
                        assert(false);
                    } else {
                        assert(prev.torrents@[w2].0 == e.handle);
                        assert(false);
                    }
                }
            }
        }
    }

    /// Caching a live session and possibly evicting the oldest cached entry
    /// preserves well-formedness.
    proof fn lemma_wf_after_cache_insert(self, prev: Self, e: CachedEntry)
        requires
            prev.wf(),
            prev.has_handle(e.handle),
            prev.entry_of(e.handle).session_id == Option::Some(e.session_id),
            self.cache@ == cache_after_insert(prev.cache@, e).0,
            match cache_after_insert(prev.cache@, e).1 {
                Option::None => self.torrents@ == prev.torrents@,
                Option::Some(ev) => prev.has_handle(ev.handle) && ev.handle != e.handle
                    && self.torrents@ == prev.torrents@.update(
                    prev.index_of(ev.handle),
                    (
                        ev.handle,
                        TorrentEntry {
                            magnet_url: prev.entry_of(ev.handle).magnet_url,
                            session_id: Option::None,
                        },
                    ),
                ),
            },
            self.next_id == prev.next_id,
        ensures
            self.wf(),
    {
        let pruned = remove_handle(prev.cache@, e.handle);
        lemma_remove_handle_props(prev.cache@, e.handle);
        let evicted = cache_after_insert(prev.cache@, e).1;
        let rest = if evicted is Some {
            pruned.drop_last()
        } else {
            pruned
        };
        assert(self.cache@ == seq![e] + rest);
        assert(forall|k: int| 0 <= k < rest.len() ==> rest[k] == pruned[k]);
        assert(forall|k: int| 0 <= k < self.cache@.len() - 1 ==> self.cache@[k + 1] == rest[k]);
        assert(self.cache@[0] == e);

        assert forall|i: int, j: int|
            0 <= i < j < self.cache@.len() implies (#[trigger] self.cache@[i]).handle != (
        #[trigger] self.cache@[j]).handle by {
            if i == 0 {
                assert(self.cache@[j] == rest[j - 1]);
                assert(rest[j - 1].handle != e.handle);
            } else {
                assert(self.cache@[i] == pruned[i - 1] && self.cache@[j] == pruned[j - 1]);
            }
        }

        assert forall|i: int|
            0 <= i < self.cache@.len() implies self.has_handle((#[trigger] self.cache@[i]).handle)
            && self.entry_of(self.cache@[i].handle).session_id == Option::Some(
            self.cache@[i].session_id,
        ) by {
            let ce = self.cache@[i];
            let hh = ce.handle;
            // Identify the handle's row in the previous table.
            if i == 0 {
                assert(ce == e);
            } else {
                assert(ce == pruned[i - 1]);
                assert(prev.cache@.contains(ce));
            }
            assert(prev.has_handle(hh)) by {
                if i > 0 {
                    let pk = choose|k: int| 0 <= k < prev.cache@.len() && prev.cache@[k] == ce;
                    assert(prev.cache@[pk].handle == hh);
                }
            }
            let w = choose|k: int|
                0 <= k < prev.torrents@.len() && (#[trigger] prev.torrents@[k]).0 == hh;
            assert(prev.index_of(hh) == w) by {
                let w2 = prev.index_of(hh);
                if w2 != w {
                    assert(false);
                }
            }
            assert(prev.entry_of(hh).session_id == Option::Some(ce.session_id)) by {
                if i == 0 {
                } else {
                    let pk = choose|k: int| 0 <= k < prev.cache@.len() && prev.cache@[k] == ce;
                    assert(prev.cache@[pk].handle == hh);
                }
            }
            match evicted {
                Option::None => {
                    assert(self.torrents@ == prev.torrents@);
                    assert(self.has_handle(hh));
                    assert(self.index_of(hh) == w) by {
                        let w2 = self.index_of(hh);
                        if w2 != w {
                            assert(false);
                        }
                    }
                },
                Option::Some(ev) => {
                    let eidx = prev.index_of(ev.handle);
                    assert(0 <= eidx < prev.torrents@.len() && prev.torrents@[eidx].0
                        == ev.handle);
                    assert(hh != ev.handle) by {
                        if i == 0 {
                        } else {
                            assert(ce == pruned[i - 1] && i - 1 < pruned.len() - 1);
                            assert(ev == pruned.last());
                            assert(pruned[i - 1].handle != pruned[pruned.len() - 1].handle);
                        }
                    }
                    assert(w != eidx);
                    assert(self.torrents@[w] == prev.torrents@[w]);
                    assert(self.has_handle(hh));
                    assert(self.index_of(hh) == w) by {
                        let w2 = self.index_of(hh);
                        assert(self.torrents@[w2].0 == hh);
                        if w2 != w {
                            if w2 == eidx {
                                assert(self.torrents@[eidx].0 == ev.handle);
                                assert(false);
                            } else {
                                assert(prev.torrents@[w2].0 == hh);
                                assert(false);
                            }
                        }
                    }
                },
            }
        }
    }

    /// Deactivate a handle's session.  With `delete_files` the session is
    /// purged outright and the handle becomes session-less.  Otherwise the
    /// session is paused, its file data pruned, and a cache entry is pushed
    /// to the front of the bounded cache; when that overflows the cap, the
    /// least recently cached entry is evicted, its session to be purged by
    /// the caller, and its handle becomes session-less.
    pub fn stop_stream(&mut self, handle_id: usize, delete_files: bool, cached_at: u64) -> (r:
        Result<DeactivateOutcome, StreamError>)
        requires
            old(self).wf(),
        ensures
            final(self).wf(),
            final(self).spec_next_id() == old(self).spec_next_id(),
            final(self).spec_download_dir() == old(self).spec_download_dir(),
            match r {
                Result::Err(e) => e == StreamError::HandleNotFound && !old(self).has_handle(
                    handle_id,
                ) && *final(self) == *old(self),
                Result::Ok(DeactivateOutcome::NoSession) => old(self).has_handle(handle_id)
                    && old(self).entry_of(handle_id).session_id is None && *final(self) == *old(
                    self,
                ),
                Result::Ok(DeactivateOutcome::Purged { session_id }) => delete_files && old(
                    self,
                ).has_handle(handle_id) && old(self).entry_of(handle_id).session_id
                    == Option::Some(session_id) && final(self).handles() == old(
                    self,
                ).handles().update(
                    old(self).index_of(handle_id),
                    (
                        handle_id,
                        TorrentEntry {
                            magnet_url: old(self).entry_of(handle_id).magnet_url,
                            session_id: Option::None,
                        },
                    ),
                ) && final(self).cache_entries() == remove_handle(
                    old(self).cache_entries(),
                    handle_id,
                ),
                Result::Ok(DeactivateOutcome::Cached { session_id, evicted }) => {
                    let e = CachedEntry {
                        handle: handle_id,
                        session_id,
                        source_uri: old(self).entry_of(handle_id).magnet_url,
                        cached_at,
                    };
                    &&& !delete_files
                    &&& old(self).has_handle(handle_id)
                    &&& old(self).entry_of(handle_id).session_id == Option::Some(session_id)
                    &&& final(self).cache_entries() == cache_after_insert(
                        old(self).cache_entries(),
                        e,
                    ).0
                    &&& evicted == cache_after_insert(old(self).cache_entries(), e).1
                    &&& match evicted {
                        Option::None => final(self).handles() == old(self).handles(),
                        Option::Some(ev) => final(self).handles() == old(self).handles().update(
                            old(self).index_of(ev.handle),
                            (
                                ev.handle,
                                TorrentEntry {
                                    magnet_url: old(self).entry_of(ev.handle).magnet_url,
                                    session_id: Option::None,
                                },
                            ),
                        ),
                    }
                },
            },
    {
        let idx = match self.find_handle(handle_id) {
            Option::Some(i) => i,
            Option::None => {
                return Result::Err(StreamError::HandleNotFound);
            },
        };
        let sid = match self.torrents[idx].1.session_id {
            Option::Some(s) => s,
            Option::None => {
                return Result::Ok(DeactivateOutcome::NoSession);
            },
        };
        if delete_files {
            let url = self.torrents[idx].1.magnet_url.clone();
            self.torrents.set(
                idx,
                (handle_id, TorrentEntry { magnet_url: url, session_id: Option::None }),
            );
            match self.find_cached(handle_id) {
                Option::Some(ci) => {
                    self.cache.remove(ci);
                },
                Option::None => {},
            }
            proof {
                self.lemma_wf_after_rebind(*old(self), handle_id, Option::None);
            }
            return Result::Ok(DeactivateOutcome::Purged { session_id: sid });
        }
        let url = self.torrents[idx].1.magnet_url.clone();
        let e = CachedEntry {
            handle: handle_id,
            session_id: sid,
            source_uri: url,
            cached_at,
        };
        let ghost e_spec = e;
        match self.find_cached(handle_id) {
            Option::Some(ci) => {
                self.cache.remove(ci);
            },
            Option::None => {},
        }
        let ghost pruned = remove_handle(old(self).cache@, handle_id);
        assert(self.cache@ == pruned);
        proof {
            lemma_remove_handle_props(old(self).cache@, handle_id);
        }
        self.cache.insert(0, e);
        assert(self.cache@ =~= seq![e_spec] + pruned);
        let evicted: Option<CachedEntry> = if self.cache.len() > CACHE_CAP {
            let ev = match self.cache.pop() {
                Option::Some(ev) => ev,
                Option::None => {
                    proof {
                        assert(false);
                    }
                    return Result::Err(StreamError::HandleNotFound);
                },
            };
            assert(ev == pruned.last());
            assert(self.cache@ =~= seq![e_spec] + pruned.drop_last());
            // The evicted session leaves the engine: clear its handle.
            assert(old(self).cache@.contains(ev)) by {
                assert(pruned[pruned.len() - 1] == ev);
            }
            let ghost pk = choose|k: int|
                0 <= k < old(self).cache@.len() && old(self).cache@[k] == ev;
            assert(old(self).has_handle(ev.handle)) by {
                assert(old(self).cache@[pk].handle == ev.handle);
            }
            assert(ev.handle != handle_id);
            let evidx = match self.find_handle(ev.handle) {
                Option::Some(i) => i,
                Option::None => {
                    proof {
                        assert(false);
                    }
                    return Result::Err(StreamError::HandleNotFound);
                },
            };
            assert(evidx == old(self).index_of(ev.handle)) by {
                let w = old(self).index_of(ev.handle);
                assert(old(self).torrents@[w].0 == ev.handle);
                let w2 = self.index_of(ev.handle);
                if w != w2 {
                    assert(false);
                }
            }
            let evurl = self.torrents[evidx].1.magnet_url.clone();
            self.torrents.set(
                evidx,
                (ev.handle, TorrentEntry { magnet_url: evurl, session_id: Option::None }),
            );
            Option::Some(ev)
        } else {
            assert(self.cache@.len() == pruned.len() + 1);
            Option::None
        };
        proof {
            assert(cache_after_insert(old(self).cache@, e_spec).0 == self.cache@);
            self.lemma_wf_after_cache_insert(*old(self), e_spec);
        }
        Result::Ok(DeactivateOutcome::Cached { session_id: sid, evicted })
    }

    /// The session to pause, if the handle has one; an unknown handle is
    /// rejected, a session-less one is a no-op.
    pub fn pause_torrent(&self, handle_id: usize) -> (r: Result<Option<usize>, StreamError>)
        requires
            self.wf(),
        ensures
            match r {
                Result::Ok(s) => self.has_handle(handle_id) && s == self.entry_of(
                    handle_id,
                ).session_id,
                Result::Err(e) => e == StreamError::HandleNotFound && !self.has_handle(handle_id),
            },
    {
        match self.find_handle(handle_id) {
            Option::Some(i) => Result::Ok(self.torrents[i].1.session_id),
            Option::None => Result::Err(StreamError::HandleNotFound),
        }
    }

    /// The session to unpause, if the handle has one; an unknown handle is
    /// rejected, a session-less one is a no-op.
    pub fn resume_torrent(&self, handle_id: usize) -> (r: Result<Option<usize>, StreamError>)
        requires
            self.wf(),
        ensures
            match r {
                Result::Ok(s) => self.has_handle(handle_id) && s == self.entry_of(
                    handle_id,
                ).session_id,
                Result::Err(e) => e == StreamError::HandleNotFound && !self.has_handle(handle_id),
            },
    {
        match self.find_handle(handle_id) {
            Option::Some(i) => Result::Ok(self.torrents[i].1.session_id),
            Option::None => Result::Err(StreamError::HandleNotFound),
        }
    }

    /// Forget a handle entirely; the returned session, if any, must be
    /// deleted from the engine by the caller.  Removing an unknown handle is
    /// a no-op, as is removing one that never activated a session.
    pub fn remove_torrent(&mut self, handle_id: usize) -> (r: Option<usize>)
        requires
            old(self).wf(),
        ensures
            final(self).wf(),
            final(self).spec_next_id() == old(self).spec_next_id(),
            final(self).spec_download_dir() == old(self).spec_download_dir(),
            !final(self).has_handle(handle_id),
            if old(self).has_handle(handle_id) {
                r == old(self).entry_of(handle_id).session_id && final(self).handles() == old(
                    self,
                ).handles().remove(old(self).index_of(handle_id)) && final(self).cache_entries()
                    == remove_handle(old(self).cache_entries(), handle_id)
            } else {
                r is None && *final(self) == *old(self)
            },
    {
        let idx = match self.find_handle(handle_id) {
            Option::Some(i) => i,
            Option::None => {
                return Option::None;
            },
        };
        let sid = self.torrents[idx].1.session_id;
        self.torrents.remove(idx);
        match self.find_cached(handle_id) {
            Option::Some(ci) => {
                self.cache.remove(ci);
            },
            Option::None => {},
        }
        proof {
            self.lemma_wf_after_remove(*old(self), handle_id);
        }
        sid
    }

    proof fn lemma_wf_after_remove(self, prev: Self, handle_id: usize)
        requires
            prev.wf(),
            prev.has_handle(handle_id),
            self.torrents@ == prev.torrents@.remove(prev.index_of(handle_id)),
            self.cache@ == remove_handle(prev.cache@, handle_id),
            self.next_id == prev.next_id,
        ensures
            self.wf(),
            !self.has_handle(handle_id),
    {
        let idx = prev.index_of(handle_id);
        assert(0 <= idx < prev.torrents@.len());
        assert(forall|k: int|
            0 <= k < self.torrents@.len() ==> (#[trigger] self.torrents@[k]) == (if k < idx {
                prev.torrents@[k]
            } else {
                prev.torrents@[k + 1]
            }));
        assert(!self.has_handle(handle_id)) by {
            if exists|k: int|
                0 <= k < self.torrents@.len() && (#[trigger] self.torrents@[k]).0 == handle_id {
                let k = choose|k: int|
                    0 <= k < self.torrents@.len() && (#[trigger] self.torrents@[k]).0 == handle_id;
                if k < idx {
                    assert(prev.torrents@[k].0 == handle_id && prev.torrents@[idx].0 == handle_id);
                    assert(false);
                } else {
                    assert(prev.torrents@[k + 1].0 == handle_id && prev.torrents@[idx].0
                        == handle_id);
                    assert(false);
                }
            }
        }
        lemma_remove_handle_props(prev.cache@, handle_id);
        assert forall|i: int|
            0 <= i < self.cache@.len() implies self.has_handle((#[trigger] self.cache@[i]).handle)
            && self.entry_of(self.cache@[i].handle).session_id == Option::Some(
            self.cache@[i].session_id,
        ) by {
            let e = self.cache@[i];
            let hh = e.handle;
            assert(e == remove_handle(prev.cache@, handle_id)[i]);
            assert(prev.cache@.contains(e) && hh != handle_id);
            let pk = choose|k: int| 0 <= k < prev.cache@.len() && prev.cache@[k] == e;
            assert(prev.has_handle(hh)) by {
                assert(prev.cache@[pk].handle == hh);
            }
            let w = choose|k: int|
                0 <= k < prev.torrents@.len() && (#[trigger] prev.torrents@[k]).0 == hh;
            assert(prev.index_of(hh) == w) by {
                let w2 = prev.index_of(hh);
                if w2 != w {
                    assert(false);
                }
            }
            assert(prev.entry_of(hh).session_id == Option::Some(e.session_id)) by {
                assert(prev.cache@[pk].handle == hh);
            }
            assert(w != idx);
            let nw = if w < idx {
                w
            } else {
                w - 1
            };
            assert(self.torrents@[nw] == prev.torrents@[w]);
            assert(self.has_handle(hh));
            assert(self.index_of(hh) == nw) by {
                let w2 = self.index_of(hh);
                assert(self.torrents@[w2].0 == hh);
                if w2 != nw {
                    if w2 < idx {
                        assert(prev.torrents@[w2].0 == hh);
                        assert(false);
                    } else {
                        assert(prev.torrents@[w2 + 1].0 == hh);
                        assert(false);
                    }
                }
            }
        }
    }

    /// All handle ids, in registration order.
    pub fn handle_ids(&self) -> (r: Vec<usize>)
        ensures
            r@.len() == self.handles().len(),
            forall|i: int| 0 <= i < r@.len() ==> r@[i] == (#[trigger] self.handles()[i]).0,
    {
        let mut r: Vec<usize> = Vec::new();
        let mut i: usize = 0;
        while i < self.torrents.len()
            invariant
                i <= self.torrents@.len(),
                r@.len() == i,
                forall|k: int| 0 <= k < i ==> r@[k] == (#[trigger] self.torrents@[k]).0,
            decreases self.torrents@.len() - i,
        {
            r.push(self.torrents[i].0);
            i = i + 1;
        }
        r
    }

    /// The engine sessions of every handle, to be purged at shutdown; the
    /// manager forgets all handles and the whole cache.
    pub fn cleanup_all(&mut self) -> (r: Vec<usize>)
        requires
            old(self).wf(),
        ensures
            final(self).wf(),
            r@ == session_ids(old(self).handles()),
            final(self).handles().len() == 0,
            final(self).cache_entries().len() == 0,
            final(self).spec_next_id() == old(self).spec_next_id(),
            final(self).spec_download_dir() == old(self).spec_download_dir(),
    {
        let mut r: Vec<usize> = Vec::new();
        let mut i: usize = 0;
        while i < self.torrents.len()
            invariant
                i <= self.torrents@.len(),
                r@ == session_ids(self.torrents@.subrange(0, i as int)),
            decreases self.torrents@.len() - i,
        {
            match self.torrents[i].1.session_id {
                Option::Some(sid) => {
                    r.push(sid);
                },
                Option::None => {},
            }
            i = i + 1;
            assert(self.torrents@.subrange(0, i as int).drop_last() =~= self.torrents@.subrange(
                0,
                i as int - 1,
            ));
        }
        assert(self.torrents@.subrange(0, self.torrents@.len() as int) =~= self.torrents@);
        self.torrents.clear();
        self.cache.clear();
        r
    }

    /// The session bound to a handle: `HandleNotFound` for an unknown handle,
    /// `SessionNotFound` for one that has not activated a session.
    pub fn session_of(&self, handle_id: usize) -> (r: Result<usize, StreamError>)
        requires
            self.wf(),
        ensures
            match r {
                Result::Ok(sid) => self.has_handle(handle_id) && self.entry_of(
                    handle_id,
                ).session_id == Option::Some(sid),
                Result::Err(e) => (e == StreamError::HandleNotFound && !self.has_handle(handle_id))
                    || (e == StreamError::SessionNotFound && self.has_handle(handle_id)
                    && self.entry_of(handle_id).session_id is None),
            },
    {
        match self.find_handle(handle_id) {
            Option::Some(i) => match self.torrents[i].1.session_id {
                Option::Some(sid) => Result::Ok(sid),
                Option::None => Result::Err(StreamError::SessionNotFound),
            },
            Option::None => Result::Err(StreamError::HandleNotFound),
        }
    }

    /// The source URI a handle was registered with.
    pub fn source_of(&self, handle_id: usize) -> (r: Result<String, StreamError>)
        requires
            self.wf(),
        ensures
            match r {
                Result::Ok(s) => self.has_handle(handle_id) && s@ == self.entry_of(
                    handle_id,
                ).magnet_url@,
                Result::Err(e) => e == StreamError::HandleNotFound && !self.has_handle(handle_id),
            },
    {
        match self.find_handle(handle_id) {
            Option::Some(i) => Result::Ok(self.torrents[i].1.magnet_url.clone()),
            Option::None => Result::Err(StreamError::HandleNotFound),
        }
    }

    /// The directory the engine downloads into.
    pub fn get_download_dir(&self) -> (r: String)
        ensures
            r@ == self.spec_download_dir(),
    {
        self.download_dir.clone()
    }

    /// Restore one persisted cache entry at startup: a fresh handle is
    /// allocated for the entry's source with the cached session bound, and
    /// the entry rejoins the back of the cache (callers restore the
    /// persisted list front to back, which preserves its order).  An entry
    /// whose session the engine no longer knows is dropped instead.
    pub fn restore_cached(
        &mut self,
        source_uri: String,
        session_id: usize,
        cached_at: u64,
        engine_confirms: bool,
    ) -> (r: Option<usize>)
        requires
            old(self).wf(),
            old(self).spec_next_id() < usize::MAX,
            old(self).cache_entries().len() < CACHE_CAP,
        ensures
            final(self).wf(),
            !engine_confirms ==> r is None && *final(self) == *old(self),
            engine_confirms ==> {
                let h = old(self).spec_next_id();
                &&& r == Option::Some(h)
                &&& final(self).spec_next_id() == h + 1
                &&& final(self).handles() == old(self).handles().push(
                    (
                        h,
                        TorrentEntry {
                            magnet_url: source_uri,
                            session_id: Option::Some(session_id),
                        },
                    ),
                )
                &&& final(self).cache_entries() == old(self).cache_entries().push(
                    CachedEntry { handle: h, session_id, source_uri, cached_at },
                )
            },
            final(self).spec_download_dir() == old(self).spec_download_dir(),
    {
        if !engine_confirms {
            return Option::None;
        }
        let h = self.next_id;
        self.next_id = self.next_id + 1;
        let entry_uri = source_uri.clone();
        self.torrents.push(
            (h, TorrentEntry { magnet_url: entry_uri, session_id: Option::Some(session_id) }),
        );
        self.cache.push(CachedEntry { handle: h, session_id, source_uri, cached_at });
        proof {
            assert(self.cache@.last().source_uri@ == self.torrents@.last().1.magnet_url@);
            let n = old(self).torrents@.len() as int;
            let cn = old(self).cache@.len() as int;
            assert(self.torrents@[n].0 == h);
            assert forall|i: int|
                0 <= i < self.cache@.len() implies self.has_handle(
                (#[trigger] self.cache@[i]).handle,
            ) && self.entry_of(self.cache@[i].handle).session_id == Option::Some(
                self.cache@[i].session_id,
            ) by {
                let hh = self.cache@[i].handle;
                if i < cn {
                    assert(self.cache@[i] == old(self).cache@[i]);
                    let w = choose|k: int|
                        0 <= k < old(self).torrents@.len() && (#[trigger] old(
                            self,
                        ).torrents@[k]).0 == hh;
                    assert(old(self).has_handle(hh));
                    assert(old(self).index_of(hh) == w) by {
                        let w2 = old(self).index_of(hh);
                        if w2 != w {
                            assert(false);
                        }
                    }
                    assert(self.torrents@[w] == old(self).torrents@[w]);
                    assert(self.has_handle(hh));
                    assert(hh < old(self).next_id);
                    assert(self.index_of(hh) == w) by {
                        let w2 = self.index_of(hh);
                        assert(self.torrents@[w2].0 == hh);
                        if w2 != w {
                            if w2 == n {
                                assert(self.torrents@[n].0 == h && hh != h);
                                assert(false);
                            } else {
                                assert(old(self).torrents@[w2].0 == hh);
                                assert(false);
                            }
                        }
                    }
                } else {
                    assert(self.cache@[i].handle == h);
                    assert(self.has_handle(h));
                    assert(self.index_of(h) == n) by {
                        let w2 = self.index_of(h);
                        assert(self.torrents@[w2].0 == h);
                        if w2 != n {
                            assert(old(self).torrents@[w2].0 == h);
                            assert(h < old(self).next_id);
                            assert(false);
                        }
                    }
                }
            }
            assert forall|i: int, j: int|
                0 <= i < j < self.cache@.len() implies (#[trigger] self.cache@[i]).handle != (
            #[trigger] self.cache@[j]).handle by {
                if j < cn {
                    assert(self.cache@[i] == old(self).cache@[i] && self.cache@[j] == old(
                        self,
                    ).cache@[j]);
                } else {
                    assert(self.cache@[i] == old(self).cache@[i]);
                    assert(self.cache@[j].handle == h);
                    assert(old(self).has_handle(old(self).cache@[i].handle));
                    let w = choose|k: int|
                        0 <= k < old(self).torrents@.len() && (#[trigger] old(
                            self,
                        ).torrents@[k]).0 == old(self).cache@[i].handle;
                    assert(old(self).torrents@[w].0 < old(self).next_id);
                }
            }
        }
        Option::Some(h)
    }
}

/// Properties of removing one handle's entry from a duplicate-free cache:
/// at most one entry leaves, the remaining entries kept their relative order,
/// none of them carries the removed handle, and all of them come from the
/// original cache, still duplicate-free.
proof fn lemma_remove_handle_props(c: Seq<CachedEntry>, h: usize)
    requires
        forall|i: int, j: int|
            0 <= i < j < c.len() ==> (#[trigger] c[i]).handle != (#[trigger] c[j]).handle,
    ensures
        remove_handle(c, h).len() <= c.len(),
        c.len() <= remove_handle(c, h).len() + 1,
        forall|k: int|
            0 <= k < remove_handle(c, h).len() ==> (#[trigger] remove_handle(c, h)[k]).handle != h,
        forall|k: int|
            0 <= k < remove_handle(c, h).len() ==> c.contains(#[trigger] remove_handle(c, h)[k]),
        forall|i: int, j: int|
            0 <= i < j < remove_handle(c, h).len() ==> (#[trigger] remove_handle(c, h)[i]).handle
                != (#[trigger] remove_handle(c, h)[j]).handle,
{
    let r = remove_handle(c, h);
    if exists|i: int| 0 <= i < c.len() && c[i].handle == h {
        let w = choose|i: int| 0 <= i < c.len() && c[i].handle == h;
        assert(r == c.remove(w));
        assert(forall|k: int|
            0 <= k < r.len() ==> (#[trigger] r[k]) == (if k < w {
                c[k]
            } else {
                c[k + 1]
            }));
        assert forall|k: int| 0 <= k < r.len() implies (#[trigger] r[k]).handle != h by {
            if k < w {
                assert(r[k] == c[k]);
            } else {
                assert(r[k] == c[k + 1]);
            }
        }
        assert forall|k: int| 0 <= k < r.len() implies c.contains(#[trigger] r[k]) by {
            if k < w {
                assert(c[k] == r[k]);
            } else {
                assert(c[k + 1] == r[k]);
            }
        }
    } else {
        assert(r == c);
        assert forall|k: int| 0 <= k < r.len() implies (#[trigger] r[k]).handle != h by {
            if r[k].handle == h {
                assert(c[k].handle == h);
            }
        }
        assert(forall|k: int| 0 <= k < r.len() ==> c.contains(#[trigger] r[k]));
    }
}

/// Cache bound invariant: a well-formed manager never holds more cached
/// sessions than the cap allows.
pub proof fn lemma_cache_bounded(m: TorrentManager)
    requires
        m.wf(),
    ensures
        m.cache_entries().len() <= CACHE_CAP,
{
}

/// Cache bound invariant: inserting into a cache that respects the bound
/// yields a cache that still respects it; the new entry stands at the front;
/// and whenever an entry is evicted, it is the least recently cached one —
/// the last entry of the cache once the handle's own older entry is gone.
pub proof fn lemma_cache_insert_bounded(c0: Seq<CachedEntry>, e: CachedEntry)
    requires
        c0.len() <= CACHE_CAP,
        forall|i: int, j: int|
            0 <= i < j < c0.len() ==> (#[trigger] c0[i]).handle != (#[trigger] c0[j]).handle,
    ensures
        cache_after_insert(c0, e).0.len() <= CACHE_CAP,
        cache_after_insert(c0, e).0[0] == e,
        cache_after_insert(c0, e).1 is Some ==> cache_after_insert(c0, e).1
            == Option::Some(remove_handle(c0, e.handle).last()),
{
    lemma_remove_handle_props(c0, e.handle);
}

/// Idempotent reactivation: activating a handle that has a cached entry
/// always resumes that entry's engine session; a fresh engine add is never
/// requested, so only one engine session is ever bound to a handle.
pub proof fn lemma_reactivation_reuses_session(m: TorrentManager, h: usize, file_index: usize)
    requires
        m.wf(),
        m.cached_session(h) is Some,
    ensures
        m.spec_activate_action(h, file_index) == Result::<ActivateAction, StreamError>::Ok(
            ActivateAction::ResumeCached { session_id: m.cached_session(h)->Some_0 },
        ),
{
    let i = choose|i: int| 0 <= i < m.cache@.len() && (#[trigger] m.cache@[i]).handle == h;
    assert(m.has_handle(m.cache@[i].handle));
}

} // verus!
