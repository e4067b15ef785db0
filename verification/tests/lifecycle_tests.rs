use std::collections::HashSet;

use magnolia::torrent::{ActivateAction, DeactivateOutcome, TorrentManager, CACHE_CAP};

fn register(m: &mut TorrentManager, uri: &str) -> usize {
    m.add_torrent(uri.to_string(), None)
}

// A minimal engine double: a set of live session ids and a counter.
struct EngineDouble {
    next: usize,
    live: HashSet<usize>,
    adds: usize,
}

impl EngineDouble {
    fn new() -> Self {
        EngineDouble { next: 100, live: HashSet::new(), adds: 0 }
    }

    fn add(&mut self) -> usize {
        let id = self.next;
        self.next += 1;
        self.adds += 1;
        self.live.insert(id);
        id
    }

    fn purge(&mut self, id: usize) {
        self.live.remove(&id);
    }
}

fn activate(m: &mut TorrentManager, engine: &mut EngineDouble, h: usize, file: usize) -> usize {
    let sid = match m.prepare_stream(h, file).unwrap() {
        ActivateAction::ResumeCached { session_id } => session_id,
        ActivateAction::AddForFile { .. } => engine.add(),
    };
    m.bind_session(h, sid).unwrap();
    sid
}

#[test]
fn register_allocates_monotonic_handles() {
    let mut m = TorrentManager::new("/tmp/downloads".to_string());
    let a = register(&mut m, "magnet:?xt=urn:btih:aa");
    let b = register(&mut m, "magnet:?xt=urn:btih:bb");
    assert_eq!(a, 0);
    assert_eq!(b, 1);
}

#[test]
fn unknown_handle_is_rejected() {
    let m = TorrentManager::new("/tmp/downloads".to_string());
    assert!(m.prepare_stream(7, 0).is_err());
    assert!(m.pause_torrent(7).is_err());
    assert!(m.session_of(7).is_err());
}

#[test]
fn pause_without_session_is_noop() {
    let mut m = TorrentManager::new("/tmp/downloads".to_string());
    let h = register(&mut m, "magnet:?xt=urn:btih:aa");
    assert_eq!(m.pause_torrent(h).unwrap(), None);
    assert_eq!(m.resume_torrent(h).unwrap(), None);
}

#[test]
fn activation_binds_engine_session() {
    let mut m = TorrentManager::new("/tmp/downloads".to_string());
    let mut engine = EngineDouble::new();
    let h = register(&mut m, "magnet:?xt=urn:btih:aa");
    match m.prepare_stream(h, 3).unwrap() {
        ActivateAction::AddForFile { source, file_index } => {
            assert_eq!(source, "magnet:?xt=urn:btih:aa");
            assert_eq!(file_index, 3);
        }
        ActivateAction::ResumeCached { .. } => panic!("nothing cached yet"),
    }
    let sid = activate(&mut m, &mut engine, h, 3);
    assert_eq!(m.session_of(h).unwrap(), sid);
}

// Idempotent reactivation: a handle with a cached entry resumes that
// session; no second engine session is ever bound to it.
#[test]
fn reactivation_reuses_cached_session() {
    let mut m = TorrentManager::new("/tmp/downloads".to_string());
    let mut engine = EngineDouble::new();
    let h = register(&mut m, "magnet:?xt=urn:btih:aa");
    let sid = activate(&mut m, &mut engine, h, 0);
    let adds_before = engine.adds;

    match m.stop_stream(h, false, 1111).unwrap() {
        DeactivateOutcome::Cached { session_id, evicted } => {
            assert_eq!(session_id, sid);
            assert!(evicted.is_none());
        }
        _ => panic!("expected the session to be cached"),
    }

    // Activating again must resume the same engine session, not add anew.
    match m.prepare_stream(h, 0).unwrap() {
        ActivateAction::ResumeCached { session_id } => assert_eq!(session_id, sid),
        ActivateAction::AddForFile { .. } => panic!("a cached handle must not re-add"),
    }
    m.bind_session(h, sid).unwrap();
    assert_eq!(engine.adds, adds_before);
    assert_eq!(m.session_of(h).unwrap(), sid);
}

// Cache bound invariant and eviction order: after a sequence of
// deactivations without purging, the cache never exceeds its cap and the
// evicted entry is always the least recently cached one.
#[test]
fn cache_is_bounded_and_evicts_oldest() {
    let mut m = TorrentManager::new("/tmp/downloads".to_string());
    let mut engine = EngineDouble::new();
    let mut handles = Vec::new();
    let mut sessions = Vec::new();
    for i in 0..CACHE_CAP + 1 {
        let h = register(&mut m, &format!("magnet:?xt=urn:btih:h{}", i));
        let sid = activate(&mut m, &mut engine, h, 0);
        handles.push(h);
        sessions.push(sid);
    }
    let mut evicted_log = Vec::new();
    for i in 0..CACHE_CAP + 1 {
        match m.stop_stream(handles[i], false, 2000 + i as u64).unwrap() {
            DeactivateOutcome::Cached { evicted, .. } => {
                if let Some(ev) = evicted {
                    engine.purge(ev.session_id);
                    evicted_log.push(ev);
                }
            }
            _ => panic!("expected caching"),
        }
        assert!(m.cache.len() <= CACHE_CAP);
    }
    // Exactly one eviction happened: the first handle cached, which was the
    // least recently cached when the cache overflowed.
    assert_eq!(evicted_log.len(), 1);
    assert_eq!(evicted_log[0].handle, handles[0]);
    assert_eq!(evicted_log[0].session_id, sessions[0]);
}

// Eviction-then-resume scenario: cache eleven handles; the first one's
// session is fully purged from the engine while the other ten remain
// cached; reactivating one of them reuses its session id with no new
// engine add (no fresh peer handshake).
#[test]
fn eviction_then_resume() {
    let mut m = TorrentManager::new("/tmp/downloads".to_string());
    let mut engine = EngineDouble::new();
    let mut handles = Vec::new();
    let mut sessions = Vec::new();
    for i in 0..11 {
        let h = register(&mut m, &format!("magnet:?xt=urn:btih:h{}", i));
        let sid = activate(&mut m, &mut engine, h, 0);
        handles.push(h);
        sessions.push(sid);
    }
    for i in 0..11 {
        match m.stop_stream(handles[i], false, 3000 + i as u64).unwrap() {
            DeactivateOutcome::Cached { evicted, .. } => {
                if let Some(ev) = evicted {
                    engine.purge(ev.session_id);
                }
            }
            _ => panic!("expected caching"),
        }
    }
    // Handle 1's session no longer exists in the engine; handles 2..=11 do.
    assert!(!engine.live.contains(&sessions[0]));
    assert!(m.session_of(handles[0]).is_err());
    for i in 1..11 {
        assert!(engine.live.contains(&sessions[i]));
        assert_eq!(m.session_of(handles[i]).unwrap(), sessions[i]);
    }
    assert_eq!(m.cache.len(), 10);

    // Reactivate the fifth handle: its session id is reused, nothing added.
    let adds_before = engine.adds;
    match m.prepare_stream(handles[4], 0).unwrap() {
        ActivateAction::ResumeCached { session_id } => assert_eq!(session_id, sessions[4]),
        ActivateAction::AddForFile { .. } => panic!("must not fetch metadata anew"),
    }
    m.bind_session(handles[4], sessions[4]).unwrap();
    assert_eq!(engine.adds, adds_before);
}

#[test]
fn recaching_a_handle_replaces_its_entry() {
    let mut m = TorrentManager::new("/tmp/downloads".to_string());
    let mut engine = EngineDouble::new();
    let h = register(&mut m, "magnet:?xt=urn:btih:aa");
    let sid = activate(&mut m, &mut engine, h, 0);
    m.stop_stream(h, false, 1).unwrap();
    // Resume and cache again: still one entry, at the front.
    m.bind_session(h, sid).unwrap();
    m.stop_stream(h, false, 2).unwrap();
    assert_eq!(m.cache.len(), 1);
    assert_eq!(m.cache[0].cached_at, 2);
}

#[test]
fn purge_clears_session_and_cache_entry() {
    let mut m = TorrentManager::new("/tmp/downloads".to_string());
    let mut engine = EngineDouble::new();
    let h = register(&mut m, "magnet:?xt=urn:btih:aa");
    let sid = activate(&mut m, &mut engine, h, 0);
    m.stop_stream(h, false, 1).unwrap();
    m.bind_session(h, sid).unwrap();
    match m.stop_stream(h, true, 2).unwrap() {
        DeactivateOutcome::Purged { session_id } => {
            assert_eq!(session_id, sid);
            engine.purge(session_id);
        }
        _ => panic!("expected a purge"),
    }
    assert!(m.session_of(h).is_err());
    assert_eq!(m.cache.len(), 0);
}

#[test]
fn remove_forgets_the_handle() {
    let mut m = TorrentManager::new("/tmp/downloads".to_string());
    let mut engine = EngineDouble::new();
    let h = register(&mut m, "magnet:?xt=urn:btih:aa");
    let sid = activate(&mut m, &mut engine, h, 0);
    assert_eq!(m.remove_torrent(h), Some(sid));
    assert!(m.session_of(h).is_err());
    assert_eq!(m.remove_torrent(h), None);
}

#[test]
fn cleanup_returns_all_live_sessions() {
    let mut m = TorrentManager::new("/tmp/downloads".to_string());
    let mut engine = EngineDouble::new();
    let h1 = register(&mut m, "magnet:?xt=urn:btih:aa");
    let h2 = register(&mut m, "magnet:?xt=urn:btih:bb");
    let _h3 = register(&mut m, "magnet:?xt=urn:btih:cc");
    let s1 = activate(&mut m, &mut engine, h1, 0);
    let s2 = activate(&mut m, &mut engine, h2, 0);
    let sessions = m.cleanup_all();
    assert_eq!(sessions, vec![s1, s2]);
    assert!(m.handle_ids().is_empty());
    assert_eq!(m.cache.len(), 0);
}

#[test]
fn download_dir_is_kept() {
    let m = TorrentManager::new("/data/torrents".to_string());
    assert_eq!(m.get_download_dir(), "/data/torrents");
}

#[test]
fn restore_reattaches_cached_sessions() {
    let mut m = TorrentManager::new("/tmp/downloads".to_string());
    let h = m.restore_cached("magnet:?xt=urn:btih:old".to_string(), 7, 500, true);
    assert_eq!(h, Some(0));
    // A session the engine no longer knows is dropped.
    assert_eq!(m.restore_cached("magnet:?xt=urn:btih:gone".to_string(), 9, 600, false), None);
    assert_eq!(m.cache.len(), 1);
    assert_eq!(m.session_of(0).unwrap(), 7);
    // Resuming the restored handle reuses the persisted session.
    match m.prepare_stream(0, 0).unwrap() {
        ActivateAction::ResumeCached { session_id } => assert_eq!(session_id, 7),
        ActivateAction::AddForFile { .. } => panic!("restored handles must resume"),
    }
}
