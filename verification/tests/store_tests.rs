use magnolia::cache_metadata::CacheMetadataManager;
use sha2::Digest;
use magnolia::errors::StreamError;
use magnolia::font_manager::{font_entry, font_stem_matches, sanitize_filename, FontManager};
use magnolia::info::{build_torrent_info, media_files, progress_bp, total_size, RawFileEntry,
    TorrentState};
use magnolia::media_cache::{cache_file_name, cache_id_of_filename, hash_key,
    torrent_group_folder, TrackType};
use magnolia::settings::{Settings, SettingsManager};
use magnolia::status::{LiveStats, SessionStats};
use magnolia::tracking::TrackingManager;
use magnolia::track_preferences::TrackPreferencesManager;

#[test]
fn cache_metadata_roundtrip() {
    let mut m = CacheMetadataManager::new();
    m.set_mapping("ABCDEF".to_string(), 603, "movie".to_string());
    let got = m.get_mapping("abcdef").unwrap();
    assert_eq!(got.tmdb_id, 603);
    assert_eq!(got.media_type, "movie");
    // Lookups are case-insensitive because keys are stored lower-cased.
    assert!(m.get_mapping("AbCdEf").is_some());
    m.set_mapping("abcdef".to_string(), 604, "tv".to_string());
    assert_eq!(m.get_mapping("ABCDEF").unwrap().tmdb_id, 604);
    assert_eq!(m.mappings.len(), 1);
    m.remove_mapping("abcDEF");
    assert!(m.get_mapping("abcdef").is_none());
}

#[test]
fn track_type_folders() {
    assert_eq!(TrackType::Subtitle.folder_name(), "subtitles");
    assert_eq!(TrackType::Audio.folder_name(), "audio");
    assert_eq!(TrackType::Torrent.folder_name(), "torrents");
}

#[test]
fn cache_file_names_embed_key_and_digest() {
    let name = cache_file_name("603", 1, 2);
    assert!(name.starts_with("603_1_2_"));
    assert!(name.ends_with(".cache"));
    // id + 3 separators + two single-digit indices + 8 digest chars + ext
    assert_eq!(name.len(), 3 + 3 + 1 + 1 + 8 + 6);
    assert_eq!(cache_id_of_filename(&name).as_deref(), Some("603"));
    assert_eq!(cache_id_of_filename("nounderscores"), None);
}

#[test]
fn hash_key_matches_external_digest() {
    let h = hash_key("id", 3, 4);
    let mut hasher = sha2::Sha256::new();
    hasher.update("id-3-4".as_bytes());
    let digest = hasher.finalize();
    let expect: String = digest.iter().map(|b| format!("{:02x}", b)).collect();
    assert_eq!(h, expect[..8]);
    // Different keys give different digests.
    assert_ne!(hash_key("id", 3, 5), h);
}

#[test]
fn torrent_group_ids() {
    assert_eq!(torrent_group_folder("torrent_My.Show").as_deref(), Some("My.Show"));
    assert_eq!(torrent_group_folder("603"), None);
}

#[test]
fn media_file_listing_filters_and_keeps_positions() {
    let raw = vec![
        RawFileEntry { path: "Sample/readme.txt".to_string(), size: 10 },
        RawFileEntry { path: "Show/Episode.One.MKV".to_string(), size: 700 },
        RawFileEntry { path: "Show/extra.nfo".to_string(), size: 1 },
        RawFileEntry { path: "Show/Episode.Two.mkv".to_string(), size: 800 },
    ];
    let files = media_files(&raw);
    assert_eq!(files.len(), 2);
    assert_eq!(files[0].index, 1);
    assert_eq!(files[0].name, "Episode.One.MKV");
    assert_eq!(files[0].size, 700);
    assert_eq!(files[1].index, 3);
    assert_eq!(files[1].name, "Episode.Two.mkv");
    assert_eq!(total_size(&files), 1500);
}

#[test]
fn progress_basis_points() {
    assert_eq!(progress_bp(0, 0), 0);
    assert_eq!(progress_bp(50, 200), 2500);
    assert_eq!(progress_bp(200, 200), 10000);
    assert_eq!(progress_bp(300, 200), 10000);
    assert_eq!(progress_bp(1, 3), 3333);
}

#[test]
fn torrent_info_assembly() {
    let raw = vec![RawFileEntry { path: "a.mkv".to_string(), size: 400 }];
    let files = media_files(&raw);
    let stats = SessionStats {
        progress_bytes: 100,
        total_bytes: 400,
        finished: false,
        live: Some(LiveStats { download_speed_mbps: 9, upload_speed_mbps: 2, peers: 4 }),
    };
    let info = build_torrent_info(7, "My Show".to_string(), files, &stats, false);
    assert_eq!(info.handle_id, 7);
    assert_eq!(info.name, "My Show");
    assert_eq!(info.size, 400);
    assert_eq!(info.progress_bp, 2500);
    assert_eq!(info.download_speed, 9);
    assert_eq!(info.upload_speed, 2);
    assert_eq!(info.peers, 4);
    assert_eq!(info.state, TorrentState::Live);

    let paused = SessionStats { progress_bytes: 0, total_bytes: 0, finished: false, live: None };
    let info2 = build_torrent_info(8, "Other".to_string(), Vec::new(), &paused, true);
    assert_eq!(info2.state, TorrentState::Paused);
    assert_eq!(info2.size, 0);
    let checking = build_torrent_info(9, "Third".to_string(), Vec::new(), &paused, false);
    assert_eq!(checking.state, TorrentState::Checking);
}

#[test]
fn settings_defaults_and_updates() {
    let mut mgr = SettingsManager::new(Settings::default());
    let s = mgr.get();
    assert_eq!(s.external_player, "mpv");
    assert!(s.remember_preferences);
    assert!(s.show_skip_prompts);
    mgr.save(Settings {
        external_player: "vlc".to_string(),
        remember_preferences: false,
        show_skip_prompts: true,
    });
    assert_eq!(mgr.get().external_player, "vlc");
    assert!(!mgr.get().remember_preferences);
}

#[test]
fn track_preferences_roundtrip() {
    let mut mgr = TrackPreferencesManager::new();
    assert!(mgr.get_preference("magnet:?xt=urn:btih:x").is_none());
    mgr.save_preference(
        "magnet:?xt=urn:btih:x".to_string(),
        Some(1),
        Some(-1),
        Some("eng".to_string()),
    );
    let p = mgr.get_preference("magnet:?xt=urn:btih:x").unwrap();
    assert_eq!(p.audio_track_index, Some(1));
    assert_eq!(p.subtitle_track_index, Some(-1));
    assert_eq!(p.subtitle_language.as_deref(), Some("eng"));
    mgr.save_preference("magnet:?xt=urn:btih:x".to_string(), Some(2), None, None);
    assert_eq!(mgr.get_preference("magnet:?xt=urn:btih:x").unwrap().audio_track_index, Some(2));
    assert_eq!(mgr.data.torrents.len(), 1);
}

#[test]
fn tracking_selections_roundtrip() {
    let mut mgr = TrackingManager::new();
    assert!(mgr.get_selection(10, 1, 1).is_none());
    mgr.save_selection(10, 1, 1, "magnet:?xt=urn:btih:e1".to_string(), 0);
    mgr.save_selection(10, 1, 2, "magnet:?xt=urn:btih:e2".to_string(), 3);
    mgr.save_selection(11, 2, 1, "magnet:?xt=urn:btih:f1".to_string(), 0);
    let got = mgr.get_selection(10, 1, 2).unwrap();
    assert_eq!(got.magnet_link, "magnet:?xt=urn:btih:e2");
    assert_eq!(got.file_index, 3);
    // Replacing a selection keeps one record per episode.
    mgr.save_selection(10, 1, 2, "magnet:?xt=urn:btih:e2b".to_string(), 1);
    assert_eq!(mgr.get_selection(10, 1, 2).unwrap().magnet_link, "magnet:?xt=urn:btih:e2b");
    assert_eq!(mgr.entries.len(), 3);

    let history = mgr.get_all_selections(10).unwrap();
    assert_eq!(history.seasons.len(), 1);
    assert_eq!(history.seasons[0].0, 1);
    assert_eq!(history.seasons[0].1.episodes.len(), 2);
    assert!(mgr.get_all_selections(99).is_none());

    mgr.remove_selection(10, 1, 1);
    assert!(mgr.get_selection(10, 1, 1).is_none());
    assert_eq!(mgr.entries.len(), 2);
}

#[test]
fn filename_sanitization() {
    assert_eq!(sanitize_filename("Font: *Bold*.ttf"), "Font_ _Bold_.ttf");
    assert_eq!(sanitize_filename("a/b\\c<d>e|f?g\"h.otf"), "a_b_c_d_e_f_g_h.otf");
    assert_eq!(sanitize_filename("plain.ttf"), "plain.ttf");
}

#[test]
fn font_paths_and_entries() {
    let mgr = FontManager::new("/data/fonts".to_string());
    assert_eq!(mgr.get_fonts_dir(), "/data/fonts");
    assert_eq!(mgr.font_path("Bad:Name.ttf"), "/data/fonts/Bad_Name.ttf");

    let entry = font_entry("arial.ttf".to_string(), "/data/fonts/arial.ttf".to_string());
    assert_eq!(entry.filename, "arial.ttf");
    assert_eq!(entry.path, "/data/fonts/arial.ttf");
    let expect = format!("{:x}", md5::compute("arial.ttf"));
    assert_eq!(entry.hash, expect);
}

#[test]
fn font_stem_matching() {
    assert!(font_stem_matches("Arial.ttf", "ARIAL.TTF"));
    assert!(font_stem_matches("Arial.ttf", "arial.otf"));
    assert!(!font_stem_matches("Arial.ttf", "ArialBold.ttf"));
    assert!(font_stem_matches(".hidden", ".HIDDEN"));
}

#[test]
fn error_labels() {
    assert_eq!(StreamError::HandleNotFound.label(), "handle not found");
    assert_eq!(StreamError::SessionNotFound.label(), "session not found");
    assert_eq!(StreamError::FileIndexOutOfRange.label(), "file index out of range");
    assert_eq!(StreamError::SourceUnreachable.label(), "source unreachable");
    assert_eq!(StreamError::InsufficientBufferedData.label(), "not enough buffered data");
    assert_eq!(StreamError::SubprocessSpawnFailed.label(), "failed to spawn subprocess");
    assert_eq!(StreamError::SubprocessFailed.label(), "subprocess failed");
    assert_eq!(StreamError::IoFailure.label(), "i/o failure");
}
