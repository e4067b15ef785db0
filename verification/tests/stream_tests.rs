use magnolia::pipeline::{
    audio_stream_cache_control, audio_stream_content_type, player_args, probe_args,
    subtitle_extract_args, transcode_args, SampleProgress, SampleStep, MAX_EMPTY_READS,
    SAMPLE_CAP_BYTES, SAMPLE_MIN_BYTES,
};
use magnolia::probe::{parse_duration_micros, parse_probe_output};
use magnolia::status::{
    compute_stream_status, stream_path, transcoded_audio_path, LiveStats, SessionStats,
    StreamPhase, StreamState,
};
use magnolia::range::read_range;
use magnolia::torrent::{ActivateAction, TorrentManager};
use magnolia::transcode::{parse_progress_line, progress_pct, TranscodeRegistry};

fn stats(progress: u64, total: u64, finished: bool, live: bool) -> SessionStats {
    SessionStats {
        progress_bytes: progress,
        total_bytes: total,
        finished,
        live: if live {
            Some(LiveStats { download_speed_mbps: 5, upload_speed_mbps: 1, peers: 8 })
        } else {
            None
        },
    }
}

const PROBE_AC3: &str = r#"{
  "streams": [
    {"codec_type": "video", "codec_name": "h264"},
    {"codec_type": "audio", "codec_name": "ac3", "codec_long_name": "ATSC A/52A (AC-3)",
     "tags": {"language": "eng", "title": "Surround"}},
    {"codec_type": "subtitle", "codec_name": "ass", "tags": {"language": "eng"}}
  ],
  "chapters": [
    {"start_time": "0.000000", "end_time": "90.500000", "tags": {"title": "Opening"}}
  ],
  "format": {"duration": "2520.750000"}
}"#;

#[test]
fn probe_output_is_classified() {
    let m = parse_probe_output(PROBE_AC3.as_bytes()).unwrap();
    assert_eq!(m.audio_tracks.len(), 1);
    assert_eq!(m.audio_tracks[0].index, 0);
    assert_eq!(m.audio_tracks[0].codec.as_deref(), Some("ac3"));
    assert_eq!(m.audio_tracks[0].language.as_deref(), Some("eng"));
    assert_eq!(m.audio_tracks[0].name.as_deref(), Some("Surround"));
    assert!(m.audio_tracks[0].needs_transcoding);
    assert!(m.needs_audio_transcoding);
    assert_eq!(m.subtitle_tracks.len(), 1);
    assert_eq!(m.subtitle_tracks[0].codec.as_deref(), Some("ass"));
    assert_eq!(m.chapters.len(), 1);
    assert_eq!(m.chapters[0].start_time_us, 0);
    assert_eq!(m.chapters[0].end_time_us, 90_500_000);
    assert_eq!(m.chapters[0].title.as_deref(), Some("Opening"));
    assert!(m.transcoded_audio_url.is_none());
}

#[test]
fn probe_output_all_native_tracks() {
    let json = r#"{"streams": [{"codec_type": "audio", "codec_name": "aac"}]}"#;
    let m = parse_probe_output(json.as_bytes()).unwrap();
    assert_eq!(m.audio_tracks.len(), 1);
    assert!(!m.audio_tracks[0].needs_transcoding);
    assert!(!m.needs_audio_transcoding);
    // Missing tags fall back to the undetermined language.
    assert_eq!(m.audio_tracks[0].language.as_deref(), Some("und"));
}

#[test]
fn invalid_probe_output_is_an_error() {
    assert!(parse_probe_output(b"not json at all").is_err());
}

#[test]
fn duration_parsing() {
    assert_eq!(parse_duration_micros("2520.750000\n"), Some(2_520_750_000));
    assert_eq!(parse_duration_micros("0.5"), Some(500_000));
    assert_eq!(parse_duration_micros("12"), Some(12_000_000));
    assert_eq!(parse_duration_micros("  90.25  "), Some(90_250_000));
    assert_eq!(parse_duration_micros("abc"), None);
    assert_eq!(parse_duration_micros(""), None);
    assert_eq!(parse_duration_micros("1.2345678"), Some(1_234_567));
}

#[test]
fn progress_line_parsing() {
    assert_eq!(parse_progress_line("out_time_ms=1234567"), Some(1_234_567));
    assert_eq!(parse_progress_line("out_time_ms=-9223372036854775808"), None);
    assert_eq!(parse_progress_line("frame=100"), None);
    assert_eq!(parse_progress_line("out_time_ms="), None);
}

#[test]
fn progress_percentage_is_capped() {
    assert_eq!(progress_pct(0, 1_000_000), 0);
    assert_eq!(progress_pct(500_000, 1_000_000), 50);
    assert_eq!(progress_pct(999_999, 1_000_000), 99);
    assert_eq!(progress_pct(2_000_000, 1_000_000), 99);
    assert_eq!(progress_pct(123, 0), 0);
}

// Status monotonicity: once present, the progress never decreases until the
// task completes, at which point it is exactly 100.
#[test]
fn transcode_progress_is_monotone() {
    let mut reg = TranscodeRegistry::new();
    reg.start(9, 0, Some("/tmp/a.aac".to_string()));
    assert_eq!(reg.get(9, 0).unwrap().progress, 0);

    reg.update_progress(9, 0, 400_000, 1_000_000);
    assert_eq!(reg.get(9, 0).unwrap().progress, 40);

    // A stale (smaller) report cannot move progress backwards.
    reg.update_progress(9, 0, 100_000, 1_000_000);
    assert_eq!(reg.get(9, 0).unwrap().progress, 40);

    reg.update_progress(9, 0, 990_000, 1_000_000);
    assert_eq!(reg.get(9, 0).unwrap().progress, 99);

    // Even a full-length report stays at 99 until completion.
    reg.update_progress(9, 0, 1_000_000, 1_000_000);
    assert_eq!(reg.get(9, 0).unwrap().progress, 99);
    assert!(!reg.get(9, 0).unwrap().completed);

    reg.complete(9, 0);
    assert_eq!(reg.get(9, 0).unwrap().progress, 100);
    assert!(reg.get(9, 0).unwrap().completed);
}

#[test]
fn transcode_failure_keeps_progress() {
    let mut reg = TranscodeRegistry::new();
    reg.start(1, 2, None);
    reg.update_progress(1, 2, 300_000, 1_000_000);
    reg.fail(1, 2, "transcoder exited with status 1".to_string());
    let st = reg.get(1, 2).unwrap();
    assert_eq!(st.progress, 30);
    assert_eq!(st.error.as_deref(), Some("transcoder exited with status 1"));
    assert!(reg.get(3, 4).is_none());
}

#[test]
fn status_initializing_until_buffered() {
    let s = stats(1024, 700 * 1024 * 1024, false, false);
    let r = compute_stream_status(5, 0, &s, true, "movie.mkv".to_string(), s.total_bytes, None, None);
    assert_eq!(r.status, StreamPhase::Initializing);
    assert_eq!(r.state, StreamState::Checking);
    assert!(r.stream_info.is_none());
    assert_eq!(r.peers, 0);
}

#[test]
fn status_not_streamable_is_initializing() {
    let s = stats(50 * 1024 * 1024, 700 * 1024 * 1024, false, true);
    let r = compute_stream_status(5, 0, &s, false, "movie.mkv".to_string(), s.total_bytes, None, None);
    assert_eq!(r.status, StreamPhase::Initializing);
    assert_eq!(r.state, StreamState::Downloading);
}

#[test]
fn status_ready_without_transcoding() {
    let s = stats(50 * 1024 * 1024, 700 * 1024 * 1024, false, true);
    let json = r#"{"streams": [{"codec_type": "audio", "codec_name": "aac"}]}"#;
    let meta = parse_probe_output(json.as_bytes()).unwrap();
    let r = compute_stream_status(5, 0, &s, true, "movie.mkv".to_string(), s.total_bytes, Some(meta), None);
    assert_eq!(r.status, StreamPhase::Ready);
    assert_eq!(r.state, StreamState::Downloading);
    let info = r.stream_info.unwrap();
    assert_eq!(info.url, "/torrents/5/stream/0");
    assert_eq!(info.file_name, "movie.mkv");
    assert!(info.metadata.unwrap().transcoded_audio_url.is_none());
    assert_eq!(r.peers, 8);
    assert_eq!(r.download_speed, 5);
}

// End-to-end scenario: a 700 MB container with one AC-3 track is registered
// and activated; the status walks initializing -> transcoding -> ready; the
// live transcoded-audio response carries the audio content type and, while
// the engine stream still has bytes, the emitted stream grows strictly.
#[test]
fn end_to_end_transcoded_stream() {
    let total: u64 = 700 * 1024 * 1024;
    let mut m = TorrentManager::new("/tmp/downloads".to_string());
    let h = m.add_torrent("magnet:?xt=urn:btih:feedbeef".to_string(), None);
    let sid = match m.prepare_stream(h, 0).unwrap() {
        ActivateAction::AddForFile { .. } => 42usize,
        ActivateAction::ResumeCached { .. } => panic!("nothing cached"),
    };
    m.bind_session(h, sid).unwrap();

    // Too little buffered: initializing.
    let s0 = stats(1024, total, false, false);
    let r0 = compute_stream_status(sid, 0, &s0, false, "film.mkv".to_string(), total, None, None);
    assert_eq!(r0.status, StreamPhase::Initializing);

    // Buffered and probed: the AC-3 track forces the transcoding phase.
    let meta = parse_probe_output(PROBE_AC3.as_bytes()).unwrap();
    assert!(meta.needs_audio_transcoding);
    let s1 = stats(120 * 1024 * 1024, total, false, true);
    let mut reg = TranscodeRegistry::new();
    reg.start(sid, 0, None);
    reg.update_progress(sid, 0, 600_000_000, 2_520_750_000);
    let r1 = compute_stream_status(
        sid, 0, &s1, true, "film.mkv".to_string(), total,
        Some(parse_probe_output(PROBE_AC3.as_bytes()).unwrap()),
        reg.get(sid, 0),
    );
    assert_eq!(r1.status, StreamPhase::Transcoding);
    assert_eq!(r1.state, StreamState::Transcoding);
    assert_eq!(r1.transcode_progress, Some(23));

    // The live pipe response headers.
    assert_eq!(audio_stream_content_type(), "audio/aac");
    assert_eq!(audio_stream_cache_control(), "no-cache");

    // The pump against the engine double emits a non-empty, strictly
    // growing stream while source bytes remain.
    let source: Vec<u8> = (0..=255u8).cycle().take(4096).collect();
    let mut emitted: Vec<u8> = Vec::new();
    let mut cursor: u64 = 0;
    while (cursor as usize) < source.len() {
        let end = std::cmp::min(cursor + 1023, source.len() as u64 - 1);
        let chunk = read_range(&source, cursor, end);
        let before = emitted.len();
        emitted.extend_from_slice(&chunk);
        assert!(emitted.len() > before);
        cursor = end + 1;
    }
    assert_eq!(emitted, source);

    // Transcode done: the status is ready and points at the audio URL.
    reg.complete(sid, 0);
    let s2 = stats(total, total, true, true);
    let r2 = compute_stream_status(
        sid, 0, &s2, true, "film.mkv".to_string(), total,
        Some(parse_probe_output(PROBE_AC3.as_bytes()).unwrap()),
        reg.get(sid, 0),
    );
    assert_eq!(r2.status, StreamPhase::Ready);
    assert_eq!(r2.transcode_progress, Some(100));
    let info = r2.stream_info.unwrap();
    assert_eq!(
        info.metadata.unwrap().transcoded_audio_url.as_deref(),
        Some("/torrents/42/transcoded-audio/0")
    );
}

#[test]
fn paths_embed_session_and_file() {
    assert_eq!(stream_path(12, 3), "/torrents/12/stream/3");
    assert_eq!(transcoded_audio_path(0, 10), "/torrents/0/transcoded-audio/10");
}

#[test]
fn sampling_policy() {
    assert_eq!(SAMPLE_CAP_BYTES, 100 * 1024 * 1024);
    assert_eq!(SAMPLE_MIN_BYTES, 10 * 1024 * 1024);

    // A small file is sampled whole.
    let mut p = SampleProgress::begin(1000, SAMPLE_CAP_BYTES);
    assert_eq!(p.target, 1000);
    assert_eq!(p.record_read(400), SampleStep::Progressed);
    assert_eq!(p.record_read(0), SampleStep::Retry);
    assert_eq!(p.record_read(600), SampleStep::Complete);
    assert_eq!(p.total_read, 1000);
    assert!(!p.sufficient());

    // A huge file is capped.
    let p2 = SampleProgress::begin(u64::MAX, SAMPLE_CAP_BYTES);
    assert_eq!(p2.target, SAMPLE_CAP_BYTES);

    // The idle window is bounded.
    let mut p3 = SampleProgress::begin(1000, SAMPLE_CAP_BYTES);
    for _ in 0..MAX_EMPTY_READS - 1 {
        assert_eq!(p3.record_read(0), SampleStep::Retry);
    }
    assert_eq!(p3.record_read(0), SampleStep::GiveUp);

    // Data resets the idle counter.
    let mut p4 = SampleProgress::begin(100 * 1024 * 1024, SAMPLE_CAP_BYTES);
    for _ in 0..100 {
        assert_eq!(p4.record_read(0), SampleStep::Retry);
    }
    assert_eq!(p4.record_read(11 * 1024 * 1024), SampleStep::Progressed);
    assert!(p4.sufficient());
    for _ in 0..MAX_EMPTY_READS - 1 {
        assert_eq!(p4.record_read(0), SampleStep::Retry);
    }
    assert_eq!(p4.record_read(0), SampleStep::GiveUp);
}

#[test]
fn external_command_lines() {
    let probe = probe_args("/tmp/sample.mkv".to_string());
    assert_eq!(
        probe,
        vec![
            "-v", "error", "-print_format", "json", "-show_format", "-show_streams",
            "-show_chapters", "/tmp/sample.mkv"
        ]
    );
    let subs = subtitle_extract_args("/tmp/sample.mkv".to_string(), 2);
    assert_eq!(subs, vec!["-i", "/tmp/sample.mkv", "-map", "0:s:2", "-f", "ass", "-"]);
    let tc = transcode_args("/tmp/in.mkv".to_string(), "/tmp/out.aac".to_string(), 1);
    assert_eq!(
        tc,
        vec![
            "-y", "-i", "/tmp/in.mkv", "-map", "0:a:1", "-c:a", "aac", "-b:a", "192k",
            "-progress", "pipe:1", "/tmp/out.aac"
        ]
    );
}

#[test]
fn external_player_arguments() {
    assert_eq!(
        player_args("MPV", "http://127.0.0.1:1/s".to_string(), "Film".to_string()).unwrap(),
        vec!["http://127.0.0.1:1/s", "--title=Film", "--force-window=immediate"]
    );
    assert_eq!(
        player_args("vlc", "http://127.0.0.1:1/s".to_string(), "Film".to_string()).unwrap(),
        vec!["http://127.0.0.1:1/s", "--meta-title=Film"]
    );
    assert!(player_args("wmp", "u".to_string(), "t".to_string()).is_err());
}
