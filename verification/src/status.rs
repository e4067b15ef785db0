//! Stream status aggregation.
//!
//! The client polls one endpoint and receives a readiness signal computed
//! afresh from the engine statistics, the cached probe result and the
//! transcode tracker.  Nothing is persisted: re-evaluating on every poll
//! keeps restart semantics trivial.

use vstd::prelude::*;

use crate::probe::MkvMetadata;
use crate::text::{dec_digits, u64_to_string};
use crate::transcode::TranscodeState;

verus! {

/// A stream is served once this many bytes are buffered (or the download has
/// finished): enough for container headers to be readable.
pub const READY_BUFFER_BYTES: u64 = 2097152;

/// Statistics of a live download, present once the engine has finished
/// checking existing data.
pub struct LiveStats {
    pub download_speed_mbps: u64,
    pub upload_speed_mbps: u64,
    pub peers: usize,
}

/// One engine session's statistics snapshot.
pub struct SessionStats {
    pub progress_bytes: u64,
    pub total_bytes: u64,
    pub finished: bool,
    pub live: Option<LiveStats>,
}

/// Client-facing readiness signal.
#[derive(Clone, Copy, Debug, PartialEq, Eq, Structural)]
pub enum StreamPhase {
    /// Not seekable yet, or too little buffered.
    Initializing,
    /// Playable as-is.
    Ready,
    /// Playable only after the pending audio transcode.
    Transcoding,
}

/// Coarse download-engine state.
#[derive(Clone, Copy, Debug, PartialEq, Eq, Structural)]
pub enum StreamState {
    /// The engine is hashing and verifying existing data.
    Checking,
    /// The engine is actively fetching.
    Downloading,
    /// A transcode task is running for this file.
    Transcoding,
}

/// Where to reach the stream once it is ready.
pub struct StreamInfo {
    pub url: String,
    pub file_name: String,
    pub file_size: u64,
    pub metadata: Option<MkvMetadata>,
}

/// The aggregated signal returned to a polling client.
pub struct StreamStatus {
    pub status: StreamPhase,
    pub progress_bytes: u64,
    pub total_bytes: u64,
    pub peers: usize,
    pub download_speed: u64,
    pub stream_info: Option<StreamInfo>,
    pub state: StreamState,
    pub transcode_progress: Option<u8>,
}

/// A stream is ready when the engine can open a byte stream for the file and
/// enough bytes are buffered (or the download has finished).
pub open spec fn spec_is_ready(streamable: bool, stats: SessionStats) -> bool {
    streamable && (stats.progress_bytes > READY_BUFFER_BYTES || stats.finished)
}

/// The readiness phase: not ready is `Initializing`; ready with an audio
/// transcode still owed is `Transcoding`; otherwise `Ready`.
pub open spec fn spec_phase(
    ready: bool,
    needs_transcoding: bool,
    transcode_completed: bool,
) -> StreamPhase {
    if !ready {
        StreamPhase::Initializing
    } else if needs_transcoding && !transcode_completed {
        StreamPhase::Transcoding
    } else {
        StreamPhase::Ready
    }
}

/// The coarse state: a running transcode dominates; otherwise the engine is
/// checking until live statistics exist, then downloading.
pub open spec fn spec_state(
    transcode_tracked: bool,
    transcode_completed: bool,
    live: bool,
) -> StreamState {
    if transcode_tracked && !transcode_completed {
        StreamState::Transcoding
    } else if !live {
        StreamState::Checking
    } else {
        StreamState::Downloading
    }
}

/// Path of the raw range-aware stream of `(session, file)`.
pub fn stream_path(session_id: usize, file_index: usize) -> (r: String)
    ensures
        r@ == "/torrents/"@ + dec_digits(session_id as int) + "/stream/"@ + dec_digits(
            file_index as int,
        ),
{
    let mut s = u64_to_string(session_id as u64);
    let mut r = String::new();
    r.append("/torrents/");
    r.append(s.as_str());
    r.append("/stream/");
    let f = u64_to_string(file_index as u64);
    r.append(f.as_str());
    r
}

/// Path of the transcoded audio of `(session, file)`.
pub fn transcoded_audio_path(session_id: usize, file_index: usize) -> (r: String)
    ensures
        r@ == "/torrents/"@ + dec_digits(session_id as int) + "/transcoded-audio/"@ + dec_digits(
            file_index as int,
        ),
{
    let mut r = String::new();
    r.append("/torrents/");
    let s = u64_to_string(session_id as u64);
    r.append(s.as_str());
    r.append("/transcoded-audio/");
    let f = u64_to_string(file_index as u64);
    r.append(f.as_str());
    r
}

/// A transcode should be started for a ready stream that needs one, is not
/// in_flight yet, and whose file is fully downloaded (the transcoder reads the
/// finished file from disk).
pub fn should_start_transcode(
    stats: &SessionStats,
    needs_transcoding: bool,
    already_tracked: bool,
) -> (r: bool)
    ensures
        r == (needs_transcoding && !already_tracked && (stats.finished || (stats.total_bytes > 0
            && stats.progress_bytes >= stats.total_bytes))),
{
    needs_transcoding && !already_tracked && (stats.finished || (stats.total_bytes > 0
        && stats.progress_bytes >= stats.total_bytes))
}

/// Aggregate one poll's status from the engine statistics, the most recently
/// computed metadata and the transcode tracker.  The phase, coarse state,
/// byte counters, peer and speed figures, and the stream descriptor are all
/// pinned down; when the transcode has completed, the metadata handed back
/// carries the URL path of the transcoded audio.
pub fn compute_stream_status(
    session_id: usize,
    file_index: usize,
    stats: &SessionStats,
    streamable: bool,
    file_name: String,
    file_size: u64,
    metadata: Option<MkvMetadata>,
    transcode: Option<&TranscodeState>,
) -> (r: StreamStatus)
    ensures
        ({
            let ready = spec_is_ready(streamable, *stats);
            let needs = match metadata {
                Option::Some(m) => m.needs_audio_transcoding,
                Option::None => false,
            };
            let in_flight = transcode is Some;
            let completed = match transcode {
                Option::Some(t) => t.completed,
                Option::None => false,
            };
            &&& r.status == spec_phase(ready, needs, completed)
            &&& r.state == spec_state(in_flight, completed, stats.live is Some)
            &&& r.progress_bytes == stats.progress_bytes
            &&& r.total_bytes == stats.total_bytes
            &&& r.peers == (match stats.live {
                Option::Some(l) => l.peers,
                Option::None => 0,
            })
            &&& r.download_speed == (match stats.live {
                Option::Some(l) => l.download_speed_mbps,
                Option::None => 0,
            })
            &&& r.transcode_progress == (match transcode {
                Option::Some(t) => Option::Some(t.progress),
                Option::None => Option::<u8>::None,
            })
            &&& (ready ==> r.stream_info is Some)
            &&& (!ready ==> r.stream_info is None)
            &&& (ready ==> {
                let info = r.stream_info->Some_0;
                &&& info.url@ == "/torrents/"@ + dec_digits(session_id as int) + "/stream/"@
                    + dec_digits(file_index as int)
                &&& info.file_name == file_name
                &&& info.file_size == file_size
                &&& (metadata is None ==> info.metadata is None)
                &&& (metadata is Some ==> {
                    let m0 = metadata->Some_0;
                    let m1 = info.metadata->Some_0;
                    &&& info.metadata is Some
                    &&& m1.audio_tracks == m0.audio_tracks
                    &&& m1.subtitle_tracks == m0.subtitle_tracks
                    &&& m1.chapters == m0.chapters
                    &&& m1.needs_audio_transcoding == m0.needs_audio_transcoding
                    &&& (if m0.needs_audio_transcoding && completed {
                        m1.transcoded_audio_url is Some
                            && m1.transcoded_audio_url->Some_0@ == "/torrents/"@ + dec_digits(
                            session_id as int,
                        ) + "/transcoded-audio/"@ + dec_digits(file_index as int)
                    } else {
                        m1.transcoded_audio_url == m0.transcoded_audio_url
                    })
                })
            })
        }),
{
    let ready = streamable && (stats.progress_bytes > READY_BUFFER_BYTES || stats.finished);
    let needs = match &metadata {
        Option::Some(m) => m.needs_audio_transcoding,
        Option::None => false,
    };
    let in_flight = match transcode {
        Option::Some(_) => true,
        Option::None => false,
    };
    let completed = match transcode {
        Option::Some(t) => t.completed,
        Option::None => false,
    };
    let transcode_progress = match transcode {
        Option::Some(t) => Option::Some(t.progress),
        Option::None => Option::None,
    };
    let status = if !ready {
        StreamPhase::Initializing
    } else if needs && !completed {
        StreamPhase::Transcoding
    } else {
        StreamPhase::Ready
    };
    let is_live = match &stats.live {
        Option::Some(_) => true,
        Option::None => false,
    };
    let state = if in_flight && !completed {
        StreamState::Transcoding
    } else if !is_live {
        StreamState::Checking
    } else {
        StreamState::Downloading
    };
    let peers = match &stats.live {
        Option::Some(l) => l.peers,
        Option::None => 0,
    };
    let download_speed = match &stats.live {
        Option::Some(l) => l.download_speed_mbps,
        Option::None => 0,
    };
    let stream_info = if ready {
        let url = stream_path(session_id, file_index);
        let meta_out = match metadata {
            Option::Some(m) => {
                if m.needs_audio_transcoding && completed {
                    Option::Some(
                        MkvMetadata {
                            audio_tracks: m.audio_tracks,
                            subtitle_tracks: m.subtitle_tracks,
                            chapters: m.chapters,
                            needs_audio_transcoding: m.needs_audio_transcoding,
                            transcoded_audio_url: Option::Some(
                                transcoded_audio_path(session_id, file_index),
                            ),
                        },
                    )
                } else {
                    Option::Some(m)
                }
            },
            Option::None => Option::None,
        };
        Option::Some(StreamInfo { url, file_name, file_size, metadata: meta_out })
    } else {
        Option::None
    };
    StreamStatus {
        status,
        progress_bytes: stats.progress_bytes,
        total_bytes: stats.total_bytes,
        peers,
        download_speed,
        stream_info,
        state,
        transcode_progress,
    }
}

} // verus!
