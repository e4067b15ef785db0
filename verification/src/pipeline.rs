//! Sampling policy and external-process command lines.
//!
//! Probing needs a bounded sample of the peer-fetched stream written to a
//! scratch file; the policy below decides, read by read, whether to keep
//! going, wait for slow peers, give up, or stop because the target is
//! reached.  The argument lists handed to the external prober and transcoder
//! are built here so that the track selectors and formats are pinned down.

use vstd::prelude::*;

use crate::errors::StreamError;
use crate::text::{chars_eq, dec_digits, lower_chars_vec, str_chars, to_lower_chars,
    u64_to_string};

verus! {

/// Sample at most this many bytes for metadata probing.
pub const SAMPLE_CAP_BYTES: u64 = 104857600;

/// Probing fails with `InsufficientBufferedData` below this many bytes.
pub const SAMPLE_MIN_BYTES: u64 = 10485760;

/// Give up after this many consecutive empty reads (the caller sleeps between
/// them, so this bounds the idle window, not wall-clock time).
pub const MAX_EMPTY_READS: u32 = 150;

/// Sample at most this many bytes for the immediate (synchronous) subtitle
/// extraction; a complete re-extraction follows in the background once the
/// whole file is on disk.
pub const SUBTITLE_SAMPLE_CAP_BYTES: u64 = 157286400;

/// What to do after one read from the peer-backed stream.
#[derive(Clone, Copy, Debug, PartialEq, Eq, Structural)]
pub enum SampleStep {
    /// Bytes arrived: write them and keep reading.
    Progressed,
    /// Nothing yet: sleep briefly and retry.
    Retry,
    /// Too many consecutive empty reads: stop with what was sampled.
    GiveUp,
    /// The sampling target is reached: stop.
    Complete,
}

/// Progress of one bounded sampling run.
pub struct SampleProgress {
    pub target: u64,
    pub total_read: u64,
    pub consecutive_empty: u32,
}

impl SampleProgress {
    pub open spec fn wf(self) -> bool {
        self.total_read <= self.target && self.consecutive_empty <= MAX_EMPTY_READS
    }

    /// Begin sampling a file of `file_size` bytes against `cap`: the target
    /// is the whole file or the cap, whichever is smaller.
    pub fn begin(file_size: u64, cap: u64) -> (r: Self)
        ensures
            r.wf(),
            r.target == (if file_size < cap {
                file_size as int
            } else {
                cap as int
            }),
            r.total_read == 0,
            r.consecutive_empty == 0,
    {
        let target = if file_size < cap {
            file_size
        } else {
            cap
        };
        SampleProgress { target, total_read: 0, consecutive_empty: 0 }
    }

    /// Account one read of `n` bytes.  An empty read bumps the idle counter
    /// and asks for a retry until [`MAX_EMPTY_READS`] is reached; data resets
    /// the counter and advances the byte count, clipped to the target, which
    /// completes the run when reached.
    pub fn record_read(&mut self, n: u64) -> (r: SampleStep)
        requires
            old(self).wf(),
            old(self).total_read < old(self).target,
        ensures
            final(self).wf(),
            final(self).target == old(self).target,
            n == 0 ==> final(self).total_read == old(self).total_read && (if old(
                self,
            ).consecutive_empty + 1 >= MAX_EMPTY_READS {
                r == SampleStep::GiveUp && final(self).consecutive_empty == MAX_EMPTY_READS
            } else {
                r == SampleStep::Retry && final(self).consecutive_empty == old(
                    self,
                ).consecutive_empty + 1
            }),
            n > 0 ==> final(self).consecutive_empty == 0 && final(self).total_read == (if old(
                self,
            ).total_read + n >= old(self).target {
                old(self).target as int
            } else {
                old(self).total_read + n
            }) && (if old(self).total_read + n >= old(self).target {
                r == SampleStep::Complete
            } else {
                r == SampleStep::Progressed
            }),
    {
        if n == 0 {
            if self.consecutive_empty + 1 >= MAX_EMPTY_READS {
                self.consecutive_empty = MAX_EMPTY_READS;
                SampleStep::GiveUp
            } else {
                self.consecutive_empty = self.consecutive_empty + 1;
                SampleStep::Retry
            }
        } else {
            self.consecutive_empty = 0;
            if n >= self.target - self.total_read {
                self.total_read = self.target;
                SampleStep::Complete
            } else {
                self.total_read = self.total_read + n;
                SampleStep::Progressed
            }
        }
    }

    /// Whether enough was sampled for the prober to stand a chance.
    pub fn sufficient(&self) -> (r: bool)
        ensures
            r == (self.total_read >= SAMPLE_MIN_BYTES),
    {
        self.total_read >= SAMPLE_MIN_BYTES
    }
}

/// Arguments for the external prober: structured output with streams, format
/// and chapters for the sampled file.
pub fn probe_args(path: String) -> (r: Vec<String>)
    ensures
        r@.len() == 8,
        r@[0]@ == "-v"@,
        r@[1]@ == "error"@,
        r@[2]@ == "-print_format"@,
        r@[3]@ == "json"@,
        r@[4]@ == "-show_format"@,
        r@[5]@ == "-show_streams"@,
        r@[6]@ == "-show_chapters"@,
        r@[7] == path,
{
    let mut r: Vec<String> = Vec::new();
    r.push(lit("-v"));
    r.push(lit("error"));
    r.push(lit("-print_format"));
    r.push(lit("json"));
    r.push(lit("-show_format"));
    r.push(lit("-show_streams"));
    r.push(lit("-show_chapters"));
    r.push(path);
    r
}

/// Arguments for the external prober's duration query: the bare duration of
/// the container, one value per line.
pub fn duration_args(path: String) -> (r: Vec<String>)
    ensures
        r@.len() == 7,
        r@[0]@ == "-v"@,
        r@[1]@ == "error"@,
        r@[2]@ == "-show_entries"@,
        r@[3]@ == "format=duration"@,
        r@[4]@ == "-of"@,
        r@[5]@ == "default=noprint_wrappers=1:nokey=1"@,
        r@[6] == path,
{
    let mut r: Vec<String> = Vec::new();
    r.push(lit("-v"));
    r.push(lit("error"));
    r.push(lit("-show_entries"));
    r.push(lit("format=duration"));
    r.push(lit("-of"));
    r.push(lit("default=noprint_wrappers=1:nokey=1"));
    r.push(path);
    r
}

/// Arguments for extracting one subtitle track as an ASS document on the
/// transcoder's standard output.
pub fn subtitle_extract_args(path: String, track_index: usize) -> (r: Vec<String>)
    ensures
        r@.len() == 7,
        r@[0]@ == "-i"@,
        r@[1] == path,
        r@[2]@ == "-map"@,
        r@[3]@ == "0:s:"@ + dec_digits(track_index as int),
        r@[4]@ == "-f"@,
        r@[5]@ == "ass"@,
        r@[6]@ == "-"@,
{
    let mut r: Vec<String> = Vec::new();
    r.push(lit("-i"));
    r.push(path);
    r.push(lit("-map"));
    let mut sel = String::new();
    sel.append("0:s:");
    let t = u64_to_string(track_index as u64);
    sel.append(t.as_str());
    r.push(sel);
    r.push(lit("-f"));
    r.push(lit("ass"));
    r.push(lit("-"));
    r
}

/// Arguments for transcoding one audio track to AAC at 192 kbit/s, with
/// machine-readable progress on standard output.
pub fn transcode_args(input_path: String, output_path: String, audio_track_index: usize) -> (r:
    Vec<String>)
    ensures
        r@.len() == 12,
        r@[0]@ == "-y"@,
        r@[1]@ == "-i"@,
        r@[2] == input_path,
        r@[3]@ == "-map"@,
        r@[4]@ == "0:a:"@ + dec_digits(audio_track_index as int),
        r@[5]@ == "-c:a"@,
        r@[6]@ == "aac"@,
        r@[7]@ == "-b:a"@,
        r@[8]@ == "192k"@,
        r@[9]@ == "-progress"@,
        r@[10]@ == "pipe:1"@,
        r@[11] == output_path,
{
    let mut r: Vec<String> = Vec::new();
    r.push(lit("-y"));
    r.push(lit("-i"));
    r.push(input_path);
    r.push(lit("-map"));
    let mut sel = String::new();
    sel.append("0:a:");
    let t = u64_to_string(audio_track_index as u64);
    sel.append(t.as_str());
    r.push(sel);
    r.push(lit("-c:a"));
    r.push(lit("aac"));
    r.push(lit("-b:a"));
    r.push(lit("192k"));
    r.push(lit("-progress"));
    r.push(lit("pipe:1"));
    r.push(output_path);
    r
}

/// Content type of the live transcoded audio response.
pub fn audio_stream_content_type() -> (r: String)
    ensures
        r@ == "audio/aac"@,
{
    lit("audio/aac")
}

/// Cache-control of the live transcoded audio response: a live pipe must not
/// be cached.
pub fn audio_stream_cache_control() -> (r: String)
    ensures
        r@ == "no-cache"@,
{
    lit("no-cache")
}

/// Arguments for handing a stream to an external player: the stream URL and
/// the player's own title flag.  Only `mpv` and `vlc` are supported.
pub fn player_args(player: &str, stream_url: String, title: String) -> (r: Result<
    Vec<String>,
    StreamError,
>)
    ensures
        match r {
            Result::Ok(args) => (to_lower_chars(player@) == "mpv"@ && args@.len() == 3
                && args@[0] == stream_url && args@[1]@ == "--title="@ + title@ && args@[2]@
                == "--force-window=immediate"@) || (to_lower_chars(player@) == "vlc"@
                && args@.len() == 2 && args@[0] == stream_url && args@[1]@ == "--meta-title="@
                + title@),
            Result::Err(e) => e == StreamError::SubprocessSpawnFailed && to_lower_chars(player@)
                != "mpv"@ && to_lower_chars(player@) != "vlc"@,
        },
{
    let lowered = lower_chars_vec(&str_chars(player));
    if chars_eq(&lowered, &str_chars("mpv")) {
        let mut args: Vec<String> = Vec::new();
        args.push(stream_url);
        let mut t = lit("--title=");
        t.append(title.as_str());
        args.push(t);
        args.push(lit("--force-window=immediate"));
        Result::Ok(args)
    } else if chars_eq(&lowered, &str_chars("vlc")) {
        let mut args: Vec<String> = Vec::new();
        args.push(stream_url);
        let mut t = lit("--meta-title=");
        t.append(title.as_str());
        args.push(t);
        Result::Ok(args)
    } else {
        Result::Err(StreamError::SubprocessSpawnFailed)
    }
}

fn lit(s: &str) -> (r: String)
    ensures
        r@ == s@,
{
    let mut r = String::new();
    r.append(s);
    r
}

} // verus!
