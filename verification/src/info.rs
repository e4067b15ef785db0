//! Per-handle listing information.
//!
//! The engine's raw file listing is reduced to the recognized media files
//! (by extension, case-insensitively), keeping each file's position in the
//! original listing — that position is what activation selects by.  The
//! listing is summarized together with the engine statistics into the
//! client-facing information record.

use vstd::prelude::*;

use crate::status::SessionStats;
use crate::text::{
    chars_to_string, ends_with_seq, ends_with_vec, lower_chars_vec, rfind_char, spec_rfind,
    str_chars, subrange_chars, to_lower_chars,
};

verus! {

/// One recognized media file of a source, at its position in the engine's
/// full file listing.
pub struct TorrentFile {
    pub index: usize,
    pub name: String,
    pub size: u64,
    pub path: String,
}

/// Raw file entry as the engine lists it.
pub struct RawFileEntry {
    pub path: String,
    pub size: u64,
}

/// Coarse per-handle state shown in listings.
#[derive(Clone, Copy, Debug, PartialEq, Eq, Structural)]
pub enum TorrentState {
    Paused,
    Checking,
    Live,
}

/// Client-facing information about one handle.  `progress_bp` is the
/// download progress in basis points (hundredths of a percent, 0 to 10000).
pub struct TorrentInfo {
    pub handle_id: usize,
    pub name: String,
    pub size: u64,
    pub files: Vec<TorrentFile>,
    pub progress_bp: u32,
    pub download_speed: u64,
    pub upload_speed: u64,
    pub peers: usize,
    pub is_paused: bool,
    pub state: TorrentState,
}

/// A file is recognized as media when its path, lower-cased, ends in `.mkv`.
pub open spec fn spec_is_media(f: RawFileEntry) -> bool {
    ends_with_seq(to_lower_chars(f.path@), ".mkv"@)
}

/// Positions of the recognized media files in the raw listing, ascending.
pub open spec fn kept_indices(s: Seq<RawFileEntry>) -> Seq<int>
    decreases s.len(),
{
    if s.len() == 0 {
        seq![]
    } else {
        kept_indices(s.drop_last()) + (if spec_is_media(s.last()) {
            seq![s.len() - 1]
        } else {
            Seq::<int>::empty()
        })
    }
}

proof fn lemma_kept_indices_bounds(s: Seq<RawFileEntry>)
    ensures
        forall|j: int|
            0 <= j < kept_indices(s).len() ==> 0 <= #[trigger] kept_indices(s)[j] < s.len(),
    decreases s.len(),
{
    if s.len() > 0 {
        lemma_kept_indices_bounds(s.drop_last());
        let prev = kept_indices(s.drop_last());
        assert forall|j: int|
            0 <= j < kept_indices(s).len() implies 0 <= #[trigger] kept_indices(s)[j]
            < s.len() by {
            if j < prev.len() {
                assert(kept_indices(s)[j] == prev[j]);
                assert(0 <= prev[j] < s.drop_last().len());
            } else {
                assert(kept_indices(s)[j] == s.len() - 1);
            }
        }
    }
}

/// The final path segment (after the last slash); the whole path when it has
/// no slash.
pub open spec fn spec_basename(p: Seq<char>) -> Seq<char> {
    p.subrange(spec_rfind(p, '/') + 1, p.len() as int)
}

/// Display name of a media file: the path's final segment, or `unknown` when
/// that segment is empty.
pub open spec fn spec_file_display_name(p: Seq<char>) -> Seq<char> {
    if spec_basename(p).len() == 0 {
        "unknown"@
    } else {
        spec_basename(p)
    }
}

fn file_display_name(path: &String) -> (r: String)
    ensures
        r@ == spec_file_display_name(path@),
{
    let chars = str_chars(path.as_str());
    let n = chars.len();
    let start = match rfind_char(&chars, '/') {
        Option::Some(i) => {
            assert(i < n);
            i + 1
        },
        Option::None => 0,
    };
    let base = subrange_chars(&chars, start, n);
    if base.len() == 0 {
        let u = str_chars("unknown");
        chars_to_string(&u)
    } else {
        chars_to_string(&base)
    }
}

/// Reduce the engine's raw listing to the recognized media files: entry `j`
/// of the result describes raw entry `kept_indices(raw)[j]`, carrying its
/// original position, its size, its path and its display name.
pub fn media_files(raw: &Vec<RawFileEntry>) -> (r: Vec<TorrentFile>)
    ensures
        r@.len() == kept_indices(raw@).len(),
        forall|j: int|
            0 <= j < r@.len() ==> {
                let i = kept_indices(raw@)[j];
                &&& (#[trigger] r@[j]).index == i
                &&& r@[j].size == raw@[i].size
                &&& r@[j].path@ == raw@[i].path@
                &&& r@[j].name@ == spec_file_display_name(raw@[i].path@)
            },
{
    let ext = str_chars(".mkv");
    proof {
        reveal_strlit(".mkv");
    }
    let mut r: Vec<TorrentFile> = Vec::new();
    let mut i: usize = 0;
    while i < raw.len()
        invariant
            i <= raw@.len(),
            ext@ == ".mkv"@,
            r@.len() == kept_indices(raw@.subrange(0, i as int)).len(),
            forall|j: int|
                0 <= j < r@.len() ==> {
                    let k = kept_indices(raw@.subrange(0, i as int))[j];
                    &&& 0 <= k < i
                    &&& (#[trigger] r@[j]).index == k
                    &&& r@[j].size == raw@[k].size
                    &&& r@[j].path@ == raw@[k].path@
                    &&& r@[j].name@ == spec_file_display_name(raw@[k].path@)
                },
        decreases raw@.len() - i,
    {
        let ghost pre = raw@.subrange(0, i as int);
        let entry = &raw[i];
        let lowered = lower_chars_vec(&str_chars(entry.path.as_str()));
        let keep = ends_with_vec(&lowered, &ext);
        if keep {
            let name = file_display_name(&entry.path);
            r.push(
                TorrentFile { index: i, name, size: entry.size, path: entry.path.clone() },
            );
        }
        i = i + 1;
        proof {
            let cur = raw@.subrange(0, i as int);
            assert(cur.drop_last() =~= pre);
            assert(cur.last() == raw@[i - 1]);
            assert(spec_is_media(raw@[i - 1]) == keep);
            lemma_kept_indices_bounds(cur);
        }
    }
    proof {
        assert(raw@.subrange(0, raw@.len() as int) =~= raw@);
    }
    r
}

/// Sum of the media files' sizes, in bytes.
pub open spec fn sum_sizes(s: Seq<TorrentFile>) -> int
    decreases s.len(),
{
    if s.len() == 0 {
        0
    } else {
        sum_sizes(s.drop_last()) + s.last().size
    }
}

proof fn lemma_sum_sizes_nonneg(s: Seq<TorrentFile>)
    ensures
        sum_sizes(s) >= 0,
    decreases s.len(),
{
    if s.len() > 0 {
        lemma_sum_sizes_nonneg(s.drop_last());
    }
}

/// Total size of the listed files, saturating at `u64::MAX`.
pub fn total_size(files: &Vec<TorrentFile>) -> (r: u64)
    ensures
        r == (if sum_sizes(files@) <= u64::MAX {
            sum_sizes(files@)
        } else {
            u64::MAX as int
        }),
{
    let mut acc: u64 = 0;
    let mut i: usize = 0;
    while i < files.len()
        invariant
            i <= files@.len(),
            acc == (if sum_sizes(files@.subrange(0, i as int)) <= u64::MAX {
                sum_sizes(files@.subrange(0, i as int))
            } else {
                u64::MAX as int
            }),
        decreases files@.len() - i,
    {
        let ghost pre = files@.subrange(0, i as int);
        let sz = files[i].size;
        if acc > u64::MAX - sz {
            acc = u64::MAX;
        } else {
            acc = acc + sz;
        }
        i = i + 1;
        proof {
            let cur = files@.subrange(0, i as int);
            assert(cur.drop_last() =~= pre);
            assert(cur.last() == files@[i - 1]);
            lemma_sum_sizes_nonneg(pre);
        }
    }
    proof {
        assert(files@.subrange(0, files@.len() as int) =~= files@);
    }
    acc
}

/// Download progress in basis points: `bytes * 10000 / total`, capped at
/// 10000; zero while the total is unknown.
pub open spec fn spec_progress_bp(progress_bytes: u64, total_bytes: u64) -> int {
    if total_bytes == 0 {
        0
    } else if progress_bytes * 10000 / (total_bytes as int) < 10000 {
        progress_bytes * 10000 / (total_bytes as int)
    } else {
        10000
    }
}

/// Download progress in basis points.
pub fn progress_bp(progress_bytes: u64, total_bytes: u64) -> (r: u32)
    ensures
        r == spec_progress_bp(progress_bytes, total_bytes),
        r <= 10000,
{
    if total_bytes == 0 {
        return 0;
    }
    let wide: u128 = (progress_bytes as u128) * 10000 / (total_bytes as u128);
    if wide < 10000 {
        wide as u32
    } else {
        10000
    }
}

/// Coarse state of a session: paused dominates; without live statistics the
/// engine is still checking; otherwise it is live.
pub open spec fn spec_torrent_state(is_paused: bool, live: bool) -> TorrentState {
    if is_paused {
        TorrentState::Paused
    } else if !live {
        TorrentState::Checking
    } else {
        TorrentState::Live
    }
}

/// Assemble the client-facing information record for one handle from its
/// media file listing and the engine statistics.
pub fn build_torrent_info(
    handle_id: usize,
    name: String,
    files: Vec<TorrentFile>,
    stats: &SessionStats,
    is_paused: bool,
) -> (r: TorrentInfo)
    ensures
        r.handle_id == handle_id,
        r.name == name,
        r.files == files,
        r.size == (if sum_sizes(files@) <= u64::MAX {
            sum_sizes(files@)
        } else {
            u64::MAX as int
        }),
        r.progress_bp == spec_progress_bp(stats.progress_bytes, stats.total_bytes),
        r.download_speed == (match stats.live {
            Option::Some(l) => l.download_speed_mbps,
            Option::None => 0,
        }),
        r.upload_speed == (match stats.live {
            Option::Some(l) => l.upload_speed_mbps,
            Option::None => 0,
        }),
        r.peers == (match stats.live {
            Option::Some(l) => l.peers,
            Option::None => 0,
        }),
        r.is_paused == is_paused,
        r.state == spec_torrent_state(is_paused, stats.live is Some),
    {
    let size = total_size(&files);
    let bp = progress_bp(stats.progress_bytes, stats.total_bytes);
    let (download_speed, upload_speed, peers) = match &stats.live {
        Option::Some(l) => (l.download_speed_mbps, l.upload_speed_mbps, l.peers),
        Option::None => (0, 0, 0),
    };
    let is_live = match &stats.live {
        Option::Some(_) => true,
        Option::None => false,
    };
    let state = if is_paused {
        TorrentState::Paused
    } else if !is_live {
        TorrentState::Checking
    } else {
        TorrentState::Live
    };
    TorrentInfo {
        handle_id,
        name,
        size,
        files,
        progress_bp: bp,
        download_speed,
        upload_speed,
        peers,
        is_paused,
        state,
    }
}

} // verus!
