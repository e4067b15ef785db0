//! On-disk track-cache naming and accounting.
//!
//! Extracted subtitle and audio tracks are cached in per-kind folders under
//! names derived from the cache id, the file and track indices, and a short
//! digest.  The naming scheme and the parsing of such names back into their
//! cache id are pinned down here; the directory walking itself is plain I/O
//! and lives outside the library.

use vstd::prelude::*;

use sha2::Digest;

use crate::search::{spec_split, split_chars};
use crate::text::{bytes_to_hex, chars_to_string, dec_digits, hex_of_bytes, starts_with_seq,
    starts_with_vec, str_chars, subrange_chars, u64_to_string};

verus! {

/// The kinds of cached media artifacts, each in its own folder.
#[derive(Clone, Copy, Debug, PartialEq, Eq, Structural)]
pub enum TrackType {
    Subtitle,
    Audio,
    Torrent,
}

impl TrackType {
    /// The folder a kind of artifact is cached under.
    pub fn folder_name(&self) -> (r: &'static str)
        ensures
            match self {
                TrackType::Subtitle => r@ == "subtitles"@,
                TrackType::Audio => r@ == "audio"@,
                TrackType::Torrent => r@ == "torrents"@,
            },
    {
        match self {
            TrackType::Subtitle => "subtitles",
            TrackType::Audio => "audio",
            TrackType::Torrent => "torrents",
        }
    }
}

/// Cache usage of one media id, by artifact kind.
pub struct CacheGroup {
    pub id: String,
    pub total_size: u64,
    pub audio_size: u64,
    pub subtitle_size: u64,
    pub torrent_size: u64,
    pub audio_files: usize,
    pub subtitle_files: usize,
    pub torrent_files: usize,
}

/// The SHA-256 digest of the given bytes.
pub uninterp spec fn sha256_of(data: Seq<u8>) -> Seq<u8>;

/// Relies on `sha2::Sha256` (new, update, finalize): the 32-byte digest
/// depends on the input bytes alone.
#[verifier::external_body]
fn sha256_digest(data: &[u8]) -> (r: Vec<u8>)
    ensures
        r@ == sha256_of(data@),
        r@.len() == 32,
{
    let mut hasher = sha2::Sha256::new();
    hasher.update(data);
    hasher.finalize().to_vec()
}

/// The key text hashed for a cache entry: `{id}-{file}-{track}`.
pub open spec fn spec_hash_key_text(cache_id: Seq<char>, file_index: usize, track_index: usize)
    -> Seq<char> {
    cache_id + "-"@ + dec_digits(file_index as int) + "-"@ + dec_digits(track_index as int)
}

/// Short content digest of a cache entry's key: the first eight hex digits
/// of the SHA-256 of the key text's UTF-8 bytes.
pub fn hash_key(cache_id: &str, file_index: usize, track_index: usize) -> (r: String)
    ensures
        r@ == hex_of_bytes(
            sha256_of(
                vstd::utf8::encode_utf8(spec_hash_key_text(cache_id@, file_index, track_index)),
            ),
        ).subrange(0, 8),
        r@.len() == 8,
{
    let mut key = String::new();
    key.append(cache_id);
    key.append("-");
    let f = u64_to_string(file_index as u64);
    key.append(f.as_str());
    key.append("-");
    let t = u64_to_string(track_index as u64);
    key.append(t.as_str());
    let digest = sha256_digest(key.as_str().as_bytes());
    let chars = bytes_to_hex(&digest);
    proof {
        lemma_hex_len(digest@);
    }
    let prefix = subrange_chars(&chars, 0, 8);
    chars_to_string(&prefix)
}

/// File name of one cached track:
/// `{cache_id}_{file_index}_{track_index}_{digest8}.cache`.
pub fn cache_file_name(cache_id: &str, file_index: usize, track_index: usize) -> (r: String)
    ensures
        ({
            let h = r@;
            &&& starts_with_seq(
                h,
                cache_id@ + "_"@ + dec_digits(file_index as int) + "_"@ + dec_digits(
                    track_index as int,
                ) + "_"@,
            )
            &&& h.len() == cache_id@.len() + dec_digits(file_index as int).len() + dec_digits(
                track_index as int,
            ).len() + 3 + 8 + ".cache"@.len()
        }),
{
    let mut name = String::new();
    name.append(cache_id);
    name.append("_");
    let f = u64_to_string(file_index as u64);
    name.append(f.as_str());
    name.append("_");
    let t = u64_to_string(track_index as u64);
    name.append(t.as_str());
    name.append("_");
    let ghost head = name@;
    let h = hash_key(cache_id, file_index, track_index);
    name.append(h.as_str());
    name.append(".cache");
    proof {
        reveal_strlit("_");
        assert(head.subrange(0, head.len() as int) =~= head);
        assert(name@.subrange(0, head.len() as int) =~= head);
    }
    name
}

/// The cache id encoded in a cached track's file name (the text before the
/// first underscore), provided the name has the expected four
/// underscore-separated parts.
pub fn cache_id_of_filename(filename: &str) -> (r: Option<String>)
    ensures
        match r {
            Option::Some(id) => spec_split(filename@, '_').len() >= 4 && id@ == spec_split(
                filename@,
                '_',
            )[0],
            Option::None => spec_split(filename@, '_').len() < 4,
        },
{
    let chars = str_chars(filename);
    let parts = split_chars(&chars, '_');
    if parts.len() >= 4 {
        proof {
            assert(parts.deep_view()[0] =~= parts@[0]@);
        }
        Option::Some(chars_to_string(&parts[0]))
    } else {
        Option::None
    }
}

/// Whether a cache-group id denotes a torrent folder (prefixed `torrent_`),
/// and in that case the folder name it refers to.
pub fn torrent_group_folder(target_id: &str) -> (r: Option<String>)
    ensures
        match r {
            Option::Some(name) => starts_with_seq(target_id@, "torrent_"@) && name@
                == target_id@.subrange(8, target_id@.len() as int),
            Option::None => !starts_with_seq(target_id@, "torrent_"@),
        },
{
    let chars = str_chars(target_id);
    let prefix = str_chars("torrent_");
    proof {
        reveal_strlit("torrent_");
    }
    if starts_with_vec(&chars, &prefix) {
        let rest = subrange_chars(&chars, 8, chars.len());
        Option::Some(chars_to_string(&rest))
    } else {
        Option::None
    }
}

/// A hex rendering has two digits per byte.
proof fn lemma_hex_len(s: Seq<u8>)
    ensures
        hex_of_bytes(s).len() == 2 * s.len(),
    decreases s.len(),
{
    if s.len() > 0 {
        lemma_hex_len(s.drop_last());
    }
}

} // verus!
