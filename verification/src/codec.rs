//! Audio-codec compatibility classification.
//!
//! Playback environments decode only a handful of audio codecs natively.  A
//! track whose codec, long name or profile mentions one of the entries of the
//! deny table below, or whose codec name is not in the small allow list, must
//! be transcoded before it can be played.  Unrecognized codec names are
//! treated as needing transcoding (the safe default); the literal name
//! `unknown`, which the prober reports when it could not identify the codec
//! at all, is exempted.

use vstd::prelude::*;

use crate::text::{
    contains_seq, contains_vec, lower_chars_vec, str_chars, to_lower_chars,
};

verus! {

/// Codec keywords whose presence (in the codec name, its long name, or the
/// profile) marks a track as not natively decodable.
pub open spec fn deny_table() -> Seq<Seq<char>> {
    seq![
        "truehd"@, "mlp"@, "pcm"@, "dsd"@,
        "dts"@, "dca"@, "dts-hd"@, "dtshd"@, "dts_hd"@, "dtse"@,
        "ac3"@, "eac3"@, "ac-3"@, "e-ac-3"@, "dolby"@, "atmos"@,
        "cook"@, "ra"@, "sipr"@, "wma"@, "wmav1"@, "wmav2"@, "wmapro"@,
    ]
}

/// Codec names that are decodable natively (lower-case, exact match).
pub open spec fn allow_table() -> Seq<Seq<char>> {
    seq!["aac"@, "mp3"@, "opus"@, "vorbis"@, "mp2"@, "mp1"@, "flac"@]
}

/// One deny-table entry hits: it occurs in the codec name, the long name, or
/// the profile (all already lower-cased).
pub open spec fn denied_by_table(c: Seq<char>, l: Seq<char>, p: Seq<char>) -> bool {
    exists|k: int|
        0 <= k < deny_table().len() && (contains_seq(c, #[trigger] deny_table()[k])
            || contains_seq(l, deny_table()[k]) || contains_seq(p, deny_table()[k]))
}

/// The (lower-cased) codec name is in the allow list.
pub open spec fn allowed_codec(c: Seq<char>) -> bool {
    exists|k: int| 0 <= k < allow_table().len() && c == #[trigger] allow_table()[k]
}

/// Transcode verdict over the lower-cased codec name, long name and profile:
/// a deny-table hit forces transcoding, and so does a codec name that is
/// neither allowed nor the prober's literal `unknown` placeholder.
pub open spec fn spec_needs_transcoding(c: Seq<char>, l: Seq<char>, p: Seq<char>) -> bool {
    denied_by_table(c, l, p) || (!allowed_codec(c) && c != "unknown"@)
}

fn deny_entries() -> (r: Vec<Vec<char>>)
    ensures
        r@.len() == deny_table().len(),
        forall|k: int| 0 <= k < r@.len() ==> (#[trigger] r@[k])@ == deny_table()[k],
{
    let mut r: Vec<Vec<char>> = Vec::new();
    r.push(str_chars("truehd"));
    r.push(str_chars("mlp"));
    r.push(str_chars("pcm"));
    r.push(str_chars("dsd"));
    r.push(str_chars("dts"));
    r.push(str_chars("dca"));
    r.push(str_chars("dts-hd"));
    r.push(str_chars("dtshd"));
    r.push(str_chars("dts_hd"));
    r.push(str_chars("dtse"));
    r.push(str_chars("ac3"));
    r.push(str_chars("eac3"));
    r.push(str_chars("ac-3"));
    r.push(str_chars("e-ac-3"));
    r.push(str_chars("dolby"));
    r.push(str_chars("atmos"));
    r.push(str_chars("cook"));
    r.push(str_chars("ra"));
    r.push(str_chars("sipr"));
    r.push(str_chars("wma"));
    r.push(str_chars("wmav1"));
    r.push(str_chars("wmav2"));
    r.push(str_chars("wmapro"));
    r
}

fn allow_entries() -> (r: Vec<Vec<char>>)
    ensures
        r@.len() == allow_table().len(),
        forall|k: int| 0 <= k < r@.len() ==> (#[trigger] r@[k])@ == allow_table()[k],
{
    let mut r: Vec<Vec<char>> = Vec::new();
    r.push(str_chars("aac"));
    r.push(str_chars("mp3"));
    r.push(str_chars("opus"));
    r.push(str_chars("vorbis"));
    r.push(str_chars("mp2"));
    r.push(str_chars("mp1"));
    r.push(str_chars("flac"));
    r
}

/// Transcode verdict for one audio track, from the prober's free-text codec
/// name, long name and profile.  Matching is ASCII-case-insensitive.
pub fn needs_transcoding_for(codec: &str, long_name: &str, profile: &str) -> (r: bool)
    ensures
        r == spec_needs_transcoding(
            to_lower_chars(codec@),
            to_lower_chars(long_name@),
            to_lower_chars(profile@),
        ),
{
    let c = lower_chars_vec(&str_chars(codec));
    let l = lower_chars_vec(&str_chars(long_name));
    let p = lower_chars_vec(&str_chars(profile));

    let deny = deny_entries();
    let mut k: usize = 0;
    let mut hit: bool = false;
    while k < deny.len()
        invariant
            deny@.len() == deny_table().len(),
            forall|j: int| 0 <= j < deny@.len() ==> (#[trigger] deny@[j])@ == deny_table()[j],
            k <= deny@.len(),
            c@ == to_lower_chars(codec@),
            l@ == to_lower_chars(long_name@),
            p@ == to_lower_chars(profile@),
            hit == exists|j: int|
                0 <= j < k && (contains_seq(c@, #[trigger] deny_table()[j])
                    || contains_seq(l@, deny_table()[j]) || contains_seq(p@, deny_table()[j])),
        decreases deny@.len() - k,
    {
        let e = &deny[k];
        if contains_vec(&c, e) || contains_vec(&l, e) || contains_vec(&p, e) {
            hit = true;
        }
        k = k + 1;
    }
    assert(hit == denied_by_table(c@, l@, p@));

    let allow = allow_entries();
    let mut k2: usize = 0;
    let mut in_allow: bool = false;
    while k2 < allow.len()
        invariant
            allow@.len() == allow_table().len(),
            forall|j: int| 0 <= j < allow@.len() ==> (#[trigger] allow@[j])@ == allow_table()[j],
            k2 <= allow@.len(),
            c@ == to_lower_chars(codec@),
            in_allow == exists|j: int| 0 <= j < k2 && c@ == #[trigger] allow_table()[j],
        decreases allow@.len() - k2,
    {
        if crate::text::chars_eq(&c, &allow[k2]) {
            in_allow = true;
        }
        k2 = k2 + 1;
    }
    assert(in_allow == allowed_codec(c@));

    let unknown = str_chars("unknown");
    let is_unknown = crate::text::chars_eq(&c, &unknown);

    hit || (!in_allow && !is_unknown)
}

} // verus!
