//! Prober output handling.
//!
//! The external prober emits a JSON document describing the container's
//! streams and chapters.  The document is decoded with `serde_json`; the
//! walk over the decoded value and the classification of every audio track
//! against the codec compatibility table are verified.  Times are carried as
//! integer microseconds.

use vstd::prelude::*;

use crate::codec::needs_transcoding_for;
use crate::errors::StreamError;
use crate::text::{
    all_digits, chars_eq, chars_to_string, digits_value, find_char, is_ws_exec, parse_u64_chars,
    spec_find, spec_is_ws, str_chars, subrange_chars,
};

verus! {

/// One audio track of a probed container.
pub struct AudioTrack {
    pub index: usize,
    pub language: Option<String>,
    pub codec: Option<String>,
    pub name: Option<String>,
    pub needs_transcoding: bool,
}

/// One subtitle track of a probed container.
pub struct SubtitleTrack {
    pub index: usize,
    pub language: Option<String>,
    pub codec: Option<String>,
    pub name: Option<String>,
}

/// One chapter mark, with start and end in microseconds.
pub struct Chapter {
    pub index: usize,
    pub title: Option<String>,
    pub start_time_us: u64,
    pub end_time_us: u64,
}

/// Track and chapter listing of a probed container, with the per-container
/// transcode verdict.
pub struct MkvMetadata {
    pub audio_tracks: Vec<AudioTrack>,
    pub subtitle_tracks: Vec<SubtitleTrack>,
    pub chapters: Vec<Chapter>,
    pub needs_audio_transcoding: bool,
    pub transcoded_audio_url: Option<String>,
}

impl MkvMetadata {
    /// Tracks and chapters are indexed consecutively from zero, and the
    /// container-level verdict is the disjunction of the per-track ones.
    pub open spec fn wf(self) -> bool {
        &&& (forall|i: int|
            0 <= i < self.audio_tracks@.len() ==> (#[trigger] self.audio_tracks@[i]).index == i)
        &&& (forall|i: int|
            0 <= i < self.subtitle_tracks@.len() ==> (#[trigger] self.subtitle_tracks@[i]).index
                == i)
        &&& (forall|i: int|
            0 <= i < self.chapters@.len() ==> (#[trigger] self.chapters@[i]).index == i)
        &&& self.needs_audio_transcoding == (exists|i: int|
            0 <= i < self.audio_tracks@.len() && (#[trigger] self.audio_tracks@[i]).needs_transcoding)
    }
}

#[verifier::external_type_specification]
#[verifier::external_body]
pub struct ExJsonValue(serde_json::Value);

#[verifier::external_type_specification]
#[verifier::external_body]
pub struct ExJsonError(serde_json::Error);

/// Relies on `serde_json::from_slice::<Value>`: decodes one JSON document.
#[verifier::external_body]
fn json_parse(bytes: &[u8]) -> Result<serde_json::Value, serde_json::Error> {
    serde_json::from_slice(bytes)
}

/// Relies on `serde_json::Value::get` with a string key: member lookup on a
/// JSON object, `None` for absent members and non-objects.
#[verifier::external_body]
fn json_get<'a>(v: &'a serde_json::Value, key: &str) -> Option<&'a serde_json::Value> {
    v.get(key)
}

/// Relies on `serde_json::Value::as_str`: the text of a JSON string value.
#[verifier::external_body]
fn json_as_string(v: &serde_json::Value) -> Option<String> {
    match v.as_str() {
        Option::Some(s) => Option::Some(s.to_string()),
        Option::None => Option::None,
    }
}

/// Relies on `serde_json::Value::as_array`: the elements of a JSON array.
#[verifier::external_body]
fn json_as_array<'a>(v: &'a serde_json::Value) -> Option<&'a Vec<serde_json::Value>> {
    v.as_array()
}

fn get_string_field(v: &serde_json::Value, key: &str) -> Option<String> {
    match json_get(v, key) {
        Option::Some(f) => json_as_string(f),
        Option::None => Option::None,
    }
}

fn get_tag(v: &serde_json::Value, key: &str) -> Option<String> {
    match json_get(v, "tags") {
        Option::Some(tags) => get_string_field(tags, key),
        Option::None => Option::None,
    }
}

/// Decode the prober's JSON document into the track and chapter listing.
/// The shape of the listing is pinned down here; what each track's transcode
/// verdict means is the contract of [`needs_transcoding_for`].  A document
/// that is not JSON is reported as a prober failure.
pub fn parse_probe_output(bytes: &[u8]) -> (r: Result<MkvMetadata, StreamError>)
    ensures
        match r {
            Result::Ok(m) => m.wf() && m.transcoded_audio_url is None,
            Result::Err(e) => e == StreamError::SubprocessFailed,
        },
{
    let doc = match json_parse(bytes) {
        Result::Ok(v) => v,
        Result::Err(_) => {
            return Result::Err(StreamError::SubprocessFailed);
        },
    };

    let mut audio_tracks: Vec<AudioTrack> = Vec::new();
    let mut subtitle_tracks: Vec<SubtitleTrack> = Vec::new();
    let mut chapters: Vec<Chapter> = Vec::new();
    let mut needs_audio_transcoding = false;

    let audio_kind = str_chars("audio");
    let subtitle_kind = str_chars("subtitle");

    match json_get(&doc, "streams") {
        Option::Some(streams_val) => match json_as_array(streams_val) {
            Option::Some(streams) => {
                let mut si: usize = 0;
                while si < streams.len()
                    invariant
                        forall|i: int|
                            0 <= i < audio_tracks@.len() ==> (#[trigger] audio_tracks@[i]).index
                                == i,
                        forall|i: int|
                            0 <= i < subtitle_tracks@.len() ==> (
                            #[trigger] subtitle_tracks@[i]).index == i,
                        needs_audio_transcoding == (exists|i: int|
                            0 <= i < audio_tracks@.len() && (
                            #[trigger] audio_tracks@[i]).needs_transcoding),
                        audio_tracks@.len() <= si,
                        subtitle_tracks@.len() <= si,
                    decreases streams@.len() - si,
                {
                    let stream = &streams[si];
                    let codec_type = get_string_field(stream, "codec_type");
                    let is_audio = match &codec_type {
                        Option::Some(t) => chars_eq(&str_chars(t.as_str()), &audio_kind),
                        Option::None => false,
                    };
                    let is_subtitle = match &codec_type {
                        Option::Some(t) => chars_eq(&str_chars(t.as_str()), &subtitle_kind),
                        Option::None => false,
                    };
                    if is_audio {
                        let codec_name = match get_string_field(stream, "codec_name") {
                            Option::Some(c) => c,
                            Option::None => {
                                let v = str_chars("unknown");
                                chars_to_string(&v)
                            },
                        };
                        let long_name = match get_string_field(stream, "codec_long_name") {
                            Option::Some(c) => c,
                            Option::None => String::new(),
                        };
                        let profile = match get_string_field(stream, "profile") {
                            Option::Some(c) => c,
                            Option::None => String::new(),
                        };
                        let language = match get_tag(stream, "language") {
                            Option::Some(l) => l,
                            Option::None => {
                                let v = str_chars("und");
                                chars_to_string(&v)
                            },
                        };
                        let title = get_tag(stream, "title");
                        let needs = needs_transcoding_for(
                            codec_name.as_str(),
                            long_name.as_str(),
                            profile.as_str(),
                        );
                        if audio_tracks.len() < usize::MAX {
                            let idx = audio_tracks.len();
                            let ghost at0 = audio_tracks@;
                            let ghost flag0 = needs_audio_transcoding;
                            audio_tracks.push(
                                AudioTrack {
                                    index: idx,
                                    language: Option::Some(language),
                                    codec: Option::Some(codec_name),
                                    name: title,
                                    needs_transcoding: needs,
                                },
                            );
                            if needs {
                                needs_audio_transcoding = true;
                            }
                            proof {
                                let n = at0.len() as int;
                                assert(audio_tracks@[n].needs_transcoding == needs);
                                if needs_audio_transcoding {
                                    if flag0 {
                                        let w = choose|i: int|
                                            0 <= i < at0.len() && (
                                            #[trigger] at0[i]).needs_transcoding;
                                        assert(audio_tracks@[w].needs_transcoding);
                                    } else {
                                        assert(audio_tracks@[n].needs_transcoding);
                                    }
                                } else {
                                    assert forall|i: int|
                                        0 <= i < audio_tracks@.len() implies !(
                                    #[trigger] audio_tracks@[i]).needs_transcoding by {
                                        if i < n {
                                            assert(audio_tracks@[i] == at0[i]);
                                        }
                                    }
                                }
                            }
                        }
                    } else if is_subtitle {
                        let codec_name = match get_string_field(stream, "codec_name") {
                            Option::Some(c) => c,
                            Option::None => {
                                let v = str_chars("unknown");
                                chars_to_string(&v)
                            },
                        };
                        let language = match get_tag(stream, "language") {
                            Option::Some(l) => l,
                            Option::None => {
                                let v = str_chars("und");
                                chars_to_string(&v)
                            },
                        };
                        let title = get_tag(stream, "title");
                        if subtitle_tracks.len() < usize::MAX {
                            let idx = subtitle_tracks.len();
                            subtitle_tracks.push(
                                SubtitleTrack {
                                    index: idx,
                                    language: Option::Some(language),
                                    codec: Option::Some(codec_name),
                                    name: title,
                                },
                            );
                        }
                    }
                    si = si + 1;
                }
            },
            Option::None => {},
        },
        Option::None => {},
    }

    match json_get(&doc, "chapters") {
        Option::Some(chapters_val) => match json_as_array(chapters_val) {
            Option::Some(chaps) => {
                let mut ci: usize = 0;
                while ci < chaps.len()
                    invariant
                        forall|i: int|
                            0 <= i < chapters@.len() ==> (#[trigger] chapters@[i]).index == i,
                        chapters@.len() <= ci,
                    decreases chaps@.len() - ci,
                {
                    let chapter = &chaps[ci];
                    let start_str = get_string_field(chapter, "start_time");
                    let end_str = get_string_field(chapter, "end_time");
                    let title = get_tag(chapter, "title");
                    match (start_str, end_str) {
                        (Option::Some(ss), Option::Some(es)) => {
                            let st = parse_duration_micros(ss.as_str());
                            let et = parse_duration_micros(es.as_str());
                            match (st, et) {
                                (Option::Some(s_us), Option::Some(e_us)) => {
                                    if chapters.len() < usize::MAX {
                                        let idx = chapters.len();
                                        chapters.push(
                                            Chapter {
                                                index: idx,
                                                title,
                                                start_time_us: s_us,
                                                end_time_us: e_us,
                                            },
                                        );
                                    }
                                },
                                _ => {},
                            }
                        },
                        _ => {},
                    }
                    ci = ci + 1;
                }
            },
            Option::None => {},
        },
        Option::None => {},
    }

    Result::Ok(
        MkvMetadata {
            audio_tracks,
            subtitle_tracks,
            chapters,
            needs_audio_transcoding,
            transcoded_audio_url: Option::None,
        },
    )
}

/// `s` with its leading whitespace removed.
pub open spec fn trim_front(s: Seq<char>) -> Seq<char>
    decreases s.len(),
{
    if s.len() > 0 && spec_is_ws(s[0]) {
        trim_front(s.drop_first())
    } else {
        s
    }
}

/// `s` with its trailing whitespace removed.
pub open spec fn trim_back(s: Seq<char>) -> Seq<char>
    decreases s.len(),
{
    if s.len() > 0 && spec_is_ws(s.last()) {
        trim_back(s.drop_last())
    } else {
        s
    }
}

pub open spec fn spec_trim(s: Seq<char>) -> Seq<char> {
    trim_back(trim_front(s))
}

proof fn lemma_trim_front_at(s: Seq<char>, a: int)
    requires
        0 <= a <= s.len(),
        forall|k: int| 0 <= k < a ==> spec_is_ws(#[trigger] s[k]),
        a < s.len() ==> !spec_is_ws(s[a]),
    ensures
        trim_front(s) == s.subrange(a, s.len() as int),
    decreases a,
{
    if a == 0 {
        assert(s.subrange(0, s.len() as int) =~= s);
    } else {
        assert(spec_is_ws(s[0]));
        lemma_trim_front_at(s.drop_first(), a - 1);
        assert(s.drop_first().subrange(a - 1, s.drop_first().len() as int) =~= s.subrange(
            a,
            s.len() as int,
        ));
    }
}

proof fn lemma_trim_back_at(s: Seq<char>, b: int)
    requires
        0 <= b <= s.len(),
        forall|k: int| b <= k < s.len() ==> spec_is_ws(#[trigger] s[k]),
        b > 0 ==> !spec_is_ws(s[b - 1]),
    ensures
        trim_back(s) == s.subrange(0, b),
    decreases s.len() - b,
{
    if b == s.len() {
        assert(s.subrange(0, b) =~= s);
    } else {
        assert(spec_is_ws(s.last()));
        lemma_trim_back_at(s.drop_last(), b);
        assert(s.drop_last().subrange(0, b) =~= s.subrange(0, b));
    }
}

/// Strip leading and trailing whitespace.
fn trim_chars(v: &Vec<char>) -> (r: Vec<char>)
    ensures
        r@ == spec_trim(v@),
{
    let n = v.len();
    let mut a: usize = 0;
    while a < n && is_ws_exec(v[a])
        invariant
            a <= n,
            n == v@.len(),
            forall|k: int| 0 <= k < a ==> spec_is_ws(#[trigger] v@[k]),
        decreases n - a,
    {
        a = a + 1;
    }
    proof {
        lemma_trim_front_at(v@, a as int);
    }
    let mut b: usize = n;
    while b > a && is_ws_exec(v[b - 1])
        invariant
            a <= b <= n,
            n == v@.len(),
            forall|k: int| 0 <= k < a ==> spec_is_ws(#[trigger] v@[k]),
            forall|k: int| b <= k < n ==> spec_is_ws(#[trigger] v@[k]),
        decreases b,
    {
        b = b - 1;
    }
    let r = subrange_chars(v, a, b);
    proof {
        let tf = trim_front(v@);
        assert(tf == v@.subrange(a as int, n as int));
        assert forall|k: int| b - a <= k < tf.len() implies spec_is_ws(#[trigger] tf[k]) by {
            assert(tf[k] == v@[a + k]);
        }
        if b > a {
            assert(tf[b - a - 1] == v@[b as int - 1]);
        }
        lemma_trim_back_at(tf, b - a as int);
        assert(tf.subrange(0, b - a as int) =~= v@.subrange(a as int, b as int));
    }
    r
}

pub open spec fn pow10(k: int) -> int
    decreases k,
{
    if k <= 0 {
        1
    } else {
        10 * pow10(k - 1)
    }
}

/// The duration, in whole microseconds, denoted by the trimmed decimal text
/// `t` (seconds, with an optional fractional part truncated to six digits):
/// nothing when the text is not a decimal number or overflows `u64`.
pub open spec fn spec_duration_micros(t: Seq<char>) -> Option<int> {
    let dot = spec_find(t, '.');
    let whole = if dot < 0 {
        t
    } else {
        t.subrange(0, dot)
    };
    let frac = if dot < 0 {
        Seq::<char>::empty()
    } else {
        t.subrange(dot + 1, t.len() as int)
    };
    let frac6 = if frac.len() <= 6 {
        frac
    } else {
        frac.subrange(0, 6)
    };
    if whole.len() == 0 || !all_digits(whole) || !all_digits(frac6) {
        Option::None
    } else {
        let v = digits_value(whole) * 1000000 + digits_value(frac6) * pow10(6 - frac6.len());
        if v > u64::MAX {
            Option::None
        } else {
            Option::Some(v)
        }
    }
}

/// Parse the prober's duration report (decimal seconds, surrounding
/// whitespace tolerated) into whole microseconds.
pub fn parse_duration_micros(s: &str) -> (r: Option<u64>)
    ensures
        match r {
            Option::Some(v) => spec_duration_micros(spec_trim(s@)) == Option::Some(v as int),
            Option::None => spec_duration_micros(spec_trim(s@)) is None,
        },
{
    let chars = str_chars(s);
    let t = trim_chars(&chars);
    let (whole, frac) = match find_char(&t, '.') {
        Option::None => {
            let empty: Vec<char> = Vec::new();
            assert(empty@ =~= Seq::<char>::empty());
            (t, empty)
        },
        Option::Some(d) => {
            let w = subrange_chars(&t, 0, d);
            let f = subrange_chars(&t, d + 1, t.len());
            assert(f@ =~= t@.subrange(d + 1, t@.len() as int));
            (w, f)
        },
    };
    let frac6 = if frac.len() <= 6 {
        frac
    } else {
        subrange_chars(&frac, 0, 6)
    };
    let w_val = match parse_u64_chars(&whole) {
        Option::Some(v) => v,
        Option::None => {
            proof {
                if all_digits(frac6@) {
                    lemma_scaled_frac_bound(
                        frac6@,
                        digits_value(frac6@),
                        pow10(6 - frac6@.len() as int),
                    );
                }
                if whole@.len() > 0 && all_digits(whole@) {
                    assert(digits_value(whole@) > u64::MAX);
                    assert(digits_value(whole@) * 1000000 > u64::MAX) by (nonlinear_arith)
                        requires
                            digits_value(whole@) > u64::MAX,
                    ;
                }
            }
            return Option::None;
        },
    };
    let f_val: u64 = if frac6.len() == 0 {
        proof {
            assert(all_digits(frac6@));
        }
        0
    } else {
        match parse_u64_chars(&frac6) {
            Option::Some(v) => v,
            Option::None => {
                proof {
                    assert(frac6@.len() <= 6);
                    if all_digits(frac6@) {
                        lemma_digits_small(frac6@);
                    }
                }
                return Option::None;
            },
        }
    };
    let scale = pow10_exec(6 - frac6.len());
    proof {
        lemma_scaled_frac_bound(frac6@, f_val as int, scale as int);
    }
    let scaled_frac = f_val * scale;
    assert(scaled_frac < 1000000);
    if w_val > (u64::MAX - scaled_frac) / 1000000 {
        proof {
            assert(w_val * 1000000 + scaled_frac > u64::MAX);
        }
        return Option::None;
    }
    Option::Some(w_val * 1000000 + scaled_frac)
}

/// An all-digits string of at most 6 digits denotes a value below one
/// million — in particular it fits in `u64`.
proof fn lemma_digits_small(s: Seq<char>)
    requires
        all_digits(s),
        s.len() <= 6,
    ensures
        0 <= digits_value(s) < pow10(s.len() as int),
        digits_value(s) < 1000000,
    decreases s.len(),
{
    if s.len() == 0 {
    } else {
        assert(all_digits(s.drop_last()));
        lemma_digits_small(s.drop_last());
        assert(crate::text::is_digit_char(s.last()));
        assert(pow10(s.len() as int) == 10 * pow10(s.len() - 1));
        assert(pow10(6) == 1000000) by {
            reveal_with_fuel(pow10, 8);
        }
        lemma_pow10_mono(s.len() as int, 6);
    }
}

proof fn lemma_pow10_mono(a: int, b: int)
    requires
        0 <= a <= b,
    ensures
        pow10(a) <= pow10(b),
    decreases b - a,
{
    if a < b {
        lemma_pow10_mono(a, b - 1);
        lemma_pow10_bounds(b - 1);
    }
}

proof fn lemma_pow10_bounds(k: int)
    ensures
        pow10(k) >= 1,
    decreases k,
{
    if k > 0 {
        lemma_pow10_bounds(k - 1);
    }
}

proof fn lemma_scaled_frac_bound(frac6: Seq<char>, f_val: int, scale: int)
    requires
        all_digits(frac6),
        frac6.len() <= 6,
        f_val == digits_value(frac6),
        scale == pow10(6 - frac6.len()),
    ensures
        0 <= f_val * scale < 1000000,
        f_val * scale == digits_value(frac6) * pow10(6 - frac6.len()),
{
    lemma_digits_small(frac6);
    lemma_pow10_bounds(6 - frac6.len() as int);
    assert(pow10(6) == 1000000) by {
        reveal_with_fuel(pow10, 8);
    }
    assert(pow10(frac6.len() as int) * pow10(6 - frac6.len()) == pow10(6)) by {
        lemma_pow10_add(frac6.len() as int, 6 - frac6.len() as int);
    }
    assert(f_val * scale < pow10(frac6.len() as int) * scale) by (nonlinear_arith)
        requires
            f_val < pow10(frac6.len() as int),
            scale >= 1,
    ;
    assert(f_val * scale >= 0) by (nonlinear_arith)
        requires
            f_val >= 0,
            scale >= 1,
    ;
}

proof fn lemma_pow10_add(a: int, b: int)
    requires
        a >= 0,
        b >= 0,
    ensures
        pow10(a) * pow10(b) == pow10(a + b),
    decreases a,
{
    if a == 0 {
    } else {
        lemma_pow10_add(a - 1, b);
        assert(pow10(a) == 10 * pow10(a - 1));
        assert(pow10(a) * pow10(b) == 10 * (pow10(a - 1) * pow10(b))) by (nonlinear_arith)
            requires
                pow10(a) == 10 * pow10(a - 1),
        ;
    }
}

fn pow10_exec(k: usize) -> (r: u64)
    requires
        k <= 6,
    ensures
        r == pow10(k as int),
{
    proof {
        assert(pow10(0) == 1 && pow10(1) == 10 && pow10(2) == 100 && pow10(3) == 1000 && pow10(4)
            == 10000 && pow10(5) == 100000 && pow10(6) == 1000000) by {
            reveal_with_fuel(pow10, 8);
        }
    }
    if k == 0 {
        1
    } else if k == 1 {
        10
    } else if k == 2 {
        100
    } else if k == 3 {
        1000
    } else if k == 4 {
        10000
    } else if k == 5 {
        100000
    } else {
        1000000
    }
}

} // verus!
