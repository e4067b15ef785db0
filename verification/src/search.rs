//! Search-result handling: codec hints parsed from release titles, tracker
//! selection, deduplication by info hash, and relevance ranking.
//!
//! The per-tracker fetching and page scraping are network work and live
//! outside the library; everything that decides — which trackers to ask,
//! which duplicate results to drop, and in what order to present them — is
//! here, with exact contracts.

use vstd::prelude::*;

use crate::text::{
    chars_eq, chars_to_string, contains_seq, contains_vec, lower_chars_vec, spec_is_ws, starts_with_seq,
    starts_with_vec, str_chars, subrange_chars, to_lower_chars, to_upper_chars, upper_chars_vec,
};

verus! {

/// One search hit from a tracker.
pub struct SearchResult {
    pub title: String,
    pub size: String,
    pub seeds: u32,
    pub peers: u32,
    pub magnet_link: String,
    pub provider: String,
    pub season: Option<u32>,
    pub episode: Option<u32>,
    pub quality: Option<String>,
    pub encode: Option<String>,
    pub is_batch: bool,
    pub audio_codec: Option<String>,
}

/// The audio codec hinted at by a release title (upper-cased), first match
/// in priority order.
pub open spec fn spec_parse_audio_codec(u: Seq<char>) -> Option<Seq<char>> {
    if contains_seq(u, "FLAC"@) {
        Option::Some("FLAC"@)
    } else if contains_seq(u, "DTS-HD"@) || contains_seq(u, "DTS-MA"@) {
        Option::Some("DTS-HD"@)
    } else if contains_seq(u, "DTS"@) {
        Option::Some("DTS"@)
    } else if contains_seq(u, "TRUEHD"@) || contains_seq(u, "TRUE-HD"@) {
        Option::Some("TrueHD"@)
    } else if contains_seq(u, "DD+"@) || contains_seq(u, "DDP"@) || contains_seq(u, "E-AC-3"@)
        || contains_seq(u, "EAC3"@) {
        Option::Some("E-AC3"@)
    } else if contains_seq(u, "AC3"@) || contains_seq(u, "AC-3"@) || contains_seq(u, "DD5.1"@)
        || contains_seq(u, "DD 5.1"@) || contains_seq(u, "DOLBY DIGITAL"@) {
        Option::Some("AC3"@)
    } else if contains_seq(u, "AAC"@) {
        Option::Some("AAC"@)
    } else if contains_seq(u, "OPUS"@) {
        Option::Some("Opus"@)
    } else if contains_seq(u, "VORBIS"@) {
        Option::Some("Vorbis"@)
    } else if contains_seq(u, "MP3"@) {
        Option::Some("MP3"@)
    } else {
        Option::None
    }
}

/// Detect the audio codec named in a release title, ASCII-case-insensitively.
pub fn parse_audio_codec(title: &str) -> (r: Option<String>)
    ensures
        match r {
            Option::Some(s) => spec_parse_audio_codec(to_upper_chars(title@)) == Option::Some(s@),
            Option::None => spec_parse_audio_codec(to_upper_chars(title@)) is None,
        },
{
    let u = upper_chars_vec(&str_chars(title));
    if contains_vec(&u, &str_chars("FLAC")) {
        Option::Some(lit("FLAC"))
    } else if contains_vec(&u, &str_chars("DTS-HD")) || contains_vec(&u, &str_chars("DTS-MA")) {
        Option::Some(lit("DTS-HD"))
    } else if contains_vec(&u, &str_chars("DTS")) {
        Option::Some(lit("DTS"))
    } else if contains_vec(&u, &str_chars("TRUEHD")) || contains_vec(&u, &str_chars("TRUE-HD")) {
        Option::Some(lit("TrueHD"))
    } else if contains_vec(&u, &str_chars("DD+")) || contains_vec(&u, &str_chars("DDP"))
        || contains_vec(&u, &str_chars("E-AC-3")) || contains_vec(&u, &str_chars("EAC3")) {
        Option::Some(lit("E-AC3"))
    } else if contains_vec(&u, &str_chars("AC3")) || contains_vec(&u, &str_chars("AC-3"))
        || contains_vec(&u, &str_chars("DD5.1")) || contains_vec(&u, &str_chars("DD 5.1"))
        || contains_vec(&u, &str_chars("DOLBY DIGITAL")) {
        Option::Some(lit("AC3"))
    } else if contains_vec(&u, &str_chars("AAC")) {
        Option::Some(lit("AAC"))
    } else if contains_vec(&u, &str_chars("OPUS")) {
        Option::Some(lit("Opus"))
    } else if contains_vec(&u, &str_chars("VORBIS")) {
        Option::Some(lit("Vorbis"))
    } else if contains_vec(&u, &str_chars("MP3")) {
        Option::Some(lit("MP3"))
    } else {
        Option::None
    }
}

/// Whether a detected codec label is one the playback environment decodes
/// natively; a missing label is not held against the result.
pub open spec fn spec_is_web_compatible(c: Option<Seq<char>>) -> bool {
    match c {
        Option::None => true,
        Option::Some(v) => v == "AAC"@ || v == "MP3"@ || v == "Opus"@ || v == "Vorbis"@ || v
            == "FLAC"@,
    }
}

/// Whether the detected codec is natively decodable.
pub fn is_web_compatible(codec: Option<&str>) -> (r: bool)
    ensures
        r == spec_is_web_compatible(
            match codec {
                Option::Some(s) => Option::Some(s@),
                Option::None => Option::None,
            },
        ),
{
    match codec {
        Option::None => true,
        Option::Some(s) => {
            let v = str_chars(s);
            chars_eq(&v, &str_chars("AAC")) || chars_eq(&v, &str_chars("MP3")) || chars_eq(
                &v,
                &str_chars("Opus"),
            ) || chars_eq(&v, &str_chars("Vorbis")) || chars_eq(&v, &str_chars("FLAC"))
        },
    }
}

/// The segments of `s` between occurrences of `c`, scanning from position
/// `i` with `cur` the partial segment read so far.
pub open spec fn split_from(s: Seq<char>, c: char, i: int, cur: Seq<char>) -> Seq<Seq<char>>
    decreases s.len() - i,
{
    if i < 0 || i >= s.len() {
        seq![cur]
    } else if s[i] == c {
        seq![cur] + split_from(s, c, i + 1, Seq::empty())
    } else {
        split_from(s, c, i + 1, cur.push(s[i]))
    }
}

/// The segments of `s` between occurrences of `c` (empty segments kept).
pub open spec fn spec_split(s: Seq<char>, c: char) -> Seq<Seq<char>> {
    split_from(s, c, 0, Seq::empty())
}

/// Split `v` at every occurrence of `c`.
pub fn split_chars(v: &Vec<char>, c: char) -> (r: Vec<Vec<char>>)
    ensures
        r.deep_view() == spec_split(v@, c),
{
    let mut out: Vec<Vec<char>> = Vec::new();
    let mut cur: Vec<char> = Vec::new();
    let mut i: usize = 0;
    while i < v.len()
        invariant
            i <= v@.len(),
            spec_split(v@, c) == out.deep_view() + split_from(v@, c, i as int, cur@),
        decreases v@.len() - i,
    {
        let ghost dv0 = out.deep_view();
        let ghost cur0 = cur@;
        if v[i] == c {
            out.push(cur);
            cur = Vec::new();
            proof {
                assert(out.deep_view() =~~= dv0.push(cur0));
                assert(cur@ =~= Seq::<char>::empty());
                assert(dv0 + (seq![cur0] + split_from(v@, c, i + 1, Seq::empty())) =~~= dv0.push(
                    cur0,
                ) + split_from(v@, c, i + 1, Seq::empty()));
            }
        } else {
            cur.push(v[i]);
        }
        i = i + 1;
        assert(spec_split(v@, c) =~~= out.deep_view() + split_from(v@, c, i as int, cur@));
    }
    let ghost dvf = out.deep_view();
    let ghost curf = cur@;
    out.push(cur);
    proof {
        assert(out.deep_view() =~~= dvf.push(curf));
        assert(dvf + seq![curf] =~~= dvf.push(curf));
    }
    assert(spec_split(v@, c) =~~= out.deep_view());
    out
}

/// Index of the first segment with prefix `pre`, or `-1`.
pub open spec fn first_with_prefix(parts: Seq<Seq<char>>, pre: Seq<char>) -> int
    decreases parts.len(),
{
    if parts.len() == 0 {
        -1
    } else if starts_with_seq(parts[0], pre) {
        0
    } else {
        let r = first_with_prefix(parts.drop_first(), pre);
        if r < 0 {
            -1
        } else {
            r + 1
        }
    }
}

proof fn lemma_first_prefix_at(parts: Seq<Seq<char>>, pre: Seq<char>, i: int)
    requires
        0 <= i < parts.len(),
        starts_with_seq(parts[i], pre),
        forall|k: int| 0 <= k < i ==> !starts_with_seq(#[trigger] parts[k], pre),
    ensures
        first_with_prefix(parts, pre) == i,
    decreases i,
{
    if i > 0 {
        lemma_first_prefix_at(parts.drop_first(), pre, i - 1);
    }
}

proof fn lemma_first_prefix_absent(parts: Seq<Seq<char>>, pre: Seq<char>)
    requires
        forall|k: int| 0 <= k < parts.len() ==> !starts_with_seq(#[trigger] parts[k], pre),
    ensures
        first_with_prefix(parts, pre) == -1,
    decreases parts.len(),
{
    if parts.len() > 0 {
        lemma_first_prefix_absent(parts.drop_first(), pre);
    }
}

/// The info hash carried by a magnet link, for deduplication: the text after
/// `xt=urn:btih:` in the first `&`-separated part with that prefix,
/// lower-cased.
pub open spec fn spec_extract_info_hash(s: Seq<char>) -> Option<Seq<char>> {
    let parts = spec_split(s, '&');
    let i = first_with_prefix(parts, "xt=urn:btih:"@);
    if i < 0 {
        Option::None
    } else {
        Option::Some(to_lower_chars(parts[i].subrange(12, parts[i].len() as int)))
    }
}

/// Extract a magnet link's info hash for deduplication.
pub fn extract_info_hash(magnet: &str) -> (r: Option<String>)
    ensures
        match r {
            Option::Some(h) => spec_extract_info_hash(magnet@) == Option::Some(h@),
            Option::None => spec_extract_info_hash(magnet@) is None,
        },
{
    let chars = str_chars(magnet);
    let parts = split_chars(&chars, '&');
    let prefix = str_chars("xt=urn:btih:");
    proof {
        reveal_strlit("xt=urn:btih:");
    }
    let mut i: usize = 0;
    while i < parts.len()
        invariant
            parts.deep_view() == spec_split(magnet@, '&'),
            prefix@ == "xt=urn:btih:"@,
            i <= parts@.len(),
            forall|k: int|
                0 <= k < i ==> !starts_with_seq(#[trigger] parts.deep_view()[k], "xt=urn:btih:"@),
        decreases parts@.len() - i,
    {
        proof {
            reveal_strlit("xt=urn:btih:");
            assert(parts.deep_view()[i as int] =~= parts@[i as int]@);
        }
        if starts_with_vec(&parts[i], &prefix) {
            let p = &parts[i];
            proof {
                assert(prefix@.len() == 12);
                assert(p@.len() >= 12);
            }
            let rest = subrange_chars(p, 12, p.len());
            let lowered = lower_chars_vec(&rest);
            proof {
                lemma_first_prefix_at(parts.deep_view(), "xt=urn:btih:"@, i as int);
            }
            return Option::Some(chars_to_string(&lowered));
        }
        i = i + 1;
    }
    proof {
        lemma_first_prefix_absent(parts.deep_view(), "xt=urn:btih:"@);
    }
    Option::None
}

/// The words of `s` (maximal runs of non-whitespace), scanning from `i` with
/// `cur` the partial word read so far.
pub open spec fn words_from(s: Seq<char>, i: int, cur: Seq<char>) -> Seq<Seq<char>>
    decreases s.len() - i,
{
    if i < 0 || i >= s.len() {
        if cur.len() > 0 {
            seq![cur]
        } else {
            Seq::empty()
        }
    } else if spec_is_ws(s[i]) {
        if cur.len() > 0 {
            seq![cur] + words_from(s, i + 1, Seq::empty())
        } else {
            words_from(s, i + 1, Seq::empty())
        }
    } else {
        words_from(s, i + 1, cur.push(s[i]))
    }
}

/// The whitespace-separated words of `s`.
pub open spec fn spec_words(s: Seq<char>) -> Seq<Seq<char>> {
    words_from(s, 0, Seq::empty())
}

/// Split `v` into its whitespace-separated words.
pub fn split_words(v: &Vec<char>) -> (r: Vec<Vec<char>>)
    ensures
        r.deep_view() == spec_words(v@),
{
    let mut out: Vec<Vec<char>> = Vec::new();
    let mut cur: Vec<char> = Vec::new();
    let mut i: usize = 0;
    while i < v.len()
        invariant
            i <= v@.len(),
            spec_words(v@) == out.deep_view() + words_from(v@, i as int, cur@),
        decreases v@.len() - i,
    {
        let ghost dv0 = out.deep_view();
        let ghost cur0 = cur@;
        let c = v[i];
        if c == ' ' || c == '\n' || c == '\r' || c == '\t' {
            if cur.len() > 0 {
                out.push(cur);
                cur = Vec::new();
                proof {
                    assert(out.deep_view() =~~= dv0.push(cur0));
                    assert(dv0 + (seq![cur0] + words_from(v@, i + 1, Seq::empty())) =~~= dv0.push(
                        cur0,
                    ) + words_from(v@, i + 1, Seq::empty()));
                }
            }
            assert(cur@ =~= Seq::<char>::empty());
        } else {
            cur.push(c);
        }
        i = i + 1;
        assert(spec_words(v@) =~~= out.deep_view() + words_from(v@, i as int, cur@));
    }
    let ghost dvf = out.deep_view();
    let ghost curf = cur@;
    if cur.len() > 0 {
        out.push(cur);
        proof {
            assert(out.deep_view() =~~= dvf.push(curf));
            assert(dvf + seq![curf] =~~= dvf.push(curf));
        }
    }
    assert(spec_words(v@) =~~= out.deep_view());
    out
}

/// How many of the words occur in the title.
pub open spec fn count_matched(title: Seq<char>, ws: Seq<Seq<char>>) -> int
    decreases ws.len(),
{
    if ws.len() == 0 {
        0
    } else {
        count_matched(title, ws.drop_last()) + (if contains_seq(title, ws.last()) {
            1int
        } else {
            0int
        })
    }
}

proof fn lemma_count_matched_bounds(title: Seq<char>, ws: Seq<Seq<char>>)
    ensures
        0 <= count_matched(title, ws) <= ws.len(),
    decreases ws.len(),
{
    if ws.len() > 0 {
        lemma_count_matched_bounds(title, ws.drop_last());
    }
}

/// Clip a mathematical score into the `i32` range.
pub open spec fn clamp_i32(v: int) -> int {
    if v < i32::MIN {
        i32::MIN as int
    } else if v > i32::MAX {
        i32::MAX as int
    } else {
        v
    }
}

/// The relevance of one result against the requested season and episode and
/// the (lower-cased) query: an exact episode match in the right season is
/// worth the most, batches of the right season are a fallback, wrong seasons
/// and wrong episodes are penalized; known quality and modern encodes add a
/// little; every query word found in the title adds a little; seeds add at
/// most ten points; a bare batch is penalized when one episode was asked for.
pub open spec fn spec_relevance_score(
    r: SearchResult,
    season: Option<u32>,
    episode: Option<u32>,
    q: Seq<char>,
) -> int {
    let se_score: int = match (season, episode) {
        (Option::Some(rs), Option::Some(re)) => match r.season {
            Option::Some(s) => if s == rs {
                100int + (match r.episode {
                    Option::Some(e) => if e == re {
                        100int
                    } else {
                        -50int
                    },
                    Option::None => if r.is_batch {
                        50int
                    } else {
                        0int
                    },
                })
            } else {
                -100int
            },
            Option::None => 0,
        },
        _ => 0,
    };
    let q_score: int = match r.quality {
        Option::Some(qs) => 10int + (if contains_seq(qs@, "1080"@) {
            15int
        } else if contains_seq(qs@, "720"@) {
            10int
        } else if contains_seq(qs@, "2160"@) || contains_seq(qs@, "4K"@) {
            5int
        } else {
            0int
        }),
        Option::None => 0,
    };
    let e_score: int = match r.encode {
        Option::Some(es) => 5int + (if contains_seq(es@, "265"@) || contains_seq(es@, "HEVC"@) {
            10int
        } else if contains_seq(es@, "264"@) || contains_seq(es@, "AVC"@) {
            5int
        } else {
            0int
        }),
        Option::None => 0,
    };
    let w_score: int = 5 * count_matched(to_lower_chars(r.title@), spec_words(to_lower_chars(q)));
    let seed_score: int = (if r.seeds < 100 {
        r.seeds as int
    } else {
        100
    }) / 10;
    let batch_pen: int = if episode is Some && r.is_batch && r.episode is None {
        -30
    } else {
        0
    };
    se_score + q_score + e_score + w_score + seed_score + batch_pen
}

/// Relevance of one result, clipped into `i32`.
#[verifier::rlimit(80)]
pub fn calculate_relevance_score(
    result: &SearchResult,
    requested_season: Option<u32>,
    requested_episode: Option<u32>,
    query: &str,
) -> (r: i32)
    ensures
        r == clamp_i32(spec_relevance_score(*result, requested_season, requested_episode, query@)),
{
    let se_score: i32 = match (requested_season, requested_episode) {
        (Option::Some(rs), Option::Some(re)) => match result.season {
            Option::Some(s) => {
                if s == rs {
                    100 + (match result.episode {
                        Option::Some(e) => if e == re {
                            100
                        } else {
                            -50
                        },
                        Option::None => if result.is_batch {
                            50
                        } else {
                            0
                        },
                    })
                } else {
                    -100
                }
            },
            Option::None => 0,
        },
        _ => 0,
    };
    let q_score: i32 = match &result.quality {
        Option::Some(qs) => {
            let qv = str_chars(qs.as_str());
            10 + (if contains_vec(&qv, &str_chars("1080")) {
                15
            } else if contains_vec(&qv, &str_chars("720")) {
                10
            } else if contains_vec(&qv, &str_chars("2160")) || contains_vec(
                &qv,
                &str_chars("4K"),
            ) {
                5
            } else {
                0
            })
        },
        Option::None => 0,
    };
    let e_score: i32 = match &result.encode {
        Option::Some(es) => {
            let ev = str_chars(es.as_str());
            5 + (if contains_vec(&ev, &str_chars("265")) || contains_vec(
                &ev,
                &str_chars("HEVC"),
            ) {
                10
            } else if contains_vec(&ev, &str_chars("264")) || contains_vec(
                &ev,
                &str_chars("AVC"),
            ) {
                5
            } else {
                0
            })
        },
        Option::None => 0,
    };

    let title_lower = lower_chars_vec(&str_chars(result.title.as_str()));
    let query_lower = lower_chars_vec(&str_chars(query));
    let words = split_words(&query_lower);
    let mut matched: usize = 0;
    let mut wi: usize = 0;
    while wi < words.len()
        invariant
            wi <= words@.len(),
            title_lower@ == to_lower_chars(result.title@),
            words.deep_view() == spec_words(to_lower_chars(query@)),
            matched == count_matched(title_lower@, words.deep_view().subrange(0, wi as int)),
            matched <= wi,
        decreases words@.len() - wi,
    {
        assert(words.deep_view()[wi as int] =~= words@[wi as int]@);
        if contains_vec(&title_lower, &words[wi]) {
            matched = matched + 1;
        }
        wi = wi + 1;
        assert(words.deep_view().subrange(0, wi as int).drop_last() =~= words.deep_view().subrange(
            0,
            wi as int - 1,
        ));
    }
    assert(words.deep_view().subrange(0, words.deep_view().len() as int) =~= words.deep_view());

    let seed_score: i32 = (if result.seeds < 100 {
        result.seeds as i32
    } else {
        100
    }) / 10;
    let batch_pen: i32 = if requested_episode.is_some() && result.is_batch
        && result.episode.is_none() {
        -30
    } else {
        0
    };

    let total: i128 = (se_score as i128) + (q_score as i128) + (e_score as i128) + 5 * (
    matched as i128) + (seed_score as i128) + (batch_pen as i128);
    if total < i32::MIN as i128 {
        i32::MIN
    } else if total > i32::MAX as i128 {
        i32::MAX
    } else {
        total as i32
    }
}

/// The default trackers for non-anime content; one more is asked when an
/// IMDB id is available.
pub open spec fn spec_default_trackers(has_imdb: bool) -> Seq<Seq<char>> {
    seq!["limetorrents"@, "thepiratebay"@] + (if has_imdb {
        seq!["eztv"@]
    } else {
        Seq::empty()
    })
}

/// Which trackers to query: an explicit non-empty preference wins; otherwise
/// anime goes to its dedicated tracker and everything else to the defaults.
pub open spec fn spec_select_trackers(
    anime: bool,
    prefs: Option<Seq<Seq<char>>>,
    has_imdb: bool,
) -> Seq<Seq<char>> {
    match prefs {
        Option::Some(p) => if p.len() > 0 {
            p
        } else if anime {
            seq!["nyaa"@]
        } else {
            spec_default_trackers(has_imdb)
        },
        Option::None => if anime {
            seq!["nyaa"@]
        } else {
            spec_default_trackers(has_imdb)
        },
    }
}

/// Auto mode is in force when no tracker preference (or an empty one) was
/// given; only then does the anime fallback to the default trackers apply.
pub fn is_auto_mode(tracker_preference: &Option<Vec<String>>) -> (r: bool)
    ensures
        r == (match *tracker_preference {
            Option::Some(p) => p@.len() == 0,
            Option::None => true,
        }),
{
    match tracker_preference {
        Option::Some(p) => p.len() == 0,
        Option::None => true,
    }
}

/// Whether the requested media type is anime.
pub fn is_anime_type(media_type: &Option<String>) -> (r: bool)
    ensures
        r == (match *media_type {
            Option::Some(mt) => mt@ == "anime"@,
            Option::None => false,
        }),
{
    match media_type {
        Option::Some(mt) => {
            let v = str_chars(mt.as_str());
            chars_eq(&v, &str_chars("anime"))
        },
        Option::None => false,
    }
}

/// Pick the trackers to query for one search.
pub fn select_trackers(
    media_type: &Option<String>,
    tracker_preference: Option<Vec<String>>,
    has_imdb: bool,
) -> (r: Vec<String>)
    ensures
        r.deep_view() == spec_select_trackers(
            match *media_type {
                Option::Some(mt) => mt@ == "anime"@,
                Option::None => false,
            },
            match tracker_preference {
                Option::Some(p) => Option::Some(p.deep_view()),
                Option::None => Option::None,
            },
            has_imdb,
        ),
{
    let anime = is_anime_type(media_type);
    match tracker_preference {
        Option::Some(p) => {
            if p.len() > 0 {
                assert(p.deep_view().len() == p@.len());
                p
            } else {
                assert(p.deep_view().len() == p@.len());
                default_or_anime(anime, has_imdb)
            }
        },
        Option::None => default_or_anime(anime, has_imdb),
    }
}

/// The default trackers asked again when an anime search in auto mode came
/// back empty.
pub fn fallback_trackers(has_imdb: bool) -> (r: Vec<String>)
    ensures
        r.deep_view() == spec_default_trackers(has_imdb),
{
    let mut r: Vec<String> = Vec::new();
    r.push(lit("limetorrents"));
    r.push(lit("thepiratebay"));
    if has_imdb {
        r.push(lit("eztv"));
    }
    assert(r.deep_view() =~= spec_default_trackers(has_imdb));
    r
}

fn default_or_anime(anime: bool, has_imdb: bool) -> (r: Vec<String>)
    ensures
        r.deep_view() == (if anime {
            seq!["nyaa"@]
        } else {
            spec_default_trackers(has_imdb)
        }),
{
    if anime {
        let mut r: Vec<String> = Vec::new();
        r.push(lit("nyaa"));
        assert(r.deep_view() =~= seq!["nyaa"@]);
        r
    } else {
        fallback_trackers(has_imdb)
    }
}

/// Result `i` survives deduplication when it has no info hash or no earlier
/// result carries the same one.
pub open spec fn spec_keep_result(s: Seq<SearchResult>, i: int) -> bool {
    match spec_extract_info_hash(s[i].magnet_link@) {
        Option::None => true,
        Option::Some(h) => forall|j: int|
            0 <= j < i ==> spec_extract_info_hash((#[trigger] s[j]).magnet_link@)
                != Option::Some(h),
    }
}

/// Positions of the results that survive deduplication, ascending.
pub open spec fn dedup_indices(s: Seq<SearchResult>) -> Seq<int>
    decreases s.len(),
{
    if s.len() == 0 {
        Seq::empty()
    } else {
        dedup_indices(s.drop_last()) + (if spec_keep_result(s, s.len() - 1) {
            seq![s.len() - 1]
        } else {
            Seq::<int>::empty()
        })
    }
}

proof fn lemma_dedup_prefix(s: Seq<SearchResult>, i: int)
    requires
        0 <= i < s.len(),
    ensures
        spec_keep_result(s.subrange(0, i + 1), i) == spec_keep_result(s, i),
{
    let pre = s.subrange(0, i + 1);
    assert(pre[i] == s[i]);
    assert(forall|j: int| 0 <= j < i ==> pre[j] == s[j]);
}

/// Drop every result whose info hash was already seen on an earlier result;
/// results without an extractable hash are always kept.  Entry `j` of the
/// outcome is the survivor at position `dedup_indices(results)[j]`.
pub fn dedup_by_info_hash(results: Vec<SearchResult>) -> (r: Vec<SearchResult>)
    ensures
        r@.len() == dedup_indices(results@).len(),
        forall|j: int|
            0 <= j < r@.len() ==> {
                let i = dedup_indices(results@)[j];
                0 <= i < results@.len() && #[trigger] r@[j] == results@[i]
            },
{
    let mut out: Vec<SearchResult> = Vec::new();
    let n = results.len();
    let mut i: usize = 0;
    while i < n
        invariant
            i <= n,
            n == results@.len(),
            out@.len() == dedup_indices(results@.subrange(0, i as int)).len(),
            forall|j: int|
                0 <= j < out@.len() ==> 0 <= #[trigger] dedup_indices(
                    results@.subrange(0, i as int),
                )[j] < i,
            forall|j: int|
                0 <= j < out@.len() ==> #[trigger] out@[j] == results@[dedup_indices(
                    results@.subrange(0, i as int),
                )[j]],
        decreases n - i,
    {
        let ghost pre = results@.subrange(0, i as int);
        let hash = extract_info_hash(results[i].magnet_link.as_str());
        let keep: bool = match &hash {
            Option::None => true,
            Option::Some(h) => {
                let hv = str_chars(h.as_str());
                let mut dup = false;
                let mut j: usize = 0;
                while j < i
                    invariant
                        j <= i,
                        i < n,
                        n == results@.len(),
                        hv@ == h@,
                        spec_extract_info_hash(results@[i as int].magnet_link@) == Option::Some(
                            h@,
                        ),
                        dup == exists|k: int|
                            0 <= k < j && spec_extract_info_hash(
                                (#[trigger] results@[k]).magnet_link@,
                            ) == Option::Some(h@),
                    decreases i - j,
                {
                    let other = extract_info_hash(results[j].magnet_link.as_str());
                    match other {
                        Option::Some(oh) => {
                            let ov = str_chars(oh.as_str());
                            if chars_eq(&ov, &hv) {
                                dup = true;
                            }
                        },
                        Option::None => {},
                    }
                    j = j + 1;
                }
                !dup
            },
        };
        proof {
            lemma_kept_bounds(results@.subrange(0, i as int));
            assert(keep == spec_keep_result(results@, i as int));
        }
        if keep {
            out.push(results[i].clone_result());
        }
        i = i + 1;
        proof {
            let cur = results@.subrange(0, i as int);
            assert(cur.drop_last() =~= pre);
            assert(cur.last() == results@[i - 1]);
            lemma_dedup_prefix(results@, i as int - 1);
            lemma_kept_bounds(cur);
        }
    }
    proof {
        assert(results@.subrange(0, i as int) =~= results@);
        assert(dedup_indices(results@.subrange(0, i as int)) == dedup_indices(results@));
        assert forall|j: int| 0 <= j < out@.len() implies {
            let k = dedup_indices(results@)[j];
            0 <= k < results@.len() && #[trigger] out@[j] == results@[k]
        } by {
            let k0 = dedup_indices(results@.subrange(0, i as int))[j];
            assert(0 <= k0 < i);
            assert(out@[j] == results@[k0]);
            assert(dedup_indices(results@)[j] == k0);
        }
    }
    out
}

proof fn lemma_kept_bounds(s: Seq<SearchResult>)
    ensures
        forall|j: int|
            0 <= j < dedup_indices(s).len() ==> 0 <= #[trigger] dedup_indices(s)[j] < s.len(),
    decreases s.len(),
{
    if s.len() > 0 {
        lemma_kept_bounds(s.drop_last());
        let prev = dedup_indices(s.drop_last());
        assert forall|j: int|
            0 <= j < dedup_indices(s).len() implies 0 <= #[trigger] dedup_indices(s)[j]
            < s.len() by {
            if j < prev.len() {
                assert(dedup_indices(s)[j] == prev[j]);
                assert(0 <= prev[j] < s.drop_last().len());
            } else {
                assert(dedup_indices(s)[j] == s.len() - 1);
            }
        }
    }
}

impl SearchResult {
    /// Field-for-field copy.
    pub fn clone_result(&self) -> (r: SearchResult)
        ensures
            r == *self,
    {
        SearchResult {
            title: self.title.clone(),
            size: self.size.clone(),
            seeds: self.seeds,
            peers: self.peers,
            magnet_link: self.magnet_link.clone(),
            provider: self.provider.clone(),
            season: self.season,
            episode: self.episode,
            quality: clone_opt_string(&self.quality),
            encode: clone_opt_string(&self.encode),
            is_batch: self.is_batch,
            audio_codec: clone_opt_string(&self.audio_codec),
        }
    }
}

fn clone_opt_string(s: &Option<String>) -> (r: Option<String>)
    ensures
        r == *s,
{
    match s {
        Option::Some(v) => Option::Some(v.clone()),
        Option::None => Option::None,
    }
}

/// `a` ranks at least as high as `b`: a strictly higher relevance score, or
/// an equal score with at least as many seeds.
pub open spec fn spec_ranked_ge(
    a: SearchResult,
    b: SearchResult,
    season: Option<u32>,
    episode: Option<u32>,
    q: Seq<char>,
) -> bool {
    let sa = clamp_i32(spec_relevance_score(a, season, episode, q));
    let sb = clamp_i32(spec_relevance_score(b, season, episode, q));
    sa > sb || (sa == sb && a.seeds >= b.seeds)
}

/// Order results by relevance, best first; equal scores are broken by seed
/// count.  The outcome holds exactly the given results, reordered.
pub fn rank_results(
    results: Vec<SearchResult>,
    season: Option<u32>,
    episode: Option<u32>,
    query: &str,
) -> (r: Vec<SearchResult>)
    ensures
        r@.to_multiset() == results@.to_multiset(),
        r@.len() == results@.len(),
        forall|i: int, j: int|
            0 <= i < j < r@.len() ==> spec_ranked_ge(
                #[trigger] r@[i],
                #[trigger] r@[j],
                season,
                episode,
                query@,
            ),
{
    let mut v = results;
    let n = v.len();
    let mut i: usize = 0;
    while i < n
        invariant
            i <= n,
            n == v@.len(),
            v@.to_multiset() == results@.to_multiset(),
            // the prefix is sorted ...
            forall|a: int, b: int|
                0 <= a < b < i ==> spec_ranked_ge(
                    #[trigger] v@[a],
                    #[trigger] v@[b],
                    season,
                    episode,
                    query@,
                ),
            // ... and dominates the rest
            forall|a: int, b: int|
                0 <= a < i <= b < n ==> spec_ranked_ge(
                    #[trigger] v@[a],
                    #[trigger] v@[b],
                    season,
                    episode,
                    query@,
                ),
        decreases n - i,
    {
        // Select the best remaining element.
        let mut best: usize = i;
        let mut best_score = calculate_relevance_score(&v[i], season, episode, query);
        let mut j: usize = i + 1;
        while j < n
            invariant
                i <= best < j <= n,
                n == v@.len(),
                best_score == clamp_i32(spec_relevance_score(v@[best as int], season, episode, query@)),
                forall|k: int|
                    i <= k < j ==> spec_ranked_ge(
                        #[trigger] v@[best as int],
                        #[trigger] v@[k],
                        season,
                        episode,
                        query@,
                    ),
            decreases n - j,
        {
            let score_j = calculate_relevance_score(&v[j], season, episode, query);
            let better = score_j > best_score || (score_j == best_score && v[j].seeds
                > v[best].seeds);
            if better {
                best = j;
                best_score = score_j;
            }
            j = j + 1;
            proof {
                assert(spec_ranked_ge(v@[best as int], v@[j - 1], season, episode, query@));
                assert(spec_ranked_ge(v@[best as int], v@[best as int], season, episode, query@));
            }
        }
        let ghost v0 = v@;
        if best != i {
            swap_results(&mut v, i, best);
        }
        proof {
            lemma_swap_multiset(v0, v@, i as int, best as int);
        }
        i = i + 1;
    }
    v
}

fn swap_results(v: &mut Vec<SearchResult>, i: usize, j: usize)
    requires
        i < old(v)@.len(),
        j < old(v)@.len(),
    ensures
        final(v)@ == old(v)@.update(i as int, old(v)@[j as int]).update(
            j as int,
            old(v)@[i as int],
        ),
{
    let a = v[i].clone_result();
    let b = v[j].clone_result();
    v.set(i, b);
    v.set(j, a);
}

proof fn lemma_swap_multiset(s0: Seq<SearchResult>, s1: Seq<SearchResult>, i: int, j: int)
    requires
        0 <= i <= j < s0.len(),
        s1 == (if i == j {
            s0
        } else {
            s0.update(i, s0[j]).update(j, s0[i])
        }),
    ensures
        s1.to_multiset() == s0.to_multiset(),
{
    broadcast use vstd::multiset::group_multiset_axioms;
    broadcast use vstd::multiset::group_multiset_properties;
    broadcast use vstd::seq_lib::group_to_multiset_ensures;

    if i != j {
        let mid = s0.update(i, s0[j]);
        vstd::seq_lib::to_multiset_update(s0, i, s0[j]);
        vstd::seq_lib::to_multiset_update(mid, j, s0[i]);
        assert(mid[j] == s0[j]);
        assert(s0.contains(s0[i]));
        assert(s0.contains(s0[j]));
        assert(s0.to_multiset().count(s0[i]) > 0);
        assert(s0.to_multiset().count(s0[j]) > 0);
        assert(s1.to_multiset() =~= s0.to_multiset());
    }
}

fn lit(s: &str) -> (r: String)
    ensures
        r@ == s@,
{
    let mut r = String::new();
    r.append(s);
    r
}

} // verus!
