use magnolia::search::{
    calculate_relevance_score, dedup_by_info_hash, extract_info_hash, fallback_trackers,
    is_auto_mode, rank_results, select_trackers, SearchResult,
};

fn result(title: &str, magnet: &str, seeds: u32) -> SearchResult {
    SearchResult {
        title: title.to_string(),
        size: "1.4 GB".to_string(),
        seeds,
        peers: 3,
        magnet_link: magnet.to_string(),
        provider: "test".to_string(),
        season: None,
        episode: None,
        quality: None,
        encode: None,
        is_batch: false,
        audio_codec: None,
    }
}

#[test]
fn info_hash_extraction() {
    assert_eq!(
        extract_info_hash("magnet:?dn=x&xt=urn:btih:ABCDEF0123&tr=udp"),
        Some("abcdef0123".to_string())
    );
    assert_eq!(extract_info_hash("magnet:?dn=x&tr=udp"), None);
    // The hash part must follow an ampersand for the prefix to match.
    assert_eq!(extract_info_hash("xt=urn:btih:FFEE"), Some("ffee".to_string()));
}

#[test]
fn relevance_score_exact_value() {
    let mut r = result("Alpha Beta", "magnet:?xt=urn:btih:aa", 50);
    r.season = Some(1);
    r.episode = Some(2);
    r.quality = Some("1080p".to_string());
    r.encode = Some("x265".to_string());
    // season+episode exact: 200; quality: 10+15; encode: 5+10; one of two
    // query words in the title: 5; seeds 50/10: 5; total 250.
    assert_eq!(calculate_relevance_score(&r, Some(1), Some(2), "alpha gamma"), 250);
}

#[test]
fn relevance_score_penalties() {
    let mut r = result("Show Batch", "magnet:?xt=urn:btih:bb", 500);
    r.season = Some(3);
    r.episode = None;
    r.is_batch = true;
    // wrong season: -100; seeds capped at 100 -> 10; batch without episode
    // when one was requested: -30; query words: "show" and "batch" both in
    // title: 10.
    assert_eq!(calculate_relevance_score(&r, Some(1), Some(2), "show batch"), -110);
}

#[test]
fn dedup_keeps_first_of_each_hash() {
    let a = result("A", "magnet:?x=1&xt=urn:btih:AAA", 5);
    let b = result("B", "magnet:?x=2&xt=urn:btih:aaa", 9);
    let c = result("C", "magnet:?x=3&xt=urn:btih:bbb", 1);
    let d = result("D", "no-hash-here", 2);
    let out = dedup_by_info_hash(vec![a, b, c, d]);
    let titles: Vec<&str> = out.iter().map(|r| r.title.as_str()).collect();
    assert_eq!(titles, vec!["A", "C", "D"]);
}

#[test]
fn ranking_orders_by_score_then_seeds() {
    let mut strong = result("Alpha Exact", "magnet:?xt=urn:btih:1", 10);
    strong.season = Some(1);
    strong.episode = Some(2);
    let mut weak = result("Alpha Wrong", "magnet:?xt=urn:btih:2", 10);
    weak.season = Some(2);
    let tie_low = result("Plain", "magnet:?xt=urn:btih:3", 4);
    let tie_high = result("Plain", "magnet:?xt=urn:btih:4", 90);

    let ranked = rank_results(
        vec![weak, tie_low, strong, tie_high],
        Some(1),
        Some(2),
        "alpha",
    );
    let order: Vec<(String, u32)> =
        ranked.iter().map(|r| (r.title.clone(), r.seeds)).collect();
    assert_eq!(order[0].0, "Alpha Exact");
    // The two equal-score plain results are ordered by seeds.
    assert_eq!(order[1], ("Plain".to_string(), 90));
    assert_eq!(order[2], ("Plain".to_string(), 4));
    assert_eq!(order[3].0, "Alpha Wrong");
    assert_eq!(ranked.len(), 4);
}

#[test]
fn tracker_selection() {
    // Anime in auto mode goes to its dedicated tracker.
    assert_eq!(
        select_trackers(&Some("anime".to_string()), None, false),
        vec!["nyaa"]
    );
    // Everything else gets the default set, one more with an IMDB id.
    assert_eq!(
        select_trackers(&Some("tv".to_string()), None, false),
        vec!["limetorrents", "thepiratebay"]
    );
    assert_eq!(
        select_trackers(&None, Some(Vec::new()), true),
        vec!["limetorrents", "thepiratebay", "eztv"]
    );
    // An explicit non-empty preference wins.
    assert_eq!(
        select_trackers(&Some("anime".to_string()), Some(vec!["eztv".to_string()]), false),
        vec!["eztv"]
    );
    assert!(is_auto_mode(&None));
    assert!(is_auto_mode(&Some(Vec::new())));
    assert!(!is_auto_mode(&Some(vec!["nyaa".to_string()])));
    assert_eq!(fallback_trackers(true), vec!["limetorrents", "thepiratebay", "eztv"]);
}
