use magnolia::range::{plan_len, plan_range, read_range};

#[test]
fn no_header_serves_whole_file() {
    let p = plan_range(None, 100);
    assert_eq!((p.start, p.end, p.partial), (0, 99, false));
}

#[test]
fn explicit_range_is_partial() {
    let p = plan_range(Some("bytes=10-19"), 100);
    assert_eq!((p.start, p.end, p.partial), (10, 19, true));
    assert_eq!(plan_len(&p), 10);
}

#[test]
fn open_ended_range_runs_to_last_byte() {
    let p = plan_range(Some("bytes=50-"), 100);
    assert_eq!((p.start, p.end, p.partial), (50, 99, true));
}

#[test]
fn end_is_clamped_to_file_size() {
    let p = plan_range(Some("bytes=90-200"), 100);
    assert_eq!((p.start, p.end, p.partial), (90, 99, true));
}

#[test]
fn unparseable_start_defaults_to_zero() {
    let p = plan_range(Some("bytes=abc-19"), 100);
    assert_eq!((p.start, p.end, p.partial), (0, 19, true));
}

#[test]
fn missing_prefix_serves_whole_file() {
    let p = plan_range(Some("items=0-10"), 100);
    assert_eq!((p.start, p.end, p.partial), (0, 99, false));
}

#[test]
fn inverted_range_serves_whole_file() {
    let p = plan_range(Some("bytes=200-100"), 100);
    assert_eq!((p.start, p.end, p.partial), (0, 99, false));
}

#[test]
fn start_beyond_file_serves_whole_file() {
    let p = plan_range(Some("bytes=500-"), 100);
    assert_eq!((p.start, p.end, p.partial), (0, 99, false));
}

// Range correctness against a synthetic in-memory engine double: the bytes
// served for a valid window are exactly the file's slice, with exactly
// end-start+1 bytes.
#[test]
fn served_slice_matches_file_content() {
    let content: Vec<u8> = (0..=255u8).cycle().take(1000).collect();
    let p = plan_range(Some("bytes=100-355"), content.len() as u64);
    assert!(p.partial);
    let served = read_range(&content, p.start, p.end);
    assert_eq!(served.len() as u64, p.end - p.start + 1);
    assert_eq!(served.len(), 256);
    assert_eq!(&served[..], &content[100..356]);
}

#[test]
fn whole_file_window_serves_every_byte() {
    let content: Vec<u8> = vec![7, 11, 13, 17, 19];
    let p = plan_range(None, content.len() as u64);
    let served = read_range(&content, p.start, p.end);
    assert_eq!(served, content);
}
