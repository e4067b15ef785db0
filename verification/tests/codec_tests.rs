use magnolia::codec::needs_transcoding_for;
use magnolia::search::{is_web_compatible, parse_audio_codec};

#[test]
fn native_codecs_need_no_transcoding() {
    assert!(!needs_transcoding_for("aac", "", ""));
    assert!(!needs_transcoding_for("mp3", "", ""));
    assert!(!needs_transcoding_for("opus", "", ""));
    assert!(!needs_transcoding_for("vorbis", "", ""));
    assert!(!needs_transcoding_for("flac", "", ""));
    assert!(!needs_transcoding_for("mp2", "", ""));
    assert!(!needs_transcoding_for("mp1", "", ""));
}

#[test]
fn denied_codecs_need_transcoding() {
    assert!(needs_transcoding_for("ac3", "", ""));
    assert!(needs_transcoding_for("eac3", "", ""));
    assert!(needs_transcoding_for("dts", "", ""));
    assert!(needs_transcoding_for("truehd", "", ""));
    assert!(needs_transcoding_for("mlp", "", ""));
    assert!(needs_transcoding_for("wmapro", "", ""));
}

#[test]
fn unknown_vendor_codec_needs_transcoding() {
    assert!(needs_transcoding_for("xvendorsound", "", ""));
}

#[test]
fn literal_unknown_codec_is_exempt() {
    assert!(!needs_transcoding_for("unknown", "", ""));
}

#[test]
fn matching_is_case_insensitive() {
    assert!(needs_transcoding_for("AC3", "", ""));
    assert!(needs_transcoding_for("EAC3", "", ""));
    assert!(!needs_transcoding_for("AAC", "", ""));
}

#[test]
fn long_name_and_profile_are_checked() {
    assert!(needs_transcoding_for("aac", "Dolby Digital Plus passthrough", ""));
    assert!(needs_transcoding_for("aac", "", "DTS-HD MA"));
    assert!(needs_transcoding_for("pcm_s16le", "", ""));
}

#[test]
fn parse_audio_codec_priority() {
    assert_eq!(parse_audio_codec("Show S01 FLAC 1080p"), Some("FLAC".to_string()));
    assert_eq!(parse_audio_codec("Movie DTS-HD.MA.7.1"), Some("DTS-HD".to_string()));
    assert_eq!(parse_audio_codec("Movie dts 5.1"), Some("DTS".to_string()));
    assert_eq!(parse_audio_codec("Movie TrueHD Atmos"), Some("TrueHD".to_string()));
    assert_eq!(parse_audio_codec("Show DDP5.1 x264"), Some("E-AC3".to_string()));
    assert_eq!(parse_audio_codec("Show AC3 x264"), Some("AC3".to_string()));
    assert_eq!(parse_audio_codec("Show 720p AAC"), Some("AAC".to_string()));
    assert_eq!(parse_audio_codec("Show opus 128k"), Some("Opus".to_string()));
    assert_eq!(parse_audio_codec("Show Vorbis"), Some("Vorbis".to_string()));
    assert_eq!(parse_audio_codec("Show MP3 320"), Some("MP3".to_string()));
    assert_eq!(parse_audio_codec("Show x264 1080p"), None);
}

#[test]
fn web_compatibility_table() {
    assert!(is_web_compatible(Some("AAC")));
    assert!(is_web_compatible(Some("MP3")));
    assert!(is_web_compatible(Some("Opus")));
    assert!(is_web_compatible(Some("Vorbis")));
    assert!(is_web_compatible(Some("FLAC")));
    assert!(!is_web_compatible(Some("AC3")));
    assert!(!is_web_compatible(Some("E-AC3")));
    assert!(!is_web_compatible(Some("DTS")));
    assert!(!is_web_compatible(Some("DTS-HD")));
    assert!(!is_web_compatible(Some("TrueHD")));
    assert!(is_web_compatible(None));
    assert!(!is_web_compatible(Some("Mystery9")));
}
