//! Naming, text utilities and settings behavior.

use discrec::encoder::AudioFormat;
use discrec::listing::{is_recording_extension, path_is_within};
use discrec::naming::{
    decimal_string, join_path, local_timestamp_label, recording_filename, speaker_filename,
    speaker_label,
};
use discrec::settings::{
    choose_recordings_dir, default_record_shortcut, default_stop_shortcut, AppSettings,
};
use discrec::text::{contains_bytes, parse_u32, trim_bytes};

#[test]
fn decimal_rendering_matches() {
    assert_eq!(decimal_string(0), "0");
    assert_eq!(decimal_string(7), "7");
    assert_eq!(decimal_string(48000), "48000");
    assert_eq!(decimal_string(u64::MAX), "18446744073709551615");
}

#[test]
fn speaker_labels_follow_the_naming_rule() {
    assert_eq!(speaker_label(12345, None), "ssrc-12345");
    assert_eq!(speaker_label(12345, Some(67890)), "user-67890");
}

#[test]
fn filenames_carry_stamp_label_and_extension() {
    assert_eq!(recording_filename("2024-05-01_120000", AudioFormat::Wav), "discord-2024-05-01_120000.wav");
    assert_eq!(recording_filename("2024-05-01_120000", AudioFormat::Mp3), "discord-2024-05-01_120000.mp3");
    assert_eq!(
        speaker_filename("2024-05-01_120000", "user-42", AudioFormat::Flac),
        "discord-2024-05-01_120000-user-42.flac"
    );
    assert_eq!(join_path("/tmp/rec", "a.wav"), "/tmp/rec/a.wav");
}

#[test]
fn timestamp_label_is_produced() {
    // The clock's value cannot be pinned down; the shape of the label can.
    let stamp = local_timestamp_label();
    assert_eq!(stamp.len(), 17);
    assert_eq!(stamp.as_bytes()[4], b'-');
    assert_eq!(stamp.as_bytes()[10], b'_');
}

#[test]
fn parse_u32_accepts_exactly_fitting_digit_strings() {
    assert_eq!(parse_u32(b"0"), Some(0));
    assert_eq!(parse_u32(b"4294967295"), Some(u32::MAX));
    assert_eq!(parse_u32(b"4294967296"), None);
    assert_eq!(parse_u32(b""), None);
    assert_eq!(parse_u32(b"12a"), None);
    assert_eq!(parse_u32(b" 12"), None);
}

#[test]
fn trimming_removes_only_edge_whitespace() {
    assert_eq!(trim_bytes(b"  a b \t\r\n"), b"a b");
    assert_eq!(trim_bytes(b"\n\t "), b"");
    assert_eq!(trim_bytes(b"xy"), b"xy");
}

#[test]
fn substring_search_finds_and_misses() {
    assert!(contains_bytes(b"application.name = x", b"application.name"));
    assert!(!contains_bytes(b"app.name", b"application.name"));
    assert!(contains_bytes(b"abc", b""));
}

#[test]
fn default_settings_match_the_documented_defaults() {
    let s = AppSettings::default();
    assert!(s.output_dir.is_none());
    assert!(!s.silence_trim);
    assert!(s.max_duration_secs.is_none());
    assert!(!s.notify_on_record);
    assert_eq!(s.shortcuts.record, "ctrl+r");
    assert_eq!(s.shortcuts.stop, "ctrl+s");
    assert_eq!(default_record_shortcut(), "ctrl+r");
    assert_eq!(default_stop_shortcut(), "ctrl+s");
}

#[test]
fn setters_change_only_their_field() {
    let mut s = AppSettings::default();
    s.set_silence_trim(true);
    s.set_max_duration(Some(90));
    s.set_notify_on_record(true);
    s.set_shortcuts("ctrl+shift+r".to_string(), "ctrl+shift+s".to_string());
    s.set_output_dir(Some("/data/rec".to_string()));
    assert!(s.silence_trim);
    assert_eq!(s.max_duration_secs, Some(90));
    assert!(s.notify_on_record);
    assert_eq!(s.shortcuts.record, "ctrl+shift+r");
    assert_eq!(s.shortcuts.stop, "ctrl+shift+s");
    assert_eq!(s.output_dir.as_deref(), Some("/data/rec"));
    assert!(s.output_dir_is_custom());
    s.set_output_dir(Some(String::new()));
    assert!(!s.output_dir_is_custom());
}

#[test]
fn recordings_dir_prefers_a_usable_custom_directory() {
    let custom = Some("/data/rec".to_string());
    assert_eq!(choose_recordings_dir(&custom, true, "/home/u/Music/DiscRec".to_string()), "/data/rec");
    // Unusable or empty custom directories fall back to the default.
    assert_eq!(
        choose_recordings_dir(&custom, false, "/home/u/Music/DiscRec".to_string()),
        "/home/u/Music/DiscRec"
    );
    assert_eq!(
        choose_recordings_dir(&Some(String::new()), true, "/d".to_string()),
        "/d"
    );
    assert_eq!(choose_recordings_dir(&None, true, "/d".to_string()), "/d");
}

#[test]
fn recording_extensions_match_case_insensitively() {
    assert!(is_recording_extension("wav"));
    assert!(is_recording_extension("WAV"));
    assert!(is_recording_extension("Flac"));
    assert!(is_recording_extension("mp3"));
    assert!(!is_recording_extension("ogg"));
    assert!(!is_recording_extension(""));
    assert!(!is_recording_extension("wav "));
}

#[test]
fn path_containment_requires_a_separator_boundary() {
    assert!(path_is_within(b"/a/b/c.wav", b"/a/b"));
    assert!(path_is_within(b"/a/b", b"/a/b"));
    assert!(!path_is_within(b"/a/bc.wav", b"/a/b"));
    assert!(!path_is_within(b"/x/c.wav", b"/a/b"));
}
