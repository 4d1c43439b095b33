//! Multi-speaker receiver and bot lifecycle behavior.

use discrec::encoder::AudioFormat;
use discrec::errors::RecorderError;
use discrec::receiver::{ReceiverState, TickEntry};
use discrec::session::{count_in_channel, DiscordBot};

const STAMP: &str = "2024-05-01_120000";

fn tick(entries: Vec<(u32, Vec<i16>)>) -> Vec<TickEntry> {
    entries.into_iter().map(|(ssrc, pcm)| TickEntry { ssrc, pcm }).collect()
}

#[test]
fn unmapped_sources_get_files_named_by_raw_identifier() {
    let mut rcv = ReceiverState::new("/tmp/rec", AudioFormat::Wav);
    rcv.on_tick(&tick(vec![(111, vec![1000]), (222, vec![2000])]), STAMP);
    let files = rcv.finalize_all().unwrap();
    assert_eq!(files.len(), 2);
    assert_eq!(files[0].path, "/tmp/rec/discord-2024-05-01_120000-ssrc-111.wav");
    assert_eq!(files[1].path, "/tmp/rec/discord-2024-05-01_120000-ssrc-222.wav");
}

#[test]
fn identity_arriving_later_never_renames_an_existing_file() {
    let mut rcv = ReceiverState::new("/tmp/rec", AudioFormat::Wav);
    rcv.on_tick(&tick(vec![(111, vec![1000])]), STAMP);
    // The mapping arrives only after the encoder exists.
    rcv.note_speaker(111, 42);
    rcv.on_tick(&tick(vec![(111, vec![1500]), (333, vec![2000])]), STAMP);
    let files = rcv.finalize_all().unwrap();
    assert_eq!(files.len(), 2);
    // The first file keeps its raw-identifier name; only the source first
    // heard after its mapping uses a resolved name.
    assert_eq!(files[0].path, "/tmp/rec/discord-2024-05-01_120000-ssrc-111.wav");
    assert_eq!(files[1].path, "/tmp/rec/discord-2024-05-01_120000-ssrc-333.wav");
}

#[test]
fn mapped_source_gets_resolved_name_on_creation() {
    let mut rcv = ReceiverState::new("/tmp/rec", AudioFormat::Wav);
    rcv.note_speaker(111, 42);
    rcv.on_tick(&tick(vec![(111, vec![1000])]), STAMP);
    let files = rcv.finalize_all().unwrap();
    assert_eq!(files[0].path, "/tmp/rec/discord-2024-05-01_120000-user-42.wav");
}

#[test]
fn identity_map_is_last_write_wins() {
    let mut rcv = ReceiverState::new("/tmp/rec", AudioFormat::Wav);
    rcv.note_speaker(111, 42);
    rcv.note_speaker(111, 99);
    rcv.on_tick(&tick(vec![(111, vec![1000])]), STAMP);
    let files = rcv.finalize_all().unwrap();
    assert_eq!(files[0].path, "/tmp/rec/discord-2024-05-01_120000-user-99.wav");
}

#[test]
fn per_speaker_samples_stay_separated() {
    let mut rcv = ReceiverState::new("/tmp/rec", AudioFormat::Wav);
    rcv.on_tick(&tick(vec![(1, vec![32767, 0]), (2, vec![-32767])]), STAMP);
    rcv.on_tick(&tick(vec![(1, vec![16384])]), STAMP);
    let files = rcv.finalize_all().unwrap();
    let read = |bytes: Vec<u8>| -> Vec<i16> {
        let mut r = hound::WavReader::new(std::io::Cursor::new(bytes)).unwrap();
        r.samples::<i16>().map(|s| s.unwrap()).collect()
    };
    // Each 16-bit sample survives normalization and quantization exactly.
    assert_eq!(read(files[0].bytes.clone()), vec![32767, 0, 16384]);
    assert_eq!(read(files[1].bytes.clone()), vec![-32767]);
}

#[test]
fn tick_peak_spans_all_sources_without_decay() {
    let mut rcv = ReceiverState::new("/tmp/rec", AudioFormat::Wav);
    rcv.on_tick(&tick(vec![(1, vec![3277]), (2, vec![-29491])]), STAMP);
    // 29491/32767 of full scale, truncated.
    assert_eq!(rcv.peak_level(), 900_021);
    // The next tick replaces the reading outright.
    rcv.on_tick(&tick(vec![(1, vec![3277])]), STAMP);
    assert_eq!(rcv.peak_level(), 100_009);
}

#[test]
fn finalize_with_no_audio_returns_empty_list() {
    let mut rcv = ReceiverState::new("/tmp/rec", AudioFormat::Wav);
    let files = rcv.finalize_all().unwrap();
    assert!(files.is_empty());
}

#[test]
fn halted_receiver_ignores_ticks() {
    let mut rcv = ReceiverState::new("/tmp/rec", AudioFormat::Wav);
    rcv.halt();
    rcv.on_tick(&tick(vec![(1, vec![32767])]), STAMP);
    assert_eq!(rcv.peak_level(), 0);
    assert!(rcv.finalize_all().unwrap().is_empty());
}

#[test]
fn bot_connect_refused_while_connected() {
    let mut bot = DiscordBot::new();
    assert!(bot.begin_connect().is_ok());
    bot.complete_connect(true).unwrap();
    assert!(bot.is_connected());
    assert_eq!(bot.begin_connect().unwrap_err(), RecorderError::AlreadyConnected);
    bot.disconnect();
    assert!(!bot.is_connected());
}

#[test]
fn bot_connect_timeout_reports_failure() {
    let mut bot = DiscordBot::new();
    bot.begin_connect().unwrap();
    assert_eq!(bot.complete_connect(false).unwrap_err(), RecorderError::NotConnected);
    assert!(!bot.is_connected());
}

#[test]
fn bot_recording_requires_connection() {
    let mut bot = DiscordBot::new();
    assert_eq!(
        bot.start_recording("/tmp/rec", AudioFormat::Wav).unwrap_err(),
        RecorderError::NotConnected
    );
}

#[test]
fn bot_start_while_recording_fails_and_keeps_session() {
    let mut bot = DiscordBot::new();
    bot.begin_connect().unwrap();
    bot.complete_connect(true).unwrap();
    bot.start_recording("/tmp/rec", AudioFormat::Wav).unwrap();
    bot.on_tick(&tick(vec![(7, vec![1000])]), STAMP);
    assert_eq!(
        bot.start_recording("/tmp/other", AudioFormat::Mp3).unwrap_err(),
        RecorderError::AlreadyRecording
    );
    let files = bot.stop_recording().unwrap();
    assert_eq!(files.len(), 1);
    assert_eq!(files[0].path, "/tmp/rec/discord-2024-05-01_120000-ssrc-7.wav");
}

#[test]
fn bot_stop_twice_returns_empty_list_not_an_error() {
    let mut bot = DiscordBot::new();
    bot.begin_connect().unwrap();
    bot.complete_connect(true).unwrap();
    bot.start_recording("/tmp/rec", AudioFormat::Wav).unwrap();
    bot.on_tick(&tick(vec![(7, vec![1000])]), STAMP);
    let first = bot.stop_recording().unwrap();
    assert_eq!(first.len(), 1);
    let second = bot.stop_recording().unwrap();
    assert!(second.is_empty());
    assert!(!bot.is_recording());
    assert_eq!(bot.peak_level(), 0);
}

#[test]
fn member_count_matches_only_the_channel() {
    let states = vec![Some(5u64), None, Some(6), Some(5), None];
    assert_eq!(count_in_channel(&states, 5), 2);
    assert_eq!(count_in_channel(&states, 6), 1);
    assert_eq!(count_in_channel(&states, 7), 0);
}
