//! Device and target-process selection.

use discrec::devices::{pick_monitor_device, pick_virtual_device, DeviceChoice};
use discrec::process::{select_target_pid, ProcessEntry};

fn names(v: &[&str]) -> Vec<String> {
    v.iter().map(|s| s.to_string()).collect()
}

#[test]
fn preferred_source_wins_when_present() {
    let devs = names(&["alsa_input.mic", "discrec_capture.monitor", "alsa_output.monitor"]);
    let preferred = "discrec_capture.monitor".to_string();
    assert_eq!(pick_monitor_device(&devs, Some(&preferred)), DeviceChoice::Preferred(1));
}

#[test]
fn missing_preferred_falls_back_to_first_monitor() {
    let devs = names(&["alsa_input.mic", "alsa_output.monitor", "other.Monitor"]);
    let preferred = "discrec_capture.monitor".to_string();
    assert_eq!(pick_monitor_device(&devs, Some(&preferred)), DeviceChoice::Monitor(1));
}

#[test]
fn no_monitor_falls_back_to_default_input() {
    let devs = names(&["alsa_input.mic", "alsa_input.headset"]);
    assert_eq!(pick_monitor_device(&devs, None), DeviceChoice::DefaultInput);
}

#[test]
fn monitor_match_accepts_both_spellings() {
    assert_eq!(pick_monitor_device(&names(&["x.Monitor"]), None), DeviceChoice::Monitor(0));
    assert_eq!(pick_monitor_device(&names(&["x.monitor"]), None), DeviceChoice::Monitor(0));
}

#[test]
fn virtual_device_is_matched_case_insensitively() {
    let devs = names(&["MacBook Microphone", "BlackHole 2ch", "Soundflower (2ch)"]);
    assert_eq!(pick_virtual_device(&devs), DeviceChoice::Virtual(1));
    assert_eq!(pick_virtual_device(&names(&["Built-in"])), DeviceChoice::DefaultInput);
}

fn proc(pid: u32, parent: Option<u32>, name: &str) -> ProcessEntry {
    ProcessEntry { pid, parent, name: name.to_string() }
}

#[test]
fn lowest_pid_process_of_first_candidate_wins() {
    let procs = vec![
        proc(900, Some(1), "Discord.exe"),
        proc(300, Some(42), "Discord.exe"),
        proc(500, Some(300), "Discord.exe"),
    ];
    // The lowest pid's parent is the tree root.
    assert_eq!(select_target_pid(&procs), Some(42));
}

#[test]
fn parent_falls_back_to_the_process_itself() {
    let procs = vec![proc(300, None, "Discord.exe")];
    assert_eq!(select_target_pid(&procs), Some(300));
}

#[test]
fn candidate_order_is_respected() {
    // A canary process does not shadow the plain executable name.
    let procs = vec![proc(100, Some(1), "DiscordCanary.exe"), proc(200, Some(2), "discord.exe")];
    assert_eq!(select_target_pid(&procs), Some(2));
}

#[test]
fn matching_is_by_substring() {
    let procs = vec![proc(100, Some(7), "Discord.exe --type=renderer")];
    assert_eq!(select_target_pid(&procs), Some(7));
}

#[test]
fn no_target_process_means_none() {
    let procs = vec![proc(100, Some(1), "firefox"), proc(200, None, "bash")];
    assert_eq!(select_target_pid(&procs), None);
    assert_eq!(select_target_pid(&Vec::new()), None);
}
