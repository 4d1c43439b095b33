//! Sink-input parsing, routing commands and teardown ordering.

use discrec::routing::{
    find_discord_sink_input, loopback_args, move_to_capture_args, null_sink_args,
    parse_module_id, setup_unwind_steps, split_lines, unload_module_args, DiscordRouting,
};

const LISTING: &str = "Sink Input #57\n\
\tDriver: protocol-native.c\n\
\tSink: 3\n\
\tProperties:\n\
\t\tapplication.name = \"Firefox\"\n\
Sink Input #61\n\
\tDriver: protocol-native.c\n\
\tSink: 4\n\
\tProperties:\n\
\t\tapplication.name = \"DISCORD\"\n";

#[test]
fn finds_the_target_sink_input_and_its_sink() {
    // The application name is matched case-insensitively, as a substring.
    assert_eq!(find_discord_sink_input(LISTING.as_bytes()), Some((61, 4)));
}

#[test]
fn no_matching_application_yields_none() {
    let listing = "Sink Input #57\n\tSink: 3\n\tapplication.name = \"Firefox\"\n";
    assert_eq!(find_discord_sink_input(listing.as_bytes()), None);
}

#[test]
fn name_line_before_index_yields_none() {
    // An application line with no sink-input header seen yet is not enough.
    let listing = "\tapplication.name = \"Discord\"\n";
    assert_eq!(find_discord_sink_input(listing.as_bytes()), None);
}

#[test]
fn index_is_reset_per_sink_input_block() {
    // A new "Sink Input #" header forgets the previous block's sink.
    let listing = "Sink Input #10\n\tSink: 1\nSink Input #11\n\tapplication.name = discord\n";
    assert_eq!(find_discord_sink_input(listing.as_bytes()), None);
}

#[test]
fn split_lines_separates_on_newlines() {
    let lines = split_lines(b"ab\ncd\n\nef");
    let views: Vec<&[u8]> = lines.iter().map(|l| l.as_slice()).collect();
    assert_eq!(views, vec![b"ab".as_slice(), b"cd", b"", b"ef"]);
}

#[test]
fn module_id_is_parsed_from_trimmed_output() {
    assert_eq!(parse_module_id(b"536\n"), Some(536));
    assert_eq!(parse_module_id(b"  42  "), Some(42));
    assert_eq!(parse_module_id(b"not-a-number\n"), None);
    assert_eq!(parse_module_id(b""), None);
}

#[test]
fn routing_commands_have_expected_shape() {
    assert_eq!(
        null_sink_args(),
        vec![
            "load-module",
            "module-null-sink",
            "sink_name=discrec_capture",
            "sink_properties=device.description=DiscRec",
            "rate=48000",
            "channels=2",
        ]
    );
    assert_eq!(
        loopback_args(),
        vec!["load-module", "module-loopback", "source=discrec_capture.monitor", "latency_msec=1"]
    );
    assert_eq!(move_to_capture_args(61), vec!["move-sink-input", "61", "discrec_capture"]);
    assert_eq!(unload_module_args(536), vec!["unload-module", "536"]);
}

#[test]
fn teardown_reverses_creation_order() {
    let routing = DiscordRouting::new(100, 101, 61, 4);
    let steps = routing.teardown_steps();
    assert_eq!(steps.len(), 3);
    // First the stream goes back, then the loopback unloads, then the sink.
    assert_eq!(steps[0], vec!["move-sink-input", "61", "4"]);
    assert_eq!(steps[1], vec!["unload-module", "101"]);
    assert_eq!(steps[2], vec!["unload-module", "100"]);
}

#[test]
fn teardown_skips_a_loopback_that_never_loaded() {
    let routing = DiscordRouting::new(100, 0, 61, 4);
    let steps = routing.teardown_steps();
    assert_eq!(steps.len(), 2);
    assert_eq!(steps[0], vec!["move-sink-input", "61", "4"]);
    assert_eq!(steps[1], vec!["unload-module", "100"]);
}

#[test]
fn monitor_source_names_the_private_sink() {
    let routing = DiscordRouting::new(1, 0, 2, 3);
    assert_eq!(routing.monitor_source(), "discrec_capture.monitor");
}

#[test]
fn failed_move_unwinds_in_reverse_creation_order() {
    let steps = setup_unwind_steps(100, Some(101));
    assert_eq!(steps.len(), 2);
    assert_eq!(steps[0], vec!["unload-module", "101"]);
    assert_eq!(steps[1], vec!["unload-module", "100"]);
    let steps = setup_unwind_steps(100, None);
    assert_eq!(steps.len(), 1);
    assert_eq!(steps[0], vec!["unload-module", "100"]);
}
