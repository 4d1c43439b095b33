//! Output file naming.
//!
//! Files are named by a wall-clock timestamp, and per-speaker tracks carry a
//! label derived from the speaker's identity, or from the raw transport
//! source identifier when no identity mapping has arrived yet.

use vstd::prelude::*;
use vstd::string::StringExecFns;
use crate::encoder::{spec_extension, AudioFormat};

verus! {

pub open spec fn digit_char(d: nat) -> char {
    if d == 0 {
        '0'
    } else if d == 1 {
        '1'
    } else if d == 2 {
        '2'
    } else if d == 3 {
        '3'
    } else if d == 4 {
        '4'
    } else if d == 5 {
        '5'
    } else if d == 6 {
        '6'
    } else if d == 7 {
        '7'
    } else if d == 8 {
        '8'
    } else {
        '9'
    }
}

/// The decimal digits of `n`, most significant first.
pub open spec fn dec_digits(n: nat) -> Seq<char>
    decreases n,
{
    if n < 10 {
        seq![digit_char(n)]
    } else {
        dec_digits(n / 10) + seq![digit_char(n % 10)]
    }
}

fn digit_str(d: u64) -> (r: &'static str)
    requires
        d < 10,
    ensures
        r@ =~= seq![digit_char(d as nat)],
{
    proof {
        reveal_strlit("0");
        reveal_strlit("1");
        reveal_strlit("2");
        reveal_strlit("3");
        reveal_strlit("4");
        reveal_strlit("5");
        reveal_strlit("6");
        reveal_strlit("7");
        reveal_strlit("8");
        reveal_strlit("9");
    }
    if d == 0 {
        "0"
    } else if d == 1 {
        "1"
    } else if d == 2 {
        "2"
    } else if d == 3 {
        "3"
    } else if d == 4 {
        "4"
    } else if d == 5 {
        "5"
    } else if d == 6 {
        "6"
    } else if d == 7 {
        "7"
    } else if d == 8 {
        "8"
    } else {
        "9"
    }
}

/// Render a number in decimal.
pub fn decimal_string(n: u64) -> (r: String)
    ensures
        r@ =~= dec_digits(n as nat),
    decreases n,
{
    if n < 10 {
        digit_str(n).to_owned()
    } else {
        let mut s = decimal_string(n / 10);
        s.append(digit_str(n % 10));
        s
    }
}

/// The label a per-speaker file carries: the resolved identity when the
/// mapping is known, else the raw transport source identifier.
pub open spec fn spec_speaker_label(ssrc: u32, user: Option<u64>) -> Seq<char> {
    match user {
        Some(u) => "user-"@ + dec_digits(u as nat),
        None => "ssrc-"@ + dec_digits(ssrc as nat),
    }
}

pub fn speaker_label(ssrc: u32, user: Option<u64>) -> (r: String)
    ensures
        r@ =~= spec_speaker_label(ssrc, user),
{
    match user {
        Some(u) => {
            let mut s = String::from_str("user-");
            let d = decimal_string(u);
            s.append(d.as_str());
            s
        },
        None => {
            let mut s = String::from_str("ssrc-");
            let d = decimal_string(ssrc as u64);
            s.append(d.as_str());
            s
        },
    }
}

/// A single-device recording's file name.
pub open spec fn spec_recording_filename(stamp: Seq<char>, format: AudioFormat) -> Seq<char> {
    "discord-"@ + stamp + "."@ + spec_extension(format)
}

pub fn recording_filename(stamp: &str, format: AudioFormat) -> (r: String)
    ensures
        r@ =~= spec_recording_filename(stamp@, format),
{
    let mut s = String::from_str("discord-");
    s.append(stamp);
    s.append(".");
    s.append(format.extension());
    s
}

/// A per-speaker track's file name.
pub open spec fn spec_speaker_filename(
    stamp: Seq<char>,
    label: Seq<char>,
    format: AudioFormat,
) -> Seq<char> {
    "discord-"@ + stamp + "-"@ + label + "."@ + spec_extension(format)
}

pub fn speaker_filename(stamp: &str, label: &str, format: AudioFormat) -> (r: String)
    ensures
        r@ =~= spec_speaker_filename(stamp@, label@, format),
{
    let mut s = String::from_str("discord-");
    s.append(stamp);
    s.append("-");
    s.append(label);
    s.append(".");
    s.append(format.extension());
    s
}

/// A file name appended to a directory path.
pub open spec fn spec_joined_path(dir: Seq<char>, file: Seq<char>) -> Seq<char> {
    dir + "/"@ + file
}

pub fn join_path(dir: &str, file: &str) -> (r: String)
    ensures
        r@ =~= spec_joined_path(dir@, file@),
{
    let mut s = dir.to_owned();
    s.append("/");
    s.append(file);
    s
}

/// Relies on chrono (`Local::now`, `DateTime::format`): the current local
/// wall-clock time rendered as `YYYY-MM-DD_HHMMSS`.  The result depends on
/// the clock, so nothing is promised of it.
#[verifier::external_body]
pub fn local_timestamp_label() -> String {
    chrono::Local::now().format("%Y-%m-%d_%H%M%S").to_string()
}

} // verus!
