//! Recording-history entries.
//!
//! The shell walks the recordings directory and asks the library which
//! files belong in the history: exactly those whose extension, compared
//! ASCII-case-insensitively, is one of the known recording formats.

use vstd::prelude::*;
use vstd::string::StringSliceAdditionalSpecFns;
use crate::text::{eq_bytes, lower_bytes, starts_with_bytes, starts_with_spec, to_lower};

verus! {

/// One entry of the recording history.
#[derive(Debug, Clone)]
pub struct RecordingInfo {
    pub path: String,
    pub filename: String,
    pub size: u64,
    pub modified: String,
    pub format: String,
}

/// The effective output directory and whether it is a custom one.
#[derive(Debug, Clone)]
pub struct OutputDirInfo {
    pub path: String,
    pub is_custom: bool,
}

/// Whether an extension, lowercased, names one of the recording formats.
pub open spec fn spec_is_recording_extension(ext: Seq<u8>) -> bool {
    ||| lower_bytes(ext) == "wav".spec_bytes()
    ||| lower_bytes(ext) == "flac".spec_bytes()
    ||| lower_bytes(ext) == "mp3".spec_bytes()
}

/// Decide whether a file extension belongs to the recording history.
pub fn is_recording_extension(ext: &str) -> (r: bool)
    ensures
        r == spec_is_recording_extension(ext.spec_bytes()),
{
    let low = to_lower(ext.as_bytes());
    let l = low.as_slice();
    eq_bytes(l, "wav".as_bytes()) || eq_bytes(l, "flac".as_bytes()) || eq_bytes(
        l,
        "mp3".as_bytes(),
    )
}

/// Whether one canonical path lies inside another: equal to the directory,
/// or extending it at a separator boundary.  Used to refuse deleting
/// anything outside the recordings directory.
pub open spec fn spec_path_within(file: Seq<u8>, dir: Seq<u8>) -> bool {
    starts_with_spec(file, dir) && (file.len() == dir.len() || file[dir.len() as int] == 47)
}

pub fn path_is_within(file: &[u8], dir: &[u8]) -> (r: bool)
    ensures
        r == spec_path_within(file@, dir@),
{
    if !starts_with_bytes(file, dir) {
        return false;
    }
    if file.len() == dir.len() {
        return true;
    }
    file[dir.len()] == 47
}

} // verus!
