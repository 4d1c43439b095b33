//! Loopback-source selection.
//!
//! Each platform strategy reduces to choosing among the available input
//! devices by name.  The fallback order is part of the contract: a
//! preferred (per-application) source first, then a monitor- or
//! virtual-class device, then the system default input — each step tried
//! only when every earlier step found nothing.

use vstd::prelude::*;
use vstd::string::StringSliceAdditionalSpecFns;
use crate::text::{contains_bytes, contains_seq, lower_bytes, to_lower};

verus! {

/// The outcome of loopback-source selection: which device index to open,
/// and on which ground, or the system default input as the last resort.
#[derive(Debug, Clone, Copy, PartialEq, Eq, Structural)]
pub enum DeviceChoice {
    /// The preferred (per-application) source, at this index.
    Preferred(usize),
    /// A monitor-class source, at this index.
    Monitor(usize),
    /// A virtual-audio-device, at this index.
    Virtual(usize),
    /// No candidate matched: fall back to the default input.
    DefaultInput,
}

/// Whether a device name contains the preferred source's name.
pub open spec fn name_has(name: Seq<char>, needle: Seq<char>) -> bool {
    contains_seq(
        vstd::utf8::encode_utf8(name),
        vstd::utf8::encode_utf8(needle),
    )
}

/// Whether a device name marks a monitor-class source.
pub open spec fn is_monitor_name(name: Seq<char>) -> bool {
    contains_seq(vstd::utf8::encode_utf8(name), "monitor".spec_bytes()) || contains_seq(
        vstd::utf8::encode_utf8(name),
        "Monitor".spec_bytes(),
    )
}

/// Whether a lowercased device name names a known virtual audio device.
pub open spec fn is_virtual_name(name: Seq<char>) -> bool {
    ||| contains_seq(lower_bytes(vstd::utf8::encode_utf8(name)), "blackhole".spec_bytes())
    ||| contains_seq(lower_bytes(vstd::utf8::encode_utf8(name)), "loopback".spec_bytes())
    ||| contains_seq(lower_bytes(vstd::utf8::encode_utf8(name)), "soundflower".spec_bytes())
    ||| contains_seq(lower_bytes(vstd::utf8::encode_utf8(name)), "virtual".spec_bytes())
    ||| contains_seq(lower_bytes(vstd::utf8::encode_utf8(name)), "screencapture".spec_bytes())
}

fn name_is_monitor(name: &String) -> (r: bool)
    ensures
        r == is_monitor_name(name@),
{
    contains_bytes(name.as_str().as_bytes(), "monitor".as_bytes()) || contains_bytes(
        name.as_str().as_bytes(),
        "Monitor".as_bytes(),
    )
}

fn name_is_virtual(name: &String) -> (r: bool)
    ensures
        r == is_virtual_name(name@),
{
    let low = to_lower(name.as_str().as_bytes());
    let l = low.as_slice();
    contains_bytes(l, "blackhole".as_bytes()) || contains_bytes(l, "loopback".as_bytes())
        || contains_bytes(l, "soundflower".as_bytes()) || contains_bytes(
        l,
        "virtual".as_bytes(),
    ) || contains_bytes(l, "screencapture".as_bytes())
}

/// Monitor-source strategy: the preferred per-application source when one
/// was set up and is present, else the first monitor-class source, else
/// the default input.  Each step is taken only when every earlier step
/// found no device.
pub fn pick_monitor_device(names: &Vec<String>, preferred: Option<&String>) -> (r: DeviceChoice)
    ensures
        match r {
            DeviceChoice::Preferred(i) => {
                &&& i < names@.len()
                &&& (preferred matches Some(p) && name_has(names@[i as int]@, p@) && forall|j: int|
                    0 <= j < i ==> !name_has((#[trigger] names@[j])@, p@))
            },
            DeviceChoice::Monitor(i) => {
                &&& (preferred matches Some(p) ==> forall|j: int|
                    0 <= j < names@.len() ==> !name_has((#[trigger] names@[j])@, p@))
                &&& i < names@.len()
                &&& is_monitor_name(names@[i as int]@)
                &&& forall|j: int| 0 <= j < i ==> !is_monitor_name((#[trigger] names@[j])@)
            },
            DeviceChoice::Virtual(_) => false,
            DeviceChoice::DefaultInput => {
                &&& (preferred matches Some(p) ==> forall|j: int|
                    0 <= j < names@.len() ==> !name_has((#[trigger] names@[j])@, p@))
                &&& forall|j: int|
                    0 <= j < names@.len() ==> !is_monitor_name((#[trigger] names@[j])@)
            },
        },
{
    match preferred {
        Some(p) => {
            let mut i: usize = 0;
            while i < names.len()
                invariant
                    0 <= i <= names@.len(),
                    preferred == Some(p),
                    forall|j: int| 0 <= j < i ==> !name_has((#[trigger] names@[j])@, p@),
                decreases names@.len() - i,
            {
                if contains_bytes(names[i].as_str().as_bytes(), p.as_str().as_bytes()) {
                    return DeviceChoice::Preferred(i);
                }
                i = i + 1;
            }
        },
        None => {},
    }
    let mut i: usize = 0;
    while i < names.len()
        invariant
            0 <= i <= names@.len(),
            match preferred {
                Some(q) => forall|j: int|
                    0 <= j < names@.len() ==> !name_has((#[trigger] names@[j])@, q@),
                None => true,
            },
            forall|j: int| 0 <= j < i ==> !is_monitor_name((#[trigger] names@[j])@),
        decreases names@.len() - i,
    {
        if name_is_monitor(&names[i]) {
            return DeviceChoice::Monitor(i);
        }
        i = i + 1;
    }
    DeviceChoice::DefaultInput
}

/// Virtual-device strategy: the first device whose lowercased name names a
/// known virtual audio device, else the default input.
pub fn pick_virtual_device(names: &Vec<String>) -> (r: DeviceChoice)
    ensures
        match r {
            DeviceChoice::Virtual(i) => {
                &&& i < names@.len()
                &&& is_virtual_name(names@[i as int]@)
                &&& forall|j: int| 0 <= j < i ==> !is_virtual_name((#[trigger] names@[j])@)
            },
            DeviceChoice::DefaultInput => forall|j: int|
                0 <= j < names@.len() ==> !is_virtual_name((#[trigger] names@[j])@),
            DeviceChoice::Preferred(_) => false,
            DeviceChoice::Monitor(_) => false,
        },
{
    let mut i: usize = 0;
    while i < names.len()
        invariant
            0 <= i <= names@.len(),
            forall|j: int| 0 <= j < i ==> !is_virtual_name((#[trigger] names@[j])@),
        decreases names@.len() - i,
    {
        if name_is_virtual(&names[i]) {
            return DeviceChoice::Virtual(i);
        }
        i = i + 1;
    }
    DeviceChoice::DefaultInput
}

} // verus!
