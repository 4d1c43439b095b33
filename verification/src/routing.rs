//! Per-application audio routing.
//!
//! On systems with a user-space sound server, the target application's
//! audio can be routed temporarily into a private null sink whose monitor
//! source is then captured.  The library decides everything about that
//! reconfiguration — which sink input to move (by parsing the sound
//! server's tool output), which commands to issue, and the exact reverse
//! order in which every temporary object must be unwound — while the
//! process that actually runs the tool lives outside.

use vstd::prelude::*;
use vstd::slice::slice_subrange;
use vstd::string::StringExecFns;
use vstd::string::StringSliceAdditionalSpecFns;
use crate::naming::{dec_digits, decimal_string};
use crate::text::{
    contains_bytes, contains_seq, lower_bytes, parse_u32, parsed_u32, starts_with_bytes,
    starts_with_spec, to_lower, trim_bytes, trimmed,
};

verus! {

/// Length of the byte prefix that announces a sink input's index.
pub open spec fn sink_input_prefix() -> Seq<u8> {
    "Sink Input #".spec_bytes()
}

/// The byte prefix that announces a sink input's current sink.
pub open spec fn sink_prefix() -> Seq<u8> {
    "Sink: ".spec_bytes()
}

/// The property key whose line names the owning application.
pub open spec fn app_name_key() -> Seq<u8> {
    "application.name".spec_bytes()
}

/// The application name looked for, lowercased.
pub open spec fn target_app_key() -> Seq<u8> {
    "discord".spec_bytes()
}

/// The number of characters before the first newline.
pub open spec fn line_len(s: Seq<u8>) -> nat
    decreases s.len(),
{
    if s.len() == 0 {
        0nat
    } else if s.first() == 10 {
        0nat
    } else {
        1 + line_len(s.drop_first())
    }
}

pub proof fn lemma_line_len_bounds(s: Seq<u8>)
    ensures
        0 <= line_len(s) <= s.len(),
        line_len(s) < s.len() ==> s[line_len(s) as int] == 10,
        forall|j: int| 0 <= j < line_len(s) ==> s[j] != 10,
    decreases s.len(),
{
    if s.len() > 0 && s.first() != 10 {
        lemma_line_len_bounds(s.drop_first());
        assert(forall|j: int| 0 <= j < line_len(s.drop_first()) ==> s.drop_first()[j] != 10);
        assert forall|j: int| 0 <= j < line_len(s) implies s[j] != 10 by {
            if j > 0 {
                assert(s.drop_first()[j - 1] != 10);
            }
        }
    }
}

/// The text split at newlines.
pub open spec fn split_nl(s: Seq<u8>) -> Seq<Seq<u8>>
    decreases s.len(),
    via split_nl_decreases
{
    if s.len() == 0 {
        Seq::empty()
    } else {
        let n = line_len(s) as int;
        if n == s.len() {
            seq![s]
        } else {
            seq![s.take(n)] + split_nl(s.skip(n + 1))
        }
    }
}

#[via_fn]
proof fn split_nl_decreases(s: Seq<u8>) {
    lemma_line_len_bounds(s);
}

fn copy_bytes(s: &[u8]) -> (r: Vec<u8>)
    ensures
        r@ =~= s@,
{
    let mut r: Vec<u8> = Vec::new();
    let mut i: usize = 0;
    while i < s.len()
        invariant
            0 <= i <= s@.len(),
            r@ =~= s@.take(i as int),
        decreases s@.len() - i,
    {
        r.push(s[i]);
        proof {
            assert(r@ =~= s@.take(i + 1));
        }
        i = i + 1;
    }
    proof {
        assert(r@ =~= s@.take(s@.len() as int));
    }
    r
}

/// Split a tool's output into lines.
pub fn split_lines(t: &[u8]) -> (r: Vec<Vec<u8>>)
    ensures
        r@.len() == split_nl(t@).len(),
        forall|k: int| 0 <= k < r@.len() ==> (#[trigger] r@[k])@ == split_nl(t@)[k],
    decreases t@.len(),
{
    proof {
        lemma_line_len_bounds(t@);
    }
    if t.len() == 0 {
        return Vec::new();
    }
    let mut n: usize = 0;
    while n < t.len() && t[n] != 10
        invariant
            0 <= n <= t@.len(),
            forall|j: int| 0 <= j < n ==> t@[j] != 10,
        decreases t@.len() - n,
    {
        n = n + 1;
    }
    proof {
        lemma_line_len_at(t@, n as int);
    }
    if n == t.len() {
        let mut r: Vec<Vec<u8>> = Vec::new();
        r.push(copy_bytes(t));
        return r;
    }
    let piece = copy_bytes(slice_subrange(t, 0, n));
    let rest_slice = slice_subrange(t, n + 1, t.len());
    let mut rest = split_lines(rest_slice);
    let ghost rest0 = rest@;
    let mut r: Vec<Vec<u8>> = Vec::new();
    r.push(piece);
    r.append(&mut rest);
    proof {
        assert(t@.subrange(0, n as int) =~= t@.take(n as int));
        assert(rest_slice@ =~= t@.skip(n + 1));
        assert forall|k: int| 0 <= k < r@.len() implies (#[trigger] r@[k])@ == split_nl(t@)[k] by {
            if k > 0 {
                assert(r@[k] == rest0[k - 1]);
            }
        }
    }
    r
}

proof fn lemma_line_len_at(s: Seq<u8>, n: int)
    requires
        0 <= n <= s.len(),
        forall|j: int| 0 <= j < n ==> s[j] != 10,
        n < s.len() ==> s[n] == 10,
    ensures
        line_len(s) == n,
    decreases s.len(),
{
    if s.len() > 0 && n > 0 {
        assert(s.first() != 10);
        assert forall|j: int| 0 <= j < n - 1 implies s.drop_first()[j] != 10 by {
            assert(s[j + 1] != 10);
        }
        lemma_line_len_at(s.drop_first(), n - 1);
    }
}

/// What scanning the sink-input listing yields: the listing is walked line
/// by line, remembering the most recent sink-input index and sink; the
/// first sink input whose application name names the target — with both
/// values already seen — is the answer.
pub open spec fn scan_sink_inputs(
    lines: Seq<Seq<u8>>,
    idx: Option<u32>,
    sink: Option<u32>,
) -> Option<(u32, u32)>
    decreases lines.len(),
{
    if lines.len() == 0 {
        None
    } else {
        let l = trimmed(lines.first());
        let rest = lines.drop_first();
        if starts_with_spec(l, sink_input_prefix()) {
            scan_sink_inputs(rest, parsed_u32(l.skip(sink_input_prefix().len() as int)), None)
        } else if starts_with_spec(l, sink_prefix()) {
            scan_sink_inputs(rest, idx, parsed_u32(trimmed(l.skip(sink_prefix().len() as int))))
        } else if contains_seq(l, app_name_key()) && contains_seq(
            lower_bytes(l),
            target_app_key(),
        ) {
            if idx is Some && sink is Some {
                Some((idx.unwrap(), sink.unwrap()))
            } else {
                scan_sink_inputs(rest, idx, sink)
            }
        } else {
            scan_sink_inputs(rest, idx, sink)
        }
    }
}

/// Find the target application's sink input in the sound server's
/// sink-input listing: its index and the sink it currently plays on.
pub fn find_discord_sink_input(listing: &[u8]) -> (r: Option<(u32, u32)>)
    ensures
        r == scan_sink_inputs(split_nl(listing@), None, None),
{
    let lines = split_lines(listing);
    let ghost ls = split_nl(listing@);
    let mut cur_idx: Option<u32> = None;
    let mut cur_sink: Option<u32> = None;
    proof {
        assert(ls.skip(0) =~= ls);
    }
    let mut i: usize = 0;
    while i < lines.len()
        invariant
            0 <= i <= lines@.len(),
            ls == split_nl(listing@),
            lines@.len() == ls.len(),
            forall|k: int| 0 <= k < lines@.len() ==> (#[trigger] lines@[k])@ == ls[k],
            scan_sink_inputs(ls, None, None) == scan_sink_inputs(
                ls.skip(i as int),
                cur_idx,
                cur_sink,
            ),
        decreases lines@.len() - i,
    {
        let ghost pre_idx = cur_idx;
        let ghost pre_sink = cur_sink;
        let ghost suffix = ls.skip(i as int);
        let l = trim_bytes(lines[i].as_slice());
        proof {
            assert(suffix.first() == ls[i as int]);
            assert(suffix.drop_first() =~= ls.skip(i + 1));
            assert(l@ == trimmed(suffix.first()));
        }
        let si_prefix: &[u8] = "Sink Input #".as_bytes();
        let s_prefix: &[u8] = "Sink: ".as_bytes();
        if starts_with_bytes(l.as_slice(), si_prefix) {
            let rest = slice_subrange(l.as_slice(), si_prefix.len(), l.len());
            proof {
                assert(rest@ =~= l@.skip(sink_input_prefix().len() as int));
            }
            cur_idx = parse_u32(rest);
            cur_sink = None;
            proof {
                assert(scan_sink_inputs(suffix, pre_idx, pre_sink) == scan_sink_inputs(
                    ls.skip(i + 1),
                    cur_idx,
                    cur_sink,
                ));
            }
        } else if starts_with_bytes(l.as_slice(), s_prefix) {
            let rest = slice_subrange(l.as_slice(), s_prefix.len(), l.len());
            proof {
                assert(rest@ =~= l@.skip(sink_prefix().len() as int));
            }
            let rest_t = trim_bytes(rest);
            cur_sink = parse_u32(rest_t.as_slice());
            proof {
                assert(scan_sink_inputs(suffix, pre_idx, pre_sink) == scan_sink_inputs(
                    ls.skip(i + 1),
                    cur_idx,
                    cur_sink,
                ));
            }
        } else {
            let mut matched: bool = false;
            if contains_bytes(l.as_slice(), "application.name".as_bytes()) {
                let ll = to_lower(l.as_slice());
                if contains_bytes(ll.as_slice(), "discord".as_bytes()) {
                    matched = true;
                    match (cur_idx, cur_sink) {
                        (Some(a), Some(b)) => {
                            proof {
                                assert(scan_sink_inputs(suffix, pre_idx, pre_sink) == Some(
                                    (a, b),
                                ));
                            }
                            return Some((a, b));
                        },
                        _ => {},
                    }
                }
            }
            proof {
                assert(scan_sink_inputs(suffix, pre_idx, pre_sink) == scan_sink_inputs(
                    ls.skip(i + 1),
                    cur_idx,
                    cur_sink,
                ));
            }
        }
        i = i + 1;
    }
    proof {
        assert(ls.skip(ls.len() as int) =~= Seq::<Seq<u8>>::empty());
    }
    None
}

/// Scoped record of a temporary routing change: the modules that were
/// loaded and where the application's stream came from, so that every
/// change can be reversed.
pub struct DiscordRouting {
    /// Module id of the private null sink created for capture.
    pub null_sink_module: u32,
    /// Module id of the loopback that keeps the audio audible, or 0 when
    /// none could be created.
    pub loopback_module: u32,
    /// The application's sink-input index.
    pub sink_input_idx: u32,
    /// The sink the application played on before rerouting.
    pub original_sink: u32,
}

impl DiscordRouting {
    pub fn new(
        null_sink_module: u32,
        loopback_module: u32,
        sink_input_idx: u32,
        original_sink: u32,
    ) -> (r: DiscordRouting)
        ensures
            r.null_sink_module == null_sink_module,
            r.loopback_module == loopback_module,
            r.sink_input_idx == sink_input_idx,
            r.original_sink == original_sink,
    {
        DiscordRouting { null_sink_module, loopback_module, sink_input_idx, original_sink }
    }

    /// The monitor source that captures what the private sink plays.
    pub fn monitor_source(&self) -> (r: &'static str)
        ensures
            r@ == "discrec_capture.monitor"@,
    {
        "discrec_capture.monitor"
    }

    /// The commands that reverse the routing change, in reverse creation
    /// order: move the application back to its original sink, unload the
    /// loopback (when one was created), then unload the null sink.  Every
    /// step must be attempted even if an earlier one fails.
    pub fn teardown_steps(&self) -> (r: Vec<Vec<String>>)
        ensures
            r@.len() == (if self.loopback_module != 0 {
                3int
            } else {
                2int
            }),
            r@[0]@.len() == 3,
            r@[0]@[0]@ == "move-sink-input"@,
            r@[0]@[1]@ == dec_digits(self.sink_input_idx as nat),
            r@[0]@[2]@ == dec_digits(self.original_sink as nat),
            self.loopback_module != 0 ==> r@[1]@.len() == 2 && r@[1]@[0]@ == "unload-module"@
                && r@[1]@[1]@ == dec_digits(self.loopback_module as nat),
            r@.last()@.len() == 2 && r@.last()@[0]@ == "unload-module"@ && r@.last()@[1]@
                == dec_digits(self.null_sink_module as nat),
    {
        let mut steps: Vec<Vec<String>> = Vec::new();
        let mut restore: Vec<String> = Vec::new();
        restore.push(String::from_str("move-sink-input"));
        restore.push(decimal_string(self.sink_input_idx as u64));
        restore.push(decimal_string(self.original_sink as u64));
        steps.push(restore);
        if self.loopback_module != 0 {
            steps.push(unload_module_args(self.loopback_module));
        }
        steps.push(unload_module_args(self.null_sink_module));
        steps
    }
}

/// The command that creates the private capture sink.
pub fn null_sink_args() -> (r: Vec<String>)
    ensures
        r@.len() == 6,
        r@[0]@ == "load-module"@,
        r@[1]@ == "module-null-sink"@,
        r@[2]@ == "sink_name=discrec_capture"@,
        r@[3]@ == "sink_properties=device.description=DiscRec"@,
        r@[4]@ == "rate=48000"@,
        r@[5]@ == "channels=2"@,
{
    let mut r: Vec<String> = Vec::new();
    r.push(String::from_str("load-module"));
    r.push(String::from_str("module-null-sink"));
    r.push(String::from_str("sink_name=discrec_capture"));
    r.push(String::from_str("sink_properties=device.description=DiscRec"));
    r.push(String::from_str("rate=48000"));
    r.push(String::from_str("channels=2"));
    r
}

/// The command that keeps the rerouted audio audible to the user.
pub fn loopback_args() -> (r: Vec<String>)
    ensures
        r@.len() == 4,
        r@[0]@ == "load-module"@,
        r@[1]@ == "module-loopback"@,
        r@[2]@ == "source=discrec_capture.monitor"@,
        r@[3]@ == "latency_msec=1"@,
{
    let mut r: Vec<String> = Vec::new();
    r.push(String::from_str("load-module"));
    r.push(String::from_str("module-loopback"));
    r.push(String::from_str("source=discrec_capture.monitor"));
    r.push(String::from_str("latency_msec=1"));
    r
}

/// The command that moves the application's stream onto the capture sink.
pub fn move_to_capture_args(sink_input_idx: u32) -> (r: Vec<String>)
    ensures
        r@.len() == 3,
        r@[0]@ == "move-sink-input"@,
        r@[1]@ == dec_digits(sink_input_idx as nat),
        r@[2]@ == "discrec_capture"@,
{
    let mut r: Vec<String> = Vec::new();
    r.push(String::from_str("move-sink-input"));
    r.push(decimal_string(sink_input_idx as u64));
    r.push(String::from_str("discrec_capture"));
    r
}

/// The commands that unwind a partially built routing change when moving
/// the stream fails: unload the loopback (when one was created), then the
/// null sink — reverse creation order, every step attempted.
pub fn setup_unwind_steps(null_sink_module: u32, loopback_module: Option<u32>) -> (r: Vec<
    Vec<String>,
>)
    ensures
        r@.len() == (if loopback_module is Some {
            2int
        } else {
            1int
        }),
        loopback_module matches Some(lb) ==> r@[0]@.len() == 2 && r@[0]@[0]@ == "unload-module"@
            && r@[0]@[1]@ == dec_digits(lb as nat),
        r@.last()@.len() == 2 && r@.last()@[0]@ == "unload-module"@ && r@.last()@[1]@ == dec_digits(
            null_sink_module as nat,
        ),
{
    let mut steps: Vec<Vec<String>> = Vec::new();
    match loopback_module {
        Some(lb) => {
            steps.push(unload_module_args(lb));
        },
        None => {},
    }
    steps.push(unload_module_args(null_sink_module));
    steps
}

/// The command that unloads one temporary module.
pub fn unload_module_args(module: u32) -> (r: Vec<String>)
    ensures
        r@.len() == 2,
        r@[0]@ == "unload-module"@,
        r@[1]@ == dec_digits(module as nat),
{
    let mut r: Vec<String> = Vec::new();
    r.push(String::from_str("unload-module"));
    r.push(decimal_string(module as u64));
    r
}

/// Read a module id from the tool's output, as the tool prints it: the
/// number on a line of its own, surrounding whitespace ignored.
pub fn parse_module_id(output: &[u8]) -> (r: Option<u32>)
    ensures
        r == parsed_u32(trimmed(output@)),
{
    let t = trim_bytes(output);
    parse_u32(t.as_slice())
}

} // verus!
