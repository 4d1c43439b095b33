//! Target-process selection.
//!
//! The per-process capture path records one application's audio tree, so
//! the engine must pick the right process: among the known executable
//! names, tried in order, the lowest-pid process whose name contains the
//! candidate wins, and its parent (the tree root) is captured when one is
//! known.

use vstd::prelude::*;
use vstd::string::StringSliceAdditionalSpecFns;
use crate::text::{contains_bytes, contains_seq};

verus! {

/// One running process, as the process enumerator reports it.
pub struct ProcessEntry {
    pub pid: u32,
    pub parent: Option<u32>,
    pub name: String,
}

/// The executable names that identify the target application, in the
/// order they are tried.
pub open spec fn candidate_name(k: int) -> Seq<u8> {
    if k == 0 {
        "Discord.exe".spec_bytes()
    } else if k == 1 {
        "discord.exe".spec_bytes()
    } else if k == 2 {
        "DiscordPTB.exe".spec_bytes()
    } else {
        "DiscordCanary.exe".spec_bytes()
    }
}

/// Whether a process's name contains the candidate name (the process
/// enumerator matches by substring).
pub open spec fn entry_matches(e: ProcessEntry, cand: Seq<u8>) -> bool {
    contains_seq(vstd::utf8::encode_utf8(e.name@), cand)
}

pub open spec fn any_match(procs: Seq<ProcessEntry>, cand: Seq<u8>) -> bool {
    exists|i: int| 0 <= i < procs.len() && entry_matches(procs[i], cand)
}

/// The first candidate name that any process matches, or 4 when none does.
pub open spec fn first_matching_candidate(procs: Seq<ProcessEntry>) -> int {
    if any_match(procs, candidate_name(0)) {
        0int
    } else if any_match(procs, candidate_name(1)) {
        1int
    } else if any_match(procs, candidate_name(2)) {
        2int
    } else if any_match(procs, candidate_name(3)) {
        3int
    } else {
        4int
    }
}

/// The process-tree root to capture: the parent when one is known, else
/// the process itself.
pub open spec fn parent_or_self(e: ProcessEntry) -> u32 {
    match e.parent {
        Some(p) => p,
        None => e.pid,
    }
}

/// Index of a lowest-pid process whose name contains the candidate.
fn best_match(procs: &Vec<ProcessEntry>, cand: &[u8]) -> (r: Option<usize>)
    ensures
        r is Some <==> any_match(procs@, cand@),
        r matches Some(i) ==> i < procs@.len() && entry_matches(procs@[i as int], cand@) && forall|
            j: int,
        |
            0 <= j < procs@.len() && entry_matches(#[trigger] procs@[j], cand@) ==> procs@[i as int].pid
                <= procs@[j].pid,
{
    let mut best: Option<usize> = None;
    let mut i: usize = 0;
    while i < procs.len()
        invariant
            0 <= i <= procs@.len(),
            best is Some <==> any_match(procs@.take(i as int), cand@),
            best matches Some(b) ==> b < i && entry_matches(procs@[b as int], cand@) && forall|
                j: int,
            |
                0 <= j < i && entry_matches(#[trigger] procs@[j], cand@) ==> procs@[b as int].pid
                    <= procs@[j].pid,
        decreases procs@.len() - i,
    {
        let ghost pre = procs@.take(i as int);
        let ghost pre_best = best;
        let matched = contains_bytes(procs[i].name.as_str().as_bytes(), cand);
        if matched {
            let better = match best {
                Some(b) => procs[i].pid < procs[b].pid,
                None => true,
            };
            if better {
                best = Some(i);
            }
        }
        proof {
            if best is Some {
                let b = best.unwrap() as int;
                assert forall|j: int|
                    0 <= j < i + 1 && entry_matches(#[trigger] procs@[j], cand@) implies procs@[b].pid
                    <= procs@[j].pid by {
                    if j < i {
                        if pre_best is None {
                            assert(pre[j] == procs@[j]);
                            assert(entry_matches(pre[j], cand@));
                            assert(any_match(pre, cand@));
                        }
                    }
                }
            }
            let s1 = procs@.take(i + 1);
            assert(s1[i as int] == procs@[i as int]);
            assert forall|j: int| 0 <= j < i implies s1[j] == procs@[j] && pre[j] == procs@[j] by {
            }
            if matched {
                assert(any_match(s1, cand@));
            } else if any_match(pre, cand@) {
                let q = choose|q: int| 0 <= q < pre.len() && entry_matches(pre[q], cand@);
                assert(entry_matches(s1[q], cand@));
                assert(any_match(s1, cand@));
            } else if any_match(s1, cand@) {
                let q = choose|q: int| 0 <= q < s1.len() && entry_matches(s1[q], cand@);
                if q < i {
                    assert(entry_matches(pre[q], cand@));
                    assert(false);
                } else {
                    assert(entry_matches(procs@[i as int], cand@));
                    assert(false);
                }
            }
        }
        i = i + 1;
    }
    proof {
        assert(procs@.take(procs@.len() as int) =~= procs@);
    }
    best
}

/// Resolve the target application's process-tree root among the running
/// processes: the candidate names are tried in order; the first that any
/// process matches selects the lowest-pid matching process, whose parent
/// (or, failing that, the process itself) is the capture target.  `None`
/// exactly when no process matches any candidate: the application is not
/// running.
pub fn select_target_pid(procs: &Vec<ProcessEntry>) -> (r: Option<u32>)
    ensures
        r is Some <==> first_matching_candidate(procs@) < 4,
        r matches Some(v) ==> exists|i: int|
            0 <= i < procs@.len() && entry_matches(
                #[trigger] procs@[i],
                candidate_name(first_matching_candidate(procs@)),
            ) && (forall|j: int|
                0 <= j < procs@.len() && entry_matches(
                    #[trigger] procs@[j],
                    candidate_name(first_matching_candidate(procs@)),
                ) ==> procs@[i].pid <= procs@[j].pid) && v == parent_or_self(procs@[i]),
{
    match best_match(procs, "Discord.exe".as_bytes()) {
        Some(i) => {
            return Some(target_of(&procs[i]));
        },
        None => {},
    }
    match best_match(procs, "discord.exe".as_bytes()) {
        Some(i) => {
            return Some(target_of(&procs[i]));
        },
        None => {},
    }
    match best_match(procs, "DiscordPTB.exe".as_bytes()) {
        Some(i) => {
            return Some(target_of(&procs[i]));
        },
        None => {},
    }
    match best_match(procs, "DiscordCanary.exe".as_bytes()) {
        Some(i) => {
            return Some(target_of(&procs[i]));
        },
        None => {},
    }
    None
}

fn target_of(e: &ProcessEntry) -> (r: u32)
    ensures
        r == parent_or_self(*e),
{
    match e.parent {
        Some(p) => p,
        None => e.pid,
    }
}

} // verus!
