//! Resource usage of the player: which processes belong to it, and how much
//! memory they hold together.

use vstd::prelude::*;
use crate::text::{chars_of, contains, contains_str, lower, lower_vec};

verus! {

/// Whether a process is one of the player's web views: a web view process
/// started by the player itself, or an Edge web view that was started for the
/// player's executable (names and command lines compared ASCII-case-blind).
pub open spec fn webview_spec(name: Seq<char>, command: Seq<char>, parent: Option<u32>, app_pid: u32) -> bool {
    let n = lower(name);
    let c = lower(command);
    ||| (parent == Some(app_pid) && (contains(n, "webview"@) || contains(n, "msedgewebview2"@)))
    ||| (contains(n, "msedgewebview2"@) && contains(c, "webview-exe-name=aura.exe"@))
}

pub fn is_aura_webview(process_name: &str, command: &str, parent: Option<u32>, app_pid: u32) -> (r: bool)
    ensures
        r == webview_spec(process_name@, command@, parent, app_pid),
{
    let pn = chars_of(process_name);
    let name = lower_vec(pn.as_slice());
    let cv = chars_of(command);
    let cmd = lower_vec(cv.as_slice());
    let own_child = match parent {
        Some(p) => p == app_pid,
        None => false,
    };
    if own_child && (contains_str(name.as_slice(), "webview") || contains_str(name.as_slice(), "msedgewebview2")) {
        return true;
    }
    contains_str(name.as_slice(), "msedgewebview2") && contains_str(cmd.as_slice(), "webview-exe-name=aura.exe")
}

/// One running process, as the system reports it.
pub struct ProcessSample {
    pub pid: u32,
    pub parent: Option<u32>,
    pub name: String,
    pub command: String,
    pub memory: u64,
}

/// Whether a process is the player itself or one of its web views.
pub open spec fn counted(s: ProcessSample, app_pid: u32) -> bool {
    s.pid == app_pid || webview_spec(s.name@, s.command@, s.parent, app_pid)
}

/// Adds without passing `u64::MAX`.
pub open spec fn sat_add(a: u64, b: u64) -> u64 {
    if a + b > u64::MAX { u64::MAX } else { (a + b) as u64 }
}

/// The memory held by the counted processes (adding without overflow), how
/// many processes were counted, and how many of them are web views.
pub open spec fn usage_of(samples: Seq<ProcessSample>, app_pid: u32) -> (u64, nat, nat)
    decreases samples.len(),
{
    if samples.len() == 0 {
        (0, 0, 0)
    } else {
        let (m, p, w) = usage_of(samples.drop_last(), app_pid);
        let s = samples.last();
        if counted(s, app_pid) {
            let web: nat = if webview_spec(s.name@, s.command@, s.parent, app_pid) { 1 } else { 0 };
            (sat_add(m, s.memory), p + 1, w + web)
        } else {
            (m, p, w)
        }
    }
}

proof fn lemma_usage_bounded(samples: Seq<ProcessSample>, app_pid: u32)
    ensures
        usage_of(samples, app_pid).2 <= usage_of(samples, app_pid).1 <= samples.len(),
    decreases samples.len(),
{
    if samples.len() > 0 {
        lemma_usage_bounded(samples.drop_last(), app_pid);
    }
}

/// Memory (bytes), process count and web view count over the player's own
/// processes among `samples`.
pub fn tally_usage(samples: &[ProcessSample], app_pid: u32) -> (r: (u64, usize, usize))
    ensures
        r.0 == usage_of(samples@, app_pid).0,
        r.1 == usage_of(samples@, app_pid).1,
        r.2 == usage_of(samples@, app_pid).2,
{
    let mut memory: u64 = 0;
    let mut processes: usize = 0;
    let mut webviews: usize = 0;
    let mut i: usize = 0;
    while i < samples.len()
        invariant
            i <= samples@.len(),
            (memory, processes as nat, webviews as nat) == usage_of(samples@.subrange(0, i as int), app_pid),
        decreases samples@.len() - i,
    {
        let s = &samples[i];
        proof {
            assert(samples@.subrange(0, i + 1).drop_last() =~= samples@.subrange(0, i as int));
            lemma_usage_bounded(samples@.subrange(0, i as int), app_pid);
        }
        let web = is_aura_webview(s.name.as_str(), s.command.as_str(), s.parent, app_pid);
        if s.pid == app_pid || web {
            processes += 1;
            if web {
                webviews += 1;
            }
            memory = memory.saturating_add(s.memory);
        }
        i += 1;
    }
    assert(samples@.subrange(0, samples@.len() as int) =~= samples@);
    (memory, processes, webviews)
}

} // verus!
