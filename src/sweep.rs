//! Termination sweep: which processes to signal, read from an OS process
//! listing or from the workload logs, and the stop marker that closes a sweep.
use vstd::prelude::*;
use crate::text::{
    find_from, is_digit, lemma_decimal_digits, lemma_digit_run_to_end, run_end, CharClass,
    contains, contains_str, decimal, decimal_string, nth_token, number_after, number_after_str,
    occurs_at, parse_u32, string_views, token_u32,
};

verus! {

/// The text a workload writes at startup, followed by its process id, so
/// that a later sweep can find it in the workload's log.
pub const PID_MARKER: &'static str = "workload pid:";

/// Name prefix of the per-workload log files.
pub const LOG_PREFIX: &'static str = "miner_";

/// Extension of the per-workload log files.
pub const LOG_SUFFIX: &'static str = ".log";

/// How the operating system lists processes and names executables.
#[derive(Clone, Copy, PartialEq, Eq, Debug)]
pub enum Platform {
    /// `ps -e`: the process id is the first column.
    Unix,
    /// `tasklist`: the process id is the second column.
    Windows,
}

/// How a sweep picks its targets.
#[derive(Clone, Copy, PartialEq, Eq, Debug)]
pub enum TerminateMode {
    /// Every running process whose listing line names the workload executable.
    KillAll,
    /// Only processes recorded in the workload logs that are still running.
    RegistryScoped,
}

pub open spec fn pid_column_spec(p: Platform) -> nat {
    match p {
        Platform::Unix => 0,
        Platform::Windows => 1,
    }
}

/// The column of a process listing that holds the process id.
pub fn pid_column(p: Platform) -> (r: usize)
    ensures
        r == pid_column_spec(p),
{
    match p {
        Platform::Unix => 0,
        Platform::Windows => 1,
    }
}

/// The name under which the workload executable shows in a process listing.
pub fn workload_executable(p: Platform) -> (r: &'static str)
    ensures
        r@ == executable_spec(p),
{
    match p {
        Platform::Unix => "bitz",
        Platform::Windows => "bitz.exe",
    }
}

/// The process id that a listing line shows in `column`.
pub open spec fn listed_pid(line: Seq<char>, column: nat) -> Option<u32> {
    match nth_token(line, column) {
        Some(t) => parse_u32(t),
        None => None,
    }
}

/// Whether a listing line is a target of a kill-all sweep.
pub open spec fn kill_all_hit(line: Seq<char>, exe: Seq<char>, column: nat, own: u32) -> bool {
    contains(line, exe) && listed_pid(line, column) is Some && listed_pid(line, column)->0 != own
}

/// The targets of a kill-all sweep, in listing order: the process ids of
/// the lines that name the workload executable, leaving out the sweeping
/// process itself.
pub open spec fn kill_all_pids(lines: Seq<Seq<char>>, exe: Seq<char>, column: nat, own: u32) -> Seq<u32>
    decreases lines.len(),
{
    if lines.len() == 0 {
        Seq::empty()
    } else {
        let rest = kill_all_pids(lines.drop_last(), exe, column, own);
        if kill_all_hit(lines.last(), exe, column, own) {
            rest.push(listed_pid(lines.last(), column)->0)
        } else {
            rest
        }
    }
}

/// Every process id that a listing shows, in listing order.
pub open spec fn listed_pids(lines: Seq<Seq<char>>, column: nat) -> Seq<u32>
    decreases lines.len(),
{
    if lines.len() == 0 {
        Seq::empty()
    } else {
        let rest = listed_pids(lines.drop_last(), column);
        match listed_pid(lines.last(), column) {
            Some(p) => rest.push(p),
            None => rest,
        }
    }
}

/// The process id recorded in a workload log: the first line that holds
/// the marker followed by a number.
pub open spec fn log_pid_spec(lines: Seq<Seq<char>>, marker: Seq<char>) -> Option<u32>
    decreases lines.len(),
{
    if lines.len() == 0 {
        None
    } else if number_after(lines[0], marker) is Some {
        number_after(lines[0], marker)
    } else {
        log_pid_spec(lines.drop_first(), marker)
    }
}

/// The recorded process ids that a fresh listing still shows, in order.
pub open spec fn live_pids(recorded: Seq<u32>, running: Seq<u32>) -> Seq<u32>
    decreases recorded.len(),
{
    if recorded.len() == 0 {
        Seq::empty()
    } else {
        let rest = live_pids(recorded.drop_last(), running);
        if running.contains(recorded.last()) {
            rest.push(recorded.last())
        } else {
            rest
        }
    }
}

/// The number of `true` entries.
pub open spec fn count_true(s: Seq<bool>) -> nat
    decreases s.len(),
{
    if s.len() == 0 {
        0
    } else {
        count_true(s.drop_last()) + if s.last() { 1nat } else { 0nat }
    }
}

/// Whether `name` follows the naming convention of the workload logs.
pub open spec fn is_workload_log_spec(name: Seq<char>) -> bool {
    occurs_at(name, LOG_PREFIX@, 0) && name.len() >= LOG_SUFFIX@.len() + LOG_PREFIX@.len()
        && occurs_at(name, LOG_SUFFIX@, name.len() - LOG_SUFFIX@.len())
}

/// The text of the stop marker written at the end of a sweep.
pub open spec fn stop_marker_spec(timestamp: Seq<char>, killed: nat) -> Seq<char> {
    "mining stopped at "@ + timestamp + ", processes terminated: "@ + decimal(killed)
}

fn listed_pid_exec(line: &str, column: usize) -> (r: Option<u32>)
    ensures
        r == listed_pid(line@, column as nat),
{
    token_u32(line, column)
}

/// The targets of a kill-all sweep over the lines of a process listing:
/// the process ids of the lines that name `exe`, except `own`.
pub fn kill_all_targets(lines: &Vec<String>, exe: &str, column: usize, own: u32) -> (r: Vec<u32>)
    ensures
        r@ == kill_all_pids(string_views(lines@), exe@, column as nat, own),
{
    let mut out: Vec<u32> = Vec::new();
    let mut i: usize = 0;
    while i < lines.len()
        invariant
            i <= lines@.len(),
            out@ == kill_all_pids(string_views(lines@).subrange(0, i as int), exe@, column as nat, own),
        decreases lines@.len() - i,
    {
        let line = lines[i].as_str();
        let ghost prefix = string_views(lines@).subrange(0, i as int + 1);
        assert(prefix.drop_last() =~= string_views(lines@).subrange(0, i as int));
        assert(prefix.last() == line@);
        if contains_str(line, exe) {
            match listed_pid_exec(line, column) {
                Some(pid) => {
                    if pid != own {
                        out.push(pid);
                    }
                },
                None => {},
            }
        }
        i = i + 1;
    }
    assert(string_views(lines@).subrange(0, i as int) =~= string_views(lines@));
    out
}

/// Every process id that the lines of a process listing show.
pub fn running_pids(lines: &Vec<String>, column: usize) -> (r: Vec<u32>)
    ensures
        r@ == listed_pids(string_views(lines@), column as nat),
{
    let mut out: Vec<u32> = Vec::new();
    let mut i: usize = 0;
    while i < lines.len()
        invariant
            i <= lines@.len(),
            out@ == listed_pids(string_views(lines@).subrange(0, i as int), column as nat),
        decreases lines@.len() - i,
    {
        let line = lines[i].as_str();
        let ghost prefix = string_views(lines@).subrange(0, i as int + 1);
        assert(prefix.drop_last() =~= string_views(lines@).subrange(0, i as int));
        assert(prefix.last() == line@);
        match listed_pid_exec(line, column) {
            Some(pid) => out.push(pid),
            None => {},
        }
        i = i + 1;
    }
    assert(string_views(lines@).subrange(0, i as int) =~= string_views(lines@));
    out
}

/// The process id recorded in the lines of a workload log.
pub fn log_pid(lines: &Vec<String>) -> (r: Option<u32>)
    ensures
        r == log_pid_spec(string_views(lines@), PID_MARKER@),
{
    let mut i: usize = 0;
    assert(string_views(lines@).subrange(0, lines@.len() as int) =~= string_views(lines@));
    while i < lines.len()
        invariant
            i <= lines@.len(),
            log_pid_spec(string_views(lines@), PID_MARKER@) == log_pid_spec(
                string_views(lines@).subrange(i as int, lines@.len() as int),
                PID_MARKER@,
            ),
        decreases lines@.len() - i,
    {
        let ghost rest = string_views(lines@).subrange(i as int, lines@.len() as int);
        assert(rest[0] == lines@[i as int]@);
        assert(rest.drop_first() =~= string_views(lines@).subrange(i as int + 1, lines@.len() as int));
        let found = number_after_str(lines[i].as_str(), PID_MARKER);
        if found.is_some() {
            return found;
        }
        i = i + 1;
    }
    None
}

/// The recorded process ids that a fresh listing still shows.
pub fn live_targets(recorded: &Vec<u32>, running: &Vec<u32>) -> (r: Vec<u32>)
    ensures
        r@ == live_pids(recorded@, running@),
{
    let mut out: Vec<u32> = Vec::new();
    let mut i: usize = 0;
    while i < recorded.len()
        invariant
            i <= recorded@.len(),
            out@ == live_pids(recorded@.subrange(0, i as int), running@),
        decreases recorded@.len() - i,
    {
        let pid = recorded[i];
        assert(recorded@.subrange(0, i as int + 1).drop_last() =~= recorded@.subrange(0, i as int));
        let mut j: usize = 0;
        let mut seen = false;
        while j < running.len()
            invariant
                j <= running@.len(),
                seen == exists|k: int| 0 <= k < j && running@[k] == pid,
            decreases running@.len() - j,
        {
            if running[j] == pid {
                seen = true;
            }
            j = j + 1;
        }
        if seen {
            out.push(pid);
        }
        i = i + 1;
    }
    assert(recorded@.subrange(0, i as int) =~= recorded@);
    out
}

/// The process ids recorded in a set of workload logs, one per log that
/// holds a marker, in the order of the logs.
pub open spec fn recorded_pids(logs: Seq<Seq<Seq<char>>>) -> Seq<u32>
    decreases logs.len(),
{
    if logs.len() == 0 {
        Seq::empty()
    } else {
        let rest = recorded_pids(logs.drop_last());
        match log_pid_spec(logs.last(), PID_MARKER@) {
            Some(p) => rest.push(p),
            None => rest,
        }
    }
}

pub open spec fn log_views(logs: Seq<Vec<String>>) -> Seq<Seq<Seq<char>>> {
    logs.map_values(|l: Vec<String>| string_views(l@))
}

/// The executable name a platform lists the workload under.
pub open spec fn executable_spec(p: Platform) -> Seq<char> {
    match p {
        Platform::Unix => "bitz"@,
        Platform::Windows => "bitz.exe"@,
    }
}

/// The targets of a sweep, from a fresh process listing and the lines of
/// each workload log; `own` is the sweeping process, which is never a target.
pub open spec fn sweep_targets_spec(
    mode: TerminateMode,
    p: Platform,
    listing: Seq<Seq<char>>,
    logs: Seq<Seq<Seq<char>>>,
    own: u32,
) -> Seq<u32> {
    match mode {
        TerminateMode::KillAll => kill_all_pids(listing, executable_spec(p), pid_column_spec(p), own),
        TerminateMode::RegistryScoped => live_pids(
            recorded_pids(logs),
            listed_pids(listing, pid_column_spec(p)),
        ),
    }
}

/// The process ids recorded in a set of workload logs.
pub fn log_pids(logs: &Vec<Vec<String>>) -> (r: Vec<u32>)
    ensures
        r@ == recorded_pids(log_views(logs@)),
{
    let mut out: Vec<u32> = Vec::new();
    let mut i: usize = 0;
    while i < logs.len()
        invariant
            i <= logs@.len(),
            out@ == recorded_pids(log_views(logs@).subrange(0, i as int)),
        decreases logs@.len() - i,
    {
        let ghost prefix = log_views(logs@).subrange(0, i as int + 1);
        assert(prefix.drop_last() =~= log_views(logs@).subrange(0, i as int));
        assert(prefix.last() == string_views(logs@[i as int]@));
        match log_pid(&logs[i]) {
            Some(pid) => out.push(pid),
            None => {},
        }
        i = i + 1;
    }
    assert(log_views(logs@).subrange(0, i as int) =~= log_views(logs@));
    out
}

/// Decides which processes a sweep signals.
pub fn sweep_targets(
    mode: TerminateMode,
    p: Platform,
    listing: &Vec<String>,
    logs: &Vec<Vec<String>>,
    own: u32,
) -> (r: Vec<u32>)
    ensures
        r@ == sweep_targets_spec(mode, p, string_views(listing@), log_views(logs@), own),
{
    let column = pid_column(p);
    match mode {
        TerminateMode::KillAll => kill_all_targets(listing, workload_executable(p), column, own),
        TerminateMode::RegistryScoped => {
            let recorded = log_pids(logs);
            let running = running_pids(listing, column);
            live_targets(&recorded, &running)
        },
    }
}

/// Whether `name` follows the naming convention of the workload logs.
pub fn is_workload_log(name: &str) -> (r: bool)
    ensures
        r == is_workload_log_spec(name@),
{
    let n = name.unicode_len();
    let p = LOG_PREFIX.unicode_len();
    let q = LOG_SUFFIX.unicode_len();
    if n < p || n - p < q {
        return false;
    }
    let head = name.substring_char(0, p);
    let tail = name.substring_char(n - q, n);
    let r = head.unicode_len() == p && contains_str(head, LOG_PREFIX) && contains_str(tail, LOG_SUFFIX);
    proof {
        assert(head@ == name@.subrange(0, p as int));
        crate::text::lemma_contains_same_length(head@, LOG_PREFIX@);
        crate::text::lemma_contains_same_length(tail@, LOG_SUFFIX@);
    }
    r
}

/// The marker line through which a workload records its process id.
pub fn pid_marker_line(pid: u32) -> (r: String)
    ensures
        r@ == PID_MARKER@ + " "@ + decimal(pid as nat),
{
    let mut r = String::from_str(PID_MARKER);
    r.append(" ");
    let digits = decimal_string(pid as u64);
    r.append(digits.as_str());
    r
}

/// What a sweep leaves behind: how many processes it killed, and the text
/// of its stop marker.
pub struct SweepSummary {
    pub killed: u64,
    pub marker: String,
}

/// Closes a sweep: counts the kills that succeeded and words the stop marker.
pub fn summarize_sweep(timestamp: &str, kill_results: &Vec<bool>) -> (r: SweepSummary)
    ensures
        r.killed == count_true(kill_results@),
        r.marker@ == stop_marker_spec(timestamp@, r.killed as nat),
{
    let mut killed: u64 = 0;
    let mut i: usize = 0;
    while i < kill_results.len()
        invariant
            i <= kill_results@.len(),
            killed == count_true(kill_results@.subrange(0, i as int)),
            killed <= i,
        decreases kill_results@.len() - i,
    {
        assert(kill_results@.subrange(0, i as int + 1).drop_last() =~= kill_results@.subrange(
            0,
            i as int,
        ));
        if kill_results[i] {
            killed = killed + 1;
        }
        i = i + 1;
    }
    assert(kill_results@.subrange(0, i as int) =~= kill_results@);
    let mut marker = String::from_str("mining stopped at ");
    marker.append(timestamp);
    marker.append(", processes terminated: ");
    let digits = decimal_string(killed);
    marker.append(digits.as_str());
    SweepSummary { killed, marker }
}

/// Whether some line of a listing names `exe` and shows `pid`.
pub open spec fn shown_with_name(lines: Seq<Seq<char>>, exe: Seq<char>, column: nat, pid: u32) -> bool {
    exists|i: int|
        0 <= i < lines.len() && contains(#[trigger] lines[i], exe) && listed_pid(lines[i], column)
            == Some(pid)
}

/// A kill-all sweep targets only processes whose listing line names the
/// workload executable, and never the sweeping process itself.
pub proof fn kill_all_targets_name_the_workload(
    lines: Seq<Seq<char>>,
    exe: Seq<char>,
    column: nat,
    own: u32,
)
    ensures
        forall|k: int|
            0 <= k < kill_all_pids(lines, exe, column, own).len() ==> shown_with_name(
                lines,
                exe,
                column,
                #[trigger] kill_all_pids(lines, exe, column, own)[k],
            ) && kill_all_pids(lines, exe, column, own)[k] != own,
    decreases lines.len(),
{
    if lines.len() > 0 {
        let rest = lines.drop_last();
        kill_all_targets_name_the_workload(rest, exe, column, own);
        let pids = kill_all_pids(lines, exe, column, own);
        let rp = kill_all_pids(rest, exe, column, own);
        assert forall|k: int| 0 <= k < pids.len() implies shown_with_name(
            lines,
            exe,
            column,
            #[trigger] pids[k],
        ) && pids[k] != own by {
            if k < rp.len() {
                assert(pids[k] == rp[k]);
                assert(shown_with_name(rest, exe, column, rp[k]));
                let i = choose|i: int|
                    0 <= i < rest.len() && contains(#[trigger] rest[i], exe) && listed_pid(
                        rest[i],
                        column,
                    ) == Some(rp[k]);
                assert(lines[i] == rest[i]);
            } else {
                let i = lines.len() - 1;
                assert(lines[i] == lines.last());
                assert(kill_all_hit(lines.last(), exe, column, own));
                assert(contains(lines[i], exe) && listed_pid(lines[i], column) == Some(pids[k]));
            }
        }
    }
}

/// A registry-scoped sweep targets only process ids that the logs record
/// and that a fresh process listing still shows.
pub proof fn registry_targets_are_running(recorded: Seq<u32>, running: Seq<u32>)
    ensures
        forall|k: int|
            0 <= k < live_pids(recorded, running).len() ==> running.contains(
                #[trigger] live_pids(recorded, running)[k],
            ) && recorded.contains(live_pids(recorded, running)[k]),
    decreases recorded.len(),
{
    if recorded.len() > 0 {
        let rest = recorded.drop_last();
        registry_targets_are_running(rest, running);
        let live = live_pids(recorded, running);
        assert forall|k: int| 0 <= k < live.len() implies running.contains(#[trigger] live[k])
            && recorded.contains(live[k]) by {
            if k < live_pids(rest, running).len() {
                let j = choose|j: int| 0 <= j < rest.len() && rest[j] == live[k];
                assert(recorded[j] == rest[j]);
            } else {
                assert(recorded[recorded.len() - 1] == live[k]);
            }
        }
    }
}

/// Whatever the mode, a sweep never targets a process unrelated to the
/// workload: a kill-all sweep only processes listed under the workload's
/// executable name (never itself), a registry-scoped sweep only processes
/// that a log records and the fresh listing still shows.
pub proof fn sweep_targets_are_workloads(
    mode: TerminateMode,
    p: Platform,
    listing: Seq<Seq<char>>,
    logs: Seq<Seq<Seq<char>>>,
    own: u32,
)
    ensures
        forall|k: int|
            0 <= k < sweep_targets_spec(mode, p, listing, logs, own).len() ==> {
                let pid = #[trigger] sweep_targets_spec(mode, p, listing, logs, own)[k];
                match mode {
                    TerminateMode::KillAll => shown_with_name(
                        listing,
                        executable_spec(p),
                        pid_column_spec(p),
                        pid,
                    ) && pid != own,
                    TerminateMode::RegistryScoped => recorded_pids(logs).contains(pid) && listed_pids(
                        listing,
                        pid_column_spec(p),
                    ).contains(pid),
                }
            },
{
    kill_all_targets_name_the_workload(listing, executable_spec(p), pid_column_spec(p), own);
    registry_targets_are_running(recorded_pids(logs), listed_pids(listing, pid_column_spec(p)));
}

proof fn lemma_live_pids_none_running(recorded: Seq<u32>, running: Seq<u32>)
    requires
        forall|k: int| 0 <= k < recorded.len() ==> !running.contains(#[trigger] recorded[k]),
    ensures
        live_pids(recorded, running).len() == 0,
    decreases recorded.len(),
{
    if recorded.len() > 0 {
        let rest = recorded.drop_last();
        assert forall|k: int| 0 <= k < rest.len() implies !running.contains(#[trigger] rest[k]) by {
            assert(rest[k] == recorded[k]);
        }
        lemma_live_pids_none_running(rest, running);
        assert(!running.contains(recorded[recorded.len() - 1]));
    }
}

proof fn lemma_count_true_bound(s: Seq<bool>)
    ensures
        count_true(s) <= s.len(),
    decreases s.len(),
{
    if s.len() > 0 {
        lemma_count_true_bound(s.drop_last());
    }
}

/// When none of the recorded processes is running any more, a
/// registry-scoped sweep has no target, kills nothing, and its stop marker
/// reports zero terminated processes.
pub proof fn idle_sweep_kills_nothing(
    recorded: Seq<u32>,
    running: Seq<u32>,
    timestamp: Seq<char>,
    kill_results: Seq<bool>,
)
    requires
        forall|k: int| 0 <= k < recorded.len() ==> !running.contains(#[trigger] recorded[k]),
        kill_results.len() == live_pids(recorded, running).len(),
    ensures
        live_pids(recorded, running).len() == 0,
        count_true(kill_results) == 0,
        stop_marker_spec(timestamp, count_true(kill_results)) == stop_marker_spec(timestamp, 0),
{
    lemma_live_pids_none_running(recorded, running);
    lemma_count_true_bound(kill_results);
}

/// The marker line that a workload writes names its own process id: a
/// sweep reading that line, first in its log, finds that process id.
pub proof fn marker_line_names_its_pid(pid: u32, later: Seq<Seq<char>>)
    ensures
        number_after(PID_MARKER@ + " "@ + decimal(pid as nat), PID_MARKER@) == Some(pid),
        log_pid_spec(seq![PID_MARKER@ + " "@ + decimal(pid as nat)] + later, PID_MARKER@) == Some(
            pid,
        ),
{
    let m = PID_MARKER@;
    let ml = m.len() as int;
    let d = decimal(pid as nat);
    let s = m + " "@ + d;
    reveal_strlit(" ");
    lemma_decimal_digits(pid as nat);
    assert(s.subrange(0, ml) =~= m);
    assert(occurs_at(s, m, 0));
    assert(find_from(s, m, 0) == Some(0int));
    assert(s[ml] == ' ');
    assert(s[ml + 1] == d[0]);
    assert(is_digit(d[0]));
    assert(run_end(s, ml + 1, CharClass::Space) == ml + 1);
    assert(run_end(s, ml, CharClass::Space) == ml + 1);
    assert forall|k: int| ml + 1 <= k < s.len() implies is_digit(#[trigger] s[k]) by {
        assert(s[k] == d[k - ml - 1]);
    }
    lemma_digit_run_to_end(s, ml + 1);
    assert(s.subrange(ml + 1, s.len() as int) =~= d);
    let lines = seq![s] + later;
    assert(lines[0] == s);
}

} // verus!
