//! Launch pass: the command line of each workload, the registry artifacts
//! it writes, and the process records of the workloads that started.
use vstd::prelude::*;
use crate::sweep::{is_workload_log_spec, LOG_PREFIX, LOG_SUFFIX};
use crate::text::{decimal, decimal_string, parse_u64, parse_u64_str, string_views};

verus! {

/// The directory that holds the registry artifacts.
pub const LOG_DIR: &'static str = "logs";

/// How many cores a workload uses: every available core for `ALL`, the
/// number given otherwise, and one core when the text is not a number.
pub open spec fn core_count_spec(cores: Seq<char>, available: u64) -> u64 {
    if cores == "ALL"@ {
        available
    } else {
        match parse_u64(cores) {
            Some(n) => n,
            None => 1,
        }
    }
}

/// Reads the core setting of a workload against the cores available.
pub fn core_count(cores: &str, available: u64) -> (r: u64)
    ensures
        r == core_count_spec(cores@, available),
{
    let all = "ALL";
    let is_all = cores.unicode_len() == 3 && crate::text::contains_str(cores, all);
    proof {
        reveal_strlit("ALL");
        if cores@.len() == 3 {
            crate::text::lemma_contains_same_length(cores@, all@);
        }
    }
    if is_all {
        available
    } else {
        match parse_u64_str(cores) {
            Some(n) => n,
            None => 1,
        }
    }
}

/// Relies on `num_cpus::get`: the number of logical cores this process may
/// use. It depends on the machine, so nothing is stated of it.
#[verifier::external_body]
fn available_cores() -> (r: u64) {
    num_cpus::get() as u64
}

/// The cores a workload asked for, resolved on this machine.
pub struct CoreSetting {
    pub requested: u64,
    pub available: u64,
}

/// Resolves a core setting against the cores this machine offers; the
/// caller warns when more are requested than are available.
pub fn resolve_cores(cores: &str) -> (r: CoreSetting)
    ensures
        r.requested == core_count_spec(cores@, r.available),
{
    let available = available_cores();
    CoreSetting { requested: core_count(cores, available), available }
}

/// The configuration shared by every workload of a launch pass.
pub struct WorkloadConfig {
    pub cores: String,
    pub buffer_time: u64,
    pub rpc_url: String,
    pub pool_url: Option<String>,
    pub device_id: Option<u64>,
    pub priority_fee: Option<u64>,
    pub fee_private_key: Option<String>,
    pub verbose: bool,
    pub dynamic_fee: bool,
    pub dynamic_fee_url: Option<String>,
}

/// The leading arguments: the subcommand, the identity and the settings
/// that every workload receives.
pub open spec fn base_args(c: WorkloadConfig, key: Seq<char>) -> Seq<Seq<char>> {
    seq![
        "collect"@,
        "--cores"@,
        c.cores@,
        "--buffer-time"@,
        decimal(c.buffer_time as nat),
        "--private-key"@,
        key,
        "--rpc"@,
        c.rpc_url@,
    ]
}

/// The pool arguments; the device id goes only with a pool.
pub open spec fn pool_args(c: WorkloadConfig) -> Seq<Seq<char>> {
    match c.pool_url {
        Some(url) => seq!["--pool-url"@, url@] + match c.device_id {
            Some(d) => seq!["--device-id"@, decimal(d as nat)],
            None => Seq::empty(),
        },
        None => Seq::empty(),
    }
}

/// The fee arguments: priority fee, fee payer and dynamic fee settings.
pub open spec fn fee_args(c: WorkloadConfig) -> Seq<Seq<char>> {
    let priority = match c.priority_fee {
        Some(fee) => seq!["--priority-fee"@, decimal(fee as nat)],
        None => Seq::empty(),
    };
    let payer = match c.fee_private_key {
        Some(k) => seq!["--fee-private-key"@, k@],
        None => Seq::empty(),
    };
    priority + payer
}

pub open spec fn verbose_args(c: WorkloadConfig) -> Seq<Seq<char>> {
    if c.verbose {
        seq!["--verbose"@]
    } else {
        Seq::empty()
    }
}

/// The dynamic fee arguments; its URL goes only with the switch.
pub open spec fn dynamic_fee_args(c: WorkloadConfig) -> Seq<Seq<char>> {
    if c.dynamic_fee {
        seq!["--dynamic-fee"@] + match c.dynamic_fee_url {
            Some(url) => seq!["--dynamic-fee-url"@, url@],
            None => Seq::empty(),
        }
    } else {
        Seq::empty()
    }
}

/// The arguments that start one workload for the identity whose private key
/// is `key`: the shared configuration forwarded verbatim.
pub open spec fn workload_args_spec(c: WorkloadConfig, key: Seq<char>) -> Seq<Seq<char>> {
    base_args(c, key) + pool_args(c) + fee_args(c) + verbose_args(c) + dynamic_fee_args(c)
}

fn push_str(v: &mut Vec<String>, s: &str)
    ensures
        string_views(final(v)@) == string_views(old(v)@).push(s@),
{
    v.push(String::from_str(s));
    assert(string_views(final(v)@) =~= string_views(old(v)@).push(s@));
}

fn push_pool_args(v: &mut Vec<String>, c: &WorkloadConfig)
    ensures
        string_views(final(v)@) == string_views(old(v)@) + pool_args(*c),
{
    let ghost start = string_views(v@);
    match &c.pool_url {
        Some(url) => {
            push_str(v, "--pool-url");
            push_str(v, url.as_str());
            match c.device_id {
                Some(d) => {
                    push_str(v, "--device-id");
                    let ds = decimal_string(d);
                    push_str(v, ds.as_str());
                },
                None => {},
            }
        },
        None => {},
    }
    assert(string_views(v@) =~= start + pool_args(*c));
}

fn push_fee_args(v: &mut Vec<String>, c: &WorkloadConfig)
    ensures
        string_views(final(v)@) == string_views(old(v)@) + fee_args(*c),
{
    let ghost start = string_views(v@);
    match c.priority_fee {
        Some(fee) => {
            push_str(v, "--priority-fee");
            let fs = decimal_string(fee);
            push_str(v, fs.as_str());
        },
        None => {},
    }
    match &c.fee_private_key {
        Some(k) => {
            push_str(v, "--fee-private-key");
            push_str(v, k.as_str());
        },
        None => {},
    }
    assert(string_views(v@) =~= start + fee_args(*c));
}

fn push_switch_args(v: &mut Vec<String>, c: &WorkloadConfig)
    ensures
        string_views(final(v)@) == string_views(old(v)@) + verbose_args(*c) + dynamic_fee_args(*c),
{
    let ghost start = string_views(v@);
    if c.verbose {
        push_str(v, "--verbose");
    }
    if c.dynamic_fee {
        push_str(v, "--dynamic-fee");
        match &c.dynamic_fee_url {
            Some(url) => {
                push_str(v, "--dynamic-fee-url");
                push_str(v, url.as_str());
            },
            None => {},
        }
    }
    assert(string_views(v@) =~= start + verbose_args(*c) + dynamic_fee_args(*c));
}

/// The command-line arguments that start one workload.
pub fn workload_args(c: &WorkloadConfig, key: &str) -> (r: Vec<String>)
    ensures
        string_views(r@) == workload_args_spec(*c, key@),
{
    let mut v: Vec<String> = Vec::new();
    push_str(&mut v, "collect");
    push_str(&mut v, "--cores");
    push_str(&mut v, c.cores.as_str());
    push_str(&mut v, "--buffer-time");
    let buffer = decimal_string(c.buffer_time);
    push_str(&mut v, buffer.as_str());
    push_str(&mut v, "--private-key");
    push_str(&mut v, key);
    push_str(&mut v, "--rpc");
    push_str(&mut v, c.rpc_url.as_str());
    assert(string_views(v@) =~= base_args(*c, key@));
    push_pool_args(&mut v, c);
    push_fee_args(&mut v, c);
    push_switch_args(&mut v, c);
    v
}

/// The log artifact of the workload at `index` (1-based).
pub open spec fn log_path_spec(index: nat) -> Seq<char> {
    LOG_DIR@ + "/"@ + LOG_PREFIX@ + decimal(index) + LOG_SUFFIX@
}

/// The path of the log artifact of the workload at `index` (1-based).
pub fn log_path(index: u64) -> (r: String)
    ensures
        r@ == log_path_spec(index as nat),
{
    let mut r = String::from_str(LOG_DIR);
    r.append("/");
    r.append(LOG_PREFIX);
    let digits = decimal_string(index);
    r.append(digits.as_str());
    r.append(LOG_SUFFIX);
    r
}

/// What the attempt to start one workload came to.
pub enum SpawnResult {
    /// The process started with this id, at this time (seconds since the epoch).
    Spawned { pid: u32, launch_time: u64 },
    /// The process could not be started.
    Failed { reason: String },
}

/// One identity's launch attempt within a pass.
pub struct LaunchAttempt {
    pub address: String,
    pub result: SpawnResult,
}

/// A workload that the supervisor started.
pub struct ProcessRecord {
    pub index: u64,
    pub address: String,
    pub log_path: String,
    pub pid: u32,
    pub launch_time: u64,
}

/// The mathematical content of a process record.
pub struct RecordView {
    pub index: nat,
    pub address: Seq<char>,
    pub log_path: Seq<char>,
    pub pid: u32,
    pub launch_time: u64,
}

impl View for ProcessRecord {
    type V = RecordView;

    open spec fn view(&self) -> RecordView {
        RecordView {
            index: self.index as nat,
            address: self.address@,
            log_path: self.log_path@,
            pid: self.pid,
            launch_time: self.launch_time,
        }
    }
}

/// The record that the attempt at `index` (1-based) leaves, if its
/// workload started.
pub open spec fn record_of(index: nat, a: LaunchAttempt) -> Option<RecordView> {
    match a.result {
        SpawnResult::Spawned { pid, launch_time } => Some(
            RecordView {
                index,
                address: a.address@,
                log_path: log_path_spec(index),
                pid,
                launch_time,
            },
        ),
        SpawnResult::Failed { .. } => None,
    }
}

/// The records of a launch pass, in batch order: one per workload started,
/// numbered by the attempt's position in the batch (from 1).
pub open spec fn pass_records(attempts: Seq<LaunchAttempt>) -> Seq<RecordView>
    decreases attempts.len(),
{
    if attempts.len() == 0 {
        Seq::empty()
    } else {
        let rest = pass_records(attempts.drop_last());
        match record_of(attempts.len(), attempts.last()) {
            Some(r) => rest.push(r),
            None => rest,
        }
    }
}

/// How many attempts of a pass started their workload.
pub open spec fn spawned_count(attempts: Seq<LaunchAttempt>) -> nat
    decreases attempts.len(),
{
    if attempts.len() == 0 {
        0
    } else {
        spawned_count(attempts.drop_last()) + if attempts.last().result is Spawned {
            1nat
        } else {
            0nat
        }
    }
}

/// The line of the process-list artifact that stands for a record.
pub open spec fn process_line_spec(r: RecordView) -> Seq<char> {
    "#"@ + decimal(r.index) + " address="@ + r.address + " pid="@ + decimal(r.pid as nat)
        + " log="@ + r.log_path
}

/// The process-list artifact: one line per record, in order.
pub open spec fn process_list_spec(records: Seq<RecordView>) -> Seq<Seq<char>> {
    records.map_values(|r: RecordView| process_line_spec(r))
}

/// The process records of one launch pass.
pub struct LaunchRegistry {
    pub records: Vec<ProcessRecord>,
}

impl View for LaunchRegistry {
    type V = Seq<RecordView>;

    open spec fn view(&self) -> Seq<RecordView> {
        self.records@.map_values(|r: ProcessRecord| r@)
    }
}

impl LaunchRegistry {
    /// A registry with no records, at the start of a pass.
    pub fn new() -> (r: LaunchRegistry)
        ensures
            r@ == Seq::<RecordView>::empty(),
    {
        let r = LaunchRegistry { records: Vec::new() };
        assert(r@ =~= Seq::<RecordView>::empty());
        r
    }

    /// Takes in the launch attempt at `index` (1-based): a started workload
    /// gets a record, a failed one leaves the registry as it was.
    pub fn record_launch(&mut self, index: u64, attempt: &LaunchAttempt)
        ensures
            final(self)@ == match record_of(index as nat, *attempt) {
                Some(r) => old(self)@.push(r),
                None => old(self)@,
            },
    {
        match &attempt.result {
            SpawnResult::Spawned { pid, launch_time } => {
                let rec = ProcessRecord {
                    index,
                    address: attempt.address.clone(),
                    log_path: log_path(index),
                    pid: *pid,
                    launch_time: *launch_time,
                };
                self.records.push(rec);
                assert(self@ =~= old(self)@.push(record_of(index as nat, *attempt)->0));
            },
            SpawnResult::Failed { .. } => {},
        }
    }

    /// The lines of the process-list artifact, one per record.
    pub fn process_list(&self) -> (r: Vec<String>)
        ensures
            string_views(r@) == process_list_spec(self@),
    {
        let mut out: Vec<String> = Vec::new();
        let mut i: usize = 0;
        while i < self.records.len()
            invariant
                i <= self.records@.len(),
                string_views(out@) == process_list_spec(self@.subrange(0, i as int)),
            decreases self.records@.len() - i,
        {
            let line = process_line(&self.records[i]);
            let ghost prev = out@;
            out.push(line);
            assert(self@[i as int] == self.records@[i as int]@);
            assert(string_views(out@) =~= string_views(prev).push(line@));
            assert(string_views(out@) =~= process_list_spec(self@.subrange(0, i as int + 1)));
            i = i + 1;
        }
        assert(self@.subrange(0, i as int) =~= self@);
        out
    }
}

/// The line of the process-list artifact that stands for a record.
pub fn process_line(r: &ProcessRecord) -> (s: String)
    ensures
        s@ == process_line_spec(r@),
{
    let mut s = String::from_str("#");
    let index = decimal_string(r.index);
    s.append(index.as_str());
    s.append(" address=");
    s.append(r.address.as_str());
    s.append(" pid=");
    let pid = decimal_string(r.pid as u64);
    s.append(pid.as_str());
    s.append(" log=");
    s.append(r.log_path.as_str());
    s
}

/// Runs the bookkeeping of a whole launch pass over its attempts.
pub fn launch_pass(attempts: &Vec<LaunchAttempt>) -> (r: LaunchRegistry)
    ensures
        r@ == pass_records(attempts@),
{
    let mut reg = LaunchRegistry::new();
    let mut i: usize = 0;
    while i < attempts.len()
        invariant
            i <= attempts@.len(),
            reg@ == pass_records(attempts@.subrange(0, i as int)),
        decreases attempts@.len() - i,
    {
        assert(attempts@.subrange(0, i as int + 1).drop_last() =~= attempts@.subrange(0, i as int));
        reg.record_launch((i + 1) as u64, &attempts[i]);
        i = i + 1;
    }
    assert(attempts@.subrange(0, i as int) =~= attempts@);
    reg
}

/// Whether some record carries `index`.
pub open spec fn has_record_for(records: Seq<RecordView>, index: nat) -> bool {
    exists|k: int| 0 <= k < records.len() && (#[trigger] records[k]).index == index
}

proof fn lemma_pass_indices(attempts: Seq<LaunchAttempt>)
    ensures
        forall|k: int|
            0 <= k < pass_records(attempts).len() ==> 1 <= (#[trigger] pass_records(
                attempts,
            )[k]).index <= attempts.len(),
    decreases attempts.len(),
{
    if attempts.len() > 0 {
        let rest = attempts.drop_last();
        lemma_pass_indices(rest);
        let recs = pass_records(attempts);
        let rrecs = pass_records(rest);
        assert forall|k: int| 0 <= k < recs.len() implies 1 <= (#[trigger] recs[k]).index
            <= attempts.len() by {
            if k < rrecs.len() {
                assert(recs[k] == rrecs[k]);
            }
        }
    }
}

/// A launch pass over a batch of `N` identities leaves at most `N` process
/// records, exactly one per workload that started; the record (and so the
/// process-list line) for position `i` exists exactly when the workload at
/// position `i` started; and the process-list artifact has exactly one line
/// per record.
pub proof fn launch_pass_bounded(attempts: Seq<LaunchAttempt>)
    ensures
        pass_records(attempts).len() == spawned_count(attempts),
        spawned_count(attempts) <= attempts.len(),
        process_list_spec(pass_records(attempts)).len() == spawned_count(attempts),
        forall|i: int|
            0 <= i < attempts.len() ==> ((#[trigger] attempts[i]).result is Spawned
                <==> has_record_for(pass_records(attempts), (i + 1) as nat)),
    decreases attempts.len(),
{
    if attempts.len() > 0 {
        let rest = attempts.drop_last();
        launch_pass_bounded(rest);
        lemma_pass_indices(rest);
        let recs = pass_records(attempts);
        let rrecs = pass_records(rest);
        let n = attempts.len();
        assert forall|i: int| 0 <= i < n implies ((#[trigger] attempts[i]).result is Spawned
            <==> has_record_for(recs, (i + 1) as nat)) by {
            if i < n - 1 {
                assert(attempts[i] == rest[i]);
                if has_record_for(rrecs, (i + 1) as nat) {
                    let k = choose|k: int| 0 <= k < rrecs.len() && (#[trigger] rrecs[k]).index == (i + 1) as nat;
                    assert(recs[k] == rrecs[k]);
                }
                if has_record_for(recs, (i + 1) as nat) {
                    let k = choose|k: int| 0 <= k < recs.len() && (#[trigger] recs[k]).index == (i + 1) as nat;
                    if k < rrecs.len() {
                        assert(recs[k] == rrecs[k]);
                    }
                }
            } else {
                assert(attempts[i] == attempts.last());
                if attempts.last().result is Spawned {
                    assert(recs[recs.len() - 1].index == n);
                } else {
                    assert(recs == rrecs);
                    if has_record_for(recs, (i + 1) as nat) {
                        let k = choose|k: int| 0 <= k < recs.len() && (#[trigger] recs[k]).index == (i + 1) as nat;
                        assert(rrecs[k].index <= rest.len());
                    }
                }
            }
        }
    }
}
/// The log that a launch creates for the workload at `index` lies in the
/// registry directory under a name that a registry-scoped sweep scans.
pub proof fn launch_logs_are_swept(index: nat)
    ensures
        log_path_spec(index) == LOG_DIR@ + "/"@ + (LOG_PREFIX@ + decimal(index) + LOG_SUFFIX@),
        is_workload_log_spec(LOG_PREFIX@ + decimal(index) + LOG_SUFFIX@),
{
    let p = LOG_PREFIX@;
    let x = LOG_SUFFIX@;
    let name = p + decimal(index) + x;
    assert(log_path_spec(index) =~= LOG_DIR@ + "/"@ + name);
    assert(name.subrange(0, p.len() as int) =~= p);
    assert(name.subrange(name.len() - x.len(), name.len() - x.len() + x.len()) =~= x);
}

} // verus!
