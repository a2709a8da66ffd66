use bitz_fleet::launch::{
    core_count, resolve_cores, launch_pass, log_path, process_line, workload_args, LaunchAttempt, LaunchRegistry,
    SpawnResult, WorkloadConfig,
};
use bitz_fleet::sweep::{
    is_workload_log, kill_all_targets, live_targets, log_pid, pid_column, pid_marker_line,
    running_pids, summarize_sweep, workload_executable, Platform, PID_MARKER, log_pids, sweep_targets,
    TerminateMode,
};
use bitz_fleet::text::{decimal_string, parse_u64_str, number_after_str, token_u32, zero_padded_string};

fn lines(v: &[&str]) -> Vec<String> {
    v.iter().map(|s| s.to_string()).collect()
}

fn config() -> WorkloadConfig {
    WorkloadConfig {
        cores: "4".to_string(),
        buffer_time: 5,
        rpc_url: "http://rpc".to_string(),
        pool_url: None,
        device_id: None,
        priority_fee: None,
        fee_private_key: None,
        verbose: false,
        dynamic_fee: false,
        dynamic_fee_url: None,
    }
}

#[test]
fn decimal_rendering() {
    assert_eq!(decimal_string(0), "0");
    assert_eq!(decimal_string(9), "9");
    assert_eq!(decimal_string(10), "10");
    assert_eq!(decimal_string(18446744073709551615), "18446744073709551615");
    assert_eq!(zero_padded_string(42, 5), "00042");
    assert_eq!(zero_padded_string(123456, 3), "123456");
}

#[test]
fn listing_columns() {
    assert_eq!(token_u32("  123 ?        00:00:01 bitz", 0), Some(123));
    assert_eq!(token_u32("bitz.exe   4321 Console    1   10,000 K", 1), Some(4321));
    assert_eq!(token_u32("  PID TTY          TIME CMD", 0), None);
    assert_eq!(token_u32("   ", 0), None);
    assert_eq!(token_u32("4294967296 x", 0), None);
    assert_eq!(token_u32("4294967295 x", 0), Some(4294967295));
}

#[test]
fn marker_line_round_trip() {
    let line = pid_marker_line(4711);
    assert_eq!(line, "workload pid: 4711");
    assert_eq!(number_after_str(&line, PID_MARKER), Some(4711));
    assert_eq!(number_after_str("no marker here 12", PID_MARKER), None);
}

#[test]
fn kill_all_only_targets_the_workload() {
    let listing = lines(&[
        "  PID TTY          TIME CMD",
        "    1 ?        00:00:03 systemd",
        "  200 pts/0    00:01:00 bitz",
        "  201 pts/0    00:00:00 bash",
        "  202 pts/1    00:02:00 bitz",
        "  300 pts/2    00:00:00 bitz",
    ]);
    let exe = workload_executable(Platform::Unix);
    let column = pid_column(Platform::Unix);
    assert_eq!(kill_all_targets(&listing, exe, column, 300), vec![200, 202]);
    assert_eq!(kill_all_targets(&listing, exe, column, 0), vec![200, 202, 300]);
}

#[test]
fn kill_all_on_windows_listing() {
    let listing = lines(&[
        "Image Name                     PID Session Name        Session#    Mem Usage",
        "bitz.exe                      1200 Console                    1     10,000 K",
        "explorer.exe                  1300 Console                    1     90,000 K",
    ]);
    let exe = workload_executable(Platform::Windows);
    let column = pid_column(Platform::Windows);
    assert_eq!(kill_all_targets(&listing, exe, column, 1), vec![1200]);
}

#[test]
fn registry_sweep_skips_exited_processes() {
    let listing = lines(&["  PID TTY TIME CMD", "  10 ? 00:00:01 bitz", "  12 ? 00:00:01 sh"]);
    let running = running_pids(&listing, 0);
    assert_eq!(running, vec![10, 12]);
    assert_eq!(live_targets(&vec![10, 11, 13], &running), vec![10]);
}

#[test]
fn log_pid_takes_first_marker() {
    let log = lines(&[
        "starting",
        "workload pid: oops",
        "workload pid: 31",
        "workload pid: 32",
    ]);
    assert_eq!(log_pid(&log), Some(31));
    assert_eq!(log_pid(&lines(&["nothing"])), None);
    assert_eq!(log_pid(&Vec::new()), None);
}

#[test]
fn log_names() {
    assert!(is_workload_log("miner_3.log"));
    assert!(is_workload_log("miner_.log"));
    assert!(!is_workload_log("process_list.txt"));
    assert!(!is_workload_log("mining_stopped.txt"));
    assert!(!is_workload_log("miner_3.txt"));
    assert!(!is_workload_log("miner.log"));
}

#[test]
fn idle_sweep_writes_marker_with_zero() {
    let running = running_pids(&lines(&["  PID TTY TIME CMD", "  99 ? 00:00:01 sh"]), 0);
    let targets = live_targets(&vec![10, 11], &running);
    assert!(targets.is_empty());
    let summary = summarize_sweep("2024-05-01 10:00:00", &Vec::new());
    assert_eq!(summary.killed, 0);
    assert_eq!(summary.marker, "mining stopped at 2024-05-01 10:00:00, processes terminated: 0");
}

#[test]
fn sweep_counts_successful_kills() {
    let summary = summarize_sweep("t", &vec![true, false, true]);
    assert_eq!(summary.killed, 2);
    assert_eq!(summary.marker, "mining stopped at t, processes terminated: 2");
}

#[test]
fn workload_arguments_plain() {
    let args = workload_args(&config(), "KEY");
    assert_eq!(
        args,
        vec!["collect", "--cores", "4", "--buffer-time", "5", "--private-key", "KEY", "--rpc", "http://rpc"]
    );
}

#[test]
fn workload_arguments_full() {
    let mut c = config();
    c.pool_url = Some("http://pool".to_string());
    c.device_id = Some(7);
    c.priority_fee = Some(1000);
    c.fee_private_key = Some("FEE".to_string());
    c.verbose = true;
    c.dynamic_fee = true;
    c.dynamic_fee_url = Some("http://fee".to_string());
    let args = workload_args(&c, "KEY");
    assert_eq!(
        args,
        vec![
            "collect", "--cores", "4", "--buffer-time", "5", "--private-key", "KEY", "--rpc",
            "http://rpc", "--pool-url", "http://pool", "--device-id", "7", "--priority-fee",
            "1000", "--fee-private-key", "FEE", "--verbose", "--dynamic-fee",
            "--dynamic-fee-url", "http://fee",
        ]
    );
}

#[test]
fn device_id_needs_pool() {
    let mut c = config();
    c.device_id = Some(7);
    c.dynamic_fee_url = Some("http://fee".to_string());
    let args = workload_args(&c, "KEY");
    assert_eq!(args.len(), 9);
}

#[test]
fn log_paths() {
    assert_eq!(log_path(1), "logs/miner_1.log");
    assert_eq!(log_path(12), "logs/miner_12.log");
}

#[test]
fn launch_registry_records_successes_only() {
    let mut reg = LaunchRegistry::new();
    reg.record_launch(1, &LaunchAttempt {
        address: "AAAA".to_string(),
        result: SpawnResult::Spawned { pid: 500, launch_time: 1000 },
    });
    reg.record_launch(2, &LaunchAttempt {
        address: "BBBB".to_string(),
        result: SpawnResult::Failed { reason: "no such file".to_string() },
    });
    reg.record_launch(3, &LaunchAttempt {
        address: "CCCC".to_string(),
        result: SpawnResult::Spawned { pid: 502, launch_time: 1001 },
    });
    assert_eq!(reg.records.len(), 2);
    assert_eq!(reg.records[1].log_path, "logs/miner_3.log");
    assert_eq!(
        reg.process_list(),
        vec!["#1 address=AAAA pid=500 log=logs/miner_1.log", "#3 address=CCCC pid=502 log=logs/miner_3.log"]
    );
    assert_eq!(process_line(&reg.records[0]), "#1 address=AAAA pid=500 log=logs/miner_1.log");
}

#[test]
fn launch_pass_over_batch() {
    let attempts: Vec<LaunchAttempt> = (1..=4)
        .map(|i| LaunchAttempt {
            address: format!("ADDR{}", i),
            result: if i % 2 == 0 {
                SpawnResult::Spawned { pid: 100 + i as u32, launch_time: 7 }
            } else {
                SpawnResult::Failed { reason: "denied".to_string() }
            },
        })
        .collect();
    let reg = launch_pass(&attempts);
    assert!(reg.records.len() <= attempts.len());
    assert_eq!(reg.records.len(), 2);
    assert_eq!(reg.process_list().len(), 2);
    assert_eq!(reg.records[0].pid, 102);
    assert_eq!(reg.records[0].index, 2);
    assert_eq!(reg.records[1].index, 4);
    assert_eq!(
        reg.process_list(),
        vec!["#2 address=ADDR2 pid=102 log=logs/miner_2.log", "#4 address=ADDR4 pid=104 log=logs/miner_4.log"]
    );
    assert_eq!(launch_pass(&Vec::new()).records.len(), 0);
}

#[test]
fn core_settings() {
    assert_eq!(core_count("ALL", 8), 8);
    assert_eq!(core_count("3", 8), 3);
    assert_eq!(core_count("+4", 8), 4);
    assert_eq!(core_count("+", 8), 1);
    assert_eq!(core_count("++4", 8), 1);
    assert_eq!(core_count("-4", 8), 1);
    assert_eq!(core_count("12", 8), 12);
    assert_eq!(core_count("all", 8), 1);
    assert_eq!(core_count("x", 8), 1);
    assert_eq!(core_count("", 8), 1);
    let s = resolve_cores("ALL");
    assert_eq!(s.requested, s.available);
    assert_eq!(resolve_cores("2").requested, 2);
}

#[test]
fn whole_string_numbers() {
    assert_eq!(parse_u64_str("18446744073709551615"), Some(u64::MAX));
    assert_eq!(parse_u64_str("18446744073709551616"), None);
    assert_eq!(parse_u64_str("007"), Some(7));
    assert_eq!(parse_u64_str("7a"), None);
    assert_eq!(parse_u64_str("+7"), Some(7));
    assert_eq!(parse_u64_str("+"), None);
    assert_eq!(parse_u64_str(""), None);
}

#[test]
fn executable_names() {
    assert_eq!(workload_executable(Platform::Unix), "bitz");
    assert_eq!(workload_executable(Platform::Windows), "bitz.exe");
    assert_eq!(pid_column(Platform::Unix), 0);
    assert_eq!(pid_column(Platform::Windows), 1);
}

#[test]
fn sweep_target_modes() {
    let listing = lines(&["  PID TTY TIME CMD", "  40 ? 00:00:01 bitz", "  41 ? 00:00:01 bitz", "  50 ? 00:00:01 vim"]);
    let logs = vec![
        lines(&["workload pid: 41", "hashing"]),
        lines(&["workload pid: 42"]),
        lines(&["workload pid: 50"]),
        lines(&["no marker"]),
    ];
    assert_eq!(log_pids(&logs), vec![41, 42, 50]);
    assert_eq!(sweep_targets(TerminateMode::KillAll, Platform::Unix, &listing, &logs, 41), vec![40]);
    assert_eq!(
        sweep_targets(TerminateMode::RegistryScoped, Platform::Unix, &listing, &logs, 0),
        vec![41, 50]
    );
    assert!(sweep_targets(TerminateMode::RegistryScoped, Platform::Unix, &listing, &Vec::new(), 0).is_empty());
}
