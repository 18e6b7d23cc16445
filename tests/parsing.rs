use police::{
    parse_percent, parse_process, parse_snapshot, parse_u32, parse_u64, GovernorError, Percent,
    RawProcess, RawSnapshot,
};

fn raw_process(pid: &str, id: &str, cpu: &str, mem: &str) -> RawProcess {
    RawProcess {
        pid: pid.to_string(),
        process_name: "worker".to_string(),
        container_id: id.to_string(),
        vsz_kb: "2048".to_string(),
        rss_kb: "512".to_string(),
        memory_usage_percent: mem.to_string(),
        cpu_usage_percent: cpu.to_string(),
    }
}

fn raw_snapshot(processes: Vec<RawProcess>) -> RawSnapshot {
    RawSnapshot {
        total_memory_kb: "16000000".to_string(),
        free_memory_kb: "4000000".to_string(),
        used_memory_kb: "12000000".to_string(),
        processes,
    }
}

#[test]
fn unsigned_integers_parse() {
    assert_eq!(parse_u64("0"), Some(0));
    assert_eq!(parse_u64("123"), Some(123));
    assert_eq!(parse_u64("+7"), Some(7));
    assert_eq!(parse_u64("007"), Some(7));
    assert_eq!(parse_u64("18446744073709551615"), Some(u64::MAX));
}

#[test]
fn unsigned_integers_reject() {
    assert_eq!(parse_u64(""), None);
    assert_eq!(parse_u64("+"), None);
    assert_eq!(parse_u64("12a"), None);
    assert_eq!(parse_u64("-1"), None);
    assert_eq!(parse_u64(" 1"), None);
    assert_eq!(parse_u64("18446744073709551616"), None);
    assert_eq!(parse_u64("99999999999999999999x"), None);
}

#[test]
fn u32_bounds() {
    assert_eq!(parse_u32("4294967295"), Some(u32::MAX));
    assert_eq!(parse_u32("4294967296"), None);
    assert_eq!(parse_u32("1234"), Some(1234));
}

#[test]
fn percentages_parse_exactly() {
    assert_eq!(parse_percent("0.05"), Some(Percent { micros: 50_000 }));
    assert_eq!(parse_percent("0.00"), Some(Percent { micros: 0 }));
    assert_eq!(parse_percent("12"), Some(Percent { micros: 12_000_000 }));
    assert_eq!(parse_percent("+3.5"), Some(Percent { micros: 3_500_000 }));
    assert_eq!(parse_percent(".25"), Some(Percent { micros: 250_000 }));
    assert_eq!(parse_percent("5."), Some(Percent { micros: 5_000_000 }));
    assert_eq!(parse_percent("0.123456"), Some(Percent { micros: 123_456 }));
}

#[test]
fn percentages_round_up_past_six_digits() {
    assert_eq!(parse_percent("0.0000001"), Some(Percent { micros: 1 }));
    assert_eq!(parse_percent("0.1234560000"), Some(Percent { micros: 123_456 }));
    assert_eq!(parse_percent("0.09000001"), Some(Percent { micros: 90_001 }));
}

#[test]
fn percentages_reject() {
    assert_eq!(parse_percent(""), None);
    assert_eq!(parse_percent("."), None);
    assert_eq!(parse_percent("+"), None);
    assert_eq!(parse_percent("-1"), None);
    assert_eq!(parse_percent("1e3"), None);
    assert_eq!(parse_percent("1.2.3"), None);
    assert_eq!(parse_percent("abc"), None);
    assert_eq!(parse_percent("0.5x"), None);
    assert_eq!(parse_percent("0.1234567x"), None);
    assert_eq!(parse_percent("18446744073709551615"), None);
}

#[test]
fn process_record_parses() {
    let p = parse_process(&raw_process("42", "abc123", "0.20", "0.05")).unwrap();
    assert_eq!(p.pid, 42);
    assert_eq!(p.process_name, "worker");
    assert_eq!(p.container_id, "abc123");
    assert_eq!(p.vsz_kb, 2048);
    assert_eq!(p.rss_kb, 512);
    assert_eq!(p.cpu_usage, Percent { micros: 200_000 });
    assert_eq!(p.memory_usage, Percent { micros: 50_000 });
}

#[test]
fn process_record_with_bad_number_is_rejected() {
    assert!(parse_process(&raw_process("4x", "abc", "0.1", "0.1")).is_none());
    assert!(parse_process(&raw_process("4", "abc", "fast", "0.1")).is_none());
    assert!(parse_process(&raw_process("4", "abc", "0.1", "")).is_none());
}

#[test]
fn snapshot_parses_in_order() {
    let raw = raw_snapshot(vec![
        raw_process("1", "a", "0.5", "1.0"),
        raw_process("2", "b", "0.0", "0.2"),
    ]);
    let s = parse_snapshot(&raw).unwrap();
    assert_eq!(s.memory.total_kb, 16_000_000);
    assert_eq!(s.memory.free_kb, 4_000_000);
    assert_eq!(s.memory.used_kb, 12_000_000);
    assert_eq!(s.processes.len(), 2);
    assert_eq!(s.processes[0].container_id, "a");
    assert_eq!(s.processes[1].container_id, "b");
    assert_eq!(s.processes[1].cpu_usage, Percent { micros: 0 });
}

#[test]
fn empty_snapshot_parses() {
    let s = parse_snapshot(&raw_snapshot(vec![])).unwrap();
    assert!(s.processes.is_empty());
}

#[test]
fn one_bad_record_fails_the_whole_snapshot() {
    let raw = raw_snapshot(vec![
        raw_process("1", "a", "0.5", "1.0"),
        raw_process("2", "b", "n/a", "0.2"),
    ]);
    assert_eq!(parse_snapshot(&raw).unwrap_err(), GovernorError::MalformedSnapshot);
}

#[test]
fn bad_memory_figure_fails_the_snapshot() {
    let mut raw = raw_snapshot(vec![]);
    raw.used_memory_kb = "12.5".to_string();
    assert_eq!(parse_snapshot(&raw).unwrap_err(), GovernorError::MalformedSnapshot);
}
