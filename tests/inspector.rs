use inspector::format::{format_cpu_percent, format_kb, format_memory_size, format_process_time};
use inspector::process::{
    build_record, check_proc, collect_records, cpu_share_hundredths, normalize_command,
    parse_nice, parse_statm_content, parse_uid, parse_uptime, parse_utime_and_stime, sample,
    ProcessFiles, SampleError,
};
use inspector::store::SnapshotStore;
use inspector::text::process_search_line;

const STAT: &str = "1234 (bash) S 1 1234 1234 34816 1234 4194304 1000 0 0 0 50 50 0 0 20 25 1 0 100";

fn readable(pid: i32) -> ProcessFiles {
    ProcessFiles {
        pid,
        status: Some("Name:\tbash\nUid:\t0\t0\t0\t0\nGid:\t0\t0\t0\t0\n".to_string()),
        stat: Some(STAT.to_string()),
        statm: Some("1000 500 100 0 0 0 0\n".to_string()),
        cmdline: Some("/bin/sh\0-c\0".to_string()),
    }
}

#[test]
fn memory_zero_is_kilobytes() {
    assert_eq!(format_memory_size(0), "0.00 kB");
}

#[test]
fn memory_thresholds_take_larger_unit() {
    assert_eq!(format_memory_size(2048), "2.00 MB");
    assert_eq!(format_memory_size(1048576), "1.00 GB");
    assert_eq!(format_memory_size(1024), "1.00 MB");
    assert_eq!(format_memory_size(1023), "1023.00 kB");
}

#[test]
fn memory_rounds_to_two_places() {
    assert_eq!(format_memory_size(1536), "1.50 MB");
    assert_eq!(format_memory_size(2000), "1.95 MB");
    assert_eq!(format_memory_size(3 * 1048576 + 524288), "3.50 GB");
}

#[test]
fn cpu_time_of_one_hundred_fifty_seconds() {
    assert_eq!(format_process_time(13000, 2000), "00:02:30");
}

#[test]
fn cpu_time_rounds_to_nearest_second() {
    assert_eq!(format_process_time(149, 0), "00:00:01");
    assert_eq!(format_process_time(100, 50), "00:00:02");
    assert_eq!(format_process_time(0, 0), "00:00:00");
    assert_eq!(format_process_time(360000 * 100, 0), "100:00:00");
}

#[test]
fn cpu_percent_of_half_a_percent() {
    let share = cpu_share_hundredths(100, 20000, 1);
    assert_eq!(share, 50);
    assert_eq!(format_cpu_percent(share), "0.50%");
}

#[test]
fn cpu_percent_spreads_over_cpus() {
    assert_eq!(cpu_share_hundredths(400, 100, 4), 10000);
    assert_eq!(format_cpu_percent(10000), "100.00%");
    assert_eq!(format_cpu_percent(7), "0.07%");
}

#[test]
fn kb_display() {
    assert_eq!(format_kb(4000), "4000 KB");
    assert_eq!(format_kb(0), "0 KB");
}

#[test]
fn search_line_finds_second_field() {
    let status = "Name:\tbash\nUid:\t1000\t1001\t1000\t1000\nVmRSS:\t  5120 kB\r\n";
    assert_eq!(process_search_line(status, "Uid"), "1000");
    assert_eq!(process_search_line(status, "VmRSS"), "5120");
    assert_eq!(process_search_line(status, "Gid"), "");
    assert_eq!(process_search_line("Uid:\n", "Uid"), "");
    assert_eq!(process_search_line("", "Uid"), "");
}

#[test]
fn search_line_stops_at_first_match() {
    assert_eq!(process_search_line("Uid:\nUid: 5\n", "Uid"), "");
}

#[test]
fn uid_parsing() {
    assert_eq!(parse_uid("Uid:\t1000\t1000\n"), Some(1000));
    assert_eq!(parse_uid("Uid:\tx\n"), None);
    assert_eq!(parse_uid("Name:\tx\n"), None);
    assert_eq!(parse_uid("Uid:\t4294967296\n"), None);
}

#[test]
fn statm_in_kilobytes() {
    assert_eq!(parse_statm_content("100 50 25 0 0 0 0".to_string()), Ok((400, 200, 100)));
}

#[test]
fn statm_malformed() {
    assert_eq!(parse_statm_content("abc 1 2".to_string()), Err(SampleError::MalformedContent));
    assert_eq!(parse_statm_content("1 2".to_string()), Err(SampleError::MalformedContent));
    assert_eq!(parse_statm_content("".to_string()), Err(SampleError::MalformedContent));
}

#[test]
fn stat_ticks_and_nice() {
    assert_eq!(parse_utime_and_stime(STAT.to_string()), Some((50, 50)));
    assert_eq!(parse_nice(STAT), Some(5));
    assert_eq!(parse_utime_and_stime("1 (x) S".to_string()), None);
    assert_eq!(parse_nice("1 (x) S"), None);
}

#[test]
fn entry_names() {
    assert_eq!(check_proc("123"), Some(123));
    assert_eq!(check_proc("self"), None);
    assert_eq!(check_proc("0"), None);
    assert_eq!(check_proc("2147483648"), None);
    assert_eq!(check_proc(""), None);
}

#[test]
fn uptime_in_hundredths() {
    assert_eq!(parse_uptime("350735.47 234886.12\n"), Some(35073547));
    assert_eq!(parse_uptime("12 3"), Some(1200));
    assert_eq!(parse_uptime("1.5"), Some(150));
    assert_eq!(parse_uptime("0.00 0.00"), None);
    assert_eq!(parse_uptime("abc"), None);
    assert_eq!(parse_uptime("1."), None);
    assert_eq!(parse_uptime(""), None);
}

#[test]
fn command_separators_become_spaces() {
    assert_eq!(normalize_command("ls\0-l\0"), "ls -l");
    assert_eq!(normalize_command(""), "");
    assert_eq!(normalize_command("a b \n"), "a b");
}

#[test]
fn record_of_readable_process() {
    let r = build_record(&readable(7), Some("alice".to_string()), Some(20000), 1).unwrap();
    assert_eq!(r.pid(), 7);
    assert_eq!(r.user(), "alice");
    assert_eq!(r.nice_value(), 5);
    assert_eq!(r.vm(), "4000 KB");
    assert_eq!(r.res(), "2000 KB");
    assert_eq!(r.shr(), "400 KB");
    assert_eq!(r.cpu_usage(), "0.50%");
    assert_eq!(r.mem_usage(), "1.95 MB");
    assert_eq!(r.time(), "00:00:01");
    assert_eq!(r.command(), "/bin/sh -c");
}

#[test]
fn unresolved_owner_gets_placeholder() {
    let r = build_record(&readable(7), None, Some(20000), 1).unwrap();
    assert_eq!(r.user(), "unknown");
    let r = build_record(&readable(7), Some(String::new()), Some(20000), 1).unwrap();
    assert_eq!(r.user(), "unknown");
}

#[test]
fn missing_file_is_unreadable() {
    let mut f = readable(7);
    f.cmdline = None;
    assert_eq!(sample(&f, Some(20000), 1).unwrap_err(), SampleError::Unreadable);
}

#[test]
fn bad_content_is_malformed() {
    let mut f = readable(7);
    f.statm = Some("x y z".to_string());
    assert_eq!(sample(&f, Some(20000), 1).unwrap_err(), SampleError::MalformedContent);
    let g = readable(7);
    assert_eq!(sample(&g, None, 1).unwrap_err(), SampleError::MalformedContent);
}

#[test]
fn one_failure_does_not_stop_the_sweep() {
    let mut bad = readable(2);
    bad.stat = None;
    let files = vec![readable(1), bad, readable(3)];
    let records = collect_records(&files, Some(20000), 1);
    let pids: Vec<i32> = records.iter().map(|r| r.pid()).collect();
    assert_eq!(pids, vec![1, 3]);
}

#[test]
fn snapshot_read_twice_is_equal() {
    let mut store = SnapshotStore::new();
    store.refresh_with(&vec![readable(1), readable(2)], &Some("200.00 1.00".to_string()), 1);
    let a = store.get_all_process_info();
    let b = store.get_all_process_info();
    assert_eq!(a.len(), b.len());
    for (x, y) in a.iter().zip(b.iter()) {
        assert_eq!(x.pid(), y.pid());
        assert_eq!(x.command(), y.command());
        assert_eq!(x.cpu_usage(), y.cpu_usage());
    }
}

#[test]
fn refresh_replaces_the_whole_snapshot() {
    let mut store = SnapshotStore::new();
    assert_eq!(store.get_all_process_info().len(), 0);
    store.refresh_with(&vec![readable(1), readable(2), readable(3)], &Some("200.00".to_string()), 1);
    assert_eq!(store.get_all_process_info().len(), 3);
    store.refresh_with(&vec![readable(4)], &Some("200.00".to_string()), 1);
    let snap = store.get_all_process_info();
    assert_eq!(snap.len(), 1);
    assert_eq!(snap[0].pid(), 4);
}

#[test]
fn end_to_end_with_one_missing_cmdline() {
    let mut missing = readable(42);
    missing.cmdline = None;
    let mut store = SnapshotStore::new();
    store.refresh_with(&vec![readable(41), missing], &Some("200.00 50.00\n".to_string()), 1);
    let snap = store.get_all_process_info();
    assert_eq!(snap.len(), 1);
    let r = &snap[0];
    assert_eq!(r.pid(), 41);
    assert_eq!(r.user(), "root");
    assert_eq!(r.cpu_usage(), "0.50%");
    assert_eq!(r.vm(), "4000 KB");
    assert_eq!(r.mem_usage(), "1.95 MB");
    assert_eq!(r.time(), "00:00:01");
    assert_eq!(r.command(), "/bin/sh -c");
}

#[test]
fn unreadable_uptime_publishes_nothing() {
    let mut store = SnapshotStore::new();
    store.refresh(&vec![readable(1)], &None);
    assert_eq!(store.get_all_process_info().len(), 0);
}

#[test]
fn root_account_resolves() {
    assert_eq!(inspector::system::get_username_from_uid(0), Some("root".to_string()));
}
