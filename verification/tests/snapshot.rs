use process_monitor::record::{ProcessRecord, ProcessState, RawStat};
use process_monitor::failure::Failure;
use process_monitor::snapshot::{collect, sample, Snapshot};

fn record(pid: i32, bytes: u64) -> ProcessRecord {
    ProcessRecord {
        pid,
        ppid: 1,
        name: format!("proc{}", pid),
        state_code: ProcessState::Sleeping,
        state_letter: 'S',
        cpu_ticks: 10,
        virtual_memory_bytes: bytes,
        resident_memory_bytes: bytes / 2,
        priority: 20,
        start_ticks: 100,
    }
}

fn raw(pid: i32, bytes: u64) -> RawStat {
    RawStat {
        pid,
        ppid: 1,
        name: format!("proc{}", pid),
        state_code: 'S',
        user_ticks: 4,
        system_ticks: 6,
        virtual_memory_bytes: bytes,
        resident_memory_bytes: bytes / 2,
        priority: 20,
        start_ticks: 100,
    }
}

#[test]
fn empty_snapshot_has_zero_totals() {
    let s = Snapshot::empty();
    assert_eq!(s.len(), 0);
    assert_eq!(s.total_cpu_ticks(), 0);
    assert_eq!(s.total_sampled_memory(), 0);
    assert_eq!(s.find(1), None);
}

#[test]
fn memory_total_is_sum_of_the_records() {
    let s = Snapshot::new(vec![record(1, 100), record(2, 250), record(3, 0)], 9000);
    assert_eq!(s.len(), 3);
    assert_eq!(s.total_cpu_ticks(), 9000);
    assert_eq!(s.total_sampled_memory(), 350);
    assert_eq!(s.records()[1], record(2, 250));
}

#[test]
fn memory_total_does_not_wrap() {
    let s = Snapshot::new(vec![record(1, u64::MAX), record(2, u64::MAX), record(3, 5)], 1);
    assert_eq!(s.total_sampled_memory(), 2 * (u64::MAX as u128) + 5);
}

#[test]
fn tick_total_is_independent_of_the_records() {
    let s = Snapshot::new(Vec::new(), 123);
    assert_eq!(s.total_cpu_ticks(), 123);
    assert_eq!(s.total_sampled_memory(), 0);
}

#[test]
fn find_gives_the_first_record_with_the_pid() {
    let s = Snapshot::new(vec![record(7, 1), record(9, 2), record(7, 3), record(4, 4)], 0);
    assert_eq!(s.find(7), Some(0));
    assert_eq!(s.find(9), Some(1));
    assert_eq!(s.find(4), Some(3));
    assert_eq!(s.find(8), None);
}

#[test]
fn collect_skips_unreadable_reports() {
    let readings = vec![None, Some(raw(5, 10)), None, None, Some(raw(3, 20)), Some(raw(8, 30)), None];
    let s = collect(&readings, 777);
    let pids: Vec<i32> = s.records().iter().map(|r| r.pid).collect();
    assert_eq!(pids, vec![5, 3, 8]);
    assert_eq!(s.total_sampled_memory(), 60);
    assert_eq!(s.total_cpu_ticks(), 777);
    assert_eq!(s.records()[0], ProcessRecord::from_raw(&raw(5, 10)));
    assert_eq!(s.records()[0].cpu_ticks, 10);
}

#[test]
fn collect_of_nothing_readable_is_empty() {
    let readings: Vec<Option<RawStat>> = vec![None, None];
    let s = collect(&readings, 5);
    assert_eq!(s.len(), 0);
    assert_eq!(s.total_sampled_memory(), 0);
    let none: Vec<Option<RawStat>> = Vec::new();
    assert_eq!(collect(&none, 5).len(), 0);
}

#[test]
fn sample_fails_without_a_table() {
    match sample(None, 10) {
        Err(failure) => assert_eq!(failure, Failure::Enumeration),
        Ok(_) => panic!("a snapshot without a table"),
    }
}

#[test]
fn sample_of_a_table_is_its_snapshot() {
    match sample(Some(vec![Some(raw(1, 8)), None, Some(raw(2, 16))]), 10) {
        Ok(s) => {
            assert_eq!(s.len(), 2);
            assert_eq!(s.total_sampled_memory(), 24);
            assert_eq!(s.total_cpu_ticks(), 10);
        }
        Err(_) => panic!("a table that was walked gave no snapshot"),
    }
    match sample(Some(Vec::new()), 0) {
        Ok(s) => assert_eq!(s.len(), 0),
        Err(_) => panic!("an empty table is no failure"),
    }
}
