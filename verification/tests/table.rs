use process_monitor::filter::StateFilter;
use process_monitor::metrics::{Percent, PriorityBucket};
use process_monitor::record::{ProcessRecord, ProcessState};
use process_monitor::snapshot::Snapshot;
use process_monitor::table::{ProcessTable, SortKey};
use process_monitor::usage::{filter_process_info, get_processes, ProcessUsage};

fn letter(state: ProcessState) -> char {
    match state {
        ProcessState::Running => 'R',
        ProcessState::Sleeping => 'S',
        ProcessState::DiskSleep => 'D',
        ProcessState::Zombie => 'Z',
        ProcessState::Stopped => 'T',
        ProcessState::Idle => 'I',
        ProcessState::Unknown => 'X',
    }
}

fn record(pid: i32, state_code: ProcessState, cpu_ticks: u64) -> ProcessRecord {
    ProcessRecord {
        pid,
        ppid: 1,
        name: format!("proc{}", pid),
        state_code,
        state_letter: letter(state_code),
        cpu_ticks,
        virtual_memory_bytes: 1000,
        resident_memory_bytes: 500,
        priority: 20,
        start_ticks: 100,
    }
}

fn full(
    pid: i32,
    ppid: i32,
    state_code: ProcessState,
    cpu_ticks: u64,
    bytes: u64,
    priority: i64,
    start_ticks: u64,
) -> ProcessRecord {
    ProcessRecord {
        pid,
        ppid,
        name: format!("proc{}", pid),
        state_code,
        state_letter: letter(state_code),
        cpu_ticks,
        virtual_memory_bytes: bytes,
        resident_memory_bytes: 0,
        priority,
        start_ticks,
    }
}

fn table(records: Vec<ProcessRecord>, total_cpu_ticks: u64, sort_key: SortKey) -> ProcessTable {
    let mut t = ProcessTable::new();
    t.apply(Snapshot::new(records, total_cpu_ticks));
    t.set_sort(sort_key);
    t
}

fn pids(rows: &[ProcessUsage]) -> Vec<i32> {
    rows.iter().map(|r| r.record.pid).collect()
}

fn mixed() -> Vec<ProcessRecord> {
    vec![
        full(30, 7, ProcessState::Sleeping, 50, 300, 20, 900),
        full(10, 9, ProcessState::Running, 70, 100, -5, 100),
        full(20, 7, ProcessState::Zombie, 50, 900, 39, 500),
        full(40, 2, ProcessState::DiskSleep, 10, 300, 0, 700),
        full(5, 9, ProcessState::Idle, 0, 0, 20, 100),
    ]
}

#[test]
fn new_table_is_empty_and_unsorted() {
    let t = ProcessTable::new();
    assert_eq!(t.sort_key, SortKey::Unsorted);
    assert_eq!(t.filter_set, StateFilter::empty());
    assert!(t.view().is_empty());
}

#[test]
fn sorting_by_cpu_keeps_descending_order() {
    let t = table(
        vec![
            record(1, ProcessState::Running, 100),
            record(2, ProcessState::Running, 50),
            record(3, ProcessState::Running, 25),
        ],
        1000,
        SortKey::Cpu,
    );
    let rows = t.view();
    assert_eq!(pids(&rows), vec![1, 2, 3]);
    let shares: Vec<f64> =
        rows.iter().map(|r| r.cpu_usage.numerator as f64 / r.cpu_usage.denominator as f64).collect();
    assert_eq!(shares, vec![10.0, 5.0, 2.5]);
}

#[test]
fn equal_cpu_is_ordered_by_pid() {
    let t = table(
        vec![record(10, ProcessState::Running, 50), record(5, ProcessState::Running, 50)],
        1000,
        SortKey::Cpu,
    );
    assert_eq!(pids(&t.view()), vec![5, 10]);
}

#[test]
fn filter_keeps_only_listed_states() {
    let mut t = table(
        vec![
            record(1, ProcessState::Sleeping, 1),
            record(2, ProcessState::Running, 2),
            record(3, ProcessState::Zombie, 3),
        ],
        1000,
        SortKey::Unsorted,
    );
    let mut filter = StateFilter::empty();
    filter.insert(ProcessState::Zombie);
    filter.insert(ProcessState::Running);
    t.set_filter(filter);
    let rows = t.view();
    assert_eq!(pids(&rows), vec![2, 3]);
    assert_eq!(rows[0].record.state_code, ProcessState::Running);
    assert_eq!(rows[1].record.state_code, ProcessState::Zombie);
}

#[test]
fn view_twice_is_identical() {
    for key in [
        SortKey::Unsorted,
        SortKey::Cpu,
        SortKey::Memory,
        SortKey::Ppid,
        SortKey::State,
        SortKey::StartTime,
        SortKey::Priority,
    ] {
        let t = table(mixed(), 1000, key);
        assert_eq!(t.view(), t.view());
    }
}

#[test]
fn sort_round_trip_reproduces_the_order() {
    let mut t = table(mixed(), 1000, SortKey::Cpu);
    let first = t.view();
    t.set_sort(SortKey::Ppid);
    let second = t.view();
    assert_ne!(pids(&first), pids(&second));
    t.set_sort(SortKey::Cpu);
    assert_eq!(t.view(), first);
}

#[test]
fn unsorted_is_enumeration_order() {
    let t = table(mixed(), 1000, SortKey::Unsorted);
    assert_eq!(pids(&t.view()), vec![30, 10, 20, 40, 5]);
}

#[test]
fn cpu_is_descending_then_pid() {
    let t = table(mixed(), 1000, SortKey::Cpu);
    assert_eq!(pids(&t.view()), vec![10, 20, 30, 40, 5]);
}

#[test]
fn memory_is_descending_then_pid() {
    let t = table(mixed(), 1000, SortKey::Memory);
    assert_eq!(pids(&t.view()), vec![20, 30, 40, 10, 5]);
}

#[test]
fn ppid_is_ascending_then_pid() {
    let t = table(mixed(), 1000, SortKey::Ppid);
    assert_eq!(pids(&t.view()), vec![40, 20, 30, 5, 10]);
}

#[test]
fn state_is_ascending_by_label() {
    let t = table(mixed(), 1000, SortKey::State);
    assert_eq!(pids(&t.view()), vec![40, 5, 10, 30, 20]);
}

#[test]
fn start_time_is_ascending_then_pid() {
    let t = table(mixed(), 1000, SortKey::StartTime);
    assert_eq!(pids(&t.view()), vec![5, 10, 20, 40, 30]);
}

#[test]
fn priority_is_ascending_then_pid() {
    let t = table(mixed(), 1000, SortKey::Priority);
    assert_eq!(pids(&t.view()), vec![10, 40, 5, 30, 20]);
}

#[test]
fn zero_tick_total_orders_by_pid_alone() {
    let t = table(mixed(), 0, SortKey::Cpu);
    let rows = t.view();
    assert_eq!(pids(&rows), vec![5, 10, 20, 30, 40]);
    for row in &rows {
        assert_eq!(row.cpu_usage, Percent { numerator: 0, denominator: 1 });
    }
}

#[test]
fn equal_key_and_pid_keep_enumeration_order() {
    let mut a = record(7, ProcessState::Running, 50);
    a.name = String::from("first");
    let mut b = record(7, ProcessState::Running, 50);
    b.name = String::from("second");
    let t = table(vec![a, record(3, ProcessState::Running, 60), b], 1000, SortKey::Cpu);
    let names: Vec<String> = t.view().iter().map(|r| r.record.name.clone()).collect();
    assert_eq!(names, vec!["proc3", "first", "second"]);
}

#[test]
fn empty_filter_shows_everything() {
    let mut t = table(mixed(), 1000, SortKey::Unsorted);
    t.set_filter(StateFilter::empty());
    assert_eq!(t.view().len(), 5);
}

#[test]
fn filter_and_sort_together() {
    let mut t = table(mixed(), 1000, SortKey::Memory);
    let mut filter = StateFilter::empty();
    filter.insert(ProcessState::Sleeping);
    filter.insert(ProcessState::DiskSleep);
    filter.insert(ProcessState::Idle);
    t.set_filter(filter);
    assert_eq!(pids(&t.view()), vec![30, 40, 5]);
}

#[test]
fn filter_without_a_match_shows_nothing() {
    let mut t = table(mixed(), 1000, SortKey::Cpu);
    let mut filter = StateFilter::empty();
    filter.insert(ProcessState::Stopped);
    t.set_filter(filter);
    assert!(t.view().is_empty());
}

#[test]
fn apply_leaves_key_and_filter() {
    let mut t = table(mixed(), 1000, SortKey::State);
    let mut filter = StateFilter::empty();
    filter.insert(ProcessState::Running);
    t.set_filter(filter);
    t.apply(Snapshot::new(vec![record(1, ProcessState::Running, 1), record(2, ProcessState::Idle, 1)], 10));
    assert_eq!(t.sort_key, SortKey::State);
    assert_eq!(t.filter_set, filter);
    assert_eq!(pids(&t.view()), vec![1]);
}

#[test]
fn rows_carry_the_derived_figures() {
    let t = table(
        vec![
            full(1, 0, ProcessState::Running, 200, 750, -3, 1),
            full(2, 0, ProcessState::Running, 100, 250, 25, 2),
        ],
        400,
        SortKey::Unsorted,
    );
    let rows = t.view();
    assert_eq!(rows[0].cpu_usage, Percent { numerator: 20000, denominator: 400 });
    assert_eq!(rows[0].memory_usage, Percent { numerator: 75000, denominator: 1000 });
    assert_eq!(rows[0].priority, PriorityBucket::High);
    assert_eq!(rows[1].memory_usage.hundredths(), 2500);
    assert_eq!(rows[1].priority, PriorityBucket::Low);
    assert_eq!(rows[1].record, full(2, 0, ProcessState::Running, 100, 250, 25, 2));
}

#[test]
fn memory_shares_add_up_to_hundred() {
    let snapshot = Snapshot::new(
        vec![
            full(1, 0, ProcessState::Running, 0, 1, 0, 0),
            full(2, 0, ProcessState::Running, 0, 2, 0, 0),
            full(3, 0, ProcessState::Running, 0, 4, 0, 0),
        ],
        0,
    );
    let rows = get_processes(&snapshot);
    let total = snapshot.total_sampled_memory();
    assert_eq!(total, 7);
    let numerators: u128 = rows.iter().map(|r| r.memory_usage.numerator).sum();
    assert_eq!(numerators, 100 * total);
    let sum: f64 = rows
        .iter()
        .map(|r| r.memory_usage.numerator as f64 / r.memory_usage.denominator as f64)
        .sum();
    assert!((sum - 100.0).abs() < 1e-9);
    for row in &rows {
        assert_eq!(row.memory_usage.denominator, total);
    }
}

#[test]
fn get_processes_is_every_record_in_order() {
    let snapshot = Snapshot::new(mixed(), 1000);
    let rows = get_processes(&snapshot);
    assert_eq!(pids(&rows), vec![30, 10, 20, 40, 5]);
    assert_eq!(rows[1].cpu_usage, Percent { numerator: 7000, denominator: 1000 });
    assert_eq!(rows[4].memory_usage, Percent { numerator: 0, denominator: 1600 });
}

#[test]
fn filter_process_info_keeps_passing_rows() {
    let rows = get_processes(&Snapshot::new(mixed(), 1000));
    let mut filter = StateFilter::empty();
    filter.insert(ProcessState::Zombie);
    filter.insert(ProcessState::Idle);
    let kept = filter_process_info(&rows, &filter);
    assert_eq!(pids(&kept), vec![20, 5]);
    assert_eq!(kept[0], rows[2]);
    assert_eq!(filter_process_info(&rows, &StateFilter::empty()), rows);
}

#[test]
fn unsorted_view_is_the_filtered_rows() {
    let mut t = table(mixed(), 1000, SortKey::Unsorted);
    let mut filter = StateFilter::empty();
    filter.insert(ProcessState::Running);
    filter.insert(ProcessState::Sleeping);
    t.set_filter(filter);
    let rows = get_processes(&t.snapshot);
    assert_eq!(t.view(), filter_process_info(&rows, &filter));
}

#[test]
fn state_filter_members() {
    let mut filter = StateFilter::empty();
    assert!(filter.is_empty());
    assert!(filter.keeps(ProcessState::Unknown));
    filter.insert(ProcessState::Stopped);
    assert!(!filter.is_empty());
    assert!(filter.contains(ProcessState::Stopped));
    assert!(!filter.contains(ProcessState::Running));
    assert!(filter.keeps(ProcessState::Stopped));
    assert!(!filter.keeps(ProcessState::Unknown));
    filter.insert(ProcessState::Stopped);
    assert_eq!(filter, StateFilter { stopped: true, ..StateFilter::empty() });
}

#[test]
fn large_counters_sort_exactly() {
    let t = table(
        vec![
            record(1, ProcessState::Running, u64::MAX - 1),
            record(2, ProcessState::Running, u64::MAX),
            record(3, ProcessState::Running, u64::MAX - 2),
        ],
        u64::MAX,
        SortKey::Cpu,
    );
    assert_eq!(pids(&t.view()), vec![2, 1, 3]);
}
