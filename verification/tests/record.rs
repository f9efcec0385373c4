use process_monitor::record::{ProcessRecord, ProcessState, RawStat};

fn raw(state_code: char, user_ticks: u64, system_ticks: u64) -> RawStat {
    RawStat {
        pid: 12,
        ppid: 1,
        name: String::from("worker"),
        state_code,
        user_ticks,
        system_ticks,
        virtual_memory_bytes: 4096,
        resident_memory_bytes: 1024,
        priority: 20,
        start_ticks: 555,
    }
}

#[test]
fn state_codes_map_to_states() {
    assert_eq!(ProcessState::from_code('R'), ProcessState::Running);
    assert_eq!(ProcessState::from_code('S'), ProcessState::Sleeping);
    assert_eq!(ProcessState::from_code('D'), ProcessState::DiskSleep);
    assert_eq!(ProcessState::from_code('Z'), ProcessState::Zombie);
    assert_eq!(ProcessState::from_code('T'), ProcessState::Stopped);
    assert_eq!(ProcessState::from_code('I'), ProcessState::Idle);
}

#[test]
fn unmapped_state_codes_are_unknown() {
    for code in ['X', 't', 'W', 'r', 's', ' ', '\0', 'é'] {
        assert_eq!(ProcessState::from_code(code), ProcessState::Unknown);
    }
}

#[test]
fn record_of_raw_report() {
    let record = ProcessRecord::from_raw(&raw('S', 30, 12));
    assert_eq!(
        record,
        ProcessRecord {
            pid: 12,
            ppid: 1,
            name: String::from("worker"),
            state_code: ProcessState::Sleeping,
            state_letter: 'S',
            cpu_ticks: 42,
            virtual_memory_bytes: 4096,
            resident_memory_bytes: 1024,
            priority: 20,
            start_ticks: 555,
        }
    );
}

#[test]
fn tick_sum_stops_at_the_largest_counter() {
    assert_eq!(ProcessRecord::from_raw(&raw('R', u64::MAX, 1)).cpu_ticks, u64::MAX);
    assert_eq!(ProcessRecord::from_raw(&raw('R', u64::MAX - 1, 1)).cpu_ticks, u64::MAX);
    assert_eq!(ProcessRecord::from_raw(&raw('R', u64::MAX, u64::MAX)).cpu_ticks, u64::MAX);
}

#[test]
fn clone_equals_the_record() {
    let record = ProcessRecord::from_raw(&raw('Q', 1, 2));
    assert_eq!(record.clone(), record);
    assert_eq!(record.state_code, ProcessState::Unknown);
}

#[test]
fn record_keeps_the_letter_of_an_unknown_state() {
    let record = ProcessRecord::from_raw(&raw('t', 1, 2));
    assert_eq!(record.state_code, ProcessState::Unknown);
    assert_eq!(record.state_letter, 't');
}
