//! One sampled process: its scheduling state and its raw counters.

use vstd::prelude::*;

verus! {

/// The scheduling state of a process, as the single-letter code of the
/// operating system names it.
#[derive(Clone, Copy, Debug, PartialEq, Eq, Structural)]
pub enum ProcessState {
    Running,
    Sleeping,
    DiskSleep,
    Zombie,
    Stopped,
    Idle,
    Unknown,
}

impl ProcessState {
    /// The state that a one-letter code stands for; a code outside the table
    /// is `Unknown`.
    pub open spec fn of_code(code: char) -> ProcessState {
        if code == 'R' {
            ProcessState::Running
        } else if code == 'S' {
            ProcessState::Sleeping
        } else if code == 'D' {
            ProcessState::DiskSleep
        } else if code == 'Z' {
            ProcessState::Zombie
        } else if code == 'T' {
            ProcessState::Stopped
        } else if code == 'I' {
            ProcessState::Idle
        } else {
            ProcessState::Unknown
        }
    }

    /// Maps a one-letter state code to the state; never fails.
    pub fn from_code(code: char) -> (state: ProcessState)
        ensures
            state == Self::of_code(code),
    {
        match code {
            'R' => ProcessState::Running,
            'S' => ProcessState::Sleeping,
            'D' => ProcessState::DiskSleep,
            'Z' => ProcessState::Zombie,
            'T' => ProcessState::Stopped,
            'I' => ProcessState::Idle,
            _ => ProcessState::Unknown,
        }
    }

    /// The place of a state when the table is ordered by state: the
    /// alphabetical order of the labels.
    pub open spec fn rank(self) -> int {
        match self {
            ProcessState::DiskSleep => 0,
            ProcessState::Idle => 1,
            ProcessState::Running => 2,
            ProcessState::Sleeping => 3,
            ProcessState::Stopped => 4,
            ProcessState::Unknown => 5,
            ProcessState::Zombie => 6,
        }
    }

    /// Computes `rank`.
    pub fn rank_value(self) -> (r: u8)
        ensures
            r == self.rank(),
    {
        match self {
            ProcessState::DiskSleep => 0,
            ProcessState::Idle => 1,
            ProcessState::Running => 2,
            ProcessState::Sleeping => 3,
            ProcessState::Stopped => 4,
            ProcessState::Unknown => 5,
            ProcessState::Zombie => 6,
        }
    }
}

/// One process as the operating system reports it, before any
/// interpretation.
#[derive(Debug, PartialEq, Eq)]
pub struct RawStat {
    pub pid: i32,
    pub ppid: i32,
    pub name: String,
    pub state_code: char,
    pub user_ticks: u64,
    pub system_ticks: u64,
    pub virtual_memory_bytes: u64,
    pub resident_memory_bytes: u64,
    pub priority: i64,
    pub start_ticks: u64,
}

/// One process within a snapshot. `cpu_ticks` is the total since the process
/// started, not a rate.
#[derive(Debug, PartialEq, Eq)]
pub struct ProcessRecord {
    pub pid: i32,
    pub ppid: i32,
    pub name: String,
    /// The state, decoded from `state_letter`.
    pub state_code: ProcessState,
    /// The one-letter state code as the operating system gave it.
    pub state_letter: char,
    pub cpu_ticks: u64,
    pub virtual_memory_bytes: u64,
    pub resident_memory_bytes: u64,
    pub priority: i64,
    pub start_ticks: u64,
}

/// The sum of two tick counters, held at the largest value when it would
/// not fit.
pub open spec fn total_ticks(user_ticks: u64, system_ticks: u64) -> u64 {
    if user_ticks + system_ticks > u64::MAX {
        u64::MAX
    } else {
        (user_ticks + system_ticks) as u64
    }
}

impl ProcessRecord {
    /// The record that a raw report stands for: the state decoded, the two
    /// tick counters added, the rest taken over.
    pub open spec fn of_raw(raw: RawStat) -> ProcessRecord {
        ProcessRecord {
            pid: raw.pid,
            ppid: raw.ppid,
            name: raw.name,
            state_code: ProcessState::of_code(raw.state_code),
            state_letter: raw.state_code,
            cpu_ticks: total_ticks(raw.user_ticks, raw.system_ticks),
            virtual_memory_bytes: raw.virtual_memory_bytes,
            resident_memory_bytes: raw.resident_memory_bytes,
            priority: raw.priority,
            start_ticks: raw.start_ticks,
        }
    }

    /// The state is the decoding of the letter, as it is in every record
    /// made from a raw report.
    pub open spec fn is_decoded(self) -> bool {
        self.state_code == ProcessState::of_code(self.state_letter)
    }

    /// Interprets a raw report.
    pub fn from_raw(raw: &RawStat) -> (record: ProcessRecord)
        ensures
            record == Self::of_raw(*raw),
            record.is_decoded(),
    {
        ProcessRecord {
            pid: raw.pid,
            ppid: raw.ppid,
            name: raw.name.clone(),
            state_code: ProcessState::from_code(raw.state_code),
            state_letter: raw.state_code,
            cpu_ticks: raw.user_ticks.saturating_add(raw.system_ticks),
            virtual_memory_bytes: raw.virtual_memory_bytes,
            resident_memory_bytes: raw.resident_memory_bytes,
            priority: raw.priority,
            start_ticks: raw.start_ticks,
        }
    }
}

impl Clone for ProcessRecord {
    /// A copy equal to the record in every field.
    fn clone(&self) -> (copy: ProcessRecord)
        ensures
            copy == *self,
    {
        ProcessRecord {
            pid: self.pid,
            ppid: self.ppid,
            name: self.name.clone(),
            state_code: self.state_code,
            state_letter: self.state_letter,
            cpu_ticks: self.cpu_ticks,
            virtual_memory_bytes: self.virtual_memory_bytes,
            resident_memory_bytes: self.resident_memory_bytes,
            priority: self.priority,
            start_ticks: self.start_ticks,
        }
    }
}

} // verus!
