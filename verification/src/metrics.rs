//! The figures derived from the raw counters: shares of a total, held
//! exactly, and the readable classes of a state and of a priority.

use vstd::prelude::*;
use crate::record::ProcessState;

verus! {

/// A percentage held as the exact fraction `numerator / denominator`, so
/// that `10 %` is `1000 / 100` as well as `10 / 1`. A well-formed percentage
/// has a positive denominator and a numerator of at most a hundred times the
/// largest counter.
#[derive(Clone, Copy, Debug, PartialEq, Eq, Structural)]
pub struct Percent {
    pub numerator: u128,
    pub denominator: u128,
}

impl Percent {
    /// The denominator is positive and the numerator is a hundred times
    /// some 64-bit counter at most.
    pub open spec fn wf(self) -> bool {
        &&& self.denominator > 0
        &&& self.numerator <= 100 * u64::MAX
    }

    /// The percentage is zero.
    pub open spec fn is_zero(self) -> bool {
        self.numerator == 0
    }

    /// The percentage is larger than `other`.
    pub open spec fn exceeds(self, other: Percent) -> bool {
        self.numerator * other.denominator > other.numerator * self.denominator
    }

    /// The percentage in hundredths of a percent, rounded down.
    pub open spec fn hundredths_spec(self) -> int {
        self.numerator * 100 / (self.denominator as int)
    }

    /// The percentage in hundredths of a percent, rounded down; `10 %` gives
    /// `1000`.
    pub fn hundredths(&self) -> (h: u128)
        requires
            self.wf(),
        ensures
            h == self.hundredths_spec(),
    {
        self.numerator * 100 / self.denominator
    }
}

/// `part` out of `whole` as a percentage, and zero where `whole` is zero.
pub open spec fn percent_of(part: int, whole: int) -> Percent
    recommends
        0 <= part <= u64::MAX,
        0 <= whole <= u128::MAX,
{
    if whole == 0 {
        Percent { numerator: 0, denominator: 1 }
    } else {
        Percent { numerator: (100 * part) as u128, denominator: whole as u128 }
    }
}

/// A share of a counter in a total is a well-formed percentage.
pub proof fn lemma_percent_of_wf(part: u64, whole: u128)
    ensures
        percent_of(part as int, whole as int).wf(),
        whole == 0 ==> percent_of(part as int, whole as int).is_zero(),
{
}

/// The share of the processor time that a process has had: `ticks` out of
/// the system-wide `total_ticks`, and zero where that total is zero.
pub fn cpu_percent(ticks: u64, total_ticks: u64) -> (p: Percent)
    ensures
        p == percent_of(ticks as int, total_ticks as int),
        p.wf(),
        total_ticks == 0 ==> p.is_zero(),
        total_ticks != 0 ==> p.numerator == 100 * ticks && p.denominator == total_ticks,
{
    if total_ticks == 0 {
        Percent { numerator: 0, denominator: 1 }
    } else {
        let part: u128 = ticks as u128;
        Percent { numerator: 100 * part, denominator: total_ticks as u128 }
    }
}

/// The share of the sampled memory that a process holds: `bytes` out of
/// `total_bytes`, the sum over the sample, and zero where that sum is zero.
pub fn memory_percent(bytes: u64, total_bytes: u128) -> (p: Percent)
    ensures
        p == percent_of(bytes as int, total_bytes as int),
        p.wf(),
        total_bytes == 0 ==> p.is_zero(),
        total_bytes != 0 ==> p.numerator == 100 * bytes && p.denominator == total_bytes,
{
    if total_bytes == 0 {
        Percent { numerator: 0, denominator: 1 }
    } else {
        let part: u128 = bytes as u128;
        Percent { numerator: 100 * part, denominator: total_bytes }
    }
}

/// The readable name of a state.
pub open spec fn state_label_spec(state: ProcessState) -> Seq<char> {
    match state {
        ProcessState::Running => "Running"@,
        ProcessState::Sleeping => "Sleeping"@,
        ProcessState::DiskSleep => "Disk Sleep"@,
        ProcessState::Zombie => "Zombie"@,
        ProcessState::Stopped => "Stopped"@,
        ProcessState::Idle => "Idle"@,
        ProcessState::Unknown => "Unknown"@,
    }
}

/// The readable name of a state; `Unknown` has one too.
pub fn state_label(state: ProcessState) -> (label: &'static str)
    ensures
        label@ == state_label_spec(state),
{
    match state {
        ProcessState::Running => "Running",
        ProcessState::Sleeping => "Sleeping",
        ProcessState::DiskSleep => "Disk Sleep",
        ProcessState::Zombie => "Zombie",
        ProcessState::Stopped => "Stopped",
        ProcessState::Idle => "Idle",
        ProcessState::Unknown => "Unknown",
    }
}

/// How favourably a priority value schedules a process.
#[derive(Clone, Copy, Debug, PartialEq, Eq, Structural)]
pub enum PriorityBucket {
    High,
    Normal,
    Low,
}

/// Zero and below is `High`, up to twenty is `Normal`, above is `Low`.
pub open spec fn priority_bucket_spec(priority: int) -> PriorityBucket {
    if priority <= 0 {
        PriorityBucket::High
    } else if priority <= 20 {
        PriorityBucket::Normal
    } else {
        PriorityBucket::Low
    }
}

/// Classifies a priority value.
pub fn priority_bucket(priority: i64) -> (bucket: PriorityBucket)
    ensures
        bucket == priority_bucket_spec(priority as int),
{
    if priority <= 0 {
        PriorityBucket::High
    } else if priority <= 20 {
        PriorityBucket::Normal
    } else {
        PriorityBucket::Low
    }
}

/// The readable name of a bucket.
pub open spec fn priority_label_spec(bucket: PriorityBucket) -> Seq<char> {
    match bucket {
        PriorityBucket::High => "High"@,
        PriorityBucket::Normal => "Normal"@,
        PriorityBucket::Low => "Low"@,
    }
}

/// The readable name of a bucket.
pub fn priority_label(bucket: PriorityBucket) -> (label: &'static str)
    ensures
        label@ == priority_label_spec(bucket),
{
    match bucket {
        PriorityBucket::High => "High",
        PriorityBucket::Normal => "Normal",
        PriorityBucket::Low => "Low",
    }
}

} // verus!
