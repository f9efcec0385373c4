//! The state filter: the set of process states that the table shows.

use vstd::prelude::*;
use crate::record::ProcessState;

verus! {

/// A set of process states. The empty set filters nothing out.
#[derive(Clone, Copy, Debug, PartialEq, Eq, Structural)]
pub struct StateFilter {
    pub running: bool,
    pub sleeping: bool,
    pub disk_sleep: bool,
    pub zombie: bool,
    pub stopped: bool,
    pub idle: bool,
    pub unknown: bool,
}

impl View for StateFilter {
    type V = Set<ProcessState>;

    open spec fn view(&self) -> Set<ProcessState> {
        Set::new(|state: ProcessState| self.allows(state))
    }
}

impl StateFilter {
    /// `state` is a member of the set.
    pub open spec fn allows(self, state: ProcessState) -> bool {
        match state {
            ProcessState::Running => self.running,
            ProcessState::Sleeping => self.sleeping,
            ProcessState::DiskSleep => self.disk_sleep,
            ProcessState::Zombie => self.zombie,
            ProcessState::Stopped => self.stopped,
            ProcessState::Idle => self.idle,
            ProcessState::Unknown => self.unknown,
        }
    }

    /// No state is a member.
    pub open spec fn is_empty_spec(self) -> bool {
        forall|state: ProcessState| !self.allows(state)
    }

    /// A record in `state` is kept: the set is empty or holds the state.
    pub open spec fn passes(self, state: ProcessState) -> bool {
        self.is_empty_spec() || self.allows(state)
    }

    /// The set that holds no state.
    pub open spec fn no_state() -> StateFilter {
        StateFilter {
            running: false,
            sleeping: false,
            disk_sleep: false,
            zombie: false,
            stopped: false,
            idle: false,
            unknown: false,
        }
    }

    /// Only the set that holds no state is empty.
    pub proof fn lemma_empty_is_no_state(self)
        ensures
            self.is_empty_spec() <==> self == Self::no_state(),
    {
        if self.is_empty_spec() {
            assert(!self.allows(ProcessState::Running));
            assert(!self.allows(ProcessState::Sleeping));
            assert(!self.allows(ProcessState::DiskSleep));
            assert(!self.allows(ProcessState::Zombie));
            assert(!self.allows(ProcessState::Stopped));
            assert(!self.allows(ProcessState::Idle));
            assert(!self.allows(ProcessState::Unknown));
        }
    }

    /// The set with `state` added.
    pub open spec fn with(self, state: ProcessState) -> StateFilter {
        match state {
            ProcessState::Running => StateFilter { running: true, ..self },
            ProcessState::Sleeping => StateFilter { sleeping: true, ..self },
            ProcessState::DiskSleep => StateFilter { disk_sleep: true, ..self },
            ProcessState::Zombie => StateFilter { zombie: true, ..self },
            ProcessState::Stopped => StateFilter { stopped: true, ..self },
            ProcessState::Idle => StateFilter { idle: true, ..self },
            ProcessState::Unknown => StateFilter { unknown: true, ..self },
        }
    }

    /// The empty set.
    pub fn empty() -> (filter: StateFilter)
        ensures
            filter.is_empty_spec(),
            filter@ == Set::<ProcessState>::empty(),
    {
        let filter = StateFilter {
            running: false,
            sleeping: false,
            disk_sleep: false,
            zombie: false,
            stopped: false,
            idle: false,
            unknown: false,
        };
        assert(filter@ =~= Set::<ProcessState>::empty());
        filter
    }

    /// Adds `state` to the set.
    pub fn insert(&mut self, state: ProcessState)
        ensures
            *final(self) == old(self).with(state),
            final(self)@ == old(self)@.insert(state),
    {
        match state {
            ProcessState::Running => self.running = true,
            ProcessState::Sleeping => self.sleeping = true,
            ProcessState::DiskSleep => self.disk_sleep = true,
            ProcessState::Zombie => self.zombie = true,
            ProcessState::Stopped => self.stopped = true,
            ProcessState::Idle => self.idle = true,
            ProcessState::Unknown => self.unknown = true,
        }
        assert(self@ =~= old(self)@.insert(state));
    }

    /// Whether `state` is a member.
    pub fn contains(&self, state: ProcessState) -> (member: bool)
        ensures
            member == self.allows(state),
            member == self@.contains(state),
    {
        match state {
            ProcessState::Running => self.running,
            ProcessState::Sleeping => self.sleeping,
            ProcessState::DiskSleep => self.disk_sleep,
            ProcessState::Zombie => self.zombie,
            ProcessState::Stopped => self.stopped,
            ProcessState::Idle => self.idle,
            ProcessState::Unknown => self.unknown,
        }
    }

    /// Whether the set is empty.
    pub fn is_empty(&self) -> (none: bool)
        ensures
            none == self.is_empty_spec(),
            none == (self@ == Set::<ProcessState>::empty()),
    {
        let none = !(self.running || self.sleeping || self.disk_sleep || self.zombie
            || self.stopped || self.idle || self.unknown);
        proof {
            if none {
                assert(self@ =~= Set::<ProcessState>::empty());
            } else {
                assert(self.allows(ProcessState::Running) || self.allows(ProcessState::Sleeping)
                    || self.allows(ProcessState::DiskSleep) || self.allows(ProcessState::Zombie)
                    || self.allows(ProcessState::Stopped) || self.allows(ProcessState::Idle)
                    || self.allows(ProcessState::Unknown));
                assert(self@.contains(ProcessState::Running) || self@.contains(
                    ProcessState::Sleeping,
                ) || self@.contains(ProcessState::DiskSleep) || self@.contains(ProcessState::Zombie)
                    || self@.contains(ProcessState::Stopped) || self@.contains(ProcessState::Idle)
                    || self@.contains(ProcessState::Unknown));
            }
        }
        none
    }

    /// Whether a record in `state` is kept.
    pub fn keeps(&self, state: ProcessState) -> (kept: bool)
        ensures
            kept == self.passes(state),
    {
        self.is_empty() || self.contains(state)
    }
}

} // verus!
