//! Lifecycle decisions for the managed child process.
//!
//! The supervisor owns the child exclusively and is driven by commands and
//! observations; each event maps to at most one action for the surrounding
//! runtime to carry out (spawn, signal, force-kill). A graceful restart or
//! stop signals the child and waits a bounded grace period before the kill
//! is forced; an unexpected exit is reported upward rather than handled
//! here, restart policy being the surrounding system's concern.

use vstd::prelude::*;

verus! {

/// Saturating addition on u64, used for deadlines and counters.
pub open spec fn sat_add(a: u64, b: u64) -> u64 {
    if a + b > u64::MAX {
        u64::MAX
    } else {
        (a + b) as u64
    }
}

/// Executable saturating addition.
pub fn sat_add_exec(a: u64, b: u64) -> (r: u64)
    ensures
        r == sat_add(a, b),
{
    if b <= u64::MAX - a {
        a + b
    } else {
        u64::MAX
    }
}

/// Where the managed process currently stands.
#[derive(Clone, Copy, PartialEq, Eq, Structural, Debug)]
pub enum ProcState {
    /// No child running: initial, after a stop, or after an unexpected exit.
    Idle,
    /// The current generation runs the artifact with this content hash.
    Running { hash: u64 },
    /// A graceful restart: the child was signalled and has until `deadline`
    /// to exit before the kill is forced; the next generation will run the
    /// artifact with `next_hash`.
    Draining { deadline: u64, next_hash: u64, forced: bool },
    /// A graceful stop: signalled, force-kill once `deadline` passes.
    Stopping { deadline: u64, forced: bool },
}

/// What the surrounding runtime must now do to the real child process.
#[derive(Clone, Copy, PartialEq, Eq, Structural, Debug)]
pub enum ProcAction {
    Nothing,
    Spawn { generation: u64, hash: u64 },
    SignalTerm { generation: u64 },
    ForceKill { generation: u64 },
}

/// Commands from the control loop and observations from the runtime.
#[derive(Clone, Copy, PartialEq, Eq, Structural, Debug)]
pub enum ProcEvent {
    /// Start the child with an artifact of this hash.
    Start { hash: u64 },
    /// Graceful restart onto an artifact of this hash, at instant `now`.
    Restart { hash: u64, now: u64 },
    /// Graceful stop, at instant `now`.
    Stop { now: u64 },
    /// The child exited with this status.
    ChildExited { status: i32 },
    /// The clock reached `now` with no other event.
    TimePassed { now: u64 },
}

/// The managed child's supervisor: its state, the generation counter, and
/// the grace period granted before a kill is forced.
pub struct ProcessSupervisor {
    pub state: ProcState,
    pub generation: u64,
    pub grace: u64,
}

/// The supervisor's whole transition function: next state, the action the
/// runtime must perform, and the exit status to report upward, if any.
pub open spec fn proc_step(s: ProcessSupervisor, ev: ProcEvent) -> (
    ProcessSupervisor,
    ProcAction,
    Option<i32>,
) {
    match ev {
        ProcEvent::Start { hash } => match s.state {
            ProcState::Idle => (
                ProcessSupervisor {
                    state: ProcState::Running { hash },
                    generation: sat_add(s.generation, 1),
                    grace: s.grace,
                },
                ProcAction::Spawn { generation: sat_add(s.generation, 1), hash },
                Option::None,
            ),
            _ => (s, ProcAction::Nothing, Option::None),
        },
        ProcEvent::Restart { hash, now } => match s.state {
            ProcState::Running { hash: _ } => (
                ProcessSupervisor {
                    state: ProcState::Draining {
                        deadline: sat_add(now, s.grace),
                        next_hash: hash,
                        forced: false,
                    },
                    generation: s.generation,
                    grace: s.grace,
                },
                ProcAction::SignalTerm { generation: s.generation },
                Option::None,
            ),
            _ => (s, ProcAction::Nothing, Option::None),
        },
        ProcEvent::Stop { now } => match s.state {
            ProcState::Running { hash: _ } => (
                ProcessSupervisor {
                    state: ProcState::Stopping { deadline: sat_add(now, s.grace), forced: false },
                    generation: s.generation,
                    grace: s.grace,
                },
                ProcAction::SignalTerm { generation: s.generation },
                Option::None,
            ),
            _ => (s, ProcAction::Nothing, Option::None),
        },
        ProcEvent::ChildExited { status } => match s.state {
            ProcState::Running { hash: _ } => (
                ProcessSupervisor {
                    state: ProcState::Idle,
                    generation: s.generation,
                    grace: s.grace,
                },
                ProcAction::Nothing,
                Option::Some(status),
            ),
            ProcState::Draining { deadline: _, next_hash, forced: _ } => (
                ProcessSupervisor {
                    state: ProcState::Running { hash: next_hash },
                    generation: sat_add(s.generation, 1),
                    grace: s.grace,
                },
                ProcAction::Spawn { generation: sat_add(s.generation, 1), hash: next_hash },
                Option::None,
            ),
            ProcState::Stopping { deadline: _, forced: _ } => (
                ProcessSupervisor {
                    state: ProcState::Idle,
                    generation: s.generation,
                    grace: s.grace,
                },
                ProcAction::Nothing,
                Option::None,
            ),
            ProcState::Idle => (s, ProcAction::Nothing, Option::None),
        },
        ProcEvent::TimePassed { now } => match s.state {
            ProcState::Draining { deadline, next_hash, forced } => if !forced && now >= deadline {
                (
                    ProcessSupervisor {
                        state: ProcState::Draining { deadline, next_hash, forced: true },
                        generation: s.generation,
                        grace: s.grace,
                    },
                    ProcAction::ForceKill { generation: s.generation },
                    Option::None,
                )
            } else {
                (s, ProcAction::Nothing, Option::None)
            },
            ProcState::Stopping { deadline, forced } => if !forced && now >= deadline {
                (
                    ProcessSupervisor {
                        state: ProcState::Stopping { deadline, forced: true },
                        generation: s.generation,
                        grace: s.grace,
                    },
                    ProcAction::ForceKill { generation: s.generation },
                    Option::None,
                )
            } else {
                (s, ProcAction::Nothing, Option::None)
            },
            _ => (s, ProcAction::Nothing, Option::None),
        },
    }
}

impl ProcessSupervisor {
    /// A supervisor with no child yet, granting `grace` before forced kills.
    pub fn new(grace: u64) -> (s: Self)
        ensures
            s.state is Idle,
            s.generation == 0,
            s.grace == grace,
    {
        ProcessSupervisor { state: ProcState::Idle, generation: 0, grace }
    }

    /// React to one event: the state moves, the action tells the runtime
    /// what to do, and an unexpected exit's status is handed upward. The
    /// behaviour is exactly `proc_step`; the grace period never changes and
    /// the generation never decreases.
    pub fn handle(&mut self, ev: ProcEvent) -> (r: (ProcAction, Option<i32>))
        ensures
            *final(self) == proc_step(*old(self), ev).0,
            r.0 == proc_step(*old(self), ev).1,
            r.1 == proc_step(*old(self), ev).2,
            final(self).grace == old(self).grace,
            final(self).generation >= old(self).generation,
    {
        match ev {
            ProcEvent::Start { hash } => match self.state {
                ProcState::Idle => {
                    let g = sat_add_exec(self.generation, 1);
                    self.generation = g;
                    self.state = ProcState::Running { hash };
                    (ProcAction::Spawn { generation: g, hash }, None)
                },
                _ => (ProcAction::Nothing, None),
            },
            ProcEvent::Restart { hash, now } => match self.state {
                ProcState::Running { hash: _ } => {
                    let deadline = sat_add_exec(now, self.grace);
                    self.state = ProcState::Draining { deadline, next_hash: hash, forced: false };
                    (ProcAction::SignalTerm { generation: self.generation }, None)
                },
                _ => (ProcAction::Nothing, None),
            },
            ProcEvent::Stop { now } => match self.state {
                ProcState::Running { hash: _ } => {
                    let deadline = sat_add_exec(now, self.grace);
                    self.state = ProcState::Stopping { deadline, forced: false };
                    (ProcAction::SignalTerm { generation: self.generation }, None)
                },
                _ => (ProcAction::Nothing, None),
            },
            ProcEvent::ChildExited { status } => match self.state {
                ProcState::Running { hash: _ } => {
                    self.state = ProcState::Idle;
                    (ProcAction::Nothing, Some(status))
                },
                ProcState::Draining { deadline: _, next_hash, forced: _ } => {
                    let g = sat_add_exec(self.generation, 1);
                    self.generation = g;
                    self.state = ProcState::Running { hash: next_hash };
                    (ProcAction::Spawn { generation: g, hash: next_hash }, None)
                },
                ProcState::Stopping { deadline: _, forced: _ } => {
                    self.state = ProcState::Idle;
                    (ProcAction::Nothing, None)
                },
                ProcState::Idle => (ProcAction::Nothing, None),
            },
            ProcEvent::TimePassed { now } => match self.state {
                ProcState::Draining { deadline, next_hash, forced } => {
                    if !forced && now >= deadline {
                        self.state = ProcState::Draining { deadline, next_hash, forced: true };
                        (ProcAction::ForceKill { generation: self.generation }, None)
                    } else {
                        (ProcAction::Nothing, None)
                    }
                },
                ProcState::Stopping { deadline, forced } => {
                    if !forced && now >= deadline {
                        self.state = ProcState::Stopping { deadline, forced: true };
                        (ProcAction::ForceKill { generation: self.generation }, None)
                    } else {
                        (ProcAction::Nothing, None)
                    }
                },
                _ => (ProcAction::Nothing, None),
            },
        }
    }
}

} // verus!
