//! The ping-pong handshake between the two threads of a core pair.
//!
//! Two participants share two cells. The initiator writes a round number
//! to the forward cell and spins until the same number comes back on the
//! backward cell; the responder spins until it reads the round it expects
//! on the forward cell and echoes it on the backward cell. Each side is a
//! small state machine here: it says what to do next (write a value, or
//! read the other side's cell) and is told what came of it. The thread
//! that owns a participant does the writing, the reading and the spinning.
//!
//! The second half of the module puts two participants and two plain
//! integers together, lets them take steps in any order, and proves that
//! they stay in lockstep whatever the order.

use vstd::prelude::*;
use crate::params::MeasurementParameters;

verus! {

/// What a cell holds before any round has been published.
pub const IDLE: isize = -1;

/// The two sides of the handshake.
#[derive(Debug, Clone, Copy, PartialEq, Eq, Structural)]
pub enum Role {
    /// Publishes on the forward cell, listens on the backward cell, and
    /// is the side that is timed.
    Initiator,
    /// Listens on the forward cell and echoes on the backward cell.
    Responder,
}

/// The two cells of a channel, one for each direction.
#[derive(Debug, Clone, Copy, PartialEq, Eq, Structural)]
pub enum Direction {
    /// From the initiator to the responder.
    Forward,
    /// From the responder back to the initiator.
    Backward,
}

impl Role {
    /// The cell that this side writes. No one else writes it.
    pub open spec fn spec_outgoing(self) -> Direction {
        match self {
            Role::Initiator => Direction::Forward,
            Role::Responder => Direction::Backward,
        }
    }

    /// The cell that this side reads. No one else reads it.
    pub open spec fn spec_incoming(self) -> Direction {
        match self {
            Role::Initiator => Direction::Backward,
            Role::Responder => Direction::Forward,
        }
    }

    /// The cell that this side writes.
    #[verifier::when_used_as_spec(spec_outgoing)]
    pub fn outgoing(self) -> (d: Direction)
        ensures
            d == self.spec_outgoing(),
    {
        match self {
            Role::Initiator => Direction::Forward,
            Role::Responder => Direction::Backward,
        }
    }

    /// The cell that this side reads.
    #[verifier::when_used_as_spec(spec_incoming)]
    pub fn incoming(self) -> (d: Direction)
        ensures
            d == self.spec_incoming(),
    {
        match self {
            Role::Initiator => Direction::Backward,
            Role::Responder => Direction::Forward,
        }
    }
}

/// Where a participant stands within its current round.
#[derive(Debug, Clone, Copy, PartialEq, Eq, Structural)]
pub enum Phase {
    /// It has a round number to write to its own cell.
    Publishing,
    /// It is spinning on the other side's cell.
    Awaiting,
    /// All rounds are done.
    Finished,
}

/// What a participant asks of the thread that owns it.
#[derive(Debug, Clone, Copy, PartialEq, Eq, Structural)]
pub enum Action {
    /// Store this round number in the participant's own cell, with release
    /// ordering, then report `published`.
    Publish(isize),
    /// Load the other side's cell, with acquire ordering, and report the
    /// value with `observed`.
    Observe,
    /// Nothing is left to do.
    Finish,
}

/// The mathematical state of one participant.
pub struct ParticipantState {
    pub role: Role,
    /// Rounds in this repetition.
    pub rounds: int,
    /// The round in progress; equal to `rounds` once finished.
    pub round: int,
    pub phase: Phase,
}

impl ParticipantState {
    /// The phase in which a side begins each round.
    pub open spec fn opening_phase(role: Role) -> Phase {
        match role {
            Role::Initiator => Phase::Publishing,
            Role::Responder => Phase::Awaiting,
        }
    }

    pub open spec fn wf(self) -> bool {
        &&& 1 <= self.rounds <= isize::MAX
        &&& match self.phase {
            Phase::Finished => self.round == self.rounds,
            Phase::Publishing => 0 <= self.round < self.rounds,
            Phase::Awaiting => 0 <= self.round < self.rounds,
        }
    }

    /// A participant at the start of a repetition.
    pub open spec fn start(role: Role, rounds: int) -> ParticipantState {
        ParticipantState { role, rounds, round: 0, phase: Self::opening_phase(role) }
    }

    /// What the participant wants done next.
    pub open spec fn action(self) -> Action {
        match self.phase {
            Phase::Publishing => Action::Publish(self.round as isize),
            Phase::Awaiting => Action::Observe,
            Phase::Finished => Action::Finish,
        }
    }

    /// The state once the current round is over.
    pub open spec fn next_round(self) -> ParticipantState {
        if self.round + 1 < self.rounds {
            ParticipantState {
                round: self.round + 1,
                phase: Self::opening_phase(self.role),
                ..self
            }
        } else {
            ParticipantState { round: self.rounds, phase: Phase::Finished, ..self }
        }
    }

    /// The state after the participant's own cell was written. Nothing
    /// changes unless a write was due.
    pub open spec fn after_publish(self) -> ParticipantState {
        if self.phase != Phase::Publishing {
            self
        } else {
            match self.role {
                Role::Initiator => ParticipantState { phase: Phase::Awaiting, ..self },
                Role::Responder => self.next_round(),
            }
        }
    }

    /// Whether a value read from the other side's cell ends the wait.
    pub open spec fn accepts(self, value: int) -> bool {
        self.phase == Phase::Awaiting && value == self.round
    }

    /// The state after a value was read from the other side's cell. Any
    /// value but the awaited round leaves the participant spinning.
    pub open spec fn after_observe(self, value: int) -> ParticipantState {
        if !self.accepts(value) {
            self
        } else {
            match self.role {
                Role::Initiator => self.next_round(),
                Role::Responder => ParticipantState { phase: Phase::Publishing, ..self },
            }
        }
    }

    /// How many round numbers the participant has written so far.
    pub open spec fn published(self) -> int {
        match (self.role, self.phase) {
            (Role::Initiator, Phase::Awaiting) => self.round + 1,
            _ => self.round,
        }
    }

    /// How many round numbers the participant has read and accepted.
    pub open spec fn accepted(self) -> int {
        match (self.role, self.phase) {
            (Role::Responder, Phase::Publishing) => self.round + 1,
            _ => self.round,
        }
    }
}

/// One side of the handshake for one repetition.
#[derive(Debug, Clone, Copy)]
pub struct Participant {
    role: Role,
    rounds: isize,
    round: isize,
    phase: Phase,
}

impl View for Participant {
    type V = ParticipantState;

    closed spec fn view(&self) -> ParticipantState {
        ParticipantState {
            role: self.role,
            rounds: self.rounds as int,
            round: self.round as int,
            phase: self.phase,
        }
    }
}

impl Participant {
    /// A participant at the start of a repetition of `params.rounds()`
    /// rounds.
    pub fn new(role: Role, params: &MeasurementParameters) -> (p: Participant)
        requires
            params.wf(),
        ensures
            p@ == ParticipantState::start(role, params.rounds()),
            p@.wf(),
    {
        let phase = match role {
            Role::Initiator => Phase::Publishing,
            Role::Responder => Phase::Awaiting,
        };
        Participant { role, rounds: params.sample_count(), round: 0, phase }
    }

    /// What the owning thread has to do next.
    pub fn action(&self) -> (a: Action)
        requires
            self@.wf(),
        ensures
            a == self@.action(),
    {
        match self.phase {
            Phase::Publishing => Action::Publish(self.round),
            Phase::Awaiting => Action::Observe,
            Phase::Finished => Action::Finish,
        }
    }

    /// Whether all rounds are done.
    pub fn is_finished(&self) -> (b: bool)
        ensures
            b == (self@.phase == Phase::Finished),
    {
        match self.phase {
            Phase::Finished => true,
            _ => false,
        }
    }

    /// The side this participant plays.
    pub fn role(&self) -> (r: Role)
        ensures
            r == self@.role,
    {
        self.role
    }

    /// The round in progress, or the number of rounds once finished.
    pub fn round(&self) -> (n: isize)
        ensures
            n == self@.round,
    {
        self.round
    }

    fn finish_round(&mut self)
        requires
            old(self)@.wf(),
            old(self)@.phase != Phase::Finished,
        ensures
            final(self)@ == old(self)@.next_round(),
            final(self)@.wf(),
    {
        if self.round + 1 < self.rounds {
            self.round = self.round + 1;
            self.phase = match self.role {
                Role::Initiator => Phase::Publishing,
                Role::Responder => Phase::Awaiting,
            };
        } else {
            self.round = self.rounds;
            self.phase = Phase::Finished;
        }
    }

    /// Tells the participant that its own cell now holds the round number
    /// it asked to publish.
    pub fn published(&mut self)
        requires
            old(self)@.wf(),
        ensures
            final(self)@ == old(self)@.after_publish(),
            final(self)@.wf(),
    {
        match self.phase {
            Phase::Publishing => {
                match self.role {
                    Role::Initiator => {
                        self.phase = Phase::Awaiting;
                    },
                    Role::Responder => {
                        self.finish_round();
                    },
                }
            },
            _ => {},
        }
    }

    /// Tells the participant what it read from the other side's cell, and
    /// returns whether that ended its wait.
    pub fn observed(&mut self, value: isize) -> (accepted: bool)
        requires
            old(self)@.wf(),
        ensures
            accepted == old(self)@.accepts(value as int),
            final(self)@ == old(self)@.after_observe(value as int),
            final(self)@.wf(),
    {
        match self.phase {
            Phase::Awaiting => {
                if value == self.round {
                    match self.role {
                        Role::Initiator => {
                            self.finish_round();
                        },
                        Role::Responder => {
                            self.phase = Phase::Publishing;
                        },
                    }
                    true
                } else {
                    false
                }
            },
            _ => false,
        }
    }
}

} // verus!
