//! Two participants on a channel without time.
//!
//! The real channel is a pair of atomic cells touched by two threads. Here
//! the cells are two integers and the threads are a schedule: a sequence
//! that says which side takes the next step. A step is one action of that
//! side, carried out on the integers. The module proves that under every
//! schedule the two sides stay in lockstep, that neither can run ahead of
//! the other, that some side can always move until both are done, and
//! that at the end each side has heard every round once and in order.

use vstd::prelude::*;
use crate::params::MeasurementParameters;
use crate::protocol::{Action, Participant, ParticipantState, Phase, Role, IDLE};

verus! {

/// The rounds `0, 1, .., n - 1` in order.
pub open spec fn count_up(n: int) -> Seq<int> {
    Seq::new(n as nat, |k: int| k)
}

/// The mathematical state of a handshake: both cells, both sides, and
/// what each side has accepted from the other so far.
pub struct Handshake {
    pub forward: int,
    pub backward: int,
    pub initiator: ParticipantState,
    pub responder: ParticipantState,
    pub initiator_heard: Seq<int>,
    pub responder_heard: Seq<int>,
}

impl Handshake {
    /// Both sides at the start of a repetition, on cells that hold the
    /// given values.
    pub open spec fn start(rounds: int, forward: int, backward: int) -> Handshake {
        Handshake {
            forward,
            backward,
            initiator: ParticipantState::start(Role::Initiator, rounds),
            responder: ParticipantState::start(Role::Responder, rounds),
            initiator_heard: Seq::empty(),
            responder_heard: Seq::empty(),
        }
    }

    /// One action of one side.
    pub open spec fn step(self, who: Role) -> Handshake {
        match who {
            Role::Initiator => match self.initiator.phase {
                Phase::Publishing => Handshake {
                    forward: self.initiator.round,
                    initiator: self.initiator.after_publish(),
                    ..self
                },
                Phase::Awaiting => Handshake {
                    initiator: self.initiator.after_observe(self.backward),
                    initiator_heard: if self.initiator.accepts(self.backward) {
                        self.initiator_heard.push(self.backward)
                    } else {
                        self.initiator_heard
                    },
                    ..self
                },
                Phase::Finished => self,
            },
            Role::Responder => match self.responder.phase {
                Phase::Publishing => Handshake {
                    backward: self.responder.round,
                    responder: self.responder.after_publish(),
                    ..self
                },
                Phase::Awaiting => Handshake {
                    responder: self.responder.after_observe(self.forward),
                    responder_heard: if self.responder.accepts(self.forward) {
                        self.responder_heard.push(self.forward)
                    } else {
                        self.responder_heard
                    },
                    ..self
                },
                Phase::Finished => self,
            },
        }
    }

    /// The state after the sides have stepped in the order that the
    /// schedule gives.
    pub open spec fn run(self, schedule: Seq<Role>) -> Handshake
        decreases schedule.len(),
    {
        if schedule.len() == 0 {
            self
        } else {
            self.run(schedule.drop_last()).step(schedule.last())
        }
    }

    /// Both sides are done.
    pub open spec fn finished(self) -> bool {
        self.initiator.phase == Phase::Finished && self.responder.phase == Phase::Finished
    }

    /// Writes and accepted reads that are still to come.
    pub open spec fn remaining(self) -> int {
        4 * self.initiator.rounds - (self.initiator.published() + self.initiator.accepted()
            + self.responder.published() + self.responder.accepted())
    }

    /// The two sides are never more than one action apart.
    ///
    /// The initiator has accepted no more echoes than the responder has
    /// written, the responder has written no more than it has accepted,
    /// it has accepted no more than the initiator has written, and the
    /// initiator has written at most one round beyond the echoes it has
    /// accepted. Each cell holds the last round written to it, and each
    /// side has heard the rounds from zero up, one after the other.
    pub open spec fn in_lockstep(self) -> bool {
        let i = self.initiator;
        let r = self.responder;
        &&& i.wf() && r.wf()
        &&& i.role == Role::Initiator && r.role == Role::Responder
        &&& i.rounds == r.rounds
        &&& i.accepted() <= r.published() <= r.accepted() <= i.published() <= i.accepted() + 1
        &&& if i.published() > 0 {
            self.forward == i.published() - 1
        } else {
            self.forward != 0
        }
        &&& if r.published() > 0 {
            self.backward == r.published() - 1
        } else {
            self.backward != 0
        }
        &&& self.initiator_heard == count_up(i.accepted())
        &&& self.responder_heard == count_up(r.accepted())
    }
}

/// A repetition that starts on cells that do not hold round zero starts
/// in lockstep. A fresh channel holds `IDLE` in both cells.
pub proof fn lemma_start_in_lockstep(rounds: int, forward: int, backward: int)
    requires
        1 <= rounds <= isize::MAX,
        forward != 0,
        backward != 0,
    ensures
        Handshake::start(rounds, forward, backward).in_lockstep(),
        Handshake::start(rounds, forward, backward).remaining() == 4 * rounds,
{
    let h = Handshake::start(rounds, forward, backward);
    assert(h.initiator_heard =~= count_up(0));
}

/// A step of either side keeps the two in lockstep and never undoes
/// progress.
pub proof fn lemma_step_keeps_lockstep(h: Handshake, who: Role)
    requires
        h.in_lockstep(),
    ensures
        h.step(who).in_lockstep(),
        h.step(who).initiator.rounds == h.initiator.rounds,
        h.step(who).remaining() <= h.remaining(),
        h.step(who) != h ==> h.step(who).remaining() == h.remaining() - 1,
{
    let n = h.step(who);
    match who {
        Role::Initiator => {
            if h.initiator.accepts(h.backward) {
                assert(count_up(h.initiator.accepted()).push(h.backward) =~= count_up(
                    n.initiator.accepted(),
                ));
            }
        },
        Role::Responder => {
            if h.responder.accepts(h.forward) {
                assert(count_up(h.responder.accepted()).push(h.forward) =~= count_up(
                    n.responder.accepted(),
                ));
            }
        },
    }
}

/// No schedule takes the two sides out of lockstep.
pub proof fn lemma_run_keeps_lockstep(h: Handshake, schedule: Seq<Role>)
    requires
        h.in_lockstep(),
    ensures
        h.run(schedule).in_lockstep(),
        h.run(schedule).initiator.rounds == h.initiator.rounds,
        h.run(schedule).remaining() <= h.remaining(),
    decreases schedule.len(),
{
    if schedule.len() > 0 {
        lemma_run_keeps_lockstep(h, schedule.drop_last());
        lemma_step_keeps_lockstep(h.run(schedule.drop_last()), schedule.last());
    }
}

/// What a waiting side reads is the round it waits for or the one just
/// before it: the other side never skips ahead. Before the first round
/// the cell holds whatever it held at the start, which is not round zero.
pub proof fn lemma_no_round_skipped(h: Handshake)
    requires
        h.in_lockstep(),
    ensures
        h.responder.phase == Phase::Awaiting ==> h.forward == h.responder.round || (
        h.responder.round > 0 && h.forward == h.responder.round - 1) || (h.responder.round == 0
            && h.forward != 0),
        h.initiator.phase == Phase::Awaiting ==> h.backward == h.initiator.round || (
        h.initiator.round > 0 && h.backward == h.initiator.round - 1) || (h.initiator.round == 0
            && h.backward != 0),
{
}

/// Until both sides are done, one of them can move: the handshake cannot
/// deadlock. If a step of the initiator changes nothing, a step of the
/// responder does.
pub proof fn lemma_some_side_can_move(h: Handshake)
    requires
        h.in_lockstep(),
        !h.finished(),
    ensures
        h.step(Role::Initiator) != h || h.step(Role::Responder) != h,
        h.remaining() > 0,
{
}

/// When both sides are done, each has heard every round exactly once and
/// in order, and both cells hold the last round.
pub proof fn lemma_finished_heard_all(h: Handshake)
    requires
        h.in_lockstep(),
        h.finished(),
    ensures
        h.responder_heard == count_up(h.responder.rounds),
        h.initiator_heard == count_up(h.initiator.rounds),
        h.forward == h.initiator.rounds - 1,
        h.backward == h.initiator.rounds - 1,
        h.remaining() == 0,
{
}

/// Whatever the order in which the two sides take their steps on a fresh
/// channel, each has heard the rounds from zero up, none skipped and none
/// twice, and once both are done each has heard all of them.
pub proof fn lemma_rounds_heard_in_order(rounds: int, schedule: Seq<Role>)
    requires
        1 <= rounds <= isize::MAX,
    ensures
        ({
            let h = Handshake::start(rounds, IDLE as int, IDLE as int).run(schedule);
            &&& 0 <= h.responder.accepted() <= rounds
            &&& 0 <= h.initiator.accepted() <= rounds
            &&& h.responder_heard == count_up(h.responder.accepted())
            &&& h.initiator_heard == count_up(h.initiator.accepted())
            &&& h.finished() ==> h.responder_heard == count_up(rounds) && h.initiator_heard
                == count_up(rounds)
        }),
{
    let start = Handshake::start(rounds, IDLE as int, IDLE as int);
    lemma_start_in_lockstep(rounds, IDLE as int, IDLE as int);
    lemma_run_keeps_lockstep(start, schedule);
    if start.run(schedule).finished() {
        lemma_finished_heard_all(start.run(schedule));
    }
}

/// On a channel left behind by a finished repetition, the next repetition
/// starts in lockstep as long as a repetition has at least two rounds.
/// With a single round the cells already hold round zero, and the sides
/// would take that stale value for the new one.
pub proof fn lemma_next_repetition_in_lockstep(h: Handshake)
    requires
        h.in_lockstep(),
        h.finished(),
        h.initiator.rounds >= 2,
    ensures
        Handshake::start(h.initiator.rounds, h.forward, h.backward).in_lockstep(),
{
    lemma_finished_heard_all(h);
    lemma_start_in_lockstep(h.initiator.rounds, h.forward, h.backward);
}

/// A handshake that can be run: two participants on two plain integers.
pub struct Simulation {
    forward: isize,
    backward: isize,
    initiator: Participant,
    responder: Participant,
    initiator_heard: Vec<isize>,
    responder_heard: Vec<isize>,
}

impl View for Simulation {
    type V = Handshake;

    closed spec fn view(&self) -> Handshake {
        Handshake {
            forward: self.forward as int,
            backward: self.backward as int,
            initiator: self.initiator@,
            responder: self.responder@,
            initiator_heard: self.initiator_heard@.map_values(|v: isize| v as int),
            responder_heard: self.responder_heard@.map_values(|v: isize| v as int),
        }
    }
}

impl Simulation {
    /// Every simulation that the library hands out is in lockstep.
    pub open spec fn wf(&self) -> bool {
        self@.in_lockstep()
    }

    /// Both sides at the start of a repetition on a fresh channel.
    pub fn new(params: &MeasurementParameters) -> (s: Simulation)
        requires
            params.wf(),
        ensures
            s@ == Handshake::start(params.rounds(), IDLE as int, IDLE as int),
            s.wf(),
    {
        let s = Simulation {
            forward: IDLE,
            backward: IDLE,
            initiator: Participant::new(Role::Initiator, params),
            responder: Participant::new(Role::Responder, params),
            initiator_heard: Vec::new(),
            responder_heard: Vec::new(),
        };
        proof {
            assert(s@.initiator_heard =~= Seq::empty());
            lemma_start_in_lockstep(params.rounds(), IDLE as int, IDLE as int);
        }
        s
    }

    /// Lets one side take one action, and returns whether that changed
    /// anything.
    pub fn step(&mut self, who: Role) -> (moved: bool)
        requires
            old(self).wf(),
        ensures
            final(self)@ == old(self)@.step(who),
            final(self).wf(),
            moved == (final(self)@ != old(self)@),
            moved ==> final(self)@.remaining() == old(self)@.remaining() - 1,
            !moved ==> final(self)@.remaining() == old(self)@.remaining(),
    {
        proof {
            lemma_step_keeps_lockstep(self@, who);
        }
        let ghost before = self@;
        let moved = match who {
            Role::Initiator => match self.initiator.action() {
                Action::Publish(value) => {
                    self.forward = value;
                    self.initiator.published();
                    true
                },
                Action::Observe => {
                    let value = self.backward;
                    let accepted = self.initiator.observed(value);
                    if accepted {
                        self.initiator_heard.push(value);
                        assert(self@.initiator_heard =~= before.initiator_heard.push(
                            value as int,
                        ));
                    }
                    accepted
                },
                Action::Finish => false,
            },
            Role::Responder => match self.responder.action() {
                Action::Publish(value) => {
                    self.backward = value;
                    self.responder.published();
                    true
                },
                Action::Observe => {
                    let value = self.forward;
                    let accepted = self.responder.observed(value);
                    if accepted {
                        self.responder_heard.push(value);
                        assert(self@.responder_heard =~= before.responder_heard.push(
                            value as int,
                        ));
                    }
                    accepted
                },
                Action::Finish => false,
            },
        };
        moved
    }

    /// Lets the sides step in the order that the schedule gives.
    pub fn run(&mut self, schedule: &Vec<Role>)
        requires
            old(self).wf(),
        ensures
            final(self)@ == old(self)@.run(schedule@),
            final(self).wf(),
    {
        let mut k: usize = 0;
        while k < schedule.len()
            invariant
                k <= schedule.len(),
                self.wf(),
                self@ == old(self)@.run(schedule@.take(k as int)),
            decreases schedule.len() - k,
        {
            assert(schedule@.take(k + 1).drop_last() =~= schedule@.take(k as int));
            self.step(schedule[k]);
            k += 1;
        }
        assert(schedule@.take(schedule.len() as int) =~= schedule@);
    }

    /// Lets the sides take turns until both are done.
    pub fn complete(&mut self)
        requires
            old(self).wf(),
        ensures
            final(self).wf(),
            final(self)@.finished(),
            final(self)@.initiator_heard == count_up(old(self)@.initiator.rounds),
            final(self)@.responder_heard == count_up(old(self)@.initiator.rounds),
    {
        while !self.is_finished()
            invariant
                self.wf(),
                self@.initiator.rounds == old(self)@.initiator.rounds,
            decreases self@.remaining(),
        {
            proof {
                lemma_some_side_can_move(self@);
                lemma_step_keeps_lockstep(self@, Role::Initiator);
            }
            self.step(Role::Initiator);
            self.step(Role::Responder);
        }
        proof {
            lemma_finished_heard_all(self@);
        }
    }

    /// Whether both sides are done.
    pub fn is_finished(&self) -> (b: bool)
        ensures
            b == self@.finished(),
    {
        self.initiator.is_finished() && self.responder.is_finished()
    }

    /// The value in the cell that the initiator writes.
    pub fn forward(&self) -> (v: isize)
        ensures
            v == self@.forward,
    {
        self.forward
    }

    /// The value in the cell that the responder writes.
    pub fn backward(&self) -> (v: isize)
        ensures
            v == self@.backward,
    {
        self.backward
    }

    /// The echoes that the initiator has accepted, oldest first.
    pub fn initiator_heard(&self) -> (log: Vec<isize>)
        ensures
            log@.map_values(|v: isize| v as int) == self@.initiator_heard,
    {
        self.initiator_heard.clone()
    }

    /// The rounds that the responder has accepted, oldest first.
    pub fn responder_heard(&self) -> (log: Vec<isize>)
        ensures
            log@.map_values(|v: isize| v as int) == self@.responder_heard,
    {
        self.responder_heard.clone()
    }
}

} // verus!
