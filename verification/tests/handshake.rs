use c2clat::params::MeasurementParameters;
use c2clat::protocol::{Action, Direction, Participant, Role, IDLE};
use c2clat::simulation::Simulation;

fn rounds(n: isize) -> MeasurementParameters {
    MeasurementParameters::new(n).unwrap()
}

#[test]
fn five_rounds_are_heard_in_order_by_both_sides() {
    let mut sim = Simulation::new(&rounds(5));
    sim.complete();
    assert!(sim.is_finished());
    assert_eq!(sim.responder_heard(), vec![0, 1, 2, 3, 4]);
    assert_eq!(sim.initiator_heard(), vec![0, 1, 2, 3, 4]);
    assert_eq!(sim.forward(), 4);
    assert_eq!(sim.backward(), 4);
}

#[test]
fn a_fresh_channel_is_idle() {
    let sim = Simulation::new(&rounds(3));
    assert_eq!(IDLE, -1);
    assert_eq!(sim.forward(), -1);
    assert_eq!(sim.backward(), -1);
    assert!(!sim.is_finished());
    assert_eq!(sim.responder_heard(), Vec::<isize>::new());
    assert_eq!(sim.initiator_heard(), Vec::<isize>::new());
}

#[test]
fn the_first_round_step_by_step() {
    let mut sim = Simulation::new(&rounds(2));
    // nothing to hear yet
    assert!(!sim.step(Role::Responder));
    // the initiator publishes round 0 and then waits
    assert!(sim.step(Role::Initiator));
    assert_eq!(sim.forward(), 0);
    assert!(!sim.step(Role::Initiator));
    assert_eq!(sim.initiator_heard(), Vec::<isize>::new());
    // the responder hears round 0 and echoes it
    assert!(sim.step(Role::Responder));
    assert_eq!(sim.responder_heard(), vec![0]);
    assert_eq!(sim.backward(), -1);
    assert!(sim.step(Role::Responder));
    assert_eq!(sim.backward(), 0);
    // the responder now waits for round 1, which is not there yet
    assert!(!sim.step(Role::Responder));
    assert_eq!(sim.responder_heard(), vec![0]);
    // the initiator hears the echo and goes on to round 1
    assert!(sim.step(Role::Initiator));
    assert_eq!(sim.initiator_heard(), vec![0]);
    assert!(sim.step(Role::Initiator));
    assert_eq!(sim.forward(), 1);
}

#[test]
fn no_schedule_makes_a_side_skip_or_repeat_a_round() {
    // a fixed, lopsided pattern of turns
    let mut state: u32 = 0x2545_F491;
    let mut sim = Simulation::new(&rounds(7));
    let mut steps = 0;
    while !sim.is_finished() {
        state = state.wrapping_mul(1_664_525).wrapping_add(1_013_904_223);
        let who = if (state >> 16) % 3 == 0 {
            Role::Initiator
        } else {
            Role::Responder
        };
        sim.step(who);
        steps += 1;
        assert!(steps < 10_000);

        let heard_r = sim.responder_heard();
        let heard_i = sim.initiator_heard();
        let expect_r: Vec<isize> = (0..heard_r.len() as isize).collect();
        let expect_i: Vec<isize> = (0..heard_i.len() as isize).collect();
        assert_eq!(heard_r, expect_r);
        assert_eq!(heard_i, expect_i);
        // the initiator is never more than one round ahead of the echo
        assert!(sim.forward() == sim.backward() || sim.forward() == sim.backward() + 1);
        assert!(heard_i.len() <= heard_r.len() && heard_r.len() <= heard_i.len() + 1);
    }
    assert_eq!(sim.responder_heard(), vec![0, 1, 2, 3, 4, 5, 6]);
    assert_eq!(sim.initiator_heard(), vec![0, 1, 2, 3, 4, 5, 6]);
}

#[test]
fn a_schedule_is_run_in_its_order() {
    let mut sim = Simulation::new(&rounds(1));
    sim.run(&vec![
        Role::Responder,
        Role::Initiator,
        Role::Responder,
        Role::Responder,
        Role::Initiator,
    ]);
    assert!(sim.is_finished());
    assert_eq!(sim.responder_heard(), vec![0]);
    assert_eq!(sim.initiator_heard(), vec![0]);
}

#[test]
fn a_single_round_finishes() {
    let mut sim = Simulation::new(&rounds(1));
    sim.complete();
    assert_eq!(sim.responder_heard(), vec![0]);
    assert_eq!(sim.initiator_heard(), vec![0]);
}

#[test]
fn a_finished_handshake_stays_as_it_is() {
    let mut sim = Simulation::new(&rounds(2));
    sim.complete();
    assert!(!sim.step(Role::Initiator));
    assert!(!sim.step(Role::Responder));
    assert_eq!(sim.responder_heard(), vec![0, 1]);
}

#[test]
fn the_initiator_publishes_before_it_listens() {
    let mut side = Participant::new(Role::Initiator, &rounds(2));
    assert_eq!(side.role(), Role::Initiator);
    assert_eq!(side.action(), Action::Publish(0));
    side.published();
    assert_eq!(side.action(), Action::Observe);
    assert!(!side.observed(-1));
    assert!(!side.observed(1));
    assert_eq!(side.action(), Action::Observe);
    assert!(side.observed(0));
    assert_eq!(side.round(), 1);
    assert_eq!(side.action(), Action::Publish(1));
    side.published();
    assert!(side.observed(1));
    assert!(side.is_finished());
    assert_eq!(side.action(), Action::Finish);
    assert_eq!(side.round(), 2);
}

#[test]
fn the_responder_listens_before_it_publishes() {
    let mut side = Participant::new(Role::Responder, &rounds(2));
    assert_eq!(side.action(), Action::Observe);
    assert!(!side.observed(-1));
    assert!(side.observed(0));
    assert_eq!(side.action(), Action::Publish(0));
    side.published();
    assert_eq!(side.action(), Action::Observe);
    assert!(!side.observed(0));
    assert!(side.observed(1));
    side.published();
    assert!(side.is_finished());
}

#[test]
fn reports_out_of_turn_change_nothing() {
    let mut side = Participant::new(Role::Responder, &rounds(2));
    side.published();
    assert_eq!(side.action(), Action::Observe);
    assert_eq!(side.round(), 0);
    let mut side = Participant::new(Role::Initiator, &rounds(2));
    assert!(!side.observed(0));
    assert_eq!(side.action(), Action::Publish(0));
}

#[test]
fn each_cell_has_one_writer_and_one_reader() {
    assert_eq!(Role::Initiator.outgoing(), Direction::Forward);
    assert_eq!(Role::Initiator.incoming(), Direction::Backward);
    assert_eq!(Role::Responder.outgoing(), Direction::Backward);
    assert_eq!(Role::Responder.incoming(), Direction::Forward);
}
