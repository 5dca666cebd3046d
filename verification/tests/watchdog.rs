use devzat_forth::watchdog::{
    conclude, RunOutcome, WaitAction, MAX_POLLS, POLLING_STEPS_MILLIS, TIMEOUT_MILLIS,
};
use devzat_forth::Watchdog;

#[test]
fn polling_constants() {
    assert_eq!(TIMEOUT_MILLIS, 10000);
    assert_eq!(POLLING_STEPS_MILLIS, 10);
    assert_eq!(MAX_POLLS, 1000);
}

#[test]
fn a_finished_evaluation_stops_the_wait_at_once() {
    let mut w = Watchdog::new();
    assert_eq!(w.after_poll(false), WaitAction::StopWaiting);
    assert_eq!(w.waited_millis(), 10);
}

#[test]
fn a_finish_after_some_polls_is_noticed_at_the_next_poll() {
    let mut w = Watchdog::new();
    for _ in 0..4 {
        assert_eq!(w.after_poll(true), WaitAction::KeepWaiting);
    }
    assert_eq!(w.after_poll(false), WaitAction::StopWaiting);
    assert_eq!(w.waited_millis(), 50);
}

#[test]
fn an_endless_evaluation_is_given_up_after_the_timeout() {
    let mut w = Watchdog::new();
    let mut polls = 0;
    loop {
        polls += 1;
        if w.after_poll(true) == WaitAction::StopWaiting {
            break;
        }
    }
    assert_eq!(polls, 1000);
    assert_eq!(w.waited_millis(), 10000);
    assert_eq!(conclude(true), RunOutcome::TimedOut);
}

#[test]
fn the_final_check_decides_the_outcome() {
    assert_eq!(conclude(false), RunOutcome::Finished);
    assert_eq!(conclude(true), RunOutcome::TimedOut);
}
