use appflow::lifecycle::{
    first_event, relaunch_poll_step, spawn_replacement, LifecycleDriver, LifecycleOutcome,
    LifecyclePhase, RelaunchStep,
};
use appflow::runtime::AppError;

#[test]
fn termination_signal_wins_the_race() {
    // The main task would finish at 5 time units; the termination signal
    // fires at 1. The signal path wins, cleanup runs exactly once, and the
    // run is over before the main task would have completed.
    let outcome = first_event(5, 1);
    assert_eq!(outcome, LifecycleOutcome::Terminated);

    let mut driver = LifecycleDriver::new();
    assert_eq!(driver.current_phase(), LifecyclePhase::Racing);
    assert_eq!(driver.cleanup_count(), 0);

    driver.observe(outcome);
    assert_eq!(driver.current_phase(), LifecyclePhase::CleaningUp);
    assert_eq!(driver.cleanup_count(), 0);

    driver.cleanup_done();
    assert_eq!(driver.current_phase(), LifecyclePhase::Done);
    assert_eq!(driver.cleanup_count(), 1);
    assert_eq!(driver.run_outcome(), Some(LifecycleOutcome::Terminated));
}

#[test]
fn main_completion_still_cleans_up_once() {
    let outcome = first_event(3, 7);
    assert_eq!(outcome, LifecycleOutcome::MainFinished);

    let mut driver = LifecycleDriver::new();
    driver.observe(outcome);
    driver.cleanup_done();
    assert_eq!(driver.cleanup_count(), 1);
    assert_eq!(driver.run_outcome(), Some(LifecycleOutcome::MainFinished));
}

#[test]
fn relaunch_poll_counts_down_then_spawns() {
    assert_eq!(relaunch_poll_step(3, false), RelaunchStep::RetryAfterDelay(2));
    assert_eq!(relaunch_poll_step(2, false), RelaunchStep::RetryAfterDelay(1));
    assert_eq!(relaunch_poll_step(1, false), RelaunchStep::RetryAfterDelay(0));
    // An exhausted budget attempts the spawn anyway rather than blocking.
    assert_eq!(relaunch_poll_step(0, false), RelaunchStep::SpawnNow);
    // An accessible executable spawns at once.
    assert_eq!(relaunch_poll_step(3, true), RelaunchStep::SpawnNow);
}

#[test]
fn spawn_replacement_passes_arguments_verbatim() {
    let runtime = tokio::runtime::Builder::new_multi_thread()
        .enable_all()
        .build()
        .unwrap();
    let _guard = runtime.enter();
    let args = vec!["0.1".to_string()];
    spawn_replacement("sleep", &args).unwrap();
    // The argument vector handed over is untouched.
    assert_eq!(args, vec!["0.1".to_string()]);
}

#[test]
fn spawn_replacement_failure_is_reported() {
    let runtime = tokio::runtime::Builder::new_multi_thread()
        .enable_all()
        .build()
        .unwrap();
    let _guard = runtime.enter();
    let r = spawn_replacement("surely-not-a-real-binary", &vec![]);
    assert!(matches!(r, Err(AppError::SubProcess(_))));
}
