use scope_guard::scoped_run::{capture_poll, Progress, RunEvent, ScopedRun};

#[test]
fn capture_passes_pending_through() {
    let r = capture_poll::<u32, &str>(Ok(Progress::Pending));
    assert!(matches!(r, Progress::Pending));
}

#[test]
fn capture_wraps_ready_output() {
    let r = capture_poll::<u32, &str>(Ok(Progress::Ready(7)));
    assert!(matches!(r, Progress::Ready(Ok(7))));
}

#[test]
fn capture_turns_unwind_into_failure() {
    let r = capture_poll::<u32, &str>(Err("boom"));
    assert!(matches!(r, Progress::Ready(Err("boom"))));
}

#[test]
fn run_returns_output_after_cleanup() {
    let run = ScopedRun::<u32, &str>::start();
    assert!(matches!(run, ScopedRun::RunningPrimary));
    assert!(!run.done());
    let run = run.step(RunEvent::PrimarySettled(Ok(42)));
    assert!(matches!(run, ScopedRun::RunningCleanup(Ok(42))));
    assert!(!run.done());
    let run = run.step(RunEvent::CleanupFinished);
    assert!(run.done());
    assert!(matches!(run, ScopedRun::Returning(42)));
}

#[test]
fn run_resumes_unwind_after_cleanup() {
    let mut cleanup_ran = false;
    let run = ScopedRun::<u32, String>::start();
    let run = run.step(RunEvent::PrimarySettled(Err(String::from("FAIL"))));
    if let ScopedRun::RunningCleanup(_) = run {
        cleanup_ran = true;
    }
    let run = run.step(RunEvent::CleanupFinished);
    assert!(cleanup_ran);
    match run {
        ScopedRun::Repropagating(payload) => assert_eq!(payload, "FAIL"),
        _ => panic!("the captured unwind was not kept"),
    }
}

#[test]
fn cleanup_report_before_settling_is_ignored() {
    let run = ScopedRun::<u32, &str>::start();
    let run = run.step(RunEvent::CleanupFinished);
    assert!(matches!(run, ScopedRun::RunningPrimary));
    assert!(!run.done());
}

#[test]
fn second_settling_is_ignored() {
    let run = ScopedRun::<u32, &str>::start();
    let run = run.step(RunEvent::PrimarySettled(Err("first")));
    let run = run.step(RunEvent::PrimarySettled(Ok(1)));
    assert!(matches!(run, ScopedRun::RunningCleanup(Err("first"))));
    let run = run.step(RunEvent::CleanupFinished);
    assert!(matches!(run, ScopedRun::Repropagating("first")));
}

#[test]
fn finished_run_stays_finished() {
    let run = ScopedRun::<u32, &str>::start();
    let run = run.step(RunEvent::PrimarySettled(Ok(3)));
    let run = run.step(RunEvent::CleanupFinished);
    let run = run.step(RunEvent::CleanupFinished);
    let run = run.step(RunEvent::PrimarySettled(Err("late")));
    assert!(matches!(run, ScopedRun::Returning(3)));
}
