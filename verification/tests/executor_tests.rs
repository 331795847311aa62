use wasm_central::executor::{
    exit_outcome, watchdog_verdict, ExecuteError, WatchdogVerdict, EXECUTE_TIMEOUT_MS,
};

#[test]
fn timeout_is_two_seconds() {
    assert_eq!(EXECUTE_TIMEOUT_MS, 2000);
}

#[test]
fn watchdog_kills_on_timeout() {
    // the watchdog half of the timeout scenario: poll elapsed, child alive
    assert_eq!(watchdog_verdict(true, true, false), WatchdogVerdict::KillChild);
}

#[test]
fn watchdog_collects_a_finished_child() {
    assert_eq!(watchdog_verdict(true, true, true), WatchdogVerdict::CollectOutput);
    assert_eq!(watchdog_verdict(true, false, false), WatchdogVerdict::CollectOutput);
}

#[test]
fn watchdog_refuses_to_run_unsupervised() {
    assert_eq!(watchdog_verdict(false, true, true), WatchdogVerdict::Unsupported);
    assert_eq!(watchdog_verdict(false, false, false), WatchdogVerdict::Unsupported);
}

#[test]
fn clean_exit_returns_the_captured_output() {
    match exit_outcome(0, vec![0x41, 0x42, 0x43], String::new()) {
        Ok(frame) => assert_eq!(frame.body, vec![0x41, 0x42, 0x43]),
        Err(_) => panic!("exit code 0 must succeed"),
    }
}

#[test]
fn nonzero_exit_aborts_with_code_and_stderr() {
    match exit_outcome(7, vec![0x41], "boom".to_string()) {
        Err(ExecuteError::Aborted(code, tail)) => {
            assert_eq!(code, 7);
            assert_eq!(tail, "boom");
        },
        _ => panic!("exit code 7 must abort"),
    }
}
