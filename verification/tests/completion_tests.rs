use archy::completion::{CompletionResult, Detector, run_detector};

fn captures(texts: &[&str]) -> Vec<String> {
    texts.iter().map(|t| t.to_string()).collect()
}

#[test]
fn stable_after_three_identical_captures() {
    let done = "output line\nuser@host:~$ ";
    let caps = captures(&["working...", done, done, done, done]);
    match run_detector(&caps, "true", 10_000, 100) {
        CompletionResult::Stable(text) => assert_eq!(text, done),
        CompletionResult::TimedOut(_) => panic!("expected stability"),
    }
}

#[test]
fn unstable_output_never_completes() {
    let caps = captures(&["a$", "b$", "c$", "d$", "e$"]);
    match run_detector(&caps, "", 10_000, 100) {
        CompletionResult::Stable(_) => panic!("expected a timeout"),
        CompletionResult::TimedOut(partial) => assert_eq!(partial, "e$"),
    }
}

#[test]
fn command_echo_blocks_completion() {
    // The prompt glyph is there and the output is stable, but the command
    // still shows on the last line.
    let echoed = "user@host:~$ sleep 9999";
    let caps = captures(&[echoed, echoed, echoed, echoed, echoed, echoed]);
    match run_detector(&caps, "sleep 9999", 10_000, 100) {
        CompletionResult::Stable(_) => panic!("echoed command must not complete"),
        CompletionResult::TimedOut(partial) => assert_eq!(partial, echoed),
    }
}

#[test]
fn sudo_password_prompt_blocks_completion() {
    let prompt = "some output\n[sudo] password for user:";
    let caps = captures(&[prompt, prompt, prompt, prompt, prompt, prompt]);
    match run_detector(&caps, "sudo ls", 10_000, 100) {
        CompletionResult::Stable(_) => panic!("password prompt must not complete"),
        CompletionResult::TimedOut(partial) => assert_eq!(partial, prompt),
    }
}

#[test]
fn timeout_scenario_with_short_budget() {
    // maxWaitMs = 500 and pollIntervalMs = 100 give five polls; a command
    // that keeps running yields a timeout with the best-known capture.
    let running = "user@host:~$ sleep 9999";
    let caps = captures(&[running, running, running, running, running, running, running]);
    match run_detector(&caps, "sleep 9999", 500, 100) {
        CompletionResult::Stable(_) => panic!("expected a timeout"),
        CompletionResult::TimedOut(partial) => assert_eq!(partial, running),
    }
}

#[test]
fn budget_clamps_apply() {
    // A poll interval below 100 ms is raised to 100 ms: 500 / 100 gives
    // five polls, not fifty, so the sixth capture is never seen.
    let done = "ready\n$ ";
    let caps = captures(&["x", "y", "z", "w", "v", done, done, done, done]);
    match run_detector(&caps, "", 500, 10) {
        CompletionResult::Stable(_) => panic!("expected a timeout within five polls"),
        CompletionResult::TimedOut(partial) => assert_eq!(partial, "v"),
    }
}

#[test]
fn detector_polls_step_by_step() {
    let mut det = Detector::new("ls", 1_000, 100);
    let done = "file\n$ ";
    assert!(det.poll("churn").is_none());
    assert!(det.poll(done).is_none());
    assert!(det.poll(done).is_none());
    assert!(det.poll(done).is_none());
    match det.poll(done) {
        Some(CompletionResult::Stable(text)) => assert_eq!(text, done),
        other => panic!("expected stability, got {:?}", other.is_some()),
    }
}

#[test]
fn detector_with_no_polls_times_out_at_once() {
    let mut det = Detector::new("ls", 0, 100);
    match det.poll("anything") {
        Some(CompletionResult::TimedOut(partial)) => assert_eq!(partial, ""),
        _ => panic!("expected an immediate timeout"),
    }
}

#[test]
fn empty_command_never_counts_as_echoed() {
    let done = "done\nuser@host:~$ ";
    let caps = captures(&["x", done, done, done, done]);
    match run_detector(&caps, "", 10_000, 100) {
        CompletionResult::Stable(text) => assert_eq!(text, done),
        CompletionResult::TimedOut(_) => panic!("empty command must not block completion"),
    }
}
