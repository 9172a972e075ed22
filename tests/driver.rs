use twrp_brute::driver::{classify, Driver, Halt, Outcome, Phase, STDOUT_NORMAL, STDOUT_SUCCESS};

/// Runs a search over `total` candidates against a scripted probe; returns
/// the final state and the number of probe calls.
fn run(total: usize, answer: impl Fn(usize) -> (bool, String, String)) -> (Driver, usize) {
    let mut d = Driver::new(total);
    let mut calls = 0;
    while !d.is_halted() {
        match d.phase {
            Phase::Probing(_) => {
                let (ok, out, err) = answer(calls);
                calls += 1;
                d.observe(classify(ok, &out, &err));
            }
            Phase::Pausing(_) => d.resume(),
            Phase::Halted(_) => unreachable!(),
        }
    }
    (d, calls)
}

#[test]
fn classify_normal_output() {
    assert_eq!(classify(true, STDOUT_NORMAL, ""), Outcome::NoMatch);
}

#[test]
fn classify_success_output() {
    assert_eq!(classify(true, "Data successfully decrypted, new block device: '/dev/block/dm-0'\n", ""), Outcome::Match);
    assert_eq!(classify(true, STDOUT_SUCCESS, ""), Outcome::Match);
}

#[test]
fn classify_violations() {
    assert_eq!(classify(false, STDOUT_NORMAL, ""), Outcome::Violation);
    assert_eq!(classify(true, STDOUT_NORMAL, "error"), Outcome::Violation);
    assert_eq!(classify(true, "Attempting to decrypt data partition via command line.", ""), Outcome::Violation);
    assert_eq!(classify(true, "", ""), Outcome::Violation);
    assert_eq!(classify(false, STDOUT_SUCCESS, ""), Outcome::Violation);
}

#[test]
fn success_on_fifth_attempt() {
    let (d, calls) = run(20, |i| {
        if i == 4 {
            (true, STDOUT_SUCCESS.to_string(), String::new())
        } else {
            (true, STDOUT_NORMAL.to_string(), String::new())
        }
    });
    assert_eq!(calls, 5);
    assert_eq!(d.phase, Phase::Halted(Halt::Success(4)));
    assert_eq!(d.attempts, 5);
    assert_eq!(d.pauses, 4);
    assert_eq!(d.exit_code(), 0);
}

#[test]
fn fault_on_second_attempt() {
    let (d, calls) = run(20, |i| {
        if i == 1 {
            (true, "something else\n".to_string(), String::new())
        } else {
            (true, STDOUT_NORMAL.to_string(), String::new())
        }
    });
    assert_eq!(calls, 2);
    assert_eq!(d.phase, Phase::Halted(Halt::Fault(1)));
    assert_eq!(d.pauses, 1);
    assert_eq!(d.exit_code(), 1);
}

#[test]
fn exhausted_after_every_candidate() {
    let (d, calls) = run(3, |_| (true, STDOUT_NORMAL.to_string(), String::new()));
    assert_eq!(calls, 3);
    assert_eq!(d.phase, Phase::Halted(Halt::Exhausted));
    assert_eq!(d.pauses, 3);
    assert_eq!(d.exit_code(), 0);
}

#[test]
fn no_candidates_means_exhausted_at_once() {
    let d = Driver::new(0);
    assert!(d.is_halted());
    assert_eq!(d.phase, Phase::Halted(Halt::Exhausted));
}

#[test]
fn cancel_between_attempts() {
    let mut d = Driver::new(5);
    d.observe(Outcome::NoMatch);
    d.cancel();
    assert_eq!(d.phase, Phase::Halted(Halt::Cancelled(1)));
    assert_eq!(d.exit_code(), 0);
    d.cancel();
    assert_eq!(d.phase, Phase::Halted(Halt::Cancelled(1)));
}
