use sstc::stability::{
    duration_positive, is_file_valid, GateStep, StabilityGate, STABILITY_TIMEOUT_MS,
    STABILITY_WINDOW_MS,
};

#[test]
fn file_settles_only_after_the_window_elapses() {
    // the file's size changes every 500 ms for 10 s, then stops; the tracker
    // samples once a second and must settle exactly 3 s after the last
    // observed change
    let mut gate = StabilityGate::new(0);
    let mut settled_at = None;
    for tick in 1..=20u64 {
        let now_ms = tick * 1000;
        // size grows until t = 10 s, then stays constant
        let size = if now_ms <= 10_000 { now_ms * 2 } else { 20_000 };
        match gate.observe(now_ms, size) {
            GateStep::Settled => {
                settled_at = Some(now_ms);
                break;
            }
            GateStep::Pending => {}
            GateStep::TimedOut => panic!("gate timed out while the file was settling"),
        }
    }
    // last change observed at 10 s, window of 3 s elapses at 13 s
    assert_eq!(settled_at, Some(10_000 + STABILITY_WINDOW_MS));
}

#[test]
fn file_that_never_settles_times_out_as_not_valid() {
    let mut gate = StabilityGate::new(0);
    let mut tick: u64 = 1;
    loop {
        let now_ms = tick * 1000;
        match gate.observe(now_ms, now_ms) {
            GateStep::Settled => panic!("an ever-changing file must not settle"),
            GateStep::Pending => {}
            GateStep::TimedOut => {
                assert_eq!(now_ms, STABILITY_TIMEOUT_MS);
                break;
            }
        }
        tick += 1;
        assert!(tick < 100, "gate neither settled nor timed out");
    }
}

#[test]
fn constant_size_settles_after_window_from_start() {
    let mut gate = StabilityGate::new(0);
    assert_eq!(gate.observe(1000, 500), GateStep::Pending);
    assert_eq!(gate.observe(2000, 500), GateStep::Pending);
    assert_eq!(gate.observe(3000, 500), GateStep::Settled);
}

#[test]
fn size_change_restarts_the_window() {
    let mut gate = StabilityGate::new(0);
    assert_eq!(gate.observe(1000, 500), GateStep::Pending);
    assert_eq!(gate.observe(2000, 800), GateStep::Pending);
    // unchanged since t=2000; the window is counted from there
    assert_eq!(gate.observe(3000, 800), GateStep::Pending);
    assert_eq!(gate.observe(4000, 800), GateStep::Pending);
    assert_eq!(gate.observe(5000, 800), GateStep::Settled);
}

#[test]
fn duration_strings() {
    assert!(duration_positive("2.000000"));
    assert!(duration_positive("12"));
    assert!(duration_positive("0.5"));
    assert!(duration_positive(" 3.25\n"));
    assert!(!duration_positive("0.000000"));
    assert!(!duration_positive("0"));
    assert!(!duration_positive("N/A"));
    assert!(!duration_positive(""));
    assert!(!duration_positive("."));
    assert!(!duration_positive("-1.5"));
    assert!(!duration_positive("1.2.3"));
}

#[test]
fn validity_needs_settling_and_a_positive_duration() {
    assert!(is_file_valid(true, &Some("8.04".to_string())));
    assert!(!is_file_valid(true, &Some("0.00".to_string())));
    assert!(!is_file_valid(true, &None));
    assert!(!is_file_valid(false, &Some("8.04".to_string())));
}
