use spangen::throttle::{Throttle, MIN_SLEEP_NS};

#[test]
fn unthrottled_never_sleeps() {
    let mut t = Throttle::new(None);
    for _ in 0..1000 {
        t.accept();
    }
    assert_eq!(t.wait(0), 0);
    assert_eq!(t.wait(5), 0);
}

#[test]
fn nothing_accepted_means_no_sleep() {
    let mut t = Throttle::new(Some(10));
    assert_eq!(t.wait(0), 0);
}

#[test]
fn sleeps_for_the_shortfall() {
    let mut t = Throttle::new(Some(10));
    for _ in 0..5 {
        t.accept();
    }
    // five units at ten per second take half a second; 0.1 s have passed
    assert_eq!(t.wait(100_000_000), 400_000_000);
    // the reference moved on by the sleep: nothing is owed right after it
    assert_eq!(t.wait(500_000_000), 0);
}

#[test]
fn shortfall_below_minimum_is_not_slept() {
    let mut t = Throttle::new(Some(1000));
    t.accept();
    // one unit at 1000 per second takes 1 ms; 0.5 ms have passed
    assert_eq!(t.wait(500_000), 0);
    // the count was kept, so the debt is still there later
    t.accept();
    assert_eq!(t.wait(500_000), 1_500_000);
}

#[test]
fn throughput_ten_takes_four_and_a_half_seconds_for_fifty_spans() {
    let mut t = Throttle::new(Some(10));
    let mut clock: u64 = 0;
    let mut emitted = 0;
    while emitted < 50 {
        let sleep = t.wait(clock);
        assert!(sleep == 0 || sleep >= MIN_SLEEP_NS);
        clock += sleep;
        for _ in 0..5 {
            t.accept();
            emitted += 1;
        }
    }
    assert!(clock >= 4_500_000_000);
}
