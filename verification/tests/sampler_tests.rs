use cpu_dashboard::sampler::{SamplerGate, MIN_SAMPLE_INTERVAL_MS};

#[test]
fn first_tick_is_accepted() {
    let mut gate = SamplerGate::new();
    assert!(gate.try_tick(0));
}

#[test]
fn ticks_inside_the_interval_are_refused() {
    let mut gate = SamplerGate::new();
    assert!(gate.try_tick(1_000));
    assert!(!gate.try_tick(1_000));
    assert!(!gate.try_tick(1_000 + MIN_SAMPLE_INTERVAL_MS - 1));
    assert!(gate.try_tick(1_000 + MIN_SAMPLE_INTERVAL_MS));
}

#[test]
fn accepted_ticks_are_spaced_by_the_minimum_interval() {
    let mut gate = SamplerGate::new();
    let mut accepted: Vec<u64> = Vec::new();
    let mut now: u64 = 0;
    while now < 2_000 {
        if gate.try_tick(now) {
            accepted.push(now);
        }
        now += 70;
    }
    assert!(accepted.len() >= 2);
    for pair in accepted.windows(2) {
        assert!(pair[1] - pair[0] >= MIN_SAMPLE_INTERVAL_MS);
    }
}

#[test]
fn a_refused_tick_does_not_move_the_deadline() {
    let mut gate = SamplerGate::new();
    assert!(gate.try_tick(100));
    assert!(!gate.try_tick(250));
    assert!(gate.try_tick(300));
}
