use raymarching::march::{MarchOutcome, Probe, StepBudget};

#[test]
fn contact_is_a_hit() {
    let mut b = StepBudget::new(10);
    assert_eq!(b.observe(Probe::Advanced), MarchOutcome::Continue);
    assert_eq!(b.observe(Probe::Contact), MarchOutcome::Hit);
    assert_eq!(b.taken, 2);
    assert!(!MarchOutcome::Hit.is_miss());
}

#[test]
fn leaving_the_range_is_a_miss() {
    let mut b = StepBudget::new(10);
    let r = b.observe(Probe::Beyond);
    assert_eq!(r, MarchOutcome::Escaped);
    assert!(r.is_miss());
}

#[test]
fn running_out_of_steps_is_a_miss() {
    let mut b = StepBudget::new(3);
    assert_eq!(b.observe(Probe::Advanced), MarchOutcome::Continue);
    assert_eq!(b.observe(Probe::Advanced), MarchOutcome::Continue);
    let r = b.observe(Probe::Advanced);
    assert_eq!(r, MarchOutcome::Exhausted);
    assert!(r.is_miss());
    assert!(b.is_spent());
}

#[test]
fn last_step_can_still_hit() {
    let mut b = StepBudget::new(2);
    assert_eq!(b.observe(Probe::Advanced), MarchOutcome::Continue);
    assert_eq!(b.observe(Probe::Contact), MarchOutcome::Hit);
}

#[test]
fn march_never_exceeds_budget() {
    for max in 1..50u32 {
        let mut b = StepBudget::new(max);
        let mut steps = 0u32;
        while b.observe(Probe::Advanced) == MarchOutcome::Continue {
            steps += 1;
        }
        assert_eq!(steps + 1, max);
    }
    assert!(StepBudget::new(0).is_spent());
}
