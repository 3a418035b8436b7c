use digit::timestep::{timestep_plan, EPSILON, TIMESTEP};

#[test]
fn nothing_to_drain() {
    assert!(timestep_plan(0).is_empty());
    assert!(timestep_plan(EPSILON).is_empty());
}

#[test]
fn small_interval_is_one_step() {
    assert_eq!(timestep_plan(11), vec![11]);
    assert_eq!(timestep_plan(TIMESTEP), vec![TIMESTEP]);
}

#[test]
fn long_interval_is_split_into_bounded_steps() {
    assert_eq!(timestep_plan(100_020), vec![33_333, 33_333, 33_333, 21]);
    assert_eq!(timestep_plan(100_000), vec![33_333, 33_333, 33_333]);
}

#[test]
fn remainder_within_epsilon_is_dropped() {
    assert_eq!(timestep_plan(2 * TIMESTEP + 10), vec![TIMESTEP, TIMESTEP]);
    assert_eq!(timestep_plan(2 * TIMESTEP + 11), vec![TIMESTEP, TIMESTEP, 11]);
}

#[test]
fn steps_bounded_and_cover_interval() {
    for d in [1u64, 10, 11, 500, 33_332, 33_333, 33_334, 66_667, 1_000_000, 5_432_109] {
        let plan = timestep_plan(d);
        let ceil = (d + TIMESTEP - 1) / TIMESTEP;
        assert!(plan.len() as u64 <= ceil);
        assert!(plan.iter().all(|s| *s > 0 && *s <= TIMESTEP));
        let sum: u64 = plan.iter().sum();
        assert!(sum <= d && d <= sum + EPSILON);
    }
}
