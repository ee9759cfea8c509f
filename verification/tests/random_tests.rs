use craft_solver::random::randomizer::{can_sample, if_more_than, pick_by_roll};

#[test]
fn a_threshold_of_nothing_always_succeeds() {
    for _ in 0..200 {
        assert_eq!(if_more_than(0, "success", "default"), "success");
    }
}

#[test]
fn a_threshold_of_all_never_succeeds() {
    for _ in 0..200 {
        assert_eq!(if_more_than(1000, 1u8, 0u8), 0);
        assert_eq!(if_more_than(u16::MAX, 1u8, 0u8), 0);
    }
}

#[test]
fn a_threshold_in_between_gives_both() {
    let mut successes = 0u32;
    for _ in 0..2000 {
        if if_more_than(500, true, false) {
            successes += 1;
        }
    }
    assert!(successes > 0 && successes < 2000);
}

#[test]
fn a_roll_clears_a_threshold_it_reaches() {
    assert_eq!(pick_by_roll(410, 410, 'y', 'n'), 'y');
    assert_eq!(pick_by_roll(409, 410, 'y', 'n'), 'n');
    assert_eq!(pick_by_roll(0, 0, 'y', 'n'), 'y');
    assert_eq!(pick_by_roll(999, 1000, 'y', 'n'), 'n');
}

#[test]
fn a_draw_needs_a_positive_sum_that_fits() {
    assert!(can_sample(&vec![0, 3]));
    assert!(!can_sample(&vec![]));
    assert!(!can_sample(&vec![0, 0]));
    assert!(!can_sample(&vec![u64::MAX, 1]));
    assert!(can_sample(&vec![u64::MAX]));
}
