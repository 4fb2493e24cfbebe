use sir::calculations::{sum_equal_enough, SirIterator, SirStep};

// All quantities are in ticks: 1_000_000 ticks is one population unit.
const UNIT: i128 = 1_000_000;

fn drain(it: &mut SirIterator) -> Vec<SirStep> {
    it.collect_steps()
}

#[test]
fn boundary_scenario_one_day() {
    // beta = 0.5, gamma = 0.5, population 10, one infected, one day.
    let mut it = SirIterator::from_total_pop(500_000, 500_000, 10 * UNIT, UNIT, 1);
    let steps = drain(&mut it);
    assert_eq!(steps.len(), 1);
    let s1 = steps[0];
    assert_eq!(s1.day, 1);
    assert_eq!(s1.susceptible, 8_550_000); // 9.0 - 0.45
    assert_eq!(s1.infected, 950_000); // 1.0 - 0.05
    assert_eq!(s1.removed, 500_000); // 0.0 + 0.5
    assert_eq!(s1.susceptible + s1.infected + s1.removed, 10 * UNIT);
}

#[test]
fn advance_computes_the_euler_deltas() {
    let s0 = SirStep { day: 0, susceptible: 9 * UNIT, infected: UNIT, removed: 0 };
    let s1 = s0.advance(500_000, 500_000, 10 * UNIT);
    assert_eq!(s1.day, 1);
    assert_eq!(s1.susceptible, s0.susceptible - 450_000);
    assert_eq!(s1.infected, s0.infected - 50_000);
    assert_eq!(s1.removed, s0.removed + 500_000);
}

#[test]
fn conservation_over_a_long_run() {
    let total: i128 = 1000 * UNIT;
    let mut it = SirIterator::from_total_pop(300_000, 100_000, total, UNIT, 50);
    let initial = it.current();
    assert_eq!(
        initial.susceptible + initial.infected + initial.removed,
        total
    );
    let steps = drain(&mut it);
    assert_eq!(steps.len(), 50);
    for step in &steps {
        assert_eq!(step.susceptible + step.infected + step.removed, total);
    }
}

#[test]
fn day_counter_is_consecutive_from_one() {
    let mut it = SirIterator::from_total_pop(400_000, 200_000, 100 * UNIT, UNIT, 25);
    let steps = drain(&mut it);
    assert_eq!(steps.len(), 25);
    for (k, step) in steps.iter().enumerate() {
        assert_eq!(step.day, k as i64 + 1);
    }
}

#[test]
fn sequence_length_matches_day_budget() {
    for days in [0i64, 1, 7, 100] {
        let mut it = SirIterator::from_total_pop(300_000, 100_000, 50 * UNIT, UNIT, days);
        assert_eq!(drain(&mut it).len() as i64, days);
    }
}

#[test]
fn negative_day_budget_yields_nothing() {
    let mut it = SirIterator::from_total_pop(300_000, 100_000, 50 * UNIT, UNIT, -3);
    assert!(it.next().is_none());
    assert_eq!(drain(&mut it).len(), 0);
}

#[test]
fn exhausted_cursor_never_restarts() {
    let mut it = SirIterator::from_total_pop(300_000, 100_000, 50 * UNIT, UNIT, 2);
    assert!(it.next().is_some());
    assert!(it.next().is_some());
    assert!(it.next().is_none());
    assert!(it.next().is_none());
    assert_eq!(drain(&mut it).len(), 0);
}

#[test]
fn determinism_identical_runs() {
    let mut a = SirIterator::from_total_pop(700_000, 250_000, 500 * UNIT, 3 * UNIT, 80);
    let mut b = SirIterator::from_total_pop(700_000, 250_000, 500 * UNIT, 3 * UNIT, 80);
    assert_eq!(a.current(), b.current());
    assert_eq!(drain(&mut a), drain(&mut b));
}

#[test]
fn constructors_are_equivalent() {
    let total: i128 = 200 * UNIT;
    let infected: i128 = 2 * UNIT;
    let mut a = SirIterator::from_total_pop(600_000, 150_000, total, infected, 40);
    let mut b = SirIterator::from_susceptible(600_000, 150_000, total - infected, infected, 40);
    assert_eq!(a.current(), b.current());
    assert_eq!(drain(&mut a), drain(&mut b));
}

#[test]
fn initial_snapshot_is_day_zero_and_not_emitted() {
    let mut it = SirIterator::from_total_pop(500_000, 500_000, 10 * UNIT, UNIT, 3);
    let initial = it.current();
    assert_eq!(initial.day, 0);
    assert_eq!(initial.susceptible, 9 * UNIT);
    assert_eq!(initial.infected, UNIT);
    assert_eq!(initial.removed, 0);
    let steps = drain(&mut it);
    assert!(steps.iter().all(|s| s.day >= 1));
}

#[test]
fn sum_check_accepts_exact_sums() {
    assert!(sum_equal_enough(&vec![2, 3], 5));
    assert!(sum_equal_enough(&vec![-450_000, 500_000, -50_000], 0));
}

#[test]
fn sum_check_rejects_inexact_sums() {
    assert!(!sum_equal_enough(&vec![2, 3], 6));
    assert!(!sum_equal_enough(&vec![-450_000, 500_000, -50_001], 0));
}

#[test]
fn sum_check_passes_vacuously_on_empty_input() {
    assert!(sum_equal_enough(&vec![], 17));
}
