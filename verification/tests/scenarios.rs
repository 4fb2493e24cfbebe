use sir::calculations::{SirIterator, SirStep};

const UNIT: i128 = 1_000_000;

#[test]
fn zero_infection_freezes_the_state() {
    let mut it = SirIterator::from_total_pop(900_000, 300_000, 75 * UNIT, 0, 30);
    let initial = it.current();
    let steps = it.collect_steps();
    assert_eq!(steps.len(), 30);
    for step in &steps {
        assert_eq!(step.susceptible, initial.susceptible);
        assert_eq!(step.infected, 0);
        assert_eq!(step.removed, initial.removed);
    }
}

#[test]
fn epidemic_depletes_when_infection_outpaces_recovery() {
    // beta = 0.8 much larger than gamma = 0.1; population 1000, one infected.
    let total: i128 = 1000 * UNIT;
    let mut it = SirIterator::from_total_pop(800_000, 100_000, total, UNIT, 400);
    let steps = it.collect_steps();
    assert_eq!(steps.len(), 400);
    let last: &SirStep = steps.last().unwrap();
    assert!(last.infected < total / 100);
    assert!(last.removed > total * 9 / 10);
    assert!(last.susceptible >= 0 && last.susceptible <= total);
}

#[test]
fn degenerate_population_yields_nothing() {
    // A non-positive population has no meaningful force of infection; the
    // range guard ends the sequence instead of dividing by zero.
    let mut it = SirIterator::from_total_pop(500_000, 500_000, 0, UNIT, 5);
    assert!(it.next().is_none());
    assert_eq!(it.collect_steps().len(), 0);
}

#[test]
fn unstable_run_still_yields_every_day() {
    // beta = 3.0 drives the susceptible compartment negative after one day —
    // Euler instability, not a machine limit.  The engine keeps stepping
    // through the negative values, yields the full budget, and conservation
    // stays exact throughout.
    let total: i128 = 10 * UNIT;
    let mut it = SirIterator::from_total_pop(3_000_000, 0, total, 5 * UNIT, 10);
    let steps = it.collect_steps();
    assert_eq!(steps.len(), 10);
    assert!(steps[0].susceptible < 0);
    for step in &steps {
        assert_eq!(step.susceptible + step.infected + step.removed, total);
    }
}

#[test]
fn runaway_values_stop_at_the_machine_limit() {
    // beta of a million per day blows the compartments past what exact
    // arithmetic can represent within two days; the cursor yields the days
    // it can answer for and then stops.
    let mut it = SirIterator::from_total_pop(1_000_000_000_000, 0, UNIT, UNIT / 2, 10);
    let steps = it.collect_steps();
    assert_eq!(steps.len(), 2);
    assert!(steps[1].susceptible > 1_000_000_000_000);
}
