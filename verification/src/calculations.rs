//! The simulation engine: per-day state transition, the cursor that yields
//! one snapshot per day, and the exact-sum consistency check.

use vstd::prelude::*;

verus! {

/// Number of fixed-point ticks in one whole population unit.  A stored value
/// `v` stands for the real quantity `v / SCALE`, giving six decimal places.
pub const SCALE: i128 = 1_000_000;

/// Largest magnitude (in ticks) the step rule accepts for rates, compartments
/// and the population.  Inside this range every intermediate product of the
/// update rule fits in an `i128`.
pub const LIMIT: i128 = 1_000_000_000_000;

/// Mathematical model of a daily snapshot: the step index and the three
/// compartment sizes as unbounded integers (in ticks).
pub ghost struct StepModel {
    pub day: int,
    pub susceptible: int,
    pub infected: int,
    pub removed: int,
}

/// Compartment sizes at the end of one simulated day, in ticks of `1/SCALE`
/// of a population unit.  `day` is 0 for the initial condition and grows by
/// one per step.
#[derive(Clone, Copy, Debug, PartialEq, Eq, Structural)]
pub struct SirStep {
    pub day: i64,
    pub susceptible: i128,
    pub infected: i128,
    pub removed: i128,
}

impl View for SirStep {
    type V = StepModel;

    open spec fn view(&self) -> StepModel {
        StepModel {
            day: self.day as int,
            susceptible: self.susceptible as int,
            infected: self.infected as int,
            removed: self.removed as int,
        }
    }
}

/// Division as the machine performs it on signed integers: the quotient of
/// the magnitudes, with the sign of the dividend (for a positive divisor).
pub open spec fn div_trunc(a: int, b: int) -> int {
    if a >= 0 {
        a / b
    } else {
        -((-a) / b)
    }
}

/// Drop in the susceptible compartment over one day: the force-of-infection
/// term `-beta * susceptible * infected / total_pop`, in ticks.
pub open spec fn delta_s_model(beta: int, susceptible: int, infected: int, total_pop: int) -> int {
    -div_trunc(beta * susceptible * infected, total_pop * SCALE)
}

/// Growth of the removed compartment over one day: `gamma * infected`,
/// in ticks.
pub open spec fn delta_r_model(gamma: int, infected: int) -> int {
    div_trunc(gamma * infected, SCALE as int)
}

/// Change of the infected compartment, derived as the exact negation of the
/// other two deltas so that the three always sum to zero by construction.
pub open spec fn delta_i_model(delta_s: int, delta_r: int) -> int {
    -delta_s - delta_r
}

fn delta_s(beta: i128, susceptible: i128, infected: i128, total_pop: i128) -> (d: i128)
    requires
        -LIMIT <= beta <= LIMIT,
        -LIMIT <= susceptible <= LIMIT,
        -LIMIT <= infected <= LIMIT,
        1 <= total_pop <= LIMIT,
    ensures
        d == delta_s_model(beta as int, susceptible as int, infected as int, total_pop as int),
        -(LIMIT * LIMIT * LIMIT) <= d <= LIMIT * LIMIT * LIMIT,
{
    proof {
        assert(-(LIMIT * LIMIT) <= beta * susceptible <= LIMIT * LIMIT
            && -(LIMIT * LIMIT * LIMIT) <= beta * susceptible * infected <= LIMIT * LIMIT
            * LIMIT) by (nonlinear_arith)
            requires
                -LIMIT <= beta <= LIMIT,
                -LIMIT <= susceptible <= LIMIT,
                -LIMIT <= infected <= LIMIT,
        ;
        assert(SCALE <= total_pop * SCALE <= LIMIT * SCALE) by (nonlinear_arith)
            requires
                1 <= total_pop <= LIMIT,
        ;
    }
    let numerator: i128 = beta * susceptible * infected;
    let denominator: i128 = total_pop * SCALE;
    let magnitude: i128 = if numerator >= 0 {
        numerator
    } else {
        -numerator
    };
    let quotient: i128 = magnitude / denominator;
    proof {
        vstd::arithmetic::div_mod::lemma_div_pos_is_pos(magnitude as int, denominator as int);
        vstd::arithmetic::div_mod::lemma_div_nonincreasing(magnitude as int, denominator as int);
    }
    if numerator >= 0 {
        -quotient
    } else {
        quotient
    }
}

fn delta_r(gamma: i128, infected: i128) -> (d: i128)
    requires
        -LIMIT <= gamma <= LIMIT,
        -LIMIT <= infected <= LIMIT,
    ensures
        d == delta_r_model(gamma as int, infected as int),
        -(LIMIT * LIMIT) <= d <= LIMIT * LIMIT,
{
    proof {
        assert(-(LIMIT * LIMIT) <= gamma * infected <= LIMIT * LIMIT) by (nonlinear_arith)
            requires
                -LIMIT <= gamma <= LIMIT,
                -LIMIT <= infected <= LIMIT,
        ;
    }
    let product: i128 = gamma * infected;
    let magnitude: i128 = if product >= 0 {
        product
    } else {
        -product
    };
    let quotient: i128 = magnitude / SCALE;
    proof {
        vstd::arithmetic::div_mod::lemma_div_pos_is_pos(magnitude as int, SCALE as int);
        vstd::arithmetic::div_mod::lemma_div_nonincreasing(magnitude as int, SCALE as int);
    }
    if product >= 0 {
        quotient
    } else {
        -quotient
    }
}

fn delta_i(delta_s: i128, delta_r: i128) -> (d: i128)
    requires
        -(LIMIT * LIMIT * LIMIT) <= delta_s <= LIMIT * LIMIT * LIMIT,
        -(LIMIT * LIMIT) <= delta_r <= LIMIT * LIMIT,
    ensures
        d == delta_i_model(delta_s as int, delta_r as int),
{
    (-delta_s) - delta_r
}

/// Exact sum of a sequence of ticks, folded from the back.
pub open spec fn seq_sum(s: Seq<i128>) -> int
    decreases s.len(),
{
    if s.len() == 0 {
        0
    } else {
        seq_sum(s.drop_last()) + s.last()
    }
}

/// The reusable consistency check of the engine: does a list of exactly
/// represented quantities sum to `target`?  Fixed-point arithmetic is exact,
/// so the floating-point pattern "sum within `max * epsilon` of the target"
/// collapses to exact equality; an empty list passes vacuously.  The only
/// demand on the input is the one the machine makes: every prefix of the
/// list must sum to a representable value.
pub fn sum_equal_enough(vals: &Vec<i128>, target: i128) -> (r: bool)
    requires
        forall|k: int|
            0 <= k <= vals@.len() ==> i128::MIN <= #[trigger] seq_sum(vals@.take(k))
                <= i128::MAX,
    ensures
        r <==> (vals@.len() == 0 || seq_sum(vals@) == target),
{
    if vals.len() == 0 {
        return true;
    }
    let mut sum: i128 = 0;
    let mut idx: usize = 0;
    while idx < vals.len()
        invariant
            idx <= vals@.len(),
            forall|k: int|
                0 <= k <= vals@.len() ==> i128::MIN <= #[trigger] seq_sum(vals@.take(k))
                    <= i128::MAX,
            sum == seq_sum(vals@.take(idx as int)),
        decreases vals@.len() - idx,
    {
        proof {
            assert(vals@.take(idx as int + 1).drop_last() =~= vals@.take(idx as int));
            assert(vals@.take(idx as int + 1).last() == vals@[idx as int]);
            assert(seq_sum(vals@.take(idx as int + 1)) == sum + vals@[idx as int]);
        }
        sum = sum + vals[idx];
        idx = idx + 1;
    }
    proof {
        assert(vals@.take(vals@.len() as int) =~= vals@);
    }
    sum == target
}

impl SirStep {
    /// One forward-Euler day: apply the three deltas and bump the day count.
    /// The infected delta is the exact negation of the other two, so the
    /// consistency check that the deltas sum to zero is proved to pass.
    pub fn advance(&self, beta: i128, gamma: i128, total_pop: i128) -> (next: SirStep)
        requires
            -LIMIT <= beta <= LIMIT,
            -LIMIT <= gamma <= LIMIT,
            1 <= total_pop <= LIMIT,
            -LIMIT <= self.susceptible <= LIMIT,
            -LIMIT <= self.infected <= LIMIT,
            -LIMIT <= self.removed <= LIMIT,
            self.day < i64::MAX,
        ensures
            next@ == advance_model(beta as int, gamma as int, total_pop as int, self@),
    {
        let d_s = delta_s(beta, self.susceptible, self.infected, total_pop);
        let d_r = delta_r(gamma, self.infected);
        let d_i = delta_i(d_s, d_r);

        let mut deltas: Vec<i128> = Vec::new();
        deltas.push(d_s);
        deltas.push(d_r);
        deltas.push(d_i);
        proof {
            let s3 = deltas@;
            assert(s3.take(0) =~= Seq::<i128>::empty());
            assert(s3.take(1).drop_last() =~= Seq::<i128>::empty());
            assert(s3.take(1).last() == d_s);
            assert(s3.take(2).drop_last() =~= s3.take(1));
            assert(s3.take(2).last() == d_r);
            assert(s3.take(3) =~= s3);
            assert(s3.drop_last() =~= s3.take(2));
            assert(s3.last() == d_i);
            assert(seq_sum(s3.take(0)) == 0);
            assert(seq_sum(s3.take(1)) == d_s);
            assert(seq_sum(s3.take(2)) == d_s + d_r);
            assert(seq_sum(s3) == d_s + d_r + d_i);
            assert forall|k: int| 0 <= k <= s3.len() implies i128::MIN <= #[trigger] seq_sum(
                s3.take(k),
            ) <= i128::MAX by {
                if k == 3 {
                    assert(s3.take(3) =~= s3);
                }
            }
        }
        let consistent = sum_equal_enough(&deltas, 0);
        assert(consistent);

        SirStep {
            day: self.day + 1,
            susceptible: self.susceptible + d_s,
            infected: self.infected + d_i,
            removed: self.removed + d_r,
        }
    }
}

/// The snapshot one day after `s`, under rates `beta` and `gamma` and fixed
/// population `total_pop` (all in ticks).
pub open spec fn advance_model(beta: int, gamma: int, total_pop: int, s: StepModel) -> StepModel {
    let d_s = delta_s_model(beta, s.susceptible, s.infected, total_pop);
    let d_r = delta_r_model(gamma, s.infected);
    let d_i = delta_i_model(d_s, d_r);
    StepModel {
        day: s.day + 1,
        susceptible: s.susceptible + d_s,
        infected: s.infected + d_i,
        removed: s.removed + d_r,
    }
}

/// Does the machine accept this state?  These are the genuine limits of the
/// exact representation, nothing narrower: rates and compartments — negative
/// ones included, as a diverging Euler run produces them — may range over
/// [-LIMIT, LIMIT], where every intermediate product of the update rule
/// still fits in an `i128`, and the population must be positive, since
/// integers have no analog of dividing by zero.
pub open spec fn steppable(beta: int, gamma: int, total_pop: int, s: StepModel) -> bool {
    &&& -LIMIT <= beta <= LIMIT
    &&& -LIMIT <= gamma <= LIMIT
    &&& 1 <= total_pop <= LIMIT
    &&& -LIMIT <= s.susceptible <= LIMIT
    &&& -LIMIT <= s.infected <= LIMIT
    &&& -LIMIT <= s.removed <= LIMIT
}

/// Mathematical model of the cursor: the current snapshot, the day budget
/// and the fixed parameters (in ticks).
pub ghost struct IterModel {
    pub current: StepModel,
    pub number_of_days: int,
    pub beta: int,
    pub gamma: int,
    pub total_pop: int,
}

/// The sequence of snapshots a full drain of the cursor yields: one per day
/// until the day budget is spent.  The initial snapshot (day 0) is not part
/// of it; callers who need it capture it through `current` before draining.
/// The drain also ends — early — in the one case exact arithmetic cannot
/// answer: a value beyond `LIMIT` in magnitude or a non-positive population,
/// where the original's floats would have gone non-finite.
pub open spec fn emitted(m: IterModel) -> Seq<StepModel>
    decreases m.number_of_days - m.current.day,
{
    if m.current.day >= m.number_of_days {
        Seq::empty()
    } else if !steppable(m.beta, m.gamma, m.total_pop, m.current) {
        Seq::empty()
    } else {
        let next = advance_model(m.beta, m.gamma, m.total_pop, m.current);
        let rest = IterModel {
            current: next,
            number_of_days: m.number_of_days,
            beta: m.beta,
            gamma: m.gamma,
            total_pop: m.total_pop,
        };
        seq![next] + emitted(rest)
    }
}

/// The cursor state `from_total_pop` builds: susceptible is derived, the
/// removed compartment starts empty, the day counter at 0.
pub open spec fn from_total_pop_model(
    beta: int,
    gamma: int,
    total_pop: int,
    infected: int,
    number_of_days: int,
) -> IterModel {
    IterModel {
        current: StepModel {
            day: 0,
            susceptible: total_pop - infected,
            infected: infected,
            removed: 0,
        },
        number_of_days: number_of_days,
        beta: beta,
        gamma: gamma,
        total_pop: total_pop,
    }
}

/// The cursor state `from_susceptible` builds: the population is derived as
/// the sum of the two supplied compartments.
pub open spec fn from_susceptible_model(
    beta: int,
    gamma: int,
    susceptible: int,
    infected: int,
    number_of_days: int,
) -> IterModel {
    IterModel {
        current: StepModel {
            day: 0,
            susceptible: susceptible,
            infected: infected,
            removed: 0,
        },
        number_of_days: number_of_days,
        beta: beta,
        gamma: gamma,
        total_pop: susceptible + infected,
    }
}

/// A lazy, finite, non-restartable source of daily snapshots.  Each call of
/// `next` advances the current snapshot by one day and yields it, until the
/// day budget is spent; once exhausted it yields nothing ever again.
#[derive(Clone, Debug)]
pub struct SirIterator {
    current: SirStep,
    number_of_days: i64,
    beta: i128,
    gamma: i128,
    total_pop: i128,
}

impl View for SirIterator {
    type V = IterModel;

    closed spec fn view(&self) -> IterModel {
        IterModel {
            current: self.current@,
            number_of_days: self.number_of_days as int,
            beta: self.beta as int,
            gamma: self.gamma as int,
            total_pop: self.total_pop as int,
        }
    }
}

impl SirIterator {
    /// Build a cursor from the fixed population and the initially infected
    /// count; everyone not infected starts susceptible.
    pub fn from_total_pop(
        beta: i128,
        gamma: i128,
        total_pop: i128,
        infected: i128,
        number_of_days: i64,
    ) -> (it: SirIterator)
        requires
            i128::MIN <= total_pop - infected <= i128::MAX,
        ensures
            it@ == from_total_pop_model(
                beta as int,
                gamma as int,
                total_pop as int,
                infected as int,
                number_of_days as int,
            ),
    {
        let susceptible: i128 = total_pop - infected;
        let first_step = SirStep { day: 0, susceptible, infected, removed: 0 };
        SirIterator { current: first_step, number_of_days, beta, gamma, total_pop }
    }

    /// Build a cursor from the initially susceptible and infected counts;
    /// the fixed population is their sum.
    pub fn from_susceptible(
        beta: i128,
        gamma: i128,
        susceptible: i128,
        infected: i128,
        number_of_days: i64,
    ) -> (it: SirIterator)
        requires
            i128::MIN <= susceptible + infected <= i128::MAX,
        ensures
            it@ == from_susceptible_model(
                beta as int,
                gamma as int,
                susceptible as int,
                infected as int,
                number_of_days as int,
            ),
    {
        let total_pop: i128 = susceptible + infected;
        let first_step = SirStep { day: 0, susceptible, infected, removed: 0 };
        SirIterator { current: first_step, number_of_days, beta, gamma, total_pop }
    }

    /// The current snapshot; right after construction this is the day-0
    /// initial condition, which the yielded sequence does not include.
    pub fn current(&self) -> (s: SirStep)
        ensures
            s@ == self@.current,
    {
        self.current
    }

    /// Does the machine accept the current state?
    fn steppable_now(&self) -> (b: bool)
        ensures
            b == steppable(self@.beta, self@.gamma, self@.total_pop, self@.current),
    {
        -LIMIT <= self.beta && self.beta <= LIMIT && -LIMIT <= self.gamma && self.gamma <= LIMIT
            && 1 <= self.total_pop && self.total_pop <= LIMIT && -LIMIT
            <= self.current.susceptible && self.current.susceptible <= LIMIT && -LIMIT
            <= self.current.infected && self.current.infected <= LIMIT && -LIMIT
            <= self.current.removed && self.current.removed <= LIMIT
    }

    /// Advance one day and yield the new snapshot, or yield nothing — and
    /// change nothing — once the day budget is spent or the state has left
    /// the representable range.
    pub fn next(&mut self) -> (r: Option<SirStep>)
        ensures
            emitted(old(self)@).len() == 0 ==> r is None && final(self)@ == old(self)@,
            emitted(old(self)@).len() > 0 ==> {
                &&& r matches Some(step) && step@ == emitted(old(self)@)[0]
                &&& final(self)@ == (IterModel {
                    current: emitted(old(self)@)[0],
                    ..old(self)@
                })
                &&& emitted(old(self)@) == seq![emitted(old(self)@)[0]] + emitted(final(self)@)
            },
    {
        if self.current.day >= self.number_of_days {
            return None;
        }
        if !self.steppable_now() {
            return None;
        }
        let new = self.current.advance(self.beta, self.gamma, self.total_pop);
        self.current = new;
        Some(new)
    }

    /// Drain the cursor into an ordered trajectory, oldest snapshot first.
    /// What comes back is exactly the emitted sequence of the cursor as it
    /// stood before the call; afterwards the cursor yields nothing.
    pub fn collect_steps(&mut self) -> (steps: Vec<SirStep>)
        ensures
            steps@.map_values(|s: SirStep| s@) == emitted(old(self)@),
            emitted(final(self)@) == Seq::<StepModel>::empty(),
    {
        let mut steps: Vec<SirStep> = Vec::new();
        loop
            invariant
                emitted(old(self)@) == steps@.map_values(|s: SirStep| s@) + emitted(self@),
            ensures
                emitted(old(self)@) == steps@.map_values(|s: SirStep| s@),
                emitted(self@).len() == 0,
            decreases (if self@.number_of_days >= self@.current.day {
                self@.number_of_days - self@.current.day
            } else {
                0
            }),
        {
            match self.next() {
                Some(step) => {
                    steps.push(step);
                    proof {
                        assert(steps@.map_values(|s: SirStep| s@) =~= steps@.drop_last().map_values(
                            |s: SirStep| s@,
                        ).push(step@));
                        assert(emitted(old(self)@) =~= steps@.map_values(|s: SirStep| s@) + emitted(
                            self@,
                        ));
                    }
                },
                None => {
                    proof {
                        assert(emitted(old(self)@) =~= steps@.map_values(|s: SirStep| s@));
                    }
                    break ;
                },
            }
        }
        proof {
            assert(emitted(self@) =~= Seq::<StepModel>::empty());
        }
        steps
    }
}

/// Conservation law, step form: one day of the update rule redistributes
/// population between compartments but never creates or destroys it — the
/// three deltas cancel exactly by construction.
pub proof fn lemma_advance_preserves_sum(beta: int, gamma: int, total_pop: int, s: StepModel)
    ensures
        ({
            let next = advance_model(beta, gamma, total_pop, s);
            next.susceptible + next.infected + next.removed == s.susceptible + s.infected
                + s.removed
        }),
{
}

/// Conservation law, trajectory form: every yielded snapshot carries the
/// same compartment total as the state the cursor started from.
pub proof fn lemma_conservation(m: IterModel, k: int)
    requires
        0 <= k < emitted(m).len(),
    ensures
        emitted(m)[k].susceptible + emitted(m)[k].infected + emitted(m)[k].removed
            == m.current.susceptible + m.current.infected + m.current.removed,
    decreases k,
{
    let next = advance_model(m.beta, m.gamma, m.total_pop, m.current);
    let rest = IterModel { current: next, ..m };
    lemma_advance_preserves_sum(m.beta, m.gamma, m.total_pop, m.current);
    if k > 0 {
        lemma_conservation(rest, k - 1);
        assert(emitted(m)[k] == emitted(rest)[k - 1]);
    }
}

/// Conservation law against the fixed population: when the starting
/// compartments sum to `total_pop` — as they do for both constructors —
/// every yielded snapshot sums to `total_pop` too.
pub proof fn lemma_conservation_total_pop(m: IterModel, k: int)
    requires
        m.current.susceptible + m.current.infected + m.current.removed == m.total_pop,
        0 <= k < emitted(m).len(),
    ensures
        emitted(m)[k].susceptible + emitted(m)[k].infected + emitted(m)[k].removed
            == m.total_pop,
{
    lemma_conservation(m, k);
}

/// Monotonic day counter: the `k`-th yielded snapshot is dated exactly
/// `k + 1` days after the starting state — consecutive days, no gaps, no
/// repeats, starting one past the initial snapshot.
pub proof fn lemma_monotonic_days(m: IterModel, k: int)
    requires
        0 <= k < emitted(m).len(),
    ensures
        emitted(m)[k].day == m.current.day + k + 1,
    decreases k,
{
    let next = advance_model(m.beta, m.gamma, m.total_pop, m.current);
    let rest = IterModel { current: next, ..m };
    if k > 0 {
        lemma_monotonic_days(rest, k - 1);
        assert(emitted(m)[k] == emitted(rest)[k - 1]);
    }
}

/// A cursor state the step rule provably never leaves: per-day rates of at
/// most one whole unit, a positive representable population, nonnegative
/// compartments that sum to exactly that population.
pub open spec fn well_formed(m: IterModel) -> bool {
    &&& 0 <= m.beta <= SCALE
    &&& 0 <= m.gamma <= SCALE
    &&& 1 <= m.total_pop <= LIMIT
    &&& 0 <= m.current.susceptible
    &&& 0 <= m.current.infected
    &&& 0 <= m.current.removed
    &&& m.current.susceptible + m.current.infected + m.current.removed == m.total_pop
}

/// Stability: from a well-formed state the step rule is applicable and
/// lands in a well-formed state again — compartments stay nonnegative and
/// within the population, so the whole trajectory stays representable.
pub proof fn lemma_step_preserves_well_formed(m: IterModel)
    requires
        well_formed(m),
    ensures
        steppable(m.beta, m.gamma, m.total_pop, m.current),
        well_formed(
            IterModel { current: advance_model(m.beta, m.gamma, m.total_pop, m.current), ..m },
        ),
{
    let s = m.current.susceptible;
    let i = m.current.infected;
    let num = m.beta * s * i;
    let den = m.total_pop * SCALE;
    assert(0 <= num <= den * s && den >= SCALE) by (nonlinear_arith)
        requires
            0 <= m.beta <= SCALE,
            0 <= s,
            0 <= i <= m.total_pop,
            1 <= m.total_pop,
            den == m.total_pop * SCALE,
            num == m.beta * s * i,
    ;
    vstd::arithmetic::div_mod::lemma_div_pos_is_pos(num, den);
    vstd::arithmetic::div_mod::lemma_div_is_ordered(num, den * s, den);
    vstd::arithmetic::div_mod::lemma_div_multiples_vanish(s, den);
    assert(den * s == s * den) by (nonlinear_arith);
    assert(num / den <= s);

    let rnum = m.gamma * i;
    assert(0 <= rnum <= SCALE * i) by (nonlinear_arith)
        requires
            0 <= m.gamma <= SCALE,
            0 <= i,
            rnum == m.gamma * i,
    ;
    vstd::arithmetic::div_mod::lemma_div_pos_is_pos(rnum, SCALE as int);
    vstd::arithmetic::div_mod::lemma_div_is_ordered(rnum, SCALE * i, SCALE as int);
    vstd::arithmetic::div_mod::lemma_div_multiples_vanish(i, SCALE as int);
    assert(rnum / (SCALE as int) <= i);
}

/// Exhaustion: a cursor whose day counter has reached its day budget —
/// in particular one built with a zero or negative budget — yields nothing.
pub proof fn lemma_exhausted(m: IterModel)
    requires
        m.current.day >= m.number_of_days,
    ensures
        emitted(m).len() == 0,
{
}

/// Does every state of the run, up to the day budget, stay within the
/// machine's range?  This is the exact condition under which exact
/// arithmetic can deliver the whole trajectory.
pub open spec fn stays_in_range(m: IterModel) -> bool
    decreases m.number_of_days - m.current.day,
{
    m.current.day >= m.number_of_days || (steppable(m.beta, m.gamma, m.total_pop, m.current)
        && stays_in_range(
        IterModel { current: advance_model(m.beta, m.gamma, m.total_pop, m.current), ..m },
    ))
}

/// Sequence length, general form: a run whose values stay representable
/// yields exactly one snapshot per remaining day of its budget — whatever
/// the parameters, diverging Euler runs with negative compartments included
/// — and none for a spent budget.
pub proof fn lemma_sequence_length_in_range(m: IterModel)
    requires
        stays_in_range(m),
    ensures
        emitted(m).len() == if m.number_of_days >= m.current.day {
            m.number_of_days - m.current.day
        } else {
            0
        },
    decreases (if m.number_of_days >= m.current.day {
        m.number_of_days - m.current.day
    } else {
        0
    }),
{
    if m.current.day < m.number_of_days {
        let next = advance_model(m.beta, m.gamma, m.total_pop, m.current);
        let rest = IterModel { current: next, ..m };
        lemma_sequence_length_in_range(rest);
    }
}

/// Well-formed runs never leave the machine's range: nonnegative
/// compartments summing to the population, with per-day rates of at most
/// one whole unit, are a stable domain of the step rule.
pub proof fn lemma_well_formed_stays_in_range(m: IterModel)
    requires
        well_formed(m),
    ensures
        stays_in_range(m),
    decreases (if m.number_of_days >= m.current.day {
        m.number_of_days - m.current.day
    } else {
        0
    }),
{
    if m.current.day < m.number_of_days {
        lemma_step_preserves_well_formed(m);
        let next = advance_model(m.beta, m.gamma, m.total_pop, m.current);
        let rest = IterModel { current: next, ..m };
        lemma_well_formed_stays_in_range(rest);
    }
}

/// Sequence length on the well-formed domain: one snapshot per day of the
/// budget, none for a spent budget.
pub proof fn lemma_sequence_length(m: IterModel)
    requires
        well_formed(m),
    ensures
        emitted(m).len() == if m.number_of_days >= m.current.day {
            m.number_of_days - m.current.day
        } else {
            0
        },
{
    lemma_well_formed_stays_in_range(m);
    lemma_sequence_length_in_range(m);
}

/// Depletion tendency, per-step basis: on the well-formed domain the
/// susceptible compartment never grows and the removed compartment never
/// shrinks — each day moves population one way, toward removal.
pub proof fn lemma_depletion_step(m: IterModel)
    requires
        well_formed(m),
    ensures
        ({
            let next = advance_model(m.beta, m.gamma, m.total_pop, m.current);
            next.susceptible <= m.current.susceptible && next.removed >= m.current.removed
        }),
{
    let s = m.current.susceptible;
    let i = m.current.infected;
    let num = m.beta * s * i;
    let den = m.total_pop * SCALE;
    assert(num >= 0 && den >= SCALE) by (nonlinear_arith)
        requires
            0 <= m.beta,
            0 <= s,
            0 <= i,
            1 <= m.total_pop,
            num == m.beta * s * i,
            den == m.total_pop * SCALE,
    ;
    vstd::arithmetic::div_mod::lemma_div_pos_is_pos(num, den);
    let rnum = m.gamma * i;
    assert(rnum >= 0) by (nonlinear_arith)
        requires
            0 <= m.gamma,
            0 <= i,
            rnum == m.gamma * i,
    ;
    vstd::arithmetic::div_mod::lemma_div_pos_is_pos(rnum, SCALE as int);
}

/// Determinism: the trajectory is a pure function of the constructed cursor
/// state — no step consults anything but the previous snapshot and the fixed
/// parameters — so cursors in equal states yield identical sequences, and
/// the constructors' exact contracts extend this to equal arguments.
pub proof fn lemma_determinism(a: IterModel, b: IterModel)
    requires
        a == b,
    ensures
        emitted(a) == emitted(b),
{
}

/// Equivalence of constructors: supplying the population and deriving the
/// susceptible count builds the very same cursor state as supplying that
/// susceptible count and deriving the population — so the two constructors
/// yield identical trajectories.
pub proof fn lemma_constructor_equivalence(
    beta: int,
    gamma: int,
    total_pop: int,
    infected: int,
    number_of_days: int,
)
    ensures
        from_total_pop_model(beta, gamma, total_pop, infected, number_of_days)
            == from_susceptible_model(
            beta,
            gamma,
            total_pop - infected,
            infected,
            number_of_days,
        ),
{
}

/// Zero infection: with nobody infected all three deltas are exactly zero,
/// so every yielded snapshot repeats the starting compartments unchanged,
/// for any number of days.
pub proof fn lemma_zero_infection(m: IterModel, k: int)
    requires
        m.current.infected == 0,
        0 <= k < emitted(m).len(),
    ensures
        emitted(m)[k].susceptible == m.current.susceptible,
        emitted(m)[k].infected == 0,
        emitted(m)[k].removed == m.current.removed,
    decreases k,
{
    let den = m.total_pop * SCALE;
    assert(m.beta * m.current.susceptible * 0 == 0) by (nonlinear_arith);
    assert(m.gamma * 0 == 0) by (nonlinear_arith);
    assert(den >= SCALE) by (nonlinear_arith)
        requires
            1 <= m.total_pop,
            den == m.total_pop * SCALE,
    ;
    vstd::arithmetic::div_mod::lemma_div_of0(den);
    vstd::arithmetic::div_mod::lemma_div_of0(SCALE as int);
    let next = advance_model(m.beta, m.gamma, m.total_pop, m.current);
    let rest = IterModel { current: next, ..m };
    if k > 0 {
        lemma_zero_infection(rest, k - 1);
        assert(emitted(m)[k] == emitted(rest)[k - 1]);
    }
}

} // verus!
