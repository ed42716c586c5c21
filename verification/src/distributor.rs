//! Spreading evaluations over the variants of a feature.
//!
//! Every variant carries an accumulator. An evaluation picks the variant
//! with the largest accumulator, takes 100 from it, and then adds to every
//! accumulator the weight of its variant. No random number is drawn, and the
//! share of evaluations that a variant receives follows its weight.

use vstd::prelude::*;

verus! {

/// What the choice depends on, for one variant: the mathematical side.
pub struct Slot {
    pub id: int,
    pub weight: int,
    pub accumulator: int,
}

/// What the choice depends on, for one variant.
#[derive(Debug, PartialEq, Eq, Clone, Copy)]
pub struct Candidate {
    pub id: u16,
    pub weight: u8,
    pub accumulator: i32,
}

impl View for Candidate {
    type V = Slot;

    open spec fn view(&self) -> Slot {
        Slot { id: self.id as int, weight: self.weight as int, accumulator: self.accumulator as int }
    }
}

/// The slots of a sequence of candidates.
pub open spec fn slots(candidates: Seq<Candidate>) -> Seq<Slot> {
    Seq::new(candidates.len(), |i: int| candidates[i]@)
}

/// Whether `x` is to be chosen rather than `y`: it has the larger
/// accumulator, or the same accumulator and the smaller id.
pub open spec fn better(x: Slot, y: Slot) -> bool {
    x.accumulator > y.accumulator || (x.accumulator == y.accumulator && x.id < y.id)
}

/// The position of the slot to choose among the first `n`.
pub open spec fn best(s: Seq<Slot>, n: int) -> int
    decreases n,
{
    if n <= 1 {
        0
    } else {
        let b = best(s, n - 1);
        if better(s[n - 1], s[b]) {
            n - 1
        } else {
            b
        }
    }
}

/// The position of the slot that an evaluation chooses.
pub open spec fn choice(s: Seq<Slot>) -> int {
    best(s, s.len() as int)
}

/// The slots after an evaluation that chose position `chosen`.
pub open spec fn advance(s: Seq<Slot>, chosen: int) -> Seq<Slot> {
    Seq::new(
        s.len(),
        |i: int|
            Slot {
                accumulator: s[i].accumulator + s[i].weight - if i == chosen {
                    100int
                } else {
                    0int
                },
                ..s[i]
            },
    )
}

/// The slots after one evaluation.
pub open spec fn step(s: Seq<Slot>) -> Seq<Slot> {
    advance(s, choice(s))
}

/// The slots after `n` evaluations.
pub open spec fn run(s: Seq<Slot>, n: nat) -> Seq<Slot>
    decreases n,
{
    if n == 0 {
        s
    } else {
        step(run(s, (n - 1) as nat))
    }
}

/// How often position `i` was chosen in the first `n` evaluations.
pub open spec fn hits(s: Seq<Slot>, n: nat, i: int) -> int
    decreases n,
{
    if n == 0 {
        0
    } else {
        hits(s, (n - 1) as nat, i) + if choice(run(s, (n - 1) as nat)) == i {
            1int
        } else {
            0int
        }
    }
}

/// The sum of the first `n` weights.
pub open spec fn weight_sum(s: Seq<Slot>, n: int) -> int
    decreases n,
{
    if n <= 0 {
        0
    } else {
        weight_sum(s, n - 1) + s[n - 1].weight
    }
}

/// The sum of the first `n` accumulators.
pub open spec fn accumulator_sum(s: Seq<Slot>, n: int) -> int
    decreases n,
{
    if n <= 0 {
        0
    } else {
        accumulator_sum(s, n - 1) + s[n - 1].accumulator
    }
}

/// The sum of all weights.
pub open spec fn total_weight(s: Seq<Slot>) -> int {
    weight_sum(s, s.len() as int)
}

/// The sum of all accumulators.
pub open spec fn total_accumulator(s: Seq<Slot>) -> int {
    accumulator_sum(s, s.len() as int)
}

/// Every weight is a percentage.
pub open spec fn weights_in_range(s: Seq<Slot>) -> bool {
    forall|i: int| 0 <= i < s.len() ==> 0 <= (#[trigger] s[i]).weight <= 100
}

/// Every accumulator stands at the weight of its slot, as it does before
/// the first evaluation.
pub open spec fn fresh(s: Seq<Slot>) -> bool {
    forall|i: int| 0 <= i < s.len() ==> (#[trigger] s[i]).accumulator == s[i].weight
}

/// No accumulator has fallen 100 or more below the weight of its slot.
pub open spec fn above_floor(s: Seq<Slot>) -> bool {
    forall|i: int| 0 <= i < s.len() ==> (#[trigger] s[i]).accumulator > s[i].weight - 100
}

/// The weights are percentages that add up to 100, the accumulators add up
/// to 100 as well, and none has fallen to the floor.
pub open spec fn balanced(s: Seq<Slot>) -> bool {
    &&& s.len() > 0
    &&& weights_in_range(s)
    &&& total_weight(s) == 100
    &&& total_accumulator(s) == 100
    &&& above_floor(s)
}

/// A slot without weight has an accumulator of 0.
pub open spec fn idle_at_zero(s: Seq<Slot>) -> bool {
    forall|i: int| 0 <= i < s.len() && (#[trigger] s[i]).weight == 0 ==> s[i].accumulator == 0
}

/// No accumulator lies further above the weight of its slot than half of
/// 100 and 99 for each slot but two, nor than half of 100 and 99 for each
/// percent of weight that the others hold.
pub open spec fn in_reach(s: Seq<Slot>) -> bool {
    forall|i: int|
        0 <= i < s.len() ==> 2 * ((#[trigger] s[i]).accumulator - s[i].weight) <= 100 + 99 * (
        s.len() - 2) && 2 * (s[i].accumulator - s[i].weight) <= 100 + 99 * (100 - s[i].weight)
}

/// The state of slots that began with every accumulator at its weight and
/// have seen evaluations only: balanced, with the slots without weight at
/// 0 and no accumulator out of reach.
pub open spec fn steady(s: Seq<Slot>) -> bool {
    &&& balanced(s)
    &&& idle_at_zero(s)
    &&& in_reach(s)
}

/// Every accumulator can lose 100 and gain a weight without leaving the
/// range of its type.
pub open spec fn has_room(s: Seq<Slot>) -> bool {
    forall|i: int|
        0 <= i < s.len() ==> i32::MIN + 100 <= (#[trigger] s[i]).accumulator && s[i].accumulator
            + s[i].weight <= i32::MAX
}

/// Picks the candidate with the largest accumulator; among several, the one
/// with the smallest id, and among those the first.
pub fn select(candidates: &Vec<Candidate>) -> (chosen: usize)
    requires
        candidates.len() > 0,
    ensures
        chosen < candidates.len(),
        chosen == choice(slots(candidates@)),
{
    let ghost s = slots(candidates@);
    let mut chosen: usize = 0;
    let mut n: usize = 1;
    while n < candidates.len()
        invariant
            s == slots(candidates@),
            1 <= n <= candidates.len(),
            chosen < n,
            chosen == best(s, n as int),
        decreases candidates.len() - n,
    {
        let x = candidates[n];
        let y = candidates[chosen];
        assert(s[n as int] == x@);
        assert(s[chosen as int] == y@);
        if x.accumulator > y.accumulator || (x.accumulator == y.accumulator && x.id < y.id) {
            chosen = n;
        }
        n = n + 1;
    }
    chosen
}

/// Books an evaluation that chose position `chosen`: takes 100 from the
/// chosen accumulator and adds to every accumulator the weight of its
/// candidate.
pub fn bump(candidates: &mut Vec<Candidate>, chosen: usize)
    requires
        chosen < old(candidates).len(),
        has_room(slots(old(candidates)@)),
    ensures
        slots(final(candidates)@) == advance(slots(old(candidates)@), chosen as int),
{
    let ghost before = slots(candidates@);
    let mut i: usize = 0;
    while i < candidates.len()
        invariant
            i <= candidates.len(),
            candidates.len() == before.len(),
            has_room(before),
            forall|j: int| 0 <= j < i ==> (#[trigger] candidates@[j])@ == advance(
                before,
                chosen as int,
            )[j],
            forall|j: int| i <= j < candidates.len() ==> (#[trigger] candidates@[j])@ == before[j],
        decreases candidates.len() - i,
    {
        let c = candidates[i];
        assert(c@ == before[i as int]);
        let lowered: i32 = if i == chosen {
            c.accumulator - 100
        } else {
            c.accumulator
        };
        let raised: i32 = lowered + c.weight as i32;
        candidates[i].accumulator = raised;
        i = i + 1;
    }
    assert(slots(candidates@) =~= advance(before, chosen as int));
}

/// One evaluation: picks a candidate and books the choice.
pub fn distribute(candidates: &mut Vec<Candidate>) -> (chosen: usize)
    requires
        old(candidates).len() > 0,
        has_room(slots(old(candidates)@)),
    ensures
        chosen < old(candidates).len(),
        chosen == choice(slots(old(candidates)@)),
        slots(final(candidates)@) == step(slots(old(candidates)@)),
{
    let chosen = select(candidates);
    bump(candidates, chosen);
    chosen
}

/// The chosen slot lies among the first `n`, and none of them is better.
pub proof fn best_is_best(s: Seq<Slot>, n: int)
    requires
        1 <= n <= s.len(),
    ensures
        0 <= best(s, n) < n,
        forall|j: int| 0 <= j < n ==> !better(#[trigger] s[j], s[best(s, n)]),
    decreases n,
{
    if n > 1 {
        best_is_best(s, n - 1);
    }
}

/// Accumulators of which none is positive add up to nothing positive.
pub proof fn accumulator_sum_not_positive(s: Seq<Slot>, n: int)
    requires
        0 <= n <= s.len(),
        forall|j: int| 0 <= j < n ==> (#[trigger] s[j]).accumulator <= 0,
    ensures
        accumulator_sum(s, n) <= 0,
    decreases n,
{
    if n > 0 {
        accumulator_sum_not_positive(s, n - 1);
        assert(s[n - 1].accumulator <= 0);
    }
}

/// Where the accumulators add up to more than nothing, the chosen one is
/// positive.
pub proof fn choice_is_positive(s: Seq<Slot>)
    requires
        s.len() > 0,
        total_accumulator(s) > 0,
    ensures
        0 <= choice(s) < s.len(),
        s[choice(s)].accumulator > 0,
{
    best_is_best(s, s.len() as int);
    let c = choice(s);
    if s[c].accumulator <= 0 {
        assert forall|j: int| 0 <= j < s.len() implies (#[trigger] s[j]).accumulator <= 0 by {
            assert(!better(s[j], s[c]));
        }
        accumulator_sum_not_positive(s, s.len() as int);
    }
}

/// Sequences whose first `n` weights agree have the same sum of them.
pub proof fn weight_sum_agrees(a: Seq<Slot>, b: Seq<Slot>, n: int)
    requires
        0 <= n <= a.len(),
        n <= b.len(),
        forall|j: int| 0 <= j < n ==> (#[trigger] a[j]).weight == b[j].weight,
    ensures
        weight_sum(a, n) == weight_sum(b, n),
    decreases n,
{
    if n > 0 {
        weight_sum_agrees(a, b, n - 1);
        assert(a[n - 1].weight == b[n - 1].weight);
    }
}

/// Sequences whose first `n` accumulators agree have the same sum of them.
pub proof fn accumulator_sum_agrees(a: Seq<Slot>, b: Seq<Slot>, n: int)
    requires
        0 <= n <= a.len(),
        n <= b.len(),
        forall|j: int| 0 <= j < n ==> (#[trigger] a[j]).accumulator == b[j].accumulator,
    ensures
        accumulator_sum(a, n) == accumulator_sum(b, n),
    decreases n,
{
    if n > 0 {
        accumulator_sum_agrees(a, b, n - 1);
        assert(a[n - 1].accumulator == b[n - 1].accumulator);
    }
}

/// An evaluation leaves the weights as they are.
pub proof fn advance_keeps_weights(s: Seq<Slot>, chosen: int, n: int)
    requires
        0 <= n <= s.len(),
    ensures
        weight_sum(advance(s, chosen), n) == weight_sum(s, n),
    decreases n,
{
    if n > 0 {
        advance_keeps_weights(s, chosen, n - 1);
    }
}

/// An evaluation adds the weights to the accumulators and takes 100 from
/// the chosen one.
pub proof fn advance_accumulator_sum(s: Seq<Slot>, chosen: int, n: int)
    requires
        0 <= n <= s.len(),
    ensures
        accumulator_sum(advance(s, chosen), n) == accumulator_sum(s, n) + weight_sum(s, n) - if 0
            <= chosen < n {
            100int
        } else {
            0int
        },
    decreases n,
{
    if n > 0 {
        advance_accumulator_sum(s, chosen, n - 1);
    }
}

/// An evaluation of a balanced sequence leaves it balanced.
pub proof fn step_keeps_balance(s: Seq<Slot>)
    requires
        balanced(s),
    ensures
        balanced(step(s)),
        step(s).len() == s.len(),
        forall|i: int| 0 <= i < s.len() ==> (#[trigger] step(s)[i]).weight == s[i].weight,
        forall|i: int| 0 <= i < s.len() ==> (#[trigger] step(s)[i]).id == s[i].id,
{
    let c = choice(s);
    let t = step(s);
    choice_is_positive(s);
    advance_keeps_weights(s, c, s.len() as int);
    advance_accumulator_sum(s, c, s.len() as int);
    assert forall|i: int| 0 <= i < t.len() implies (#[trigger] t[i]).accumulator > t[i].weight
        - 100 by {
        assert(s[i].accumulator > s[i].weight - 100);
        assert(0 <= s[i].weight);
    }
    assert forall|i: int| 0 <= i < t.len() implies 0 <= (#[trigger] t[i]).weight <= 100 by {
        assert(0 <= s[i].weight <= 100);
    }
}

/// A sequence before its first evaluation is balanced where its weights
/// are percentages that add up to 100.
pub proof fn fresh_is_balanced(s: Seq<Slot>)
    requires
        s.len() > 0,
        weights_in_range(s),
        total_weight(s) == 100,
        fresh(s),
    ensures
        balanced(s),
{
    fresh_sums_agree(s, s.len() as int);
    assert forall|i: int| 0 <= i < s.len() implies (#[trigger] s[i]).accumulator > s[i].weight
        - 100 by {}
}

/// Before the first evaluation the accumulators add up to what the weights
/// add up to.
pub proof fn fresh_sums_agree(s: Seq<Slot>, n: int)
    requires
        0 <= n <= s.len(),
        fresh(s),
    ensures
        accumulator_sum(s, n) == weight_sum(s, n),
    decreases n,
{
    if n > 0 {
        fresh_sums_agree(s, n - 1);
    }
}

/// Any number of evaluations leaves a balanced sequence balanced, with the
/// ids and weights it had.
pub proof fn run_keeps_balance(s: Seq<Slot>, n: nat)
    requires
        balanced(s),
    ensures
        balanced(run(s, n)),
        run(s, n).len() == s.len(),
        forall|i: int| 0 <= i < s.len() ==> (#[trigger] run(s, n)[i]).weight == s[i].weight,
        forall|i: int| 0 <= i < s.len() ==> (#[trigger] run(s, n)[i]).id == s[i].id,
    decreases n,
{
    if n > 0 {
        let before = run(s, (n - 1) as nat);
        run_keeps_balance(s, (n - 1) as nat);
        step_keeps_balance(before);
        assert forall|i: int| 0 <= i < s.len() implies (#[trigger] run(s, n)[i]).weight
            == s[i].weight by {
            assert(step(before)[i].weight == before[i].weight);
        }
        assert forall|i: int| 0 <= i < s.len() implies (#[trigger] run(s, n)[i]).id == s[i].id by {
            assert(step(before)[i].id == before[i].id);
        }
    }
}

/// After `n` evaluations an accumulator has gained `n` times its weight
/// and lost 100 for every time its slot was chosen.
pub proof fn accumulator_after_run(s: Seq<Slot>, n: nat, i: int)
    requires
        balanced(s),
        0 <= i < s.len(),
    ensures
        run(s, n).len() == s.len(),
        run(s, n)[i].accumulator == s[i].accumulator + n * s[i].weight - 100 * hits(s, n, i),
    decreases n,
{
    run_keeps_balance(s, n);
    if n > 0 {
        let before = run(s, (n - 1) as nat);
        accumulator_after_run(s, (n - 1) as nat, i);
        run_keeps_balance(s, (n - 1) as nat);
        assert(before[i].weight == s[i].weight);
        assert((n - 1) * s[i].weight + s[i].weight == n * s[i].weight) by (nonlinear_arith);
    } else {
        assert(0 * s[i].weight == 0) by (nonlinear_arith);
    }
}

/// Accumulators that all lie above the floor add up to more than the first
/// `n` weights less `n` times 100; where position `i` is among them, the
/// others alone leave at least 1 each.
pub proof fn floor_sum(s: Seq<Slot>, n: int, i: int)
    requires
        0 <= n <= s.len(),
        above_floor(s),
        0 <= i < s.len(),
    ensures
        i < n ==> accumulator_sum(s, n) - s[i].accumulator >= weight_sum(s, n) - s[i].weight - 99 * (
        n - 1),
        i >= n ==> accumulator_sum(s, n) >= weight_sum(s, n) - 99 * n,
    decreases n,
{
    if n > 0 {
        floor_sum(s, n - 1, i);
        assert(s[n - 1].accumulator > s[n - 1].weight - 100);
    }
}

/// In a balanced sequence every accumulator lies above its weight less 100
/// and at most 99 for each other slot above its weight.
pub proof fn balanced_bounds(s: Seq<Slot>, i: int)
    requires
        balanced(s),
        0 <= i < s.len(),
    ensures
        s[i].weight - 100 < s[i].accumulator <= s[i].weight + 99 * (s.len() - 1),
{
    floor_sum(s, s.len() as int, i);
}

/// Of slots above the floor, with those without weight at 0, the first
/// `n` but for the two at `i` and `c` hold accumulators that add up to no
/// less than their weights less 99 for each of them, and to no less than
/// their weights less 99 times their weights.
pub proof fn others_sum(s: Seq<Slot>, n: int, i: int, c: int)
    requires
        0 <= n <= s.len(),
        weights_in_range(s),
        above_floor(s),
        idle_at_zero(s),
        0 <= i < s.len(),
        0 <= c < s.len(),
        i != c,
    ensures
        ({
            let held = (if i < n {
                s[i].accumulator - s[i].weight
            } else {
                0
            }) + (if c < n {
                s[c].accumulator - s[c].weight
            } else {
                0
            });
            let kept = (if i < n {
                s[i].weight
            } else {
                0
            }) + (if c < n {
                s[c].weight
            } else {
                0
            });
            let count = (if i < n {
                1int
            } else {
                0int
            }) + (if c < n {
                1int
            } else {
                0int
            });
            &&& accumulator_sum(s, n) - weight_sum(s, n) - held >= -99 * (n - count)
            &&& accumulator_sum(s, n) - weight_sum(s, n) - held >= -99 * (weight_sum(s, n) - kept)
            &&& weight_sum(s, n) - kept >= 0
        }),
    decreases n,
{
    if n > 0 {
        others_sum(s, n - 1, i, c);
        let m = n - 1;
        assert(0 <= s[m].weight <= 100);
        assert(s[m].accumulator > s[m].weight - 100);
        if s[m].weight == 0 {
            assert(s[m].accumulator == 0);
        }
    }
}

/// An evaluation of steady slots leaves them steady.
pub proof fn step_keeps_steady(s: Seq<Slot>)
    requires
        steady(s),
    ensures
        steady(step(s)),
{
    let c = choice(s);
    let t = step(s);
    let k = s.len() as int;
    step_keeps_balance(s);
    choice_is_positive(s);
    best_is_best(s, k);
    assert forall|i: int| 0 <= i < t.len() && (#[trigger] t[i]).weight == 0 implies t[i].accumulator
        == 0 by {
        assert(s[i].weight == 0);
        assert(s[i].accumulator == 0);
    }
    assert forall|i: int| 0 <= i < t.len() implies 2 * ((#[trigger] t[i]).accumulator - t[i].weight)
        <= 100 + 99 * (t.len() - 2) && 2 * (t[i].accumulator - t[i].weight) <= 100 + 99 * (100
        - t[i].weight) by {
        assert(0 <= s[i].weight <= 100);
        assert(0 <= s[c].weight <= 100);
        if i == c {
            assert(t[i].accumulator - t[i].weight <= s[i].accumulator - s[i].weight);
            assert(2 * (s[i].accumulator - s[i].weight) <= 100 + 99 * (s.len() - 2));
        } else {
            // passed over for `c`, the slot lies no further ahead than `c`
            // and 100, and the two together no further than the rest lies
            // behind
            assert(!better(s[i], s[c]));
            assert(t[i].accumulator - t[i].weight == s[i].accumulator);
            assert(t[c].accumulator - t[c].weight == s[c].accumulator - 100);
            others_sum(t, k, i, c);
            assert(t[c].weight == s[c].weight);
        }
    }
}

/// Slots before their first evaluation are steady where their weights are
/// percentages that add up to 100.
pub proof fn fresh_is_steady(s: Seq<Slot>)
    requires
        s.len() > 0,
        weights_in_range(s),
        total_weight(s) == 100,
        fresh(s),
    ensures
        steady(s),
{
    fresh_is_balanced(s);
    assert forall|i: int| 0 <= i < s.len() implies 2 * ((#[trigger] s[i]).accumulator - s[i].weight)
        <= 100 + 99 * (s.len() - 2) && 2 * (s[i].accumulator - s[i].weight) <= 100 + 99 * (100
        - s[i].weight) by {
        assert(0 <= s[i].weight <= 100);
    }
}

/// Any number of evaluations leaves steady slots steady.
pub proof fn run_keeps_steady(s: Seq<Slot>, n: nat)
    requires
        steady(s),
    ensures
        steady(run(s, n)),
    decreases n,
{
    if n > 0 {
        run_keeps_steady(s, (n - 1) as nat);
        step_keeps_steady(run(s, (n - 1) as nat));
    }
}

/// The distribution law, from above: started with every accumulator at its
/// weight and with weights that add up to 100, a variant is never chosen a
/// whole time more often than its weight asks for.
pub proof fn hits_bounded_above(s: Seq<Slot>, n: nat, i: int)
    requires
        s.len() > 0,
        weights_in_range(s),
        total_weight(s) == 100,
        fresh(s),
        0 <= i < s.len(),
    ensures
        100 * hits(s, n, i) - n * s[i].weight < 100,
{
    fresh_is_balanced(s);
    accumulator_after_run(s, n, i);
    run_keeps_balance(s, n);
    balanced_bounds(run(s, n), i);
    assert(run(s, n)[i].weight == s[i].weight);
}

/// The distribution law, from below, for any number of variants: twice
/// what a variant falls behind of what its weight asks for is at most one
/// time and 0.99 times for each variant but two, and at most one time and
/// 0.99 times for each percent of weight that the others hold.
///
/// A variant can fall more than one time behind where there are five or
/// more: with the weights 1, 7, 52, 1 and 39, and ids that rise in that
/// order, the last is 1.06 times behind after 54 evaluations.
pub proof fn hits_bounded_below(s: Seq<Slot>, n: nat, i: int)
    requires
        s.len() > 0,
        weights_in_range(s),
        total_weight(s) == 100,
        fresh(s),
        0 <= i < s.len(),
    ensures
        2 * (n * s[i].weight - 100 * hits(s, n, i)) <= 100 + 99 * (s.len() - 2),
        2 * (n * s[i].weight - 100 * hits(s, n, i)) <= 100 + 99 * (100 - s[i].weight),
{
    fresh_is_steady(s);
    accumulator_after_run(s, n, i);
    run_keeps_balance(s, n);
    run_keeps_steady(s, n);
    assert(run(s, n)[i].weight == s[i].weight);
    assert(2 * (run(s, n)[i].accumulator - run(s, n)[i].weight) <= 100 + 99 * (run(s, n).len()
        - 2));
}

/// The distribution law in full, for up to three variants: the number of
/// times a variant was chosen differs from what its weight asks for by
/// less than one.
pub proof fn hits_within_one(s: Seq<Slot>, n: nat, i: int)
    requires
        1 <= s.len() <= 3,
        weights_in_range(s),
        total_weight(s) == 100,
        fresh(s),
        0 <= i < s.len(),
    ensures
        -100 < 100 * hits(s, n, i) - n * s[i].weight < 100,
{
    hits_bounded_above(s, n, i);
    hits_bounded_below(s, n, i);
}

} // verus!
