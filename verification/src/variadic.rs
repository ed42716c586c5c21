//! A feature held in memory, with its variations and their distributor.
//!
//! A simple feature has one value. A variadic feature has a control value
//! and variations with weights; the control value takes the weight that the
//! variations leave of 100, and calls for the value are spread over all of
//! them as the accumulators of the distributor say.

use vstd::prelude::*;
use crate::distributor::{
    choice, fresh, fresh_is_steady, steady, step, step_keeps_balance, step_keeps_steady,
    weight_sum, weights_in_range, Slot,
};

verus! {

/// A value with its weight, and the id it is known by.
#[derive(Debug, PartialEq)]
pub struct Variation {
    pub id: Option<u128>,
    pub value: String,
    pub weight: i16,
}

/// A variation with its accumulator.
#[derive(Debug, PartialEq)]
pub struct AccumulatedVar {
    pub accum: i16,
    pub variation: Variation,
}

/// Spreads calls over variations: the last of them holds the control
/// value.
#[derive(Debug, PartialEq)]
pub struct AccumulativeDistributor {
    pub(crate) variations: Vec<AccumulatedVar>,
}

/// The value of a feature.
#[derive(Debug, PartialEq)]
pub enum FeatureValue {
    Simple(String),
    Variadic(Variation),
}

/// A named feature with its value, or with its variations.
#[derive(Debug, PartialEq)]
pub struct Feature {
    pub name: String,
    pub is_enabled: bool,
    pub control_value: String,
    pub distributor: Option<AccumulativeDistributor>,
}

/// Why a call on a feature failed.
#[derive(Debug, PartialEq, Eq, Structural, Clone, Copy)]
pub enum VariadicError {
    /// The feature has no variation of the id asked for.
    NoSuchVariation,
    /// The feature is a simple one.
    NotVariadic,
    /// A weight is no percentage.
    WeightOutOfRange,
    /// The weights add up to more than 100.
    WeightsExceeded,
}

/// Draws a new id by `Ulid::generate`, which puts the time of the call in
/// front of random bits. Nothing is claimed of the id: two calls may
/// return anything.
#[verifier::external_body]
fn fresh_id() -> (id: u128) {
    u128::from(ulid::Ulid::generate())
}

impl Clone for Variation {
    fn clone(&self) -> (copy: Self)
        ensures
            copy == *self,
    {
        Variation { id: self.id, value: self.value.clone(), weight: self.weight }
    }
}

/// What the choice depends on, for one variation.
pub open spec fn slot_of(var: AccumulatedVar) -> Slot {
    Slot {
        id: match var.variation.id {
            Some(id) => id as int,
            None => 0,
        },
        weight: var.variation.weight as int,
        accumulator: var.accum as int,
    }
}

/// What the choice depends on, for each variation in turn.
pub open spec fn slots_of(vars: Seq<AccumulatedVar>) -> Seq<Slot> {
    Seq::new(vars.len(), |i: int| slot_of(vars[i]))
}

/// The variations without their accumulators.
pub open spec fn plain(vars: Seq<AccumulatedVar>) -> Seq<Variation> {
    Seq::new(vars.len(), |i: int| vars[i].variation)
}

/// What the references in `v` point to.
pub open spec fn pointees(v: Seq<&Variation>) -> Seq<Variation> {
    Seq::new(v.len(), |i: int| *v[i])
}

/// The sum of the first `n` weights.
pub open spec fn given_sum(variations: Seq<Variation>, n: int) -> int
    decreases n,
{
    if n <= 0 {
        0
    } else {
        given_sum(variations, n - 1) + variations[n - 1].weight
    }
}

/// Why `variations` cannot stand beside a control value, if they cannot:
/// one of their weights is no percentage, or their weights add up to more
/// than 100.
pub open spec fn refusal(variations: Seq<Variation>) -> Option<VariadicError> {
    if exists|i: int|
        0 <= i < variations.len() && !(0 <= (#[trigger] variations[i]).weight <= 100) {
        Some(VariadicError::WeightOutOfRange)
    } else if given_sum(variations, variations.len() as int) > 100 {
        Some(VariadicError::WeightsExceeded)
    } else {
        None
    }
}

/// The weights of slots add up as those of their variations do.
pub proof fn slot_weights_are_given(vars: Seq<AccumulatedVar>, n: int)
    requires
        0 <= n <= vars.len(),
    ensures
        weight_sum(slots_of(vars), n) == given_sum(plain(vars), n),
    decreases n,
{
    if n > 0 {
        slot_weights_are_given(vars, n - 1);
    }
}

/// Sequences of variations whose first `n` weights agree have the same sum
/// of them.
pub proof fn given_sum_agrees(a: Seq<Variation>, b: Seq<Variation>, n: int)
    requires
        0 <= n <= a.len(),
        n <= b.len(),
        forall|j: int| 0 <= j < n ==> (#[trigger] a[j]).weight == b[j].weight,
    ensures
        given_sum(a, n) == given_sum(b, n),
    decreases n,
{
    if n > 0 {
        given_sum_agrees(a, b, n - 1);
        assert(a[n - 1].weight == b[n - 1].weight);
    }
}

/// Whether `variation` is known by `id`.
pub fn is_known_by(variation: &Variation, id: u128) -> (r: bool)
    ensures
        r == (variation.id == Some(id)),
{
    match variation.id {
        Some(own) => own == id,
        None => false,
    }
}

impl AccumulativeDistributor {
    /// A distributor is in order where it holds the control value at
    /// least, every variation has an id, and its slots are steady: as
    /// evaluations leave slots that began with every accumulator at its
    /// weight.
    pub closed spec fn wf(&self) -> bool {
        &&& 1 <= self.variations@.len()
        &&& forall|i: int|
            0 <= i < self.variations@.len() ==> (#[trigger] self.variations@[i]).variation.id is Some
        &&& steady(slots_of(self.variations@))
    }

    /// The variations with their accumulators, the control value last.
    pub closed spec fn view(&self) -> Seq<AccumulatedVar> {
        self.variations@
    }

    /// A distributor that holds the control value alone, with the whole
    /// weight and under the id `id`.
    pub fn with_id(control_value: String, id: u128) -> (distributor: Self)
        ensures
            distributor.wf(),
            distributor@ == seq![
                AccumulatedVar {
                    accum: 100,
                    variation: Variation { id: Some(id), value: control_value, weight: 100 },
                },
            ],
    {
        let accumulated = AccumulatedVar {
            accum: 100,
            variation: Variation { id: Some(id), value: control_value, weight: 100 },
        };
        let mut variations: Vec<AccumulatedVar> = Vec::new();
        variations.push(accumulated);
        proof {
            let s = slots_of(variations@);
            assert(weight_sum(s, 1) == weight_sum(s, 0) + s[0].weight);
            assert(weights_in_range(s));
            assert(fresh(s));
            fresh_is_steady(s);
        }
        Self { variations }
    }

    /// A distributor that holds the control value alone, with the whole
    /// weight and under a new id.
    pub fn new(control_value: String) -> (distributor: Self)
        ensures
            distributor.wf(),
            distributor@.len() == 1,
            distributor@[0].accum == 100,
            distributor@[0].variation.weight == 100,
            distributor@[0].variation.value == control_value,
            distributor@[0].variation.id is Some,
    {
        Self::with_id(control_value, fresh_id())
    }

    /// The variations, the control value last.
    pub fn variations(&self) -> (all: Vec<&Variation>)
        ensures
            pointees(all@) == plain(self@),
    {
        let mut all: Vec<&Variation> = Vec::new();
        let mut at: usize = 0;
        while at < self.variations.len()
            invariant
                at <= self.variations.len(),
                all@.len() == at,
                forall|i: int| 0 <= i < at ==> *(#[trigger] all@[i]) == self.variations@[i].variation,
            decreases self.variations.len() - at,
        {
            all.push(&self.variations[at].variation);
            at = at + 1;
        }
        assert(pointees(all@) =~= plain(self@));
        all
    }

    /// The first variation known by `id`.
    pub fn find(&self, id: u128) -> (found: Option<&Variation>)
        ensures
            match found {
                Some(variation) => {
                    let at = known_by(self@, id, 0);
                    at < self@.len() && *variation == self@[at].variation
                },
                None => known_by(self@, id, 0) >= self@.len(),
            },
    {
        let mut at: usize = 0;
        while at < self.variations.len() && !is_known_by(&self.variations[at].variation, id)
            invariant
                at <= self.variations.len(),
                known_by(self@, id, 0) == known_by(self@, id, at as int),
            decreases self.variations.len() - at,
        {
            at = at + 1;
        }
        if at < self.variations.len() {
            Some(&self.variations[at].variation)
        } else {
            None
        }
    }

    /// The variation at position `at`.
    pub fn at(&self, at: usize) -> (variation: &Variation)
        requires
            at < self@.len(),
        ensures
            *variation == self@[at as int].variation,
    {
        &self.variations[at].variation
    }

    /// Gives the control value a new text.
    pub fn set_control_value(&mut self, value: String)
        requires
            old(self).wf(),
        ensures
            final(self).wf(),
            final(self)@.len() == old(self)@.len(),
            forall|i: int|
                0 <= i < old(self)@.len() - 1 ==> (#[trigger] final(self)@[i]) == old(self)@[i],
            final(self)@.last() == (AccumulatedVar {
                variation: Variation { value, ..old(self)@.last().variation },
                ..old(self)@.last()
            }),
    {
        let last = self.variations.len() - 1;
        self.variations[last].variation.value = value;
        proof {
            assert(slots_of(self.variations@) =~= slots_of(old(self).variations@));
        }
    }

    /// Replaces the variations beside the control value by `variations`,
    /// each with its accumulator at its weight. Every variation that comes
    /// without an id becomes known by `spare`, or keeps the id it has.
    /// The control value stands last, with the weight that the variations
    /// leave of 100 and its accumulator at that weight.
    pub fn set_variations_with(&mut self, variations: Vec<Variation>, spare: &Vec<u128>) -> (r: Result<
        (),
        VariadicError,
    >)
        requires
            old(self).wf(),
            spare@.len() == variations@.len(),
        ensures
            final(self).wf(),
            match r {
                Ok(_) => {
                    let n = variations@.len() as int;
                    &&& refusal(variations@) is None
                    &&& 0 <= given_sum(variations@, n) <= 100
                    &&& final(self)@.len() == n + 1
                    &&& forall|i: int|
                        0 <= i < n ==> (#[trigger] final(self)@[i]) == (AccumulatedVar {
                            accum: variations@[i].weight,
                            variation: Variation {
                                id: Some(
                                    match variations@[i].id {
                                        Some(id) => id,
                                        None => spare@[i],
                                    },
                                ),
                                ..variations@[i]
                            },
                        })
                    &&& final(self)@[n] == (AccumulatedVar {
                        accum: (100 - given_sum(variations@, n)) as i16,
                        variation: Variation {
                            weight: (100 - given_sum(variations@, n)) as i16,
                            ..old(self)@.last().variation
                        },
                    })
                },
                Err(e) => refusal(variations@) == Some(e) && *final(self) == *old(self),
            },
    {
        let n = variations.len();
        // the sum of the weights as long as it is 100 at most, and more
        // than 100 once it has passed that
        let mut sum: i16 = 0;
        let mut at: usize = 0;
        while at < n
            invariant
                *self == *old(self),
                self.wf(),
                at <= n,
                n == variations@.len(),
                forall|i: int| 0 <= i < at ==> 0 <= (#[trigger] variations@[i]).weight <= 100,
                0 <= sum <= 200,
                sum <= 100 ==> sum == given_sum(variations@, at as int),
                sum > 100 ==> given_sum(variations@, at as int) > 100,
            decreases n - at,
        {
            let weight = variations[at].weight;
            if weight < 0 || weight > 100 {
                assert(!(0 <= variations@[at as int].weight <= 100));
                return Err(VariadicError::WeightOutOfRange);
            }
            if sum <= 100 {
                sum = sum + weight;
            }
            at = at + 1;
        }
        if sum > 100 {
            return Err(VariadicError::WeightsExceeded);
        }
        let mut given = variations;
        let mut accumulated: Vec<AccumulatedVar> = Vec::new();
        let mut at: usize = n;
        // the variations are taken from the end and put in front
        while at > 0
            invariant
                *self == *old(self),
                self.wf(),
                at <= n,
                n == variations@.len(),
                spare@.len() == n,
                given@ == variations@.take(at as int),
                accumulated@.len() == n - at,
                forall|i: int|
                    at <= i < n ==> (#[trigger] accumulated@[i - at]) == (AccumulatedVar {
                        accum: variations@[i].weight,
                        variation: Variation {
                            id: Some(
                                match variations@[i].id {
                                    Some(id) => id,
                                    None => spare@[i],
                                },
                            ),
                            ..variations@[i]
                        },
                    }),
            decreases at,
        {
            at = at - 1;
            let var = given.pop().unwrap();
            assert(var == variations@[at as int]);
            let id = match var.id {
                Some(id) => id,
                None => spare[at],
            };
            let ghost before = accumulated@;
            accumulated.insert(
                0,
                AccumulatedVar {
                    accum: var.weight,
                    variation: Variation { id: Some(id), value: var.value, weight: var.weight },
                },
            );
            proof {
                assert(given@ =~= variations@.take(at as int));
                assert forall|i: int| at <= i < n implies (#[trigger] accumulated@[i - at]) == (
                AccumulatedVar {
                    accum: variations@[i].weight,
                    variation: Variation {
                        id: Some(
                            match variations@[i].id {
                                Some(id) => id,
                                None => spare@[i],
                            },
                        ),
                        ..variations@[i]
                    },
                }) by {
                    if i > at {
                        assert(accumulated@[i - at] == before[i - (at + 1)]);
                    }
                }
            }
        }
        let last = self.variations.len() - 1;
        let mut control = self.variations.remove(last);
        control.variation.weight = 100 - sum;
        control.accum = 100 - sum;
        let ghost front = accumulated@;
        accumulated.push(control);
        self.variations = accumulated;
        proof {
            let vars = self.variations@;
            let s = slots_of(vars);
            assert forall|i: int| 0 <= i < n implies (#[trigger] vars[i]) == (AccumulatedVar {
                accum: variations@[i].weight,
                variation: Variation {
                    id: Some(
                        match variations@[i].id {
                            Some(id) => id,
                            None => spare@[i],
                        },
                    ),
                    ..variations@[i]
                },
            }) by {
                assert(vars[i] == front[i - 0]);
            }
            assert forall|j: int| 0 <= j < n implies (#[trigger] plain(vars)[j]).weight
                == variations@[j].weight by {
                assert(plain(vars)[j] == vars[j].variation);
            }
            slot_weights_are_given(vars, n as int);
            given_sum_agrees(plain(vars), variations@, n as int);
            assert(weight_sum(s, n + 1) == weight_sum(s, n as int) + s[n as int].weight);
            assert forall|i: int| 0 <= i < s.len() implies 0 <= (#[trigger] s[i]).weight <= 100 by {
                if i < n {
                    assert(vars[i].variation.weight == variations@[i].weight);
                }
            }
            assert(fresh(s)) by {
                assert forall|i: int| 0 <= i < s.len() implies (#[trigger] s[i]).accumulator
                    == s[i].weight by {
                    if i < n {
                        assert(vars[i].accum == variations@[i].weight);
                    }
                }
            }
            fresh_is_steady(s);
        }
        Ok(())
    }

    /// Replaces the variations beside the control value by `variations`,
    /// as `set_variations_with` does; those that come without an id get a
    /// new one.
    pub fn set_variations(&mut self, variations: Vec<Variation>) -> (r: Result<(), VariadicError>)
        requires
            old(self).wf(),
        ensures
            final(self).wf(),
            match r {
                Ok(_) => {
                    let n = variations@.len() as int;
                    &&& refusal(variations@) is None
                    &&& 0 <= given_sum(variations@, n) <= 100
                    &&& final(self)@.len() == n + 1
                    &&& forall|i: int|
                        0 <= i < n ==> (#[trigger] final(self)@[i]).accum == variations@[i].weight
                            && final(self)@[i].variation.weight == variations@[i].weight
                            && final(self)@[i].variation.value == variations@[i].value
                            && final(self)@[i].variation.id is Some && (variations@[i].id is Some
                            ==> final(self)@[i].variation.id == variations@[i].id)
                    &&& final(self)@[n] == (AccumulatedVar {
                        accum: (100 - given_sum(variations@, n)) as i16,
                        variation: Variation {
                            weight: (100 - given_sum(variations@, n)) as i16,
                            ..old(self)@.last().variation
                        },
                    })
                },
                Err(e) => refusal(variations@) == Some(e) && *final(self) == *old(self),
            },
    {
        let mut spare: Vec<u128> = Vec::new();
        let mut at: usize = 0;
        while at < variations.len()
            invariant
                at <= variations.len(),
                spare@.len() == at,
            decreases variations.len() - at,
        {
            spare.push(fresh_id());
            at = at + 1;
        }
        self.set_variations_with(variations, &spare)
    }

    /// Answers one call: chooses the variation with the largest
    /// accumulator, among several the one with the smallest id, takes 100
    /// from its accumulator and adds to every accumulator the weight of
    /// its variation. Returns the position of the chosen variation.
    pub fn distribute(&mut self, ident: Option<String>) -> (chosen: usize)
        requires
            old(self).wf(),
        ensures
            final(self).wf(),
            chosen < old(self)@.len(),
            chosen == choice(slots_of(old(self)@)),
            slots_of(final(self)@) == step(slots_of(old(self)@)),
            plain(final(self)@) == plain(old(self)@),
    {
        let ghost s = slots_of(self.variations@);
        let n = self.variations.len();
        let mut chosen: usize = 0;
        let mut at: usize = 1;
        while at < n
            invariant
                n == self.variations@.len(),
                s == slots_of(self.variations@),
                1 <= at <= n,
                chosen < at,
                chosen == crate::distributor::best(s, at as int),
                forall|i: int|
                    0 <= i < n ==> (#[trigger] self.variations@[i]).variation.id is Some,
            decreases n - at,
        {
            let x = &self.variations[at];
            let y = &self.variations[chosen];
            assert(s[at as int] == slot_of(*x));
            assert(s[chosen as int] == slot_of(*y));
            let x_id = match x.variation.id {
                Some(id) => id,
                None => 0,
            };
            let y_id = match y.variation.id {
                Some(id) => id,
                None => 0,
            };
            if x.accum > y.accum || (x.accum == y.accum && x_id < y_id) {
                chosen = at;
            }
            at = at + 1;
        }
        proof {
            step_keeps_balance(s);
            step_keeps_steady(s);
            assert forall|i: int| 0 <= i < s.len() implies -100 < (#[trigger] s[i]).accumulator
                <= 5100 && 0 <= s[i].weight <= 100 by {
                assert(s[i].accumulator > s[i].weight - 100);
                assert(2 * (s[i].accumulator - s[i].weight) <= 100 + 99 * (100 - s[i].weight));
            }
        }
        assert(chosen == choice(s));
        let mut at: usize = 0;
        while at < n
            invariant
                at <= n,
                n == self.variations@.len(),
                n == s.len(),
                chosen < n,
                chosen == choice(s),
                forall|i: int|
                    0 <= i < s.len() ==> -100 < (#[trigger] s[i]).accumulator <= 5100 && 0
                        <= s[i].weight <= 100,
                plain(self.variations@) == plain(old(self).variations@),
                forall|i: int|
                    0 <= i < at ==> slot_of(#[trigger] self.variations@[i]) == step(s)[i],
                forall|i: int| at <= i < n ==> slot_of(#[trigger] self.variations@[i]) == s[i],
            decreases n - at,
        {
            let ghost before = self.variations@;
            assert(slot_of(before[at as int]) == s[at as int]);
            let weight = self.variations[at].variation.weight;
            let lowered: i16 = if at == chosen {
                self.variations[at].accum - 100
            } else {
                self.variations[at].accum
            };
            self.variations[at].accum = lowered + weight;
            proof {
                assert(plain(self.variations@) =~= plain(before));
            }
            at = at + 1;
        }
        proof {
            assert(slots_of(self.variations@) =~= step(s));
            assert forall|i: int| 0 <= i < n implies (
            #[trigger] self.variations@[i]).variation.id is Some by {
                assert(plain(self.variations@)[i] == plain(old(self).variations@)[i]);
            }
        }
        chosen
    }
}

/// The variations that pairs of value and weight stand for, before they
/// are given ids.
pub open spec fn blank(pairs: Seq<(String, i16)>) -> Seq<Variation> {
    Seq::new(pairs.len(), |i: int| Variation { id: None, value: pairs[i].0, weight: pairs[i].1 })
}

/// The position of the first variation at or after `from` that is known
/// by `id`, or the number of variations.
pub open spec fn known_by(vars: Seq<AccumulatedVar>, id: u128, from: int) -> int
    decreases vars.len() - from,
{
    if from < 0 || from >= vars.len() {
        vars.len() as int
    } else if vars[from].variation.id == Some(id) {
        from
    } else {
        known_by(vars, id, from + 1)
    }
}

impl Feature {
    /// A feature is in order where its distributor is, if it has one.
    pub open spec fn wf(&self) -> bool {
        self.distributor is Some ==> self.distributor->0.wf()
    }

    /// A simple feature called `name`, switched off, with the value
    /// `value`.
    pub fn new(name: String, value: String) -> (r: Result<Self, VariadicError>)
        ensures
            r == Ok::<Self, VariadicError>(
                Feature { name, is_enabled: false, control_value: value, distributor: None },
            ),
    {
        Ok(Feature { name, is_enabled: false, control_value: value, distributor: None })
    }

    /// A variadic feature called `name`, switched off, with the control
    /// value `control_value` and the variations that `variations` give as
    /// pairs of value and weight.
    ///
    /// The variations stand in the order given, each with a new id and
    /// its accumulator at its weight; the control value stands last, with
    /// the weight that they leave of 100.
    pub fn new_variadic(name: String, control_value: String, variations: Vec<(String, i16)>) -> (r:
        Result<Self, VariadicError>)
        ensures
            match r {
                Ok(feature) => {
                    let n = variations@.len() as int;
                    &&& refusal(blank(variations@)) is None
                    &&& feature.wf()
                    &&& feature.name == name
                    &&& !feature.is_enabled
                    &&& feature.control_value == control_value
                    &&& feature.distributor is Some
                    &&& feature.distributor->0@.len() == n + 1
                    &&& forall|i: int|
                        0 <= i < n ==> (#[trigger] feature.distributor->0@[i]).accum
                            == variations@[i].1 && feature.distributor->0@[i].variation.weight
                            == variations@[i].1 && feature.distributor->0@[i].variation.value
                            == variations@[i].0 && feature.distributor->0@[i].variation.id is Some
                    &&& feature.distributor->0@[n].accum == 100 - given_sum(blank(variations@), n)
                    &&& feature.distributor->0@[n].variation.weight == 100 - given_sum(
                        blank(variations@),
                        n,
                    )
                    &&& feature.distributor->0@[n].variation.value == control_value
                    &&& feature.distributor->0@[n].variation.id is Some
                },
                Err(e) => refusal(blank(variations@)) == Some(e),
            },
    {
        let mut distributor = AccumulativeDistributor::new(control_value.clone());
        let mut vars: Vec<Variation> = Vec::new();
        let mut at: usize = 0;
        while at < variations.len()
            invariant
                at <= variations.len(),
                vars@ == blank(variations@).take(at as int),
            decreases variations.len() - at,
        {
            vars.push(
                Variation { id: None, value: variations[at].0.clone(), weight: variations[at].1 },
            );
            proof {
                assert(vars@ =~= blank(variations@).take(at + 1));
            }
            at = at + 1;
        }
        proof {
            assert(vars@ =~= blank(variations@));
        }
        let ghost before = distributor@;
        match distributor.set_variations(vars) {
            Ok(_) => {
                proof {
                    let n = variations@.len() as int;
                    assert(before.last() == before[0]);
                    assert forall|i: int| 0 <= i < n implies (#[trigger] distributor@[i]).accum
                        == variations@[i].1 && distributor@[i].variation.weight == variations@[i].1
                        && distributor@[i].variation.value == variations@[i].0
                        && distributor@[i].variation.id is Some by {
                        assert(blank(variations@)[i].weight == variations@[i].1);
                    }
                }
                Ok(
                    Feature {
                        name,
                        is_enabled: false,
                        control_value,
                        distributor: Some(distributor),
                    },
                )
            },
            Err(e) => Err(e),
        }
    }

    /// Gives the feature a new control value.
    pub fn set_control_value(&mut self, control_value: String) -> (r: Result<(), VariadicError>)
        requires
            old(self).wf(),
        ensures
            r is Ok,
            final(self).wf(),
            final(self).name == old(self).name,
            final(self).is_enabled == old(self).is_enabled,
            final(self).control_value == control_value,
            match old(self).distributor {
                Some(before) => {
                    &&& final(self).distributor is Some
                    &&& final(self).distributor->0@.len() == before@.len()
                    &&& forall|i: int|
                        0 <= i < before@.len() - 1 ==> (#[trigger] final(self).distributor->0@[i])
                            == before@[i]
                    &&& final(self).distributor->0@.last() == (AccumulatedVar {
                        variation: Variation { value: control_value, ..before@.last().variation },
                        ..before@.last()
                    })
                },
                None => final(self).distributor is None,
            },
    {
        self.control_value = control_value.clone();
        match &mut self.distributor {
            Some(distributor) => {
                distributor.set_control_value(control_value);
            },
            None => {},
        }
        Ok(())
    }

    /// Turns a possibly variadic feature into a simple one.
    pub fn simplify(&mut self)
        ensures
            *final(self) == (Feature { distributor: None, ..*old(self) }),
    {
        self.distributor = None;
    }

    /// The variations of a variadic feature, the control value last.
    pub fn variations(&self) -> (r: Result<Vec<&Variation>, VariadicError>)
        ensures
            match r {
                Ok(all) => self.distributor is Some && pointees(all@) == plain(
                    self.distributor->0@,
                ),
                Err(e) => self.distributor is None && e == VariadicError::NotVariadic,
            },
    {
        match &self.distributor {
            Some(distributor) => Ok(distributor.variations()),
            None => Err(VariadicError::NotVariadic),
        }
    }

    /// The first variation of a variadic feature that is known by `id`.
    pub fn variation(&self, id: u128) -> (r: Result<Option<&Variation>, VariadicError>)
        ensures
            match r {
                Ok(found) => {
                    &&& self.distributor is Some
                    &&& match found {
                        Some(variation) => {
                            let at = known_by(self.distributor->0@, id, 0);
                            at < self.distributor->0@.len() && *variation
                                == self.distributor->0@[at].variation
                        },
                        None => known_by(self.distributor->0@, id, 0)
                            >= self.distributor->0@.len(),
                    }
                },
                Err(e) => self.distributor is None && e == VariadicError::NotVariadic,
            },
    {
        match &self.distributor {
            Some(distributor) => Ok(distributor.find(id)),
            None => Err(VariadicError::NotVariadic),
        }
    }

    /// The value of the feature for one call.
    ///
    /// A simple feature has its one value. Of a variadic feature the
    /// variation known by `id` is returned where an id is given, and else
    /// the variation that the distributor chooses, which books the call.
    pub fn value(&mut self, id: Option<u128>) -> (r: Result<FeatureValue, VariadicError>)
        requires
            old(self).wf(),
        ensures
            final(self).wf(),
            final(self).name == old(self).name,
            final(self).is_enabled == old(self).is_enabled,
            final(self).control_value == old(self).control_value,
            match (old(self).distributor, id) {
                (None, _) => {
                    &&& r == Ok::<FeatureValue, VariadicError>(
                        FeatureValue::Simple(old(self).control_value),
                    )
                    &&& final(self).distributor is None
                },
                (Some(before), Some(id)) => {
                    let at = known_by(before@, id, 0);
                    &&& final(self).distributor == Some(before)
                    &&& r == if at < before@.len() {
                        Ok::<FeatureValue, VariadicError>(
                            FeatureValue::Variadic(before@[at].variation),
                        )
                    } else {
                        Err(VariadicError::NoSuchVariation)
                    }
                },
                (Some(before), None) => {
                    let chosen = choice(slots_of(before@));
                    &&& final(self).distributor is Some
                    &&& slots_of(final(self).distributor->0@) == step(slots_of(before@))
                    &&& plain(final(self).distributor->0@) == plain(before@)
                    &&& 0 <= chosen < before@.len()
                    &&& r == Ok::<FeatureValue, VariadicError>(
                        FeatureValue::Variadic(before@[chosen].variation),
                    )
                },
            },
    {
        match &mut self.distributor {
            Some(distributor) => {
                if let Some(id) = id {
                    match distributor.find(id) {
                        Some(variation) => Ok(FeatureValue::Variadic(variation.clone())),
                        None => Err(VariadicError::NoSuchVariation),
                    }
                } else {
                    let ghost before = distributor@;
                    let chosen = distributor.distribute(None);
                    let variation = distributor.at(chosen).clone();
                    proof {
                        assert(plain(distributor@)[chosen as int] == plain(before)[chosen as int]);
                    }
                    Ok(FeatureValue::Variadic(variation))
                }
            },
            None => Ok(FeatureValue::Simple(self.control_value.clone())),
        }
    }
}

} // verus!
