//! What holds of every store that is in order, whatever was done to it.

use vstd::prelude::*;
use crate::board::{control_variant, extended_is_ok, share_sum_not_negative};
use crate::distributor::{balanced_bounds, total_accumulator, total_weight};
use crate::model::Variant;
use crate::store::{
    board_of, board_ok, board_slots, feature_ok, feature_with, first, position_agrees,
    position_is_first, share_total, well_formed, StandardRecord, StoreView,
};
use crate::variant::{board_in, create_refusal, created, has_value_in, variants_in};

verus! {

/// In every environment in which a feature has a value, the weights of its
/// standard variants add up to 100 at most, its control variant has the
/// weight that they leave of 100, and the weights of all its variants
/// there add up to 100.
pub proof fn control_takes_the_rest(v: StoreView, feature: int, board: int)
    requires
        well_formed(v),
        0 <= feature < v.features.len(),
        0 <= board < v.features[feature].boards@.len(),
    ensures
        0 <= share_total(v.features[feature].boards@[board].shares@) <= 100,
        control_variant(v.features[feature].boards@[board]).weight == 100 - share_total(
            v.features[feature].boards@[board].shares@,
        ),
        total_weight(
            board_slots(v.features[feature].standards@, v.features[feature].boards@[board]),
        ) == 100,
{
    let f = v.features[feature];
    let b = f.boards@[board];
    assert(feature_ok(f, v.next_variant));
    assert(board_ok(f.standards@, b, v.next_variant));
    share_sum_not_negative(b.shares@, b.shares@.len() as int);
}

/// A feature has at most one control variant in an environment: no two of
/// its boards belong to the same environment, and of the variants that an
/// environment sees the first is the control variant and no other is one.
pub proof fn one_control_per_environment(v: StoreView, feature: int, environment_id: u16)
    requires
        well_formed(v),
        0 <= feature < v.features.len(),
    ensures
        forall|a: int, b: int|
            0 <= a < b < v.features[feature].boards@.len() ==> (
            #[trigger] v.features[feature].boards@[a]).environment_id != (
            #[trigger] v.features[feature].boards@[b]).environment_id,
        forall|i: int|
            0 <= i < variants_in(v.features[feature], environment_id).len() ==> ((
            #[trigger] variants_in(v.features[feature], environment_id)[i]).environment_id is Some
                <==> i == 0),
{
    let f = v.features[feature];
    assert(feature_ok(f, v.next_variant));
}

/// No standard variant is to be seen in an environment in which its
/// feature has no control variant: what an environment sees of a feature
/// is nothing, or begins with the control variant of that environment.
pub proof fn no_standard_without_control(v: StoreView, feature: int, environment_id: u16)
    requires
        well_formed(v),
        0 <= feature < v.features.len(),
    ensures
        !has_value_in(v.features[feature], environment_id) ==> variants_in(
            v.features[feature],
            environment_id,
        ).len() == 0,
        has_value_in(v.features[feature], environment_id) ==> {
            let seen = variants_in(v.features[feature], environment_id);
            &&& seen.len() == v.features[feature].standards@.len() + 1
            &&& seen[0] == control_variant(board_in(v.features[feature], environment_id))
            &&& seen[0].environment_id == Some(environment_id)
        },
{
    let f = v.features[feature];
    position_is_first(f.boards@, board_of(environment_id), 0);
}

/// In every environment in which a feature has a value, the accumulators
/// of its variants add up to 100, none lies 100 or more below the weight
/// of its variant, and none lies further above it than half of 100 and 99
/// for each variant but two: with up to three variants, none lies 100 or
/// more above it either.
pub proof fn accumulators_are_bounded(v: StoreView, feature: int, board: int, slot: int)
    requires
        well_formed(v),
        0 <= feature < v.features.len(),
        0 <= board < v.features[feature].boards@.len(),
        0 <= slot <= v.features[feature].standards@.len(),
    ensures
        ({
            let s = board_slots(v.features[feature].standards@, v.features[feature].boards@[board]);
            &&& total_accumulator(s) == 100
            &&& s[slot].weight - 100 < s[slot].accumulator
            &&& 2 * (s[slot].accumulator - s[slot].weight) <= 100 + 99 * (
            v.features[feature].standards@.len() - 1)
            &&& 2 * (s[slot].accumulator - s[slot].weight) <= 100 + 99 * (100 - s[slot].weight)
        }),
{
    let f = v.features[feature];
    let b = f.boards@[board];
    assert(feature_ok(f, v.next_variant));
    assert(board_ok(f.standards@, b, v.next_variant));
    let s = board_slots(f.standards@, b);
    balanced_bounds(s, slot);
    assert(2 * (s[slot].accumulator - s[slot].weight) <= 100 + 99 * (s.len() - 2));
}

/// A standard variant whose weight brings the weights of the standard
/// variants of its feature in an environment to exactly 100 is accepted,
/// as long as the store has an id left to give.
pub proof fn full_weight_is_accepted(
    v: StoreView,
    environment_id: u16,
    feature_id: u16,
    weight: i16,
)
    requires
        well_formed(v),
        first(v.features, feature_with(feature_id)) < v.features.len(),
        has_value_in(v.features[first(v.features, feature_with(feature_id))], environment_id),
        0 <= weight <= 100,
        share_total(
            board_in(
                v.features[first(v.features, feature_with(feature_id))],
                environment_id,
            ).shares@,
        ) + weight == 100,
        v.next_variant < u16::MAX,
    ensures
        create_refusal(v, environment_id, feature_id, weight) is None,
{
}

/// Once a standard variant has brought the weights of the standard
/// variants in an environment to exactly 100, the control variant there
/// has no weight.
pub proof fn full_weight_leaves_control_nothing(
    before: StoreView,
    after: StoreView,
    environment_id: u16,
    feature_id: u16,
    variant: Variant,
)
    requires
        well_formed(before),
        create_refusal(before, environment_id, feature_id, variant.weight as i16) is None,
        created(before, after, environment_id, feature_id, variant),
        share_total(
            board_in(
                before.features[first(before.features, feature_with(feature_id))],
                environment_id,
            ).shares@,
        ) + variant.weight == 100,
    ensures
        has_value_in(
            after.features[first(before.features, feature_with(feature_id))],
            environment_id,
        ),
        control_variant(
            board_in(
                after.features[first(before.features, feature_with(feature_id))],
                environment_id,
            ),
        ).weight == 0,
{
    let at = first(before.features, feature_with(feature_id));
    let f = before.features[at];
    let g = after.features[at];
    position_is_first(before.features, feature_with(feature_id), 0);
    position_is_first(f.boards@, board_of(environment_id), 0);
    let b = first(f.boards@, board_of(environment_id));
    assert forall|j: int| 0 <= j < f.boards@.len() implies board_of(environment_id)(
        #[trigger] g.boards@[j],
    ) == board_of(environment_id)(f.boards@[j]) by {
        assert(g.boards@[j].environment_id == f.boards@[j].environment_id);
    }
    position_agrees(g.boards@, f.boards@, board_of(environment_id), 0);
    assert(feature_ok(f, before.next_variant));
    assert(board_ok(f.standards@, f.boards@[b], before.next_variant));
    extended_is_ok(
        f.standards@,
        StandardRecord { id: variant.id, value: variant.value },
        f.boards@[b],
        g.boards@[b],
        variant.weight,
        true,
        before.next_variant,
    );
}

} // verus!
