//! Variants: the weighted values of a feature.
//!
//! A control variant belongs to one environment and is the value of its
//! feature there; its weight is what the standard variants leave of 100.
//! A standard variant is shared by all environments and has a weight in
//! each environment in which the feature has a value.

use vstd::prelude::*;
use crate::board::{
    at_rest, board_ok_same_ids, control, control_variant, extend_boards, extended, extended_is_ok,
    idle_shares,
    list as list_board, listing, rebalance, rest_is_order, share_sum_changed, shrink_boards,
    shrunk, shrunk_is_ok, standard_variant, total_of,
};
use crate::errors::{BadRequest, FlagrantError};
use crate::model::{Environment, Feature, Variant};
use crate::values::FeatureValue;
use crate::store::{
    board_added, board_of, board_ok, board_ok_later, board_removed, board_slots, environment_with,
    feature_changed, feature_ok, feature_with, find_board, find_standard, first, first_is,
    ids_kept, kept_ids, owned_is_given, owns, position, position_agrees, position_is_first,
    share_total, standard_added, standard_removed, standard_with, well_formed, Board,
    ControlRecord, FeatureRecord, Share, StandardRecord, Store, StoreView,
};

verus! {

/// Whether `feature` has a value in the environment `environment_id`.
pub open spec fn has_value_in(feature: FeatureRecord, environment_id: u16) -> bool {
    first(feature.boards@, board_of(environment_id)) < feature.boards@.len()
}

/// The board of `feature` for the environment `environment_id`, in which
/// it has a value.
pub open spec fn board_in(feature: FeatureRecord, environment_id: u16) -> Board {
    feature.boards@[first(feature.boards@, board_of(environment_id))]
}

/// The variants of `feature` as the environment `environment_id` sees
/// them: none where the feature has no value there.
pub open spec fn variants_in(feature: FeatureRecord, environment_id: u16) -> Seq<Variant> {
    let at = first(feature.boards@, board_of(environment_id));
    if at < feature.boards@.len() {
        listing(feature.standards@, feature.boards@[at])
    } else {
        Seq::empty()
    }
}

/// What a listing of the variants of the feature `feature_id` in the
/// environment `environment_id` returns: what the environment sees of the
/// feature, which is nothing where the feature has no value there.
pub open spec fn listed(v: StoreView, environment_id: u16, feature_id: u16) -> Result<
    Seq<Variant>,
    FlagrantError,
> {
    let at = first(v.features, feature_with(feature_id));
    if at >= v.features.len() {
        Err(FlagrantError::NotFound)
    } else {
        Ok(variants_in(v.features[at], environment_id))
    }
}

/// The features that show a variant with the id `variant_id` in the
/// environment `environment_id`: those that have a value there and of
/// which it is the control variant there or a standard variant.
pub open spec fn holds(environment_id: u16, variant_id: u16) -> spec_fn(FeatureRecord) -> bool {
    |f: FeatureRecord|
        {
            let b = first(f.boards@, board_of(environment_id));
            b < f.boards@.len() && (f.boards@[b].control.id == variant_id || first(
                f.standards@,
                standard_with(variant_id),
            ) < f.standards@.len())
        }
}

/// The variant with the id `variant_id` as `feature`, which holds it,
/// shows it in the environment `environment_id`.
pub open spec fn shown(feature: FeatureRecord, environment_id: u16, variant_id: u16) -> Variant {
    let board = feature.boards@[first(feature.boards@, board_of(environment_id))];
    let at = first(feature.standards@, standard_with(variant_id));
    if board.control.id == variant_id {
        control_variant(board)
    } else {
        standard_variant(feature.standards@[at], board.shares@[at])
    }
}

/// What a fetch of the variant `variant_id` in the environment
/// `environment_id` returns.
pub open spec fn fetched(v: StoreView, environment_id: u16, variant_id: u16) -> Result<
    Variant,
    FlagrantError,
> {
    let at = first(v.features, holds(environment_id, variant_id));
    if at < v.features.len() {
        Ok(shown(v.features[at], environment_id, variant_id))
    } else {
        Err(FlagrantError::NotFound)
    }
}

/// What a result that holds a vector stands for.
pub open spec fn seq_of<T>(r: Result<Vec<T>, FlagrantError>) -> Result<Seq<T>, FlagrantError> {
    match r {
        Ok(v) => Ok(v@),
        Err(e) => Err(e),
    }
}

/// Whether `feature` shows a variant with the id `variant_id` in the
/// environment `environment_id`.
pub fn shows_variant(feature: &FeatureRecord, environment_id: u16, variant_id: u16) -> (r: bool)
    ensures
        r == holds(environment_id, variant_id)(*feature),
{
    let b = find_board(&feature.boards, environment_id);
    b < feature.boards.len() && (feature.boards[b].control.id == variant_id || find_standard(
        &feature.standards,
        variant_id,
    ) < feature.standards.len())
}

/// Where the first feature stands that shows a variant with the id
/// `variant_id` in the environment `environment_id`.
pub fn find_holder(store: &Store, environment_id: u16, variant_id: u16) -> (at: usize)
    ensures
        at == first(store@.features, holds(environment_id, variant_id)),
        at <= store@.features.len(),
{
    let ghost wanted = holds(environment_id, variant_id);
    let mut at: usize = 0;
    while at < store.features.len() && !shows_variant(
        &store.features[at],
        environment_id,
        variant_id,
    )
        invariant
            at <= store.features.len(),
            wanted == holds(environment_id, variant_id),
            first(store@.features, wanted) == position(store@.features, wanted, at as int),
        decreases store.features.len() - at,
    {
        at = at + 1;
    }
    at
}

/// Returns the variants of `feature` in `environment`: the control variant
/// first, with the weight that the others leave of 100, then the standard
/// variants in the order of their creation.
///
/// A feature without a value in the environment shows no variants there,
/// whatever it holds elsewhere: the listing is empty.
pub fn list(store: &Store, environment: &Environment, feature: &Feature) -> (r: Result<
    Vec<Variant>,
    FlagrantError,
>)
    requires
        store.wf(),
    ensures
        seq_of(r) == listed(store@, environment.id, feature.id),
{
    let at = store.find_feature(feature.id);
    if at >= store.features.len() {
        return Err(FlagrantError::NotFound);
    }
    let record = &store.features[at];
    let b = find_board(&record.boards, environment.id);
    if b >= record.boards.len() {
        return Ok(Vec::new());
    }
    proof {
        crate::board::share_sum_not_negative(
            record.boards@[b as int].shares@,
            record.boards@[b as int].shares@.len() as int,
        );
    }
    Ok(list_board(&record.standards, &record.boards[b]))
}

/// Returns the variant with the id `variant_id` as `environment` sees it,
/// with its weight and accumulator there.
pub fn fetch(store: &Store, environment: &Environment, variant_id: u16) -> (r: Result<
    Variant,
    FlagrantError,
>)
    requires
        store.wf(),
    ensures
        r == fetched(store@, environment.id, variant_id),
{
    let at = find_holder(store, environment.id, variant_id);
    if at >= store.features.len() {
        return Err(FlagrantError::NotFound);
    }
    let record = &store.features[at];
    let b = find_board(&record.boards, environment.id);
    proof {
        position_is_first(store@.features, holds(environment.id, variant_id), 0);
    }
    let board = &record.boards[b];
    proof {
        crate::board::share_sum_not_negative(board.shares@, board.shares@.len() as int);
    }
    if board.control.id == variant_id {
        Ok(control(board))
    } else {
        let s = find_standard(&record.standards, variant_id);
        Ok(
            Variant {
                id: record.standards[s].id,
                value: record.standards[s].value.clone(),
                weight: board.shares[s].weight,
                accumulator: board.shares[s].accumulator,
                environment_id: None,
            },
        )
    }
}

/// Why a standard variant of the weight `weight` cannot be created for the
/// feature `feature_id` in the environment `environment_id`, if it cannot.
pub open spec fn create_refusal(v: StoreView, environment_id: u16, feature_id: u16, weight: i16)
    -> Option<FlagrantError> {
    let at = first(v.features, feature_with(feature_id));
    if weight < 0 || weight > 100 {
        Some(FlagrantError::BadRequest(BadRequest::WeightOutOfRange))
    } else if at >= v.features.len() {
        Some(FlagrantError::NotFound)
    } else {
        let boards = v.features[at].boards@;
        let b = first(boards, board_of(environment_id));
        if b >= boards.len() {
            Some(FlagrantError::BadRequest(BadRequest::NoDefaultValue))
        } else if share_total(boards[b].shares@) + weight > 100 {
            Some(FlagrantError::BadRequest(BadRequest::WeightExceeded))
        } else if v.next_variant == u16::MAX {
            Some(FlagrantError::StoreUnavailable)
        } else {
            None
        }
    }
}

/// `after` is `before` with the standard variant `variant` added to the
/// feature `feature_id` in the environment `environment_id`: the feature
/// holds it last; it has its weight in that environment, where all
/// accumulators are set to rest, and no weight in the others, where nothing
/// else changes.
pub open spec fn created(
    before: StoreView,
    after: StoreView,
    environment_id: u16,
    feature_id: u16,
    variant: Variant,
) -> bool {
    let at = first(before.features, feature_with(feature_id));
    let f = before.features[at];
    let g = after.features[at];
    &&& after.projects == before.projects
    &&& after.environments == before.environments
    &&& after.next_project == before.next_project
    &&& after.next_environment == before.next_environment
    &&& after.next_feature == before.next_feature
    &&& after.next_variant == before.next_variant + 1
    &&& after.features.len() == before.features.len()
    &&& forall|i: int|
        0 <= i < before.features.len() && i != at ==> (#[trigger] after.features[i])
            == before.features[i]
    &&& g.id == f.id
    &&& g.project_id == f.project_id
    &&& g.name == f.name
    &&& g.is_enabled == f.is_enabled
    &&& g.standards@ == f.standards@.push(StandardRecord { id: variant.id, value: variant.value })
    &&& g.boards@.len() == f.boards@.len()
    &&& forall|k: int|
        0 <= k < f.boards@.len() ==> extended(
            f.boards@[k],
            #[trigger] g.boards@[k],
            variant.weight,
            f.boards@[k].environment_id == environment_id,
        )
}

/// Creates a standard variant of `feature` with the weight `weight` in
/// `environment`.
///
/// The feature must have a value in the environment, and the weight must
/// fit beside those of the other standard variants there: together they
/// may reach 100 and not pass it. The control variant keeps what is left.
/// The new variant gets the next id; a fetch by its id in the environment
/// returns it. A call that fails changes nothing.
pub fn create(
    store: &mut Store,
    environment: &Environment,
    feature: &Feature,
    value: FeatureValue,
    weight: i16,
) -> (r: Result<Variant, FlagrantError>)
    requires
        old(store).wf(),
    ensures
        final(store).wf(),
        match r {
            Ok(variant) => {
                &&& create_refusal(old(store)@, environment.id, feature.id, weight) is None
                &&& variant == (Variant {
                    id: old(store)@.next_variant,
                    value,
                    weight: weight as u8,
                    accumulator: weight as i32,
                    environment_id: None,
                })
                &&& created(old(store)@, final(store)@, environment.id, feature.id, variant)
                &&& fetched(final(store)@, environment.id, variant.id) == Ok::<
                    Variant,
                    FlagrantError,
                >(variant)
            },
            Err(e) => {
                &&& create_refusal(old(store)@, environment.id, feature.id, weight) == Some(e)
                &&& *final(store) == *old(store)
            },
        },
{
    if weight < 0 || weight > 100 {
        return Err(FlagrantError::BadRequest(BadRequest::WeightOutOfRange));
    }
    let requested = weight;
    let weight: u8 = requested as u8;
    let at = store.find_feature(feature.id);
    if at >= store.features.len() {
        return Err(FlagrantError::NotFound);
    }
    let b = find_board(&store.features[at].boards, environment.id);
    if b >= store.features[at].boards.len() {
        return Err(FlagrantError::BadRequest(BadRequest::NoDefaultValue));
    }
    let total = total_of(&store.features[at].boards[b].shares);
    if total + weight as u32 > 100 {
        return Err(FlagrantError::BadRequest(BadRequest::WeightExceeded));
    }
    if store.next_variant == u16::MAX {
        return Err(FlagrantError::StoreUnavailable);
    }
    let id = store.next_variant;
    let ghost before = store@;
    let ghost f = before.features[at as int];
    proof {
        position_is_first(f.boards@, board_of(environment.id), 0);
        assert forall|k: int|
            0 <= k < f.boards@.len() && (#[trigger] f.boards@[k]).environment_id
                == environment.id implies share_total(f.boards@[k].shares@) + weight <= 100 by {
            if k != b {
                assert(board_of(environment.id)(f.boards@[k]));
            }
        }
    }
    extend_boards(&mut store.features[at].boards, environment.id, weight);
    store.features[at].standards.push(StandardRecord { id, value: value.clone() });
    store.next_variant = id + 1;
    let variant = Variant { id, value, weight, accumulator: weight as i32, environment_id: None };
    proof {
        let after = store@;
        let g = after.features[at as int];
        let added = StandardRecord { id, value };
        assert(g.standards@ == f.standards@.push(added));
        assert(feature_ok(f, before.next_variant));
        assert forall|k: int| 0 <= k < g.boards@.len() implies board_ok(
            g.standards@,
            #[trigger] g.boards@[k],
            after.next_variant,
        ) by {
            extended_is_ok(
                f.standards@,
                added,
                f.boards@[k],
                g.boards@[k],
                weight,
                f.boards@[k].environment_id == environment.id,
                before.next_variant,
            );
        }
        assert forall|j: int| 0 <= j < g.standards@.len() implies (#[trigger] g.standards@[j]).id
            < after.next_variant by {
            if j < f.standards@.len() {
                assert(g.standards@[j] == f.standards@[j]);
            }
        }
        assert forall|i: int, j: int| 0 <= i < j < g.boards@.len() implies (
        #[trigger] g.boards@[i]).environment_id != (#[trigger] g.boards@[j]).environment_id by {
            assert(g.boards@[i].environment_id == f.boards@[i].environment_id);
            assert(g.boards@[j].environment_id == f.boards@[j].environment_id);
        }
        if owns(f, id) {
            owned_is_given(f, before.next_variant, id);
        }
        standard_added(f, g, id);
        assert(feature_ok(g, after.next_variant));
        feature_changed(before, after, at as int);
        created_is_fetched(before, after, environment.id, feature.id, variant);
    }
    Ok(variant)
}

/// A standard variant that was created is what a fetch by its id in the
/// environment of its creation returns.
pub proof fn created_is_fetched(
    before: StoreView,
    after: StoreView,
    environment_id: u16,
    feature_id: u16,
    variant: Variant,
)
    requires
        well_formed(before),
        create_refusal(before, environment_id, feature_id, variant.weight as i16) is None,
        variant.id == before.next_variant,
        variant.accumulator == variant.weight,
        variant.environment_id is None,
        created(before, after, environment_id, feature_id, variant),
    ensures
        fetched(after, environment_id, variant.id) == Ok::<Variant, FlagrantError>(variant),
{
    let at = first(before.features, feature_with(feature_id));
    let f = before.features[at];
    let g = after.features[at];
    let id = variant.id;
    let wanted = holds(environment_id, id);
    let n = f.standards@.len() as int;
    position_is_first(before.features, feature_with(feature_id), 0);
    position_is_first(f.boards@, board_of(environment_id), 0);
    let b = first(f.boards@, board_of(environment_id));
    assert forall|j: int| 0 <= j < f.boards@.len() implies board_of(environment_id)(
        #[trigger] g.boards@[j],
    ) == board_of(environment_id)(f.boards@[j]) by {
        assert(g.boards@[j].environment_id == f.boards@[j].environment_id);
    }
    position_agrees(g.boards@, f.boards@, board_of(environment_id), 0);
    assert(first(g.boards@, board_of(environment_id)) == b);
    assert forall|j: int| 0 <= j < n implies !standard_with(id)(#[trigger] g.standards@[j]) by {
        assert(g.standards@[j] == f.standards@[j]);
        assert(f.standards@[j].id < before.next_variant);
    }
    first_is(g.standards@, standard_with(id), n);
    assert(f.boards@[b].control.id < before.next_variant);
    assert(g.boards@[b].control.id != id);
    assert(wanted(g));
    assert forall|i: int| 0 <= i < at implies !wanted(#[trigger] after.features[i]) by {
        let h = before.features[i];
        assert(after.features[i] == h);
        assert(feature_ok(h, before.next_variant));
        let hb = first(h.boards@, board_of(environment_id));
        position_is_first(h.boards@, board_of(environment_id), 0);
        position_is_first(h.standards@, standard_with(id), 0);
        if hb < h.boards@.len() {
            assert(h.boards@[hb].control.id < before.next_variant);
            let hs = first(h.standards@, standard_with(id));
            if hs < h.standards@.len() {
                assert(h.standards@[hs].id < before.next_variant);
            }
        }
    }
    first_is(after.features, wanted, at);
    assert(g.boards@[b].shares@[n].accumulator == g.boards@[b].shares@[n].weight);
}

/// Why the variant `variant` cannot be given the weight `weight` in the
/// environment `environment_id`, if it cannot.
pub open spec fn update_refusal(v: StoreView, environment_id: u16, variant: Variant, weight: i16)
    -> Option<FlagrantError> {
    let at = first(v.features, holds(environment_id, variant.id));
    if variant.environment_id is Some {
        Some(FlagrantError::BadRequest(BadRequest::ControlVariantImmutable))
    } else if weight < 0 || weight > 100 {
        Some(FlagrantError::BadRequest(BadRequest::WeightOutOfRange))
    } else if at >= v.features.len() {
        Some(FlagrantError::NotFound)
    } else {
        let f = v.features[at];
        let board = f.boards@[first(f.boards@, board_of(environment_id))];
        let s = first(f.standards@, standard_with(variant.id));
        if board.control.id == variant.id {
            Some(FlagrantError::BadRequest(BadRequest::ControlVariantImmutable))
        } else if share_total(board.shares@) - board.shares@[s].weight + weight > 100 {
            Some(FlagrantError::BadRequest(BadRequest::WeightExceeded))
        } else {
            None
        }
    }
}

/// `after` is `before` with the standard variant `variant_id` given the
/// value `value` everywhere and the weight `weight` in the environment
/// `environment_id`, where all accumulators are set to rest. The other
/// environments keep their weights and accumulators.
pub open spec fn updated(
    before: StoreView,
    after: StoreView,
    environment_id: u16,
    variant_id: u16,
    value: FeatureValue,
    weight: u8,
) -> bool {
    let at = first(before.features, holds(environment_id, variant_id));
    let f = before.features[at];
    let g = after.features[at];
    let b = first(f.boards@, board_of(environment_id));
    let s = first(f.standards@, standard_with(variant_id));
    &&& after.projects == before.projects
    &&& after.environments == before.environments
    &&& after.next_project == before.next_project
    &&& after.next_environment == before.next_environment
    &&& after.next_feature == before.next_feature
    &&& after.next_variant == before.next_variant
    &&& after.features.len() == before.features.len()
    &&& forall|i: int|
        0 <= i < before.features.len() && i != at ==> (#[trigger] after.features[i])
            == before.features[i]
    &&& g.id == f.id
    &&& g.project_id == f.project_id
    &&& g.name == f.name
    &&& g.is_enabled == f.is_enabled
    &&& g.standards@ == f.standards@.update(s, StandardRecord { id: variant_id, value })
    &&& g.boards@.len() == f.boards@.len()
    &&& forall|k: int| 0 <= k < f.boards@.len() && k != b ==> (#[trigger] g.boards@[k]) == f.boards@[k]
    &&& g.boards@[b].environment_id == environment_id
    &&& g.boards@[b].control.id == f.boards@[b].control.id
    &&& g.boards@[b].control.value == f.boards@[b].control.value
    &&& g.boards@[b].shares@.len() == f.boards@[b].shares@.len()
    &&& forall|j: int|
        0 <= j < f.boards@[b].shares@.len() ==> (#[trigger] g.boards@[b].shares@[j]).weight == if j
            == s {
            weight
        } else {
            f.boards@[b].shares@[j].weight
        }
    &&& at_rest(g.boards@[b])
}

/// Gives the standard variant `variant` a new value, which all
/// environments share, and a new weight in `environment` alone.
///
/// A control variant is refused: its value changes through its feature,
/// and its weight is what the standard variants leave. The new weight must
/// fit beside the weights of the other standard variants in the
/// environment. Afterwards a fetch of the variant in the environment
/// returns it with the new value and weight. A call that fails changes
/// nothing.
pub fn update(
    store: &mut Store,
    environment: &Environment,
    variant: &Variant,
    new_value: FeatureValue,
    new_weight: i16,
) -> (r: Result<(), FlagrantError>)
    requires
        old(store).wf(),
    ensures
        final(store).wf(),
        match r {
            Ok(_) => {
                &&& update_refusal(old(store)@, environment.id, *variant, new_weight) is None
                &&& updated(
                    old(store)@,
                    final(store)@,
                    environment.id,
                    variant.id,
                    new_value,
                    new_weight as u8,
                )
                &&& fetched(final(store)@, environment.id, variant.id) == Ok::<
                    Variant,
                    FlagrantError,
                >(
                    Variant {
                        id: variant.id,
                        value: new_value,
                        weight: new_weight as u8,
                        accumulator: new_weight as i32,
                        environment_id: None,
                    },
                )
            },
            Err(e) => {
                &&& update_refusal(old(store)@, environment.id, *variant, new_weight) == Some(e)
                &&& *final(store) == *old(store)
            },
        },
{
    if variant.is_control() {
        return Err(FlagrantError::BadRequest(BadRequest::ControlVariantImmutable));
    }
    if new_weight < 0 || new_weight > 100 {
        return Err(FlagrantError::BadRequest(BadRequest::WeightOutOfRange));
    }
    let requested = new_weight;
    let new_weight: u8 = requested as u8;
    let id = variant.id;
    let at = find_holder(store, environment.id, id);
    if at >= store.features.len() {
        return Err(FlagrantError::NotFound);
    }
    let ghost before = store@;
    let ghost f = before.features[at as int];
    proof {
        position_is_first(before.features, holds(environment.id, id), 0);
        position_is_first(f.boards@, board_of(environment.id), 0);
        position_is_first(f.standards@, standard_with(id), 0);
    }
    let b = find_board(&store.features[at].boards, environment.id);
    if store.features[at].boards[b].control.id == id {
        return Err(FlagrantError::BadRequest(BadRequest::ControlVariantImmutable));
    }
    let s = find_standard(&store.features[at].standards, id);
    let total = total_of(&store.features[at].boards[b].shares);
    let old_weight = store.features[at].boards[b].shares[s].weight;
    proof {
        crate::board::share_within_sum(
            f.boards@[b as int].shares@,
            f.boards@[b as int].shares@.len() as int,
            s as int,
        );
    }
    if total - old_weight as u32 + new_weight as u32 > 100 {
        return Err(FlagrantError::BadRequest(BadRequest::WeightExceeded));
    }
    store.features[at].standards[s].value = new_value.clone();
    let board = &mut store.features[at].boards[b];
    board.shares[s].weight = new_weight;
    proof {
        share_sum_changed(
            f.boards@[b as int].shares@,
            board.shares@,
            s as int,
            board.shares@.len() as int,
        );
    }
    rebalance(board);
    proof {
        let after = store@;
        let g = after.features[at as int];
        assert(g.standards@ =~= f.standards@.update(s as int, StandardRecord { id, value: new_value }));
        assert forall|k: int| 0 <= k < g.boards@.len() implies board_ok(
            g.standards@,
            #[trigger] g.boards@[k],
            after.next_variant,
        ) by {
            if k == b {
                rest_is_order(g.standards@, g.boards@[k], after.next_variant);
            } else {
                assert(g.boards@[k] == f.boards@[k]);
                board_ok_same_ids(f.standards@, g.standards@, f.boards@[k], after.next_variant);
            }
        }
        assert forall|i: int, j: int| 0 <= i < j < g.boards@.len() implies (
        #[trigger] g.boards@[i]).environment_id != (#[trigger] g.boards@[j]).environment_id by {
            assert(g.boards@[i].environment_id == f.boards@[i].environment_id);
            assert(g.boards@[j].environment_id == f.boards@[j].environment_id);
        }
        assert forall|j: int| 0 <= j < g.standards@.len() implies (#[trigger] g.standards@[j]).id
            < after.next_variant by {
            assert(g.standards@[j].id == f.standards@[j].id);
        }
        assert(ids_kept(f, g)) by {
            assert forall|k: int| 0 <= k < f.boards@.len() implies (
            #[trigger] g.boards@[k]).control.id == f.boards@[k].control.id by {
                if k != b {
                    assert(g.boards@[k] == f.boards@[k]);
                }
            }
        }
        kept_ids(f, g);
        assert(feature_ok(g, after.next_variant));
        feature_changed(before, after, at as int);
        updated_is_fetched(before, after, environment.id, id, new_value, new_weight);
    }
    Ok(())
}

/// A standard variant that was updated is what a fetch by its id in the
/// environment of the update returns, with the new value and weight.
pub proof fn updated_is_fetched(
    before: StoreView,
    after: StoreView,
    environment_id: u16,
    variant_id: u16,
    value: FeatureValue,
    weight: u8,
)
    requires
        well_formed(before),
        first(before.features, holds(environment_id, variant_id)) < before.features.len(),
        ({
            let f = before.features[first(before.features, holds(environment_id, variant_id))];
            f.boards@[first(f.boards@, board_of(environment_id))].control.id != variant_id
        }),
        updated(before, after, environment_id, variant_id, value, weight),
    ensures
        fetched(after, environment_id, variant_id) == Ok::<Variant, FlagrantError>(
            Variant {
                id: variant_id,
                value,
                weight,
                accumulator: weight as i32,
                environment_id: None,
            },
        ),
{
    let wanted = holds(environment_id, variant_id);
    let at = first(before.features, wanted);
    let f = before.features[at];
    let g = after.features[at];
    position_is_first(before.features, wanted, 0);
    position_is_first(f.boards@, board_of(environment_id), 0);
    position_is_first(f.standards@, standard_with(variant_id), 0);
    let b = first(f.boards@, board_of(environment_id));
    let s = first(f.standards@, standard_with(variant_id));
    assert forall|j: int| 0 <= j < f.boards@.len() implies board_of(environment_id)(
        #[trigger] g.boards@[j],
    ) == board_of(environment_id)(f.boards@[j]) by {
        if j != b {
            assert(g.boards@[j] == f.boards@[j]);
        }
    }
    position_agrees(g.boards@, f.boards@, board_of(environment_id), 0);
    assert forall|j: int| 0 <= j < f.standards@.len() implies standard_with(variant_id)(
        #[trigger] g.standards@[j],
    ) == standard_with(variant_id)(f.standards@[j]) by {}
    position_agrees(g.standards@, f.standards@, standard_with(variant_id), 0);
    assert(wanted(g));
    assert forall|i: int| 0 <= i < at implies !wanted(#[trigger] after.features[i]) by {
        assert(after.features[i] == before.features[i]);
    }
    first_is(after.features, wanted, at);
    assert(feature_ok(f, before.next_variant));
    assert(board_ok(f.standards@, f.boards@[b], before.next_variant));
    assert(g.boards@[b].shares@[s].accumulator == g.boards@[b].shares@[s].weight);
}

/// Why the variant `variant_id` cannot be deleted in the environment
/// `environment_id`, if it cannot: it is not to be seen there, or it is the
/// control variant there while the feature has standard variants.
pub open spec fn delete_refusal(v: StoreView, environment_id: u16, variant_id: u16) -> Option<
    FlagrantError,
> {
    let at = first(v.features, holds(environment_id, variant_id));
    if at >= v.features.len() {
        Some(FlagrantError::NotFound)
    } else {
        let f = v.features[at];
        let board = f.boards@[first(f.boards@, board_of(environment_id))];
        if board.control.id == variant_id && f.standards@.len() > 0 {
            Some(FlagrantError::BadRequest(BadRequest::ControlHasDependents))
        } else {
            None
        }
    }
}

/// `after` is `before` without the variant `variant_id`. Where that was
/// the control variant of the environment, the feature has no value there
/// any more. Where it was a standard variant, it is gone from every
/// environment, and in every environment the accumulators are set to rest.
pub open spec fn deleted(before: StoreView, after: StoreView, environment_id: u16, variant_id: u16)
    -> bool {
    let at = first(before.features, holds(environment_id, variant_id));
    let f = before.features[at];
    let g = after.features[at];
    let b = first(f.boards@, board_of(environment_id));
    let s = first(f.standards@, standard_with(variant_id));
    &&& after.projects == before.projects
    &&& after.environments == before.environments
    &&& after.next_project == before.next_project
    &&& after.next_environment == before.next_environment
    &&& after.next_feature == before.next_feature
    &&& after.next_variant == before.next_variant
    &&& after.features.len() == before.features.len()
    &&& forall|i: int|
        0 <= i < before.features.len() && i != at ==> (#[trigger] after.features[i])
            == before.features[i]
    &&& g.id == f.id
    &&& g.project_id == f.project_id
    &&& g.name == f.name
    &&& g.is_enabled == f.is_enabled
    &&& if f.boards@[b].control.id == variant_id {
        &&& g.standards@ == f.standards@
        &&& g.boards@ == f.boards@.remove(b)
    } else {
        &&& g.standards@ == f.standards@.remove(s)
        &&& g.boards@.len() == f.boards@.len()
        &&& forall|k: int|
            0 <= k < f.boards@.len() ==> shrunk(f.boards@[k], #[trigger] g.boards@[k], s)
    }
}

/// A feature that shows a variant holds it.
pub proof fn shown_is_owned(feature: FeatureRecord, environment_id: u16, variant_id: u16)
    requires
        holds(environment_id, variant_id)(feature),
    ensures
        owns(feature, variant_id),
{
    position_is_first(feature.boards@, board_of(environment_id), 0);
    position_is_first(feature.standards@, standard_with(variant_id), 0);
    let b = first(feature.boards@, board_of(environment_id));
    let s = first(feature.standards@, standard_with(variant_id));
    if feature.boards@[b].control.id == variant_id {
    } else {
        assert(feature.standards@[s].id == variant_id);
    }
}

/// Where no feature holds a variant of the id `variant_id`, a fetch of it
/// finds nothing, in whatever environment.
pub proof fn unowned_is_not_found(v: StoreView, environment_id: u16, variant_id: u16)
    requires
        forall|i: int| 0 <= i < v.features.len() ==> !owns(#[trigger] v.features[i], variant_id),
    ensures
        fetched(v, environment_id, variant_id) == Err::<Variant, FlagrantError>(
            FlagrantError::NotFound,
        ),
{
    let wanted = holds(environment_id, variant_id);
    assert forall|i: int| 0 <= i < v.features.len() implies !wanted(#[trigger] v.features[i]) by {
        if wanted(v.features[i]) {
            shown_is_owned(v.features[i], environment_id, variant_id);
        }
    }
    first_is(v.features, wanted, v.features.len() as int);
}

/// Deletes the variant `variant` as `environment` sees it.
///
/// A control variant goes only when its feature has no standard variant;
/// the feature then has no value in the environment. A standard variant
/// goes from all environments, and the control variants take over its
/// weight. Afterwards a fetch of the variant finds nothing. A call that
/// fails changes nothing.
pub fn delete(store: &mut Store, environment: &Environment, variant: &Variant) -> (r: Result<
    (),
    FlagrantError,
>)
    requires
        old(store).wf(),
    ensures
        final(store).wf(),
        match r {
            Ok(_) => {
                &&& delete_refusal(old(store)@, environment.id, variant.id) is None
                &&& deleted(old(store)@, final(store)@, environment.id, variant.id)
                &&& fetched(final(store)@, environment.id, variant.id) == Err::<
                    Variant,
                    FlagrantError,
                >(FlagrantError::NotFound)
            },
            Err(e) => {
                &&& delete_refusal(old(store)@, environment.id, variant.id) == Some(e)
                &&& *final(store) == *old(store)
            },
        },
{
    let id = variant.id;
    let at = find_holder(store, environment.id, id);
    if at >= store.features.len() {
        return Err(FlagrantError::NotFound);
    }
    let ghost before = store@;
    let ghost f = before.features[at as int];
    proof {
        position_is_first(before.features, holds(environment.id, id), 0);
        position_is_first(f.boards@, board_of(environment.id), 0);
        position_is_first(f.standards@, standard_with(id), 0);
        assert(feature_ok(f, before.next_variant));
    }
    let b = find_board(&store.features[at].boards, environment.id);
    if store.features[at].boards[b].control.id == id {
        if store.features[at].standards.len() > 0 {
            return Err(FlagrantError::BadRequest(BadRequest::ControlHasDependents));
        }
        store.features[at].boards.remove(b);
        proof {
            let after = store@;
            let g = after.features[at as int];
            assert(g.boards@ == f.boards@.remove(b as int));
            assert forall|k: int| 0 <= k < g.boards@.len() implies board_ok(
                g.standards@,
                #[trigger] g.boards@[k],
                after.next_variant,
            ) by {
                if k < b {
                    assert(g.boards@[k] == f.boards@[k]);
                } else {
                    assert(g.boards@[k] == f.boards@[k + 1]);
                }
            }
            assert forall|i: int, j: int| 0 <= i < j < g.boards@.len() implies (
            #[trigger] g.boards@[i]).environment_id != (
            #[trigger] g.boards@[j]).environment_id by {
                let i0 = if i < b { i } else { i + 1 };
                let j0 = if j < b { j } else { j + 1 };
                assert(g.boards@[i] == f.boards@[i0]);
                assert(g.boards@[j] == f.boards@[j0]);
            }
            board_removed(f, g, b as int);
            assert(feature_ok(g, after.next_variant));
            feature_changed(before, after, at as int);
            shown_is_owned(f, environment.id, id);
            assert forall|i: int| 0 <= i < after.features.len() implies !owns(
                #[trigger] after.features[i],
                id,
            ) by {
                if i != at {
                    assert(after.features[i] == before.features[i]);
                    assert(!owns(before.features[i], id));
                }
            }
            unowned_is_not_found(after, environment.id, id);
        }
    } else {
        let s = find_standard(&store.features[at].standards, id);
        proof {
            assert forall|k: int| 0 <= k < f.boards@.len() implies s < (
            #[trigger] f.boards@[k]).shares@.len() <= u16::MAX && share_total(f.boards@[k].shares@)
                <= 100 by {
                assert(board_ok(f.standards@, f.boards@[k], before.next_variant));
            }
        }
        store.features[at].standards.remove(s);
        shrink_boards(&mut store.features[at].boards, s);
        proof {
            let after = store@;
            let g = after.features[at as int];
            assert(g.standards@ == f.standards@.remove(s as int));
            assert forall|k: int| 0 <= k < g.boards@.len() implies board_ok(
                g.standards@,
                #[trigger] g.boards@[k],
                after.next_variant,
            ) by {
                shrunk_is_ok(f.standards@, f.boards@[k], g.boards@[k], s as int, after.next_variant);
            }
            assert forall|i: int, j: int| 0 <= i < j < g.boards@.len() implies (
            #[trigger] g.boards@[i]).environment_id != (
            #[trigger] g.boards@[j]).environment_id by {
                assert(g.boards@[i].environment_id == f.boards@[i].environment_id);
                assert(g.boards@[j].environment_id == f.boards@[j].environment_id);
            }
            assert forall|j: int| 0 <= j < g.standards@.len() implies (
            #[trigger] g.standards@[j]).id < after.next_variant by {
                let j0 = if j < s { j } else { j + 1 };
                assert(g.standards@[j] == f.standards@[j0]);
            }
            standard_removed(f, g, s as int);
            assert(feature_ok(g, after.next_variant));
            feature_changed(before, after, at as int);
            shown_is_owned(f, environment.id, id);
            assert forall|i: int| 0 <= i < after.features.len() implies !owns(
                #[trigger] after.features[i],
                id,
            ) by {
                if i != at {
                    assert(after.features[i] == before.features[i]);
                    assert(!owns(before.features[i], id));
                }
            }
            unowned_is_not_found(after, environment.id, id);
        }
    }
    Ok(())
}

/// Why the feature `feature_id` cannot be given a value in the
/// environment `environment_id`, if it cannot.
pub open spec fn upsert_refusal(v: StoreView, environment_id: u16, feature_id: u16) -> Option<
    FlagrantError,
> {
    let at = first(v.features, feature_with(feature_id));
    let e = first(v.environments, environment_with(environment_id));
    if at >= v.features.len() || e >= v.environments.len() || v.environments[e].project_id
        != v.features[at].project_id {
        Some(FlagrantError::NotFound)
    } else if first(v.features[at].boards@, board_of(environment_id))
        >= v.features[at].boards@.len() && v.next_variant == u16::MAX {
        Some(FlagrantError::StoreUnavailable)
    } else {
        None
    }
}

/// `after` is `before` with `value` as its value in the environment
/// `environment_id`. Where the feature had a value there, its control
/// variant has the new value and nothing else changes. Where it had none,
/// it has a new board there, the last of its boards: the control variant
/// gets the id `next_variant` and the whole weight, and the standard
/// variants have no weight.
pub open spec fn control_set(
    before: FeatureRecord,
    after: FeatureRecord,
    environment_id: u16,
    value: FeatureValue,
    next_variant: u16,
) -> bool {
    let f = before;
    let g = after;
    let b = first(f.boards@, board_of(environment_id));
    &&& g.standards@ == f.standards@
    &&& if b < f.boards@.len() {
        &&& g.boards@.len() == f.boards@.len()
        &&& forall|k: int|
            0 <= k < f.boards@.len() && k != b ==> (#[trigger] g.boards@[k]) == f.boards@[k]
        &&& g.boards@[b].environment_id == environment_id
        &&& g.boards@[b].shares@ == f.boards@[b].shares@
        &&& g.boards@[b].control == (ControlRecord { value, ..f.boards@[b].control })
    } else {
        &&& g.boards@.len() == f.boards@.len() + 1
        &&& g.boards@.drop_last() == f.boards@
        &&& g.boards@.last().environment_id == environment_id
        &&& g.boards@.last().control == (ControlRecord { id: next_variant, value, accumulator: 100 })
        &&& g.boards@.last().shares@.len() == f.standards@.len()
        &&& forall|j: int|
            0 <= j < f.standards@.len() ==> (#[trigger] g.boards@.last().shares@[j]) == (Share {
                weight: 0,
                accumulator: 0,
            })
    }
}

/// `after` is `before` with `value` as the value of the feature at
/// position `at` in the environment `environment_id`, and with one more
/// variant id given out where the feature had no value there.
pub open spec fn upserted(
    before: StoreView,
    after: StoreView,
    at: int,
    environment_id: u16,
    value: FeatureValue,
) -> bool {
    let f = before.features[at];
    let g = after.features[at];
    &&& after.projects == before.projects
    &&& after.environments == before.environments
    &&& after.next_project == before.next_project
    &&& after.next_environment == before.next_environment
    &&& after.next_feature == before.next_feature
    &&& after.next_variant == before.next_variant + if has_value_in(f, environment_id) {
        0int
    } else {
        1int
    }
    &&& after.features.len() == before.features.len()
    &&& forall|i: int|
        0 <= i < before.features.len() && i != at ==> (#[trigger] after.features[i])
            == before.features[i]
    &&& g.id == f.id
    &&& g.project_id == f.project_id
    &&& g.name == f.name
    &&& g.is_enabled == f.is_enabled
    &&& control_set(f, g, environment_id, value, before.next_variant)
}

/// Gives the feature at position `at` the value `value` in the environment
/// `environment_id`, and returns its control variant there.
pub(crate) fn set_control(store: &mut Store, at: usize, environment_id: u16, value: FeatureValue) -> (variant:
    Variant)
    requires
        old(store).wf(),
        at < old(store)@.features.len(),
        has_value_in(old(store)@.features[at as int], environment_id) || old(store)@.next_variant
            < u16::MAX,
    ensures
        final(store).wf(),
        upserted(old(store)@, final(store)@, at as int, environment_id, value),
        has_value_in(final(store)@.features[at as int], environment_id),
        variant == control_variant(board_in(final(store)@.features[at as int], environment_id)),
        variant.value == value,
        variant.environment_id == Some(environment_id),
{
    let ghost before = store@;
    let ghost f = before.features[at as int];
    proof {
        position_is_first(f.boards@, board_of(environment_id), 0);
        assert(feature_ok(f, before.next_variant));
    }
    let b = find_board(&store.features[at].boards, environment_id);
    if b < store.features[at].boards.len() {
        store.features[at].boards[b].control.value = value.clone();
        proof {
            let after = store@;
            let g = after.features[at as int];
            assert forall|k: int| 0 <= k < g.boards@.len() implies board_ok(
                g.standards@,
                #[trigger] g.boards@[k],
                after.next_variant,
            ) by {
                assert(board_ok(f.standards@, f.boards@[k], before.next_variant));
                if k == b {
                    assert(board_slots(g.standards@, g.boards@[k]) =~= board_slots(
                        f.standards@,
                        f.boards@[k],
                    ));
                } else {
                    assert(g.boards@[k] == f.boards@[k]);
                }
            }
            assert forall|i: int, j: int| 0 <= i < j < g.boards@.len() implies (
            #[trigger] g.boards@[i]).environment_id != (
            #[trigger] g.boards@[j]).environment_id by {
                assert(g.boards@[i].environment_id == f.boards@[i].environment_id);
                assert(g.boards@[j].environment_id == f.boards@[j].environment_id);
            }
            assert(ids_kept(f, g)) by {
                assert forall|k: int| 0 <= k < f.boards@.len() implies (
                #[trigger] g.boards@[k]).control.id == f.boards@[k].control.id by {
                    if k != b {
                        assert(g.boards@[k] == f.boards@[k]);
                    }
                }
            }
            kept_ids(f, g);
            assert(feature_ok(g, after.next_variant));
            feature_changed(before, after, at as int);
            assert forall|j: int| 0 <= j < f.boards@.len() implies board_of(environment_id)(
                #[trigger] g.boards@[j],
            ) == board_of(environment_id)(f.boards@[j]) by {
                if j != b {
                    assert(g.boards@[j] == f.boards@[j]);
                }
            }
            position_agrees(g.boards@, f.boards@, board_of(environment_id), 0);
            crate::board::share_sum_not_negative(
                g.boards@[b as int].shares@,
                g.boards@[b as int].shares@.len() as int,
            );
        }
        control(&store.features[at].boards[b])
    } else {
        let id = store.next_variant;
        let shares = idle_shares(store.features[at].standards.len());
        let board = Board {
            environment_id,
            control: ControlRecord { id, value: value.clone(), accumulator: 100 },
            shares,
        };
        store.features[at].boards.push(board);
        store.next_variant = id + 1;
        proof {
            let after = store@;
            let g = after.features[at as int];
            let n = f.boards@.len() as int;
            assert(g.boards@.drop_last() =~= f.boards@);
            assert forall|k: int| 0 <= k < g.boards@.len() implies board_ok(
                g.standards@,
                #[trigger] g.boards@[k],
                after.next_variant,
            ) by {
                if k < n {
                    assert(g.boards@[k] == f.boards@[k]);
                    board_ok_later(
                        f.standards@,
                        f.boards@[k],
                        before.next_variant,
                        after.next_variant,
                    );
                } else {
                    rest_is_order(g.standards@, g.boards@[k], after.next_variant);
                }
            }
            assert forall|i: int, j: int| 0 <= i < j < g.boards@.len() implies (
            #[trigger] g.boards@[i]).environment_id != (
            #[trigger] g.boards@[j]).environment_id by {
                assert(g.boards@[i] == f.boards@[i]);
                if j < n {
                    assert(g.boards@[j] == f.boards@[j]);
                } else {
                    assert(!board_of(environment_id)(f.boards@[i]));
                }
            }
            if owns(f, id) {
                owned_is_given(f, before.next_variant, id);
            }
            assert forall|k: int| 0 <= k < n implies (#[trigger] g.boards@[k]).control.id
                == f.boards@[k].control.id by {
                assert(g.boards@[k] == f.boards@[k]);
            }
            board_added(f, g, id);
            assert(feature_ok(g, after.next_variant));
            feature_changed(before, after, at as int);
            assert forall|j: int| 0 <= j < n implies !board_of(environment_id)(
                #[trigger] g.boards@[j],
            ) by {
                assert(g.boards@[j] == f.boards@[j]);
            }
            first_is(g.boards@, board_of(environment_id), n);
        }
        control(&store.features[at].boards[b])
    }
}

/// Gives `feature` the value `value` in `environment`: creates the control
/// variant of the feature there, or gives it a new value where it exists.
///
/// A new control variant gets the next id and the weight that the standard
/// variants leave of 100, which is all of it, as they have no weight in an
/// environment. Returns the control variant as a fetch in the environment
/// returns it. A call that fails changes nothing.
pub fn upsert_default(
    store: &mut Store,
    environment: &Environment,
    feature: &Feature,
    value: FeatureValue,
) -> (r: Result<Variant, FlagrantError>)
    requires
        old(store).wf(),
    ensures
        final(store).wf(),
        match r {
            Ok(variant) => {
                let at = first(old(store)@.features, feature_with(feature.id));
                let g = final(store)@.features[at];
                &&& upsert_refusal(old(store)@, environment.id, feature.id) is None
                &&& upserted(old(store)@, final(store)@, at, environment.id, value)
                &&& has_value_in(g, environment.id)
                &&& variant == control_variant(board_in(g, environment.id))
                &&& variant.value == value
                &&& variant.environment_id == Some(environment.id)
            },
            Err(e) => {
                &&& upsert_refusal(old(store)@, environment.id, feature.id) == Some(e)
                &&& *final(store) == *old(store)
            },
        },
{
    let at = store.find_feature(feature.id);
    let e = store.find_environment(environment.id);
    if at >= store.features.len() || e >= store.environments.len()
        || store.environments[e].project_id != store.features[at].project_id {
        return Err(FlagrantError::NotFound);
    }
    if find_board(&store.features[at].boards, environment.id) >= store.features[at].boards.len()
        && store.next_variant == u16::MAX {
        return Err(FlagrantError::StoreUnavailable);
    }
    Ok(set_control(store, at, environment.id, value))
}

} // verus!
