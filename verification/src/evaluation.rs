//! Evaluating a feature: which value a caller gets, and what the call
//! leaves behind in the accumulators.

use vstd::prelude::*;
use crate::board::{
    control, control_variant, share_sum_agrees, share_sum_not_negative, standard_variant, total_of,
};
use crate::distributor::{
    balanced_bounds, choice, distribute as pick, slots, step, step_keeps_balance,
    step_keeps_steady, Candidate,
};
use crate::errors::FlagrantError;
use crate::model::{Environment, Feature, Variant};
use crate::store::{
    board_of, board_ok, board_slots, environment_with, feature_changed, feature_named, feature_ok,
    feature_with, find_board, first, ids_kept, kept_ids, position_is_first, share_total, Board,
    FeatureRecord, StandardRecord, Store, StoreView,
};
use crate::values::FeatureValue;
use crate::variant::{board_in, has_value_in};

verus! {

/// Chooses among the variants of one feature.
pub struct Distributor {
    pub feature: Feature,
}

/// The variant that an evaluation of `feature` chooses on `board`: the one
/// with the largest accumulator, and among several the one with the
/// smallest id.
pub open spec fn chosen_variant(feature: FeatureRecord, board: Board) -> Variant {
    let c = choice(board_slots(feature.standards@, board));
    if c < feature.standards@.len() {
        standard_variant(feature.standards@[c], board.shares@[c])
    } else {
        control_variant(board)
    }
}

/// What an evaluation of the feature `feature_id` in the environment
/// `environment_id` returns: the chosen variant of a feature that is
/// switched on, the control variant of one that is switched off, and no
/// value where the feature has none in the environment.
pub open spec fn evaluated(v: StoreView, environment_id: u16, feature_id: u16) -> Result<
    Variant,
    FlagrantError,
> {
    let at = first(v.features, feature_with(feature_id));
    if at >= v.features.len() {
        Err(FlagrantError::NotFound)
    } else if !has_value_in(v.features[at], environment_id) {
        Err(FlagrantError::NoValue)
    } else if v.features[at].is_enabled {
        Ok(chosen_variant(v.features[at], board_in(v.features[at], environment_id)))
    } else {
        Ok(control_variant(board_in(v.features[at], environment_id)))
    }
}

/// `after` is `before` once an evaluation of the feature at position `at`
/// in the environment `environment_id` has been booked: the chosen
/// accumulator has lost 100 and every accumulator of the board has gained
/// the weight of its variant. Nothing else has changed.
pub open spec fn booked(before: StoreView, after: StoreView, at: int, environment_id: u16) -> bool {
    let f = before.features[at];
    let g = after.features[at];
    let b = first(f.boards@, board_of(environment_id));
    &&& after.projects == before.projects
    &&& after.environments == before.environments
    &&& after.next_project == before.next_project
    &&& after.next_environment == before.next_environment
    &&& after.next_feature == before.next_feature
    &&& after.next_variant == before.next_variant
    &&& after.features.len() == before.features.len()
    &&& forall|i: int|
        0 <= i < before.features.len() && i != at ==> (#[trigger] after.features[i])
            == before.features[i]
    &&& g.id == f.id
    &&& g.project_id == f.project_id
    &&& g.name == f.name
    &&& g.is_enabled == f.is_enabled
    &&& g.standards@ == f.standards@
    &&& g.boards@.len() == f.boards@.len()
    &&& forall|k: int| 0 <= k < f.boards@.len() && k != b ==> (#[trigger] g.boards@[k]) == f.boards@[k]
    &&& g.boards@[b].environment_id == environment_id
    &&& g.boards@[b].control.id == f.boards@[b].control.id
    &&& g.boards@[b].control.value == f.boards@[b].control.value
    &&& g.boards@[b].shares@.len() == f.boards@[b].shares@.len()
    &&& forall|j: int|
        0 <= j < f.boards@[b].shares@.len() ==> (#[trigger] g.boards@[b].shares@[j]).weight
            == f.boards@[b].shares@[j].weight
    &&& board_slots(g.standards@, g.boards@[b]) == step(board_slots(f.standards@, f.boards@[b]))
}

/// What an evaluation sees of `board`: a candidate for each standard
/// variant in turn, then one for the control variant.
pub fn candidates_of(standards: &Vec<StandardRecord>, board: &Board) -> (candidates: Vec<Candidate>)
    requires
        board.shares@.len() == standards@.len(),
        standards.len() <= u16::MAX,
        0 <= share_total(board.shares@) <= 100,
    ensures
        slots(candidates@) == board_slots(standards@, *board),
{
    let total = total_of(&board.shares);
    let mut candidates: Vec<Candidate> = Vec::new();
    let mut at: usize = 0;
    while at < standards.len()
        invariant
            at <= standards.len(),
            board.shares@.len() == standards@.len(),
            candidates@.len() == at,
            forall|j: int|
                0 <= j < at ==> (#[trigger] candidates@[j])@ == board_slots(standards@, *board)[j],
        decreases standards.len() - at,
    {
        candidates.push(
            Candidate {
                id: standards[at].id,
                weight: board.shares[at].weight,
                accumulator: board.shares[at].accumulator,
            },
        );
        at = at + 1;
    }
    candidates.push(
        Candidate {
            id: board.control.id,
            weight: (100 - total) as u8,
            accumulator: board.control.accumulator,
        },
    );
    assert(slots(candidates@) =~= board_slots(standards@, *board));
    candidates
}

/// Writes the accumulators of `candidates` back to `board`.
pub fn keep_accumulators(board: &mut Board, candidates: &Vec<Candidate>)
    requires
        candidates@.len() == old(board).shares@.len() + 1,
    ensures
        final(board).environment_id == old(board).environment_id,
        final(board).control.id == old(board).control.id,
        final(board).control.value == old(board).control.value,
        final(board).control.accumulator == candidates@[old(board).shares@.len() as int].accumulator,
        final(board).shares@.len() == old(board).shares@.len(),
        forall|j: int|
            0 <= j < old(board).shares@.len() ==> (#[trigger] final(board).shares@[j]).weight == old(
                board,
            ).shares@[j].weight && final(board).shares@[j].accumulator
                == candidates@[j].accumulator,
{
    let n = board.shares.len();
    let mut at: usize = 0;
    while at < n
        invariant
            at <= n,
            n == board.shares@.len(),
            n == old(board).shares@.len(),
            candidates@.len() == n + 1,
            board.environment_id == old(board).environment_id,
            board.control == old(board).control,
            forall|j: int|
                0 <= j < n ==> (#[trigger] board.shares@[j]).weight == old(board).shares@[j].weight,
            forall|j: int|
                0 <= j < at ==> (#[trigger] board.shares@[j]).accumulator
                    == candidates@[j].accumulator,
        decreases n - at,
    {
        board.shares[at].accumulator = candidates[at].accumulator;
        at = at + 1;
    }
    board.control.accumulator = candidates[n].accumulator;
}

impl Distributor {
    /// A distributor for `feature`.
    pub fn new(feature: Feature) -> (distributor: Self)
        ensures
            distributor.feature == feature,
    {
        Self { feature }
    }

    /// Evaluates the feature in `environment` and returns the variant
    /// whose value the caller gets.
    ///
    /// A feature that is switched off yields its control variant, and
    /// nothing is booked. A feature that is switched on yields the variant
    /// with the largest accumulator, and among several the one with the
    /// smallest id, as it stood before the call; the choice is booked on
    /// the accumulators of the environment. A call that fails changes
    /// nothing.
    pub fn distribute(&self, store: &mut Store, environment: &Environment) -> (r: Result<
        Variant,
        FlagrantError,
    >)
        requires
            old(store).wf(),
        ensures
            final(store).wf(),
            r == evaluated(old(store)@, environment.id, self.feature.id),
            match r {
                Ok(_) => {
                    let at = first(old(store)@.features, feature_with(self.feature.id));
                    if old(store)@.features[at].is_enabled {
                        booked(old(store)@, final(store)@, at, environment.id)
                    } else {
                        *final(store) == *old(store)
                    }
                },
                Err(_) => *final(store) == *old(store),
            },
    {
        let at = store.find_feature(self.feature.id);
        if at >= store.features.len() {
            return Err(FlagrantError::NotFound);
        }
        let b = find_board(&store.features[at].boards, environment.id);
        if b >= store.features[at].boards.len() {
            return Err(FlagrantError::NoValue);
        }
        let ghost before = store@;
        let ghost f = before.features[at as int];
        let ghost old_board = f.boards@[b as int];
        proof {
            position_is_first(f.boards@, board_of(environment.id), 0);
            assert(feature_ok(f, before.next_variant));
            assert(board_ok(f.standards@, old_board, before.next_variant));
            share_sum_not_negative(old_board.shares@, old_board.shares@.len() as int);
        }
        if !store.features[at].is_enabled {
            return Ok(control(&store.features[at].boards[b]));
        }
        let mut candidates = candidates_of(&store.features[at].standards, &store.features[at].boards[b]);
        proof {
            let s = board_slots(f.standards@, old_board);
            assert forall|i: int| 0 <= i < s.len() implies i32::MIN + 100 <= (
            #[trigger] s[i]).accumulator && s[i].accumulator + s[i].weight <= i32::MAX by {
                balanced_bounds(s, i);
            }
        }
        let chosen = pick(&mut candidates);
        let n = store.features[at].standards.len();
        proof {
            let s = board_slots(f.standards@, old_board);
            assert(slots(candidates@).len() == candidates@.len());
            assert(step(s).len() == s.len());
        }
        let variant = if chosen < n {
            Variant {
                id: store.features[at].standards[chosen].id,
                value: store.features[at].standards[chosen].value.clone(),
                weight: store.features[at].boards[b].shares[chosen].weight,
                accumulator: store.features[at].boards[b].shares[chosen].accumulator,
                environment_id: None,
            }
        } else {
            control(&store.features[at].boards[b])
        };
        keep_accumulators(&mut store.features[at].boards[b], &candidates);
        proof {
            let after = store@;
            let g = after.features[at as int];
            let new_board = g.boards@[b as int];
            let s = board_slots(f.standards@, old_board);
            share_sum_agrees(new_board.shares@, old_board.shares@, n as int);
            step_keeps_balance(s);
            step_keeps_steady(s);
            assert(board_slots(g.standards@, new_board) =~= step(s)) by {
                assert forall|i: int| 0 <= i < s.len() implies board_slots(
                    g.standards@,
                    new_board,
                )[i] == step(s)[i] by {
                    assert(slots(candidates@)[i] == step(s)[i]);
                    assert(candidates@[i]@ == slots(candidates@)[i]);
                }
            }
            assert forall|k: int| 0 <= k < g.boards@.len() implies board_ok(
                g.standards@,
                #[trigger] g.boards@[k],
                after.next_variant,
            ) by {
                if k != b {
                    assert(g.boards@[k] == f.boards@[k]);
                    assert(board_ok(f.standards@, f.boards@[k], before.next_variant));
                }
            }
            assert forall|i: int, j: int| 0 <= i < j < g.boards@.len() implies (
            #[trigger] g.boards@[i]).environment_id != (
            #[trigger] g.boards@[j]).environment_id by {
                assert(g.boards@[i].environment_id == f.boards@[i].environment_id);
                assert(g.boards@[j].environment_id == f.boards@[j].environment_id);
            }
            assert(ids_kept(f, g)) by {
                assert forall|k: int| 0 <= k < f.boards@.len() implies (
                #[trigger] g.boards@[k]).control.id == f.boards@[k].control.id by {
                    if k != b {
                        assert(g.boards@[k] == f.boards@[k]);
                    }
                }
            }
            kept_ids(f, g);
            assert(feature_ok(g, after.next_variant));
            feature_changed(before, after, at as int);
        }
        Ok(variant)
    }
}

/// What a caller gets who asks for the feature called `name` in the
/// environment `environment_id`.
pub open spec fn served(v: StoreView, environment_id: u16, name: Seq<char>) -> Result<
    FeatureValue,
    FlagrantError,
> {
    let e = first(v.environments, environment_with(environment_id));
    if e >= v.environments.len() {
        Err(FlagrantError::NotFound)
    } else {
        let at = first(v.features, feature_named(v.environments[e].project_id, name));
        if at >= v.features.len() {
            Err(FlagrantError::NotFound)
        } else {
            match evaluated(v, environment_id, v.features[at].id) {
                Ok(variant) => Ok(variant.value),
                Err(error) => Err(error),
            }
        }
    }
}

/// Returns the value of the feature called `feature_name` in the
/// environment `environment_id`, for the caller `ident`.
///
/// The identity takes no part in the choice: all callers share the
/// accumulators of the environment. The evaluation is booked as
/// `Distributor::distribute` books it. A call that fails changes nothing.
pub fn get_feature(store: &mut Store, environment_id: u16, ident: &str, feature_name: String) -> (r:
    Result<FeatureValue, FlagrantError>)
    requires
        old(store).wf(),
    ensures
        final(store).wf(),
        r == served(old(store)@, environment_id, feature_name@),
        match r {
            Ok(_) => {
                let e = first(old(store)@.environments, environment_with(environment_id));
                let at = first(
                    old(store)@.features,
                    feature_named(old(store)@.environments[e].project_id, feature_name@),
                );
                if old(store)@.features[at].is_enabled {
                    booked(old(store)@, final(store)@, at, environment_id)
                } else {
                    *final(store) == *old(store)
                }
            },
            Err(_) => *final(store) == *old(store),
        },
{
    let e = store.find_environment(environment_id);
    if e >= store.environments.len() {
        return Err(FlagrantError::NotFound);
    }
    let project_id = store.environments[e].project_id;
    let at = store.find_feature_named(project_id, &feature_name);
    if at >= store.features.len() {
        return Err(FlagrantError::NotFound);
    }
    let environment = store.environments[e].clone();
    let feature = crate::feature::snapshot(store, at, environment_id);
    proof {
        position_is_first(store@.environments, environment_with(environment_id), 0);
        position_is_first(store@.features, feature_named(project_id, feature_name@), 0);
        let id = store@.features[at as int].id;
        assert forall|j: int| 0 <= j < at implies !feature_with(id)(
            #[trigger] store@.features[j],
        ) by {
            assert(store@.features[j].id != store@.features[at as int].id);
        }
        crate::store::first_is(store@.features, feature_with(id), at as int);
    }
    match Distributor::new(feature).distribute(store, &environment) {
        Ok(variant) => Ok(variant.value),
        Err(error) => Err(error),
    }
}

} // verus!
