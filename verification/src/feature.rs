//! Features: the flags of a project, each with its value per environment.

use vstd::prelude::*;
use crate::board::{control, control_variant, list as list_board, share_sum_not_negative};
use crate::errors::{BadRequest, FlagrantError};
use crate::model::{Environment, Feature, Variant};
use crate::names::{is_valid_name, valid_name};
use crate::store::{
    environment_with, feature_named, feature_ok, feature_with, find_board, first, first_is,
    owns, position_agrees, position_is_first, well_formed, FeatureRecord, Store,
    StoreView,
};
use crate::text::{has_prefix, starts_with};
use crate::values::FeatureValue;
use crate::variant::{board_in, control_set, has_value_in, set_control, variants_in};

verus! {

/// Whether `feature` is `record` as the environment `environment_id` sees
/// it, with all its variants.
pub open spec fn shows(feature: Feature, record: FeatureRecord, environment_id: u16) -> bool {
    &&& feature.id == record.id
    &&& feature.project_id == record.project_id
    &&& feature.name == record.name
    &&& feature.is_enabled == record.is_enabled
    &&& feature.variants@ == variants_in(record, environment_id)
}

/// The control variant of `record` in the environment `environment_id`,
/// alone, or nothing where the feature has no value there.
pub open spec fn default_in(record: FeatureRecord, environment_id: u16) -> Seq<Variant> {
    if has_value_in(record, environment_id) {
        seq![control_variant(board_in(record, environment_id))]
    } else {
        Seq::empty()
    }
}

/// Whether `feature` is `record` as the environment `environment_id` sees
/// it, with its control variant alone.
pub open spec fn shows_default(feature: Feature, record: FeatureRecord, environment_id: u16)
    -> bool {
    &&& feature.id == record.id
    &&& feature.project_id == record.project_id
    &&& feature.name == record.name
    &&& feature.is_enabled == record.is_enabled
    &&& feature.variants@ == default_in(record, environment_id)
}

/// The project of the environment `environment_id`, as the store holds
/// it.
pub open spec fn project_of(v: StoreView, environment_id: u16) -> Option<u16> {
    let e = first(v.environments, environment_with(environment_id));
    if e < v.environments.len() {
        Some(v.environments[e].project_id)
    } else {
        None
    }
}

/// The features that a listing in the environment `environment_id`
/// finds: those of its project for which `wanted` holds, and none where
/// the store holds no such environment.
pub open spec fn found_in(
    v: StoreView,
    environment_id: u16,
    wanted: spec_fn(u16) -> spec_fn(FeatureRecord) -> bool,
) -> Seq<FeatureRecord> {
    match project_of(v, environment_id) {
        Some(project_id) => v.features.filter(wanted(project_id)),
        None => Seq::empty(),
    }
}

/// The features of the project `project_id`.
pub open spec fn in_project(project_id: u16) -> spec_fn(FeatureRecord) -> bool {
    |f: FeatureRecord| f.project_id == project_id
}

/// The features of the project `project_id` whose names begin with
/// `prefix`.
pub open spec fn in_project_with_prefix(project_id: u16, prefix: Seq<char>) -> spec_fn(
    FeatureRecord,
) -> bool {
    |f: FeatureRecord| f.project_id == project_id && starts_with(f.name@, prefix)
}

/// The feature at position `at` as the environment `environment_id` sees
/// it, with all its variants.
pub(crate) fn snapshot(store: &Store, at: usize, environment_id: u16) -> (feature: Feature)
    requires
        store.wf(),
        at < store@.features.len(),
    ensures
        shows(feature, store@.features[at as int], environment_id),
{
    let record = &store.features[at];
    let b = find_board(&record.boards, environment_id);
    let variants = if b < record.boards.len() {
        proof {
            share_sum_not_negative(
                record.boards@[b as int].shares@,
                record.boards@[b as int].shares@.len() as int,
            );
        }
        list_board(&record.standards, &record.boards[b])
    } else {
        Vec::new()
    };
    Feature {
        id: record.id,
        project_id: record.project_id,
        name: record.name.clone(),
        variants,
        is_enabled: record.is_enabled,
    }
}

/// The feature at position `at` as the environment `environment_id` sees
/// it, with its control variant alone.
pub(crate) fn summary(store: &Store, at: usize, environment_id: u16) -> (feature: Feature)
    requires
        store.wf(),
        at < store@.features.len(),
    ensures
        shows_default(feature, store@.features[at as int], environment_id),
{
    let record = &store.features[at];
    let b = find_board(&record.boards, environment_id);
    let mut variants: Vec<Variant> = Vec::new();
    if b < record.boards.len() {
        proof {
            share_sum_not_negative(
                record.boards@[b as int].shares@,
                record.boards@[b as int].shares@.len() as int,
            );
        }
        variants.push(control(&record.boards[b]));
        assert(variants@ =~= default_in(store@.features[at as int], environment_id));
    }
    Feature {
        id: record.id,
        project_id: record.project_id,
        name: record.name.clone(),
        variants,
        is_enabled: record.is_enabled,
    }
}

/// Returns the feature with the id `feature_id` as `environment` sees it,
/// with all its variants; a feature without a value in the environment
/// comes without variants.
pub fn fetch(store: &Store, environment: &Environment, feature_id: u16) -> (r: Result<
    Feature,
    FlagrantError,
>)
    requires
        store.wf(),
    ensures
        match r {
            Ok(feature) => {
                let at = first(store@.features, feature_with(feature_id));
                at < store@.features.len() && shows(feature, store@.features[at], environment.id)
            },
            Err(e) => e == FlagrantError::NotFound && first(
                store@.features,
                feature_with(feature_id),
            ) >= store@.features.len(),
        },
{
    let at = store.find_feature(feature_id);
    if at >= store.features.len() {
        return Err(FlagrantError::NotFound);
    }
    Ok(snapshot(store, at, environment.id))
}

/// What a fetch of the feature called `name` finds in the environment
/// `environment_id`: the position of the feature of that name in the
/// project of the environment, as the store holds it.
pub open spec fn named_position(v: StoreView, environment_id: u16, name: Seq<char>) -> Option<
    int,
> {
    match project_of(v, environment_id) {
        Some(project_id) => {
            let at = first(v.features, feature_named(project_id, name));
            if at < v.features.len() {
                Some(at)
            } else {
                None
            }
        },
        None => None,
    }
}

/// Returns the feature called `name` in the project of `environment`, as
/// the environment sees it, with all its variants.
///
/// The project is the one that the store holds for the environment.
pub fn fetch_by_name(store: &Store, environment: &Environment, name: String) -> (r: Result<
    Feature,
    FlagrantError,
>)
    requires
        store.wf(),
    ensures
        match r {
            Ok(feature) => {
                let at = named_position(store@, environment.id, name@);
                at is Some && shows(feature, store@.features[at->0], environment.id)
            },
            Err(e) => e == FlagrantError::NotFound && named_position(
                store@,
                environment.id,
                name@,
            ) is None,
        },
{
    let e = store.find_environment(environment.id);
    if e >= store.environments.len() {
        return Err(FlagrantError::NotFound);
    }
    let at = store.find_feature_named(store.environments[e].project_id, &name);
    if at >= store.features.len() {
        return Err(FlagrantError::NotFound);
    }
    Ok(snapshot(store, at, environment.id))
}

/// Returns the features of the project of `environment` whose names begin
/// with `prefix`, in the order of their creation, each with its control
/// variant in the environment alone. The project is the one that the store
/// holds for the environment.
pub fn fetch_by_prefix(store: &Store, environment: &Environment, prefix: String) -> (found: Vec<
    Feature,
>)
    requires
        store.wf(),
    ensures
        ({
            let matching = found_in(
                store@,
                environment.id,
                |project_id: u16| in_project_with_prefix(project_id, prefix@),
            );
            &&& found@.len() == matching.len()
            &&& forall|k: int|
                0 <= k < found@.len() ==> shows_default(
                    #[trigger] found@[k],
                    matching[k],
                    environment.id,
                )
        }),
{
    let mut found: Vec<Feature> = Vec::new();
    let e = store.find_environment(environment.id);
    if e >= store.environments.len() {
        return found;
    }
    let project_id = store.environments[e].project_id;
    let mut at: usize = 0;
    let ghost wanted = in_project_with_prefix(project_id, prefix@);
    proof {
        reveal(Seq::filter);
        assert(store@.features.take(0) =~= Seq::<FeatureRecord>::empty());
    }
    while at < store.features.len()
        invariant
            store.wf(),
            at <= store.features.len(),
            wanted == in_project_with_prefix(project_id, prefix@),
            found@.len() == store@.features.take(at as int).filter(wanted).len(),
            forall|k: int|
                0 <= k < found@.len() ==> shows_default(
                    #[trigger] found@[k],
                    store@.features.take(at as int).filter(wanted)[k],
                    environment.id,
                ),
        decreases store.features.len() - at,
    {
        proof {
            reveal(Seq::filter);
            assert(store@.features.take(at + 1).drop_last() =~= store@.features.take(at as int));
        }
        if store.features[at].project_id == project_id && has_prefix(
            store.features[at].name.as_str(),
            prefix.as_str(),
        ) {
            found.push(summary(store, at, environment.id));
        }
        at = at + 1;
    }
    proof {
        assert(store@.features.take(at as int) =~= store@.features);
    }
    found
}

/// Returns the features of the project of `environment`, in the order of
/// their creation, each with its control variant in the environment alone.
/// The project is the one that the store holds for the environment.
pub fn list(store: &Store, environment: &Environment) -> (found: Vec<Feature>)
    requires
        store.wf(),
    ensures
        ({
            let matching = found_in(
                store@,
                environment.id,
                |project_id: u16| in_project(project_id),
            );
            &&& found@.len() == matching.len()
            &&& forall|k: int|
                0 <= k < found@.len() ==> shows_default(
                    #[trigger] found@[k],
                    matching[k],
                    environment.id,
                )
        }),
{
    let mut found: Vec<Feature> = Vec::new();
    let e = store.find_environment(environment.id);
    if e >= store.environments.len() {
        return found;
    }
    let project_id = store.environments[e].project_id;
    let mut at: usize = 0;
    let ghost wanted = in_project(project_id);
    proof {
        reveal(Seq::filter);
        assert(store@.features.take(0) =~= Seq::<FeatureRecord>::empty());
    }
    while at < store.features.len()
        invariant
            store.wf(),
            at <= store.features.len(),
            wanted == in_project(project_id),
            found@.len() == store@.features.take(at as int).filter(wanted).len(),
            forall|k: int|
                0 <= k < found@.len() ==> shows_default(
                    #[trigger] found@[k],
                    store@.features.take(at as int).filter(wanted)[k],
                    environment.id,
                ),
        decreases store.features.len() - at,
    {
        proof {
            reveal(Seq::filter);
            assert(store@.features.take(at + 1).drop_last() =~= store@.features.take(at as int));
        }
        if store.features[at].project_id == project_id {
            found.push(summary(store, at, environment.id));
        }
        at = at + 1;
    }
    proof {
        assert(store@.features.take(at as int) =~= store@.features);
    }
    found
}

/// Why a feature called `name` cannot be created in the project of the
/// environment `environment_id`, if it cannot.
pub open spec fn create_refusal(
    v: StoreView,
    environment_id: u16,
    name: Seq<char>,
    with_value: bool,
) -> Option<FlagrantError> {
    let e = first(v.environments, environment_with(environment_id));
    if !is_valid_name(name) {
        Some(FlagrantError::BadRequest(BadRequest::NameInvalid))
    } else if e >= v.environments.len() {
        Some(FlagrantError::NotFound)
    } else if first(v.features, feature_named(v.environments[e].project_id, name))
        < v.features.len() {
        Some(FlagrantError::BadRequest(BadRequest::NameTaken))
    } else if v.next_feature == u16::MAX || (with_value && v.next_variant == u16::MAX) {
        Some(FlagrantError::StoreUnavailable)
    } else {
        None
    }
}

/// `after` is `before` with one more feature, the last: called `name`, in
/// the project of the environment `environment_id`, with the next id, and
/// without variants but for the control variant that holds `value` in that
/// environment, where a value was given.
pub open spec fn created(
    before: StoreView,
    after: StoreView,
    environment_id: u16,
    name: String,
    value: Option<FeatureValue>,
    is_enabled: bool,
) -> bool {
    let e = first(before.environments, environment_with(environment_id));
    let g = after.features.last();
    &&& after.projects == before.projects
    &&& after.environments == before.environments
    &&& after.next_project == before.next_project
    &&& after.next_environment == before.next_environment
    &&& after.next_feature == before.next_feature + 1
    &&& after.next_variant == before.next_variant + if value is Some {
        1int
    } else {
        0int
    }
    &&& after.features.len() == before.features.len() + 1
    &&& after.features.drop_last() == before.features
    &&& g.id == before.next_feature
    &&& g.project_id == before.environments[e].project_id
    &&& g.name == name
    &&& g.is_enabled == is_enabled
    &&& g.standards@.len() == 0
    &&& match value {
        Some(v) => {
            &&& g.boards@.len() == 1
            &&& g.boards@[0].environment_id == environment_id
            &&& g.boards@[0].control.id == before.next_variant
            &&& g.boards@[0].control.value == v
            &&& g.boards@[0].control.accumulator == 100
            &&& g.boards@[0].shares@.len() == 0
        },
        None => g.boards@.len() == 0,
    }
}

/// Creates a feature called `name` in the project of `environment`, with
/// `value` as its value in that environment where one is given.
///
/// The name must be valid and not yet taken in the project. The feature
/// gets the next id and stands last in the store, so that a fetch by its
/// id and a fetch by its name find it; what is returned is what they
/// return in `environment`. A call that fails changes nothing.
pub fn create(
    store: &mut Store,
    environment: &Environment,
    name: String,
    value: Option<FeatureValue>,
    is_enabled: bool,
) -> (r: Result<Feature, FlagrantError>)
    requires
        old(store).wf(),
    ensures
        final(store).wf(),
        match r {
            Ok(feature) => {
                let at = old(store)@.features.len() as int;
                &&& create_refusal(old(store)@, environment.id, name@, value is Some) is None
                &&& created(old(store)@, final(store)@, environment.id, name, value, is_enabled)
                &&& shows(feature, final(store)@.features[at], environment.id)
                &&& first(final(store)@.features, feature_with(feature.id)) == at
                &&& named_position(final(store)@, environment.id, name@) == Some(at)
            },
            Err(e) => {
                &&& create_refusal(old(store)@, environment.id, name@, value is Some) == Some(e)
                &&& *final(store) == *old(store)
            },
        },
{
    if !valid_name(name.as_str()) {
        return Err(FlagrantError::BadRequest(BadRequest::NameInvalid));
    }
    let e = store.find_environment(environment.id);
    if e >= store.environments.len() {
        return Err(FlagrantError::NotFound);
    }
    let project_id = store.environments[e].project_id;
    if store.find_feature_named(project_id, &name) < store.features.len() {
        return Err(FlagrantError::BadRequest(BadRequest::NameTaken));
    }
    if store.next_feature == u16::MAX || (value.is_some() && store.next_variant == u16::MAX) {
        return Err(FlagrantError::StoreUnavailable);
    }
    let id = store.next_feature;
    let at = store.features.len();
    let ghost before = store@;
    proof {
        position_is_first(before.features, feature_named(project_id, name@), 0);
    }
    store.features.push(
        FeatureRecord {
            id,
            project_id,
            name,
            is_enabled,
            standards: Vec::new(),
            boards: Vec::new(),
        },
    );
    store.next_feature = id + 1;
    proof {
        let mid = store@;
        assert(mid.features.drop_last() =~= before.features);
        assert forall|i: int| 0 <= i < mid.features.len() implies feature_ok(
            #[trigger] mid.features[i],
            mid.next_variant,
        ) by {
            if i < at {
                assert(mid.features[i] == before.features[i]);
            }
        }
        assert forall|i: int, j: int|
            0 <= i < j < mid.features.len() && (#[trigger] mid.features[i]).project_id == (
            #[trigger] mid.features[j]).project_id implies mid.features[i].name@
            != mid.features[j].name@ by {
            assert(mid.features[i] == before.features[i]);
            if j == at {
                assert(!feature_named(project_id, name@)(before.features[i]));
            } else {
                assert(mid.features[j] == before.features[j]);
            }
        }
        assert forall|i: int, j: int| 0 <= i < j < mid.features.len() implies (
        #[trigger] mid.features[i]).id != (#[trigger] mid.features[j]).id by {
            assert(mid.features[i] == before.features[i]);
            if j < at {
                assert(mid.features[j] == before.features[j]);
            }
        }
        assert forall|i: int| 0 <= i < mid.features.len() implies (#[trigger] mid.features[i]).id
            < mid.next_feature by {
            if i < at {
                assert(mid.features[i] == before.features[i]);
            }
        }
        assert(mid.projects == before.projects);
        assert(mid.environments == before.environments);
        assert(well_formed(before));
        assert(well_formed(mid));
        first_is(mid.features, feature_with(id), at as int);
        assert forall|j: int| 0 <= j < at implies !feature_named(project_id, name@)(
            #[trigger] mid.features[j],
        ) by {
            assert(mid.features[j] == before.features[j]);
        }
        first_is(mid.features, feature_named(project_id, name@), at as int);
    }
    let ghost mid = store@;
    if let Some(v) = value {
        set_control(store, at, environment.id, v);
        proof {
            let after = store@;
            assert(after.features.drop_last() =~= before.features) by {
                assert forall|i: int| 0 <= i < at implies after.features[i]
                    == before.features[i] by {
                    assert(after.features[i] == mid.features[i]);
                }
            }
            assert forall|j: int| 0 <= j < after.features.len() implies feature_with(id)(
                #[trigger] after.features[j],
            ) == feature_with(id)(mid.features[j]) by {
                if j != at {
                    assert(after.features[j] == mid.features[j]);
                }
            }
            position_agrees(after.features, mid.features, feature_with(id), 0);
            assert forall|j: int| 0 <= j < after.features.len() implies feature_named(
                project_id,
                name@,
            )(#[trigger] after.features[j]) == feature_named(project_id, name@)(
                mid.features[j],
            ) by {
                if j != at {
                    assert(after.features[j] == mid.features[j]);
                }
            }
            position_agrees(after.features, mid.features, feature_named(project_id, name@), 0);
        }
    }
    Ok(snapshot(store, at, environment.id))
}

/// Why the feature `feature_id` cannot be given the name `name` and, where
/// `with_value` holds, a value in the environment `environment_id`, if it
/// cannot.
pub open spec fn update_refusal(
    v: StoreView,
    environment_id: u16,
    feature_id: u16,
    name: Seq<char>,
    with_value: bool,
) -> Option<FlagrantError> {
    let at = first(v.features, feature_with(feature_id));
    let e = first(v.environments, environment_with(environment_id));
    if !is_valid_name(name) {
        Some(FlagrantError::BadRequest(BadRequest::NameInvalid))
    } else if at >= v.features.len() {
        Some(FlagrantError::NotFound)
    } else {
        let named = first(v.features, feature_named(v.features[at].project_id, name));
        if named < v.features.len() && named != at {
            Some(FlagrantError::BadRequest(BadRequest::NameTaken))
        } else if with_value && (e >= v.environments.len() || v.environments[e].project_id
            != v.features[at].project_id) {
            Some(FlagrantError::NotFound)
        } else if with_value && !has_value_in(v.features[at], environment_id) && v.next_variant
            == u16::MAX {
            Some(FlagrantError::StoreUnavailable)
        } else {
            None
        }
    }
}

/// `after` is `before` with the feature `feature_id` called `name`,
/// switched as `is_enabled` says, and, where a value is given, with that
/// value in the environment `environment_id`. Its variants are otherwise
/// as they were, and so are the other features.
pub open spec fn updated(
    before: StoreView,
    after: StoreView,
    environment_id: u16,
    feature_id: u16,
    name: String,
    value: Option<FeatureValue>,
    is_enabled: bool,
) -> bool {
    let at = first(before.features, feature_with(feature_id));
    let f = before.features[at];
    let g = after.features[at];
    &&& after.projects == before.projects
    &&& after.environments == before.environments
    &&& after.next_project == before.next_project
    &&& after.next_environment == before.next_environment
    &&& after.next_feature == before.next_feature
    &&& after.next_variant == before.next_variant + if value is Some && !has_value_in(
        f,
        environment_id,
    ) {
        1int
    } else {
        0int
    }
    &&& after.features.len() == before.features.len()
    &&& forall|i: int|
        0 <= i < before.features.len() && i != at ==> (#[trigger] after.features[i])
            == before.features[i]
    &&& g.id == f.id
    &&& g.project_id == f.project_id
    &&& g.name == name
    &&& g.is_enabled == is_enabled
    &&& match value {
        Some(v) => control_set(f, g, environment_id, v, before.next_variant),
        None => g.standards@ == f.standards@ && g.boards@ == f.boards@,
    }
}

/// Gives `feature` a new name and switches it on or off; where a value is
/// given, makes it the value of the feature in `environment`.
///
/// The name must be valid and not taken by another feature of the project.
/// The new value goes to the control variant of the environment, which is
/// created where the feature had no value there; weights and the other
/// variants stay as they are. A call that fails changes nothing.
pub fn update(
    store: &mut Store,
    environment: &Environment,
    feature: &Feature,
    new_name: String,
    new_value: Option<FeatureValue>,
    is_enabled: bool,
) -> (r: Result<(), FlagrantError>)
    requires
        old(store).wf(),
    ensures
        final(store).wf(),
        match r {
            Ok(_) => {
                let at = first(old(store)@.features, feature_with(feature.id));
                let g = final(store)@.features[at];
                &&& update_refusal(
                    old(store)@,
                    environment.id,
                    feature.id,
                    new_name@,
                    new_value is Some,
                ) is None
                &&& updated(
                    old(store)@,
                    final(store)@,
                    environment.id,
                    feature.id,
                    new_name,
                    new_value,
                    is_enabled,
                )
                &&& first(final(store)@.features, feature_with(feature.id)) == at
                &&& new_value is Some ==> has_value_in(g, environment.id) && control_variant(
                    board_in(g, environment.id),
                ).value == new_value->0
            },
            Err(e) => {
                &&& update_refusal(
                    old(store)@,
                    environment.id,
                    feature.id,
                    new_name@,
                    new_value is Some,
                ) == Some(e)
                &&& *final(store) == *old(store)
            },
        },
{
    if !valid_name(new_name.as_str()) {
        return Err(FlagrantError::BadRequest(BadRequest::NameInvalid));
    }
    let at = store.find_feature(feature.id);
    if at >= store.features.len() {
        return Err(FlagrantError::NotFound);
    }
    let project_id = store.features[at].project_id;
    let named = store.find_feature_named(project_id, &new_name);
    if named < store.features.len() && named != at {
        return Err(FlagrantError::BadRequest(BadRequest::NameTaken));
    }
    if new_value.is_some() {
        let e = store.find_environment(environment.id);
        if e >= store.environments.len() || store.environments[e].project_id != project_id {
            return Err(FlagrantError::NotFound);
        }
        if find_board(&store.features[at].boards, environment.id) >= store.features[at].boards.len()
            && store.next_variant == u16::MAX {
            return Err(FlagrantError::StoreUnavailable);
        }
    }
    let ghost before = store@;
    let ghost f = before.features[at as int];
    proof {
        position_is_first(before.features, feature_named(project_id, new_name@), 0);
        position_is_first(before.features, feature_with(feature.id), 0);
    }
    store.features[at].name = new_name;
    store.features[at].is_enabled = is_enabled;
    proof {
        let mid = store@;
        let g = mid.features[at as int];
        assert(g.standards@ == f.standards@);
        assert(g.boards@ == f.boards@);
        assert(feature_ok(f, before.next_variant));
        assert(feature_ok(g, mid.next_variant));
        assert forall|i: int, j: int|
            0 <= i < j < mid.features.len() && (#[trigger] mid.features[i]).project_id == (
            #[trigger] mid.features[j]).project_id implies mid.features[i].name@
            != mid.features[j].name@ by {
            if i == at {
                assert(mid.features[j] == before.features[j]);
                assert(!feature_named(project_id, new_name@)(before.features[j])) by {
                    if named >= mid.features.len() {
                    } else {
                        assert(named == at);
                        if feature_named(project_id, new_name@)(before.features[j]) {
                            assert(before.features[at as int].project_id
                                == before.features[j].project_id);
                            assert(before.features[at as int].name@ != before.features[j].name@);
                        }
                    }
                }
            } else if j == at {
                assert(mid.features[i] == before.features[i]);
                assert(!feature_named(project_id, new_name@)(before.features[i]));
            } else {
                assert(mid.features[i] == before.features[i]);
                assert(mid.features[j] == before.features[j]);
            }
        }
        assert forall|i: int, j: int| 0 <= i < j < mid.features.len() implies (
        #[trigger] mid.features[i]).id != (#[trigger] mid.features[j]).id by {
            assert(mid.features[i].id == before.features[i].id);
            assert(mid.features[j].id == before.features[j].id);
        }
        assert forall|i: int| 0 <= i < mid.features.len() implies (#[trigger] mid.features[i]).id
            < mid.next_feature by {
            assert(mid.features[i].id == before.features[i].id);
        }
        assert forall|i: int| 0 <= i < mid.features.len() implies feature_ok(
            #[trigger] mid.features[i],
            mid.next_variant,
        ) by {
            if i != at {
                assert(mid.features[i] == before.features[i]);
            }
        }
        assert(mid.projects == before.projects);
        assert(mid.environments == before.environments);
        assert forall|i: int, id: u16| 0 <= i < mid.features.len() implies #[trigger] owns(
            mid.features[i],
            id,
        ) == owns(before.features[i], id) by {
            if i != at {
                assert(mid.features[i] == before.features[i]);
            }
        }
        assert forall|i: int, j: int, id: u16|
            0 <= i < mid.features.len() && 0 <= j < mid.features.len() && i != j
                && #[trigger] owns(mid.features[i], id) implies !(#[trigger] owns(
            mid.features[j],
            id,
        )) by {
            assert(owns(before.features[i], id));
            assert(!owns(before.features[j], id));
        }
        assert(well_formed(mid));
        assert forall|j: int| 0 <= j < mid.features.len() implies feature_with(feature.id)(
            #[trigger] mid.features[j],
        ) == feature_with(feature.id)(before.features[j]) by {
            assert(mid.features[j].id == before.features[j].id);
        }
        position_agrees(mid.features, before.features, feature_with(feature.id), 0);
    }
    let ghost mid = store@;
    if let Some(v) = new_value {
        set_control(store, at, environment.id, v);
        proof {
            let after = store@;
            assert forall|j: int| 0 <= j < after.features.len() implies feature_with(feature.id)(
                #[trigger] after.features[j],
            ) == feature_with(feature.id)(mid.features[j]) by {
                if j != at {
                    assert(after.features[j] == mid.features[j]);
                }
            }
            position_agrees(after.features, mid.features, feature_with(feature.id), 0);
            assert forall|i: int| 0 <= i < before.features.len() && i != at implies (
            #[trigger] after.features[i]) == before.features[i] by {
                assert(after.features[i] == mid.features[i]);
                assert(mid.features[i] == before.features[i]);
            }
        }
    }
    Ok(())
}

/// Deletes `feature` with all its variants, in every environment.
///
/// Afterwards a fetch by its id finds nothing. A call that fails changes
/// nothing.
pub fn delete(store: &mut Store, environment: &Environment, feature: &Feature) -> (r: Result<
    (),
    FlagrantError,
>)
    requires
        old(store).wf(),
    ensures
        final(store).wf(),
        match r {
            Ok(_) => {
                let at = first(old(store)@.features, feature_with(feature.id));
                &&& at < old(store)@.features.len()
                &&& final(store)@ == (StoreView {
                    features: old(store)@.features.remove(at),
                    ..old(store)@
                })
                &&& first(final(store)@.features, feature_with(feature.id)) == final(store)@.features.len()
            },
            Err(e) => {
                &&& e == FlagrantError::NotFound
                &&& first(old(store)@.features, feature_with(feature.id)) >= old(store)@.features.len()
                &&& *final(store) == *old(store)
            },
        },
{
    let at = store.find_feature(feature.id);
    if at >= store.features.len() {
        return Err(FlagrantError::NotFound);
    }
    let ghost before = store@;
    proof {
        position_is_first(before.features, feature_with(feature.id), 0);
    }
    store.features.remove(at);
    proof {
        let after = store@;
        assert(after.features == before.features.remove(at as int));
        assert forall|i: int| 0 <= i < after.features.len() implies (#[trigger] after.features[i])
            == before.features[if i < at { i } else { i + 1 }] by {}
        assert forall|i: int| 0 <= i < after.features.len() implies feature_ok(
            #[trigger] after.features[i],
            after.next_variant,
        ) by {
            assert(after.features[i] == before.features[if i < at { i } else { i + 1 }]);
        }
        assert forall|i: int, j: int| 0 <= i < j < after.features.len() implies (
        #[trigger] after.features[i]).id != (#[trigger] after.features[j]).id by {
            assert(after.features[i] == before.features[if i < at { i } else { i + 1 }]);
            assert(after.features[j] == before.features[if j < at { j } else { j + 1 }]);
        }
        assert forall|i: int, j: int|
            0 <= i < j < after.features.len() && (#[trigger] after.features[i]).project_id == (
            #[trigger] after.features[j]).project_id implies after.features[i].name@
            != after.features[j].name@ by {
            assert(after.features[i] == before.features[if i < at { i } else { i + 1 }]);
            assert(after.features[j] == before.features[if j < at { j } else { j + 1 }]);
        }
        assert forall|i: int| 0 <= i < after.features.len() implies (
        #[trigger] after.features[i]).id < after.next_feature by {
            assert(after.features[i] == before.features[if i < at { i } else { i + 1 }]);
        }
        assert(after.projects == before.projects);
        assert(after.environments == before.environments);
        assert(well_formed(after));
        assert forall|j: int| 0 <= j < after.features.len() implies !feature_with(feature.id)(
            #[trigger] after.features[j],
        ) by {
            let j0 = if j < at { j } else { j + 1 };
            assert(after.features[j] == before.features[j0]);
            if j0 < at {
                assert(before.features[j0].id != before.features[at as int].id);
            } else {
                assert(before.features[at as int].id != before.features[j0].id);
            }
        }
        first_is(after.features, feature_with(feature.id), after.features.len() as int);
    }
    Ok(())
}

} // verus!
