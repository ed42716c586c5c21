//! The persistent state: projects, environments, and features with their
//! variants, weights and accumulators.
//!
//! A feature owns its standard variants, which all environments share, and
//! one board for each environment in which it has a value. The board holds
//! the control variant of that environment and, for each standard variant
//! in turn, its weight and accumulator there.

use vstd::prelude::*;
use crate::distributor::{steady, Slot};
use crate::model::{Environment, Project};
use crate::names::is_valid_name;
use crate::values::FeatureValue;

verus! {

/// A variant that all environments share.
pub struct StandardRecord {
    pub id: u16,
    pub value: FeatureValue,
}

/// The weight and the accumulator of a standard variant in one environment.
#[derive(Clone, Copy)]
pub struct Share {
    pub weight: u8,
    pub accumulator: i32,
}

/// The control variant of one environment. Its weight is not kept: it is
/// what the shares of its board leave of 100.
pub struct ControlRecord {
    pub id: u16,
    pub value: FeatureValue,
    pub accumulator: i32,
}

/// What a feature holds for one environment in which it has a value: the
/// control variant of that environment, and a share for each standard
/// variant of the feature, in their order.
pub struct Board {
    pub environment_id: u16,
    pub control: ControlRecord,
    pub shares: Vec<Share>,
}

/// A feature as it is kept.
pub struct FeatureRecord {
    pub id: u16,
    pub project_id: u16,
    pub name: String,
    pub is_enabled: bool,
    pub standards: Vec<StandardRecord>,
    pub boards: Vec<Board>,
}

/// What a store holds.
pub struct StoreView {
    pub projects: Seq<Project>,
    pub environments: Seq<Environment>,
    pub features: Seq<FeatureRecord>,
    pub next_project: u16,
    pub next_environment: u16,
    pub next_feature: u16,
    pub next_variant: u16,
}

/// The persistent state.
pub struct Store {
    pub(crate) projects: Vec<Project>,
    pub(crate) environments: Vec<Environment>,
    pub(crate) features: Vec<FeatureRecord>,
    pub(crate) next_project: u16,
    pub(crate) next_environment: u16,
    pub(crate) next_feature: u16,
    pub(crate) next_variant: u16,
}

impl View for Store {
    type V = StoreView;

    open(crate) spec fn view(&self) -> StoreView {
        StoreView {
            projects: self.projects@,
            environments: self.environments@,
            features: self.features@,
            next_project: self.next_project,
            next_environment: self.next_environment,
            next_feature: self.next_feature,
            next_variant: self.next_variant,
        }
    }
}

/// The first position at or after `from` whose item is wanted, or the
/// length of `s` where none is.
pub open spec fn position<T>(s: Seq<T>, wanted: spec_fn(T) -> bool, from: int) -> int
    decreases s.len() - from,
{
    if from < 0 || from >= s.len() {
        s.len() as int
    } else if wanted(s[from]) {
        from
    } else {
        position(s, wanted, from + 1)
    }
}

/// The first position whose item is wanted, or the length of `s`.
pub open spec fn first<T>(s: Seq<T>, wanted: spec_fn(T) -> bool) -> int {
    position(s, wanted, 0)
}

/// The position that a search returns holds a wanted item, and no wanted
/// item stands between the start of the search and that position.
pub proof fn position_is_first<T>(s: Seq<T>, wanted: spec_fn(T) -> bool, from: int)
    requires
        0 <= from <= s.len(),
    ensures
        from <= position(s, wanted, from) <= s.len(),
        position(s, wanted, from) < s.len() ==> wanted(s[position(s, wanted, from)]),
        forall|j: int| from <= j < position(s, wanted, from) ==> !wanted(#[trigger] s[j]),
    decreases s.len() - from,
{
    if from < s.len() && !wanted(s[from]) {
        position_is_first(s, wanted, from + 1);
    }
}

/// A search from the start finds the position `at` where the item there is
/// wanted and none before it is.
pub proof fn first_is<T>(s: Seq<T>, wanted: spec_fn(T) -> bool, at: int)
    requires
        0 <= at <= s.len(),
        at < s.len() ==> wanted(s[at]),
        forall|j: int| 0 <= j < at ==> !wanted(#[trigger] s[j]),
    ensures
        first(s, wanted) == at,
{
    position_is_first(s, wanted, 0);
    let p = first(s, wanted);
    if p < at {
        assert(!wanted(s[p]));
    } else if p > at {
        assert(!wanted(s[at]));
    }
}

/// Searches in two sequences of one length whose items are wanted at the
/// same positions end at the same position.
pub proof fn position_agrees<T>(s: Seq<T>, t: Seq<T>, wanted: spec_fn(T) -> bool, from: int)
    requires
        s.len() == t.len(),
        0 <= from,
        forall|j: int| from <= j < s.len() ==> wanted(#[trigger] s[j]) == wanted(t[j]),
    ensures
        position(s, wanted, from) == position(t, wanted, from),
    decreases s.len() - from,
{
    if from < s.len() {
        assert(wanted(s[from]) == wanted(t[from]));
        if !wanted(s[from]) {
            position_agrees(s, t, wanted, from + 1);
        }
    }
}

/// The project with the id `id`.
pub open spec fn project_with(id: u16) -> spec_fn(Project) -> bool {
    |p: Project| p.id == id
}

/// The environment with the id `id`.
pub open spec fn environment_with(id: u16) -> spec_fn(Environment) -> bool {
    |e: Environment| e.id == id
}

/// The environment of the project `project_id` that is called `name`.
pub open spec fn environment_named(project_id: u16, name: Seq<char>) -> spec_fn(
    Environment,
) -> bool {
    |e: Environment| e.project_id == project_id && e.name@ == name
}

/// The feature with the id `id`.
pub open spec fn feature_with(id: u16) -> spec_fn(FeatureRecord) -> bool {
    |f: FeatureRecord| f.id == id
}

/// The feature of the project `project_id` that is called `name`.
pub open spec fn feature_named(project_id: u16, name: Seq<char>) -> spec_fn(
    FeatureRecord,
) -> bool {
    |f: FeatureRecord| f.project_id == project_id && f.name@ == name
}

/// The board of the environment `environment_id`.
pub open spec fn board_of(environment_id: u16) -> spec_fn(Board) -> bool {
    |b: Board| b.environment_id == environment_id
}

/// The standard variant with the id `id`.
pub open spec fn standard_with(id: u16) -> spec_fn(StandardRecord) -> bool {
    |s: StandardRecord| s.id == id
}

/// The sum of the first `n` weights.
pub open spec fn share_sum(shares: Seq<Share>, n: int) -> int
    decreases n,
{
    if n <= 0 {
        0
    } else {
        share_sum(shares, n - 1) + shares[n - 1].weight
    }
}

/// The sum of the weights of the standard variants on a board.
pub open spec fn share_total(shares: Seq<Share>) -> int {
    share_sum(shares, shares.len() as int)
}

/// The weight of the control variant of a board: what the standard
/// variants leave of 100.
pub open spec fn control_weight(board: Board) -> int {
    100 - share_total(board.shares@)
}

/// What an evaluation sees of a board: the standard variants in their
/// order, then the control variant.
pub open spec fn board_slots(standards: Seq<StandardRecord>, board: Board) -> Seq<Slot> {
    Seq::new(
        board.shares@.len() + 1,
        |i: int|
            if i < board.shares@.len() {
                Slot {
                    id: standards[i].id as int,
                    weight: board.shares@[i].weight as int,
                    accumulator: board.shares@[i].accumulator as int,
                }
            } else {
                Slot {
                    id: board.control.id as int,
                    weight: control_weight(board),
                    accumulator: board.control.accumulator as int,
                }
            },
    )
}

/// A board is in order where it has a share for each standard variant of
/// its feature and its slots are steady: the weights are percentages that
/// add up to 100, the control variant taking what the others leave, and
/// the accumulators add up to 100, with none at the floor and none out of
/// reach, and with those of the variants without weight at 0.
pub open spec fn board_ok(standards: Seq<StandardRecord>, board: Board, next_variant: u16) -> bool {
    &&& board.shares@.len() == standards.len()
    &&& board.control.id < next_variant
    &&& share_total(board.shares@) <= 100
    &&& steady(board_slots(standards, board))
}

/// Whether `feature` holds a variant with the id `id`: a standard variant,
/// or the control variant of some environment.
pub open spec fn owns(feature: FeatureRecord, id: u16) -> bool {
    ||| exists|j: int|
        0 <= j < feature.standards@.len() && (#[trigger] feature.standards@[j]).id == id
    ||| exists|k: int|
        0 <= k < feature.boards@.len() && (#[trigger] feature.boards@[k]).control.id == id
}

/// No two variants of `feature` carry the same id.
pub open spec fn ids_distinct(feature: FeatureRecord) -> bool {
    &&& forall|i: int, j: int|
        0 <= i < j < feature.standards@.len() ==> (#[trigger] feature.standards@[i]).id != (
        #[trigger] feature.standards@[j]).id
    &&& forall|i: int, j: int|
        0 <= i < j < feature.boards@.len() ==> (#[trigger] feature.boards@[i]).control.id != (
        #[trigger] feature.boards@[j]).control.id
    &&& forall|j: int, k: int|
        0 <= j < feature.standards@.len() && 0 <= k < feature.boards@.len() ==> (
        #[trigger] feature.standards@[j]).id != (#[trigger] feature.boards@[k]).control.id
}

/// A feature is in order where its name is valid, its variants carry ids
/// that were given out, each its own, no two of its boards belong to one
/// environment, and every board is in order.
pub open spec fn feature_ok(feature: FeatureRecord, next_variant: u16) -> bool {
    &&& is_valid_name(feature.name@)
    &&& ids_distinct(feature)
    &&& feature.standards@.len() <= next_variant
    &&& forall|j: int|
        0 <= j < feature.standards@.len() ==> (#[trigger] feature.standards@[j]).id < next_variant
    &&& forall|i: int, j: int|
        0 <= i < j < feature.boards@.len() ==> (#[trigger] feature.boards@[i]).environment_id != (
        #[trigger] feature.boards@[j]).environment_id
    &&& forall|i: int|
        0 <= i < feature.boards@.len() ==> board_ok(
            feature.standards@,
            #[trigger] feature.boards@[i],
            next_variant,
        )
}

/// A board in order stays in order when further ids are given out.
pub proof fn board_ok_later(
    standards: Seq<StandardRecord>,
    board: Board,
    next_variant: u16,
    later: u16,
)
    requires
        board_ok(standards, board, next_variant),
        next_variant <= later,
    ensures
        board_ok(standards, board, later),
{
}

/// A feature in order stays in order when further ids are given out.
pub proof fn feature_ok_later(feature: FeatureRecord, next_variant: u16, later: u16)
    requires
        feature_ok(feature, next_variant),
        next_variant <= later,
    ensures
        feature_ok(feature, later),
{
    assert forall|i: int| 0 <= i < feature.boards@.len() implies board_ok(
        feature.standards@,
        #[trigger] feature.boards@[i],
        later,
    ) by {
        board_ok_later(feature.standards@, feature.boards@[i], next_variant, later);
    }
}

/// A store is in order where the ids it holds were given out and occur
/// once, names occur once within a project, every feature is in order, and
/// no two features hold a variant of the same id.
pub open spec fn well_formed(v: StoreView) -> bool {
    &&& v.next_project >= 1
    &&& v.next_environment >= 1
    &&& v.next_feature >= 1
    &&& v.next_variant >= 1
    &&& forall|i: int| 0 <= i < v.projects.len() ==> (#[trigger] v.projects[i]).id < v.next_project
    &&& forall|i: int, j: int|
        0 <= i < j < v.projects.len() ==> (#[trigger] v.projects[i]).id != (
        #[trigger] v.projects[j]).id
    &&& forall|i: int|
        0 <= i < v.environments.len() ==> (#[trigger] v.environments[i]).id < v.next_environment
    &&& forall|i: int, j: int|
        0 <= i < j < v.environments.len() ==> (#[trigger] v.environments[i]).id != (
        #[trigger] v.environments[j]).id
    &&& forall|i: int, j: int|
        0 <= i < j < v.environments.len() && (#[trigger] v.environments[i]).project_id == (
        #[trigger] v.environments[j]).project_id ==> v.environments[i].name@
            != v.environments[j].name@
    &&& forall|i: int| 0 <= i < v.features.len() ==> (#[trigger] v.features[i]).id < v.next_feature
    &&& forall|i: int, j: int|
        0 <= i < j < v.features.len() ==> (#[trigger] v.features[i]).id != (
        #[trigger] v.features[j]).id
    &&& forall|i: int, j: int|
        0 <= i < j < v.features.len() && (#[trigger] v.features[i]).project_id == (
        #[trigger] v.features[j]).project_id ==> v.features[i].name@ != v.features[j].name@
    &&& forall|i: int|
        0 <= i < v.features.len() ==> feature_ok(#[trigger] v.features[i], v.next_variant)
    &&& forall|i: int, j: int, id: u16|
        0 <= i < v.features.len() && 0 <= j < v.features.len() && i != j && #[trigger] owns(
            v.features[i],
            id,
        ) ==> !(#[trigger] owns(v.features[j], id))
}

/// The ids of the variants that a feature in order holds were given out.
pub proof fn owned_is_given(feature: FeatureRecord, next_variant: u16, id: u16)
    requires
        feature_ok(feature, next_variant),
        owns(feature, id),
    ensures
        id < next_variant,
{
    if exists|j: int|
        0 <= j < feature.standards@.len() && (#[trigger] feature.standards@[j]).id == id {
        let j = choose|j: int|
            0 <= j < feature.standards@.len() && (#[trigger] feature.standards@[j]).id == id;
        assert(feature.standards@[j].id < next_variant);
    } else {
        let k = choose|k: int|
            0 <= k < feature.boards@.len() && (#[trigger] feature.boards@[k]).control.id == id;
        assert(board_ok(feature.standards@, feature.boards@[k], next_variant));
    }
}

/// `after` holds the ids that `before` holds, each in its place.
pub open spec fn ids_kept(before: FeatureRecord, after: FeatureRecord) -> bool {
    &&& after.standards@.len() == before.standards@.len()
    &&& forall|j: int|
        0 <= j < before.standards@.len() ==> (#[trigger] after.standards@[j]).id
            == before.standards@[j].id
    &&& after.boards@.len() == before.boards@.len()
    &&& forall|k: int|
        0 <= k < before.boards@.len() ==> (#[trigger] after.boards@[k]).control.id
            == before.boards@[k].control.id
}

/// A feature that keeps its ids keeps them distinct, and holds no others.
pub proof fn kept_ids(before: FeatureRecord, after: FeatureRecord)
    requires
        ids_distinct(before),
        ids_kept(before, after),
    ensures
        ids_distinct(after),
        forall|id: u16| owns(after, id) ==> owns(before, id),
{
    assert forall|i: int, j: int| 0 <= i < j < after.standards@.len() implies (
    #[trigger] after.standards@[i]).id != (#[trigger] after.standards@[j]).id by {
        assert(before.standards@[i].id != before.standards@[j].id);
    }
    assert forall|i: int, j: int| 0 <= i < j < after.boards@.len() implies (
    #[trigger] after.boards@[i]).control.id != (#[trigger] after.boards@[j]).control.id by {
        assert(before.boards@[i].control.id != before.boards@[j].control.id);
    }
    assert forall|j: int, k: int|
        0 <= j < after.standards@.len() && 0 <= k < after.boards@.len() implies (
    #[trigger] after.standards@[j]).id != (#[trigger] after.boards@[k]).control.id by {
        assert(before.standards@[j].id != before.boards@[k].control.id);
    }
    assert forall|id: u16| owns(after, id) implies owns(before, id) by {
        if exists|j: int|
            0 <= j < after.standards@.len() && (#[trigger] after.standards@[j]).id == id {
            let j = choose|j: int|
                0 <= j < after.standards@.len() && (#[trigger] after.standards@[j]).id == id;
            assert(before.standards@[j].id == id);
        } else {
            let k = choose|k: int|
                0 <= k < after.boards@.len() && (#[trigger] after.boards@[k]).control.id == id;
            assert(before.boards@[k].control.id == id);
        }
    }
}

/// A feature that gains a standard variant of an id that it does not hold
/// keeps its ids distinct, and holds that id beside those it held.
pub proof fn standard_added(before: FeatureRecord, after: FeatureRecord, id: u16)
    requires
        ids_distinct(before),
        !owns(before, id),
        after.standards@.len() == before.standards@.len() + 1,
        forall|j: int|
            0 <= j < before.standards@.len() ==> (#[trigger] after.standards@[j]).id
                == before.standards@[j].id,
        after.standards@[before.standards@.len() as int].id == id,
        after.boards@.len() == before.boards@.len(),
        forall|k: int|
            0 <= k < before.boards@.len() ==> (#[trigger] after.boards@[k]).control.id
                == before.boards@[k].control.id,
    ensures
        ids_distinct(after),
        forall|x: u16| owns(after, x) ==> owns(before, x) || x == id,
{
    let n = before.standards@.len() as int;
    assert forall|i: int, j: int| 0 <= i < j < after.standards@.len() implies (
    #[trigger] after.standards@[i]).id != (#[trigger] after.standards@[j]).id by {
        if j < n {
            assert(before.standards@[i].id != before.standards@[j].id);
        } else {
            assert(before.standards@[i].id == after.standards@[i].id);
        }
    }
    assert forall|i: int, j: int| 0 <= i < j < after.boards@.len() implies (
    #[trigger] after.boards@[i]).control.id != (#[trigger] after.boards@[j]).control.id by {
        assert(before.boards@[i].control.id != before.boards@[j].control.id);
    }
    assert forall|j: int, k: int|
        0 <= j < after.standards@.len() && 0 <= k < after.boards@.len() implies (
    #[trigger] after.standards@[j]).id != (#[trigger] after.boards@[k]).control.id by {
        if j < n {
            assert(before.standards@[j].id != before.boards@[k].control.id);
        } else {
            assert(before.boards@[k].control.id == after.boards@[k].control.id);
        }
    }
    assert forall|x: u16| owns(after, x) implies owns(before, x) || x == id by {
        if exists|j: int|
            0 <= j < after.standards@.len() && (#[trigger] after.standards@[j]).id == x {
            let j = choose|j: int|
                0 <= j < after.standards@.len() && (#[trigger] after.standards@[j]).id == x;
            if j < n {
                assert(before.standards@[j].id == x);
            }
        } else {
            let k = choose|k: int|
                0 <= k < after.boards@.len() && (#[trigger] after.boards@[k]).control.id == x;
            assert(before.boards@[k].control.id == x);
        }
    }
}

/// A feature that gains a board whose control variant has an id that the
/// feature does not hold keeps its ids distinct, and holds that id beside
/// those it held.
pub proof fn board_added(before: FeatureRecord, after: FeatureRecord, id: u16)
    requires
        ids_distinct(before),
        !owns(before, id),
        after.standards@ == before.standards@,
        after.boards@.len() == before.boards@.len() + 1,
        forall|k: int|
            0 <= k < before.boards@.len() ==> (#[trigger] after.boards@[k]).control.id
                == before.boards@[k].control.id,
        after.boards@[before.boards@.len() as int].control.id == id,
    ensures
        ids_distinct(after),
        forall|x: u16| owns(after, x) ==> owns(before, x) || x == id,
{
    let n = before.boards@.len() as int;
    assert forall|i: int, j: int| 0 <= i < j < after.boards@.len() implies (
    #[trigger] after.boards@[i]).control.id != (#[trigger] after.boards@[j]).control.id by {
        if j < n {
            assert(before.boards@[i].control.id != before.boards@[j].control.id);
        } else {
            assert(before.boards@[i].control.id == after.boards@[i].control.id);
        }
    }
    assert forall|j: int, k: int|
        0 <= j < after.standards@.len() && 0 <= k < after.boards@.len() implies (
    #[trigger] after.standards@[j]).id != (#[trigger] after.boards@[k]).control.id by {
        if k < n {
            assert(before.standards@[j].id != before.boards@[k].control.id);
        } else {
            assert(before.standards@[j].id == after.standards@[j].id);
        }
    }
    assert forall|x: u16| owns(after, x) implies owns(before, x) || x == id by {
        if exists|j: int|
            0 <= j < after.standards@.len() && (#[trigger] after.standards@[j]).id == x {
            let j = choose|j: int|
                0 <= j < after.standards@.len() && (#[trigger] after.standards@[j]).id == x;
            assert(before.standards@[j].id == x);
        } else {
            let k = choose|k: int|
                0 <= k < after.boards@.len() && (#[trigger] after.boards@[k]).control.id == x;
            if k < n {
                assert(before.boards@[k].control.id == x);
            }
        }
    }
}

/// A feature that loses the standard variant at position `s` keeps its ids
/// distinct, holds none that it did not hold, and no longer holds the id
/// of that variant.
pub proof fn standard_removed(before: FeatureRecord, after: FeatureRecord, s: int)
    requires
        ids_distinct(before),
        0 <= s < before.standards@.len(),
        after.standards@ == before.standards@.remove(s),
        after.boards@.len() == before.boards@.len(),
        forall|k: int|
            0 <= k < before.boards@.len() ==> (#[trigger] after.boards@[k]).control.id
                == before.boards@[k].control.id,
    ensures
        ids_distinct(after),
        forall|x: u16| owns(after, x) ==> owns(before, x),
        !owns(after, before.standards@[s].id),
{
    let gone = before.standards@[s].id;
    assert forall|j: int| 0 <= j < after.standards@.len() implies (#[trigger] after.standards@[j])
        == before.standards@[if j < s { j } else { j + 1 }] by {}
    assert forall|i: int, j: int| 0 <= i < j < after.standards@.len() implies (
    #[trigger] after.standards@[i]).id != (#[trigger] after.standards@[j]).id by {
        let i0 = if i < s { i } else { i + 1 };
        let j0 = if j < s { j } else { j + 1 };
        assert(before.standards@[i0].id != before.standards@[j0].id);
    }
    assert forall|i: int, j: int| 0 <= i < j < after.boards@.len() implies (
    #[trigger] after.boards@[i]).control.id != (#[trigger] after.boards@[j]).control.id by {
        assert(before.boards@[i].control.id != before.boards@[j].control.id);
    }
    assert forall|j: int, k: int|
        0 <= j < after.standards@.len() && 0 <= k < after.boards@.len() implies (
    #[trigger] after.standards@[j]).id != (#[trigger] after.boards@[k]).control.id by {
        let j0 = if j < s { j } else { j + 1 };
        assert(before.standards@[j0].id != before.boards@[k].control.id);
    }
    assert forall|x: u16| owns(after, x) implies owns(before, x) && x != gone by {
        if exists|j: int|
            0 <= j < after.standards@.len() && (#[trigger] after.standards@[j]).id == x {
            let j = choose|j: int|
                0 <= j < after.standards@.len() && (#[trigger] after.standards@[j]).id == x;
            let j0 = if j < s { j } else { j + 1 };
            assert(before.standards@[j0].id == x);
            if j0 < s {
                assert(before.standards@[j0].id != before.standards@[s].id);
            } else {
                assert(before.standards@[s].id != before.standards@[j0].id);
            }
        } else {
            let k = choose|k: int|
                0 <= k < after.boards@.len() && (#[trigger] after.boards@[k]).control.id == x;
            assert(before.boards@[k].control.id == x);
            assert(before.standards@[s].id != before.boards@[k].control.id);
        }
    }
}

/// A feature that loses the board at position `b` keeps its ids distinct,
/// holds none that it did not hold, and no longer holds the id of the
/// control variant of that board.
pub proof fn board_removed(before: FeatureRecord, after: FeatureRecord, b: int)
    requires
        ids_distinct(before),
        0 <= b < before.boards@.len(),
        after.standards@ == before.standards@,
        after.boards@ == before.boards@.remove(b),
    ensures
        ids_distinct(after),
        forall|x: u16| owns(after, x) ==> owns(before, x),
        !owns(after, before.boards@[b].control.id),
{
    let gone = before.boards@[b].control.id;
    assert forall|k: int| 0 <= k < after.boards@.len() implies (#[trigger] after.boards@[k])
        == before.boards@[if k < b { k } else { k + 1 }] by {}
    assert forall|i: int, j: int| 0 <= i < j < after.boards@.len() implies (
    #[trigger] after.boards@[i]).control.id != (#[trigger] after.boards@[j]).control.id by {
        let i0 = if i < b { i } else { i + 1 };
        let j0 = if j < b { j } else { j + 1 };
        assert(before.boards@[i0].control.id != before.boards@[j0].control.id);
    }
    assert forall|j: int, k: int|
        0 <= j < after.standards@.len() && 0 <= k < after.boards@.len() implies (
    #[trigger] after.standards@[j]).id != (#[trigger] after.boards@[k]).control.id by {
        let k0 = if k < b { k } else { k + 1 };
        assert(before.standards@[j].id != before.boards@[k0].control.id);
    }
    assert forall|x: u16| owns(after, x) implies owns(before, x) && x != gone by {
        if exists|j: int|
            0 <= j < after.standards@.len() && (#[trigger] after.standards@[j]).id == x {
            let j = choose|j: int|
                0 <= j < after.standards@.len() && (#[trigger] after.standards@[j]).id == x;
            assert(before.standards@[j].id == x);
            assert(before.standards@[j].id != before.boards@[b].control.id);
        } else {
            let k = choose|k: int|
                0 <= k < after.boards@.len() && (#[trigger] after.boards@[k]).control.id == x;
            let k0 = if k < b { k } else { k + 1 };
            assert(before.boards@[k0].control.id == x);
            if k0 < b {
                assert(before.boards@[k0].control.id != before.boards@[b].control.id);
            } else {
                assert(before.boards@[b].control.id != before.boards@[k0].control.id);
            }
        }
    }
}

/// A store in order stays in order when one of its features changes into
/// one that is in order, has the id, the project and the name it had, and
/// holds no variant ids but those it held and such as were given out
/// since.
pub proof fn feature_changed(before: StoreView, after: StoreView, at: int)
    requires
        well_formed(before),
        0 <= at < before.features.len(),
        after.projects == before.projects,
        after.environments == before.environments,
        after.next_project == before.next_project,
        after.next_environment == before.next_environment,
        after.next_feature == before.next_feature,
        before.next_variant <= after.next_variant,
        after.features.len() == before.features.len(),
        forall|i: int|
            0 <= i < before.features.len() && i != at ==> (#[trigger] after.features[i])
                == before.features[i],
        after.features[at].id == before.features[at].id,
        after.features[at].project_id == before.features[at].project_id,
        after.features[at].name@ == before.features[at].name@,
        feature_ok(after.features[at], after.next_variant),
        forall|id: u16|
            owns(after.features[at], id) ==> owns(before.features[at], id) || before.next_variant
                <= id,
    ensures
        well_formed(after),
{
    assert forall|i: int| 0 <= i < after.features.len() implies feature_ok(
        #[trigger] after.features[i],
        after.next_variant,
    ) by {
        if i != at {
            assert(after.features[i] == before.features[i]);
            feature_ok_later(before.features[i], before.next_variant, after.next_variant);
        }
    }
    assert forall|i: int, j: int| 0 <= i < j < after.features.len() implies (
    #[trigger] after.features[i]).id != (#[trigger] after.features[j]).id by {
        assert(after.features[i].id == before.features[i].id);
        assert(after.features[j].id == before.features[j].id);
    }
    assert forall|i: int, j: int|
        0 <= i < j < after.features.len() && (#[trigger] after.features[i]).project_id == (
        #[trigger] after.features[j]).project_id implies after.features[i].name@
        != after.features[j].name@ by {
        assert(after.features[i].project_id == before.features[i].project_id);
        assert(after.features[j].project_id == before.features[j].project_id);
        assert(after.features[i].name@ == before.features[i].name@);
        assert(after.features[j].name@ == before.features[j].name@);
    }
    assert forall|i: int| 0 <= i < after.features.len() implies (#[trigger] after.features[i]).id
        < after.next_feature by {
        assert(after.features[i].id == before.features[i].id);
    }
    assert forall|i: int, j: int, id: u16|
        0 <= i < after.features.len() && 0 <= j < after.features.len() && i != j && #[trigger] owns(
            after.features[i],
            id,
        ) implies !(#[trigger] owns(after.features[j], id)) by {
        if i == at {
            assert(after.features[j] == before.features[j]);
            if owns(before.features[j], id) {
                owned_is_given(before.features[j], before.next_variant, id);
                assert(owns(before.features[at], id));
            }
        } else if j == at {
            assert(after.features[i] == before.features[i]);
            owned_is_given(before.features[i], before.next_variant, id);
            if owns(after.features[j], id) {
                assert(owns(before.features[at], id));
            }
        } else {
            assert(after.features[i] == before.features[i]);
            assert(after.features[j] == before.features[j]);
        }
    }
}

impl Store {
    /// Whether the store is in order.
    pub open spec fn wf(&self) -> bool {
        well_formed(self@)
    }

    /// A store that holds nothing and gives out ids from 1 on.
    pub fn new() -> (store: Store)
        ensures
            store.wf(),
            store@.projects.len() == 0,
            store@.environments.len() == 0,
            store@.features.len() == 0,
            store@.next_project == 1,
            store@.next_environment == 1,
            store@.next_feature == 1,
            store@.next_variant == 1,
    {
        Store {
            projects: Vec::new(),
            environments: Vec::new(),
            features: Vec::new(),
            next_project: 1,
            next_environment: 1,
            next_feature: 1,
            next_variant: 1,
        }
    }

    /// Where the project with the id `id` stands.
    pub(crate) fn find_project(&self, id: u16) -> (at: usize)
        ensures
            at == first(self@.projects, project_with(id)),
            at <= self.projects.len(),
    {
        let mut at: usize = 0;
        while at < self.projects.len() && self.projects[at].id != id
            invariant
                at <= self.projects.len(),
                first(self@.projects, project_with(id)) == position(
                    self@.projects,
                    project_with(id),
                    at as int,
                ),
            decreases self.projects.len() - at,
        {
            at = at + 1;
        }
        at
    }

    /// Where the environment with the id `id` stands.
    pub(crate) fn find_environment(&self, id: u16) -> (at: usize)
        ensures
            at == first(self@.environments, environment_with(id)),
            at <= self.environments.len(),
    {
        let mut at: usize = 0;
        while at < self.environments.len() && self.environments[at].id != id
            invariant
                at <= self.environments.len(),
                first(self@.environments, environment_with(id)) == position(
                    self@.environments,
                    environment_with(id),
                    at as int,
                ),
            decreases self.environments.len() - at,
        {
            at = at + 1;
        }
        at
    }

    /// Where the environment of the project `project_id` that is called
    /// `name` stands.
    pub(crate) fn find_environment_named(&self, project_id: u16, name: &String) -> (at: usize)
        ensures
            at == first(self@.environments, environment_named(project_id, name@)),
            at <= self.environments.len(),
    {
        let mut at: usize = 0;
        while at < self.environments.len() && !(self.environments[at].project_id == project_id
            && self.environments[at].name == *name)
            invariant
                at <= self.environments.len(),
                first(self@.environments, environment_named(project_id, name@)) == position(
                    self@.environments,
                    environment_named(project_id, name@),
                    at as int,
                ),
            decreases self.environments.len() - at,
        {
            at = at + 1;
        }
        at
    }

    /// Where the feature with the id `id` stands.
    pub(crate) fn find_feature(&self, id: u16) -> (at: usize)
        ensures
            at == first(self@.features, feature_with(id)),
            at <= self.features.len(),
    {
        let mut at: usize = 0;
        while at < self.features.len() && self.features[at].id != id
            invariant
                at <= self.features.len(),
                first(self@.features, feature_with(id)) == position(
                    self@.features,
                    feature_with(id),
                    at as int,
                ),
            decreases self.features.len() - at,
        {
            at = at + 1;
        }
        at
    }

    /// Where the feature of the project `project_id` that is called `name`
    /// stands.
    pub(crate) fn find_feature_named(&self, project_id: u16, name: &String) -> (at: usize)
        ensures
            at == first(self@.features, feature_named(project_id, name@)),
            at <= self.features.len(),
    {
        let mut at: usize = 0;
        while at < self.features.len() && !(self.features[at].project_id == project_id
            && self.features[at].name == *name)
            invariant
                at <= self.features.len(),
                first(self@.features, feature_named(project_id, name@)) == position(
                    self@.features,
                    feature_named(project_id, name@),
                    at as int,
                ),
            decreases self.features.len() - at,
        {
            at = at + 1;
        }
        at
    }
}

/// Where the board of the environment `environment_id` stands.
pub(crate) fn find_board(boards: &Vec<Board>, environment_id: u16) -> (at: usize)
    ensures
        at == first(boards@, board_of(environment_id)),
        at <= boards.len(),
{
    let mut at: usize = 0;
    while at < boards.len() && boards[at].environment_id != environment_id
        invariant
            at <= boards.len(),
            first(boards@, board_of(environment_id)) == position(
                boards@,
                board_of(environment_id),
                at as int,
            ),
        decreases boards.len() - at,
    {
        at = at + 1;
    }
    at
}

/// Where the standard variant with the id `id` stands.
pub(crate) fn find_standard(standards: &Vec<StandardRecord>, id: u16) -> (at: usize)
    ensures
        at == first(standards@, standard_with(id)),
        at <= standards.len(),
{
    let mut at: usize = 0;
    while at < standards.len() && standards[at].id != id
        invariant
            at <= standards.len(),
            first(standards@, standard_with(id)) == position(standards@, standard_with(id), at as int),
        decreases standards.len() - at,
    {
        at = at + 1;
    }
    at
}

} // verus!
