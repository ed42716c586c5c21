//! One feature in one environment: the weights and accumulators of its
//! variants, and the variants as a caller sees them.

use vstd::prelude::*;
use crate::distributor::{
    accumulator_sum, accumulator_sum_agrees, fresh, fresh_is_steady, weight_sum,
    weight_sum_agrees, weights_in_range,
};
use crate::model::Variant;
use crate::store::{
    board_ok, board_slots, control_weight, share_sum, share_total, Board, Share, StandardRecord,
};

verus! {

/// The control variant of a board, as a caller sees it.
pub open spec fn control_variant(board: Board) -> Variant {
    Variant {
        id: board.control.id,
        value: board.control.value,
        weight: control_weight(board) as u8,
        accumulator: board.control.accumulator,
        environment_id: Some(board.environment_id),
    }
}

/// A standard variant with its share on a board, as a caller sees it.
pub open spec fn standard_variant(standard: StandardRecord, share: Share) -> Variant {
    Variant {
        id: standard.id,
        value: standard.value,
        weight: share.weight,
        accumulator: share.accumulator,
        environment_id: None,
    }
}

/// The variants of a feature in the environment of `board`: the control
/// variant first, then the standard variants in the order of their
/// creation.
pub open spec fn listing(standards: Seq<StandardRecord>, board: Board) -> Seq<Variant> {
    Seq::new(
        standards.len() + 1,
        |i: int|
            if i == 0 {
                control_variant(board)
            } else {
                standard_variant(standards[i - 1], board.shares@[i - 1])
            },
    )
}

/// Every accumulator of the board stands at the weight of its variant.
pub open spec fn at_rest(board: Board) -> bool {
    &&& board.control.accumulator == control_weight(board)
    &&& forall|j: int|
        0 <= j < board.shares@.len() ==> (#[trigger] board.shares@[j]).accumulator
            == board.shares@[j].weight
}

/// `after` is `before` with every accumulator set to the weight of its
/// variant.
pub open spec fn rebalanced(before: Board, after: Board) -> bool {
    &&& after.environment_id == before.environment_id
    &&& after.control.id == before.control.id
    &&& after.control.value == before.control.value
    &&& after.shares@.len() == before.shares@.len()
    &&& forall|j: int|
        0 <= j < before.shares@.len() ==> (#[trigger] after.shares@[j]).weight
            == before.shares@[j].weight
    &&& at_rest(after)
}

/// No weight is larger than the sum it is part of.
pub proof fn share_within_sum(shares: Seq<Share>, n: int, j: int)
    requires
        0 <= j < n <= shares.len(),
    ensures
        shares[j].weight <= share_sum(shares, n),
        0 <= share_sum(shares, n),
    decreases n,
{
    share_sum_not_negative(shares, n - 1);
    if j < n - 1 {
        share_within_sum(shares, n - 1, j);
    }
}

/// A sum of weights is not negative.
pub proof fn share_sum_not_negative(shares: Seq<Share>, n: int)
    requires
        n <= shares.len(),
    ensures
        0 <= share_sum(shares, n),
    decreases n,
{
    if n > 0 {
        share_sum_not_negative(shares, n - 1);
    }
}

/// Sequences of shares whose first `n` weights agree have the same sum of
/// them.
pub proof fn share_sum_agrees(a: Seq<Share>, b: Seq<Share>, n: int)
    requires
        0 <= n <= a.len(),
        n <= b.len(),
        forall|j: int| 0 <= j < n ==> (#[trigger] a[j]).weight == b[j].weight,
    ensures
        share_sum(a, n) == share_sum(b, n),
    decreases n,
{
    if n > 0 {
        share_sum_agrees(a, b, n - 1);
        assert(a[n - 1].weight == b[n - 1].weight);
    }
}

/// A sum of weights that changed at position `k` alone has changed by as
/// much as that weight.
pub proof fn share_sum_changed(a: Seq<Share>, b: Seq<Share>, k: int, n: int)
    requires
        0 <= k < a.len(),
        a.len() == b.len(),
        0 <= n <= a.len(),
        forall|j: int| 0 <= j < a.len() && j != k ==> (#[trigger] a[j]).weight == b[j].weight,
    ensures
        share_sum(b, n) == share_sum(a, n) + if k < n {
            b[k].weight - a[k].weight
        } else {
            0
        },
    decreases n,
{
    if n > 0 {
        share_sum_changed(a, b, k, n - 1);
        if n - 1 != k {
            assert(a[n - 1].weight == b[n - 1].weight);
        }
    }
}

/// A sum of weights from which position `k` was taken out has fallen by
/// that weight.
pub proof fn share_sum_removed(a: Seq<Share>, k: int, n: int)
    requires
        0 <= k < a.len(),
        0 <= n < a.len(),
    ensures
        share_sum(a.remove(k), n) == if k < n {
            share_sum(a, n + 1) - a[k].weight
        } else {
            share_sum(a, n)
        },
    decreases n,
{
    if n > 0 {
        share_sum_removed(a, k, n - 1);
        if k < n {
            assert(a.remove(k)[n - 1] == a[n]);
            assert(share_sum(a, n + 1) == share_sum(a, n) + a[n].weight);
            assert(share_sum(a, n) == share_sum(a, n - 1) + a[n - 1].weight);
        } else {
            assert(a.remove(k)[n - 1] == a[n - 1]);
        }
    }
}

/// The weights of the slots of a board add up as its shares do.
pub proof fn slot_weights_are_shares(standards: Seq<StandardRecord>, board: Board, n: int)
    requires
        0 <= n <= board.shares@.len(),
    ensures
        weight_sum(board_slots(standards, board), n) == share_sum(board.shares@, n),
    decreases n,
{
    if n > 0 {
        slot_weights_are_shares(standards, board, n - 1);
    }
}

/// A board at rest whose shares add up to 100 at most is in order.
pub proof fn rest_is_order(standards: Seq<StandardRecord>, board: Board, next_variant: u16)
    requires
        board.shares@.len() == standards.len(),
        board.control.id < next_variant,
        share_total(board.shares@) <= 100,
        at_rest(board),
    ensures
        board_ok(standards, board, next_variant),
{
    let s = board_slots(standards, board);
    let n = board.shares@.len() as int;
    slot_weights_are_shares(standards, board, n);
    share_sum_not_negative(board.shares@, n);
    assert forall|i: int| 0 <= i < s.len() implies 0 <= (#[trigger] s[i]).weight <= 100 by {
        if i < n {
            share_within_sum(board.shares@, n, i);
        }
    }
    assert(weights_in_range(s));
    assert(fresh(s));
    fresh_is_steady(s);
}

/// `after` is `before` with a share for one more standard variant: of the
/// weight `weight` and with all accumulators at rest where the variant was
/// created in the environment of the board (`here`), and else of no weight
/// and with nothing else changed.
pub open spec fn extended(before: Board, after: Board, weight: u8, here: bool) -> bool {
    let n = before.shares@.len() as int;
    &&& after.environment_id == before.environment_id
    &&& after.control.id == before.control.id
    &&& after.control.value == before.control.value
    &&& after.shares@.len() == n + 1
    &&& forall|j: int| 0 <= j < n ==> (#[trigger] after.shares@[j]).weight == before.shares@[j].weight
    &&& if here {
        &&& after.shares@[n].weight == weight
        &&& at_rest(after)
    } else {
        &&& after.shares@[n] == (Share { weight: 0, accumulator: 0 })
        &&& after.control.accumulator == before.control.accumulator
        &&& forall|j: int| 0 <= j < n ==> (#[trigger] after.shares@[j]) == before.shares@[j]
    }
}

/// The weights of shares to which one was added add up to what they did,
/// and the new weight.
pub proof fn share_total_extended(before: Seq<Share>, after: Seq<Share>)
    requires
        after.len() == before.len() + 1,
        forall|j: int| 0 <= j < before.len() ==> (#[trigger] after[j]).weight == before[j].weight,
    ensures
        share_total(after) == share_total(before) + after[before.len() as int].weight,
{
    share_sum_agrees(after, before, before.len() as int);
}

/// A board in order stays in order when its feature gains a standard
/// variant, as long as the new weight fits beside the others.
pub proof fn extended_is_ok(
    standards: Seq<StandardRecord>,
    added: StandardRecord,
    before: Board,
    after: Board,
    weight: u8,
    here: bool,
    next_variant: u16,
)
    requires
        board_ok(standards, before, next_variant),
        extended(before, after, weight, here),
        here ==> share_total(before.shares@) + weight <= 100,
        next_variant < u16::MAX,
    ensures
        board_ok(standards.push(added), after, (next_variant + 1) as u16),
        share_total(after.shares@) == share_total(before.shares@) + if here {
            weight as int
        } else {
            0
        },
{
    let grown = standards.push(added);
    let n = before.shares@.len() as int;
    share_total_extended(before.shares@, after.shares@);
    if here {
        rest_is_order(grown, after, (next_variant + 1) as u16);
    } else {
        let s = board_slots(standards, before);
        let t = board_slots(grown, after);
        weight_sum_agrees(t, s, n);
        accumulator_sum_agrees(t, s, n);
        assert(t[n + 1].weight == s[n].weight);
        assert(t[n + 1].accumulator == s[n].accumulator);
        assert(weight_sum(t, n + 1) == weight_sum(t, n) + t[n].weight);
        assert(accumulator_sum(t, n + 1) == accumulator_sum(t, n) + t[n].accumulator);
        assert forall|i: int| 0 <= i < t.len() implies 0 <= (#[trigger] t[i]).weight <= 100 by {
            if i < n {
                assert(t[i].weight == s[i].weight);
            } else if i == n + 1 {
                assert(t[i].weight == s[n].weight);
            }
        }
        assert forall|i: int| 0 <= i < t.len() implies (#[trigger] t[i]).accumulator > t[i].weight
            - 100 by {
            if i < n {
                assert(s[i].accumulator > s[i].weight - 100);
            } else if i == n + 1 {
                assert(s[n].accumulator > s[n].weight - 100);
            }
        }
        assert forall|i: int| 0 <= i < t.len() && (#[trigger] t[i]).weight == 0 implies t[i].accumulator
            == 0 by {
            if i < n {
                assert(t[i] == s[i]);
            } else if i == n + 1 {
                assert(t[i].accumulator == s[n].accumulator && t[i].weight == s[n].weight);
            }
        }
        assert forall|i: int| 0 <= i < t.len() implies 2 * ((#[trigger] t[i]).accumulator
            - t[i].weight) <= 100 + 99 * (t.len() - 2) && 2 * (t[i].accumulator - t[i].weight)
            <= 100 + 99 * (100 - t[i].weight) by {
            if i < n {
                assert(t[i] == s[i]);
                assert(2 * (s[i].accumulator - s[i].weight) <= 100 + 99 * (s.len() - 2));
            } else if i == n + 1 {
                assert(t[i].accumulator == s[n].accumulator && t[i].weight == s[n].weight);
                assert(2 * (s[n].accumulator - s[n].weight) <= 100 + 99 * (s.len() - 2));
            }
        }
    }
}

/// Gives every board a share for one more standard variant: of the weight
/// `weight` on the board of the environment `environment_id`, whose
/// accumulators are then set to rest, and of no weight on the others.
pub fn extend_boards(boards: &mut Vec<Board>, environment_id: u16, weight: u8)
    requires
        forall|k: int|
            0 <= k < old(boards)@.len() ==> (#[trigger] old(boards)@[k]).shares@.len() < u16::MAX,
        forall|k: int|
            0 <= k < old(boards)@.len() && (#[trigger] old(boards)@[k]).environment_id
                == environment_id ==> share_total(old(boards)@[k].shares@) + weight <= 100,
    ensures
        final(boards)@.len() == old(boards)@.len(),
        forall|k: int|
            0 <= k < old(boards)@.len() ==> extended(
                old(boards)@[k],
                #[trigger] final(boards)@[k],
                weight,
                old(boards)@[k].environment_id == environment_id,
            ),
{
    let mut at: usize = 0;
    while at < boards.len()
        invariant
            at <= boards.len(),
            boards@.len() == old(boards)@.len(),
            forall|k: int|
                0 <= k < old(boards)@.len() ==> (#[trigger] old(boards)@[k]).shares@.len()
                    < u16::MAX,
            forall|k: int|
                0 <= k < old(boards)@.len() && (#[trigger] old(boards)@[k]).environment_id
                    == environment_id ==> share_total(old(boards)@[k].shares@) + weight <= 100,
            forall|k: int|
                0 <= k < at ==> extended(
                    old(boards)@[k],
                    #[trigger] boards@[k],
                    weight,
                    old(boards)@[k].environment_id == environment_id,
                ),
            forall|k: int| at <= k < boards@.len() ==> (#[trigger] boards@[k]) == old(boards)@[k],
        decreases boards.len() - at,
    {
        let ghost before = boards@[at as int];
        assert(before == old(boards)@[at as int]);
        let board = &mut boards[at];
        if board.environment_id == environment_id {
            board.shares.push(Share { weight, accumulator: 0 });
            proof {
                share_total_extended(before.shares@, board.shares@);
            }
            rebalance(board);
        } else {
            board.shares.push(Share { weight: 0, accumulator: 0 });
        }
        at = at + 1;
    }
}

/// The slots of a board depend on the ids of the standard variants alone.
pub proof fn board_ok_same_ids(
    before: Seq<StandardRecord>,
    after: Seq<StandardRecord>,
    board: Board,
    next_variant: u16,
)
    requires
        board_ok(before, board, next_variant),
        after.len() == before.len(),
        forall|j: int| 0 <= j < before.len() ==> (#[trigger] after[j]).id == before[j].id,
    ensures
        board_ok(after, board, next_variant),
{
    assert(board_slots(after, board) =~= board_slots(before, board));
}

/// `after` is `before` without the share at position `s`, and with all
/// accumulators at rest.
pub open spec fn shrunk(before: Board, after: Board, s: int) -> bool {
    &&& after.environment_id == before.environment_id
    &&& after.control.id == before.control.id
    &&& after.control.value == before.control.value
    &&& after.shares@.len() == before.shares@.len() - 1
    &&& forall|j: int|
        0 <= j < after.shares@.len() ==> (#[trigger] after.shares@[j]).weight == before.shares@.remove(
            s,
        )[j].weight
    &&& at_rest(after)
}

/// The weights of shares of which one was taken out add up to what they
/// did, less that weight.
pub proof fn share_total_shrunk(before: Seq<Share>, after: Seq<Share>, s: int)
    requires
        0 <= s < before.len(),
        after.len() == before.len() - 1,
        forall|j: int| 0 <= j < after.len() ==> (#[trigger] after[j]).weight == before.remove(
            s,
        )[j].weight,
    ensures
        share_total(after) == share_total(before) - before[s].weight,
{
    share_sum_agrees(after, before.remove(s), after.len() as int);
    share_sum_removed(before, s, after.len() as int);
}

/// A board in order stays in order when its feature loses a standard
/// variant.
pub proof fn shrunk_is_ok(
    standards: Seq<StandardRecord>,
    before: Board,
    after: Board,
    s: int,
    next_variant: u16,
)
    requires
        board_ok(standards, before, next_variant),
        0 <= s < standards.len(),
        shrunk(before, after, s),
    ensures
        board_ok(standards.remove(s), after, next_variant),
{
    share_total_shrunk(before.shares@, after.shares@, s);
    rest_is_order(standards.remove(s), after, next_variant);
}

/// Takes the share at position `s` from every board and sets the
/// accumulators of every board to rest.
pub fn shrink_boards(boards: &mut Vec<Board>, s: usize)
    requires
        forall|k: int|
            0 <= k < old(boards)@.len() ==> s < (#[trigger] old(boards)@[k]).shares@.len()
                <= u16::MAX,
        forall|k: int|
            0 <= k < old(boards)@.len() ==> share_total((#[trigger] old(boards)@[k]).shares@)
                <= 100,
    ensures
        final(boards)@.len() == old(boards)@.len(),
        forall|k: int|
            0 <= k < old(boards)@.len() ==> shrunk(
                old(boards)@[k],
                #[trigger] final(boards)@[k],
                s as int,
            ),
{
    let mut at: usize = 0;
    while at < boards.len()
        invariant
            at <= boards.len(),
            boards@.len() == old(boards)@.len(),
            forall|k: int|
                0 <= k < old(boards)@.len() ==> s < (#[trigger] old(boards)@[k]).shares@.len()
                    <= u16::MAX,
            forall|k: int|
                0 <= k < old(boards)@.len() ==> share_total((#[trigger] old(boards)@[k]).shares@)
                    <= 100,
            forall|k: int|
                0 <= k < at ==> shrunk(old(boards)@[k], #[trigger] boards@[k], s as int),
            forall|k: int| at <= k < boards@.len() ==> (#[trigger] boards@[k]) == old(boards)@[k],
        decreases boards.len() - at,
    {
        let ghost before = boards@[at as int];
        assert(before == old(boards)@[at as int]);
        let board = &mut boards[at];
        board.shares.remove(s);
        proof {
            share_total_shrunk(before.shares@, board.shares@, s as int);
            share_sum_not_negative(before.shares@, before.shares@.len() as int);
            share_within_sum(before.shares@, before.shares@.len() as int, s as int);
        }
        rebalance(board);
        at = at + 1;
    }
}

/// Shares without weight add up to nothing.
pub proof fn no_weight_no_sum(shares: Seq<Share>, n: int)
    requires
        0 <= n <= shares.len(),
        forall|j: int| 0 <= j < n ==> (#[trigger] shares[j]).weight == 0,
    ensures
        share_sum(shares, n) == 0,
    decreases n,
{
    if n > 0 {
        no_weight_no_sum(shares, n - 1);
        assert(shares[n - 1].weight == 0);
    }
}

/// `n` shares without weight, for a board on which no standard variant has
/// been given a weight yet.
pub fn idle_shares(n: usize) -> (shares: Vec<Share>)
    ensures
        shares@.len() == n,
        forall|j: int|
            0 <= j < n ==> (#[trigger] shares@[j]) == (Share { weight: 0, accumulator: 0 }),
        share_total(shares@) == 0,
{
    let mut shares: Vec<Share> = Vec::new();
    let mut at: usize = 0;
    while at < n
        invariant
            at <= n,
            shares@.len() == at,
            forall|j: int|
                0 <= j < at ==> (#[trigger] shares@[j]) == (Share { weight: 0, accumulator: 0 }),
        decreases n - at,
    {
        shares.push(Share { weight: 0, accumulator: 0 });
        at = at + 1;
    }
    proof {
        no_weight_no_sum(shares@, n as int);
    }
    shares
}

/// The sum of the weights of `shares`.
pub fn total_of(shares: &Vec<Share>) -> (total: u32)
    requires
        shares.len() <= u16::MAX,
    ensures
        total == share_total(shares@),
{
    let mut total: u32 = 0;
    let mut at: usize = 0;
    while at < shares.len()
        invariant
            at <= shares.len(),
            shares.len() <= u16::MAX,
            total == share_sum(shares@, at as int),
            total <= 255 * at,
        decreases shares.len() - at,
    {
        total = total + shares[at].weight as u32;
        at = at + 1;
    }
    total
}

/// Sets every accumulator of `board` to the weight of its variant.
pub fn rebalance(board: &mut Board)
    requires
        old(board).shares.len() <= u16::MAX,
        share_total(old(board).shares@) <= 100,
    ensures
        rebalanced(*old(board), *final(board)),
        share_total(final(board).shares@) == share_total(old(board).shares@),
{
    let total = total_of(&board.shares);
    let mut at: usize = 0;
    while at < board.shares.len()
        invariant
            at <= board.shares.len(),
            board.shares@.len() == old(board).shares@.len(),
            board.environment_id == old(board).environment_id,
            board.control == old(board).control,
            forall|j: int|
                0 <= j < board.shares@.len() ==> (#[trigger] board.shares@[j]).weight == old(
                    board,
                ).shares@[j].weight,
            forall|j: int|
                0 <= j < at ==> (#[trigger] board.shares@[j]).accumulator == board.shares@[j].weight,
        decreases board.shares.len() - at,
    {
        let weight = board.shares[at].weight;
        board.shares[at].accumulator = weight as i32;
        at = at + 1;
    }
    board.control.accumulator = (100 - total) as i32;
    proof {
        share_sum_agrees(old(board).shares@, board.shares@, board.shares@.len() as int);
    }
}

/// The variants of a feature in the environment of `board`.
pub fn list(standards: &Vec<StandardRecord>, board: &Board) -> (variants: Vec<Variant>)
    requires
        board.shares@.len() == standards@.len(),
        standards.len() <= u16::MAX,
        0 <= control_weight(*board) <= 100,
    ensures
        variants@ == listing(standards@, *board),
{
    let mut variants: Vec<Variant> = Vec::new();
    variants.push(control(board));
    let mut at: usize = 0;
    while at < standards.len()
        invariant
            at <= standards.len(),
            board.shares@.len() == standards@.len(),
            variants@.len() == at + 1,
            forall|i: int| 0 <= i <= at ==> (#[trigger] variants@[i]) == listing(standards@, *board)[i],
        decreases standards.len() - at,
    {
        variants.push(
            Variant {
                id: standards[at].id,
                value: standards[at].value.clone(),
                weight: board.shares[at].weight,
                accumulator: board.shares[at].accumulator,
                environment_id: None,
            },
        );
        at = at + 1;
    }
    assert(variants@ =~= listing(standards@, *board));
    variants
}

/// The control variant of `board`.
pub fn control(board: &Board) -> (variant: Variant)
    requires
        0 <= control_weight(*board) <= 100,
        board.shares.len() <= u16::MAX,
    ensures
        variant == control_variant(*board),
{
    let total = total_of(&board.shares);
    Variant {
        id: board.control.id,
        value: board.control.value.clone(),
        weight: (100 - total) as u8,
        accumulator: board.control.accumulator,
        environment_id: Some(board.environment_id),
    }
}

} // verus!
