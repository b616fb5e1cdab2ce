//! What follows from the contracts of the board's operations: how a placed
//! ship looks, when an overlap is signalled and how it goes away, and how
//! attacks add up.

use vstd::prelude::*;
use crate::board::{AttackOutcome, Board, in_run, outcome_of, signals_overlap, still_afloat};
use crate::ship::{Ship, ShipType};

verus! {

/// The position of the cell with the number `i` in the run from `(x, y)`.
pub open spec fn run_cell(x: int, y: int, i: int, horizontal: bool) -> (int, int) {
    if horizontal {
        (x + i, y)
    } else {
        (x, y + i)
    }
}

/// A ship laid over cells that held water or its own kind occupies exactly
/// its run: each of the `amount` cells from `(x, y)` holds the ship's kind
/// and is undamaged, and every other cell is as it was.
pub proof fn lemma_ship_occupies_its_run(
    pre: Board,
    post: Board,
    x: int,
    y: int,
    kind: ShipType,
    amount: int,
    horizontal: bool,
)
    requires
        pre.run_fits(x, y, amount, horizontal),
        pre.placed_into(post, x, y, kind, amount, horizontal),
        forall|i: int|
            0 <= i < amount ==> ({
                let c = #[trigger] run_cell(x, y, i, horizontal);
                pre.cell(c.0, c.1).ship_type == ShipType::Empty || pre.cell(c.0, c.1).ship_type == kind
            }),
    ensures
        forall|i: int|
            0 <= i < amount ==> ({
                let c = #[trigger] run_cell(x, y, i, horizontal);
                post.cell(c.0, c.1) == (Ship { ship_type: kind, damaged: false })
            }),
        forall|cx: int, cy: int|
            pre.on_board(cx, cy) && !in_run(cx, cy, x, y, amount, horizontal) ==> #[trigger] post.cell(
                cx,
                cy,
            ) == pre.cell(cx, cy),
{
    assert forall|i: int| 0 <= i < amount implies ({
        let c = #[trigger] run_cell(x, y, i, horizontal);
        post.cell(c.0, c.1) == (Ship { ship_type: kind, damaged: false })
    }) by {
        let c = run_cell(x, y, i, horizontal);
        assert(pre.on_board(c.0, c.1));
        assert(in_run(c.0, c.1, x, y, amount, horizontal));
        let after = post.cell(c.0, c.1);
    }
}

/// Laying the same run a second time settles it: whatever the run held at
/// first, each of its cells then holds the kind and is undamaged.
pub proof fn lemma_second_placing_settles(
    pre: Board,
    mid: Board,
    post: Board,
    x: int,
    y: int,
    kind: ShipType,
    amount: int,
    horizontal: bool,
)
    requires
        pre.placed_into(mid, x, y, kind, amount, horizontal),
        mid.placed_into(post, x, y, kind, amount, horizontal),
    ensures
        forall|cx: int, cy: int|
            pre.on_board(cx, cy) ==> #[trigger] post.cell(cx, cy) == if in_run(
                cx,
                cy,
                x,
                y,
                amount,
                horizontal,
            ) {
                Ship { ship_type: kind, damaged: false }
            } else {
                pre.cell(cx, cy)
            },
{
    assert forall|cx: int, cy: int| pre.on_board(cx, cy) implies #[trigger] post.cell(cx, cy)
        == if in_run(cx, cy, x, y, amount, horizontal) {
        Ship { ship_type: kind, damaged: false }
    } else {
        pre.cell(cx, cy)
    } by {
        assert(mid.on_board(cx, cy));
        let between = mid.cell(cx, cy);
    }
}

/// A ship laid over a cell that another kind occupies makes the board signal
/// an overlap.
pub proof fn lemma_overlap_is_signalled(
    pre: Board,
    post: Board,
    x: int,
    y: int,
    kind: ShipType,
    amount: int,
    horizontal: bool,
    cx: int,
    cy: int,
)
    requires
        pre.placed_into(post, x, y, kind, amount, horizontal),
        !kind.is_selection(),
        pre.on_board(cx, cy),
        in_run(cx, cy, x, y, amount, horizontal),
        pre.cell(cx, cy).ship_type != ShipType::Empty,
        pre.cell(cx, cy).ship_type != kind,
    ensures
        post.has_overlap(),
{
    assert(post.on_board(cx, cy));
    assert(signals_overlap(post.cell(cx, cy)));
}

/// Putting back the kinds that were read from a run before a ship was laid
/// over it removes the overlap signal: on a board that signalled none before,
/// none is signalled after, every cell has its kind again, and every cell that
/// was undamaged is exactly as it was.
pub proof fn lemma_restore_removes_overlap(
    pre: Board,
    mid: Board,
    post: Board,
    x: int,
    y: int,
    kind: ShipType,
    amount: int,
    horizontal: bool,
)
    requires
        !pre.has_overlap(),
        pre.placed_into(mid, x, y, kind, amount, horizontal),
        mid.restored_into(post, x, y, pre.run_kinds(x, y, amount, horizontal), horizontal),
    ensures
        !post.has_overlap(),
        pre.cleared_into(post),
        forall|cx: int, cy: int|
            pre.on_board(cx, cy) && !pre.cell(cx, cy).damaged ==> #[trigger] post.cell(cx, cy)
                == pre.cell(cx, cy),
{
    let kinds = pre.run_kinds(x, y, amount, horizontal);
    assert forall|cx: int, cy: int| pre.on_board(cx, cy) implies #[trigger] post.cell(cx, cy)
        == if in_run(cx, cy, x, y, kinds.len() as int, horizontal) {
        Ship { ship_type: kinds[(cx - x) + (cy - y)], damaged: false }
    } else {
        pre.cell(cx, cy)
    } by {
        assert(mid.on_board(cx, cy));
        let between = mid.cell(cx, cy);
    }
    pre.lemma_restore_is_clearing(post, x, y, amount, horizontal);
    pre.lemma_cleared_same_placements(post, x, y, kind, horizontal);
}

/// A board has one cursor: where the only cursor marker was on the cell that
/// the cursor leaves, that cell has its kind again after the move, and the
/// only cursor marker is on the cell that the cursor went to.
pub proof fn lemma_one_cursor(
    pre: Board,
    post: Board,
    from_x: int,
    from_y: int,
    previous: ShipType,
    x: int,
    y: int,
)
    requires
        pre.on_board(from_x, from_y),
        pre.on_board(x, y),
        !previous.is_selection(),
        forall|cx: int, cy: int|
            pre.on_board(cx, cy) && !(cx == from_x && cy == from_y) ==> !(#[trigger] pre.cell(
                cx,
                cy,
            )).ship_type.is_selection(),
        pre.selection_moved_into(post, from_x, from_y, previous, x, y),
    ensures
        post.cell(x, y).ship_type.is_selection(),
        !(x == from_x && y == from_y) ==> post.cell(from_x, from_y) == (Ship {
            ship_type: previous,
            damaged: pre.cell(from_x, from_y).damaged,
        }),
        forall|cx: int, cy: int|
            post.on_board(cx, cy) && !(cx == x && cy == y) ==> !(#[trigger] post.cell(
                cx,
                cy,
            )).ship_type.is_selection(),
{
    assert(post.on_board(x, y));
    let marked = post.cell(x, y);
    assert(post.on_board(from_x, from_y));
    let left = post.cell(from_x, from_y);
    assert forall|cx: int, cy: int| post.on_board(cx, cy) && !(cx == x && cy == y) implies !(
    #[trigger] post.cell(cx, cy)).ship_type.is_selection() by {
        let before = pre.cell(cx, cy);
    }
}

/// An attack damages at most the cell it aims at, changes no kind and
/// repairs nothing.
pub proof fn lemma_attack_only_adds_damage(pre: Board, post: Board, x: int, y: int)
    requires
        pre.attacked_into(post, x, y),
    ensures
        forall|cx: int, cy: int|
            pre.on_board(cx, cy) ==> (#[trigger] post.cell(cx, cy)).ship_type == pre.cell(
                cx,
                cy,
            ).ship_type && (pre.cell(cx, cy).damaged ==> post.cell(cx, cy).damaged),
{
    assert forall|cx: int, cy: int| pre.on_board(cx, cy) implies (#[trigger] post.cell(
        cx,
        cy,
    )).ship_type == pre.cell(cx, cy).ship_type && (pre.cell(cx, cy).damaged ==> post.cell(
        cx,
        cy,
    ).damaged) by {
        let before = pre.cell(cx, cy);
    }
}

/// Defeat is final: on a board where nothing stands any more, nothing stands
/// after a further attack.
pub proof fn lemma_defeat_is_final(pre: Board, post: Board, x: int, y: int)
    requires
        pre.is_defeated(),
        pre.attacked_into(post, x, y),
    ensures
        post.is_defeated(),
{
    assert forall|cx: int, cy: int| post.on_board(cx, cy) implies !still_afloat(
        #[trigger] post.cell(cx, cy),
    ) by {
        assert(!still_afloat(pre.cell(cx, cy)));
    }
}

/// A board is defeated by the attack that hits the last cell that stood.
pub proof fn lemma_last_hit_defeats(pre: Board, post: Board, x: int, y: int)
    requires
        pre.on_board(x, y),
        pre.attacked_into(post, x, y),
        forall|cx: int, cy: int|
            pre.on_board(cx, cy) && !(cx == x && cy == y) ==> !still_afloat(
                #[trigger] pre.cell(cx, cy),
            ),
    ensures
        post.is_defeated(),
{
    assert forall|cx: int, cy: int| post.on_board(cx, cy) implies !still_afloat(
        #[trigger] post.cell(cx, cy),
    ) by {
        let before = pre.cell(cx, cy);
    }
}

/// An attack on open water is a miss and changes nothing: the cell does not
/// become damaged, and the next attack on it is a miss again.
pub proof fn lemma_attack_on_water(pre: Board, post: Board, x: int, y: int)
    requires
        pre.on_board(x, y),
        pre.cell(x, y).ship_type == ShipType::Empty,
        pre.attacked_into(post, x, y),
    ensures
        outcome_of(pre.cell(x, y)) == AttackOutcome::Miss,
        post.same_as(pre),
{
    assert forall|cx: int, cy: int| post.on_board(cx, cy) implies #[trigger] post.cell(cx, cy)
        == pre.cell(cx, cy) by {
        let before = pre.cell(cx, cy);
    }
}

/// After one attack on a cell that holds more than water, every further
/// attack on it reports that it was attacked already, and changes nothing.
pub proof fn lemma_repeated_attack(pre: Board, mid: Board, post: Board, x: int, y: int)
    requires
        pre.on_board(x, y),
        pre.cell(x, y).ship_type != ShipType::Empty,
        pre.attacked_into(mid, x, y),
        mid.attacked_into(post, x, y),
    ensures
        outcome_of(pre.cell(x, y)) != AttackOutcome::Miss,
        outcome_of(mid.cell(x, y)) == AttackOutcome::AlreadyAttacked,
        outcome_of(post.cell(x, y)) == AttackOutcome::AlreadyAttacked,
        post.same_as(mid),
{
    assert(mid.on_board(x, y));
    let between = mid.cell(x, y);
    assert(post.on_board(x, y));
    let after = post.cell(x, y);
    assert forall|cx: int, cy: int| post.on_board(cx, cy) implies #[trigger] post.cell(cx, cy)
        == mid.cell(cx, cy) by {
        let m = mid.cell(cx, cy);
    }
}

} // verus!
