//! What it means that a fleet stands on a board: one ship of each of the five
//! kinds, each on a straight run of cells, no two of them sharing a cell.

use vstd::prelude::*;
use crate::board::{Board, in_run};
use crate::ship::{Ship, ShipType};

verus! {

/// The number of ships in a fleet.
pub const FLEET_SIZE: u32 = 5;

/// Where a ship lies: the column and the row of its first cell, and whether
/// it extends to the right rather than downwards.
pub type Berth = (int, int, bool);

/// The kinds of a fleet in the order of their placement, from the smallest
/// ship to the largest.
pub open spec fn fleet_kind(k: int) -> ShipType {
    if k == 0 {
        ShipType::Destroyer
    } else if k == 1 {
        ShipType::Submarine
    } else if k == 2 {
        ShipType::Cruiser
    } else if k == 3 {
        ShipType::Battleship
    } else {
        ShipType::Carrier
    }
}

/// Whether the ship with the number `k` lies on `(cx, cy)`.
pub open spec fn covers(berths: Seq<Berth>, k: int, cx: int, cy: int) -> bool {
    in_run(cx, cy, berths[k].0, berths[k].1, fleet_kind(k).size() as int, berths[k].2)
}

/// Whether any of the ships lies on `(cx, cy)`.
pub open spec fn covered(berths: Seq<Berth>, cx: int, cy: int) -> bool {
    exists|k: int| 0 <= k < berths.len() && #[trigger] covers(berths, k, cx, cy)
}

/// `post` is `pre` after the first ships of a fleet were placed at `berths`,
/// one for each berth: every ship lies on the board, over cells that held
/// water or its own kind, and its cells hold its kind undamaged; every cell
/// that no ship lies on keeps its kind and gains no damage.
pub open spec fn fleet_laid(pre: Board, post: Board, berths: Seq<Berth>) -> bool {
    &&& berths.len() <= FLEET_SIZE
    &&& post.size() == pre.size()
    &&& forall|k: int|
        0 <= k < berths.len() ==> pre.run_fits(
            (#[trigger] berths[k]).0,
            berths[k].1,
            fleet_kind(k).size() as int,
            berths[k].2,
        )
    &&& forall|k: int, cx: int, cy: int|
        0 <= k < berths.len() && pre.on_board(cx, cy) && #[trigger] covers(berths, k, cx, cy) ==> {
            &&& post.cell(cx, cy) == (Ship { ship_type: fleet_kind(k), damaged: false })
            &&& pre.cell(cx, cy).ship_type == ShipType::Empty || pre.cell(cx, cy).ship_type
                == fleet_kind(k)
        }
    &&& forall|cx: int, cy: int|
        pre.on_board(cx, cy) && !covered(berths, cx, cy) ==> (#[trigger] post.cell(cx, cy)).ship_type
            == pre.cell(cx, cy).ship_type && (post.cell(cx, cy).damaged ==> pre.cell(cx, cy).damaged)
}

/// Clearing damage leaves the ships that were placed where they are.
pub proof fn lemma_fleet_cleared(pre: Board, mid: Board, post: Board, berths: Seq<Berth>)
    requires
        fleet_laid(pre, mid, berths),
        mid.cleared_into(post),
    ensures
        fleet_laid(pre, post, berths),
{
    assert forall|k: int, cx: int, cy: int|
        0 <= k < berths.len() && pre.on_board(cx, cy) && #[trigger] covers(
            berths,
            k,
            cx,
            cy,
        ) implies post.cell(cx, cy) == (Ship { ship_type: fleet_kind(k), damaged: false }) by {
        assert(mid.on_board(cx, cy));
        let after = post.cell(cx, cy);
    }
    assert forall|cx: int, cy: int| pre.on_board(cx, cy) && !covered(berths, cx, cy) implies (
    #[trigger] post.cell(cx, cy)).ship_type == pre.cell(cx, cy).ship_type && (post.cell(cx, cy).damaged
        ==> pre.cell(cx, cy).damaged) by {
        assert(mid.on_board(cx, cy));
        let between = mid.cell(cx, cy);
    }
}

/// The next ship of a fleet, placed where it can be placed, joins the ships
/// that were placed before it without touching any of them.
pub proof fn lemma_fleet_extend(
    pre: Board,
    mid: Board,
    post: Board,
    berths: Seq<Berth>,
    x: int,
    y: int,
    horizontal: bool,
)
    requires
        fleet_laid(pre, mid, berths),
        berths.len() < FLEET_SIZE,
        mid.can_place(x, y, fleet_kind(berths.len() as int), horizontal),
        mid.ship_laid(post, x, y, fleet_kind(berths.len() as int), horizontal),
    ensures
        fleet_laid(pre, post, berths.push((x, y, horizontal))),
{
    let n = berths.len() as int;
    let kind = fleet_kind(n);
    let longer = berths.push((x, y, horizontal));
    assert forall|k: int| 0 <= k < longer.len() implies pre.run_fits(
        (#[trigger] longer[k]).0,
        longer[k].1,
        fleet_kind(k).size() as int,
        longer[k].2,
    ) by {
        if k < n {
            assert(longer[k] == berths[k]);
        }
    }
    assert forall|k: int, cx: int, cy: int|
        0 <= k < longer.len() && pre.on_board(cx, cy) && #[trigger] covers(longer, k, cx, cy) implies {
        &&& post.cell(cx, cy) == (Ship { ship_type: fleet_kind(k), damaged: false })
        &&& pre.cell(cx, cy).ship_type == ShipType::Empty || pre.cell(cx, cy).ship_type == fleet_kind(
            k,
        )
    } by {
        assert(mid.on_board(cx, cy));
        let between = mid.cell(cx, cy);
        let after = post.cell(cx, cy);
        if k < n {
            assert(longer[k] == berths[k]);
            assert(covers(berths, k, cx, cy));
        } else {
            if covered(berths, cx, cy) {
                let j = choose|j: int| 0 <= j < berths.len() && #[trigger] covers(berths, j, cx, cy);
                assert(between.ship_type == fleet_kind(j));
            }
        }
    }
    assert forall|cx: int, cy: int| pre.on_board(cx, cy) && !covered(longer, cx, cy) implies (
    #[trigger] post.cell(cx, cy)).ship_type == pre.cell(cx, cy).ship_type && (post.cell(cx, cy).damaged
        ==> pre.cell(cx, cy).damaged) by {
        assert(mid.on_board(cx, cy));
        let between = mid.cell(cx, cy);
        assert(!covers(longer, n, cx, cy));
        if covered(berths, cx, cy) {
            let j = choose|j: int| 0 <= j < berths.len() && #[trigger] covers(berths, j, cx, cy);
            assert(longer[j] == berths[j]);
            assert(covers(longer, j, cx, cy));
        }
    }
}

/// On a board that was blank, a whole fleet is all there is: a cell holds a
/// ship's kind exactly if that ship lies on it, every other cell is water,
/// and nothing is damaged.
pub proof fn lemma_fleet_on_blank_board(pre: Board, post: Board, berths: Seq<Berth>)
    requires
        pre.is_blank(),
        fleet_laid(pre, post, berths),
    ensures
        forall|k: int, cx: int, cy: int|
            0 <= k < berths.len() && post.on_board(cx, cy) ==> (#[trigger] covers(berths, k, cx, cy)
                <==> post.cell(cx, cy).ship_type == fleet_kind(k)),
        forall|cx: int, cy: int|
            post.on_board(cx, cy) ==> !(#[trigger] post.cell(cx, cy)).damaged && (covered(
                berths,
                cx,
                cy,
            ) || post.cell(cx, cy).ship_type == ShipType::Empty),
        !post.has_overlap(),
{
    assert forall|k: int, cx: int, cy: int|
        0 <= k < berths.len() && post.on_board(cx, cy) implies (#[trigger] covers(berths, k, cx, cy)
        <==> post.cell(cx, cy).ship_type == fleet_kind(k)) by {
        assert(pre.on_board(cx, cy));
        let before = pre.cell(cx, cy);
        let after = post.cell(cx, cy);
        if !covers(berths, k, cx, cy) && after.ship_type == fleet_kind(k) {
            if covered(berths, cx, cy) {
                let j = choose|j: int| 0 <= j < berths.len() && #[trigger] covers(berths, j, cx, cy);
            }
        }
    }
    assert forall|cx: int, cy: int| post.on_board(cx, cy) implies !(#[trigger] post.cell(
        cx,
        cy,
    )).damaged && (covered(berths, cx, cy) || post.cell(cx, cy).ship_type == ShipType::Empty) by {
        assert(pre.on_board(cx, cy));
        let before = pre.cell(cx, cy);
        if covered(berths, cx, cy) {
            let j = choose|j: int| 0 <= j < berths.len() && #[trigger] covers(berths, j, cx, cy);
        }
    }
}

} // verus!
