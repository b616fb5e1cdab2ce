//! Why a fleet always finds room on a blank board of ten rows and columns
//! or more. The left and the right five cells of each of the first ten rows
//! are twenty blocks that share no cell; the four ships that are placed before
//! the last one lie on twelve cells, so they leave a block untouched, and a
//! block is long enough for any ship.

use vstd::prelude::*;
use vstd::set_lib::{lemma_int_range, lemma_len_subset, lemma_len_union, set_int_range};
use crate::board::{Board, in_run, signals_overlap};
use crate::fleet::{Berth, FLEET_SIZE, covered, covers, fleet_kind, fleet_laid, lemma_fleet_on_blank_board};
use crate::ship::ShipType;

verus! {

/// The side length from which a blank board has room for a fleet wherever
/// its first ships are placed.
pub const ROOMY_BOARD_SIZE: u32 = 10;

/// The number of blocks.
pub open spec fn block_count() -> int {
    20
}

/// The number of the block that holds `(cx, cy)`, for a cell of the first
/// ten rows and columns.
pub open spec fn block_of(cx: int, cy: int) -> int {
    2 * cy + if cx >= 5 {
        1int
    } else {
        0int
    }
}

/// Whether `(cx, cy)` lies in a block.
pub open spec fn in_blocks(cx: int, cy: int) -> bool {
    0 <= cx < 10 && 0 <= cy < 10
}

/// The block in the column half `half` of the row `y + i`.
pub open spec fn row_block(y: int, i: int, half: int) -> int {
    2 * (y + i) + half
}

/// The blocks in the column half `half` of the `n` rows from `y`.
pub open spec fn column_blocks(y: int, half: int, n: int) -> Set<int>
    decreases n,
{
    if n <= 0 {
        Set::empty()
    } else {
        column_blocks(y, half, n - 1).insert(row_block(y, n - 1, half))
    }
}

/// The blocks that a ship of `length` cells at `berth` can touch.
pub open spec fn footprint(berth: Berth, length: int) -> Set<int> {
    if berth.2 {
        Set::empty().insert(2 * berth.1).insert(2 * berth.1 + 1)
    } else {
        column_blocks(
            berth.1,
            if berth.0 >= 5 {
                1int
            } else {
                0int
            },
            length,
        )
    }
}

/// The blocks that the first `n` ships of a fleet can touch.
pub open spec fn touched_blocks(berths: Seq<Berth>, n: int) -> Set<int>
    decreases n,
{
    if n <= 0 {
        Set::empty()
    } else {
        touched_blocks(berths, n - 1).union(
            footprint(berths[n - 1], fleet_kind(n - 1).size() as int),
        )
    }
}

/// The number of cells of the first `n` ships of a fleet.
pub open spec fn fleet_cells(n: int) -> int
    decreases n,
{
    if n <= 0 {
        0
    } else {
        fleet_cells(n - 1) + fleet_kind(n - 1).size()
    }
}

proof fn lemma_column_blocks(y: int, half: int, n: int)
    requires
        0 <= n,
    ensures
        column_blocks(y, half, n).finite(),
        column_blocks(y, half, n).len() <= n,
        forall|i: int| 0 <= i < n ==> column_blocks(y, half, n).contains(#[trigger] row_block(y, i, half)),
    decreases n,
{
    if n > 0 {
        lemma_column_blocks(y, half, n - 1);
        let rest = column_blocks(y, half, n - 1);
        let last = row_block(y, n - 1, half);
        assert(column_blocks(y, half, n) == rest.insert(last));
        assert forall|i: int| 0 <= i < n implies column_blocks(y, half, n).contains(
            #[trigger] row_block(y, i, half),
        ) by {
            if i < n - 1 {
                assert(rest.contains(row_block(y, i, half)));
            }
        }
    }
}

proof fn lemma_footprint(berth: Berth, length: int)
    requires
        2 <= length,
    ensures
        footprint(berth, length).finite(),
        footprint(berth, length).len() <= length,
        forall|cx: int, cy: int|
            in_blocks(cx, cy) && in_run(cx, cy, berth.0, berth.1, length, berth.2) ==> footprint(
                berth,
                length,
            ).contains(#[trigger] block_of(cx, cy)),
{
    if berth.2 {
        let one = Set::<int>::empty().insert(2 * berth.1);
        assert(one.len() <= 1);
        assert(one.insert(2 * berth.1 + 1).len() <= 2);
    } else {
        let half = if berth.0 >= 5 {
            1int
        } else {
            0int
        };
        lemma_column_blocks(berth.1, half, length);
        assert forall|cx: int, cy: int|
            in_blocks(cx, cy) && in_run(
                cx,
                cy,
                berth.0,
                berth.1,
                length,
                berth.2,
            ) implies footprint(berth, length).contains(#[trigger] block_of(cx, cy)) by {
            let i = cy - berth.1;
            assert(block_of(cx, cy) == row_block(berth.1, i, half));
        }
    }
}

proof fn lemma_touched_blocks(berths: Seq<Berth>, n: int)
    requires
        0 <= n <= berths.len(),
        n <= FLEET_SIZE,
    ensures
        touched_blocks(berths, n).finite(),
        touched_blocks(berths, n).len() <= fleet_cells(n),
        forall|k: int, cx: int, cy: int|
            0 <= k < n && in_blocks(cx, cy) && #[trigger] covers(berths, k, cx, cy) ==> touched_blocks(
                berths,
                n,
            ).contains(block_of(cx, cy)),
    decreases n,
{
    if n > 0 {
        lemma_touched_blocks(berths, n - 1);
        let length = fleet_kind(n - 1).size() as int;
        lemma_footprint(berths[n - 1], length);
        let rest = touched_blocks(berths, n - 1);
        let added = footprint(berths[n - 1], length);
        lemma_len_union(rest, added);
        assert forall|k: int, cx: int, cy: int|
            0 <= k < n && in_blocks(cx, cy) && #[trigger] covers(
                berths,
                k,
                cx,
                cy,
            ) implies touched_blocks(berths, n).contains(block_of(cx, cy)) by {
            if k < n - 1 {
                assert(rest.contains(block_of(cx, cy)));
            } else {
                assert(added.contains(block_of(cx, cy)));
            }
        }
    }
}

proof fn lemma_fleet_cells(n: int)
    requires
        0 <= n < FLEET_SIZE,
    ensures
        fleet_cells(n) <= 12,
{
    assert(fleet_cells(0) == 0);
    assert(fleet_cells(1) == 2);
    assert(fleet_cells(2) == 5);
    assert(fleet_cells(3) == 8);
    assert(fleet_cells(4) == 12);
}

/// On a board of ten rows and columns or more that was blank before the
/// first ships of a fleet were placed, the next ship of the fleet can be
/// placed somewhere, wherever the ships before it lie.
pub proof fn lemma_room_for_next_ship(pre: Board, cur: Board, berths: Seq<Berth>)
    requires
        pre.is_blank(),
        pre.size() >= ROOMY_BOARD_SIZE,
        fleet_laid(pre, cur, berths),
        berths.len() < FLEET_SIZE,
    ensures
        exists|x: int, y: int, horizontal: bool|
            #[trigger] cur.can_place(x, y, fleet_kind(berths.len() as int), horizontal),
{
    let n = berths.len() as int;
    let kind = fleet_kind(n);
    let length = kind.size() as int;
    let touched = touched_blocks(berths, n);
    let blocks = set_int_range(0, block_count());
    lemma_touched_blocks(berths, n);
    lemma_fleet_cells(n);
    lemma_int_range(0, block_count());
    if blocks.subset_of(touched) {
        lemma_len_subset(blocks, touched);
    }
    let b = choose|b: int| blocks.contains(b) && !touched.contains(b);
    let y = b / 2;
    let x = 5 * (b % 2);
    lemma_fleet_on_blank_board(pre, cur, berths);
    assert forall|cx: int, cy: int| cur.on_board(cx, cy) implies if in_run(
        cx,
        cy,
        x,
        y,
        length,
        true,
    ) {
        (#[trigger] cur.cell(cx, cy)).ship_type == ShipType::Empty || cur.cell(cx, cy).ship_type
            == kind || kind.is_selection()
    } else {
        !signals_overlap(cur.cell(cx, cy))
    } by {
        if in_run(cx, cy, x, y, length, true) {
            assert(in_blocks(cx, cy));
            assert(block_of(cx, cy) == b);
            if covered(berths, cx, cy) {
                let k = choose|k: int| 0 <= k < berths.len() && #[trigger] covers(berths, k, cx, cy);
                assert(touched.contains(block_of(cx, cy)));
            }
        }
    }
    assert(cur.can_place(x, y, kind, true));
}

} // verus!
