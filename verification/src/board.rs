//! The square grid of cells: creation, cell access, runs of cells, attacks
//! and the queries that decide overlap and defeat.

use vstd::prelude::*;
use crate::ship::{Ship, ShipType};

verus! {

/// Why a board operation was refused.
#[derive(Clone, Copy, PartialEq, Eq, Structural, Debug)]
pub enum BoardError {
    /// A coordinate is not smaller than the board's size.
    OutOfBounds,
    /// A ship would run off the grid or overlap what is already there.
    InvalidPlacement,
}

/// What an attack on a cell did.
#[derive(Clone, Copy, PartialEq, Eq, Structural, Debug)]
pub enum AttackOutcome {
    /// The cell is empty; nothing changed.
    Miss,
    /// The cell was occupied and undamaged; it is damaged now.
    Hit,
    /// The cell was damaged before; nothing changed.
    AlreadyAttacked,
}

/// A square grid of `size * size` cells, stored row by row.
pub struct Board {
    board_size: u32,
    ships: Vec<Ship>,
}

/// The side length of a board created without an explicit size.
pub const DEFAULT_BOARD_SIZE: u32 = 10;

/// The largest side length of a board: the number of its cells still fits
/// in 32 bits.
pub const MAX_BOARD_SIZE: u32 = 65535;

/// Whether `(cx, cy)` lies in the run of `amount` cells that starts at
/// `(x, y)` and extends to the right if `horizontal`, else downwards.
pub open spec fn in_run(cx: int, cy: int, x: int, y: int, amount: int, horizontal: bool) -> bool {
    if horizontal {
        cy == y && x <= cx < x + amount
    } else {
        cx == x && y <= cy < y + amount
    }
}

/// What an attack on a cell reports.
pub open spec fn outcome_of(cell: Ship) -> AttackOutcome {
    if cell.ship_type == ShipType::Empty {
        AttackOutcome::Miss
    } else if cell.damaged {
        AttackOutcome::AlreadyAttacked
    } else {
        AttackOutcome::Hit
    }
}

/// A cell after an attack on it: damaged if the attack was a hit, else as before.
pub open spec fn cell_after_attack(cell: Ship) -> Ship {
    if outcome_of(cell) == AttackOutcome::Hit {
        Ship { ship_type: cell.ship_type, damaged: true }
    } else {
        cell
    }
}

/// A cell after a run of `kind` was laid over it: it is marked damaged if
/// it held something else than water or `kind` before.
pub open spec fn cell_after_place(cell: Ship, kind: ShipType) -> Ship {
    Ship {
        ship_type: kind,
        damaged: cell.ship_type != kind && cell.ship_type != ShipType::Empty,
    }
}

/// The kind that marks the cursor on a cell: the water marker over open
/// water and over a shot that did no damage, the plain marker otherwise.
pub open spec fn selection_kind(cell: Ship) -> ShipType {
    if cell.ship_type == ShipType::Empty || (cell.ship_type == ShipType::Shot && !cell.damaged) {
        ShipType::WaterSelection
    } else {
        ShipType::Selection
    }
}

/// Whether a cell counts as an overlap signal: damaged, and not a cursor marker.
pub open spec fn signals_overlap(cell: Ship) -> bool {
    cell.damaged && !cell.ship_type.is_selection()
}

/// Whether a cell still stands: it holds one of the five ships of a fleet
/// and is not damaged. Water, a shot and the cursor markers never stand.
pub open spec fn still_afloat(cell: Ship) -> bool {
    cell.ship_type.is_real_ship() && !cell.damaged
}

/// A position on a board of side `size` has a place in the row-by-row
/// storage.
pub proof fn lemma_index_in_range(size: int, x: int, y: int)
    requires
        0 <= x < size,
        0 <= y < size,
    ensures
        0 <= y * size + x < size * size,
{
    assert(y * size + x < size * size) by (nonlinear_arith)
        requires
            0 <= x < size,
            0 <= y < size,
    ;
    assert(0 <= y * size) by (nonlinear_arith)
        requires
            0 <= y,
            0 <= size,
    ;
}

/// Two positions with the same place in the row-by-row storage are the
/// same position.
pub proof fn lemma_index_unique(size: int, x1: int, y1: int, x2: int, y2: int)
    requires
        0 <= x1 < size,
        0 <= x2 < size,
        0 <= y1,
        0 <= y2,
        y1 * size + x1 == y2 * size + x2,
    ensures
        x1 == x2,
        y1 == y2,
{
    if y1 < y2 {
        assert(y2 * size >= y1 * size + size) by (nonlinear_arith)
            requires
                y1 < y2,
                size > 0,
        ;
    } else if y2 < y1 {
        assert(y1 * size >= y2 * size + size) by (nonlinear_arith)
            requires
                y2 < y1,
                size > 0,
        ;
    }
}

/// Every place in the row-by-row storage belongs to a position on the
/// board: its column is the remainder, its row the quotient by `size`.
pub proof fn lemma_coords_of_index(size: int, i: int)
    requires
        0 < size,
        0 <= i < size * size,
    ensures
        0 <= i % size < size,
        0 <= i / size < size,
        (i / size) * size + i % size == i,
{
    vstd::arithmetic::div_mod::lemma_fundamental_div_mod(i, size);
    vstd::arithmetic::div_mod::lemma_mod_pos_bound(i, size);
    let q = i / size;
    let r = i % size;
    assert(size * q == q * size) by (nonlinear_arith);
    if q < 0 {
        assert(q * size <= -size) by (nonlinear_arith)
            requires
                q < 0,
                size > 0,
        ;
    }
    if q >= size {
        assert(q * size >= size * size) by (nonlinear_arith)
            requires
                q >= size,
                size > 0,
        ;
    }
}

impl BoardError {
    /// The text that describes this error.
    pub open spec fn text(self) -> Seq<char> {
        match self {
            BoardError::OutOfBounds => "Position is not on the board"@,
            BoardError::InvalidPlacement => "Ship does not fit there"@,
        }
    }

    /// The text that describes this error.
    pub fn message(&self) -> (s: &'static str)
        ensures
            s@ == self.text(),
    {
        match self {
            BoardError::OutOfBounds => "Position is not on the board",
            BoardError::InvalidPlacement => "Ship does not fit there",
        }
    }
}

impl Board {
    /// The side length.
    pub closed spec fn size(&self) -> int {
        self.board_size as int
    }

    /// All cells, row by row.
    pub closed spec fn cells(&self) -> Seq<Ship> {
        self.ships@
    }

    /// The cell in column `x` of row `y`.
    pub open spec fn cell(&self, x: int, y: int) -> Ship {
        self.cells()[y * self.size() + x]
    }

    /// Whether `(x, y)` is a position on this board.
    pub open spec fn on_board(&self, x: int, y: int) -> bool {
        0 <= x < self.size() && 0 <= y < self.size()
    }

    /// The validity of a board: it is not empty, and it holds one cell for
    /// each position.
    pub open spec fn wf(&self) -> bool {
        &&& 0 < self.size() <= u32::MAX
        &&& self.size() * self.size() <= u32::MAX
        &&& self.cells().len() == self.size() * self.size()
    }

    /// Whether `other` has the same size and the same cell at every position.
    pub open spec fn same_as(self, other: Board) -> bool {
        &&& self.size() == other.size()
        &&& forall|cx: int, cy: int|
            self.on_board(cx, cy) ==> #[trigger] self.cell(cx, cy) == other.cell(cx, cy)
    }

    /// Whether every cell is undamaged open water.
    pub open spec fn is_blank(&self) -> bool {
        forall|cx: int, cy: int|
            self.on_board(cx, cy) ==> #[trigger] self.cell(cx, cy) == (Ship {
                ship_type: ShipType::Empty,
                damaged: false,
            })
    }

    /// Whether the run of `amount` cells from `(x, y)` lies on the board. A
    /// run of no cells lies on every board.
    pub open spec fn run_fits(&self, x: int, y: int, amount: int, horizontal: bool) -> bool {
        amount <= 0 || if horizontal {
            0 <= x && x + amount <= self.size() && 0 <= y < self.size()
        } else {
            0 <= x < self.size() && 0 <= y && y + amount <= self.size()
        }
    }

    /// Whether some cell signals an overlap.
    pub open spec fn has_overlap(&self) -> bool {
        exists|cx: int, cy: int|
            self.on_board(cx, cy) && signals_overlap(#[trigger] self.cell(cx, cy))
    }

    /// Whether nothing on the board still stands: every cell of a ship is
    /// damaged.
    pub open spec fn is_defeated(&self) -> bool {
        forall|cx: int, cy: int|
            self.on_board(cx, cy) ==> !still_afloat(#[trigger] self.cell(cx, cy))
    }

    /// `post` is `self` after a run of `kind` was laid over `amount` cells
    /// from `(x, y)`.
    pub open spec fn placed_into(
        self,
        post: Board,
        x: int,
        y: int,
        kind: ShipType,
        amount: int,
        horizontal: bool,
    ) -> bool {
        &&& post.size() == self.size()
        &&& forall|cx: int, cy: int|
            self.on_board(cx, cy) ==> #[trigger] post.cell(cx, cy) == if in_run(
                cx,
                cy,
                x,
                y,
                amount,
                horizontal,
            ) {
                cell_after_place(self.cell(cx, cy), kind)
            } else {
                self.cell(cx, cy)
            }
    }

    /// The kinds in the run of `amount` cells from `(x, y)`, in order.
    pub open spec fn run_kinds(&self, x: int, y: int, amount: int, horizontal: bool) -> Seq<
        ShipType,
    > {
        Seq::new(
            if amount >= 0 { amount as nat } else { 0 },
            |i: int|
                if horizontal {
                    self.cell(x + i, y).ship_type
                } else {
                    self.cell(x, y + i).ship_type
                },
        )
    }

    /// `post` is `self` after the run from `(x, y)` was given the kinds
    /// `kinds`, in order, and cleared of damage.
    pub open spec fn restored_into(
        self,
        post: Board,
        x: int,
        y: int,
        kinds: Seq<ShipType>,
        horizontal: bool,
    ) -> bool {
        &&& post.size() == self.size()
        &&& forall|cx: int, cy: int|
            self.on_board(cx, cy) ==> #[trigger] post.cell(cx, cy) == if in_run(
                cx,
                cy,
                x,
                y,
                kinds.len() as int,
                horizontal,
            ) {
                Ship { ship_type: kinds[(cx - x) + (cy - y)], damaged: false }
            } else {
                self.cell(cx, cy)
            }
    }

    /// `post` is `self` with the cell at `(x, y)` replaced by `value`.
    pub open spec fn changed_at(self, post: Board, x: int, y: int, value: Ship) -> bool {
        &&& post.size() == self.size()
        &&& forall|cx: int, cy: int|
            self.on_board(cx, cy) ==> #[trigger] post.cell(cx, cy) == if cx == x && cy == y {
                value
            } else {
                self.cell(cx, cy)
            }
    }

    /// `post` is `self` after an attack on `(x, y)`.
    pub open spec fn attacked_into(self, post: Board, x: int, y: int) -> bool {
        &&& post.size() == self.size()
        &&& forall|cx: int, cy: int|
            self.on_board(cx, cy) ==> #[trigger] post.cell(cx, cy) == if cx == x && cy == y {
                cell_after_attack(self.cell(cx, cy))
            } else {
                self.cell(cx, cy)
            }
    }

    /// `post` is `self` after the cursor marker was set on `(x, y)`.
    pub open spec fn selected_into(self, post: Board, x: int, y: int) -> bool {
        &&& post.size() == self.size()
        &&& forall|cx: int, cy: int|
            self.on_board(cx, cy) ==> #[trigger] post.cell(cx, cy) == if cx == x && cy == y {
                Ship {
                    ship_type: selection_kind(self.cell(cx, cy)),
                    damaged: self.cell(cx, cy).damaged,
                }
            } else {
                self.cell(cx, cy)
            }
    }

    /// The cell at `(cx, cy)` once the cell under the cursor at `(x, y)` has
    /// the kind `previous` back.
    pub open spec fn uncovered_cell(self, cx: int, cy: int, x: int, y: int, previous: ShipType) -> Ship {
        if cx == x && cy == y {
            Ship { ship_type: previous, damaged: self.cell(cx, cy).damaged }
        } else {
            self.cell(cx, cy)
        }
    }

    /// `post` is `self` after the cursor went from `(x, y)`, whose cell gets
    /// the kind `previous` back, to `(nx, ny)`, whose cell gets the cursor
    /// marker.
    pub open spec fn selection_moved_into(
        self,
        post: Board,
        x: int,
        y: int,
        previous: ShipType,
        nx: int,
        ny: int,
    ) -> bool {
        &&& post.size() == self.size()
        &&& forall|cx: int, cy: int|
            self.on_board(cx, cy) ==> #[trigger] post.cell(cx, cy) == ({
                let uncovered = self.uncovered_cell(cx, cy, x, y, previous);
                if cx == nx && cy == ny {
                    Ship { ship_type: selection_kind(uncovered), damaged: uncovered.damaged }
                } else {
                    uncovered
                }
            })
    }

    /// Whether laying a run of `kind` over `amount` cells from `(x, y)`
    /// would leave the board free of overlap signals: the run covers only water
    /// and cells of `kind`, and no cell beside it signals an overlap already.
    pub open spec fn placement_clear(
        self,
        x: int,
        y: int,
        kind: ShipType,
        amount: int,
        horizontal: bool,
    ) -> bool {
        forall|cx: int, cy: int|
            self.on_board(cx, cy) ==> if in_run(cx, cy, x, y, amount, horizontal) {
                (#[trigger] self.cell(cx, cy)).ship_type == ShipType::Empty || self.cell(
                    cx,
                    cy,
                ).ship_type == kind || kind.is_selection()
            } else {
                !signals_overlap(self.cell(cx, cy))
            }
    }

    /// Whether a ship of `kind` can be placed with its first cell at `(x, y)`:
    /// it lies on the board and overlaps nothing.
    pub open spec fn can_place(self, x: int, y: int, kind: ShipType, horizontal: bool) -> bool {
        &&& self.run_fits(x, y, kind.size() as int, horizontal)
        &&& self.placement_clear(x, y, kind, kind.size() as int, horizontal)
    }

    /// After a run was laid, the board signals an overlap exactly if the
    /// placement was not clear.
    pub proof fn lemma_overlap_after_placing(
        self,
        post: Board,
        x: int,
        y: int,
        kind: ShipType,
        amount: int,
        horizontal: bool,
    )
        requires
            self.placed_into(post, x, y, kind, amount, horizontal),
        ensures
            post.has_overlap() <==> !self.placement_clear(x, y, kind, amount, horizontal),
    {
        if post.has_overlap() {
            let (cx, cy) = choose|cx: int, cy: int|
                post.on_board(cx, cy) && signals_overlap(#[trigger] post.cell(cx, cy));
            assert(self.on_board(cx, cy));
            let before = self.cell(cx, cy);
            assert(!self.placement_clear(x, y, kind, amount, horizontal));
        }
        if !self.placement_clear(x, y, kind, amount, horizontal) {
            let (cx, cy) = choose|cx: int, cy: int|
                self.on_board(cx, cy) && !(if in_run(cx, cy, x, y, amount, horizontal) {
                    (#[trigger] self.cell(cx, cy)).ship_type == ShipType::Empty || self.cell(
                        cx,
                        cy,
                    ).ship_type == kind || kind.is_selection()
                } else {
                    !signals_overlap(self.cell(cx, cy))
                });
            assert(post.on_board(cx, cy));
            assert(signals_overlap(post.cell(cx, cy)));
        }
    }

    /// `post` is `self` with some damage cleared: the same kinds everywhere,
    /// and no damage where `self` has none.
    pub open spec fn cleared_into(self, post: Board) -> bool {
        &&& post.size() == self.size()
        &&& forall|cx: int, cy: int|
            self.on_board(cx, cy) ==> (#[trigger] post.cell(cx, cy)).ship_type == self.cell(
                cx,
                cy,
            ).ship_type && (post.cell(cx, cy).damaged ==> self.cell(cx, cy).damaged)
    }

    /// `post` is `self` after a ship of `kind` was placed with its first cell
    /// at `(x, y)`: the ship's cells hold `kind` undamaged, every other cell
    /// keeps its kind and gains no damage.
    pub open spec fn ship_laid(self, post: Board, x: int, y: int, kind: ShipType, horizontal: bool) -> bool {
        &&& post.size() == self.size()
        &&& forall|cx: int, cy: int|
            self.on_board(cx, cy) ==> if in_run(cx, cy, x, y, kind.size() as int, horizontal) {
                #[trigger] post.cell(cx, cy) == (Ship { ship_type: kind, damaged: false })
            } else {
                post.cell(cx, cy).ship_type == self.cell(cx, cy).ship_type && (post.cell(
                    cx,
                    cy,
                ).damaged ==> self.cell(cx, cy).damaged)
            }
    }

    /// Putting back the kinds that a run holds clears the run's damage and
    /// changes nothing else.
    pub proof fn lemma_restore_is_clearing(self, post: Board, x: int, y: int, amount: int, horizontal: bool)
        requires
            self.restored_into(post, x, y, self.run_kinds(x, y, amount, horizontal), horizontal),
        ensures
            self.cleared_into(post),
            forall|cx: int, cy: int|
                self.on_board(cx, cy) && !self.cell(cx, cy).damaged ==> #[trigger] post.cell(cx, cy)
                    == self.cell(cx, cy),
    {
        let kinds = self.run_kinds(x, y, amount, horizontal);
        assert forall|cx: int, cy: int| self.on_board(cx, cy) implies (#[trigger] post.cell(
            cx,
            cy,
        )).ship_type == self.cell(cx, cy).ship_type && (post.cell(cx, cy).damaged ==> self.cell(
            cx,
            cy,
        ).damaged) by {
            if in_run(cx, cy, x, y, kinds.len() as int, horizontal) {
                assert(kinds[(cx - x) + (cy - y)] == self.cell(cx, cy).ship_type);
            }
        }
    }

    /// Clearing damage on a board that signals no overlap leaves it without
    /// overlap, and a ship can be placed after it exactly where it could be
    /// placed before.
    pub proof fn lemma_cleared_same_placements(
        self,
        post: Board,
        x: int,
        y: int,
        kind: ShipType,
        horizontal: bool,
    )
        requires
            self.cleared_into(post),
            !self.has_overlap(),
        ensures
            !post.has_overlap(),
            post.can_place(x, y, kind, horizontal) == self.can_place(x, y, kind, horizontal),
    {
        assert forall|cx: int, cy: int| post.on_board(cx, cy) implies !signals_overlap(
            #[trigger] post.cell(cx, cy),
        ) by {
            assert(!signals_overlap(self.cell(cx, cy)));
        }
        let amount = kind.size() as int;
        if self.can_place(x, y, kind, horizontal) {
            assert forall|cx: int, cy: int| post.on_board(cx, cy) implies if in_run(
                cx,
                cy,
                x,
                y,
                amount,
                horizontal,
            ) {
                (#[trigger] post.cell(cx, cy)).ship_type == ShipType::Empty || post.cell(
                    cx,
                    cy,
                ).ship_type == kind || kind.is_selection()
            } else {
                !signals_overlap(post.cell(cx, cy))
            } by {
                let before = self.cell(cx, cy);
            }
        }
        if post.can_place(x, y, kind, horizontal) {
            assert forall|cx: int, cy: int| self.on_board(cx, cy) implies if in_run(
                cx,
                cy,
                x,
                y,
                amount,
                horizontal,
            ) {
                (#[trigger] self.cell(cx, cy)).ship_type == ShipType::Empty || self.cell(
                    cx,
                    cy,
                ).ship_type == kind || kind.is_selection()
            } else {
                !signals_overlap(self.cell(cx, cy))
            } by {
                let after = post.cell(cx, cy);
            }
        }
    }

    /// A ship placed where it can be placed leaves the board without overlap.
    pub proof fn lemma_placed_without_overlap(
        self,
        post: Board,
        x: int,
        y: int,
        kind: ShipType,
        horizontal: bool,
    )
        requires
            self.can_place(x, y, kind, horizontal),
            self.placed_into(post, x, y, kind, kind.size() as int, horizontal),
        ensures
            !post.has_overlap(),
            self.ship_laid(post, x, y, kind, horizontal),
    {
        self.lemma_overlap_after_placing(post, x, y, kind, kind.size() as int, horizontal);
        assert forall|cx: int, cy: int| self.on_board(cx, cy) implies if in_run(
            cx,
            cy,
            x,
            y,
            kind.size() as int,
            horizontal,
        ) {
            #[trigger] post.cell(cx, cy) == (Ship { ship_type: kind, damaged: false })
        } else {
            post.cell(cx, cy).ship_type == self.cell(cx, cy).ship_type && (post.cell(cx, cy).damaged
                ==> self.cell(cx, cy).damaged)
        } by {
            let before = self.cell(cx, cy);
        }
    }

    /// A board of undamaged open water, of the given side length or of
    /// `DEFAULT_BOARD_SIZE`. The side is at least 1 and at most
    /// `MAX_BOARD_SIZE`.
    pub fn new(board_size: Option<u32>) -> (board: Self)
        requires
            board_size is Some ==> 0 < board_size->Some_0 <= MAX_BOARD_SIZE,
        ensures
            board.wf(),
            board.size() == if board_size is Some {
                board_size->Some_0
            } else {
                DEFAULT_BOARD_SIZE
            },
            board.is_blank(),
    {
        let board_size: u32 = match board_size {
            Some(n) => n,
            None => DEFAULT_BOARD_SIZE,
        };
        assert(board_size * board_size <= u32::MAX) by (nonlinear_arith)
            requires
                0 < board_size <= 65535,
        ;
        let length: u32 = board_size * board_size;
        let ships: Vec<Ship> = vec![Ship::new(); length as usize];
        let board = Self { board_size, ships };
        proof {
            assert forall|cx: int, cy: int| board.on_board(cx, cy) implies #[trigger] board.cell(
                cx,
                cy,
            ) == (Ship { ship_type: ShipType::Empty, damaged: false }) by {
                lemma_index_in_range(board.size(), cx, cy);
            }
        }
        board
    }

    pub fn get_ships(&self) -> (ships: &Vec<Ship>)
        ensures
            ships@ == self.cells(),
    {
        &self.ships
    }

    pub fn get_board_size(&self) -> (n: u32)
        ensures
            n == self.size(),
    {
        self.board_size
    }

    /// Mutable access to the cell at `(x, y)`.
    pub fn get_ship(&mut self, x: u32, y: u32) -> (r: Result<&mut Ship, BoardError>)
        requires
            old(self).wf(),
        ensures
            r is Ok <==> old(self).on_board(x as int, y as int),
            r is Err ==> r == Err::<&mut Ship, BoardError>(BoardError::OutOfBounds) && *final(self)
                == *old(self),
            r is Ok ==> *r->Ok_0 == old(self).cell(x as int, y as int),
            r is Ok ==> final(self).size() == old(self).size(),
            r is Ok ==> final(self).cells() == old(self).cells().update(
                y * old(self).size() + x,
                *final(r->Ok_0),
            ),
            r is Ok ==> final(self).wf(),
            r is Ok ==> old(self).changed_at(*final(self), x as int, y as int, *final(r->Ok_0)),
    {
        if x >= self.board_size || y >= self.board_size {
            Err(BoardError::OutOfBounds)
        } else {
            proof {
                lemma_index_in_range(self.size(), x as int, y as int);
                assert forall|post: Board, value: Ship|
                    post.size() == self.size() && post.cells() == self.cells().update(
                        y * self.size() + x,
                        value,
                    ) implies post.wf() && #[trigger] self.changed_at(
                    post,
                    x as int,
                    y as int,
                    value,
                ) by {
                    self.lemma_update_cell(post, x as int, y as int, value);
                }
            }
            let index: u32 = y * self.board_size + x;
            Ok(&mut self.ships[index as usize])
        }
    }

    /// A copy of the cell at `(x, y)`.
    pub fn ship_at(&self, x: u32, y: u32) -> (r: Result<Ship, BoardError>)
        requires
            self.wf(),
        ensures
            r is Ok <==> self.on_board(x as int, y as int),
            r is Err ==> r == Err::<Ship, BoardError>(BoardError::OutOfBounds),
            r is Ok ==> r->Ok_0 == self.cell(x as int, y as int),
    {
        if x >= self.board_size || y >= self.board_size {
            Err(BoardError::OutOfBounds)
        } else {
            proof {
                lemma_index_in_range(self.size(), x as int, y as int);
            }
            let index: u32 = y * self.board_size + x;
            Ok(self.ships[index as usize])
        }
    }

    /// A valid board has a side of fewer than 65536 cells.
    pub proof fn lemma_size_bound(self)
        requires
            self.wf(),
        ensures
            self.size() <= 65535,
    {
        let n = self.size();
        if n >= 65536 {
            assert(n * n >= 65536 * 65536) by (nonlinear_arith)
                requires
                    n >= 65536,
            ;
        }
    }

    /// Replacing the cell stored for `(x, y)` changes that position and no other.
    proof fn lemma_update_cell(self, post: Board, x: int, y: int, value: Ship)
        requires
            self.wf(),
            self.on_board(x, y),
            post.size() == self.size(),
            post.cells() == self.cells().update(y * self.size() + x, value),
        ensures
            post.wf(),
            self.changed_at(post, x, y, value),
    {
        lemma_index_in_range(self.size(), x, y);
        assert forall|cx: int, cy: int| self.on_board(cx, cy) implies #[trigger] post.cell(cx, cy)
            == if cx == x && cy == y {
            value
        } else {
            self.cell(cx, cy)
        } by {
            lemma_index_in_range(self.size(), cx, cy);
            if cy * self.size() + cx == y * self.size() + x {
                lemma_index_unique(self.size(), cx, cy, x, y);
            }
        }
    }

    /// Overwrites the cell at `(x, y)`.
    fn put(&mut self, x: u32, y: u32, value: Ship)
        requires
            old(self).wf(),
            old(self).on_board(x as int, y as int),
        ensures
            final(self).wf(),
            old(self).changed_at(*final(self), x as int, y as int, value),
    {
        proof {
            lemma_index_in_range(self.size(), x as int, y as int);
        }
        let index: u32 = y * self.board_size + x;
        self.ships[index as usize] = value;
        proof {
            old(self).lemma_update_cell(*self, x as int, y as int, value);
        }
    }

    /// Attacks the cell at `(x, y)`: open water is missed and stays as it is,
    /// a damaged cell stays as it is, anything else becomes damaged.
    pub fn hit_ship(&mut self, x: u32, y: u32) -> (r: Result<AttackOutcome, BoardError>)
        requires
            old(self).wf(),
        ensures
            final(self).wf(),
            r is Ok <==> old(self).on_board(x as int, y as int),
            r is Err ==> r == Err::<AttackOutcome, BoardError>(BoardError::OutOfBounds),
            r is Err ==> *final(self) == *old(self),
            r is Ok ==> r->Ok_0 == outcome_of(old(self).cell(x as int, y as int)),
            r is Ok ==> old(self).attacked_into(*final(self), x as int, y as int),
    {
        let ship = match self.ship_at(x, y) {
            Ok(ship) => ship,
            Err(e) => {
                return Err(e);
            },
        };
        if ship.ship_type == ShipType::Empty {
            return Ok(AttackOutcome::Miss);
        }
        if ship.damaged {
            return Ok(AttackOutcome::AlreadyAttacked);
        }
        self.put(x, y, Ship { ship_type: ship.ship_type, damaged: true });
        Ok(AttackOutcome::Hit)
    }

    /// Sets the cursor marker on the cell at `(x, y)` and hands back, in
    /// `previous_ship_type`, the kind that the cell held. No other cell
    /// changes: this is the first setting of a cursor, and the second half of
    /// `update_ship_selection`.
    pub fn mark_ship_selection(&mut self, previous_ship_type: &mut ShipType, x: u32, y: u32) -> (r:
        Result<(), BoardError>)
        requires
            old(self).wf(),
        ensures
            final(self).wf(),
            r is Ok <==> old(self).on_board(x as int, y as int),
            r is Err ==> r == Err::<(), BoardError>(BoardError::OutOfBounds) && *final(self)
                == *old(self) && *final(previous_ship_type) == *old(previous_ship_type),
            r is Ok ==> *final(previous_ship_type) == old(self).cell(x as int, y as int).ship_type
                && old(self).selected_into(*final(self), x as int, y as int),
    {
        let ship = match self.ship_at(x, y) {
            Ok(ship) => ship,
            Err(e) => {
                return Err(e);
            },
        };
        *previous_ship_type = ship.ship_type;
        let marker = if ship.ship_type == ShipType::Empty || (ship.ship_type == ShipType::Shot
            && !ship.damaged) {
            ShipType::WaterSelection
        } else {
            ShipType::Selection
        };
        self.put(x, y, Ship { ship_type: marker, damaged: ship.damaged });
        Ok(())
    }

    /// Moves the cursor marker from `(from_x, from_y)` to `(x, y)`: the cell
    /// that the cursor leaves gets back the kind that it held before the
    /// cursor came, which is `previous_ship_type`; then the marker is set on
    /// `(x, y)`, and `previous_ship_type` becomes the kind that this cell
    /// held.
    pub fn update_ship_selection(
        &mut self,
        previous_ship_type: &mut ShipType,
        from_x: u32,
        from_y: u32,
        x: u32,
        y: u32,
    ) -> (r: Result<(), BoardError>)
        requires
            old(self).wf(),
        ensures
            final(self).wf(),
            r is Ok <==> old(self).on_board(from_x as int, from_y as int) && old(self).on_board(
                x as int,
                y as int,
            ),
            r is Err ==> r == Err::<(), BoardError>(BoardError::OutOfBounds) && *final(self)
                == *old(self) && *final(previous_ship_type) == *old(previous_ship_type),
            r is Ok ==> *final(previous_ship_type) == old(self).uncovered_cell(
                x as int,
                y as int,
                from_x as int,
                from_y as int,
                *old(previous_ship_type),
            ).ship_type,
            r is Ok ==> old(self).selection_moved_into(
                *final(self),
                from_x as int,
                from_y as int,
                *old(previous_ship_type),
                x as int,
                y as int,
            ),
    {
        if x >= self.board_size || y >= self.board_size {
            return Err(BoardError::OutOfBounds);
        }
        let under = match self.ship_at(from_x, from_y) {
            Ok(ship) => ship,
            Err(e) => {
                return Err(e);
            },
        };
        self.put(from_x, from_y, Ship { ship_type: *previous_ship_type, damaged: under.damaged });
        let ghost uncovered = *self;
        let marked = self.mark_ship_selection(previous_ship_type, x, y);
        proof {
            assert forall|cx: int, cy: int| old(self).on_board(cx, cy) implies #[trigger] self.cell(
                cx,
                cy,
            ) == ({
                let cell = old(self).uncovered_cell(
                    cx,
                    cy,
                    from_x as int,
                    from_y as int,
                    *old(previous_ship_type),
                );
                if cx == x && cy == y {
                    Ship { ship_type: selection_kind(cell), damaged: cell.damaged }
                } else {
                    cell
                }
            }) by {
                assert(uncovered.on_board(cx, cy));
                let between = uncovered.cell(cx, cy);
            }
        }
        marked
    }

    /// Lays a run of `ship_type` over `amount` cells from `(x, y)`, to the
    /// right if `horizontal`, else downwards. A cell that held something else
    /// than water or `ship_type` comes out damaged, every other cell of the
    /// run undamaged.
    pub fn set_ship_type(&mut self, x: u32, y: u32, ship_type: ShipType, amount: u32, horizontal: bool)
        requires
            old(self).wf(),
            old(self).run_fits(x as int, y as int, amount as int, horizontal),
        ensures
            final(self).wf(),
            old(self).placed_into(*final(self), x as int, y as int, ship_type, amount as int, horizontal),
    {
        let mut i: u32 = 0;
        while i < amount
            invariant
                i <= amount,
                self.wf(),
                old(self).run_fits(x as int, y as int, amount as int, horizontal),
                old(self).placed_into(*self, x as int, y as int, ship_type, i as int, horizontal),
            decreases amount - i,
        {
            let cx: u32 = if horizontal { x + i } else { x };
            let cy: u32 = if horizontal { y } else { y + i };
            let before = self.ships[Self::index_of(self.board_size, cx, cy)];
            let value = Ship {
                ship_type,
                damaged: before.ship_type != ship_type && before.ship_type != ShipType::Empty,
            };
            self.put(cx, cy, value);
            i += 1;
        }
    }

    /// Gives the run from `(x, y)` the kinds `ship_types`, in order, and
    /// clears its damage.
    pub fn set_ship_types(&mut self, x: u32, y: u32, ship_types: &Vec<ShipType>, horizontal: bool)
        requires
            old(self).wf(),
            old(self).run_fits(x as int, y as int, ship_types@.len() as int, horizontal),
        ensures
            final(self).wf(),
            old(self).restored_into(*final(self), x as int, y as int, ship_types@, horizontal),
    {
        let mut i: usize = 0;
        while i < ship_types.len()
            invariant
                i <= ship_types@.len(),
                self.wf(),
                old(self).run_fits(x as int, y as int, ship_types@.len() as int, horizontal),
                old(self).restored_into(
                    *self,
                    x as int,
                    y as int,
                    ship_types@.take(i as int),
                    horizontal,
                ),
            decreases ship_types@.len() - i,
        {
            let step: u32 = i as u32;
            let cx: u32 = if horizontal { x + step } else { x };
            let cy: u32 = if horizontal { y } else { y + step };
            self.put(cx, cy, Ship { ship_type: ship_types[i], damaged: false });
            i += 1;
        }
        assert(ship_types@.take(ship_types@.len() as int) == ship_types@);
    }

    /// The kinds in the run of `amount` cells from `(x, y)`, in order.
    pub fn get_ship_types(&self, x: u32, y: u32, amount: u32, horizontal: bool) -> (ship_types: Vec<
        ShipType,
    >)
        requires
            self.wf(),
            self.run_fits(x as int, y as int, amount as int, horizontal),
        ensures
            ship_types@ == self.run_kinds(x as int, y as int, amount as int, horizontal),
    {
        let mut ship_types: Vec<ShipType> = Vec::new();
        let mut i: u32 = 0;
        while i < amount
            invariant
                i <= amount,
                self.wf(),
                self.run_fits(x as int, y as int, amount as int, horizontal),
                ship_types@ == self.run_kinds(x as int, y as int, i as int, horizontal),
            decreases amount - i,
        {
            let cx: u32 = if horizontal { x + i } else { x };
            let cy: u32 = if horizontal { y } else { y + i };
            ship_types.push(self.ships[Self::index_of(self.board_size, cx, cy)].ship_type);
            i += 1;
            assert(ship_types@ == self.run_kinds(x as int, y as int, i as int, horizontal));
        }
        ship_types
    }

    /// Whether some cell signals an overlap: it is damaged and holds no
    /// cursor marker.
    pub fn any_overlap(&self) -> (r: bool)
        requires
            self.wf(),
        ensures
            r == self.has_overlap(),
    {
        let mut i: usize = 0;
        while i < self.ships.len()
            invariant
                i <= self.ships@.len(),
                self.wf(),
                forall|j: int| 0 <= j < i ==> !signals_overlap(#[trigger] self.ships@[j]),
            decreases self.ships@.len() - i,
        {
            let ship = self.ships[i];
            if ship.damaged && ship.ship_type != ShipType::Selection && ship.ship_type
                != ShipType::WaterSelection {
                proof {
                    lemma_coords_of_index(self.size(), i as int);
                    assert(signals_overlap(self.cell(i as int % self.size(), i as int / self.size())));
                }
                return true;
            }
            i += 1;
        }
        proof {
            assert forall|cx: int, cy: int| self.on_board(cx, cy) implies !signals_overlap(
                #[trigger] self.cell(cx, cy),
            ) by {
                lemma_index_in_range(self.size(), cx, cy);
            }
        }
        false
    }

    /// Whether nothing still stands: every cell that holds one of the five
    /// ships of a fleet is damaged.
    pub fn all_destroyed(&self) -> (r: bool)
        requires
            self.wf(),
        ensures
            r == self.is_defeated(),
    {
        let mut i: usize = 0;
        while i < self.ships.len()
            invariant
                i <= self.ships@.len(),
                self.wf(),
                forall|j: int| 0 <= j < i ==> !still_afloat(#[trigger] self.ships@[j]),
            decreases self.ships@.len() - i,
        {
            let ship = self.ships[i];
            if ship.ship_type.is_ship() && !ship.damaged {
                proof {
                    lemma_coords_of_index(self.size(), i as int);
                    assert(still_afloat(self.cell(i as int % self.size(), i as int / self.size())));
                }
                return false;
            }
            i += 1;
        }
        proof {
            assert forall|cx: int, cy: int| self.on_board(cx, cy) implies !still_afloat(
                #[trigger] self.cell(cx, cy),
            ) by {
                lemma_index_in_range(self.size(), cx, cy);
            }
        }
        true
    }

    /// The place of `(x, y)` in the row-by-row storage.
    fn index_of(board_size: u32, x: u32, y: u32) -> (index: usize)
        requires
            x < board_size,
            y < board_size,
            board_size * board_size <= u32::MAX,
        ensures
            index == y * board_size + x,
            index < board_size * board_size,
    {
        proof {
            lemma_index_in_range(board_size as int, x as int, y as int);
        }
        let index: u32 = y * board_size + x;
        index as usize
    }

    /// Tries to place a ship of `ship_type` with its first cell at `(x, y)`.
    /// The run is laid over the board; if the board then signals an overlap,
    /// the kinds that the run held before are put back and the placement is
    /// refused.
    pub fn try_place(&mut self, x: u32, y: u32, ship_type: ShipType, horizontal: bool) -> (r: Result<
        (),
        BoardError,
    >)
        requires
            old(self).wf(),
        ensures
            final(self).wf(),
            final(self).size() == old(self).size(),
            r is Ok <==> old(self).can_place(x as int, y as int, ship_type, horizontal),
            r is Err ==> r == Err::<(), BoardError>(BoardError::InvalidPlacement),
            r is Err ==> old(self).cleared_into(*final(self)),
            r is Ok ==> old(self).placed_into(
                *final(self),
                x as int,
                y as int,
                ship_type,
                ship_type.size() as int,
                horizontal,
            ),
            r is Ok ==> forall|cx: int, cy: int|
                old(self).on_board(cx, cy) && in_run(
                    cx,
                    cy,
                    x as int,
                    y as int,
                    ship_type.size() as int,
                    horizontal,
                ) ==> #[trigger] final(self).cell(cx, cy) == (Ship { ship_type, damaged: false }),
            r is Err && !old(self).run_fits(x as int, y as int, ship_type.size() as int, horizontal)
                ==> *final(self) == *old(self),
            r is Err && old(self).run_fits(x as int, y as int, ship_type.size() as int, horizontal)
                ==> old(self).restored_into(
                *final(self),
                x as int,
                y as int,
                old(self).run_kinds(x as int, y as int, ship_type.size() as int, horizontal),
                horizontal,
            ),
    {
        let amount: u32 = ship_type.get_size();
        let size: u32 = self.board_size;
        let fits = amount == 0 || (amount <= size && if horizontal {
            x <= size - amount && y < size
        } else {
            x < size && y <= size - amount
        });
        if !fits {
            return Err(BoardError::InvalidPlacement);
        }
        let previous = self.get_ship_types(x, y, amount, horizontal);
        self.set_ship_type(x, y, ship_type, amount, horizontal);
        proof {
            old(self).lemma_overlap_after_placing(
                *self,
                x as int,
                y as int,
                ship_type,
                amount as int,
                horizontal,
            );
        }
        if !self.any_overlap() {
            return Ok(());
        }
        let ghost placed = *self;
        self.set_ship_types(x, y, &previous, horizontal);
        proof {
            assert forall|cx: int, cy: int| old(self).on_board(cx, cy) implies #[trigger] self.cell(
                cx,
                cy,
            ) == if in_run(cx, cy, x as int, y as int, amount as int, horizontal) {
                Ship { ship_type: previous@[(cx - x) + (cy - y)], damaged: false }
            } else {
                old(self).cell(cx, cy)
            } by {
                assert(placed.on_board(cx, cy));
                let moved = placed.cell(cx, cy);
            }
            old(self).lemma_restore_is_clearing(*self, x as int, y as int, amount as int, horizontal);
        }
        Err(BoardError::InvalidPlacement)
    }
}

} // verus!
