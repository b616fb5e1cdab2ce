//! How a board is drawn: the pieces of each line, with their colours. The
//! drawing itself, on a terminal, is left to the caller.

use vstd::prelude::*;
use crate::board::Board;
use crate::ship::{Ship, ShipType};

verus! {

/// A colour of the display.
#[derive(Clone, Copy, PartialEq, Eq, Structural, Debug)]
pub enum Tint {
    Black,
    White,
    Red,
    Green,
    Yellow,
    Blue,
    /// The grey of a ship's deck.
    Grey,
    /// The dark blue of open water.
    Navy,
}

/// One piece of a line of the display.
#[derive(Clone, Copy, PartialEq, Eq, Structural, Debug)]
pub enum Piece {
    /// The blank corner above the row numbers and left of the column letters.
    Corner,
    /// The letter above a column.
    ColumnLabel { letter: char },
    /// The number of a row, counted from 1, followed by a blank if `padded`.
    RowLabel { line: u32, padded: bool },
    /// A cell: the label of `ship_type`, filled up with `padding` blanks, in
    /// `foreground` on `background`, and after it a bar on `separator`.
    Cell { ship_type: ShipType, padding: u32, background: Tint, foreground: Tint, separator: Tint },
}

/// The number of characters that a cell is wide.
pub const CELL_WIDTH: u32 = 3;

/// The letter above the column `x`: `A` for the first column, and on through
/// the characters that follow it, starting over after 256 codes.
pub open spec fn letter_of(x: int) -> char {
    (((65 + x) % 256) as u8) as char
}

/// The colour behind a cell: grey under whatever is damaged and under
/// ships and the plain cursor marker, dark blue under water, under a shot and
/// under the water marker.
pub open spec fn background_of(cell: Ship) -> Tint {
    if cell.damaged {
        Tint::Grey
    } else if cell.ship_type == ShipType::Empty || cell.ship_type == ShipType::WaterSelection
        || cell.ship_type == ShipType::Shot {
        Tint::Navy
    } else {
        Tint::Grey
    }
}

/// The colour of a cell's label: red on what is damaged, unless it is a
/// cursor marker; white otherwise.
pub open spec fn foreground_of(cell: Ship) -> Tint {
    if cell.damaged && !cell.ship_type.is_selection() {
        Tint::Red
    } else {
        Tint::White
    }
}

/// The colour behind the bar after the column `x`: dark blue between
/// columns, black after the last column.
pub open spec fn separator_of(x: int, size: int) -> Tint {
    if x < size - 1 {
        Tint::Navy
    } else {
        Tint::Black
    }
}

/// The piece that shows `cell` in the column `x` of a board of side `size`.
pub open spec fn cell_piece(cell: Ship, x: int, size: int) -> Piece {
    Piece::Cell {
        ship_type: cell.ship_type,
        padding: (CELL_WIDTH - cell.ship_type.label().len()) as u32,
        background: background_of(cell),
        foreground: foreground_of(cell),
        separator: separator_of(x, size),
    }
}

/// The piece at the place `column` of the line `row` of the display of
/// `board`. The first line holds the column letters, the first place of every
/// other line the row's number; the rest are the board's cells.
pub open spec fn piece_at(board: Board, column: int, row: int) -> Piece {
    if column == 0 && row == 0 {
        Piece::Corner
    } else if row == 0 {
        Piece::ColumnLabel { letter: letter_of(column - 1) }
    } else if column == 0 {
        Piece::RowLabel { line: row as u32, padded: row < 10 }
    } else {
        cell_piece(board.cell(column - 1, row - 1), column - 1, board.size())
    }
}

/// Every label is as wide as a cell, but the label of open water, which is
/// empty.
pub proof fn lemma_label_widths(kind: ShipType)
    ensures
        kind.label().len() == if kind == ShipType::Empty {
            0nat
        } else {
            CELL_WIDTH as nat
        },
{
    reveal_strlit("des");
    reveal_strlit("sub");
    reveal_strlit("cru");
    reveal_strlit("bat");
    reveal_strlit("car");
    reveal_strlit(" x ");
    reveal_strlit(" + ");
    reveal_strlit("");
}

impl Tint {
    /// The red, green and blue parts of the two colours that have no name
    /// among a terminal's basic colours.
    pub fn rgb(&self) -> (parts: Option<(u8, u8, u8)>)
        ensures
            parts == match *self {
                Tint::Grey => Some((128u8, 128u8, 128u8)),
                Tint::Navy => Some((0u8, 0u8, 128u8)),
                _ => None::<(u8, u8, u8)>,
            },
    {
        match self {
            Tint::Grey => Some((128, 128, 128)),
            Tint::Navy => Some((0, 0, 128)),
            _ => None,
        }
    }
}

/// The letter above the column `x`.
pub fn column_letter(x: u32) -> (letter: char)
    ensures
        letter == letter_of(x as int),
{
    let code: u8 = ((65 + x as u64) % 256) as u8;
    code as char
}

/// The piece that shows `ship` in the column `x` of a board of side
/// `board_size`.
pub fn cell_look(ship: Ship, x: u32, board_size: u32) -> (piece: Piece)
    requires
        board_size > 0,
    ensures
        piece == cell_piece(ship, x as int, board_size as int),
{
    proof {
        lemma_label_widths(ship.ship_type);
    }
    let mut background = Tint::Black;
    let mut foreground = Tint::White;
    if ship.damaged {
        match ship.ship_type {
            ShipType::Selection | ShipType::WaterSelection => {
                background = Tint::Grey;
            },
            _ => {
                background = Tint::Grey;
                foreground = Tint::Red;
            },
        }
    } else {
        match ship.ship_type {
            ShipType::Empty | ShipType::WaterSelection | ShipType::Shot => {
                background = Tint::Navy;
            },
            _ => {
                background = Tint::Grey;
            },
        }
    }
    let padding: u32 = match ship.ship_type {
        ShipType::Empty => CELL_WIDTH,
        _ => 0,
    };
    let separator = if x < board_size - 1 {
        Tint::Navy
    } else {
        Tint::Black
    };
    Piece::Cell { ship_type: ship.ship_type, padding, background, foreground, separator }
}

impl Board {
    /// The display of the board, line by line: a line of column letters,
    /// then one line for each row, with the row's number in front.
    pub fn show(&self) -> (lines: Vec<Vec<Piece>>)
        requires
            self.wf(),
        ensures
            lines@.len() == self.size() + 1,
            forall|row: int|
                0 <= row <= self.size() ==> (#[trigger] lines@[row])@.len() == self.size() + 1,
            forall|column: int, row: int|
                0 <= row <= self.size() && 0 <= column <= self.size() ==> #[trigger] lines@[row]@[column]
                    == piece_at(*self, column, row),
    {
        let size: u32 = self.get_board_size();
        proof {
            self.lemma_size_bound();
        }
        let mut lines: Vec<Vec<Piece>> = Vec::new();
        let mut row: u32 = 0;
        while row <= size
            invariant
                size <= 65535,
                row <= size + 1,
                size == self.size(),
                self.wf(),
                lines@.len() == row,
                forall|r: int| 0 <= r < row ==> (#[trigger] lines@[r])@.len() == size + 1,
                forall|c: int, r: int|
                    0 <= r < row && 0 <= c <= size ==> #[trigger] lines@[r]@[c] == piece_at(*self, c, r),
            decreases size + 1 - row,
        {
            let mut line: Vec<Piece> = Vec::new();
            let mut column: u32 = 0;
            while column <= size
                invariant
                    size <= 65535,
                    column <= size + 1,
                    row <= size,
                    size == self.size(),
                    self.wf(),
                    line@.len() == column,
                    forall|c: int| 0 <= c < column ==> #[trigger] line@[c] == piece_at(*self, c, row as int),
                decreases size + 1 - column,
            {
                let piece = if column == 0 && row == 0 {
                    Piece::Corner
                } else if row == 0 {
                    Piece::ColumnLabel { letter: column_letter(column - 1) }
                } else if column == 0 {
                    Piece::RowLabel { line: row, padded: row < 10 }
                } else {
                    match self.ship_at(column - 1, row - 1) {
                        Ok(ship) => cell_look(ship, column - 1, size),
                        Err(_) => Piece::Corner,
                    }
                };
                line.push(piece);
                column += 1;
            }
            lines.push(line);
            row += 1;
        }
        lines
    }
}

} // verus!
