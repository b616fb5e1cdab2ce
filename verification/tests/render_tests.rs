use battleship::board::Board;
use battleship::render::{cell_look, column_letter, Piece, Tint, CELL_WIDTH};
use battleship::ship::{Ship, ShipType};

#[test]
fn colours_without_a_basic_name() {
    assert_eq!(Tint::Grey.rgb(), Some((128, 128, 128)));
    assert_eq!(Tint::Navy.rgb(), Some((0, 0, 128)));
    for tint in [Tint::Black, Tint::White, Tint::Red, Tint::Green, Tint::Yellow, Tint::Blue] {
        assert_eq!(tint.rgb(), None);
    }
}

#[test]
fn column_letters() {
    assert_eq!(column_letter(0), 'A');
    assert_eq!(column_letter(9), 'J');
    assert_eq!(column_letter(25), 'Z');
    assert_eq!(column_letter(26), '[');
    assert_eq!(column_letter(190), '\u{ff}');
    assert_eq!(column_letter(191), '\u{0}');
    assert_eq!(column_letter(256), 'A');
}

#[test]
fn the_look_of_cells() {
    assert_eq!(CELL_WIDTH, 3);
    let water = Ship { ship_type: ShipType::Empty, damaged: false };
    assert_eq!(
        cell_look(water, 0, 10),
        Piece::Cell {
            ship_type: ShipType::Empty,
            padding: 3,
            background: Tint::Navy,
            foreground: Tint::White,
            separator: Tint::Navy,
        }
    );
    let ship = Ship { ship_type: ShipType::Cruiser, damaged: false };
    assert_eq!(
        cell_look(ship, 8, 10),
        Piece::Cell {
            ship_type: ShipType::Cruiser,
            padding: 0,
            background: Tint::Grey,
            foreground: Tint::White,
            separator: Tint::Navy,
        }
    );
    let wreck = Ship { ship_type: ShipType::Cruiser, damaged: true };
    assert_eq!(
        cell_look(wreck, 9, 10),
        Piece::Cell {
            ship_type: ShipType::Cruiser,
            padding: 0,
            background: Tint::Grey,
            foreground: Tint::Red,
            separator: Tint::Black,
        }
    );
}

#[test]
fn the_colours_of_every_kind() {
    let looks = [
        (ShipType::Empty, false, Tint::Navy, Tint::White),
        (ShipType::Empty, true, Tint::Grey, Tint::Red),
        (ShipType::Destroyer, false, Tint::Grey, Tint::White),
        (ShipType::Destroyer, true, Tint::Grey, Tint::Red),
        (ShipType::Shot, false, Tint::Navy, Tint::White),
        (ShipType::Shot, true, Tint::Grey, Tint::Red),
        (ShipType::Selection, false, Tint::Grey, Tint::White),
        (ShipType::Selection, true, Tint::Grey, Tint::White),
        (ShipType::WaterSelection, false, Tint::Navy, Tint::White),
        (ShipType::WaterSelection, true, Tint::Grey, Tint::White),
    ];
    for (ship_type, damaged, background, foreground) in looks {
        let padding = if ship_type == ShipType::Empty { 3 } else { 0 };
        assert_eq!(padding as usize + ship_type.to_shorten().len(), 3);
        assert_eq!(
            cell_look(Ship { ship_type, damaged }, 2, 3),
            Piece::Cell { ship_type, padding, background, foreground, separator: Tint::Black }
        );
    }
}

#[test]
fn the_display_of_a_board() {
    let mut board = Board::new(None);
    board.set_ship_type(1, 0, ShipType::Destroyer, 2, true);
    board.hit_ship(2, 0).unwrap();
    let lines = board.show();
    assert_eq!(lines.len(), 11);
    assert!(lines.iter().all(|line| line.len() == 11));
    assert_eq!(lines[0][0], Piece::Corner);
    let letters = ['A', 'B', 'C', 'D', 'E', 'F', 'G', 'H', 'I', 'J'];
    for (x, letter) in letters.iter().enumerate() {
        assert_eq!(lines[0][x + 1], Piece::ColumnLabel { letter: *letter });
    }
    for y in 1..=10u32 {
        assert_eq!(lines[y as usize][0], Piece::RowLabel { line: y, padded: y < 10 });
    }
    for y in 0..10u32 {
        for x in 0..10u32 {
            let ship = board.ship_at(x, y).unwrap();
            assert_eq!(lines[y as usize + 1][x as usize + 1], cell_look(ship, x, 10));
        }
    }
    assert_eq!(
        lines[1][3],
        Piece::Cell {
            ship_type: ShipType::Destroyer,
            padding: 0,
            background: Tint::Grey,
            foreground: Tint::Red,
            separator: Tint::Navy,
        }
    );
    assert_eq!(
        lines[10][10],
        Piece::Cell {
            ship_type: ShipType::Empty,
            padding: 3,
            background: Tint::Navy,
            foreground: Tint::White,
            separator: Tint::Black,
        }
    );
}

#[test]
fn the_display_of_the_smallest_board() {
    let board = Board::new(Some(1));
    let lines = board.show();
    assert_eq!(lines.len(), 2);
    assert_eq!(lines[0], vec![Piece::Corner, Piece::ColumnLabel { letter: 'A' }]);
    assert_eq!(lines[1][0], Piece::RowLabel { line: 1, padded: true });
    assert_eq!(
        lines[1][1],
        Piece::Cell {
            ship_type: ShipType::Empty,
            padding: 3,
            background: Tint::Navy,
            foreground: Tint::White,
            separator: Tint::Black,
        }
    );
}
