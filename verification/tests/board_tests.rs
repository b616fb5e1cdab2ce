use battleship::board::{AttackOutcome, Board, BoardError, DEFAULT_BOARD_SIZE};
use battleship::difficulty::Difficulty;
use battleship::render::Tint;
use battleship::ship::{Ship, ShipType};

const WATER: Ship = Ship { ship_type: ShipType::Empty, damaged: false };

fn cell(board: &Board, x: u32, y: u32) -> Ship {
    board.ship_at(x, y).unwrap()
}

#[test]
fn new_board_has_default_size_and_is_blank() {
    let board = Board::new(None);
    assert_eq!(DEFAULT_BOARD_SIZE, 10);
    assert_eq!(board.get_board_size(), 10);
    assert_eq!(board.get_ships().len(), 100);
    assert!(board.get_ships().iter().all(|ship| *ship == WATER));
    assert!(!board.any_overlap());
}

#[test]
fn new_board_takes_the_given_size() {
    let board = Board::new(Some(4));
    assert_eq!(board.get_board_size(), 4);
    assert_eq!(board.get_ships().len(), 16);
    let one = Board::new(Some(1));
    assert_eq!(one.get_ships().len(), 1);
    assert_eq!(one.ship_at(0, 0), Ok(WATER));
    assert_eq!(one.ship_at(1, 0), Err(BoardError::OutOfBounds));
}

#[test]
fn new_ship_is_undamaged_water() {
    assert_eq!(Ship::new(), WATER);
}

#[test]
fn cells_are_stored_row_by_row() {
    let mut board = Board::new(Some(4));
    board.set_ship_type(1, 2, ShipType::Destroyer, 2, true);
    let ships = board.get_ships();
    assert_eq!(ships[2 * 4 + 1].ship_type, ShipType::Destroyer);
    assert_eq!(ships[2 * 4 + 2].ship_type, ShipType::Destroyer);
    assert_eq!(ships.iter().filter(|s| s.ship_type == ShipType::Destroyer).count(), 2);
}

#[test]
fn get_ship_rejects_positions_off_the_board() {
    let mut board = Board::new(None);
    assert_eq!(board.get_ship(10, 0).err(), Some(BoardError::OutOfBounds));
    assert_eq!(board.get_ship(0, 10).err(), Some(BoardError::OutOfBounds));
    assert_eq!(board.get_ship(u32::MAX, u32::MAX).err(), Some(BoardError::OutOfBounds));
    assert!(board.get_ship(9, 9).is_ok());
    assert_eq!(board.ship_at(10, 3), Err(BoardError::OutOfBounds));
    assert_eq!(board.ship_at(3, 10), Err(BoardError::OutOfBounds));
}

#[test]
fn get_ship_gives_access_to_the_cell() {
    let mut board = Board::new(None);
    {
        let ship = board.get_ship(3, 7).unwrap();
        assert_eq!(*ship, WATER);
        ship.ship_type = ShipType::Cruiser;
        ship.damaged = true;
    }
    assert_eq!(cell(&board, 3, 7), Ship { ship_type: ShipType::Cruiser, damaged: true });
    assert_eq!(cell(&board, 7, 3), WATER);
    assert_eq!(board.get_ships().iter().filter(|s| **s != WATER).count(), 1);
}

#[test]
fn error_messages() {
    assert_eq!(BoardError::OutOfBounds.message(), "Position is not on the board");
    assert_eq!(BoardError::InvalidPlacement.message(), "Ship does not fit there");
}

#[test]
fn placing_a_ship_horizontally_fills_exactly_its_run() {
    let mut board = Board::new(None);
    board.set_ship_type(2, 3, ShipType::Battleship, 4, true);
    for y in 0..10 {
        for x in 0..10 {
            let expected = if y == 3 && (2..6).contains(&x) {
                Ship { ship_type: ShipType::Battleship, damaged: false }
            } else {
                WATER
            };
            assert_eq!(cell(&board, x, y), expected);
        }
    }
}

#[test]
fn placing_a_ship_vertically_fills_exactly_its_run() {
    let mut board = Board::new(None);
    board.set_ship_type(9, 5, ShipType::Carrier, 5, false);
    for y in 0..10 {
        for x in 0..10 {
            let expected = if x == 9 && (5..10).contains(&y) {
                Ship { ship_type: ShipType::Carrier, damaged: false }
            } else {
                WATER
            };
            assert_eq!(cell(&board, x, y), expected);
        }
    }
}

#[test]
fn placing_no_cells_changes_nothing() {
    let mut board = Board::new(Some(3));
    board.set_ship_type(7, 7, ShipType::Carrier, 0, true);
    assert!(board.get_ships().iter().all(|ship| *ship == WATER));
}

#[test]
fn placing_over_another_kind_marks_damage() {
    let mut board = Board::new(None);
    board.set_ship_type(0, 0, ShipType::Destroyer, 2, true);
    board.set_ship_type(1, 0, ShipType::Cruiser, 3, true);
    assert_eq!(cell(&board, 0, 0), Ship { ship_type: ShipType::Destroyer, damaged: false });
    assert_eq!(cell(&board, 1, 0), Ship { ship_type: ShipType::Cruiser, damaged: true });
    assert_eq!(cell(&board, 2, 0), Ship { ship_type: ShipType::Cruiser, damaged: false });
    assert_eq!(cell(&board, 3, 0), Ship { ship_type: ShipType::Cruiser, damaged: false });
    assert!(board.any_overlap());
}

#[test]
fn placing_over_the_same_kind_marks_no_damage() {
    let mut board = Board::new(None);
    board.set_ship_type(0, 0, ShipType::Destroyer, 2, true);
    board.set_ship_type(1, 0, ShipType::Destroyer, 2, true);
    assert!(!board.any_overlap());
    assert_eq!(cell(&board, 1, 0), Ship { ship_type: ShipType::Destroyer, damaged: false });
}

#[test]
fn placing_twice_clears_the_damage_of_the_run() {
    let mut board = Board::new(None);
    board.set_ship_type(0, 0, ShipType::Destroyer, 2, true);
    board.set_ship_type(1, 0, ShipType::Cruiser, 3, true);
    board.set_ship_type(1, 0, ShipType::Cruiser, 3, true);
    assert!(!board.any_overlap());
    assert_eq!(cell(&board, 1, 0), Ship { ship_type: ShipType::Cruiser, damaged: false });
}

#[test]
fn overlap_is_signalled_and_restoring_the_snapshot_removes_it() {
    let mut board = Board::new(None);
    board.set_ship_type(4, 4, ShipType::Submarine, 3, false);
    let before: Vec<Ship> = board.get_ships().clone();
    let snapshot = board.get_ship_types(3, 5, 4, true);
    assert_eq!(
        snapshot,
        vec![ShipType::Empty, ShipType::Submarine, ShipType::Empty, ShipType::Empty]
    );
    board.set_ship_type(3, 5, ShipType::Battleship, 4, true);
    assert!(board.any_overlap());
    board.set_ship_types(3, 5, &snapshot, true);
    assert!(!board.any_overlap());
    assert_eq!(board.get_ships(), &before);
}

#[test]
fn set_ship_types_writes_the_kinds_in_order_and_clears_damage() {
    let mut board = Board::new(Some(5));
    board.set_ship_type(0, 1, ShipType::Destroyer, 2, false);
    board.set_ship_type(0, 2, ShipType::Cruiser, 3, false);
    assert!(cell(&board, 0, 2).damaged);
    let kinds = vec![ShipType::Carrier, ShipType::Empty, ShipType::Shot];
    board.set_ship_types(0, 2, &kinds, false);
    assert_eq!(cell(&board, 0, 1), Ship { ship_type: ShipType::Destroyer, damaged: false });
    assert_eq!(cell(&board, 0, 2), Ship { ship_type: ShipType::Carrier, damaged: false });
    assert_eq!(cell(&board, 0, 3), WATER);
    assert_eq!(cell(&board, 0, 4), Ship { ship_type: ShipType::Shot, damaged: false });
    assert_eq!(cell(&board, 1, 2), WATER);
}

#[test]
fn get_ship_types_reads_a_run() {
    let mut board = Board::new(None);
    board.set_ship_type(2, 2, ShipType::Carrier, 5, true);
    assert_eq!(
        board.get_ship_types(1, 2, 3, true),
        vec![ShipType::Empty, ShipType::Carrier, ShipType::Carrier]
    );
    assert_eq!(
        board.get_ship_types(6, 0, 4, false),
        vec![ShipType::Empty, ShipType::Empty, ShipType::Carrier, ShipType::Empty]
    );
    assert_eq!(board.get_ship_types(0, 0, 0, true), Vec::<ShipType>::new());
}

#[test]
fn damaged_cursor_markers_are_no_overlap() {
    let mut board = Board::new(None);
    *board.get_ship(1, 1).unwrap() = Ship { ship_type: ShipType::Selection, damaged: true };
    *board.get_ship(2, 1).unwrap() = Ship { ship_type: ShipType::WaterSelection, damaged: true };
    assert!(!board.any_overlap());
    *board.get_ship(3, 1).unwrap() = Ship { ship_type: ShipType::Shot, damaged: true };
    assert!(board.any_overlap());
}

#[test]
fn damaged_water_is_an_overlap() {
    let mut board = Board::new(None);
    *board.get_ship(9, 9).unwrap() = Ship { ship_type: ShipType::Empty, damaged: true };
    assert!(board.any_overlap());
}

#[test]
fn a_board_without_ships_is_destroyed() {
    let board = Board::new(None);
    assert!(board.all_destroyed());
}

#[test]
fn water_and_markers_do_not_keep_a_board_alive() {
    let mut board = Board::new(None);
    *board.get_ship(0, 0).unwrap() = Ship { ship_type: ShipType::Selection, damaged: false };
    *board.get_ship(1, 0).unwrap() = Ship { ship_type: ShipType::WaterSelection, damaged: false };
    assert!(board.all_destroyed());
    *board.get_ship(2, 0).unwrap() = Ship { ship_type: ShipType::Shot, damaged: false };
    assert!(board.all_destroyed());
    *board.get_ship(3, 0).unwrap() = Ship { ship_type: ShipType::Shot, damaged: true };
    assert!(board.all_destroyed());
}

#[test]
fn a_board_is_destroyed_with_every_ship_cell_hit_whatever_the_markers() {
    let mut board = Board::new(None);
    board.set_ship_type(0, 0, ShipType::Destroyer, 2, true);
    *board.get_ship(5, 5).unwrap() = Ship { ship_type: ShipType::Shot, damaged: false };
    *board.get_ship(6, 5).unwrap() = Ship { ship_type: ShipType::Selection, damaged: false };
    *board.get_ship(7, 5).unwrap() = Ship { ship_type: ShipType::WaterSelection, damaged: true };
    assert!(!board.all_destroyed());
    assert_eq!(board.hit_ship(0, 0), Ok(AttackOutcome::Hit));
    assert!(!board.all_destroyed());
    assert_eq!(board.hit_ship(1, 0), Ok(AttackOutcome::Hit));
    assert!(board.all_destroyed());
}

#[test]
fn each_kind_of_ship_keeps_a_board_alive() {
    let kinds = [
        ShipType::Destroyer,
        ShipType::Submarine,
        ShipType::Cruiser,
        ShipType::Battleship,
        ShipType::Carrier,
    ];
    for kind in kinds {
        assert!(kind.is_ship());
        let mut board = Board::new(Some(2));
        *board.get_ship(1, 1).unwrap() = Ship { ship_type: kind, damaged: false };
        assert!(!board.all_destroyed());
        *board.get_ship(1, 1).unwrap() = Ship { ship_type: kind, damaged: true };
        assert!(board.all_destroyed());
    }
    for kind in [ShipType::Empty, ShipType::Shot, ShipType::Selection, ShipType::WaterSelection] {
        assert!(!kind.is_ship());
    }
}

#[test]
fn a_board_is_destroyed_when_every_ship_cell_is_hit_and_stays_so() {
    let mut board = Board::new(None);
    board.set_ship_type(0, 0, ShipType::Destroyer, 2, true);
    board.set_ship_type(5, 5, ShipType::Cruiser, 3, false);
    let cells = [(0, 0), (1, 0), (5, 5), (5, 6), (5, 7)];
    for (i, (x, y)) in cells.iter().enumerate() {
        assert!(!board.all_destroyed(), "before hit {}", i);
        assert_eq!(board.hit_ship(*x, *y), Ok(AttackOutcome::Hit));
    }
    assert!(board.all_destroyed());
    assert_eq!(board.hit_ship(0, 0), Ok(AttackOutcome::AlreadyAttacked));
    assert_eq!(board.hit_ship(9, 9), Ok(AttackOutcome::Miss));
    assert!(board.all_destroyed());
}

#[test]
fn attack_on_water_is_a_miss_every_time_and_does_no_damage() {
    let mut board = Board::new(None);
    for _ in 0..3 {
        assert_eq!(board.hit_ship(4, 4), Ok(AttackOutcome::Miss));
        assert_eq!(cell(&board, 4, 4), WATER);
    }
    assert!(board.get_ships().iter().all(|ship| *ship == WATER));
}

#[test]
fn second_and_later_attacks_on_a_ship_cell_are_already_attacked() {
    let mut board = Board::new(None);
    board.set_ship_type(3, 3, ShipType::Submarine, 3, true);
    assert_eq!(board.hit_ship(4, 3), Ok(AttackOutcome::Hit));
    let after_hit: Vec<Ship> = board.get_ships().clone();
    for _ in 0..4 {
        assert_eq!(board.hit_ship(4, 3), Ok(AttackOutcome::AlreadyAttacked));
        assert_eq!(board.get_ships(), &after_hit);
    }
    assert_eq!(cell(&board, 4, 3), Ship { ship_type: ShipType::Submarine, damaged: true });
    assert_eq!(cell(&board, 3, 3), Ship { ship_type: ShipType::Submarine, damaged: false });
}

#[test]
fn attack_off_the_board_is_an_error_and_changes_nothing() {
    let mut board = Board::new(None);
    board.set_ship_type(0, 0, ShipType::Destroyer, 2, true);
    let before: Vec<Ship> = board.get_ships().clone();
    assert_eq!(board.hit_ship(10, 0), Err(BoardError::OutOfBounds));
    assert_eq!(board.hit_ship(0, 10), Err(BoardError::OutOfBounds));
    assert_eq!(board.hit_ship(u32::MAX, 0), Err(BoardError::OutOfBounds));
    assert_eq!(board.get_ships(), &before);
}

#[test]
fn destroyer_scenario() {
    let mut board = Board::new(Some(10));
    assert_eq!(board.try_place(0, 0, ShipType::Destroyer, true), Ok(()));
    assert_eq!(cell(&board, 0, 0), Ship { ship_type: ShipType::Destroyer, damaged: false });
    assert_eq!(cell(&board, 1, 0), Ship { ship_type: ShipType::Destroyer, damaged: false });
    assert_eq!(board.hit_ship(0, 0), Ok(AttackOutcome::Hit));
    assert_eq!(cell(&board, 0, 0), Ship { ship_type: ShipType::Destroyer, damaged: true });
    let before: Vec<Ship> = board.get_ships().clone();
    assert_eq!(board.hit_ship(0, 0), Ok(AttackOutcome::AlreadyAttacked));
    assert_eq!(board.get_ships(), &before);
    assert!(!board.all_destroyed());
    assert_eq!(board.hit_ship(1, 0), Ok(AttackOutcome::Hit));
    assert!(board.all_destroyed());
}

#[test]
fn destroyer_scenario_with_plain_placement() {
    let mut board = Board::new(Some(10));
    board.set_ship_type(0, 0, ShipType::Destroyer, 2, true);
    assert_eq!(cell(&board, 0, 0), Ship { ship_type: ShipType::Destroyer, damaged: false });
    assert_eq!(cell(&board, 1, 0), Ship { ship_type: ShipType::Destroyer, damaged: false });
    assert_eq!(cell(&board, 2, 0), WATER);
    assert_eq!(cell(&board, 0, 1), WATER);
    assert_eq!(board.hit_ship(0, 0), Ok(AttackOutcome::Hit));
    assert_eq!(board.hit_ship(0, 0), Ok(AttackOutcome::AlreadyAttacked));
    assert_eq!(board.hit_ship(1, 0), Ok(AttackOutcome::Hit));
    assert!(board.all_destroyed());
}

#[test]
fn cursor_marker_over_water_is_the_water_marker() {
    let mut board = Board::new(None);
    let mut previous = ShipType::Carrier;
    assert_eq!(board.mark_ship_selection(&mut previous, 2, 3), Ok(()));
    assert_eq!(previous, ShipType::Empty);
    assert_eq!(cell(&board, 2, 3), Ship { ship_type: ShipType::WaterSelection, damaged: false });
    assert_eq!(board.get_ships().iter().filter(|s| **s != WATER).count(), 1);
}

#[test]
fn cursor_marker_over_a_ship_is_the_plain_marker_and_keeps_the_damage() {
    let mut board = Board::new(None);
    board.set_ship_type(0, 0, ShipType::Cruiser, 3, true);
    board.hit_ship(1, 0).unwrap();
    let mut previous = ShipType::Empty;
    assert_eq!(board.mark_ship_selection(&mut previous, 1, 0), Ok(()));
    assert_eq!(previous, ShipType::Cruiser);
    assert_eq!(cell(&board, 1, 0), Ship { ship_type: ShipType::Selection, damaged: true });
    assert_eq!(board.mark_ship_selection(&mut previous, 0, 0), Ok(()));
    assert_eq!(previous, ShipType::Cruiser);
    assert_eq!(cell(&board, 0, 0), Ship { ship_type: ShipType::Selection, damaged: false });
}

#[test]
fn cursor_marker_over_a_shot_depends_on_the_damage() {
    let mut board = Board::new(None);
    *board.get_ship(0, 0).unwrap() = Ship { ship_type: ShipType::Shot, damaged: false };
    *board.get_ship(1, 0).unwrap() = Ship { ship_type: ShipType::Shot, damaged: true };
    let mut previous = ShipType::Empty;
    assert_eq!(board.mark_ship_selection(&mut previous, 0, 0), Ok(()));
    assert_eq!(previous, ShipType::Shot);
    assert_eq!(cell(&board, 0, 0), Ship { ship_type: ShipType::WaterSelection, damaged: false });
    assert_eq!(board.mark_ship_selection(&mut previous, 1, 0), Ok(()));
    assert_eq!(previous, ShipType::Shot);
    assert_eq!(cell(&board, 1, 0), Ship { ship_type: ShipType::Selection, damaged: true });
}

#[test]
fn cursor_marker_off_the_board_is_an_error_and_changes_nothing() {
    let mut board = Board::new(None);
    let mut previous = ShipType::Battleship;
    assert_eq!(board.mark_ship_selection(&mut previous, 10, 10), Err(BoardError::OutOfBounds));
    assert_eq!(previous, ShipType::Battleship);
    assert!(board.get_ships().iter().all(|ship| *ship == WATER));
}

#[test]
fn try_place_refuses_a_ship_that_runs_off_the_grid() {
    let mut board = Board::new(None);
    assert_eq!(board.try_place(6, 0, ShipType::Carrier, true), Err(BoardError::InvalidPlacement));
    assert_eq!(board.try_place(0, 6, ShipType::Carrier, false), Err(BoardError::InvalidPlacement));
    assert_eq!(board.try_place(10, 0, ShipType::Destroyer, false), Err(BoardError::InvalidPlacement));
    assert_eq!(
        board.try_place(u32::MAX, u32::MAX, ShipType::Destroyer, true),
        Err(BoardError::InvalidPlacement)
    );
    assert!(board.get_ships().iter().all(|ship| *ship == WATER));
    assert_eq!(board.try_place(5, 0, ShipType::Carrier, true), Ok(()));
    assert_eq!(board.try_place(0, 5, ShipType::Battleship, false), Ok(()));
}

#[test]
fn try_place_refuses_an_overlap_and_restores_the_board() {
    let mut board = Board::new(None);
    assert_eq!(board.try_place(2, 2, ShipType::Cruiser, true), Ok(()));
    let before: Vec<Ship> = board.get_ships().clone();
    assert_eq!(board.try_place(3, 0, ShipType::Battleship, false), Err(BoardError::InvalidPlacement));
    assert_eq!(board.get_ships(), &before);
    assert!(!board.any_overlap());
    assert_eq!(board.try_place(5, 0, ShipType::Battleship, false), Ok(()));
    assert_eq!(board.get_ships().iter().filter(|s| s.ship_type == ShipType::Battleship).count(), 4);
    assert_eq!(board.get_ships().iter().filter(|s| s.ship_type == ShipType::Cruiser).count(), 3);
    assert!(board.get_ships().iter().all(|s| !s.damaged));
}

#[test]
fn try_place_on_a_board_that_is_too_small() {
    let mut board = Board::new(Some(2));
    assert_eq!(board.try_place(0, 0, ShipType::Submarine, true), Err(BoardError::InvalidPlacement));
    assert_eq!(board.try_place(0, 0, ShipType::Destroyer, true), Ok(()));
    assert_eq!(board.try_place(1, 0, ShipType::Destroyer, true), Err(BoardError::InvalidPlacement));
    assert_eq!(board.try_place(0, 1, ShipType::Destroyer, true), Ok(()));
    assert_eq!(board.get_ships().iter().filter(|s| s.ship_type == ShipType::Destroyer).count(), 4);
}

#[test]
fn try_place_over_cells_of_the_same_kind_is_no_overlap() {
    let mut board = Board::new(Some(4));
    assert_eq!(board.try_place(0, 0, ShipType::Destroyer, true), Ok(()));
    assert_eq!(board.try_place(1, 0, ShipType::Destroyer, true), Ok(()));
    assert_eq!(board.get_ships().iter().filter(|s| s.ship_type == ShipType::Destroyer).count(), 3);
    assert_eq!(board.try_place(2, 0, ShipType::Cruiser, false), Err(BoardError::InvalidPlacement));
    assert_eq!(board.get_ships().iter().filter(|s| s.ship_type == ShipType::Destroyer).count(), 3);
    assert_eq!(board.get_ships().iter().filter(|s| s.ship_type == ShipType::Cruiser).count(), 0);
}

#[test]
fn ship_sizes() {
    assert_eq!(ShipType::Destroyer.get_size(), 2);
    assert_eq!(ShipType::Submarine.get_size(), 3);
    assert_eq!(ShipType::Cruiser.get_size(), 3);
    assert_eq!(ShipType::Battleship.get_size(), 4);
    assert_eq!(ShipType::Carrier.get_size(), 5);
    assert_eq!(ShipType::Empty.get_size(), 0);
    assert_eq!(ShipType::Shot.get_size(), 0);
    assert_eq!(ShipType::Selection.get_size(), 0);
    assert_eq!(ShipType::WaterSelection.get_size(), 0);
}

#[test]
fn ship_names_and_labels() {
    assert_eq!(ShipType::Destroyer.to_string(), "Destroyer");
    assert_eq!(ShipType::Submarine.to_string(), "Submarine");
    assert_eq!(ShipType::Cruiser.to_string(), "Cruiser");
    assert_eq!(ShipType::Battleship.to_string(), "Battleship");
    assert_eq!(ShipType::Carrier.to_string(), "Carrier");
    assert_eq!(ShipType::Empty.to_string(), "");
    assert_eq!(ShipType::Shot.to_string(), "");
    assert_eq!(ShipType::Destroyer.to_shorten(), "des");
    assert_eq!(ShipType::Submarine.to_shorten(), "sub");
    assert_eq!(ShipType::Cruiser.to_shorten(), "cru");
    assert_eq!(ShipType::Battleship.to_shorten(), "bat");
    assert_eq!(ShipType::Carrier.to_shorten(), "car");
    assert_eq!(ShipType::Shot.to_shorten(), " x ");
    assert_eq!(ShipType::Selection.to_shorten(), " + ");
    assert_eq!(ShipType::WaterSelection.to_shorten(), " + ");
    assert_eq!(ShipType::Empty.to_shorten(), "");
}

#[test]
fn ship_kinds_and_their_numbers() {
    let kinds = [
        ShipType::Empty,
        ShipType::Destroyer,
        ShipType::Submarine,
        ShipType::Cruiser,
        ShipType::Battleship,
        ShipType::Carrier,
        ShipType::Shot,
        ShipType::Selection,
        ShipType::WaterSelection,
    ];
    for (n, kind) in kinds.iter().enumerate() {
        assert_eq!(kind.to_u32(), n as u32);
        assert_eq!(ShipType::from_u32(n as u32), Some(*kind));
    }
    assert_eq!(ShipType::from_u32(9), None);
    assert_eq!(ShipType::from_u32(u32::MAX), None);
}

#[test]
fn difficulty_names_colours_and_numbers() {
    assert_eq!(Difficulty::Easy.to_string(), "Easy");
    assert_eq!(Difficulty::Medium.to_string(), "Medium");
    assert_eq!(Difficulty::Hard.to_string(), "Hard");
    assert_eq!(Difficulty::Easy.get_color(), Tint::Green);
    assert_eq!(Difficulty::Medium.get_color(), Tint::Yellow);
    assert_eq!(Difficulty::Hard.get_color(), Tint::Red);
    assert_eq!(Difficulty::Easy.to_u32(), 0);
    assert_eq!(Difficulty::Medium.to_u32(), 1);
    assert_eq!(Difficulty::Hard.to_u32(), 2);
    assert_eq!(Difficulty::from_u32(0), Some(Difficulty::Easy));
    assert_eq!(Difficulty::from_u32(1), Some(Difficulty::Medium));
    assert_eq!(Difficulty::from_u32(2), Some(Difficulty::Hard));
    assert_eq!(Difficulty::from_u32(3), None);
}

#[test]
fn moving_the_cursor_restores_the_cell_it_leaves() {
    let mut board = Board::new(None);
    board.set_ship_type(1, 0, ShipType::Cruiser, 3, true);
    board.hit_ship(1, 0).unwrap();
    let mut previous = ShipType::Carrier;
    board.mark_ship_selection(&mut previous, 0, 0).unwrap();
    assert_eq!(previous, ShipType::Empty);
    assert_eq!(board.update_ship_selection(&mut previous, 0, 0, 1, 0), Ok(()));
    assert_eq!(previous, ShipType::Cruiser);
    assert_eq!(cell(&board, 0, 0), WATER);
    assert_eq!(cell(&board, 1, 0), Ship { ship_type: ShipType::Selection, damaged: true });
    assert_eq!(board.update_ship_selection(&mut previous, 1, 0, 1, 1), Ok(()));
    assert_eq!(previous, ShipType::Empty);
    assert_eq!(cell(&board, 1, 0), Ship { ship_type: ShipType::Cruiser, damaged: true });
    assert_eq!(cell(&board, 1, 1), Ship { ship_type: ShipType::WaterSelection, damaged: false });
    assert_eq!(board.get_ships().iter().filter(|s| s.ship_type == ShipType::Cruiser).count(), 3);
}

#[test]
fn moving_the_cursor_onto_its_own_cell_marks_it_again() {
    let mut board = Board::new(None);
    board.set_ship_type(4, 4, ShipType::Destroyer, 2, false);
    let mut previous = ShipType::Empty;
    board.mark_ship_selection(&mut previous, 4, 4).unwrap();
    assert_eq!(board.update_ship_selection(&mut previous, 4, 4, 4, 4), Ok(()));
    assert_eq!(previous, ShipType::Destroyer);
    assert_eq!(cell(&board, 4, 4), Ship { ship_type: ShipType::Selection, damaged: false });
}

#[test]
fn moving_the_cursor_off_the_board_is_an_error_and_changes_nothing() {
    let mut board = Board::new(None);
    let mut previous = ShipType::Empty;
    board.mark_ship_selection(&mut previous, 9, 9).unwrap();
    let before: Vec<Ship> = board.get_ships().clone();
    previous = ShipType::Submarine;
    assert_eq!(board.update_ship_selection(&mut previous, 9, 9, 10, 9), Err(BoardError::OutOfBounds));
    assert_eq!(board.update_ship_selection(&mut previous, 9, 10, 9, 9), Err(BoardError::OutOfBounds));
    assert_eq!(previous, ShipType::Submarine);
    assert_eq!(board.get_ships(), &before);
}

#[test]
fn the_cursor_is_the_only_marker_after_each_move() {
    let mut board = Board::new(Some(4));
    board.set_ship_type(0, 0, ShipType::Battleship, 4, true);
    *board.get_ship(2, 2).unwrap() = Ship { ship_type: ShipType::Shot, damaged: false };
    let plain: Vec<Ship> = board.get_ships().clone();
    let mut previous = ShipType::Empty;
    board.mark_ship_selection(&mut previous, 0, 0).unwrap();
    let mut at = (0u32, 0u32);
    let path = [(1, 0), (1, 1), (2, 1), (2, 2), (3, 2), (3, 3), (0, 3), (0, 0)];
    for to in path {
        assert_eq!(board.update_ship_selection(&mut previous, at.0, at.1, to.0, to.1), Ok(()));
        at = to;
        let was = plain[(to.1 * 4 + to.0) as usize];
        assert_eq!(previous, was.ship_type);
        for y in 0..4u32 {
            for x in 0..4u32 {
                let now = board.ship_at(x, y).unwrap();
                if (x, y) == to {
                    assert!(now.ship_type == ShipType::Selection || now.ship_type == ShipType::WaterSelection);
                } else {
                    assert_eq!(now, plain[(y * 4 + x) as usize]);
                }
            }
        }
    }
}

#[test]
fn board_sides_up_to_the_largest() {
    assert_eq!(battleship::board::MAX_BOARD_SIZE, 65535);
    let board = Board::new(Some(300));
    assert_eq!(board.get_ships().len(), 90000);
    assert_eq!(board.ship_at(299, 299), Ok(WATER));
    assert_eq!(board.ship_at(300, 0), Err(BoardError::OutOfBounds));
}
