//! The course of a game as a sequence of steps: each step takes the state
//! and the key that was pressed, and yields the next state. Reading keys
//! and drawing boards is left to the caller.

use vstd::prelude::*;
use crate::ai::AI;
use crate::fleet::{Berth, FLEET_SIZE, fleet_kind, fleet_laid};
use crate::board::{AttackOutcome, Board, BoardError, selection_kind};
use crate::difficulty::Difficulty;
use crate::render::Tint;
use crate::ship::{Ship, ShipType};

verus! {

/// A key press, as far as the game tells keys apart.
#[derive(Clone, Copy, PartialEq, Eq, Structural, Debug)]
pub enum Key {
    Left,
    Right,
    Up,
    Down,
    /// Confirms a selection.
    Enter,
    /// Goes back, or finishes.
    Escape,
    /// Turns a ship by a quarter.
    Rotate,
    /// Any other key; it does nothing.
    Other,
}

/// The two boards of the players, the board on which the player's guesses
/// are marked, the opponent's memory and the difficulty level.
pub struct Game {
    pub player_board: Board,
    pub ai_board: Board,
    pub guess_board: Board,
    pub ai: AI,
    pub game_difficulty: Difficulty,
}

/// The state of the battle: the cursor on the guess board, the kind that
/// the cell under the cursor held before the cursor came, and how the battle
/// stands.
#[derive(Clone, Copy, Debug)]
pub struct Play {
    pub x: u32,
    pub y: u32,
    pub previous_ship_type: ShipType,
    pub finished: bool,
    pub player_won: bool,
}

/// The key that a character stands for: carriage return confirms, `r`
/// rotates.
pub open spec fn key_of(c: char) -> Key {
    if c == '\r' {
        Key::Enter
    } else if c == 'r' {
        Key::Rotate
    } else {
        Key::Other
    }
}

/// The level that a key selects from `current`: the arrows step through the
/// levels and stop at the ends, every other key keeps the level.
pub open spec fn level_after(current: Difficulty, key: Key) -> Difficulty {
    match (key, current) {
        (Key::Left, Difficulty::Medium) => Difficulty::Easy,
        (Key::Left, Difficulty::Hard) => Difficulty::Medium,
        (Key::Right, Difficulty::Easy) => Difficulty::Medium,
        (Key::Right, Difficulty::Medium) => Difficulty::Hard,
        _ => current,
    }
}

/// Where an arrow key takes a cursor that marks a single cell: one step in
/// the arrow's direction, if that stays on a board of side `size`.
pub open spec fn cursor_after(x: int, y: int, size: int, key: Key) -> Option<(int, int)> {
    match key {
        Key::Left => if x > 0 {
            Some((x - 1, y))
        } else {
            None
        },
        Key::Right => if x < size - 1 {
            Some((x + 1, y))
        } else {
            None
        },
        Key::Up => if y > 0 {
            Some((x, y - 1))
        } else {
            None
        },
        Key::Down => if y < size - 1 {
            Some((x, y + 1))
        } else {
            None
        },
        _ => None,
    }
}

/// The state of the player's fleet placement: the cursor, the ship that
/// is selected, whether a ship is being selected rather than moved, and how
/// many ships of each kind are still to be placed.
#[derive(Debug)]
pub struct Setup {
    pub x: u32,
    pub y: u32,
    /// Whether the arrows select a kind of ship; else they move the ship.
    pub select_mode: bool,
    /// For each kind's number, how many ships of the kind are to be placed.
    pub remaining_ships: Vec<u32>,
    pub horizontal: bool,
    pub finished: bool,
    pub current_ship_type: ShipType,
    /// The kinds that the cells under the moving ship held before.
    pub previous_ship_types: Vec<ShipType>,
}

/// The kind that a key selects from `current`: the arrows step through the
/// five ships and stop at the ends.
pub open spec fn kind_after(current: ShipType, key: Key) -> ShipType {
    match (key, current) {
        (Key::Left, ShipType::Submarine) => ShipType::Destroyer,
        (Key::Left, ShipType::Cruiser) => ShipType::Submarine,
        (Key::Left, ShipType::Battleship) => ShipType::Cruiser,
        (Key::Left, ShipType::Carrier) => ShipType::Battleship,
        (Key::Right, ShipType::Destroyer) => ShipType::Submarine,
        (Key::Right, ShipType::Submarine) => ShipType::Cruiser,
        (Key::Right, ShipType::Cruiser) => ShipType::Battleship,
        (Key::Right, ShipType::Battleship) => ShipType::Carrier,
        _ => current,
    }
}

/// The position nearest to `(x, y)` from which a run of `amount` cells lies
/// on a board of side `size`: the run is pulled back along its direction.
pub open spec fn pulled_back(x: int, y: int, amount: int, horizontal: bool, size: int) -> (int, int) {
    if horizontal && x > size - amount {
        (size - amount, y)
    } else if !horizontal && y > size - amount {
        (x, size - amount)
    } else {
        (x, y)
    }
}

/// Where a key takes a ship of `amount` cells that lies at `(x, y)`: an
/// arrow moves it by one cell if it then still lies on the board, the
/// rotating key turns it and pulls it back onto the board.
pub open spec fn berth_after(
    x: int,
    y: int,
    amount: int,
    horizontal: bool,
    size: int,
    key: Key,
) -> Option<Berth> {
    match key {
        Key::Left => if x > 0 {
            Some((x - 1, y, horizontal))
        } else {
            None
        },
        Key::Right => if x < size - (if horizontal {
            amount
        } else {
            1
        }) {
            Some((x + 1, y, horizontal))
        } else {
            None
        },
        Key::Up => if y > 0 {
            Some((x, y - 1, horizontal))
        } else {
            None
        },
        Key::Down => if y < size - (if horizontal {
            1
        } else {
            amount
        }) {
            Some((x, y + 1, horizontal))
        } else {
            None
        },
        Key::Rotate => {
            let to = pulled_back(x, y, amount, !horizontal, size);
            Some((to.0, to.1, !horizontal))
        },
        _ => None,
    }
}

/// `post` is `pre` after the ship that lay at `from`, over cells that held
/// `previous`, was taken up and laid down at `to`; `covered` are the kinds
/// that the cells at `to` held before the ship came.
pub open spec fn ship_moved(
    pre: Board,
    post: Board,
    kind: ShipType,
    from: Berth,
    previous: Seq<ShipType>,
    to: Berth,
    covered: Seq<ShipType>,
) -> bool {
    exists|mid: Board|
        {
            &&& #[trigger] pre.restored_into(mid, from.0, from.1, previous, from.2)
            &&& covered == mid.run_kinds(to.0, to.1, kind.size() as int, to.2)
            &&& mid.placed_into(post, to.0, to.1, kind, kind.size() as int, to.2)
        }
}

/// Whether no ship is left to be placed.
pub open spec fn none_remaining(remaining: Seq<u32>) -> bool {
    forall|i: int| 0 <= i < remaining.len() ==> #[trigger] remaining[i] == 0
}

impl Setup {
    /// The validity of a placement state on `board`: a ship is selected, the
    /// cursor is on the board, and a ship that is being moved lies on the
    /// board, is still to be placed, and the kinds under it are kept.
    pub open spec fn wf(&self, board: Board) -> bool {
        &&& self.current_ship_type.is_real_ship()
        &&& self.remaining_ships@.len() == 6
        &&& board.on_board(self.x as int, self.y as int)
        &&& !self.select_mode ==> {
            &&& board.run_fits(
                self.x as int,
                self.y as int,
                self.current_ship_type.size() as int,
                self.horizontal,
            )
            &&& self.previous_ship_types@.len() == self.current_ship_type.size()
            &&& self.remaining_ships@[self.current_ship_type.code() as int] > 0
        }
    }

    /// Whether `other` is the same state.
    pub open spec fn same_as(&self, other: &Setup) -> bool {
        &&& self.x == other.x
        &&& self.y == other.y
        &&& self.select_mode == other.select_mode
        &&& self.remaining_ships@ == other.remaining_ships@
        &&& self.horizontal == other.horizontal
        &&& self.finished == other.finished
        &&& self.current_ship_type == other.current_ship_type
        &&& self.previous_ship_types@ == other.previous_ship_types@
    }

    /// The state before the first ship is placed: the cursor on the first
    /// cell, the smallest ship selected, one ship of each kind to be placed.
    pub fn new() -> (state: Self)
        ensures
            state.x == 0,
            state.y == 0,
            state.select_mode,
            state.remaining_ships@ == seq![0u32, 1u32, 1u32, 1u32, 1u32, 1u32],
            state.horizontal,
            !state.finished,
            state.current_ship_type == ShipType::Destroyer,
            state.previous_ship_types@.len() == 0,
    {
        let mut remaining_ships: Vec<u32> = Vec::new();
        remaining_ships.push(0);
        remaining_ships.push(1);
        remaining_ships.push(1);
        remaining_ships.push(1);
        remaining_ships.push(1);
        remaining_ships.push(1);
        assert(remaining_ships@ =~= seq![0u32, 1u32, 1u32, 1u32, 1u32, 1u32]);
        Self {
            x: 0,
            y: 0,
            select_mode: true,
            remaining_ships,
            horizontal: true,
            finished: false,
            current_ship_type: ShipType::Destroyer,
            previous_ship_types: Vec::new(),
        }
    }

    /// The colour in which the selected kind's name is shown: red if no
    /// ship of the kind is left to be placed, else green while a ship is
    /// being selected and white while it is being moved.
    pub open spec fn name_tint(&self) -> Tint {
        if self.remaining_ships@[self.current_ship_type.code() as int] == 0 {
            Tint::Red
        } else if self.select_mode {
            Tint::Green
        } else {
            Tint::White
        }
    }

    pub fn name_color(&self) -> (color: Tint)
        requires
            self.current_ship_type.code() < self.remaining_ships@.len(),
        ensures
            color == self.name_tint(),
    {
        let code: u32 = self.current_ship_type.to_u32();
        if self.remaining_ships[code as usize] == 0 {
            Tint::Red
        } else if self.select_mode {
            Tint::Green
        } else {
            Tint::White
        }
    }

    /// Whether no ship is left to be placed.
    pub fn all_placed(&self) -> (r: bool)
        ensures
            r == none_remaining(self.remaining_ships@),
    {
        let mut i: usize = 0;
        while i < self.remaining_ships.len()
            invariant
                i <= self.remaining_ships@.len(),
                forall|j: int| 0 <= j < i ==> #[trigger] self.remaining_ships@[j] == 0,
            decreases self.remaining_ships@.len() - i,
        {
            if self.remaining_ships[i] > 0 {
                return false;
            }
            i += 1;
        }
        true
    }
}

impl Play {
    /// The closing words of a battle, and their colour.
    pub fn verdict(&self) -> (r: (&'static str, Tint))
        ensures
            r.0@ == if self.player_won {
                "You Won!"@
            } else {
                "AI Won!"@
            },
            r.1 == if self.player_won {
                Tint::Green
            } else {
                Tint::Red
            },
    {
        if self.player_won {
            ("You Won!", Tint::Green)
        } else {
            ("AI Won!", Tint::Red)
        }
    }
}

impl Key {
    /// The key that a character stands for.
    pub fn from_char(c: char) -> (key: Key)
        ensures
            key == key_of(c),
    {
        if c == '\r' {
            Key::Enter
        } else if c == 'r' {
            Key::Rotate
        } else {
            Key::Other
        }
    }
}

impl Game {
    /// The validity of a game: its boards and the opponent's memory are
    /// valid, and the guess board is as large as the opponent's board.
    pub open spec fn wf(&self) -> bool {
        &&& self.player_board.wf()
        &&& self.ai_board.wf()
        &&& self.guess_board.wf()
        &&& self.guess_board.size() == self.ai_board.size()
        &&& self.ai.wf()
    }

    /// A game before its first step: three blank boards of the default
    /// size, an opponent that remembers nothing, the easiest level.
    pub fn new() -> (game: Self)
        ensures
            game.wf(),
            game.player_board.is_blank(),
            game.ai_board.is_blank(),
            game.guess_board.is_blank(),
            game.player_board.size() == crate::board::DEFAULT_BOARD_SIZE,
            game.ai_board.size() == crate::board::DEFAULT_BOARD_SIZE,
            game.guess_board.size() == crate::board::DEFAULT_BOARD_SIZE,
            game.ai.attacks().len() == 0,
            game.ai.hits().len() == 0,
            game.game_difficulty == Difficulty::Easy,
    {
        Self {
            player_board: Board::new(None),
            ai_board: Board::new(None),
            guess_board: Board::new(None),
            ai: AI::new(),
            game_difficulty: Difficulty::Easy,
        }
    }

    /// One step of the choice of the level. The arrows change `current`;
    /// the confirming key makes it the game's level and ends the choice. The
    /// result is the level to show next, and whether the choice has ended.
    pub fn set_difficulty(&mut self, current: Difficulty, key: Key) -> (r: (Difficulty, bool))
        ensures
            r.0 == level_after(current, key),
            r.1 == (key == Key::Enter),
            final(self).game_difficulty == if key == Key::Enter {
                current
            } else {
                old(self).game_difficulty
            },
            final(self).player_board == old(self).player_board,
            final(self).ai_board == old(self).ai_board,
            final(self).guess_board == old(self).guess_board,
            final(self).ai == old(self).ai,
    {
        let level: u32 = current.to_u32();
        match key {
            Key::Left => {
                if level > 0 {
                    match Difficulty::from_u32(level - 1) {
                        Some(next) => {
                            return (next, false);
                        },
                        None => {},
                    }
                }
                (current, false)
            },
            Key::Right => {
                if level < 2 {
                    match Difficulty::from_u32(level + 1) {
                        Some(next) => {
                            return (next, false);
                        },
                        None => {},
                    }
                }
                (current, false)
            },
            Key::Enter => {
                self.game_difficulty = current;
                (current, true)
            },
            _ => (current, false),
        }
    }

    /// Begins the battle: the cursor is set on the first cell of the guess
    /// board.
    pub fn begin_play(&mut self) -> (state: Play)
        requires
            old(self).wf(),
        ensures
            final(self).wf(),
            state.x == 0,
            state.y == 0,
            !state.finished,
            !state.player_won,
            state.previous_ship_type == old(self).guess_board.cell(0, 0).ship_type,
            old(self).guess_board.selected_into(final(self).guess_board, 0, 0),
            final(self).player_board == old(self).player_board,
            final(self).ai_board == old(self).ai_board,
            final(self).ai == old(self).ai,
            final(self).game_difficulty == old(self).game_difficulty,
    {
        let mut previous_ship_type = ShipType::Empty;
        let _ = self.guess_board.mark_ship_selection(&mut previous_ship_type, 0, 0);
        Play { x: 0, y: 0, previous_ship_type, finished: false, player_won: false }
    }

    /// Moves the cursor on the guess board to `(nx, ny)`.
    fn move_cursor(&mut self, state: &mut Play, nx: u32, ny: u32)
        requires
            old(self).wf(),
            old(self).guess_board.on_board(old(state).x as int, old(state).y as int),
            old(self).guess_board.on_board(nx as int, ny as int),
            nx != old(state).x || ny != old(state).y,
        ensures
            final(self).wf(),
            old(self).guess_board.selection_moved_into(
                final(self).guess_board,
                old(state).x as int,
                old(state).y as int,
                old(state).previous_ship_type,
                nx as int,
                ny as int,
            ),
            final(state).x == nx,
            final(state).y == ny,
            final(state).previous_ship_type == old(self).guess_board.cell(nx as int, ny as int).ship_type,
            final(state).finished == old(state).finished,
            final(state).player_won == old(state).player_won,
            final(self).player_board == old(self).player_board,
            final(self).ai_board == old(self).ai_board,
            final(self).ai == old(self).ai,
            final(self).game_difficulty == old(self).game_difficulty,
    {
        let _ = self.guess_board.update_ship_selection(
            &mut state.previous_ship_type,
            state.x,
            state.y,
            nx,
            ny,
        );
        state.x = nx;
        state.y = ny;
    }

    /// One step of the battle.
    ///
    /// An arrow moves the cursor on the guess board by one cell, unless that
    /// would leave the board. The confirming key attacks the cell under the
    /// cursor on the opponent's board, unless the cell was attacked from here
    /// before: the guess board marks the shot and whether it did damage, the
    /// opponent takes its turn on the player's board, and the battle is
    /// finished as soon as one of the two boards is defeated. The opponent's
    /// move is returned: a cell that its level's policy can produce, or the
    /// first cell that may be attacked; nothing if no cell may be attacked.
    /// After the battle is finished, and for every other key, nothing changes.
    pub fn play_game(&mut self, state: &mut Play, key: Key) -> (r: Option<(u32, u32, AttackOutcome)>)
        requires
            old(self).wf(),
            old(self).guess_board.on_board(old(state).x as int, old(state).y as int),
        ensures
            final(self).wf(),
            final(self).guess_board.on_board(final(state).x as int, final(state).y as int),
            final(self).game_difficulty == old(self).game_difficulty,
            !old(state).finished && key != Key::Enter ==> {
                &&& r is None
                &&& final(self).player_board == old(self).player_board
                &&& final(self).ai_board == old(self).ai_board
                &&& final(self).ai == old(self).ai
                &&& final(state).finished == old(state).finished
                &&& final(state).player_won == old(state).player_won
                &&& match cursor_after(
                    old(state).x as int,
                    old(state).y as int,
                    old(self).guess_board.size(),
                    key,
                ) {
                    Some((nx, ny)) => {
                        &&& final(state).x == nx
                        &&& final(state).y == ny
                        &&& final(state).previous_ship_type == old(self).guess_board.cell(
                            nx,
                            ny,
                        ).ship_type
                        &&& old(self).guess_board.selection_moved_into(
                            final(self).guess_board,
                            old(state).x as int,
                            old(state).y as int,
                            old(state).previous_ship_type,
                            nx,
                            ny,
                        )
                    },
                    None => *final(state) == *old(state) && final(self).guess_board == old(self).guess_board,
                }
            },
            old(state).finished || (key == Key::Enter && old(state).previous_ship_type
                == ShipType::Shot) ==> {
                &&& r is None
                &&& *final(self) == *old(self)
                &&& *final(state) == *old(state)
            },
            !old(state).finished && key == Key::Enter && old(state).previous_ship_type
                != ShipType::Shot ==> {
                &&& final(state).x == old(state).x
                &&& final(state).y == old(state).y
                &&& final(state).previous_ship_type == ShipType::Shot
                &&& old(self).ai_board.attacked_into(
                    final(self).ai_board,
                    old(state).x as int,
                    old(state).y as int,
                )
                &&& old(self).guess_board.changed_at(
                    final(self).guess_board,
                    old(state).x as int,
                    old(state).y as int,
                    shot_marker(final(self).ai_board.cell(old(state).x as int, old(state).y as int).damaged),
                )
                &&& old(self).ai.turn_taken(
                    old(self).player_board,
                    &final(self).ai,
                    final(self).player_board,
                    r,
                )
                &&& r is None <==> old(self).ai.out_of_targets(old(self).player_board)
                &&& r is Some ==> old(self).ai.level_yields(
                    old(self).player_board,
                    old(self).game_difficulty,
                    (r->Some_0.0 as i64, r->Some_0.1 as i64),
                ) || old(self).ai.first_target(
                    old(self).player_board,
                    r->Some_0.0 as int,
                    r->Some_0.1 as int,
                )
                &&& final(state).finished == (final(self).ai_board.is_defeated()
                    || final(self).player_board.is_defeated())
                &&& final(state).player_won == if final(state).finished {
                    final(self).ai_board.is_defeated()
                } else {
                    old(state).player_won
                }
            },
    {
        if state.finished {
            return None;
        }
        let size: u32 = self.guess_board.get_board_size();
        let x: u32 = state.x;
        let y: u32 = state.y;
        match key {
            Key::Left => {
                if x > 0 {
                    self.move_cursor(state, x - 1, y);
                }
                None
            },
            Key::Right => {
                if x < size - 1 {
                    self.move_cursor(state, x + 1, y);
                }
                None
            },
            Key::Up => {
                if y > 0 {
                    self.move_cursor(state, x, y - 1);
                }
                None
            },
            Key::Down => {
                if y < size - 1 {
                    self.move_cursor(state, x, y + 1);
                }
                None
            },
            Key::Enter => {
                if state.previous_ship_type == ShipType::Shot {
                    return None;
                }
                let _ = self.ai_board.hit_ship(x, y);
                let damaged = match self.ai_board.ship_at(x, y) {
                    Ok(ship) => ship.damaged,
                    Err(_) => false,
                };
                match self.guess_board.get_ship(x, y) {
                    Ok(ship) => {
                        ship.damaged = damaged;
                        ship.ship_type = ShipType::Shot;
                    },
                    Err(_) => {},
                }
                let ghost marked = self.guess_board;
                let _ = self.guess_board.mark_ship_selection(&mut state.previous_ship_type, x, y);
                proof {
                    assert forall|cx: int, cy: int|
                        old(self).guess_board.on_board(cx, cy) implies #[trigger] self.guess_board.cell(
                        cx,
                        cy,
                    ) == if cx == x && cy == y {
                        shot_marker(damaged)
                    } else {
                        old(self).guess_board.cell(cx, cy)
                    } by {
                        assert(marked.on_board(cx, cy));
                        let between = marked.cell(cx, cy);
                    }
                }
                let answer = self.ai.do_turn(&mut self.player_board, self.game_difficulty);
                let ai_lost = self.ai_board.all_destroyed();
                let player_lost = self.player_board.all_destroyed();
                if ai_lost || player_lost {
                    state.finished = true;
                    state.player_won = ai_lost;
                }
                answer
            },
            _ => None,
        }
    }

    /// Begins the placement of the fleets: the opponent places its fleet on
    /// its board, and the player's placement starts. It fails only if a ship
    /// of the opponent's fleet can be placed nowhere on its board; the ships
    /// before it stay. That does not happen on a blank board of the default
    /// size.
    pub fn begin_setup(&mut self) -> (r: Result<Setup, BoardError>)
        requires
            old(self).wf(),
            !old(self).ai_board.has_overlap(),
        ensures
            final(self).wf(),
            final(self).player_board == old(self).player_board,
            final(self).guess_board == old(self).guess_board,
            final(self).ai == old(self).ai,
            final(self).game_difficulty == old(self).game_difficulty,
            !final(self).ai_board.has_overlap(),
            old(self).ai_board.is_blank() && old(self).ai_board.size()
                >= crate::fleet_room::ROOMY_BOARD_SIZE ==> r is Ok,
            r is Ok ==> r->Ok_0.wf(final(self).player_board) && r->Ok_0.select_mode && r->Ok_0.x == 0
                && r->Ok_0.y == 0 && r->Ok_0.horizontal && !r->Ok_0.finished
                && r->Ok_0.current_ship_type == ShipType::Destroyer && r->Ok_0.remaining_ships@
                == seq![0u32, 1u32, 1u32, 1u32, 1u32, 1u32],
            r is Ok ==> exists|berths: Seq<Berth>|
                berths.len() == FLEET_SIZE && #[trigger] fleet_laid(
                    old(self).ai_board,
                    final(self).ai_board,
                    berths,
                ),
            r is Err ==> r->Err_0 == BoardError::InvalidPlacement,
            r is Err ==> exists|berths: Seq<Berth>|
                berths.len() < FLEET_SIZE && #[trigger] fleet_laid(
                    old(self).ai_board,
                    final(self).ai_board,
                    berths,
                ) && forall|x: int, y: int, horizontal: bool|
                    !#[trigger] final(self).ai_board.can_place(
                        x,
                        y,
                        fleet_kind(berths.len() as int),
                        horizontal,
                    ),
    {
        match self.ai.place_ships(&mut self.ai_board) {
            Ok(()) => Ok(Setup::new()),
            Err(e) => Err(e),
        }
    }

    /// Takes the moving ship up from the player's board and lays it down at
    /// `to`.
    fn move_ship(&mut self, state: &mut Setup, to: (u32, u32, bool))
        requires
            old(self).wf(),
            old(state).wf(old(self).player_board),
            !old(state).select_mode,
            old(self).player_board.run_fits(
                to.0 as int,
                to.1 as int,
                old(state).current_ship_type.size() as int,
                to.2,
            ),
        ensures
            final(self).wf(),
            final(state).wf(final(self).player_board),
            ship_moved(
                old(self).player_board,
                final(self).player_board,
                old(state).current_ship_type,
                (old(state).x as int, old(state).y as int, old(state).horizontal),
                old(state).previous_ship_types@,
                (to.0 as int, to.1 as int, to.2),
                final(state).previous_ship_types@,
            ),
            final(state).x == to.0,
            final(state).y == to.1,
            final(state).horizontal == to.2,
            !final(state).select_mode,
            final(state).remaining_ships@ == old(state).remaining_ships@,
            final(state).finished == old(state).finished,
            final(state).current_ship_type == old(state).current_ship_type,
            final(self).ai_board == old(self).ai_board,
            final(self).guess_board == old(self).guess_board,
            final(self).ai == old(self).ai,
            final(self).game_difficulty == old(self).game_difficulty,
    {
        let kind = state.current_ship_type;
        let amount: u32 = kind.get_size();
        self.player_board.set_ship_types(state.x, state.y, &state.previous_ship_types, state.horizontal);
        let ghost lifted = self.player_board;
        state.x = to.0;
        state.y = to.1;
        state.horizontal = to.2;
        state.previous_ship_types = self.player_board.get_ship_types(to.0, to.1, amount, to.2);
        self.player_board.set_ship_type(to.0, to.1, kind, amount, to.2);
        proof {
            let from = (old(state).x as int, old(state).y as int, old(state).horizontal);
            let goal = (to.0 as int, to.1 as int, to.2);
            assert(old(self).player_board.restored_into(
                lifted,
                from.0,
                from.1,
                old(state).previous_ship_types@,
                from.2,
            ));
            assert(state.previous_ship_types@ == lifted.run_kinds(
                goal.0,
                goal.1,
                kind.size() as int,
                goal.2,
            ));
            assert(lifted.placed_into(
                self.player_board,
                goal.0,
                goal.1,
                kind,
                kind.size() as int,
                goal.2,
            ));
        }
    }

    /// One step of the player's fleet placement.
    ///
    /// While a ship is being selected, the left and right arrows step
    /// through the kinds; the confirming key lays a ship of the selected kind
    /// at the cursor, pulled back onto the board if need be, provided that one
    /// is still to be placed and the board is large enough for it; the escape
    /// key finishes the placement if no ship is left to be placed.
    ///
    /// While a ship is being moved, the arrows and the rotating key move it;
    /// the escape key takes it off the board again; the confirming key places
    /// it for good if the board signals no overlap, and puts the cursor back
    /// on the first cell.
    ///
    /// After the placement is finished, and for every other key, nothing
    /// changes.
    pub fn setup_board(&mut self, state: &mut Setup, key: Key)
        requires
            old(self).wf(),
            old(state).wf(old(self).player_board),
        ensures
            final(self).wf(),
            final(state).wf(final(self).player_board),
            final(self).ai_board == old(self).ai_board,
            final(self).guess_board == old(self).guess_board,
            final(self).ai == old(self).ai,
            final(self).game_difficulty == old(self).game_difficulty,
            final(self).player_board.size() == old(self).player_board.size(),
            old(state).finished ==> final(state).same_as(old(state)) && final(self).player_board
                == old(self).player_board,
            !old(state).finished && old(state).select_mode ==> selecting_step(
                old(self).player_board,
                *old(state),
                final(self).player_board,
                *final(state),
                key,
            ),
            !old(state).finished && !old(state).select_mode ==> moving_step(
                old(self).player_board,
                *old(state),
                final(self).player_board,
                *final(state),
                key,
            ),
    {
        if state.finished {
            return ;
        }
        let size: u32 = self.player_board.get_board_size();
        let kind = state.current_ship_type;
        let code: u32 = kind.to_u32();
        let amount: u32 = kind.get_size();
        if state.select_mode {
            match key {
                Key::Left => {
                    if code > 1 {
                        match ShipType::from_u32(code - 1) {
                            Some(next) => {
                                proof {
                                    ShipType::lemma_code_injective(next, kind_after(kind, key));
                                }
                                state.current_ship_type = next;
                            },
                            None => {},
                        }
                    }
                },
                Key::Right => {
                    if code < 5 {
                        match ShipType::from_u32(code + 1) {
                            Some(next) => {
                                proof {
                                    ShipType::lemma_code_injective(next, kind_after(kind, key));
                                }
                                state.current_ship_type = next;
                            },
                            None => {},
                        }
                    }
                },
                Key::Enter => {
                    if state.remaining_ships[code as usize] > 0 && amount <= size {
                        let horizontal = state.horizontal;
                        let x: u32 = if horizontal && state.x > size - amount {
                            size - amount
                        } else {
                            state.x
                        };
                        let y: u32 = if !horizontal && state.y > size - amount {
                            size - amount
                        } else {
                            state.y
                        };
                        state.select_mode = false;
                        state.x = x;
                        state.y = y;
                        state.previous_ship_types = self.player_board.get_ship_types(
                            x,
                            y,
                            amount,
                            horizontal,
                        );
                        self.player_board.set_ship_type(x, y, kind, amount, horizontal);
                    }
                },
                Key::Escape => {
                    state.finished = state.all_placed();
                },
                _ => {},
            }
        } else {
            match key {
                Key::Rotate => {
                    let horizontal = !state.horizontal;
                    let x: u32 = if horizontal && state.x > size - amount {
                        size - amount
                    } else {
                        state.x
                    };
                    let y: u32 = if !horizontal && state.y > size - amount {
                        size - amount
                    } else {
                        state.y
                    };
                    self.move_ship(state, (x, y, horizontal));
                },
                Key::Escape => {
                    state.select_mode = true;
                    self.player_board.set_ship_types(
                        state.x,
                        state.y,
                        &state.previous_ship_types,
                        state.horizontal,
                    );
                },
                Key::Enter => {
                    if !self.player_board.any_overlap() {
                        let left: u32 = state.remaining_ships[code as usize] - 1;
                        state.remaining_ships[code as usize] = left;
                        self.player_board.set_ship_type(state.x, state.y, kind, amount, state.horizontal);
                        state.x = 0;
                        state.y = 0;
                        state.select_mode = true;
                    }
                },
                Key::Left => {
                    if state.x > 0 {
                        self.move_ship(state, (state.x - 1, state.y, state.horizontal));
                    }
                },
                Key::Right => {
                    let reach: u32 = if state.horizontal { amount } else { 1 };
                    if state.x < size - reach {
                        self.move_ship(state, (state.x + 1, state.y, state.horizontal));
                    }
                },
                Key::Up => {
                    if state.y > 0 {
                        self.move_ship(state, (state.x, state.y - 1, state.horizontal));
                    }
                },
                Key::Down => {
                    let reach: u32 = if state.horizontal { 1 } else { amount };
                    if state.y < size - reach {
                        self.move_ship(state, (state.x, state.y + 1, state.horizontal));
                    }
                },
                _ => {},
            }
        }
    }
}

/// What a key does while a ship is being selected.
pub open spec fn selecting_step(pre: Board, before: Setup, post: Board, after: Setup, key: Key) -> bool {
    let kind = before.current_ship_type;
    let amount = kind.size() as int;
    match key {
        Key::Left | Key::Right => {
            &&& post == pre
            &&& after.current_ship_type == kind_after(kind, key)
            &&& after.x == before.x
            &&& after.y == before.y
            &&& after.select_mode
            &&& after.remaining_ships@ == before.remaining_ships@
            &&& after.horizontal == before.horizontal
            &&& !after.finished
            &&& after.previous_ship_types@ == before.previous_ship_types@
        },
        Key::Enter => if before.remaining_ships@[kind.code() as int] > 0 && amount <= pre.size() {
            let to = pulled_back(before.x as int, before.y as int, amount, before.horizontal, pre.size());
            &&& after.x == to.0
            &&& after.y == to.1
            &&& !after.select_mode
            &&& after.previous_ship_types@ == pre.run_kinds(to.0, to.1, amount, before.horizontal)
            &&& pre.placed_into(post, to.0, to.1, kind, amount, before.horizontal)
            &&& after.current_ship_type == kind
            &&& after.remaining_ships@ == before.remaining_ships@
            &&& after.horizontal == before.horizontal
            &&& !after.finished
        } else {
            post == pre && after.same_as(&before)
        },
        Key::Escape => {
            &&& post == pre
            &&& after.finished == none_remaining(before.remaining_ships@)
            &&& after.x == before.x
            &&& after.y == before.y
            &&& after.select_mode
            &&& after.remaining_ships@ == before.remaining_ships@
            &&& after.horizontal == before.horizontal
            &&& after.current_ship_type == kind
            &&& after.previous_ship_types@ == before.previous_ship_types@
        },
        _ => post == pre && after.same_as(&before),
    }
}

/// What a key does while a ship is being moved.
pub open spec fn moving_step(pre: Board, before: Setup, post: Board, after: Setup, key: Key) -> bool {
    let kind = before.current_ship_type;
    let amount = kind.size() as int;
    let from = (before.x as int, before.y as int, before.horizontal);
    match key {
        Key::Escape => {
            &&& pre.restored_into(post, from.0, from.1, before.previous_ship_types@, from.2)
            &&& after.select_mode
            &&& after.x == before.x
            &&& after.y == before.y
            &&& after.remaining_ships@ == before.remaining_ships@
            &&& after.horizontal == before.horizontal
            &&& !after.finished
            &&& after.current_ship_type == kind
            &&& after.previous_ship_types@ == before.previous_ship_types@
        },
        Key::Enter => if pre.has_overlap() {
            post == pre && after.same_as(&before)
        } else {
            &&& pre.placed_into(post, from.0, from.1, kind, amount, from.2)
            &&& after.remaining_ships@ == before.remaining_ships@.update(
                kind.code() as int,
                (before.remaining_ships@[kind.code() as int] - 1) as u32,
            )
            &&& after.x == 0
            &&& after.y == 0
            &&& after.select_mode
            &&& after.horizontal == before.horizontal
            &&& !after.finished
            &&& after.current_ship_type == kind
            &&& after.previous_ship_types@ == before.previous_ship_types@
        },
        _ => match berth_after(from.0, from.1, amount, from.2, pre.size(), key) {
            Some(to) => {
                &&& ship_moved(
                    pre,
                    post,
                    kind,
                    from,
                    before.previous_ship_types@,
                    to,
                    after.previous_ship_types@,
                )
                &&& after.x == to.0
                &&& after.y == to.1
                &&& after.horizontal == to.2
                &&& !after.select_mode
                &&& after.remaining_ships@ == before.remaining_ships@
                &&& !after.finished
                &&& after.current_ship_type == kind
            },
            None => post == pre && after.same_as(&before),
        },
    }
}

/// The cell that marks a shot under the cursor: the plain marker, damaged,
/// if the shot did damage, else the water marker, undamaged.
pub open spec fn shot_marker(damaged: bool) -> Ship {
    Ship {
        ship_type: selection_kind(Ship { ship_type: ShipType::Shot, damaged }),
        damaged,
    }
}

} // verus!
