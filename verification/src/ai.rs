//! The computer opponent: it places its fleet and picks the cell to attack,
//! by a policy that depends on the difficulty level and on what it has hit so
//! far.

use vstd::prelude::*;
use crate::board::{AttackOutcome, Board, BoardError, in_run, outcome_of};
use crate::difficulty::Difficulty;
use crate::fleet::{Berth, FLEET_SIZE, fleet_kind, fleet_laid, lemma_fleet_cleared, lemma_fleet_extend};
use crate::fleet_room::{ROOMY_BOARD_SIZE, lemma_room_for_next_ship};
use crate::random::{random_between, random_ratio};
use crate::ship::ShipType;

verus! {

/// How often a random draw is repeated before the opponent falls back on
/// scanning the board in order.
pub const MAX_RESAMPLES: u32 = 256;

/// A way to pick a candidate cell.
#[derive(Clone, Copy, PartialEq, Eq, Structural, Debug)]
pub enum Policy {
    /// Any cell of the grid.
    Random,
    /// One of the four corners.
    Corner,
    /// A cell in the middle of the grid.
    Center,
    /// A neighbour of a cell that was hit before.
    Smart,
}

/// The opponent's memory of a game.
pub struct AI {
    hit_spots: Vec<(u32, u32)>,
    attack_spots: Vec<(u32, u32)>,
}

/// The offset, on each axis -1, 0 or 1, that a number selects among the
/// eight neighbours of a cell. The numbers 0 to 7 walk the neighbours row by
/// row; every larger number selects the last one.
pub open spec fn neighbor_offset(option: int) -> (int, int) {
    if option == 0 {
        (-1, -1)
    } else if option == 1 {
        (0, -1)
    } else if option == 2 {
        (1, -1)
    } else if option == 3 {
        (-1, 0)
    } else if option == 4 {
        (1, 0)
    } else if option == 5 {
        (-1, 1)
    } else if option == 6 {
        (0, 1)
    } else {
        (1, 1)
    }
}

/// The policy that a drawn number selects at a difficulty level: always
/// `Random` at `Easy`; `Random` or `Smart` at `Medium`; `Corner`, `Center` or,
/// for two numbers of four, `Smart` at `Hard`.
pub open spec fn policy_for(difficulty: Difficulty, option: int) -> Policy {
    match difficulty {
        Difficulty::Easy => Policy::Random,
        Difficulty::Medium => if option == 0 {
            Policy::Random
        } else {
            Policy::Smart
        },
        Difficulty::Hard => if option == 0 {
            Policy::Corner
        } else if option == 1 {
            Policy::Center
        } else {
            Policy::Smart
        },
    }
}

/// Whether a difficulty level ever uses a policy.
pub open spec fn level_uses(difficulty: Difficulty, policy: Policy) -> bool {
    exists|option: int| policy_for(difficulty, option) == policy
}

/// The neighbour of `(hit_x, hit_y)` that `option` selects. The result may
/// lie off the grid, with a coordinate of -1 at the grid's edge.
pub fn neighbor(hit_x: u32, hit_y: u32, option: u32) -> (c: (i64, i64))
    ensures
        c.0 == hit_x + neighbor_offset(option as int).0,
        c.1 == hit_y + neighbor_offset(option as int).1,
{
    let x: i64 = hit_x as i64;
    let y: i64 = hit_y as i64;
    match option {
        0 => (x - 1, y - 1),
        1 => (x, y - 1),
        2 => (x + 1, y - 1),
        3 => (x - 1, y),
        4 => (x + 1, y),
        5 => (x - 1, y + 1),
        6 => (x, y + 1),
        _ => (x + 1, y + 1),
    }
}

/// The policy that a drawn number selects at a difficulty level.
pub fn choose_policy(difficulty: Difficulty, option: u32) -> (policy: Policy)
    ensures
        policy == policy_for(difficulty, option as int),
{
    match difficulty {
        Difficulty::Easy => Policy::Random,
        Difficulty::Medium => match option {
            0 => Policy::Random,
            _ => Policy::Smart,
        },
        Difficulty::Hard => match option {
            0 => Policy::Corner,
            1 => Policy::Center,
            _ => Policy::Smart,
        },
    }
}

impl AI {
    /// The cells that were hit, in the order of the hits.
    pub closed spec fn hits(&self) -> Seq<(u32, u32)> {
        self.hit_spots@
    }

    /// The cells that were attacked, in the order of the attacks.
    pub closed spec fn attacks(&self) -> Seq<(u32, u32)> {
        self.attack_spots@
    }

    /// The validity of the memory: no cell was attacked twice, and every hit
    /// was an attack.
    pub open spec fn wf(&self) -> bool {
        &&& self.attacks().no_duplicates()
        &&& self.hits().no_duplicates()
        &&& forall|i: int| 0 <= i < self.hits().len() ==> self.attacks().contains(#[trigger] self.hits()[i])
    }

    /// Whether `c` may be attacked: it lies on the board, was not attacked
    /// before, and its cell is not damaged.
    pub open spec fn valid_target(&self, board: Board, x: int, y: int) -> bool {
        &&& board.on_board(x, y)
        &&& !self.attacks().contains((x as u32, y as u32))
        &&& !board.cell(x, y).damaged
    }

    /// Whether no cell of the board may be attacked.
    pub open spec fn out_of_targets(&self, board: Board) -> bool {
        forall|cx: int, cy: int| board.on_board(cx, cy) ==> !#[trigger] self.valid_target(board, cx, cy)
    }

    /// Whether `c` is a neighbour of a cell that was hit, or, while nothing
    /// was hit, a cell of the grid.
    pub open spec fn smart_candidate(&self, board: Board, c: (i64, i64)) -> bool {
        if self.hits().len() == 0 {
            board.on_board(c.0 as int, c.1 as int)
        } else {
            exists|i: int, option: int|
                0 <= i < self.hits().len() && 0 <= option < 8 && c.0 == (#[trigger] self.hits()[i]).0
                    + neighbor_offset(option).0 && c.1 == self.hits()[i].1 + #[trigger] neighbor_offset(
                    option,
                ).1
        }
    }

    /// Whether `policy` can produce the candidate `c`.
    pub open spec fn policy_yields(&self, board: Board, policy: Policy, c: (i64, i64)) -> bool {
        match policy {
            Policy::Random => board.on_board(c.0 as int, c.1 as int),
            Policy::Corner => (c.0 == 0 || c.0 == board.size() - 1) && (c.1 == 0 || c.1
                == board.size() - 1),
            Policy::Center => {
                &&& board.size() / 4 <= c.0 <= board.size() / 4 + board.size() / 2
                &&& board.size() / 4 <= c.1 <= board.size() / 4 + board.size() / 2
            },
            Policy::Smart => self.smart_candidate(board, c),
        }
    }

    /// Whether the difficulty level has a policy that can produce the
    /// candidate `c`.
    pub open spec fn level_yields(&self, board: Board, difficulty: Difficulty, c: (i64, i64)) -> bool {
        exists|policy: Policy|
            level_uses(difficulty, policy) && #[trigger] self.policy_yields(board, policy, c)
    }

    /// Whether `(x, y)` is the first cell, row by row, that may be attacked.
    pub open spec fn first_target(&self, board: Board, x: int, y: int) -> bool {
        &&& self.valid_target(board, x, y)
        &&& forall|cx: int, cy: int|
            board.on_board(cx, cy) && (cy < y || (cy == y && cx < x)) ==> !#[trigger] self.valid_target(
                board,
                cx,
                cy,
            )
    }

    /// `post` and `board_after` are this memory and `board` after a turn
    /// that reported `r`: without a target nothing changed; otherwise the
    /// reported cell could be attacked, was attacked, and is remembered as
    /// attacked and, if the attack did damage, as hit.
    pub open spec fn turn_taken(
        &self,
        board: Board,
        post: &AI,
        board_after: Board,
        r: Option<(u32, u32, AttackOutcome)>,
    ) -> bool {
        match r {
            None => {
                &&& self.out_of_targets(board)
                &&& board_after == board
                &&& post.attacks() == self.attacks()
                &&& post.hits() == self.hits()
            },
            Some((x, y, outcome)) => {
                &&& self.valid_target(board, x as int, y as int)
                &&& outcome == outcome_of(board.cell(x as int, y as int))
                &&& outcome != AttackOutcome::AlreadyAttacked
                &&& board.attacked_into(board_after, x as int, y as int)
                &&& post.attacks() == self.attacks().push((x, y))
                &&& post.hits() == if outcome == AttackOutcome::Hit {
                    self.hits().push((x, y))
                } else {
                    self.hits()
                }
            },
        }
    }

    /// A fresh memory: nothing attacked, nothing hit.
    pub fn new() -> (ai: Self)
        ensures
            ai.wf(),
            ai.attacks() == Seq::<(u32, u32)>::empty(),
            ai.hits() == Seq::<(u32, u32)>::empty(),
    {
        Self { attack_spots: Vec::new(), hit_spots: Vec::new() }
    }

    /// The cells that were attacked, in the order of the attacks.
    pub fn attacked_cells(&self) -> (cells: &Vec<(u32, u32)>)
        ensures
            cells@ == self.attacks(),
    {
        &self.attack_spots
    }

    /// The cells that were hit, in the order of the hits.
    pub fn hit_cells(&self) -> (cells: &Vec<(u32, u32)>)
        ensures
            cells@ == self.hits(),
    {
        &self.hit_spots
    }

    /// Whether `(x, y)` was attacked before.
    pub fn has_attack(&self, x: u32, y: u32) -> (r: bool)
        ensures
            r == self.attacks().contains((x, y)),
    {
        let mut i: usize = 0;
        while i < self.attack_spots.len()
            invariant
                i <= self.attack_spots@.len(),
                forall|j: int| 0 <= j < i ==> self.attack_spots@[j] != (x, y),
            decreases self.attack_spots@.len() - i,
        {
            let spot = self.attack_spots[i];
            if spot.0 == x && spot.1 == y {
                return true;
            }
            i += 1;
        }
        false
    }

    /// A cell of the grid, drawn at random.
    pub fn random_turn(&self, player_board: &Board) -> (c: (i64, i64))
        requires
            player_board.wf(),
        ensures
            self.policy_yields(*player_board, Policy::Random, c),
    {
        let last: usize = (player_board.get_board_size() - 1) as usize;
        let x = random_between(0, last);
        let y = random_between(0, last);
        (x as i64, y as i64)
    }

    /// The corner that two draws select: on each axis the draw 0 selects the
    /// first row or column, the draw 1 the last.
    pub fn corner_pick(&self, player_board: &Board, side_x: usize, side_y: usize) -> (c: (i64, i64))
        requires
            player_board.wf(),
            side_x <= 1,
            side_y <= 1,
        ensures
            c.0 == side_x * (player_board.size() - 1),
            c.1 == side_y * (player_board.size() - 1),
            self.policy_yields(*player_board, Policy::Corner, c),
    {
        let last: usize = (player_board.get_board_size() - 1) as usize;
        let x: usize = if side_x == 0 { 0 } else { last };
        let y: usize = if side_y == 0 { 0 } else { last };
        (x as i64, y as i64)
    }

    /// One of the four corners of the grid, the side chosen on each axis by
    /// itself.
    pub fn corner_turn(&self, player_board: &Board) -> (c: (i64, i64))
        requires
            player_board.wf(),
        ensures
            self.policy_yields(*player_board, Policy::Corner, c),
    {
        let side_x = random_between(0, 1);
        let side_y = random_between(0, 1);
        self.corner_pick(player_board, side_x, side_y)
    }

    /// A cell in the middle of the grid: on each axis it is at least a quarter
    /// of the size, and at most three quarters.
    pub fn center_turn(&self, player_board: &Board) -> (c: (i64, i64))
        requires
            player_board.wf(),
        ensures
            self.policy_yields(*player_board, Policy::Center, c),
    {
        let middle: usize = (player_board.get_board_size() / 2) as usize;
        let width: usize = (player_board.get_board_size() / 4) as usize;
        let x = random_between(width, width + middle);
        let y = random_between(width, width + middle);
        (x as i64, y as i64)
    }

    /// The neighbour that `option` selects of the hit with the number `index`.
    pub fn smart_pick(&self, index: usize, option: u32) -> (c: (i64, i64))
        requires
            index < self.hits().len(),
        ensures
            c.0 == self.hits()[index as int].0 + neighbor_offset(option as int).0,
            c.1 == self.hits()[index as int].1 + neighbor_offset(option as int).1,
    {
        let hit = self.hit_spots[index];
        neighbor(hit.0, hit.1, option)
    }

    /// While nothing was hit, a cell of the grid; afterwards one of the eight
    /// neighbours of one of the cells that were hit. The neighbour may lie off
    /// the grid.
    pub fn smart_turn(&self, player_board: &Board) -> (c: (i64, i64))
        requires
            player_board.wf(),
        ensures
            self.policy_yields(*player_board, Policy::Smart, c),
    {
        if self.hit_spots.len() == 0 {
            return self.random_turn(player_board);
        }
        let index = random_between(0, self.hit_spots.len() - 1);
        let option = random_between(0, 7);
        self.smart_pick(index, option as u32)
    }

    /// A candidate by the policy that a draw selects for the difficulty level.
    pub fn propose(&self, player_board: &Board, game_difficulty: Difficulty) -> (r: (Policy, (i64, i64)))
        requires
            player_board.wf(),
        ensures
            level_uses(game_difficulty, r.0),
            self.policy_yields(*player_board, r.0, r.1),
    {
        let option: usize = match game_difficulty {
            Difficulty::Easy => 0,
            Difficulty::Medium => random_between(0, 1),
            Difficulty::Hard => random_between(0, 3),
        };
        let policy = choose_policy(game_difficulty, option as u32);
        let c = match policy {
            Policy::Random => self.random_turn(player_board),
            Policy::Corner => self.corner_turn(player_board),
            Policy::Center => self.center_turn(player_board),
            Policy::Smart => self.smart_turn(player_board),
        };
        (policy, c)
    }

    /// Whether `c` may be attacked.
    pub fn is_valid_target(&self, player_board: &Board, c: (i64, i64)) -> (r: bool)
        requires
            player_board.wf(),
        ensures
            r == self.valid_target(*player_board, c.0 as int, c.1 as int),
    {
        let size: u32 = player_board.get_board_size();
        if c.0 < 0 || c.1 < 0 || c.0 >= size as i64 || c.1 >= size as i64 {
            return false;
        }
        let x: u32 = c.0 as u32;
        let y: u32 = c.1 as u32;
        if self.has_attack(x, y) {
            return false;
        }
        match player_board.ship_at(x, y) {
            Ok(ship) => !ship.damaged,
            Err(_) => false,
        }
    }

    /// Attacks the candidate `c` if it may be attacked, and remembers the
    /// attack and, if it did damage, the hit. A candidate that may not be
    /// attacked changes nothing.
    pub fn attack_at(&mut self, player_board: &mut Board, c: (i64, i64)) -> (r: Option<AttackOutcome>)
        requires
            old(self).wf(),
            old(player_board).wf(),
        ensures
            final(self).wf(),
            final(player_board).wf(),
            r is Some <==> old(self).valid_target(*old(player_board), c.0 as int, c.1 as int),
            r is None ==> *final(player_board) == *old(player_board),
            r is None ==> final(self).attacks() == old(self).attacks(),
            r is None ==> final(self).hits() == old(self).hits(),
            r is Some ==> r->Some_0 == outcome_of(old(player_board).cell(c.0 as int, c.1 as int))
                && r->Some_0 != AttackOutcome::AlreadyAttacked,
            r is Some ==> old(player_board).attacked_into(
                *final(player_board),
                c.0 as int,
                c.1 as int,
            ),
            r is Some ==> final(self).attacks() == old(self).attacks().push((c.0 as u32, c.1 as u32)),
            r is Some ==> final(self).hits() == if r->Some_0 == AttackOutcome::Hit {
                old(self).hits().push((c.0 as u32, c.1 as u32))
            } else {
                old(self).hits()
            },
    {
        if !self.is_valid_target(player_board, c) {
            return None;
        }
        let x: u32 = c.0 as u32;
        let y: u32 = c.1 as u32;
        let outcome = match player_board.hit_ship(x, y) {
            Ok(outcome) => outcome,
            Err(_) => {
                return None;
            },
        };
        proof {
            lemma_push_fresh(self.attacks(), (x, y));
            assert(!self.hits().contains((x, y)));
            lemma_push_fresh(self.hits(), (x, y));
        }
        if outcome == AttackOutcome::Hit {
            self.hit_spots.push((x, y));
        }
        self.attack_spots.push((x, y));
        proof {
            assert forall|i: int| 0 <= i < self.hits().len() implies self.attacks().contains(
                #[trigger] self.hits()[i],
            ) by {
                if i < old(self).hits().len() {
                    let h = old(self).hits()[i];
                    assert(old(self).attacks().contains(h));
                    let j = choose|j: int| 0 <= j < old(self).attacks().len() && old(self).attacks()[j] == h;
                    assert(self.attacks()[j] == h);
                } else {
                    assert(self.attacks()[old(self).attacks().len() as int] == (x, y));
                }
            }
        }
        Some(outcome)
    }

    /// The first cell, row by row, that may be attacked, if there is one.
    pub fn first_open_target(&self, player_board: &Board) -> (r: Option<(u32, u32)>)
        requires
            player_board.wf(),
        ensures
            r is Some ==> self.first_target(*player_board, r->Some_0.0 as int, r->Some_0.1 as int),
            r is None ==> self.out_of_targets(*player_board),
    {
        let size: u32 = player_board.get_board_size();
        let mut y: u32 = 0;
        while y < size
            invariant
                y <= size,
                size == player_board.size(),
                player_board.wf(),
                forall|cx: int, cy: int|
                    player_board.on_board(cx, cy) && cy < y ==> !#[trigger] self.valid_target(
                        *player_board,
                        cx,
                        cy,
                    ),
            decreases size - y,
        {
            let mut x: u32 = 0;
            while x < size
                invariant
                    x <= size,
                    y < size,
                    size == player_board.size(),
                    player_board.wf(),
                    forall|cx: int, cy: int|
                        player_board.on_board(cx, cy) && (cy < y || (cy == y && cx < x))
                            ==> !#[trigger] self.valid_target(*player_board, cx, cy),
                decreases size - x,
            {
                if self.is_valid_target(player_board, (x as i64, y as i64)) {
                    return Some((x, y));
                }
                x += 1;
            }
            y += 1;
        }
        None
    }

    /// What a policy can produce depends on the memory only through the
    /// cells that were hit.
    proof fn lemma_same_memory_same_candidates(
        &self,
        other: &AI,
        board: Board,
        policy: Policy,
        c: (i64, i64),
    )
        requires
            self.hits() == other.hits(),
        ensures
            self.policy_yields(board, policy, c) == other.policy_yields(board, policy, c),
    {
    }

    /// Takes the opponent's turn: picks a cell that may be attacked, attacks
    /// it and remembers the attack. Candidates come from the policy of the
    /// difficulty level; one that may not be attacked is dropped and another
    /// is drawn. After `MAX_RESAMPLES` draws the first cell that may be
    /// attacked is taken. So the cell that is attacked is one that the level's
    /// policy can produce, or the first that may be attacked. Nothing is
    /// returned, and nothing changes, exactly if no cell of the board may be
    /// attacked.
    pub fn do_turn(&mut self, player_board: &mut Board, game_difficulty: Difficulty) -> (r: Option<
        (u32, u32, AttackOutcome),
    >)
        requires
            old(self).wf(),
            old(player_board).wf(),
        ensures
            final(self).wf(),
            final(player_board).wf(),
            r is None <==> old(self).out_of_targets(*old(player_board)),
            old(self).turn_taken(*old(player_board), final(self), *final(player_board), r),
            r is Some ==> old(self).level_yields(
                *old(player_board),
                game_difficulty,
                (r->Some_0.0 as i64, r->Some_0.1 as i64),
            ) || old(self).first_target(
                *old(player_board),
                r->Some_0.0 as int,
                r->Some_0.1 as int,
            ),
    {
        let mut tries: u32 = 0;
        while tries < MAX_RESAMPLES
            invariant
                self.attacks() == old(self).attacks(),
                self.hits() == old(self).hits(),
                *player_board == *old(player_board),
                self.wf(),
                player_board.wf(),
            decreases MAX_RESAMPLES - tries,
        {
            let (policy, c) = self.propose(player_board, game_difficulty);
            proof {
                self.lemma_same_memory_same_candidates(old(self), *player_board, policy, c);
            }
            match self.attack_at(player_board, c) {
                Some(outcome) => {
                    assert(old(self).valid_target(*old(player_board), c.0 as int, c.1 as int));
                    assert((c.0 as u32) as i64 == c.0 && (c.1 as u32) as i64 == c.1);
                    return Some((c.0 as u32, c.1 as u32, outcome));
                },
                None => {},
            }
            tries += 1;
        }
        match self.first_open_target(player_board) {
            Some((x, y)) => {
                let c = (x as i64, y as i64);
                assert(old(self).valid_target(*old(player_board), x as int, y as int));
                assert forall|cx: int, cy: int|
                    old(player_board).on_board(cx, cy) && (cy < y || (cy == y && cx < x)) implies !#[trigger] old(self).valid_target(*old(player_board), cx, cy) by {
                    assert(!self.valid_target(*player_board, cx, cy));
                }
                match self.attack_at(player_board, c) {
                    Some(outcome) => Some((x, y, outcome)),
                    None => None,
                }
            },
            None => {
                assert forall|cx: int, cy: int|
                    old(player_board).on_board(cx, cy) implies !#[trigger] old(self).valid_target(
                    *old(player_board),
                    cx,
                    cy,
                ) by {
                    assert(!self.valid_target(*player_board, cx, cy));
                }
                None
            },
        }
    }

    /// Places one ship of `ship_type` on the board. Berths are drawn at
    /// random among those that lie on the board, up to `MAX_RESAMPLES`
    /// times; after that every berth is tried in order. The ship's berth is
    /// returned. The placement fails exactly if the ship can be placed
    /// nowhere.
    pub fn place_ship(&self, ai_board: &mut Board, ship_type: ShipType) -> (r: Result<
        (u32, u32, bool),
        BoardError,
    >)
        requires
            old(ai_board).wf(),
            !old(ai_board).has_overlap(),
        ensures
            final(ai_board).wf(),
            !final(ai_board).has_overlap(),
            r is Err <==> forall|x: int, y: int, horizontal: bool|
                !#[trigger] old(ai_board).can_place(x, y, ship_type, horizontal),
            r is Err ==> r == Err::<(u32, u32, bool), BoardError>(BoardError::InvalidPlacement),
            r is Err ==> old(ai_board).cleared_into(*final(ai_board)),
            r is Ok ==> old(ai_board).can_place(
                r->Ok_0.0 as int,
                r->Ok_0.1 as int,
                ship_type,
                r->Ok_0.2,
            ) && old(ai_board).ship_laid(
                *final(ai_board),
                r->Ok_0.0 as int,
                r->Ok_0.1 as int,
                ship_type,
                r->Ok_0.2,
            ),
    {
        let size: u32 = ai_board.get_board_size();
        let ship_size: u32 = ship_type.get_size();
        if ship_size <= size {
            let mut tries: u32 = 0;
            while tries < MAX_RESAMPLES
                invariant
                    ai_board.wf(),
                    size == ai_board.size(),
                    ship_size == ship_type.size(),
                    ship_size <= size,
                    !old(ai_board).has_overlap(),
                    old(ai_board).cleared_into(*ai_board),
                decreases MAX_RESAMPLES - tries,
            {
                let hor_pos: u32 = random_between(0, (size - ship_size) as usize) as u32;
                let ver_pos: u32 = random_between(0, (size - 1) as usize) as u32;
                let horizontal = random_ratio(1, 2);
                let x: u32 = if horizontal { hor_pos } else { ver_pos };
                let y: u32 = if horizontal { ver_pos } else { hor_pos };
                if Self::attempt(ai_board, Ghost(*old(ai_board)), x, y, ship_type, horizontal) {
                    return Ok((x, y, horizontal));
                }
                tries += 1;
            }
        }
        let mut y: u32 = 0;
        while y < size
            invariant
                y <= size,
                ai_board.wf(),
                size == ai_board.size(),
                !old(ai_board).has_overlap(),
                old(ai_board).cleared_into(*ai_board),
                forall|cx: int, cy: int, horizontal: bool|
                    0 <= cx < size && 0 <= cy < y ==> !#[trigger] old(ai_board).can_place(
                        cx,
                        cy,
                        ship_type,
                        horizontal,
                    ),
            decreases size - y,
        {
            let mut x: u32 = 0;
            while x < size
                invariant
                    x <= size,
                    y < size,
                    ai_board.wf(),
                    size == ai_board.size(),
                    !old(ai_board).has_overlap(),
                    old(ai_board).cleared_into(*ai_board),
                    forall|cx: int, cy: int, horizontal: bool|
                        0 <= cx < size && (0 <= cy < y || (cy == y && cx < x)) ==> !#[trigger] old(ai_board).can_place(cx, cy, ship_type, horizontal),
                decreases size - x,
            {
                if Self::attempt(ai_board, Ghost(*old(ai_board)), x, y, ship_type, true) {
                    return Ok((x, y, true));
                }
                if Self::attempt(ai_board, Ghost(*old(ai_board)), x, y, ship_type, false) {
                    return Ok((x, y, false));
                }
                x += 1;
            }
            y += 1;
        }
        proof {
            let first = *old(ai_board);
            assert(!first.can_place(0, 0, ship_type, true));
            assert forall|x: int, y: int, horizontal: bool| !#[trigger] first.can_place(
                x,
                y,
                ship_type,
                horizontal,
            ) by {
                if !first.on_board(x, y) && first.can_place(x, y, ship_type, horizontal) {
                    if ship_type.size() == 0 {
                        assert(first.placement_clear(0, 0, ship_type, 0, true)) by {
                            assert forall|cx: int, cy: int| first.on_board(cx, cy) implies !in_run(
                                cx,
                                cy,
                                0,
                                0,
                                0,
                                true,
                            ) && !crate::board::signals_overlap(#[trigger] first.cell(cx, cy)) by {}
                        }
                    }
                }
            }
        }
        Err(BoardError::InvalidPlacement)
    }

    /// Tries one berth on a board that came from `first` by clearing damage,
    /// and says whether the ship stands.
    fn attempt(
        ai_board: &mut Board,
        Ghost(first): Ghost<Board>,
        x: u32,
        y: u32,
        ship_type: ShipType,
        horizontal: bool,
    ) -> (placed: bool)
        requires
            old(ai_board).wf(),
            !first.has_overlap(),
            first.cleared_into(*old(ai_board)),
        ensures
            final(ai_board).wf(),
            placed == first.can_place(x as int, y as int, ship_type, horizontal),
            placed ==> first.ship_laid(*final(ai_board), x as int, y as int, ship_type, horizontal)
                && !final(ai_board).has_overlap(),
            !placed ==> first.cleared_into(*final(ai_board)),
    {
        proof {
            first.lemma_cleared_same_placements(*ai_board, x as int, y as int, ship_type, horizontal);
        }
        let ghost before = *ai_board;
        match ai_board.try_place(x, y, ship_type, horizontal) {
            Ok(()) => {
                proof {
                    before.lemma_placed_without_overlap(
                        *ai_board,
                        x as int,
                        y as int,
                        ship_type,
                        horizontal,
                    );
                    assert forall|cx: int, cy: int| first.on_board(cx, cy) implies if in_run(
                        cx,
                        cy,
                        x as int,
                        y as int,
                        ship_type.size() as int,
                        horizontal,
                    ) {
                        #[trigger] ai_board.cell(cx, cy) == (crate::ship::Ship {
                            ship_type,
                            damaged: false,
                        })
                    } else {
                        ai_board.cell(cx, cy).ship_type == first.cell(cx, cy).ship_type && (
                        ai_board.cell(cx, cy).damaged ==> first.cell(cx, cy).damaged)
                    } by {
                        assert(before.on_board(cx, cy));
                        let between = before.cell(cx, cy);
                    }
                }
                true
            },
            Err(_) => {
                proof {
                    assert forall|cx: int, cy: int| first.on_board(cx, cy) implies (
                    #[trigger] ai_board.cell(cx, cy)).ship_type == first.cell(cx, cy).ship_type && (
                    ai_board.cell(cx, cy).damaged ==> first.cell(cx, cy).damaged) by {
                        assert(before.on_board(cx, cy));
                        let between = before.cell(cx, cy);
                    }
                }
                false
            },
        }
    }

    /// Places a fleet on the board: one ship of each kind, from the smallest
    /// to the largest, each by `place_ship`. The placement stops at the first
    /// ship that can be placed nowhere; the ships before it stay. On a blank
    /// board of `ROOMY_BOARD_SIZE` rows and columns or more every ship finds
    /// room.
    pub fn place_ships(&self, ai_board: &mut Board) -> (r: Result<(), BoardError>)
        requires
            old(ai_board).wf(),
            !old(ai_board).has_overlap(),
        ensures
            final(ai_board).wf(),
            !final(ai_board).has_overlap(),
            old(ai_board).is_blank() && old(ai_board).size() >= ROOMY_BOARD_SIZE ==> r is Ok,
            r is Ok ==> exists|berths: Seq<Berth>|
                berths.len() == FLEET_SIZE && #[trigger] fleet_laid(
                    *old(ai_board),
                    *final(ai_board),
                    berths,
                ),
            r is Err ==> r == Err::<(), BoardError>(BoardError::InvalidPlacement),
            r is Err ==> exists|berths: Seq<Berth>|
                berths.len() < FLEET_SIZE && #[trigger] fleet_laid(
                    *old(ai_board),
                    *final(ai_board),
                    berths,
                ) && forall|x: int, y: int, horizontal: bool|
                    !#[trigger] final(ai_board).can_place(
                        x,
                        y,
                        fleet_kind(berths.len() as int),
                        horizontal,
                    ),
    {
        let ghost mut berths: Seq<Berth> = Seq::empty();
        let mut placed: u32 = 0;
        while placed < FLEET_SIZE
            invariant
                placed <= FLEET_SIZE,
                berths.len() == placed,
                ai_board.wf(),
                !ai_board.has_overlap(),
                fleet_laid(*old(ai_board), *ai_board, berths),
            decreases FLEET_SIZE - placed,
        {
            let ship_type = ShipType::from_u32(placed + 1).unwrap();
            proof {
                ShipType::lemma_code_injective(ship_type, fleet_kind(placed as int));
                if old(ai_board).is_blank() && old(ai_board).size() >= ROOMY_BOARD_SIZE {
                    lemma_room_for_next_ship(*old(ai_board), *ai_board, berths);
                }
            }
            let ghost before = *ai_board;
            match self.place_ship(ai_board, ship_type) {
                Ok((x, y, horizontal)) => {
                    proof {
                        lemma_fleet_extend(
                            *old(ai_board),
                            before,
                            *ai_board,
                            berths,
                            x as int,
                            y as int,
                            horizontal,
                        );
                        berths = berths.push((x as int, y as int, horizontal));
                    }
                },
                Err(e) => {
                    proof {
                        lemma_fleet_cleared(*old(ai_board), before, *ai_board, berths);
                        assert forall|x: int, y: int, horizontal: bool| !#[trigger] ai_board.can_place(
                            x,
                            y,
                            ship_type,
                            horizontal,
                        ) by {
                            before.lemma_cleared_same_placements(*ai_board, x, y, ship_type, horizontal);
                        }
                    }
                    return Err(e);
                },
            }
            placed += 1;
        }
        Ok(())
    }
}

/// No cell is attacked twice: two attacks that the opponent remembers went
/// to two different cells.
pub proof fn lemma_no_cell_attacked_twice(ai: AI, i: int, j: int)
    requires
        ai.wf(),
        0 <= i < j < ai.attacks().len(),
    ensures
        ai.attacks()[i] != ai.attacks()[j],
{
}

/// What the opponent remembers only grows: a turn appends at most one
/// attack and at most one hit, and drops nothing.
pub proof fn lemma_memory_only_grows(
    ai: AI,
    board: Board,
    post: AI,
    board_after: Board,
    r: Option<(u32, u32, AttackOutcome)>,
)
    requires
        ai.turn_taken(board, &post, board_after, r),
    ensures
        ai.attacks().is_prefix_of(post.attacks()),
        ai.hits().is_prefix_of(post.hits()),
        post.hits().len() <= ai.hits().len() + 1,
        post.attacks().len() == ai.attacks().len() + if r is Some {
            1int
        } else {
            0int
        },
{
}

/// A sequence without duplicates stays so when a value that it does not
/// hold is appended.
pub proof fn lemma_push_fresh<T>(s: Seq<T>, v: T)
    requires
        s.no_duplicates(),
        !s.contains(v),
    ensures
        s.push(v).no_duplicates(),
{
    assert forall|i: int, j: int|
        0 <= i < s.push(v).len() && 0 <= j < s.push(v).len() && i != j implies s.push(v)[i] != s.push(
        v,
    )[j] by {
        if i < s.len() && j < s.len() {
        } else if i < s.len() {
            assert(s.contains(s[i]));
        } else {
            assert(s.contains(s[j]));
        }
    }
}

} // verus!
