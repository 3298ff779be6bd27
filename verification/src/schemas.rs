//! The board model: coordinates, directions and the snapshot of one turn.
//!
//! These are plain values. The only behaviour here is geometry: stepping a
//! coordinate in a direction, subtracting two coordinates, and reading a
//! unit delta back as a direction.

use vstd::prelude::*;
use vstd::std_specs::ops::SubSpecImpl;
use crate::snake::BattleSnake;

verus! {

/// The rules a game is played under.
#[derive(Debug, Clone)]
pub struct RuleSet {
    pub name: String,
    pub version: String,
}

/// Identity and settings of a game; opaque to the engine.
#[derive(Debug, Clone)]
pub struct Game {
    pub id: String,
    pub ruleset: RuleSet,
    pub map: String,
    pub timeout: u32,
    pub source: String,
}

/// A direction of travel. `NoMove` is the placeholder carried by the root of
/// a search tree and is never a valid answer.
#[derive(Debug, Clone, Copy, PartialEq, Eq, Structural, Hash)]
pub enum BattleSnakeMove {
    Up,
    Down,
    Left,
    Right,
    NoMove,
}

impl BattleSnakeMove {
    /// The four real directions, in the order in which the engine always
    /// enumerates them.
    pub open spec fn all_moves() -> Seq<BattleSnakeMove> {
        seq![
            BattleSnakeMove::Up,
            BattleSnakeMove::Down,
            BattleSnakeMove::Left,
            BattleSnakeMove::Right,
        ]
    }

    /// The full set of directions a snake may consider: every direction but
    /// the placeholder, each once, in priority order.
    pub fn all() -> (moves: Vec<BattleSnakeMove>)
        ensures
            moves@ == Self::all_moves(),
    {
        let mut moves = Vec::new();
        moves.push(BattleSnakeMove::Up);
        moves.push(BattleSnakeMove::Down);
        moves.push(BattleSnakeMove::Left);
        moves.push(BattleSnakeMove::Right);
        assert(moves@ =~= Self::all_moves());
        moves
    }
}

impl Default for BattleSnakeMove {
    fn default() -> (direction: BattleSnakeMove)
        ensures
            direction == BattleSnakeMove::Up,
    {
        BattleSnakeMove::Up
    }
}

/// The direction that a delta of one cell stands for, if it stands for one:
/// `(0, 1)` is Up, `(0, -1)` Down, `(1, 0)` Right and `(-1, 0)` Left. A zero,
/// diagonal or longer delta is no direction.
pub open spec fn heading_of(dx: int, dy: int) -> Option<BattleSnakeMove> {
    if dx == 0 && dy == 1 {
        Some(BattleSnakeMove::Up)
    } else if dx == 0 && dy == -1 {
        Some(BattleSnakeMove::Down)
    } else if dy == 0 && dx == 1 {
        Some(BattleSnakeMove::Right)
    } else if dy == 0 && dx == -1 {
        Some(BattleSnakeMove::Left)
    } else {
        None
    }
}

/// A cell of the board grid, or the difference of two cells.
#[derive(Debug, Clone, Copy, PartialEq, Eq, Structural, Hash)]
pub struct Coordinate {
    pub x: i32,
    pub y: i32,
}

impl Coordinate {
    /// Where one step in `direction` leads, over unbounded integers. Up
    /// increases `y`, Down decreases `y`, Left decreases `x`, Right increases
    /// `x`, and `NoMove` stays in place.
    pub open spec fn step(self, direction: BattleSnakeMove) -> (int, int) {
        match direction {
            BattleSnakeMove::Up => (self.x as int, self.y + 1),
            BattleSnakeMove::Down => (self.x as int, self.y - 1),
            BattleSnakeMove::Left => (self.x - 1, self.y as int),
            BattleSnakeMove::Right => (self.x + 1, self.y as int),
            BattleSnakeMove::NoMove => (self.x as int, self.y as int),
        }
    }

    /// Whether the step in `direction` lands on a representable cell.
    pub open spec fn can_translate(self, direction: BattleSnakeMove) -> bool {
        i32::MIN <= self.step(direction).0 <= i32::MAX
            && i32::MIN <= self.step(direction).1 <= i32::MAX
    }

    /// The cell reached by one step in `direction`.
    pub open spec fn translated(self, direction: BattleSnakeMove) -> Coordinate {
        Coordinate { x: self.step(direction).0 as i32, y: self.step(direction).1 as i32 }
    }

    /// Moves one step in `direction`.
    pub fn translate(&self, direction: &BattleSnakeMove) -> (moved: Coordinate)
        requires
            self.can_translate(*direction),
        ensures
            moved == self.translated(*direction),
            (moved.x as int, moved.y as int) == self.step(*direction),
    {
        match direction {
            BattleSnakeMove::Up => Coordinate { x: self.x, y: self.y + 1 },
            BattleSnakeMove::Down => Coordinate { x: self.x, y: self.y - 1 },
            BattleSnakeMove::Left => Coordinate { x: self.x - 1, y: self.y },
            BattleSnakeMove::Right => Coordinate { x: self.x + 1, y: self.y },
            BattleSnakeMove::NoMove => *self,
        }
    }

    /// Reads this coordinate as a delta and names the direction it stands for.
    pub fn to_direction(&self) -> (heading: Option<BattleSnakeMove>)
        ensures
            heading == heading_of(self.x as int, self.y as int),
    {
        if self.x == 0 {
            if self.y == 1 {
                return Some(BattleSnakeMove::Up);
            } else if self.y == -1 {
                return Some(BattleSnakeMove::Down);
            }
        }
        if self.y == 0 {
            if self.x == 1 {
                return Some(BattleSnakeMove::Right);
            } else if self.x == -1 {
                return Some(BattleSnakeMove::Left);
            }
        }
        None
    }

    /// Whether `self - rhs` is representable in both components.
    pub open spec fn can_subtract(self, rhs: Coordinate) -> bool {
        i32::MIN <= self.x - rhs.x <= i32::MAX && i32::MIN <= self.y - rhs.y <= i32::MAX
    }
}

impl core::ops::Sub for Coordinate {
    type Output = Coordinate;

    /// Component-wise difference.
    fn sub(self, rhs: Coordinate) -> (delta: Coordinate) {
        Coordinate { x: self.x - rhs.x, y: self.y - rhs.y }
    }
}

impl SubSpecImpl for Coordinate {
    open spec fn obeys_sub_spec() -> bool {
        true
    }

    open spec fn sub_req(self, rhs: Coordinate) -> bool {
        self.can_subtract(rhs)
    }

    open spec fn sub_spec(self, rhs: Coordinate) -> Coordinate {
        Coordinate { x: (self.x - rhs.x) as i32, y: (self.y - rhs.y) as i32 }
    }
}

/// The board of one turn: the grid `[0, width) x [0, height)` and what lies
/// on it.
#[derive(Debug, Clone)]
pub struct Board {
    pub height: i32,
    pub width: i32,
    pub food: Vec<Coordinate>,
    pub hazards: Vec<Coordinate>,
    pub snakes: Vec<BattleSnake>,
}

impl Board {
    /// Every cell held by a body segment of a snake on the board other than
    /// the one called `id`.
    pub open spec fn other_cells(self, id: Seq<char>) -> Set<Coordinate> {
        Set::new(
            |c: Coordinate|
                exists|s: int, j: int|
                    0 <= s < self.snakes@.len() && self.snakes@[s].id@ != id && 0 <= j
                        < self.snakes@[s].body@.len() && #[trigger] self.snakes@[s].body@[j] == c,
        )
    }

    /// The cells that snakes hold while the snake called `id` has the body
    /// `body`: that body, and the bodies of all other snakes where the
    /// board has them. Where the board has the snake `id` itself does not
    /// count.
    pub open spec fn occupied(self, id: Seq<char>, body: Seq<Coordinate>) -> Set<Coordinate> {
        Set::new(|c: Coordinate| self.other_cells(id).contains(c) || body.contains(c))
    }

    /// Every hazard cell.
    pub open spec fn hazard_cells(self) -> Set<Coordinate> {
        Set::new(|c: Coordinate| self.hazards@.contains(c))
    }

    /// Every cell with food on it.
    pub open spec fn food_cells(self) -> Set<Coordinate> {
        Set::new(|c: Coordinate| self.food@.contains(c))
    }

    /// Whether `c` lies on the grid.
    pub open spec fn contains_cell(self, c: Coordinate) -> bool {
        0 <= c.x < self.width && 0 <= c.y < self.height
    }

    /// The boards the engine plays on: at least two cells along each axis.
    pub open spec fn playable(self) -> bool {
        2 <= self.width && 2 <= self.height
    }

    /// Tests [`Board::contains_cell`].
    pub fn has_cell(&self, c: &Coordinate) -> (inside: bool)
        ensures
            inside == self.contains_cell(*c),
    {
        0 <= c.x && c.x < self.width && 0 <= c.y && c.y < self.height
    }

    /// Tests [`Board::playable`].
    pub fn is_playable(&self) -> (ok: bool)
        ensures
            ok == self.playable(),
    {
        2 <= self.width && 2 <= self.height
    }
}

/// How a snake is drawn.
#[derive(Debug, Clone)]
pub struct BattleSnakeCustomization {
    pub color: String,
    pub head: String,
    pub tail: String,
}

/// A node of the move-search tree: the cell reached, the move that led to it
/// from its parent, whether food lies there, and its distance from the root.
#[derive(Debug, Clone, Copy, PartialEq, Eq, Structural)]
pub struct TreeNode {
    pub coordinate: Coordinate,
    pub direction: BattleSnakeMove,
    pub food: bool,
    pub depth: i32,
}

/// The answer to one turn.
#[derive(Debug, Clone)]
pub struct BattleSnakeMoveResponse {
    pub result_move: BattleSnakeMove,
    pub shout: String,
}

/// The text of an optional shout: its characters, or nothing.
pub open spec fn shout_text(shout: Option<String>) -> Seq<char> {
    match shout {
        Some(text) => text@,
        None => Seq::empty(),
    }
}

impl BattleSnakeMoveResponse {
    /// A response that moves in `direction` and says `shout`, or nothing.
    pub fn new(direction: BattleSnakeMove, shout: Option<String>) -> (response: Self)
        ensures
            response.result_move == direction,
            response.shout@ == shout_text(shout),
    {
        let shout = match shout {
            Some(text) => text,
            None => String::new(),
        };
        BattleSnakeMoveResponse { result_move: direction, shout }
    }

    /// A response that moves Left.
    pub fn left(shout: Option<String>) -> (response: Self)
        ensures
            response.result_move == BattleSnakeMove::Left,
            response.shout@ == shout_text(shout),
    {
        Self::new(BattleSnakeMove::Left, shout)
    }

    /// A response that moves Right.
    pub fn right(shout: Option<String>) -> (response: Self)
        ensures
            response.result_move == BattleSnakeMove::Right,
            response.shout@ == shout_text(shout),
    {
        Self::new(BattleSnakeMove::Right, shout)
    }

    /// A response that moves Up.
    pub fn up(shout: Option<String>) -> (response: Self)
        ensures
            response.result_move == BattleSnakeMove::Up,
            response.shout@ == shout_text(shout),
    {
        Self::new(BattleSnakeMove::Up, shout)
    }

    /// A response that moves Down.
    pub fn down(shout: Option<String>) -> (response: Self)
        ensures
            response.result_move == BattleSnakeMove::Down,
            response.shout@ == shout_text(shout),
    {
        Self::new(BattleSnakeMove::Down, shout)
    }
}

impl Default for BattleSnakeMoveResponse {
    fn default() -> (response: Self)
        ensures
            response.result_move == BattleSnakeMove::Up,
            response.shout@ == Seq::<char>::empty(),
    {
        Self::new(BattleSnakeMove::Up, None)
    }
}

/// Everything the engine is told for one turn.
#[derive(Debug, Clone)]
pub struct GameEvent {
    pub game: Game,
    pub turn: u32,
    pub board: Board,
    pub you: BattleSnake,
}

impl GameEvent {
    /// The turns the engine answers: a playable board with the acting
    /// snake's head on it, and a width below the largest `i32`, since the
    /// search counts its depth up to one past the width.
    pub open spec fn well_formed(self) -> bool {
        self.board.playable() && self.board.width < i32::MAX && self.board.contains_cell(
            self.you.head,
        )
    }

    /// Tests [`GameEvent::well_formed`].
    pub fn is_well_formed(&self) -> (ok: bool)
        ensures
            ok == self.well_formed(),
    {
        self.board.is_playable() && self.board.width < i32::MAX && self.board.has_cell(
            &self.you.head,
        )
    }
}

} // verus!
