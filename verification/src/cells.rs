//! Sets of board cells with constant-time lookup.
//!
//! The legal-move filter runs once per node of the search, so it asks "is
//! this cell taken?" through a hashed lookup instead of scanning lists. A
//! cell is stored under one `u64` key that holds both of its coordinates.

use std::collections::HashSet;
use vstd::prelude::*;
use crate::schemas::{Board, Coordinate};
use crate::snake::BattleSnake;

verus! {

broadcast use vstd::std_specs::hash::group_hash_axioms;

/// The key a cell is stored under: `x` in the high half, `y` in the low
/// half, each shifted to be non-negative.
pub open spec fn cell_key(c: Coordinate) -> u64 {
    ((c.x - i32::MIN) * 0x1_0000_0000 + (c.y - i32::MIN)) as u64
}

/// Two cells with one key are one cell.
pub proof fn lemma_cell_key_injective(a: Coordinate, b: Coordinate)
    requires
        cell_key(a) == cell_key(b),
    ensures
        a == b,
{
}

fn key_of(c: &Coordinate) -> (key: u64)
    ensures
        key == cell_key(*c),
{
    let high: u64 = (c.x as i64 - i32::MIN as i64) as u64;
    let low: u64 = (c.y as i64 - i32::MIN as i64) as u64;
    high * 0x1_0000_0000 + low
}

/// A finite set of cells.
pub struct CellSet {
    keys: HashSet<u64>,
}

impl View for CellSet {
    type V = Set<Coordinate>;

    closed spec fn view(&self) -> Set<Coordinate> {
        Set::new(|c: Coordinate| self.keys@.contains(cell_key(c)))
    }
}

impl CellSet {
    /// The empty set.
    pub fn new() -> (cells: CellSet)
        ensures
            cells@ == Set::<Coordinate>::empty(),
    {
        let cells = CellSet { keys: HashSet::new() };
        assert(cells@ =~= Set::<Coordinate>::empty());
        cells
    }

    /// Adds `c` to the set.
    pub fn insert(&mut self, c: Coordinate)
        ensures
            final(self)@ == old(self)@.insert(c),
    {
        let key = key_of(&c);
        self.keys.insert(key);
        proof {
            assert forall|d: Coordinate| self@.contains(d) == old(self)@.insert(c).contains(d) by {
                if cell_key(d) == cell_key(c) {
                    lemma_cell_key_injective(d, c);
                }
            }
            assert(self@ =~= old(self)@.insert(c));
        }
    }

    /// Whether `c` is in the set.
    pub fn contains(&self, c: &Coordinate) -> (found: bool)
        ensures
            found == self@.contains(*c),
    {
        let key = key_of(c);
        self.keys.contains(&key)
    }

    /// Adds every cell listed in `cells` to the set.
    pub fn extend(&mut self, cells: &Vec<Coordinate>)
        ensures
            forall|c: Coordinate| #[trigger]
                final(self)@.contains(c) <==> old(self)@.contains(c) || cells@.contains(c),
    {
        let mut i: usize = 0;
        while i < cells.len()
            invariant
                i <= cells.len(),
                forall|c: Coordinate|
                    self@.contains(c) <==> old(self)@.contains(c) || cells@.take(i as int).contains(
                        c,
                    ),
            decreases cells.len() - i,
        {
            self.insert(cells[i]);
            i += 1;
            assert(cells@.take(i as int) == cells@.take(i - 1).push(cells@[i - 1]));
            assert forall|c: Coordinate|
                self@.contains(c) <==> old(self)@.contains(c) || cells@.take(i as int).contains(
                    c,
                ) by {
                let before = cells@.take(i - 1);
                let last = cells@[i - 1];
                if before.contains(c) {
                    let k = choose|k: int| 0 <= k < before.len() && before[k] == c;
                    assert(before.push(last)[k] == c);
                }
                if c == last {
                    assert(before.push(last)[i - 1] == c);
                }
            }
        }
        assert(cells@.take(i as int) == cells@);
    }

    /// The set of the cells listed in `cells`.
    pub fn from_cells(cells: &Vec<Coordinate>) -> (set: CellSet)
        ensures
            forall|c: Coordinate| #[trigger] set@.contains(c) <==> cells@.contains(c),
    {
        let mut set = CellSet::new();
        set.extend(cells);
        set
    }
}

/// Whether `cell` is listed in `cells`.
pub fn list_has_cell(cells: &Vec<Coordinate>, cell: &Coordinate) -> (found: bool)
    ensures
        found == cells@.contains(*cell),
{
    let mut i: usize = 0;
    while i < cells.len()
        invariant
            i <= cells.len(),
            forall|k: int| 0 <= k < i ==> cells@[k] != *cell,
        decreases cells.len() - i,
    {
        if cells[i] == *cell {
            return true;
        }
        i += 1;
    }
    false
}

impl Board {
    /// The cells that snakes hold in the state in which the acting snake is
    /// `you`: the body of `you`, and the bodies of all snakes on the board
    /// that go by another id.
    pub fn occupancy(&self, you: &BattleSnake) -> (set: CellSet)
        ensures
            set@ == self.occupied(you.id@, you.body@),
    {
        let mut set = CellSet::new();
        let mut s: usize = 0;
        while s < self.snakes.len()
            invariant
                s <= self.snakes.len(),
                forall|c: Coordinate|
                    set@.contains(c) <==> exists|a: int, j: int|
                        0 <= a < s && self.snakes@[a].id@ != you.id@ && 0 <= j
                            < self.snakes@[a].body@.len() && #[trigger] self.snakes@[a].body@[j]
                            == c,
            decreases self.snakes.len() - s,
        {
            let ghost before = set@;
            let same = self.snakes[s].id == you.id;
            if !same {
                set.extend(&self.snakes[s].body);
            }
            s += 1;
            assert forall|c: Coordinate|
                set@.contains(c) <==> exists|a: int, j: int|
                    0 <= a < s && self.snakes@[a].id@ != you.id@ && 0 <= j
                        < self.snakes@[a].body@.len() && #[trigger] self.snakes@[a].body@[j]
                        == c by {
                let body = self.snakes@[s - 1].body@;
                if !same && body.contains(c) {
                    let k = choose|k: int| 0 <= k < body.len() && body[k] == c;
                    assert(self.snakes@[s - 1].body@[k] == c);
                }
                if before.contains(c) {
                    let (a, j) = choose|a: int, j: int|
                        0 <= a < s - 1 && self.snakes@[a].id@ != you.id@ && 0 <= j
                            < self.snakes@[a].body@.len() && #[trigger] self.snakes@[a].body@[j]
                            == c;
                    assert(self.snakes@[a].body@[j] == c);
                }
            }
        }
        assert(set@ =~= self.other_cells(you.id@));
        let ghost others = set@;
        set.extend(&you.body);
        assert forall|c: Coordinate|
            set@.contains(c) <==> self.occupied(you.id@, you.body@).contains(c) by {
            assert(set@.contains(c) <==> others.contains(c) || you.body@.contains(c));
        }
        assert(set@ =~= self.occupied(you.id@, you.body@));
        set
    }

    /// The hazard cells of the board.
    pub fn hazard_set(&self) -> (set: CellSet)
        ensures
            set@ == self.hazard_cells(),
    {
        let set = CellSet::from_cells(&self.hazards);
        assert(set@ =~= self.hazard_cells());
        set
    }
}

} // verus!
