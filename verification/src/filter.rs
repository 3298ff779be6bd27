//! The legal-move filter: which directions do not immediately collide with a
//! wall, a snake body or a hazard.
//!
//! The filter answers with a list that stands for a set: the surviving
//! directions, each once, always in the order Up, Down, Left, Right. A
//! hashed set of directions would leave the order of a tie between two
//! moves to the hasher; the list fixes it.

use vstd::prelude::*;
use crate::cells::CellSet;
use crate::schemas::{BattleSnakeMove, Board, Coordinate};
use crate::snake::{BattleSnake, Pose};

verus! {

/// Whether the wall rule removes `direction` for a head at `head` on a
/// board `width` wide and `height` high. Per axis one edge is looked at: on
/// the low edge the move off the board is removed, and only otherwise, on
/// the high edge, the move off that side.
pub open spec fn wall_blocks(
    head: Coordinate,
    direction: BattleSnakeMove,
    width: int,
    height: int,
) -> bool {
    match direction {
        BattleSnakeMove::Left => head.x == 0,
        BattleSnakeMove::Right => head.x != 0 && head.x == width - 1,
        BattleSnakeMove::Down => head.y == 0,
        BattleSnakeMove::Up => head.y != 0 && head.y == height - 1,
        BattleSnakeMove::NoMove => false,
    }
}

/// Whether the step from `head` in `direction` lands on a cell of `cells`.
pub open spec fn lands_in(
    head: Coordinate,
    direction: BattleSnakeMove,
    cells: Set<Coordinate>,
) -> bool {
    head.can_translate(direction) && cells.contains(head.translated(direction))
}

/// Whether `direction` is a legal move from `head`: a real direction that
/// the wall rule keeps and that leads neither onto a body segment nor onto a
/// hazard.
pub open spec fn is_legal(
    head: Coordinate,
    direction: BattleSnakeMove,
    bodies: Set<Coordinate>,
    hazards: Set<Coordinate>,
    width: int,
    height: int,
) -> bool {
    &&& direction != BattleSnakeMove::NoMove
    &&& !wall_blocks(head, direction, width, height)
    &&& !lands_in(head, direction, bodies)
    &&& !lands_in(head, direction, hazards)
}

/// `direction` alone if `kept`, else nothing.
pub open spec fn keep(kept: bool, direction: BattleSnakeMove) -> Seq<BattleSnakeMove> {
    if kept {
        seq![direction]
    } else {
        Seq::empty()
    }
}

/// The directions chosen by four flags, in priority order Up, Down, Left,
/// Right.
#[verifier::opaque]
pub open spec fn selected(up: bool, down: bool, left: bool, right: bool) -> Seq<BattleSnakeMove> {
    keep(up, BattleSnakeMove::Up) + keep(down, BattleSnakeMove::Down) + keep(
        left,
        BattleSnakeMove::Left,
    ) + keep(right, BattleSnakeMove::Right)
}

/// The legal moves from `head`, in priority order Up, Down, Left, Right.
pub open spec fn legal_moves(
    head: Coordinate,
    bodies: Set<Coordinate>,
    hazards: Set<Coordinate>,
    width: int,
    height: int,
) -> Seq<BattleSnakeMove> {
    selected(
        is_legal(head, BattleSnakeMove::Up, bodies, hazards, width, height),
        is_legal(head, BattleSnakeMove::Down, bodies, hazards, width, height),
        is_legal(head, BattleSnakeMove::Left, bodies, hazards, width, height),
        is_legal(head, BattleSnakeMove::Right, bodies, hazards, width, height),
    )
}

/// The test "is not `direction`".
pub open spec fn differs_from(direction: BattleSnakeMove) -> spec_fn(BattleSnakeMove) -> bool {
    |m: BattleSnakeMove| m != direction
}

/// `moves` with every occurrence of `direction` taken out.
pub open spec fn without(
    moves: Seq<BattleSnakeMove>,
    direction: BattleSnakeMove,
) -> Seq<BattleSnakeMove> {
    moves.filter(differs_from(direction))
}

proof fn lemma_without_keep(kept: bool, m: BattleSnakeMove, direction: BattleSnakeMove)
    ensures
        without(keep(kept, m), direction) == keep(kept && m != direction, m),
{
    reveal_with_fuel(Seq::filter, 2);
    if kept {
        assert(seq![m].drop_last() =~= Seq::<BattleSnakeMove>::empty());
        assert(seq![m].last() == m);
        assert(Seq::<BattleSnakeMove>::empty().push(m) =~= seq![m]);
    }
}

/// Taking a direction out of a selection clears its flag.
pub proof fn lemma_without_selected(
    up: bool,
    down: bool,
    left: bool,
    right: bool,
    direction: BattleSnakeMove,
)
    ensures
        without(selected(up, down, left, right), direction) == selected(
            up && direction != BattleSnakeMove::Up,
            down && direction != BattleSnakeMove::Down,
            left && direction != BattleSnakeMove::Left,
            right && direction != BattleSnakeMove::Right,
        ),
{
    reveal(selected);
    let u = keep(up, BattleSnakeMove::Up);
    let d = keep(down, BattleSnakeMove::Down);
    let l = keep(left, BattleSnakeMove::Left);
    let r = keep(right, BattleSnakeMove::Right);
    let p = differs_from(direction);
    Seq::filter_distributes_over_add(u + d + l, r, p);
    Seq::filter_distributes_over_add(u + d, l, p);
    Seq::filter_distributes_over_add(u, d, p);
    lemma_without_keep(up, BattleSnakeMove::Up, direction);
    lemma_without_keep(down, BattleSnakeMove::Down, direction);
    lemma_without_keep(left, BattleSnakeMove::Left, direction);
    lemma_without_keep(right, BattleSnakeMove::Right, direction);
}

/// A selection holds a direction exactly when its flag is set.
pub proof fn lemma_selected_contains(
    up: bool,
    down: bool,
    left: bool,
    right: bool,
    direction: BattleSnakeMove,
)
    ensures
        selected(up, down, left, right).contains(direction) <==> match direction {
            BattleSnakeMove::Up => up,
            BattleSnakeMove::Down => down,
            BattleSnakeMove::Left => left,
            BattleSnakeMove::Right => right,
            BattleSnakeMove::NoMove => false,
        },
{
    reveal(selected);
    let s = selected(up, down, left, right);
    let u = keep(up, BattleSnakeMove::Up);
    let d = keep(down, BattleSnakeMove::Down);
    let l = keep(left, BattleSnakeMove::Left);
    let r = keep(right, BattleSnakeMove::Right);
    if up && direction == BattleSnakeMove::Up {
        assert(s[0] == direction);
    }
    if down && direction == BattleSnakeMove::Down {
        assert(s[u.len() as int] == direction);
    }
    if left && direction == BattleSnakeMove::Left {
        assert(s[(u.len() + d.len()) as int] == direction);
    }
    if right && direction == BattleSnakeMove::Right {
        assert(s[(u.len() + d.len() + l.len()) as int] == direction);
    }
}

/// Whether `direction` is among `moves`.
pub fn has_move(moves: &Vec<BattleSnakeMove>, direction: &BattleSnakeMove) -> (found: bool)
    ensures
        found == moves@.contains(*direction),
{
    let mut i: usize = 0;
    while i < moves.len()
        invariant
            i <= moves.len(),
            forall|k: int| 0 <= k < i ==> moves@[k] != *direction,
        decreases moves.len() - i,
    {
        if moves[i] == *direction {
            return true;
        }
        i += 1;
    }
    false
}

/// Takes `direction` out of `moves`, keeping the order of the others.
pub fn discard_move(moves: &mut Vec<BattleSnakeMove>, direction: &BattleSnakeMove)
    ensures
        final(moves)@ == without(old(moves)@, *direction),
{
    let mut kept: Vec<BattleSnakeMove> = Vec::new();
    let mut i: usize = 0;
    proof {
        reveal_with_fuel(Seq::filter, 1);
        assert(moves@.take(0) =~= Seq::<BattleSnakeMove>::empty());
    }
    while i < moves.len()
        invariant
            i <= moves.len(),
            kept@ == without(moves@.take(i as int), *direction),
        decreases moves.len() - i,
    {
        let m = moves[i];
        proof {
            assert(moves@.take(i + 1) == moves@.take(i as int).push(m));
            moves@.take(i as int).lemma_filter_push(m, differs_from(*direction));
        }
        if m != *direction {
            kept.push(m);
        }
        i += 1;
    }
    assert(moves@.take(i as int) == moves@);
    *moves = kept;
}

/// Collision pruning for one direction: if `direction` is still available
/// and `coordinate`, the cell it leads to, is held by a snake body or a
/// hazard, the direction is removed.
pub fn remove_blocked_moves(
    coordinate: &Coordinate,
    direction: &BattleSnakeMove,
    available_moves: &mut Vec<BattleSnakeMove>,
    all_snake_bodies: &CellSet,
    hazards: &CellSet,
)
    ensures
        final(available_moves)@ == if all_snake_bodies@.contains(*coordinate) || hazards@.contains(
            *coordinate,
        ) {
            without(old(available_moves)@, *direction)
        } else {
            old(available_moves)@
        },
{
    if !has_move(available_moves, direction) {
        proof {
            lemma_without_absent(available_moves@, *direction);
        }
        return ;
    }
    if all_snake_bodies.contains(coordinate) || hazards.contains(coordinate) {
        discard_move(available_moves, direction);
    }
}

/// Taking out a direction that is not there changes nothing.
pub proof fn lemma_without_absent(moves: Seq<BattleSnakeMove>, direction: BattleSnakeMove)
    requires
        !moves.contains(direction),
    ensures
        without(moves, direction) == moves,
    decreases moves.len(),
{
    reveal_with_fuel(Seq::filter, 1);
    if moves.len() > 0 {
        assert(moves.last() == moves[moves.len() - 1]);
        assert forall|k: int| 0 <= k < moves.drop_last().len() implies moves.drop_last()[k]
            != direction by {
            assert(moves.drop_last()[k] == moves[k]);
        }
        lemma_without_absent(moves.drop_last(), direction);
        assert(moves.drop_last().push(moves.last()) =~= moves);
    }
}

/// Wall pruning: all four directions but, on each axis where `head` stands
/// on an edge, the move off the board.
fn prune_walls(head: &Coordinate, width: i32, height: i32) -> (moves: Vec<BattleSnakeMove>)
    ensures
        moves@ == selected(
            !wall_blocks(*head, BattleSnakeMove::Up, width as int, height as int),
            !wall_blocks(*head, BattleSnakeMove::Down, width as int, height as int),
            !wall_blocks(*head, BattleSnakeMove::Left, width as int, height as int),
            !wall_blocks(*head, BattleSnakeMove::Right, width as int, height as int),
        ),
{
    let mut moves = BattleSnakeMove::all();
    assert(moves@ =~= selected(true, true, true, true)) by {
        reveal(selected);
    }
    let ghost mut left = true;
    let ghost mut right = true;
    // Remove edges if we're against a wall
    if head.x == 0 {
        discard_move(&mut moves, &BattleSnakeMove::Left);
        proof {
            lemma_without_selected(true, true, true, true, BattleSnakeMove::Left);
            left = false;
        }
    } else if head.x as i64 == width as i64 - 1 {
        discard_move(&mut moves, &BattleSnakeMove::Right);
        proof {
            lemma_without_selected(true, true, true, true, BattleSnakeMove::Right);
            right = false;
        }
    }
    assert(moves@ == selected(true, true, left, right));
    if head.y == 0 {
        discard_move(&mut moves, &BattleSnakeMove::Down);
        proof {
            lemma_without_selected(true, true, left, right, BattleSnakeMove::Down);
        }
    } else if head.y as i64 == height as i64 - 1 {
        discard_move(&mut moves, &BattleSnakeMove::Up);
        proof {
            lemma_without_selected(true, true, left, right, BattleSnakeMove::Up);
        }
    }
    moves
}

/// Collision pruning for `direction` from `head`. A destination that no
/// coordinate can name holds nothing.
fn prune_collision(
    head: &Coordinate,
    direction: &BattleSnakeMove,
    available_moves: &mut Vec<BattleSnakeMove>,
    all_snake_bodies: &CellSet,
    hazards: &CellSet,
)
    ensures
        final(available_moves)@ == if lands_in(*head, *direction, all_snake_bodies@) || lands_in(
            *head,
            *direction,
            hazards@,
        ) {
            without(old(available_moves)@, *direction)
        } else {
            old(available_moves)@
        },
{
    let reachable = match direction {
        BattleSnakeMove::Up => head.y < i32::MAX,
        BattleSnakeMove::Down => head.y > i32::MIN,
        BattleSnakeMove::Left => head.x > i32::MIN,
        BattleSnakeMove::Right => head.x < i32::MAX,
        BattleSnakeMove::NoMove => true,
    };
    if reachable {
        let target = head.translate(direction);
        remove_blocked_moves(&target, direction, available_moves, all_snake_bodies, hazards);
    }
}

/// The legal-move filter. Starts from all four directions, removes the
/// move off the board on each axis where the head stands on an edge, then
/// removes every remaining move whose destination is held by a snake body
/// (the acting snake's own included) or a hazard. What survives is returned
/// in priority order Up, Down, Left, Right; it may be empty.
pub fn get_available_moves(
    snake: &BattleSnake,
    all_snake_bodies: &CellSet,
    hazards: &CellSet,
    width: i32,
    height: i32,
) -> (available_moves: Vec<BattleSnakeMove>)
    ensures
        available_moves@ == legal_moves(
            snake.head,
            all_snake_bodies@,
            hazards@,
            width as int,
            height as int,
        ),
        forall|direction: BattleSnakeMove|
            available_moves@.contains(direction) <==> is_legal(
                snake.head,
                direction,
                all_snake_bodies@,
                hazards@,
                width as int,
                height as int,
            ),
        available_moves@.no_duplicates(),
{
    let head = snake.head;
    let mut available_moves = prune_walls(&head, width, height);
    let ghost bodies = all_snake_bodies@;
    let ghost taken = hazards@;
    let ghost up = !wall_blocks(head, BattleSnakeMove::Up, width as int, height as int);
    let ghost down = !wall_blocks(head, BattleSnakeMove::Down, width as int, height as int);
    let ghost left = !wall_blocks(head, BattleSnakeMove::Left, width as int, height as int);
    let ghost right = !wall_blocks(head, BattleSnakeMove::Right, width as int, height as int);

    // Remove all turns in which we can hit a snake or a hazard
    prune_collision(
        &head,
        &BattleSnakeMove::Up,
        &mut available_moves,
        all_snake_bodies,
        hazards,
    );
    let ghost up = is_legal(head, BattleSnakeMove::Up, bodies, taken, width as int, height as int);
    proof {
        lemma_without_selected(true, down, left, right, BattleSnakeMove::Up);
        lemma_without_selected(false, down, left, right, BattleSnakeMove::Up);
    }
    assert(available_moves@ == selected(up, down, left, right));
    prune_collision(
        &head,
        &BattleSnakeMove::Down,
        &mut available_moves,
        all_snake_bodies,
        hazards,
    );
    let ghost down = is_legal(
        head,
        BattleSnakeMove::Down,
        bodies,
        taken,
        width as int,
        height as int,
    );
    proof {
        lemma_without_selected(up, true, left, right, BattleSnakeMove::Down);
        lemma_without_selected(up, false, left, right, BattleSnakeMove::Down);
    }
    assert(available_moves@ == selected(up, down, left, right));
    prune_collision(
        &head,
        &BattleSnakeMove::Left,
        &mut available_moves,
        all_snake_bodies,
        hazards,
    );
    let ghost left = is_legal(
        head,
        BattleSnakeMove::Left,
        bodies,
        taken,
        width as int,
        height as int,
    );
    proof {
        lemma_without_selected(up, down, true, right, BattleSnakeMove::Left);
        lemma_without_selected(up, down, false, right, BattleSnakeMove::Left);
    }
    assert(available_moves@ == selected(up, down, left, right));
    prune_collision(
        &head,
        &BattleSnakeMove::Right,
        &mut available_moves,
        all_snake_bodies,
        hazards,
    );
    let ghost right = is_legal(
        head,
        BattleSnakeMove::Right,
        bodies,
        taken,
        width as int,
        height as int,
    );
    proof {
        lemma_without_selected(up, down, left, true, BattleSnakeMove::Right);
        lemma_without_selected(up, down, left, false, BattleSnakeMove::Right);
    }
    assert(available_moves@ == selected(up, down, left, right));
    proof {
        assert forall|direction: BattleSnakeMove|
            available_moves@.contains(direction) <==> is_legal(
                head,
                direction,
                bodies,
                taken,
                width as int,
                height as int,
            ) by {
            lemma_legal_moves_contains(head, bodies, taken, width as int, height as int, direction);
        }
        lemma_legal_moves_distinct(head, bodies, taken, width as int, height as int);
    }
    available_moves
}

/// The legal moves are exactly the directions that are legal.
pub proof fn lemma_legal_moves_contains(
    head: Coordinate,
    bodies: Set<Coordinate>,
    hazards: Set<Coordinate>,
    width: int,
    height: int,
    direction: BattleSnakeMove,
)
    ensures
        legal_moves(head, bodies, hazards, width, height).contains(direction) <==> is_legal(
            head,
            direction,
            bodies,
            hazards,
            width,
            height,
        ),
{
    lemma_selected_contains(
        is_legal(head, BattleSnakeMove::Up, bodies, hazards, width, height),
        is_legal(head, BattleSnakeMove::Down, bodies, hazards, width, height),
        is_legal(head, BattleSnakeMove::Left, bodies, hazards, width, height),
        is_legal(head, BattleSnakeMove::Right, bodies, hazards, width, height),
        direction,
    );
}

/// Wall exclusion. With the head on the low edge of an axis the move off
/// the board there is never legal; with the head on the high edge, and not
/// at the same time on the low one, neither is the move off that side.
pub proof fn lemma_wall_exclusion(
    head: Coordinate,
    bodies: Set<Coordinate>,
    hazards: Set<Coordinate>,
    width: int,
    height: int,
)
    ensures
        head.x == 0 ==> !legal_moves(head, bodies, hazards, width, height).contains(
            BattleSnakeMove::Left,
        ),
        head.y == 0 ==> !legal_moves(head, bodies, hazards, width, height).contains(
            BattleSnakeMove::Down,
        ),
        head.x == width - 1 && head.x != 0 ==> !legal_moves(
            head,
            bodies,
            hazards,
            width,
            height,
        ).contains(BattleSnakeMove::Right),
        head.y == height - 1 && head.y != 0 ==> !legal_moves(
            head,
            bodies,
            hazards,
            width,
            height,
        ).contains(BattleSnakeMove::Up),
{
    lemma_legal_moves_contains(head, bodies, hazards, width, height, BattleSnakeMove::Left);
    lemma_legal_moves_contains(head, bodies, hazards, width, height, BattleSnakeMove::Down);
    lemma_legal_moves_contains(head, bodies, hazards, width, height, BattleSnakeMove::Right);
    lemma_legal_moves_contains(head, bodies, hazards, width, height, BattleSnakeMove::Up);
}

/// Collision exclusion. A direction that leads onto a cell held by a body
/// segment or by a hazard is never legal.
pub proof fn lemma_collision_exclusion(
    head: Coordinate,
    direction: BattleSnakeMove,
    bodies: Set<Coordinate>,
    hazards: Set<Coordinate>,
    width: int,
    height: int,
)
    requires
        head.can_translate(direction),
        bodies.contains(head.translated(direction)) || hazards.contains(
            head.translated(direction),
        ),
    ensures
        !legal_moves(head, bodies, hazards, width, height).contains(direction),
{
    lemma_legal_moves_contains(head, bodies, hazards, width, height, direction);
}

/// Collision exclusion on a board. Whichever snake holds the cell next to
/// the head, the acting snake with its own body or another snake, with
/// whichever segment, and whether or not the cell is a hazard as well or
/// instead, the direction that leads there is never legal.
pub proof fn lemma_occupied_cell_is_excluded(
    board: Board,
    id: Seq<char>,
    pose: Pose,
    direction: BattleSnakeMove,
    cell: Coordinate,
)
    requires
        pose.head.can_translate(direction),
        pose.head.translated(direction) == cell,
        board.hazards@.contains(cell) || pose.body.contains(cell) || exists|s: int, j: int|
            0 <= s < board.snakes@.len() && board.snakes@[s].id@ != id && 0 <= j
                < board.snakes@[s].body@.len() && #[trigger] board.snakes@[s].body@[j] == cell,
    ensures
        !board.moves_of(id, pose).contains(direction),
{
    lemma_collision_exclusion(
        pose.head,
        direction,
        board.occupied(id, pose.body),
        board.hazard_cells(),
        board.width as int,
        board.height as int,
    );
}

/// No move back onto the own neck. A snake of two or more segments can
/// never move onto its second segment: the segment holds the cell. A snake
/// of one segment has no neck, and nothing is excluded on that account.
pub proof fn lemma_no_move_onto_the_neck(
    board: Board,
    id: Seq<char>,
    pose: Pose,
    direction: BattleSnakeMove,
)
    requires
        pose.body.len() >= 2,
        pose.head.can_translate(direction),
        pose.head.translated(direction) == pose.body[1],
    ensures
        !board.moves_of(id, pose).contains(direction),
{
    assert(pose.body.contains(pose.body[1]));
    lemma_occupied_cell_is_excluded(board, id, pose, direction, pose.body[1]);
}

/// Filtering twice gives the same: the legal moves depend on nothing but
/// the head, the cells held, the hazards and the size of the board.
pub proof fn lemma_filter_is_deterministic(
    head: Coordinate,
    bodies: Set<Coordinate>,
    hazards: Set<Coordinate>,
    bodies_again: Set<Coordinate>,
    hazards_again: Set<Coordinate>,
    width: int,
    height: int,
)
    requires
        forall|c: Coordinate| bodies.contains(c) <==> bodies_again.contains(c),
        forall|c: Coordinate| hazards.contains(c) <==> hazards_again.contains(c),
    ensures
        legal_moves(head, bodies, hazards, width, height) == legal_moves(
            head,
            bodies_again,
            hazards_again,
            width,
            height,
        ),
{
    assert(bodies =~= bodies_again);
    assert(hazards =~= hazards_again);
}

/// The filter yields a set: no direction occurs twice among the legal
/// moves, and there are at most four.
pub proof fn lemma_legal_moves_distinct(
    head: Coordinate,
    bodies: Set<Coordinate>,
    hazards: Set<Coordinate>,
    width: int,
    height: int,
)
    ensures
        legal_moves(head, bodies, hazards, width, height).no_duplicates(),
        legal_moves(head, bodies, hazards, width, height).len() <= 4,
{
    reveal(selected);
}

impl Board {
    /// The legal moves of the snake called `id` when it is at `pose`: the
    /// filter applied to its head, to the cells that snakes then hold, and
    /// to the hazards of the board.
    pub open spec fn moves_of(self, id: Seq<char>, pose: Pose) -> Seq<BattleSnakeMove> {
        legal_moves(
            pose.head,
            self.occupied(id, pose.body),
            self.hazard_cells(),
            self.width as int,
            self.height as int,
        )
    }
}

/// On a playable board a legal move from a cell of the board leads to a cell
/// of the board.
pub proof fn lemma_legal_move_stays_on_board(
    board: Board,
    id: Seq<char>,
    pose: Pose,
    direction: BattleSnakeMove,
)
    requires
        board.playable(),
        board.contains_cell(pose.head),
        board.moves_of(id, pose).contains(direction),
    ensures
        pose.head.can_translate(direction),
        board.contains_cell(pose.head.translated(direction)),
        board.contains_cell(pose.moved(direction).head),
{
    lemma_legal_moves_contains(
        pose.head,
        board.occupied(id, pose.body),
        board.hazard_cells(),
        board.width as int,
        board.height as int,
        direction,
    );
}

} // verus!
