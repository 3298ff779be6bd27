use std::time::Instant;

use slab_tree::{NodeId, Tree, TreeBuilder};
use snake_engine::engine::{
    build_tree, choose_direction, decide, expand_node, generate_tree_move, subtree_max_depth,
    turn, SearchBudget,
};
use snake_engine::policy::{pick_best, Choice};
use snake_engine::schemas::BattleSnakeMove::{Down, Left, NoMove, Right, Up};
use snake_engine::schemas::{
    BattleSnakeCustomization, BattleSnakeMove, Board, Coordinate, Game, GameEvent, RuleSet,
    TreeNode,
};
use snake_engine::snake::BattleSnake;

fn xy(x: i32, y: i32) -> Coordinate {
    Coordinate { x, y }
}

fn snake_called(id: &str, body: Vec<Coordinate>) -> BattleSnake {
    BattleSnake {
        id: id.to_string(),
        name: id.to_string(),
        health: 100,
        head: body[0],
        length: body.len() as u32,
        body,
        latency: String::new(),
        shout: String::new(),
        squad: String::new(),
        customizations: BattleSnakeCustomization {
            color: String::new(),
            head: String::new(),
            tail: String::new(),
        },
    }
}

fn snake_at(body: Vec<Coordinate>) -> BattleSnake {
    snake_called("me", body)
}

fn board_with(
    width: i32,
    height: i32,
    snakes: Vec<BattleSnake>,
    hazards: Vec<Coordinate>,
    food: Vec<Coordinate>,
) -> Board {
    Board { height, width, food, hazards, snakes }
}

fn event_with(board: Board, you: BattleSnake) -> GameEvent {
    GameEvent {
        game: Game {
            id: "g".to_string(),
            ruleset: RuleSet { name: "standard".to_string(), version: "1".to_string() },
            map: String::new(),
            timeout: 500,
            source: String::new(),
        },
        turn: 0,
        board,
        you,
    }
}

fn open_board_event() -> GameEvent {
    let you = snake_at(vec![xy(5, 5), xy(5, 4), xy(5, 3)]);
    event_with(board_with(11, 11, vec![you.clone()], vec![], vec![]), you)
}

fn untimed(depth: i32) -> SearchBudget {
    SearchBudget { time_ms: u128::MAX, depth }
}

fn node(x: i32, y: i32, direction: BattleSnakeMove, depth: i32) -> TreeNode {
    TreeNode { coordinate: xy(x, y), direction, food: false, depth }
}

fn grow(tree: &mut Tree<TreeNode>, parent: NodeId, data: TreeNode) -> NodeId {
    tree.get_mut(parent).unwrap().append(data).node_id()
}

fn children_of(tree: &Tree<TreeNode>, id: NodeId) -> Vec<TreeNode> {
    tree.get(id).unwrap().children().map(|child| *child.data()).collect()
}

fn child_ids(tree: &Tree<TreeNode>, id: NodeId) -> Vec<NodeId> {
    tree.get(id).unwrap().children().map(|child| child.node_id()).collect()
}

fn size_of(tree: &Tree<TreeNode>) -> usize {
    tree.root().unwrap().traverse_pre_order().count()
}

// The search written once more, as a plain recursion over the board, to hold
// the tree against: how many nodes hang below a node and how deep they go.
fn free(board: &Board, you: &str, body: &[Coordinate], cell: Coordinate) -> bool {
    !board.snakes.iter().any(|snake| snake.id != you && snake.body.contains(&cell))
        && !body.contains(&cell)
        && !board.hazards.contains(&cell)
}

fn expected_moves(
    board: &Board,
    you: &str,
    head: Coordinate,
    body: &[Coordinate],
) -> Vec<BattleSnakeMove> {
    let mut moves = vec![];
    if !(head.y != 0 && head.y == board.height - 1) && free(board, you, body, xy(head.x, head.y + 1))
    {
        moves.push(Up);
    }
    if head.y != 0 && free(board, you, body, xy(head.x, head.y - 1)) {
        moves.push(Down);
    }
    if head.x != 0 && free(board, you, body, xy(head.x - 1, head.y)) {
        moves.push(Left);
    }
    if !(head.x != 0 && head.x == board.width - 1) && free(board, you, body, xy(head.x + 1, head.y))
    {
        moves.push(Right);
    }
    moves
}

fn advanced(body: &[Coordinate], head: Coordinate) -> Vec<Coordinate> {
    let mut next = vec![head];
    next.extend_from_slice(body);
    next.pop();
    next
}

fn expected_below(
    board: &Board,
    you: &str,
    head: Coordinate,
    body: &[Coordinate],
    depth: i32,
    limit: i32,
) -> (usize, i32) {
    let mut count = 1;
    let mut deepest = depth;
    if depth <= limit {
        for direction in expected_moves(board, you, head, body) {
            let cell = head.translate(&direction);
            let (below, reach) =
                expected_below(board, you, cell, &advanced(body, cell), depth + 1, limit);
            count += below;
            deepest = deepest.max(reach);
        }
    }
    (count, deepest)
}

fn check_against_expected(
    tree: &Tree<TreeNode>,
    id: NodeId,
    board: &Board,
    you: &str,
    head: Coordinate,
    body: &[Coordinate],
    depth: i32,
    limit: i32,
) {
    let kids = children_of(tree, id);
    let ids = child_ids(tree, id);
    let moves = if depth <= limit { expected_moves(board, you, head, body) } else { vec![] };
    assert_eq!(kids.len(), moves.len());
    for ((kid, kid_id), direction) in kids.iter().zip(ids).zip(moves) {
        let cell = head.translate(&direction);
        assert_eq!(kid.coordinate, cell);
        assert_eq!(kid.direction, direction);
        assert_eq!(kid.food, board.food.contains(&cell));
        assert_eq!(kid.depth, depth + 1);
        check_against_expected(
            tree,
            kid_id,
            board,
            you,
            cell,
            &advanced(body, cell),
            depth + 1,
            limit,
        );
    }
}

#[test]
fn the_root_is_the_placeholder_at_the_head() {
    let event = open_board_event();
    let tree = build_tree(&event.board, &event.you, &untimed(0));
    let root = tree.root().unwrap();
    assert!(*root.data() == node(5, 5, NoMove, 0));
}

#[test]
fn depth_budget_zero_expands_the_root_only() {
    let event = open_board_event();
    let tree = build_tree(&event.board, &event.you, &untimed(0));
    let root = tree.root_id().unwrap();
    let kids = children_of(&tree, root);
    assert!(kids == vec![node(5, 6, Up, 1), node(4, 5, Left, 1), node(6, 5, Right, 1)]);
    assert_eq!(size_of(&tree), 4);
}

#[test]
fn a_depth_budget_below_zero_leaves_the_root_alone() {
    let event = open_board_event();
    let tree = build_tree(&event.board, &event.you, &untimed(-1));
    assert_eq!(size_of(&tree), 1);
}

#[test]
fn depth_budget_one_expands_two_levels() {
    let event = open_board_event();
    let tree = build_tree(&event.board, &event.you, &untimed(1));
    let root = tree.root_id().unwrap();
    let first = child_ids(&tree, root);
    assert_eq!(first.len(), 3);
    // From (5,6): the cell below is the snake's own head on the board.
    assert!(
        children_of(&tree, first[0])
            == vec![node(5, 7, Up, 2), node(4, 6, Left, 2), node(6, 6, Right, 2)]
    );
    // From (4,5): the cell to the right is the snake's own head on the board.
    assert!(
        children_of(&tree, first[1])
            == vec![node(4, 6, Up, 2), node(4, 4, Down, 2), node(3, 5, Left, 2)]
    );
    assert!(
        children_of(&tree, first[2])
            == vec![node(6, 6, Up, 2), node(6, 4, Down, 2), node(7, 5, Right, 2)]
    );
    assert_eq!(size_of(&tree), 13);
}

#[test]
fn food_is_flagged_on_the_cells_that_hold_it() {
    let you = snake_at(vec![xy(5, 5), xy(5, 4), xy(5, 3)]);
    let board = board_with(11, 11, vec![you.clone()], vec![], vec![xy(4, 5), xy(0, 0)]);
    let tree = build_tree(&board, &you, &untimed(0));
    let kids = children_of(&tree, tree.root_id().unwrap());
    assert_eq!(kids.len(), 3);
    assert!(!kids[0].food);
    assert!(kids[1].food);
    assert!(!kids[2].food);
}

#[test]
fn other_snakes_stay_where_they_are() {
    let you = snake_at(vec![xy(1, 1), xy(1, 0)]);
    let other = snake_called("other", vec![xy(1, 3), xy(2, 3), xy(3, 3)]);
    let board = board_with(5, 5, vec![you.clone(), other], vec![], vec![]);
    let tree = build_tree(&board, &you, &untimed(1));
    let root = tree.root_id().unwrap();
    let first = child_ids(&tree, root);
    assert!(children_of(&tree, root) == vec![node(1, 2, Up, 1), node(0, 1, Left, 1), node(2, 1, Right, 1)]);
    // From (1,2): up is the other snake's head, down is the own neck.
    assert!(children_of(&tree, first[0]) == vec![node(0, 2, Left, 2), node(2, 2, Right, 2)]);
}

#[test]
fn the_cell_that_the_tail_left_is_free_again() {
    let you = snake_at(vec![xy(5, 5), xy(5, 4), xy(4, 4), xy(4, 5), xy(4, 6)]);
    let board = board_with(11, 11, vec![you.clone()], vec![], vec![]);
    let tree = build_tree(&board, &you, &untimed(1));
    let root = tree.root_id().unwrap();
    assert!(children_of(&tree, root) == vec![node(5, 6, Up, 1), node(6, 5, Right, 1)]);
    let first = child_ids(&tree, root);
    // After Up the tail has left (4,6), so Left from (5,6) is legal.
    assert!(
        children_of(&tree, first[0])
            == vec![node(5, 7, Up, 2), node(4, 6, Left, 2), node(6, 6, Right, 2)]
    );
}

#[test]
fn the_advanced_body_blocks_cells_that_were_free_on_the_board() {
    let you = snake_at(vec![xy(2, 2), xy(2, 1), xy(2, 0)]);
    let board = board_with(11, 11, vec![you.clone()], vec![], vec![]);
    let tree = build_tree(&board, &you, &untimed(2));
    let root = tree.root_id().unwrap();
    let up = child_ids(&tree, root)[0];
    assert!(
        children_of(&tree, up) == vec![node(2, 4, Up, 2), node(1, 3, Left, 2), node(3, 3, Right, 2)]
    );
    // After Up and Left the body is (1,3),(2,3),(2,2): Right leads onto it.
    let up_left = child_ids(&tree, up)[1];
    assert!(
        children_of(&tree, up_left)
            == vec![node(1, 4, Up, 3), node(1, 2, Down, 3), node(0, 3, Left, 3)]
    );
}

#[test]
fn where_the_board_has_the_acting_snake_does_not_count() {
    // The board still lists the acting snake with a body that it has left.
    let you = snake_at(vec![xy(5, 5)]);
    let listed = snake_at(vec![xy(5, 6), xy(6, 5)]);
    let board = board_with(11, 11, vec![listed], vec![], vec![]);
    let tree = build_tree(&board, &you, &untimed(0));
    assert_eq!(children_of(&tree, tree.root_id().unwrap()).len(), 4);
}

#[test]
fn the_untimed_tree_is_the_whole_search() {
    let you = snake_at(vec![xy(2, 2), xy(2, 1), xy(2, 0)]);
    let other = snake_called("other", vec![xy(4, 4), xy(4, 3), xy(3, 3)]);
    let board =
        board_with(6, 5, vec![other, you.clone()], vec![xy(0, 2), xy(1, 4)], vec![xy(3, 2)]);
    for limit in 0..6 {
        let tree = build_tree(&board, &you, &untimed(limit));
        let root = tree.root_id().unwrap();
        check_against_expected(&tree, root, &board, "me", you.head, &you.body, 0, limit);
        assert_eq!(
            size_of(&tree),
            expected_below(&board, "me", you.head, &you.body, 0, limit).0
        );
    }
}

#[test]
fn a_boxed_in_root_has_no_children() {
    let you = snake_at(vec![xy(0, 0)]);
    let other = snake_called("other", vec![xy(0, 1), xy(1, 1), xy(1, 0)]);
    let board = board_with(11, 11, vec![you.clone(), other], vec![], vec![]);
    let tree = build_tree(&board, &you, &untimed(5));
    assert_eq!(size_of(&tree), 1);
}

#[test]
fn a_timed_tree_holds_whole_families_only() {
    let event = open_board_event();
    let budget = SearchBudget { time_ms: 2, depth: 6 };
    let tree = build_tree(&event.board, &event.you, &budget);
    let mut stack = vec![(tree.root_id().unwrap(), event.you.head, event.you.body.clone(), 0)];
    while let Some((id, head, body, depth)) = stack.pop() {
        let kids = children_of(&tree, id);
        let ids = child_ids(&tree, id);
        if kids.is_empty() {
            continue;
        }
        assert!(depth <= 6);
        let moves = expected_moves(&event.board, "me", head, &body);
        assert_eq!(kids.len(), moves.len());
        for ((kid, kid_id), direction) in kids.iter().zip(ids).zip(moves) {
            let cell = head.translate(&direction);
            assert!(*kid == node(cell.x, cell.y, direction, depth + 1));
            stack.push((kid_id, cell, advanced(&body, cell), depth + 1));
        }
    }
}

#[test]
fn a_node_read_past_the_time_budget_gets_no_child() {
    let you = snake_at(vec![xy(1, 1)]);
    let board = board_with(3, 3, vec![], vec![], vec![]);
    let budget = SearchBudget { time_ms: 250, depth: 3 };
    let mut tree = TreeBuilder::new().with_root(node(1, 1, NoMove, 0)).build();
    let root = tree.root_id().unwrap();
    expand_node(&board, &you, &mut tree, root, &Instant::now(), 0, &budget, 251);
    assert_eq!(size_of(&tree), 1);
    expand_node(&board, &you, &mut tree, root, &Instant::now(), 0, &budget, u128::MAX);
    assert_eq!(size_of(&tree), 1);
}

#[test]
fn a_node_past_the_depth_budget_gets_no_child() {
    let you = snake_at(vec![xy(1, 1)]);
    let board = board_with(3, 3, vec![], vec![], vec![]);
    let budget = SearchBudget { time_ms: 250, depth: 3 };
    let mut tree = TreeBuilder::new().with_root(node(1, 1, NoMove, 0)).build();
    let root = tree.root_id().unwrap();
    expand_node(&board, &you, &mut tree, root, &Instant::now(), 4, &budget, 0);
    assert_eq!(size_of(&tree), 1);
}

#[test]
fn a_node_read_within_the_budget_gets_one_child_per_legal_move() {
    let you = snake_at(vec![xy(1, 1), xy(1, 0)]);
    let board = board_with(3, 3, vec![], vec![xy(0, 1)], vec![xy(2, 1)]);
    let mut tree = TreeBuilder::new().with_root(node(1, 1, NoMove, 0)).build();
    let root = tree.root_id().unwrap();
    // The last allowed reading of the clock, at the last allowed depth.
    let budget = SearchBudget { time_ms: 250, depth: 3 };
    expand_node(&board, &you, &mut tree, root, &Instant::now(), 3, &budget, 250);
    let mut right = node(2, 1, Right, 4);
    right.food = true;
    assert!(children_of(&tree, root) == vec![node(1, 2, Up, 4), right]);
    assert_eq!(size_of(&tree), 3);
}

#[test]
fn generate_tree_move_appends_after_the_children_already_there() {
    let you = snake_at(vec![xy(0, 0)]);
    let board = board_with(3, 3, vec![you.clone()], vec![], vec![]);
    let mut tree = TreeBuilder::new().with_root(node(0, 0, NoMove, 0)).build();
    let root = tree.root_id().unwrap();
    let earlier = grow(&mut tree, root, node(9, 9, Down, 7));
    generate_tree_move(&board, &you, &mut tree, root, &Instant::now(), 0, &untimed(0));
    assert!(
        children_of(&tree, root)
            == vec![node(9, 9, Down, 7), node(0, 1, Up, 1), node(1, 0, Right, 1)]
    );
    assert!(children_of(&tree, earlier).is_empty());
    assert!(*tree.get(root).unwrap().data() == node(0, 0, NoMove, 0));
}

#[test]
fn generate_tree_move_counts_the_depth_from_its_argument() {
    let you = snake_at(vec![xy(1, 1)]);
    let board = board_with(3, 3, vec![], vec![], vec![]);
    let mut tree = TreeBuilder::new().with_root(node(1, 1, NoMove, 0)).build();
    let root = tree.root_id().unwrap();
    generate_tree_move(&board, &you, &mut tree, root, &Instant::now(), 4, &untimed(4));
    assert!(
        children_of(&tree, root)
            == vec![node(1, 2, Up, 5), node(1, 0, Down, 5), node(0, 1, Left, 5), node(2, 1, Right, 5)]
    );
    assert_eq!(size_of(&tree), 5);
}

#[test]
fn generate_tree_move_past_the_depth_budget_does_nothing() {
    let you = snake_at(vec![xy(1, 1)]);
    let board = board_with(3, 3, vec![], vec![], vec![]);
    let mut tree = TreeBuilder::new().with_root(node(1, 1, NoMove, 0)).build();
    let root = tree.root_id().unwrap();
    generate_tree_move(&board, &you, &mut tree, root, &Instant::now(), 5, &untimed(4));
    assert_eq!(size_of(&tree), 1);
}

#[test]
fn generate_tree_move_grows_a_node_in_the_middle_of_a_tree() {
    let you = snake_at(vec![xy(2, 2)]);
    let board = board_with(3, 3, vec![], vec![], vec![]);
    let mut tree = TreeBuilder::new().with_root(node(0, 0, NoMove, 0)).build();
    let root = tree.root_id().unwrap();
    let left = grow(&mut tree, root, node(5, 5, Left, 1));
    let right = grow(&mut tree, root, node(6, 6, Right, 1));
    generate_tree_move(&board, &you, &mut tree, left, &Instant::now(), 1, &untimed(1));
    assert!(children_of(&tree, root) == vec![node(5, 5, Left, 1), node(6, 6, Right, 1)]);
    assert!(children_of(&tree, left) == vec![node(2, 1, Down, 2), node(1, 2, Left, 2)]);
    assert!(children_of(&tree, right).is_empty());
    assert_eq!(size_of(&tree), 5);
}

#[test]
fn the_budget_of_a_board_is_250_ms_and_its_width() {
    let board = board_with(7, 11, vec![], vec![], vec![]);
    let budget = SearchBudget::for_board(&board);
    assert_eq!(budget.time_ms, 250);
    assert_eq!(budget.depth, 7);
}

#[test]
fn a_budget_allows_up_to_and_including_its_limits() {
    let budget = SearchBudget { time_ms: 250, depth: 11 };
    assert!(budget.allows(0, 0));
    assert!(budget.allows(250, 11));
    assert!(!budget.allows(251, 11));
    assert!(!budget.allows(250, 12));
    assert!(!budget.allows(251, 12));
    assert!(budget.allows(0, -5));
    assert!(untimed(3).allows(u128::MAX, 3));
}

#[test]
fn subtree_max_depth_is_the_greatest_depth_anywhere_below() {
    let mut tree = TreeBuilder::new().with_root(node(0, 0, NoMove, 0)).build();
    let root = tree.root_id().unwrap();
    let a = grow(&mut tree, root, node(0, 1, Up, 1));
    let b = grow(&mut tree, root, node(1, 0, Right, 1));
    let a1 = grow(&mut tree, a, node(0, 2, Up, 2));
    let _a2 = grow(&mut tree, a, node(1, 1, Right, 2));
    let a11 = grow(&mut tree, a1, node(0, 3, Up, 3));
    let _b1 = grow(&mut tree, b, node(2, 0, Right, 2));
    assert_eq!(subtree_max_depth(&tree, root), 3);
    assert_eq!(subtree_max_depth(&tree, a), 3);
    assert_eq!(subtree_max_depth(&tree, b), 2);
    assert_eq!(subtree_max_depth(&tree, a1), 3);
    assert_eq!(subtree_max_depth(&tree, a11), 3);
}

#[test]
fn subtree_max_depth_of_a_leaf_is_its_own_depth() {
    let mut tree = TreeBuilder::new().with_root(node(0, 0, NoMove, 0)).build();
    let root = tree.root_id().unwrap();
    let leaf = grow(&mut tree, root, node(0, 1, Up, 9));
    assert_eq!(subtree_max_depth(&tree, leaf), 9);
}

#[test]
fn subtree_max_depth_counts_from_zero() {
    let mut tree = TreeBuilder::new().with_root(node(0, 0, NoMove, -4)).build();
    let root = tree.root_id().unwrap();
    let _ = grow(&mut tree, root, node(0, 1, Up, -3));
    assert_eq!(subtree_max_depth(&tree, root), 0);
}

#[test]
fn subtree_max_depth_reads_the_stored_depths_not_the_shape() {
    let mut tree = TreeBuilder::new().with_root(node(0, 0, NoMove, 0)).build();
    let root = tree.root_id().unwrap();
    let a = grow(&mut tree, root, node(0, 1, Up, 40));
    let _ = grow(&mut tree, a, node(0, 2, Up, 2));
    let b = grow(&mut tree, root, node(1, 0, Right, 1));
    assert_eq!(subtree_max_depth(&tree, a), 40);
    assert_eq!(subtree_max_depth(&tree, b), 1);
    assert_eq!(subtree_max_depth(&tree, root), 40);
}

#[test]
fn subtree_max_depth_finds_a_deep_node_in_a_late_branch() {
    let mut tree = TreeBuilder::new().with_root(node(0, 0, NoMove, 0)).build();
    let root = tree.root_id().unwrap();
    let first = grow(&mut tree, root, node(0, 1, Up, 1));
    let _ = grow(&mut tree, first, node(0, 2, Up, 2));
    let second = grow(&mut tree, root, node(1, 0, Right, 1));
    let mut tip = second;
    for depth in 2..8 {
        tip = grow(&mut tree, tip, node(depth, 0, Right, depth));
    }
    let _ = grow(&mut tree, root, node(0, 0, Down, 1));
    assert_eq!(subtree_max_depth(&tree, root), 7);
    assert_eq!(subtree_max_depth(&tree, second), 7);
    assert_eq!(subtree_max_depth(&tree, first), 2);
}

#[test]
fn subtree_max_depth_sees_every_node_of_trees_of_any_shape() {
    // Trees grown from a fixed pseudo-random sequence, each node with an
    // arbitrary stored depth, checked at every node against a plain walk.
    let mut state: u64 = 0x2545_f491_4f6c_dd1d;
    let mut next = move |bound: u64| {
        state ^= state << 13;
        state ^= state >> 7;
        state ^= state << 17;
        state % bound
    };
    for _ in 0..40 {
        let mut tree = TreeBuilder::new().with_root(node(0, 0, NoMove, next(50) as i32)).build();
        let mut ids = vec![tree.root_id().unwrap()];
        let size = 1 + next(60) as usize;
        while ids.len() < size {
            let parent = ids[next(ids.len() as u64) as usize];
            let depth = next(200) as i32 - 50;
            ids.push(grow(&mut tree, parent, node(1, 1, Up, depth)));
        }
        for &id in &ids {
            let expected = tree
                .get(id)
                .unwrap()
                .traverse_pre_order()
                .map(|found| found.data().depth)
                .fold(0, i32::max);
            assert_eq!(subtree_max_depth(&tree, id), expected);
        }
    }
}

#[test]
fn a_branch_that_reaches_all_that_another_does_is_not_passed_over() {
    // Left reaches (4,5) and (3,5); Right reaches as deep and one level more.
    let mut tree = TreeBuilder::new().with_root(node(5, 5, NoMove, 0)).build();
    let root = tree.root_id().unwrap();
    let left = grow(&mut tree, root, node(4, 5, Left, 1));
    let _ = grow(&mut tree, left, node(3, 5, Left, 2));
    let right = grow(&mut tree, root, node(6, 5, Right, 1));
    let on = grow(&mut tree, right, node(7, 5, Right, 2));
    let _ = grow(&mut tree, on, node(8, 5, Right, 3));
    assert_eq!(choose_direction(&tree, &vec![]).direction, Right);
    // With both equally deep the first listed stays.
    let mut tie = TreeBuilder::new().with_root(node(5, 5, NoMove, 0)).build();
    let root = tie.root_id().unwrap();
    let left = grow(&mut tie, root, node(4, 5, Left, 1));
    let _ = grow(&mut tie, left, node(3, 5, Left, 2));
    let right = grow(&mut tie, root, node(6, 5, Right, 1));
    let _ = grow(&mut tie, right, node(7, 5, Right, 2));
    let _ = grow(&mut tie, right, node(6, 6, Up, 2));
    assert_eq!(choose_direction(&tie, &vec![]).direction, Left);
}

#[test]
fn the_policy_takes_the_deepest_first_move() {
    let mut tree = TreeBuilder::new().with_root(node(5, 5, NoMove, 0)).build();
    let root = tree.root_id().unwrap();
    let up = grow(&mut tree, root, node(5, 6, Up, 1));
    let left = grow(&mut tree, root, node(4, 5, Left, 1));
    let _right = grow(&mut tree, root, node(6, 5, Right, 1));
    let _ = grow(&mut tree, up, node(5, 7, Up, 2));
    let deeper = grow(&mut tree, left, node(3, 5, Left, 2));
    let _ = grow(&mut tree, deeper, node(2, 5, Left, 3));
    let best = choose_direction(&tree, &vec![]);
    assert_eq!(best, Choice { direction: Left, depth: 3, food: false });
}

#[test]
fn the_policy_keeps_the_first_of_equally_deep_moves() {
    let mut tree = TreeBuilder::new().with_root(node(5, 5, NoMove, 0)).build();
    let root = tree.root_id().unwrap();
    let down = grow(&mut tree, root, node(5, 4, Down, 1));
    let right = grow(&mut tree, root, node(6, 5, Right, 1));
    let _ = grow(&mut tree, down, node(5, 3, Down, 2));
    let _ = grow(&mut tree, right, node(7, 5, Right, 2));
    let _ = grow(&mut tree, right, node(6, 6, Up, 2));
    let best = choose_direction(&tree, &vec![]);
    assert_eq!(best, Choice { direction: Down, depth: 2, food: false });
}

#[test]
fn the_policy_falls_back_on_up_without_children() {
    let tree = TreeBuilder::new().with_root(node(5, 5, NoMove, 0)).build();
    assert_eq!(choose_direction(&tree, &vec![]), Choice { direction: Up, depth: 0, food: false });
}

#[test]
fn the_policy_falls_back_on_up_without_a_root() {
    let tree: Tree<TreeNode> = Tree::new();
    assert_eq!(
        choose_direction(&tree, &vec![xy(0, 0)]),
        Choice { direction: Up, depth: 0, food: false }
    );
}

#[test]
fn the_policy_takes_a_single_leaf_child() {
    let mut tree = TreeBuilder::new().with_root(node(5, 5, NoMove, 0)).build();
    let root = tree.root_id().unwrap();
    let _ = grow(&mut tree, root, node(6, 5, Right, 1));
    assert_eq!(
        choose_direction(&tree, &vec![]),
        Choice { direction: Right, depth: 1, food: false }
    );
}

#[test]
fn the_policy_reports_food_on_the_chosen_cell_and_is_not_swayed_by_it() {
    let mut tree = TreeBuilder::new().with_root(node(5, 5, NoMove, 0)).build();
    let root = tree.root_id().unwrap();
    let down = grow(&mut tree, root, node(5, 4, Down, 1));
    let right = grow(&mut tree, root, node(6, 5, Right, 1));
    let _ = grow(&mut tree, right, node(7, 5, Right, 2));
    // Food on the shallow first move does not make it win.
    assert_eq!(
        choose_direction(&tree, &vec![xy(5, 4)]),
        Choice { direction: Right, depth: 2, food: false }
    );
    // Food on the winning first move is reported.
    assert_eq!(
        choose_direction(&tree, &vec![xy(6, 5)]),
        Choice { direction: Right, depth: 2, food: true }
    );
    // A later, deeper move still beats an earlier one with food.
    let _ = grow(&mut tree, down, node(5, 3, Down, 2));
    let left = grow(&mut tree, root, node(4, 5, Left, 1));
    let deeper = grow(&mut tree, left, node(3, 5, Left, 2));
    let _ = grow(&mut tree, deeper, node(2, 5, Left, 3));
    assert_eq!(
        choose_direction(&tree, &vec![xy(5, 4)]),
        Choice { direction: Left, depth: 3, food: false }
    );
}

#[test]
fn the_policy_ignores_children_that_reach_no_depth() {
    let mut tree = TreeBuilder::new().with_root(node(5, 5, NoMove, 0)).build();
    let root = tree.root_id().unwrap();
    let _ = grow(&mut tree, root, node(5, 4, Down, 0));
    let _ = grow(&mut tree, root, node(6, 5, Right, 0));
    assert_eq!(choose_direction(&tree, &vec![]), Choice { direction: Up, depth: 0, food: false });
}

#[test]
fn pick_best_takes_the_first_of_the_deepest() {
    let candidates = vec![
        Choice { direction: Up, depth: 2, food: false },
        Choice { direction: Down, depth: 5, food: true },
        Choice { direction: Left, depth: 5, food: false },
        Choice { direction: Right, depth: 4, food: false },
    ];
    assert_eq!(pick_best(&candidates), Choice { direction: Down, depth: 5, food: true });
}

#[test]
fn pick_best_of_nothing_is_up() {
    assert_eq!(pick_best(&vec![]), Choice { direction: Up, depth: 0, food: false });
}

#[test]
fn pick_best_needs_a_depth_past_zero() {
    let candidates = vec![
        Choice { direction: Left, depth: 0, food: true },
        Choice { direction: Right, depth: -1, food: false },
    ];
    assert_eq!(pick_best(&candidates), Choice { direction: Up, depth: 0, food: false });
}

#[test]
fn pick_best_never_prefers_the_shallower_of_two() {
    let shallow = Choice { direction: Left, depth: 3, food: true };
    let deep = Choice { direction: Right, depth: 4, food: false };
    assert_eq!(pick_best(&vec![shallow, deep]), deep);
    assert_eq!(pick_best(&vec![deep, shallow]), deep);
}

#[test]
fn open_board_untimed_answers_up_by_the_tie_break() {
    let event = open_board_event();
    for limit in 0..4 {
        assert_eq!(
            decide(&event, &untimed(limit)),
            Choice { direction: Up, depth: limit + 1, food: false }
        );
    }
}

#[test]
fn open_board_turn_answers_a_legal_move() {
    let response = turn(&open_board_event());
    assert!(matches!(response.result_move, Up | Left | Right));
    assert_eq!(response.shout, "");
}

#[test]
fn cornered_head_answers_up_or_right() {
    let you = snake_at(vec![xy(0, 0)]);
    let event = event_with(board_with(11, 11, vec![you.clone()], vec![], vec![]), you);
    assert_eq!(decide(&event, &untimed(2)), Choice { direction: Up, depth: 3, food: false });
    assert!(matches!(turn(&event).result_move, Up | Right));
}

#[test]
fn fully_boxed_in_answers_up() {
    let you = snake_at(vec![xy(5, 5), xy(5, 4)]);
    let other = snake_called("other", vec![xy(5, 6), xy(4, 6), xy(4, 5)]);
    let third = snake_called("third", vec![xy(6, 5), xy(7, 5)]);
    let event = event_with(board_with(11, 11, vec![you.clone(), other, third], vec![], vec![]), you);
    assert_eq!(decide(&event, &untimed(3)), Choice { direction: Up, depth: 0, food: false });
    let response = turn(&event);
    assert_eq!(response.result_move, Up);
    assert_eq!(response.shout, "");
}

#[test]
fn boxed_in_by_walls_and_hazards_answers_up() {
    let you = snake_at(vec![xy(10, 0)]);
    let event = event_with(
        board_with(11, 11, vec![you.clone()], vec![xy(10, 1), xy(9, 0)], vec![xy(10, 1)]),
        you,
    );
    assert_eq!(turn(&event).result_move, Up);
}

#[test]
fn a_dead_end_loses_to_open_space() {
    // Up from (0,0) leads to (0,1), from where nothing is free: hazards above
    // and beside, and the own body below. Right leads on.
    let you = snake_at(vec![xy(0, 0), xy(0, 0)]);
    let board = board_with(11, 11, vec![you.clone()], vec![xy(0, 2), xy(1, 1)], vec![]);
    let event = event_with(board, you);
    assert_eq!(decide(&event, &untimed(3)), Choice { direction: Right, depth: 4, food: false });
    assert_eq!(turn(&event).result_move, Right);
}

#[test]
fn the_answer_reports_food_on_the_first_cell() {
    let you = snake_at(vec![xy(0, 0)]);
    let board = board_with(11, 11, vec![you.clone()], vec![xy(0, 1)], vec![xy(1, 0)]);
    let event = event_with(board, you);
    assert_eq!(decide(&event, &untimed(1)), Choice { direction: Right, depth: 2, food: true });
}

#[test]
fn the_answer_matches_the_search_written_as_a_recursion() {
    let you = snake_at(vec![xy(2, 2), xy(2, 1), xy(2, 0)]);
    let other = snake_called("other", vec![xy(4, 4), xy(4, 3), xy(3, 3)]);
    let board =
        board_with(6, 5, vec![other, you.clone()], vec![xy(0, 2), xy(1, 4)], vec![xy(3, 2)]);
    let event = event_with(board, you);
    for limit in 0..6 {
        let mut expected = Choice { direction: Up, depth: 0, food: false };
        for direction in expected_moves(&event.board, "me", event.you.head, &event.you.body) {
            let cell = event.you.head.translate(&direction);
            let body = advanced(&event.you.body, cell);
            let (_, reach) = expected_below(&event.board, "me", cell, &body, 1, limit);
            if reach > expected.depth {
                expected =
                    Choice { direction, depth: reach, food: event.board.food.contains(&cell) };
            }
        }
        assert_eq!(decide(&event, &untimed(limit)), expected);
    }
}

#[test]
fn a_turn_whose_time_is_up_still_answers() {
    let event = open_board_event();
    let budget = SearchBudget { time_ms: 0, depth: 11 };
    let best = decide(&event, &budget);
    assert!(matches!(best.direction, Up | Left | Right));
    assert!(best.direction != NoMove);
}

#[test]
fn a_turn_stays_close_to_its_time_budget() {
    let event = open_board_event();
    let started = Instant::now();
    let _ = turn(&event);
    assert!(started.elapsed().as_millis() < 5000);
}
