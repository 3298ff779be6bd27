//! The decision engine: the time-boxed, depth-bounded search of the move
//! tree, the decision policy applied to the finished tree, and the turn that
//! puts them together.
//!
//! The search simulates the acting snake move by move and leaves the other
//! snakes where the board has them. It reads the clock once per node, in
//! [`generate_tree_move`]; what happens for each reading is the business of
//! [`expand_node`], which takes the reading as an argument.

use vstd::math::max;
use vstd::prelude::*;
use slab_tree::{NodeId, Tree};
use std::time::Instant;
use crate::cells::list_has_cell;
use crate::filter::{
    get_available_moves, lemma_legal_move_stays_on_board, lemma_legal_moves_contains,
};
use crate::policy::{best_of, fallback, is_best, lemma_best_of_cases, pick_best, Choice};
use crate::schemas::{
    BattleSnakeMove, BattleSnakeMoveResponse, Board, Coordinate, GameEvent, TreeNode,
};
use crate::snake::{BattleSnake, Pose};
use crate::tree::{
    descends, in_subtree, tree_append, tree_children, tree_data, tree_level_order, tree_linked,
    tree_nodes, tree_root, tree_root_id, tree_with_root, Slot,
};

verus! {

/// How far a search may go: a wall-clock limit in milliseconds and a depth
/// limit. A time limit of `u128::MAX` is no limit at all.
#[derive(Debug, Clone, Copy)]
pub struct SearchBudget {
    pub time_ms: u128,
    pub depth: i32,
}

impl SearchBudget {
    /// Whether no reading of the clock can stop the search.
    pub open spec fn untimed(self) -> bool {
        self.time_ms == u128::MAX
    }

    /// The budget of a turn: 250 ms, and the board's width as depth limit.
    pub fn for_board(board: &Board) -> (budget: SearchBudget)
        ensures
            budget.time_ms == 250,
            budget.depth == board.width,
    {
        SearchBudget { time_ms: 250, depth: board.width }
    }

    /// Whether a node at `depth` may still be expanded when `elapsed_ms`
    /// milliseconds have passed: neither the time nor the depth exceeds
    /// its limit.
    pub fn allows(&self, elapsed_ms: u128, depth: i32) -> (go_on: bool)
        ensures
            go_on == (elapsed_ms <= self.time_ms && depth <= self.depth),
    {
        !(elapsed_ms > self.time_ms) && !(depth > self.depth)
    }
}

/// The node that the search adds below a node at `depth` whose snake has
/// its head on `head`, for the move `direction`.
pub open spec fn child_node(
    board: Board,
    head: Coordinate,
    direction: BattleSnakeMove,
    depth: int,
) -> TreeNode {
    TreeNode {
        coordinate: head.translated(direction),
        direction,
        food: board.food_cells().contains(head.translated(direction)),
        depth: (depth + 1) as i32,
    }
}

/// The root of a search from `head`: the placeholder direction, no food,
/// depth 0.
pub open spec fn root_node(head: Coordinate) -> TreeNode {
    TreeNode { coordinate: head, direction: BattleSnakeMove::NoMove, food: false, depth: 0 }
}

/// Whether `kids` are what the search hangs below a node at `depth`, in
/// whose state the acting snake, called `id`, is at `pose`, and whether the
/// same holds all the way down.
///
/// A node past the depth limit has no children. Any other node has either
/// none (its expansion was cut short by the clock) or exactly one per legal
/// move of the snake at `pose`, in the order of the filter, each holding
/// [`child_node`] for its move and expanded in turn for the snake advanced
/// by that move. The moves at each level are filtered against the state of
/// that level: the body that the acting snake then has, and the other
/// snakes where the board has them. An `exhaustive` search cuts nothing
/// short. Every node below lies in `region`.
pub open spec fn expanded(
    nodes: Map<NodeId, Slot>,
    kids: Seq<NodeId>,
    board: Board,
    id: Seq<char>,
    pose: Pose,
    depth: int,
    limit: int,
    exhaustive: bool,
    region: Set<NodeId>,
) -> bool
    decreases limit + 1 - depth,
{
    let moves = board.moves_of(id, pose);
    if depth > limit {
        kids.len() == 0
    } else {
        &&& kids.len() == 0 || kids.len() == moves.len()
        &&& exhaustive ==> kids.len() == moves.len()
        &&& forall|i: int|
            0 <= i < kids.len() ==> {
                &&& region.contains(#[trigger] kids[i])
                &&& nodes.contains_key(kids[i])
                &&& nodes[kids[i]].data == child_node(board, pose.head, moves[i], depth)
                &&& expanded(
                    nodes,
                    nodes[kids[i]].children,
                    board,
                    id,
                    pose.moved(moves[i]),
                    depth + 1,
                    limit,
                    exhaustive,
                    region,
                )
            }
    }
}

/// An expanded subtree stays expanded in any arena that agrees with this
/// one on the subtree's region, and in any larger region.
pub proof fn lemma_expanded_transfer(
    nodes: Map<NodeId, Slot>,
    other: Map<NodeId, Slot>,
    kids: Seq<NodeId>,
    board: Board,
    id: Seq<char>,
    pose: Pose,
    depth: int,
    limit: int,
    exhaustive: bool,
    region: Set<NodeId>,
    wider: Set<NodeId>,
)
    requires
        expanded(nodes, kids, board, id, pose, depth, limit, exhaustive, region),
        region.subset_of(wider),
        forall|n: NodeId|
            region.contains(n) && nodes.contains_key(n) ==> other.contains_key(n) && other[n]
                == nodes[n],
    ensures
        expanded(other, kids, board, id, pose, depth, limit, exhaustive, wider),
    decreases limit + 1 - depth,
{
    if depth <= limit {
        let moves = board.moves_of(id, pose);
        assert forall|i: int| 0 <= i < kids.len() implies {
            &&& wider.contains(#[trigger] kids[i])
            &&& other.contains_key(kids[i])
            &&& other[kids[i]].data == child_node(board, pose.head, moves[i], depth)
            &&& expanded(
                other,
                other[kids[i]].children,
                board,
                id,
                pose.moved(moves[i]),
                depth + 1,
                limit,
                exhaustive,
                wider,
            )
        } by {
            lemma_expanded_transfer(
                nodes,
                other,
                nodes[kids[i]].children,
                board,
                id,
                pose.moved(moves[i]),
                depth + 1,
                limit,
                exhaustive,
                region,
                wider,
            );
        }
    }
}

/// What one call of the search does to the arena, whatever the clock read.
///
/// Every node but `node` is as it was; `node` keeps its data and its
/// earlier children, and what was added after them is [`expanded`] for the
/// snake at `pose` and for `depth`, out of nodes that are all new.
pub open spec fn search_grew(
    before: Map<NodeId, Slot>,
    after: Map<NodeId, Slot>,
    node: NodeId,
    board: Board,
    id: Seq<char>,
    pose: Pose,
    depth: int,
    limit: int,
    exhaustive: bool,
) -> bool {
    &&& forall|n: NodeId|
        #[trigger] before.contains_key(n) && n != node ==> after.contains_key(n) && after[n]
            == before[n]
    &&& after.contains_key(node)
    &&& after[node].data == before[node].data
    &&& before[node].children.is_prefix_of(after[node].children)
    &&& expanded(
        after,
        after[node].children.skip(before[node].children.len() as int),
        board,
        id,
        pose,
        depth,
        limit,
        exhaustive,
        after.dom().difference(before.dom()),
    )
}

/// The move-tree search below one node.
///
/// `node` stands for a state in which the acting snake is `you`, `depth`
/// moves after the turn began. The clock is read once, and the node is
/// expanded for that reading by [`expand_node`]; what that does to the tree
/// for each reading is said there. Whatever the clock reads, what is added
/// below `node` is a search tree for `you`, and past the depth limit
/// nothing is added.
pub fn generate_tree_move(
    board: &Board,
    you: &BattleSnake,
    tree: &mut Tree<TreeNode>,
    node: NodeId,
    start: &Instant,
    depth: i32,
    budget: &SearchBudget,
)
    requires
        board.playable(),
        board.contains_cell(you.head),
        budget.depth < i32::MAX,
        tree_linked(*old(tree)),
        tree_nodes(*old(tree)).contains_key(node),
    ensures
        tree_linked(*final(tree)),
        tree_root(*final(tree)) == tree_root(*old(tree)),
        depth > budget.depth ==> tree_nodes(*final(tree)) == tree_nodes(*old(tree)),
        search_grew(
            tree_nodes(*old(tree)),
            tree_nodes(*final(tree)),
            node,
            *board,
            you.id@,
            you.pose(),
            depth as int,
            budget.depth as int,
            budget.untimed(),
        ),
    decreases budget.depth + 1 - depth, 1int,
{
    let elapsed_ms = start.elapsed().as_millis();
    expand_node(board, you, tree, node, start, depth, budget, elapsed_ms);
}

/// Expands one node of the search, `elapsed_ms` milliseconds after the
/// search began.
///
/// If `elapsed_ms` or `depth` exceeds `budget`, the tree is left as it is.
/// Otherwise the cells that snakes hold in the state of `node` are
/// computed: the body of `you` as it is at this node, and the other snakes
/// where the board has them. The legal moves of `you` are filtered, and for
/// each of them, in order, a child is appended to `node` and searched in
/// turn by [`generate_tree_move`], one level deeper, with `you` advanced by
/// that move. So `node` gains exactly one child per legal move.
pub fn expand_node(
    board: &Board,
    you: &BattleSnake,
    tree: &mut Tree<TreeNode>,
    node: NodeId,
    start: &Instant,
    depth: i32,
    budget: &SearchBudget,
    elapsed_ms: u128,
)
    requires
        board.playable(),
        board.contains_cell(you.head),
        budget.depth < i32::MAX,
        tree_linked(*old(tree)),
        tree_nodes(*old(tree)).contains_key(node),
    ensures
        tree_linked(*final(tree)),
        tree_root(*final(tree)) == tree_root(*old(tree)),
        !(elapsed_ms <= budget.time_ms && depth <= budget.depth) ==> tree_nodes(*final(tree))
            == tree_nodes(*old(tree)),
        elapsed_ms <= budget.time_ms && depth <= budget.depth ==> tree_nodes(
            *final(tree),
        )[node].children.len() == tree_nodes(*old(tree))[node].children.len() + board.moves_of(
            you.id@,
            you.pose(),
        ).len(),
        search_grew(
            tree_nodes(*old(tree)),
            tree_nodes(*final(tree)),
            node,
            *board,
            you.id@,
            you.pose(),
            depth as int,
            budget.depth as int,
            budget.untimed(),
        ),
    decreases budget.depth + 1 - depth, 0int,
{
    let ghost before = tree_nodes(*tree);
    let ghost limit = budget.depth as int;
    let ghost exhaustive = budget.untimed();
    let ghost id = you.id@;
    let ghost pose = you.pose();
    if !budget.allows(elapsed_ms, depth) {
        assert(before[node].children.skip(before[node].children.len() as int)
            =~= Seq::<NodeId>::empty());
        return ;
    }
    let all_snake_bodies = board.occupancy(you);
    let hazards = board.hazard_set();
    let available_moves = get_available_moves(
        you,
        &all_snake_bodies,
        &hazards,
        board.width,
        board.height,
    );
    let ghost moves = board.moves_of(id, pose);
    let ghost mut kids = Seq::<NodeId>::empty();
    let mut i: usize = 0;
    while i < available_moves.len()
        invariant
            board.playable(),
            board.contains_cell(you.head),
            budget.depth < i32::MAX,
            depth <= budget.depth,
            limit == budget.depth,
            exhaustive == budget.untimed(),
            id == you.id@,
            pose == you.pose(),
            moves == board.moves_of(id, pose),
            available_moves@ == moves,
            before == tree_nodes(*old(tree)),
            i <= available_moves.len(),
            kids.len() == i,
            tree_linked(*tree),
            tree_root(*tree) == tree_root(*old(tree)),
            forall|n: NodeId|
                #[trigger] before.contains_key(n) && n != node ==> tree_nodes(*tree).contains_key(
                    n,
                ) && tree_nodes(*tree)[n] == before[n],
            tree_nodes(*tree).contains_key(node),
            before.contains_key(node),
            tree_nodes(*tree)[node].data == before[node].data,
            tree_nodes(*tree)[node].children == before[node].children + kids,
            forall|j: int|
                0 <= j < i ==> {
                    &&& !before.contains_key(#[trigger] kids[j])
                    &&& tree_nodes(*tree).contains_key(kids[j])
                    &&& tree_nodes(*tree)[kids[j]].data == child_node(
                        *board,
                        pose.head,
                        moves[j],
                        depth as int,
                    )
                    &&& expanded(
                        tree_nodes(*tree),
                        tree_nodes(*tree)[kids[j]].children,
                        *board,
                        id,
                        pose.moved(moves[j]),
                        depth + 1,
                        limit,
                        exhaustive,
                        tree_nodes(*tree).dom().difference(before.dom()),
                    )
                },
        decreases available_moves.len() - i,
    {
        let available_move = available_moves[i];
        proof {
            assert(moves.contains(moves[i as int]));
            lemma_legal_move_stays_on_board(*board, id, pose, available_move);
        }
        let new_coordinate = you.head.translate(&available_move);
        let food = list_has_cell(&board.food, &new_coordinate);
        let ghost at_loop = tree_nodes(*tree);
        let child = tree_append(
            tree,
            node,
            TreeNode { coordinate: new_coordinate, direction: available_move, food, depth: depth + 1 },
        );
        let ghost appended = tree_nodes(*tree);
        let moved = you.do_move(available_move);
        generate_tree_move(board, &moved, tree, child, start, depth + 1, budget);
        let ghost after = tree_nodes(*tree);
        proof {
            let region_before = at_loop.dom().difference(before.dom());
            let region_after = after.dom().difference(before.dom());
            assert forall|n: NodeId| at_loop.contains_key(n) implies appended.contains_key(
                n,
            ) by {}
            assert forall|n: NodeId| appended.contains_key(n) implies after.contains_key(n) by {}
            assert forall|n: NodeId| before.contains_key(n) implies at_loop.contains_key(n) by {}
            assert forall|n: NodeId|
                at_loop.contains_key(n) && n != node implies after[n] == at_loop[n] by {
                assert(appended[n] == at_loop[n]);
            }
            assert(after.dom().difference(appended.dom()).subset_of(region_after));
            assert(region_before.subset_of(region_after));
            assert(appended[child].children.len() == 0);
            assert(after[child].children.skip(0) =~= after[child].children);
            assert(after[node].children == before[node].children + kids.push(child)) by {
                assert(after[node] == appended[node]);
                assert(appended[node].children == (before[node].children + kids).push(child));
                assert((before[node].children + kids).push(child) =~= before[node].children
                    + kids.push(child));
            }
            lemma_expanded_transfer(
                after,
                after,
                after[child].children,
                *board,
                id,
                pose.moved(available_move),
                depth + 1,
                limit,
                exhaustive,
                after.dom().difference(appended.dom()),
                region_after,
            );
            assert forall|j: int| 0 <= j < i implies expanded(
                after,
                after[#[trigger] kids[j]].children,
                *board,
                id,
                pose.moved(moves[j]),
                depth + 1,
                limit,
                exhaustive,
                region_after,
            ) by {
                assert(after[kids[j]] == at_loop[kids[j]]);
                lemma_expanded_transfer(
                    at_loop,
                    after,
                    at_loop[kids[j]].children,
                    *board,
                    id,
                    pose.moved(moves[j]),
                    depth + 1,
                    limit,
                    exhaustive,
                    region_before,
                    region_after,
                );
            }
            kids = kids.push(child);
        }
        i += 1;
    }
    proof {
        let after = tree_nodes(*tree);
        assert(after[node].children.skip(before[node].children.len() as int) =~= kids);
        assert(before[node].children.is_prefix_of(after[node].children));
        assert forall|j: int| 0 <= j < kids.len() implies after.dom().difference(
            before.dom(),
        ).contains(#[trigger] kids[j]) by {}
    }
}

/// Whether a tree with root `root` and nodes `nodes` is a search tree for
/// the snake called `id` at `pose`: the root holds [`root_node`] for its
/// head, and its children are [`expanded`] from depth 0.
pub open spec fn is_search_tree(
    root: Option<NodeId>,
    nodes: Map<NodeId, Slot>,
    board: Board,
    id: Seq<char>,
    pose: Pose,
    limit: int,
    exhaustive: bool,
) -> bool {
    &&& root is Some
    &&& nodes.contains_key(root.unwrap())
    &&& nodes[root.unwrap()].data == root_node(pose.head)
    &&& expanded(
        nodes,
        nodes[root.unwrap()].children,
        board,
        id,
        pose,
        0,
        limit,
        exhaustive,
        nodes.dom().remove(root.unwrap()),
    )
}

/// Builds the move tree of a turn: a root for the acting snake's head, and
/// below it whatever the search reaches within `budget`.
pub fn build_tree(board: &Board, you: &BattleSnake, budget: &SearchBudget) -> (tree: Tree<
    TreeNode,
>)
    requires
        board.playable(),
        board.contains_cell(you.head),
        budget.depth < i32::MAX,
    ensures
        tree_linked(tree),
        is_search_tree(
            tree_root(tree),
            tree_nodes(tree),
            *board,
            you.id@,
            you.pose(),
            budget.depth as int,
            budget.untimed(),
        ),
{
    let mut tree = tree_with_root(
        TreeNode {
            coordinate: you.head,
            direction: BattleSnakeMove::NoMove,
            food: false,
            depth: 0,
        },
    );
    let ghost before = tree_nodes(tree);
    let start = Instant::now();
    match tree_root_id(&tree) {
        Some(root) => {
            generate_tree_move(board, you, &mut tree, root, &start, 0, budget);
            proof {
                let after = tree_nodes(tree);
                assert(before.dom() =~= set![root]);
                assert(after[root].children.skip(0) =~= after[root].children);
                lemma_expanded_transfer(
                    after,
                    after,
                    after[root].children,
                    *board,
                    you.id@,
                    you.pose(),
                    0,
                    budget.depth as int,
                    budget.untimed(),
                    after.dom().difference(before.dom()),
                    after.dom().remove(root),
                );
            }
        },
        None => {},
    }
    tree
}

/// Whether `deepest` is the greatest depth found in the subtree under `top`,
/// counting from 0: no node there is deeper, and unless `deepest` is 0 some
/// node there is that deep.
pub open spec fn is_max_depth(nodes: Map<NodeId, Slot>, top: NodeId, deepest: int) -> bool {
    &&& deepest >= 0
    &&& forall|id: NodeId| #[trigger] in_subtree(nodes, top, id) ==> nodes[id].data.depth <= deepest
    &&& deepest == 0 || exists|id: NodeId|
        #[trigger] in_subtree(nodes, top, id) && nodes[id].data.depth == deepest
}

/// The greatest depth found in the subtree under `top`.
pub open spec fn max_depth_below(nodes: Map<NodeId, Slot>, top: NodeId) -> int {
    choose|deepest: int| is_max_depth(nodes, top, deepest)
}

/// A subtree has one greatest depth.
pub proof fn lemma_max_depth_is_unique(nodes: Map<NodeId, Slot>, top: NodeId, a: int, b: int)
    requires
        is_max_depth(nodes, top, a),
        is_max_depth(nodes, top, b),
    ensures
        a == b,
{
}

/// Walks the whole subtree under `top` and returns the greatest depth
/// found in it.
pub fn subtree_max_depth(tree: &Tree<TreeNode>, top: NodeId) -> (deepest: i32)
    requires
        tree_nodes(*tree).contains_key(top),
    ensures
        is_max_depth(tree_nodes(*tree), top, deepest as int),
        deepest == max_depth_below(tree_nodes(*tree), top),
{
    let ghost nodes = tree_nodes(*tree);
    let listed = tree_level_order(tree, top);
    let mut deepest: i32 = 0;
    let mut i: usize = 0;
    while i < listed.len()
        invariant
            i <= listed.len(),
            nodes == tree_nodes(*tree),
            forall|k: int| 0 <= k < listed@.len() ==> nodes.contains_key(#[trigger] listed@[k]),
            deepest >= 0,
            forall|k: int| 0 <= k < i ==> nodes[#[trigger] listed@[k]].data.depth <= deepest,
            deepest == 0 || exists|k: int|
                0 <= k < i && nodes[#[trigger] listed@[k]].data.depth == deepest,
        decreases listed.len() - i,
    {
        let next_depth = tree_data(tree, listed[i]).depth;
        if next_depth > deepest {
            deepest = next_depth;
        }
        i += 1;
    }
    proof {
        assert forall|id: NodeId| #[trigger] in_subtree(nodes, top, id) implies nodes[id].data.depth
            <= deepest by {
            assert(listed@.contains(id));
            let k = choose|k: int| 0 <= k < listed@.len() && listed@[k] == id;
            assert(nodes[listed@[k]].data.depth <= deepest);
        }
        if deepest != 0 {
            let k = choose|k: int|
                0 <= k < i && nodes[#[trigger] listed@[k]].data.depth == deepest;
            assert(listed@.contains(listed@[k]));
            assert(in_subtree(nodes, top, listed@[k]));
        }
        assert(is_max_depth(nodes, top, deepest as int));
        lemma_max_depth_is_unique(nodes, top, deepest as int, max_depth_below(nodes, top));
    }
    deepest
}

/// The candidate that the first move to `kid` makes: its direction, the
/// greatest depth in its subtree, and whether food lies on its cell.
pub open spec fn candidate(nodes: Map<NodeId, Slot>, kid: NodeId, food: Seq<Coordinate>) -> Choice {
    Choice {
        direction: nodes[kid].data.direction,
        depth: max_depth_below(nodes, kid) as i32,
        food: food.contains(nodes[kid].data.coordinate),
    }
}

/// The candidates of a tree: one per child of the root, in their order. A
/// tree without a root has none.
pub open spec fn candidates(
    root: Option<NodeId>,
    nodes: Map<NodeId, Slot>,
    food: Seq<Coordinate>,
) -> Seq<Choice> {
    match root {
        Some(root) => Seq::new(
            nodes[root].children.len(),
            |i: int| candidate(nodes, nodes[root].children[i], food),
        ),
        None => Seq::empty(),
    }
}

/// Whether the depth of every candidate of a tree is in fact the greatest
/// depth in the subtree of its first move.
pub open spec fn depths_are_greatest(
    root: Option<NodeId>,
    nodes: Map<NodeId, Slot>,
    food: Seq<Coordinate>,
) -> bool {
    root is Some ==> forall|i: int|
        0 <= i < nodes[root.unwrap()].children.len() ==> is_max_depth(
            nodes,
            #[trigger] nodes[root.unwrap()].children[i],
            candidates(root, nodes, food)[i].depth as int,
        )
}

/// The decision policy on a finished tree. Only the children of the root
/// are compared, each by the greatest depth in its whole subtree. `food`
/// lists the cells with food on them.
pub fn choose_direction(tree: &Tree<TreeNode>, food: &Vec<Coordinate>) -> (best: Choice)
    ensures
        best == best_of(candidates(tree_root(*tree), tree_nodes(*tree), food@)),
        depths_are_greatest(tree_root(*tree), tree_nodes(*tree), food@),
{
    let ghost nodes = tree_nodes(*tree);
    let mut found: Vec<Choice> = Vec::new();
    match tree_root_id(tree) {
        Some(root) => {
            let children = tree_children(tree, root);
            let mut i: usize = 0;
            while i < children.len()
                invariant
                    i <= children.len(),
                    nodes == tree_nodes(*tree),
                    children@ == nodes[root].children,
                    forall|k: int|
                        0 <= k < children@.len() ==> nodes.contains_key(#[trigger] children@[k]),
                    found@.len() == i,
                    forall|k: int|
                        0 <= k < i ==> #[trigger] found@[k] == candidate(
                            nodes,
                            children@[k],
                            food@,
                        ),
                    forall|k: int|
                        0 <= k < i ==> is_max_depth(
                            nodes,
                            #[trigger] children@[k],
                            found@[k].depth as int,
                        ),
                decreases children.len() - i,
            {
                let next_node = tree_data(tree, children[i]);
                let next_depth = subtree_max_depth(tree, children[i]);
                let has_food = list_has_cell(food, &next_node.coordinate);
                found.push(
                    Choice { direction: next_node.direction, depth: next_depth, food: has_food },
                );
                i += 1;
            }
            assert(found@ =~= candidates(tree_root(*tree), nodes, food@));
        },
        None => {
            assert(found@ =~= candidates(tree_root(*tree), nodes, food@));
        },
    }
    pick_best(&found)
}

/// In a search tree the candidates are the legal first moves, in the order
/// of the filter, or there are none.
pub proof fn lemma_candidates_are_legal(
    root: Option<NodeId>,
    nodes: Map<NodeId, Slot>,
    board: Board,
    id: Seq<char>,
    pose: Pose,
    limit: int,
    exhaustive: bool,
    food: Seq<Coordinate>,
)
    requires
        is_search_tree(root, nodes, board, id, pose, limit, exhaustive),
    ensures
        candidates(root, nodes, food).len() == 0 || candidates(root, nodes, food).len()
            == board.moves_of(id, pose).len(),
        forall|i: int|
            0 <= i < candidates(root, nodes, food).len() ==> (#[trigger] candidates(
                root,
                nodes,
                food,
            )[i]).direction == board.moves_of(id, pose)[i],
{
}

/// The policy never prefers a dominated branch. Let every node below the
/// first move `lesser` have a node at the same depth below the first move
/// `greater`, as it has where `greater` reaches all that `lesser` reaches.
/// Then `lesser` reaches no deeper than `greater`, and the policy takes
/// `lesser` only if both reach equally deep and `lesser` is listed first.
pub proof fn lemma_dominated_branch_is_not_preferred(
    root: NodeId,
    nodes: Map<NodeId, Slot>,
    food: Seq<Coordinate>,
    greater: int,
    lesser: int,
)
    requires
        0 <= greater < nodes[root].children.len(),
        0 <= lesser < nodes[root].children.len(),
        depths_are_greatest(Some(root), nodes, food),
        forall|id: NodeId| #[trigger]
            in_subtree(nodes, nodes[root].children[lesser], id) ==> exists|other: NodeId|
                #[trigger] in_subtree(nodes, nodes[root].children[greater], other)
                    && nodes[other].data.depth == nodes[id].data.depth,
    ensures
        candidates(Some(root), nodes, food)[lesser].depth <= candidates(
            Some(root),
            nodes,
            food,
        )[greater].depth,
        is_best(candidates(Some(root), nodes, food), lesser) ==> lesser <= greater && candidates(
            Some(root),
            nodes,
            food,
        )[lesser].depth == candidates(Some(root), nodes, food)[greater].depth,
{
    let found = candidates(Some(root), nodes, food);
    let big = nodes[root].children[greater];
    let small = nodes[root].children[lesser];
    assert(is_max_depth(nodes, big, found[greater].depth as int));
    assert(is_max_depth(nodes, small, found[lesser].depth as int));
    if found[lesser].depth != 0 {
        let id = choose|id: NodeId|
            #[trigger] in_subtree(nodes, small, id) && nodes[id].data.depth == found[lesser].depth;
        let other = choose|other: NodeId|
            #[trigger] in_subtree(nodes, big, other) && nodes[other].data.depth
                == nodes[id].data.depth;
        assert(nodes[other].data.depth <= found[greater].depth);
    }
}

/// How deep an unhurried search gets below a node at `depth` in whose
/// state the acting snake, called `id`, is at `pose`: `depth` itself past
/// the depth limit or with no legal move, and else the deepest that any
/// legal move leads to, one level down, with the snake advanced by it.
pub open spec fn reach(board: Board, id: Seq<char>, pose: Pose, depth: int, limit: int) -> int
    decreases limit + 1 - depth,
{
    if depth > limit {
        depth
    } else {
        let moves = board.moves_of(id, pose);
        let up = if moves.contains(BattleSnakeMove::Up) {
            reach(board, id, pose.moved(BattleSnakeMove::Up), depth + 1, limit)
        } else {
            depth
        };
        let down = if moves.contains(BattleSnakeMove::Down) {
            reach(board, id, pose.moved(BattleSnakeMove::Down), depth + 1, limit)
        } else {
            depth
        };
        let left = if moves.contains(BattleSnakeMove::Left) {
            reach(board, id, pose.moved(BattleSnakeMove::Left), depth + 1, limit)
        } else {
            depth
        };
        let right = if moves.contains(BattleSnakeMove::Right) {
            reach(board, id, pose.moved(BattleSnakeMove::Right), depth + 1, limit)
        } else {
            depth
        };
        max(depth, max(max(up, down), max(left, right)))
    }
}

/// An unhurried search gets no deeper than one level past the depth limit,
/// and no less deep than where it starts.
pub proof fn lemma_reach_bounds(board: Board, id: Seq<char>, pose: Pose, depth: int, limit: int)
    ensures
        depth <= reach(board, id, pose, depth, limit),
        reach(board, id, pose, depth, limit) <= max(depth, limit + 1),
    decreases limit + 1 - depth,
{
    if depth <= limit {
        lemma_reach_bounds(board, id, pose.moved(BattleSnakeMove::Up), depth + 1, limit);
        lemma_reach_bounds(board, id, pose.moved(BattleSnakeMove::Down), depth + 1, limit);
        lemma_reach_bounds(board, id, pose.moved(BattleSnakeMove::Left), depth + 1, limit);
        lemma_reach_bounds(board, id, pose.moved(BattleSnakeMove::Right), depth + 1, limit);
    }
}

/// Below an expanded node no node lies deeper than an unhurried search
/// would get, whether or not the clock cut this search short.
pub proof fn lemma_depths_below_are_bounded(
    nodes: Map<NodeId, Slot>,
    top: NodeId,
    board: Board,
    id: Seq<char>,
    pose: Pose,
    depth: int,
    limit: int,
    exhaustive: bool,
    region: Set<NodeId>,
    below: NodeId,
    steps: nat,
)
    requires
        0 <= depth,
        limit < i32::MAX,
        nodes[top].data.depth == depth,
        expanded(nodes, nodes[top].children, board, id, pose, depth, limit, exhaustive, region),
        descends(nodes, top, below, steps),
    ensures
        nodes[below].data.depth <= reach(board, id, pose, depth, limit),
    decreases steps,
{
    if steps > 0 {
        let moves = board.moves_of(id, pose);
        let k = choose|k: int|
            0 <= k < nodes[top].children.len() && descends(
                nodes,
                #[trigger] nodes[top].children[k],
                below,
                (steps - 1) as nat,
            );
        let kid = nodes[top].children[k];
        let m = moves[k];
        assert(moves.contains(m));
        lemma_legal_moves_contains(
            pose.head,
            board.occupied(id, pose.body),
            board.hazard_cells(),
            board.width as int,
            board.height as int,
            m,
        );
        lemma_depths_below_are_bounded(
            nodes,
            kid,
            board,
            id,
            pose.moved(m),
            depth + 1,
            limit,
            exhaustive,
            region,
            below,
            (steps - 1) as nat,
        );
    }
}

/// Below a node that an exhaustive search expanded, some node lies as deep
/// as an unhurried search gets.
pub proof fn lemma_reach_is_attained(
    nodes: Map<NodeId, Slot>,
    top: NodeId,
    board: Board,
    id: Seq<char>,
    pose: Pose,
    depth: int,
    limit: int,
    region: Set<NodeId>,
) -> (deepest: NodeId)
    requires
        0 <= depth,
        limit < i32::MAX,
        nodes[top].data.depth == depth,
        expanded(nodes, nodes[top].children, board, id, pose, depth, limit, true, region),
    ensures
        in_subtree(nodes, top, deepest),
        nodes[deepest].data.depth == reach(board, id, pose, depth, limit),
    decreases limit + 1 - depth,
{
    let moves = board.moves_of(id, pose);
    let goal = reach(board, id, pose, depth, limit);
    if depth > limit || goal == depth {
        assert(descends(nodes, top, top, 0));
        top
    } else {
        let m = if moves.contains(BattleSnakeMove::Up) && goal == reach(
            board,
            id,
            pose.moved(BattleSnakeMove::Up),
            depth + 1,
            limit,
        ) {
            BattleSnakeMove::Up
        } else if moves.contains(BattleSnakeMove::Down) && goal == reach(
            board,
            id,
            pose.moved(BattleSnakeMove::Down),
            depth + 1,
            limit,
        ) {
            BattleSnakeMove::Down
        } else if moves.contains(BattleSnakeMove::Left) && goal == reach(
            board,
            id,
            pose.moved(BattleSnakeMove::Left),
            depth + 1,
            limit,
        ) {
            BattleSnakeMove::Left
        } else {
            BattleSnakeMove::Right
        };
        assert(moves.contains(m) && goal == reach(board, id, pose.moved(m), depth + 1, limit));
        let k = choose|k: int| 0 <= k < moves.len() && moves[k] == m;
        let kid = nodes[top].children[k];
        let deepest = lemma_reach_is_attained(
            nodes,
            kid,
            board,
            id,
            pose.moved(m),
            depth + 1,
            limit,
            region,
        );
        let steps = choose|steps: nat| descends(nodes, kid, deepest, steps);
        assert(descends(nodes, top, deepest, steps + 1));
        deepest
    }
}

/// Below a node that an exhaustive search expanded, the greatest depth is
/// what an unhurried search gets to.
pub proof fn lemma_exhaustive_depth_is_reach(
    nodes: Map<NodeId, Slot>,
    top: NodeId,
    board: Board,
    id: Seq<char>,
    pose: Pose,
    depth: int,
    limit: int,
    region: Set<NodeId>,
)
    requires
        0 <= depth,
        limit < i32::MAX,
        nodes[top].data.depth == depth,
        expanded(nodes, nodes[top].children, board, id, pose, depth, limit, true, region),
    ensures
        is_max_depth(nodes, top, reach(board, id, pose, depth, limit)),
        max_depth_below(nodes, top) == reach(board, id, pose, depth, limit),
{
    let goal = reach(board, id, pose, depth, limit);
    lemma_reach_bounds(board, id, pose, depth, limit);
    assert forall|below: NodeId| #[trigger] in_subtree(nodes, top, below) implies nodes[below].data.depth
        <= goal by {
        let steps = choose|steps: nat| descends(nodes, top, below, steps);
        lemma_depths_below_are_bounded(
            nodes,
            top,
            board,
            id,
            pose,
            depth,
            limit,
            true,
            region,
            below,
            steps,
        );
    }
    let deepest = lemma_reach_is_attained(nodes, top, board, id, pose, depth, limit, region);
    assert(is_max_depth(nodes, top, goal));
    lemma_max_depth_is_unique(nodes, top, goal, max_depth_below(nodes, top));
}

/// The candidates that an unhurried search finds for the snake called `id`
/// at `pose`: none with a depth limit below 0, and else one per legal first
/// move, in the order of the filter, with the depth that an unhurried
/// search gets to after that move.
pub open spec fn full_candidates(
    board: Board,
    id: Seq<char>,
    pose: Pose,
    limit: int,
    food: Seq<Coordinate>,
) -> Seq<Choice> {
    if limit < 0 {
        Seq::empty()
    } else {
        Seq::new(
            board.moves_of(id, pose).len(),
            |i: int|
                Choice {
                    direction: board.moves_of(id, pose)[i],
                    depth: reach(
                        board,
                        id,
                        pose.moved(board.moves_of(id, pose)[i]),
                        1,
                        limit,
                    ) as i32,
                    food: food.contains(pose.head.translated(board.moves_of(id, pose)[i])),
                },
        )
    }
}

/// The candidates of an exhaustive search tree are those of an unhurried
/// search.
pub proof fn lemma_exhaustive_candidates(
    root: Option<NodeId>,
    nodes: Map<NodeId, Slot>,
    board: Board,
    id: Seq<char>,
    pose: Pose,
    limit: int,
    food: Seq<Coordinate>,
)
    requires
        limit < i32::MAX,
        is_search_tree(root, nodes, board, id, pose, limit, true),
    ensures
        candidates(root, nodes, food) == full_candidates(board, id, pose, limit, food),
{
    let found = candidates(root, nodes, food);
    let full = full_candidates(board, id, pose, limit, food);
    let moves = board.moves_of(id, pose);
    let kids = nodes[root.unwrap()].children;
    if limit >= 0 {
        assert forall|i: int| 0 <= i < found.len() implies found[i] == full[i] by {
            let kid = kids[i];
            assert(nodes[kid].data == child_node(board, pose.head, moves[i], 0));
            lemma_exhaustive_depth_is_reach(
                nodes,
                kid,
                board,
                id,
                pose.moved(moves[i]),
                1,
                limit,
                nodes.dom().remove(root.unwrap()),
            );
        }
    }
    assert(found =~= full);
}

/// Whether `best` is what the decision policy answers on a move tree that
/// the search may build for the snake called `id` at `pose`: there is a
/// search tree of `board` within the depth `limit`, cut short by the clock
/// wherever it happened unless the search is `exhaustive`, on whose
/// candidates, each with the greatest depth of its subtree, the policy
/// gives `best`.
pub open spec fn decided_on_a_search_tree(
    best: Choice,
    board: Board,
    id: Seq<char>,
    pose: Pose,
    limit: int,
    exhaustive: bool,
    food: Seq<Coordinate>,
) -> bool {
    exists|root: Option<NodeId>, nodes: Map<NodeId, Slot>|
        #[trigger] is_search_tree(root, nodes, board, id, pose, limit, exhaustive)
            && depths_are_greatest(root, nodes, food) && best == best_of(
            candidates(root, nodes, food),
        )
}

/// Decides one turn within `budget`: builds the move tree and applies the
/// decision policy to it.
///
/// The answer is that of the policy on the tree that the search built.
/// Which tree that is depends on the clock; whatever it reads, the answer
/// is a real direction: a legal first move, found to lead at least one and
/// at most `budget.depth + 1` levels down, or the fallback Up at depth 0,
/// as it must be where no move is legal. Without a time limit the answer is
/// that of the policy on the candidates of an unhurried search.
pub fn decide(event: &GameEvent, budget: &SearchBudget) -> (best: Choice)
    requires
        event.board.playable(),
        event.board.contains_cell(event.you.head),
        budget.depth < i32::MAX,
    ensures
        decided_on_a_search_tree(
            best,
            event.board,
            event.you.id@,
            event.you.pose(),
            budget.depth as int,
            budget.untimed(),
            event.board.food@,
        ),
        best.direction != BattleSnakeMove::NoMove,
        best == fallback() || (event.board.moves_of(event.you.id@, event.you.pose()).contains(
            best.direction,
        ) && 1 <= best.depth <= budget.depth + 1),
        event.board.moves_of(event.you.id@, event.you.pose()).len() == 0 ==> best == fallback(),
        budget.untimed() ==> best == best_of(
            full_candidates(
                event.board,
                event.you.id@,
                event.you.pose(),
                budget.depth as int,
                event.board.food@,
            ),
        ),
{
    let tree = build_tree(&event.board, &event.you, budget);
    let best = choose_direction(&tree, &event.board.food);
    proof {
        let root = tree_root(tree);
        let nodes = tree_nodes(tree);
        let id = event.you.id@;
        let pose = event.you.pose();
        let limit = budget.depth as int;
        let found = candidates(root, nodes, event.board.food@);
        let moves = event.board.moves_of(id, pose);
        lemma_candidates_are_legal(
            root,
            nodes,
            event.board,
            id,
            pose,
            limit,
            budget.untimed(),
            event.board.food@,
        );
        lemma_best_of_cases(found);
        if best != fallback() {
            let i = choose|i: int| is_best(found, i) && best_of(found) == found[i];
            let kid = nodes[root.unwrap()].children[i];
            assert(found[i].direction == moves[i]);
            assert(moves.contains(moves[i]));
            assert(is_max_depth(nodes, kid, best.depth as int));
            assert(nodes[kid].data == child_node(event.board, pose.head, moves[i], 0));
            let deepest = choose|below: NodeId|
                #[trigger] in_subtree(nodes, kid, below) && nodes[below].data.depth == best.depth;
            let steps = choose|steps: nat| descends(nodes, kid, deepest, steps);
            lemma_depths_below_are_bounded(
                nodes,
                kid,
                event.board,
                id,
                pose.moved(moves[i]),
                1,
                limit,
                budget.untimed(),
                nodes.dom().remove(root.unwrap()),
                deepest,
                steps,
            );
            lemma_reach_bounds(event.board, id, pose.moved(moves[i]), 1, limit);
            assert(descends(nodes, kid, kid, 0));
            assert(in_subtree(nodes, kid, kid));
        }
        if moves.contains(best.direction) {
            lemma_legal_moves_contains(
                pose.head,
                event.board.occupied(id, pose.body),
                event.board.hazard_cells(),
                event.board.width as int,
                event.board.height as int,
                best.direction,
            );
        }
        if budget.untimed() {
            lemma_exhaustive_candidates(
                root,
                nodes,
                event.board,
                id,
                pose,
                limit,
                event.board.food@,
            );
        }
    }
    best
}

/// Answers one turn: the direction decided within the budget of the board,
/// 250 ms and the board's width as depth limit, and nothing to say.
///
/// The direction is the one that the decision policy gives on the move tree
/// that the search built in that time. The clock may end the search before
/// the first move is tried, so on every board Up is among the answers that
/// may come.
pub fn turn(event: &GameEvent) -> (response: BattleSnakeMoveResponse)
    requires
        event.well_formed(),
    ensures
        exists|best: Choice| #[trigger]
            decided_on_a_search_tree(
                best,
                event.board,
                event.you.id@,
                event.you.pose(),
                event.board.width as int,
                false,
                event.board.food@,
            ) && response.result_move == best.direction,
        response.shout@ == Seq::<char>::empty(),
        response.result_move != BattleSnakeMove::NoMove,
        response.result_move == BattleSnakeMove::Up || event.board.moves_of(
            event.you.id@,
            event.you.pose(),
        ).contains(response.result_move),
        event.board.moves_of(event.you.id@, event.you.pose()).len() == 0 ==> response.result_move
            == BattleSnakeMove::Up,
{
    let budget = SearchBudget::for_board(&event.board);
    let best = decide(event, &budget);
    assert(!budget.untimed());
    BattleSnakeMoveResponse::new(best.direction, None)
}

} // verus!
