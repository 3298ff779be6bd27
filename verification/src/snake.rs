//! A snake on the board, and how the engine advances it by one move.

use vstd::prelude::*;
use crate::schemas::{heading_of, BattleSnakeCustomization, BattleSnakeMove, Coordinate};

verus! {

/// One snake: its body from head to tail, its head once more, and what the
/// game reports about it.
#[derive(Debug, Clone)]
pub struct BattleSnake {
    pub id: String,
    pub name: String,
    pub health: u32,
    pub body: Vec<Coordinate>,
    pub latency: String,
    pub head: Coordinate,
    pub length: u32,
    pub shout: String,
    pub squad: String,
    pub customizations: BattleSnakeCustomization,
}

/// Where a snake is: its head and its body from head to tail. This is all
/// of a snake that a move changes.
pub ghost struct Pose {
    pub head: Coordinate,
    pub body: Seq<Coordinate>,
}

impl Pose {
    /// The pose after one move in `direction`: the head steps, the new head
    /// goes in front of the body and the last segment is dropped.
    pub open spec fn moved(self, direction: BattleSnakeMove) -> Pose {
        Pose {
            head: self.head.translated(direction),
            body: BattleSnake::advanced_body(self.body, self.head.translated(direction)),
        }
    }
}

impl BattleSnake {
    /// Where this snake is.
    pub open spec fn pose(self) -> Pose {
        Pose { head: self.head, body: self.body@ }
    }

    /// The heading of a body: the direction from its second segment to its
    /// first, where there are two segments one step apart.
    pub open spec fn heading(body: Seq<Coordinate>) -> Option<BattleSnakeMove> {
        if body.len() < 2 {
            None
        } else {
            heading_of(body[0].x - body[1].x, body[0].y - body[1].y)
        }
    }

    /// The body after one move that puts the head on `head`: the new head in
    /// front, the last segment dropped, the length kept.
    pub open spec fn advanced_body(body: Seq<Coordinate>, head: Coordinate) -> Seq<Coordinate> {
        (seq![head] + body).drop_last()
    }

    /// The direction the snake is heading in, if its two front segments tell.
    pub fn direction(&self) -> (heading: Option<BattleSnakeMove>)
        ensures
            heading == Self::heading(self.body@),
    {
        if self.body.len() < 2 {
            return None;
        }
        let front = self.body[0];
        let neck = self.body[1];
        let dx: i64 = front.x as i64 - neck.x as i64;
        let dy: i64 = front.y as i64 - neck.y as i64;
        if -1 <= dx && dx <= 1 && -1 <= dy && dy <= 1 {
            (front - neck).to_direction()
        } else {
            None
        }
    }

    /// The snake after one move in `direction`: the head steps, the body
    /// follows, and everything else is as it was.
    pub fn do_move(&self, direction: BattleSnakeMove) -> (moved: BattleSnake)
        requires
            self.head.can_translate(direction),
        ensures
            moved.pose() == self.pose().moved(direction),
            moved.head == self.head.translated(direction),
            moved.body@ == Self::advanced_body(self.body@, self.head.translated(direction)),
            moved.body@.len() == self.body@.len(),
            moved.id@ == self.id@,
            moved.name@ == self.name@,
            moved.health == self.health,
            moved.latency@ == self.latency@,
            moved.length == self.length,
            moved.shout@ == self.shout@,
            moved.squad@ == self.squad@,
            moved.customizations.color@ == self.customizations.color@,
            moved.customizations.head@ == self.customizations.head@,
            moved.customizations.tail@ == self.customizations.tail@,
    {
        let head = self.head.translate(&direction);
        let mut body: Vec<Coordinate> = Vec::new();
        body.push(head);
        let mut i: usize = 0;
        while i < self.body.len()
            invariant
                i <= self.body.len(),
                body@ == seq![head] + self.body@.take(i as int),
            decreases self.body.len() - i,
        {
            body.push(self.body[i]);
            i += 1;
            assert(self.body@.take(i as int) == self.body@.take(i - 1).push(self.body@[i - 1]));
        }
        assert(self.body@.take(i as int) == self.body@);
        let _ = body.pop();
        BattleSnake {
            id: self.id.clone(),
            name: self.name.clone(),
            health: self.health,
            body,
            latency: self.latency.clone(),
            head,
            length: self.length,
            shout: self.shout.clone(),
            squad: self.squad.clone(),
            customizations: BattleSnakeCustomization {
                color: self.customizations.color.clone(),
                head: self.customizations.head.clone(),
                tail: self.customizations.tail.clone(),
            },
        }
    }
}

/// After a move in a real direction, a snake of two or more segments whose
/// body starts at its head is heading in that direction.
pub proof fn lemma_heading_after_move(
    body: Seq<Coordinate>,
    head: Coordinate,
    direction: BattleSnakeMove,
)
    requires
        body.len() >= 2,
        body[0] == head,
        direction != BattleSnakeMove::NoMove,
        head.can_translate(direction),
    ensures
        BattleSnake::heading(BattleSnake::advanced_body(body, head.translated(direction))) == Some(
            direction,
        ),
{
}

} // verus!
