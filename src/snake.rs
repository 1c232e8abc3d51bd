//! The snake: an ordered list of grid cells (head first), a heading, and the
//! cell most recently vacated by the tail.

use std::collections::VecDeque;
use vstd::prelude::*;

verus! {

/// A heading on the grid. `y` grows downward, so `Up` decreases `y`.
#[derive(Clone, Copy, Debug, PartialEq, Eq, Structural)]
pub enum Direction {
    Up,
    Down,
    Left,
    Right,
}

impl Direction {
    /// The unit displacement `(dx, dy)` of one step in this direction.
    pub open spec fn delta(self) -> (int, int) {
        match self {
            Direction::Up => (0, -1),
            Direction::Down => (0, 1),
            Direction::Left => (-1, 0),
            Direction::Right => (1, 0),
        }
    }

    /// One coordinate of the step is zero and the other is one or minus one.
    pub open spec fn is_unit(self) -> bool {
        let (dx, dy) = self.delta();
        (dx == 0 && (dy == 1 || dy == -1)) || (dy == 0 && (dx == 1 || dx == -1))
    }

    pub open spec fn spec_opposite(self) -> Direction {
        match self {
            Direction::Up => Direction::Down,
            Direction::Down => Direction::Up,
            Direction::Left => Direction::Right,
            Direction::Right => Direction::Left,
        }
    }

    /// The heading that points the other way.
    pub fn opposite(&self) -> (r: Direction)
        ensures
            r == self.spec_opposite(),
            r.delta().0 == -self.delta().0,
            r.delta().1 == -self.delta().1,
    {
        match *self {
            Direction::Up => Direction::Down,
            Direction::Down => Direction::Up,
            Direction::Left => Direction::Right,
            Direction::Right => Direction::Left,
        }
    }
}

/// One grid cell.
#[derive(Clone, Copy, Debug, PartialEq, Eq, Structural)]
pub struct Block {
    pub x: i32,
    pub y: i32,
}

/// What a snake is, as mathematics: its heading, its cells from head to tail,
/// and the cell that the last move vacated.
pub struct SnakeView {
    pub direction: Direction,
    pub body: Seq<Block>,
    pub tail: Option<Block>,
}

impl SnakeView {
    pub open spec fn wf(self) -> bool {
        self.body.len() > 0
    }

    pub open spec fn head(self) -> Block {
        self.body[0]
    }

    pub open spec fn last(self) -> Block {
        self.body[self.body.len() - 1]
    }

    /// The heading used by a move that may carry a new one.
    pub open spec fn moving_dir(self, dir: Option<Direction>) -> Direction {
        match dir {
            Some(d) => d,
            None => self.direction,
        }
    }

    /// The coordinates one step ahead of the head.
    pub open spec fn next_x(self, dir: Option<Direction>) -> int {
        self.head().x + self.moving_dir(dir).delta().0
    }

    pub open spec fn next_y(self, dir: Option<Direction>) -> int {
        self.head().y + self.moving_dir(dir).delta().1
    }

    /// The step ahead fits in `i32`.
    pub open spec fn can_step(self, dir: Option<Direction>) -> bool {
        &&& i32::MIN <= self.next_x(dir) <= i32::MAX
        &&& i32::MIN <= self.next_y(dir) <= i32::MAX
    }

    pub open spec fn new_head(self, dir: Option<Direction>) -> Block {
        Block { x: self.next_x(dir) as i32, y: self.next_y(dir) as i32 }
    }

    /// The snake after one move: a new head in front, the last cell dropped
    /// and remembered.
    pub open spec fn moved(self, dir: Option<Direction>) -> SnakeView {
        SnakeView {
            direction: self.moving_dir(dir),
            body: seq![self.new_head(dir)] + self.body.drop_last(),
            tail: Some(self.last()),
        }
    }

    /// The snake with its remembered tail cell put back at the end.
    pub open spec fn restored(self) -> SnakeView {
        SnakeView { body: self.body.push(self.tail.unwrap()), ..self }
    }

    /// Some cell of the body is `(x, y)`.
    pub open spec fn occupies(self, x: int, y: int) -> bool {
        exists|i: int| 0 <= i < self.body.len() && self.body[i].x == x && self.body[i].y == y
    }

    /// Some cell but the last (which the next move vacates) is `(x, y)`.
    pub open spec fn occupies_before_last(self, x: int, y: int) -> bool {
        exists|i: int|
            0 <= i < self.body.len() - 1 && self.body[i].x == x && self.body[i].y == y
    }
}

/// A move puts the new head exactly one unit step, in the heading of the
/// move, away from the old head, and keeps the length.
pub proof fn lemma_move_is_unit_step(s: SnakeView, dir: Option<Direction>)
    requires
        s.wf(),
        s.can_step(dir),
    ensures
        s.moved(dir).head().x - s.head().x == s.moving_dir(dir).delta().0,
        s.moved(dir).head().y - s.head().y == s.moving_dir(dir).delta().1,
        s.moving_dir(dir).is_unit(),
        s.moved(dir).body.len() == s.body.len(),
{
}

/// The check against the body ignores the last segment: two snakes that
/// differ only in their last cell report the same collisions.
pub proof fn lemma_last_segment_never_collides(s: SnakeView, t: SnakeView, x: int, y: int)
    requires
        s.body.len() == t.body.len(),
        forall|i: int| 0 <= i < s.body.len() - 1 ==> s.body[i] == t.body[i],
    ensures
        s.occupies_before_last(x, y) == t.occupies_before_last(x, y),
{
    if s.occupies_before_last(x, y) {
        let i = choose|i: int|
            0 <= i < s.body.len() - 1 && s.body[i].x == x && s.body[i].y == y;
        assert(t.body[i] == s.body[i]);
    }
    if t.occupies_before_last(x, y) {
        let i = choose|i: int|
            0 <= i < t.body.len() - 1 && t.body[i].x == x && t.body[i].y == y;
        assert(t.body[i] == s.body[i]);
    }
}

/// A cell that only the last segment covers is never reported.
pub proof fn lemma_vacating_cell_is_free(s: SnakeView)
    requires
        s.wf(),
        forall|i: int| 0 <= i < s.body.len() - 1 ==> s.body[i] != s.last(),
    ensures
        !s.occupies_before_last(s.last().x as int, s.last().y as int),
{
}

/// A snake on the grid: its heading, its cells from head (front) to tail
/// (back), and the cell that the last move vacated.
pub struct Snake {
    pub direction: Direction,
    pub body: VecDeque<Block>,
    pub tail: Option<Block>,
}

impl View for Snake {
    type V = SnakeView;

    open spec fn view(&self) -> SnakeView {
        SnakeView { direction: self.direction, body: self.body@, tail: self.tail }
    }
}

impl Snake {
    /// A one-cell snake at `(x, y)`, heading right.
    pub fn new(x: i32, y: i32) -> (r: Snake)
        ensures
            r@.body == seq![Block { x, y }],
            r@.direction == Direction::Right,
            r@.tail == None::<Block>,
    {
        let mut body = VecDeque::new();
        body.push_back(Block { x, y });
        Snake { direction: Direction::Right, body, tail: None }
    }

    pub fn head_position(&self) -> (r: (i32, i32))
        requires
            self@.wf(),
        ensures
            r.0 == self@.head().x,
            r.1 == self@.head().y,
    {
        let head = self.body[0];
        (head.x, head.y)
    }

    pub fn head_direction(&self) -> (r: Direction)
        ensures
            r == self@.direction,
    {
        self.direction
    }

    /// Moves one step, taking `dir` as the new heading when given. The caller
    /// filters out a reversal.
    pub fn move_forward(&mut self, dir: Option<Direction>)
        requires
            old(self)@.wf(),
            old(self)@.can_step(dir),
        ensures
            final(self)@ == old(self)@.moved(dir),
            final(self)@.wf(),
            final(self)@.body.len() == old(self)@.body.len(),
    {
        if let Some(d) = dir {
            self.direction = d;
        }
        let (last_x, last_y) = self.head_position();
        let new_block = match self.direction {
            Direction::Up => Block { x: last_x, y: last_y - 1 },
            Direction::Down => Block { x: last_x, y: last_y + 1 },
            Direction::Left => Block { x: last_x - 1, y: last_y },
            Direction::Right => Block { x: last_x + 1, y: last_y },
        };
        self.body.push_front(new_block);
        self.tail = self.body.pop_back();
        proof {
            assert(self@.body =~= old(self)@.moved(dir).body);
        }
    }

    /// The cell one step ahead, without moving.
    pub fn next_head(&self, dir: Option<Direction>) -> (r: (i32, i32))
        requires
            self@.wf(),
            self@.can_step(dir),
        ensures
            r.0 == self@.next_x(dir),
            r.1 == self@.next_y(dir),
            r.0 - self@.head().x == self@.moving_dir(dir).delta().0,
            r.1 - self@.head().y == self@.moving_dir(dir).delta().1,
    {
        let (head_x, head_y) = self.head_position();
        let moving_dir = match dir {
            Some(d) => d,
            None => self.direction,
        };
        match moving_dir {
            Direction::Up => (head_x, head_y - 1),
            Direction::Down => (head_x, head_y + 1),
            Direction::Left => (head_x - 1, head_y),
            Direction::Right => (head_x + 1, head_y),
        }
    }

    /// Puts the cell vacated by the last move back at the end.
    pub fn restore_tail(&mut self)
        requires
            old(self)@.tail is Some,
        ensures
            final(self)@ == old(self)@.restored(),
            final(self)@.body.len() == old(self)@.body.len() + 1,
    {
        let blk = self.tail.unwrap();
        self.body.push_back(blk);
    }

    /// Whether `(x, y)` is a cell of the body other than the last one, which
    /// the next move vacates.
    pub fn overlap_tail(&self, x: i32, y: i32) -> (r: bool)
        ensures
            r == self@.occupies_before_last(x as int, y as int),
    {
        let n = self.body.len();
        let mut i: usize = 0;
        while i < n && i < n - 1
            invariant
                n == self@.body.len(),
                i <= n,
                forall|j: int|
                    0 <= j < i ==> !(self@.body[j].x == x && self@.body[j].y == y),
            decreases n - i,
        {
            let block = self.body[i];
            if block.x == x && block.y == y {
                return true;
            }
            i = i + 1;
        }
        false
    }

    /// Whether `(x, y)` is any cell of the body.
    pub fn contains_cell(&self, x: i32, y: i32) -> (r: bool)
        ensures
            r == self@.occupies(x as int, y as int),
    {
        let n = self.body.len();
        let mut i: usize = 0;
        while i < n
            invariant
                n == self@.body.len(),
                i <= n,
                forall|j: int|
                    0 <= j < i ==> !(self@.body[j].x == x && self@.body[j].y == y),
            decreases n - i,
        {
            let block = self.body[i];
            if block.x == x && block.y == y {
                return true;
            }
            i = i + 1;
        }
        false
    }
}

} // verus!
