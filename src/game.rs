//! The game: a bounded board whose outer ring of cells is wall, one snake, at
//! most one piece of food, and a clock in nanoseconds that gates movement and
//! the restart after a collision.

use crate::snake::{Block, Direction, Snake, SnakeView};
use rand::Rng;
use vstd::prelude::*;

verus! {

/// Time between two moves of the snake, in nanoseconds.
pub const MOVING_PERIOD: u64 = 100_000_000;

/// Time from a collision to the restart, in nanoseconds.
pub const RESTART_TIME: u64 = 1_000_000_000;

/// Where a new snake starts.
pub const START_X: i32 = 2;
pub const START_Y: i32 = 2;

/// Where the first piece of food lies.
pub const FIRST_FOOD_X: i32 = 6;
pub const FIRST_FOOD_Y: i32 = 4;

/// The keys that the game listens to.
#[derive(Clone, Copy, Debug, PartialEq, Eq, Structural)]
pub enum Key {
    Up,
    Down,
    Left,
    Right,
    Other,
}

/// The heading that a key asks for, if any.
pub open spec fn key_direction(key: Key) -> Option<Direction> {
    match key {
        Key::Up => Some(Direction::Up),
        Key::Down => Some(Direction::Down),
        Key::Left => Some(Direction::Left),
        Key::Right => Some(Direction::Right),
        Key::Other => None,
    }
}

/// What a game is, as mathematics.
pub struct GameView {
    pub snake: SnakeView,
    pub food_exists: bool,
    pub food_x: i32,
    pub food_y: i32,
    pub width: i32,
    pub height: i32,
    pub game_over: bool,
    pub waiting_time: u64,
    pub total_time: u64,
}

/// The state in which every game starts and restarts.
pub open spec fn initial(width: i32, height: i32) -> GameView {
    GameView {
        snake: SnakeView {
            direction: Direction::Right,
            body: seq![Block { x: START_X, y: START_Y }],
            tail: None,
        },
        food_exists: true,
        food_x: FIRST_FOOD_X,
        food_y: FIRST_FOOD_Y,
        width,
        height,
        game_over: false,
        waiting_time: 0,
        total_time: 0,
    }
}

/// `a` comes before `b` when the board is read row by row.
pub open spec fn row_major_before(a: Block, b: Block) -> bool {
    a.y < b.y || (a.y == b.y && a.x < b.x)
}

impl GameView {
    /// The snake is non-empty and a step from its head fits in `i32`; food
    /// under the head can only be there after a move, which leaves a tail
    /// cell to put back.
    pub open spec fn wf(self) -> bool {
        &&& self.snake.wf()
        &&& i32::MIN < self.snake.head().x < i32::MAX
        &&& i32::MIN < self.snake.head().y < i32::MAX
        &&& self.food_under_head() ==> self.snake.tail is Some
    }

    /// `(x, y)` lies strictly inside the one-cell border.
    pub open spec fn interior(self, x: int, y: int) -> bool {
        &&& 0 < x < self.width - 1
        &&& 0 < y < self.height - 1
    }

    /// An interior cell that no segment of the snake covers.
    pub open spec fn free(self, x: int, y: int) -> bool {
        self.interior(x, y) && !self.snake.occupies(x, y)
    }

    pub open spec fn has_free(self) -> bool {
        exists|x: int, y: int| self.free(x, y)
    }

    /// The next head stays inside the border and runs into no segment but
    /// the one about to be vacated.
    pub open spec fn alive(self, dir: Option<Direction>) -> bool {
        let x = self.snake.next_x(dir);
        let y = self.snake.next_y(dir);
        self.interior(x, y) && !self.snake.occupies_before_last(x, y)
    }

    pub open spec fn food_under_head(self) -> bool {
        &&& self.food_exists
        &&& self.food_x == self.snake.head().x
        &&& self.food_y == self.snake.head().y
    }

    /// Food under the head is eaten: it disappears and the snake grows by its
    /// remembered tail cell.
    pub open spec fn after_eating(self) -> GameView {
        if self.food_under_head() {
            GameView { food_exists: false, snake: self.snake.restored(), ..self }
        } else {
            self
        }
    }

    /// One step of the snake: a move and a meal when the step is safe, the
    /// end of the game otherwise; the movement clock starts again.
    pub open spec fn after_update_snake(self, dir: Option<Direction>) -> GameView {
        let g = if self.alive(dir) {
            GameView { snake: self.snake.moved(dir), ..self }.after_eating()
        } else {
            GameView { game_over: true, ..self }
        };
        GameView { waiting_time: 0, ..g }
    }

    /// What a key press does: nothing once the game is over or for a key that
    /// asks to reverse, a step of the snake otherwise.
    pub open spec fn after_key(self, key: Key) -> GameView {
        if self.game_over {
            self
        } else if key_direction(key) is Some && key_direction(key).unwrap()
            == self.snake.direction.spec_opposite() {
            self
        } else {
            self.after_update_snake(key_direction(key))
        }
    }

    /// Food placed at `(x, y)`.
    pub open spec fn with_food(self, x: i32, y: i32) -> GameView {
        GameView { food_exists: true, food_x: x, food_y: y, ..self }
    }

    /// Food at `(x, y)` when there is none yet and the board has room.
    pub open spec fn fed(self, x: i32, y: i32) -> GameView {
        if !self.food_exists && self.has_free() {
            self.with_food(x, y)
        } else {
            self
        }
    }

    /// Both clocks advanced by `dt`, saturating.
    pub open spec fn timed(self, dt: u64) -> GameView {
        GameView {
            waiting_time: self.waiting_time.saturating_add(dt),
            total_time: self.total_time.saturating_add(dt),
            ..self
        }
    }

    /// One tick of `dt` nanoseconds, where any food placed goes to `(x, y)`.
    pub open spec fn after_update(self, dt: u64, x: i32, y: i32) -> GameView {
        let m = self.timed(dt);
        if m.game_over {
            if m.waiting_time > RESTART_TIME {
                initial(m.width, m.height)
            } else {
                m
            }
        } else {
            let f = m.fed(x, y);
            if f.waiting_time > MOVING_PERIOD {
                f.after_update_snake(None)
            } else {
                f
            }
        }
    }
}

/// Eating food makes the snake exactly one segment longer than it was
/// before the meal, and the food is gone.
pub proof fn lemma_eating_grows_by_one(g: GameView)
    requires
        g.wf(),
        g.food_under_head(),
    ensures
        g.after_eating().snake.body.len() == g.snake.body.len() + 1,
        !g.after_eating().food_exists,
{
}

/// A step onto the food leaves the snake one segment longer than before the
/// step; any other safe step keeps its length.
pub proof fn lemma_step_length(g: GameView, dir: Option<Direction>)
    requires
        g.wf(),
        g.alive(dir),
    ensures
        g.food_exists && g.food_x == g.snake.next_x(dir) && g.food_y == g.snake.next_y(dir)
            ==> g.after_update_snake(dir).snake.body.len() == g.snake.body.len() + 1,
        !(g.food_exists && g.food_x == g.snake.next_x(dir) && g.food_y == g.snake.next_y(dir))
            ==> g.after_update_snake(dir).snake.body.len() == g.snake.body.len(),
{
}

/// A step onto or beyond the one-cell border is never survived.
pub proof fn lemma_border_is_fatal(g: GameView, dir: Option<Direction>)
    requires
        g.wf(),
        g.snake.next_x(dir) <= 0 || g.snake.next_x(dir) >= g.width - 1 || g.snake.next_y(dir)
            <= 0 || g.snake.next_y(dir) >= g.height - 1,
    ensures
        !g.alive(dir),
        g.after_update_snake(dir).game_over,
        g.after_update_snake(dir).snake == g.snake,
{
}

/// Food that a tick places lies on an interior cell clear of the snake.
pub proof fn lemma_food_clear_of_snake(g: GameView, x: i32, y: i32)
    requires
        g.wf(),
        !g.food_exists,
        g.has_free(),
        g.free(x as int, y as int),
    ensures
        g.fed(x, y).food_exists,
        !g.fed(x, y).snake.occupies(g.fed(x, y).food_x as int, g.fed(x, y).food_y as int),
        g.fed(x, y).interior(g.fed(x, y).food_x as int, g.fed(x, y).food_y as int),
{
}

/// Relies on rand's `thread_rng` and `Rng::gen_range`: a value drawn from the
/// range `0..n`, which must not be empty.
#[verifier::external_body]
fn random_index(n: usize) -> (r: usize)
    requires
        n > 0,
    ensures
        r < n,
{
    rand::thread_rng().gen_range(0..n)
}

/// A running game: the snake, the food, the board size (border included) and
/// the two clocks.
pub struct Game {
    pub snake: Snake,
    pub food_exists: bool,
    pub food_x: i32,
    pub food_y: i32,
    pub width: i32,
    pub height: i32,
    pub game_over: bool,
    /// Nanoseconds since the last move (or since the collision).
    pub waiting_time: u64,
    /// Nanoseconds since the game started.
    pub total_time: u64,
}

impl View for Game {
    type V = GameView;

    open spec fn view(&self) -> GameView {
        GameView {
            snake: self.snake@,
            food_exists: self.food_exists,
            food_x: self.food_x,
            food_y: self.food_y,
            width: self.width,
            height: self.height,
            game_over: self.game_over,
            waiting_time: self.waiting_time,
            total_time: self.total_time,
        }
    }
}

impl Game {
    pub fn new(width: i32, height: i32) -> (r: Game)
        ensures
            r@ == initial(width, height),
            r@.wf(),
    {
        Game {
            snake: Snake::new(START_X, START_Y),
            food_exists: true,
            food_x: FIRST_FOOD_X,
            food_y: FIRST_FOOD_Y,
            width,
            height,
            game_over: false,
            waiting_time: 0,
            total_time: 0,
        }
    }

    /// Puts the game back in its starting state on the same board.
    pub fn restart(&mut self)
        ensures
            final(self)@ == initial(old(self).width, old(self).height),
            final(self)@.wf(),
    {
        self.snake = Snake::new(START_X, START_Y);
        self.food_exists = true;
        self.food_x = FIRST_FOOD_X;
        self.food_y = FIRST_FOOD_Y;
        self.game_over = false;
        self.waiting_time = 0;
        self.total_time = 0;
    }

    /// Whether a step with heading `dir` keeps the snake alive.
    pub fn check_if_snake_alive(&self, dir: Option<Direction>) -> (r: bool)
        requires
            self@.wf(),
        ensures
            r == self@.alive(dir),
            r ==> self@.interior(self@.snake.next_x(dir), self@.snake.next_y(dir)),
    {
        let (next_x, next_y) = self.snake.next_head(dir);
        if self.snake.overlap_tail(next_x, next_y) {
            return false;
        }
        next_x > 0 && next_y > 0 && (next_x as i64) < (self.width as i64) - 1 && (next_y as i64)
            < (self.height as i64) - 1
    }

    /// Eats the food when the head is on it; the snake then grows by one cell.
    pub fn check_eating(&mut self)
        requires
            old(self)@.wf(),
        ensures
            final(self)@ == old(self)@.after_eating(),
            final(self)@.wf(),
            old(self)@.food_under_head() ==> final(self)@.snake.body.len() == old(
                self,
            )@.snake.body.len() + 1,
            !old(self)@.food_under_head() ==> final(self)@ == old(self)@,
    {
        let (head_x, head_y) = self.snake.head_position();
        if self.food_exists && self.food_x == head_x && self.food_y == head_y {
            self.food_exists = false;
            self.snake.restore_tail();
        }
    }

    /// One step of the snake with heading `dir`, or the end of the game when
    /// that step is fatal.
    pub fn update_snake(&mut self, dir: Option<Direction>)
        requires
            old(self)@.wf(),
        ensures
            final(self)@ == old(self)@.after_update_snake(dir),
            final(self)@.wf(),
            old(self)@.alive(dir) && old(self)@.snake.moved(dir).body[0].x == old(self).food_x
                && old(self)@.snake.moved(dir).body[0].y == old(self).food_y && old(
                self,
            ).food_exists ==> final(self)@.snake.body.len() == old(self)@.snake.body.len() + 1,
    {
        if self.check_if_snake_alive(dir) {
            self.snake.move_forward(dir);
            self.check_eating();
        } else {
            self.game_over = true;
        }
        self.waiting_time = 0;
    }

    /// Reacts to a key: an arrow turns the snake and steps it at once, unless
    /// it asks to reverse; any other key steps it on its current heading.
    pub fn key_pressed(&mut self, key: Key)
        requires
            old(self)@.wf(),
        ensures
            final(self)@ == old(self)@.after_key(key),
            final(self)@.wf(),
    {
        if self.game_over {
            return;
        }
        let dir = match key {
            Key::Up => Some(Direction::Up),
            Key::Down => Some(Direction::Down),
            Key::Left => Some(Direction::Left),
            Key::Right => Some(Direction::Right),
            Key::Other => None,
        };
        if let Some(d) = dir {
            if d == self.snake.head_direction().opposite() {
                return;
            }
        }
        self.update_snake(dir);
    }

    /// The interior cells that the snake does not cover, row by row.
    pub fn free_cells(&self) -> (r: Vec<Block>)
        ensures
            forall|i: int| 0 <= i < r@.len() ==> self@.free(r@[i].x as int, r@[i].y as int),
            forall|x: int, y: int|
                self@.free(x, y) ==> exists|i: int|
                    0 <= i < r@.len() && r@[i].x == x && r@[i].y == y,
            forall|i: int, j: int|
                0 <= i < j < r@.len() ==> row_major_before(r@[i], r@[j]),
    {
        let mut r: Vec<Block> = Vec::new();
        let x_end: i64 = (self.width as i64) - 1;
        let y_end: i64 = (self.height as i64) - 1;
        let mut y: i32 = 1;
        while (y as i64) < y_end
            invariant
                1 <= y,
                y_end == self@.height - 1,
                x_end == self@.width - 1,
                y as int <= y_end || y == 1,
                forall|i: int| 0 <= i < r@.len() ==> self@.free(r@[i].x as int, r@[i].y as int),
                forall|i: int| 0 <= i < r@.len() ==> r@[i].y < y,
                forall|cx: int, cy: int|
                    #![trigger self@.free(cx, cy)]
                    cy < y && self@.free(cx, cy) ==> exists|i: int|
                        0 <= i < r@.len() && r@[i].x == cx && r@[i].y == cy,
                forall|i: int, j: int|
                    0 <= i < j < r@.len() ==> row_major_before(r@[i], r@[j]),
            decreases y_end - y,
        {
            let mut x: i32 = 1;
            while (x as i64) < x_end
                invariant
                    1 <= x,
                    1 <= y,
                    (y as int) < y_end,
                    y_end == self@.height - 1,
                    x_end == self@.width - 1,
                    x as int <= x_end || x == 1,
                    forall|i: int|
                        0 <= i < r@.len() ==> self@.free(r@[i].x as int, r@[i].y as int),
                    forall|i: int|
                        0 <= i < r@.len() ==> row_major_before(r@[i], Block { x, y }),
                    forall|cx: int, cy: int|
                        #![trigger self@.free(cx, cy)]
                        (cy < y || (cy == y && cx < x)) && self@.free(cx, cy) ==> exists|i: int|
                            0 <= i < r@.len() && r@[i].x == cx && r@[i].y == cy,
                    forall|i: int, j: int|
                        0 <= i < j < r@.len() ==> row_major_before(r@[i], r@[j]),
                decreases x_end - x,
            {
                if !self.snake.contains_cell(x, y) {
                    let ghost before = r@;
                    r.push(Block { x, y });
                    proof {
                        assert forall|cx: int, cy: int|
                            #![trigger self@.free(cx, cy)]
                            (cy < y || (cy == y && cx <= x)) && self@.free(cx, cy) implies exists|
                                i: int,
                            |
                                0 <= i < r@.len() && r@[i].x == cx && r@[i].y == cy by {
                            if cy == y && cx == x {
                                assert(r@[r@.len() - 1] == Block { x, y });
                            } else {
                                let i = choose|i: int|
                                    0 <= i < before.len() && before[i].x == cx && before[i].y
                                        == cy;
                                assert(r@[i] == before[i]);
                            }
                        }
                    }
                }
                x = x + 1;
            }
            y = y + 1;
        }
        r
    }

    /// Places the food on a free interior cell drawn at random, each free
    /// cell being equally likely; on a full board the game is left as it is.
    pub fn add_food(&mut self)
        requires
            old(self)@.wf(),
        ensures
            final(self)@.wf(),
            old(self)@.has_free() ==> final(self)@ == old(self)@.with_food(
                final(self).food_x,
                final(self).food_y,
            ),
            old(self)@.has_free() ==> old(self)@.free(
                final(self).food_x as int,
                final(self).food_y as int,
            ),
            !old(self)@.has_free() ==> final(self)@ == old(self)@,
    {
        let cells = self.free_cells();
        if cells.len() == 0 {
            proof {
                if self@.has_free() {
                    let (x, y) = choose|x: int, y: int| self@.free(x, y);
                    assert(self@.free(x, y));
                }
            }
            return;
        }
        let k = random_index(cells.len());
        let cell = cells[k];
        proof {
            assert(self@.free(cell.x as int, cell.y as int));
        }
        self.food_x = cell.x;
        self.food_y = cell.y;
        self.food_exists = true;
    }

    /// Advances both clocks by `delta_time` nanoseconds. After a collision
    /// the game restarts once the restart delay has passed; otherwise food is
    /// placed when there is none, and the snake steps once a move period has
    /// passed.
    pub fn update(&mut self, delta_time: u64)
        requires
            old(self)@.wf(),
        ensures
            final(self)@ == old(self)@.after_update(
                delta_time,
                final(self).food_x,
                final(self).food_y,
            ),
            final(self)@.wf(),
            !old(self).game_over && !old(self).food_exists && old(self)@.has_free() ==> old(
                self,
            )@.free(final(self).food_x as int, final(self).food_y as int),
    {
        self.waiting_time = self.waiting_time.saturating_add(delta_time);
        self.total_time = self.total_time.saturating_add(delta_time);
        if self.game_over {
            if self.waiting_time > RESTART_TIME {
                self.restart();
            }
            return;
        }
        assert(forall|x: int, y: int| self@.free(x, y) == old(self)@.free(x, y));
        if !self.food_exists {
            self.add_food();
        }
        let ghost fed = self@;
        if self.waiting_time > MOVING_PERIOD {
            self.update_snake(None);
        }
        assert(self.food_x == fed.food_x && self.food_y == fed.food_y);
    }
}

} // verus!
