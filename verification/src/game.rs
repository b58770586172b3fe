//! The game entities and the tick state machine: self-collision detection,
//! food consumption and replacement, movement against the board walls.

use vstd::prelude::*;
use vstd::arithmetic::div_mod::{
    lemma_fundamental_div_mod, lemma_mod_division_less_than_divisor, lemma_multiply_divide_lt,
};
use vstd::set_lib::{lemma_int_range, lemma_len_subset, set_int_range};
use vstd::seq_lib::seq_to_set_is_finite;
use crate::Point;
use crate::rng::random_index;

verus! {

/// Movement direction of the snake; no diagonals.
#[derive(PartialEq, Eq, Structural, Clone, Copy, Debug)]
pub enum Direction {
    Up,
    Down,
    Left,
    Right,
}

/// Outcome of the most recently processed tick.
#[derive(PartialEq, Eq, Structural, Clone, Copy, Debug)]
pub enum GameState {
    Running,
    Lose,
    Win,
}

/// The snake: a head cell, the current direction, and the trailing body
/// segments ordered from most recently occupied (index 0) to oldest.
pub struct Snake {
    pub direction: Direction,
    pub head: Point,
    pub body: Vec<Point>,
}

/// A whole session: the snake, the current food cell (`seed`), the score,
/// the outcome of the last tick, and the fixed board dimensions.
pub struct Game {
    pub snake: Snake,
    pub seed: Option<Point>,
    pub score: u32,
    pub state: GameState,
    pub height: u32,
    pub width: u32,
}

/// The cell lies on the board.
pub open spec fn in_bounds(p: Point, width: u32, height: u32) -> bool {
    p.0 < width && p.1 < height
}

/// The cell is covered by the head or by some body segment.
pub open spec fn occupies(head: Point, body: Seq<Point>, p: Point) -> bool {
    p == head || body.contains(p)
}

/// The head sits on a body segment carried over from an earlier tick.
pub open spec fn self_collided(s: Snake) -> bool {
    s.body@.contains(s.head)
}

/// No cell of the board is free of the snake.
pub open spec fn board_covered(width: u32, height: u32, head: Point, body: Seq<Point>) -> bool {
    forall|p: Point| in_bounds(p, width, height) ==> occupies(head, body, p)
}

/// The body after growth: the head is inserted at the front.
pub open spec fn grown_body(s: Snake) -> Seq<Point> {
    seq![s.head] + s.body@
}

/// The body after an ordinary move: the oldest segment is popped at the
/// tail and the old head is inserted at the front.  A pop on an empty body
/// removes nothing, so an empty body comes out holding the old head.
pub open spec fn shifted_body(head: Point, body: Seq<Point>) -> Seq<Point> {
    if body.len() == 0 {
        seq![head]
    } else {
        seq![head] + body.drop_last()
    }
}

/// The wall check for one step from `head` in direction `d`.  Up, Down and
/// Left refuse the step that would leave the board; Right also allows the
/// single step from `x == width - 1` to `x == width`, one cell past the
/// last column.
pub open spec fn move_allowed(head: Point, d: Direction, width: u32, height: u32) -> bool {
    match d {
        Direction::Up => head.1 > 0,
        Direction::Down => head.1 < height - 1,
        Direction::Left => head.0 > 0,
        Direction::Right => head.0 <= width - 1,
    }
}

/// The head cell after one allowed step in direction `d`.
pub open spec fn stepped(head: Point, d: Direction) -> Point {
    match d {
        Direction::Up => Point(head.0, (head.1 - 1) as u32),
        Direction::Down => Point(head.0, (head.1 + 1) as u32),
        Direction::Left => Point((head.0 - 1) as u32, head.1),
        Direction::Right => Point((head.0 + 1) as u32, head.1),
    }
}

/// The head sits on the food cell, so this tick consumes it.
pub open spec fn eats(o: Game) -> bool {
    o.seed == Some(o.snake.head)
}

/// After growth no food can be placed: either the full-board count check
/// fires, or no free cell remains.  The tick then ends in Win.
pub open spec fn wins_on_tick(o: Game) -> bool {
    eats(o) && (grown_body(o.snake).len() + 1 == o.width * o.height
        || board_covered(o.width, o.height, o.snake.head, grown_body(o.snake)))
}

impl Game {
    /// The board dimensions are usable: at least one column and one row,
    /// and the cell count fits a `u32`.
    pub open spec fn dims_ok(self) -> bool {
        &&& 1 <= self.width
        &&& 1 <= self.height
        &&& self.width * self.height <= u32::MAX
    }

    /// How one tick relates the session before (`o`) to the session after
    /// (`f`).  The food cell chosen on a consuming tick is random, so the
    /// relation only pins it down to a free cell.
    pub open spec fn update_spec(o: Game, f: Game) -> bool {
        &&& f.width == o.width
        &&& f.height == o.height
        &&& f.snake.direction == o.snake.direction
        &&& if self_collided(o.snake) {
            &&& f.state == GameState::Lose
            &&& f.snake.head == o.snake.head
            &&& f.snake.body@ == o.snake.body@
            &&& f.seed == o.seed
            &&& f.score == o.score
        } else {
            &&& f.score == o.score + (if eats(o) { 1int } else { 0int })
            &&& (eats(o) ==> (f.seed matches Some(p) ==> in_bounds(p, o.width, o.height)
                && !occupies(o.snake.head, grown_body(o.snake), p)))
            &&& (!eats(o) ==> f.seed == o.seed)
            &&& if wins_on_tick(o) {
                &&& f.state == GameState::Win
                &&& f.seed is None
                &&& f.snake.head == o.snake.head
                &&& f.snake.body@ == grown_body(o.snake)
            } else {
                &&& (eats(o) ==> f.seed is Some)
                &&& {
                    let gb = if eats(o) { grown_body(o.snake) } else { o.snake.body@ };
                    if move_allowed(o.snake.head, o.snake.direction, o.width, o.height) {
                        &&& f.state == GameState::Running
                        &&& f.snake.head == stepped(o.snake.head, o.snake.direction)
                        &&& f.snake.body@ == shifted_body(o.snake.head, gb)
                    } else {
                        &&& f.state == GameState::Lose
                        &&& f.snake.head == o.snake.head
                        &&& f.snake.body@ == gb
                    }
                }
            }
        }
    }

    /// Creates a session on the default board with the food cell at the
    /// fixed starting position, score zero, and the game running.
    pub fn init(snake: Snake) -> (g: Game)
        ensures
            g.snake == snake,
            g.seed == Some(Point(crate::HEIGHT / 2, crate::WIDTH / 2)),
            g.score == 0,
            g.state == GameState::Running,
            g.height == crate::HEIGHT,
            g.width == crate::WIDTH,
            g.dims_ok(),
    {
        Game {
            snake,
            seed: Some(Point(crate::HEIGHT / 2, crate::WIDTH / 2)),
            score: 0,
            state: GameState::Running,
            height: crate::HEIGHT,
            width: crate::WIDTH,
        }
    }

    /// Chooses a random free cell for the next food, or reports that none
    /// can be placed: either the full-board count check fires, or no cell
    /// of the board is free.
    pub fn gen_seed(&self) -> (r: Option<Point>)
        requires
            self.dims_ok(),
        ensures
            (r is None) <==> (self.snake.body@.len() + 1 == self.width * self.height
                || board_covered(self.width, self.height, self.snake.head, self.snake.body@)),
            r matches Some(p) ==> in_bounds(p, self.width, self.height)
                && !occupies(self.snake.head, self.snake.body@, p),
            self.snake.body@.len() + 1 < self.width * self.height ==> r is Some,
    {
        proof {
            if self.snake.body@.len() + 1 < self.width * self.height {
                lemma_free_cell_exists(self.width, self.height, self.snake.head,
                    self.snake.body@);
            }
            assert(1 <= self.width * self.height) by (nonlinear_arith)
                requires 1 <= self.width && 1 <= self.height;
        }
        let total: u32 = self.width * self.height;
        let full_count: usize = (total - 1) as usize;
        if self.snake.body.len() == full_count {
            return None;
        }
        let free = self.free_cells();
        if free.len() == 0 {
            proof {
                assert forall|p: Point| in_bounds(p, self.width, self.height)
                    implies occupies(self.snake.head, self.snake.body@, p) by {
                    if !occupies(self.snake.head, self.snake.body@, p) {
                        assert(free@.contains(p));
                    }
                }
            }
            return None;
        }
        let idx: usize = random_index(free.len());
        Some(free[idx])
    }

    /// Every free cell of the board, in row-major order.
    fn free_cells(&self) -> (free: Vec<Point>)
        ensures
            forall|i: int| 0 <= i < free@.len() ==> in_bounds(#[trigger] free@[i], self.width, self.height)
                && !occupies(self.snake.head, self.snake.body@, free@[i]),
            forall|p: Point| in_bounds(p, self.width, self.height)
                && !occupies(self.snake.head, self.snake.body@, p) ==> free@.contains(p),
    {
        let mut free: Vec<Point> = Vec::new();
        let mut y: u32 = 0;
        while y < self.height
            invariant
                y <= self.height,
                forall|i: int| 0 <= i < free@.len() ==> in_bounds(#[trigger] free@[i], self.width, self.height)
                    && !occupies(self.snake.head, self.snake.body@, free@[i]),
                forall|p: Point| p.1 < y && in_bounds(p, self.width, self.height)
                    && !occupies(self.snake.head, self.snake.body@, p) ==> free@.contains(p),
            decreases self.height - y,
        {
            let mut x: u32 = 0;
            while x < self.width
                invariant
                    x <= self.width,
                    y < self.height,
                    forall|i: int| 0 <= i < free@.len() ==> in_bounds(#[trigger] free@[i], self.width, self.height)
                        && !occupies(self.snake.head, self.snake.body@, free@[i]),
                    forall|p: Point| p.1 < y && in_bounds(p, self.width, self.height)
                        && !occupies(self.snake.head, self.snake.body@, p) ==> free@.contains(p),
                    forall|p: Point| p.1 == y && p.0 < x && in_bounds(p, self.width, self.height)
                        && !occupies(self.snake.head, self.snake.body@, p) ==> free@.contains(p),
                decreases self.width - x,
            {
                let ghost old_free = free@;
                let occupied = self.cell_occupied(Point(x, y));
                if !occupied {
                    free.push(Point(x, y));
                }
                proof {
                    assert forall|p: Point| old_free.contains(p) implies free@.contains(p) by {
                        let i: int = choose|i: int| 0 <= i < old_free.len() && old_free[i] == p;
                        assert(free@[i] == p);
                    }
                    assert forall|p: Point| p.1 < y && in_bounds(p, self.width, self.height)
                        && !occupies(self.snake.head, self.snake.body@, p)
                        implies free@.contains(p) by {
                        assert(old_free.contains(p));
                    }
                    assert forall|p: Point| p.1 == y && p.0 < x + 1 && in_bounds(p, self.width, self.height)
                        && !occupies(self.snake.head, self.snake.body@, p)
                        implies free@.contains(p) by {
                        if p.0 < x {
                            assert(old_free.contains(p));
                        } else {
                            assert(p == Point(x, y));
                            assert(free@[free@.len() - 1] == Point(x, y));
                        }
                    }
                }
                x = x + 1;
            }
            y = y + 1;
        }
        free
    }

    /// Whether the snake's head or body covers `p`.
    fn cell_occupied(&self, p: Point) -> (b: bool)
        ensures
            b == occupies(self.snake.head, self.snake.body@, p),
    {
        if self.snake.head == p {
            true
        } else {
            contains_point(&self.snake.body, p)
        }
    }

    /// Advances the session by one tick: self-collision first, then food
    /// consumption and replacement, then movement against the walls.
    pub fn update(&mut self)
        requires
            old(self).dims_ok(),
            old(self).seed is Some,
            old(self).score < u32::MAX,
        ensures
            Game::update_spec(*old(self), *final(self)),
    {
        // self-collision against the body carried over from the last tick
        if contains_point(&self.snake.body, self.snake.head) {
            self.state = GameState::Lose;
            return;
        }

        // food consumption: grow at the head, then place the next food
        let seed_pt = self.seed.unwrap();
        if self.snake.head == seed_pt {
            self.score = self.score + 1;
            let h = self.snake.head;
            self.snake.body.insert(0, h);
            proof {
                assert(self.snake.body@ =~= grown_body(old(self).snake));
            }
            match self.gen_seed() {
                None => {
                    self.seed = None;
                    self.state = GameState::Win;
                    return;
                }
                Some(p) => {
                    self.seed = Some(p);
                }
            }
        }

        // movement: shift the body and step the head, or hit a wall
        match self.snake.direction {
            Direction::Up => {
                if self.snake.head.1 > 0 {
                    self.shift_body();
                    self.snake.head.1 = self.snake.head.1 - 1;
                    self.state = GameState::Running;
                } else {
                    self.state = GameState::Lose;
                }
            }
            Direction::Down => {
                if self.snake.head.1 < self.height - 1 {
                    self.shift_body();
                    self.snake.head.1 = self.snake.head.1 + 1;
                    self.state = GameState::Running;
                } else {
                    self.state = GameState::Lose;
                }
            }
            Direction::Left => {
                if self.snake.head.0 > 0 {
                    self.shift_body();
                    self.snake.head.0 = self.snake.head.0 - 1;
                    self.state = GameState::Running;
                } else {
                    self.state = GameState::Lose;
                }
            }
            Direction::Right => {
                if self.snake.head.0 <= self.width - 1 {
                    self.shift_body();
                    self.snake.head.0 = self.snake.head.0 + 1;
                    self.state = GameState::Running;
                } else {
                    self.state = GameState::Lose;
                }
            }
        }
    }

    /// Pops the oldest body segment, if any, and inserts the current head
    /// at the front of the body.
    fn shift_body(&mut self)
        ensures
            final(self).snake.body@ == shifted_body(old(self).snake.head, old(self).snake.body@),
            final(self).snake.head == old(self).snake.head,
            final(self).snake.direction == old(self).snake.direction,
            final(self).seed == old(self).seed,
            final(self).score == old(self).score,
            final(self).state == old(self).state,
            final(self).width == old(self).width,
            final(self).height == old(self).height,
    {
        self.snake.body.pop();
        let h = self.snake.head;
        self.snake.body.insert(0, h);
        proof {
            assert(self.snake.body@
                =~= shifted_body(old(self).snake.head, old(self).snake.body@));
        }
    }
}

impl Snake {
    /// Records the direction the snake will move on the next tick.
    pub fn set_direction(&mut self, d: Direction)
        ensures
            final(self).direction == d,
            final(self).head == old(self).head,
            final(self).body == old(self).body,
    {
        self.direction = d;
    }
}

/// Law: on a tick with no self-collision, no food at the head, and a move
/// that the walls allow, a nonempty body keeps its length: one segment is
/// popped at the tail and one pushed at the front.
pub proof fn lemma_body_length_invariant(o: Game, f: Game)
    requires
        Game::update_spec(o, f),
        !self_collided(o.snake),
        !eats(o),
        move_allowed(o.snake.head, o.snake.direction, o.width, o.height),
        o.snake.body@.len() > 0,
    ensures
        f.snake.body@.len() == o.snake.body@.len(),
{
}

/// Law: a consuming tick raises the score by exactly one and the body
/// length by exactly one, and the food it places, if any, covers neither
/// the head nor any body cell as they stand at the moment of placement.
pub proof fn lemma_food_consumption(o: Game, f: Game)
    requires
        Game::update_spec(o, f),
        !self_collided(o.snake),
        eats(o),
    ensures
        f.score == o.score + 1,
        f.snake.body@.len() == o.snake.body@.len() + 1,
        f.seed matches Some(p) ==> p != o.snake.head && !grown_body(o.snake).contains(p)
            && in_bounds(p, o.width, o.height),
{
}

/// Law: whenever the head sits on a body cell carried over from an earlier
/// tick, the tick ends in Lose and changes nothing else, whatever the
/// direction.
pub proof fn lemma_self_collision_lose(o: Game, f: Game)
    requires
        Game::update_spec(o, f),
        self_collided(o.snake),
    ensures
        f.state == GameState::Lose,
        f.snake.head == o.snake.head,
        f.snake.body@ == o.snake.body@,
        f.seed == o.seed,
        f.score == o.score,
{
}

/// Law: on a tick that neither self-collides nor wins, the wall checks
/// decide Lose exactly: Up loses at `y == 0`, Down at `y >= height - 1`,
/// Left at `x == 0`, and Right only past `x == width - 1` — one column
/// more permissive than the other three directions.
pub proof fn lemma_wall_lose(o: Game, f: Game)
    requires
        Game::update_spec(o, f),
        !self_collided(o.snake),
        !wins_on_tick(o),
    ensures
        o.snake.direction == Direction::Up
            ==> (f.state == GameState::Lose <==> o.snake.head.1 == 0),
        o.snake.direction == Direction::Down
            ==> (f.state == GameState::Lose <==> o.snake.head.1 >= o.height - 1),
        o.snake.direction == Direction::Left
            ==> (f.state == GameState::Lose <==> o.snake.head.0 == 0),
        o.snake.direction == Direction::Right
            ==> (f.state == GameState::Lose <==> o.snake.head.0 > o.width - 1),
{
}

/// Law companion to food placement: while the occupied-cell count stays
/// below the cell count of the board, some cell is free, so placement can
/// only come back absent through the full-board count check — even though
/// the count may overcount when body segments overlap.
pub proof fn lemma_free_cell_exists(width: u32, height: u32, head: Point, body: Seq<Point>)
    requires
        body.len() + 1 < width * height,
    ensures
        !board_covered(width, height, head, body),
{
    let w: int = width as int;
    let h: int = height as int;
    let n: int = body.len() as int;
    assert(0 < w && 0 < h) by (nonlinear_arith)
        requires 0 <= n, n + 1 < w * h, 0 <= w, 0 <= h;
    if board_covered(width, height, head, body) {
        let s = seq![head] + body;
        let occ_seq = s.map_values(|p: Point| p.1 * width + p.0);
        let occ = occ_seq.to_set();
        let all = set_int_range(0, w * h);
        assert forall|i: int| all.contains(i) implies occ.contains(i) by {
            lemma_fundamental_div_mod(i, w);
            lemma_mod_division_less_than_divisor(i, w);
            lemma_multiply_divide_lt(i, w, h);
            let x: int = i % w;
            let y: int = i / w;
            let p = Point(x as u32, y as u32);
            assert(in_bounds(p, width, height));
            assert(occupies(head, body, p));
            assert(s.contains(p)) by {
                if p == head {
                    assert(s[0] == p);
                } else {
                    let j: int = choose|j: int| 0 <= j < body.len() && body[j] == p;
                    assert(s[j + 1] == p);
                }
            }
            let j: int = choose|j: int| 0 <= j < s.len() && s[j] == p;
            assert(occ_seq[j] == p.1 * width + p.0);
            assert(p.1 * width + p.0 == i) by (nonlinear_arith)
                requires
                    p.1 == y && p.0 == x && w == width,
                    i == w * y + x;
            assert(occ_seq.contains(i));
        }
        lemma_int_range(0, w * h);
        seq_to_set_is_finite(occ_seq);
        occ_seq.lemma_cardinality_of_set();
        lemma_len_subset(all, occ);
        assert(false);
    }
}

/// Whether `p` occurs among the elements of `v`.
pub(crate) fn contains_point(v: &Vec<Point>, p: Point) -> (b: bool)
    ensures
        b == v@.contains(p),
{
    let mut i: usize = 0;
    while i < v.len()
        invariant
            i <= v.len(),
            forall|j: int| 0 <= j < i ==> v@[j] != p,
        decreases v.len() - i,
    {
        if v[i] == p {
            return true;
        }
        i = i + 1;
    }
    false
}

} // verus!
