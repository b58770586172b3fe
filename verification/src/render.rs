//! Rendering the session to a character grid: one row of cell characters
//! per board row, each terminated by a newline.

use vstd::prelude::*;
use crate::Point;
use crate::game::{contains_point, Direction, Game};

verus! {

/// The glyph that marks the head cell, by the current direction.
pub open spec fn direction_glyph(d: Direction) -> char {
    match d {
        Direction::Up => '^',
        Direction::Down => 'v',
        Direction::Left => '<',
        Direction::Right => '>',
    }
}

/// The character of one cell: the head wears its direction glyph, the food
/// cell a `#`, a body segment a `·`, and an empty cell a space.
pub open spec fn cell_char(g: Game, x: u32, y: u32) -> char {
    if g.snake.head == Point(x, y) {
        direction_glyph(g.snake.direction)
    } else if g.seed == Some(Point(x, y)) {
        '#'
    } else if g.snake.body@.contains(Point(x, y)) {
        '·'
    } else {
        ' '
    }
}

/// Row `y` of the grid from column `x` on: the cell characters up to the
/// last column, then the terminating newline.
pub open spec fn spec_row(g: Game, y: u32, x: u32) -> Seq<char>
    decreases g.width + 1 - x,
{
    if x > g.width {
        Seq::empty()
    } else if x == g.width {
        seq!['\n']
    } else {
        seq![cell_char(g, x, y)] + spec_row(g, y, (x + 1) as u32)
    }
}

/// The grid from row `y` down: each row in full, rows in order.
pub open spec fn spec_grid(g: Game, y: u32) -> Seq<char>
    decreases g.height - y,
{
    if y >= g.height {
        Seq::empty()
    } else {
        spec_row(g, y, 0) + spec_grid(g, (y + 1) as u32)
    }
}

/// A full row holds one character per column and the newline.
pub proof fn lemma_spec_row_len(g: Game, y: u32, x: u32)
    requires
        x <= g.width,
    ensures
        spec_row(g, y, x).len() == g.width + 1 - x,
    decreases g.width - x,
{
    if x < g.width {
        lemma_spec_row_len(g, y, (x + 1) as u32);
    }
}

/// The grid from row `y` down holds one full row per remaining board row.
pub proof fn lemma_spec_grid_len(g: Game, y: u32)
    requires
        y <= g.height,
    ensures
        spec_grid(g, y).len() == (g.height - y) * (g.width + 1),
    decreases g.height - y,
{
    if y < g.height {
        lemma_spec_row_len(g, y, 0);
        lemma_spec_grid_len(g, (y + 1) as u32);
        assert((g.height - y) * (g.width + 1)
            == (g.width + 1) + (g.height - (y + 1)) * (g.width + 1)) by (nonlinear_arith);
    } else {
        assert((g.height - y) * (g.width + 1) == 0) by (nonlinear_arith)
            requires y == g.height;
    }
}

impl Game {
    /// Renders the whole board as one string: `height` rows of `width`
    /// cell characters, each row terminated by a newline.
    pub fn draw(&self) -> (s: String)
        ensures
            s@ == spec_grid(*self, 0),
            s@.len() == self.height * (self.width + 1),
    {
        let mut chars: Vec<char> = Vec::new();
        let mut y: u32 = 0;
        while y < self.height
            invariant
                y <= self.height,
                chars@ + spec_grid(*self, y) == spec_grid(*self, 0),
            decreases self.height - y,
        {
            let mut x: u32 = 0;
            proof {
                assert(chars@ + (spec_row(*self, y, 0) + spec_grid(*self, (y + 1) as u32))
                    =~= (chars@ + spec_row(*self, y, 0)) + spec_grid(*self, (y + 1) as u32));
            }
            while x < self.width
                invariant
                    x <= self.width,
                    y < self.height,
                    (chars@ + spec_row(*self, y, x)) + spec_grid(*self, (y + 1) as u32)
                        == spec_grid(*self, 0),
                decreases self.width - x,
            {
                let ghost old_chars = chars@;
                let c = self.cell_char_at(x, y);
                chars.push(c);
                proof {
                    assert(old_chars + spec_row(*self, y, x)
                        =~= chars@ + spec_row(*self, y, (x + 1) as u32));
                }
                x = x + 1;
            }
            let ghost old_chars = chars@;
            chars.push('\n');
            proof {
                assert(old_chars + spec_row(*self, y, x) =~= chars@);
                assert(chars@ + spec_grid(*self, (y + 1) as u32) == spec_grid(*self, 0));
            }
            y = y + 1;
        }
        proof {
            assert(chars@ =~= spec_grid(*self, 0));
            lemma_spec_grid_len(*self, 0);
        }
        chars_to_string(&chars)
    }

    /// The character of the cell at column `x`, row `y`.
    fn cell_char_at(&self, x: u32, y: u32) -> (c: char)
        ensures
            c == cell_char(*self, x, y),
    {
        let p = Point(x, y);
        if self.snake.head == p {
            match self.snake.direction {
                Direction::Up => '^',
                Direction::Down => 'v',
                Direction::Left => '<',
                Direction::Right => '>',
            }
        } else if seed_covers(self.seed, p) {
            '#'
        } else if contains_point(&self.snake.body, p) {
            '·'
        } else {
            ' '
        }
    }
}

/// Whether the food, if present, sits on `p`.
fn seed_covers(seed: Option<Point>, p: Point) -> (b: bool)
    ensures
        b == (seed == Some(p)),
{
    match seed {
        Some(s) => s == p,
        None => false,
    }
}

/// Relies on std's `FromIterator` for `String` over `char`s: collecting a
/// vector of characters yields the string of exactly those characters, in
/// order.
#[verifier::external_body]
fn chars_to_string(v: &Vec<char>) -> (s: String)
    ensures
        s@ == v@,
{
    v.iter().collect()
}

} // verus!
