use vstd::prelude::*;
use vstd::arithmetic::div_mod::lemma_small_mod;
use vstd::arithmetic::div_mod::lemma_mod_self_0;

verus! {

/// The four ways the cursor can face.
#[derive(PartialEq, Eq, Structural, Debug, Copy, Clone)]
pub enum Direction {
    Up,
    Down,
    Left,
    Right,
}

/// The heading that stands at place `index` among the four: right, left,
/// up, down.
pub open spec fn direction_at(index: int) -> Direction {
    if index == 0 {
        Direction::Right
    } else if index == 1 {
        Direction::Left
    } else if index == 2 {
        Direction::Up
    } else {
        Direction::Down
    }
}

impl Direction {
    /// The heading at place `index` among the four, for an `index` below four.
    pub fn from_index(index: u32) -> (r: Direction)
        requires
            index < 4,
        ensures
            r == direction_at(index as int),
    {
        if index == 0 {
            Direction::Right
        } else if index == 1 {
            Direction::Left
        } else if index == 2 {
            Direction::Up
        } else {
            Direction::Down
        }
    }
}

/// Every heading stands at one of the four places.
pub proof fn lemma_direction_at(direction: Direction)
    ensures
        exists|index: int| 0 <= index < 4 && #[trigger] direction_at(index) == direction,
{
    match direction {
        Direction::Right => assert(direction_at(0) == direction),
        Direction::Left => assert(direction_at(1) == direction),
        Direction::Up => assert(direction_at(2) == direction),
        Direction::Down => assert(direction_at(3) == direction),
    }
}

/// The mathematical cursor: a cell of a canvas of `rows` by `cols` cells, and a heading.
pub struct Cursor {
    pub row: int,
    pub col: int,
    pub direction: Direction,
    pub rows: int,
    pub cols: int,
}

impl Cursor {
    /// The cursor stands on a cell of its canvas.
    pub open spec fn wf(self) -> bool {
        &&& 0 <= self.row < self.rows <= i32::MAX
        &&& 0 <= self.col < self.cols <= i32::MAX
    }

    /// The cursor one cell further along its heading. The canvas is a torus:
    /// a step over an edge arrives at the opposite edge.
    pub open spec fn advance(self) -> Cursor {
        match self.direction {
            Direction::Right => Cursor { col: (self.col + 1) % self.cols, ..self },
            Direction::Left => Cursor {
                col: if self.col == 0 {
                    self.cols - 1
                } else {
                    self.col - 1
                },
                ..self
            },
            Direction::Down => Cursor { row: (self.row + 1) % self.rows, ..self },
            Direction::Up => Cursor {
                row: if self.row == 0 {
                    self.rows - 1
                } else {
                    self.row - 1
                },
                ..self
            },
        }
    }

    /// The cursor after `steps` cells along its heading.
    pub open spec fn advance_by(self, steps: nat) -> Cursor
        decreases steps,
    {
        if steps == 0 {
            self
        } else {
            self.advance_by((steps - 1) as nat).advance()
        }
    }

    /// The same cell, facing `direction`.
    pub open spec fn turn(self, direction: Direction) -> Cursor {
        Cursor { direction, ..self }
    }
}

/// The cursor of a running program. Its view is a [`Cursor`].
#[derive(Debug)]
pub struct Pointer {
    direction: Direction,
    x: i32,
    y: i32,
    max_rows: i32,
    max_cols: i32,
}

impl View for Pointer {
    type V = Cursor;

    closed spec fn view(&self) -> Cursor {
        Cursor {
            row: self.x as int,
            col: self.y as int,
            direction: self.direction,
            rows: self.max_rows as int,
            cols: self.max_cols as int,
        }
    }
}

impl Default for Pointer {
    /// The cursor at the top left cell of a canvas of 25 rows and 80 columns,
    /// facing right.
    fn default() -> (r: Self)
        ensures
            r@ == (Cursor { row: 0, col: 0, direction: Direction::Right, rows: 25, cols: 80 }),
            r.wf(),
    {
        Pointer { direction: Direction::Right, x: 0, y: 0, max_rows: 25, max_cols: 80 }
    }
}

impl Pointer {
    /// The cursor stands on a cell of its canvas.
    pub open spec fn wf(&self) -> bool {
        self@.wf()
    }

    /// Moves one cell along the heading, around the edges of the canvas.
    pub fn increase(&mut self)
        requires
            old(self).wf(),
        ensures
            final(self)@ == old(self)@.advance(),
            final(self).wf(),
    {
        match self.direction {
            Direction::Right => {
                self.y = (self.y + 1) % self.max_cols;
            },
            Direction::Left => {
                if self.y == 0 {
                    self.y = self.max_cols - 1;
                } else {
                    self.y = self.y - 1;
                }
            },
            Direction::Up => {
                if self.x == 0 {
                    self.x = self.max_rows - 1;
                } else {
                    self.x = self.x - 1;
                }
            },
            Direction::Down => {
                self.x = (self.x + 1) % self.max_rows;
            },
        }
    }

    /// Faces the cursor towards `direction`, where it stands.
    pub fn set_direction(&mut self, direction: Direction)
        ensures
            final(self)@ == old(self)@.turn(direction),
    {
        self.direction = direction;
    }

    /// The row and the column of the cell under the cursor.
    pub fn coordinates(&self) -> (r: (i32, i32))
        ensures
            r.0 == self@.row,
            r.1 == self@.col,
    {
        (self.x, self.y)
    }

    /// The heading.
    pub fn direction(&self) -> (r: Direction)
        ensures
            r == self@.direction,
    {
        self.direction
    }

    /// The number of rows of the canvas.
    pub fn max_rows(&self) -> (r: i32)
        ensures
            r == self@.rows,
    {
        self.max_rows
    }

    /// The number of columns of the canvas.
    pub fn max_cols(&self) -> (r: i32)
        ensures
            r == self@.cols,
    {
        self.max_cols
    }
}

/// A step keeps the cursor on the canvas, and changes neither the heading
/// nor the size of the canvas.
pub proof fn lemma_advance_wf(c: Cursor)
    requires
        c.wf(),
    ensures
        c.advance().wf(),
        c.advance().direction == c.direction,
        c.advance().rows == c.rows,
        c.advance().cols == c.cols,
{
}

/// Where `steps` cells to the right lead, for up to one turn round the canvas.
proof fn lemma_steps_right(c: Cursor, steps: nat)
    requires
        c.wf(),
        c.direction == Direction::Right,
        steps <= c.cols,
    ensures
        c.advance_by(steps) == (Cursor {
            col: if c.col + steps < c.cols {
                c.col + steps
            } else {
                c.col + steps - c.cols
            },
            ..c
        }),
    decreases steps,
{
    if steps > 0 {
        lemma_steps_right(c, (steps - 1) as nat);
        let before = c.advance_by((steps - 1) as nat);
        if before.col + 1 < c.cols {
            lemma_small_mod((before.col + 1) as nat, c.cols as nat);
        } else {
            lemma_mod_self_0(c.cols);
        }
    }
}

/// Where `steps` cells down lead, for up to one turn round the canvas.
proof fn lemma_steps_down(c: Cursor, steps: nat)
    requires
        c.wf(),
        c.direction == Direction::Down,
        steps <= c.rows,
    ensures
        c.advance_by(steps) == (Cursor {
            row: if c.row + steps < c.rows {
                c.row + steps
            } else {
                c.row + steps - c.rows
            },
            ..c
        }),
    decreases steps,
{
    if steps > 0 {
        lemma_steps_down(c, (steps - 1) as nat);
        let before = c.advance_by((steps - 1) as nat);
        if before.row + 1 < c.rows {
            lemma_small_mod((before.row + 1) as nat, c.rows as nat);
        } else {
            lemma_mod_self_0(c.rows);
        }
    }
}

/// Where `steps` cells to the left lead, for up to one turn round the canvas.
proof fn lemma_steps_left(c: Cursor, steps: nat)
    requires
        c.wf(),
        c.direction == Direction::Left,
        steps <= c.cols,
    ensures
        c.advance_by(steps) == (Cursor {
            col: if steps <= c.col {
                c.col - steps
            } else {
                c.col - steps + c.cols
            },
            ..c
        }),
    decreases steps,
{
    if steps > 0 {
        lemma_steps_left(c, (steps - 1) as nat);
    }
}

/// Where `steps` cells up lead, for up to one turn round the canvas.
proof fn lemma_steps_up(c: Cursor, steps: nat)
    requires
        c.wf(),
        c.direction == Direction::Up,
        steps <= c.rows,
    ensures
        c.advance_by(steps) == (Cursor {
            row: if steps <= c.row {
                c.row - steps
            } else {
                c.row - steps + c.rows
            },
            ..c
        }),
    decreases steps,
{
    if steps > 0 {
        lemma_steps_up(c, (steps - 1) as nat);
    }
}

/// Facing right or left, as many steps as the canvas has columns lead back
/// to the cell the cursor started from.
pub proof fn lemma_wrap_horizontal(c: Cursor)
    requires
        c.wf(),
        c.direction == Direction::Right || c.direction == Direction::Left,
    ensures
        c.advance_by(c.cols as nat) == c,
{
    if c.direction == Direction::Right {
        lemma_steps_right(c, c.cols as nat);
    } else {
        lemma_steps_left(c, c.cols as nat);
    }
}

/// Facing down or up, as many steps as the canvas has rows lead back to the
/// cell the cursor started from.
pub proof fn lemma_wrap_vertical(c: Cursor)
    requires
        c.wf(),
        c.direction == Direction::Down || c.direction == Direction::Up,
    ensures
        c.advance_by(c.rows as nat) == c,
{
    if c.direction == Direction::Down {
        lemma_steps_down(c, c.rows as nat);
    } else {
        lemma_steps_up(c, c.rows as nat);
    }
}

/// A step to the left undoes a step to the right, and a step up undoes a
/// step down: the two ways of wrapping agree at the edges.
pub proof fn lemma_step_back(c: Cursor)
    requires
        c.wf(),
    ensures
        c.turn(Direction::Right).advance().turn(Direction::Left).advance().col == c.col,
        c.turn(Direction::Left).advance().turn(Direction::Right).advance().col == c.col,
        c.turn(Direction::Down).advance().turn(Direction::Up).advance().row == c.row,
        c.turn(Direction::Up).advance().turn(Direction::Down).advance().row == c.row,
{
    if c.col + 1 < c.cols {
        lemma_small_mod((c.col + 1) as nat, c.cols as nat);
    } else {
        lemma_mod_self_0(c.cols);
    }
    if c.row + 1 < c.rows {
        lemma_small_mod((c.row + 1) as nat, c.rows as nat);
    } else {
        lemma_mod_self_0(c.rows);
    }
    if c.col == 0 {
        lemma_mod_self_0(c.cols);
    } else {
        lemma_small_mod(c.col as nat, c.cols as nat);
    }
    if c.row == 0 {
        lemma_mod_self_0(c.rows);
    } else {
        lemma_small_mod(c.row as nat, c.rows as nat);
    }
}

} // verus!
