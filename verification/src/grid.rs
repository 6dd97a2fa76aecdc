use vstd::prelude::*;
use vstd::string::StrSliceExecFns;

verus! {

/// The number of rows of the canvas.
pub const ROWS: i32 = 25;

/// The number of columns of the canvas.
pub const COLS: i32 = 80;

/// What a read outside the canvas yields: the character with code point `0`.
pub const OUTSIDE: char = '\0';

/// Whether `(row, col)` is a cell of the canvas.
pub open spec fn in_bounds(row: int, col: int) -> bool {
    0 <= row < ROWS && 0 <= col < COLS
}

/// The place of cell `(row, col)` in the canvas, which is kept row by row.
pub open spec fn offset(row: int, col: int) -> int {
    row * COLS + col
}

/// What a read of `(row, col)` yields: the character in that cell, or
/// [`OUTSIDE`] where the canvas has no such cell.
pub open spec fn cell(cells: Seq<char>, row: int, col: int) -> char {
    if in_bounds(row, col) {
        cells[offset(row, col)]
    } else {
        OUTSIDE
    }
}

/// The canvas after a write of `value` to `(row, col)`. A write outside the
/// canvas changes nothing.
pub open spec fn with_cell(cells: Seq<char>, row: int, col: int, value: u8) -> Seq<char> {
    if in_bounds(row, col) {
        cells.update(offset(row, col), value as char)
    } else {
        cells
    }
}

/// The character that the program text `lines` puts in cell `(row, col)`:
/// the one at place `col` of line `row`, or a space where the text has none.
pub open spec fn source_cell(lines: Seq<Seq<char>>, row: int, col: int) -> char {
    if 0 <= row < lines.len() && 0 <= col < lines[row].len() {
        lines[row][col]
    } else {
        ' '
    }
}

/// The canvas that the program text `lines` is loaded into. Lines beyond the
/// last row and characters beyond the last column are left out.
pub open spec fn canvas(lines: Seq<Seq<char>>) -> Seq<char> {
    Seq::new((ROWS * COLS) as nat, |i: int| source_cell(lines, i / (COLS as int), i % (COLS as int)))
}

/// The characters of each line of a program text.
pub open spec fn text_of(source: Seq<String>) -> Seq<Seq<char>> {
    Seq::new(source.len(), |i: int| source[i]@)
}

/// The canvas of a program: 25 rows of 80 characters, which the program may
/// read and overwrite while it runs. The view holds the cells row by row.
#[derive(Debug)]
pub struct Grid {
    cells: Vec<char>,
}

impl View for Grid {
    type V = Seq<char>;

    closed spec fn view(&self) -> Seq<char> {
        self.cells@
    }
}

impl Grid {
    /// The canvas has a character in each of its cells.
    pub open spec fn wf(&self) -> bool {
        self@.len() == ROWS * COLS
    }

    /// Loads a program text, one line to a row.
    pub fn new(source: &Vec<String>) -> (r: Self)
        ensures
            r.wf(),
            r@ == canvas(text_of(source@)),
    {
        let mut cells: Vec<char> = vec![' '; 2000];
        let ghost lines = text_of(source@);
        let mut row: usize = 0;
        while row < 25 && row < source.len()
            invariant
                row <= 25,
                lines == text_of(source@),
                cells@.len() == 2000,
                forall|r: int, c: int|
                    0 <= r < 25 && 0 <= c < 80 ==> #[trigger] cells@[offset(r, c)] == (if r < row {
                        source_cell(lines, r, c)
                    } else {
                        ' '
                    }),
            decreases 25 - row,
        {
            let line: &str = source[row].as_str();
            let length: usize = line.unicode_len();
            let mut col: usize = 0;
            while col < 80 && col < length
                invariant
                    row < 25,
                    row < source.len(),
                    col <= 80,
                    lines == text_of(source@),
                    line@ == lines[row as int],
                    length == line@.len(),
                    cells@.len() == 2000,
                    forall|r: int, c: int|
                        0 <= r < 25 && 0 <= c < 80 ==> #[trigger] cells@[offset(r, c)] == (if r
                            < row || (r == row && c < col) {
                            source_cell(lines, r, c)
                        } else {
                            ' '
                        }),
                decreases 80 - col,
            {
                let ghost before = cells@;
                cells[row * 80 + col] = line.get_char(col);
                proof {
                    assert forall|r: int, c: int| 0 <= r < 25 && 0 <= c < 80 implies #[trigger] cells@[offset(
                        r,
                        c,
                    )] == (if r < row || (r == row && c < col + 1) {
                        source_cell(lines, r, c)
                    } else {
                        ' '
                    }) by {
                        if r == row && c == col {
                        } else {
                            assert(offset(r, c) != offset(row as int, col as int));
                            assert(cells@[offset(r, c)] == before[offset(r, c)]);
                        }
                    }
                }
                col = col + 1;
            }
            row = row + 1;
        }
        proof {
            assert forall|i: int| 0 <= i < 2000 implies cells@[i] == canvas(lines)[i] by {
                let r = i / 80;
                let c = i % 80;
                assert(i == offset(r, c));
            }
            assert(cells@ =~= canvas(lines));
        }
        Grid { cells }
    }

    /// Reads a cell. Outside the canvas, whatever the coordinates, the read
    /// yields [`OUTSIDE`].
    pub fn get(&self, row: i32, col: i32) -> (r: char)
        requires
            self.wf(),
        ensures
            r == cell(self@, row as int, col as int),
            !in_bounds(row as int, col as int) ==> r == OUTSIDE,
    {
        if 0 <= row && row < ROWS && 0 <= col && col < COLS {
            self.cells[(row as usize) * 80 + (col as usize)]
        } else {
            OUTSIDE
        }
    }

    /// The canvas as its rows, top first, each with its characters from left
    /// to right.
    pub fn rows(&self) -> (r: Vec<Vec<char>>)
        requires
            self.wf(),
        ensures
            r@.len() == ROWS,
            forall|row: int| 0 <= row < ROWS ==> (#[trigger] r@[row])@.len() == COLS,
            forall|row: int, col: int|
                in_bounds(row, col) ==> #[trigger] r@[row]@[col] == cell(self@, row, col),
    {
        let mut rows: Vec<Vec<char>> = Vec::new();
        let mut row: usize = 0;
        while row < 25
            invariant
                row <= 25,
                self.wf(),
                rows@.len() == row,
                forall|i: int| 0 <= i < row ==> (#[trigger] rows@[i])@.len() == COLS,
                forall|i: int, j: int|
                    0 <= i < row && 0 <= j < COLS ==> #[trigger] rows@[i]@[j] == cell(self@, i, j),
            decreases 25 - row,
        {
            let mut line: Vec<char> = Vec::new();
            let mut col: usize = 0;
            while col < 80
                invariant
                    row < 25,
                    col <= 80,
                    self.wf(),
                    line@.len() == col,
                    forall|j: int| 0 <= j < col ==> #[trigger] line@[j] == cell(self@, row as int, j),
                decreases 80 - col,
            {
                line.push(self.cells[row * 80 + col]);
                col = col + 1;
            }
            rows.push(line);
            row = row + 1;
        }
        rows
    }

    /// Writes the character with code point `value` into a cell. A write
    /// outside the canvas is ignored.
    pub fn put(&mut self, row: i32, col: i32, value: u8)
        requires
            old(self).wf(),
        ensures
            final(self).wf(),
            final(self)@ == with_cell(old(self)@, row as int, col as int, value),
    {
        if 0 <= row && row < ROWS && 0 <= col && col < COLS {
            self.cells[(row as usize) * 80 + (col as usize)] = value as char;
        }
    }
}

/// A cell that was written reads back as the character written, and every
/// other cell reads as before.
pub proof fn lemma_put_get(cells: Seq<char>, row: int, col: int, value: u8, r: int, c: int)
    requires
        cells.len() == ROWS * COLS,
        in_bounds(row, col),
    ensures
        cell(with_cell(cells, row, col, value), row, col) == value as char,
        (r != row || c != col) ==> cell(with_cell(cells, row, col, value), r, c) == cell(
            cells,
            r,
            c,
        ),
{
}

/// A read outside the canvas yields the character with code point `0`, and
/// a write there leaves the canvas as it was.
pub proof fn lemma_outside(cells: Seq<char>, row: int, col: int, value: u8)
    requires
        !in_bounds(row, col),
    ensures
        cell(cells, row, col) as int == 0,
        with_cell(cells, row, col, value) == cells,
{
}

} // verus!
