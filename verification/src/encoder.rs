//! Turning a buffer into the commands that redraw it.

use crate::command::AnsiCommand;
use crate::screen::{Screen, ScreenView};
use crate::width::{display_width, glyph_columns, glyph_width, is_control, is_control_char};
use vstd::prelude::*;

verus! {

/// The commands that draw one glyph: move to its place, select its colour as
/// foreground, print it.
pub open spec fn drawn_cell(column: u32, row: u32, glyph: char, color: u8) -> Seq<AnsiCommand> {
    seq![AnsiCommand::Move(column, row), AnsiCommand::Color256(color, false), AnsiCommand::Cell(glyph)]
}

/// Appends to `result` the commands that draw `glyph` in `color` at
/// (`column`, `row`), and gives the column at which a terminal leaves the
/// cursor after a glyph `width` columns wide.
pub fn draw_cell(
    result: &mut Vec<AnsiCommand>,
    column: u32,
    row: u32,
    glyph: char,
    color: u8,
    width: usize,
) -> (next: u32)
    requires
        column + width <= u32::MAX,
    ensures
        final(result)@ == old(result)@ + drawn_cell(column, row, glyph, color),
        next == column + width,
{
    result.push(AnsiCommand::Move(column, row));
    result.push(AnsiCommand::Color256(color, false));
    result.push(AnsiCommand::Cell(glyph));
    column + width as u32
}

impl ScreenView {
    /// The column at which the terminal's cursor stands before the cell in
    /// column `x` of row `y` is drawn: the display widths of the glyphs to
    /// its left in that row, added up.
    pub open spec fn cursor_offset(self, x: int, y: int) -> nat
        decreases x,
    {
        if x <= 0 {
            0
        } else {
            self.cursor_offset(x - 1, y) + glyph_columns(self.glyph(x - 1, y))
        }
    }

    /// The commands that draw the cell in column `x` of row `y`, at its
    /// cursor offset.
    pub open spec fn cell_commands(self, x: int, y: int) -> Seq<AnsiCommand> {
        drawn_cell(self.cursor_offset(x, y) as u32, y as u32, self.glyph(x, y), self.color(x, y))
    }

    /// The commands that draw the first `n` cells of row `y`, after a move
    /// to column 1 of the row.
    pub open spec fn row_commands(self, y: int, n: int) -> Seq<AnsiCommand>
        decreases n,
    {
        if n <= 0 {
            seq![AnsiCommand::Move(1, y as u32)]
        } else {
            self.row_commands(y, n - 1) + self.cell_commands(n - 1, y)
        }
    }

    /// The commands that draw the first `m` rows, after a move to the origin.
    pub open spec fn frame_commands(self, m: int) -> Seq<AnsiCommand>
        decreases m,
    {
        if m <= 0 {
            seq![AnsiCommand::Move(0, 0)]
        } else {
            self.frame_commands(m - 1) + self.row_commands(m - 1, self.columns as int)
        }
    }

    /// The commands that redraw the whole buffer.
    pub open spec fn frame(self) -> Seq<AnsiCommand> {
        self.frame_commands(self.rows as int)
    }

    /// Width-aware cursor advance, narrow case: where the `x` glyphs at the
    /// start of row `y` are all one column wide, the offset of column `x` is `x`.
    pub proof fn lemma_offset_of_narrow_row(self, x: int, y: int)
        requires
            0 <= x,
            forall|j: int|
                0 <= j < x ==> display_width((#[trigger] self.cell(j, y)).0) == Some(1usize),
        ensures
            self.cursor_offset(x, y) == x,
        decreases x,
    {
        if x > 0 {
            self.lemma_offset_of_narrow_row(x - 1, y);
            assert(display_width(self.cell(x - 1, y).0) == Some(1usize));
        }
    }

    /// Width-aware cursor advance, wide case: where of the `x` glyphs at the
    /// start of row `y` the one in column `k` is two columns wide and the
    /// others one, the offset of column `x` is `x + 1`; up to and including
    /// column `k` the offsets are those of a narrow row.
    pub proof fn lemma_offset_after_wide_glyph(self, k: int, x: int, y: int)
        requires
            0 <= k < x,
            display_width(self.cell(k, y).0) == Some(2usize),
            forall|j: int|
                0 <= j < x && j != k ==> display_width((#[trigger] self.cell(j, y)).0) == Some(
                    1usize,
                ),
        ensures
            self.cursor_offset(k, y) == k,
            self.cursor_offset(x, y) == x + 1,
        decreases x,
    {
        self.lemma_offset_of_narrow_row(k, y);
        if x - 1 > k {
            self.lemma_offset_after_wide_glyph(k, x - 1, y);
            assert(display_width(self.cell(x - 1, y).0) == Some(1usize));
        }
    }

    /// How many commands `row_commands` gives.
    pub proof fn lemma_row_commands_len(self, y: int, n: int)
        requires
            0 <= n,
        ensures
            self.row_commands(y, n).len() == 1 + 3 * n,
        decreases n,
    {
        if n > 0 {
            self.lemma_row_commands_len(y, n - 1);
        }
    }

    /// Where the commands of one cell stand among those of its row.
    pub proof fn lemma_row_commands_at(self, y: int, n: int, x: int)
        requires
            0 <= x < n,
        ensures
            self.row_commands(y, n).len() == 1 + 3 * n,
            self.row_commands(y, n)[0] == AnsiCommand::Move(1, y as u32),
            self.row_commands(y, n).subrange(1 + 3 * x, 4 + 3 * x) == self.cell_commands(x, y),
        decreases n,
    {
        self.lemma_row_commands_len(y, n);
        self.lemma_row_commands_len(y, n - 1);
        let shorter = self.row_commands(y, n - 1);
        let last = self.cell_commands(n - 1, y);
        if x < n - 1 {
            self.lemma_row_commands_at(y, n - 1, x);
            assert((shorter + last).subrange(1 + 3 * x, 4 + 3 * x) =~= shorter.subrange(
                1 + 3 * x,
                4 + 3 * x,
            ));
        } else if n - 1 > 0 {
            self.lemma_row_commands_at(y, n - 1, 0);
        }
    }

    /// How many commands `frame_commands` gives.
    pub proof fn lemma_frame_commands_len(self, m: int)
        requires
            0 <= m,
        ensures
            self.frame_commands(m).len() == 1 + m * (1 + 3 * self.columns),
        decreases m,
    {
        let w = 1 + 3 * self.columns;
        if m > 0 {
            self.lemma_frame_commands_len(m - 1);
            self.lemma_row_commands_len(m - 1, self.columns as int);
            assert((m - 1) * w + w == m * w) by (nonlinear_arith);
        } else {
            assert(m * w == 0) by (nonlinear_arith)
                requires
                    m == 0,
            ;
        }
    }

    /// Where the commands of one row stand in a frame: the row `y` takes up
    /// `1 + 3 * columns` commands, after the opening move and the rows above.
    pub proof fn lemma_frame_commands_at(self, m: int, y: int)
        requires
            0 <= y < m,
        ensures
            self.frame_commands(m).len() == 1 + m * (1 + 3 * self.columns),
            self.frame_commands(m)[0] == AnsiCommand::Move(0, 0),
            1 + (y + 1) * (1 + 3 * self.columns) <= self.frame_commands(m).len(),
            self.frame_commands(m).subrange(
                1 + y * (1 + 3 * self.columns),
                1 + (y + 1) * (1 + 3 * self.columns),
            ) == self.row_commands(y, self.columns as int),
        decreases m,
    {
        let w = 1 + 3 * self.columns;
        self.lemma_frame_commands_len(m);
        self.lemma_frame_commands_len(m - 1);
        self.lemma_row_commands_len(m - 1, self.columns as int);
        let above = self.frame_commands(m - 1);
        let last = self.row_commands(m - 1, self.columns as int);
        assert(0 <= y * w && (y + 1) * w == y * w + w && (y + 1) * w <= m * w) by (nonlinear_arith)
            requires
                0 <= y < m,
                0 < w,
        ;
        if y < m - 1 {
            self.lemma_frame_commands_at(m - 1, y);
            assert((above + last).subrange(1 + y * w, 1 + (y + 1) * w) =~= above.subrange(
                1 + y * w,
                1 + (y + 1) * w,
            ));
        } else if m - 1 > 0 {
            self.lemma_frame_commands_at(m - 1, 0);
        }
    }
}

impl ScreenView {
    /// Where the three commands of the cell in column `x` of row `y` stand in
    /// the frame, and what they are: the move goes to the cell's cursor offset.
    pub proof fn lemma_frame_draws_cell(self, x: int, y: int)
        requires
            self.in_bounds(x, y),
        ensures
            ({
                let at = 1 + y * (1 + 3 * self.columns) + 1 + 3 * x;
                let frame = self.frame();
                &&& 0 <= at
                &&& at + 2 < frame.len()
                &&& frame[at] == AnsiCommand::Move(self.cursor_offset(x, y) as u32, y as u32)
                &&& frame[at + 1] == AnsiCommand::Color256(self.color(x, y), false)
                &&& frame[at + 2] == AnsiCommand::Cell(self.glyph(x, y))
            }),
    {
        let w = 1 + 3 * self.columns;
        let frame = self.frame();
        let row = self.row_commands(y, self.columns as int);
        let cell = self.cell_commands(x, y);
        self.lemma_frame_commands_at(self.rows as int, y);
        self.lemma_row_commands_at(y, self.columns as int, x);
        assert(0 <= y * w && (y + 1) * w == y * w + w) by (nonlinear_arith)
            requires
                0 <= y,
                0 < w,
        ;
        let at = 1 + y * w + 1 + 3 * x;
        assert forall|i: int| 0 <= i < 3 implies frame[at + i] == #[trigger] cell[i] by {
            assert(frame.subrange(1 + y * w, 1 + (y + 1) * w)[1 + 3 * x + i] == frame[at + i]);
            assert(row.subrange(1 + 3 * x, 4 + 3 * x)[i] == row[1 + 3 * x + i]);
        }
    }
}

impl Screen {
    /// Whether no cell holds a control character.
    pub fn is_printable(&self) -> (b: bool)
        requires
            self@.wf(),
        ensures
            b == self@.printable(),
    {
        let columns: usize = self.columns();
        let rows: usize = self.rows();
        let mut y: usize = 0;
        while y < rows
            invariant
                self@.wf(),
                columns == self@.columns,
                rows == self@.rows,
                y <= rows,
                forall|x2: int, y2: int|
                    0 <= x2 < columns && 0 <= y2 < y ==> !is_control(
                        (#[trigger] self@.cell(x2, y2)).0,
                    ),
            decreases rows - y,
        {
            let mut x: usize = 0;
            while x < columns
                invariant
                    self@.wf(),
                    columns == self@.columns,
                    rows == self@.rows,
                    y < rows,
                    x <= columns,
                    forall|x2: int, y2: int|
                        0 <= x2 < columns && 0 <= y2 < y ==> !is_control(
                            (#[trigger] self@.cell(x2, y2)).0,
                        ),
                    forall|x2: int|
                        0 <= x2 < x ==> !is_control(
                            (#[trigger] self@.cell(x2, y as int)).0,
                        ),
                decreases columns - x,
            {
                if is_control_char(self.get_cell(x, y).0) {
                    return false;
                }
                x = x + 1;
            }
            y = y + 1;
        }
        true
    }

    /// Appends to `result` the commands that redraw the buffer: a move to the
    /// origin; then for each row a move to its column 1 and, for each cell
    /// from the left, a move to the cell's cursor offset, its colour and its
    /// glyph.
    pub fn to_commands(&self, result: &mut Vec<AnsiCommand>)
        requires
            self@.wf(),
            self@.printable(),
        ensures
            final(result)@ == old(result)@ + self@.frame(),
    {
        let ghost start = result@;
        let columns: usize = self.columns();
        let rows: usize = self.rows();
        result.push(AnsiCommand::Move(0, 0));
        let mut y: usize = 0;
        while y < rows
            invariant
                self@.wf(),
                self@.printable(),
                columns == self@.columns,
                rows == self@.rows,
                y <= rows,
                result@ == start + self@.frame_commands(y as int),
            decreases rows - y,
        {
            result.push(AnsiCommand::Move(1, y as u32));
            let mut effective_x: u32 = 0;
            let mut x: usize = 0;
            while x < columns
                invariant
                    self@.wf(),
                    self@.printable(),
                    columns == self@.columns,
                    rows == self@.rows,
                    y < rows,
                    x <= columns,
                    effective_x == self@.cursor_offset(x as int, y as int),
                    effective_x <= 3 * x,
                    result@ == start + self@.frame_commands(y as int) + self@.row_commands(
                        y as int,
                        x as int,
                    ),
                decreases columns - x,
            {
                let (character, color) = self.get_cell(x, y);
                let width = glyph_width(character).unwrap();
                effective_x = draw_cell(result, effective_x, y as u32, character, color, width);
                proof {
                    let row = self@.row_commands(y as int, x as int);
                    let cell = self@.cell_commands(x as int, y as int);
                    assert(result@ == start + self@.frame_commands(y as int) + (row + cell));
                }
                x = x + 1;
            }
            proof {
                let above = self@.frame_commands(y as int);
                let row = self@.row_commands(y as int, columns as int);
                assert(result@ == start + (above + row));
            }
            y = y + 1;
        }
    }

    /// The commands that redraw the buffer, or `None` if a cell holds a
    /// control character, which has no place on screen.
    pub fn render(&self) -> (frame: Option<Vec<AnsiCommand>>)
        requires
            self@.wf(),
        ensures
            match frame {
                Some(commands) => self@.printable() && commands@ == self@.frame(),
                None => !self@.printable(),
            },
    {
        if self.is_printable() {
            let mut commands: Vec<AnsiCommand> = Vec::new();
            self.to_commands(&mut commands);
            Some(commands)
        } else {
            None
        }
    }
}

} // verus!
