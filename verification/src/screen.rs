//! The cell buffer: a grid of coloured glyphs and one countdown per column.

use crate::charset_gen::lemma_glyph_tables_drawable;
use crate::choices::CharsetChoices;
use crate::color::{ColorPickerOption, GreenPicker, RainbowPicker};
use crate::width::{drawable, is_control};
use vstd::prelude::*;

verus! {

/// What a [`Screen`] holds, as mathematical values.
pub struct ScreenView {
    pub columns: nat,
    pub rows: nat,
    /// One glyph and colour index per cell, row after row.
    pub cells: Seq<(char, u8)>,
    /// One countdown per column; while it is positive the column spawns glyphs.
    pub columns_producing: Seq<i8>,
    pub color_picker: ColorPickerOption,
    pub character_sets: Seq<Seq<char>>,
}

/// The size to use when a terminal reports `size` as (columns, rows), or
/// reports nothing: 80 by 24 is the fallback.
pub open spec fn detected_size(size: Option<(u16, u16)>) -> (nat, nat) {
    match size {
        Some((w, h)) => (w as nat, h as nat),
        None => (80, 24),
    }
}

/// The rows the buffer uses of a terminal `height` rows tall: the last row
/// stays free so that writing never scrolls the terminal.
pub open spec fn usable_rows(height: nat) -> nat {
    if height > 1 {
        (height - 1) as nat
    } else {
        height
    }
}

impl ScreenView {
    /// The buffer of the given size in which every cell is a space of colour
    /// 255 and every countdown is zero.
    pub open spec fn blank(
        columns: nat,
        rows: nat,
        color_picker: ColorPickerOption,
        character_sets: Seq<Seq<char>>,
    ) -> ScreenView {
        ScreenView {
            columns,
            rows,
            cells: Seq::new(columns * rows, |i: int| (' ', 255u8)),
            columns_producing: Seq::new(columns, |i: int| 0i8),
            color_picker,
            character_sets,
        }
    }

    /// The invariant of every buffer: as many cells as the size says, one
    /// countdown per column, a size a terminal can report, and glyph tables
    /// that are neither empty nor hold control characters.
    pub open spec fn wf(self) -> bool {
        &&& self.columns <= 0xFFFF
        &&& self.rows <= 0xFFFF
        &&& self.cells.len() == self.columns * self.rows
        &&& self.columns_producing.len() == self.columns
        &&& forall|k: int|
            0 <= k < self.character_sets.len() ==> drawable(#[trigger] self.character_sets[k])
    }

    pub open spec fn in_bounds(self, x: int, y: int) -> bool {
        0 <= x < self.columns && 0 <= y < self.rows
    }

    /// The glyph in column `x` of row `y`.
    pub open spec fn glyph(self, x: int, y: int) -> char {
        self.cells[x + y * self.columns].0
    }

    /// The colour index in column `x` of row `y`.
    pub open spec fn color(self, x: int, y: int) -> u8 {
        self.cells[x + y * self.columns].1
    }

    /// The cell in column `x` of row `y`: its glyph and its colour index.
    pub open spec fn cell(self, x: int, y: int) -> (char, u8) {
        (self.glyph(x, y), self.color(x, y))
    }

    /// No cell holds a control character.
    pub open spec fn printable(self) -> bool {
        forall|x: int, y: int| self.in_bounds(x, y) ==> !is_control((#[trigger] self.cell(x, y)).0)
    }

    /// Whether the two buffers have the same size, colour mode and glyph tables.
    pub open spec fn same_setup(self, other: ScreenView) -> bool {
        &&& self.columns == other.columns
        &&& self.rows == other.rows
        &&& self.color_picker == other.color_picker
        &&& self.character_sets == other.character_sets
    }

    /// The buffer after a partial update of the cell at (`x`, `y`): a field
    /// given as `None` keeps the value the cell has.
    pub open spec fn with_cell(
        self,
        x: int,
        y: int,
        character: Option<char>,
        color: Option<u8>,
    ) -> ScreenView {
        let current = self.cell(x, y);
        let glyph = match character {
            Some(c) => c,
            None => current.0,
        };
        let tint = match color {
            Some(c) => c,
            None => current.1,
        };
        ScreenView { cells: self.cells.update(x + y * self.columns, (glyph, tint)), ..self }
    }

    /// The buffer after the countdown of column `x` is set to `count`.
    pub open spec fn with_producing(self, x: int, count: i8) -> ScreenView {
        ScreenView { columns_producing: self.columns_producing.update(x, count), ..self }
    }

    /// Whether some glyph table holds `glyph`.
    pub open spec fn has_glyph(self, glyph: char) -> bool {
        exists|k: int, j: int|
            0 <= k < self.character_sets.len() && 0 <= j < self.character_sets[k].len()
                && #[trigger] self.character_sets[k][j] == glyph
    }

    /// A cell inside the grid has its own place among the cells.
    pub proof fn lemma_cell_index(self, x: int, y: int)
        requires
            self.cells.len() == self.columns * self.rows,
            self.in_bounds(x, y),
        ensures
            0 <= x + y * self.columns < self.cells.len(),
            0 <= y * self.columns <= self.cells.len(),
    {
        let c = self.columns as int;
        let r = self.rows as int;
        assert(0 <= y * c && y * c + c <= r * c) by (nonlinear_arith)
            requires
                0 <= y < r,
                0 <= c,
        ;
        assert(self.columns * self.rows == r * c) by (nonlinear_arith)
            requires
                c == self.columns,
                r == self.rows,
        ;
    }

    /// Two different cells of the grid never share a place.
    pub proof fn lemma_cell_index_distinct(self, x: int, y: int, x2: int, y2: int)
        requires
            self.in_bounds(x, y),
            self.in_bounds(x2, y2),
            x != x2 || y != y2,
        ensures
            x + y * self.columns != x2 + y2 * self.columns,
    {
        let c = self.columns as int;
        if y < y2 {
            assert(y * c + c <= y2 * c) by (nonlinear_arith)
                requires
                    y < y2,
                    0 <= c,
            ;
        } else if y2 < y {
            assert(y2 * c + c <= y * c) by (nonlinear_arith)
                requires
                    y2 < y,
                    0 <= c,
            ;
        }
    }

    /// A partial update changes the one cell it names and nothing else.
    pub proof fn lemma_with_cell(self, x: int, y: int, character: Option<char>, color: Option<u8>)
        requires
            self.wf(),
            self.in_bounds(x, y),
        ensures
            self.with_cell(x, y, character, color).wf(),
            self.with_cell(x, y, character, color).same_setup(self),
            self.with_cell(x, y, character, color).columns_producing == self.columns_producing,
            self.with_cell(x, y, character, color).cell(x, y).0 == (match character {
                Some(c) => c,
                None => self.cell(x, y).0,
            }),
            self.with_cell(x, y, character, color).cell(x, y).1 == (match color {
                Some(c) => c,
                None => self.cell(x, y).1,
            }),
            forall|x2: int, y2: int|
                self.in_bounds(x2, y2) && (x2 != x || y2 != y) ==> #[trigger] self.with_cell(
                    x,
                    y,
                    character,
                    color,
                ).cell(x2, y2) == self.cell(x2, y2),
    {
        self.lemma_cell_index(x, y);
        assert forall|x2: int, y2: int|
            self.in_bounds(x2, y2) && (x2 != x || y2 != y) implies #[trigger] self.with_cell(
            x,
            y,
            character,
            color,
        ).cell(x2, y2) == self.cell(x2, y2) by {
            self.lemma_cell_index(x2, y2);
            self.lemma_cell_index_distinct(x, y, x2, y2);
        }
    }

    /// Preserve-if-absent: an update that gives neither field changes
    /// nothing, and an update that gives one field leaves the other as it was.
    pub proof fn lemma_preserve_if_absent(self, x: int, y: int, character: char, color: u8)
        requires
            self.wf(),
            self.in_bounds(x, y),
        ensures
            self.with_cell(x, y, None, None) == self,
            self.with_cell(x, y, Some(character), None).cell(x, y) == (character, self.cell(x, y).1),
            self.with_cell(x, y, None, Some(color)).cell(x, y) == (self.cell(x, y).0, color),
            self.with_cell(x, y, Some(character), Some(color)).cell(x, y) == (character, color),
    {
        self.lemma_cell_index(x, y);
        assert(self.with_cell(x, y, None, None).cells =~= self.cells);
    }
}

/// The animation's state: `columns * rows` cells and one countdown per column.
pub struct Screen {
    columns: usize,
    rows: usize,
    cells: Vec<(char, u8)>,
    columns_producing: Vec<i8>,
    color_picker: ColorPickerOption,
    character_sets: Vec<Vec<char>>,
}

impl View for Screen {
    type V = ScreenView;

    closed spec fn view(&self) -> ScreenView {
        ScreenView {
            columns: self.columns as nat,
            rows: self.rows as nat,
            cells: self.cells@,
            columns_producing: self.columns_producing@,
            color_picker: self.color_picker,
            character_sets: self.character_sets.deep_view(),
        }
    }
}

impl Screen {
    /// A blank buffer for a terminal that reports `size` as (columns, rows);
    /// without a report the size is 80 by 24. Of more than one row the last
    /// is left out.
    pub fn new(
        color_pick: ColorPickerOption,
        charsets: CharsetChoices,
        size: Option<(u16, u16)>,
    ) -> (screen: Screen)
        ensures
            screen@.wf(),
            screen@ == ScreenView::blank(
                detected_size(size).0,
                usable_rows(detected_size(size).1),
                color_pick,
                charsets.glyph_sets(),
            ),
            forall|x: int, y: int|
                screen@.in_bounds(x, y) ==> #[trigger] screen@.cell(x, y) == (' ', 255u8),
            size matches Some((w, h)) ==> if h > 1 {
                screen@.cells.len() == w * (h - 1)
            } else {
                screen@.rows == h
            },
    {
        let (columns, height): (usize, usize) = match size {
            Some((w, h)) => (w as usize, h as usize),
            None => (80, 24),
        };
        let rows: usize = if height > 1 {
            height - 1
        } else {
            height
        };
        assert(columns * rows <= 0xFFFF * 0xFFFF) by (nonlinear_arith)
            requires
                columns <= 0xFFFF,
                rows <= 0xFFFF,
        ;
        let total: usize = columns * rows;
        let mut columns_producing: Vec<i8> = Vec::new();
        while columns_producing.len() < columns
            invariant
                columns_producing.len() <= columns,
                forall|i: int| 0 <= i < columns_producing.len() ==> columns_producing[i] == 0i8,
            decreases columns - columns_producing.len(),
        {
            columns_producing.push(0);
        }
        let mut cells: Vec<(char, u8)> = Vec::new();
        while cells.len() < total
            invariant
                cells.len() <= total,
                forall|i: int| 0 <= i < cells.len() ==> cells[i] == (' ', 255u8),
            decreases total - cells.len(),
        {
            cells.push((' ', 255));
        }
        let character_sets = charsets.to_char_vecs();
        let screen = Screen {
            columns,
            rows,
            cells,
            columns_producing,
            color_picker: color_pick,
            character_sets,
        };
        proof {
            lemma_glyph_tables_drawable();
            let blank = ScreenView::blank(
                detected_size(size).0,
                usable_rows(detected_size(size).1),
                color_pick,
                charsets.glyph_sets(),
            );
            assert(screen@.cells =~= blank.cells);
            assert(screen@.columns_producing =~= blank.columns_producing);
            assert forall|x: int, y: int| screen@.in_bounds(x, y) implies #[trigger] screen@.cell(
                x,
                y,
            ) == (' ', 255u8) by {
                screen@.lemma_cell_index(x, y);
            }
        }
        screen
    }

    /// The number of columns.
    pub fn columns(&self) -> (n: usize)
        ensures
            n == self@.columns,
    {
        self.columns
    }

    /// The number of rows.
    pub fn rows(&self) -> (n: usize)
        ensures
            n == self@.rows,
    {
        self.rows
    }

    /// The colour mode.
    pub fn color_picker(&self) -> (mode: ColorPickerOption)
        ensures
            mode == self@.color_picker,
    {
        self.color_picker
    }

    /// The glyph tables new glyphs are drawn from.
    pub fn character_sets(&self) -> (sets: &Vec<Vec<char>>)
        ensures
            sets.deep_view() == self@.character_sets,
    {
        &self.character_sets
    }

    /// The glyph and colour of the cell in column `x` of row `y`.
    pub fn get_cell(&self, x: usize, y: usize) -> (cell: (char, u8))
        requires
            self@.wf(),
            self@.in_bounds(x as int, y as int),
        ensures
            cell == self@.cell(x as int, y as int),
    {
        proof {
            self@.lemma_cell_index(x as int, y as int);
            assert(0 <= y * self.columns <= self.cells.len());
        }
        self.cells[x + y * self.columns]
    }

    /// Updates the cell in column `x` of row `y`; a field given as `None`
    /// keeps the value the cell has.
    pub fn set_cell(&mut self, x: usize, y: usize, c: Option<char>, color: Option<u8>)
        requires
            old(self)@.wf(),
            old(self)@.in_bounds(x as int, y as int),
        ensures
            final(self)@ == old(self)@.with_cell(x as int, y as int, c, color),
            final(self)@.wf(),
            c is None && color is None ==> final(self)@ == old(self)@,
    {
        proof {
            self@.lemma_cell_index(x as int, y as int);
            self@.lemma_with_cell(x as int, y as int, c, color);
            self@.lemma_preserve_if_absent(x as int, y as int, ' ', 0);
            assert(0 <= y * self.columns <= self.cells.len());
        }
        let current = self.get_cell(x, y);
        let glyph = match c {
            Some(given) => given,
            None => current.0,
        };
        let tint = match color {
            Some(given) => given,
            None => current.1,
        };
        self.cells.set(x + y * self.columns, (glyph, tint));
    }

    /// The countdown of column `x`.
    pub fn producing(&self, x: usize) -> (count: i8)
        requires
            self@.wf(),
            x < self@.columns,
        ensures
            count == self@.columns_producing[x as int],
    {
        self.columns_producing[x]
    }

    /// Sets the countdown of column `x`.
    pub fn set_producing(&mut self, x: usize, count: i8)
        requires
            old(self)@.wf(),
            x < old(self)@.columns,
        ensures
            final(self)@ == old(self)@.with_producing(x as int, count),
            final(self)@.wf(),
    {
        self.columns_producing.set(x, count);
    }

    /// Draws a colour in this buffer's colour mode.
    pub fn dispatch(&self) -> (color: u8)
        ensures
            self@.color_picker.allows(color),
    {
        match self.color_picker {
            ColorPickerOption::Greens => GreenPicker::get_color(),
            ColorPickerOption::Any => RainbowPicker::get_color(),
        }
    }
}

} // verus!
