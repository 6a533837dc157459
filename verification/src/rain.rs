//! One frame of the animation: glyphs fall by a row, the top row spawns new
//! ones, and idle columns wake up again.

use crate::random::{choose_one, random_bool, random_in_range};
use crate::screen::{Screen, ScreenView};
use crate::width::{display_width, drawable, glyph_width, is_control};
use vstd::prelude::*;

verus! {

/// Whether a draw from `0..15` lets a falling glyph take its colour along:
/// one draw in fifteen does.
pub open spec fn carries_color(draw: int) -> bool {
    draw > 13
}

/// The cells to leave blank after a glyph of the given width: one less than
/// the columns it covers.
pub open spec fn skip_after(width: Option<usize>) -> nat {
    match width {
        Some(w) => if w > 1 {
            (w - 1) as nat
        } else {
            0
        },
        None => 0,
    }
}

impl ScreenView {
    /// The countdown below which a column may wake up: minus half the rows.
    pub open spec fn threshold(self) -> int {
        -(self.rows as int / 2)
    }

    /// Whether a frame can be computed: the rows leave room for the range a
    /// restarted countdown is drawn from and that range fits a countdown, no
    /// countdown is at the end of its range, and there is a glyph table.
    pub open spec fn can_tick(self) -> bool {
        &&& 5 < self.rows <= 128
        &&& self.character_sets.len() > 0
        &&& forall|x: int| 0 <= x < self.columns ==> #[trigger] self.columns_producing[x] > i8::MIN
    }

    /// `self` is `before` after the glyphs fell by one row: below the top
    /// row every cell holds the glyph that stood above it, coloured as the
    /// cell was or as that glyph was; the top row and the countdowns stay.
    pub open spec fn scrolled_from(self, before: ScreenView) -> bool {
        &&& self.same_setup(before)
        &&& self.columns_producing == before.columns_producing
        &&& forall|x: int| self.in_bounds(x, 0) ==> #[trigger] self.cell(x, 0) == before.cell(x, 0)
        &&& forall|x: int, y: int|
            0 <= x < self.columns && 1 <= y < self.rows ==> {
                let now = #[trigger] self.cell(x, y);
                &&& now.0 == before.cell(x, y - 1).0
                &&& (now.1 == before.cell(x, y).1 || now.1 == before.cell(x, y - 1).1)
            }
    }

    /// The cells still to be left blank when the top row, filled from the
    /// left, reaches column `x`: what the last glyph spawned before `x`
    /// covers beyond its own cell, less the cells passed since.
    pub open spec fn pending_skip(self, counters: Seq<i8>, x: int) -> nat
        decreases x,
    {
        if x <= 0 {
            0
        } else {
            let pending = self.pending_skip(counters, x - 1);
            if pending > 0 {
                (pending - 1) as nat
            } else if counters[x - 1] > 0 {
                skip_after(display_width(self.cell(x - 1, 0).0))
            } else {
                0
            }
        }
    }

    /// Whether the top cell of column `x` is what the spawning step makes of
    /// `before`: a space of unchanged colour where a wide glyph to the left
    /// covers the cell or the column is idle; else a glyph of some table,
    /// in the cell's old colour or a colour of the buffer's colour mode.
    pub open spec fn top_cell_produced(self, before: ScreenView, x: int) -> bool {
        let now = self.cell(x, 0);
        if self.pending_skip(before.columns_producing, x) > 0 || before.columns_producing[x] <= 0 {
            now == (' ', before.cell(x, 0).1)
        } else {
            &&& before.has_glyph(now.0)
            &&& (now.1 == before.cell(x, 0).1 || before.color_picker.allows(now.1))
        }
    }

    /// `self` is `before` after the spawning step: every countdown is one
    /// less, the top row is produced, and all other rows stay.
    pub open spec fn produced_from(self, before: ScreenView) -> bool {
        &&& self.same_setup(before)
        &&& self.columns_producing.len() == before.columns_producing.len()
        &&& forall|x: int|
            0 <= x < self.columns ==> #[trigger] self.columns_producing[x]
                == before.columns_producing[x] - 1
        &&& forall|x: int| 0 <= x < self.columns ==> #[trigger] self.top_cell_produced(before, x)
        &&& forall|x: int, y: int|
            0 <= x < self.columns && 1 <= y < self.rows ==> #[trigger] self.cell(x, y)
                == before.cell(x, y)
    }

    /// `self` is `before` after idle columns had their chance to wake up: a
    /// countdown either stays, or it was below the threshold and is now in
    /// `5..rows`. The cells stay.
    pub open spec fn reactivated_from(self, before: ScreenView) -> bool {
        &&& self.same_setup(before)
        &&& self.cells == before.cells
        &&& self.columns_producing.len() == before.columns_producing.len()
        &&& forall|x: int|
            0 <= x < self.columns ==> {
                let now = #[trigger] self.columns_producing[x];
                let was = before.columns_producing[x];
                now == was || (was < before.threshold() && 5 <= now < self.rows)
            }
    }

    /// `self` is `before` one frame later: scrolled, then produced, then
    /// reactivated.
    pub open spec fn ticked_from(self, before: ScreenView) -> bool {
        exists|scrolled: ScreenView, produced: ScreenView|
            #![trigger scrolled.scrolled_from(before), produced.produced_from(scrolled)]
            {
                &&& scrolled.wf()
                &&& produced.wf()
                &&& scrolled.scrolled_from(before)
                &&& produced.produced_from(scrolled)
                &&& self.reactivated_from(produced)
            }
    }

    /// Over a whole frame every glyph below the top row is the one that
    /// stood above it before the frame.
    pub proof fn lemma_tick_moves_glyphs_down(self, before: ScreenView, x: int, y: int)
        requires
            self.ticked_from(before),
            0 <= x < before.columns,
            1 <= y < before.rows,
        ensures
            self.glyph(x, y) == before.glyph(x, y - 1),
    {
        let (scrolled, produced) = choose|scrolled: ScreenView, produced: ScreenView|
            #![trigger scrolled.scrolled_from(before), produced.produced_from(scrolled)]
            {
                &&& scrolled.wf()
                &&& produced.wf()
                &&& scrolled.scrolled_from(before)
                &&& produced.produced_from(scrolled)
                &&& self.reactivated_from(produced)
            };
        assert(produced.cell(x, y) == scrolled.cell(x, y));
    }

    /// Over a whole frame every countdown drops by exactly one, unless the
    /// drop took it below the threshold and the column restarted in `5..rows`.
    pub proof fn lemma_tick_counts_down(self, before: ScreenView, x: int)
        requires
            self.ticked_from(before),
            0 <= x < before.columns,
        ensures
            self.columns_producing[x] == before.columns_producing[x] - 1 || (
            before.columns_producing[x] - 1 < before.threshold() && 5 <= self.columns_producing[x]
                < before.rows),
    {
        let (scrolled, produced) = choose|scrolled: ScreenView, produced: ScreenView|
            #![trigger scrolled.scrolled_from(before), produced.produced_from(scrolled)]
            {
                &&& scrolled.wf()
                &&& produced.wf()
                &&& scrolled.scrolled_from(before)
                &&& produced.produced_from(scrolled)
                &&& self.reactivated_from(produced)
            };
        let now = self.columns_producing[x];
        assert(now == produced.columns_producing[x] || (produced.columns_producing[x]
            < produced.threshold() && 5 <= now < self.rows));
    }

    /// The cells that `pending_skip` reads lie left of the column it is asked
    /// about: buffers that agree there agree on it.
    pub proof fn lemma_pending_skip_reads_left(self, other: ScreenView, counters: Seq<i8>, x: int)
        requires
            forall|j: int| 0 <= j < x ==> #[trigger] self.cell(j, 0) == other.cell(j, 0),
        ensures
            self.pending_skip(counters, x) == other.pending_skip(counters, x),
        decreases x,
    {
        if x > 0 {
            self.lemma_pending_skip_reads_left(other, counters, x - 1);
        }
    }
}

/// The cells to leave blank after a glyph of the given width.
pub fn skip_for(width: Option<usize>) -> (skip: usize)
    ensures
        skip == skip_after(width),
{
    match width {
        Some(w) => if w > 1 {
            w - 1
        } else {
            0
        },
        None => 0,
    }
}

impl Screen {
    /// Whether [`Screen::tick`] can be called.
    pub fn ready(&self) -> (b: bool)
        requires
            self@.wf(),
        ensures
            b == self@.can_tick(),
    {
        if self.rows() <= 5 || self.rows() > 128 || self.character_sets().len() == 0 {
            return false;
        }
        let mut x: usize = 0;
        while x < self.columns()
            invariant
                self@.wf(),
                x <= self@.columns,
                forall|j: int| 0 <= j < x ==> #[trigger] self@.columns_producing[j] > i8::MIN,
            decreases self@.columns - x,
        {
            if self.producing(x) == i8::MIN {
                return false;
            }
            x = x + 1;
        }
        true
    }

    /// Lets the glyph above (`x`, `y`) fall into that cell. The glyph always
    /// moves; its colour comes along only if the draw `draw` from `0..15`
    /// says so, else the cell keeps its colour.
    pub fn scroll_cell(&mut self, x: usize, y: usize, draw: i32)
        requires
            old(self)@.wf(),
            x < old(self)@.columns,
            1 <= y < old(self)@.rows,
        ensures
            final(self)@.wf(),
            final(self)@ == old(self)@.with_cell(
                x as int,
                y as int,
                Some(old(self)@.cell(x as int, y - 1).0),
                if carries_color(draw as int) {
                    Some(old(self)@.cell(x as int, y - 1).1)
                } else {
                    None
                },
            ),
    {
        let (character, color) = self.get_cell(x, y - 1);
        let color = if draw > 13 {
            Some(color)
        } else {
            None
        };
        self.set_cell(x, y, Some(character), color);
    }

    /// The first phase of a frame: from the bottom row up, every glyph falls
    /// by one row.
    pub fn scroll(&mut self)
        requires
            old(self)@.wf(),
        ensures
            final(self)@.wf(),
            final(self)@.scrolled_from(old(self)@),
            old(self)@.printable() ==> final(self)@.printable(),
    {
        let ghost before = self@;
        let columns: usize = self.columns();
        let mut y: usize = self.rows();
        while y > 1
            invariant
                self@.wf(),
                self@.same_setup(before),
                self@.columns_producing == before.columns_producing,
                columns == before.columns,
                y <= before.rows,
                before.rows >= 1 ==> y >= 1,
                forall|x2: int, y2: int|
                    0 <= x2 < before.columns && 0 <= y2 < y ==> #[trigger] self@.cell(x2, y2)
                        == before.cell(x2, y2),
                forall|x2: int, y2: int|
                    0 <= x2 < before.columns && y <= y2 < before.rows && 1 <= y2 ==> {
                        let now = #[trigger] self@.cell(x2, y2);
                        &&& now.0 == before.cell(x2, y2 - 1).0
                        &&& (now.1 == before.cell(x2, y2).1 || now.1 == before.cell(x2, y2 - 1).1)
                    },
            decreases y,
        {
            y = y - 1;
            let mut x: usize = 0;
            while x < columns
                invariant
                    self@.wf(),
                    self@.same_setup(before),
                    self@.columns_producing == before.columns_producing,
                    columns == before.columns,
                    1 <= y < before.rows,
                    x <= columns,
                    forall|x2: int, y2: int|
                        0 <= x2 < before.columns && 0 <= y2 < y ==> #[trigger] self@.cell(x2, y2)
                            == before.cell(x2, y2),
                    forall|x2: int|
                        x <= x2 < before.columns ==> #[trigger] self@.cell(x2, y as int)
                            == before.cell(x2, y as int),
                    forall|x2: int, y2: int|
                        0 <= x2 < before.columns && y <= y2 < before.rows && (y2 > y || x2 < x)
                            ==> {
                            let now = #[trigger] self@.cell(x2, y2);
                            &&& now.0 == before.cell(x2, y2 - 1).0
                            &&& (now.1 == before.cell(x2, y2).1 || now.1 == before.cell(
                                x2,
                                y2 - 1,
                            ).1)
                        },
                decreases columns - x,
            {
                let draw = random_in_range(0, 15);
                proof {
                    self@.lemma_with_cell(
                        x as int,
                        y as int,
                        Some(self@.cell(x as int, y - 1).0),
                        if carries_color(draw as int) {
                            Some(self@.cell(x as int, y - 1).1)
                        } else {
                            None
                        },
                    );
                }
                self.scroll_cell(x, y, draw);
                x = x + 1;
            }
        }
    }

    /// A glyph drawn from one of the glyph tables: first a table, then a
    /// glyph of it.
    pub fn random_glyph(&self) -> (glyph: char)
        requires
            self@.wf(),
            self@.character_sets.len() > 0,
        ensures
            self@.has_glyph(glyph),
            !is_control(glyph),
    {
        let sets = self.character_sets();
        let set = choose_one(sets).unwrap();
        let ghost k = choose|k: int| 0 <= k < sets@.len() && sets@[k] == *set;
        proof {
            assert(drawable(self@.character_sets[k]));
        }
        let glyph = *choose_one(set).unwrap();
        proof {
            let j = choose|j: int| 0 <= j < set@.len() && set@[j] == glyph;
            assert(self@.character_sets[k][j] == glyph);
        }
        glyph
    }

    /// Blanks the top cell of column `x`, keeping its colour, and counts the
    /// column down by one.
    pub fn put_blank(&mut self, x: usize)
        requires
            old(self)@.wf(),
            old(self)@.in_bounds(x as int, 0),
            old(self)@.columns_producing[x as int] > i8::MIN,
        ensures
            final(self)@.wf(),
            final(self)@ == old(self)@.with_cell(x as int, 0, Some(' '), None).with_producing(
                x as int,
                (old(self)@.columns_producing[x as int] - 1) as i8,
            ),
    {
        self.set_cell(x, 0, Some(' '), None);
        let count = self.producing(x);
        self.set_producing(x, count - 1);
    }

    /// Puts `glyph` into the top cell of column `x`, in the colour `color` or
    /// else in the colour the cell has, and counts the column down by one.
    pub fn put_glyph(&mut self, x: usize, glyph: char, color: Option<u8>)
        requires
            old(self)@.wf(),
            old(self)@.in_bounds(x as int, 0),
            old(self)@.columns_producing[x as int] > i8::MIN,
        ensures
            final(self)@.wf(),
            final(self)@ == old(self)@.with_cell(x as int, 0, Some(glyph), color).with_producing(
                x as int,
                (old(self)@.columns_producing[x as int] - 1) as i8,
            ),
    {
        self.set_cell(x, 0, Some(glyph), color);
        let count = self.producing(x);
        self.set_producing(x, count - 1);
    }

    /// The second phase of a frame: the top row, filled from the left. A
    /// column whose countdown is positive gets a fresh glyph, and with one
    /// chance in two a fresh colour; the cells a wide glyph covers to its
    /// right, and idle columns, are blanked. Every countdown drops by one.
    pub fn produce(&mut self)
        requires
            old(self)@.wf(),
            old(self)@.rows >= 1,
            old(self)@.character_sets.len() > 0,
            forall|x: int|
                0 <= x < old(self)@.columns ==> #[trigger] old(self)@.columns_producing[x]
                    > i8::MIN,
        ensures
            final(self)@.wf(),
            final(self)@.produced_from(old(self)@),
            old(self)@.printable() ==> final(self)@.printable(),
    {
        let ghost before = self@;
        let columns: usize = self.columns();
        let mut skip_next: usize = 0;
        let mut x: usize = 0;
        while x < columns
            invariant
                self@.wf(),
                self@.same_setup(before),
                before.wf(),
                before.rows >= 1,
                before.character_sets.len() > 0,
                columns == before.columns,
                x <= columns,
                skip_next == self@.pending_skip(before.columns_producing, x as int),
                forall|j: int|
                    0 <= j < x ==> #[trigger] self@.columns_producing[j]
                        == before.columns_producing[j] - 1,
                forall|j: int|
                    x <= j < columns ==> #[trigger] self@.columns_producing[j]
                        == before.columns_producing[j],
                forall|j: int| 0 <= j < columns ==> #[trigger] before.columns_producing[j] > i8::MIN,
                forall|j: int| 0 <= j < x ==> #[trigger] self@.top_cell_produced(before, j),
                forall|j: int| x <= j < columns ==> #[trigger] self@.cell(j, 0) == before.cell(j, 0),
                forall|x2: int, y2: int|
                    0 <= x2 < columns && 1 <= y2 < before.rows ==> #[trigger] self@.cell(x2, y2)
                        == before.cell(x2, y2),
                before.printable() ==> self@.printable(),
            decreases columns - x,
        {
            let ghost current = self@;
            let ghost shown: Option<char>;
            let ghost tint: Option<u8>;
            if skip_next > 0 {
                proof {
                    shown = Some(' ');
                    tint = None;
                }
                self.put_blank(x);
                skip_next = skip_next - 1;
            } else if self.producing(x) > 0 {
                let color = if random_bool() {
                    Some(self.dispatch())
                } else {
                    None
                };
                let glyph = self.random_glyph();
                proof {
                    shown = Some(glyph);
                    tint = color;
                }
                self.put_glyph(x, glyph, color);
                skip_next = skip_for(glyph_width(glyph));
            } else {
                proof {
                    shown = Some(' ');
                    tint = None;
                }
                self.put_blank(x);
            }
            proof {
                let counters = before.columns_producing;
                current.lemma_with_cell(x as int, 0, shown, tint);
                assert forall|x2: int, y2: int| current.in_bounds(x2, y2) implies #[trigger] self@.cell(
                    x2,
                    y2,
                ) == current.with_cell(x as int, 0, shown, tint).cell(x2, y2) by {}
                assert forall|j: int| 0 <= j <= x implies self@.pending_skip(counters, j)
                    == current.pending_skip(counters, j) by {
                    self@.lemma_pending_skip_reads_left(current, counters, j);
                }
                assert forall|j: int| 0 <= j < x + 1 implies #[trigger] self@.top_cell_produced(
                    before,
                    j,
                ) by {
                    if j < x {
                        assert(current.top_cell_produced(before, j));
                    }
                }
            }
            x = x + 1;
        }
    }

    /// Whether column `x` has been idle long enough to restart: its
    /// countdown is below minus half the rows.
    pub fn may_restart(&self, x: usize) -> (b: bool)
        requires
            self@.wf(),
            x < self@.columns,
        ensures
            b == (self@.columns_producing[x as int] < self@.threshold()),
    {
        let half: i32 = (self.rows() / 2) as i32;
        (self.producing(x) as i32) < -half
    }

    /// The third phase of a frame: every column whose countdown is below the
    /// threshold restarts, with one chance in two, at a count drawn from
    /// `5..rows`.
    pub fn reset_producing(&mut self)
        requires
            old(self)@.wf(),
            5 < old(self)@.rows <= 128,
        ensures
            final(self)@.wf(),
            final(self)@.reactivated_from(old(self)@),
    {
        let ghost before = self@;
        let columns: usize = self.columns();
        let rows: i32 = self.rows() as i32;
        let mut x: usize = 0;
        while x < columns
            invariant
                self@.wf(),
                self@.same_setup(before),
                self@.cells == before.cells,
                columns == before.columns,
                rows == before.rows,
                5 < rows <= 128,
                x <= columns,
                self@.columns_producing.len() == before.columns_producing.len(),
                forall|j: int|
                    0 <= j < x ==> {
                        let now = #[trigger] self@.columns_producing[j];
                        let was = before.columns_producing[j];
                        now == was || (was < before.threshold() && 5 <= now < rows)
                    },
                forall|j: int|
                    x <= j < columns ==> #[trigger] self@.columns_producing[j]
                        == before.columns_producing[j],
            decreases columns - x,
        {
            if self.may_restart(x) && random_bool() {
                let fresh = random_in_range(5, rows);
                self.set_producing(x, fresh as i8);
            }
            x = x + 1;
        }
    }

    /// Advances the animation by one frame: scroll, produce, reactivate.
    pub fn tick(&mut self)
        requires
            old(self)@.wf(),
            old(self)@.can_tick(),
        ensures
            final(self)@.wf(),
            final(self)@.same_setup(old(self)@),
            final(self)@.ticked_from(old(self)@),
            old(self)@.printable() ==> final(self)@.printable(),
    {
        self.scroll();
        self.produce();
        let ghost produced = self@;
        self.reset_producing();
        proof {
            assert forall|x: int, y: int| self@.in_bounds(x, y) implies #[trigger] self@.cell(x, y)
                == produced.cell(x, y) by {}
        }
    }
}

} // verus!
