//! Which glyph tables are switched on.

use crate::charset_gen::{
    ascii_chars, ascii_glyphs, cjk_chars, cjk_glyphs, hiragana_chars, hiragana_glyphs,
};
use crate::text::{ends_with, starts_with};
use vstd::prelude::*;

verus! {

/// One switch for each glyph table.
#[derive(Clone, Copy, Debug, PartialEq, Eq)]
pub struct CharsetChoices {
    pub ascii: bool,
    pub hiragana: bool,
    pub cjk: bool,
}

impl Default for CharsetChoices {
    /// Every table switched off.
    fn default() -> (choices: CharsetChoices)
        ensures
            choices == (CharsetChoices { ascii: false, hiragana: false, cjk: false }),
    {
        CharsetChoices { ascii: false, hiragana: false, cjk: false }
    }
}

impl CharsetChoices {
    /// The choices after the argument `arg` of a charset option: a name that
    /// ends in `ascii`, `hiragana` or `cjk` switches that table on, or off when
    /// the argument begins with `-`; any other argument changes nothing.
    pub open spec fn after_arg(self, arg: Seq<char>) -> CharsetChoices {
        let to_set = !"-"@.is_prefix_of(arg);
        if "ascii"@.is_suffix_of(arg) {
            CharsetChoices { ascii: to_set, ..self }
        } else if "hiragana"@.is_suffix_of(arg) {
            CharsetChoices { hiragana: to_set, ..self }
        } else if "cjk"@.is_suffix_of(arg) {
            CharsetChoices { cjk: to_set, ..self }
        } else {
            self
        }
    }

    /// The enabled tables, in the order ASCII, Hiragana, CJK.
    pub open spec fn glyph_sets(self) -> Seq<Seq<char>> {
        (if self.ascii {
            seq![ascii_glyphs()]
        } else {
            Seq::empty()
        }) + (if self.hiragana {
            seq![hiragana_glyphs()]
        } else {
            Seq::empty()
        }) + (if self.cjk {
            seq![cjk_glyphs()]
        } else {
            Seq::empty()
        })
    }

    /// Applies the argument of one charset option.
    pub fn read_from_arg(&mut self, arg: &str)
        ensures
            *final(self) == old(self).after_arg(arg@),
    {
        let to_set = !starts_with(arg, "-");
        if ends_with(arg, "ascii") {
            self.ascii = to_set;
        } else if ends_with(arg, "hiragana") {
            self.hiragana = to_set;
        } else if ends_with(arg, "cjk") {
            self.cjk = to_set;
        }
    }

    /// Builds the enabled tables.
    pub fn to_char_vecs(&self) -> (sets: Vec<Vec<char>>)
        ensures
            sets.deep_view() == self.glyph_sets(),
    {
        let mut sets: Vec<Vec<char>> = Vec::new();
        if self.ascii {
            sets.push(ascii_chars());
        }
        if self.hiragana {
            sets.push(hiragana_chars());
        }
        if self.cjk {
            sets.push(cjk_chars());
        }
        assert(sets.deep_view() =~~= self.glyph_sets());
        sets
    }
}

} // verus!
