//! Display width of a glyph, as the `unicode-width` crate reports it.

use unicode_width::UnicodeWidthChar;
use vstd::prelude::*;

verus! {

/// The C0 and C1 control characters: U+0000 to U+001F and U+007F to U+009F.
pub open spec fn is_control(c: char) -> bool {
    (c as u32) < 0x20 || 0x7F <= (c as u32) < 0xA0
}

/// A glyph table the animation can draw from: not empty, and free of
/// control characters.
pub open spec fn drawable(glyphs: Seq<char>) -> bool {
    &&& glyphs.len() > 0
    &&& forall|i: int| 0 <= i < glyphs.len() ==> !is_control(#[trigger] glyphs[i])
}

/// The number of terminal columns `c` occupies, or `None` when it has none,
/// as `unicode_width::UnicodeWidthChar::width` computes it from its tables.
pub uninterp spec fn display_width(c: char) -> Option<usize>;

/// The columns `c` takes up on screen; a character without a width takes none.
pub open spec fn glyph_columns(c: char) -> nat {
    match display_width(c) {
        Some(w) => w as nat,
        None => 0,
    }
}

/// `UnicodeWidthChar::width`. Beside naming the result, the contract records
/// two facts that the crate's lookup shows directly: exactly the control
/// characters have no width, and no character is wider than three columns.
#[verifier::external_body]
pub(crate) fn glyph_width(c: char) -> (w: Option<usize>)
    ensures
        w == display_width(c),
        w is None <==> is_control(c),
        w matches Some(n) ==> n <= 3,
{
    UnicodeWidthChar::width(c)
}

/// Whether `c` is a control character, which a terminal does not draw.
pub fn is_control_char(c: char) -> (b: bool)
    ensures
        b == is_control(c),
{
    let cp: u32 = c as u32;
    cp < 0x20 || (0x7F <= cp && cp < 0xA0)
}

} // verus!
