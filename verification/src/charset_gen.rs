//! Glyph tables: fixed runs of Unicode code points, in code-point order.

use crate::width::drawable;
use vstd::prelude::*;

verus! {

/// Whether `cp` is a Unicode scalar value, that is, a code point a `char` can hold.
pub open spec fn is_scalar_value(cp: int) -> bool {
    0 <= cp <= 0xD7FF || 0xE000 <= cp <= 0x10FFFF
}

/// The `count` consecutive characters that start at code point `first`.
pub open spec fn code_point_run(first: int, count: nat) -> Seq<char> {
    Seq::new(count, |i: int| (first + i) as char)
}

/// The ASCII digits, upper-case letters and lower-case letters, in that order.
pub open spec fn ascii_glyphs() -> Seq<char> {
    code_point_run(0x30, 10) + code_point_run(0x41, 26) + code_point_run(0x61, 26)
}

/// The assigned code points of the Hiragana block: U+3041 to U+3096 and U+3099 to U+309F.
pub open spec fn hiragana_glyphs() -> Seq<char> {
    code_point_run(0x3041, 86) + code_point_run(0x3099, 7)
}

/// The CJK Unified Ideographs block, U+4E00 to U+9FFF.
pub open spec fn cjk_glyphs() -> Seq<char> {
    code_point_run(0x4E00, 0x5200)
}

/// Whether `c` is an ASCII digit or letter.
pub open spec fn is_ascii_alphanumeric(c: char) -> bool {
    '0' <= c <= '9' || 'A' <= c <= 'Z' || 'a' <= c <= 'z'
}

/// The ASCII table holds the ASCII digits and letters and nothing else.
pub proof fn lemma_ascii_glyphs_alphanumeric(c: char)
    ensures
        ascii_glyphs().contains(c) <==> is_ascii_alphanumeric(c),
{
    let table = ascii_glyphs();
    if is_ascii_alphanumeric(c) {
        let cp = c as int;
        let i = if cp <= 0x39 {
            cp - 0x30
        } else if cp <= 0x5A {
            cp - 0x41 + 10
        } else {
            cp - 0x61 + 36
        };
        assert(table[i] == c);
    }
}

/// Each of the three tables is non-empty and free of control characters.
pub proof fn lemma_glyph_tables_drawable()
    ensures
        drawable(ascii_glyphs()),
        drawable(hiragana_glyphs()),
        drawable(cjk_glyphs()),
{
}

/// `char::from_u32`: the character with code point `cp`, or `None` when `cp`
/// is a surrogate or lies above U+10FFFF.
#[verifier::external_body]
fn char_from_u32(cp: u32) -> (c: Option<char>)
    ensures
        is_scalar_value(cp as int) ==> c == Some(cp as char),
        !is_scalar_value(cp as int) ==> c is None,
{
    char::from_u32(cp)
}

/// Appends to `glyphs` the characters with code points `first ..= last`.
fn push_run(glyphs: &mut Vec<char>, first: u32, last: u32)
    requires
        first <= last,
        last < 0xD800,
    ensures
        final(glyphs)@ == old(glyphs)@ + code_point_run(first as int, (last - first + 1) as nat),
{
    let mut cp: u32 = first;
    while cp <= last
        invariant
            first <= cp <= last + 1,
            last < 0xD800,
            glyphs@ == old(glyphs)@ + code_point_run(first as int, (cp - first) as nat),
        decreases last + 1 - cp,
    {
        match char_from_u32(cp) {
            Some(c) => {
                glyphs.push(c);
            },
            None => {},
        }
        cp = cp + 1;
    }
}

/// The ASCII alphanumerics: `0`-`9`, `A`-`Z`, `a`-`z`.
pub fn ascii_chars() -> (glyphs: Vec<char>)
    ensures
        glyphs@ == ascii_glyphs(),
{
    let mut glyphs: Vec<char> = Vec::new();
    push_run(&mut glyphs, 0x30, 0x39);
    push_run(&mut glyphs, 0x41, 0x5A);
    push_run(&mut glyphs, 0x61, 0x7A);
    glyphs
}

/// The Hiragana block without its unassigned code points U+3040, U+3097 and U+3098.
pub fn hiragana_chars() -> (glyphs: Vec<char>)
    ensures
        glyphs@ == hiragana_glyphs(),
{
    let mut glyphs: Vec<char> = Vec::new();
    push_run(&mut glyphs, 0x3041, 0x3096);
    push_run(&mut glyphs, 0x3099, 0x309F);
    glyphs
}

/// The CJK Unified Ideographs block.
pub fn cjk_chars() -> (glyphs: Vec<char>)
    ensures
        glyphs@ == cjk_glyphs(),
{
    let mut glyphs: Vec<char> = Vec::new();
    push_run(&mut glyphs, 0x4E00, 0x9FFF);
    glyphs
}

} // verus!
