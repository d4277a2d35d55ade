//! The bundled fixed-cell 5×7 bitmap font used to rasterize HD2020 realtime
//! text, covering printable ASCII. Each glyph is `CELL_HEIGHT` row bytes; in
//! each row only the low `CELL_WIDTH` bits are meaningful and bit
//! `CELL_WIDTH - 1` is the leftmost column.

use vstd::prelude::*;

verus! {

/// Glyph cell width in pixels.
pub const CELL_WIDTH: usize = 5;

/// Glyph cell height in pixels.
pub const CELL_HEIGHT: usize = 7;

/// First code point with a glyph (space).
pub const FIRST_CODEPOINT: u32 = 0x20;

/// Last code point with a glyph (`~`).
pub const LAST_CODEPOINT: u32 = 0x7E;

/// Number of glyphs in the font.
pub const GLYPH_COUNT: usize = 95;

/// The glyph table: `GLYPH_COUNT` glyphs of `CELL_HEIGHT` row bytes each, in
/// code-point order starting at `FIRST_CODEPOINT`.
pub const FONT: [u8; 665] = [
    0x00, 0x00, 0x00, 0x00, 0x00, 0x00, 0x00,
    0x04, 0x04, 0x04, 0x04, 0x04, 0x00, 0x04,
    0x0a, 0x0a, 0x0a, 0x00, 0x00, 0x00, 0x00,
    0x0a, 0x0a, 0x1f, 0x0a, 0x1f, 0x0a, 0x0a,
    0x04, 0x0f, 0x14, 0x0e, 0x05, 0x1e, 0x04,
    0x18, 0x19, 0x02, 0x04, 0x08, 0x13, 0x03,
    0x0c, 0x12, 0x14, 0x08, 0x15, 0x12, 0x0d,
    0x0c, 0x04, 0x08, 0x00, 0x00, 0x00, 0x00,
    0x02, 0x04, 0x08, 0x08, 0x08, 0x04, 0x02,
    0x08, 0x04, 0x02, 0x02, 0x02, 0x04, 0x08,
    0x00, 0x0a, 0x04, 0x1f, 0x04, 0x0a, 0x00,
    0x00, 0x04, 0x04, 0x1f, 0x04, 0x04, 0x00,
    0x00, 0x00, 0x00, 0x00, 0x0c, 0x04, 0x08,
    0x00, 0x00, 0x00, 0x1f, 0x00, 0x00, 0x00,
    0x00, 0x00, 0x00, 0x00, 0x00, 0x0c, 0x0c,
    0x00, 0x01, 0x02, 0x04, 0x08, 0x10, 0x00,
    0x0e, 0x11, 0x13, 0x15, 0x19, 0x11, 0x0e,
    0x04, 0x0c, 0x04, 0x04, 0x04, 0x04, 0x0e,
    0x0e, 0x11, 0x01, 0x02, 0x04, 0x08, 0x1f,
    0x1f, 0x02, 0x04, 0x02, 0x01, 0x11, 0x0e,
    0x02, 0x06, 0x0a, 0x12, 0x1f, 0x02, 0x02,
    0x1f, 0x10, 0x1e, 0x01, 0x01, 0x11, 0x0e,
    0x06, 0x08, 0x10, 0x1e, 0x11, 0x11, 0x0e,
    0x1f, 0x01, 0x02, 0x04, 0x08, 0x08, 0x08,
    0x0e, 0x11, 0x11, 0x0e, 0x11, 0x11, 0x0e,
    0x0e, 0x11, 0x11, 0x0f, 0x01, 0x02, 0x0c,
    0x00, 0x0c, 0x0c, 0x00, 0x0c, 0x0c, 0x00,
    0x00, 0x0c, 0x0c, 0x00, 0x0c, 0x04, 0x08,
    0x01, 0x02, 0x04, 0x08, 0x04, 0x02, 0x01,
    0x00, 0x00, 0x1f, 0x00, 0x1f, 0x00, 0x00,
    0x10, 0x08, 0x04, 0x02, 0x04, 0x08, 0x10,
    0x0e, 0x11, 0x01, 0x02, 0x04, 0x00, 0x04,
    0x0e, 0x11, 0x01, 0x0d, 0x15, 0x15, 0x0e,
    0x0e, 0x11, 0x11, 0x1f, 0x11, 0x11, 0x11,
    0x1e, 0x11, 0x11, 0x1e, 0x11, 0x11, 0x1e,
    0x0e, 0x11, 0x10, 0x10, 0x10, 0x11, 0x0e,
    0x1c, 0x12, 0x11, 0x11, 0x11, 0x12, 0x1c,
    0x1f, 0x10, 0x10, 0x1e, 0x10, 0x10, 0x1f,
    0x1f, 0x10, 0x10, 0x1c, 0x10, 0x10, 0x10,
    0x0e, 0x11, 0x10, 0x10, 0x13, 0x11, 0x0e,
    0x11, 0x11, 0x11, 0x1f, 0x11, 0x11, 0x11,
    0x0e, 0x04, 0x04, 0x04, 0x04, 0x04, 0x0e,
    0x07, 0x02, 0x02, 0x02, 0x02, 0x12, 0x0c,
    0x11, 0x12, 0x14, 0x18, 0x14, 0x12, 0x11,
    0x10, 0x10, 0x10, 0x10, 0x10, 0x10, 0x1f,
    0x11, 0x1b, 0x15, 0x11, 0x11, 0x11, 0x11,
    0x11, 0x11, 0x19, 0x15, 0x13, 0x11, 0x11,
    0x0e, 0x11, 0x11, 0x11, 0x11, 0x11, 0x0e,
    0x1e, 0x11, 0x11, 0x1e, 0x10, 0x10, 0x10,
    0x0e, 0x11, 0x11, 0x11, 0x15, 0x12, 0x0d,
    0x1e, 0x11, 0x11, 0x1e, 0x14, 0x12, 0x11,
    0x0f, 0x10, 0x10, 0x0e, 0x01, 0x01, 0x1e,
    0x1f, 0x04, 0x04, 0x04, 0x04, 0x04, 0x04,
    0x11, 0x11, 0x11, 0x11, 0x11, 0x11, 0x0e,
    0x11, 0x11, 0x11, 0x11, 0x11, 0x0a, 0x04,
    0x11, 0x11, 0x11, 0x15, 0x15, 0x1b, 0x11,
    0x11, 0x11, 0x0a, 0x04, 0x0a, 0x11, 0x11,
    0x11, 0x11, 0x0a, 0x04, 0x04, 0x04, 0x04,
    0x1f, 0x01, 0x02, 0x04, 0x08, 0x10, 0x1f,
    0x07, 0x04, 0x04, 0x04, 0x04, 0x04, 0x07,
    0x00, 0x10, 0x08, 0x04, 0x02, 0x01, 0x00,
    0x1c, 0x04, 0x04, 0x04, 0x04, 0x04, 0x1c,
    0x04, 0x0a, 0x11, 0x00, 0x00, 0x00, 0x00,
    0x00, 0x00, 0x00, 0x00, 0x00, 0x00, 0x1f,
    0x08, 0x04, 0x02, 0x00, 0x00, 0x00, 0x00,
    0x00, 0x00, 0x0e, 0x01, 0x0f, 0x11, 0x0f,
    0x10, 0x10, 0x16, 0x19, 0x11, 0x11, 0x1e,
    0x00, 0x00, 0x0e, 0x10, 0x10, 0x11, 0x0e,
    0x01, 0x01, 0x0d, 0x13, 0x11, 0x11, 0x0f,
    0x00, 0x00, 0x0e, 0x11, 0x1f, 0x10, 0x0e,
    0x06, 0x09, 0x08, 0x1c, 0x08, 0x08, 0x08,
    0x00, 0x00, 0x0f, 0x11, 0x0f, 0x01, 0x06,
    0x10, 0x10, 0x16, 0x19, 0x11, 0x11, 0x11,
    0x04, 0x00, 0x0c, 0x04, 0x04, 0x04, 0x0e,
    0x02, 0x00, 0x06, 0x02, 0x02, 0x12, 0x0c,
    0x08, 0x08, 0x09, 0x0a, 0x0c, 0x0a, 0x09,
    0x0c, 0x04, 0x04, 0x04, 0x04, 0x04, 0x0e,
    0x00, 0x00, 0x1a, 0x15, 0x15, 0x11, 0x11,
    0x00, 0x00, 0x16, 0x19, 0x11, 0x11, 0x11,
    0x00, 0x00, 0x0e, 0x11, 0x11, 0x11, 0x0e,
    0x00, 0x00, 0x1e, 0x11, 0x1e, 0x10, 0x10,
    0x00, 0x00, 0x0d, 0x13, 0x0f, 0x01, 0x01,
    0x00, 0x00, 0x16, 0x19, 0x10, 0x10, 0x10,
    0x00, 0x00, 0x0e, 0x10, 0x0e, 0x01, 0x1e,
    0x08, 0x08, 0x1c, 0x08, 0x08, 0x09, 0x06,
    0x00, 0x00, 0x11, 0x11, 0x11, 0x13, 0x0d,
    0x00, 0x00, 0x11, 0x11, 0x11, 0x0a, 0x04,
    0x00, 0x00, 0x11, 0x11, 0x15, 0x15, 0x0a,
    0x00, 0x00, 0x11, 0x0a, 0x04, 0x0a, 0x11,
    0x00, 0x00, 0x11, 0x11, 0x0f, 0x01, 0x0e,
    0x00, 0x00, 0x1f, 0x02, 0x04, 0x08, 0x1f,
    0x02, 0x04, 0x04, 0x08, 0x04, 0x04, 0x02,
    0x04, 0x04, 0x04, 0x04, 0x04, 0x04, 0x04,
    0x08, 0x04, 0x04, 0x02, 0x04, 0x04, 0x08,
    0x08, 0x15, 0x02, 0x00, 0x00, 0x00, 0x00,
];

/// Glyph substituted for any character outside the printable-ASCII range: a
/// hollow box, so missing characters are visible rather than silently blank.
pub const MISSING_GLYPH: [u8; 7] = [0x1f, 0x11, 0x11, 0x11, 0x11, 0x11, 0x1f];

/// Whether `c` has a dedicated glyph.
pub open spec fn glyph_exists(c: char) -> bool {
    FIRST_CODEPOINT <= (c as u32) && (c as u32) <= LAST_CODEPOINT
}

/// The row bytes of the glyph drawn for `c`.
pub open spec fn glyph_of(c: char) -> Seq<u8> {
    if glyph_exists(c) {
        let start = ((c as u32) - FIRST_CODEPOINT) * CELL_HEIGHT;
        FONT@.subrange(start, start + CELL_HEIGHT)
    } else {
        MISSING_GLYPH@
    }
}

/// The table holds one cell of `CELL_HEIGHT` rows per printable character,
/// in code-point order: the glyph drawn for a printable `c` is the cell at
/// `c`'s own offset from the first code point, so consecutive characters
/// take consecutive cells; any other character is drawn as the box.
pub proof fn lemma_glyph_cell(c: char)
    ensures
        0x20 <= (c as u32) <= 0x7e ==> glyph_of(c) == FONT@.subrange(
            ((c as u32) - 0x20) * 7,
            ((c as u32) - 0x20) * 7 + 7,
        ),
        0x20 <= (c as u32) < 0x7e ==> glyph_of(c) + glyph_of(((c as u32) + 1) as char) == FONT@.subrange(
            ((c as u32) - 0x20) * 7,
            ((c as u32) - 0x20) * 7 + 14,
        ),
        !(0x20 <= (c as u32) <= 0x7e) ==> glyph_of(c) == seq![0x1fu8, 0x11, 0x11, 0x11, 0x11, 0x11, 0x1f],
{
    if 0x20 <= (c as u32) < 0x7e {
        let d = ((c as u32) + 1) as char;
        assert((d as u32) == (c as u32) + 1);
        let s = ((c as u32) - 0x20) * 7;
        assert(FONT@.subrange(s, s + 7) + FONT@.subrange(s + 7, s + 14) =~= FONT@.subrange(s, s + 14));
    }
    assert(MISSING_GLYPH@ =~= seq![0x1fu8, 0x11, 0x11, 0x11, 0x11, 0x11, 0x1f]);
}

/// The `CELL_HEIGHT` row bitmaps for `ch`; characters without a glyph get the
/// missing-glyph box.
pub fn glyph_rows(ch: char) -> (rows: [u8; 7])
    ensures
        rows@ == glyph_of(ch),
{
    let cp = ch as u32;
    if cp < FIRST_CODEPOINT || cp > LAST_CODEPOINT {
        return MISSING_GLYPH;
    }
    let start = ((cp - FIRST_CODEPOINT) as usize) * CELL_HEIGHT;
    let rows = [
        FONT[start],
        FONT[start + 1],
        FONT[start + 2],
        FONT[start + 3],
        FONT[start + 4],
        FONT[start + 5],
        FONT[start + 6],
    ];
    assert(rows@ =~= glyph_of(ch));
    rows
}

/// Whether `ch` has a dedicated glyph (vs. rendering as the missing-glyph box).
pub fn has_glyph(ch: char) -> (b: bool)
    ensures
        b == glyph_exists(ch),
{
    FIRST_CODEPOINT <= (ch as u32) && (ch as u32) <= LAST_CODEPOINT
}

} // verus!
