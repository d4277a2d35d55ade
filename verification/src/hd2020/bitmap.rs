//! Monochrome bitmap buffer, hand-written glyph blit, and the on-wire bitmap
//! payload carried by HD2020 realtime text frames.
//!
//! A panel is a 1-bit-per-pixel grid packed row-major, 8 pixels per byte,
//! most-significant bit leftmost, each row padded to whole bytes.

use vstd::prelude::*;
use crate::error::ProtoError;
use crate::fmt::{dec, push_dec};
use crate::hd2020::font::{glyph_of, glyph_rows, CELL_WIDTH, CELL_HEIGHT};
use crate::le::{u16_le, put_u16_le, put_slice};
use vstd::arithmetic::power2::pow2;

verus! {

/// Bytes per packed row for a bitmap `w` pixels wide.
pub open spec fn stride_of(w: nat) -> nat {
    ((w + 7) / 8) as nat
}

/// The packed bit for pixel `(x, y)` in `bits` with rows of `stride` bytes.
pub open spec fn packed_bit(bits: Seq<u8>, stride: nat, x: int, y: int) -> bool {
    (bits[y * stride + x / 8] >> ((7 - x % 8) as u8)) & 1 == 1
}

/// A bitmap as plain values: `(width, height, packed bytes)`.
pub type BitmapView = (usize, usize, Seq<u8>);

/// Whether pixel `(x, y)` of a bitmap is lit; off-panel pixels read dark.
pub open spec fn lit(b: BitmapView, x: int, y: int) -> bool {
    0 <= x < b.0 && 0 <= y < b.1 && packed_bit(b.2, stride_of(b.0 as nat), x, y)
}

/// Whether `(x, y)` lies on the panel.
pub open spec fn on_panel(b: BitmapView, x: int, y: int) -> bool {
    0 <= x < b.0 && 0 <= y < b.1
}

/// Whether packed bit `(x, y)` is set, for any column of the padded row,
/// padding included.
pub open spec fn packed_on(b: BitmapView, x: int, y: int) -> bool {
    0 <= x < 8 * stride_of(b.0 as nat) && 0 <= y < b.1 && packed_bit(b.2, stride_of(b.0 as nat), x, y)
}

/// Every padding bit (a column past the width, in any row) is clear.
pub open spec fn padding_clear(b: BitmapView) -> bool {
    forall|x: int, y: int| b.0 <= x ==> !#[trigger] packed_on(b, x, y)
}

/// The packed bytes cover every row exactly.
pub open spec fn bitmap_wf(b: BitmapView) -> bool {
    b.2.len() == stride_of(b.0 as nat) * b.1
}

/// A packed 1-bpp bitmap: `width * height` pixels, row-major.
#[derive(Debug, Clone, PartialEq, Eq)]
pub struct MonoBitmap {
    width: usize,
    height: usize,
    bits: Vec<u8>,
}

impl View for MonoBitmap {
    type V = BitmapView;

    closed spec fn view(&self) -> BitmapView {
        (self.width, self.height, self.bits@)
    }
}

/// Whether glyph cell `(dx, dy)` of `c` is inked.
pub open spec fn glyph_bit(c: char, dx: int, dy: int) -> bool {
    0 <= dx < 5 && 0 <= dy < 7 && (glyph_of(c)[dy] >> ((4 - dx) as u8)) & 1 == 1
}

proof fn lemma_bit_update(b: u8, k: u8, k2: u8, on: bool)
    requires
        k < 8,
        k2 < 8,
    ensures
        ((if on { b | (1u8 << ((7 - k) as u8)) } else { b & !(1u8 << ((7 - k) as u8)) }) >> ((7 - k2) as u8)) & 1 == (
        if k2 == k {
            if on { 1u8 } else { 0u8 }
        } else {
            (b >> ((7 - k2) as u8)) & 1
        }),
{
    if on {
        assert(((b | (1u8 << ((7 - k) as u8))) >> ((7 - k2) as u8)) & 1 == (if k2 == k { 1u8 } else { (b >> ((7 - k2) as u8)) & 1 })) by (bit_vector)
            requires
                k < 8,
                k2 < 8,
        ;
    } else {
        assert(((b & !(1u8 << ((7 - k) as u8))) >> ((7 - k2) as u8)) & 1 == (if k2 == k { 0u8 } else { (b >> ((7 - k2) as u8)) & 1 })) by (bit_vector)
            requires
                k < 8,
                k2 < 8,
        ;
    }
}

/// Bit `7 - k` of a byte, read with a shift, is its digit of weight
/// `2^(7 - k)`.
proof fn lemma_msb_bit(v: u8, k: u8)
    requires
        k < 8,
    ensures
        ((v >> ((7 - k) as u8)) & 1 == 1) == ((v as nat / pow2((7 - k) as nat)) % 2 == 1),
{
    let s = (7 - k) as u8;
    vstd::bits::lemma_u8_shr_is_div(v, s);
    let q = v >> s;
    assert((q & 1 == 1) == (q % 2 == 1)) by (bit_vector);
}

/// Pixels are packed eight to a byte, row after row with each row starting
/// on a fresh byte, and the leftmost pixel of a byte in its most significant
/// bit: pixel `(x, y)` is the digit of weight `2^(7 - x % 8)` of byte
/// `y * ceil(width / 8) + x / 8`.
pub proof fn lemma_pixel_packing(b: BitmapView, x: int, y: int)
    requires
        on_panel(b, x, y),
        bitmap_wf(b),
    ensures
        lit(b, x, y) == ((b.2[y * ((b.0 + 7) / 8) + x / 8] as nat / pow2((7 - x % 8) as nat)) % 2 == 1),
{
    lemma_index_bound(stride_of(b.0 as nat), b.0 as nat, b.1 as nat, x, y);
    lemma_msb_bit(b.2[y * stride_of(b.0 as nat) + x / 8], (x % 8) as u8);
}

/// A glyph row holds its five columns in its low five bits, the leftmost
/// column in the most significant of them: cell `(dx, dy)` of `c` is inked
/// when the digit of weight `2^(4 - dx)` of row `dy` is one.
pub proof fn lemma_glyph_columns(c: char, dx: int, dy: int)
    requires
        0 <= dx < 5,
        0 <= dy < 7,
    ensures
        glyph_bit(c, dx, dy) == ((glyph_of(c)[dy] as nat / pow2((4 - dx) as nat)) % 2 == 1),
{
    lemma_msb_bit(glyph_of(c)[dy], (dx + 3) as u8);
}

proof fn lemma_index_distinct(stride: nat, w: nat, x: int, y: int, x2: int, y2: int)
    requires
        stride == stride_of(w),
        0 <= x < w,
        0 <= x2 < w,
        0 <= y,
        0 <= y2,
    ensures
        (y * stride + x / 8 == y2 * stride + x2 / 8) <==> (y == y2 && x / 8 == x2 / 8),
        0 <= y * stride + x / 8,
{
    assert(x / 8 < stride);
    assert(x2 / 8 < stride);
    if y < y2 {
        assert(y * stride + stride <= y2 * stride) by (nonlinear_arith)
            requires y < y2, stride >= 0;
    } else if y2 < y {
        assert(y2 * stride + stride <= y * stride) by (nonlinear_arith)
            requires y2 < y, stride >= 0;
    }
    assert(0 <= y * stride) by (nonlinear_arith)
        requires y >= 0, stride >= 0;
}

proof fn lemma_index_bound(stride: nat, w: nat, h: nat, x: int, y: int)
    requires
        stride == stride_of(w),
        0 <= x < w,
        0 <= y < h,
    ensures
        0 <= y * stride + x / 8 < stride * h,
{
    assert(x / 8 < stride);
    assert(y * stride + stride <= stride * h) by (nonlinear_arith)
        requires y < h, stride >= 0, y >= 0;
    assert(0 <= y * stride) by (nonlinear_arith)
        requires y >= 0, stride >= 0;
}

/// The bitmap after `set(x, y, on)`: off-panel coordinates change nothing;
/// otherwise the one packed bit of `(x, y)` is set or cleared.
pub open spec fn set_view(b: BitmapView, x: int, y: int, on: bool) -> BitmapView {
    if !on_panel(b, x, y) {
        b
    } else {
        let i = y * stride_of(b.0 as nat) + x / 8;
        let mask = 1u8 << ((7 - x % 8) as u8);
        (b.0, b.1, b.2.update(i, if on { b.2[i] | mask } else { b.2[i] & !mask }))
    }
}

/// Setting a pixel lights or darkens exactly that pixel, when it is on the
/// panel, and leaves every other pixel, and the panel's shape, as it was.
pub proof fn lemma_set_lit(b: BitmapView, x: int, y: int, on: bool)
    requires
        bitmap_wf(b),
    ensures
        bitmap_wf(set_view(b, x, y, on)),
        set_view(b, x, y, on).0 == b.0,
        set_view(b, x, y, on).1 == b.1,
        forall|x2: int, y2: int| #[trigger] lit(set_view(b, x, y, on), x2, y2) == if x2 == x && y2 == y
            && on_panel(b, x2, y2) {
            on
        } else {
            lit(b, x2, y2)
        },
{
    if on_panel(b, x, y) {
        let stride = stride_of(b.0 as nat);
        lemma_index_bound(stride, b.0 as nat, b.1 as nat, x, y);
        let i = y * stride + x / 8;
        let nb = set_view(b, x, y, on);
        assert forall|x2: int, y2: int| #[trigger] lit(nb, x2, y2) == if x2 == x && y2 == y
            && on_panel(b, x2, y2) {
            on
        } else {
            lit(b, x2, y2)
        } by {
            if on_panel(b, x2, y2) {
                lemma_index_distinct(stride, b.0 as nat, x, y, x2, y2);
                lemma_index_bound(stride, b.0 as nat, b.1 as nat, x2, y2);
                let i2 = y2 * stride + x2 / 8;
                if i2 == i {
                    let k = (x % 8) as u8;
                    let k2 = (x2 % 8) as u8;
                    lemma_bit_update(b.2[i], k, k2, on);
                    assert(x2 == x <==> k2 == k);
                }
            }
        }
    }
}

proof fn lemma_stride_of_padded(stride: nat)
    ensures
        stride_of(8 * stride) == stride,
{
}

/// Setting a pixel changes exactly that pixel's packed bit, when it is on the
/// panel, and leaves every other bit of the packed rows, padding included.
pub proof fn lemma_set_packed(b: BitmapView, x: int, y: int, on: bool)
    requires
        bitmap_wf(b),
    ensures
        forall|x2: int, y2: int| #[trigger] packed_on(set_view(b, x, y, on), x2, y2) == if x2 == x && y2 == y
            && on_panel(b, x2, y2) {
            on
        } else {
            packed_on(b, x2, y2)
        },
{
    if on_panel(b, x, y) {
        let stride = stride_of(b.0 as nat);
        let pw = 8 * stride;
        lemma_stride_of_padded(stride);
        lemma_index_bound(stride, b.0 as nat, b.1 as nat, x, y);
        let i = y * stride + x / 8;
        let nb = set_view(b, x, y, on);
        assert forall|x2: int, y2: int| #[trigger] packed_on(nb, x2, y2) == if x2 == x && y2 == y
            && on_panel(b, x2, y2) {
            on
        } else {
            packed_on(b, x2, y2)
        } by {
            if 0 <= x2 < pw && 0 <= y2 < b.1 {
                lemma_index_distinct(stride, pw, x, y, x2, y2);
                lemma_index_bound(stride, pw, b.1 as nat, x2, y2);
                let i2 = y2 * stride + x2 / 8;
                if i2 == i {
                    let k = (x % 8) as u8;
                    let k2 = (x2 % 8) as u8;
                    lemma_bit_update(b.2[i], k, k2, on);
                    assert(x2 == x <==> k2 == k);
                }
            }
        }
    }
}

/// Setting a pixel never sets a padding bit: a bitmap whose padding is clear
/// keeps it clear.
pub proof fn lemma_set_keeps_padding(b: BitmapView, x: int, y: int, on: bool)
    requires
        bitmap_wf(b),
        padding_clear(b),
    ensures
        padding_clear(set_view(b, x, y, on)),
{
    lemma_set_packed(b, x, y, on);
}

proof fn lemma_shift_mask(x: usize)
    ensures
        x >> 3 == x / 8,
        x & 7 == x % 8,
        x & 7 < 8,
{
    assert(x >> 3 == x / 8) by (bit_vector);
    assert(x & 7 == x % 8) by (bit_vector);
}

impl MonoBitmap {
    /// A blank (all-dark) bitmap of the given pixel dimensions.
    pub fn new(width: usize, height: usize) -> (b: MonoBitmap)
        requires
            stride_of(width as nat) * height <= usize::MAX,
        ensures
            b@.0 == width,
            b@.1 == height,
            bitmap_wf(b@),
            b@.2 == Seq::new(stride_of(width as nat) * (height as nat), |i: int| 0u8),
            forall|x: int, y: int| !#[trigger] lit(b@, x, y),
            padding_clear(b@),
    {
        let stride = Self::stride_for(width);
        let n = stride * height;
        let mut bits: Vec<u8> = Vec::new();
        while bits.len() < n
            invariant
                n == stride_of(width as nat) * height,
                bits@.len() <= n,
                forall|i: int| 0 <= i < bits@.len() ==> bits@[i] == 0u8,
            decreases n - bits@.len(),
        {
            bits.push(0u8);
        }
        let b = MonoBitmap { width, height, bits };
        assert(b@.2 =~= Seq::new(stride_of(width as nat) * (height as nat), |i: int| 0u8));
        assert forall|x: int, y: int| !#[trigger] lit(b@, x, y) by {
            if on_panel(b@, x, y) {
                lemma_index_bound(stride as nat, width as nat, height as nat, x, y);
                let byte = b@.2[y * stride + x / 8];
                assert(byte == 0u8);
                let k = (7 - x % 8) as u8;
                assert((0u8 >> k) & 1 == 0) by (bit_vector);
            }
        }
        assert forall|x: int, y: int| b@.0 <= x implies !#[trigger] packed_on(b@, x, y) by {
            if 0 <= x < 8 * stride && 0 <= y < height {
                lemma_stride_of_padded(stride as nat);
                lemma_index_bound(stride as nat, (8 * stride) as nat, height as nat, x, y);
                let k = (7 - x % 8) as u8;
                assert((0u8 >> k) & 1 == 0) by (bit_vector);
            }
        }
        b
    }

    /// Bytes per row for a bitmap `width` pixels wide.
    fn stride_for(width: usize) -> (s: usize)
        ensures
            s == stride_of(width as nat),
    {
        width / 8 + if width % 8 != 0 { 1 } else { 0 }
    }

    /// Panel width in pixels.
    pub fn width(&self) -> (w: usize)
        ensures
            w == self@.0,
    {
        self.width
    }

    /// Panel height in pixels.
    pub fn height(&self) -> (h: usize)
        ensures
            h == self@.1,
    {
        self.height
    }

    /// Bytes per packed row.
    pub fn stride(&self) -> (s: usize)
        ensures
            s == stride_of(self@.0 as nat),
    {
        Self::stride_for(self.width)
    }

    /// The packed pixel bytes, row-major.
    pub fn as_bytes(&self) -> (b: &[u8])
        ensures
            b@ == self@.2,
    {
        self.bits.as_slice()
    }

    /// Read one pixel. Off-panel coordinates read as dark.
    pub fn get(&self, x: usize, y: usize) -> (on: bool)
        requires
            bitmap_wf(self@),
        ensures
            on == lit(self@, x as int, y as int),
    {
        if x >= self.width || y >= self.height {
            return false;
        }
        let stride = self.stride();
        let n = self.bits.len();
        proof {
            lemma_index_bound(stride as nat, self.width as nat, self.height as nat, x as int, y as int);
            lemma_shift_mask(x);
        }
        let row = y * stride;
        let byte = row + (x >> 3);
        (self.bits[byte] >> ((7 - (x & 7)) as u8)) & 1 == 1
    }

    /// Set one pixel. Off-panel coordinates are ignored, so blits clip to the
    /// panel rather than failing.
    pub fn set(&mut self, x: usize, y: usize, on: bool)
        requires
            bitmap_wf(old(self)@),
        ensures
            final(self)@ == set_view(old(self)@, x as int, y as int, on),
            padding_clear(old(self)@) ==> padding_clear(final(self)@),
    {
        proof {
            if padding_clear(self@) {
                lemma_set_keeps_padding(self@, x as int, y as int, on);
            }
        }
        if x >= self.width || y >= self.height {
            return;
        }
        let stride = self.stride();
        let n = self.bits.len();
        proof {
            lemma_index_bound(stride as nat, self.width as nat, self.height as nat, x as int, y as int);
            lemma_shift_mask(x);
        }
        let row = y * stride;
        let byte = row + (x >> 3);
        let mask = 1u8 << ((7 - (x & 7)) as u8);
        let old_byte = self.bits[byte];
        let new_byte = if on { old_byte | mask } else { old_byte & !mask };
        self.bits.set(byte, new_byte);
    }

    /// Blit one glyph with its top-left corner at `(ox, oy)`. Pixels off the
    /// panel are dropped.
    pub fn blit_char(&mut self, ch: char, ox: i32, oy: i32)
        requires
            bitmap_wf(old(self)@),
            ox + 4 <= i32::MAX,
            oy + 6 <= i32::MAX,
        ensures
            bitmap_wf(final(self)@),
            final(self)@.0 == old(self)@.0,
            final(self)@.1 == old(self)@.1,
            forall|x: int, y: int| #[trigger] lit(final(self)@, x, y) == (lit(old(self)@, x, y) || (
            on_panel(old(self)@, x, y) && glyph_bit(ch, x - ox, y - oy))),
            forall|x: int, y: int| #[trigger] packed_on(final(self)@, x, y) == (packed_on(old(self)@, x, y) || (
            on_panel(old(self)@, x, y) && glyph_bit(ch, x - ox, y - oy))),
            padding_clear(old(self)@) ==> padding_clear(final(self)@),
    {
        let rows = glyph_rows(ch);
        let ghost start = self@;
        let mut dy: usize = 0;
        while dy < CELL_HEIGHT
            invariant
                rows@ == glyph_of(ch),
                dy <= 7,
                bitmap_wf(self@),
                ox + 4 <= i32::MAX,
                oy + 6 <= i32::MAX,
                self@.0 == start.0,
                self@.1 == start.1,
                forall|x: int, y: int| #[trigger] lit(self@, x, y) == (lit(start, x, y) || (on_panel(
                    start,
                    x,
                    y,
                ) && glyph_bit(ch, x - ox, y - oy) && y - oy < dy)),
                forall|x: int, y: int| #[trigger] packed_on(self@, x, y) == (packed_on(start, x, y) || (on_panel(
                    start,
                    x,
                    y,
                ) && glyph_bit(ch, x - ox, y - oy) && y - oy < dy)),
            decreases 7 - dy,
        {
            let row = rows[dy];
            let mut dx: usize = 0;
            while dx < CELL_WIDTH
                invariant
                    rows@ == glyph_of(ch),
                    row == glyph_of(ch)[dy as int],
                    dy < 7,
                    dx <= 5,
                    bitmap_wf(self@),
                    ox + 4 <= i32::MAX,
                    oy + 6 <= i32::MAX,
                    self@.0 == start.0,
                    self@.1 == start.1,
                    forall|x: int, y: int| #[trigger] lit(self@, x, y) == (lit(start, x, y) || (
                    on_panel(start, x, y) && glyph_bit(ch, x - ox, y - oy) && (y - oy < dy || (y
                        - oy == dy && x - ox < dx)))),
                    forall|x: int, y: int| #[trigger] packed_on(self@, x, y) == (packed_on(start, x, y) || (
                    on_panel(start, x, y) && glyph_bit(ch, x - ox, y - oy) && (y - oy < dy || (y
                        - oy == dy && x - ox < dx)))),
                decreases 5 - dx,
            {
                let ghost before = self@;
                if (row >> ((4 - dx) as u8)) & 1 == 1 {
                    let x = ox + dx as i32;
                    let y = oy + dy as i32;
                    if x >= 0 && y >= 0 {
                        proof {
                            lemma_set_lit(self@, x as int, y as int, true);
                            lemma_set_packed(self@, x as int, y as int, true);
                        }
                        self.set(x as usize, y as usize, true);
                    }
                }
                dx = dx + 1;
            }
            dy = dy + 1;
        }
    }
    /// Serialize to the HD2020 realtime bitmap payload:
    /// `[width:u16le][height:u16le][packed rows…]`.
    pub fn to_payload(&self) -> (res: Result<Vec<u8>, ProtoError>)
        ensures
            match payload_spec(self@) {
                Ok(b) => res matches Ok(v) && v@ == b,
                Err(m) => res matches Err(e) && crate::hd2020::frame::hd2020_msg(e) == Some(m),
            },
    {
        if self.width > 0xffff {
            let mut m = String::from_str("bitmap width ");
            push_dec(&mut m, self.width as u64);
            m.append(" exceeds u16");
            return Err(ProtoError::Hd2020(m));
        }
        if self.height > 0xffff {
            let mut m = String::from_str("bitmap height ");
            push_dec(&mut m, self.height as u64);
            m.append(" exceeds u16");
            return Err(ProtoError::Hd2020(m));
        }
        let mut buf: Vec<u8> = Vec::new();
        put_u16_le(&mut buf, self.width as u16);
        put_u16_le(&mut buf, self.height as u16);
        put_slice(&mut buf, self.bits.as_slice());
        Ok(buf)
    }
}


/// The payload bytes of a bitmap, or the message for a dimension that does
/// not fit the `u16` header.
pub open spec fn payload_spec(b: BitmapView) -> Result<Seq<u8>, Seq<char>> {
    if b.0 > 0xffff {
        Err("bitmap width "@ + dec(b.0 as nat) + " exceeds u16"@)
    } else if b.1 > 0xffff {
        Err("bitmap height "@ + dec(b.1 as nat) + " exceeds u16"@)
    } else {
        Ok(u16_le(b.0 as u16) + u16_le(b.1 as u16) + b.2)
    }
}

/// How text is laid out into a panel by [`render`].
#[derive(Debug, Clone)]
pub struct TextLayout {
    /// Blank pixel columns inserted between adjacent glyphs.
    pub letter_spacing: usize,
    /// Pixel column the first glyph starts at.
    pub x_offset: usize,
    /// If set, the top pixel row for glyphs. When `None`, glyphs are centered
    /// vertically in the panel (top-aligned if the panel is shorter than a cell).
    pub y_offset: Option<usize>,
}

impl Default for TextLayout {
    fn default() -> (l: TextLayout)
        ensures
            l.letter_spacing == 1,
            l.x_offset == 0,
            l.y_offset is None,
    {
        TextLayout { letter_spacing: 1, x_offset: 0, y_offset: None }
    }
}

impl TextLayout {
    /// Horizontal advance from one glyph's left edge to the next.
    fn advance(&self) -> (a: usize)
        requires
            self.letter_spacing + 5 <= usize::MAX,
        ensures
            a == 5 + self.letter_spacing,
    {
        CELL_WIDTH + self.letter_spacing
    }
}

/// Pixel width the un-clipped rendering of `n` glyphs occupies: glyph cells
/// plus inter-glyph spacing, no trailing spacing, after the start offset.
pub open spec fn measure_spec(n: nat, layout: TextLayout) -> int {
    if n == 0 {
        layout.x_offset as int
    } else {
        layout.x_offset + n * 5 + (n - 1) * layout.letter_spacing
    }
}

/// Pixel width the un-clipped rendering of `text` would occupy under `layout`.
pub fn measure(text: &str, layout: &TextLayout) -> (w: usize)
    requires
        measure_spec(text@.len(), *layout) <= usize::MAX,
    ensures
        w == measure_spec(text@.len(), *layout),
{
    let n = text.unicode_len();
    if n == 0 {
        return layout.x_offset;
    }
    proof {
        assert(n * 5 + (n - 1) * layout.letter_spacing >= n * 5) by (nonlinear_arith)
            requires n >= 1;
        assert((n - 1) * layout.letter_spacing >= 0) by (nonlinear_arith)
            requires n >= 1;
    }
    layout.x_offset + n * CELL_WIDTH + (n - 1) * layout.letter_spacing
}

/// The top glyph row used by [`render`]: the layout's row, or the row that
/// centres the cell in the panel (rounding toward the top), or the top row
/// when the panel is shorter than a cell.
pub open spec fn glyph_top(height: nat, layout: TextLayout) -> int {
    match layout.y_offset {
        Some(y) => y as int,
        None => if height >= 7 {
            (height - 7) / 2
        } else {
            0
        },
    }
}

/// Whether pixel `(x, y)` is inked by some glyph of `text` laid out with its
/// first glyph at column `ox`, top row `oy`, and `adv` columns per glyph.
pub open spec fn text_ink(text: Seq<char>, ox: int, oy: int, adv: int, x: int, y: int) -> bool {
    exists|k: int| 0 <= k < text.len() && #[trigger] glyph_bit(text[k], x - (ox + k * adv), y - oy)
}

/// The inputs [`render`] handles: coordinates stay within `i32` and the
/// bitmap's byte count within `usize`.
pub open spec fn render_fits(text: Seq<char>, width: nat, height: nat, layout: TextLayout) -> bool {
    &&& stride_of(width) * height <= usize::MAX
    &&& height <= i32::MAX
    &&& layout.letter_spacing + 5 <= i32::MAX
    &&& layout.x_offset + text.len() * (5 + layout.letter_spacing) <= i32::MAX
    &&& (layout.y_offset matches Some(y) ==> y + 6 <= i32::MAX)
}

/// Whether [`render`] handles these inputs: the executable form of
/// [`render_fits`], for callers that must check before rendering.
pub fn fits(text: &str, width: usize, height: usize, layout: &TextLayout) -> (ok: bool)
    ensures
        ok == render_fits(text@, width as nat, height as nat, *layout),
{
    let stride = MonoBitmap::stride_for(width);
    let cells = match stride.checked_mul(height) {
        Some(c) => c,
        None => return false,
    };
    if height > 0x7fff_ffff {
        return false;
    }
    let adv = match layout.letter_spacing.checked_add(5) {
        Some(a) => a,
        None => return false,
    };
    if adv > 0x7fff_ffff {
        return false;
    }
    let n = text.unicode_len();
    let span = match n.checked_mul(adv) {
        Some(v) => v,
        None => {
            proof {
                assert(layout.x_offset + n * adv > usize::MAX) by (nonlinear_arith)
                    requires n * adv > usize::MAX, layout.x_offset >= 0;
            }
            return false;
        },
    };
    let reach = match layout.x_offset.checked_add(span) {
        Some(v) => v,
        None => return false,
    };
    if reach > 0x7fff_ffff {
        return false;
    }
    match layout.y_offset {
        Some(y) => y <= 0x7fff_ffff - 6,
        None => true,
    }
}

/// Rasterize `text` into a `width × height` panel bitmap. Glyphs past the
/// right edge (or below the bottom) are clipped.
pub fn render(text: &str, width: usize, height: usize, layout: &TextLayout) -> (b: MonoBitmap)
    requires
        render_fits(text@, width as nat, height as nat, *layout),
    ensures
        b@.0 == width,
        b@.1 == height,
        bitmap_wf(b@),
        padding_clear(b@),
        forall|x: int, y: int| #[trigger] lit(b@, x, y) == (on_panel(b@, x, y) && text_ink(
            text@,
            layout.x_offset as int,
            glyph_top(height as nat, *layout),
            5 + layout.letter_spacing,
            x,
            y,
        )),
{
    let mut bmp = MonoBitmap::new(width, height);
    let oy: i32 = match layout.y_offset {
        Some(y) => y as i32,
        None => if height >= 7 {
            ((height - 7) / 2) as i32
        } else {
            0
        },
    };
    let adv = layout.advance();
    assert(oy + 6 <= i32::MAX);
    let ghost advi = adv as int;
    let ghost xo = layout.x_offset as int;
    let mut ox: i32 = layout.x_offset as i32;
    let n = text.unicode_len();
    let mut k: usize = 0;
    while k < n
        invariant
            n == text@.len(),
            k <= n,
            render_fits(text@, width as nat, height as nat, *layout),
            adv == 5 + layout.letter_spacing,
            advi == adv as int,
            xo == layout.x_offset as int,
            oy == glyph_top(height as nat, *layout),
            oy + 6 <= i32::MAX,
            ox == xo + k * advi,
            bmp@.0 == width,
            bmp@.1 == height,
            bitmap_wf(bmp@),
            padding_clear(bmp@),
            forall|x: int, y: int| #[trigger] lit(bmp@, x, y) == (on_panel(bmp@, x, y) && text_ink(
                text@.subrange(0, k as int),
                xo,
                oy as int,
                advi,
                x,
                y,
            )),
        decreases n - k,
    {
        proof {
            assert(xo + k * advi + advi <= xo + n * advi) by (nonlinear_arith)
                requires k < n, advi >= 0;
            assert(n * advi == n * (5 + layout.letter_spacing));
        }
        let ch = text.get_char(k);
        let ghost before = bmp@;
        bmp.blit_char(ch, ox, oy);
        proof {
            let pre = text@.subrange(0, k as int);
            let post = text@.subrange(0, k + 1);
            assert forall|x: int, y: int| #[trigger] lit(bmp@, x, y) == (on_panel(bmp@, x, y)
                && text_ink(post, xo, oy as int, advi, x, y)) by {
                if text_ink(post, xo, oy as int, advi, x, y) {
                    let j = choose|j: int| 0 <= j < post.len() && #[trigger] glyph_bit(
                        post[j],
                        x - (xo + j * advi),
                        y - oy,
                    );
                    if j < k {
                        assert(pre[j] == post[j]);
                        assert(text_ink(pre, xo, oy as int, advi, x, y));
                    }
                }
                if text_ink(pre, xo, oy as int, advi, x, y) {
                    let j = choose|j: int| 0 <= j < pre.len() && #[trigger] glyph_bit(
                        pre[j],
                        x - (xo + j * advi),
                        y - oy,
                    );
                    assert(pre[j] == post[j]);
                    assert(text_ink(post, xo, oy as int, advi, x, y));
                }
                if glyph_bit(ch, x - ox, y - oy) {
                    assert(post[k as int] == ch);
                    assert(text_ink(post, xo, oy as int, advi, x, y));
                }
            }
        }
        proof {
            assert(xo + k * advi + advi == xo + (k + 1) * advi) by (nonlinear_arith);
        }
        ox = ox + adv as i32;
        k = k + 1;
    }
    assert(text@.subrange(0, n as int) =~= text@);
    bmp
}

/// Rasterize `text` into a `width × height` panel and wrap it in a
/// ready-to-send realtime-text frame.
pub fn realtime_text_frame(text: &str, width: usize, height: usize, layout: &TextLayout) -> (res:
    Result<Vec<u8>, ProtoError>)
    requires
        render_fits(text@, width as nat, height as nat, *layout),
    ensures
        exists|b: BitmapView|
            #![trigger render_result(text@, width, height, *layout, b)]
            render_result(text@, width, height, *layout, b) && match payload_spec(b) {
                Err(m) => res matches Err(e) && crate::hd2020::frame::hd2020_msg(e) == Some(m),
                Ok(p) => match crate::hd2020::frame::hd2020_frame_bytes(
                    (crate::hd2020::frame::Hd2020Cmd::RealtimeText, p),
                ) {
                    Ok(w) => res matches Ok(v) && v@ == w,
                    Err(m) => res matches Err(e) && crate::hd2020::frame::hd2020_msg(e) == Some(m),
                },
            },
{
    let bmp = render(text, width, height, layout);
    let ghost b = bmp@;
    assert(render_result(text@, width, height, *layout, b));
    let payload = match bmp.to_payload() {
        Ok(p) => p,
        Err(e) => return Err(e),
    };
    crate::hd2020::frame::Hd2020Frame::new(crate::hd2020::frame::Hd2020Cmd::RealtimeText, payload).encode()
}

/// `b` is the bitmap [`render`] draws: the right shape, lit exactly where the
/// text inks an on-panel pixel.
pub open spec fn render_result(text: Seq<char>, width: usize, height: usize, layout: TextLayout, b: BitmapView) -> bool {
    &&& b.0 == width
    &&& b.1 == height
    &&& bitmap_wf(b)
    &&& padding_clear(b)
    &&& forall|x: int, y: int| #[trigger] lit(b, x, y) == (on_panel(b, x, y) && text_ink(
            text,
            layout.x_offset as int,
            glyph_top(height as nat, layout),
            5 + layout.letter_spacing,
            x,
            y,
        ))
}

} // verus!
