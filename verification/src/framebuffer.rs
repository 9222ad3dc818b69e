//! Linear software framebuffers with four bytes per pixel.
//!
//! A framebuffer holds `height` rows of `stride` bytes; pixel `(x, y)` takes the
//! four bytes from `y * stride + 4 * x` on. Colors are handed in and out in
//! RGBA order; BGRA-ordered formats swap the red and blue bytes in memory.
use vstd::prelude::*;
use crate::text::{decimal_string, spec_decimal};

verus! {

#[derive(Debug, Clone, Copy, PartialEq, Eq, Structural)]
pub enum FramebufferError {
    InvalidPixelFormat,
    OutOfBounds { x: u32, y: u32, width: u32, height: u32 },
    BufferTooSmall { needed: usize, available: usize },
    BlitDimensionsMismatch,
}

impl FramebufferError {
    /// The error's message.
    pub open spec fn spec_message(&self) -> Seq<char> {
        match self {
            FramebufferError::InvalidPixelFormat => "invalid pixel format"@,
            FramebufferError::OutOfBounds { x, y, width, height } => "out of bounds: pixel ("@
                + spec_decimal(*x as nat) + ", "@ + spec_decimal(*y as nat) + ") outside "@
                + spec_decimal(*width as nat) + "x"@ + spec_decimal(*height as nat),
            FramebufferError::BufferTooSmall { needed, available } => "buffer too small: need "@
                + spec_decimal(*needed as nat) + ", got "@ + spec_decimal(*available as nat),
            FramebufferError::BlitDimensionsMismatch => "blit dimensions mismatch"@,
        }
    }

    pub fn message(&self) -> (r: String)
        ensures
            r@ == self.spec_message(),
    {
        match self {
            FramebufferError::InvalidPixelFormat => String::from_str("invalid pixel format"),
            FramebufferError::OutOfBounds { x, y, width, height } => {
                let mut m = String::from_str("out of bounds: pixel (");
                m.append(decimal_string(*x as u64).as_str());
                m.append(", ");
                m.append(decimal_string(*y as u64).as_str());
                m.append(") outside ");
                m.append(decimal_string(*width as u64).as_str());
                m.append("x");
                m.append(decimal_string(*height as u64).as_str());
                m
            },
            FramebufferError::BufferTooSmall { needed, available } => {
                let mut m = String::from_str("buffer too small: need ");
                m.append(decimal_string(*needed as u64).as_str());
                m.append(", got ");
                m.append(decimal_string(*available as u64).as_str());
                m
            },
            FramebufferError::BlitDimensionsMismatch => String::from_str("blit dimensions mismatch"),
        }
    }
}

#[derive(Debug, Clone, Copy, PartialEq, Eq, Structural)]
pub enum PixelFormat {
    Bgra8,
    Rgba8,
    Bgrx8,
}

impl PixelFormat {
    pub fn bytes_per_pixel(&self) -> (r: usize)
        ensures
            r == 4,
    {
        4
    }

    pub fn channels(&self) -> (r: usize)
        ensures
            r == 4,
    {
        4
    }
}

/// Memory order of an RGBA color (or RGBA order of stored bytes): BGRA-ordered
/// formats swap bytes 0 and 2; the map is its own inverse.
pub open spec fn spec_swizzle(format: PixelFormat, c: Seq<u8>) -> Seq<u8> {
    match format {
        PixelFormat::Rgba8 => seq![c[0], c[1], c[2], c[3]],
        _ => seq![c[2], c[1], c[0], c[3]],
    }
}

/// `b` with the four bytes from `off` replaced by `w`.
pub open spec fn spec_splice4(b: Seq<u8>, off: int, w: Seq<u8>) -> Seq<u8> {
    b.subrange(0, off) + w + b.subrange(off + 4, b.len() as int)
}

/// Byte `i` belongs to pixel `(px, py)` in rows of `stride` bytes.
pub open spec fn spec_in_pixel(stride: int, i: int, px: int, py: int) -> bool {
    py * stride + 4 * px <= i < py * stride + 4 * px + 4
}

/// Byte `i` belongs to some pixel of the `rw` x `rh` rectangle at `(x0, y0)`.
pub open spec fn spec_covered(stride: int, i: int, x0: int, y0: int, rw: int, rh: int) -> bool {
    exists|px: int, py: int|
        x0 <= px < x0 + rw && y0 <= py < y0 + rh && #[trigger] spec_in_pixel(stride, i, px, py)
}

/// Swizzling twice gives the color back.
pub proof fn lemma_swizzle_involution(format: PixelFormat, c: Seq<u8>)
    requires
        c.len() == 4,
    ensures
        spec_swizzle(format, spec_swizzle(format, c)) == c,
{
    assert(spec_swizzle(format, spec_swizzle(format, c)) =~= c);
}

/// Four bytes of `b` from `o` on.
pub open spec fn old_raw(b: Seq<u8>, o: int) -> Seq<u8> {
    b.subrange(o, o + 4)
}

/// Distinct pixels of rows that do not overlap use distinct bytes.
pub proof fn lemma_pixels_disjoint(stride: int, w: int, px: int, py: int, qx: int, qy: int, i: int)
    requires
        4 * w <= stride,
        0 <= px < w,
        0 <= qx < w,
        0 <= py,
        0 <= qy,
        px != qx || py != qy,
        spec_in_pixel(stride, i, px, py),
    ensures
        !spec_in_pixel(stride, i, qx, qy),
{
    if py < qy {
        assert(py * stride + stride <= qy * stride) by (nonlinear_arith)
            requires
                py < qy,
                0 <= stride,
        ;
    } else if qy < py {
        assert(qy * stride + stride <= py * stride) by (nonlinear_arith)
            requires
                qy < py,
                0 <= stride,
        ;
    }
}

/// Rows before `y` end where row `y` starts.
pub proof fn lemma_row_bound(stride: int, y: int, h: int)
    requires
        0 <= y < h,
        0 <= stride,
    ensures
        y * stride <= (h - 1) * stride,
        y * stride >= 0,
{
    assert(y * stride <= (h - 1) * stride) by (nonlinear_arith)
        requires
            0 <= y < h,
            0 <= stride,
    ;
    assert(y * stride >= 0) by (nonlinear_arith)
        requires
            0 <= y,
            0 <= stride,
    ;
}

#[derive(Debug, Clone)]
pub struct LinearFramebuffer {
    width: u32,
    height: u32,
    stride: u32,
    format: PixelFormat,
    pixels: Vec<u8>,
    dirty: bool,
}

impl LinearFramebuffer {
    pub closed spec fn spec_width(&self) -> u32 {
        self.width
    }

    pub closed spec fn spec_height(&self) -> u32 {
        self.height
    }

    pub closed spec fn spec_stride(&self) -> u32 {
        self.stride
    }

    pub closed spec fn spec_format(&self) -> PixelFormat {
        self.format
    }

    pub closed spec fn spec_pixels(&self) -> Seq<u8> {
        self.pixels@
    }

    pub closed spec fn spec_dirty(&self) -> bool {
        self.dirty
    }

    /// First byte of pixel `(x, y)`.
    pub open spec fn spec_offset(&self, x: int, y: int) -> int {
        y * self.spec_stride() + 4 * x
    }

    /// Stored bytes of pixel `(x, y)`.
    pub open spec fn spec_raw(&self, x: int, y: int) -> Seq<u8> {
        self.spec_pixels().subrange(self.spec_offset(x, y), self.spec_offset(x, y) + 4)
    }

    /// RGBA color of pixel `(x, y)`.
    pub open spec fn spec_pixel(&self, x: int, y: int) -> Seq<u8> {
        spec_swizzle(self.spec_format(), self.spec_raw(x, y))
    }

    /// The bytes of pixel `(x, y)` lie inside the pixel buffer.
    pub open spec fn spec_pixel_stored(&self, x: int, y: int) -> bool {
        self.spec_offset(x, y) + 4 <= self.spec_pixels().len()
    }

    /// Every pixel of the `w` x `h` rectangle at `(x, y)` lies inside the buffer.
    pub open spec fn spec_rect_stored(&self, x: int, y: int, w: int, h: int) -> bool {
        w == 0 || h == 0 || (y + h - 1) * self.spec_stride() + 4 * (x + w) <= self.spec_pixels().len()
    }

    /// Rows do not overlap: each row has room for all of its pixels.
    pub open spec fn spec_rows_disjoint(&self) -> bool {
        4 * self.spec_width() <= self.spec_stride()
    }

    /// Same dimensions, stride and format.
    pub open spec fn spec_same_shape(&self, other: &Self) -> bool {
        self.spec_width() == other.spec_width() && self.spec_height() == other.spec_height()
            && self.spec_stride() == other.spec_stride() && self.spec_format()
            == other.spec_format()
    }

    /// The frame that results from a rectangle operation on `old`: same shape,
    /// same number of bytes, marked dirty, and when rows do not overlap the
    /// bytes outside the rectangle's pixels unchanged.
    pub open spec fn spec_rect_frame(&self, old: &Self, x: int, y: int, w: int, h: int) -> bool {
        &&& self.spec_same_shape(old)
        &&& self.spec_pixels().len() == old.spec_pixels().len()
        &&& self.spec_dirty()
        &&& old.spec_rows_disjoint() ==> forall|i: int|
            0 <= i < old.spec_pixels().len() && !spec_covered(
                old.spec_stride() as int,
                i,
                x,
                y,
                w,
                h,
            ) ==> #[trigger] self.spec_pixels()[i] == old.spec_pixels()[i]
    }

    pub fn new(width: u32, height: u32, format: PixelFormat) -> (r: Self)
        requires
            4 * width <= u32::MAX,
            4 * width * height <= usize::MAX,
        ensures
            r.spec_width() == width,
            r.spec_height() == height,
            r.spec_stride() == 4 * width,
            r.spec_format() == format,
            r.spec_pixels() == Seq::new((4 * width * height) as nat, |i: int| 0u8),
            !r.spec_dirty(),
    {
        let stride = width * 4;
        let total = stride as usize * height as usize;
        let pixels = vec![0u8; total];
        assert(pixels@ =~= Seq::new((4 * width * height) as nat, |i: int| 0u8));
        LinearFramebuffer { width, height, stride, format, pixels, dirty: false }
    }

    pub fn from_raw(width: u32, height: u32, stride: u32, format: PixelFormat, data: Vec<u8>) -> (r: Self)
        ensures
            r.spec_width() == width,
            r.spec_height() == height,
            r.spec_stride() == stride,
            r.spec_format() == format,
            r.spec_pixels() == data@,
            !r.spec_dirty(),
    {
        LinearFramebuffer { width, height, stride, format, pixels: data, dirty: false }
    }

    pub fn width(&self) -> (r: u32)
        ensures
            r == self.spec_width(),
    {
        self.width
    }

    pub fn height(&self) -> (r: u32)
        ensures
            r == self.spec_height(),
    {
        self.height
    }

    pub fn stride(&self) -> (r: u32)
        ensures
            r == self.spec_stride(),
    {
        self.stride
    }

    pub fn format(&self) -> (r: PixelFormat)
        ensures
            r == self.spec_format(),
    {
        self.format
    }

    pub fn pixel_bytes(&self) -> (r: usize)
        requires
            self.spec_stride() * self.spec_height() <= usize::MAX,
        ensures
            r == self.spec_stride() * self.spec_height(),
    {
        self.stride as usize * self.height as usize
    }

    /// Whether the pixel bytes hold every row of the frame at its stride.
    pub fn stores_frame(&self) -> (r: bool)
        ensures
            r == self.spec_rect_stored(0, 0, self.spec_width() as int, self.spec_height() as int),
    {
        if self.width == 0 || self.height == 0 {
            return true;
        }
        let rows = (self.height - 1) as u128;
        assert(rows * (self.stride as u128) <= 0xffff_ffff_u128 * 0xffff_ffff_u128) by (nonlinear_arith)
            requires
                rows <= 0xffff_ffff_u128,
                self.stride <= 0xffff_ffff_u32,
        ;
        let need: u128 = rows * (self.stride as u128) + 4 * (self.width as u128);
        need <= self.pixels.len() as u128
    }

    pub fn pixels(&self) -> (r: &[u8])
        ensures
            r@ == self.spec_pixels(),
    {
        self.pixels.as_slice()
    }

    /// Mutable access to the pixel bytes; marks the frame dirty.
    pub fn pixels_mut(&mut self) -> (r: &mut [u8])
        ensures
            r@ == old(self).spec_pixels(),
            final(r)@ == final(self).spec_pixels(),
            final(self).spec_same_shape(old(self)),
            final(self).spec_dirty(),
    {
        self.dirty = true;
        self.pixels.as_mut_slice()
    }

    pub fn is_dirty(&self) -> (r: bool)
        ensures
            r == self.spec_dirty(),
    {
        self.dirty
    }

    pub fn clear_dirty(&mut self)
        ensures
            final(self).spec_same_shape(old(self)),
            final(self).spec_pixels() == old(self).spec_pixels(),
            !final(self).spec_dirty(),
    {
        self.dirty = false;
    }

    /// Writes the four stored bytes of pixel `(x, y)`.
    fn put_raw(&mut self, x: u32, y: u32, raw: [u8; 4])
        requires
            old(self).spec_pixel_stored(x as int, y as int),
        ensures
            final(self).spec_same_shape(old(self)),
            final(self).spec_dirty() == old(self).spec_dirty(),
            final(self).spec_pixels() == spec_splice4(
                old(self).spec_pixels(),
                old(self).spec_offset(x as int, y as int),
                raw@,
            ),
    {
        let ghost off = self.spec_offset(x as int, y as int);
        let len = self.pixels.len();
        proof {
            assert(0 <= y as int * self.stride as int) by (nonlinear_arith);
            assert(y as int * self.stride as int <= off);
        }
        let offset = y as usize * self.stride as usize + 4 * x as usize;
        self.pixels.set(offset, raw[0]);
        self.pixels.set(offset + 1, raw[1]);
        self.pixels.set(offset + 2, raw[2]);
        self.pixels.set(offset + 3, raw[3]);
        assert(self.pixels@ =~= spec_splice4(old(self).spec_pixels(), off, raw@));
    }

    /// Reads the four stored bytes of pixel `(x, y)`.
    fn get_raw(&self, x: u32, y: u32) -> (r: [u8; 4])
        requires
            self.spec_pixel_stored(x as int, y as int),
        ensures
            r@ == self.spec_raw(x as int, y as int),
    {
        let len = self.pixels.len();
        proof {
            assert(0 <= y as int * self.stride as int) by (nonlinear_arith);
            assert(y as int * self.stride as int <= self.spec_offset(x as int, y as int));
        }
        let offset = y as usize * self.stride as usize + 4 * x as usize;
        let r = [
            self.pixels[offset],
            self.pixels[offset + 1],
            self.pixels[offset + 2],
            self.pixels[offset + 3],
        ];
        assert(r@ =~= self.spec_raw(x as int, y as int));
        r
    }

    /// Memory order of an RGBA color in this frame's format.
    fn swizzle(&self, c: [u8; 4]) -> (r: [u8; 4])
        ensures
            r@ == spec_swizzle(self.spec_format(), c@),
    {
        let r = match self.format {
            PixelFormat::Rgba8 => [c[0], c[1], c[2], c[3]],
            _ => [c[2], c[1], c[0], c[3]],
        };
        assert(r@ =~= spec_swizzle(self.spec_format(), c@));
        r
    }

    /// Fills every pixel of the rectangle with the stored bytes `raw`.
    fn fill_region(&mut self, x0: u32, y0: u32, rw: u32, rh: u32, raw: [u8; 4])
        requires
            x0 + rw <= old(self).spec_width(),
            y0 + rh <= old(self).spec_height(),
            old(self).spec_rect_stored(x0 as int, y0 as int, rw as int, rh as int),
        ensures
            final(self).spec_same_shape(old(self)),
            final(self).spec_pixels().len() == old(self).spec_pixels().len(),
            final(self).spec_dirty() == old(self).spec_dirty(),
            old(self).spec_rows_disjoint() ==> forall|px: int, py: int|
                x0 <= px < x0 + rw && y0 <= py < y0 + rh ==> #[trigger] final(self).spec_raw(px, py)
                    == raw@,
            old(self).spec_rows_disjoint() ==> forall|i: int|
                0 <= i < old(self).spec_pixels().len() && !spec_covered(
                    old(self).spec_stride() as int,
                    i,
                    x0 as int,
                    y0 as int,
                    rw as int,
                    rh as int,
                ) ==> #[trigger] final(self).spec_pixels()[i] == old(self).spec_pixels()[i],
    {
        let ghost old_pixels = self.spec_pixels();
        let ghost s = self.spec_stride() as int;
        let ghost w = self.spec_width() as int;
        let ghost disjoint = self.spec_rows_disjoint();
        let y_end = y0 + rh;
        let x_end = x0 + rw;
        let mut row = y0;
        while row < y_end
            invariant
                y0 <= row <= y_end,
                y_end == y0 + rh,
                x_end == x0 + rw,
                x_end <= w,
                y_end <= self.spec_height(),
                s == self.spec_stride(),
                w == self.spec_width(),
                disjoint == (4 * w <= s),
                self.spec_same_shape(old(self)),
                self.spec_pixels().len() == old_pixels.len(),
                self.spec_dirty() == old(self).spec_dirty(),
                old_pixels == old(self).spec_pixels(),
                self.spec_rect_stored(x0 as int, y0 as int, rw as int, rh as int),
                disjoint ==> forall|px: int, py: int|
                    x0 <= px < x_end && y0 <= py < row ==> #[trigger] self.spec_raw(px, py) == raw@,
                disjoint ==> forall|i: int|
                    0 <= i < old_pixels.len() && !spec_covered(
                        s,
                        i,
                        x0 as int,
                        y0 as int,
                        rw as int,
                        row - y0,
                    ) ==> #[trigger] self.spec_pixels()[i] == old_pixels[i],
            decreases y_end - row,
        {
            let mut col = x0;
            while col < x_end
                invariant
                    y0 <= row < y_end,
                    x0 <= col <= x_end,
                    y_end == y0 + rh,
                    x_end == x0 + rw,
                    x_end <= w,
                    y_end <= self.spec_height(),
                    s == self.spec_stride(),
                    w == self.spec_width(),
                    disjoint == (4 * w <= s),
                    self.spec_same_shape(old(self)),
                    self.spec_pixels().len() == old_pixels.len(),
                    self.spec_dirty() == old(self).spec_dirty(),
                    old_pixels == old(self).spec_pixels(),
                    self.spec_rect_stored(x0 as int, y0 as int, rw as int, rh as int),
                    disjoint ==> forall|px: int, py: int|
                        ((x0 <= px < x_end && y0 <= py < row) || (x0 <= px < col && py == row))
                            ==> #[trigger] self.spec_raw(px, py) == raw@,
                    disjoint ==> forall|i: int|
                        0 <= i < old_pixels.len() && !spec_covered(
                            s,
                            i,
                            x0 as int,
                            y0 as int,
                            rw as int,
                            row - y0,
                        ) && !spec_covered(s, i, x0 as int, row as int, col - x0, 1)
                            ==> #[trigger] self.spec_pixels()[i] == old_pixels[i],
                decreases x_end - col,
            {
                proof {
                    lemma_row_bound(s, row as int, y_end as int);
                    assert(self.spec_pixel_stored(col as int, row as int));
                }
                let ghost before = self.spec_pixels();
                let ghost prev = *self;
                let ghost off = self.spec_offset(col as int, row as int);
                self.put_raw(col, row, raw);
                proof {
                    let after = self.spec_pixels();
                    assert(forall|j: int| 0 <= j < after.len() && !(off <= j < off + 4)
                        ==> after[j] == before[j]);
                    assert(self.spec_raw(col as int, row as int) =~= raw@);
                    if disjoint {
                        assert forall|px: int, py: int|
                            ((x0 <= px < x_end && y0 <= py < row) || (x0 <= px < col + 1 && py
                                == row)) implies #[trigger] self.spec_raw(px, py) == raw@ by {
                            if px != col || py != row {
                                let o = py * s + 4 * px;
                                lemma_row_bound(s, py, y_end as int);
                                assert(o + 4 <= after.len());
                                assert forall|j: int| o <= j < o + 4 implies #[trigger] after[j]
                                    == before[j] by {
                                    assert(spec_in_pixel(s, j, px, py));
                                    lemma_pixels_disjoint(s, w, px, py, col as int, row as int, j);
                                }
                                assert(self.spec_raw(px, py) =~= old_raw(before, o));
                                assert(prev.spec_raw(px, py) =~= old_raw(before, o));
                                assert(prev.spec_raw(px, py) == raw@);
                            }
                        }
                        assert forall|i: int|
                            0 <= i < old_pixels.len() && !spec_covered(
                                s,
                                i,
                                x0 as int,
                                y0 as int,
                                rw as int,
                                row - y0,
                            ) && !spec_covered(s, i, x0 as int, row as int, col + 1 - x0, 1)
                                implies #[trigger] self.spec_pixels()[i] == old_pixels[i] by {
                            assert(!spec_in_pixel(s, i, col as int, row as int));
                            if spec_covered(s, i, x0 as int, row as int, col - x0, 1) {
                                let (px, py) = choose|px: int, py: int|
                                    x0 <= px < col && row <= py < row + 1 && #[trigger] spec_in_pixel(
                                        s,
                                        i,
                                        px,
                                        py,
                                    );
                                assert(x0 <= px < col + 1 && row <= py < row + 1 && spec_in_pixel(s, i, px, py));
                            }
                        }
                    }
                }
                col = col + 1;
            }
            proof {
                if disjoint {
                    assert forall|i: int|
                        0 <= i < old_pixels.len() && !spec_covered(
                            s,
                            i,
                            x0 as int,
                            y0 as int,
                            rw as int,
                            row + 1 - y0,
                        ) implies #[trigger] self.spec_pixels()[i] == old_pixels[i] by {
                        if spec_covered(s, i, x0 as int, y0 as int, rw as int, row - y0) {
                            let (px, py) = choose|px: int, py: int|
                                x0 <= px < x0 + rw && y0 <= py < y0 + (row - y0) && #[trigger] spec_in_pixel(
                                    s,
                                    i,
                                    px,
                                    py,
                                );
                            assert(x0 <= px < x0 + rw && y0 <= py < y0 + (row + 1 - y0) && spec_in_pixel(s, i, px, py));
                        }
                        if spec_covered(s, i, x0 as int, row as int, col - x0, 1) {
                            let (px, py) = choose|px: int, py: int|
                                x0 <= px < col && row <= py < row + 1 && #[trigger] spec_in_pixel(
                                    s,
                                    i,
                                    px,
                                    py,
                                );
                            assert(x0 <= px < x0 + rw && y0 <= py < y0 + (row + 1 - y0) && spec_in_pixel(s, i, px, py));
                        }
                    }
                }
            }
            row = row + 1;
        }
    }

    /// Copies the stored bytes of the `rw` x `rh` rectangle of `src` at `(sx, sy)`
    /// onto the rectangle at `(x0, y0)`.
    fn copy_region(&mut self, x0: u32, y0: u32, rw: u32, rh: u32, src: &LinearFramebuffer, sx: u32, sy: u32)
        requires
            x0 + rw <= old(self).spec_width(),
            y0 + rh <= old(self).spec_height(),
            old(self).spec_rect_stored(x0 as int, y0 as int, rw as int, rh as int),
            sx + rw <= src.spec_width(),
            sy + rh <= src.spec_height(),
            src.spec_rect_stored(sx as int, sy as int, rw as int, rh as int),
        ensures
            final(self).spec_same_shape(old(self)),
            final(self).spec_pixels().len() == old(self).spec_pixels().len(),
            final(self).spec_dirty() == old(self).spec_dirty(),
            old(self).spec_rows_disjoint() ==> forall|px: int, py: int|
                x0 <= px < x0 + rw && y0 <= py < y0 + rh ==> #[trigger] final(self).spec_raw(px, py)
                    == src.spec_raw(sx + (px - x0), sy + (py - y0)),
            old(self).spec_rows_disjoint() ==> forall|i: int|
                0 <= i < old(self).spec_pixels().len() && !spec_covered(
                    old(self).spec_stride() as int,
                    i,
                    x0 as int,
                    y0 as int,
                    rw as int,
                    rh as int,
                ) ==> #[trigger] final(self).spec_pixels()[i] == old(self).spec_pixels()[i],
    {
        let ghost old_pixels = self.spec_pixels();
        let ghost s = self.spec_stride() as int;
        let ghost w = self.spec_width() as int;
        let ghost disjoint = self.spec_rows_disjoint();
        let y_end = y0 + rh;
        let x_end = x0 + rw;
        let mut row = y0;
        while row < y_end
            invariant
                y0 <= row <= y_end,
                y_end == y0 + rh,
                x_end == x0 + rw,
                x_end <= w,
                y_end <= self.spec_height(),
                s == self.spec_stride(),
                w == self.spec_width(),
                disjoint == (4 * w <= s),
                self.spec_same_shape(old(self)),
                self.spec_pixels().len() == old_pixels.len(),
                self.spec_dirty() == old(self).spec_dirty(),
                old_pixels == old(self).spec_pixels(),
                self.spec_rect_stored(x0 as int, y0 as int, rw as int, rh as int),
                sx + rw <= src.spec_width(),
                sy + rh <= src.spec_height(),
                src.spec_rect_stored(sx as int, sy as int, rw as int, rh as int),
                disjoint ==> forall|px: int, py: int|
                    x0 <= px < x_end && y0 <= py < row ==> #[trigger] self.spec_raw(px, py) == src.spec_raw(sx + (px - x0), sy + (py - y0)),
                disjoint ==> forall|i: int|
                    0 <= i < old_pixels.len() && !spec_covered(
                        s,
                        i,
                        x0 as int,
                        y0 as int,
                        rw as int,
                        row - y0,
                    ) ==> #[trigger] self.spec_pixels()[i] == old_pixels[i],
            decreases y_end - row,
        {
            let mut col = x0;
            while col < x_end
                invariant
                    y0 <= row < y_end,
                    x0 <= col <= x_end,
                    y_end == y0 + rh,
                    x_end == x0 + rw,
                    x_end <= w,
                    y_end <= self.spec_height(),
                    s == self.spec_stride(),
                    w == self.spec_width(),
                    disjoint == (4 * w <= s),
                    self.spec_same_shape(old(self)),
                    self.spec_pixels().len() == old_pixels.len(),
                    self.spec_dirty() == old(self).spec_dirty(),
                    old_pixels == old(self).spec_pixels(),
                    self.spec_rect_stored(x0 as int, y0 as int, rw as int, rh as int),
                    sx + rw <= src.spec_width(),
                    sy + rh <= src.spec_height(),
                    src.spec_rect_stored(sx as int, sy as int, rw as int, rh as int),
                sx + rw <= src.spec_width(),
                sy + rh <= src.spec_height(),
                src.spec_rect_stored(sx as int, sy as int, rw as int, rh as int),
                    disjoint ==> forall|px: int, py: int|
                        ((x0 <= px < x_end && y0 <= py < row) || (x0 <= px < col && py == row))
                            ==> #[trigger] self.spec_raw(px, py) == src.spec_raw(sx + (px - x0), sy + (py - y0)),
                    disjoint ==> forall|i: int|
                        0 <= i < old_pixels.len() && !spec_covered(
                            s,
                            i,
                            x0 as int,
                            y0 as int,
                            rw as int,
                            row - y0,
                        ) && !spec_covered(s, i, x0 as int, row as int, col - x0, 1)
                            ==> #[trigger] self.spec_pixels()[i] == old_pixels[i],
                decreases x_end - col,
            {
                proof {
                    lemma_row_bound(s, row as int, y_end as int);
                    assert(self.spec_pixel_stored(col as int, row as int));
                }
                proof {
                    lemma_row_bound(src.spec_stride() as int, (sy + (row - y0)) as int, (sy + rh) as int);
                }
                let raw = src.get_raw(sx + (col - x0), sy + (row - y0));
                let ghost before = self.spec_pixels();
                let ghost prev = *self;
                let ghost off = self.spec_offset(col as int, row as int);
                self.put_raw(col, row, raw);
                proof {
                    let after = self.spec_pixels();
                    assert(forall|j: int| 0 <= j < after.len() && !(off <= j < off + 4)
                        ==> after[j] == before[j]);
                    assert(self.spec_raw(col as int, row as int) =~= raw@);
                    assert(raw@ == src.spec_raw(sx + (col - x0), sy + (row - y0)));
                    if disjoint {
                        assert forall|px: int, py: int|
                            ((x0 <= px < x_end && y0 <= py < row) || (x0 <= px < col + 1 && py
                                == row)) implies #[trigger] self.spec_raw(px, py) == src.spec_raw(sx + (px - x0), sy + (py - y0)) by {
                            if px != col || py != row {
                                let o = py * s + 4 * px;
                                lemma_row_bound(s, py, y_end as int);
                                assert(o + 4 <= after.len());
                                assert forall|j: int| o <= j < o + 4 implies #[trigger] after[j]
                                    == before[j] by {
                                    assert(spec_in_pixel(s, j, px, py));
                                    lemma_pixels_disjoint(s, w, px, py, col as int, row as int, j);
                                }
                                assert(self.spec_raw(px, py) =~= old_raw(before, o));
                                assert(prev.spec_raw(px, py) =~= old_raw(before, o));
                                assert(prev.spec_raw(px, py) == src.spec_raw(sx + (px - x0), sy + (py - y0)));
                            }
                        }
                        assert forall|i: int|
                            0 <= i < old_pixels.len() && !spec_covered(
                                s,
                                i,
                                x0 as int,
                                y0 as int,
                                rw as int,
                                row - y0,
                            ) && !spec_covered(s, i, x0 as int, row as int, col + 1 - x0, 1)
                                implies #[trigger] self.spec_pixels()[i] == old_pixels[i] by {
                            assert(!spec_in_pixel(s, i, col as int, row as int));
                            if spec_covered(s, i, x0 as int, row as int, col - x0, 1) {
                                let (px, py) = choose|px: int, py: int|
                                    x0 <= px < col && row <= py < row + 1 && #[trigger] spec_in_pixel(
                                        s,
                                        i,
                                        px,
                                        py,
                                    );
                                assert(x0 <= px < col + 1 && row <= py < row + 1 && spec_in_pixel(s, i, px, py));
                            }
                        }
                    }
                }
                col = col + 1;
            }
            proof {
                if disjoint {
                    assert forall|i: int|
                        0 <= i < old_pixels.len() && !spec_covered(
                            s,
                            i,
                            x0 as int,
                            y0 as int,
                            rw as int,
                            row + 1 - y0,
                        ) implies #[trigger] self.spec_pixels()[i] == old_pixels[i] by {
                        if spec_covered(s, i, x0 as int, y0 as int, rw as int, row - y0) {
                            let (px, py) = choose|px: int, py: int|
                                x0 <= px < x0 + rw && y0 <= py < y0 + (row - y0) && #[trigger] spec_in_pixel(
                                    s,
                                    i,
                                    px,
                                    py,
                                );
                            assert(x0 <= px < x0 + rw && y0 <= py < y0 + (row + 1 - y0) && spec_in_pixel(s, i, px, py));
                        }
                        if spec_covered(s, i, x0 as int, row as int, col - x0, 1) {
                            let (px, py) = choose|px: int, py: int|
                                x0 <= px < col && row <= py < row + 1 && #[trigger] spec_in_pixel(
                                    s,
                                    i,
                                    px,
                                    py,
                                );
                            assert(x0 <= px < x0 + rw && y0 <= py < y0 + (row + 1 - y0) && spec_in_pixel(s, i, px, py));
                        }
                    }
                }
            }
            row = row + 1;
        }
    }

    /// Fills the whole frame with `color`.
    pub fn clear(&mut self, color: [u8; 4])
        requires
            old(self).spec_rect_stored(
                0,
                0,
                old(self).spec_width() as int,
                old(self).spec_height() as int,
            ),
        ensures
            final(self).spec_rect_frame(
                old(self),
                0,
                0,
                old(self).spec_width() as int,
                old(self).spec_height() as int,
            ),
            old(self).spec_rows_disjoint() ==> forall|px: int, py: int|
                0 <= px < old(self).spec_width() && 0 <= py < old(self).spec_height()
                    ==> #[trigger] final(self).spec_pixel(px, py) == color@,
    {
        let raw = self.swizzle(color);
        let w = self.width;
        let h = self.height;
        self.dirty = true;
        self.fill_region(0, 0, w, h, raw);
        proof {
            lemma_swizzle_involution(self.spec_format(), color@);
        }
    }

    /// Fills the `w` x `h` rectangle at `(x, y)` with `color`.
    pub fn fill_rect(&mut self, x: u32, y: u32, w: u32, h: u32, color: [u8; 4]) -> (r: Result<
        (),
        FramebufferError,
    >)
        requires
            x + w <= u32::MAX,
            y + h <= u32::MAX,
            x + w <= old(self).spec_width() && y + h <= old(self).spec_height()
                ==> old(self).spec_rect_stored(x as int, y as int, w as int, h as int),
        ensures
            !(x + w <= old(self).spec_width() && y + h <= old(self).spec_height()) ==> {
                &&& r == Err::<(), FramebufferError>(
                    FramebufferError::OutOfBounds {
                        x: (x + w) as u32,
                        y: (y + h) as u32,
                        width: old(self).spec_width(),
                        height: old(self).spec_height(),
                    },
                )
                &&& *final(self) == *old(self)
            },
            x + w <= old(self).spec_width() && y + h <= old(self).spec_height() ==> {
                &&& r is Ok
                &&& final(self).spec_rect_frame(old(self), x as int, y as int, w as int, h as int)
                &&& old(self).spec_rows_disjoint() ==> forall|px: int, py: int|
                    x <= px < x + w && y <= py < y + h ==> #[trigger] final(self).spec_pixel(px, py)
                        == color@
            },
    {
        if x + w > self.width || y + h > self.height {
            return Err(
                FramebufferError::OutOfBounds {
                    x: x + w,
                    y: y + h,
                    width: self.width,
                    height: self.height,
                },
            );
        }
        let raw = self.swizzle(color);
        self.dirty = true;
        self.fill_region(x, y, w, h, raw);
        proof {
            lemma_swizzle_involution(self.spec_format(), color@);
        }
        Ok(())
    }

    /// Copies the `region` of `src` at `src_origin` onto this frame at `dst`.
    pub fn blit(
        &mut self,
        dst: (u32, u32),
        src: &LinearFramebuffer,
        src_origin: (u32, u32),
        region: (u32, u32),
    ) -> (r: Result<(), FramebufferError>)
        requires
            dst.0 + region.0 <= u32::MAX,
            dst.1 + region.1 <= u32::MAX,
            src_origin.0 + region.0 <= u32::MAX,
            src_origin.1 + region.1 <= u32::MAX,
            src.spec_format() == old(self).spec_format() && dst.0 + region.0
                <= old(self).spec_width() && dst.1 + region.1 <= old(self).spec_height()
                && src_origin.0 + region.0 <= src.spec_width() && src_origin.1 + region.1
                <= src.spec_height() ==> {
                &&& old(self).spec_rect_stored(
                    dst.0 as int,
                    dst.1 as int,
                    region.0 as int,
                    region.1 as int,
                )
                &&& src.spec_rect_stored(
                    src_origin.0 as int,
                    src_origin.1 as int,
                    region.0 as int,
                    region.1 as int,
                )
            },
        ensures
            src.spec_format() != old(self).spec_format() ==> r == Err::<(), FramebufferError>(
                FramebufferError::BlitDimensionsMismatch,
            ) && *final(self) == *old(self),
            src.spec_format() == old(self).spec_format() && !(dst.0 + region.0
                <= old(self).spec_width() && dst.1 + region.1 <= old(self).spec_height()) ==> r
                == Err::<(), FramebufferError>(
                FramebufferError::OutOfBounds {
                    x: (dst.0 + region.0) as u32,
                    y: (dst.1 + region.1) as u32,
                    width: old(self).spec_width(),
                    height: old(self).spec_height(),
                },
            ) && *final(self) == *old(self),
            src.spec_format() == old(self).spec_format() && dst.0 + region.0
                <= old(self).spec_width() && dst.1 + region.1 <= old(self).spec_height() && !(
            src_origin.0 + region.0 <= src.spec_width() && src_origin.1 + region.1
                <= src.spec_height()) ==> r == Err::<(), FramebufferError>(
                FramebufferError::OutOfBounds {
                    x: (src_origin.0 + region.0) as u32,
                    y: (src_origin.1 + region.1) as u32,
                    width: src.spec_width(),
                    height: src.spec_height(),
                },
            ) && *final(self) == *old(self),
            src.spec_format() == old(self).spec_format() && dst.0 + region.0
                <= old(self).spec_width() && dst.1 + region.1 <= old(self).spec_height()
                && src_origin.0 + region.0 <= src.spec_width() && src_origin.1 + region.1
                <= src.spec_height() ==> {
                &&& r is Ok
                &&& final(self).spec_rect_frame(
                    old(self),
                    dst.0 as int,
                    dst.1 as int,
                    region.0 as int,
                    region.1 as int,
                )
                &&& old(self).spec_rows_disjoint() ==> forall|rx: int, ry: int|
                    0 <= rx < region.0 && 0 <= ry < region.1 ==> #[trigger] final(self).spec_raw(
                        dst.0 + rx,
                        dst.1 + ry,
                    ) == src.spec_raw(src_origin.0 + rx, src_origin.1 + ry)
            },
    {
        let (dst_x, dst_y) = dst;
        let (src_x, src_y) = src_origin;
        let (blit_width, blit_height) = region;
        if src.format != self.format {
            return Err(FramebufferError::BlitDimensionsMismatch);
        }
        if dst_x + blit_width > self.width || dst_y + blit_height > self.height {
            return Err(
                FramebufferError::OutOfBounds {
                    x: dst_x + blit_width,
                    y: dst_y + blit_height,
                    width: self.width,
                    height: self.height,
                },
            );
        }
        if src_x + blit_width > src.width || src_y + blit_height > src.height {
            return Err(
                FramebufferError::OutOfBounds {
                    x: src_x + blit_width,
                    y: src_y + blit_height,
                    width: src.width,
                    height: src.height,
                },
            );
        }
        self.dirty = true;
        self.copy_region(dst_x, dst_y, blit_width, blit_height, src, src_x, src_y);
        proof {
            if self.spec_rows_disjoint() {
                assert forall|rx: int, ry: int|
                    0 <= rx < blit_width && 0 <= ry < blit_height implies #[trigger] self.spec_raw(
                        dst_x + rx,
                        dst_y + ry,
                    ) == src.spec_raw(src_x + rx, src_y + ry) by {
                    assert(self.spec_raw(dst_x + rx, dst_y + ry) == src.spec_raw(
                        src_x + ((dst_x + rx) - dst_x),
                        src_y + ((dst_y + ry) - dst_y),
                    ));
                }
            }
        }
        Ok(())
    }

    /// Hands out the pixel bytes for scanout and clears the dirty mark.
    pub fn present(&mut self) -> (r: &[u8])
        ensures
            r@ == old(self).spec_pixels(),
            final(self).spec_same_shape(old(self)),
            final(self).spec_pixels() == old(self).spec_pixels(),
            !final(self).spec_dirty(),
    {
        self.dirty = false;
        self.pixels.as_slice()
    }

    pub fn set_pixel(&mut self, x: u32, y: u32, color: [u8; 4]) -> (r: Result<(), FramebufferError>)
        requires
            x < old(self).spec_width() && y < old(self).spec_height()
                ==> old(self).spec_pixel_stored(x as int, y as int),
        ensures
            !(x < old(self).spec_width() && y < old(self).spec_height()) ==> {
                &&& r == Err::<(), FramebufferError>(
                    FramebufferError::OutOfBounds {
                        x,
                        y,
                        width: old(self).spec_width(),
                        height: old(self).spec_height(),
                    },
                )
                &&& *final(self) == *old(self)
            },
            x < old(self).spec_width() && y < old(self).spec_height() ==> {
                &&& r is Ok
                &&& final(self).spec_same_shape(old(self))
                &&& final(self).spec_dirty()
                &&& final(self).spec_pixels() == spec_splice4(
                    old(self).spec_pixels(),
                    old(self).spec_offset(x as int, y as int),
                    spec_swizzle(old(self).spec_format(), color@),
                )
            },
    {
        if x >= self.width || y >= self.height {
            return Err(
                FramebufferError::OutOfBounds { x, y, width: self.width, height: self.height },
            );
        }
        let raw = self.swizzle(color);
        self.put_raw(x, y, raw);
        self.dirty = true;
        Ok(())
    }

    pub fn get_pixel(&self, x: u32, y: u32) -> (r: Result<[u8; 4], FramebufferError>)
        requires
            x < self.spec_width() && y < self.spec_height() ==> self.spec_pixel_stored(
                x as int,
                y as int,
            ),
        ensures
            !(x < self.spec_width() && y < self.spec_height()) ==> r == Err::<
                [u8; 4],
                FramebufferError,
            >(
                FramebufferError::OutOfBounds {
                    x,
                    y,
                    width: self.spec_width(),
                    height: self.spec_height(),
                },
            ),
            x < self.spec_width() && y < self.spec_height() ==> (r matches Ok(c) && c@
                == self.spec_pixel(x as int, y as int)),
    {
        if x >= self.width || y >= self.height {
            return Err(
                FramebufferError::OutOfBounds { x, y, width: self.width, height: self.height },
            );
        }
        let raw = self.get_raw(x, y);
        let r = self.swizzle(raw);
        proof {
            let s = raw@;
            assert(spec_swizzle(self.spec_format(), s) =~= spec_swizzle(self.spec_format(), self.spec_raw(x as int, y as int)));
        }
        Ok(r)
    }
}

/// Reading a pixel back after writing it gives the written color: the frame
/// `set_pixel` leaves for `(x, y)` and `color` reads `color` at `(x, y)`.
pub proof fn law_set_then_get(fb: LinearFramebuffer, after: LinearFramebuffer, x: int, y: int, color: Seq<u8>)
    requires
        color.len() == 4,
        0 <= x,
        0 <= y,
        fb.spec_pixel_stored(x, y),
        after.spec_same_shape(&fb),
        after.spec_pixels() == spec_splice4(
            fb.spec_pixels(),
            fb.spec_offset(x, y),
            spec_swizzle(fb.spec_format(), color),
        ),
    ensures
        after.spec_pixel(x, y) == color,
{
    assert(0 <= y * fb.spec_stride()) by (nonlinear_arith)
        requires
            0 <= y,
    ;
    let w = spec_swizzle(fb.spec_format(), color);
    assert(after.spec_raw(x, y) =~= w);
    lemma_swizzle_involution(fb.spec_format(), color);
}

/// Pixels are stored in their format's memory order: an `Rgba8` frame holds a
/// pixel's red, green, blue and alpha bytes in that order, a `Bgra8` or
/// `Bgrx8` frame holds blue, green, red, then alpha (or padding). So the
/// colour read from a pixel (by `get_pixel`, and the colour `clear` and
/// `fill_rect` promise) is the stored bytes taken in that order.
pub proof fn law_pixel_byte_order(fb: LinearFramebuffer, x: int, y: int)
    requires
        0 <= x,
        0 <= y,
        fb.spec_pixel_stored(x, y),
    ensures
        ({
            let o = fb.spec_offset(x, y);
            let p = fb.spec_pixels();
            &&& fb.spec_format() == PixelFormat::Rgba8 ==> fb.spec_pixel(x, y) == seq![p[o], p[o + 1], p[o + 2], p[o + 3]]
            &&& fb.spec_format() != PixelFormat::Rgba8 ==> fb.spec_pixel(x, y) == seq![p[o + 2], p[o + 1], p[o], p[o + 3]]
        }),
{
    assert(0 <= y * fb.spec_stride()) by (nonlinear_arith)
        requires
            0 <= y,
    ;
    let o = fb.spec_offset(x, y);
    let p = fb.spec_pixels();
    if fb.spec_format() == PixelFormat::Rgba8 {
        assert(fb.spec_pixel(x, y) =~= seq![p[o], p[o + 1], p[o + 2], p[o + 3]]);
    } else {
        assert(fb.spec_pixel(x, y) =~= seq![p[o + 2], p[o + 1], p[o], p[o + 3]]);
    }
}

/// After `set_pixel(x, y, c)` succeeds, the four bytes at the pixel's offset
/// (the bytes `present` hands to scanout) are `c` in memory order: `c[0],
/// c[1], c[2], c[3]` for `Rgba8`, and `c[2], c[1], c[0], c[3]` for `Bgra8`
/// and `Bgrx8`; every other byte of the frame is unchanged.
pub proof fn law_set_pixel_stores_memory_order(
    fb: LinearFramebuffer,
    after: LinearFramebuffer,
    x: int,
    y: int,
    c: Seq<u8>,
)
    requires
        c.len() == 4,
        0 <= x,
        0 <= y,
        fb.spec_pixel_stored(x, y),
        after.spec_same_shape(&fb),
        after.spec_pixels() == spec_splice4(
            fb.spec_pixels(),
            fb.spec_offset(x, y),
            spec_swizzle(fb.spec_format(), c),
        ),
    ensures
        ({
            let o = fb.spec_offset(x, y);
            let q = after.spec_pixels();
            &&& q.len() == fb.spec_pixels().len()
            &&& fb.spec_format() == PixelFormat::Rgba8 ==> q[o] == c[0] && q[o + 1] == c[1] && q[o + 2] == c[2]
                && q[o + 3] == c[3]
            &&& fb.spec_format() != PixelFormat::Rgba8 ==> q[o] == c[2] && q[o + 1] == c[1] && q[o + 2] == c[0]
                && q[o + 3] == c[3]
            &&& forall|i: int| 0 <= i < q.len() && !(o <= i < o + 4) ==> q[i] == fb.spec_pixels()[i]
        }),
{
    assert(0 <= y * fb.spec_stride()) by (nonlinear_arith)
        requires
            0 <= y,
    ;
    let o = fb.spec_offset(x, y);
    let q = after.spec_pixels();
    let p = fb.spec_pixels();
    assert forall|i: int| 0 <= i < q.len() && !(o <= i < o + 4) implies q[i] == p[i] by {
        if i < o {
            assert(q[i] == p.subrange(0, o)[i]);
        } else {
            assert(q[i] == p.subrange(o + 4, p.len() as int)[i - o - 4]);
        }
    }
}

/// Writing one pixel leaves every other pixel of the frame as it was, when
/// rows do not overlap.
pub proof fn law_set_keeps_other_pixels(
    fb: LinearFramebuffer,
    after: LinearFramebuffer,
    x: int,
    y: int,
    color: Seq<u8>,
    qx: int,
    qy: int,
)
    requires
        color.len() == 4,
        fb.spec_rows_disjoint(),
        0 <= x < fb.spec_width(),
        0 <= y,
        0 <= qx < fb.spec_width(),
        0 <= qy,
        qx != x || qy != y,
        fb.spec_pixel_stored(x, y),
        fb.spec_pixel_stored(qx, qy),
        after.spec_same_shape(&fb),
        after.spec_pixels() == spec_splice4(
            fb.spec_pixels(),
            fb.spec_offset(x, y),
            spec_swizzle(fb.spec_format(), color),
        ),
    ensures
        after.spec_pixel(qx, qy) == fb.spec_pixel(qx, qy),
{
    let s = fb.spec_stride() as int;
    assert(0 <= y * s) by (nonlinear_arith)
        requires
            0 <= y,
            0 <= s,
    ;
    assert(0 <= qy * s) by (nonlinear_arith)
        requires
            0 <= qy,
            0 <= s,
    ;
    let o = qy * s + 4 * qx;
    assert forall|j: int| o <= j < o + 4 implies #[trigger] after.spec_pixels()[j]
        == fb.spec_pixels()[j] by {
        assert(spec_in_pixel(s, j, qx, qy));
        lemma_pixels_disjoint(s, fb.spec_width() as int, qx, qy, x, y, j);
    }
    assert(after.spec_raw(qx, qy) =~= fb.spec_raw(qx, qy));
}

/// Front and back frames of a swap chain.
#[derive(Debug, Clone)]
pub struct DoubleBuffer {
    front: LinearFramebuffer,
    back: LinearFramebuffer,
}

impl DoubleBuffer {
    pub closed spec fn spec_front(&self) -> LinearFramebuffer {
        self.front
    }

    pub closed spec fn spec_back(&self) -> LinearFramebuffer {
        self.back
    }

    pub fn new(width: u32, height: u32, format: PixelFormat) -> (r: Self)
        requires
            4 * width <= u32::MAX,
            4 * width * height <= usize::MAX,
        ensures
            r.spec_front().spec_width() == width && r.spec_back().spec_width() == width,
            r.spec_front().spec_height() == height && r.spec_back().spec_height() == height,
            r.spec_front().spec_stride() == 4 * width && r.spec_back().spec_stride() == 4 * width,
            r.spec_front().spec_format() == format && r.spec_back().spec_format() == format,
            r.spec_front().spec_pixels() == Seq::new((4 * width * height) as nat, |i: int| 0u8),
            r.spec_back().spec_pixels() == Seq::new((4 * width * height) as nat, |i: int| 0u8),
            !r.spec_front().spec_dirty() && !r.spec_back().spec_dirty(),
    {
        DoubleBuffer {
            front: LinearFramebuffer::new(width, height, format),
            back: LinearFramebuffer::new(width, height, format),
        }
    }

    pub fn front(&self) -> (r: &LinearFramebuffer)
        ensures
            *r == self.spec_front(),
    {
        &self.front
    }

    pub fn back(&self) -> (r: &LinearFramebuffer)
        ensures
            *r == self.spec_back(),
    {
        &self.back
    }

    pub fn back_mut(&mut self) -> (r: &mut LinearFramebuffer)
        ensures
            *r == old(self).spec_back(),
            final(self).spec_front() == old(self).spec_front(),
            final(self).spec_back() == *final(r),
    {
        &mut self.back
    }

    /// Exchanges the frames; the new back frame starts clean.
    pub fn swap(&mut self)
        ensures
            final(self).spec_front() == old(self).spec_back(),
            final(self).spec_back().spec_same_shape(&old(self).spec_front()),
            final(self).spec_back().spec_pixels() == old(self).spec_front().spec_pixels(),
            !final(self).spec_back().spec_dirty(),
    {
        std::mem::swap(&mut self.front, &mut self.back);
        self.back.clear_dirty();
    }

    pub fn width(&self) -> (r: u32)
        ensures
            r == self.spec_front().spec_width(),
    {
        self.front.width()
    }

    pub fn height(&self) -> (r: u32)
        ensures
            r == self.spec_front().spec_height(),
    {
        self.front.height()
    }

    pub fn format(&self) -> (r: PixelFormat)
        ensures
            r == self.spec_front().spec_format(),
    {
        self.front.format()
    }
}

} // verus!
