//! The buffer core and view registry: pixel storage with format and
//! orientation metadata, and ownership-counted sharing of one storage block
//! across a root buffer and its views.

use vstd::prelude::*;
use vstd::arithmetic::mul::{lemma_mul_inequality, lemma_mul_nonnegative, lemma_mul_upper_bound};
use crate::pixel::{
    le_decode, lemma_le_decode_agree, lemma_le_decode_encoded, lemma_le_decode_zero, read_cell,
    spec_masked, write_cell, PixelType,
};
use crate::GfxError;

verus! {

/// Largest width or height a buffer may have, in pixels.
pub const MAX_DIM: u32 = 0x4000_0000;

/// Largest number of bytes one storage block may hold; allocations beyond it
/// fail with `AllocationFailure`.
pub const MAX_STORE_BYTES: u64 = 0x4000_0000;

/// Color-correction setting of a buffer.
#[derive(Clone, Copy, PartialEq, Eq, Structural, Debug)]
pub enum Correction {
    /// No correction set.
    Unset,
    /// Gamma correction with the coefficient given in thousandths.
    Gamma(u32),
    /// The fixed standard sRGB colorspace.
    Srgb,
}

/// The storage block one buffer family (a root plus all its views) shares,
/// together with the family's ownership count.
#[derive(Debug)]
pub struct PixelStore {
    /// The raw bytes every family member draws into.
    pub bytes: Vec<u8>,
    /// How many family members (the root plus every live view) hold the block.
    pub holders: u64,
    /// True when the bytes were supplied by the caller; such storage is never
    /// released by this component.
    pub external: bool,
}

/// Whether a holder counted by `holders` is the sole owner of its block, and
/// so permitted structural mutation.
pub open spec fn spec_sole_owner(holders: u64) -> bool {
    holders == 1
}

/// Whether a fresh block of `h` rows of `row_bytes` bytes each may be
/// allocated for a buffer `w` pixels wide.
pub open spec fn spec_alloc_ok(w: int, h: int, row_bytes: int) -> bool {
    &&& w <= MAX_DIM
    &&& h <= MAX_DIM
    &&& row_bytes <= MAX_STORE_BYTES
    &&& row_bytes * h <= MAX_STORE_BYTES
}

/// One member of a buffer family: either the root buffer or a rectangular
/// view. A member holds only metadata; the pixel bytes live in the family's
/// [`PixelStore`].
#[derive(Debug)]
pub struct Pixmap {
    /// Leftmost storage column of this member's rectangle, in pixels.
    pub x_off: u32,
    /// Topmost storage row of this member's rectangle.
    pub y_off: u32,
    /// Physical width of this member's rectangle, before orientation flags.
    pub raw_w: u32,
    /// Physical height of this member's rectangle, before orientation flags.
    pub raw_h: u32,
    /// Bytes per storage row of the whole family block.
    pub stride: u32,
    /// Pixel format; identical across one family.
    pub format: PixelType,
    /// Mirror the x direction.
    pub x_swap: bool,
    /// Mirror the y direction.
    pub y_swap: bool,
    /// Exchange the two axes; logical width and height appear swapped.
    pub axes_swap: bool,
    /// Color-correction setting.
    pub correction: Correction,
}

impl Pixmap {
    /// Bytes of storage one pixel occupies.
    pub open spec fn spec_bpp(self) -> nat {
        self.format.spec_bpp()
    }

    /// Logical width: physical width after the orientation flags.
    pub open spec fn spec_w(self) -> u32 {
        if self.axes_swap {
            self.raw_h
        } else {
            self.raw_w
        }
    }

    /// Logical height: physical height after the orientation flags.
    pub open spec fn spec_h(self) -> u32 {
        if self.axes_swap {
            self.raw_w
        } else {
            self.raw_h
        }
    }

    /// Whether the logical coordinates (x, y) are inside this member's extent.
    pub open spec fn in_bounds(self, x: int, y: int) -> bool {
        0 <= x < self.spec_w() && 0 <= y < self.spec_h()
    }

    /// Physical column, within this member's rectangle, addressed by the
    /// logical coordinates (x, y).
    pub open spec fn phys_x(self, x: int, y: int) -> int {
        let a = if self.axes_swap {
            y
        } else {
            x
        };
        if self.x_swap {
            self.raw_w - 1 - a
        } else {
            a
        }
    }

    /// Physical row, within this member's rectangle, addressed by the logical
    /// coordinates (x, y).
    pub open spec fn phys_y(self, x: int, y: int) -> int {
        let b = if self.axes_swap {
            x
        } else {
            y
        };
        if self.y_swap {
            self.raw_h - 1 - b
        } else {
            b
        }
    }

    /// Byte offset, in the family block, of this member's physical cell
    /// (px, py).
    pub open spec fn cell_off(self, px: int, py: int) -> int {
        (self.y_off + py) * self.stride + (self.x_off + px) * self.spec_bpp()
    }

    /// Geometric containment of this member's rectangle in a block of `len`
    /// bytes. Constructors establish it and every operation preserves it.
    pub open spec fn fits(self, len: int) -> bool {
        &&& self.raw_w <= MAX_DIM
        &&& self.raw_h <= MAX_DIM
        &&& self.x_off + self.raw_w <= u32::MAX
        &&& self.y_off + self.raw_h <= u32::MAX
        &&& (self.x_off + self.raw_w) * self.spec_bpp() <= self.stride
        &&& (self.y_off + self.raw_h) * self.stride <= len
    }

    /// Containment of this member's rectangle in the given store's block.
    pub open spec fn valid(self, s: PixelStore) -> bool {
        self.fits(s.bytes@.len() as int)
    }

    /// The pixel value this member reads at logical (x, y) from the given
    /// bytes: the zero value outside logical bounds.
    pub open spec fn pixel_at(self, bytes: Seq<u8>, x: int, y: int) -> u32 {
        if self.in_bounds(x, y) {
            le_decode(bytes, self.cell_off(self.phys_x(x, y), self.phys_y(x, y)), self.spec_bpp())
                as u32
        } else {
            0
        }
    }

    /// Whether byte `i` of the family block lies inside some cell of this
    /// member's rectangle.
    pub open spec fn owns_byte(self, i: int) -> bool {
        exists|px: int, py: int|
            0 <= px < self.raw_w && 0 <= py < self.raw_h && #[trigger] self.cell_off(px, py) <= i
                < self.cell_off(px, py) + self.spec_bpp()
    }

    /// The metadata of a view of this member with the given logical rectangle.
    pub open spec fn spec_sub(self, x: int, y: int, w: u32, h: u32) -> Pixmap {
        let lx = if self.axes_swap {
            y
        } else {
            x
        };
        let ly = if self.axes_swap {
            x
        } else {
            y
        };
        let lw = if self.axes_swap {
            h
        } else {
            w
        };
        let lh = if self.axes_swap {
            w
        } else {
            h
        };
        let px = if self.x_swap {
            self.raw_w - lx - lw
        } else {
            lx
        };
        let py = if self.y_swap {
            self.raw_h - ly - lh
        } else {
            ly
        };
        Pixmap {
            x_off: (self.x_off + px) as u32,
            y_off: (self.y_off + py) as u32,
            raw_w: lw,
            raw_h: lh,
            stride: self.stride,
            format: self.format,
            x_swap: self.x_swap,
            y_swap: self.y_swap,
            axes_swap: self.axes_swap,
            correction: self.correction,
        }
    }

    /// Whether the logical rectangle (x, y, w, h) lies inside this member's
    /// logical extent.
    pub open spec fn spec_contains_rect(self, x: int, y: int, w: int, h: int) -> bool {
        0 <= x && 0 <= y && x + w <= self.spec_w() && y + h <= self.spec_h()
    }

    /// This member with `x_swap` replaced.
    pub open spec fn spec_with_x_swap(self, v: bool) -> Pixmap {
        Pixmap { x_swap: v, ..self }
    }

    /// This member with `y_swap` replaced.
    pub open spec fn spec_with_y_swap(self, v: bool) -> Pixmap {
        Pixmap { y_swap: v, ..self }
    }

    /// This member with `axes_swap` replaced.
    pub open spec fn spec_with_axes_swap(self, v: bool) -> Pixmap {
        Pixmap { axes_swap: v, ..self }
    }
}

/// Logical coordinates inside the extent address a physical cell inside the
/// member's rectangle.
pub proof fn lemma_phys_in_range(p: Pixmap, x: int, y: int)
    requires
        p.in_bounds(x, y),
    ensures
        0 <= p.phys_x(x, y) < p.raw_w,
        0 <= p.phys_y(x, y) < p.raw_h,
{
}

/// Distinct logical coordinates address distinct physical cells.
pub proof fn lemma_phys_injective(p: Pixmap, x1: int, y1: int, x2: int, y2: int)
    requires
        p.in_bounds(x1, y1),
        p.in_bounds(x2, y2),
        !(x1 == x2 && y1 == y2),
    ensures
        !(p.phys_x(x1, y1) == p.phys_x(x2, y2) && p.phys_y(x1, y1) == p.phys_y(x2, y2)),
{
}

/// Every byte of a physical cell lies inside a block the member fits in.
pub proof fn lemma_cell_in_store(p: Pixmap, len: int, px: int, py: int)
    requires
        p.fits(len),
        0 <= px < p.raw_w,
        0 <= py < p.raw_h,
    ensures
        0 <= (p.y_off + py) * p.stride,
        0 <= (p.x_off + px) * p.spec_bpp(),
        0 <= p.cell_off(px, py),
        p.cell_off(px, py) + p.spec_bpp() <= len,
{
    let bpp = p.spec_bpp() as int;
    let s = p.stride as int;
    let xo = p.x_off as int;
    let yo = p.y_off as int;
    lemma_mul_nonnegative(yo + py, s);
    lemma_mul_nonnegative(xo + px, bpp);
    lemma_mul_inequality(xo + px + 1, xo + p.raw_w, bpp);
    assert((xo + px + 1) * bpp == (xo + px) * bpp + bpp) by (nonlinear_arith);
    lemma_mul_inequality(yo + py + 1, yo + p.raw_h, s);
    assert((yo + py + 1) * s == (yo + py) * s + s) by (nonlinear_arith);
}

/// Distinct physical cells of one member occupy disjoint byte ranges.
pub proof fn lemma_cells_disjoint(p: Pixmap, px1: int, py1: int, px2: int, py2: int)
    requires
        (p.x_off + p.raw_w) * p.spec_bpp() <= p.stride,
        0 <= px1 < p.raw_w,
        0 <= py1 < p.raw_h,
        0 <= px2 < p.raw_w,
        0 <= py2 < p.raw_h,
        !(px1 == px2 && py1 == py2),
    ensures
        p.cell_off(px1, py1) + p.spec_bpp() <= p.cell_off(px2, py2) || p.cell_off(px2, py2)
            + p.spec_bpp() <= p.cell_off(px1, py1),
{
    let bpp = p.spec_bpp() as int;
    let s = p.stride as int;
    let xo = p.x_off as int;
    let yo = p.y_off as int;
    if py1 == py2 {
        if px1 < px2 {
            lemma_mul_inequality(xo + px1 + 1, xo + px2, bpp);
            assert((xo + px1 + 1) * bpp == (xo + px1) * bpp + bpp) by (nonlinear_arith);
        } else {
            lemma_mul_inequality(xo + px2 + 1, xo + px1, bpp);
            assert((xo + px2 + 1) * bpp == (xo + px2) * bpp + bpp) by (nonlinear_arith);
        }
    } else if py1 < py2 {
        lemma_row_order(p, px1, py1, px2, py2);
    } else {
        lemma_row_order(p, px2, py2, px1, py1);
    }
}

/// A cell on an earlier row ends before any cell on a later row begins.
proof fn lemma_row_order(p: Pixmap, px1: int, py1: int, px2: int, py2: int)
    requires
        (p.x_off + p.raw_w) * p.spec_bpp() <= p.stride,
        0 <= px1 < p.raw_w,
        0 <= px2 < p.raw_w,
        0 <= py1 < py2,
    ensures
        p.cell_off(px1, py1) + p.spec_bpp() <= p.cell_off(px2, py2),
{
    let bpp = p.spec_bpp() as int;
    let s = p.stride as int;
    let xo = p.x_off as int;
    let yo = p.y_off as int;
    lemma_mul_inequality(xo + px1 + 1, xo + p.raw_w, bpp);
    assert((xo + px1 + 1) * bpp == (xo + px1) * bpp + bpp) by (nonlinear_arith);
    lemma_mul_inequality(yo + py1 + 1, yo + py2, s);
    assert((yo + py1 + 1) * s == (yo + py1) * s + s) by (nonlinear_arith);
    lemma_mul_nonnegative(xo + px2, bpp);
}

/// If two byte blocks agree outside one physical cell of this member, every
/// pixel whose physical cell is a different one reads the same from both.
pub proof fn lemma_pixel_agree_outside_cell(
    p: Pixmap,
    b1: Seq<u8>,
    b2: Seq<u8>,
    px: int,
    py: int,
    x: int,
    y: int,
)
    requires
        p.fits(b1.len() as int),
        b1.len() == b2.len(),
        0 <= px < p.raw_w,
        0 <= py < p.raw_h,
        forall|i: int|
            0 <= i < b1.len() && !(p.cell_off(px, py) <= i < p.cell_off(px, py) + p.spec_bpp())
                ==> b2[i] == b1[i],
        !(p.in_bounds(x, y) && p.phys_x(x, y) == px && p.phys_y(x, y) == py),
    ensures
        p.pixel_at(b2, x, y) == p.pixel_at(b1, x, y),
{
    if p.in_bounds(x, y) {
        let qx = p.phys_x(x, y);
        let qy = p.phys_y(x, y);
        lemma_phys_in_range(p, x, y);
        lemma_cell_in_store(p, b1.len() as int, qx, qy);
        lemma_cell_in_store(p, b1.len() as int, px, py);
        lemma_cells_disjoint(p, qx, qy, px, py);
        lemma_le_decode_agree(b1, b2, p.cell_off(qx, qy), p.spec_bpp());
    }
}

/// A vector of `n` zero bytes.
pub(crate) fn zeroed_bytes(n: usize) -> (r: Vec<u8>)
    ensures
        r@.len() == n,
        forall|i: int| 0 <= i < n ==> r@[i] == 0u8,
{
    let mut v: Vec<u8> = Vec::new();
    while v.len() < n
        invariant
            v@.len() <= n,
            forall|i: int| 0 <= i < v@.len() ==> v@[i] == 0u8,
        decreases n - v@.len(),
    {
        v.push(0u8);
    }
    v
}

impl Pixmap {
    /// Byte offset of the physical cell (px, py), fitting in a block of `n`
    /// bytes.
    pub(crate) fn cell_offset(&self, n: usize, px: u32, py: u32) -> (r: usize)
        requires
            self.fits(n as int),
            px < self.raw_w,
            py < self.raw_h,
        ensures
            r == self.cell_off(px as int, py as int),
            r + self.spec_bpp() <= n,
    {
        proof {
            lemma_cell_in_store(*self, n as int, px as int, py as int);
        }
        let bpp = self.format.bpp();
        let off64: u64 = (self.y_off as u64 + py as u64) * (self.stride as u64) + (self.x_off
            as u64 + px as u64) * (bpp as u64);
        off64 as usize
    }

    /// Allocates a new root buffer of `w` by `h` pixels.
    ///
    /// A `stride` of 0 selects the minimal stride for the width and format.
    /// An explicit stride smaller than the format's minimal row size is an
    /// `InvalidParameter`; a block beyond the allocation caps is an
    /// `AllocationFailure`. The fresh buffer is zero-filled.
    pub fn new(w: u32, h: u32, format: PixelType, stride: u32) -> (r: Result<
        (Pixmap, PixelStore),
        GfxError,
    >)
        ensures
            ({
                let min_row = w * format.spec_bpp();
                let row: int = if stride == 0 {
                    min_row as int
                } else {
                    stride as int
                };
                match r {
                    Ok((pm, st)) => {
                        &&& !(stride != 0 && stride < min_row)
                        &&& spec_alloc_ok(w as int, h as int, row)
                        &&& pm == (Pixmap {
                            x_off: 0,
                            y_off: 0,
                            raw_w: w,
                            raw_h: h,
                            stride: row as u32,
                            format,
                            x_swap: false,
                            y_swap: false,
                            axes_swap: false,
                            correction: Correction::Unset,
                        })
                        &&& st.holders == 1
                        &&& !st.external
                        &&& pm.valid(st)
                        &&& st.bytes@.len() == row * h
                        &&& forall|x: int, y: int| pm.pixel_at(st.bytes@, x, y) == 0
                    },
                    Err(e) => {
                        &&& (e == GfxError::InvalidParameter <==> (stride != 0 && stride
                            < min_row))
                        &&& (e == GfxError::AllocationFailure <==> (!(stride != 0 && stride
                            < min_row) && !spec_alloc_ok(w as int, h as int, row)))
                        &&& (e == GfxError::InvalidParameter || e == GfxError::AllocationFailure)
                    },
                }
            }),
    {
        let bpp = format.bpp();
        proof {
            lemma_mul_upper_bound(w as int, u32::MAX as int, bpp as int, 4);
        }
        let min_row: u64 = (w as u64) * (bpp as u64);
        if stride != 0 && (stride as u64) < min_row {
            return Err(GfxError::InvalidParameter);
        }
        let row: u64 = if stride == 0 {
            min_row
        } else {
            stride as u64
        };
        if w > MAX_DIM || h > MAX_DIM || row > MAX_STORE_BYTES {
            return Err(GfxError::AllocationFailure);
        }
        proof {
            lemma_mul_upper_bound(row as int, MAX_STORE_BYTES as int, h as int, MAX_DIM as int);
        }
        let total: u64 = row * (h as u64);
        if total > MAX_STORE_BYTES {
            return Err(GfxError::AllocationFailure);
        }
        let bytes = zeroed_bytes(total as usize);
        let st = PixelStore { bytes, holders: 1, external: false };
        let pm = Pixmap {
            x_off: 0,
            y_off: 0,
            raw_w: w,
            raw_h: h,
            stride: row as u32,
            format,
            x_swap: false,
            y_swap: false,
            axes_swap: false,
            correction: Correction::Unset,
        };
        proof {
            assert(st.bytes@.len() == total as int);
            assert(pm.stride == row);
            assert((pm.y_off + pm.raw_h) as int == h as int);
            assert(h as int * (row as int) == row as int * (h as int)) by (nonlinear_arith);
            assert((pm.y_off + pm.raw_h) * pm.stride <= st.bytes@.len());
            lemma_fresh_block_zero(pm, st);
        }
        Ok((pm, st))
    }

    /// Wraps caller-supplied bytes as a root buffer without copying them.
    /// The storage counts as external and is never released here. Returns
    /// `None` when the bytes are too few for the requested extent or the
    /// extent is beyond the allocation caps.
    pub fn from_data(w: u32, h: u32, format: PixelType, data: Vec<u8>) -> (r: Option<
        (Pixmap, PixelStore),
    >)
        ensures
            ({
                let row = w * format.spec_bpp();
                match r {
                    Some((pm, st)) => {
                        &&& w <= MAX_DIM
                        &&& h <= MAX_DIM
                        &&& row <= u32::MAX
                        &&& row * h <= data@.len()
                        &&& pm == (Pixmap {
                            x_off: 0,
                            y_off: 0,
                            raw_w: w,
                            raw_h: h,
                            stride: row as u32,
                            format,
                            x_swap: false,
                            y_swap: false,
                            axes_swap: false,
                            correction: Correction::Unset,
                        })
                        &&& st.holders == 1
                        &&& st.external
                        &&& st.bytes@ == data@
                        &&& pm.valid(st)
                    },
                    None => !(w <= MAX_DIM && h <= MAX_DIM && row <= u32::MAX && row * h
                        <= data@.len()),
                }
            }),
    {
        let bpp = format.bpp();
        if w > MAX_DIM || h > MAX_DIM {
            return None;
        }
        proof {
            lemma_mul_upper_bound(w as int, MAX_DIM as int, bpp as int, 4);
        }
        let row: u64 = (w as u64) * (bpp as u64);
        if row > u32::MAX as u64 {
            return None;
        }
        proof {
            lemma_mul_upper_bound(row as int, u32::MAX as int, h as int, MAX_DIM as int);
        }
        let need: u64 = row * (h as u64);
        let n = data.len();
        if need > n as u64 {
            return None;
        }
        let pm = Pixmap {
            x_off: 0,
            y_off: 0,
            raw_w: w,
            raw_h: h,
            stride: row as u32,
            format,
            x_swap: false,
            y_swap: false,
            axes_swap: false,
            correction: Correction::Unset,
        };
        let st = PixelStore { bytes: data, holders: 1, external: true };
        proof {
            assert(pm.stride == row);
            assert((pm.y_off + pm.raw_h) as int == h as int);
            assert(h as int * (row as int) == row as int * (h as int)) by (nonlinear_arith);
            assert((pm.y_off + pm.raw_h) * pm.stride <= st.bytes@.len());
        }
        Some((pm, st))
    }

    /// Logical width, after the orientation flags.
    pub fn w(&self) -> (r: u32)
        ensures
            r == self.spec_w(),
    {
        if self.axes_swap {
            self.raw_h
        } else {
            self.raw_w
        }
    }

    /// Logical height, after the orientation flags.
    pub fn h(&self) -> (r: u32)
        ensures
            r == self.spec_h(),
    {
        if self.axes_swap {
            self.raw_w
        } else {
            self.raw_h
        }
    }

    /// Physical width, invariant under the orientation flags.
    pub fn raw_w(&self) -> (r: u32)
        ensures
            r == self.raw_w,
    {
        self.raw_w
    }

    /// Physical height, invariant under the orientation flags.
    pub fn raw_h(&self) -> (r: u32)
        ensures
            r == self.raw_h,
    {
        self.raw_h
    }

    /// Pixel format.
    pub fn pixel_type(&self) -> (r: PixelType)
        ensures
            r == self.format,
    {
        self.format
    }

    /// Whether the two axes are exchanged.
    pub fn axes_swap(&self) -> (r: bool)
        ensures
            r == self.axes_swap,
    {
        self.axes_swap
    }

    /// Sets or resets the axes exchange; pure metadata, no data movement.
    pub fn set_axes_swap(&mut self, swap: bool)
        ensures
            *final(self) == old(self).spec_with_axes_swap(swap),
    {
        self.axes_swap = swap;
    }

    /// Whether the x direction is mirrored.
    pub fn x_swap(&self) -> (r: bool)
        ensures
            r == self.x_swap,
    {
        self.x_swap
    }

    /// Sets or resets the x mirror; pure metadata, no data movement.
    pub fn set_x_swap(&mut self, swap: bool)
        ensures
            *final(self) == old(self).spec_with_x_swap(swap),
    {
        self.x_swap = swap;
    }

    /// Whether the y direction is mirrored.
    pub fn y_swap(&self) -> (r: bool)
        ensures
            r == self.y_swap,
    {
        self.y_swap
    }

    /// Sets or resets the y mirror; pure metadata, no data movement.
    pub fn set_y_swap(&mut self, swap: bool)
        ensures
            *final(self) == old(self).spec_with_y_swap(swap),
    {
        self.y_swap = swap;
    }

    /// Sets gamma correction, with the coefficient in thousandths. A zero
    /// (that is, non-positive) coefficient is an `InvalidParameter`.
    pub fn set_gamma(&mut self, gamma_milli: u32) -> (r: Result<(), GfxError>)
        ensures
            match r {
                Ok(()) => gamma_milli > 0 && *final(self) == (Pixmap {
                    correction: Correction::Gamma(gamma_milli),
                    ..*old(self)
                }),
                Err(e) => e == GfxError::InvalidParameter && gamma_milli == 0 && *final(self)
                    == *old(self),
            },
    {
        if gamma_milli == 0 {
            return Err(GfxError::InvalidParameter);
        }
        self.correction = Correction::Gamma(gamma_milli);
        Ok(())
    }

    /// Switches color correction to the fixed standard sRGB colorspace.
    pub fn set_srgb(&mut self) -> (r: Result<(), GfxError>)
        ensures
            r == Ok::<(), GfxError>(()),
            *final(self) == (Pixmap { correction: Correction::Srgb, ..*old(self) }),
    {
        self.correction = Correction::Srgb;
        Ok(())
    }

    /// A pixel value encoding the RGB triplet in this buffer's format; a pure
    /// function of the format with no side effect.
    pub fn rgb_to_pixel(&self, r: u8, g: u8, b: u8) -> (px: u32)
        ensures
            px == crate::pixel::spec_rgb_to_pixel(self.format, r, g, b),
    {
        match self.format {
            PixelType::G8 => (r as u32 + g as u32 + b as u32) / 3,
            PixelType::Rgb888 => (r as u32) * 0x1_0000 + (g as u32) * 0x100 + (b as u32),
            PixelType::Rgba8888 => 0xff00_0000u32 + (r as u32) * 0x1_0000 + (g as u32) * 0x100 + (
            b as u32),
        }
    }

    /// Reads the pixel at logical (x, y) from the given bytes; the zero value
    /// outside logical bounds — never a failure.
    pub(crate) fn get_pixel_bytes(&self, bytes: &Vec<u8>, x: i32, y: i32) -> (r: u32)
        requires
            self.fits(bytes@.len() as int),
        ensures
            r == self.pixel_at(bytes@, x as int, y as int),
    {
        if x < 0 || y < 0 {
            return 0;
        }
        let xu = x as u32;
        let yu = y as u32;
        if xu >= self.w() || yu >= self.h() {
            return 0;
        }
        let a = if self.axes_swap {
            yu
        } else {
            xu
        };
        let b = if self.axes_swap {
            xu
        } else {
            yu
        };
        proof {
            lemma_phys_in_range(*self, x as int, y as int);
        }
        let px = if self.x_swap {
            self.raw_w - 1 - a
        } else {
            a
        };
        let py = if self.y_swap {
            self.raw_h - 1 - b
        } else {
            b
        };
        let n = bytes.len();
        let off = self.cell_offset(n, px, py);
        read_cell(bytes, off, self.format.bpp())
    }

    /// Writes `pixel`, reduced to the format's bytes, at logical (x, y) in
    /// the given bytes; a no-op outside logical bounds — never a failure.
    pub(crate) fn put_pixel_bytes(&self, bytes: &mut Vec<u8>, x: i32, y: i32, pixel: u32)
        requires
            self.fits(old(bytes)@.len() as int),
        ensures
            final(bytes)@.len() == old(bytes)@.len(),
            forall|i: int|
                0 <= i < old(bytes)@.len() && !self.owns_byte(i) ==> final(bytes)@[i] == old(bytes)@[i],
            forall|xx: int, yy: int|
                #![trigger self.pixel_at(final(bytes)@, xx, yy)]
                self.pixel_at(final(bytes)@, xx, yy) == if self.in_bounds(x as int, y as int) && xx
                    == x as int && yy == y as int {
                    spec_masked(pixel, self.spec_bpp())
                } else {
                    self.pixel_at(old(bytes)@, xx, yy)
                },
    {
        if x < 0 || y < 0 {
            return ;
        }
        let xu = x as u32;
        let yu = y as u32;
        if xu >= self.w() || yu >= self.h() {
            return ;
        }
        let a = if self.axes_swap {
            yu
        } else {
            xu
        };
        let b = if self.axes_swap {
            xu
        } else {
            yu
        };
        proof {
            lemma_phys_in_range(*self, x as int, y as int);
        }
        let px = if self.x_swap {
            self.raw_w - 1 - a
        } else {
            a
        };
        let py = if self.y_swap {
            self.raw_h - 1 - b
        } else {
            b
        };
        let n = bytes.len();
        let off = self.cell_offset(n, px, py);
        let bpp = self.format.bpp();
        write_cell(bytes, off, bpp, pixel);
        proof {
            lemma_le_decode_encoded(bytes@, off as int, bpp as nat, pixel as int);
            assert forall|xx: int, yy: int|
                !(self.in_bounds(x as int, y as int) && xx == x as int && yy
                    == y as int) implies #[trigger] self.pixel_at(bytes@, xx, yy) == self.pixel_at(
                old(bytes)@,
                xx,
                yy,
            ) by {
                if self.in_bounds(xx, yy) {
                    lemma_phys_injective(*self, xx, yy, x as int, y as int);
                    lemma_pixel_agree_outside_cell(
                        *self,
                        old(bytes)@,
                        bytes@,
                        px as int,
                        py as int,
                        xx,
                        yy,
                    );
                }
            }
        }
    }

    /// Reads the pixel at logical (x, y); the zero value outside logical
    /// bounds — never a failure.
    pub fn get_pixel(&self, store: &PixelStore, x: i32, y: i32) -> (r: u32)
        requires
            self.valid(*store),
        ensures
            r == self.pixel_at(store.bytes@, x as int, y as int),
    {
        self.get_pixel_bytes(&store.bytes, x, y)
    }

    /// Writes `pixel`, reduced to the format's bytes, at logical (x, y); a
    /// no-op outside logical bounds — never a failure.
    pub fn put_pixel(&self, store: &mut PixelStore, x: i32, y: i32, pixel: u32)
        requires
            self.valid(*old(store)),
        ensures
            final(store).bytes@.len() == old(store).bytes@.len(),
            final(store).holders == old(store).holders,
            final(store).external == old(store).external,
            forall|i: int|
                0 <= i < old(store).bytes@.len() && !self.owns_byte(i) ==> final(store).bytes@[i]
                    == old(store).bytes@[i],
            forall|xx: int, yy: int|
                #![trigger self.pixel_at(final(store).bytes@, xx, yy)]
                self.pixel_at(final(store).bytes@, xx, yy) == if self.in_bounds(x as int, y as int)
                    && xx == x as int && yy == y as int {
                    spec_masked(pixel, self.spec_bpp())
                } else {
                    self.pixel_at(old(store).bytes@, xx, yy)
                },
    {
        self.put_pixel_bytes(&mut store.bytes, x, y, pixel);
    }

    /// Sets every pixel inside this member's logical bounds to `pixel`,
    /// reduced to the format's bytes. Bytes outside the member's rectangle
    /// are untouched.
    pub fn fill(&self, store: &mut PixelStore, pixel: u32)
        requires
            self.valid(*old(store)),
        ensures
            final(store).bytes@.len() == old(store).bytes@.len(),
            final(store).holders == old(store).holders,
            final(store).external == old(store).external,
            forall|x: int, y: int|
                #![trigger self.pixel_at(final(store).bytes@, x, y)]
                self.pixel_at(final(store).bytes@, x, y) == if self.in_bounds(x, y) {
                    spec_masked(pixel, self.spec_bpp())
                } else {
                    0u32
                },
            forall|i: int|
                0 <= i < old(store).bytes@.len() && !self.owns_byte(i) ==> final(store).bytes@[i]
                    == old(store).bytes@[i],
    {
        let bpp = self.format.bpp();
        let n = store.bytes.len();
        let mut py: u32 = 0;
        while py < self.raw_h
        invariant
                self.valid(*store),
                py <= self.raw_h,
                bpp == self.spec_bpp(),
                n == store.bytes@.len(),
                store.bytes@.len() == old(store).bytes@.len(),
                store.holders == old(store).holders,
                store.external == old(store).external,
                forall|qx: int, qy: int|
                    0 <= qx < self.raw_w && 0 <= qy < py ==> le_decode(
                        store.bytes@,
                        #[trigger] self.cell_off(qx, qy),
                        self.spec_bpp(),
                    ) == pixel as int % crate::pixel::pow256(self.spec_bpp()),
                forall|i: int|
                    0 <= i < old(store).bytes@.len() && !self.owns_byte(i)
                        ==> store.bytes@[i] == old(store).bytes@[i],
            decreases self.raw_h - py,
        {
            let mut px: u32 = 0;
            while px < self.raw_w
                invariant
                    self.valid(*store),
                    py < self.raw_h,
                    px <= self.raw_w,
                    bpp == self.spec_bpp(),
                    n == store.bytes@.len(),
                    store.bytes@.len() == old(store).bytes@.len(),
                    store.holders == old(store).holders,
                    store.external == old(store).external,
                    forall|qx: int, qy: int|
                        (0 <= qx < self.raw_w && 0 <= qy < py) || (0 <= qx < px && qy == py)
                            ==> le_decode(
                            store.bytes@,
                            #[trigger] self.cell_off(qx, qy),
                            self.spec_bpp(),
                        ) == pixel as int % crate::pixel::pow256(self.spec_bpp()),
                    forall|i: int|
                        0 <= i < old(store).bytes@.len() && !self.owns_byte(i)
                            ==> store.bytes@[i] == old(store).bytes@[i],
                decreases self.raw_w - px,
            {
                let ghost prev = store.bytes@;
                let off = self.cell_offset(n, px, py);
                write_cell(&mut store.bytes, off, bpp, pixel);
                proof {
                    lemma_le_decode_encoded(store.bytes@, off as int, bpp as nat, pixel as int);
                    assert forall|qx: int, qy: int|
                        ((0 <= qx < self.raw_w && 0 <= qy < py) || (0 <= qx < px && qy
                            == py)) implies le_decode(
                        store.bytes@,
                        #[trigger] self.cell_off(qx, qy),
                        self.spec_bpp(),
                    ) == pixel as int % crate::pixel::pow256(self.spec_bpp()) by {
                        lemma_cell_in_store(*self, n as int, qx, qy);
                        lemma_cells_disjoint(*self, qx, qy, px as int, py as int);
                        lemma_le_decode_agree(
                            prev,
                            store.bytes@,
                            self.cell_off(qx, qy),
                            self.spec_bpp(),
                        );
                    }
                    assert forall|i: int|
                        0 <= i < old(store).bytes@.len() && !self.owns_byte(
                            i,
                        ) implies store.bytes@[i] == old(store).bytes@[i] by {
                        assert(self.cell_off(px as int, py as int) <= i < self.cell_off(
                            px as int,
                            py as int,
                        ) + self.spec_bpp() ==> self.owns_byte(i));
                    }
                }
                px = px + 1;
            }
            py = py + 1;
        }
        proof {
            assert forall|x: int, y: int| self.in_bounds(x, y) implies #[trigger] self.pixel_at(
                store.bytes@,
                x,
                y,
            ) == spec_masked(pixel, self.spec_bpp()) by {
                lemma_phys_in_range(*self, x, y);
                crate::pixel::lemma_pow256_pos(self.spec_bpp());
            }
        }
    }

    /// Derives a view of this member: a rectangular window sharing the
    /// family's storage block, whose creation raises the block's ownership
    /// count by one. The rectangle must lie inside this member's logical
    /// extent (`BoundsError` otherwise); the view starts with this member's
    /// orientation flags, so its logical frame continues the parent's.
    pub fn sub_pixmap(&self, store: &mut PixelStore, x: i32, y: i32, w: u32, h: u32) -> (r: Result<
        Pixmap,
        GfxError,
    >)
        requires
            self.valid(*old(store)),
            old(store).holders < u64::MAX,
        ensures
            final(store).bytes@ == old(store).bytes@,
            final(store).external == old(store).external,
            match r {
                Ok(v) => {
                    &&& self.spec_contains_rect(x as int, y as int, w as int, h as int)
                    &&& v == self.spec_sub(x as int, y as int, w, h)
                    &&& v.spec_w() == w
                    &&& v.spec_h() == h
                    &&& v.format == self.format
                    &&& v.valid(*final(store))
                    &&& final(store).holders == old(store).holders + 1
                    &&& forall|i: int, j: int|
                        0 <= i < w && 0 <= j < h ==> #[trigger] v.pixel_at(
                            final(store).bytes@,
                            i,
                            j,
                        ) == self.pixel_at(final(store).bytes@, x + i, y + j)
                },
                Err(e) => {
                    &&& e == GfxError::BoundsError
                    &&& !self.spec_contains_rect(x as int, y as int, w as int, h as int)
                    &&& final(store).holders == old(store).holders
                },
            },
    {
        if x < 0 || y < 0 {
            return Err(GfxError::BoundsError);
        }
        let wl = self.w();
        let hl = self.h();
        if (x as u64) + (w as u64) > (wl as u64) || (y as u64) + (h as u64) > (hl as u64) {
            return Err(GfxError::BoundsError);
        }
        let lx = if self.axes_swap {
            y as u32
        } else {
            x as u32
        };
        let ly = if self.axes_swap {
            x as u32
        } else {
            y as u32
        };
        let lw = if self.axes_swap {
            h
        } else {
            w
        };
        let lh = if self.axes_swap {
            w
        } else {
            h
        };
        let px = if self.x_swap {
            self.raw_w - lx - lw
        } else {
            lx
        };
        let py = if self.y_swap {
            self.raw_h - ly - lh
        } else {
            ly
        };
        let v = Pixmap {
            x_off: self.x_off + px,
            y_off: self.y_off + py,
            raw_w: lw,
            raw_h: lh,
            stride: self.stride,
            format: self.format,
            x_swap: self.x_swap,
            y_swap: self.y_swap,
            axes_swap: self.axes_swap,
            correction: self.correction,
        };
        store.holders = store.holders + 1;
        proof {
            lemma_sub_valid(*self, v, store.bytes@.len() as int, x as int, y as int, w, h);
            lemma_sub_pixels(*self, v, store.bytes@, x as int, y as int, w, h);
        }
        Ok(v)
    }

    /// Destroys this family member, lowering the block's ownership count.
    /// When the last holder goes and the storage is not external, the block
    /// is released.
    pub fn close(self, store: &mut PixelStore)
        requires
            old(store).holders >= 1,
        ensures
            final(store).holders == old(store).holders - 1,
            final(store).external == old(store).external,
            old(store).holders > 1 || old(store).external ==> final(store).bytes@ == old(store).bytes@,
            old(store).holders == 1 && !old(store).external ==> final(store).bytes@.len() == 0,
    {
        store.holders = store.holders - 1;
        if store.holders == 0 && !store.external {
            store.bytes = Vec::new();
        }
    }

    /// Reallocates this member's block for a `new_w` by `new_h` extent.
    /// Fails with `OwnershipConflict`, changing nothing, unless this member
    /// is the block's sole holder; old pixel content is not preserved — the
    /// fresh block is zero-filled, and this member becomes its root.
    pub fn resize(&mut self, store: &mut PixelStore, new_w: u32, new_h: u32) -> (r: Result<
        (),
        GfxError,
    >)
        requires
            old(self).valid(*old(store)),
        ensures
            final(store).holders == old(store).holders,
            ({
                let row = new_w * old(self).spec_bpp();
                match r {
                    Ok(()) => {
                        &&& spec_sole_owner(old(store).holders)
                        &&& spec_alloc_ok(new_w as int, new_h as int, row as int)
                        &&& *final(self) == (Pixmap {
                            x_off: 0,
                            y_off: 0,
                            raw_w: new_w,
                            raw_h: new_h,
                            stride: row as u32,
                            ..*old(self)
                        })
                        &&& !final(store).external
                        &&& final(self).valid(*final(store))
                        &&& final(store).bytes@.len() == row * new_h
                        &&& forall|x: int, y: int|
                            final(self).pixel_at(final(store).bytes@, x, y) == 0
                    },
                    Err(e) => {
                        &&& *final(self) == *old(self)
                        &&& final(store).bytes@ == old(store).bytes@
                        &&& final(store).external == old(store).external
                        &&& (e == GfxError::OwnershipConflict <==> !spec_sole_owner(
                            old(store).holders,
                        ))
                        &&& (e == GfxError::AllocationFailure <==> (spec_sole_owner(
                            old(store).holders,
                        ) && !spec_alloc_ok(new_w as int, new_h as int, row as int)))
                        &&& (e == GfxError::OwnershipConflict || e == GfxError::AllocationFailure)
                    },
                }
            }),
    {
        if store.holders != 1 {
            return Err(GfxError::OwnershipConflict);
        }
        let bpp = self.format.bpp();
        proof {
            lemma_mul_upper_bound(new_w as int, u32::MAX as int, bpp as int, 4);
        }
        let row: u64 = (new_w as u64) * (bpp as u64);
        if new_w > MAX_DIM || new_h > MAX_DIM || row > MAX_STORE_BYTES {
            return Err(GfxError::AllocationFailure);
        }
        proof {
            lemma_mul_upper_bound(row as int, MAX_STORE_BYTES as int, new_h as int, MAX_DIM as int);
        }
        let total: u64 = row * (new_h as u64);
        if total > MAX_STORE_BYTES {
            return Err(GfxError::AllocationFailure);
        }
        store.bytes = zeroed_bytes(total as usize);
        store.external = false;
        self.x_off = 0;
        self.y_off = 0;
        self.raw_w = new_w;
        self.raw_h = new_h;
        self.stride = row as u32;
        proof {
            assert(store.bytes@.len() == total as int);
            assert(self.stride == row);
            assert((self.y_off + self.raw_h) as int == new_h as int);
            assert(new_h as int * (row as int) == row as int * (new_h as int)) by (nonlinear_arith);
            assert((self.y_off + self.raw_h) * self.stride <= store.bytes@.len());
            lemma_fresh_block_zero(*self, *store);
        }
        Ok(())
    }
}

/// A fresh zero block reads as the zero pixel value everywhere.
proof fn lemma_fresh_block_zero(pm: Pixmap, st: PixelStore)
    requires
        pm.fits(st.bytes@.len() as int),
        forall|i: int| 0 <= i < st.bytes@.len() ==> st.bytes@[i] == 0u8,
    ensures
        forall|x: int, y: int| pm.pixel_at(st.bytes@, x, y) == 0,
{
    assert forall|x: int, y: int| pm.pixel_at(st.bytes@, x, y) == 0 by {
        if pm.in_bounds(x, y) {
            lemma_phys_in_range(pm, x, y);
            lemma_cell_in_store(pm, st.bytes@.len() as int, pm.phys_x(x, y), pm.phys_y(x, y));
            lemma_le_decode_zero(
                st.bytes@,
                pm.cell_off(pm.phys_x(x, y), pm.phys_y(x, y)),
                pm.spec_bpp(),
            );
        }
    }
}

/// A view built by `spec_sub` of a contained rectangle fits in the same
/// block its parent fits in.
proof fn lemma_sub_valid(p: Pixmap, v: Pixmap, len: int, x: int, y: int, w: u32, h: u32)
    requires
        p.fits(len),
        p.spec_contains_rect(x, y, w as int, h as int),
        v == p.spec_sub(x, y, w, h),
    ensures
        v.fits(len),
        v.spec_w() == w,
        v.spec_h() == h,
{
    lemma_mul_inequality((v.x_off + v.raw_w) as int, (p.x_off + p.raw_w) as int, p.spec_bpp() as int);
    lemma_mul_inequality((v.y_off + v.raw_h) as int, (p.y_off + p.raw_h) as int, p.stride as int);
}

/// Through a view of a contained rectangle, pixel (i, j) is the parent's
/// pixel (x + i, y + j): both address the same cell of the shared block.
proof fn lemma_sub_pixels(p: Pixmap, v: Pixmap, bytes: Seq<u8>, x: int, y: int, w: u32, h: u32)
    requires
        p.fits(bytes.len() as int),
        p.spec_contains_rect(x, y, w as int, h as int),
        v == p.spec_sub(x, y, w, h),
    ensures
        forall|i: int, j: int|
            0 <= i < w && 0 <= j < h ==> #[trigger] v.pixel_at(bytes, i, j) == p.pixel_at(
                bytes,
                x + i,
                y + j,
            ),
{
    assert forall|i: int, j: int| 0 <= i < w && 0 <= j < h implies #[trigger] v.pixel_at(
        bytes,
        i,
        j,
    ) == p.pixel_at(bytes, x + i, y + j) by {
        assert(v.spec_w() == w && v.spec_h() == h);
        assert(v.in_bounds(i, j));
        assert(p.in_bounds(x + i, y + j));
        assert(v.x_off + v.phys_x(i, j) == p.x_off + p.phys_x(x + i, y + j));
        assert(v.y_off + v.phys_y(i, j) == p.y_off + p.phys_y(x + i, y + j));
        assert(v.cell_off(v.phys_x(i, j), v.phys_y(i, j)) == p.cell_off(
            p.phys_x(x + i, y + j),
            p.phys_y(x + i, y + j),
        ));
    }
}

/// After a fill with a value the format can hold, every read inside logical
/// bounds yields exactly that value. The premise is what `fill` ensures of
/// the store; the conclusion is what `get_pixel` then returns.
pub proof fn lemma_fill_reads_back(pm: Pixmap, filled: Seq<u8>, pixel: u32, x: int, y: int)
    requires
        pixel < crate::pixel::pow256(pm.spec_bpp()),
        forall|xx: int, yy: int|
            #[trigger] pm.pixel_at(filled, xx, yy) == if pm.in_bounds(xx, yy) {
                spec_masked(pixel, pm.spec_bpp())
            } else {
                0u32
            },
        pm.in_bounds(x, y),
    ensures
        pm.pixel_at(filled, x, y) == pixel,
{
    crate::pixel::lemma_masked_identity(pixel, pm.spec_bpp());
}

/// A pixel read from a store always fits its own format: what comes out of
/// `get_pixel` is already masked, so writing it back stores it unchanged.
pub proof fn lemma_pixel_at_fits(pm: Pixmap, bytes: Seq<u8>, x: int, y: int)
    requires
        pm.fits(bytes.len() as int),
    ensures
        pm.pixel_at(bytes, x, y) < crate::pixel::pow256(pm.spec_bpp()),
        spec_masked(pm.pixel_at(bytes, x, y), pm.spec_bpp()) == pm.pixel_at(bytes, x, y),
{
    crate::pixel::lemma_pow256_vals();
    crate::pixel::lemma_pow256_mono(pm.spec_bpp(), 4);
    crate::pixel::lemma_pow256_pos(pm.spec_bpp());
    if pm.in_bounds(x, y) {
        lemma_phys_in_range(pm, x, y);
        lemma_cell_in_store(pm, bytes.len() as int, pm.phys_x(x, y), pm.phys_y(x, y));
        crate::pixel::lemma_le_decode_bound(
            bytes,
            pm.cell_off(pm.phys_x(x, y), pm.phys_y(x, y)),
            pm.spec_bpp(),
        );
    }
    crate::pixel::lemma_masked_identity(pm.pixel_at(bytes, x, y), pm.spec_bpp());
}

/// Reading outside logical bounds yields the zero value, whatever the store
/// holds and whatever the buffer's size.
pub proof fn lemma_out_of_bounds_reads_zero(pm: Pixmap, bytes: Seq<u8>, x: int, y: int)
    requires
        !pm.in_bounds(x, y),
    ensures
        pm.pixel_at(bytes, x, y) == 0,
{
}

/// While a view is alive the family's block has more than one holder, so a
/// structural mutation is refused; once the view is destroyed the count is
/// back and the sole owner may mutate again.
pub proof fn lemma_view_gates_resize(before: u64, with_view: u64, after_close: u64)
    requires
        spec_sole_owner(before),
        with_view == before + 1,
        after_close == with_view - 1,
    ensures
        !spec_sole_owner(with_view),
        spec_sole_owner(after_close),
{
}

/// A view reports exactly the logical size it was created with.
pub proof fn lemma_sub_dims(p: Pixmap, x: int, y: int, w: u32, h: u32)
    ensures
        p.spec_sub(x, y, w, h).spec_w() == w,
        p.spec_sub(x, y, w, h).spec_h() == h,
{
}

/// A view at offset (1, 1) sized (w-2, h-2) of a view at offset (1, 1)
/// sized (w-2, h-2) of a w-by-h buffer reports logical size (w-4, h-4).
pub proof fn lemma_nested_view_dims(p: Pixmap, w: u32, h: u32)
    requires
        p.spec_w() == w,
        p.spec_h() == h,
        4 <= w,
        4 <= h,
    ensures
        ({
            let inner = p.spec_sub(1, 1, (w - 2) as u32, (h - 2) as u32).spec_sub(
                1,
                1,
                (w - 4) as u32,
                (h - 4) as u32,
            );
            inner.spec_w() == w - 4 && inner.spec_h() == h - 4
        }),
{
}

/// Orientation flags are independent — each setter changes only its own flag
/// and moves no data — and idempotent: setting a flag twice is setting it
/// once.
pub proof fn lemma_flags_independent_idempotent(p: Pixmap, v: bool)
    ensures
        p.spec_with_x_swap(v).spec_with_x_swap(v) == p.spec_with_x_swap(v),
        p.spec_with_y_swap(v).spec_with_y_swap(v) == p.spec_with_y_swap(v),
        p.spec_with_axes_swap(v).spec_with_axes_swap(v) == p.spec_with_axes_swap(v),
        p.spec_with_x_swap(v).y_swap == p.y_swap,
        p.spec_with_x_swap(v).axes_swap == p.axes_swap,
        p.spec_with_x_swap(v).spec_w() == p.spec_w(),
        p.spec_with_x_swap(v).spec_h() == p.spec_h(),
        p.spec_with_y_swap(v).x_swap == p.x_swap,
        p.spec_with_y_swap(v).axes_swap == p.axes_swap,
        p.spec_with_y_swap(v).spec_w() == p.spec_w(),
        p.spec_with_y_swap(v).spec_h() == p.spec_h(),
        p.spec_with_axes_swap(v).x_swap == p.x_swap,
        p.spec_with_axes_swap(v).y_swap == p.y_swap,
{
}

/// Toggling `axes_swap` swaps the reported logical size relative to the raw
/// size, which the flags never change.
pub proof fn lemma_axes_swap_swaps_dims(p: Pixmap)
    ensures
        p.spec_with_axes_swap(true).spec_w() == p.raw_h,
        p.spec_with_axes_swap(true).spec_h() == p.raw_w,
        p.spec_with_axes_swap(false).spec_w() == p.raw_w,
        p.spec_with_axes_swap(false).spec_h() == p.raw_h,
        p.spec_with_axes_swap(true).raw_w == p.raw_w,
        p.spec_with_axes_swap(true).raw_h == p.raw_h,
{
}

} // verus!
