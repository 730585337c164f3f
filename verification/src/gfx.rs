//! Straight-line drawing and rectangular copies between buffers.
//!
//! All coordinates are clipped against the logical extent: drawing outside
//! bounds is a no-op, never a failure.

use vstd::prelude::*;
use crate::pixel::spec_masked;
use crate::pixmap::{Pixmap, PixelStore, MAX_DIM};

verus! {

/// The value the destination pixel (dx, dy) holds after a clipped copy of
/// the `w_src` by `h_src` rectangle at (x_src, y_src) of `src` to
/// (x_dst, y_dst) of `dst`: the source pixel reduced to the destination
/// format where both sides are inside the copied rectangle and their bounds,
/// the prior value `dst` read from `old_bytes` everywhere else.
pub open spec fn spec_blit_pixel(
    src: Pixmap,
    src_bytes: Seq<u8>,
    x_src: int,
    y_src: int,
    w_src: int,
    h_src: int,
    dst: Pixmap,
    old_bytes: Seq<u8>,
    x_dst: int,
    y_dst: int,
    dx: int,
    dy: int,
) -> u32 {
    let i = dx - x_dst;
    let j = dy - y_dst;
    if 0 <= i < w_src && 0 <= j < h_src && src.in_bounds(x_src + i, y_src + j) && dst.in_bounds(
        dx,
        dy,
    ) {
        spec_masked(src.pixel_at(src_bytes, x_src + i, y_src + j), dst.spec_bpp())
    } else {
        dst.pixel_at(old_bytes, dx, dy)
    }
}

impl Pixmap {
    /// Draws a vertical segment at column `x` between rows `y0` and `y1`
    /// (inclusive, in either order), clipped to the logical extent.
    pub fn vline_xyy(&self, store: &mut PixelStore, x: i32, y0: i32, y1: i32, pixel: u32)
        requires
            self.valid(*old(store)),
        ensures
            final(store).bytes@.len() == old(store).bytes@.len(),
            final(store).holders == old(store).holders,
            final(store).external == old(store).external,
            forall|i: int|
                0 <= i < old(store).bytes@.len() && !self.owns_byte(i) ==> final(store).bytes@[i]
                    == old(store).bytes@[i],
            ({
                let lo: int = if y0 <= y1 {
                    y0 as int
                } else {
                    y1 as int
                };
                let hi: int = if y0 <= y1 {
                    y1 as int
                } else {
                    y0 as int
                };
                forall|xx: int, yy: int|
                    #![trigger self.pixel_at(final(store).bytes@, xx, yy)]
                    self.pixel_at(final(store).bytes@, xx, yy) == if xx == x as int && lo <= yy
                        <= hi && self.in_bounds(xx, yy) {
                        spec_masked(pixel, self.spec_bpp())
                    } else {
                        self.pixel_at(old(store).bytes@, xx, yy)
                    }
            }),
    {
        let lo: i32 = if y0 <= y1 {
            y0
        } else {
            y1
        };
        let hi: i32 = if y0 <= y1 {
            y1
        } else {
            y0
        };
        let start: i64 = if (lo as i64) < 0 {
            0
        } else {
            lo as i64
        };
        let hmax: i64 = self.h() as i64 - 1;
        let end: i64 = if (hi as i64) <= hmax {
            hi as i64
        } else {
            hmax
        };
        let mut y: i64 = start;
        while y <= end
            invariant
                self.valid(*store),
                store.bytes@.len() == old(store).bytes@.len(),
                store.holders == old(store).holders,
                store.external == old(store).external,
                start == if (lo as int) < 0 {
                    0int
                } else {
                    lo as int
                },
                end < self.spec_h(),
                end <= hi as int,
                end == hi as int || end == self.spec_h() - 1,
                start <= y,
                y == start || y <= end + 1,
                lo as int <= y,
                0 <= y,
                forall|i: int|
                    0 <= i < old(store).bytes@.len() && !self.owns_byte(i) ==> store.bytes@[i]
                        == old(store).bytes@[i],
                forall|xx: int, yy: int|
                    #![trigger self.pixel_at(store.bytes@, xx, yy)]
                    self.pixel_at(store.bytes@, xx, yy) == if xx == x as int && lo <= yy < y
                        && self.in_bounds(xx, yy) {
                        spec_masked(pixel, self.spec_bpp())
                    } else {
                        self.pixel_at(old(store).bytes@, xx, yy)
                    },
            decreases end - y + 1,
        {
            self.put_pixel(store, x, y as i32, pixel);
            y = y + 1;
        }
    }

    /// Alias for `vline_xyy`: a vertical segment at `x` from `y0` to `y1`.
    pub fn vline(&self, store: &mut PixelStore, x: i32, y0: i32, y1: i32, pixel: u32)
        requires
            self.valid(*old(store)),
        ensures
            final(store).bytes@.len() == old(store).bytes@.len(),
            final(store).holders == old(store).holders,
            final(store).external == old(store).external,
            forall|i: int|
                0 <= i < old(store).bytes@.len() && !self.owns_byte(i) ==> final(store).bytes@[i]
                    == old(store).bytes@[i],
            ({
                let lo: int = if y0 <= y1 {
                    y0 as int
                } else {
                    y1 as int
                };
                let hi: int = if y0 <= y1 {
                    y1 as int
                } else {
                    y0 as int
                };
                forall|xx: int, yy: int|
                    #![trigger self.pixel_at(final(store).bytes@, xx, yy)]
                    self.pixel_at(final(store).bytes@, xx, yy) == if xx == x as int && lo <= yy
                        <= hi && self.in_bounds(xx, yy) {
                        spec_masked(pixel, self.spec_bpp())
                    } else {
                        self.pixel_at(old(store).bytes@, xx, yy)
                    }
            }),
    {
        self.vline_xyy(store, x, y0, y1, pixel);
    }

    /// Draws a vertical segment starting at (x, y), `h` pixels long, clipped
    /// to the logical extent.
    pub fn vline_xyh(&self, store: &mut PixelStore, x: i32, y: i32, h: u32, pixel: u32)
        requires
            self.valid(*old(store)),
        ensures
            final(store).bytes@.len() == old(store).bytes@.len(),
            final(store).holders == old(store).holders,
            final(store).external == old(store).external,
            forall|i: int|
                0 <= i < old(store).bytes@.len() && !self.owns_byte(i) ==> final(store).bytes@[i]
                    == old(store).bytes@[i],
            forall|xx: int, yy: int|
                #![trigger self.pixel_at(final(store).bytes@, xx, yy)]
                self.pixel_at(final(store).bytes@, xx, yy) == if xx == x as int && y <= yy < y + h
                    && self.in_bounds(xx, yy) {
                    spec_masked(pixel, self.spec_bpp())
                } else {
                    self.pixel_at(old(store).bytes@, xx, yy)
                },
    {
        if h == 0 {
            return ;
        }
        let hi64: i64 = y as i64 + h as i64 - 1;
        let hi: i32 = if hi64 > 0x7fff_ffffi64 {
            0x7fff_ffffi32
        } else {
            hi64 as i32
        };
        self.vline_xyy(store, x, y, hi, pixel);
    }

    /// Draws a horizontal segment at row `y` between columns `x0` and `x1`
    /// (inclusive, in either order), clipped to the logical extent.
    pub fn hline_xxy(&self, store: &mut PixelStore, x0: i32, x1: i32, y: i32, pixel: u32)
        requires
            self.valid(*old(store)),
        ensures
            final(store).bytes@.len() == old(store).bytes@.len(),
            final(store).holders == old(store).holders,
            final(store).external == old(store).external,
            forall|i: int|
                0 <= i < old(store).bytes@.len() && !self.owns_byte(i) ==> final(store).bytes@[i]
                    == old(store).bytes@[i],
            ({
                let lo: int = if x0 <= x1 {
                    x0 as int
                } else {
                    x1 as int
                };
                let hi: int = if x0 <= x1 {
                    x1 as int
                } else {
                    x0 as int
                };
                forall|xx: int, yy: int|
                    #![trigger self.pixel_at(final(store).bytes@, xx, yy)]
                    self.pixel_at(final(store).bytes@, xx, yy) == if yy == y as int && lo <= xx
                        <= hi && self.in_bounds(xx, yy) {
                        spec_masked(pixel, self.spec_bpp())
                    } else {
                        self.pixel_at(old(store).bytes@, xx, yy)
                    }
            }),
    {
        let lo: i32 = if x0 <= x1 {
            x0
        } else {
            x1
        };
        let hi: i32 = if x0 <= x1 {
            x1
        } else {
            x0
        };
        let start: i64 = if (lo as i64) < 0 {
            0
        } else {
            lo as i64
        };
        let wmax: i64 = self.w() as i64 - 1;
        let end: i64 = if (hi as i64) <= wmax {
            hi as i64
        } else {
            wmax
        };
        let mut x: i64 = start;
        while x <= end
            invariant
                self.valid(*store),
                store.bytes@.len() == old(store).bytes@.len(),
                store.holders == old(store).holders,
                store.external == old(store).external,
                start == if (lo as int) < 0 {
                    0int
                } else {
                    lo as int
                },
                end < self.spec_w(),
                end <= hi as int,
                end == hi as int || end == self.spec_w() - 1,
                start <= x,
                x == start || x <= end + 1,
                lo as int <= x,
                0 <= x,
                forall|i: int|
                    0 <= i < old(store).bytes@.len() && !self.owns_byte(i) ==> store.bytes@[i]
                        == old(store).bytes@[i],
                forall|xx: int, yy: int|
                    #![trigger self.pixel_at(store.bytes@, xx, yy)]
                    self.pixel_at(store.bytes@, xx, yy) == if yy == y as int && lo <= xx < x
                        && self.in_bounds(xx, yy) {
                        spec_masked(pixel, self.spec_bpp())
                    } else {
                        self.pixel_at(old(store).bytes@, xx, yy)
                    },
            decreases end - x + 1,
        {
            self.put_pixel(store, x as i32, y, pixel);
            x = x + 1;
        }
    }

    /// Alias for `hline_xxy`: a horizontal segment at `y` from `x0` to `x1`.
    pub fn hline(&self, store: &mut PixelStore, x0: i32, x1: i32, y: i32, pixel: u32)
        requires
            self.valid(*old(store)),
        ensures
            final(store).bytes@.len() == old(store).bytes@.len(),
            final(store).holders == old(store).holders,
            final(store).external == old(store).external,
            forall|i: int|
                0 <= i < old(store).bytes@.len() && !self.owns_byte(i) ==> final(store).bytes@[i]
                    == old(store).bytes@[i],
            ({
                let lo: int = if x0 <= x1 {
                    x0 as int
                } else {
                    x1 as int
                };
                let hi: int = if x0 <= x1 {
                    x1 as int
                } else {
                    x0 as int
                };
                forall|xx: int, yy: int|
                    #![trigger self.pixel_at(final(store).bytes@, xx, yy)]
                    self.pixel_at(final(store).bytes@, xx, yy) == if yy == y as int && lo <= xx
                        <= hi && self.in_bounds(xx, yy) {
                        spec_masked(pixel, self.spec_bpp())
                    } else {
                        self.pixel_at(old(store).bytes@, xx, yy)
                    }
            }),
    {
        self.hline_xxy(store, x0, x1, y, pixel);
    }

    /// Draws a horizontal segment starting at (x, y), `w` pixels long,
    /// clipped to the logical extent.
    pub fn hline_xyw(&self, store: &mut PixelStore, x: i32, y: i32, w: u32, pixel: u32)
        requires
            self.valid(*old(store)),
        ensures
            final(store).bytes@.len() == old(store).bytes@.len(),
            final(store).holders == old(store).holders,
            final(store).external == old(store).external,
            forall|i: int|
                0 <= i < old(store).bytes@.len() && !self.owns_byte(i) ==> final(store).bytes@[i]
                    == old(store).bytes@[i],
            forall|xx: int, yy: int|
                #![trigger self.pixel_at(final(store).bytes@, xx, yy)]
                self.pixel_at(final(store).bytes@, xx, yy) == if yy == y as int && x <= xx < x + w
                    && self.in_bounds(xx, yy) {
                    spec_masked(pixel, self.spec_bpp())
                } else {
                    self.pixel_at(old(store).bytes@, xx, yy)
                },
    {
        if w == 0 {
            return ;
        }
        let hi64: i64 = x as i64 + w as i64 - 1;
        let hi: i32 = if hi64 > 0x7fff_ffffi64 {
            0x7fff_ffffi32
        } else {
            hi64 as i32
        };
        self.hline_xxy(store, x, hi, y, pixel);
    }

    /// Copies the `w_src` by `h_src` rectangle at (x_src, y_src) of this
    /// member into `dst` at (x_dst, y_dst), clipped to both logical extents;
    /// each copied value is reduced to the destination format.
    #[verifier::loop_isolation(false)]
    pub fn blit_xywh(
        &self,
        src_store: &PixelStore,
        x_src: i32,
        y_src: i32,
        w_src: u32,
        h_src: u32,
        dst: &Pixmap,
        dst_store: &mut PixelStore,
        x_dst: i32,
        y_dst: i32,
    )
        requires
            self.valid(*src_store),
            dst.valid(*old(dst_store)),
        ensures
            final(dst_store).bytes@.len() == old(dst_store).bytes@.len(),
            final(dst_store).holders == old(dst_store).holders,
            final(dst_store).external == old(dst_store).external,
            forall|i: int|
                0 <= i < old(dst_store).bytes@.len() && !dst.owns_byte(i) ==> final(dst_store).bytes@[i] == old(dst_store).bytes@[i],
            forall|dx: int, dy: int|
                #![trigger dst.pixel_at(final(dst_store).bytes@, dx, dy)]
                dst.pixel_at(final(dst_store).bytes@, dx, dy) == spec_blit_pixel(
                    *self,
                    src_store.bytes@,
                    x_src as int,
                    y_src as int,
                    w_src as int,
                    h_src as int,
                    *dst,
                    old(dst_store).bytes@,
                    x_dst as int,
                    y_dst as int,
                    dx,
                    dy,
                ),
    {
        let i_lo: i64 = max3(0, -(x_src as i64), -(x_dst as i64));
        let i_hi: i64 = min3(
            w_src as i64,
            self.w() as i64 - x_src as i64,
            dst.w() as i64 - x_dst as i64,
        );
        let j_lo: i64 = max3(0, -(y_src as i64), -(y_dst as i64));
        let j_hi: i64 = min3(
            h_src as i64,
            self.h() as i64 - y_src as i64,
            dst.h() as i64 - y_dst as i64,
        );
        let mut j: i64 = j_lo;
        while j < j_hi
            invariant
                dst.valid(*dst_store),
                dst_store.bytes@.len() == old(dst_store).bytes@.len(),
                dst_store.holders == old(dst_store).holders,
                dst_store.external == old(dst_store).external,
                j_lo <= j,
                forall|i: int|
                    0 <= i < old(dst_store).bytes@.len() && !dst.owns_byte(i)
                        ==> dst_store.bytes@[i] == old(dst_store).bytes@[i],
                forall|dx: int, dy: int|
                    #![trigger dst.pixel_at(dst_store.bytes@, dx, dy)]
                    dst.pixel_at(dst_store.bytes@, dx, dy) == if dy - y_dst < j {
                        spec_blit_pixel(
                            *self,
                            src_store.bytes@,
                            x_src as int,
                            y_src as int,
                            w_src as int,
                            h_src as int,
                            *dst,
                            old(dst_store).bytes@,
                            x_dst as int,
                            y_dst as int,
                            dx,
                            dy,
                        )
                    } else {
                        dst.pixel_at(old(dst_store).bytes@, dx, dy)
                    },
            decreases j_hi - j,
        {
            let mut i: i64 = i_lo;
            while i < i_hi
                invariant
                    dst.valid(*dst_store),
                    dst_store.bytes@.len() == old(dst_store).bytes@.len(),
                    dst_store.holders == old(dst_store).holders,
                    dst_store.external == old(dst_store).external,
                    i_lo <= i,
                    forall|k: int|
                        0 <= k < old(dst_store).bytes@.len() && !dst.owns_byte(k)
                            ==> dst_store.bytes@[k] == old(dst_store).bytes@[k],
                    forall|dx: int, dy: int|
                        #![trigger dst.pixel_at(dst_store.bytes@, dx, dy)]
                        dst.pixel_at(dst_store.bytes@, dx, dy) == if dy - y_dst < j || (dy - y_dst
                            == j && dx - x_dst < i) {
                            spec_blit_pixel(
                                *self,
                                src_store.bytes@,
                                x_src as int,
                                y_src as int,
                                w_src as int,
                                h_src as int,
                                *dst,
                                old(dst_store).bytes@,
                                x_dst as int,
                                y_dst as int,
                                dx,
                                dy,
                            )
                        } else {
                            dst.pixel_at(old(dst_store).bytes@, dx, dy)
                        },
                decreases i_hi - i,
            {
                let sx: i32 = (x_src as i64 + i) as i32;
                let sy: i32 = (y_src as i64 + j) as i32;
                let dxx: i32 = (x_dst as i64 + i) as i32;
                let dyy: i32 = (y_dst as i64 + j) as i32;
                let v = self.get_pixel(src_store, sx, sy);
                dst.put_pixel(dst_store, dxx, dyy, v);
                i = i + 1;
            }
            j = j + 1;
        }
    }

    /// Alias for `blit_xywh`: copies a rectangle given by origin and size.
    pub fn blit(
        &self,
        src_store: &PixelStore,
        x_src: i32,
        y_src: i32,
        w_src: u32,
        h_src: u32,
        dst: &Pixmap,
        dst_store: &mut PixelStore,
        x_dst: i32,
        y_dst: i32,
    )
        requires
            self.valid(*src_store),
            dst.valid(*old(dst_store)),
        ensures
            final(dst_store).bytes@.len() == old(dst_store).bytes@.len(),
            final(dst_store).holders == old(dst_store).holders,
            final(dst_store).external == old(dst_store).external,
            forall|i: int|
                0 <= i < old(dst_store).bytes@.len() && !dst.owns_byte(i) ==> final(dst_store).bytes@[i] == old(dst_store).bytes@[i],
            forall|dx: int, dy: int|
                #![trigger dst.pixel_at(final(dst_store).bytes@, dx, dy)]
                dst.pixel_at(final(dst_store).bytes@, dx, dy) == spec_blit_pixel(
                    *self,
                    src_store.bytes@,
                    x_src as int,
                    y_src as int,
                    w_src as int,
                    h_src as int,
                    *dst,
                    old(dst_store).bytes@,
                    x_dst as int,
                    y_dst as int,
                    dx,
                    dy,
                ),
    {
        self.blit_xywh(src_store, x_src, y_src, w_src, h_src, dst, dst_store, x_dst, y_dst);
    }

    /// Copies the rectangle with inclusive corners (x0, y0) and (x1, y1) of
    /// this member into `dst` at (x_dst, y_dst), clipped to both logical
    /// extents. An inverted corner pair selects an empty rectangle.
    pub fn blit_xyxy(
        &self,
        src_store: &PixelStore,
        x0: i32,
        y0: i32,
        x1: i32,
        y1: i32,
        dst: &Pixmap,
        dst_store: &mut PixelStore,
        x_dst: i32,
        y_dst: i32,
    )
        requires
            self.valid(*src_store),
            dst.valid(*old(dst_store)),
        ensures
            final(dst_store).bytes@.len() == old(dst_store).bytes@.len(),
            final(dst_store).holders == old(dst_store).holders,
            final(dst_store).external == old(dst_store).external,
            forall|i: int|
                0 <= i < old(dst_store).bytes@.len() && !dst.owns_byte(i) ==> final(dst_store).bytes@[i] == old(dst_store).bytes@[i],
            forall|dx: int, dy: int|
                #![trigger dst.pixel_at(final(dst_store).bytes@, dx, dy)]
                dst.pixel_at(final(dst_store).bytes@, dx, dy) == spec_blit_pixel(
                    *self,
                    src_store.bytes@,
                    x0 as int,
                    y0 as int,
                    x1 - x0 + 1,
                    y1 - y0 + 1,
                    *dst,
                    old(dst_store).bytes@,
                    x_dst as int,
                    y_dst as int,
                    dx,
                    dy,
                ),
    {
        if x1 < x0 || y1 < y0 {
            return ;
        }
        let w64: i64 = x1 as i64 - x0 as i64 + 1;
        let w: u32 = if w64 > 0xffff_ffffi64 {
            0xffff_ffffu32
        } else {
            w64 as u32
        };
        let h64: i64 = y1 as i64 - y0 as i64 + 1;
        let h: u32 = if h64 > 0xffff_ffffi64 {
            0xffff_ffffu32
        } else {
            h64 as u32
        };
        self.blit_xywh(src_store, x0, y0, w, h, dst, dst_store, x_dst, y_dst);
        proof {
            assert forall|dx: int, dy: int| #[trigger] dst.pixel_at(dst_store.bytes@, dx, dy)
                == spec_blit_pixel(
                *self,
                src_store.bytes@,
                x0 as int,
                y0 as int,
                x1 - x0 + 1,
                y1 - y0 + 1,
                *dst,
                old(dst_store).bytes@,
                x_dst as int,
                y_dst as int,
                dx,
                dy,
            ) by {
                assert(self.spec_w() <= MAX_DIM && self.spec_h() <= MAX_DIM);
            }
        }
    }
}

/// The largest of three values.
fn max3(a: i64, b: i64, c: i64) -> (r: i64)
    ensures
        r >= a && r >= b && r >= c,
        r == a || r == b || r == c,
{
    let m = if a >= b {
        a
    } else {
        b
    };
    if m >= c {
        m
    } else {
        c
    }
}

/// The smallest of three values.
fn min3(a: i64, b: i64, c: i64) -> (r: i64)
    ensures
        r <= a && r <= b && r <= c,
        r == a || r == b || r == c,
{
    let m = if a <= b {
        a
    } else {
        b
    };
    if m <= c {
        m
    } else {
        c
    }
}

} // verus!
