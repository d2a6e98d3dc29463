use vstd::prelude::*;
use vstd::arithmetic::div_mod::lemma_fundamental_div_mod;
use vstd::arithmetic::div_mod::lemma_fundamental_div_mod_converse;
use vstd::arithmetic::div_mod::lemma_div_is_ordered;

use crate::bitmap::Bitmap;
use crate::bitmap::BitmapView;

verus! {

/// The pixel of `src` that covers index `i` of a destination `dst_width` wide
/// when the top left corner of `src` is placed at column `x`, row `y`; `None`
/// where `src` does not reach or is transparent.
pub open spec fn source_pixel(src: BitmapView, dst_width: int, x: int, y: int, i: int) -> Option<
    u32,
> {
    let sx = i % dst_width - x;
    let sy = i / dst_width - y;
    if dst_width > 0 && 0 <= sx < src.width && 0 <= sy < src.height && src.pixels[sy * src.width
        + sx] != src.mask_color {
        Some(src.pixels[sy * src.width + sx])
    } else {
        None
    }
}

/// The destination after `src` is drawn onto it at column `x`, row `y`: an
/// opaque source pixel replaces what lies under it, everything else stays.
pub open spec fn blitted(dst: Seq<u32>, dst_width: int, src: BitmapView, x: int, y: int) -> Seq<
    u32,
> {
    Seq::new(
        dst.len(),
        |i: int|
            match source_pixel(src, dst_width, x, y, i) {
                Some(c) => c,
                None => dst[i],
            },
    )
}

/// The destination while a blit is under way: the source rows above `sy`, and
/// the pixels left of `sx` in row `sy`, have been drawn.
spec fn partly_blitted(
    dst: Seq<u32>,
    dst_width: int,
    src: BitmapView,
    x: int,
    y: int,
    sy: int,
    sx: int,
) -> Seq<u32> {
    Seq::new(
        dst.len(),
        |i: int|
            {
                let row = i / dst_width - y;
                let col = i % dst_width - x;
                if row < sy || (row == sy && col < sx) {
                    blitted(dst, dst_width, src, x, y)[i]
                } else {
                    dst[i]
                }
            },
    )
}

/// The row-major index of a column and a row gives both back.
proof fn lemma_index_of_coords(w: int, col: int, row: int)
    requires
        w > 0,
        0 <= col < w,
    ensures
        (row * w + col) / w == row,
        (row * w + col) % w == col,
{
    lemma_fundamental_div_mod_converse(row * w + col, w, row, col);
}

/// A row no further down than the last starts within the destination.
proof fn lemma_row_start_in_bounds(len: int, w: int, row: int)
    requires
        w > 0,
        len > 0,
        0 <= row <= (len - 1) / w,
    ensures
        0 <= row * w <= len - 1,
{
    lemma_fundamental_div_mod(len - 1, w);
    assert(row * w <= ((len - 1) / w) * w) by (nonlinear_arith)
        requires
            w > 0,
            0 <= row <= (len - 1) / w,
    ;
    assert(0 <= row * w) by (nonlinear_arith)
        requires
            w > 0,
            0 <= row,
    ;
}

/// An index of the destination lies at coordinates within it: its column is
/// within the width, its row is no further down than the last, and the index is
/// the row-major one of the two.
proof fn lemma_coords_of_index(len: int, w: int, col: int, row: int, i: int)
    requires
        w > 0,
        len > 0,
        0 <= i < len,
        i % w == col,
        i / w == row,
    ensures
        0 <= col < w,
        0 <= row <= (len - 1) / w,
        i == row * w + col,
{
    lemma_fundamental_div_mod(i, w);
    lemma_div_is_ordered(i, len - 1, w);
    assert(w * row == row * w) by (nonlinear_arith);
    assert(0 <= row) by (nonlinear_arith)
        requires
            w > 0,
            0 <= i,
            i == w * row + col,
            0 <= col < w,
    ;
}

/// A bitmap that is transparent all over leaves no trace: drawing a bitmap
/// whose every pixel is the mask colour gives the destination back unchanged,
/// wherever it is placed.
pub proof fn lemma_blit_fully_masked(dst: Seq<u32>, dst_width: int, src: BitmapView, x: int, y: int)
    requires
        src.wf(),
        src.fully_masked(),
    ensures
        blitted(dst, dst_width, src, x, y) == dst,
{
    assert forall|i: int| 0 <= i < dst.len() implies blitted(dst, dst_width, src, x, y)[i]
        == dst[i] by {
        let sx = i % dst_width - x;
        let sy = i / dst_width - y;
        if 0 <= sx < src.width && 0 <= sy < src.height {
            lemma_source_index_in_bounds(src, sx, sy);
        }
    }
    assert(blitted(dst, dst_width, src, x, y) =~= dst);
}

/// Drawing changes neither the size of the destination nor anything that the
/// bitmap does not cover.
pub proof fn lemma_blit_keeps_uncovered(
    dst: Seq<u32>,
    dst_width: int,
    src: BitmapView,
    x: int,
    y: int,
    i: int,
)
    requires
        0 <= i < dst.len(),
        dst_width <= 0 || !(x <= i % dst_width < x + src.width) || !(y <= i / dst_width < y
            + src.height),
    ensures
        blitted(dst, dst_width, src, x, y).len() == dst.len(),
        blitted(dst, dst_width, src, x, y)[i] == dst[i],
{
}

/// Column `sx` of row `sy` of a bitmap lies within its pixels.
proof fn lemma_source_index_in_bounds(src: BitmapView, sx: int, sy: int)
    requires
        src.wf(),
        0 <= sx < src.width,
        0 <= sy < src.height,
    ensures
        0 <= sy * src.width + sx < src.pixels.len(),
{
    assert(0 <= sy * src.width && sy * src.width + src.width <= src.width * src.height)
        by (nonlinear_arith)
        requires
            0 <= sy < src.height,
            0 <= src.width,
    ;
}

impl Bitmap {
    /// Draws the bitmap onto `dst`, a buffer of rows `dst_width` wide, with its
    /// top left corner at `offset`. Pixels of the mask colour are skipped, and so
    /// is whatever falls outside the buffer.
    pub fn blit(&self, dst: &mut Vec<u32>, dst_width: usize, offset: (i32, i32))
        requires
            self.wf(),
        ensures
            final(dst)@ == blitted(
                old(dst)@,
                dst_width as int,
                self@,
                offset.0 as int,
                offset.1 as int,
            ),
    {
        self.blit_at(dst, dst_width, offset.0 as i64, offset.1 as i64)
    }

    /// [`Bitmap::blit`] for a corner that a sum of two `i32` can name.
    pub(crate) fn blit_at(&self, dst: &mut Vec<u32>, dst_width: usize, x: i64, y: i64)
        requires
            self.wf(),
            -0x1_0000_0000 <= x <= 0x1_0000_0000,
            -0x1_0000_0000 <= y <= 0x1_0000_0000,
        ensures
            final(dst)@ == blitted(old(dst)@, dst_width as int, self@, x as int, y as int),
    {
        let len = dst.len();
        if dst_width == 0 || len == 0 {
            assert(dst@ =~= blitted(dst@, dst_width as int, self@, x as int, y as int));
            return ;
        }
        let ghost before = dst@;
        let ghost w = dst_width as int;
        let width = self.width();
        let height = self.height();
        let mask = self.mask_color();
        let pixels = self.pixels();
        let last_row = (len - 1) / dst_width;
        let mut sy: usize = 0;
        assert(dst@ =~= partly_blitted(before, w, self@, x as int, y as int, 0, 0));
        while sy < height
            invariant
                self.wf(),
                width == self@.width,
                height == self@.height,
                mask == self@.mask_color,
                pixels@ == self@.pixels,
                sy <= height,
                len == before.len(),
                len > 0,
                dst_width > 0,
                w == dst_width as int,
                last_row == (len - 1) / w,
                -0x1_0000_0000 <= x <= 0x1_0000_0000,
                -0x1_0000_0000 <= y <= 0x1_0000_0000,
                dst@ == partly_blitted(before, w, self@, x as int, y as int, sy as int, 0),
            decreases height - sy,
        {
            let row = y + sy as i64;
            if 0 <= row && row as u64 <= last_row as u64 {
                proof {
                    lemma_row_start_in_bounds(len as int, w, row as int);
                    assert(0 <= sy * width && sy * width + width <= width * height)
                        by (nonlinear_arith)
                        requires
                            0 <= sy < height,
                            0 <= width,
                    ;
                    assert(pixels@.len() == pixels.len());
                }
                let row_start = row as usize * dst_width;
                let src_start = sy * width;
                let mut sx: usize = 0;
                while sx < width
                    invariant
                        self.wf(),
                        width == self@.width,
                        height == self@.height,
                        mask == self@.mask_color,
                        pixels@ == self@.pixels,
                        sy < height,
                        sx <= width,
                        len == before.len(),
                        len > 0,
                        dst_width > 0,
                        w == dst_width as int,
                        last_row == (len - 1) / w,
                        -0x1_0000_0000 <= x <= 0x1_0000_0000,
                        row == y + sy,
                        0 <= row <= last_row,
                        row_start == row * w,
                        row_start <= len - 1,
                        src_start == sy * width,
                        src_start + width <= pixels@.len() <= usize::MAX,
                        dst@ == partly_blitted(
                            before,
                            w,
                            self@,
                            x as int,
                            y as int,
                            sy as int,
                            sx as int,
                        ),
                    decreases width - sx,
                {
                    let col = x + sx as i64;
                    let ghost target = row * w + col;
                    let pixel = pixels[src_start + sx];
                    if pixel != mask && 0 <= col && (col as u64) < dst_width as u64
                        && (col as usize) < len - row_start {
                        dst.set(row_start + col as usize, pixel);
                    }
                    proof {
                        assert forall|i: int| 0 <= i < len implies dst@[i] == partly_blitted(
                            before,
                            w,
                            self@,
                            x as int,
                            y as int,
                            sy as int,
                            sx + 1,
                        )[i] by {
                            lemma_coords_of_index(len as int, w, i % w, i / w, i);
                            if i / w - y == sy && i % w - x == sx {
                                assert(i == target);
                            } else if 0 <= col < w {
                                lemma_index_of_coords(w, col as int, row as int);
                                assert(i != target);
                            }
                        }
                        assert(dst@ =~= partly_blitted(
                            before,
                            w,
                            self@,
                            x as int,
                            y as int,
                            sy as int,
                            sx + 1,
                        ));
                    }
                    sx += 1;
                }
            } else {
                proof {
                    assert forall|i: int| 0 <= i < len implies dst@[i] == partly_blitted(
                        before,
                        w,
                        self@,
                        x as int,
                        y as int,
                        sy + 1,
                        0,
                    )[i] by {
                        lemma_coords_of_index(len as int, w, i % w, i / w, i);
                    }
                }
            }
            assert(dst@ =~= partly_blitted(
                before,
                w,
                self@,
                x as int,
                y as int,
                sy + 1,
                0,
            ));
            sy += 1;
        }
        assert(dst@ =~= blitted(before, w, self@, x as int, y as int));
    }
}

} // verus!
