use vstd::prelude::*;
use vstd::slice::slice_to_vec;

use crate::error::BakeError;

verus! {

/// A decoded image: rows of packed pixels, one colour of which stands for
/// "transparent".
#[derive(Debug)]
pub struct Bitmap {
    width: usize,
    height: usize,
    mask_color: u32,
    pixels: Vec<u32>,
}

/// What a [`Bitmap`] is, mathematically.
pub struct BitmapView {
    pub width: nat,
    pub height: nat,
    pub mask_color: u32,
    /// Row-major: the pixel at column `x` of row `y` is `pixels[y * width + x]`.
    pub pixels: Seq<u32>,
}

impl BitmapView {
    /// The pixels fill `height` rows of `width` columns, the width is positive
    /// and both sides fit in an `i32`.
    pub open spec fn wf(self) -> bool {
        &&& 0 < self.width <= i32::MAX
        &&& self.height <= i32::MAX
        &&& self.pixels.len() == self.width * self.height
    }

    /// Whether every pixel is the mask colour.
    pub open spec fn fully_masked(self) -> bool {
        forall|i: int| 0 <= i < self.pixels.len() ==> self.pixels[i] == self.mask_color
    }
}

/// Whether `len` pixels can be laid out in rows of `width`.
pub open spec fn fills_rows(len: nat, width: nat) -> bool {
    width > 0 && len % width == 0
}

/// The outcome of laying out `pixels` in rows of `width`.
pub open spec fn bitmap_from(pixels: Seq<u32>, width: nat, mask_color: u32) -> Result<
    BitmapView,
    BakeError,
> {
    if !fills_rows(pixels.len(), width) {
        Err(BakeError::ImageSizeMismatch)
    } else if width > i32::MAX || pixels.len() / width > i32::MAX {
        Err(BakeError::TooLarge)
    } else {
        Ok(BitmapView { width, height: pixels.len() / width, mask_color, pixels })
    }
}

impl View for Bitmap {
    type V = BitmapView;

    closed spec fn view(&self) -> BitmapView {
        BitmapView {
            width: self.width as nat,
            height: self.height as nat,
            mask_color: self.mask_color,
            pixels: self.pixels@,
        }
    }
}

impl Bitmap {
    /// The invariant of every bitmap this library hands out.
    pub open spec fn wf(&self) -> bool {
        self@.wf()
    }

    /// Builds a bitmap from row-major pixel data.
    pub fn from_buffer(src: &[u32], width: usize, mask_color: u32) -> (r: Result<Bitmap, BakeError>)
        ensures
            match r {
                Ok(b) => b.wf() && Ok::<BitmapView, BakeError>(b@) == bitmap_from(
                    src@,
                    width as nat,
                    mask_color,
                ),
                Err(e) => Err::<BitmapView, BakeError>(e) == bitmap_from(
                    src@,
                    width as nat,
                    mask_color,
                ),
            },
    {
        let len = src.len();
        if width == 0 || len % width != 0 {
            return Err(BakeError::ImageSizeMismatch);
        }
        let height = len / width;
        if width > 0x7fff_ffff || height > 0x7fff_ffff {
            return Err(BakeError::TooLarge);
        }
        proof {
            vstd::arithmetic::div_mod::lemma_fundamental_div_mod(len as int, width as int);
        }
        Ok(Bitmap { width, height, mask_color, pixels: slice_to_vec(src) })
    }

    /// The number of columns.
    pub fn width(&self) -> (w: usize)
        ensures
            w == self@.width,
    {
        self.width
    }

    /// The number of rows.
    pub fn height(&self) -> (h: usize)
        ensures
            h == self@.height,
    {
        self.height
    }

    /// Columns and rows.
    pub fn size(&self) -> (s: (usize, usize))
        ensures
            s.0 == self@.width,
            s.1 == self@.height,
    {
        (self.width, self.height)
    }

    /// The colour that stands for "transparent".
    pub fn mask_color(&self) -> (c: u32)
        ensures
            c == self@.mask_color,
    {
        self.mask_color
    }

    /// The pixels, row by row.
    pub fn pixels(&self) -> (p: &Vec<u32>)
        ensures
            p@ == self@.pixels,
    {
        &self.pixels
    }
}

impl Clone for Bitmap {
    fn clone(&self) -> (copy: Self)
        ensures
            copy@ == self@,
    {
        Bitmap {
            width: self.width,
            height: self.height,
            mask_color: self.mask_color,
            pixels: slice_to_vec(self.pixels.as_slice()),
        }
    }
}

} // verus!
