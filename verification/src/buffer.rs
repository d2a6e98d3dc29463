use vstd::prelude::*;

use crate::bitmap::Bitmap;
use crate::blit::blitted;

verus! {

/// The frame that sprites are drawn into: rows of packed pixels.
#[derive(Debug)]
pub struct PixelBuffer {
    pixels: Vec<u32>,
    width: usize,
    height: usize,
}

/// What a [`PixelBuffer`] is, mathematically.
pub struct PixelBufferView {
    pub width: nat,
    pub height: nat,
    /// Row-major: the pixel at column `x` of row `y` is `pixels[y * width + x]`.
    pub pixels: Seq<u32>,
}

impl PixelBufferView {
    /// The pixels fill `height` rows of `width` columns.
    pub open spec fn wf(self) -> bool {
        self.pixels.len() == self.width * self.height
    }
}

impl View for PixelBuffer {
    type V = PixelBufferView;

    closed spec fn view(&self) -> PixelBufferView {
        PixelBufferView {
            width: self.width as nat,
            height: self.height as nat,
            pixels: self.pixels@,
        }
    }
}

impl PixelBuffer {
    /// The invariant of every buffer this library hands out.
    pub open spec fn wf(&self) -> bool {
        self@.wf()
    }

    /// A buffer of `width` by `height` black pixels.
    pub fn new(width: usize, height: usize) -> (buffer: Self)
        requires
            width * height <= usize::MAX,
        ensures
            buffer.wf(),
            buffer@.width == width,
            buffer@.height == height,
            buffer@.pixels == Seq::new((width * height) as nat, |i: int| 0u32),
    {
        let pixels = vec![0u32; width * height];
        assert(pixels@ =~= Seq::new((width * height) as nat, |i: int| 0u32));
        Self { pixels, width, height }
    }

    /// The pixels, row by row.
    pub fn pixels(&self) -> (pixels: &Vec<u32>)
        ensures
            pixels@ == self@.pixels,
    {
        &self.pixels
    }

    /// The number of columns.
    pub fn width(&self) -> (width: usize)
        ensures
            width == self@.width,
    {
        self.width
    }

    /// The number of rows.
    pub fn height(&self) -> (height: usize)
        ensures
            height == self@.height,
    {
        self.height
    }

    /// Draws `bitmap` with its top left corner at column `x`, row `y`.
    pub(crate) fn draw(&mut self, bitmap: &Bitmap, x: i64, y: i64)
        requires
            bitmap.wf(),
            -0x1_0000_0000 <= x <= 0x1_0000_0000,
            -0x1_0000_0000 <= y <= 0x1_0000_0000,
        ensures
            final(self)@ == (PixelBufferView {
                pixels: blitted(
                    old(self)@.pixels,
                    old(self)@.width as int,
                    bitmap@,
                    x as int,
                    y as int,
                ),
                ..old(self)@
            }),
    {
        bitmap.blit_at(&mut self.pixels, self.width, x, y);
    }

    /// Sets every pixel to `color`.
    pub fn clear(&mut self, color: u32)
        ensures
            final(self)@.width == old(self)@.width,
            final(self)@.height == old(self)@.height,
            final(self)@.pixels == Seq::new(old(self)@.pixels.len(), |i: int| color),
    {
        let len = self.pixels.len();
        let mut i: usize = 0;
        while i < len
            invariant
                i <= len,
                len == self.pixels@.len(),
                self.width == old(self).width,
                self.height == old(self).height,
                self.pixels@.len() == old(self).pixels@.len(),
                forall|k: int| 0 <= k < i ==> self.pixels@[k] == color,
            decreases len - i,
        {
            self.pixels.set(i, color);
            i += 1;
        }
        assert(self.pixels@ =~= Seq::new(old(self).pixels@.len(), |i: int| color));
    }
}

impl Default for PixelBuffer {
    /// The buffer without pixels.
    fn default() -> (buffer: Self)
        ensures
            buffer.wf(),
            buffer@.width == 0,
            buffer@.height == 0,
            buffer@.pixels == Seq::<u32>::empty(),
    {
        Self { pixels: Vec::new(), width: 0, height: 0 }
    }
}

} // verus!
