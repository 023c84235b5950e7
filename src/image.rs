//! An 8-bit RGB raster stored in row-major order, top row first.
use vstd::prelude::*;

verus! {

/// One pixel, each channel quantized to a byte.
#[derive(Clone, Copy, Debug, PartialEq, Eq, Structural)]
pub struct Rgb8 {
    pub r: u8,
    pub g: u8,
    pub b: u8,
}

impl Rgb8 {
    pub fn new(r: u8, g: u8, b: u8) -> (c: Rgb8)
        ensures
            c == (Rgb8 { r, g, b }),
    {
        Rgb8 { r, g, b }
    }

    pub open spec fn black_spec() -> Rgb8 {
        Rgb8 { r: 0, g: 0, b: 0 }
    }

    pub fn black() -> (c: Rgb8)
        ensures
            c == Rgb8::black_spec(),
    {
        Rgb8 { r: 0, g: 0, b: 0 }
    }
}

/// What an image is: its size and its pixels, row after row.
pub struct ImageModel {
    pub width: nat,
    pub height: nat,
    pub pixels: Seq<Rgb8>,
}

/// Position of pixel `(i, j)` (column `i`, row `j`) in row-major order.
pub open spec fn pixel_offset(width: nat, i: nat, j: nat) -> nat {
    j * width + i
}

pub struct Image {
    width: u32,
    height: u32,
    pixels: Vec<Rgb8>,
}

impl View for Image {
    type V = ImageModel;

    closed spec fn view(&self) -> ImageModel {
        ImageModel { width: self.width as nat, height: self.height as nat, pixels: self.pixels@ }
    }
}

impl Image {
    /// One pixel for each position.
    pub open spec fn wf(&self) -> bool {
        self@.pixels.len() == self@.width * self@.height
    }

    /// An all-black image of the given size.
    pub fn new(width: u32, height: u32) -> (img: Image)
        requires
            width as nat * height as nat <= usize::MAX,
        ensures
            img.wf(),
            img@.width == width,
            img@.height == height,
            img@.pixels == Seq::new(width as nat * height as nat, |k: int| Rgb8::black_spec()),
    {
        let n: usize = width as usize * height as usize;
        let mut pixels: Vec<Rgb8> = Vec::with_capacity(n);
        let mut k: usize = 0;
        while k < n
            invariant
                k <= n,
                n == width as nat * height as nat,
                pixels@ == Seq::new(k as nat, |q: int| Rgb8::black_spec()),
            decreases n - k,
        {
            pixels.push(Rgb8::black());
            k += 1;
        }
        Image { width, height, pixels }
    }

    pub fn width(&self) -> (w: u32)
        ensures
            w == self@.width,
    {
        self.width
    }

    pub fn height(&self) -> (h: u32)
        ensures
            h == self@.height,
    {
        self.height
    }

    /// The pixels in row-major order, top row first.
    pub fn pixels(&self) -> (p: &[Rgb8])
        ensures
            p@ == self@.pixels,
    {
        self.pixels.as_slice()
    }

    /// Row-major offset of pixel `(i, j)`.
    pub fn pixel_index(&self, i: u32, j: u32) -> (k: usize)
        requires
            self.wf(),
            i < self@.width,
            j < self@.height,
        ensures
            k == pixel_offset(self@.width, i as nat, j as nat),
            k < self@.pixels.len(),
    {
        // The vector's length bounds the offset below `usize::MAX`.
        let _len: usize = self.pixels.len();
        proof {
            lemma_offset_in_bounds(self@.width, self@.height, i as nat, j as nat);
        }
        j as usize * self.width as usize + i as usize
    }

    /// The pixel in column `i` of row `j`.
    pub fn get(&self, i: u32, j: u32) -> (c: Rgb8)
        requires
            self.wf(),
            i < self@.width,
            j < self@.height,
        ensures
            c == self@.pixels[pixel_offset(self@.width, i as nat, j as nat) as int],
    {
        let k = self.pixel_index(i, j);
        self.pixels[k]
    }

    /// Stores `c` in column `i` of row `j`; every other pixel is kept.
    pub fn set(&mut self, i: u32, j: u32, c: Rgb8)
        requires
            old(self).wf(),
            i < old(self)@.width,
            j < old(self)@.height,
        ensures
            final(self).wf(),
            final(self)@.width == old(self)@.width,
            final(self)@.height == old(self)@.height,
            final(self)@.pixels == old(self)@.pixels.update(
                pixel_offset(old(self)@.width, i as nat, j as nat) as int,
                c,
            ),
    {
        let k = self.pixel_index(i, j);
        self.pixels.set(k, c);
    }
}

proof fn lemma_offset_in_bounds(w: nat, h: nat, i: nat, j: nat)
    requires
        i < w,
        j < h,
    ensures
        pixel_offset(w, i, j) < w * h,
{
    assert(j * w + i < w * h) by (nonlinear_arith)
        requires
            i < w,
            j < h,
    ;
}

} // verus!
