//! A plain raster image: RGBA pixels in row-major order. This is the
//! in-memory form of the element PNGs; reading and writing the files
//! themselves is left to the program around the library.

use vstd::prelude::*;

verus! {

/// One RGBA pixel. Alpha zero means "absent".
#[derive(Debug, Clone, Copy, PartialEq, Eq, Structural)]
pub struct Pixel {
    pub r: u8,
    pub g: u8,
    pub b: u8,
    pub a: u8,
}

/// The fully transparent pixel.
pub open spec fn empty_pixel() -> Pixel {
    Pixel { r: 0, g: 0, b: 0, a: 0 }
}

impl Pixel {
    /// The fully transparent pixel.
    pub fn empty() -> (p: Self)
        ensures
            p == empty_pixel(),
    {
        Self { r: 0, g: 0, b: 0, a: 0 }
    }

    /// An opaque pixel with the given colour channels.
    pub fn from_rgb(r: u8, g: u8, b: u8) -> (p: Self)
        ensures
            p == (Pixel { r, g, b, a: 255u8 }),
    {
        Self { r, g, b, a: 255 }
    }

    /// Whether this pixel is absent (fully transparent).
    pub fn is_empty(&self) -> (e: bool)
        ensures
            e == (self.a == 0),
    {
        self.a == 0
    }
}

/// A raster image: `width * height` pixels, row-major.
#[derive(Debug)]
pub struct Image {
    pub width: u32,
    pub height: u32,
    pub pixels: Vec<Pixel>,
}

impl Image {
    /// The pixel buffer holds exactly one pixel per coordinate.
    pub open spec fn wf(self) -> bool {
        self.pixels@.len() == self.width * self.height
    }

    /// The coordinate lies inside the image.
    pub open spec fn in_bounds(self, x: int, y: int) -> bool {
        0 <= x < self.width && 0 <= y < self.height
    }

    /// The pixel at a coordinate.
    pub open spec fn pixel_at(self, x: int, y: int) -> Pixel {
        self.pixels@[y * self.width + x]
    }

    /// An in-bounds coordinate indexes inside the pixel buffer.
    pub proof fn lemma_index_in_bounds(self, x: int, y: int)
        requires
            self.in_bounds(x, y),
        ensures
            0 <= y * self.width + x < self.width * self.height,
    {
        let w = self.width as int;
        let h = self.height as int;
        assert(0 <= y * w + x < w * h) by (nonlinear_arith)
            requires
                0 <= x < w,
                0 <= y < h,
        ;
    }

    /// A fully transparent image of the given dimensions.
    pub fn with_size(width: u32, height: u32) -> (img: Self)
        requires
            width * height <= usize::MAX,
        ensures
            img.wf(),
            img.width == width,
            img.height == height,
            forall|k: int| 0 <= k < img.pixels@.len() ==> img.pixels@[k] == empty_pixel(),
    {
        let n: usize = (width as usize) * (height as usize);
        let mut pixels: Vec<Pixel> = Vec::new();
        for i in 0..n
            invariant
                pixels@.len() == i,
                forall|k: int| 0 <= k < i ==> pixels@[k] == empty_pixel(),
        {
            pixels.push(Pixel::empty());
        }
        Self { width, height, pixels }
    }

    /// The pixel at `(x, y)`, or `None` outside the image.
    pub fn get_pixel(&self, x: i32, y: i32) -> (r: Option<Pixel>)
        requires
            self.wf(),
        ensures
            self.in_bounds(x as int, y as int) ==> r == Some(self.pixel_at(x as int, y as int)),
            !self.in_bounds(x as int, y as int) ==> r is None,
    {
        if x < 0 || y < 0 {
            return None;
        }
        let xu = x as u32;
        let yu = y as u32;
        if xu >= self.width || yu >= self.height {
            return None;
        }
        let len = self.pixels.len();
        proof {
            self.lemma_index_in_bounds(x as int, y as int);
        }
        let idx: usize = (yu as usize) * (self.width as usize) + (xu as usize);
        Some(self.pixels[idx])
    }

    /// Writes the pixel at `(x, y)`; writes outside the image are ignored.
    pub fn set_pixel(&mut self, x: i32, y: i32, p: Pixel)
        requires
            old(self).wf(),
        ensures
            final(self).wf(),
            final(self).width == old(self).width,
            final(self).height == old(self).height,
            old(self).in_bounds(x as int, y as int) ==> final(self).pixels@ == old(
                self,
            ).pixels@.update(y * old(self).width + x, p),
            !old(self).in_bounds(x as int, y as int) ==> final(self).pixels@ == old(self).pixels@,
    {
        if x < 0 || y < 0 {
            return ;
        }
        let xu = x as u32;
        let yu = y as u32;
        if xu >= self.width || yu >= self.height {
            return ;
        }
        let len = self.pixels.len();
        proof {
            self.lemma_index_in_bounds(x as int, y as int);
        }
        let idx: usize = (yu as usize) * (self.width as usize) + (xu as usize);
        self.pixels[idx] = p;
    }

    /// Copies `other` onto this image at the origin; the parts of either
    /// image outside the overlap are untouched.
    pub fn draw_from(&mut self, other: &Image)
        requires
            old(self).wf(),
            other.wf(),
            other.width <= i32::MAX,
            other.height <= i32::MAX,
        ensures
            final(self).wf(),
            final(self).width == old(self).width,
            final(self).height == old(self).height,
            forall|x: int, y: int|
                final(self).in_bounds(x, y) ==> #[trigger] final(self).pixel_at(x, y) == (
                if other.in_bounds(x, y) {
                    other.pixel_at(x, y)
                } else {
                    old(self).pixel_at(x, y)
                }),
    {
        let w = if self.width < other.width {
            self.width
        } else {
            other.width
        };
        let h = if self.height < other.height {
            self.height
        } else {
            other.height
        };
        let ghost init = *self;
        let mut y: u32 = 0;
        while y < h
            invariant
                self.wf(),
                w <= self.width,
                w <= other.width,
                h <= self.height,
                h <= other.height,
                other.width <= i32::MAX,
                other.height <= i32::MAX,
                w == vstd::math::min(init.width as int, other.width as int),
                h == vstd::math::min(init.height as int, other.height as int),
                other.wf(),
                y <= h,
                self.width == init.width,
                self.height == init.height,
                forall|px: int, py: int|
                    self.in_bounds(px, py) ==> #[trigger] self.pixel_at(px, py) == (
                    if 0 <= px < w && 0 <= py < y {
                        other.pixel_at(px, py)
                    } else {
                        init.pixel_at(px, py)
                    }),
            decreases h - y,
        {
            let mut x: u32 = 0;
            while x < w
                invariant
                    self.wf(),
                    w <= self.width,
                    w <= other.width,
                    h <= self.height,
                    h <= other.height,
                    other.width <= i32::MAX,
                    other.height <= i32::MAX,
                    other.wf(),
                    x <= w,
                    y < h,
                    self.width == init.width,
                    self.height == init.height,
                    forall|px: int, py: int|
                        self.in_bounds(px, py) ==> #[trigger] self.pixel_at(px, py) == (
                        if (0 <= px < w && 0 <= py < y) || (py == y && 0 <= px < x) {
                            other.pixel_at(px, py)
                        } else {
                            init.pixel_at(px, py)
                        }),
                decreases w - x,
            {
                let p = match other.get_pixel(x as i32, y as i32) {
                    Some(p) => p,
                    None => Pixel::empty(),
                };
                let ghost before = *self;
                self.set_pixel(x as i32, y as i32, p);
                proof {
                    before.lemma_index_in_bounds(x as int, y as int);
                    assert forall|px: int, py: int| self.in_bounds(px, py) implies #[trigger] self
                        .pixel_at(px, py) == (
                    if (0 <= px < w && 0 <= py < y) || (py == y && 0 <= px < x + 1) {
                        other.pixel_at(px, py)
                    } else {
                        init.pixel_at(px, py)
                    }) by {
                        self.lemma_index_in_bounds(px, py);
                        before.lemma_index_in_bounds(px, py);
                        let bv = before.pixel_at(px, py);
                        if py * self.width + px == y * self.width + x {
                            assert(py == y && px == x) by (nonlinear_arith)
                                requires
                                    py * self.width + px == y * self.width + x,
                                    0 <= px < self.width,
                                    0 <= x < self.width,
                                    0 <= py,
                                    0 <= y,
                            ;
                        }
                    }
                }
                x = x + 1;
            }
            y = y + 1;
        }
    }

    /// Empties every pixel in the columns from `x0` rightwards.
    pub fn clear_from_column(&mut self, x0: u32)
        requires
            old(self).wf(),
            old(self).width <= i32::MAX,
            old(self).height <= i32::MAX,
        ensures
            final(self).wf(),
            final(self).width == old(self).width,
            final(self).height == old(self).height,
            forall|x: int, y: int|
                final(self).in_bounds(x, y) ==> #[trigger] final(self).pixel_at(x, y) == (if x
                    >= x0 {
                    empty_pixel()
                } else {
                    old(self).pixel_at(x, y)
                }),
    {
        let w = self.width;
        let h = self.height;
        let ghost init = *self;
        let mut x: u32 = x0;
        while x < w
            invariant
                self.wf(),
                w == self.width,
                h == self.height,
                w <= i32::MAX,
                h <= i32::MAX,
                x0 <= x || x == x0,
                x0 <= x <= vstd::math::max(w as int, x0 as int),
                self.width == init.width,
                self.height == init.height,
                forall|px: int, py: int|
                    self.in_bounds(px, py) ==> #[trigger] self.pixel_at(px, py) == (if x0 <= px
                        < x {
                        empty_pixel()
                    } else {
                        init.pixel_at(px, py)
                    }),
            decreases w - x,
        {
            let mut y: u32 = 0;
            while y < h
                invariant
                    self.wf(),
                    w == self.width,
                    h == self.height,
                    w <= i32::MAX,
                    h <= i32::MAX,
                    x0 <= x < w,
                    y <= h,
                    self.width == init.width,
                    self.height == init.height,
                    forall|px: int, py: int|
                        self.in_bounds(px, py) ==> #[trigger] self.pixel_at(px, py) == (if (x0
                            <= px < x) || (px == x && 0 <= py < y) {
                            empty_pixel()
                        } else {
                            init.pixel_at(px, py)
                        }),
                decreases h - y,
            {
                let ghost before = *self;
                self.set_pixel(x as i32, y as i32, Pixel::empty());
                proof {
                    before.lemma_index_in_bounds(x as int, y as int);
                    assert forall|px: int, py: int| self.in_bounds(px, py) implies #[trigger] self
                        .pixel_at(px, py) == (
                    if (x0 <= px < x) || (px == x && 0 <= py < y + 1) {
                        empty_pixel()
                    } else {
                        init.pixel_at(px, py)
                    }) by {
                        self.lemma_index_in_bounds(px, py);
                        before.lemma_index_in_bounds(px, py);
                        let bv = before.pixel_at(px, py);
                        if py * self.width + px == y * self.width + x {
                            assert(py == y && px == x) by (nonlinear_arith)
                                requires
                                    py * self.width + px == y * self.width + x,
                                    0 <= px < self.width,
                                    0 <= x < self.width,
                                    0 <= py,
                                    0 <= y,
                            ;
                        }
                    }
                }
                y = y + 1;
            }
            x = x + 1;
        }
    }
}

} // verus!
