use crate::error::MagickError;
use vstd::prelude::*;

verus! {

/// One RGBA8 pixel.
#[derive(Debug, Clone, Copy, PartialEq, Eq, Structural)]
pub struct Pixel {
    pub r: u8,
    pub g: u8,
    pub b: u8,
    pub a: u8,
}

impl Pixel {
    pub fn from_array(c: [u8; 4]) -> (r: Pixel)
        ensures
            r == (Pixel { r: c@[0], g: c@[1], b: c@[2], a: c@[3] }),
    {
        Pixel { r: c[0], g: c[1], b: c[2], a: c[3] }
    }

    pub fn to_array(&self) -> (r: [u8; 4])
        ensures
            r@ == seq![self.r, self.g, self.b, self.a],
    {
        let r = [self.r, self.g, self.b, self.a];
        assert(r@ =~= seq![self.r, self.g, self.b, self.a]);
        r
    }
}

/// A decoded raster image: `width`×`height` RGBA8 pixels in row-major order,
/// the EXIF orientation code read with it, if any, and whether its source
/// layout carried an alpha channel (without one, every alpha here is 255).
#[derive(Debug, Clone)]
pub struct Image {
    pub width: u32,
    pub height: u32,
    pub pixels: Vec<Pixel>,
    pub orientation: Option<u8>,
    pub has_alpha: bool,
}

/// The number of pixels a `w`×`h` buffer holds, when it fits in memory.
pub fn pixel_count(w: u32, h: u32) -> (r: Option<usize>)
    ensures
        r matches Some(n) ==> n == w as int * h as int,
        r is None ==> w as int * h as int > usize::MAX,
{
    proof {
        assert(w as int * h as int <= 0xffff_ffff_ffff_ffff) by (nonlinear_arith)
            requires
                w <= 0xffff_ffff,
                h <= 0xffff_ffff,
        ;
    }
    let n: u128 = w as u128 * h as u128;
    if n <= usize::MAX as u128 {
        Some(n as usize)
    } else {
        None
    }
}

impl Image {
    /// Both sides are positive and the buffer holds exactly one pixel per position.
    pub open spec fn wf(&self) -> bool {
        &&& self.width > 0
        &&& self.height > 0
        &&& self.pixels@.len() == self.width as int * self.height as int
    }

    /// The pixel at column `x`, row `y`.
    pub open spec fn at(&self, x: int, y: int) -> Pixel {
        self.pixels@[y * self.width + x]
    }

    /// An image from its pixels; `InvalidGeometry` for a zero side or a buffer
    /// of the wrong length.
    pub fn new(width: u32, height: u32, pixels: Vec<Pixel>) -> (r: Result<Image, MagickError>)
        ensures
            (width > 0 && height > 0 && pixels@.len() == width as int * height as int) ==> (r matches Ok(img)
                && img.width == width && img.height == height && img.pixels@ == pixels@
                && img.orientation is None && img.has_alpha),
            !(width > 0 && height > 0 && pixels@.len() == width as int * height as int) ==> r
                == Err::<Image, MagickError>(MagickError::InvalidGeometry),
    {
        if width == 0 || height == 0 {
            return Err(MagickError::InvalidGeometry);
        }
        let len = pixels.len();
        match pixel_count(width, height) {
            Some(n) => if len == n {
                Ok(Image { width, height, pixels, orientation: None, has_alpha: true })
            } else {
                Err(MagickError::InvalidGeometry)
            },
            None => Err(MagickError::InvalidGeometry),
        }
    }

    /// A `width`×`height` image of one colour; `InvalidGeometry` for a zero
    /// side or a buffer too large to address.
    pub fn filled(width: u32, height: u32, color: Pixel) -> (r: Result<Image, MagickError>)
        ensures
            r matches Ok(img) ==> img.wf() && img.width == width && img.height == height
                && img.orientation is None && img.has_alpha && forall|i: int|
                0 <= i < img.pixels@.len() ==> #[trigger] img.pixels@[i] == color,
            r is Err ==> r == Err::<Image, MagickError>(MagickError::InvalidGeometry),
            (width > 0 && height > 0 && width as int * height as int <= usize::MAX) ==> r is Ok,
    {
        if width == 0 || height == 0 {
            return Err(MagickError::InvalidGeometry);
        }
        let n = match pixel_count(width, height) {
            Some(n) => n,
            None => {
                return Err(MagickError::InvalidGeometry);
            },
        };
        let mut pixels: Vec<Pixel> = Vec::new();
        let mut i: usize = 0;
        while i < n
            invariant
                i <= n,
                pixels@.len() == i,
                forall|k: int| 0 <= k < i ==> #[trigger] pixels@[k] == color,
            decreases n - i,
        {
            pixels.push(color);
            i = i + 1;
        }
        Ok(Image { width, height, pixels, orientation: None, has_alpha: true })
    }

    /// A fully transparent `width`×`height` image.
    pub fn transparent(width: u32, height: u32) -> (r: Result<Image, MagickError>)
        ensures
            r matches Ok(img) ==> img.wf() && img.width == width && img.height == height
                && forall|i: int|
                0 <= i < img.pixels@.len() ==> #[trigger] img.pixels@[i] == (Pixel {
                    r: 0,
                    g: 0,
                    b: 0,
                    a: 0,
                }),
            r is Err ==> r == Err::<Image, MagickError>(MagickError::InvalidGeometry),
            (width > 0 && height > 0 && width as int * height as int <= usize::MAX) ==> r is Ok,
    {
        Image::filled(width, height, Pixel { r: 0, g: 0, b: 0, a: 0 })
    }

    /// Whether the image is well formed.
    pub fn is_valid(&self) -> (r: bool)
        ensures
            r == self.wf(),
    {
        let len = self.pixels.len();
        if self.width == 0 || self.height == 0 {
            return false;
        }
        match pixel_count(self.width, self.height) {
            Some(n) => len == n,
            None => false,
        }
    }

    /// The pixel at column `x`, row `y`.
    pub fn pixel(&self, x: u32, y: u32) -> (r: Pixel)
        requires
            self.wf(),
            x < self.width,
            y < self.height,
        ensures
            r == self.at(x as int, y as int),
    {
        let len = self.pixels.len();
        proof {
            lemma_index_in_grid(x as int, y as int, self.width as int, self.height as int);
        }
        self.pixels[y as usize * self.width as usize + x as usize]
    }
}

/// Column `x` of row `y` lies inside a `w`×`h` row-major buffer.
pub proof fn lemma_index_in_grid(x: int, y: int, w: int, h: int)
    requires
        0 <= x < w,
        0 <= y < h,
    ensures
        0 <= y * w + x < w * h,
{
    assert(0 <= y * w + x < w * h) by (nonlinear_arith)
        requires
            0 <= x < w,
            0 <= y < h,
    ;
}

} // verus!
