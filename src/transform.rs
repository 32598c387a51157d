use crate::error::MagickError;
use crate::geometry::round_div;
use crate::image::{lemma_index_in_grid, pixel_count, Image, Pixel};
use vstd::arithmetic::div_mod::{lemma_fundamental_div_mod, lemma_mod_pos_bound};
use vstd::prelude::*;

verus! {

/// The resampling filter a resize is told to use.
#[derive(Debug, Clone, Copy, PartialEq, Eq, Structural)]
pub enum Resampling {
    Lanczos3,
    Triangle,
    Nearest,
}

/// What `image::imageops::resize` produces from an RGBA8 buffer, for the
/// filters whose arithmetic is plain IEEE float operations (not `Lanczos3`,
/// whose kernel calls the platform's `sin`).
pub uninterp spec fn resampled(
    pixels: Seq<Pixel>,
    w: u32,
    h: u32,
    new_w: u32,
    new_h: u32,
    filter: Resampling,
) -> Seq<Pixel>;

/// What `image::imageops::thumbnail` produces from an RGBA8 buffer.
pub uninterp spec fn thumbnailed(pixels: Seq<Pixel>, w: u32, h: u32, new_w: u32, new_h: u32) -> Seq<
    Pixel,
>;

/// The source position (column, row) of output pixel (`x`, `y`) when a
/// `w`×`h` image is transformed as EXIF orientation `code` says: 2 mirrors,
/// 3 turns half round, 4 flips, 6 and 8 turn a quarter clockwise and
/// anticlockwise, 5 and 7 turn a quarter and mirror.
pub open spec fn orient_source(code: u8, w: int, h: int, x: int, y: int) -> (int, int) {
    if code == 2 {
        (w - 1 - x, y)
    } else if code == 3 {
        (w - 1 - x, h - 1 - y)
    } else if code == 4 {
        (x, h - 1 - y)
    } else if code == 5 {
        (y, x)
    } else if code == 6 {
        (y, h - 1 - x)
    } else if code == 7 {
        (w - 1 - y, h - 1 - x)
    } else if code == 8 {
        (w - 1 - y, x)
    } else {
        (x, y)
    }
}

/// Pixel `j` of `img` transformed by orientation `code` into an image `out_w` wide.
pub open spec fn oriented_pixel(img: Image, code: u8, out_w: int, j: int) -> Pixel {
    let src = orient_source(code, img.width as int, img.height as int, j % out_w, j / out_w);
    img.at(src.0, src.1)
}

/// Relies on `image::imageops::resize`: a `new_w`×`new_h` buffer of the same
/// pixel type, resampled with the given filter. Under `Lanczos3` the pixels
/// may differ between platforms, so only the dimensions are stated.
#[verifier::external_body]
fn resample(img: &Image, new_w: u32, new_h: u32, filter: Resampling) -> (r: Image)
    requires
        img.wf(),
        new_w > 0,
        new_h > 0,
        new_w as int * new_h as int * 4 <= usize::MAX,
    ensures
        r.width == new_w,
        r.height == new_h,
        r.pixels@.len() == new_w as int * new_h as int,
        filter != Resampling::Lanczos3 ==> r.pixels@ == resampled(
            img.pixels@,
            img.width,
            img.height,
            new_w,
            new_h,
            filter,
        ),
        r.orientation == img.orientation,
        r.has_alpha == img.has_alpha,
{
    let raw: Vec<u8> = img.pixels.iter().flat_map(|p| p.to_array()).collect();
    let buf = image::RgbaImage::from_raw(img.width, img.height, raw).unwrap();
    let kind = match filter {
        Resampling::Lanczos3 => image::imageops::FilterType::Lanczos3,
        Resampling::Triangle => image::imageops::FilterType::Triangle,
        Resampling::Nearest => image::imageops::FilterType::Nearest,
    };
    let out = image::imageops::resize(&buf, new_w, new_h, kind);
    let pixels = out.pixels().map(|p| Pixel::from_array(p.0)).collect();
    Image { width: out.width(), height: out.height(), pixels, ..*img }
}

/// A source block of a thumbnail, summed per channel into a `u32` by
/// `image::imageops::thumbnail`, cannot overflow that sum.
pub open spec fn thumbnail_block_fits(w: int, h: int, new_w: int, new_h: int) -> bool {
    (w / new_w + 2) * (h / new_h + 2) * 255 <= u32::MAX
}

/// Relies on `image::imageops::thumbnail`: a `new_w`×`new_h` buffer of the
/// same pixel type, each output pixel averaging its source region. The
/// per-channel block sums are `u32`, so the block size is bounded.
#[verifier::external_body]
fn thumbnail_buffer(img: &Image, new_w: u32, new_h: u32) -> (r: Image)
    requires
        img.wf(),
        new_w > 0,
        new_h > 0,
        thumbnail_block_fits(img.width as int, img.height as int, new_w as int, new_h as int),
        new_w as int * new_h as int * 4 <= usize::MAX,
    ensures
        r.width == new_w,
        r.height == new_h,
        r.pixels@.len() == new_w as int * new_h as int,
        r.pixels@ == thumbnailed(img.pixels@, img.width, img.height, new_w, new_h),
        r.orientation == img.orientation,
        r.has_alpha == img.has_alpha,
{
    let raw: Vec<u8> = img.pixels.iter().flat_map(|p| p.to_array()).collect();
    let buf = image::RgbaImage::from_raw(img.width, img.height, raw).unwrap();
    let out = image::imageops::thumbnail(&buf, new_w, new_h);
    let pixels = out.pixels().map(|p| Pixel::from_array(p.0)).collect();
    Image { width: out.width(), height: out.height(), pixels, ..*img }
}

/// Relies on `image::DynamicImage::apply_orientation` with
/// `Orientation::from_exif`, which builds on `rotate90`, `rotate180`,
/// `rotate270`, `fliph` and `flipv`: codes 1 to 4 keep the dimensions, codes
/// 5 to 8 swap them, and each output pixel is the source pixel
/// `orient_source` names.
#[verifier::external_body]
fn orient(img: &Image, code: u8) -> (r: Image)
    requires
        img.wf(),
        1 <= code <= 8,
    ensures
        code <= 4 ==> r.width == img.width && r.height == img.height,
        code >= 5 ==> r.width == img.height && r.height == img.width,
        r.pixels@.len() == img.pixels@.len(),
        forall|j: int|
            0 <= j < r.pixels@.len() ==> #[trigger] r.pixels@[j] == oriented_pixel(
                *img,
                code,
                r.width as int,
                j,
            ),
        r.orientation == img.orientation,
        r.has_alpha == img.has_alpha,
{
    let raw: Vec<u8> = img.pixels.iter().flat_map(|p| p.to_array()).collect();
    let buf = image::RgbaImage::from_raw(img.width, img.height, raw).unwrap();
    let mut dynamic = image::DynamicImage::ImageRgba8(buf);
    dynamic.apply_orientation(image::metadata::Orientation::from_exif(code).unwrap());
    let out = dynamic.into_rgba8();
    let pixels = out.pixels().map(|p| Pixel::from_array(p.0)).collect();
    Image { width: out.width(), height: out.height(), pixels, ..*img }
}

/// Resamples `img` to `new_w`×`new_h`; `InvalidGeometry` when the result
/// would not fit in memory. Under `Lanczos3` only the new dimensions are
/// promised.
pub fn resize_to(img: &mut Image, new_w: u32, new_h: u32, filter: Resampling) -> (r: Result<
    (),
    MagickError,
>)
    requires
        old(img).wf(),
        new_w > 0,
        new_h > 0,
    ensures
        new_w as int * new_h as int * 4 <= usize::MAX ==> r is Ok,
        r is Ok ==> final(img).wf() && final(img).width == new_w && final(img).height == new_h
            && (filter != Resampling::Lanczos3 ==> final(img).pixels@ == resampled(
            old(img).pixels@,
            old(img).width,
            old(img).height,
            new_w,
            new_h,
            filter,
        )) && final(img).orientation == old(img).orientation
            && final(img).has_alpha == old(img).has_alpha,
        r is Err ==> r == Err::<(), MagickError>(MagickError::InvalidGeometry) && *final(img)
            == *old(img),
{
    if !fits_rgba(new_w, new_h) {
        return Err(MagickError::InvalidGeometry);
    }
    let out = resample(img, new_w, new_h, filter);
    *img = out;
    Ok(())
}

/// Shrinks or enlarges `img` to `new_w`×`new_h` by region averaging;
/// `InvalidGeometry` when the result would not fit in memory or a source block
/// is too large to sum.
pub fn thumbnail_to(img: &mut Image, new_w: u32, new_h: u32) -> (r: Result<(), MagickError>)
    requires
        old(img).wf(),
        new_w > 0,
        new_h > 0,
    ensures
        new_w as int * new_h as int * 4 <= usize::MAX && thumbnail_block_fits(
            old(img).width as int,
            old(img).height as int,
            new_w as int,
            new_h as int,
        ) ==> r is Ok,
        r is Ok ==> final(img).wf() && final(img).width == new_w && final(img).height == new_h
            && final(img).pixels@ == thumbnailed(
            old(img).pixels@,
            old(img).width,
            old(img).height,
            new_w,
            new_h,
        ) && final(img).orientation == old(img).orientation
            && final(img).has_alpha == old(img).has_alpha,
        r is Err ==> r == Err::<(), MagickError>(MagickError::InvalidGeometry) && *final(img)
            == *old(img),
{
    if !fits_rgba(new_w, new_h) || !block_fits(img.width, img.height, new_w, new_h) {
        return Err(MagickError::InvalidGeometry);
    }
    let out = thumbnail_buffer(img, new_w, new_h);
    *img = out;
    Ok(())
}

fn block_fits(w: u32, h: u32, new_w: u32, new_h: u32) -> (r: bool)
    requires
        new_w > 0,
        new_h > 0,
    ensures
        r == thumbnail_block_fits(w as int, h as int, new_w as int, new_h as int),
{
    let bw: u128 = (w / new_w) as u128 + 2;
    let bh: u128 = (h / new_h) as u128 + 2;
    proof {
        assert(bw * bh <= 0x1_0000_0002 * 0x1_0000_0002) by (nonlinear_arith)
            requires
                bw <= 0x1_0000_0002,
                bh <= 0x1_0000_0002,
        ;
    }
    bw * bh * 255 <= u32::MAX as u128
}

fn fits_rgba(w: u32, h: u32) -> (r: bool)
    ensures
        r == (w as int * h as int * 4 <= usize::MAX),
{
    proof {
        assert(w as int * h as int * 4 <= 4 * 0xffff_ffff_ffff_ffffint) by (nonlinear_arith)
            requires
                w <= 0xffff_ffff,
                h <= 0xffff_ffff,
        ;
    }
    (w as u128) * (h as u128) * 4 <= usize::MAX as u128
}

/// Applies the image's EXIF orientation, if it has one that names a
/// transform, and clears it so that it is not applied again.
pub fn auto_orient(img: &mut Image)
    requires
        old(img).wf(),
    ensures
        final(img).wf(),
        final(img).orientation is None,
        final(img).has_alpha == old(img).has_alpha,
        old(img).orientation matches Some(c) ==> ((1 <= c <= 8 ==> final(img).pixels@
            .len() == old(img).pixels@.len() && forall|j: int|
            0 <= j < final(img).pixels@.len() ==> #[trigger] final(img).pixels@[j] == oriented_pixel(
                *old(img),
                c,
                final(img).width as int,
                j,
            )) && (5 <= c <= 8
            ==> final(img).width == old(img).height && final(img).height == old(img).width) && (!(5
            <= c <= 8) ==> final(img).width == old(img).width && final(img).height == old(
            img,
        ).height) && (!(1 <= c <= 8) ==> final(img).pixels@ == old(img).pixels@)),
        old(img).orientation is None ==> final(img).width == old(img).width && final(img).height
            == old(img).height && final(img).pixels@ == old(img).pixels@,
{
    match img.orientation {
        Some(code) => {
            if 1 <= code && code <= 8 {
                let out = orient(img, code);
                proof {
                    assert(out.width as int * out.height as int == img.width as int * img.height as int)
                        by (nonlinear_arith)
                        requires
                            (out.width == img.width && out.height == img.height) || (out.width
                                == img.height && out.height == img.width),
                    ;
                }
                *img = out;
            }
        },
        None => {},
    }
    img.orientation = None;
}

/// A crop extent or offset: absolute pixels, or a percentage of the image side.
#[derive(Debug, Clone, Copy, PartialEq, Eq, Structural)]
pub enum Measure {
    Pixels(u32),
    Percent(u32),
}

/// A crop rectangle: its size and the offset of its top-left corner.
#[derive(Debug, Clone, Copy, PartialEq, Eq, Structural)]
pub struct CropGeometry {
    pub width: Measure,
    pub height: Measure,
    pub x: Measure,
    pub y: Measure,
}

/// A crop applied to the freshly decoded image, before any other operation.
#[derive(Debug, Clone, Copy, PartialEq, Eq, Structural)]
pub struct LoadCropGeometry {
    pub region: CropGeometry,
}

/// A measure in pixels along a side of length `extent` (percentages round half up).
pub open spec fn measure_spec(m: Measure, extent: int) -> int {
    match m {
        Measure::Pixels(n) => n as int,
        Measure::Percent(p) => round_div(extent * p, 100),
    }
}

/// The part of `[start, start + len)` inside `[0, extent)`, as a length.
pub open spec fn clipped_len(start: int, len: int, extent: int) -> int {
    if start >= extent {
        0
    } else if start + len > extent {
        extent - start
    } else {
        len
    }
}

/// The rectangle (x, y, width, height) a crop selects on a `w`×`h` image,
/// clipped to it; `None` when nothing of it lies on the image.
pub open spec fn crop_rect(g: CropGeometry, w: int, h: int) -> Option<(int, int, int, int)> {
    let x = measure_spec(g.x, w);
    let y = measure_spec(g.y, h);
    let cw = clipped_len(x, measure_spec(g.width, w), w);
    let ch = clipped_len(y, measure_spec(g.height, h), h);
    if cw > 0 && ch > 0 {
        Some((x, y, cw, ch))
    } else {
        None
    }
}

fn measure(m: Measure, extent: u32) -> (r: u128)
    ensures
        r == measure_spec(m, extent as int),
        r <= 0x3_ffff_ffff_ffff_ffff,
{
    match m {
        Measure::Pixels(n) => n as u128,
        Measure::Percent(p) => {
            proof {
                assert(extent as int * p as int <= 0xffff_ffff_ffff_ffff) by (nonlinear_arith)
                    requires
                        extent <= 0xffff_ffff,
                        p <= 0xffff_ffff,
                ;
                let n = extent as int * p as int;
                assert((2 * n + 100) / 200 <= 2 * n + 100) by (nonlinear_arith)
                    requires
                        n >= 0,
                ;
            }
            (2 * (extent as u128 * p as u128) + 100) / 200
        },
    }
}

fn clip(start: u128, len: u128, extent: u32) -> (r: u32)
    requires
        start <= 0x3_ffff_ffff_ffff_ffff,
        len <= 0x3_ffff_ffff_ffff_ffff,
    ensures
        r == clipped_len(start as int, len as int, extent as int),
{
    if start >= extent as u128 {
        0
    } else if start + len > extent as u128 {
        (extent as u128 - start) as u32
    } else {
        len as u32
    }
}

/// Cuts the rectangle a crop geometry selects out of `img`, resolving
/// percentages against its current dimensions; `InvalidGeometry` when the
/// rectangle misses the image.
pub fn crop(img: &mut Image, g: &CropGeometry) -> (r: Result<(), MagickError>)
    requires
        old(img).wf(),
    ensures
        crop_rect(*g, old(img).width as int, old(img).height as int) is None ==> r == Err::<
            (),
            MagickError,
        >(MagickError::InvalidGeometry) && *final(img) == *old(img),
        crop_rect(*g, old(img).width as int, old(img).height as int) matches Some(c) ==> (r is Ok
            && final(img).wf() && final(img).width == c.2 && final(img).height == c.3
            && final(img).orientation == old(img).orientation
            && final(img).has_alpha == old(img).has_alpha && forall|j: int|
            0 <= j < final(img).pixels@.len() ==> #[trigger] final(img).pixels@[j] == old(img).at(
                c.0 + j % c.2,
                c.1 + j / c.2,
            )),
{
    let len = img.pixels.len();
    let x = measure(g.x, img.width);
    let y = measure(g.y, img.height);
    let cw = clip(x, measure(g.width, img.width), img.width);
    let ch = clip(y, measure(g.height, img.height), img.height);
    if cw == 0 || ch == 0 {
        return Err(MagickError::InvalidGeometry);
    }
    let x = x as usize;
    let y = y as usize;
    let n = match pixel_count(cw, ch) {
        Some(n) => n,
        None => {
            proof {
                assert(cw as int * ch as int <= img.width as int * img.height as int)
                    by (nonlinear_arith)
                    requires
                        cw <= img.width,
                        ch <= img.height,
                ;
                assert(img.pixels@.len() <= usize::MAX);
            }
            return Err(MagickError::InvalidGeometry);
        },
    };
    let w = img.width as usize;
    let mut out: Vec<Pixel> = Vec::new();
    let mut j: usize = 0;
    while j < n
        invariant
            n == cw as int * ch as int,
            len == img.pixels@.len(),
            img == old(img),
            img.wf(),
            w == img.width,
            cw > 0,
            ch > 0,
            x + cw <= img.width,
            y + ch <= img.height,
            j <= n,
            out@.len() == j,
            forall|k: int|
                0 <= k < j ==> #[trigger] out@[k] == img.at(x + k % (cw as int), y + k / (cw as int)),
        decreases n - j,
    {
        let cwu = cw as usize;
        let i = j % cwu;
        let k = j / cwu;
        proof {
            lemma_fundamental_div_mod(j as int, cw as int);
            lemma_mod_pos_bound(j as int, cw as int);
            assert(k < ch) by (nonlinear_arith)
                requires
                    j as int == cw * k + i,
                    0 <= i,
                    j < cw * ch,
                    cw > 0,
            ;
            lemma_index_in_grid(x + i, y + k, img.width as int, img.height as int);
        }
        out.push(img.pixels[(y + k) * w + (x + i)]);
        j = j + 1;
    }
    img.width = cw;
    img.height = ch;
    img.pixels = out;
    Ok(())
}

} // verus!
