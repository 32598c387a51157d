use crate::error::MagickError;
use crate::gravity::{anchor_spec, Gravity};
use crate::image::{lemma_index_in_grid, Image, Pixel};
use vstd::arithmetic::div_mod::lemma_fundamental_div_mod_converse;
use vstd::prelude::*;

verus! {

/// A global opacity factor `num / den`, kept within [0, 1].
#[derive(Debug, Clone, Copy, PartialEq, Eq, Structural)]
pub struct Alpha {
    pub num: u32,
    pub den: u32,
}

/// The opacity `num / den` clamped to [0, 1]; a zero denominator means fully opaque.
pub open spec fn clamped_alpha(num: u32, den: u32) -> Alpha {
    if den == 0 {
        Alpha { num: 1, den: 1 }
    } else if num > den {
        Alpha { num: den, den }
    } else {
        Alpha { num, den }
    }
}

impl Alpha {
    pub open spec fn wf(&self) -> bool {
        self.den > 0 && self.num <= self.den
    }

    /// The factor `num / den` clamped to [0, 1]; a zero denominator means fully opaque.
    pub fn new(num: u32, den: u32) -> (r: Alpha)
        ensures
            r.wf(),
            r == clamped_alpha(num, den),
            den == 0 ==> r == (Alpha { num: 1, den: 1 }),
            den > 0 && num > den ==> r == (Alpha { num: den, den }),
            den > 0 && num <= den ==> r == (Alpha { num, den }),
    {
        if den == 0 {
            Alpha { num: 1, den: 1 }
        } else if num > den {
            Alpha { num: den, den }
        } else {
            Alpha { num, den }
        }
    }

    /// Full opacity.
    pub fn opaque() -> (r: Alpha)
        ensures
            r == (Alpha { num: 1, den: 1 }),
    {
        Alpha { num: 1, den: 1 }
    }
}

/// A pixel whose alpha channel is scaled by a global opacity (rounded down).
pub open spec fn faded(p: Pixel, alpha: Alpha) -> Pixel {
    Pixel { a: ((p.a as int * alpha.num as int) / alpha.den as int) as u8, ..p }
}

/// What `image`'s `Rgba` blending yields for a partly transparent foreground.
pub uninterp spec fn blended(bg: Pixel, fg: Pixel) -> Pixel;

/// Source-over blending of one pixel: a transparent foreground leaves the
/// background, an opaque one replaces it.
pub open spec fn over(bg: Pixel, fg: Pixel) -> Pixel {
    if fg.a == 0 {
        bg
    } else if fg.a == 255 {
        fg
    } else {
        blended(bg, fg)
    }
}

/// Every pixel of `s` with its alpha scaled by `alpha`.
pub open spec fn faded_seq(s: Seq<Pixel>, alpha: Alpha) -> Seq<Pixel> {
    Seq::new(s.len(), |i: int| faded(s[i], alpha))
}

/// The background pixel at index `j` after overlaying the `fw`×`fh`
/// foreground `fg` (row-major) with its top-left corner at (`ox`, `oy`);
/// foreground parts off the canvas are clipped.
pub open spec fn overlaid_pixel(
    bg: Image,
    fw: int,
    fh: int,
    fg: Seq<Pixel>,
    ox: int,
    oy: int,
    j: int,
) -> Pixel {
    let x = j % (bg.width as int);
    let y = j / (bg.width as int);
    let fx = x - ox;
    let fy = y - oy;
    if 0 <= fx < fw && 0 <= fy < fh {
        over(bg.pixels@[j], fg[fy * fw + fx])
    } else {
        bg.pixels@[j]
    }
}

fn fade(p: Pixel, alpha: Alpha) -> (r: Pixel)
    requires
        alpha.wf(),
    ensures
        r == faded(p, alpha),
        r.a <= p.a,
{
    proof {
        assert(p.a as int * alpha.num as int <= p.a as int * alpha.den as int) by (nonlinear_arith)
            requires
                alpha.num <= alpha.den,
        ;
        assert((p.a as int * alpha.num as int) / alpha.den as int <= p.a) by (nonlinear_arith)
            requires
                p.a as int * alpha.num as int <= p.a as int * alpha.den as int,
                alpha.den > 0,
                p.a >= 0,
                alpha.num >= 0,
        ;
        assert(p.a as int * alpha.num as int <= 255 * 0xffff_ffffint) by (nonlinear_arith)
            requires
                p.a <= 255,
                alpha.num <= 0xffff_ffff,
        ;
    }
    let a: u64 = (p.a as u64 * alpha.num as u64) / alpha.den as u64;
    Pixel { a: a as u8, ..p }
}

/// Scales the alpha channel of every pixel of `img` by `alpha`.
pub fn fade_image(img: &mut Image, alpha: Alpha)
    requires
        alpha.wf(),
    ensures
        final(img).width == old(img).width,
        final(img).height == old(img).height,
        final(img).orientation == old(img).orientation,
        final(img).has_alpha == old(img).has_alpha,
        final(img).pixels@ == faded_seq(old(img).pixels@, alpha),
{
    let n = img.pixels.len();
    let mut out: Vec<Pixel> = Vec::new();
    let mut i: usize = 0;
    while i < n
        invariant
            n == img.pixels@.len(),
            img == old(img),
            alpha.wf(),
            i <= n,
            out@.len() == i,
            forall|k: int| 0 <= k < i ==> #[trigger] out@[k] == faded(img.pixels@[k], alpha),
        decreases n - i,
    {
        out.push(fade(img.pixels[i], alpha));
        i = i + 1;
    }
    assert(out@ =~= faded_seq(img.pixels@, alpha));
    img.pixels = out;
}

/// Whether background index `j` lies under the `fw`×`fh` foreground placed at (`ox`, `oy`).
pub open spec fn under_fg(bg: Image, fw: int, fh: int, ox: int, oy: int, j: int) -> bool {
    let fx = j % (bg.width as int) - ox;
    let fy = j / (bg.width as int) - oy;
    0 <= fx < fw && 0 <= fy < fh
}

/// The foreground pixel over background index `j`, where `under_fg` holds.
pub open spec fn fg_over(bg: Image, fw: int, fg: Seq<Pixel>, ox: int, oy: int, j: int) -> Pixel {
    fg[(j / (bg.width as int) - oy) * fw + (j % (bg.width as int) - ox)]
}

/// Relies on `image::imageops::overlay`: it clips the foreground to the
/// canvas and, for each covered pixel, calls `Pixel::blend` for `Rgba<u8>`,
/// which keeps the background for a foreground alpha of zero and copies the
/// foreground for an alpha of 255.
#[verifier::external_body]
fn overlay(bg: &mut Image, fg: &Image, ox: i64, oy: i64)
    requires
        old(bg).wf(),
        fg.wf(),
    ensures
        final(bg).width == old(bg).width,
        final(bg).height == old(bg).height,
        final(bg).orientation == old(bg).orientation,
        final(bg).has_alpha == old(bg).has_alpha,
        final(bg).pixels@.len() == old(bg).pixels@.len(),
        forall|j: int|
            0 <= j < old(bg).pixels@.len() && !under_fg(*old(bg), fg.width as int, fg.height as int, ox as int, oy as int, j)
                ==> #[trigger] final(bg).pixels@[j] == old(bg).pixels@[j],
        forall|j: int|
            0 <= j < old(bg).pixels@.len() && under_fg(*old(bg), fg.width as int, fg.height as int, ox as int, oy as int, j)
                && fg_over(*old(bg), fg.width as int, fg.pixels@, ox as int, oy as int, j).a == 0
                ==> #[trigger] final(bg).pixels@[j] == old(bg).pixels@[j],
        forall|j: int|
            0 <= j < old(bg).pixels@.len() && under_fg(*old(bg), fg.width as int, fg.height as int, ox as int, oy as int, j)
                && fg_over(*old(bg), fg.width as int, fg.pixels@, ox as int, oy as int, j).a == 255
                ==> #[trigger] final(bg).pixels@[j] == fg_over(*old(bg), fg.width as int, fg.pixels@, ox as int, oy as int, j),
        forall|j: int|
            0 <= j < old(bg).pixels@.len() && under_fg(*old(bg), fg.width as int, fg.height as int, ox as int, oy as int, j)
                && 0 < fg_over(*old(bg), fg.width as int, fg.pixels@, ox as int, oy as int, j).a < 255
                ==> #[trigger] final(bg).pixels@[j] == blended(
                old(bg).pixels@[j],
                fg_over(*old(bg), fg.width as int, fg.pixels@, ox as int, oy as int, j),
            ),
{
    let raw: Vec<u8> = bg.pixels.iter().flat_map(|p| p.to_array()).collect();
    let mut bottom = image::RgbaImage::from_raw(bg.width, bg.height, raw).unwrap();
    let raw: Vec<u8> = fg.pixels.iter().flat_map(|p| p.to_array()).collect();
    let top = image::RgbaImage::from_raw(fg.width, fg.height, raw).unwrap();
    image::imageops::overlay(&mut bottom, &top, ox, oy);
    bg.pixels = bottom.pixels().map(|p| Pixel::from_array(p.0)).collect();
}

/// The foreground as `composite` blends it: alpha scaled by `alpha` when the
/// image has an alpha channel, untouched otherwise.
pub open spec fn prepared_fg(fg: Image, alpha: Alpha) -> Seq<Pixel> {
    if fg.has_alpha {
        faded_seq(fg.pixels@, alpha)
    } else {
        fg.pixels@
    }
}

/// Blends `fg` onto `bg` at the placement `gravity` gives. When `fg` has an
/// alpha channel, every alpha value is first scaled by `alpha`, clamped to
/// [0, 1]; the foreground is consumed in place and holds the scaled values
/// afterwards. Off-canvas parts of `fg` are clipped. Onto a background of
/// zero area, compositing does nothing.
pub fn composite(bg: &mut Image, fg: &mut Image, gravity: Gravity, alpha: Alpha) -> (r: Result<
    (),
    MagickError,
>)
    requires
        old(bg).width == 0 || old(bg).height == 0 || old(bg).wf(),
        old(fg).wf(),
    ensures
        r == Ok::<(), MagickError>(()),
        old(bg).width == 0 || old(bg).height == 0 ==> *final(bg) == *old(bg) && *final(fg) == *old(
            fg,
        ),
        final(fg).width == old(fg).width,
        final(fg).height == old(fg).height,
        final(fg).orientation == old(fg).orientation,
        final(fg).has_alpha == old(fg).has_alpha,
        old(bg).width > 0 && old(bg).height > 0 ==> final(fg).pixels@ == prepared_fg(
            *old(fg),
            clamped_alpha(alpha.num, alpha.den),
        ),
        final(bg).width == old(bg).width,
        final(bg).height == old(bg).height,
        final(bg).orientation == old(bg).orientation,
        final(bg).has_alpha == old(bg).has_alpha,
        final(bg).pixels@.len() == old(bg).pixels@.len(),
        old(bg).width > 0 && old(bg).height > 0 ==> forall|j: int|
            0 <= j < old(bg).pixels@.len() ==> #[trigger] final(bg).pixels@[j] == overlaid_pixel(
                *old(bg),
                old(fg).width as int,
                old(fg).height as int,
                prepared_fg(*old(fg), clamped_alpha(alpha.num, alpha.den)),
                anchor_spec(
                    gravity,
                    old(bg).width as int,
                    old(bg).height as int,
                    old(fg).width as int,
                    old(fg).height as int,
                ).0,
                anchor_spec(
                    gravity,
                    old(bg).width as int,
                    old(bg).height as int,
                    old(fg).width as int,
                    old(fg).height as int,
                ).1,
                j,
            ),
{
    if bg.width == 0 || bg.height == 0 {
        return Ok(());
    }
    let (ox, oy) = gravity.anchor(bg.width, bg.height, fg.width, fg.height);
    if fg.has_alpha {
        fade_image(fg, Alpha::new(alpha.num, alpha.den));
    }
    let ghost bg0 = *bg;
    overlay(bg, fg, ox, oy);
    assert(forall|j: int| 0 <= j < bg0.pixels@.len() ==> #[trigger] bg.pixels@[j] == overlaid_pixel(
        bg0,
        fg.width as int,
        fg.height as int,
        fg.pixels@,
        ox as int,
        oy as int,
        j,
    ));
    Ok(())
}

/// Compositing a foreground that has an alpha channel at zero opacity leaves
/// every background pixel unchanged, whatever the gravity.
pub proof fn lemma_zero_alpha_keeps_background(bg: Image, fg: Image, gravity: Gravity, alpha: Alpha)
    requires
        bg.wf(),
        fg.wf(),
        alpha.wf(),
        alpha.num == 0,
        fg.has_alpha,
    ensures
        forall|j: int|
            0 <= j < bg.pixels@.len() ==> #[trigger] overlaid_pixel(
                bg,
                fg.width as int,
                fg.height as int,
                prepared_fg(fg, alpha),
                anchor_spec(gravity, bg.width as int, bg.height as int, fg.width as int, fg.height as int).0,
                anchor_spec(gravity, bg.width as int, bg.height as int, fg.width as int, fg.height as int).1,
                j,
            ) == bg.pixels@[j],
{
    let (ox, oy) = anchor_spec(gravity, bg.width as int, bg.height as int, fg.width as int, fg.height as int);
    assert forall|j: int| 0 <= j < bg.pixels@.len() implies #[trigger] overlaid_pixel(
        bg,
        fg.width as int,
        fg.height as int,
        prepared_fg(fg, alpha),
        ox,
        oy,
        j,
    ) == bg.pixels@[j] by {
        let x = j % (bg.width as int);
        let y = j / (bg.width as int);
        let fx = x - ox;
        let fy = y - oy;
        if 0 <= fx < fg.width && 0 <= fy < fg.height {
            lemma_index_in_grid(fx, fy, fg.width as int, fg.height as int);
            let i = fy * fg.width + fx;
            assert(fg.pixels@[i].a as int * 0 == 0);
        }
    }
}

/// Compositing a fully opaque foreground at full opacity with `Northwest`
/// gravity reproduces the foreground exactly in the top-left region the two
/// images share.
pub proof fn lemma_opaque_northwest_copies_foreground(bg: Image, fg: Image, alpha: Alpha)
    requires
        bg.wf(),
        fg.wf(),
        alpha.wf(),
        alpha.num == alpha.den,
        forall|i: int| 0 <= i < fg.pixels@.len() ==> (#[trigger] fg.pixels@[i]).a == 255,
    ensures
        anchor_spec(Gravity::Northwest, bg.width as int, bg.height as int, fg.width as int, fg.height as int)
            == (0int, 0int),
        forall|x: int, y: int|
            0 <= x < bg.width && x < fg.width && 0 <= y < bg.height && y < fg.height
                ==> #[trigger] overlaid_pixel(
                bg,
                fg.width as int,
                fg.height as int,
                prepared_fg(fg, alpha),
                0,
                0,
                y * bg.width + x,
            ) == fg.at(x, y),
{
    assert forall|x: int, y: int|
        0 <= x < bg.width && x < fg.width && 0 <= y < bg.height && y < fg.height implies #[trigger] overlaid_pixel(
        bg,
        fg.width as int,
        fg.height as int,
        prepared_fg(fg, alpha),
        0,
        0,
        y * bg.width + x,
    ) == fg.at(x, y) by {
        let j = y * bg.width + x;
        lemma_fundamental_div_mod_converse(j, bg.width as int, y, x);
        lemma_index_in_grid(x, y, fg.width as int, fg.height as int);
        let i = y * fg.width + x;
        let p = fg.pixels@[i];
        lemma_fundamental_div_mod_converse(p.a as int * alpha.den as int, alpha.den as int, p.a as int, 0);
        assert(faded(p, alpha) == p);
    }
}

} // verus!
