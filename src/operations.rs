use crate::composite::{clamped_alpha, composite, overlaid_pixel, prepared_fg, Alpha};
use crate::error::MagickError;
use crate::geometry::{
    lemma_fit_keeps_aspect, resolve, resolve_spec, ResizeConstraint, ResizeGeometry, ResizeTarget,
};
use crate::gravity::{anchor_spec, Gravity};
use crate::image::Image;
use crate::transform::{
    auto_orient, crop, crop_rect, oriented_pixel, resampled, resize_to, thumbnail_to, thumbnailed,
    thumbnail_block_fits, CropGeometry, LoadCropGeometry, Resampling,
};
use vstd::prelude::*;

verus! {

/// Where a secondary image is read from, and the format declared for it.
#[derive(Debug, Clone, PartialEq)]
pub struct FilePlan {
    pub location: String,
    pub format: Option<String>,
}

/// A template for the properties `Identify` reports.
#[derive(Debug, Clone, PartialEq)]
pub struct IdentifyFormat {
    pub template: String,
}

/// One unit of work in a plan, carrying its resolved parameters.
#[derive(Debug, Clone, PartialEq)]
pub enum Operation {
    Resize(ResizeGeometry),
    /// Resize by region averaging. Fails with `InvalidGeometry` when a source
    /// block is too large for the `u32` channel sums of `image`'s thumbnail
    /// routine, a limit of that crate.
    Thumbnail(ResizeGeometry),
    Scale(ResizeGeometry),
    Sample(ResizeGeometry),
    /// Blend a secondary image, read when this operation runs, at a gravity
    /// and opacity. The second file plan names a mask, which is carried but
    /// not applied.
    Composite(FilePlan, Option<FilePlan>, Gravity, Alpha),
    CropOnLoad(LoadCropGeometry),
    Crop(CropGeometry),
    Identify(Option<IdentifyFormat>),
    AutoOrient,
}

/// `after` and `r` are what a resize by `g` may leave of `before`: the
/// resolved size, resampled (by region averaging when `thumb`), or `before`
/// itself when the size is unchanged or on failure. It fails only when the
/// result cannot be addressed or, for a thumbnail, a source block is too
/// large to sum. Under `Lanczos3` only the new dimensions are stated.
pub open spec fn resize_outcome(
    before: Image,
    after: Image,
    g: ResizeGeometry,
    thumb: bool,
    filter: Resampling,
    r: Result<(), MagickError>,
) -> bool {
    match resolve_spec(g, before.width as int, before.height as int) {
        None => r == Err::<(), MagickError>(MagickError::InvalidGeometry) && after == before,
        Some(d) => if d.0 == before.width && d.1 == before.height {
            r is Ok && after == before
        } else {
            &&& d.0 * d.1 * 4 <= usize::MAX && (!thumb || thumbnail_block_fits(
                before.width as int,
                before.height as int,
                d.0,
                d.1,
            )) ==> r is Ok
            &&& r is Ok ==> after.wf() && after.width == d.0 && after.height == d.1
                && after.orientation == before.orientation && after.has_alpha == before.has_alpha
                && (thumb ==> after.pixels@ == thumbnailed(
                before.pixels@,
                before.width,
                before.height,
                d.0 as u32,
                d.1 as u32,
            )) && (!thumb && filter != Resampling::Lanczos3 ==> after.pixels@ == resampled(
                before.pixels@,
                before.width,
                before.height,
                d.0 as u32,
                d.1 as u32,
                filter,
            ))
            &&& r is Err ==> r == Err::<(), MagickError>(MagickError::InvalidGeometry) && after
                == before
        },
    }
}

/// `after` and `r` are what cropping `before` by `g` yields.
pub open spec fn crop_outcome(
    before: Image,
    after: Image,
    g: CropGeometry,
    r: Result<(), MagickError>,
) -> bool {
    match crop_rect(g, before.width as int, before.height as int) {
        None => r == Err::<(), MagickError>(MagickError::InvalidGeometry) && after == before,
        Some(c) => r is Ok && after.wf() && after.width == c.2 && after.height == c.3
            && after.orientation == before.orientation && after.has_alpha == before.has_alpha
            && forall|j: int|
            0 <= j < after.pixels@.len() ==> #[trigger] after.pixels@[j] == before.at(
                c.0 + j % c.2,
                c.1 + j / c.2,
            ),
    }
}

/// `after` is `before` with its orientation applied and cleared.
pub open spec fn orient_outcome(before: Image, after: Image) -> bool {
    &&& after.wf()
    &&& after.orientation is None
    &&& after.has_alpha == before.has_alpha
    &&& match before.orientation {
        Some(c) => (1 <= c <= 8 ==> after.pixels@.len() == before.pixels@.len() && forall|j: int|
            0 <= j < after.pixels@.len() ==> #[trigger] after.pixels@[j] == oriented_pixel(
                before,
                c,
                after.width as int,
                j,
            )) && (5 <= c <= 8 ==> after.width == before.height && after.height == before.width) && (!(5
            <= c <= 8) ==> after.width == before.width && after.height == before.height) && (!(1
            <= c <= 8) ==> after.pixels@ == before.pixels@),
        None => after.width == before.width && after.height == before.height && after.pixels@
            == before.pixels@,
    }
}

/// `after` is `bg` with `fg`, its alpha scaled by `alpha`, blended on at the
/// placement `gravity` gives.
pub open spec fn composite_outcome(
    bg: Image,
    after: Image,
    fg: Image,
    gravity: Gravity,
    alpha: Alpha,
) -> bool {
    let o = anchor_spec(
        gravity,
        bg.width as int,
        bg.height as int,
        fg.width as int,
        fg.height as int,
    );
    &&& after.width == bg.width
    &&& after.height == bg.height
    &&& after.orientation == bg.orientation
    &&& after.has_alpha == bg.has_alpha
    &&& after.pixels@.len() == bg.pixels@.len()
    &&& forall|j: int|
        0 <= j < bg.pixels@.len() ==> #[trigger] after.pixels@[j] == overlaid_pixel(
            bg,
            fg.width as int,
            fg.height as int,
            prepared_fg(fg, alpha),
            o.0,
            o.1,
            j,
        )
}

/// What running `op` on `before`, with `secondary` as the image a composite
/// reads, does: `after` and `r` are its outcome.
pub open spec fn execute_outcome(
    op: Operation,
    before: Image,
    after: Image,
    secondary: Option<Image>,
    r: Result<(), MagickError>,
) -> bool {
    match op {
        Operation::Resize(g) => resize_outcome(before, after, g, false, Resampling::Lanczos3, r),
        Operation::Thumbnail(g) => resize_outcome(before, after, g, true, Resampling::Lanczos3, r),
        Operation::Scale(g) => resize_outcome(before, after, g, false, Resampling::Triangle, r),
        Operation::Sample(g) => resize_outcome(before, after, g, false, Resampling::Nearest, r),
        Operation::Composite(_, _, gravity, alpha) => match secondary {
            Some(fg) => if fg.wf() {
                r is Ok && composite_outcome(
                    before,
                    after,
                    fg,
                    gravity,
                    clamped_alpha(alpha.num, alpha.den),
                )
            } else {
                r == Err::<(), MagickError>(MagickError::DecodeFailure) && after == before
            },
            None => r == Err::<(), MagickError>(MagickError::DecodeFailure) && after == before,
        },
        Operation::CropOnLoad(g) => crop_outcome(before, after, g.region, r),
        Operation::Crop(g) => crop_outcome(before, after, g, r),
        Operation::Identify(_) => r is Ok && after == before,
        Operation::AutoOrient => r is Ok && orient_outcome(before, after),
    }
}

fn run_resize(image: &mut Image, g: &ResizeGeometry, thumb: bool, filter: Resampling) -> (r: Result<
    (),
    MagickError,
>)
    requires
        old(image).wf(),
    ensures
        final(image).wf(),
        resize_outcome(*old(image), *final(image), *g, thumb, filter, r),
{
    let (w, h) = match resolve(g, image.width, image.height) {
        Ok(d) => d,
        Err(e) => {
            return Err(e);
        },
    };
    if w == image.width && h == image.height {
        return Ok(());
    }
    if thumb {
        thumbnail_to(image, w, h)
    } else {
        resize_to(image, w, h, filter)
    }
}

impl Operation {
    /// Applies this operation to `image`. A composite blends `secondary`, the
    /// image its file plan names, read by the caller just before; it fails
    /// with `DecodeFailure` when that image is absent or malformed.
    pub fn execute(&self, image: &mut Image, secondary: Option<Image>) -> (r: Result<
        (),
        MagickError,
    >)
        requires
            old(image).wf(),
        ensures
            final(image).wf(),
            execute_outcome(*self, *old(image), *final(image), secondary, r),
    {
        match self {
            Operation::Resize(g) => run_resize(image, g, false, Resampling::Lanczos3),
            Operation::Thumbnail(g) => run_resize(image, g, true, Resampling::Lanczos3),
            Operation::Scale(g) => run_resize(image, g, false, Resampling::Triangle),
            Operation::Sample(g) => run_resize(image, g, false, Resampling::Nearest),
            Operation::Composite(_, _, gravity, alpha) => match secondary {
                Some(fg) => {
                    if !fg.is_valid() {
                        return Err(MagickError::DecodeFailure);
                    }
                    let mut fg = fg;
                    composite(image, &mut fg, *gravity, *alpha)
                },
                None => Err(MagickError::DecodeFailure),
            },
            Operation::CropOnLoad(g) => crop(image, &g.region),
            Operation::Crop(g) => crop(image, g),
            Operation::Identify(_) => Ok(()),
            Operation::AutoOrient => {
                auto_orient(image);
                Ok(())
            },
        }
    }
}

/// Output-side options, applied when the image is encoded.
#[derive(Debug, Clone, PartialEq)]
pub struct Modifiers {
    /// Encoder quality, 1 to 100, or the encoder's default.
    pub quality: Option<u8>,
    pub strip_exif: bool,
    pub strip_icc: bool,
    pub identify_format: Option<IdentifyFormat>,
}

impl Modifiers {
    /// Whether the source's EXIF block is written with the output: not when
    /// stripping it, nor when the source carried an orientation transform,
    /// which the plan applies and whose tag would turn the image again.
    pub fn keeps_exif(&self, source_orientation: Option<u8>) -> (r: bool)
        ensures
            r == (!self.strip_exif && !(source_orientation matches Some(c) && 2 <= c <= 8)),
    {
        if self.strip_exif {
            return false;
        }
        match source_orientation {
            Some(c) => c < 2 || c > 8,
            None => true,
        }
    }
}

/// The operations of one invocation, in argument order, and the output modifiers.
#[derive(Debug, Clone, PartialEq)]
pub struct Plan {
    pub operations: Vec<Operation>,
    pub modifiers: Modifiers,
}

/// The operations a `manipulate` invocation runs, in argument order: orient
/// the image, resize it if asked, then composite the watermark image if given.
pub open spec fn manipulate_operations(
    resize: Option<ResizeGeometry>,
    watermark: Option<(FilePlan, Gravity, Alpha)>,
) -> Seq<Operation> {
    seq![Operation::AutoOrient] + match resize {
        Some(g) => seq![Operation::Resize(g)],
        None => Seq::empty(),
    } + match watermark {
        Some(w) => seq![Operation::Composite(w.0, None, w.1, w.2)],
        None => Seq::empty(),
    }
}

impl Plan {
    /// The plan of a `manipulate` invocation (its composite carries no mask).
    pub fn manipulate(
        resize: Option<ResizeGeometry>,
        watermark: Option<(FilePlan, Gravity, Alpha)>,
        modifiers: Modifiers,
    ) -> (r: Plan)
        ensures
            r.operations@ == manipulate_operations(resize, watermark),
            r.modifiers == modifiers,
    {
        let mut operations: Vec<Operation> = Vec::new();
        operations.push(Operation::AutoOrient);
        match resize {
            Some(g) => operations.push(Operation::Resize(g)),
            None => {},
        }
        match watermark {
            Some((file, gravity, alpha)) => operations.push(
                Operation::Composite(file, None, gravity, alpha),
            ),
            None => {},
        }
        assert(operations@ =~= manipulate_operations(resize, watermark));
        Plan { operations, modifiers }
    }
}

pub open spec fn is_load_crop(op: Operation) -> bool {
    op is CropOnLoad
}

/// The positions among the first `n` operations whose load-crop status is
/// `load`, in increasing order.
pub open spec fn positions_where(ops: Seq<Operation>, n: nat, load: bool) -> Seq<usize>
    decreases n,
{
    if n == 0 {
        Seq::empty()
    } else if is_load_crop(ops[n - 1]) == load {
        positions_where(ops, (n - 1) as nat, load).push((n - 1) as usize)
    } else {
        positions_where(ops, (n - 1) as nat, load)
    }
}

/// The order in which a plan's operations run: every load-time crop first,
/// then the rest, each group in argument order.
pub open spec fn execution_order_spec(ops: Seq<Operation>) -> Seq<usize> {
    positions_where(ops, ops.len(), true) + positions_where(ops, ops.len(), false)
}

fn load_crop(op: &Operation) -> (r: bool)
    ensures
        r == is_load_crop(*op),
{
    match op {
        Operation::CropOnLoad(_) => true,
        _ => false,
    }
}

impl Plan {
    /// The positions of the operations in the order they run: load-time crops
    /// first, so that they see the freshly decoded image.
    pub fn execution_order(&self) -> (r: Vec<usize>)
        ensures
            r@ == execution_order_spec(self.operations@),
    {
        let n = self.operations.len();
        let mut first: Vec<usize> = Vec::new();
        let mut rest: Vec<usize> = Vec::new();
        let mut i: usize = 0;
        while i < n
            invariant
                n == self.operations@.len(),
                i <= n,
                first@ == positions_where(self.operations@, i as nat, true),
                rest@ == positions_where(self.operations@, i as nat, false),
            decreases n - i,
        {
            if load_crop(&self.operations[i]) {
                first.push(i);
            } else {
                rest.push(i);
            }
            i = i + 1;
        }
        let mut k: usize = 0;
        let ghost first0 = first@;
        while k < rest.len()
            invariant
                k <= rest@.len(),
                first@ == first0 + rest@.subrange(0, k as int),
            decreases rest@.len() - k,
        {
            first.push(rest[k]);
            k = k + 1;
            assert(first@ =~= first0 + rest@.subrange(0, k as int));
        }
        assert(rest@.subrange(0, rest@.len() as int) =~= rest@);
        first
    }
}

proof fn lemma_positions_where(ops: Seq<Operation>, n: nat, load: bool)
    requires
        n <= ops.len(),
        ops.len() <= usize::MAX,
    ensures
        positions_where(ops, n, true).len() + positions_where(ops, n, false).len() == n,
        forall|k: int|
            0 <= k < positions_where(ops, n, load).len() ==> #[trigger] positions_where(
                ops,
                n,
                load,
            )[k] < n && is_load_crop(ops[positions_where(ops, n, load)[k] as int]) == load,
        forall|a: int, b: int|
            0 <= a < b < positions_where(ops, n, load).len() ==> #[trigger] positions_where(
                ops,
                n,
                load,
            )[a] < #[trigger] positions_where(ops, n, load)[b],
    decreases n,
{
    if n > 0 {
        lemma_positions_where(ops, (n - 1) as nat, load);
        let prev = positions_where(ops, (n - 1) as nat, load);
        let cur = positions_where(ops, n, load);
        if is_load_crop(ops[n - 1]) == load {
            assert(cur == prev.push((n - 1) as usize));
            assert forall|k: int| 0 <= k < cur.len() implies #[trigger] cur[k] < n && is_load_crop(
                ops[cur[k] as int],
            ) == load by {
                if k < prev.len() {
                    assert(cur[k] == prev[k]);
                }
            }
            assert forall|a: int, b: int| 0 <= a < b < cur.len() implies #[trigger] cur[a]
                < #[trigger] cur[b] by {
                assert(cur[a] == prev[a]);
                if b < prev.len() {
                    assert(cur[b] == prev[b]);
                }
            }
        }
    }
}

/// Running a plan puts every load-time crop before every other operation and
/// keeps argument order within each group; each operation runs exactly once.
pub proof fn lemma_load_crops_run_first(ops: Seq<Operation>)
    requires
        ops.len() <= usize::MAX,
    ensures
        execution_order_spec(ops).len() == ops.len(),
        forall|k: int|
            0 <= k < ops.len() ==> #[trigger] execution_order_spec(ops)[k] < ops.len(),
        forall|a: int, b: int|
            0 <= a < b < ops.len() && is_load_crop(ops[#[trigger] execution_order_spec(ops)[b] as int])
                ==> is_load_crop(ops[#[trigger] execution_order_spec(ops)[a] as int]),
        forall|a: int, b: int|
            0 <= a < b < ops.len() && is_load_crop(ops[execution_order_spec(ops)[a] as int])
                == is_load_crop(ops[execution_order_spec(ops)[b] as int]) ==> #[trigger] execution_order_spec(
                ops,
            )[a] < #[trigger] execution_order_spec(ops)[b],
        forall|a: int, b: int|
            0 <= a < b < ops.len() ==> #[trigger] execution_order_spec(ops)[a]
                != #[trigger] execution_order_spec(ops)[b],
{
    lemma_positions_where(ops, ops.len(), true);
    lemma_positions_where(ops, ops.len(), false);
    let f = positions_where(ops, ops.len(), true);
    let g = positions_where(ops, ops.len(), false);
    let o = execution_order_spec(ops);
    assert forall|k: int| 0 <= k < o.len() implies o[k] < ops.len() && is_load_crop(
        ops[o[k] as int],
    ) == (k < f.len()) by {
        if k < f.len() {
            assert(o[k] == f[k]);
        } else {
            assert(o[k] == g[k - f.len()]);
        }
    }
    assert forall|a: int, b: int|
        0 <= a < b < ops.len() && is_load_crop(ops[o[a] as int]) == is_load_crop(
            ops[o[b] as int],
        ) implies #[trigger] o[a] < #[trigger] o[b] by {
        if b < f.len() {
            assert(f[a] < f[b]);
        } else if a >= f.len() {
            assert(g[a - f.len()] < g[b - f.len()]);
        }
    }
    assert forall|a: int, b: int| 0 <= a < b < ops.len() implies #[trigger] o[a] != #[trigger] o[b] by {
        if is_load_crop(ops[o[a] as int]) == is_load_crop(ops[o[b] as int]) {
            assert(o[a] < o[b]);
        }
    }
}

/// What the engine does next while running a plan.
#[derive(Debug, Clone, Copy, PartialEq, Eq, Structural)]
pub enum PlanStep {
    /// Run the operation at this position of the plan.
    Run(usize),
    /// Every operation has run.
    Done,
    /// An operation failed; the remaining ones are skipped.
    Failed(MagickError),
}

impl Plan {
    /// The next step after the first `done` operations of the execution order
    /// have run, the last of them with outcome `last`: the first failure stops
    /// the plan, otherwise the operations run in execution order.
    pub fn next_step(&self, done: usize, last: Result<(), MagickError>) -> (r: PlanStep)
        ensures
            last matches Err(e) ==> r == PlanStep::Failed(e),
            last is Ok && done < self.operations@.len() ==> r == PlanStep::Run(
                execution_order_spec(self.operations@)[done as int],
            ),
            last is Ok && done >= self.operations@.len() ==> r == PlanStep::Done,
    {
        match last {
            Err(e) => PlanStep::Failed(e),
            Ok(()) => {
                let order = self.execution_order();
                let n = self.operations.len();
                proof {
                    lemma_load_crops_run_first(self.operations@);
                }
                if done < n {
                    PlanStep::Run(order[done])
                } else {
                    PlanStep::Done
                }
            },
        }
    }
}

/// Running an unconstrained fit into a `box_w`×`box_h` box succeeds whenever
/// the box can be addressed as an RGBA8 buffer, and leaves an image inside the
/// box that touches it on at least one side, its aspect ratio kept to within
/// one source pixel.
pub proof fn lemma_fit_resize_runs(
    before: Image,
    after: Image,
    r: Result<(), MagickError>,
    box_w: u32,
    box_h: u32,
    filter: Resampling,
)
    requires
        before.wf(),
        box_w > 0,
        box_h > 0,
        box_w as int * box_h as int * 4 <= usize::MAX,
        resize_outcome(
            before,
            after,
            ResizeGeometry {
                target: ResizeTarget::Size {
                    width: Some(box_w),
                    height: Some(box_h),
                    ignore_aspect_ratio: false,
                },
                constraint: ResizeConstraint::Unconstrained,
            },
            false,
            filter,
            r,
        ),
    ensures
        r is Ok,
        after.width <= box_w,
        after.height <= box_h,
        after.width == box_w || after.height == box_h,
        ({
            let tol = if before.width >= before.height {
                before.width as int
            } else {
                before.height as int
            };
            -tol <= after.width * before.height - after.height * before.width <= tol
        }),
{
    lemma_fit_keeps_aspect(before.width, before.height, box_w, box_h);
    let d = resolve_spec(
        ResizeGeometry {
            target: ResizeTarget::Size {
                width: Some(box_w),
                height: Some(box_h),
                ignore_aspect_ratio: false,
            },
            constraint: ResizeConstraint::Unconstrained,
        },
        before.width as int,
        before.height as int,
    ).unwrap();
    assert(d.0 * d.1 * 4 <= box_w as int * box_h as int * 4) by (nonlinear_arith)
        requires
            1 <= d.0 <= box_w,
            1 <= d.1 <= box_h,
    ;
}

/// A load-time crop followed by a resize: the crop is resolved against the
/// decoded image's dimensions, and the resize against the cropped ones.
pub proof fn lemma_load_crop_then_resize(
    decoded: Image,
    cropped: Image,
    resized: Image,
    crop_result: Result<(), MagickError>,
    resize_result: Result<(), MagickError>,
    c: LoadCropGeometry,
    g: ResizeGeometry,
    filter: Resampling,
)
    requires
        decoded.wf(),
        crop_outcome(decoded, cropped, c.region, crop_result),
        crop_result is Ok,
        resize_outcome(cropped, resized, g, false, filter, resize_result),
        resize_result is Ok,
    ensures
        crop_rect(c.region, decoded.width as int, decoded.height as int) matches Some(rect) && rect.2
            == cropped.width && rect.3 == cropped.height && resolve_spec(
            g,
            rect.2,
            rect.3,
        ) == Some((resized.width as int, resized.height as int)),
{
}

} // verus!
