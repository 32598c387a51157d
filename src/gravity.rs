use crate::error::{ArgumentError, MagickError};
use vstd::prelude::*;
use vstd::string::StringExecFns;

verus! {

/// A nine-way anchor: where a region is placed within a larger canvas.
#[derive(Debug, Clone, Copy, PartialEq, Eq, Structural)]
pub enum Gravity {
    Center,
    North,
    South,
    East,
    West,
    Northeast,
    Northwest,
    Southeast,
    Southwest,
}

/// Placement along one axis: 0 for the leading edge, 1 for the middle, 2 for the trailing edge.
pub open spec fn horizontal_placement(g: Gravity) -> int {
    match g {
        Gravity::Northwest | Gravity::West | Gravity::Southwest => 0,
        Gravity::North | Gravity::Center | Gravity::South => 1,
        Gravity::Northeast | Gravity::East | Gravity::Southeast => 2,
    }
}

pub open spec fn vertical_placement(g: Gravity) -> int {
    match g {
        Gravity::Northwest | Gravity::North | Gravity::Northeast => 0,
        Gravity::West | Gravity::Center | Gravity::East => 1,
        Gravity::Southwest | Gravity::South | Gravity::Southeast => 2,
    }
}

/// Offset along one axis for a placement: zero, half the difference (truncated
/// toward zero) or the whole difference.
pub open spec fn axis_offset(placement: int, delta: int) -> int {
    if placement == 0 {
        0
    } else if placement == 1 {
        if delta >= 0 { delta / 2 } else { -((-delta) / 2) }
    } else {
        delta
    }
}

pub open spec fn anchor_spec(g: Gravity, bg_w: int, bg_h: int, fg_w: int, fg_h: int) -> (int, int) {
    (
        axis_offset(horizontal_placement(g), bg_w - fg_w),
        axis_offset(vertical_placement(g), bg_h - fg_h),
    )
}

/// The gravity a lower-case token names, if any.
pub open spec fn gravity_named(s: Seq<char>) -> Option<Gravity> {
    if s == "center"@ {
        Some(Gravity::Center)
    } else if s == "north"@ {
        Some(Gravity::North)
    } else if s == "south"@ {
        Some(Gravity::South)
    } else if s == "east"@ {
        Some(Gravity::East)
    } else if s == "west"@ {
        Some(Gravity::West)
    } else if s == "northeast"@ {
        Some(Gravity::Northeast)
    } else if s == "northwest"@ {
        Some(Gravity::Northwest)
    } else if s == "southeast"@ {
        Some(Gravity::Southeast)
    } else if s == "southwest"@ {
        Some(Gravity::Southwest)
    } else {
        None
    }
}

/// What `str::to_lowercase` returns for a string.
pub uninterp spec fn lower_of(s: Seq<char>) -> Seq<char>;

/// Relies on `str::to_lowercase`: the result depends on the characters alone.
#[verifier::external_body]
fn lowercase(s: &str) -> (r: String)
    ensures
        r@ == lower_of(s@),
{
    s.to_lowercase()
}

fn half_toward_zero(d: i64) -> (r: i64)
    ensures
        r == axis_offset(1, d as int),
{
    if d >= 0 {
        d / 2
    } else {
        -((-(d as i128) / 2) as i64)
    }
}

fn axis(placement: u8, delta: i64) -> (r: i64)
    requires
        placement <= 2,
    ensures
        r == axis_offset(placement as int, delta as int),
{
    if placement == 0 {
        0
    } else if placement == 1 {
        half_toward_zero(delta)
    } else {
        delta
    }
}

impl Gravity {
    /// Parses an already lower-cased gravity token.
    pub fn from_lowercase(s: &String) -> (r: Result<Gravity, MagickError>)
        ensures
            gravity_named(s@) matches Some(g) ==> r == Ok::<Gravity, MagickError>(g),
            gravity_named(s@) is None ==> r == Err::<Gravity, MagickError>(MagickError::InvalidArgument(ArgumentError::Gravity)),
    {
        if *s == String::from_str("center") {
            Ok(Gravity::Center)
        } else if *s == String::from_str("north") {
            Ok(Gravity::North)
        } else if *s == String::from_str("south") {
            Ok(Gravity::South)
        } else if *s == String::from_str("east") {
            Ok(Gravity::East)
        } else if *s == String::from_str("west") {
            Ok(Gravity::West)
        } else if *s == String::from_str("northeast") {
            Ok(Gravity::Northeast)
        } else if *s == String::from_str("northwest") {
            Ok(Gravity::Northwest)
        } else if *s == String::from_str("southeast") {
            Ok(Gravity::Southeast)
        } else if *s == String::from_str("southwest") {
            Ok(Gravity::Southwest)
        } else {
            Err(MagickError::InvalidArgument(ArgumentError::Gravity))
        }
    }

    /// Parses a gravity token, ignoring case.
    pub fn try_from(s: &str) -> (r: Result<Gravity, MagickError>)
        ensures
            gravity_named(lower_of(s@)) matches Some(g) ==> r == Ok::<Gravity, MagickError>(g),
            gravity_named(lower_of(s@)) is None ==> r == Err::<Gravity, MagickError>(
                MagickError::InvalidArgument(ArgumentError::Gravity),
            ),
    {
        let lower = lowercase(s);
        Gravity::from_lowercase(&lower)
    }

    /// The (x, y) offset at which a `fg_w`×`fg_h` region is placed on a
    /// `bg_w`×`bg_h` canvas; negative where the region overhangs.
    pub fn anchor(self, bg_w: u32, bg_h: u32, fg_w: u32, fg_h: u32) -> (r: (i64, i64))
        ensures
            r.0 as int == anchor_spec(self, bg_w as int, bg_h as int, fg_w as int, fg_h as int).0,
            r.1 as int == anchor_spec(self, bg_w as int, bg_h as int, fg_w as int, fg_h as int).1,
    {
        let dw: i64 = bg_w as i64 - fg_w as i64;
        let dh: i64 = bg_h as i64 - fg_h as i64;
        let hp: u8 = match self {
            Gravity::Northwest | Gravity::West | Gravity::Southwest => 0,
            Gravity::North | Gravity::Center | Gravity::South => 1,
            Gravity::Northeast | Gravity::East | Gravity::Southeast => 2,
        };
        let vp: u8 = match self {
            Gravity::Northwest | Gravity::North | Gravity::Northeast => 0,
            Gravity::West | Gravity::Center | Gravity::East => 1,
            Gravity::Southwest | Gravity::South | Gravity::Southeast => 2,
        };
        (axis(hp, dw), axis(vp, dh))
    }
}

/// The anchor offsets of the two corner gravities: the trailing corner sits at
/// the full size difference, the leading corner at the origin.
pub proof fn lemma_corner_anchors(bg_w: u32, bg_h: u32, fg_w: u32, fg_h: u32)
    requires
        bg_w >= fg_w,
        bg_h >= fg_h,
    ensures
        anchor_spec(Gravity::Southeast, bg_w as int, bg_h as int, fg_w as int, fg_h as int) == (
        bg_w - fg_w, bg_h - fg_h),
        anchor_spec(Gravity::Northwest, bg_w as int, bg_h as int, fg_w as int, fg_h as int) == (
        0int, 0int),
{
}

/// Where text is aligned along one axis of a canvas.
#[derive(Debug, Clone, Copy, PartialEq, Eq, Structural)]
pub enum AxisAlign {
    /// The text starts at this coordinate.
    StartAt(u32),
    /// The text ends at this coordinate.
    EndAt(u32),
    /// The text is centred on the canvas centre.
    CenterAtCanvasCenter,
}

/// Alignment of a text block on a canvas, one directive per axis.
#[derive(Debug, Clone, Copy, PartialEq, Eq, Structural)]
pub struct TextPosition {
    pub x: AxisAlign,
    pub y: AxisAlign,
}

pub open spec fn align_spec(placement: int, extent: u32) -> AxisAlign {
    if placement == 0 {
        AxisAlign::StartAt(0)
    } else if placement == 1 {
        AxisAlign::CenterAtCanvasCenter
    } else {
        AxisAlign::EndAt(extent)
    }
}

fn align(placement: u8, extent: u32) -> (r: AxisAlign)
    requires
        placement <= 2,
    ensures
        r == align_spec(placement as int, extent),
{
    if placement == 0 {
        AxisAlign::StartAt(0)
    } else if placement == 1 {
        AxisAlign::CenterAtCanvasCenter
    } else {
        AxisAlign::EndAt(extent)
    }
}

impl Gravity {
    /// The text-layout alignment that places a block at this gravity on a
    /// `width`×`height` canvas, following the same nine-way table as `anchor`.
    pub fn text_position(self, width: u32, height: u32) -> (r: TextPosition)
        ensures
            r.x == align_spec(horizontal_placement(self), width),
            r.y == align_spec(vertical_placement(self), height),
    {
        let hp: u8 = match self {
            Gravity::Northwest | Gravity::West | Gravity::Southwest => 0,
            Gravity::North | Gravity::Center | Gravity::South => 1,
            Gravity::Northeast | Gravity::East | Gravity::Southeast => 2,
        };
        let vp: u8 = match self {
            Gravity::Northwest | Gravity::North | Gravity::Northeast => 0,
            Gravity::West | Gravity::Center | Gravity::East => 1,
            Gravity::Southwest | Gravity::South | Gravity::Southeast => 2,
        };
        TextPosition { x: align(hp, width), y: align(vp, height) }
    }
}

} // verus!
