use vstd::prelude::*;

verus! {

/// What was wrong with an argument.
#[derive(Debug, Clone, Copy, PartialEq, Eq, Structural)]
pub enum ArgumentError {
    /// A gravity token that names no gravity.
    Gravity,
    /// Both a watermark image and a watermark text were asked for.
    ConflictingWatermarks,
    /// A resize argument that is not two values joined by one `x`.
    Resize,
    /// The width of a resize argument is not an unsigned 32-bit integer.
    ResizeWidth,
    /// The height of a resize argument is not an unsigned 32-bit integer.
    ResizeHeight,
    /// A colour that is not four integers from 0 to 255 joined by commas.
    RgbaColor,
    /// A rendered text layer that does not fit the image it labels.
    TextLayer,
}

/// The ways an invocation can fail.
#[derive(Debug, Clone, Copy, PartialEq, Eq, Structural)]
pub enum MagickError {
    /// Malformed geometry, unknown gravity token, conflicting flags, malformed colour.
    InvalidArgument(ArgumentError),
    /// A primary or secondary image could not be read.
    DecodeFailure,
    /// Resolved dimensions are non-positive or otherwise unrepresentable.
    InvalidGeometry,
    /// The destination could not be written.
    EncodeFailure,
}

/// The one-line description of each error.
pub open spec fn message_spec(e: MagickError) -> Seq<char> {
    match e {
        MagickError::InvalidArgument(a) => match a {
            ArgumentError::Gravity => "invalid gravity argument"@,
            ArgumentError::ConflictingWatermarks => "cannot specify both watermark image and watermark text"@,
            ArgumentError::Resize => "invalid resize argument"@,
            ArgumentError::ResizeWidth => "invalid width in resize argument"@,
            ArgumentError::ResizeHeight => "invalid height in resize argument"@,
            ArgumentError::RgbaColor => "invalid RGBA color"@,
            ArgumentError::TextLayer => "text layer does not match the image"@,
        },
        MagickError::DecodeFailure => "image could not be decoded"@,
        MagickError::InvalidGeometry => "invalid geometry"@,
        MagickError::EncodeFailure => "image could not be encoded"@,
    }
}

impl MagickError {
    /// A one-line human-readable description of the error.
    pub fn message(&self) -> (r: &'static str)
        ensures
            r@ == message_spec(*self),
    {
        match self {
            MagickError::InvalidArgument(a) => match a {
                ArgumentError::Gravity => "invalid gravity argument",
                ArgumentError::ConflictingWatermarks => "cannot specify both watermark image and watermark text",
                ArgumentError::Resize => "invalid resize argument",
                ArgumentError::ResizeWidth => "invalid width in resize argument",
                ArgumentError::ResizeHeight => "invalid height in resize argument",
                ArgumentError::RgbaColor => "invalid RGBA color",
                ArgumentError::TextLayer => "text layer does not match the image",
            },
            MagickError::DecodeFailure => "image could not be decoded",
            MagickError::InvalidGeometry => "invalid geometry",
            MagickError::EncodeFailure => "image could not be encoded",
        }
    }
}

} // verus!
