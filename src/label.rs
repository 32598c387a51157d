use crate::composite::{composite, Alpha};
use crate::error::{ArgumentError, MagickError};
use crate::gravity::Gravity;
use crate::image::Image;
use crate::operations::composite_outcome;
use vstd::prelude::*;

verus! {

/// The colour text is rendered in: the requested RGB at full opacity, so that
/// antialiasing loses nothing before the label's own opacity is applied.
pub fn text_color(color: (u8, u8, u8, u8)) -> (r: (u8, u8, u8, u8))
    ensures
        r == (color.0, color.1, color.2, 255u8),
{
    (color.0, color.1, color.2, 255)
}

/// The opacity a label colour asks for: its alpha channel over 255.
pub fn label_alpha(color: (u8, u8, u8, u8)) -> (r: Alpha)
    ensures
        r == (Alpha { num: color.3 as u32, den: 255 }),
        r.wf(),
{
    Alpha::new(color.3 as u32, 255)
}

/// A fully transparent off-screen canvas the size of `image`, for text to be
/// rendered into.
pub fn label_canvas(image: &Image) -> (r: Result<Image, MagickError>)
    requires
        image.wf(),
    ensures
        r matches Ok(c) ==> c.wf() && c.width == image.width && c.height == image.height
            && forall|i: int|
            0 <= i < c.pixels@.len() ==> (#[trigger] c.pixels@[i]).a == 0,
        r is Err ==> r == Err::<Image, MagickError>(MagickError::InvalidGeometry),
        image.width as int * image.height as int <= usize::MAX ==> r is Ok,
{
    Image::transparent(image.width, image.height)
}

/// Blends a rendered text layer onto `image` with the opacity of `color`'s
/// alpha channel. The layer is canvas-sized and already aligned, so it is
/// placed with `Center` gravity. A layer of another size, a malformed one, or
/// one without an alpha channel (on which the opacity could not act) is
/// refused with `InvalidArgument(TextLayer)`.
pub fn label(image: &mut Image, layer: Image, color: (u8, u8, u8, u8)) -> (r: Result<
    (),
    MagickError,
>)
    requires
        old(image).wf(),
    ensures
        final(image).wf(),
        (layer.wf() && layer.has_alpha && layer.width == old(image).width && layer.height == old(image).height) ==> (r
            is Ok && composite_outcome(
            *old(image),
            *final(image),
            layer,
            Gravity::Center,
            Alpha { num: color.3 as u32, den: 255 },
        )),
        !(layer.wf() && layer.has_alpha && layer.width == old(image).width && layer.height == old(image).height) ==> (r
            == Err::<(), MagickError>(MagickError::InvalidArgument(ArgumentError::TextLayer)) && *final(image) == *old(
            image,
        )),
{
    if !layer.is_valid() || !layer.has_alpha || layer.width != image.width || layer.height != image.height {
        return Err(MagickError::InvalidArgument(ArgumentError::TextLayer));
    }
    let mut layer = layer;
    composite(image, &mut layer, Gravity::Center, label_alpha(color))
}

} // verus!
