use vstd::prelude::*;

verus! {

/// Number of images of a render target that asks for `requested` images on a
/// surface that supports at most `max_images`: the request, capped by the
/// surface (the request is taken as a 32-bit count).
pub fn render_target_image_count(requested: usize, max_images: u32) -> (count: u32)
    ensures
        count == (if (requested as u32) < max_images {
            requested as u32
        } else {
            max_images
        }),
{
    let requested: u32 = requested as u32;
    if requested < max_images {
        requested
    } else {
        max_images
    }
}

} // verus!
