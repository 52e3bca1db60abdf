use vstd::prelude::*;

verus! {

/// Most images a swapchain of the renderer has.
pub const MAX_IMAGE_COUNT: usize = 3;

/// How a swapchain presents its images.
#[derive(Clone, Copy, PartialEq, Eq, Debug, Structural)]
pub enum PresentMode {
    /// Don't ever wait for v-sync.
    Immediate,
    /// Wait for v-sync, overwrite the last rendered frame.
    Mailbox,
    /// Present frames in the same order they are rendered.
    Fifo,
    /// Don't wait for the next v-sync if it was just missed.
    Relaxed,
}

/// The preferred present mode among `modes`: mailbox if supported, then
/// immediate, then FIFO (which every surface supports).
pub open spec fn spec_select_present_mode(modes: Seq<PresentMode>) -> PresentMode {
    if modes.contains(PresentMode::Mailbox) {
        PresentMode::Mailbox
    } else if modes.contains(PresentMode::Immediate) {
        PresentMode::Immediate
    } else {
        PresentMode::Fifo
    }
}

/// Whether `modes` contains `mode`.
fn contains_mode(modes: &Vec<PresentMode>, mode: PresentMode) -> (found: bool)
    ensures
        found == modes@.contains(mode),
{
    let mut i: usize = 0;
    while i < modes.len()
        invariant
            i <= modes@.len(),
            forall|j: int| 0 <= j < i ==> modes@[j] != mode,
        decreases modes@.len() - i,
    {
        if modes[i] == mode {
            return true;
        }
        i = i + 1;
    }
    false
}

/// Selects the present mode of a swapchain among the modes the surface
/// supports: mailbox, else immediate, else FIFO.
pub fn select_present_mode(modes: &Vec<PresentMode>) -> (mode: PresentMode)
    ensures
        mode == spec_select_present_mode(modes@),
{
    if contains_mode(modes, PresentMode::Mailbox) {
        PresentMode::Mailbox
    } else if contains_mode(modes, PresentMode::Immediate) {
        PresentMode::Immediate
    } else {
        PresentMode::Fifo
    }
}

/// Number of images of a renderer swapchain on a surface that supports from
/// `min_images` to `max_images` images: as many as the renderer uses, within
/// the surface's limits, the lower limit taking precedence.
pub fn swapchain_image_count(min_images: u32, max_images: u32) -> (count: u32)
    ensures
        count == (if max_images < 3 {
            if min_images > max_images {
                min_images
            } else {
                max_images
            }
        } else {
            if min_images > 3 {
                min_images
            } else {
                3
            }
        }),
{
    let capped: u32 = if 3 < max_images {
        3
    } else {
        max_images
    };
    if min_images > capped {
        min_images
    } else {
        capped
    }
}

} // verus!
