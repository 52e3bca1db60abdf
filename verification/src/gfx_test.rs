//! Configuration choices of the standalone graphics test: its surface format,
//! present mode and swapchain image count.
use crate::graphics::{
    self, all_known, is_format_choice, spec_select_present_mode, FormatCode, PresentMode, RGBA8_SRGB,
};
use vstd::prelude::*;

verus! {

/// Selects the surface format: the first SRGB format the surface lists, else
/// its first format, and `Rgba8Srgb` when it accepts any format.
pub fn select_surface_format(formats: Option<Vec<FormatCode>>) -> (format: FormatCode)
    requires
        formats matches Some(list) ==> list@.len() > 0 && all_known(list@),
    ensures
        formats is None ==> format == RGBA8_SRGB,
        formats matches Some(list) ==> is_format_choice(list@, format),
{
    graphics::select_format(formats)
}

/// Selects the present mode by scanning the supported modes once, starting
/// from FIFO: the first mailbox mode ends the scan, and an immediate mode is
/// remembered as better than FIFO.
pub fn select_present_mode(modes: &Vec<PresentMode>) -> (mode: PresentMode)
    ensures
        modes@.contains(PresentMode::Mailbox) ==> mode == PresentMode::Mailbox,
        !modes@.contains(PresentMode::Mailbox) ==> mode == (if modes@.contains(PresentMode::Immediate) {
            PresentMode::Immediate
        } else {
            PresentMode::Fifo
        }),
{
    let mut best = PresentMode::Fifo;
    let mut i: usize = 0;
    while i < modes.len()
        invariant
            i <= modes@.len(),
            forall|j: int| 0 <= j < i ==> modes@[j] != PresentMode::Mailbox,
            best == (if exists|j: int| 0 <= j < i && modes@[j] == PresentMode::Immediate {
                PresentMode::Immediate
            } else {
                PresentMode::Fifo
            }),
        decreases modes@.len() - i,
    {
        let mode = modes[i];
        if mode == PresentMode::Mailbox {
            return mode;
        }
        if mode == PresentMode::Immediate {
            best = mode;
        }
        i = i + 1;
    }
    best
}

/// The test's scanning choice of present mode and the renderer's choice by
/// preference order agree on every list of supported modes.
pub proof fn lemma_present_mode_choices_agree(modes: Seq<PresentMode>, scanned: PresentMode)
    requires
        modes.contains(PresentMode::Mailbox) ==> scanned == PresentMode::Mailbox,
        !modes.contains(PresentMode::Mailbox) ==> scanned == (if modes.contains(PresentMode::Immediate) {
            PresentMode::Immediate
        } else {
            PresentMode::Fifo
        }),
    ensures
        scanned == spec_select_present_mode(modes),
{
}

/// Number of images of a swapchain configured with `configured` images, with
/// one extra image for triple buffering when the surface allows more than
/// that.
pub fn spare_image_count(configured: u32, max_images: u32) -> (count: u32)
    ensures
        count == (if max_images > configured {
            configured + 1
        } else {
            configured as int
        }),
{
    if max_images > configured {
        configured + 1
    } else {
        configured
    }
}

} // verus!
