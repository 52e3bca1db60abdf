use crate::graphics::{FormatCode, PresentMode, BGRA8_UNORM};
use crate::math::Size;
use vstd::prelude::*;

verus! {

/// System that keeps the window's surface in step with the window: when the
/// window's size changes, the swapchain is destroyed so that it is created
/// again at the new size.
#[derive(Clone, Copy, Debug, Default)]
pub struct MaintainSurface;

/// Whether a swapchain made for `swapchain_size` must be destroyed because
/// the window now has `window_size`.
pub fn swapchain_outdated(swapchain_size: Size, window_size: Size) -> (outdated: bool)
    ensures
        outdated == (swapchain_size != window_size),
{
    swapchain_size.width != window_size.width || swapchain_size.height != window_size.height
}

/// `value` brought into `min..=max`, the upper limit applied first: the
/// larger of `min` and the smaller of `max` and `value`.
pub open spec fn spec_clamp(min: u32, max: u32, value: u32) -> u32 {
    vstd::math::max(min as int, vstd::math::min(max as int, value as int)) as u32
}

/// `value` brought into `min..=max`: the smaller of `max` and `value`, but at
/// least `min`.
pub fn clamp_dimension(min: u32, max: u32, value: u32) -> (c: u32)
    ensures
        c == spec_clamp(min, max, value),
{
    let capped: u32 = if max < value {
        max
    } else {
        value
    };
    if min > capped {
        min
    } else {
        capped
    }
}

/// The extent of a swapchain for a window of `size`, on a surface that
/// supports extents from `min` to `max`.
pub fn swapchain_extent(min: Size, max: Size, size: Size) -> (extent: Size)
    ensures
        extent.width == spec_clamp(min.width, max.width, size.width),
        extent.height == spec_clamp(min.height, max.height, size.height),
{
    Size { width: clamp_dimension(min.width, max.width, size.width), height: clamp_dimension(min.height, max.height, size.height) }
}

/// The number of images of a window's swapchain, on a surface that supports
/// at most `max_images` (0 meaning no limit): two, or fewer if the surface
/// allows fewer.
pub open spec fn spec_window_image_count(max_images: u32) -> u32 {
    if max_images == 0 || max_images > 2 {
        2
    } else {
        max_images
    }
}

/// The number of images of a window's swapchain, on a surface that supports
/// at most `max_images` (0 meaning no limit).
pub fn swapchain_image_count(max_images: u32) -> (count: u32)
    ensures
        count == spec_window_image_count(max_images),
{
    if max_images == 0 {
        2
    } else if max_images < 2 {
        max_images
    } else {
        2
    }
}

/// How a window's swapchain is created.
#[derive(Clone, Copy, PartialEq, Eq, Debug, Structural)]
pub struct SwapchainSettings {
    /// Format of the swapchain's images.
    pub format: FormatCode,
    /// How the images are presented.
    pub present_mode: PresentMode,
    /// Size of the images.
    pub extent: Size,
    /// Number of images.
    pub image_count: u32,
    /// Array layers of each image.
    pub image_layers: u32,
}

/// The swapchain of a window of `size`, on a surface that supports extents
/// from `min` to `max` and at most `max_images` images: `Bgra8Unorm` images
/// presented in FIFO order, one layer each, of the window's size brought into
/// the limits.
pub open spec fn spec_swapchain_settings(min: Size, max: Size, max_images: u32, size: Size) -> SwapchainSettings {
    SwapchainSettings {
        format: BGRA8_UNORM,
        present_mode: PresentMode::Fifo,
        extent: Size {
            width: spec_clamp(min.width, max.width, size.width),
            height: spec_clamp(min.height, max.height, size.height),
        },
        image_count: spec_window_image_count(max_images),
        image_layers: 1,
    }
}

/// Settings of the swapchain of a window of `size` on a surface with the
/// given limits.
pub fn swapchain_settings(min: Size, max: Size, max_images: u32, size: Size) -> (settings: SwapchainSettings)
    ensures
        settings == spec_swapchain_settings(min, max, max_images, size),
{
    SwapchainSettings {
        format: BGRA8_UNORM,
        present_mode: PresentMode::Fifo,
        extent: swapchain_extent(min, max, size),
        image_count: swapchain_image_count(max_images),
        image_layers: 1,
    }
}

/// The swapchain of a window surface: the size it was last made for, and
/// whether it is alive (it is destroyed when it stops matching the window or
/// the surface, and made again when an image is next needed).
#[derive(Clone, Copy, PartialEq, Eq, Debug, Structural)]
pub struct SurfaceSwapchain {
    /// The size of the surface's swapchain images.
    pub size: Size,
    /// Whether a swapchain exists.
    pub alive: bool,
}

/// The swapchain after a maintenance pass for a window of `window_size`: one
/// whose size is not the window's is destroyed.
pub open spec fn spec_maintain(s: SurfaceSwapchain, window_size: Size) -> SurfaceSwapchain {
    SurfaceSwapchain { size: s.size, alive: s.alive && s.size == window_size }
}

/// The swapchain after a frame was presented, or failed to be: a failed
/// presentation destroys it.
pub open spec fn spec_presented(s: SurfaceSwapchain, succeeded: bool) -> SurfaceSwapchain {
    SurfaceSwapchain { size: s.size, alive: s.alive && succeeded }
}

/// The swapchain after it is made sure to exist: a destroyed one is created
/// again at the size it had, brought into the surface's limits, and that
/// extent becomes its size.
pub open spec fn spec_ensure(s: SurfaceSwapchain, min: Size, max: Size, max_images: u32) -> SurfaceSwapchain {
    if s.alive {
        s
    } else {
        SurfaceSwapchain { size: spec_swapchain_settings(min, max, max_images, s.size).extent, alive: true }
    }
}

impl SurfaceSwapchain {
    /// The swapchain state of a new surface for a window of `window_size`:
    /// no swapchain yet.
    pub fn new(window_size: Size) -> (s: SurfaceSwapchain)
        ensures
            s == (SurfaceSwapchain { size: window_size, alive: false }),
    {
        SurfaceSwapchain { size: window_size, alive: false }
    }

    /// Keeps the swapchain in step with a window of `window_size`.
    pub fn maintain(&mut self, window_size: Size)
        ensures
            *final(self) == spec_maintain(*old(self), window_size),
    {
        if swapchain_outdated(self.size, window_size) {
            self.alive = false;
        }
    }

    /// Records the outcome of presenting a frame.
    pub fn presented(&mut self, succeeded: bool)
        ensures
            *final(self) == spec_presented(*old(self), succeeded),
    {
        if !succeeded {
            self.alive = false;
        }
    }

    /// Makes sure a swapchain exists, on a surface with the given limits. When
    /// one has to be created, returns how.
    pub fn ensure(&mut self, min: Size, max: Size, max_images: u32) -> (created: Option<SwapchainSettings>)
        ensures
            *final(self) == spec_ensure(*old(self), min, max, max_images),
            created == (if old(self).alive {
                None
            } else {
                Some(spec_swapchain_settings(min, max, max_images, old(self).size))
            }),
    {
        if self.alive {
            None
        } else {
            let settings = swapchain_settings(min, max, max_images, self.size);
            self.size = settings.extent;
            self.alive = true;
            Some(settings)
        }
    }
}

/// A maintenance pass never changes the size the swapchain was made for. It
/// keeps a swapchain whose size is the window's, and destroys it when the
/// window's width or height differs from it.
pub proof fn lemma_maintain_follows_window(s: SurfaceSwapchain, window_size: Size)
    ensures
        spec_maintain(s, window_size).size == s.size,
        window_size.width == s.size.width && window_size.height == s.size.height ==> spec_maintain(
            s,
            window_size,
        ) == s,
        window_size.width != s.size.width ==> !spec_maintain(s, window_size).alive,
        window_size.height != s.size.height ==> !spec_maintain(s, window_size).alive,
        !s.alive ==> !spec_maintain(s, window_size).alive,
{
}

/// A failed presentation is recovered from: whatever the swapchain's state,
/// the next time one is needed a swapchain is created, and it exists after.
pub proof fn lemma_failed_present_recreates(s: SurfaceSwapchain, min: Size, max: Size, max_images: u32)
    ensures
        !spec_presented(s, false).alive,
        spec_ensure(spec_presented(s, false), min, max, max_images).alive,
        spec_ensure(spec_presented(s, false), min, max, max_images).size == spec_swapchain_settings(
            min,
            max,
            max_images,
            s.size,
        ).extent,
{
}

/// A swapchain made for a window whose size the surface supports survives
/// the maintenance passes that follow, as long as the window keeps its size.
pub proof fn lemma_swapchain_kept_within_limits(
    s: SurfaceSwapchain,
    min: Size,
    max: Size,
    max_images: u32,
    window_size: Size,
)
    requires
        s.size == window_size,
        min.width <= window_size.width <= max.width,
        min.height <= window_size.height <= max.height,
    ensures
        spec_maintain(spec_ensure(s, min, max, max_images), window_size).alive,
        spec_maintain(spec_ensure(s, min, max, max_images), window_size) == spec_ensure(
            s,
            min,
            max,
            max_images,
        ),
{
}

/// What keeping a renderer's swapchain usable requires this frame.
#[derive(Clone, Copy, PartialEq, Eq, Debug, Structural)]
pub struct EnsureSwapchain {
    /// The size the swapchain is to have.
    pub size: Size,
    /// The current swapchain must be dropped first.
    pub drop_current: bool,
    /// A swapchain must be created.
    pub create: bool,
}

/// Decides how a renderer keeps its swapchain usable for a window of
/// `window_size`: a swapchain of another size is dropped, and a swapchain is
/// created when none is left.
pub fn ensure_swapchain(current_size: Size, window_size: Size, alive: bool) -> (e: EnsureSwapchain)
    ensures
        e.size == window_size,
        e.drop_current == (current_size != window_size && alive),
        e.create == (current_size != window_size || !alive),
{
    if swapchain_outdated(current_size, window_size) {
        EnsureSwapchain { size: window_size, drop_current: alive, create: true }
    } else {
        EnsureSwapchain { size: window_size, drop_current: false, create: !alive }
    }
}

/// When the surface's limits are consistent (`min <= max`), the extent lies
/// within them; a window size within the limits is kept as it is.
pub proof fn lemma_extent_within_limits(min: Size, max: Size, size: Size)
    requires
        min.width <= max.width,
        min.height <= max.height,
    ensures
        min.width <= spec_clamp(min.width, max.width, size.width) <= max.width,
        min.height <= spec_clamp(min.height, max.height, size.height) <= max.height,
        min.width <= size.width <= max.width ==> spec_clamp(min.width, max.width, size.width)
            == size.width,
        min.height <= size.height <= max.height ==> spec_clamp(min.height, max.height, size.height)
            == size.height,
{
}

/// Clamping an extent that was already clamped changes nothing, whatever the
/// limits.
pub proof fn lemma_extent_idempotent(min: u32, max: u32, value: u32)
    ensures
        spec_clamp(min, max, spec_clamp(min, max, value)) == spec_clamp(min, max, value),
{
}

} // verus!
