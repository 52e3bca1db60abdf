//! Device and swapchain configuration of the renderer: choosing an adapter,
//! queue families, an image format, a present mode, image counts and memory
//! types, and cycling through frame states.
mod buffers;
mod context;
mod render_target;
mod rendering;
mod swapchain;

pub use self::buffers::{buffer_size, cpu_visible, find_upload_memory_type};
pub use self::context::{
    adapter_score, all_known, channel_of, format_channel, format_is_srgb, is_format_choice,
    select_adapter, select_format, select_queue_families, srgb_channel, Channel, FormatCode,
    QueueSelectionError, BGRA8_UNORM, FORMAT_COUNT, RGBA8_SRGB,
};
pub use self::render_target::render_target_image_count;
pub use self::rendering::{lemma_next_state_cycles, next_state, spec_advance, BeginError};
pub use self::swapchain::{
    select_present_mode, spec_select_present_mode, swapchain_image_count, PresentMode,
    MAX_IMAGE_COUNT,
};
