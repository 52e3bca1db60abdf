//! Window state: settings, status and events, and the presentation policies
//! that keep a window's swapchain usable.
mod backbuffer;
mod events;
mod events_loop;
mod settings;
mod surface;

pub use self::backbuffer::{
    acquire_backbuffer, backbuffer_acquire_step, lemma_acquire_attempts_bounded, spec_acquire_run,
    spec_attempts, spec_step, present_backbuffer, present_index,
    select_present_family, surface_acquire_step, AcquireBackbuffer, AcquireError, AcquireStep,
    PresentBackbuffer, BACKBUFFER_ACQUIRE_ATTEMPTS, SURFACE_ACQUIRE_ATTEMPTS,
};
pub use self::events::{
    convert_event, poll_into, spec_convert, spec_convert_all, update_on_event, Event, Events,
    WindowEvent, WindowUpdate,
};
pub use self::events_loop::{
    finish_poll, lemma_closed_is_final, lemma_run_from_closing_closes, lemma_run_liveness,
    lemma_run_never_reopens, window_live,
    on_event, opened, run, run_action, spec_on_event, spec_poll, spec_run, status_rank, RunAction,
    RunOutcome, Status,
};
pub use self::settings::Settings;
pub use self::surface::{
    clamp_dimension, ensure_swapchain, lemma_extent_idempotent, lemma_extent_within_limits,
    lemma_failed_present_recreates, lemma_swapchain_kept_within_limits, spec_clamp, spec_ensure,
    spec_maintain, spec_presented, spec_swapchain_settings, spec_window_image_count,
    swapchain_extent, swapchain_image_count, swapchain_outdated, swapchain_settings,
    EnsureSwapchain, MaintainSurface, SurfaceSwapchain, SwapchainSettings,
};
