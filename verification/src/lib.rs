//! Verified core of the Nova engine and the TVB game built on it.
//!
//! The library holds the decisions that the engine and the game make: window
//! settings and status, swapchain and device configuration, retry policies for
//! presentation, panel hierarchies and the stage's bookkeeping. The work that
//! needs a window system, a graphics device or floating-point math lives in
//! the application around it.
pub mod engine;
pub mod fps;
pub mod gfx_test;
pub mod graphics;
mod math;
pub mod panels;
pub mod stage;
pub mod ui;
pub mod window;

pub use math::Size;
