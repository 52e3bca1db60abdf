//! Graphics of stage objects: their animation and drawing.
mod animator;
mod drawing;

pub use self::animator::{get_animation_sequence, wrap_frame, Animator};
pub use self::drawing::DrawState;
