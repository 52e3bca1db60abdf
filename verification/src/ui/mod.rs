//! The user-interface hierarchy resource and its nodes.
mod hierarchy;

pub use self::hierarchy::{set_root, Hierarchy, Node};
