//! Render pass implementations for the render graph system.

mod placeholder_pass;

pub use placeholder_pass::PlaceholderPass;
