//! A frame-rendering sandbox built around two verified cores: a handle-based
//! GPU resource manager and a render graph that schedules declared passes by
//! their resource dependencies.

pub mod cli;
pub mod engine;
pub mod gpu;
pub mod image_capture;
pub mod pipeline;
pub mod render_graph;
pub mod render_passes;
pub mod renderer;
pub mod resource_manager;

pub use cli::Args;
pub use cli::ArgsError;
