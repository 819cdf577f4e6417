//! Task runner core: platform table, task registry, inclusion-graph loading
//! and dispatch planning.
pub mod dispatch;
pub mod laws;
pub mod loader;
pub mod paths;
pub mod platform;
pub mod registry;
pub mod task;
pub mod text;
