//! The manager of streams and the catalog of stage kinds it offers.

pub mod bindings;
pub mod registry;
pub mod stream_manager;

pub use registry::ParserRegistry;
pub use stream_manager::StreamManager;
