//! Stages and their composition.

pub mod demo;
pub mod pipeline;
pub mod stages;
pub mod text;

pub use pipeline::Pipeline;
pub use stages::{FloatExtractor, LineSplitter, Stage};
