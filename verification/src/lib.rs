//! Routing of live data streams: packets that sources emit run through a
//! pipeline of stages, and what comes out is handed to subscribers.
//!
//! Every function of the library carries a contract over the models that
//! the `model` module defines, and is proved against it.

pub mod api;
pub mod model;
pub mod pipeline;
pub mod services;
pub mod sources;
