//! The boundary towards subscribers: the names of the channels, and which
//! channel an item goes out on.

pub mod events;
