//! Metadata of channels and episodes, and the files that hold it.

pub mod channel;
pub mod episode;
