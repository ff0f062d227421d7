//! Turn a directory of archived videos into a podcast feed.
//!
//! Each channel directory holds metadata sidecar files, media files and cover
//! images that follow a naming convention. This library pairs the files,
//! normalizes cover images to a fixed square, and renders an RSS document
//! with iTunes extensions whose items are ordered by playlist index.
//!
//! Reading and writing files is left to the caller: every function here
//! works on values in memory. `pipeline` converts a directory step by step,
//! telling its caller what to read and what to write; `convert`, `cover`,
//! `info` and `rss` hold the steps themselves.

pub mod convert;
pub mod cover;
pub mod dates;
pub mod error;
pub mod info;
pub mod naming;
pub mod order;
pub mod paths;
pub mod pipeline;
pub mod rss;
pub mod text;
pub mod xml;
