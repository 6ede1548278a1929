//! Incremental media-gallery builder: a persistent capture-date catalog,
//! per-asset classification, caption and date resolution, thumbnail
//! geometry, and page/feed rendering, with contracts proved by Verus.

pub mod capture;
pub mod catalog;
pub mod datetime;
pub mod errors;
pub mod escape;
pub mod media;
pub mod render;
pub mod text;
pub mod thumb;
