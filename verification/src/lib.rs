//! Social-preview images for map locations: alias resolution, record
//! selection, tile-grid geometry, pixel compositing and the request pipeline.
//!
//! The host hands in plain values (what the store answered, what the tile
//! server sent) and gets plain values back (which tiles to fetch, what to
//! draw, what to answer). Pictures live in the `image` crate's buffers,
//! behind the small trusted interface of [`canvas`].

pub mod canvas;
pub mod compose;
pub mod flight;
pub mod format;
pub mod overlay;
pub mod pipeline;
pub mod provider;
pub mod render;
pub mod resolver;
pub mod store;
pub mod text;
pub mod tiles;
