//! Print-preparation library for manga page scans: a decoder for layered
//! image files, the per-page transform pipeline, the batch bookkeeping and the
//! PDF page layout.

pub mod batch;
pub mod cache;
pub mod compose;
pub mod fonts;
pub mod jpeg;
pub mod layered;
pub mod layout;
pub mod loader;
pub mod packbits;
pub mod paint;
pub mod pipeline;
pub mod raster;
pub mod thumbnail;
pub mod transform;
pub mod types;
pub mod workinfo;
