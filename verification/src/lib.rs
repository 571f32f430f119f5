//! Event-triggered image thumbnailer.
//!
//! On notification that a new object landed in a storage bucket, the pipeline
//! fetches the object, decodes it as an image, produces a proportionally
//! scaled thumbnail, and writes the result back under a derived key
//! (the source key truncated at its first `.`, with `-thumb.png` appended).
//! Keys that already contain a hyphen are skipped, so the pipeline never
//! reprocesses its own output.

pub mod config;
pub mod errors;
pub mod keys;
pub mod pipeline;
pub mod raster;
pub mod store;
