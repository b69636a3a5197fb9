//! An in-memory, read-only festival performance dataset.
//!
//! A nested source document (festivals, each with years, each with artist
//! names) is flattened once into a flat list of performance records. The
//! list is then served read-only: either in full, or as a bounded uniform
//! random sample drawn without replacement.

pub mod flatten;
pub mod model;
pub mod sample;
pub mod store;

pub use model::{ArtistPerformance, BandData, Festival, FestivalYear};
pub use sample::SampleError;
pub use store::Store;
