//! A Bloom filter over a byte-array bitmap: keys are inserted by marking one
//! bit per probe, and membership queries may report false positives but never
//! false negatives.

pub mod bits;
pub mod error;
pub mod filter;
pub mod laws;
pub mod model;
pub mod probe;

pub use error::FilterError;
pub use filter::BloomFilter;
pub use model::{FilterView, DEFAULT_HASH_LOOP, DEFAULT_SIZE, TRAILER_LEN};
