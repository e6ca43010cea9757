//! Reception-and-fanout core of a DICOM storage service: path derivation,
//! series bookkeeping, progress notifications and their rate limiting, and
//! the decisions of the per-connection DICOM upper-layer handler.
use vstd::prelude::*;

pub mod text;
pub mod sanitize;
pub mod types;
pub mod numbers;
pub mod patient_age;
pub mod pacs_file;
pub mod lonk;
pub mod keyed_map;
pub mod messenger;
pub mod tracker;
pub mod synchronizer;
pub mod limiter;
pub mod scp;
pub mod settings;
pub mod batcher;

verus! {

} // verus!
