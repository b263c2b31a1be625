//! Turning token sequences into training batches.

pub mod batch;
pub mod packing;
pub mod sft;
pub mod pipeline;
pub mod catalog;
pub mod loader;
pub mod pile;
pub mod job;
pub mod hf;
