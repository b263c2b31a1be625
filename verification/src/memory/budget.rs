//! Detected hardware resource limits.

use vstd::prelude::*;

verus! {

/// Detected hardware resource limits (probed by the application at start-up).
#[derive(Debug, Clone, Copy)]
pub struct HardwareBudget {
    pub vram_total_bytes: u64,
    pub vram_free_bytes: u64,
    pub ram_total_bytes: u64,
    pub ram_free_bytes: u64,
    pub cpu_logical_cores: u32,
    pub disk_free_bytes: u64,
}

} // verus!
