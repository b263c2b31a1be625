//! Where model layers live (VRAM, RAM or disk) and how much of each the
//! machine offers.

pub mod budget;
pub mod registry;
pub mod store;
