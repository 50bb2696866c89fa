//! Verified decision logic of a CPU frequency scheduler.
use vstd::prelude::*;

pub mod config;
pub mod cpu_handle;
pub mod devices;
pub mod scheduler;
pub mod text;

verus! {

} // verus!
