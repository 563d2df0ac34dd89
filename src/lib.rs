//! A process-wide bump allocator: one fixed region, reserved once on first
//! use, handed out by an atomically advanced offset, never reclaimed.
use vstd::prelude::*;

mod arena;
mod cursor;

pub use arena::{next_offset, BumpAlloc, RegionSource, DEFAULT_CAPACITY};
pub use cursor::{
    align_up, footprint, is_power_of_two, is_run, lemma_align_up, lemma_beyond_capacity, lemma_placement_fits,
    lemma_power_of_two_pos, lemma_run_disjoint, place, placement, AllocError,
};

verus! {

} // verus!
