//! Core runtime of a small cooperative kernel: the interrupt-to-task bridge
//! (bounded event queues, a waker cell, pollable event streams, a cooperative
//! executor) and the memory subsystem that backs it (a bump frame allocator
//! over the firmware memory map, a four-level page mapper, and a heap
//! bootstrapper with a bump allocator).

pub mod bridge;
pub mod display;
pub mod executor;
pub mod frame;
pub mod game2048;
pub mod heap;
pub mod keyboard;
pub mod paging;
pub mod queue;
pub mod rng;
pub mod snake;
pub mod tick;
pub mod world;

use vstd::prelude::*;

verus! {

/// Size in bytes of one physical frame and of one virtual page.
pub const FRAME_SIZE: u64 = 4096;

} // verus!
