//! Time sources for the timer engine.
//!
//! The engine needs two readings: a monotonic one for measuring spans inside
//! one process, and a wall-clock one that is persisted and compared across
//! processes.  Neither reading is predictable, so the trait promises nothing
//! about the values it returns; the engine's contracts are stated over the
//! readings it received.

use std::sync::atomic::{AtomicU64, Ordering};
use vstd::prelude::*;

verus! {

/// A source of monotonic and wall-clock milliseconds.
pub trait Clock: Send + Sync + 'static {
    /// Milliseconds on a clock that never goes backwards within a process.
    fn monotonic_ms(&self) -> u64;

    /// Milliseconds since the Unix epoch; may jump when the system time changes.
    fn wall_ms(&self) -> u64;
}

/// A hand-driven clock for tests: both readings move only when `advance` is called.
#[derive(Default)]
pub struct FakeClock {
    monotonic_ms: AtomicU64,
    wall_ms: AtomicU64,
}

impl FakeClock {
    /// A clock whose monotonic reading starts at zero and whose wall reading
    /// starts at `start_wall_ms`.
    pub fn new(start_wall_ms: u64) -> Self {
        FakeClock { monotonic_ms: AtomicU64::new(0), wall_ms: AtomicU64::new(start_wall_ms) }
    }

    /// Moves both readings forward by `ms` (wrapping on overflow, as the atomics do).
    pub fn advance(&self, ms: u64) {
        let _ = self.monotonic_ms.fetch_add(ms, Ordering::SeqCst);
        let _ = self.wall_ms.fetch_add(ms, Ordering::SeqCst);
    }
}

impl Clock for FakeClock {
    fn monotonic_ms(&self) -> u64 {
        self.monotonic_ms.load(Ordering::SeqCst)
    }

    fn wall_ms(&self) -> u64 {
        self.wall_ms.load(Ordering::SeqCst)
    }
}

/// A shared clock reads through to the clock it points at, so a runtime thread
/// and a test can hold the same clock.
impl<C: Clock> Clock for std::sync::Arc<C> {
    fn monotonic_ms(&self) -> u64 {
        (**self).monotonic_ms()
    }

    fn wall_ms(&self) -> u64 {
        (**self).wall_ms()
    }
}

} // verus!
