//! Cooperative cancellation and progress reporting during a search.
use vstd::prelude::*;
use std::sync::Arc;
use std::sync::atomic::{AtomicBool, Ordering};

verus! {

/// A flag shared between the caller, who raises it, and a running search,
/// which polls it between generations. Clones share one flag.
#[derive(Clone, Debug)]
pub struct CancellationState {
    flag: Arc<AtomicBool>,
}

impl CancellationState {
    pub fn new() -> (r: CancellationState) {
        CancellationState { flag: Arc::new(AtomicBool::new(false)) }
    }

    /// Asks every holder of the flag to stop.
    pub fn cancel(&self) {
        self.flag.store(true, Ordering::SeqCst);
    }

    /// Lowers the flag before a new run.
    pub fn reset(&self) {
        self.flag.store(false, Ordering::SeqCst);
    }

    /// Whether a stop has been asked for. Another thread may raise the flag
    /// at any time, so nothing is known of the answer in advance.
    pub fn is_cancelled(&self) -> bool {
        self.flag.load(Ordering::SeqCst)
    }
}

/// A snapshot handed to the progress callback after each generation.
#[derive(Clone, Debug)]
pub struct ProgressUpdate {
    /// Generations completed so far.
    pub iteration: usize,
    /// Lowest loss found so far.
    pub best_fitness: u64,
    /// The vector that has it.
    pub best_params: Vec<i64>,
}

/// Receives progress during a search. Returning `false` stops the search,
/// which then reports what it has found so far. It is called from the
/// thread that runs the search and should return promptly.
pub trait ProgressCallback {
    fn on_progress(&self, update: ProgressUpdate) -> bool;
}

} // verus!
