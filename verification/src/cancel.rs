//! A cancellation flag shared between the thread that asks for a preview and
//! the code that waits on the renderer.

use std::sync::Arc;
use std::sync::atomic::{AtomicBool, Ordering};
use vstd::prelude::*;

verus! {

/// A shared flag; every clone observes the same flag.
#[derive(Clone)]
pub struct Cancellation(Arc<AtomicBool>);

impl Cancellation {
    /// Raises the flag for every clone.
    pub fn cancel(&self) {
        self.0.store(true, Ordering::Release);
    }

    /// Whether any clone has raised the flag. The flag is shared with other
    /// threads, which may raise it at any moment, and vstd specifies no value
    /// for an atomic load; so no clause says which value is read.
    pub fn is_cancelled(&self) -> bool {
        self.0.load(Ordering::Acquire)
    }
}

impl Default for Cancellation {
    /// A flag that has not been raised.
    fn default() -> Self {
        Cancellation(Arc::new(AtomicBool::new(false)))
    }
}

} // verus!
