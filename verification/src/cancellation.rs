//! Runtime-neutral cooperative cancellation.

use std::sync::atomic::{AtomicBool, Ordering};
use std::sync::Arc;
use vstd::prelude::*;

verus! {

/// Cheap cloneable cancellation flag shared across application and adapter boundaries.
///
/// Cancellation is a level-triggered state rather than a one-shot notification. Workers may
/// check it before opening a transport, while sending audio, and while waiting for a provider
/// response. What a check sees depends on every holder of the flag, so nothing is stated of it:
/// each decision that depends on it takes the observed value as an argument.
#[derive(Clone, Debug)]
pub struct CancellationToken {
    flag: Arc<AtomicBool>,
}

impl CancellationToken {
    pub fn new() -> Self {
        CancellationToken { flag: Arc::new(AtomicBool::new(false)) }
    }

    pub fn cancel(&self) {
        self.flag.store(true, Ordering::Release);
    }

    pub fn is_cancelled(&self) -> bool {
        self.flag.load(Ordering::Acquire)
    }
}

} // verus!
