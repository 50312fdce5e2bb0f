//! The flag by which the caller asks a running listener to stop.

use std::sync::atomic::{AtomicBool, Ordering};
use std::sync::Arc;
use vstd::prelude::*;

verus! {

/// Reads the flag. Another thread may change it at any time, so nothing is
/// known of the answer.
pub fn is_set(flag: &Arc<AtomicBool>) -> bool {
    flag.load(Ordering::Relaxed)
}

} // verus!
