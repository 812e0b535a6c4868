//! Helpers for chaining processes.

use vstd::prelude::*;

verus! {

/// Ends a chain of processes by discarding the last one's output.
pub fn dispose<T>(_value: T) {
}

} // verus!
