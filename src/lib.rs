use vstd::prelude::*;

/// Reading line-oriented and whitespace-separated text.
pub mod text;
/// Reading decimal numbers.
pub mod number;
/// Rendering sizes, durations and percentages.
pub mod format;
/// Calls into the operating system's account directory and CPU count.
pub mod system;
/// Sampling one process from the text of its files, and sweeping many.
pub mod process;
/// The store that holds the records of the latest sweep.
pub mod store;

verus! {

} // verus!
