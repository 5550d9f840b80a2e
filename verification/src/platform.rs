//! The platform surface: what every windowing backend provides to host
//! the runtime. The event loop itself is platform work outside this core.

use vstd::prelude::*;

verus! {

/// A windowing platform: initialise, then run the main event loop.
pub trait Platform: Sized {
    /// Initialise the platform.
    fn init() -> Self;

    /// Run the main event loop.
    fn run(self);
}

} // verus!
