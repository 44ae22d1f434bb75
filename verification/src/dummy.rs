//! An inert stand-in controller for builds that must compile against the
//! API without driving any bar state.

use vstd::prelude::*;

verus! {

/// A controller that does nothing.
pub struct DummyTouchbar {}

impl DummyTouchbar {
    /// One-time construction; the title is accepted and ignored.
    pub fn alloc_controller(title: &str) -> (r: DummyTouchbar)
        ensures
            r == (DummyTouchbar {  }),
    {
        let _ = title;
        DummyTouchbar {  }
    }
}

} // verus!
