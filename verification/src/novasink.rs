use vstd::prelude::*;

verus! {

/// Placeholder audio sink; it carries no state yet.
pub struct NovaSink {}

impl NovaSink {
    /// Create an empty sink.
    pub fn new() -> (sink: NovaSink)
        ensures
            sink == (NovaSink {}),
    {
        NovaSink {}
    }
}

} // verus!
