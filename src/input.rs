use vstd::prelude::*;

verus! {

/// The default mapping from input state to application events.
pub struct DefaultController {}

/// Maps window-system events to input events.
pub struct WinitEventMapper {}

impl WinitEventMapper {
    pub fn new() -> Self {
        WinitEventMapper {}
    }
}

} // verus!
