use vstd::prelude::*;

verus! {

/// What a user asks of a device.
#[derive(Copy, Clone, Debug, PartialEq, Eq, Structural)]
pub enum Request {
    /// Whether the device still runs.
    Check,
}

} // verus!
