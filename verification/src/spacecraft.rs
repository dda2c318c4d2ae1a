use vstd::prelude::*;

verus! {

/// Whether the vehicle's thruster should fire.
#[derive(Clone, Copy, Debug, PartialEq, Eq, Structural)]
pub enum GuidanceMode {
    Coast,
    Thrust,
    Custom(u8),
}

} // verus!
