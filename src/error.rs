use vstd::prelude::*;

verus! {

/// Error of a device on a shared bus: either the bus transport or the
/// chip-select pin failed.
#[derive(Debug, Clone, Copy, PartialEq, Eq)]
pub enum DeviceError<BUS, CS> {
    /// The bus transport reported an error.
    Spi(BUS),
    /// The chip-select pin could not be driven.
    Cs(CS),
}

} // verus!
