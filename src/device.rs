use vstd::prelude::*;

use std::cell::RefCell;

verus! {

/// `std::cell::RefCell`, the cell through which devices share one bus
/// within a single execution context. Only carried, never looked into.
#[verifier::external_type_specification]
#[verifier::external_body]
#[verifier::reject_recursive_types(T)]
pub struct ExRefCell<T: ?Sized>(RefCell<T>);

/// A delay provider for devices whose transactions hold no delay operation.
#[derive(Debug, Clone, Copy, PartialEq, Eq)]
pub struct NoDelay;

/// A device on a bus shared through a `RefCell`: its own chip-select pin and
/// delay provider, and a borrowed handle on the bus, which is borrowed
/// mutably for the length of one transaction only.
#[verifier::reject_recursive_types(BUS)]
pub struct RefCellDevice<'a, BUS, CS, D> {
    bus: &'a RefCell<BUS>,
    cs: CS,
    delay: D,
}

impl<'a, BUS, CS, D> RefCellDevice<'a, BUS, CS, D> {
    /// The shared bus.
    pub closed spec fn shared_bus(&self) -> &'a RefCell<BUS> {
        self.bus
    }

    /// The chip-select pin.
    pub closed spec fn chip_select(&self) -> CS {
        self.cs
    }

    /// The delay provider.
    pub closed spec fn delay_provider(&self) -> D {
        self.delay
    }

    /// A device on the shared bus `bus`, selected by `cs`, waiting with `delay`.
    pub fn new(bus: &'a RefCell<BUS>, cs: CS, delay: D) -> (r: Self)
        ensures
            r.shared_bus() == bus,
            r.chip_select() == cs,
            r.delay_provider() == delay,
    {
        RefCellDevice { bus, cs, delay }
    }

    /// The shared bus, to be borrowed for one transaction.
    pub fn bus(&self) -> (r: &'a RefCell<BUS>)
        ensures
            r == self.shared_bus(),
    {
        self.bus
    }

    /// The chip-select pin and the delay provider, for one transaction.
    pub fn pins_mut(&mut self) -> (r: (&mut CS, &mut D))
        ensures
            *r.0 == old(self).chip_select(),
            *r.1 == old(self).delay_provider(),
            final(self).shared_bus() == old(self).shared_bus(),
            final(self).chip_select() == *final(r.0),
            final(self).delay_provider() == *final(r.1),
    {
        (&mut self.cs, &mut self.delay)
    }
}

impl<'a, BUS, CS> RefCellDevice<'a, BUS, CS, NoDelay> {
    /// A device on the shared bus `bus`, selected by `cs`, that cannot wait:
    /// its transactions must hold no delay operation.
    pub fn new_no_delay(bus: &'a RefCell<BUS>, cs: CS) -> (r: Self)
        ensures
            r.shared_bus() == bus,
            r.chip_select() == cs,
            r.delay_provider() == NoDelay,
    {
        RefCellDevice { bus, cs, delay: NoDelay }
    }
}

} // verus!
