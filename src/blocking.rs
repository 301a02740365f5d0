use vstd::prelude::*;

use crate::operation::Operation;

verus! {

/// Blocking transfer with separate buffers.
pub trait Transfer<W = u8> {
    /// Error type.
    type Error;

    /// Writes `write` and reads into `read` at the same time. The transfer
    /// runs for the longer of the two; incoming words past the end of `read`
    /// are dropped, and the words sent past the end of `write` are chosen by
    /// the implementation.
    fn transfer(&mut self, read: &mut [W], write: &[W]) -> Result<(), Self::Error>;
}

impl<T: Transfer<W>, W> Transfer<W> for &mut T {
    type Error = T::Error;

    fn transfer(&mut self, read: &mut [W], write: &[W]) -> Result<(), Self::Error> {
        T::transfer(self, read, write)
    }
}

/// Blocking transfer with a single buffer.
pub trait TransferInplace<W = u8> {
    /// Error type.
    type Error;

    /// Writes `words` and overwrites them with the words received.
    fn transfer_inplace(&mut self, words: &mut [W]) -> Result<(), Self::Error>;
}

impl<T: TransferInplace<W>, W> TransferInplace<W> for &mut T {
    type Error = T::Error;

    fn transfer_inplace(&mut self, words: &mut [W]) -> Result<(), Self::Error> {
        T::transfer_inplace(self, words)
    }
}

/// Blocking read.
pub trait Read<W = u8> {
    /// Error type.
    type Error;

    /// Reads `words` from the device; the words sent meanwhile are chosen by
    /// the implementation.
    fn read(&mut self, words: &mut [W]) -> Result<(), Self::Error>;
}

impl<T: Read<W>, W> Read<W> for &mut T {
    type Error = T::Error;

    fn read(&mut self, words: &mut [W]) -> Result<(), Self::Error> {
        T::read(self, words)
    }
}

/// Blocking write.
pub trait Write<W = u8> {
    /// Error type.
    type Error;

    /// Writes `words` to the device, ignoring the words received.
    fn write(&mut self, words: &[W]) -> Result<(), Self::Error>;
}

impl<T: Write<W>, W> Write<W> for &mut T {
    type Error = T::Error;

    fn write(&mut self, words: &[W]) -> Result<(), Self::Error> {
        T::write(self, words)
    }
}

/// Runs several operations as one bus transaction.
pub trait Transactional<W: 'static = u8> {
    /// Error type.
    type Error;

    /// Runs `operations` in order, as one transaction.
    fn exec<'a>(&mut self, operations: &mut [Operation<'a, W>]) -> Result<(), Self::Error>;
}

impl<T: Transactional<W>, W: 'static> Transactional<W> for &mut T {
    type Error = T::Error;

    fn exec<'a>(&mut self, operations: &mut [Operation<'a, W>]) -> Result<(), Self::Error> {
        T::exec(self, operations)
    }
}

} // verus!
