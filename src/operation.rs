use vstd::prelude::*;

verus! {

/// One step of a bus transaction, over buffers borrowed for the duration of
/// the transaction.
#[derive(Debug, PartialEq, Eq)]
pub enum Operation<'a, W: 'static> {
    /// Fill the buffer with words read from the bus.
    Read(&'a mut [W]),
    /// Send the buffer, discarding the words received meanwhile.
    Write(&'a [W]),
    /// Send the second buffer while receiving into the first; the two may
    /// differ in length.
    Transfer(&'a mut [W], &'a [W]),
    /// Send the buffer and overwrite it with the words received.
    TransferInPlace(&'a mut [W]),
    /// Let at least this many microseconds pass on the wire.
    DelayUs(u32),
}

/// What an operation asks of the bus, without its buffers.
#[derive(Debug, Clone, Copy, PartialEq, Eq)]
pub enum OpKind {
    Read,
    Write,
    Transfer,
    TransferInPlace,
    DelayUs(u32),
}

impl<'a, W> Operation<'a, W> {
    /// The kind of this operation.
    pub open spec fn kind(&self) -> OpKind {
        match self {
            Operation::Read(_) => OpKind::Read,
            Operation::Write(_) => OpKind::Write,
            Operation::Transfer(_, _) => OpKind::Transfer,
            Operation::TransferInPlace(_) => OpKind::TransferInPlace,
            Operation::DelayUs(us) => OpKind::DelayUs(*us),
        }
    }

    /// The kind of this operation, as a value.
    pub fn op_kind(&self) -> (r: OpKind)
        ensures
            r == self.kind(),
    {
        match self {
            Operation::Read(_) => OpKind::Read,
            Operation::Write(_) => OpKind::Write,
            Operation::Transfer(_, _) => OpKind::Transfer,
            Operation::TransferInPlace(_) => OpKind::TransferInPlace,
            Operation::DelayUs(us) => OpKind::DelayUs(*us),
        }
    }
}

/// The kinds of a sequence of operations, in order.
pub open spec fn kinds_of<'a, W>(ops: Seq<Operation<'a, W>>) -> Seq<OpKind> {
    ops.map_values(|op: Operation<'a, W>| op.kind())
}

} // verus!
