use vstd::prelude::*;

use crate::error::DeviceError;
use crate::operation::{kinds_of, OpKind, Operation};

verus! {

/// A call that the transaction asks its caller to make on the chip-select
/// pin, the bus transport or the delay provider.
#[derive(Debug, Clone, Copy, PartialEq, Eq)]
pub enum Call {
    /// Assert chip select (drive it low).
    SetCsLow,
    /// `read` into the buffer of the operation at this index.
    Read(usize),
    /// `write` the buffer of the operation at this index.
    Write(usize),
    /// `transfer` with the buffers of the operation at this index.
    Transfer(usize),
    /// `transfer_in_place` on the buffer of the operation at this index.
    TransferInPlace(usize),
    /// Flush the bus transport.
    Flush,
    /// Wait this many microseconds.
    DelayUs(u32),
    /// Deassert chip select (drive it high).
    SetCsHigh,
}

/// What came back from the last call.
pub enum Response<SE, CE> {
    /// The result of a call on the bus transport.
    Bus(Result<(), SE>),
    /// The result of a call on the chip-select pin.
    Pin(Result<(), CE>),
    /// A delay has elapsed.
    Elapsed,
}

/// The call whose response a transaction is waiting for.
#[derive(Debug, Clone, Copy, PartialEq, Eq)]
pub enum Stage {
    /// Chip select is being asserted.
    Select,
    /// The bus call of the operation at this index is running.
    Operate(usize),
    /// The flush ahead of the delay operation at this index is running; the
    /// delay lasts the given microseconds.
    FlushBeforeDelay(usize, u32),
    /// The delay operation at this index is running.
    Delay(usize),
    /// The flush that closes every transaction is running.
    FinalFlush,
    /// Chip select is being deasserted.
    Release,
}

/// A transaction in progress: the call it waits on, and the error it will
/// report if any has occurred so far.
pub struct Transaction<SE, CE> {
    pub stage: Stage,
    pub pending: Option<DeviceError<SE, CE>>,
}

/// What a transaction does next: make one more call, or finish with a result.
pub enum Step<SE, CE> {
    Issue(Transaction<SE, CE>, Call),
    Complete(Result<(), DeviceError<SE, CE>>),
}

/// The error a response carries, classified by where it came from.
pub open spec fn failure<SE, CE>(r: Response<SE, CE>) -> Option<DeviceError<SE, CE>> {
    match r {
        Response::Bus(Err(e)) => Some(DeviceError::Spi(e)),
        Response::Pin(Err(e)) => Some(DeviceError::Cs(e)),
        _ => None,
    }
}

/// The earlier of two possible errors wins.
pub open spec fn first_error<E>(a: Option<E>, b: Option<E>) -> Option<E> {
    if a is Some {
        a
    } else {
        b
    }
}

/// The result that reports a possible error.
pub open spec fn outcome<E>(e: Option<E>) -> Result<(), E> {
    match e {
        Some(e) => Err(e),
        None => Ok(()),
    }
}

/// The step that starts the operation at index `i`, or the final flush once
/// every operation has run.
pub open spec fn issue<SE, CE>(
    kinds: Seq<OpKind>,
    i: int,
    pending: Option<DeviceError<SE, CE>>,
) -> Step<SE, CE> {
    if 0 <= i < kinds.len() {
        match kinds[i] {
            OpKind::Read => Step::Issue(
                Transaction { stage: Stage::Operate(i as usize), pending },
                Call::Read(i as usize),
            ),
            OpKind::Write => Step::Issue(
                Transaction { stage: Stage::Operate(i as usize), pending },
                Call::Write(i as usize),
            ),
            OpKind::Transfer => Step::Issue(
                Transaction { stage: Stage::Operate(i as usize), pending },
                Call::Transfer(i as usize),
            ),
            OpKind::TransferInPlace => Step::Issue(
                Transaction { stage: Stage::Operate(i as usize), pending },
                Call::TransferInPlace(i as usize),
            ),
            OpKind::DelayUs(us) => Step::Issue(
                Transaction { stage: Stage::FlushBeforeDelay(i as usize, us), pending },
                Call::Flush,
            ),
        }
    } else {
        Step::Issue(Transaction { stage: Stage::FinalFlush, pending }, Call::Flush)
    }
}

impl<SE, CE> Transaction<SE, CE> {
    /// The state in which every transaction starts, waiting on chip select.
    pub open spec fn initial() -> Self {
        Transaction { stage: Stage::Select, pending: None }
    }

    /// How the transaction moves on when response `r` arrives, over
    /// operations of the given kinds.
    ///
    /// A failed chip-select assertion ends it at once. Otherwise operations run
    /// in order, a delay after a flush; the first failure skips the rest. The
    /// final flush and the deassertion always follow, and the first error met
    /// is the one reported.
    pub open spec fn next(self, kinds: Seq<OpKind>, r: Response<SE, CE>) -> Step<SE, CE> {
        let err = first_error(self.pending, failure(r));
        match self.stage {
            Stage::Select => if failure(r) is Some {
                Step::Complete(outcome(failure(r)))
            } else {
                issue(kinds, 0, self.pending)
            },
            Stage::Operate(i) => if failure(r) is Some {
                Step::Issue(Transaction { stage: Stage::FinalFlush, pending: err }, Call::Flush)
            } else {
                issue(kinds, i + 1, self.pending)
            },
            Stage::FlushBeforeDelay(i, us) => if failure(r) is Some {
                Step::Issue(Transaction { stage: Stage::FinalFlush, pending: err }, Call::Flush)
            } else {
                Step::Issue(
                    Transaction { stage: Stage::Delay(i), pending: self.pending },
                    Call::DelayUs(us),
                )
            },
            Stage::Delay(i) => issue(kinds, i + 1, self.pending),
            Stage::FinalFlush => Step::Issue(
                Transaction { stage: Stage::Release, pending: err },
                Call::SetCsHigh,
            ),
            Stage::Release => Step::Complete(outcome(err)),
        }
    }
}

/// The error a response carries, as a value.
fn failure_of<SE, CE>(r: Response<SE, CE>) -> (f: Option<DeviceError<SE, CE>>)
    ensures
        f == failure(r),
{
    match r {
        Response::Bus(Err(e)) => Some(DeviceError::Spi(e)),
        Response::Pin(Err(e)) => Some(DeviceError::Cs(e)),
        _ => None,
    }
}

/// The earlier of two possible errors, as a value.
fn first_of<E>(a: Option<E>, b: Option<E>) -> (r: Option<E>)
    ensures
        r == first_error(a, b),
{
    match a {
        Some(e) => Some(e),
        None => b,
    }
}

/// Starts the operation at index `i`, or the final flush once every
/// operation has run.
fn start_at<'a, W, SE, CE>(
    ops: &[Operation<'a, W>],
    i: usize,
    pending: Option<DeviceError<SE, CE>>,
) -> (s: Step<SE, CE>)
    ensures
        s == issue(kinds_of(ops@), i as int, pending),
{
    if i < ops.len() {
        let stage = Stage::Operate(i);
        match ops[i].op_kind() {
            OpKind::Read => Step::Issue(Transaction { stage, pending }, Call::Read(i)),
            OpKind::Write => Step::Issue(Transaction { stage, pending }, Call::Write(i)),
            OpKind::Transfer => Step::Issue(Transaction { stage, pending }, Call::Transfer(i)),
            OpKind::TransferInPlace => Step::Issue(
                Transaction { stage, pending },
                Call::TransferInPlace(i),
            ),
            OpKind::DelayUs(us) => Step::Issue(
                Transaction { stage: Stage::FlushBeforeDelay(i, us), pending },
                Call::Flush,
            ),
        }
    } else {
        Step::Issue(Transaction { stage: Stage::FinalFlush, pending }, Call::Flush)
    }
}

impl<SE, CE> Transaction<SE, CE> {
    /// Starts a transaction: the first call always asserts chip select.
    pub fn begin() -> (r: (Self, Call))
        ensures
            r.0 == Self::initial(),
            r.1 == Call::SetCsLow,
    {
        (Transaction { stage: Stage::Select, pending: None }, Call::SetCsLow)
    }

    /// Takes the response to the last call and decides what comes next.
    pub fn resume<'a, W>(self, ops: &[Operation<'a, W>], r: Response<SE, CE>) -> (s: Step<SE, CE>)
        ensures
            s == self.next(kinds_of(ops@), r),
    {
        let fail = failure_of(r);
        let failed = fail.is_some();
        let Transaction { stage, pending } = self;
        match stage {
            Stage::Select => {
                if failed {
                    Step::Complete(match fail {
                        Some(e) => Err(e),
                        None => Ok(()),
                    })
                } else {
                    start_at(ops, 0, pending)
                }
            },
            Stage::Operate(i) => {
                if failed {
                    let pending = first_of(pending, fail);
                    Step::Issue(Transaction { stage: Stage::FinalFlush, pending }, Call::Flush)
                } else {
                    let next: usize = if i < ops.len() { i + 1 } else { ops.len() };
                    start_at(ops, next, pending)
                }
            },
            Stage::FlushBeforeDelay(i, us) => {
                if failed {
                    let pending = first_of(pending, fail);
                    Step::Issue(Transaction { stage: Stage::FinalFlush, pending }, Call::Flush)
                } else {
                    Step::Issue(Transaction { stage: Stage::Delay(i), pending }, Call::DelayUs(us))
                }
            },
            Stage::Delay(i) => {
                let next: usize = if i < ops.len() { i + 1 } else { ops.len() };
                start_at(ops, next, pending)
            },
            Stage::FinalFlush => {
                let pending = first_of(pending, fail);
                Step::Issue(Transaction { stage: Stage::Release, pending }, Call::SetCsHigh)
            },
            Stage::Release => {
                Step::Complete(match first_of(pending, fail) {
                    Some(e) => Err(e),
                    None => Ok(()),
                })
            },
        }
    }
}

} // verus!
