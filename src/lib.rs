//! Devices that share one SPI bus, each with its own chip-select pin.
//!
//! A transaction runs a list of operations on the bus with chip select held
//! asserted. `Transaction` decides, call by call, what to do next: assert chip
//! select, run the operations in order (a flush before every delay), stop at
//! the first failure, then always flush and deassert chip select, reporting
//! the first error met. The caller makes each call and hands back what it
//! returned; `trace` states and proves what a whole transaction does.
use vstd::prelude::*;

mod blocking;
mod device;
mod error;
mod operation;
mod protocol;
mod trace;

pub use blocking::{Read, Transactional, Transfer, TransferInplace, Write};
pub use device::{ExRefCell, NoDelay, RefCellDevice};
pub use error::DeviceError;
pub use operation::{kinds_of, OpKind, Operation};
pub use protocol::{failure, first_error, issue, outcome, Call, Response, Stage, Step, Transaction};
pub use trace::{
    calls, calls_for, executed, lemma_cs_bracketing, lemma_empty_transaction,
    lemma_error_priority, lemma_flush_before_delay, lemma_transaction, planned, planned_from, result,
    run, stop_error, stops,
};
