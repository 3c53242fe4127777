//! The operations a scan-chain plan hands to the JTAG engine, the engine's
//! replies, and the steps of a multi-part request.
//!
//! A request that needs the engine's answers (whether a read could be queued,
//! which bits came back) is driven step by step: the caller issues the
//! operations of each `ScanStep::Issue`, records the reply to the last one,
//! and asks again with all replies so far, until a `ScanStep::Done` hands back
//! the final operations and the request's result.

use super::sm::JtagState;
use vstd::prelude::*;

verus! {

/// One operation of the JTAG engine that drives the scan chain.
#[derive(Clone, Debug, PartialEq, Eq)]
pub enum ScanOp {
    /// Shift `data` into the instruction register; `last_bits` bits of the
    /// final byte are shifted; `exit` leaves Shift-IR after the last bit.
    WriteIr { data: Vec<u8>, last_bits: u8, exit: bool },
    /// Shift `data` into the data register, as `WriteIr` does.
    WriteDr { data: Vec<u8>, last_bits: u8, exit: bool },
    /// Queue a shift of `data` through the data register whose output is read
    /// later; answered by `ScanReply::Queued`.
    QueueReadWriteDr { data: Vec<u8>, last_bits: u8, exit: bool },
    /// Move the TAP controller to `state`.
    ChangeMode { state: JtagState },
    /// Read `bits` bits out of the instruction register; answered by `ScanReply::Data`.
    ReadIr { bits: usize },
    /// Queue a read of `bits` bits out of the data register; answered by `ScanReply::Queued`.
    QueueReadDr { bits: usize },
    /// Collect `bits` bits of a queued read; answered by `ScanReply::Data`.
    FinishRead { bits: usize },
}

/// The mathematical value of a `ScanOp`.
pub enum ScanOpSpec {
    WriteIr { data: Seq<u8>, last_bits: u8, exit: bool },
    WriteDr { data: Seq<u8>, last_bits: u8, exit: bool },
    QueueReadWriteDr { data: Seq<u8>, last_bits: u8, exit: bool },
    ChangeMode { state: JtagState },
    ReadIr { bits: usize },
    QueueReadDr { bits: usize },
    FinishRead { bits: usize },
}

impl DeepView for ScanOp {
    type V = ScanOpSpec;

    open spec fn deep_view(&self) -> ScanOpSpec {
        match *self {
            ScanOp::WriteIr { data, last_bits, exit } => ScanOpSpec::WriteIr {
                data: data@,
                last_bits,
                exit,
            },
            ScanOp::WriteDr { data, last_bits, exit } => ScanOpSpec::WriteDr {
                data: data@,
                last_bits,
                exit,
            },
            ScanOp::QueueReadWriteDr { data, last_bits, exit } => ScanOpSpec::QueueReadWriteDr {
                data: data@,
                last_bits,
                exit,
            },
            ScanOp::ChangeMode { state } => ScanOpSpec::ChangeMode { state },
            ScanOp::ReadIr { bits } => ScanOpSpec::ReadIr { bits },
            ScanOp::QueueReadDr { bits } => ScanOpSpec::QueueReadDr { bits },
            ScanOp::FinishRead { bits } => ScanOpSpec::FinishRead { bits },
        }
    }
}

/// The engine's answer to the last operation of an issued step.
#[derive(Clone, Debug, PartialEq, Eq)]
pub enum ScanReply {
    /// Whether a queued read could be queued.
    Queued(bool),
    /// The bits a read returned.
    Data(Vec<u8>),
}

impl ScanReply {
    /// The engine refused to queue a read.
    pub open spec fn refused(self) -> bool {
        match self {
            ScanReply::Queued(ok) => !ok,
            ScanReply::Data(_) => false,
        }
    }

    /// The bytes a read returned (none for a queueing answer).
    pub open spec fn bytes(self) -> Seq<u8> {
        match self {
            ScanReply::Data(d) => d@,
            ScanReply::Queued(_) => Seq::empty(),
        }
    }
}

/// One step of a multi-part request.
#[derive(Clone, Debug, PartialEq, Eq)]
pub enum ScanStep<T> {
    /// Issue these operations in order and report the reply to the last one.
    Issue(Vec<ScanOp>),
    /// Issue these operations in order; the request is over with this result.
    Done(Vec<ScanOp>, T),
}

/// The mathematical value of a `ScanStep`.
pub enum ScanStepSpec<T> {
    Issue(Seq<ScanOpSpec>),
    Done(Seq<ScanOpSpec>, T),
}

impl<T: DeepView> DeepView for ScanStep<T> {
    type V = ScanStepSpec<T::V>;

    open spec fn deep_view(&self) -> ScanStepSpec<T::V> {
        match *self {
            ScanStep::Issue(ops) => ScanStepSpec::Issue(ops.deep_view()),
            ScanStep::Done(ops, result) => ScanStepSpec::Done(ops.deep_view(), result.deep_view()),
        }
    }
}

} // verus!
