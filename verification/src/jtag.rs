//! JTAG: the TAP controller state machine, the scan-chain bookkeeping and the
//! interface a JTAG transport implements.

mod sm;
mod scan;
mod taps;

pub use scan::{ScanOp, ScanOpSpec, ScanReply, ScanStep, ScanStepSpec};
pub use sm::{JtagState, OperationState};
pub use taps::{Taps, TapsModel, MAX_TAPS};

use crate::adi::ArmDebugInterface;
use vstd::prelude::*;

verus! {

/// A JTAG transport: what a probe implements to drive a JTAG scan chain.
pub trait Jtag<DEPS>: From<DEPS> + ArmDebugInterface {
    /// If JTAG is available or not.
    const AVAILABLE: bool;

    type Error;

    /// Handle a JTAG sequence request.
    ///
    /// Returns the number of bytes of rxbuf which were written to.
    fn sequences(&mut self, data: &[u8], rxbuf: &mut [u8]) -> u32;

    /// Set the maximum clock frequency, return `true` if it is valid.
    fn set_clock(&mut self, max_frequency: u32) -> bool;

    fn configure_taps(&mut self, req: &[u8]) -> Result<(), Self::Error>;

    /// Drive state machine to requested state by feeding in a TMS bit sequence.
    fn tms_sequence(&mut self, data: &[u8], nbits: usize);

    /// The scan chain behind this transport.
    fn taps(&mut self) -> &mut Taps;
}

} // verus!
