//! Serial Wire Debug vocabulary shared by the debug interfaces.

use vstd::prelude::*;

verus! {

/// What a debug-port transfer can fail with.
#[derive(Clone, Copy, Debug, PartialEq, Eq, Structural)]
pub enum Error {
    BadParity,
    AckWait,
    AckFault,
    AckProtocol,
    AckUnknown(u8),
}

/// Whether a transfer addresses an access port or the debug port.
#[derive(Clone, Copy, Debug, PartialEq, Eq, Structural)]
pub enum APnDP {
    DP,
    AP,
}

/// The debug-port registers.
#[derive(Clone, Copy, Debug, PartialEq, Eq, Structural)]
pub enum DPRegister {
    DPIDR,
    CTRLSTAT,
    SELECT,
    RDBUFF,
}

} // verus!
