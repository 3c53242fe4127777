//! Debug-probe protocol logic: the JTAG TAP state machine, the bookkeeping of
//! a JTAG scan chain, and the ARM debug interface's retry policy.

pub mod adi;
pub mod jtag;
pub mod swd;
