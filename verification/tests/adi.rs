use dap_rs::adi::{settle, ArmDebugInterface, Transfer};
use dap_rs::swd::{APnDP, DPRegister, Error};

/// A target that answers WAIT a number of times, then gives `answer`.
struct Target {
    waits: usize,
    answer: Result<u32, Error>,
    calls: Vec<(APnDP, DPRegister)>,
    writes: Vec<(APnDP, DPRegister, u32)>,
}

impl Target {
    fn new(waits: usize, answer: Result<u32, Error>) -> Self {
        Target { waits, answer, calls: Vec::new(), writes: Vec::new() }
    }
}

impl ArmDebugInterface for Target {
    fn transfers(&self) -> vstd::seq::Seq<Transfer> {
        panic!("the transfer log exists for proofs only")
    }

    fn read_inner(&mut self, apndp: APnDP, a: DPRegister) -> Result<u32, Error> {
        self.calls.push((apndp, a));
        if self.waits > 0 {
            self.waits -= 1;
            Err(Error::AckWait)
        } else {
            self.answer
        }
    }

    fn write_inner(&mut self, apndp: APnDP, a: DPRegister, data: u32) -> Result<(), Error> {
        self.writes.push((apndp, a, data));
        if self.waits > 0 {
            self.waits -= 1;
            Err(Error::AckWait)
        } else {
            self.answer.map(|_| ())
        }
    }
}

#[test]
fn settle_retries_only_on_wait() {
    assert_eq!(settle::<u32>(Err(Error::AckWait)), None);
    assert_eq!(settle::<u32>(Err(Error::AckFault)), Some(Err(Error::AckFault)));
    assert_eq!(settle(Ok(7u32)), Some(Ok(7)));
}

#[test]
fn read_returns_first_answer_after_waits() {
    let mut t = Target::new(2, Ok(0x1234));
    assert_eq!(t.read(3, APnDP::DP, DPRegister::DPIDR), Ok(0x1234));
    assert_eq!(t.calls.len(), 3);
}

#[test]
fn read_gives_up_after_retries() {
    let mut t = Target::new(5, Ok(1));
    assert_eq!(t.read(3, APnDP::AP, DPRegister::RDBUFF), Err(Error::AckWait));
    assert_eq!(t.calls.len(), 3);
}

#[test]
fn read_with_no_retries_is_wait() {
    let mut t = Target::new(0, Ok(1));
    assert_eq!(t.read(0, APnDP::DP, DPRegister::CTRLSTAT), Err(Error::AckWait));
    assert!(t.calls.is_empty());
}

#[test]
fn read_stops_at_fault() {
    let mut t = Target::new(1, Err(Error::AckFault));
    assert_eq!(t.read(10, APnDP::DP, DPRegister::SELECT), Err(Error::AckFault));
    assert_eq!(t.calls.len(), 2);
}

#[test]
fn write_retries_then_succeeds() {
    let mut t = Target::new(1, Ok(0));
    assert_eq!(t.write(2, APnDP::AP, DPRegister::SELECT, 0xdead), Ok(()));
    assert_eq!(t.writes, vec![(APnDP::AP, DPRegister::SELECT, 0xdead); 2]);
}

#[test]
fn write_gives_up_after_retries() {
    let mut t = Target::new(9, Ok(0));
    assert_eq!(t.write(4, APnDP::DP, DPRegister::SELECT, 1), Err(Error::AckWait));
    assert_eq!(t.writes.len(), 4);
}

#[test]
fn shorthands_address_the_right_port() {
    let mut t = Target::new(0, Ok(5));
    assert_eq!(t.read_dp(1, DPRegister::DPIDR), Ok(5));
    assert_eq!(t.read_ap(1, DPRegister::RDBUFF), Ok(5));
    assert_eq!(t.write_dp(1, DPRegister::CTRLSTAT, 3), Ok(()));
    assert_eq!(t.calls, vec![(APnDP::DP, DPRegister::DPIDR), (APnDP::AP, DPRegister::RDBUFF)]);
    assert_eq!(t.writes, vec![(APnDP::DP, DPRegister::CTRLSTAT, 3)]);
}
