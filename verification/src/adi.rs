//! The ARM Debug Interface: register transfers with a retry policy for `AckWait`.

use crate::swd::{APnDP, DPRegister, Error};
use vstd::prelude::*;

verus! {

/// What a transfer attempt's reply means for the retry loop: `None` asks for
/// another attempt (the target answered WAIT), `Some` is the final answer.
pub open spec fn settled<T>(reply: Result<T, Error>) -> Option<Result<T, Error>> {
    match reply {
        Err(Error::AckWait) => None,
        _ => Some(reply),
    }
}

/// Decides whether a transfer attempt's reply ends the retry loop.
pub fn settle<T>(reply: Result<T, Error>) -> (decision: Option<Result<T, Error>>)
    ensures
        decision == settled(reply),
{
    match reply {
        Err(Error::AckWait) => None,
        x => Some(x),
    }
}

/// One transfer the hardware carried out: its port, register, the data of a
/// write, and the target's reply.
pub enum Transfer {
    Read { port: APnDP, register: DPRegister, reply: Result<u32, Error> },
    Write { port: APnDP, register: DPRegister, data: u32, reply: Result<(), Error> },
}

/// The target asked to wait.
pub open spec fn is_wait<T>(reply: Result<T, Error>) -> bool {
    reply == Err::<T, Error>(Error::AckWait)
}

/// The reply of a read transfer.
pub open spec fn read_reply(t: Transfer) -> Result<u32, Error> {
    match t {
        Transfer::Read { reply, .. } => reply,
        Transfer::Write { .. } => Err(Error::AckWait),
    }
}

/// The reply of a write transfer.
pub open spec fn write_reply(t: Transfer) -> Result<(), Error> {
    match t {
        Transfer::Write { reply, .. } => reply,
        Transfer::Read { .. } => Err(Error::AckWait),
    }
}

/// `t` is a read of `(apndp, a)`, answered WAIT unless it is the `last` attempt.
pub open spec fn read_attempt(t: Transfer, apndp: APnDP, a: DPRegister, last: bool) -> bool {
    match t {
        Transfer::Read { port, register, reply } => port == apndp && register == a && (last
            || is_wait(reply)),
        Transfer::Write { .. } => false,
    }
}

/// `t` is a write of `data` to `(apndp, a)`, answered WAIT unless it is the `last` attempt.
pub open spec fn write_attempt(t: Transfer, apndp: APnDP, a: DPRegister, data: u32, last: bool) -> bool {
    match t {
        Transfer::Write { port, register, data: d, reply } => port == apndp && register == a && d
            == data && (last || is_wait(reply)),
        Transfer::Read { .. } => false,
    }
}

/// `after` is `before` followed by the transfers `new`.
pub open spec fn extends(before: Seq<Transfer>, after: Seq<Transfer>, new: Seq<Transfer>) -> bool {
    after == before + new
}

/// A read of register `a` through `apndp` that retries while the target waits:
/// `new` are the transfers it made, at most `wait_retries` reads of `(apndp, a)`,
/// all answered WAIT but the last; the result `r` is the last reply unless that is
/// WAIT, and a WAIT result comes only after `wait_retries` attempts.
pub open spec fn retried_read(
    new: Seq<Transfer>,
    wait_retries: usize,
    apndp: APnDP,
    a: DPRegister,
    r: Result<u32, Error>,
) -> bool {
    &&& new.len() <= wait_retries
    &&& forall|i: int|
        0 <= i < new.len() ==> read_attempt(#[trigger] new[i], apndp, a, i + 1 == new.len())
    &&& r == if new.len() > 0 && !is_wait(read_reply(new.last())) {
        read_reply(new.last())
    } else {
        Err(Error::AckWait)
    }
    &&& (new.len() == 0 || is_wait(read_reply(new.last()))) ==> new.len() == wait_retries
}

/// A write of `data` to register `a` through `apndp` that retries while the target
/// waits, as `retried_read` describes for reads.
pub open spec fn retried_write(
    new: Seq<Transfer>,
    wait_retries: usize,
    apndp: APnDP,
    a: DPRegister,
    data: u32,
    r: Result<(), Error>,
) -> bool {
    &&& new.len() <= wait_retries
    &&& forall|i: int|
        0 <= i < new.len() ==> write_attempt(#[trigger] new[i], apndp, a, data, i + 1 == new.len())
    &&& r == if new.len() > 0 && !is_wait(write_reply(new.last())) {
        write_reply(new.last())
    } else {
        Err(Error::AckWait)
    }
    &&& (new.len() == 0 || is_wait(write_reply(new.last()))) ==> new.len() == wait_retries
}

pub trait ArmDebugInterface {
    /// The transfers the hardware has carried out so far.
    spec fn transfers(&self) -> Seq<Transfer>;

    /// Helper method over `read_inner` to retry during `AckWait`.
    fn read(&mut self, wait_retries: usize, apndp: APnDP, a: DPRegister) -> (r: Result<u32, Error>)
        ensures
            exists|new: Seq<Transfer>|
                extends(old(self).transfers(), final(self).transfers(), new) && retried_read(
                    new,
                    wait_retries,
                    apndp,
                    a,
                    r,
                ),
    {
        let ghost start = self.transfers();
        let mut i: usize = 0;
        while i < wait_retries
            invariant
                i <= wait_retries,
                start == old(self).transfers(),
                self.transfers().len() == start.len() + i,
                self.transfers().take(start.len() as int) == start,
                forall|k: int|
                    start.len() <= k < self.transfers().len() ==> #[trigger] self.transfers()[k]
                        == (Transfer::Read { port: apndp, register: a, reply: Err(Error::AckWait) }),
            decreases wait_retries - i,
        {
            let reply = self.read_inner(apndp, a);
            proof {
                assert(self.transfers().take(start.len() as int) =~= start);
            }
            match settle(reply) {
                None => {},
                Some(x) => {
                    let ghost new = self.transfers().skip(start.len() as int);
                    assert(self.transfers() =~= start + new);
                    assert(retried_read(new, wait_retries, apndp, a, x));
                    return x;
                },
            }
            i = i + 1;
        }
        let ghost new = self.transfers().skip(start.len() as int);
        assert(self.transfers() =~= start + new);
        assert(retried_read(new, wait_retries, apndp, a, Err(Error::AckWait)));
        Err(Error::AckWait)
    }

    /// Here the actual hardware implementation for an SWD read is made.
    fn read_inner(&mut self, apndp: APnDP, a: DPRegister) -> (r: Result<u32, Error>)
        ensures
            final(self).transfers() == old(self).transfers().push(
                Transfer::Read { port: apndp, register: a, reply: r },
            ),
    ;

    /// Helper method over `write_inner` to retry during `AckWait`.
    fn write(&mut self, wait_retries: usize, apndp: APnDP, a: DPRegister, data: u32) -> (r: Result<
        (),
        Error,
    >)
        ensures
            exists|new: Seq<Transfer>|
                extends(old(self).transfers(), final(self).transfers(), new) && retried_write(
                    new,
                    wait_retries,
                    apndp,
                    a,
                    data,
                    r,
                ),
    {
        let ghost start = self.transfers();
        let mut i: usize = 0;
        while i < wait_retries
            invariant
                i <= wait_retries,
                start == old(self).transfers(),
                self.transfers().len() == start.len() + i,
                self.transfers().take(start.len() as int) == start,
                forall|k: int|
                    start.len() <= k < self.transfers().len() ==> #[trigger] self.transfers()[k]
                        == (Transfer::Write {
                        port: apndp,
                        register: a,
                        data,
                        reply: Err(Error::AckWait),
                    }),
            decreases wait_retries - i,
        {
            let reply = self.write_inner(apndp, a, data);
            proof {
                assert(self.transfers().take(start.len() as int) =~= start);
            }
            match settle(reply) {
                None => {},
                Some(x) => {
                    let ghost new = self.transfers().skip(start.len() as int);
                    assert(self.transfers() =~= start + new);
                    assert(retried_write(new, wait_retries, apndp, a, data, x));
                    return x;
                },
            }
            i = i + 1;
        }
        let ghost new = self.transfers().skip(start.len() as int);
        assert(self.transfers() =~= start + new);
        assert(retried_write(new, wait_retries, apndp, a, data, Err(Error::AckWait)));
        Err(Error::AckWait)
    }

    /// Here the actual hardware implementation for an SWD write is made.
    fn write_inner(&mut self, apndp: APnDP, a: DPRegister, data: u32) -> (r: Result<(), Error>)
        ensures
            final(self).transfers() == old(self).transfers().push(
                Transfer::Write { port: apndp, register: a, data, reply: r },
            ),
    ;

    /// Shorthand helper to read DP registers
    fn read_dp(&mut self, wait_retries: usize, a: DPRegister) -> (r: Result<u32, Error>)
        ensures
            exists|new: Seq<Transfer>|
                extends(old(self).transfers(), final(self).transfers(), new) && retried_read(
                    new,
                    wait_retries,
                    APnDP::DP,
                    a,
                    r,
                ),
    {
        self.read(wait_retries, APnDP::DP, a)
    }

    /// Shorthand helper to write DP registers
    fn write_dp(&mut self, wait_retries: usize, a: DPRegister, data: u32) -> (r: Result<(), Error>)
        ensures
            exists|new: Seq<Transfer>|
                extends(old(self).transfers(), final(self).transfers(), new) && retried_write(
                    new,
                    wait_retries,
                    APnDP::DP,
                    a,
                    data,
                    r,
                ),
    {
        self.write(wait_retries, APnDP::DP, a, data)
    }

    /// Shorthand helper to read AP registers
    fn read_ap(&mut self, wait_retries: usize, a: DPRegister) -> (r: Result<u32, Error>)
        ensures
            exists|new: Seq<Transfer>|
                extends(old(self).transfers(), final(self).transfers(), new) && retried_read(
                    new,
                    wait_retries,
                    APnDP::AP,
                    a,
                    r,
                ),
    {
        self.read(wait_retries, APnDP::AP, a)
    }
}

} // verus!
