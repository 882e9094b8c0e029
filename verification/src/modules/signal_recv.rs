//! Signals that are received through a descriptor.
//!
//! A receiver blocks a set of signals on its thread and reads them, one record at a time, from
//! a descriptor that never blocks. `SIGKILL` and `SIGSTOP` cannot be blocked and are refused.

use vstd::prelude::*;

use nix::sys::signal::SigSet;

use crate::modules::signal;
use crate::modules::signal::Signal;
use crate::shared;
use crate::shared::{EBADF, EINTR, EINVAL, EIO};

verus! {

/// What `poll` reported for one descriptor.
#[derive(Debug, Clone, Copy, PartialEq, Eq, Structural)]
pub struct Revents {
    /// There is something to read.
    pub readable: bool,
    /// The descriptor has an error.
    pub error: bool,
    /// The other side hung up.
    pub hangup: bool,
    /// The descriptor is not open.
    pub invalid: bool,
}

/// One signal record of the kernel.
#[derive(Debug, Clone, Copy, PartialEq, Eq, Structural)]
pub struct SignalEvent {
    /// The number of the signal.
    pub signo: u32,
    /// The status that belongs to the signal.
    pub status: i32,
    /// The code of the signal.
    pub code: i32,
}

impl SignalEvent {
    /// The number of the signal as a signed number.
    pub open spec fn raw(self) -> int {
        shared::as_signed(self.signo)
    }

    /// The number of the signal as the kernel reported it.
    pub fn raw_signal(&self) -> (r: i32)
        ensures
            r == self.raw(),
    {
        shared::signed(self.signo)
    }

    /// The signal, if its number is one of the standard signals.
    pub fn signal(&self) -> (r: Option<Signal>)
        ensures
            match r {
                Some(s) => signal::is_signal(s.raw()) && s.raw() == self.raw(),
                None => !(1 <= self.raw() <= 31),
            },
    {
        Signal::from_raw(self.raw_signal())
    }

    /// The status that belongs to the signal: for `SIGCHLD` the exit status or signal of the
    /// child.
    pub fn status(&self) -> (r: i32)
        ensures
            r == self.status,
    {
        self.status
    }

    /// The code of the signal.
    pub fn code(&self) -> (r: i32)
        ensures
            r == self.code,
    {
        self.code
    }
}

/// `nix::sys::signal::SigSet`: a set of signals.
#[verifier::external_type_specification]
#[verifier::external_body]
pub struct ExSigSet(SigSet);

/// The numbers of the signals in a set.
pub uninterp spec fn members(set: SigSet) -> Set<int>;

/// `SigSet::empty`: a set without signals.
#[verifier::external_body]
fn empty_mask() -> (r: SigSet)
    ensures
        members(r) == Set::<int>::empty(),
{
    SigSet::empty()
}

/// `SigSet::add`: the set with one more signal.
#[verifier::external_body]
fn add_signal(set: &mut SigSet, n: i32)
    requires
        signal::is_signal(n),
    ensures
        members(*final(set)) == members(*old(set)).insert(n as int),
{
    set.add(nix::sys::signal::Signal::try_from(n).unwrap())
}

/// `s` can be blocked.
pub open spec fn blockable(s: Signal) -> bool {
    s.raw() != signal::SIGKILL && s.raw() != signal::SIGSTOP
}

/// The set of signals that a receiver for `signals` blocks. A signal that cannot be blocked is
/// refused as an invalid argument.
pub fn receiver_mask(signals: &Vec<Signal>) -> (r: Result<SigSet, i32>)
    ensures
        r is Ok <==> forall|i: int| 0 <= i < signals@.len() ==> blockable(#[trigger] signals@[i]),
        match r {
            Ok(mask) => forall|n: int|
                members(mask).contains(n) <==> exists|i: int|
                    0 <= i < signals@.len() && (#[trigger] signals@[i]).raw() == n,
            Err(e) => e == EINVAL,
        },
{
    let mut mask = empty_mask();
    let mut i: usize = 0;
    while i < signals.len()
        invariant
            i <= signals@.len(),
            forall|j: int| 0 <= j < i ==> blockable(#[trigger] signals@[j]),
            forall|n: int|
                members(mask).contains(n) <==> exists|j: int|
                    0 <= j < i && (#[trigger] signals@[j]).raw() == n,
        decreases signals.len() - i,
    {
        let n = signals[i].number();
        if n == signal::SIGKILL || n == signal::SIGSTOP {
            assert(!blockable(signals@[i as int]));
            return Err(EINVAL);
        }
        let ghost before = members(mask);
        add_signal(&mut mask, n);
        proof {
            let count = i + 1;
            assert forall|m: int|
                members(mask).contains(m) <==> exists|j: int|
                    0 <= j < count && (#[trigger] signals@[j]).raw() == m by {
                if m == n {
                    assert(signals@[i as int].raw() == m);
                } else if before.contains(m) {
                    let j = choose|j: int| 0 <= j < i && (#[trigger] signals@[j]).raw() == m;
                    assert(signals@[j].raw() == m);
                }
            }
        }
        i = i + 1;
    }
    Ok(mask)
}

/// Where the installation of a receiver stands.
#[derive(Debug, Clone, Copy, PartialEq, Eq, Structural)]
pub enum ReceiverStep {
    /// Block the signals, and keep the mask that was there before.
    Block,
    /// Open the descriptor.
    Open,
    /// Put the mask back that was there before; the installation failed with this error number.
    Restore(i32),
    /// The receiver is ready.
    Ready,
    /// There is no receiver, because of this error number.
    Fail(i32),
}

/// The step after `step`, whose call ended with `result`.
pub open spec fn receiver_after(step: ReceiverStep, result: Result<(), i32>) -> ReceiverStep {
    match (step, result) {
        (ReceiverStep::Block, Ok(_)) => ReceiverStep::Open,
        (ReceiverStep::Block, Err(e)) => ReceiverStep::Fail(e),
        (ReceiverStep::Open, Ok(_)) => ReceiverStep::Ready,
        (ReceiverStep::Open, Err(e)) => ReceiverStep::Restore(e),
        (ReceiverStep::Restore(e), _) => ReceiverStep::Fail(e),
        _ => step,
    }
}

/// The step after `step`, whose call ended with `result`.
pub fn receiver_next(step: ReceiverStep, result: Result<(), i32>) -> (r: ReceiverStep)
    ensures
        r == receiver_after(step, result),
{
    match (step, result) {
        (ReceiverStep::Block, Ok(_)) => ReceiverStep::Open,
        (ReceiverStep::Block, Err(e)) => ReceiverStep::Fail(e),
        (ReceiverStep::Open, Ok(_)) => ReceiverStep::Ready,
        (ReceiverStep::Open, Err(e)) => ReceiverStep::Restore(e),
        (ReceiverStep::Restore(e), _) => ReceiverStep::Fail(e),
        _ => step,
    }
}

/// The mask is put back if and only if it was changed and the descriptor could not be opened,
/// and the error of that is the one that is reported.
pub proof fn law_mask_restored(blocked: Result<(), i32>, opened: Result<(), i32>, put: Result<
    (),
    i32,
>)
    ensures
        ({
            let first = receiver_after(ReceiverStep::Block, blocked);
            let second = receiver_after(first, opened);
            let third = receiver_after(second, put);
            &&& second is Restore <==> blocked is Ok && opened is Err
            &&& third is Ready <==> blocked is Ok && opened is Ok
            &&& third == match (blocked, opened) {
                (Err(e), _) => ReceiverStep::Fail(e),
                (Ok(_), Err(e)) => ReceiverStep::Fail(e),
                _ => ReceiverStep::Ready,
            }
        }),
{
}

/// How to go on after a `poll` of the signal descriptor.
#[derive(Debug, Clone, Copy, PartialEq, Eq, Structural)]
pub enum WaitStep {
    /// Try to read a record again.
    Retry,
    /// Give up with this error number.
    Fail(i32),
}

/// Decides how to wait on after `poll` returned: interrupted waits are retried, and a broken
/// descriptor ends the wait.
pub fn after_poll(result: Result<Option<Revents>, i32>) -> (r: WaitStep)
    ensures
        r == (match result {
            Err(e) => if e == EINTR {
                WaitStep::Retry
            } else {
                WaitStep::Fail(e)
            },
            Ok(None) => WaitStep::Fail(EIO),
            Ok(Some(events)) => if events.error || events.hangup {
                WaitStep::Fail(EIO)
            } else if events.invalid {
                WaitStep::Fail(EBADF)
            } else {
                WaitStep::Retry
            },
        }),
{
    match result {
        Err(e) => {
            if e == EINTR {
                WaitStep::Retry
            } else {
                WaitStep::Fail(e)
            }
        },
        Ok(None) => WaitStep::Fail(EIO),
        Ok(Some(events)) => {
            if events.error || events.hangup {
                WaitStep::Fail(EIO)
            } else if events.invalid {
                WaitStep::Fail(EBADF)
            } else {
                WaitStep::Retry
            }
        },
    }
}

/// Two signals cannot be blocked, the one that kills and the one that stops.
pub proof fn law_blockable(s: Signal)
    ensures
        blockable(s) <==> s.raw() != 9 && s.raw() != 19,
{
}

/// The signals are blocked first, and the descriptor is opened then. A step that ends the
/// installation stays.
pub proof fn law_receiver_steps(result: Result<(), i32>, e: i32)
    ensures
        receiver_after(ReceiverStep::Block, Ok(())) == ReceiverStep::Open,
        receiver_after(ReceiverStep::Block, Err(e)) == ReceiverStep::Fail(e),
        receiver_after(ReceiverStep::Open, Ok(())) == ReceiverStep::Ready,
        receiver_after(ReceiverStep::Open, Err(e)) == ReceiverStep::Restore(e),
        receiver_after(ReceiverStep::Restore(e), result) == ReceiverStep::Fail(e),
        receiver_after(ReceiverStep::Ready, result) == ReceiverStep::Ready,
        receiver_after(ReceiverStep::Fail(e), result) == ReceiverStep::Fail(e),
{
}

} // verus!
