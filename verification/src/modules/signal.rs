//! Signals by their Linux numbers.

use vstd::prelude::*;

verus! {

/// Hangup.
pub const SIGHUP: i32 = 1;

/// Interrupt from the keyboard.
pub const SIGINT: i32 = 2;

/// Quit from the keyboard.
pub const SIGQUIT: i32 = 3;

/// Kill, which cannot be blocked.
pub const SIGKILL: i32 = 9;

/// Alarm clock.
pub const SIGALRM: i32 = 14;

/// Termination.
pub const SIGTERM: i32 = 15;

/// A child stopped or terminated.
pub const SIGCHLD: i32 = 17;

/// Continue.
pub const SIGCONT: i32 = 18;

/// Stop, which cannot be blocked.
pub const SIGSTOP: i32 = 19;

/// Stop typed at the terminal.
pub const SIGTSTP: i32 = 20;

/// Terminal output of a background process.
pub const SIGTTOU: i32 = 22;

/// The window changed its size.
pub const SIGWINCH: i32 = 28;

/// `n` is the number of a standard signal of Linux.
pub open spec fn is_signal(n: i32) -> bool {
    1 <= n <= 31
}

/// `nix::sys::signal::Signal::try_from`: it knows the thirty-one standard signals of Linux and
/// keeps their numbers; any other number is refused.
#[verifier::external_body]
fn known_signal(raw: i32) -> (r: Option<i32>)
    ensures
        r == (if is_signal(raw) {
            Some(raw)
        } else {
            None
        }),
{
    nix::sys::signal::Signal::try_from(raw).ok().map(|s| s as i32)
}

/// What `nix::sys::signal::Signal::as_str` returns for the signal with this number.
pub uninterp spec fn signal_name(n: i32) -> Seq<char>;

/// `nix::sys::signal::Signal::as_str`: the name of a signal.
#[verifier::external_body]
fn name_of(n: i32) -> (r: String)
    requires
        is_signal(n),
    ensures
        r@ == signal_name(n),
{
    nix::sys::signal::Signal::try_from(n).unwrap().as_str().to_owned()
}

/// A standard signal.
#[derive(Debug, Clone, Copy, PartialEq, Eq)]
pub struct Signal {
    number: i32,
}

impl Signal {
    #[verifier::type_invariant]
    closed spec fn valid(self) -> bool {
        is_signal(self.number)
    }

    /// The number of the signal.
    pub closed spec fn raw(self) -> i32 {
        self.number
    }

    /// The signal with the number `raw`, if there is one.
    pub fn from_raw(raw: i32) -> (r: Option<Signal>)
        ensures
            match r {
                Some(s) => is_signal(raw) && s.raw() == raw,
                None => !is_signal(raw),
            },
    {
        match known_signal(raw) {
            Some(number) => Some(Signal { number }),
            None => None,
        }
    }

    /// The number of the signal.
    pub fn number(self) -> (r: i32)
        ensures
            r == self.raw(),
            is_signal(r),
    {
        proof {
            use_type_invariant(&self);
        }
        self.number
    }

    /// The name of the signal.
    pub fn name(self) -> (r: String)
        ensures
            r@ == signal_name(self.raw()),
    {
        proof {
            use_type_invariant(&self);
        }
        name_of(self.number)
    }

    /// Tells whether this is the signal with the number `raw`.
    pub fn is(self, raw: i32) -> (r: bool)
        ensures
            r == (self.raw() == raw),
    {
        self.number == raw
    }
}

} // verus!
