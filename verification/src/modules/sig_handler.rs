//! Signals that a supervisor catches and passes on to the process group of its child.
//!
//! The dispositions are changed one after the other. If one cannot be changed, those that were
//! changed before are restored, the latest first, and so they are in the end.

use vstd::prelude::*;

use crate::modules::fg_handler;
use crate::modules::fg_handler::{Foreground, ForegroundHandler};
use crate::modules::signal;
use crate::modules::signal::Signal;

verus! {

/// What is done with a signal.
#[derive(Debug, Clone, Copy, PartialEq, Eq, Structural)]
pub enum Disposition {
    /// It is caught, to be passed on.
    Catch,
    /// It is ignored.
    Ignore,
}

/// The signals whose dispositions are changed, in order: those that are passed on, then
/// `SIGTTOU`, which has to be ignored while the terminal is handed over.
pub open spec fn changed_signals() -> Seq<(i32, Disposition)> {
    seq![
        (signal::SIGHUP, Disposition::Catch),
        (signal::SIGINT, Disposition::Catch),
        (signal::SIGQUIT, Disposition::Catch),
        (signal::SIGTERM, Disposition::Catch),
        (signal::SIGALRM, Disposition::Catch),
        (signal::SIGTSTP, Disposition::Catch),
        (signal::SIGCONT, Disposition::Catch),
        (signal::SIGWINCH, Disposition::Catch),
        (signal::SIGTTOU, Disposition::Ignore),
    ]
}

/// The signals to restore after the first `n` were changed, the latest first.
pub open spec fn restored_signals(n: int) -> Seq<i32> {
    changed_signals().take(n).map_values(|c: (i32, Disposition)| c.0).reverse()
}

/// The signal handling of a supervisor.
#[derive(Debug)]
pub struct SignalHandler {
    changed: usize,
    foreground: ForegroundHandler,
}

/// The signals whose dispositions are changed.
fn changes() -> (r: Vec<(i32, Disposition)>)
    ensures
        r@ == changed_signals(),
{
    vec![
        (signal::SIGHUP, Disposition::Catch),
        (signal::SIGINT, Disposition::Catch),
        (signal::SIGQUIT, Disposition::Catch),
        (signal::SIGTERM, Disposition::Catch),
        (signal::SIGALRM, Disposition::Catch),
        (signal::SIGTSTP, Disposition::Catch),
        (signal::SIGCONT, Disposition::Catch),
        (signal::SIGWINCH, Disposition::Catch),
        (signal::SIGTTOU, Disposition::Ignore),
    ]
}

impl SignalHandler {
    #[verifier::type_invariant]
    closed spec fn valid(self) -> bool {
        self.changed <= 9
    }

    /// How many dispositions were changed.
    pub closed spec fn changed(self) -> int {
        self.changed as int
    }

    /// The terminal that was handed over.
    pub closed spec fn foreground(self) -> Option<Foreground> {
        self.foreground.group()
    }

    /// A handler that has changed nothing yet.
    pub fn new() -> (r: Self)
        ensures
            r.changed() == 0,
            r.foreground() is None,
    {
        SignalHandler { changed: 0, foreground: ForegroundHandler::install(0, None, 0, false) }
    }

    /// The next signal to change and what to do with it; `None` if all are changed.
    pub fn next(&self) -> (r: Option<(i32, Disposition)>)
        ensures
            match r {
                Some(c) => self.changed() < changed_signals().len() && c
                    == changed_signals()[self.changed()],
                None => self.changed() == changed_signals().len(),
            },
    {
        proof {
            use_type_invariant(self);
        }
        let all = changes();
        if self.changed < all.len() {
            Some(all[self.changed])
        } else {
            None
        }
    }

    /// Goes on after the attempt to change the next signal. With an error the signals to
    /// restore come back beside it, the latest first.
    pub fn set(&mut self, result: Result<(), i32>) -> (r: Result<(), (i32, Vec<i32>)>)
        requires
            old(self).changed() < changed_signals().len(),
        ensures
            final(self).foreground() == old(self).foreground(),
            match result {
                Ok(_) => r is Ok && final(self).changed() == old(self).changed() + 1,
                Err(e) => r matches Err((code, signals)) && code == e && signals@
                    == restored_signals(old(self).changed()) && final(self).changed()
                    == old(self).changed(),
            },
    {
        proof {
            use_type_invariant(&*self);
        }
        match result {
            Ok(_) => {
                self.changed = self.changed + 1;
                Ok(())
            },
            Err(e) => Err((e, self.restored())),
        }
    }

    /// The signals to restore, the latest first.
    pub fn restored(&self) -> (r: Vec<i32>)
        ensures
            r@ == restored_signals(self.changed()),
    {
        proof {
            use_type_invariant(self);
        }
        let all = changes();
        let n = self.changed;
        let mut v: Vec<i32> = Vec::new();
        let mut i: usize = n;
        while i > 0
            invariant
                i <= n <= all@.len(),
                all@ == changed_signals(),
                v@.len() == n - i,
                forall|j: int| 0 <= j < n - i ==> v@[j] == (#[trigger] all@[n - 1 - j]).0,
            decreases i,
        {
            i = i - 1;
            v.push(all[i].0);
            assert forall|j: int| 0 <= j < n - i implies v@[j] == (#[trigger] all@[n - 1 - j]).0 by {
                if j == n - i - 1 {
                    assert(v@[j] == all@[i as int].0);
                }
            }
        }
        assert forall|j: int| 0 <= j < n implies v@[j] == restored_signals(n as int)[j] by {
            assert(v@[j] == all@[n - 1 - j].0);
        }
        assert(v@ =~= restored_signals(n as int));
        v
    }

    /// Ends the installation: the child has the terminal, unless it could not be handed over.
    pub fn install(
        self,
        terminal: i32,
        owner: Option<i32>,
        child: i32,
        transferred: bool,
    ) -> (r: Self)
        requires
            self.changed() == changed_signals().len(),
        ensures
            r.changed() == self.changed(),
            r.foreground() == fg_handler::handed_over(terminal, owner, child, transferred),
    {
        proof {
            use_type_invariant(&self);
        }
        SignalHandler {
            changed: self.changed,
            foreground: ForegroundHandler::install(terminal, owner, child, transferred),
        }
    }

    /// The terminal and the process group that it is given back to.
    pub fn transfer_to_parent(&self) -> (r: Option<(i32, i32)>)
        ensures
            r == (match self.foreground() {
                Some(g) => Some((g.terminal, g.owner)),
                None => None,
            }),
    {
        self.foreground.transfer_to_parent()
    }

    /// The terminal and the process group of the child that it is given to.
    pub fn transfer_to_child(&self) -> (r: Option<(i32, i32)>)
        ensures
            r == (match self.foreground() {
                Some(g) => Some((g.terminal, g.child)),
                None => None,
            }),
    {
        self.foreground.transfer_to_child()
    }

    /// Where a caught signal goes: to the whole process group `group`, which has a negative
    /// number there. `raw` is the number that was caught last; nothing is passed on unless it
    /// is a signal.
    pub fn forward_signal(raw: i32, group: i32) -> (r: Option<(i32, Signal)>)
        requires
            group > i32::MIN,
        ensures
            match r {
                Some((to, s)) => signal::is_signal(raw) && to == -group && s.raw() == raw,
                None => !signal::is_signal(raw),
            },
    {
        match Signal::from_raw(raw) {
            Some(s) => Some((-group, s)),
            None => None,
        }
    }
}

/// However far the changes got, every changed disposition is restored once, the latest first,
/// and no other is.
pub proof fn law_dispositions_restored(n: int)
    requires
        0 <= n <= changed_signals().len(),
    ensures
        restored_signals(n).len() == n,
        forall|i: int|
            0 <= i < n ==> (#[trigger] changed_signals()[i]).0 == restored_signals(n)[n - 1 - i],
        forall|i: int, j: int|
            0 <= i < j < n ==> #[trigger] restored_signals(n)[i] != #[trigger] restored_signals(
                n,
            )[j],
{
    let all = changed_signals();
    assert forall|i: int| 0 <= i < n implies (#[trigger] all[i]).0 == restored_signals(n)[n - 1
        - i] by {
        assert(all.take(n)[i] == all[i]);
    }
    assert forall|i: int, j: int| 0 <= i < j < n implies #[trigger] restored_signals(n)[i]
        != #[trigger] restored_signals(n)[j] by {
        assert(restored_signals(n)[i] == all[n - 1 - i].0);
        assert(restored_signals(n)[j] == all[n - 1 - j].0);
    }
}

/// The signals that ask a process to end, to stop or to go on, the alarm and the change of the
/// window are caught; the one for writing from the background is ignored, and that is the last
/// change. Every other signal stays as it is.
pub proof fn law_changed_signals(n: i32, d: Disposition)
    ensures
        changed_signals().contains((n, d)) <==> (d == Disposition::Catch && (n == 1 || n == 2 || n
            == 3 || n == 14 || n == 15 || n == 18 || n == 20 || n == 28)) || (d
            == Disposition::Ignore && n == 22),
        changed_signals().len() == 9,
        changed_signals().last() == (22i32, Disposition::Ignore),
{
    let all = changed_signals();
    assert(all[0] == (1i32, Disposition::Catch));
    assert(all[1] == (2i32, Disposition::Catch));
    assert(all[2] == (3i32, Disposition::Catch));
    assert(all[3] == (15i32, Disposition::Catch));
    assert(all[4] == (14i32, Disposition::Catch));
    assert(all[5] == (20i32, Disposition::Catch));
    assert(all[6] == (18i32, Disposition::Catch));
    assert(all[7] == (28i32, Disposition::Catch));
    assert(all[8] == (22i32, Disposition::Ignore));
    if all.contains((n, d)) {
        let i = all.index_of((n, d));
        assert(all[i] == (n, d));
    }
}

} // verus!
