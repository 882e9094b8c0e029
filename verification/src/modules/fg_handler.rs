//! Which process group owns the terminal while a child is supervised.
//!
//! The group of the child gets the terminal, and the group that had it before gets it back.
//! Meanwhile `SIGTTOU` is ignored, so that a supervisor in the background may hand the terminal
//! over. Without a terminal nothing is handed over.

use vstd::prelude::*;

verus! {

/// The terminal that was handed over.
#[derive(Debug, Clone, Copy, PartialEq, Eq, Structural)]
pub struct Foreground {
    /// The descriptor of the terminal.
    pub terminal: i32,
    /// The process group that owned it.
    pub owner: i32,
    /// The process group of the child.
    pub child: i32,
}

/// The foreground of one supervised child.
#[derive(Debug, Clone, Copy, PartialEq, Eq, Structural)]
pub struct ForegroundHandler {
    group: Option<Foreground>,
}

/// What is done when the supervision ends.
#[derive(Debug, Clone, Copy, PartialEq, Eq, Structural)]
pub enum ForegroundCall {
    /// Let the process group own the terminal: the descriptor and the group.
    SetGroup(i32, i32),
    /// Treat `SIGTTOU` as before.
    RestoreSigttou,
}

/// The terminal that was handed over: the owner could be found out, and the child got it.
pub open spec fn handed_over(
    terminal: i32,
    owner: Option<i32>,
    child: i32,
    transferred: bool,
) -> Option<Foreground> {
    match owner {
        Some(group) => if transferred {
            Some(Foreground { terminal, owner: group, child })
        } else {
            None
        },
        None => None,
    }
}

impl ForegroundHandler {
    /// The terminal that was handed over.
    pub closed spec fn group(self) -> Option<Foreground> {
        self.group
    }

    /// The handler for the terminal at `terminal`, which the process group `owner` had, if
    /// that could be found out, and which was given to the group of `child`, if that could be
    /// done. Neither failure is an error.
    pub fn install(terminal: i32, owner: Option<i32>, child: i32, transferred: bool) -> (r: Self)
        ensures
            r.group() == handed_over(terminal, owner, child, transferred),
    {
        let group = match owner {
            Some(group) => {
                if transferred {
                    Some(Foreground { terminal, owner: group, child })
                } else {
                    None
                }
            },
            None => None,
        };
        ForegroundHandler { group }
    }

    /// The terminal and the process group that it is given back to.
    pub fn transfer_to_parent(&self) -> (r: Option<(i32, i32)>)
        ensures
            r == (match self.group() {
                Some(g) => Some((g.terminal, g.owner)),
                None => None,
            }),
    {
        match self.group {
            Some(g) => Some((g.terminal, g.owner)),
            None => None,
        }
    }

    /// The terminal and the process group of the child that it is given to.
    pub fn transfer_to_child(&self) -> (r: Option<(i32, i32)>)
        ensures
            r == (match self.group() {
                Some(g) => Some((g.terminal, g.child)),
                None => None,
            }),
    {
        match self.group {
            Some(g) => Some((g.terminal, g.child)),
            None => None,
        }
    }

    /// What ends the supervision: the terminal is given back before `SIGTTOU` counts again.
    pub fn finish(&self) -> (r: Vec<ForegroundCall>)
        ensures
            r@ == finish_calls(self.group()),
    {
        let mut v: Vec<ForegroundCall> = Vec::new();
        if let Some(g) = self.group {
            v.push(ForegroundCall::SetGroup(g.terminal, g.owner));
        }
        v.push(ForegroundCall::RestoreSigttou);
        assert(v@ =~= finish_calls(self.group()));
        v
    }
}

/// What ends the supervision.
pub open spec fn finish_calls(group: Option<Foreground>) -> Seq<ForegroundCall> {
    match group {
        Some(g) => seq![
            ForegroundCall::SetGroup(g.terminal, g.owner),
            ForegroundCall::RestoreSigttou,
        ],
        None => seq![ForegroundCall::RestoreSigttou],
    }
}

/// A terminal that was handed over goes back to the group that owned it, and only then does
/// `SIGTTOU` count again. A terminal that was not handed over is never touched.
pub proof fn law_foreground_restored(
    terminal: i32,
    owner: Option<i32>,
    child: i32,
    transferred: bool,
)
    ensures
        ({
            let calls = finish_calls(handed_over(terminal, owner, child, transferred));
            &&& calls.last() == ForegroundCall::RestoreSigttou
            &&& owner matches Some(group) ==> transferred ==> calls[0]
                == ForegroundCall::SetGroup(terminal, group) && calls.len() == 2
            &&& owner is None || !transferred ==> calls.len() == 1
        }),
{
}

/// The terminal counts as handed over if it is known who had it and the child got it. What is
/// kept then is the terminal, its owner and the child.
pub proof fn law_handed_over(terminal: i32, owner: i32, child: i32, transferred: bool)
    ensures
        handed_over(terminal, None, child, transferred) is None,
        handed_over(terminal, Some(owner), child, false) is None,
        handed_over(terminal, Some(owner), child, true) matches Some(g) && g.terminal == terminal
            && g.owner == owner && g.child == child,
{
}

} // verus!
