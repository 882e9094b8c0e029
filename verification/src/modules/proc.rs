//! How a command is started, and how a child is watched until it ends.

use vstd::prelude::*;
use vstd::string::*;

use crate::modules::signal;
use crate::modules::signal::Signal;
use crate::modules::signal_recv::SignalEvent;
use crate::modules::user::{Account, AccountView};
use crate::shared::{Backend, Features, ECHILD, EINTR};
use crate::text;

verus! {

// ---------------------------------------------------------------------------------------------
// Watching a child
// ---------------------------------------------------------------------------------------------

/// What `waitpid` reported of a child.
#[derive(Debug, Clone, Copy)]
pub enum WaitStatus {
    /// It exited with this status.
    Exited(i32),
    /// A signal ended it.
    Signaled(Signal),
    /// A signal stopped it.
    Stopped(Signal),
    /// Nothing changed.
    StillAlive,
    /// It changed in another way.
    Other,
}

/// The status with which a shell reports a process that a signal ended.
pub open spec fn signal_status(s: Signal) -> int {
    128 + s.raw()
}

/// The signals that a supervisor receives while it watches a child.
pub fn received_signals() -> (r: Vec<i32>)
    ensures
        r@ == seq![
            signal::SIGCHLD,
            signal::SIGHUP,
            signal::SIGINT,
            signal::SIGQUIT,
            signal::SIGTERM,
            signal::SIGALRM,
            signal::SIGTSTP,
            signal::SIGCONT,
            signal::SIGWINCH,
        ],
{
    vec![
        signal::SIGCHLD,
        signal::SIGHUP,
        signal::SIGINT,
        signal::SIGQUIT,
        signal::SIGTERM,
        signal::SIGALRM,
        signal::SIGTSTP,
        signal::SIGCONT,
        signal::SIGWINCH,
    ]
}

/// The next thing that a supervisor does.
#[derive(Debug, Clone, Copy)]
pub enum WatchStep {
    /// Wait for the next signal.
    NextSignal,
    /// Ask, without waiting, what became of the child.
    CheckChild,
    /// Send a signal: to whom, and which.
    Send(i32, Signal),
    /// The child was stopped by this signal: stop too, and check the child again afterwards.
    Suspend(Signal),
    /// Exit with this status.
    Exit(i32),
    /// Give up with this error number.
    Fail(i32),
}

/// What a `WatchStep` says.
pub enum WatchView {
    /// See `WatchStep::NextSignal`.
    NextSignal,
    /// See `WatchStep::CheckChild`.
    CheckChild,
    /// See `WatchStep::Send`.
    Send(int, i32),
    /// See `WatchStep::Suspend`.
    Suspend(i32),
    /// See `WatchStep::Exit`.
    Exit(int),
    /// See `WatchStep::Fail`.
    Fail(i32),
}

impl View for WatchStep {
    type V = WatchView;

    open spec fn view(&self) -> WatchView {
        match *self {
            WatchStep::NextSignal => WatchView::NextSignal,
            WatchStep::CheckChild => WatchView::CheckChild,
            WatchStep::Send(to, s) => WatchView::Send(to as int, s.raw()),
            WatchStep::Suspend(s) => WatchView::Suspend(s.raw()),
            WatchStep::Exit(code) => WatchView::Exit(code as int),
            WatchStep::Fail(e) => WatchView::Fail(e),
        }
    }
}

/// What happens to a supervisor.
pub enum WatchEvent {
    /// A signal with this number arrived.
    Signal(int),
    /// What became of the child, or the error number of the question.
    Child(Result<WaitStatus, i32>),
    /// What the supervisor did is done.
    Done,
}

/// What a supervisor of the child `pid` does when a signal arrives: it looks after the child
/// when the child changed, and passes every other signal on to the process group of the child.
pub open spec fn signal_step(raw: int, pid: int) -> WatchView {
    if !(1 <= raw <= 31) {
        WatchView::NextSignal
    } else if raw == signal::SIGCHLD {
        WatchView::CheckChild
    } else {
        WatchView::Send(-pid, raw as i32)
    }
}

/// What a supervisor does when it knows what became of the child.
pub open spec fn child_step(result: Result<WaitStatus, i32>) -> WatchView {
    match result {
        Ok(WaitStatus::Exited(code)) => WatchView::Exit(code as int),
        Ok(WaitStatus::Signaled(s)) => WatchView::Exit(signal_status(s)),
        Ok(WaitStatus::Stopped(s)) => WatchView::Suspend(s.raw()),
        Ok(WaitStatus::StillAlive) => WatchView::NextSignal,
        Ok(WaitStatus::Other) => WatchView::CheckChild,
        Err(e) => if e == EINTR {
            WatchView::CheckChild
        } else if e == ECHILD {
            WatchView::Exit(1)
        } else {
            WatchView::Fail(e)
        },
    }
}

/// What a supervisor of the child `pid` does next, after `step`, when `event` happens.
pub open spec fn watch_next(step: WatchView, event: WatchEvent, pid: int) -> WatchView {
    match (step, event) {
        (WatchView::NextSignal, WatchEvent::Signal(raw)) => signal_step(raw, pid),
        (WatchView::CheckChild, WatchEvent::Child(result)) => child_step(result),
        (WatchView::Send(_, _), WatchEvent::Done) => WatchView::NextSignal,
        (WatchView::Suspend(_), WatchEvent::Done) => WatchView::CheckChild,
        _ => step,
    }
}

/// What a supervisor of the child `pid` does after `events`. It begins by checking the child,
/// which may have ended before any signal could arrive.
pub open spec fn watch_after(events: Seq<WatchEvent>, pid: int) -> WatchView
    decreases events.len(),
{
    if events.len() == 0 {
        WatchView::CheckChild
    } else {
        watch_next(watch_after(events.drop_last(), pid), events.last(), pid)
    }
}

/// A supervisor of one child.
#[derive(Debug)]
pub struct Watcher {
    pid: i32,
    step: WatchStep,
}

impl Watcher {
    /// The process number of the child.
    pub closed spec fn pid(self) -> int {
        self.pid as int
    }

    /// What to do now.
    pub closed spec fn now(self) -> WatchView {
        self.step@
    }

    #[verifier::type_invariant]
    closed spec fn valid(self) -> bool {
        self.pid > i32::MIN
    }

    /// A supervisor of the child `pid`.
    pub fn watch_process(pid: i32) -> (r: Self)
        requires
            pid > i32::MIN,
        ensures
            r.pid() == pid,
            r.now() == watch_after(Seq::empty(), pid as int),
    {
        Watcher { pid, step: WatchStep::CheckChild }
    }

    /// What to do now.
    pub fn step(&self) -> (r: WatchStep)
        ensures
            r@ == self.now(),
    {
        self.step
    }

    /// Goes on with a signal.
    pub fn on_signal(&mut self, event: &SignalEvent)
        requires
            old(self).now() is NextSignal,
        ensures
            final(self).pid() == old(self).pid(),
            final(self).now() == watch_next(
                old(self).now(),
                WatchEvent::Signal(event.raw()),
                old(self).pid(),
            ),
    {
        proof {
            use_type_invariant(&*self);
        }
        let pid = self.pid;
        self.step = match event.signal() {
            None => WatchStep::NextSignal,
            Some(s) => {
                if s.is(signal::SIGCHLD) {
                    WatchStep::CheckChild
                } else {
                    WatchStep::Send(-pid, s)
                }
            },
        };
    }

    /// Goes on with what became of the child.
    pub fn on_child(&mut self, result: Result<WaitStatus, i32>)
        requires
            old(self).now() is CheckChild,
        ensures
            final(self).pid() == old(self).pid(),
            final(self).now() == watch_next(
                old(self).now(),
                WatchEvent::Child(result),
                old(self).pid(),
            ),
            result matches Ok(WaitStatus::Exited(code)) ==> final(self).now() == WatchView::Exit(
                code as int,
            ),
            result matches Ok(WaitStatus::Signaled(s)) ==> final(self).now() == WatchView::Exit(
                128 + s.raw(),
            ),
    {
        proof {
            use_type_invariant(&*self);
        }
        self.step = match result {
            Ok(WaitStatus::Exited(code)) => WatchStep::Exit(code),
            Ok(WaitStatus::Signaled(s)) => WatchStep::Exit(128 + s.number()),
            Ok(WaitStatus::Stopped(s)) => WatchStep::Suspend(s),
            Ok(WaitStatus::StillAlive) => WatchStep::NextSignal,
            Ok(WaitStatus::Other) => WatchStep::CheckChild,
            Err(e) => {
                if e == EINTR {
                    WatchStep::CheckChild
                } else if e == ECHILD {
                    WatchStep::Exit(1)
                } else {
                    WatchStep::Fail(e)
                }
            },
        };
    }

    /// Goes on after a signal was sent or the supervisor was stopped and continued.
    pub fn on_done(&mut self)
        ensures
            final(self).pid() == old(self).pid(),
            final(self).now() == watch_next(old(self).now(), WatchEvent::Done, old(self).pid()),
    {
        proof {
            use_type_invariant(&*self);
        }
        self.step = match self.step {
            WatchStep::Send(_, _) => WatchStep::NextSignal,
            WatchStep::Suspend(_) => WatchStep::CheckChild,
            other => other,
        };
    }

    /// What a supervisor does to stop together with its child.
    pub fn suspension(&self, stopped_by: Signal) -> (r: Vec<SuspendCall>)
        ensures
            r@.map_values(|c: SuspendCall| c@) == suspend_calls(self.pid(), stopped_by.raw()),
    {
        proof {
            use_type_invariant(self);
        }
        let mut message = "child stopped by ".to_owned();
        message.append(stopped_by.name().as_str());
        let mut v: Vec<SuspendCall> = Vec::new();
        v.push(SuspendCall::Print(message));
        v.push(SuspendCall::TransferToParent);
        v.push(SuspendCall::Raise(signal::SIGSTOP));
        v.push(SuspendCall::TransferToChild);
        v.push(SuspendCall::Send(-self.pid, signal::SIGCONT));
        assert(v@.map_values(|c: SuspendCall| c@) =~= suspend_calls(self.pid(), stopped_by.raw()));
        v
    }
}

/// One thing that a supervisor does to stop together with its child.
#[derive(Debug)]
pub enum SuspendCall {
    /// Print a message.
    Print(String),
    /// Give the terminal back.
    TransferToParent,
    /// Send a signal to itself.
    Raise(i32),
    /// Give the terminal to the child.
    TransferToChild,
    /// Send a signal: to whom, and which.
    Send(i32, i32),
}

/// What a `SuspendCall` says.
#[verifier::ext_equal]
pub enum SuspendView {
    /// See `SuspendCall::Print`.
    Print(Seq<char>),
    /// See `SuspendCall::TransferToParent`.
    TransferToParent,
    /// See `SuspendCall::Raise`.
    Raise(i32),
    /// See `SuspendCall::TransferToChild`.
    TransferToChild,
    /// See `SuspendCall::Send`.
    Send(int, i32),
}

impl View for SuspendCall {
    type V = SuspendView;

    open spec fn view(&self) -> SuspendView {
        match *self {
            SuspendCall::Print(s) => SuspendView::Print(s@),
            SuspendCall::TransferToParent => SuspendView::TransferToParent,
            SuspendCall::Raise(n) => SuspendView::Raise(n),
            SuspendCall::TransferToChild => SuspendView::TransferToChild,
            SuspendCall::Send(to, n) => SuspendView::Send(to as int, n),
        }
    }
}

/// What a supervisor does to stop together with its child: it reports the stop, gives the
/// terminal back and stops itself. Once it is continued, the child gets the terminal and goes
/// on.
pub open spec fn suspend_calls(pid: int, stopped_by: i32) -> Seq<SuspendView> {
    seq![
        SuspendView::Print("child stopped by "@ + signal::signal_name(stopped_by)),
        SuspendView::TransferToParent,
        SuspendView::Raise(signal::SIGSTOP),
        SuspendView::TransferToChild,
        SuspendView::Send(-pid, signal::SIGCONT),
    ]
}

/// A supervisor ends only through its child: with the exit status of the child, with the status
/// that stands for the signal that ended it, with one if the child is gone, or with the error of
/// the question. No signal ends it, whatever arrives.
pub proof fn law_watch_ends(events: Seq<WatchEvent>, pid: int)
    requires
        watch_after(events, pid) is Exit || watch_after(events, pid) is Fail,
    ensures
        exists|i: int|
            0 <= i < events.len() && watch_after(events.take(i), pid) is CheckChild && (
            #[trigger] events[i] matches WatchEvent::Child(result) && child_step(result)
                == watch_after(events, pid)),
    decreases events.len(),
{
    let before = events.drop_last();
    let n = before.len() as int;
    assert(events.take(n) =~= before);
    assert(events[n] == events.last());
    if watch_after(before, pid) is Exit || watch_after(before, pid) is Fail {
        law_watch_ends(before, pid);
        let i = choose|i: int|
            0 <= i < before.len() && watch_after(before.take(i), pid) is CheckChild && (
            #[trigger] before[i] matches WatchEvent::Child(result) && child_step(result)
                == watch_after(before, pid));
        assert(events.take(i) =~= before.take(i));
        assert(events[i] == before[i]);
    }
}

/// Every signal but the one that tells of the child goes to the process group of the child, and
/// then the supervisor waits for the next one.
pub proof fn law_signals_forwarded(raw: int, pid: int)
    requires
        1 <= raw <= 31,
        raw != signal::SIGCHLD,
    ensures
        ({
            let sent = watch_next(WatchView::NextSignal, WatchEvent::Signal(raw), pid);
            &&& sent == WatchView::Send(-pid, raw as i32)
            &&& watch_next(sent, WatchEvent::Done, pid) is NextSignal
        }),
{
}

// ---------------------------------------------------------------------------------------------
// Starting the command
// ---------------------------------------------------------------------------------------------

/// One step of becoming the command.
#[derive(Debug)]
pub enum ExecCall {
    /// Remove what must not be inherited from the environment.
    CleanEnvironment,
    /// Give up all supplementary groups.
    ClearGroups,
    /// Take the supplementary groups of a user, with one group more.
    InitGroups(String, u32),
    /// Set the real, the effective and the saved group.
    SetResGid(u32, u32, u32),
    /// Set the real, the effective and the saved user.
    SetResUid(u32, u32, u32),
    /// Be sent this signal when the parent ends.
    ParentExitSignal(i32),
    /// End if the parent has changed.
    CheckParent,
    /// Change the working directory.
    ChangeDir(String),
    /// Run the command.
    Exec,
}

/// What an `ExecCall` says.
#[verifier::ext_equal]
pub enum ExecView {
    /// See `ExecCall::CleanEnvironment`.
    CleanEnvironment,
    /// See `ExecCall::ClearGroups`.
    ClearGroups,
    /// See `ExecCall::InitGroups`.
    InitGroups(Seq<char>, u32),
    /// See `ExecCall::SetResGid`.
    SetResGid(u32, u32, u32),
    /// See `ExecCall::SetResUid`.
    SetResUid(u32, u32, u32),
    /// See `ExecCall::ParentExitSignal`.
    ParentExitSignal(i32),
    /// See `ExecCall::CheckParent`.
    CheckParent,
    /// See `ExecCall::ChangeDir`.
    ChangeDir(Seq<char>),
    /// See `ExecCall::Exec`.
    Exec,
}

impl View for ExecCall {
    type V = ExecView;

    open spec fn view(&self) -> ExecView {
        match *self {
            ExecCall::CleanEnvironment => ExecView::CleanEnvironment,
            ExecCall::ClearGroups => ExecView::ClearGroups,
            ExecCall::InitGroups(name, gid) => ExecView::InitGroups(name@, gid),
            ExecCall::SetResGid(r, e, s) => ExecView::SetResGid(r, e, s),
            ExecCall::SetResUid(r, e, s) => ExecView::SetResUid(r, e, s),
            ExecCall::ParentExitSignal(n) => ExecView::ParentExitSignal(n),
            ExecCall::CheckParent => ExecView::CheckParent,
            ExecCall::ChangeDir(dir) => ExecView::ChangeDir(dir@),
            ExecCall::Exec => ExecView::Exec,
        }
    }
}

/// What a list of calls says.
pub open spec fn exec_views(v: Seq<ExecCall>) -> Seq<ExecView> {
    v.map_values(|c: ExecCall| c@)
}

/// The group and the user to become: those of the target where the command is run directly, and
/// otherwise those of the superuser, who is asked to run it as the target.
pub open spec fn identity(target: AccountView, features: Features) -> (u32, u32) {
    if features.backend == Backend::Scopex {
        (target.group.gid, target.user.uid)
    } else {
        (0, 0)
    }
}

/// The steps of changing the identity. The groups are changed before the user, which takes away
/// the right to change them, and the ids of the caller are kept as the saved ones.
pub open spec fn identity_calls(
    user: AccountView,
    target: AccountView,
    features: Features,
) -> Seq<ExecView> {
    let (gid, uid) = identity(target, features);
    seq![ExecView::CleanEnvironment, ExecView::ClearGroups] + (if features.backend
        == Backend::Scopex {
        seq![ExecView::InitGroups(target.user.name, gid)]
    } else {
        Seq::empty()
    }) + seq![
        ExecView::SetResGid(gid, gid, user.group.gid),
        ExecView::SetResUid(uid, uid, user.user.uid),
    ]
}

/// The steps between the change of the identity and the command.
pub open spec fn scope_calls(cwd: Option<Seq<char>>, features: Features) -> Seq<ExecView> {
    (if features.session() {
        seq![ExecView::ParentExitSignal(signal::SIGKILL), ExecView::CheckParent]
    } else {
        Seq::empty()
    }) + (if features.backend == Backend::Scopex && cwd is Some {
        seq![ExecView::ChangeDir(cwd->Some_0)]
    } else {
        Seq::empty()
    })
}

/// The steps of becoming the command.
pub open spec fn exec_calls(
    user: AccountView,
    target: AccountView,
    cwd: Option<Seq<char>>,
    features: Features,
) -> Seq<ExecView> {
    identity_calls(user, target, features) + scope_calls(cwd, features) + seq![ExecView::Exec]
}

/// The steps of becoming the command. The working directory counts only where the command is
/// run directly.
pub fn exec(user: &Account, target: &Account, cwd: Option<String>, features: Features) -> (r: Vec<
    ExecCall,
>)
    ensures
        exec_views(r@) == exec_calls(
            user@,
            target@,
            text::opt_view(cwd),
            features,
        ),
{
    let scopex = match features.backend {
        Backend::Scopex => true,
        _ => false,
    };
    let gid: u32 = if scopex {
        target.gid()
    } else {
        0
    };
    let uid: u32 = if scopex {
        target.uid()
    } else {
        0
    };
    let ghost dir = text::opt_view(cwd);
    let mut v: Vec<ExecCall> = Vec::new();
    v.push(ExecCall::CleanEnvironment);
    v.push(ExecCall::ClearGroups);
    if scopex {
        v.push(ExecCall::InitGroups(target.name().to_owned(), gid));
    }
    v.push(ExecCall::SetResGid(gid, gid, user.gid()));
    v.push(ExecCall::SetResUid(uid, uid, user.uid()));
    assert(exec_views(v@) =~= identity_calls(user@, target@, features));
    if features.has_session() {
        v.push(ExecCall::ParentExitSignal(signal::SIGKILL));
        v.push(ExecCall::CheckParent);
    }
    if scopex {
        if let Some(d) = cwd {
            v.push(ExecCall::ChangeDir(d));
        }
    }
    assert(exec_views(v@) =~= identity_calls(user@, target@, features) + scope_calls(
        dir,
        features,
    ));
    v.push(ExecCall::Exec);
    assert(exec_views(v@) =~= exec_calls(user@, target@, dir, features));
    v
}

/// Tells whether the supervisor went away while the command was prepared.
pub fn supervisor_gone(before: i32, now: i32) -> (r: bool)
    ensures
        r == (before != now),
{
    now != before
}

/// A call that changes who the process is or which groups it has.
pub open spec fn changes_identity(c: ExecView) -> bool {
    c is ClearGroups || c is InitGroups || c is SetResGid || c is SetResUid
}

/// The command is run last, and only once. Before it the environment is cleaned, the groups of
/// the caller are given up, and the group and then the user are changed; after the change of the
/// user nothing about the identity changes any more.
pub proof fn law_exec_order(
    user: AccountView,
    target: AccountView,
    cwd: Option<Seq<char>>,
    features: Features,
)
    ensures
        ({
            let calls = exec_calls(user, target, cwd, features);
            let (gid, uid) = identity(target, features);
            let k = if features.backend == Backend::Scopex {
                3int
            } else {
                2int
            };
            &&& calls.len() > k + 2
            &&& calls[0] == ExecView::CleanEnvironment
            &&& calls[1] == ExecView::ClearGroups
            &&& features.backend == Backend::Scopex ==> calls[2] == ExecView::InitGroups(
                target.user.name,
                target.group.gid,
            )
            &&& calls[k] == ExecView::SetResGid(gid, gid, user.group.gid)
            &&& calls[k + 1] == ExecView::SetResUid(uid, uid, user.user.uid)
            &&& forall|i: int| k + 1 < i < calls.len() ==> !changes_identity(#[trigger] calls[i])
            &&& forall|i: int|
                0 <= i < calls.len() ==> (#[trigger] calls[i] is Exec <==> i == calls.len() - 1)
        }),
{
}

// ---------------------------------------------------------------------------------------------
// What the decisions come to
// ---------------------------------------------------------------------------------------------

/// A supervisor that learns how its child ended exits with the status of the child, whatever
/// that is, or with 128 and the number of the signal that ended it.
pub proof fn law_exit_status(code: i32, s: Signal, pid: int)
    ensures
        watch_next(
            WatchView::CheckChild,
            WatchEvent::Child(Ok(WaitStatus::Exited(code))),
            pid,
        ) == WatchView::Exit(code as int),
        watch_next(
            WatchView::CheckChild,
            WatchEvent::Child(Ok(WaitStatus::Signaled(s))),
            pid,
        ) == WatchView::Exit(128 + s.raw()),
{
}

/// A child that stopped lets its supervisor stop, one that did not change lets it wait for the
/// next signal, and an interrupted or idle question is put again. A child that is gone ends the
/// supervision with the status one, and any other error ends it with that error.
pub proof fn law_child_changes(s: Signal, errno: i32, pid: int)
    ensures
        watch_next(
            WatchView::CheckChild,
            WatchEvent::Child(Ok(WaitStatus::Stopped(s))),
            pid,
        ) == WatchView::Suspend(s.raw()),
        watch_next(WatchView::CheckChild, WatchEvent::Child(Ok(WaitStatus::StillAlive)), pid)
            is NextSignal,
        watch_next(WatchView::CheckChild, WatchEvent::Child(Ok(WaitStatus::Other)), pid)
            is CheckChild,
        errno == 4 ==> watch_next(WatchView::CheckChild, WatchEvent::Child(Err(errno)), pid)
            is CheckChild,
        errno == 10 ==> watch_next(WatchView::CheckChild, WatchEvent::Child(Err(errno)), pid)
            == WatchView::Exit(1),
        errno != 4 && errno != 10 ==> watch_next(
            WatchView::CheckChild,
            WatchEvent::Child(Err(errno)),
            pid,
        ) == WatchView::Fail(errno),
{
}

/// A supervisor first looks after its child, and again whenever it is told that the child
/// changed or both were stopped. A number that is no signal changes nothing.
pub proof fn law_child_checked(raw: int, stopped_by: i32, pid: int)
    ensures
        watch_after(Seq::empty(), pid) is CheckChild,
        watch_next(WatchView::NextSignal, WatchEvent::Signal(17), pid) is CheckChild,
        watch_next(WatchView::Suspend(stopped_by), WatchEvent::Done, pid) is CheckChild,
        raw < 1 || raw > 31 ==> watch_next(WatchView::NextSignal, WatchEvent::Signal(raw), pid)
            is NextSignal,
{
}

/// Whatever a supervisor waits for, nothing else moves it, and an end is final.
pub proof fn law_watch_waits(step: WatchView, event: WatchEvent, pid: int)
    ensures
        step is Exit || step is Fail ==> watch_next(step, event, pid) == step,
        step is NextSignal && !(event is Signal) ==> watch_next(step, event, pid) == step,
        step is CheckChild && !(event is Child) ==> watch_next(step, event, pid) == step,
        (step is Send || step is Suspend) && !(event is Done) ==> watch_next(step, event, pid)
            == step,
{
}

/// A supervisor that stops with its child says so, has given the terminal back by then, and
/// afterwards lets the child have the terminal before the process group goes on.
pub proof fn law_suspension(pid: int, stopped_by: i32)
    ensures
        ({
            let calls = suspend_calls(pid, stopped_by);
            &&& calls.len() == 5
            &&& calls[0] == SuspendView::Print(
                "child stopped by "@ + signal::signal_name(stopped_by),
            )
            &&& calls[1] is TransferToParent
            &&& calls[2] == SuspendView::Raise(19)
            &&& calls[3] is TransferToChild
            &&& calls[4] == SuspendView::Send(-pid, 18)
        }),
{
}

/// A command that is run directly runs as the target: all its groups, its group and its user are
/// those of the target, and the caller's own are kept as the saved ones. A service is asked for
/// as the superuser.
pub proof fn law_exec_identity(
    user: AccountView,
    target: AccountView,
    cwd: Option<Seq<char>>,
    features: Features,
)
    ensures
        ({
            let calls = exec_calls(user, target, cwd, features);
            if features.backend == Backend::Scopex {
                &&& calls[2] == ExecView::InitGroups(target.user.name, target.group.gid)
                &&& calls[3] == ExecView::SetResGid(
                    target.group.gid,
                    target.group.gid,
                    user.group.gid,
                )
                &&& calls[4] == ExecView::SetResUid(
                    target.user.uid,
                    target.user.uid,
                    user.user.uid,
                )
            } else {
                &&& calls.len() == 5
                &&& calls[2] == ExecView::SetResGid(0, 0, user.group.gid)
                &&& calls[3] == ExecView::SetResUid(0, 0, user.user.uid)
                &&& calls[4] is Exec
            }
        }),
{
}

/// Between the change of the identity and a command that is run directly stand, in this order,
/// the tie to the supervisor, within a session only, and the working directory, if one was asked
/// for.
pub proof fn law_exec_scope(
    user: AccountView,
    target: AccountView,
    cwd: Option<Seq<char>>,
    features: Features,
)
    requires
        features.backend == Backend::Scopex,
    ensures
        ({
            let calls = exec_calls(user, target, cwd, features);
            let k: int = if features.use_pam {
                7
            } else {
                5
            };
            &&& features.use_pam ==> calls[5] == ExecView::ParentExitSignal(9) && calls[6]
                is CheckParent
            &&& cwd is Some ==> calls.len() == k + 2 && calls[k] == ExecView::ChangeDir(
                cwd->Some_0,
            ) && calls[k + 1] is Exec
            &&& cwd is None ==> calls.len() == k + 1 && calls[k] is Exec
        }),
{
}

/// What the steps of a command say is what they are: a list that says how a command is run
/// directly changes the group and the user to those of the target, in the calls themselves.
pub proof fn law_exec_calls(
    calls: Seq<ExecCall>,
    user: AccountView,
    target: AccountView,
    cwd: Option<Seq<char>>,
    features: Features,
)
    requires
        exec_views(calls) == exec_calls(user, target, cwd, features),
        features.backend == Backend::Scopex,
    ensures
        calls.len() >= 6,
        calls[0] is CleanEnvironment,
        calls[1] is ClearGroups,
        calls[2] matches ExecCall::InitGroups(name, gid) && name@ == target.user.name && gid
            == target.group.gid,
        calls[3] == ExecCall::SetResGid(target.group.gid, target.group.gid, user.group.gid),
        calls[4] == ExecCall::SetResUid(target.user.uid, target.user.uid, user.user.uid),
        calls.last() is Exec,
{
    let views = exec_calls(user, target, cwd, features);
    assert(views.len() == calls.len());
    assert forall|i: int| 0 <= i < calls.len() implies #[trigger] calls[i]@ == views[i] by {
        assert(exec_views(calls)[i] == calls[i]@);
    }
    assert(calls[0]@ == views[0] && calls[1]@ == views[1] && calls[2]@ == views[2]);
    assert(calls[3]@ == views[3] && calls[4]@ == views[4]);
    assert(calls[calls.len() - 1]@ == views[views.len() - 1]);
}

/// What a step of a supervisor says is what it is.
pub proof fn law_watch_steps(step: WatchStep)
    ensures
        step@ is NextSignal <==> step is NextSignal,
        step@ is CheckChild <==> step is CheckChild,
        step matches WatchStep::Exit(code) ==> step@ == WatchView::Exit(code as int),
        step matches WatchStep::Fail(e) ==> step@ == WatchView::Fail(e),
        step matches WatchStep::Send(to, s) ==> step@ == WatchView::Send(to as int, s.raw()),
        step matches WatchStep::Suspend(s) ==> step@ == WatchView::Suspend(s.raw()),
{
}

} // verus!
