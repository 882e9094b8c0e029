use runas::modules::fg_handler::{ForegroundCall, ForegroundHandler};
use runas::modules::fork_sync::{
    read_byte, ready_next, write_byte, ForkSync, ReadyStep, SyncDecision, Transfer, STATUS_FAILED,
    STATUS_READY,
};
use runas::modules::proc::{
    exec, received_signals, supervisor_gone, ExecCall, SuspendCall, WaitStatus, WatchStep, Watcher,
};
use runas::modules::sig_handler::{Disposition, SignalHandler};
use runas::modules::signal::Signal;
use runas::modules::signal_recv::SignalEvent;
use runas::modules::user::{Account, Group, GroupEntry, User, UserEntry};
use runas::shared::{Backend, Features, EALREADY, EBADF, ECHILD, EINTR, EIO, EPIPE, EPROTO};

fn account(uid: u32, gid: u32, name: &str) -> Account {
    let user = User::from_uid(Some(UserEntry {
        uid,
        gid,
        name: name.to_owned(),
        home: b"/".to_vec(),
        shell: b"/bin/sh".to_vec(),
    }));
    let group = Group::from_gid(Some(GroupEntry { gid, name: "g".to_owned() }));
    Account::from(user.ok().unwrap(), group).unwrap()
}

fn features(backend: Backend, use_pam: bool) -> Features {
    Features { backend, use_pam, expand_env: true, askpass: false }
}

fn event(signo: u32) -> SignalEvent {
    SignalEvent { signo, status: 0, code: 0 }
}

fn sig(n: i32) -> Signal {
    Signal::from_raw(n).unwrap()
}

#[test]
fn watching_until_the_end() {
    let mut w = Watcher::watch_process(42);
    assert!(matches!(w.step(), WatchStep::CheckChild));
    w.on_child(Ok(WaitStatus::StillAlive));
    assert!(matches!(w.step(), WatchStep::NextSignal));
    w.on_signal(&event(15));
    assert!(matches!(w.step(), WatchStep::Send(-42, s) if s.number() == 15));
    w.on_done();
    assert!(matches!(w.step(), WatchStep::NextSignal));
    w.on_signal(&event(99));
    assert!(matches!(w.step(), WatchStep::NextSignal));
    w.on_signal(&event(17));
    assert!(matches!(w.step(), WatchStep::CheckChild));
    w.on_child(Err(EINTR));
    w.on_child(Ok(WaitStatus::Other));
    w.on_child(Ok(WaitStatus::Stopped(sig(20))));
    assert!(matches!(w.step(), WatchStep::Suspend(s) if s.number() == 20));
    w.on_done();
    assert!(matches!(w.step(), WatchStep::CheckChild));
    w.on_child(Ok(WaitStatus::Exited(3)));
    assert!(matches!(w.step(), WatchStep::Exit(3)));
    w.on_done();
    assert!(matches!(w.step(), WatchStep::Exit(3)));
}

#[test]
fn other_ends_of_a_child() {
    let mut w = Watcher::watch_process(42);
    w.on_child(Ok(WaitStatus::Signaled(sig(9))));
    assert!(matches!(w.step(), WatchStep::Exit(137)));
    let mut w = Watcher::watch_process(42);
    w.on_child(Err(ECHILD));
    assert!(matches!(w.step(), WatchStep::Exit(1)));
    let mut w = Watcher::watch_process(42);
    w.on_child(Err(EBADF));
    assert!(matches!(w.step(), WatchStep::Fail(EBADF)));
}

#[test]
fn stopping_with_the_child() {
    let calls = Watcher::watch_process(42).suspension(sig(20));
    assert_eq!(calls.len(), 5);
    assert!(matches!(&calls[0], SuspendCall::Print(s) if s == "child stopped by SIGTSTP"));
    assert!(matches!(calls[1], SuspendCall::TransferToParent));
    assert!(matches!(calls[2], SuspendCall::Raise(19)));
    assert!(matches!(calls[3], SuspendCall::TransferToChild));
    assert!(matches!(calls[4], SuspendCall::Send(-42, 18)));
    assert_eq!(received_signals(), vec![17, 1, 2, 3, 15, 14, 20, 18, 28]);
}

fn described(calls: Vec<ExecCall>) -> Vec<String> {
    calls.iter().map(|c| format!("{c:?}")).collect()
}

#[test]
fn becoming_root_for_a_service() {
    let user = account(1000, 100, "bob");
    let target = account(7, 8, "x");
    for backend in [Backend::SystemdRun, Backend::Run0] {
        assert_eq!(
            described(exec(&user, &target, Some("/tmp".to_owned()), features(backend, true))),
            [
                "CleanEnvironment",
                "ClearGroups",
                "SetResGid(0, 0, 100)",
                "SetResUid(0, 0, 1000)",
                "Exec"
            ]
        );
    }
}

#[test]
fn becoming_the_target_in_a_scope() {
    let user = account(1000, 100, "bob");
    let target = account(7, 8, "x");
    assert_eq!(
        described(exec(
            &user,
            &target,
            Some("/tmp".to_owned()),
            features(Backend::Scopex, true)
        )),
        [
            "CleanEnvironment",
            "ClearGroups",
            "InitGroups(\"x\", 8)",
            "SetResGid(8, 8, 100)",
            "SetResUid(7, 7, 1000)",
            "ParentExitSignal(9)",
            "CheckParent",
            "ChangeDir(\"/tmp\")",
            "Exec"
        ]
    );
    assert_eq!(
        described(exec(&user, &target, None, features(Backend::Scopex, false))).len(),
        6
    );
    assert!(supervisor_gone(4, 1));
    assert!(!supervisor_gone(4, 4));
}

#[test]
fn barrier() {
    let (mut child, closed) = ForkSync::new((3, 4), (5, 6)).into_child();
    assert_eq!(closed, vec![3, 6]);
    assert_eq!(child.open_descriptors(), vec![4, 5]);
    assert_eq!(child.report_ready(), Ok((4, STATUS_READY)));
    assert_eq!(child.report_failure(), Ok((4, STATUS_FAILED)));
    assert_eq!(child.status_sent(), Some(4));
    assert_eq!(child.report_ready(), Err(EALREADY));
    assert_eq!(child.wait_status(), Ok(5));
    assert_eq!(child.ready_and_wait(Some(9)), Err(EPROTO));
    assert_eq!(child.open_descriptors(), vec![5]);
    assert_eq!(child.ready_and_wait(Some(STATUS_READY)), Ok(SyncDecision::Continue));
    assert_eq!(child.wait_status(), Err(EBADF));
    assert!(child.open_descriptors().is_empty());
    let (mut parent, closed) = ForkSync::new((3, 4), (5, 6)).into_parent();
    assert_eq!(closed, vec![4, 5]);
    assert_eq!(parent.report_ready(), Ok((6, STATUS_READY)));
    assert_eq!(parent.wait_status(), Ok(3));
    assert_eq!(parent.ready_and_wait(None), Ok(SyncDecision::Abort));
    let (mut parent, _) = ForkSync::new((3, 4), (5, 6)).into_parent();
    assert_eq!(parent.ready_and_wait(Some(STATUS_FAILED)), Ok(SyncDecision::Abort));
}

#[test]
fn bytes_of_the_barrier() {
    assert_eq!(write_byte(Ok(1)), Transfer::Done);
    assert_eq!(write_byte(Ok(0)), Transfer::Fail(EIO));
    assert_eq!(write_byte(Err(EINTR)), Transfer::Again);
    assert_eq!(write_byte(Err(EBADF)), Transfer::Fail(EBADF));
    assert_eq!(write_byte(Err(EPIPE)), Transfer::Closed);
    assert_eq!(ready_next(Ok(1)), ReadyStep::Read);
    assert_eq!(ready_next(Err(EINTR)), ReadyStep::Write);
    assert_eq!(ready_next(Err(EPIPE)), ReadyStep::Decided(SyncDecision::Abort));
    assert_eq!(ready_next(Ok(0)), ReadyStep::Fail(EIO));
    assert_eq!(read_byte(Ok(0)), Transfer::Done);
    assert_eq!(read_byte(Ok(1)), Transfer::Done);
    assert_eq!(read_byte(Ok(2)), Transfer::Fail(EIO));
    assert_eq!(read_byte(Err(EINTR)), Transfer::Again);
}

#[test]
fn terminal_goes_back() {
    let h = ForegroundHandler::install(0, Some(11), 42, true);
    assert_eq!(h.transfer_to_parent(), Some((0, 11)));
    assert_eq!(h.transfer_to_child(), Some((0, 42)));
    assert_eq!(
        h.finish(),
        vec![ForegroundCall::SetGroup(0, 11), ForegroundCall::RestoreSigttou]
    );
    for h in [
        ForegroundHandler::install(0, None, 42, true),
        ForegroundHandler::install(0, Some(11), 42, false),
    ] {
        assert_eq!(h.transfer_to_parent(), None);
        assert_eq!(h.transfer_to_child(), None);
        assert_eq!(h.finish(), vec![ForegroundCall::RestoreSigttou]);
    }
}

#[test]
fn dispositions() {
    let mut h = SignalHandler::new();
    let mut seen = Vec::new();
    while let Some(change) = h.next() {
        seen.push(change);
        assert!(h.set(Ok(())).is_ok());
    }
    let caught = [1, 2, 3, 15, 14, 20, 18, 28];
    for (i, n) in caught.iter().enumerate() {
        assert_eq!(seen[i], (*n, Disposition::Catch));
    }
    assert_eq!(seen[8..], [(22, Disposition::Ignore)]);
    assert_eq!(h.restored(), vec![22, 28, 18, 20, 14, 15, 3, 2, 1]);
    let h = h.install(0, Some(11), 42, true);
    assert_eq!(h.transfer_to_parent(), Some((0, 11)));
    assert_eq!(h.transfer_to_child(), Some((0, 42)));
}

#[test]
fn dispositions_are_rolled_back() {
    let mut h = SignalHandler::new();
    assert!(h.set(Ok(())).is_ok());
    assert!(h.set(Ok(())).is_ok());
    assert_eq!(h.set(Err(EIO)), Err((EIO, vec![2, 1])));
}

#[test]
fn caught_signals_go_to_the_group() {
    match SignalHandler::forward_signal(15, 42) {
        Some((to, s)) => assert_eq!((to, s.number()), (-42, 15)),
        None => panic!("not forwarded"),
    }
    assert!(SignalHandler::forward_signal(0, 42).is_none());
}
