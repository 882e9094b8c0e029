use runas::modules::error::Error;
use runas::modules::fork_sync::SyncDecision;
use runas::modules::passwd::{
    after_write, ask_step, close_list, helper_signal, helper_started, launch_helper, poll_step,
    polled_input, prompt_channel, prompt_interrupt, prompt_plan, prompt_step, redirect,
    select_helper, time_compare, uses_helper, write_error, AskStep, Echo, HelperCall, HelperSession,
    HelperSignal, HelperWait, LineEditor, PollStep, PromptStep, ReadOutcome, WriteStep,
    MAX_INPUT_LEN,
};
use runas::modules::proc::WaitStatus;
use runas::modules::signal::Signal;
use runas::modules::signal_recv::{after_poll, Revents, SignalEvent, WaitStep};
use runas::shared::{Backend, Features, RunFlags};
use runas::shared::{AUTH_ASKPASS, AUTH_STDIN, EBADF, EINTR, EIO, PROMPT_HIDE};

fn typed(editor: &mut LineEditor, bytes: &[u8]) -> String {
    let mut shown = String::new();
    for b in bytes {
        let echo = editor.feed(*b);
        shown.push_str(&String::from_utf8(echo.bytes()).unwrap());
    }
    shown
}

fn no_events() -> Revents {
    Revents { readable: false, error: false, hangup: false, invalid: false }
}

fn event(signo: u32) -> SignalEvent {
    SignalEvent { signo, status: 0, code: 0 }
}

fn flags(bits: u32) -> RunFlags {
    RunFlags { bits }
}

#[test]
fn masked_line() {
    let mut e = LineEditor::new(true);
    assert_eq!(typed(&mut e, b"sec\x7fr\x08"), "***\x08 \x08*\x08 \x08");
    assert_eq!(e.finish().ok().unwrap(), "se");
    assert_eq!(e.finish().ok().unwrap(), "");
}

#[test]
fn erasing_nothing_shows_nothing() {
    let mut e = LineEditor::new(true);
    assert_eq!(typed(&mut e, b"\x7f\x08"), "");
    assert_eq!(e.finish().ok().unwrap(), "");
}

#[test]
fn plain_line_keeps_every_byte() {
    let mut e = LineEditor::new(false);
    assert_eq!(typed(&mut e, b"a\x7fb"), "");
    assert_eq!(e.finish().ok().unwrap(), "a\x7fb");
}

#[test]
fn newline_ends_a_line() {
    let mut e = LineEditor::new(true);
    assert_eq!(e.feed(b'\n'), Echo::Finish);
    assert_eq!(e.feed(b'\r'), Echo::Finish);
}

#[test]
fn limit_and_erasing_back_below_it() {
    let mut e = LineEditor::new(true);
    let long = vec![b'x'; MAX_INPUT_LEN + 2];
    typed(&mut e, &long);
    typed(&mut e, b"\x7f\x7f");
    assert_eq!(e.finish().ok().unwrap().len(), MAX_INPUT_LEN);
    typed(&mut e, &long);
    assert_eq!(
        e.finish().unwrap_err().display(),
        "input exceeds the maximum length of 1024 bytes"
    );
}

#[test]
fn line_that_is_not_utf8() {
    let mut e = LineEditor::new(false);
    e.feed(0xff);
    assert!(e.finish().unwrap_err().display().starts_with("invalid UTF-8: "));
}

#[test]
fn wiped_line_is_empty() {
    let mut e = LineEditor::new(true);
    typed(&mut e, b"secret");
    e.wipe();
    assert_eq!(e.finish().ok().unwrap(), "");
}

#[test]
fn prompt_texts() {
    let p = prompt_plan("Password:", flags(PROMPT_HIDE));
    assert_eq!(p.text.as_deref(), Some("Password: "));
    assert!(p.hide_input && p.masked && !p.use_stdin);
    let p = prompt_plan("Login: ", flags(0));
    assert_eq!(p.text.as_deref(), Some("Login: "));
    assert!(!p.hide_input && !p.masked);
    let p = prompt_plan("x", flags(AUTH_STDIN | PROMPT_HIDE));
    assert!(p.use_stdin && !p.hide_input && !p.masked && p.text.is_none());
}

#[test]
fn prompt_descriptors() {
    assert_eq!(prompt_channel(false, Some(7)), (7, 7, true));
    assert_eq!(prompt_channel(false, None), (0, 2, false));
    assert_eq!(prompt_channel(true, None), (0, 2, false));
    assert_eq!(close_list(7, 7, true), vec![7]);
    assert_eq!(close_list(3, 4, true), vec![4, 3]);
    assert!(close_list(0, 2, false).is_empty());
    assert_eq!(polled_input(5, false), 5);
    assert_eq!(polled_input(5, true), -1);
}

#[test]
fn writing_goes_on() {
    assert_eq!(after_write(10, 4, Ok(3)), WriteStep::From(7));
    assert_eq!(after_write(10, 4, Ok(6)), WriteStep::Done);
    assert_eq!(after_write(10, 4, Ok(0)), WriteStep::Stuck);
    assert_eq!(after_write(10, 4, Err(EINTR)), WriteStep::From(4));
    assert_eq!(after_write(10, 4, Err(EIO)), WriteStep::Fail(EIO));
    assert_eq!(write_error(WriteStep::Stuck).unwrap().display(), "failed to write prompt");
    assert!(matches!(write_error(WriteStep::Fail(EIO)), Some(Error::Errno(5))));
    assert!(write_error(WriteStep::Done).is_none());
}

#[test]
fn polling() {
    let quiet = no_events();
    let ready = Revents { readable: true, ..quiet };
    let hangup = Revents { hangup: true, ..quiet };
    let broken = Revents { error: true, ..quiet };
    assert_eq!(poll_step(Ok((ready, ready)), false), PollStep::Interrupted);
    assert_eq!(poll_step(Ok((hangup, ready)), false), PollStep::Fail(EIO));
    assert_eq!(poll_step(Ok((quiet, hangup)), false), PollStep::Read);
    assert_eq!(poll_step(Ok((quiet, ready)), true), PollStep::Again);
    assert_eq!(poll_step(Ok((quiet, broken)), false), PollStep::Fail(EIO));
    assert_eq!(poll_step(Ok((quiet, quiet)), false), PollStep::Again);
    assert_eq!(poll_step(Err(EINTR), false), PollStep::Again);
    assert_eq!(poll_step(Err(EBADF), false), PollStep::Fail(EBADF));
    assert_eq!(after_poll(Ok(Some(hangup))), WaitStep::Fail(EIO));
    assert_eq!(after_poll(Ok(Some(Revents { invalid: true, ..quiet }))), WaitStep::Fail(EBADF));
    assert_eq!(after_poll(Ok(Some(ready))), WaitStep::Retry);
    assert_eq!(after_poll(Ok(None)), WaitStep::Fail(EIO));
    assert_eq!(after_poll(Err(EINTR)), WaitStep::Retry);
}

#[test]
fn dialogue() {
    let mut e = LineEditor::new(true);
    assert!(matches!(
        prompt_step(&mut e, ReadOutcome::Byte(b'p')),
        PromptStep::Read(Echo::Mask)
    ));
    assert!(matches!(prompt_step(&mut e, ReadOutcome::Failed(EINTR)), PromptStep::TakeSignal));
    match prompt_step(&mut e, ReadOutcome::Byte(b'\n')) {
        PromptStep::Done(Ok(s)) => assert_eq!(s, "p"),
        _ => panic!("not done"),
    }
    prompt_step(&mut e, ReadOutcome::Byte(b'q'));
    match prompt_step(&mut e, ReadOutcome::Eof) {
        PromptStep::Done(Ok(s)) => assert_eq!(s, "q"),
        _ => panic!("not done"),
    }
    prompt_step(&mut e, ReadOutcome::Byte(b'q'));
    match prompt_step(&mut e, ReadOutcome::Failed(EIO)) {
        PromptStep::Done(Err(Error::Errno(n))) => assert_eq!(n, EIO),
        _ => panic!("not failed"),
    }
    assert_eq!(e.finish().ok().unwrap(), "");
}

#[test]
fn interrupts() {
    assert!(prompt_interrupt(None).is_none());
    assert_eq!(prompt_interrupt(Some(event(2))).unwrap().display(), "interrupted by SIGINT");
    let expected = format!("invalid signal number {}", nix::errno::Errno::EINVAL);
    assert_eq!(prompt_interrupt(Some(event(99))).unwrap().display(), expected);
}

#[test]
fn asking_again() {
    let stop = Signal::from_raw(20).unwrap();
    assert!(matches!(
        ask_step(Err(Error::Interrupted(stop))),
        AskStep::RaiseAndRetry(s) if s.number() == 20
    ));
    assert!(matches!(ask_step(Ok("x".to_owned())), AskStep::Return(Ok(_))));
    assert!(matches!(ask_step(Err(Error::Unknown)), AskStep::Return(Err(Error::Unknown))));
    let f = Features {
        backend: Backend::SystemdRun,
        use_pam: false,
        expand_env: true,
        askpass: true,
    };
    assert!(uses_helper(f, flags(AUTH_ASKPASS)));
    assert!(!uses_helper(f, flags(0)));
    assert!(!uses_helper(Features { askpass: false, ..f }, flags(AUTH_ASKPASS)));
}

#[test]
fn helper_paths() {
    let path = |s: &str| Some(s.as_bytes().to_vec());
    assert_eq!(select_helper(path("/a"), path("/b")).ok().unwrap(), b"/a");
    assert_eq!(select_helper(path(""), path("/b")).ok().unwrap(), b"/b");
    assert_eq!(
        select_helper(None, path("")).unwrap_err().display(),
        "RUNAS_ASKPASS is configured"
    );
    assert_eq!(
        select_helper(path("a"), path("/b")).unwrap_err().display(),
        "RUNAS_ASKPASS must contain an absolute path"
    );
    assert!(matches!(select_helper(path("/a\0"), None), Err(Error::Nul(2))));
}

#[test]
fn helper_child() {
    assert_eq!(
        launch_helper(3, 4, 1000, 100),
        vec![
            HelperCall::Close(3),
            HelperCall::Duplicate(4, 1),
            HelperCall::Close(4),
            HelperCall::EmptyInput,
            HelperCall::SetResGid(100, 100, 100),
            HelperCall::SetResUid(1000, 1000, 1000),
            HelperCall::ParentExitSignal(9),
            HelperCall::Synchronize,
            HelperCall::NoNewPrivileges,
            HelperCall::ChooseHelper,
            HelperCall::CleanEnvironment,
            HelperCall::Exec,
        ]
    );
    assert!(redirect(1, 1).is_empty());
    assert!(helper_started(SyncDecision::Continue).is_ok());
    assert_eq!(
        helper_started(SyncDecision::Abort).unwrap_err().display(),
        "askpass helper failed during startup"
    );
}

fn answer(chunks: &[&[u8]], status: i32) -> Result<String, Error> {
    let mut h = HelperSession::new();
    for c in chunks {
        h.on_data(c);
    }
    h.on_data(b"");
    assert!(h.eof());
    assert!(!h.is_complete());
    h.on_wait(Ok(WaitStatus::Exited(status))).ok().unwrap();
    assert!(h.is_complete());
    h.finish()
}

#[test]
fn helper_answers() {
    assert_eq!(answer(&[b"se", b"cret\n"], 0).ok().unwrap(), "secret");
    assert_eq!(answer(&[b"secret\r\n"], 0).ok().unwrap(), "secret");
    assert_eq!(answer(&[b"a\nb"], 0).ok().unwrap(), "a\nb");
    assert_eq!(answer(&[], 0).ok().unwrap(), "");
    assert_eq!(
        answer(&[b"x\n"], 3).unwrap_err().display(),
        "askpass helper exited with status 3"
    );
    let full = vec![b'x'; MAX_INPUT_LEN];
    assert_eq!(answer(&[&full, b"\n"], 0).ok().unwrap().len(), MAX_INPUT_LEN);
    assert_eq!(
        answer(&[&full, b"y"], 0).unwrap_err().display(),
        "input exceeds the maximum length of 1024 bytes"
    );
    assert_eq!(
        answer(&[&full, b"\nz"], 0).unwrap_err().display(),
        "input exceeds the maximum length of 1024 bytes"
    );
}

#[test]
fn helper_without_status() {
    let mut h = HelperSession::new();
    assert_eq!(
        h.finish().unwrap_err().display(),
        "askpass helper status is unavailable"
    );
}

#[test]
fn helper_process() {
    let mut h = HelperSession::new();
    assert_eq!(h.on_wait(Ok(WaitStatus::StillAlive)).ok(), Some(HelperWait::Stop));
    assert_eq!(h.on_wait(Ok(WaitStatus::Other)).ok(), Some(HelperWait::Again));
    assert_eq!(h.on_wait(Err(EINTR)).ok(), Some(HelperWait::Again));
    assert!(h.on_wait(Err(EIO)).is_err());
    let kill = Signal::from_raw(9).unwrap();
    h.on_wait(Ok(WaitStatus::Signaled(kill))).ok().unwrap();
    h.on_data(b"");
    assert_eq!(
        h.finish().unwrap_err().display(),
        "askpass helper exited with status 137"
    );
}

#[test]
fn helper_signals_are_sorted() {
    assert!(matches!(helper_signal(None), HelperSignal::Nothing));
    assert!(matches!(helper_signal(Some(event(17))), HelperSignal::Wait));
    assert!(matches!(
        helper_signal(Some(event(15))),
        HelperSignal::Forward(s) if s.number() == 15
    ));
    match helper_signal(Some(event(64))) {
        HelperSignal::Fail(e) => assert_eq!(e.display(), "invalid signal number 64"),
        _ => panic!("accepted"),
    }
}

#[test]
fn comparing() {
    assert!(time_compare("", ""));
    assert!(time_compare("$6$salt$hash", "$6$salt$hash"));
    assert!(!time_compare("$6$salt$hash", "$6$salt$hasi"));
    assert!(!time_compare("abc", "ab"));
    assert!(!time_compare("ab", "abc"));
    assert!(!time_compare("", "x"));
    assert!(!time_compare("x", ""));
}

#[test]
fn events_by_number() {
    let e = SignalEvent { signo: u32::MAX, status: 4, code: 5 };
    assert_eq!(e.raw_signal(), -1);
    assert!(e.signal().is_none());
    assert_eq!((e.status(), e.code()), (4, 5));
}
