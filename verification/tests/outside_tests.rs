use runas::ffi::pam::{conv_request, ConvRequest, MessageText, PamMessage, PromptMode};
use runas::modules::error::Error;
use runas::modules::signal;
use runas::modules::signal::Signal;
use runas::modules::signal_recv::{receiver_mask, receiver_next, ReceiverStep};
use runas::shared;

#[test]
fn error_numbers_are_those_of_the_system() {
    assert_eq!(shared::ENOENT, libc::ENOENT);
    assert_eq!(shared::EINTR, libc::EINTR);
    assert_eq!(shared::EIO, libc::EIO);
    assert_eq!(shared::EBADF, libc::EBADF);
    assert_eq!(shared::ECHILD, libc::ECHILD);
    assert_eq!(shared::EACCES, libc::EACCES);
    assert_eq!(shared::ENOTDIR, libc::ENOTDIR);
    assert_eq!(shared::EINVAL, libc::EINVAL);
    assert_eq!(shared::EPIPE, libc::EPIPE);
    assert_eq!(shared::EPROTO, libc::EPROTO);
    assert_eq!(shared::EALREADY, libc::EALREADY);
}

#[test]
fn signal_numbers_are_those_of_the_system() {
    assert_eq!(signal::SIGHUP, libc::SIGHUP);
    assert_eq!(signal::SIGINT, libc::SIGINT);
    assert_eq!(signal::SIGQUIT, libc::SIGQUIT);
    assert_eq!(signal::SIGKILL, libc::SIGKILL);
    assert_eq!(signal::SIGALRM, libc::SIGALRM);
    assert_eq!(signal::SIGTERM, libc::SIGTERM);
    assert_eq!(signal::SIGCHLD, libc::SIGCHLD);
    assert_eq!(signal::SIGCONT, libc::SIGCONT);
    assert_eq!(signal::SIGSTOP, libc::SIGSTOP);
    assert_eq!(signal::SIGTSTP, libc::SIGTSTP);
    assert_eq!(signal::SIGTTOU, libc::SIGTTOU);
    assert_eq!(signal::SIGWINCH, libc::SIGWINCH);
}

#[test]
fn signals_by_number() {
    for n in -2..70 {
        let expected = nix::sys::signal::Signal::try_from(n).ok();
        match Signal::from_raw(n) {
            Some(s) => {
                assert_eq!(s.number(), n);
                assert_eq!(s.name(), expected.unwrap().as_str());
            }
            None => assert!(expected.is_none(), "{n}"),
        }
    }
}

#[test]
fn receiver_mask_holds_the_signals() {
    let signals: Vec<Signal> =
        [15, 1, 17].into_iter().filter_map(Signal::from_raw).collect();
    let mask = receiver_mask(&signals).unwrap();
    for s in nix::sys::signal::Signal::iterator() {
        assert_eq!(mask.contains(s), [15, 1, 17].contains(&(s as i32)));
    }
}

#[test]
fn receiver_mask_refuses_kill_and_stop() {
    for n in [signal::SIGKILL, signal::SIGSTOP] {
        let signals = vec![Signal::from_raw(1).unwrap(), Signal::from_raw(n).unwrap()];
        assert_eq!(receiver_mask(&signals).unwrap_err(), shared::EINVAL);
    }
}

#[test]
fn errno_message() {
    let expected = format!("system error: {}", nix::errno::Errno::ENOENT);
    assert_eq!(Error::Errno(2).display(), expected);
}

#[test]
fn interrupted_message() {
    assert_eq!(Error::Interrupted(Signal::from_raw(2).unwrap()).display(), "interrupted by SIGINT");
}

#[test]
fn lower_case_decides_about_echo() {
    let m = PamMessage { style: 2, text: MessageText::Text("PASSWORD for b:".as_bytes().to_vec()) };
    match conv_request(&m) {
        Ok(ConvRequest::Prompt(s, mode)) => {
            assert_eq!(s, "PASSWORD for b:");
            assert_eq!(mode, PromptMode::Hidden);
        }
        _ => panic!("not a prompt"),
    }
}

#[test]
fn utf8_fault_is_the_one_of_std() {
    let bytes = vec![b'a', 0xff, b'b'];
    let expected = format!(
        "PAM conversation error: {}",
        std::str::from_utf8(&bytes).unwrap_err()
    );
    let m = PamMessage { style: 1, text: MessageText::Text(bytes) };
    match conv_request(&m) {
        Err(report) => assert_eq!(report, expected),
        Ok(_) => panic!("accepted"),
    }
}

#[test]
fn receiver_installation() {
    let next = receiver_next;
    assert_eq!(next(ReceiverStep::Block, Ok(())), ReceiverStep::Open);
    assert_eq!(next(ReceiverStep::Block, Err(22)), ReceiverStep::Fail(22));
    assert_eq!(next(ReceiverStep::Open, Ok(())), ReceiverStep::Ready);
    assert_eq!(next(ReceiverStep::Open, Err(24)), ReceiverStep::Restore(24));
    assert_eq!(next(ReceiverStep::Restore(24), Err(5)), ReceiverStep::Fail(24));
}
