use runas::ffi::pam::{
    conv_check, pam_conv_process, pam_error, pam_start, Conversation, MessageText, PamError,
    PamHandle, PamItem, PamMessage, PromptMode, SessionCall,
};
use runas::modules::error::Error;

struct Side {
    log: Vec<String>,
    answers: Vec<Result<String, Error>>,
}

impl Conversation for Side {
    fn prompt(&mut self, message: &str, mode: PromptMode) -> Result<String, Error> {
        self.log.push(format!("{message}/{mode:?}"));
        self.answers.remove(0)
    }

    fn info(&mut self, message: &str) -> Result<(), Error> {
        self.log.push(format!("info {message}"));
        Ok(())
    }

    fn error(&mut self, message: &str) -> Result<(), Error> {
        self.log.push(format!("error {message}"));
        Err(Error::StaticMessage("broken"))
    }
}

fn message(style: i32, text: &str) -> PamMessage {
    PamMessage { style, text: MessageText::Text(text.as_bytes().to_vec()) }
}

fn handle() -> PamHandle {
    pam_start(0, false, None).ok().unwrap()
}

#[test]
fn error_parts() {
    let e = PamError::new(7, "denied".to_owned());
    assert_eq!(e.code(), 7);
    assert_eq!(e.message(), "denied");
    assert_eq!(e.clone(), e);
}

#[test]
fn error_without_message() {
    let e = pam_error(-3, None);
    assert_eq!(e.code(), 4);
    assert_eq!(e.message(), "Unknown error (-3)");
    let e = pam_error(9, Some("text".to_owned()));
    assert_eq!((e.code(), e.message()), (9, "text"));
}

#[test]
fn item_numbers() {
    let items = [
        PamItem::Service,
        PamItem::User,
        PamItem::Tty,
        PamItem::RHost,
        PamItem::Conv,
        PamItem::AuthTok,
        PamItem::OldAuthTok,
        PamItem::RUser,
        PamItem::UserPrompt,
    ];
    for (i, item) in items.iter().enumerate() {
        assert_eq!(item.code(), i as i32 + 1);
    }
}

#[test]
fn conversation_with_all_kinds() {
    let mut side = Side { log: Vec::new(), answers: vec![Ok("bob".to_owned()), Ok("pw".to_owned())] };
    let messages = vec![
        message(4, "hello"),
        message(2, "Login:"),
        message(2, "Your PassWord:"),
    ];
    let r = pam_conv_process(&messages, &mut side);
    assert_eq!(r.code, 0);
    assert!(r.report.is_none());
    assert_eq!(r.replies, vec![None, Some(b"bob\0".to_vec()), Some(b"pw\0".to_vec())]);
    assert_eq!(side.log, vec!["info hello", "Login:/Visible", "Your PassWord:/Hidden"]);
}

#[test]
fn conversation_stops_at_an_error() {
    let mut side = Side { log: Vec::new(), answers: vec![Ok("pw".to_owned())] };
    let messages = vec![message(1, "Password:"), message(3, "bad"), message(4, "never")];
    let r = pam_conv_process(&messages, &mut side);
    assert_eq!(r.code, 19);
    assert!(r.replies.is_empty());
    assert_eq!(r.report.as_deref(), Some("PAM conversation error: broken"));
    assert_eq!(side.log.len(), 2);
}

#[test]
fn conversation_keeps_codes_of_pam() {
    let error = Error::Pam(PamError::new(27, "abort".to_owned()));
    let mut side = Side { log: Vec::new(), answers: vec![Err(error)] };
    let r = pam_conv_process(&vec![message(1, "Password:")], &mut side);
    assert_eq!(r.code, 27);
    assert!(r.report.is_none());
}

#[test]
fn messages_that_cannot_be_understood() {
    for (m, report) in [
        (
            PamMessage { style: 1, text: MessageText::NullRequest },
            "PAM conversation error: null request pointer",
        ),
        (
            PamMessage { style: 1, text: MessageText::NullText },
            "PAM conversation error: null message pointer",
        ),
        (message(77, "x"), "PAM conversation error: unknown message style (77)"),
    ] {
        let mut side = Side { log: Vec::new(), answers: Vec::new() };
        let r = pam_conv_process(&vec![m], &mut side);
        assert_eq!(r.code, 19);
        assert_eq!(r.report.as_deref(), Some(report));
        assert!(side.log.is_empty());
    }
}

#[test]
fn conversation_limits() {
    assert!(conv_check(1, false, false, false));
    assert!(conv_check(32, false, false, false));
    assert!(!conv_check(33, false, false, false));
    assert!(!conv_check(0, false, false, false));
    assert!(!conv_check(1, true, false, false));
    assert!(!conv_check(1, false, true, false));
    assert!(!conv_check(1, false, false, true));
}

#[test]
fn starting() {
    assert_eq!(
        pam_start(26, true, Some("no".to_owned())).err().unwrap().display(),
        "PAM: no"
    );
    assert_eq!(
        pam_start(0, true, None).err().unwrap().display(),
        "returned null pointer PAM handle"
    );
    assert_eq!(handle().end_status(), 0);
}

#[test]
fn results_of_calls() {
    let mut h = handle();
    assert!(h.authenticate(0, None).is_ok());
    assert_eq!(
        h.authenticate(7, Some("Authentication failure".to_owned())).unwrap_err().display(),
        "PAM: Authentication failure"
    );
    assert_eq!(h.end_status(), 7);
    assert!(matches!(
        h.acct_mgmt(12, Some("new".to_owned())),
        Err(Error::PamActionRequired(e)) if e.code() == 12
    ));
    assert!(matches!(h.acct_mgmt(13, None), Err(Error::Pam(e)) if e.code() == 4));
    assert!(h.acct_mgmt(0, None).is_ok());
    assert!(h.chauthtok(0, None).is_ok());
    assert!(h.set_item(5, Some("x".to_owned())).is_err());
    assert_eq!(h.end_status(), 5);
}

#[test]
fn session() {
    let mut h = handle();
    assert_eq!(h.close_session(), SessionCall::Nothing);
    let call = h.open_session();
    assert_eq!(call, SessionCall::SetCred(2));
    let call = h.open_session_next(call, 0, None).ok().unwrap();
    assert_eq!(call, SessionCall::OpenSession);
    assert_eq!(h.open_session_next(call, 0, None).ok(), Some(SessionCall::Nothing));
    assert_eq!(h.open_session(), SessionCall::Nothing);
    let call = h.close_session();
    assert_eq!(call, SessionCall::CloseSession);
    let call = h.close_session_next(call, 0, None).ok().unwrap();
    assert_eq!(call, SessionCall::SetCred(4));
    assert_eq!(h.close_session_next(call, 0, None).ok(), Some(SessionCall::Nothing));
    assert_eq!(h.close_session(), SessionCall::Nothing);
    assert_eq!(h.open_session(), SessionCall::SetCred(2));
}

#[test]
fn session_that_fails_to_close() {
    let mut h = handle();
    h.open_session_next(SessionCall::SetCred(2), 0, None).ok().unwrap();
    h.open_session_next(SessionCall::OpenSession, 0, None).ok().unwrap();
    let call = h.close_session();
    assert!(h.close_session_next(call, 14, None).is_err());
    assert_eq!(h.close_session(), SessionCall::CloseSession);
}

#[test]
fn session_that_fails_to_open() {
    let mut h = handle();
    let call = h.open_session();
    assert!(h.open_session_next(call, 14, None).is_err());
    assert_eq!(h.end_status(), 14);
    assert_eq!(h.close_session(), SessionCall::Nothing);
}

#[test]
fn environment_of_a_session() {
    let entries = vec![b"A=1".to_vec(), b"B=x=y".to_vec(), b"A=2".to_vec()];
    let env = handle().getenvlist(&entries).ok().unwrap();
    assert_eq!(env.len(), 2);
    assert_eq!(env.get("A"), Some("2"));
    assert_eq!(env.get("B"), Some("x=y"));
    assert_eq!(
        handle().getenvlist(&vec![b"A=1".to_vec(), b"broken".to_vec()]).err().unwrap().display(),
        "invalid environment variable returned by PAM"
    );
    assert!(matches!(
        handle().getenvlist(&vec![vec![0xff], b"broken".to_vec()]),
        Err(Error::InvalidUtf8(_))
    ));
    assert_eq!(handle().getenvlist(&Vec::new()).ok().unwrap().len(), 0);
}
