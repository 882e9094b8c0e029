use runas::ffi::pam::{PamError, PamItem, PromptMode};
use runas::ffi::shadow;
use runas::ffi::shadow::ShadowEntry;
use runas::modules::auth::{
    auth_decision, authenticate, authenticate_member, check_entry, child_continues, error_line,
    info_line, next_step, parent_status, prompt_flags, shadow_begin, shadow_finish, today, tty_item,
    AuthDecision, AuthStep, GroupLookup, PamCall, PamFlow,
};
use runas::modules::error::{Error, IoError, IoKind};
use runas::modules::fork_sync::SyncDecision;
use runas::modules::user::{Account, Group, GroupEntry, User, UserEntry};
use runas::shared::{Backend, Features, RunFlags};
use runas::shared::{AUTH_NO_PROMPT, AUTH_STDIN, PROMPT_HIDE};

fn group(gid: u32) -> Group {
    Group::from_gid(Some(GroupEntry { gid, name: format!("g{gid}") })).unwrap()
}

fn account(uid: u32, gid: u32, name: &str) -> Account {
    let user = User::from_uid(Some(UserEntry {
        uid,
        gid,
        name: name.to_owned(),
        home: b"/".to_vec(),
        shell: b"/bin/sh".to_vec(),
    }));
    Account::from(user.ok().unwrap(), Some(group(gid))).unwrap()
}

fn features(backend: Backend, use_pam: bool) -> Features {
    Features { backend, use_pam, expand_env: true, askpass: false }
}

fn flags(bits: u32) -> RunFlags {
    RunFlags { bits }
}

fn entry() -> ShadowEntry {
    ShadowEntry {
        passwd_hash: "$6$s$h".to_owned(),
        last_change: 100,
        max_age: 30,
        inactive: -1,
        expiry: -1,
    }
}

#[test]
fn decisions() {
    for bits in 0..16u32 {
        let b = |i: u32| bits >> i & 1 == 1;
        let expected = if b(0) || (b(1) && b(2)) {
            AuthDecision::Allow
        } else if b(3) {
            AuthDecision::Deny
        } else {
            AuthDecision::Authenticate
        };
        assert_eq!(auth_decision(b(0), b(1), b(2), b(3)), expected);
    }
}

#[test]
fn root_is_allowed() {
    let f = features(Backend::SystemdRun, false);
    let step = authenticate(&account(0, 0, "root"), &account(7, 7, "x"), flags(0), f);
    assert_eq!(step.ok(), Some(AuthStep::Granted));
    let f = features(Backend::Scopex, true);
    let step = authenticate(&account(0, 0, "root"), &account(7, 7, "x"), flags(0), f);
    assert_eq!(step.ok(), Some(AuthStep::RunPam(true)));
}

#[test]
fn own_identity_is_allowed() {
    let f = features(Backend::Scopex, false);
    let mut user = account(1000, 100, "bob");
    let mut target = account(1000, 100, "bob");
    assert_eq!(authenticate(&user, &target, flags(0), f).ok(), Some(AuthStep::Granted));
    target.set_group(group(10));
    assert_eq!(authenticate(&user, &target, flags(0), f).ok(), Some(AuthStep::LoadGroups));
    user.set_group_list(vec![100, 10]);
    assert_eq!(authenticate(&user, &target, flags(0), f).ok(), Some(AuthStep::Granted));
    target.set_group(group(11));
    assert_eq!(authenticate(&user, &target, flags(0), f).ok(), Some(AuthStep::FindGroup));
}

#[test]
fn without_prompts_a_change_is_refused() {
    let f = features(Backend::SystemdRun, true);
    let user = account(1000, 100, "bob");
    let target = account(0, 100, "root");
    let step = authenticate(&user, &target, flags(AUTH_NO_PROMPT), f);
    assert_eq!(step.unwrap_err().display(), "authentication failed");
    let step = authenticate(&user, &target, flags(AUTH_NO_PROMPT | AUTH_STDIN), f);
    assert_eq!(step.ok(), Some(AuthStep::FindGroup));
}

#[test]
fn only_members_authenticate() {
    let mut user = account(1000, 100, "bob");
    let pam = features(Backend::Scopex, true);
    let shadow = features(Backend::SystemdRun, false);
    assert_eq!(
        authenticate_member(&user, None, pam).unwrap_err().display(),
        "authentication failed"
    );
    let wheel = group(10);
    assert_eq!(
        authenticate_member(&user, Some(&wheel), pam).ok(),
        Some(AuthStep::LoadGroups)
    );
    user.set_group_list(vec![100]);
    assert!(authenticate_member(&user, Some(&wheel), pam).is_err());
    let mut user = account(1000, 100, "bob");
    user.set_group_list(vec![100, 10]);
    assert_eq!(
        authenticate_member(&user, Some(&wheel), pam).ok(),
        Some(AuthStep::RunPam(false))
    );
    assert_eq!(
        authenticate_member(&user, Some(&wheel), shadow).ok(),
        Some(AuthStep::ReadShadow)
    );
}

#[test]
fn steps_of_a_request() {
    let f = features(Backend::SystemdRun, true);
    let mut user = account(1000, 100, "bob");
    let target = account(0, 0, "root");
    let step = |user: &Account, lookup: &GroupLookup| {
        next_step(user, &target, lookup, flags(0), f).map_err(|e| e.display())
    };
    assert_eq!(step(&user, &GroupLookup::Pending), Ok(AuthStep::LoadGroups));
    user.set_group_list(vec![100, 10]);
    assert_eq!(step(&user, &GroupLookup::Pending), Ok(AuthStep::FindGroup));
    assert_eq!(step(&user, &GroupLookup::Found(group(10))), Ok(AuthStep::RunPam(false)));
    let refused = Err("authentication failed".to_owned());
    assert_eq!(step(&user, &GroupLookup::Found(group(11))), refused);
    assert_eq!(step(&user, &GroupLookup::Missing), refused);
}

#[test]
fn days() {
    assert_eq!(today(Some(0)), 0);
    assert_eq!(today(Some(86_399)), 0);
    assert_eq!(today(Some(86_400)), 1);
    assert_eq!(today(Some(u64::MAX)), 213_503_982_334_601);
    assert_eq!(today(None), i64::MAX);
}

#[test]
fn entries_by_age() {
    assert!(check_entry(&entry(), 130).is_ok());
    assert_eq!(check_entry(&entry(), 131).unwrap_err().display(), "password has expired");
    let e = ShadowEntry { last_change: 0, ..entry() };
    assert_eq!(check_entry(&e, 0).unwrap_err().display(), "password has expired");
    let e = ShadowEntry { max_age: i64::MAX, ..entry() };
    assert_eq!(check_entry(&e, 0).unwrap_err().display(), "invalid shadow data");
    let e = ShadowEntry { expiry: 120, ..entry() };
    assert!(check_entry(&e, 120).is_ok());
    assert_eq!(check_entry(&e, 131).unwrap_err().display(), "account has expired");
    let e = ShadowEntry { max_age: -1, ..entry() };
    assert!(check_entry(&e, i64::MAX).is_ok());
    let e = ShadowEntry { last_change: -1, ..entry() };
    assert!(check_entry(&e, i64::MAX).is_ok());
}

#[test]
fn inactivity_comes_after_expiry() {
    let e = ShadowEntry { inactive: 5, ..entry() };
    assert_eq!(check_entry(&e, 200).unwrap_err().display(), "password has expired");
    assert!(check_entry(&e, 130).is_ok());
}

#[test]
fn shadow_passwords() {
    assert_eq!(
        shadow_begin(None, 0, flags(0)).unwrap_err().display(),
        "authentication failed"
    );
    assert!(shadow_begin(Some(&entry()), 500, flags(0)).is_err());
    let plan = shadow_begin(Some(&entry()), 100, flags(AUTH_STDIN)).ok().unwrap();
    assert_eq!(plan.prompt, "Password:");
    assert_eq!(plan.flags, flags(AUTH_STDIN | PROMPT_HIDE));
    assert!(shadow_finish("$6$s$h", &entry()).is_ok());
    assert_eq!(
        shadow_finish("$6$s$x", &entry()).unwrap_err().display(),
        "authentication failed"
    );
}

#[test]
fn hashing() {
    let mut key = shadow::crypt_key("pä".to_owned(), "$6$s").ok().unwrap();
    assert_eq!(key, "pä\0".as_bytes());
    shadow::wipe_key(&mut key);
    assert!(key.is_empty());
    assert!(matches!(shadow::crypt_key("p".to_owned(), "a\0b"), Err(Error::Nul(1))));
    let failure = || IoError { kind: IoKind::Other, raw: Some(22), text: "bad".to_owned() };
    assert_eq!(shadow::crypt(Some("h".to_owned()), failure()).ok().unwrap(), "h");
    assert_eq!(shadow::crypt(None, failure()).unwrap_err().display(), "I/O error: bad");
    let none = IoError { kind: IoKind::Other, raw: Some(0), text: String::new() };
    assert!(shadow::getspnam(None, none).ok().unwrap().is_none());
    assert!(shadow::getspnam(None, failure()).is_err());
    let denied = IoError { kind: IoKind::PermissionDenied, raw: Some(13), text: String::new() };
    assert!(shadow::getspnam(None, denied).ok().unwrap().is_none());
    assert!(shadow::getspnam(Some(entry()), failure()).ok().unwrap().is_some());
}

#[test]
fn prompts_of_pam() {
    assert_eq!(prompt_flags(flags(AUTH_STDIN), PromptMode::Hidden).bits, AUTH_STDIN | PROMPT_HIDE);
    assert_eq!(prompt_flags(flags(AUTH_STDIN), PromptMode::Visible).bits, AUTH_STDIN);
    assert_eq!(info_line("x"), "PAM info: x");
    assert_eq!(error_line("x"), "PAM error: x");
    assert_eq!(tty_item(true, Some("/dev/pts/1")), "/dev/pts/1");
    assert_eq!(tty_item(false, Some("/dev/pts/1")), "/runas");
    assert_eq!(tty_item(true, None), "/runas");
}

fn describe(call: PamCall) -> String {
    match call {
        PamCall::Start(u) => format!("start {u}"),
        PamCall::SetItem(PamItem::Tty, v) => format!("tty {v}"),
        PamCall::SetItem(PamItem::RUser, v) => format!("ruser {v}"),
        PamCall::SetItem(PamItem::User, v) => format!("user {v}"),
        PamCall::SetItem(_, v) => format!("item {v}"),
        PamCall::Authenticate => "authenticate".to_owned(),
        PamCall::AcctMgmt => "account".to_owned(),
        PamCall::Chauthtok(n) => format!("change {n}"),
        PamCall::OpenSession => "open".to_owned(),
        PamCall::MakePipes => "pipes".to_owned(),
        PamCall::GetEnv => "environment".to_owned(),
        PamCall::Fork => "fork".to_owned(),
        PamCall::Done => "done".to_owned(),
    }
}

fn flow(bits: u32, backend: Backend, disable: bool) -> PamFlow {
    PamFlow::new(
        &account(1000, 100, "bob"),
        &account(0, 0, "root"),
        "/dev/tty1".to_owned(),
        flags(bits),
        features(backend, true),
        disable,
    )
}

fn calls(mut f: PamFlow, expired: bool) -> Vec<String> {
    let mut log = Vec::new();
    loop {
        let name = describe(f.call());
        let done = name == "done";
        let result = if name == "account" && expired {
            Err(Error::PamActionRequired(PamError::new(12, "expired".to_owned())))
        } else {
            Ok(())
        };
        log.push(name);
        if done {
            return log;
        }
        if let Err(e) = f.advance(result) {
            log.push(e.display());
            return log;
        }
    }
}

#[test]
fn calls_without_a_session() {
    assert_eq!(
        calls(flow(0, Backend::SystemdRun, false), false),
        ["start bob", "tty /dev/tty1", "authenticate", "ruser bob", "account", "done"]
    );
    assert_eq!(
        calls(flow(0, Backend::SystemdRun, true), false)[2],
        "authenticate"
    );
}

#[test]
fn calls_with_a_session() {
    assert_eq!(
        calls(flow(0, Backend::Scopex, true), false),
        [
            "start root",
            "tty /dev/tty1",
            "ruser bob",
            "account",
            "user root",
            "open",
            "pipes",
            "environment",
            "fork",
            "done"
        ]
    );
}

#[test]
fn expired_password_is_changed() {
    assert_eq!(
        calls(flow(0, Backend::SystemdRun, false), true)[4..],
        ["account", "change 32", "done"]
    );
    assert_eq!(
        calls(flow(AUTH_NO_PROMPT, Backend::SystemdRun, false), true)[4..],
        ["account", "PAM: expired"]
    );
}

#[test]
fn failure_ends_the_calls() {
    let mut f = flow(0, Backend::Scopex, false);
    assert!(f.advance(Ok(())).is_ok());
    let error = f.advance(Err(Error::StaticMessage("no"))).unwrap_err();
    assert_eq!(error.display(), "no");
    assert_eq!(describe(f.call()), "tty /dev/tty1");
    let required = Error::PamActionRequired(PamError::new(12, "x".to_owned()));
    assert!(f.advance(Err(required)).is_err());
}

#[test]
fn both_sides_of_the_fork() {
    assert!(child_continues(SyncDecision::Continue).is_ok());
    assert_eq!(child_continues(SyncDecision::Abort).unwrap_err().display(), "unknown error");
    assert_eq!(parent_status(Ok(3)), (3, None));
    assert_eq!(
        parent_status(Err(Error::StaticMessage("lost"))),
        (1, Some("lost".to_owned()))
    );
}
