use runas::shared;
use runas::shared::{Backend, Features, RunFlags};

#[test]
fn signs() {
    assert_eq!(shared::signed(0xffff_ffff), -1);
    assert_eq!(shared::signed(0x7fff_ffff), i32::MAX);
    assert_eq!(shared::unsigned(-1), u32::MAX);
    assert_eq!(shared::unsigned(5), 5);
}

#[test]
fn independent_flags() {
    let all = [
        shared::SHELL,
        shared::AUTH_STDIN,
        shared::AUTH_NO_PROMPT,
        shared::AUTH_ASKPASS,
        shared::PROMPT_HIDE,
    ];
    for one in all {
        let set = RunFlags::none().with(one);
        for other in all {
            assert_eq!(set.contains(other), one == other);
        }
    }
}

#[test]
fn sessions() {
    for (backend, use_pam, expected) in [
        (Backend::Scopex, true, true),
        (Backend::Scopex, false, false),
        (Backend::Run0, true, false),
        (Backend::SystemdRun, true, false),
    ] {
        let f = Features { backend, use_pam, expand_env: false, askpass: false };
        assert_eq!(f.has_session(), expected);
    }
}
