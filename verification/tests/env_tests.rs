use runas::modules::env::{
    check_overwrite_file, clean_environment, load_overwrite_vars, merge_missing, set_environment,
    EnvMap, EnvVar,
};
use runas::modules::user::{Account, Group, GroupEntry, User, UserEntry};

fn bob() -> Account {
    let user = User::from_uid(Some(UserEntry {
        uid: 1000,
        gid: 100,
        name: "bob".to_owned(),
        home: b"/home/bob".to_vec(),
        shell: b"/bin/zsh".to_vec(),
    }));
    let group = Group::from_gid(Some(GroupEntry { gid: 100, name: "users".to_owned() }));
    Account::from(user.ok().unwrap(), group).unwrap()
}

fn var(name: &str, value: &str) -> EnvVar {
    EnvVar { name: name.to_owned(), value: value.to_owned() }
}

fn lines(text: &[&str]) -> Vec<String> {
    text.iter().map(|s| s.to_string()).collect()
}

#[test]
fn clean_keeps_what_is_listed() {
    let names = lines(&["PATH", "LD_PRELOAD", "LC_ALL", "XDG_RUNTIME_DIR", "HOME", "TERM", "LC"]);
    assert_eq!(clean_environment(&names), lines(&["LD_PRELOAD", "HOME", "LC"]));
}

#[test]
fn map_keeps_order_and_names_once() {
    let mut m = EnvMap::new();
    m.insert("A".to_owned(), "1".to_owned());
    m.insert("B".to_owned(), "2".to_owned());
    m.insert("A".to_owned(), "3".to_owned());
    assert_eq!(m.len(), 2);
    assert_eq!(m.at(0).name, "A");
    assert_eq!(m.get("A"), Some("3"));
    m.insert_missing("B", "9");
    m.insert_missing("C", "4");
    assert_eq!(m.get("B"), Some("2"));
    assert_eq!(m.get("C"), Some("4"));
    assert!(!m.contains("D"));
}

#[test]
fn merge_does_not_override() {
    let mut m = EnvMap::new();
    m.insert("A".to_owned(), "1".to_owned());
    let mut other = EnvMap::new();
    other.insert("A".to_owned(), "2".to_owned());
    other.insert("B".to_owned(), "3".to_owned());
    merge_missing(&mut m, &other);
    assert_eq!(m.get("A"), Some("1"));
    assert_eq!(m.get("B"), Some("3"));
}

#[test]
fn environment_for_the_target() {
    let mut m = EnvMap::new();
    m.insert("HOME".to_owned(), "/tmp".to_owned());
    let caller = vec![
        var("PATH", "/bin"),
        var("LC_TIME", "C"),
        var("XDG_SEAT", "seat0"),
        var("USER", "alice"),
        var("LD_PRELOAD", "x"),
    ];
    set_environment(&bob(), &caller, &mut m);
    assert_eq!(m.get("HOME"), Some("/tmp"));
    assert_eq!(m.get("USER"), Some("bob"));
    assert_eq!(m.get("LOGNAME"), Some("bob"));
    assert_eq!(m.get("SHELL"), Some("/bin/zsh"));
    assert_eq!(m.get("PATH"), Some("/bin"));
    assert_eq!(m.get("LC_TIME"), Some("C"));
    assert_eq!(m.get("XDG_SEAT"), None);
    assert_eq!(m.get("LD_PRELOAD"), None);
}

#[test]
fn override_file_owner_and_mode() {
    assert!(check_overwrite_file(0, 0o100644).is_ok());
    assert_eq!(
        check_overwrite_file(1, 0o100666).unwrap_err().display(),
        "ignoring environment override file: not owned by root"
    );
    for mode in [0o100664, 0o100646] {
        assert_eq!(
            check_overwrite_file(0, mode).unwrap_err().display(),
            "ignoring environment override file: writable by group or others"
        );
    }
}

#[test]
fn override_lines() {
    let text = lines(&[
        "# comment",
        "",
        "bob A=1",
        "  bob\tB = two words ",
        "alice C=3",
        "* D=${USER}:${UID}:${NOPE}",
        "bob A=9",
        "bob 1X=bad",
        "bob E-F=bad",
        "bob =bad",
        "bob nothing",
        "bob",
        "* TOLD=file",
        "* _x9=${USER}",
    ]);
    let marks = vec![var("USER", "bob"), var("UID", "1000")];
    let mut m = EnvMap::new();
    m.insert("TOLD".to_owned(), "asked".to_owned());
    load_overwrite_vars(&text, &bob(), &marks, &mut m);
    assert_eq!(m.get("A"), Some("9"));
    assert_eq!(m.get("B"), Some("two words"));
    assert_eq!(m.get("C"), None);
    assert_eq!(m.get("D"), Some("bob:1000:${NOPE}"));
    assert_eq!(m.get("TOLD"), Some("file"));
    assert_eq!(m.get("_x9"), Some("bob"));
    assert_eq!(m.len(), 5);
}

#[test]
fn placeholders_are_replaced_one_after_the_other() {
    let marks = vec![var("USER", "${UID}"), var("UID", "7")];
    let mut m = EnvMap::new();
    load_overwrite_vars(&lines(&["* A=${USER}"]), &bob(), &marks, &mut m);
    assert_eq!(m.get("A"), Some("7"));
}

#[test]
fn order_of_the_sources() {
    let mut m = EnvMap::new();
    for (name, value) in [("A", "asked"), ("HOME", "asked")] {
        m.insert(name.to_owned(), value.to_owned());
    }
    load_overwrite_vars(&lines(&["* A=file", "* B=file", "* USER=file"]), &bob(), &Vec::new(), &mut m);
    let mut session = EnvMap::new();
    for name in ["A", "B", "C", "PATH"] {
        session.insert(name.to_owned(), "session".to_owned());
    }
    merge_missing(&mut m, &session);
    set_environment(&bob(), &vec![var("PATH", "caller"), var("LANG", "caller")], &mut m);
    for (name, value) in [
        ("A", "file"),
        ("HOME", "asked"),
        ("B", "file"),
        ("USER", "file"),
        ("C", "session"),
        ("PATH", "session"),
        ("LOGNAME", "bob"),
        ("SHELL", "/bin/zsh"),
        ("LANG", "caller"),
    ] {
        assert_eq!(m.get(name), Some(value), "{name}");
    }
    assert_eq!(m.len(), 9);
}

#[test]
fn the_file_overrides() {
    let mut m = EnvMap::new();
    m.insert("A".to_owned(), "1".to_owned());
    m.insert("B".to_owned(), "1".to_owned());
    load_overwrite_vars(&lines(&["bob A=2", "alice B=2"]), &bob(), &Vec::new(), &mut m);
    assert_eq!(m.get("A"), Some("2"));
    assert_eq!(m.get("B"), Some("1"));
    assert_eq!(m.len(), 2);
}
