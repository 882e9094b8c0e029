use runas::cli;
use runas::cli::{Given, ParsedArgs, RunStage};
use runas::modules::env::{EnvMap, EnvVar};
use runas::modules::user::{Account, Group, GroupEntry, User, UserEntry};
use runas::shared::{Backend, Features};
use runas::shared::{AUTH_NO_PROMPT, AUTH_STDIN, SHELL};

fn strings(v: &[&str]) -> Vec<String> {
    v.iter().map(|s| s.to_string()).collect()
}

fn parse(args: &[&str]) -> ParsedArgs {
    match cli::parse_command_line(&strings(args)) {
        Ok(p) => p,
        Err(e) => panic!("{}", e.display()),
    }
}

fn fault(args: &[&str]) -> String {
    cli::parse_command_line(&strings(args)).err().unwrap().display()
}

fn bytes(path: &str) -> Option<Vec<u8>> {
    Some(path.as_bytes().to_vec())
}

fn texts(argv: Vec<Vec<u8>>) -> Vec<String> {
    argv.into_iter().map(|a| String::from_utf8(a).unwrap()).collect()
}

fn value(given: &Given) -> Option<&str> {
    match given {
        Given::Value(s) => Some(s),
        _ => None,
    }
}

fn features(backend: Backend, use_pam: bool) -> Features {
    Features { backend, use_pam, expand_env: true, askpass: false }
}

fn service() -> Features {
    features(Backend::SystemdRun, false)
}

fn bob() -> Account {
    let user = User::from_uid(Some(UserEntry {
        uid: 1000,
        gid: 100,
        name: "bob".to_owned(),
        home: b"/home/bob".to_vec(),
        shell: b"/bin/zsh".to_vec(),
    }));
    let group = Group::from_gid(Some(GroupEntry { gid: 100, name: "users".to_owned() }));
    Account::from(user.ok().unwrap(), group).unwrap()
}

#[test]
fn options_with_values() {
    let p = parse(&[
        "-u", "bob", "--group=wheel", "--env", "A=1", "--preserve-env", "X,Y", "-D/tmp", "ls",
    ]);
    assert_eq!(value(&p.user), Some("bob"));
    assert_eq!(value(&p.group), Some("wheel"));
    assert_eq!(value(&p.env), Some("A=1"));
    assert_eq!(value(&p.preserve), Some("X,Y"));
    assert_eq!(value(&p.chdir), Some("/tmp"));
    assert_eq!(p.free, ["ls"]);
    assert!(!p.shell && !p.help && !p.version && !p.stdin && !p.non_interactive);
}

#[test]
fn flags_by_both_names() {
    let p = parse(&["-snS"]);
    assert!(p.shell && p.non_interactive && p.stdin);
    let p = parse(&["--shell", "--non-interactive", "--stdin", "--help", "--version"]);
    assert!(p.shell && p.non_interactive && p.stdin && p.help && p.version);
    let p = parse(&["-hv"]);
    assert!(p.help && p.version && !p.shell);
}

#[test]
fn command_after_the_separator() {
    let p = parse(&["-u", "bob", "--", "ls", "-l", "--", "-u"]);
    assert_eq!(value(&p.user), Some("bob"));
    assert_eq!(p.free, ["ls", "-l", "--", "-u"]);
    let p = parse(&["--", "-h"]);
    assert!(!p.help);
    assert_eq!(p.free, ["-h"]);
}

#[test]
fn command_without_options() {
    let p = parse(&["ls", "-", "", "--", "x"]);
    assert_eq!(p.free, ["ls", "-", "", "x"]);
    assert!(matches!(p.user, Given::Absent));
    assert!(parse(&[]).free.is_empty());
}

#[test]
fn arguments_that_are_refused() {
    assert_eq!(fault(&["-x"]), "Unrecognized option: 'x'");
    assert_eq!(fault(&["--nope"]), "Unrecognized option: 'nope'");
    assert_eq!(fault(&["-u"]), "Argument to option 'u' missing");
    assert_eq!(fault(&["-u", "a", "--user", "b"]), "Option 'user' given more than once");
    assert_eq!(fault(&["--help=yes"]), "Option 'help' does not take an argument");
    assert_eq!(fault(&["ls", "-l"]), "Unrecognized option: 'l'");
}

#[test]
fn help_text() {
    let text = cli::usage_text("runas");
    assert!(text.starts_with("Usage: runas [options] -- CMD\n\nOptions:\n"));
    for o in cli::argv_scheme() {
        assert!(text.contains(&format!("--{}", o.name)));
        assert!(text.contains(o.desc));
    }
    assert!(text.contains("    -u, --user USER     Run process as the specified user name or ID\n"));
}

#[test]
fn one_request() {
    let check = |args: &[&str]| cli::check_arguments(&parse(args)).err().map(|e| e.display());
    assert_eq!(check(&["ls"]), None);
    assert_eq!(check(&["-s"]), None);
    assert_eq!(check(&["-h"]), None);
    assert_eq!(check(&["-v"]), None);
    assert_eq!(
        check(&["-s", "-h"]).as_deref(),
        Some("Options -s, -h and -v are mutually exclusive")
    );
    assert_eq!(
        check(&["-v", "ls"]).as_deref(),
        Some("This option does not accept command arguments")
    );
    assert_eq!(check(&["-u", "bob"]).as_deref(), Some("No command specified"));
}

#[test]
fn requests_with_and_without_values() {
    let p = parse(&["-u", "bob", "ls"]);
    assert_eq!(cli::user_request(&p).ok().unwrap().as_deref(), Some("bob"));
    assert_eq!(cli::group_request(&p).ok().unwrap(), None);
    assert_eq!(cli::chdir_request(&p).ok().unwrap(), None);
    let p = ParsedArgs {
        user: Given::Bare,
        group: Given::Bare,
        env: Given::Bare,
        preserve: Given::Bare,
        chdir: Given::Bare,
        ..parse(&["ls"])
    };
    assert_eq!(cli::user_request(&p).unwrap_err().display(), "User was not supplied");
    assert_eq!(cli::group_request(&p).unwrap_err().display(), "Group was not supplied");
    assert_eq!(
        cli::chdir_request(&p).unwrap_err().display(),
        "No path was defined for working directory"
    );
    assert_eq!(
        cli::asked_environment(&p, &Vec::new()).err().unwrap().display(),
        "Missing environment variable"
    );
    let p = ParsedArgs { env: Given::Absent, ..p };
    assert_eq!(
        cli::asked_environment(&p, &Vec::new()).err().unwrap().display(),
        "Missing environment list"
    );
}

#[test]
fn lookups_that_find_nothing() {
    assert_eq!(cli::accept_user("joe", None).err().unwrap().display(), "User joe is not valid");
    assert_eq!(cli::accept_group("g", None).err().unwrap().display(), "Group g is not valid");
    assert_eq!(
        cli::accept_caller(None).err().unwrap().display(),
        "Failed to initialize current user"
    );
    assert_eq!(
        cli::accept_default(None).err().unwrap().display(),
        "Failed to initialize default user"
    );
    assert_eq!(cli::accept_user("bob", Some(bob())).ok().unwrap().name(), "bob");
}

#[test]
fn versions() {
    assert_eq!(cli::version_text("1.2", service()), "runas 1.2");
    assert_eq!(cli::version_text("1.2", features(Backend::SystemdRun, true)), "runas 1.2 PAM");
    assert_eq!(cli::version_text("1.2", features(Backend::Run0, false)), "runas 1.2 RUN0");
    assert_eq!(
        cli::version_text("1.2", features(Backend::Scopex, true)),
        "runas 1.2 PAM,SCOPEX"
    );
}

#[test]
fn flags_of_a_run() {
    assert_eq!(cli::run_flags(&parse(&["ls"])).bits, 0);
    assert_eq!(cli::run_flags(&parse(&["-snS"])).bits, SHELL | AUTH_NO_PROMPT | AUTH_STDIN);
    assert_eq!(cli::run_flags(&parse(&["-n", "ls"])).bits, AUTH_NO_PROMPT);
}

#[test]
fn variables_that_are_asked_for() {
    let caller = vec![
        EnvVar { name: "X".to_owned(), value: "1".to_owned() },
        EnvVar { name: "Z".to_owned(), value: "2".to_owned() },
    ];
    let p = parse(&["--env", "X=a=b", "--preserve-env", " X ,,Y, Z", "ls"]);
    let env = cli::asked_environment(&p, &caller).ok().unwrap();
    assert_eq!(env.len(), 2);
    assert_eq!(env.get("X"), Some("1"));
    assert_eq!(env.get("Z"), Some("2"));
    let p = parse(&["--env", "X=a=b", "ls"]);
    assert_eq!(cli::asked_environment(&p, &caller).ok().unwrap().get("X"), Some("a=b"));
    let p = parse(&["--env", "X", "ls"]);
    assert_eq!(
        cli::asked_environment(&p, &caller).err().unwrap().display(),
        "Missing environment list"
    );
}

#[test]
fn service_for_a_command() {
    let p = parse(&["-u", "bob", "-g", "wheel", "-D", "/tmp", "--", "ls", "-l"]);
    let mut argv = cli::prepare_argv("/usr/bin/systemd-run", &p, bytes("/w"), true, service());
    let mut env = EnvMap::new();
    env.insert("A".to_owned(), "1".to_owned());
    env.insert("B".to_owned(), "x y".to_owned());
    cli::finish_argv(&mut argv, &env, &p);
    assert_eq!(
        texts(argv),
        [
            "/usr/bin/systemd-run",
            "systemd-run",
            "--uid",
            "bob",
            "--quiet",
            "-G",
            "--send-sighup",
            "--expand-environment=false",
            "--gid",
            "wheel",
            "--working-directory",
            "/tmp",
            "--pty",
            "--service-type=exec",
            "--wait",
            "--setenv",
            "A=1",
            "--setenv",
            "B=x y",
            "--",
            "ls",
            "-l"
        ]
    );
}

#[test]
fn service_for_a_shell() {
    let f = Features { expand_env: false, ..service() };
    let p = parse(&["-s"]);
    let mut argv = cli::prepare_argv("/sr", &p, None, true, f);
    cli::finish_argv(&mut argv, &EnvMap::new(), &p);
    assert_eq!(
        texts(argv),
        [
            "/sr",
            "systemd-run",
            "--uid",
            "0",
            "--quiet",
            "-G",
            "--send-sighup",
            "--same-dir",
            "--shell",
            "--scope"
        ]
    );
}

#[test]
fn run0_for_a_command() {
    let f = features(Backend::Run0, false);
    let p = parse(&["-g", "wheel", "id"]);
    let argv = cli::prepare_argv("/sr", &p, bytes("/w"), false, f);
    assert_eq!(
        texts(argv),
        [
            "/sr",
            "run0",
            "--user",
            "0",
            "--shell-prompt-prefix=",
            "--background=",
            "--group",
            "wheel",
            "--chdir",
            "/w",
            "--pipe"
        ]
    );
    let p = parse(&["-D", "/tmp", "-s"]);
    let argv = cli::prepare_argv("/sr", &p, bytes("/w"), false, f);
    assert_eq!(texts(argv)[6..], ["--chdir", "/tmp"]);
    let argv = cli::prepare_argv("/sr", &parse(&["-s"]), None, false, f);
    assert_eq!(argv.len(), 6);
}

#[test]
fn shell_requests() {
    let check = |p: &ParsedArgs| cli::check_shell(p).err().map(|e| e.display());
    assert_eq!(check(&parse(&["-s"])), None);
    assert_eq!(check(&parse(&["-S", "ls"])), None);
    assert_eq!(
        check(&parse(&["-s", "ls"])).as_deref(),
        Some("Not expecting arguments with the --shell option")
    );
    assert_eq!(
        check(&parse(&["-s", "-S"])).as_deref(),
        Some("The --stdin option is not allowed combined with the --shell option")
    );
}

#[test]
fn commands_in_a_scope() {
    assert_eq!(cli::prepare_scope(&parse(&["-s"]), "/usr/bin/zsh"), ["/usr/bin/zsh", "-zsh"]);
    assert_eq!(
        cli::prepare_scope(&parse(&["--", "ls", "-l"]), "/bin/sh"),
        ["ls", "ls", "-l"]
    );
    assert_eq!(cli::target_shell(Some("/bin/fish"), "/bin/zsh"), "/bin/fish");
    assert_eq!(cli::target_shell(Some("  "), " /bin/zsh "), "/bin/zsh");
    assert_eq!(cli::target_shell(None, " "), "/bin/sh");
    let mut env = EnvMap::new();
    env.insert("A".to_owned(), "b=c".to_owned());
    env.insert("D".to_owned(), String::new());
    assert_eq!(cli::environment_entries(&env), ["A=b=c", "D="]);
}

#[test]
fn placeholders_for_the_target() {
    let v: Vec<(String, String)> =
        cli::placeholders(&bob()).into_iter().map(|e| (e.name, e.value)).collect();
    let expected = [("USER", "bob"), ("GROUP", "users"), ("UID", "1000"), ("GID", "100")];
    for (i, (name, value)) in expected.iter().enumerate() {
        assert_eq!((v[i].0.as_str(), v[i].1.as_str()), (*name, *value));
    }
}

fn stages(args: &[&str], f: Features) -> Vec<RunStage> {
    let p = parse(args);
    let mut stage = cli::first_stage(&p);
    let mut v = Vec::new();
    while stage != RunStage::Exit {
        v.push(stage);
        stage = cli::next_stage(stage, &p, f);
    }
    v
}

#[test]
fn order_of_a_run() {
    assert_eq!(
        stages(&["ls"], service()),
        [
            RunStage::ReadRequest,
            RunStage::FindCaller,
            RunStage::FindDefault,
            RunStage::Prepare,
            RunStage::Authenticate,
            RunStage::ReadOverrides,
            RunStage::Exec
        ]
    );
    assert_eq!(
        stages(&["-u", "bob", "-g", "x", "ls"], features(Backend::Scopex, true)),
        [
            RunStage::FindUser,
            RunStage::FindGroup,
            RunStage::ReadRequest,
            RunStage::FindCaller,
            RunStage::Prepare,
            RunStage::Authenticate,
            RunStage::ReadOverrides,
            RunStage::MergeSession,
            RunStage::SetEnvironment,
            RunStage::Exec
        ]
    );
    assert_eq!(
        stages(&["-u", "bob", "-h"], service()),
        [RunStage::FindUser, RunStage::ShowHelp]
    );
    assert_eq!(stages(&["-v"], service()), [RunStage::ShowVersion]);
    assert_eq!(
        stages(&["ls"], features(Backend::Scopex, false))[6..],
        [RunStage::SetEnvironment, RunStage::Exec]
    );
}

#[test]
fn directories_need_not_be_texts() {
    let f = features(Backend::Run0, false);
    let argv = cli::prepare_argv("/sr", &parse(&["-s"]), Some(vec![b'/', 0xff]), false, f);
    assert_eq!(argv[6..], [b"--chdir".to_vec(), vec![b'/', 0xff]]);
}

#[test]
fn same_directory_unless_another_is_asked_for() {
    let has = |args: &[&str]| {
        let argv = cli::prepare_argv("/sr", &parse(args), None, false, service());
        texts(argv).contains(&"--same-dir".to_owned())
    };
    assert!(has(&["ls"]));
    assert!(!has(&["-D", "/tmp", "ls"]));
    assert!(!has(&["-D", "/tmp", "-s"]));
}
