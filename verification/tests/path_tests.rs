use runas::modules::error::{IoError, IoKind};
use runas::modules::path::{
    execvpe, file_name, find_executable, inspect_candidate, FindPlan, PathSearch, RunPlan,
};
use runas::shared::{EACCES, EINVAL, ENOENT, ENOTDIR};

fn strings(v: &[&str]) -> Vec<String> {
    v.iter().map(|s| s.to_string()).collect()
}

fn failure(kind: IoKind, raw: i32) -> Result<(), IoError> {
    Err(IoError { kind, raw: Some(raw), text: String::new() })
}

fn search(cmd: &str, path: Option<&str>, envp: &[&str]) -> PathSearch {
    match find_executable(cmd, path, &strings(envp)) {
        FindPlan::Search(s) => s,
        _ => panic!("no search"),
    }
}

fn all(mut s: PathSearch) -> Vec<String> {
    let mut v = Vec::new();
    loop {
        match s.current() {
            Some(c) => v.push(c.to_owned()),
            None => return v,
        }
        assert!(s.not_run(ENOENT).is_ok());
    }
}

#[test]
fn paths_are_not_searched_for() {
    assert!(matches!(
        find_executable("/bin/ls", None, &Vec::new()),
        FindPlan::Inspect(s) if s == "/bin/ls"
    ));
    assert!(matches!(
        find_executable("./ls", None, &Vec::new()),
        FindPlan::Canonicalize(s) if s == "./ls"
    ));
    assert!(matches!(execvpe("bin/ls", Some("/bin"), &Vec::new()), RunPlan::Direct));
}

#[test]
fn candidates_in_order() {
    let envp = ["A=1", "PATH=/x::/y/", "PATH=/z", "PATHS=/n"];
    assert_eq!(
        all(search("ls", Some("/usr/bin:/bin/"), &envp)),
        ["/usr/bin/ls", "/bin/ls", "/z/ls", "/x/ls", "/y/ls"]
    );
    match execvpe("ls", Some("/usr/bin"), &strings(&envp)) {
        RunPlan::Search(s) => {
            assert_eq!(all(s), ["/usr/bin/ls", "/x/ls", "/y/ls", "/z/ls"]);
        }
        RunPlan::Direct => panic!("no search"),
    }
    assert!(all(search("ls", None, &[])).is_empty());
    assert!(all(search("ls", Some("::"), &[])).is_empty());
}

#[test]
fn joins_like_std() {
    for dir in ["/a", "/a/", "a", "/"] {
        let expected = std::path::Path::new(dir).join("cmd");
        assert_eq!(all(search("cmd", Some(dir), &[])), [expected.to_str().unwrap()]);
    }
}

#[test]
fn first_usable_candidate_is_found() {
    let mut s = search("ls", Some("/a:/b:/c"), &[]);
    assert!(s.inspected(failure(IoKind::NotFound, ENOENT)).ok().unwrap().is_none());
    assert!(s.inspected(failure(IoKind::PermissionDenied, EACCES)).ok().unwrap().is_none());
    assert_eq!(s.inspected(Ok(())).ok().unwrap().as_deref(), Some("/c/ls"));
}

#[test]
fn errors_of_a_search() {
    let mut s = search("ls", Some("/a:/b"), &[]);
    assert_eq!(s.exhausted(), ENOENT);
    assert!(s.inspected(failure(IoKind::Other, ENOTDIR)).ok().unwrap().is_none());
    assert_eq!(s.exhausted(), ENOENT);
    assert!(s.inspected(failure(IoKind::PermissionDenied, EACCES)).ok().unwrap().is_none());
    assert_eq!(s.exhausted(), EACCES);
    assert!(s.current().is_none());
    let mut s = search("ls", Some("/a"), &[]);
    assert_eq!(s.inspected(failure(IoKind::Other, EINVAL)).unwrap_err().raw, Some(EINVAL));
    let mut s = search("ls", Some("/a:/b"), &[]);
    assert_eq!(s.not_run(EACCES), Ok(()));
    assert_eq!(s.not_run(EINVAL), Err(EINVAL));
    assert_eq!(s.exhausted(), EACCES);
}

#[test]
fn usable_files() {
    assert_eq!(inspect_candidate(true, 0o100755), Ok(()));
    assert_eq!(inspect_candidate(true, 0o100001), Ok(()));
    assert_eq!(inspect_candidate(true, 0o100644), Err(EACCES));
    assert_eq!(inspect_candidate(false, 0o040755), Err(EACCES));
}

#[test]
fn file_names_like_std() {
    for p in [
        "/bin/bash", "bash", "/bin/bash/", "/bin/./", "/", "", ".", "./", "..", "a/..", "a/.", "/.",
        "//x//", "./.", "a/b/../c",
    ] {
        let expected = std::path::Path::new(p).file_name().map(|n| n.to_str().unwrap());
        assert_eq!(file_name(p), expected, "{p}");
    }
}
