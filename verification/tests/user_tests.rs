use runas::modules::user::{after_missing, Account, AccountSearch, Group, GroupEntry, IdQuery};
use runas::modules::user::{Question, User, UserEntry};

fn entry(uid: u32, gid: u32, name: &str) -> UserEntry {
    UserEntry {
        uid,
        gid,
        name: name.to_owned(),
        home: format!("/home/{name}").into_bytes(),
        shell: b"/bin/bash".to_vec(),
    }
}

fn account(uid: u32, gid: u32, name: &str) -> Account {
    let user = User::from_uid(Some(entry(uid, gid, name))).ok().unwrap();
    let group = Group::from_gid(Some(GroupEntry { gid, name: format!("g{gid}") }));
    Account::from(user, group).unwrap()
}

fn group(gid: u32) -> Group {
    Group::from_gid(Some(GroupEntry { gid, name: "g".to_owned() })).unwrap()
}

#[test]
fn marked_number() {
    assert_eq!(User::from("#1000").ok(), Some(IdQuery::ById(1000)));
    assert_eq!(Group::from("#0").ok(), Some(IdQuery::ById(0)));
    assert_eq!(
        User::from("#bob").err().unwrap().display(),
        "parse error invalid digit found in string"
    );
    assert_eq!(
        User::from("#").err().unwrap().display(),
        "parse error cannot parse integer from empty string"
    );
}

#[test]
fn plain_number_is_a_name_first() {
    assert_eq!(User::from("1000").ok(), Some(IdQuery::ByNameThenId));
    assert_eq!(
        after_missing(IdQuery::ByNameThenId, "1000").ok().unwrap(),
        Some(IdQuery::ById(1000))
    );
    assert!(after_missing(IdQuery::ByNameThenId, "99999999999").is_err());
}

#[test]
fn name() {
    assert_eq!(User::from("bob").ok(), Some(IdQuery::ByName));
    assert_eq!(after_missing(IdQuery::ByName, "bob").ok().unwrap(), None);
    assert_eq!(after_missing(IdQuery::ById(3), "#3").ok().unwrap(), None);
}

#[test]
fn entries() {
    let a = account(1000, 100, "bob");
    assert_eq!(a.name(), "bob");
    assert_eq!(a.home(), "/home/bob");
    assert_eq!(a.shell(), "/bin/bash");
    assert_eq!((a.uid(), a.gid()), (1000, 100));
    assert_eq!(a.user().gid(), 100);
    assert_eq!(a.group().name(), "g100");
    assert!(!a.is_root());
    assert!(account(0, 0, "root").is_root());
}

#[test]
fn entries_that_are_not_utf8() {
    let mut e = entry(1, 1, "x");
    e.home = vec![0xff];
    assert_eq!(
        User::from_uid(Some(e)).err().unwrap().display(),
        "user home path is not valid UTF-8"
    );
    let mut e = entry(1, 1, "x");
    e.shell = vec![0xc0];
    assert_eq!(
        User::from_uid(Some(e)).err().unwrap().display(),
        "user shell path is not valid UTF-8"
    );
    assert!(User::from_uid(None).ok().unwrap().is_none());
}

#[test]
fn an_account_needs_both() {
    let user = User::from_uid(Some(entry(1, 1, "x"))).ok().unwrap();
    assert!(Account::from(user, None).is_none());
    assert!(Account::from(None, Some(group(1))).is_none());
}

#[test]
fn membership() {
    let mut a = account(1000, 100, "bob");
    assert_eq!(a.is_member(&group(100)), None);
    a.set_group_list(vec![100, 10]);
    assert_eq!(a.is_member(&group(10)), Some(true));
    assert_eq!(a.is_member(&group(11)), Some(false));
    a.set_group_list(vec![11]);
    assert_eq!(a.is_member(&group(11)), Some(false));
    assert_eq!(account(0, 0, "root").is_member(&group(77)), Some(true));
}

#[test]
fn another_group() {
    let mut a = account(1000, 100, "bob");
    a.set_group(group(5));
    assert_eq!(a.gid(), 5);
    assert_eq!(a.user().gid(), 100);
}

#[test]
fn search_for_an_account() {
    let s = AccountSearch::from("1000").ok().unwrap();
    assert_eq!(s.question(), Question::FindUser(IdQuery::ByNameThenId));
    let s = s.on_found(None).ok().unwrap();
    assert_eq!(s.question(), Question::FindUser(IdQuery::ById(1000)));
    let s = s.on_found(Some(1000)).ok().unwrap();
    assert_eq!(s.question(), Question::ReadUser(1000));
    let s = s.on_user(Some(entry(1000, 100, "bob"))).ok().unwrap();
    assert_eq!(s.question(), Question::ReadGroup(100));
    let s = s.on_group(Some(GroupEntry { gid: 100, name: "users".to_owned() }));
    assert_eq!(s.question(), Question::Nothing);
    let account = s.finish().unwrap();
    assert_eq!((account.name(), account.group().name()), ("bob", "users"));
}

#[test]
fn search_that_finds_nothing() {
    let s = AccountSearch::from("bob").ok().unwrap().on_found(None).ok().unwrap();
    assert_eq!(s.question(), Question::Nothing);
    assert!(s.finish().is_none());
    let s = AccountSearch::from_uid(0).on_user(None).ok().unwrap();
    assert!(s.finish().is_none());
    let s = AccountSearch::from_uid(0).on_user(Some(entry(0, 0, "root"))).ok().unwrap();
    assert!(s.on_group(None).finish().is_none());
    assert!(AccountSearch::from("#x").is_err());
    let s = AccountSearch::from("99999999999").ok().unwrap();
    assert!(s.on_found(None).is_err());
}

#[test]
fn another_user_has_other_groups() {
    let mut a = account(1000, 100, "bob");
    a.set_group_list(vec![100, 10]);
    a.set_user(User::from_uid(Some(entry(1001, 101, "eve"))).ok().unwrap().unwrap());
    assert_eq!(a.name(), "eve");
    assert!(a.group_list().is_none());
    assert_eq!(a.is_member(&group(10)), None);
    a.set_group_list(vec![101]);
    assert_eq!(a.is_member(&group(10)), Some(false));
    assert_eq!(a.is_member(&group(101)), Some(true));
}
