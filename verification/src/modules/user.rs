//! Users, groups and accounts.
//!
//! The user and group databases belong to the system. What is decided here is which of their
//! entries a text names, what becomes of the entries that were found, and whether an account
//! belongs to a group.

use vstd::prelude::*;
use vstd::string::*;
use vstd::utf8::*;

use crate::modules::error;
use crate::modules::error::{Error, ErrorView};
use crate::text;

verus! {

// ---------------------------------------------------------------------------------------------
// Finding an entry by name or number
// ---------------------------------------------------------------------------------------------

/// The next question for a user or group database.
#[derive(Debug, Clone, Copy, PartialEq, Eq, Structural)]
pub enum IdQuery {
    /// Look for the entry with this number.
    ById(u32),
    /// Look for the entry whose name is the text.
    ByName,
    /// Look for the entry whose name is the text; failing that, the text is a number.
    ByNameThenId,
}

/// Every character of `s` is numeric.
pub open spec fn is_all_numeric(s: Seq<char>) -> bool {
    forall|i: int| 0 <= i < s.len() ==> text::numeric(#[trigger] s[i])
}

/// `s` is marked as a number.
pub open spec fn is_marked(s: Seq<char>) -> bool {
    s.len() > 0 && s[0] == '#'
}

/// The first question for the text `s`: after `#` stands a number, a text of numeric characters
/// may be a name or a number, and any other text is a name.
pub open spec fn first_query(s: Seq<char>) -> Result<IdQuery, ErrorView> {
    if is_marked(s) {
        number_query(s.drop_first())
    } else if is_all_numeric(s) {
        Ok(IdQuery::ByNameThenId)
    } else {
        Ok(IdQuery::ByName)
    }
}

/// The question for the number that `s` spells.
pub open spec fn number_query(s: Seq<char>) -> Result<IdQuery, ErrorView> {
    match text::parsed(s) {
        Ok(n) => Ok(IdQuery::ById(n as u32)),
        Err(e) => Err(ErrorView::ParseInt(e)),
    }
}

/// `r` is what `expected` describes.
pub open spec fn query_is(
    r: Result<IdQuery, Error>,
    expected: Result<IdQuery, ErrorView>,
) -> bool {
    match r {
        Ok(q) => expected == Ok::<IdQuery, ErrorView>(q),
        Err(e) => expected == Err::<IdQuery, ErrorView>(e@),
    }
}

/// The question for the number that `s` spells.
fn query_number(s: &str) -> (r: Result<IdQuery, Error>)
    ensures
        query_is(r, number_query(s@)),
{
    match text::parse_u32(s) {
        Ok(n) => Ok(IdQuery::ById(n)),
        Err(e) => Err(Error::ParseInt(e)),
    }
}

/// The first question for the text `s`.
fn query_text(s: &str) -> (r: Result<IdQuery, Error>)
    ensures
        query_is(r, first_query(s@)),
{
    proof {
        reveal_strlit("#");
        assert("#"@ =~= seq!['#']);
    }
    match text::strip_prefix(s, "#") {
        Some(rest) => {
            assert(s@.take(1)[0] == s@[0]);
            assert(s@.skip(1) =~= s@.drop_first());
            query_number(rest)
        },
        None => {
            assert(is_marked(s@) ==> s@.take(1) =~= seq!['#']);
            if text::all_numeric(s) {
                Ok(IdQuery::ByNameThenId)
            } else {
                Ok(IdQuery::ByName)
            }
        },
    }
}

/// The question that follows when the answer to `query` was that there is no such entry.
pub open spec fn next_query(query: IdQuery, s: Seq<char>) -> Option<Result<IdQuery, ErrorView>> {
    match query {
        IdQuery::ByNameThenId => Some(number_query(s)),
        _ => None,
    }
}

/// The question that follows when the answer to `query` for the text `s` was that there is no
/// such entry; none if the search is over.
pub fn after_missing(query: IdQuery, s: &str) -> (r: Result<Option<IdQuery>, Error>)
    ensures
        match next_query(query, s@) {
            None => r == Ok::<Option<IdQuery>, Error>(None),
            Some(Ok(q)) => r == Ok::<Option<IdQuery>, Error>(Some(q)),
            Some(Err(e)) => error::fails(r, e),
        },
{
    match query {
        IdQuery::ByNameThenId => match query_number(s) {
            Ok(q) => Ok(Some(q)),
            Err(e) => Err(e),
        },
        _ => Ok(None),
    }
}

/// A number behind `#` is looked up as a number and never as a name.
pub proof fn law_marked_number(n: u32)
    ensures
        first_query(seq!['#'] + text::decimal(n as nat)) == Ok::<IdQuery, ErrorView>(
            IdQuery::ById(n),
        ),
{
    text::law_parse_decimal(n);
    let s = seq!['#'] + text::decimal(n as nat);
    assert(s.drop_first() =~= text::decimal(n as nat));
}

/// The decimal digits of a number are looked up as a name first, and as that number if there is
/// no such name.
pub proof fn law_plain_number(n: u32)
    ensures
        first_query(text::decimal(n as nat)) == Ok::<IdQuery, ErrorView>(IdQuery::ByNameThenId),
        next_query(IdQuery::ByNameThenId, text::decimal(n as nat)) == Some(
            Ok::<IdQuery, ErrorView>(IdQuery::ById(n)),
        ),
{
    text::law_parse_decimal(n);
    text::lemma_decimal_digits(n as nat);
    let s = text::decimal(n as nat);
    assert forall|i: int| 0 <= i < s.len() implies text::numeric(#[trigger] s[i]) by {
        assert(text::is_digit(s[i]));
    }
}

// ---------------------------------------------------------------------------------------------
// Users and groups
// ---------------------------------------------------------------------------------------------

/// An entry of the user database.
pub struct UserEntry {
    /// The number of the user.
    pub uid: u32,
    /// The number of the primary group.
    pub gid: u32,
    /// The name.
    pub name: String,
    /// The home directory, as the system stores it.
    pub home: Vec<u8>,
    /// The shell, as the system stores it.
    pub shell: Vec<u8>,
}

/// An entry of the group database.
pub struct GroupEntry {
    /// The number of the group.
    pub gid: u32,
    /// The name.
    pub name: String,
}

/// A group.
pub struct Group {
    gid: u32,
    name: String,
}

/// A user.
pub struct User {
    uid: u32,
    gid: u32,
    name: String,
    home: String,
    shell: String,
}

/// A user together with the group that the user acts in.
pub struct Account {
    user: User,
    group: Group,
    group_list: Option<Vec<u32>>,
}

/// What a `Group` says.
#[verifier::ext_equal]
pub struct GroupView {
    /// The number.
    pub gid: u32,
    /// The name.
    pub name: Seq<char>,
}

/// What a `User` says.
#[verifier::ext_equal]
pub struct UserView {
    /// The number.
    pub uid: u32,
    /// The number of the primary group.
    pub gid: u32,
    /// The name.
    pub name: Seq<char>,
    /// The home directory.
    pub home: Seq<char>,
    /// The shell.
    pub shell: Seq<char>,
}

/// What an `Account` says.
#[verifier::ext_equal]
pub struct AccountView {
    /// The user.
    pub user: UserView,
    /// The group.
    pub group: GroupView,
    /// The groups that the user belongs to, once they are known.
    pub group_list: Option<Seq<u32>>,
}

impl View for Group {
    type V = GroupView;

    closed spec fn view(&self) -> GroupView {
        GroupView { gid: self.gid, name: self.name@ }
    }
}

impl View for User {
    type V = UserView;

    closed spec fn view(&self) -> UserView {
        UserView {
            uid: self.uid,
            gid: self.gid,
            name: self.name@,
            home: self.home@,
            shell: self.shell@,
        }
    }
}

impl View for Account {
    type V = AccountView;

    closed spec fn view(&self) -> AccountView {
        AccountView {
            user: self.user@,
            group: self.group@,
            group_list: match self.group_list {
                Some(list) => Some(list@),
                None => None,
            },
        }
    }
}

/// The number of the superuser.
pub const ROOT_UID: u32 = 0;

/// The user of an entry, or why it cannot be used.
pub open spec fn user_of(entry: UserEntry) -> Result<UserView, ErrorView> {
    if !valid_utf8(entry.home@) {
        Err(ErrorView::StaticMessage("user home path is not valid UTF-8"@))
    } else if !valid_utf8(entry.shell@) {
        Err(ErrorView::StaticMessage("user shell path is not valid UTF-8"@))
    } else {
        Ok(
            UserView {
                uid: entry.uid,
                gid: entry.gid,
                name: entry.name@,
                home: decode_utf8(entry.home@),
                shell: decode_utf8(entry.shell@),
            },
        )
    }
}

/// The text that `bytes` encode.
fn path_text(bytes: &Vec<u8>) -> (r: Option<String>)
    ensures
        match r {
            Some(s) => valid_utf8(bytes@) && s@ == decode_utf8(bytes@),
            None => !valid_utf8(bytes@),
        },
{
    match text::from_utf8(bytes.as_slice()) {
        Ok(s) => {
            proof {
                encode_utf8_valid_utf8(s@);
                encode_utf8_decode_utf8(s@);
            }
            Some(s)
        },
        Err(_) => None,
    }
}

impl User {
    /// Tells whether this is the superuser.
    pub fn is_root(&self) -> (r: bool)
        ensures
            r == (self@.uid == ROOT_UID),
    {
        self.uid == ROOT_UID
    }

    /// The shell.
    pub fn shell(&self) -> (r: &str)
        ensures
            r@ == self@.shell,
    {
        self.shell.as_str()
    }

    /// The home directory.
    pub fn home(&self) -> (r: &str)
        ensures
            r@ == self@.home,
    {
        self.home.as_str()
    }

    /// The name.
    pub fn name(&self) -> (r: &str)
        ensures
            r@ == self@.name,
    {
        self.name.as_str()
    }

    /// The number.
    pub fn uid(&self) -> (r: u32)
        ensures
            r == self@.uid,
    {
        self.uid
    }

    /// The number of the primary group.
    pub fn gid(&self) -> (r: u32)
        ensures
            r == self@.gid,
    {
        self.gid
    }

    /// Begins the search for the user that `user` names: a name (`bob`), a number (`1000`) or a
    /// number that cannot be taken for a name (`#1000`). The result is the first question for
    /// the user database.
    pub fn from(user: &str) -> (r: Result<IdQuery, Error>)
        ensures
            query_is(r, first_query(user@)),
    {
        query_text(user)
    }

    /// The user of the entry that the user database has for a number.
    pub fn from_uid(found: Option<UserEntry>) -> (r: Result<Option<Self>, Error>)
        ensures
            match found {
                None => r == Ok::<Option<User>, Error>(None),
                Some(entry) => match user_of(entry) {
                    Ok(v) => r matches Ok(Some(user)) && user@ == v,
                    Err(e) => error::fails(r, e),
                },
            },
    {
        match found {
            None => Ok(None),
            Some(entry) => {
                let home = match path_text(&entry.home) {
                    Some(s) => s,
                    None => {
                        return Err(Error::StaticMessage("user home path is not valid UTF-8"));
                    },
                };
                let shell = match path_text(&entry.shell) {
                    Some(s) => s,
                    None => {
                        return Err(Error::StaticMessage("user shell path is not valid UTF-8"));
                    },
                };
                Ok(Some(User { uid: entry.uid, gid: entry.gid, name: entry.name, home, shell }))
            },
        }
    }
}

impl Group {
    /// The name.
    pub fn name(&self) -> (r: &str)
        ensures
            r@ == self@.name,
    {
        self.name.as_str()
    }

    /// The number.
    pub fn gid(&self) -> (r: u32)
        ensures
            r == self@.gid,
    {
        self.gid
    }

    /// Begins the search for the group that `group` names, as `User::from` does for users. The
    /// result is the first question for the group database.
    pub fn from(group: &str) -> (r: Result<IdQuery, Error>)
        ensures
            query_is(r, first_query(group@)),
    {
        query_text(group)
    }

    /// The group of the entry that the group database has for a number or a name.
    pub fn from_gid(found: Option<GroupEntry>) -> (r: Option<Self>)
        ensures
            match found {
                None => r is None,
                Some(entry) => r matches Some(group) && group@ == (GroupView {
                    gid: entry.gid,
                    name: entry.name@,
                }),
            },
    {
        match found {
            None => None,
            Some(entry) => Some(Group { gid: entry.gid, name: entry.name }),
        }
    }
}

/// Tells whether `gid` stands in `list`.
fn lists(list: &Vec<u32>, gid: u32) -> (r: bool)
    ensures
        r == list@.contains(gid),
{
    let mut i: usize = 0;
    while i < list.len()
        invariant
            i <= list@.len(),
            forall|j: int| 0 <= j < i ==> list@[j] != gid,
        decreases list.len() - i,
    {
        if list[i] == gid {
            return true;
        }
        i = i + 1;
    }
    false
}

impl AccountView {
    /// The account belongs to the superuser.
    pub open spec fn root(self) -> bool {
        self.user.uid == ROOT_UID
    }

    /// The account belongs to the group `gid`: the superuser belongs to every group, another
    /// user to those in the list. Without the list it is not known.
    pub open spec fn membership(self, gid: u32) -> Option<bool> {
        if self.root() {
            Some(true)
        } else {
            match self.group_list {
                Some(list) => Some(list.contains(gid)),
                None => None,
            }
        }
    }
}

impl Account {
    /// Tells whether the user is the superuser.
    pub fn is_root(&self) -> (r: bool)
        ensures
            r == self@.root(),
    {
        self.user.is_root()
    }

    /// The shell of the user.
    pub fn shell(&self) -> (r: &str)
        ensures
            r@ == self@.user.shell,
    {
        self.user.shell()
    }

    /// The home directory of the user.
    pub fn home(&self) -> (r: &str)
        ensures
            r@ == self@.user.home,
    {
        self.user.home()
    }

    /// The name of the user.
    pub fn name(&self) -> (r: &str)
        ensures
            r@ == self@.user.name,
    {
        self.user.name()
    }

    /// The number of the user.
    pub fn uid(&self) -> (r: u32)
        ensures
            r == self@.user.uid,
    {
        self.user.uid()
    }

    /// The number of the group that the user acts in.
    pub fn gid(&self) -> (r: u32)
        ensures
            r == self@.group.gid,
    {
        self.group.gid()
    }

    /// The user.
    pub fn user(&self) -> (r: &User)
        ensures
            r@ == self@.user,
    {
        &self.user
    }

    /// The group.
    pub fn group(&self) -> (r: &Group)
        ensures
            r@ == self@.group,
    {
        &self.group
    }

    /// Puts another user in place, whose groups are not known yet.
    pub fn set_user(&mut self, user: User)
        ensures
            final(self)@ == (AccountView { user: user@, group_list: None, ..old(self)@ }),
    {
        self.user = user;
        self.group_list = None;
    }

    /// Lets the user act in another group.
    pub fn set_group(&mut self, group: Group)
        ensures
            final(self)@ == (AccountView { group: group@, ..old(self)@ }),
    {
        self.group = group;
    }

    /// The account of a user and the entry found for the primary group; there is none without
    /// both.
    pub fn from(user: Option<User>, group: Option<Group>) -> (r: Option<Self>)
        ensures
            match (user, group) {
                (Some(u), Some(g)) => r matches Some(a) && a@ == (AccountView {
                    user: u@,
                    group: g@,
                    group_list: None,
                }),
                _ => r is None,
            },
    {
        match (user, group) {
            (Some(user), Some(group)) => Some(Account { user, group, group_list: None }),
            _ => None,
        }
    }

    /// The groups that the user belongs to, once they are known.
    pub fn group_list(&self) -> (r: Option<&Vec<u32>>)
        ensures
            match r {
                Some(list) => self@.group_list == Some(list@),
                None => self@.group_list is None,
            },
    {
        match &self.group_list {
            Some(list) => Some(list),
            None => None,
        }
    }

    /// Keeps the groups that the user belongs to. A list that is known already stays.
    pub fn set_group_list(&mut self, list: Vec<u32>)
        ensures
            final(self)@ == (AccountView {
                group_list: match old(self)@.group_list {
                    Some(known) => Some(known),
                    None => Some(list@),
                },
                ..old(self)@
            }),
    {
        if self.group_list.is_none() {
            self.group_list = Some(list);
        }
    }

    /// Tells whether the account belongs to `group`. For a user other than the superuser the
    /// groups have to be known; `None` means that they are not.
    pub fn is_member(&self, group: &Group) -> (r: Option<bool>)
        ensures
            r == self@.membership(group@.gid),
    {
        if self.user.is_root() {
            return Some(true);
        }
        match &self.group_list {
            None => None,
            Some(list) => Some(lists(list, group.gid)),
        }
    }
}

// ---------------------------------------------------------------------------------------------
// Finding an account
// ---------------------------------------------------------------------------------------------

/// Where the search for an account stands.
enum SearchStage {
    Find(IdQuery),
    Read(u32),
    Primary(User),
    Found(Account),
    Absent,
}

/// The search for the account that a text or a number names: first the entry of the user is
/// found, then it is read by its number, and then the entry of the primary group is read.
pub struct AccountSearch {
    text: String,
    stage: SearchStage,
}

/// What an `AccountSearch` has come to.
#[verifier::ext_equal]
pub enum SearchView {
    /// The entry of the user is to be found.
    Find(IdQuery),
    /// The entry of the user with this number is to be read.
    Read(u32),
    /// The entry of the primary group of this user is to be read.
    Primary(UserView),
    /// This is the account.
    Found(AccountView),
    /// There is no such account.
    Absent,
}

/// The next question of a search.
#[derive(Debug, Clone, Copy, PartialEq, Eq, Structural)]
pub enum Question {
    /// Which number has the user that this query finds?
    FindUser(IdQuery),
    /// What is the entry of the user with this number?
    ReadUser(u32),
    /// What is the entry of the group with this number?
    ReadGroup(u32),
    /// None: the search is over.
    Nothing,
}

/// The question of a search that has come to `s`.
pub open spec fn question_of(s: SearchView) -> Question {
    match s {
        SearchView::Find(q) => Question::FindUser(q),
        SearchView::Read(uid) => Question::ReadUser(uid),
        SearchView::Primary(user) => Question::ReadGroup(user.gid),
        SearchView::Found(_) => Question::Nothing,
        SearchView::Absent => Question::Nothing,
    }
}

/// A search for the user `text`, after the query `q` found `uid`.
pub open spec fn after_find(q: IdQuery, text: Seq<char>, uid: Option<u32>) -> Result<
    SearchView,
    ErrorView,
> {
    match uid {
        Some(n) => Ok(SearchView::Read(n)),
        None => match next_query(q, text) {
            None => Ok(SearchView::Absent),
            Some(Ok(next)) => Ok(SearchView::Find(next)),
            Some(Err(e)) => Err(e),
        },
    }
}

/// A search after the entry of the user was read.
pub open spec fn after_user(found: Option<UserEntry>) -> Result<SearchView, ErrorView> {
    match found {
        None => Ok(SearchView::Absent),
        Some(entry) => match user_of(entry) {
            Ok(user) => Ok(SearchView::Primary(user)),
            Err(e) => Err(e),
        },
    }
}

/// A search after the entry of the primary group was read.
pub open spec fn after_group(user: UserView, found: Option<GroupEntry>) -> SearchView {
    match found {
        None => SearchView::Absent,
        Some(entry) => SearchView::Found(
            AccountView {
                user,
                group: GroupView { gid: entry.gid, name: entry.name@ },
                group_list: None,
            },
        ),
    }
}

impl AccountSearch {
    /// What the search has come to.
    pub closed spec fn state(self) -> SearchView {
        match self.stage {
            SearchStage::Find(q) => SearchView::Find(q),
            SearchStage::Read(uid) => SearchView::Read(uid),
            SearchStage::Primary(user) => SearchView::Primary(user@),
            SearchStage::Found(account) => SearchView::Found(account@),
            SearchStage::Absent => SearchView::Absent,
        }
    }

    /// The text that is searched for.
    pub closed spec fn text(self) -> Seq<char> {
        self.text@
    }

    /// Begins the search for the account that `text` names.
    pub fn from(text: &str) -> (r: Result<Self, Error>)
        ensures
            match first_query(text@) {
                Ok(q) => r matches Ok(s) && s.state() == SearchView::Find(q) && s.text() == text@,
                Err(e) => error::fails(r, e),
            },
    {
        match User::from(text) {
            Ok(q) => Ok(AccountSearch { text: text.to_owned(), stage: SearchStage::Find(q) }),
            Err(e) => Err(e),
        }
    }

    /// Begins the search for the account with the number `uid`.
    pub fn from_uid(uid: u32) -> (r: Self)
        ensures
            r.state() == SearchView::Read(uid),
    {
        AccountSearch { text: String::new(), stage: SearchStage::Read(uid) }
    }

    /// The next question.
    pub fn question(&self) -> (r: Question)
        ensures
            r == question_of(self.state()),
    {
        match &self.stage {
            SearchStage::Find(q) => Question::FindUser(*q),
            SearchStage::Read(uid) => Question::ReadUser(*uid),
            SearchStage::Primary(user) => Question::ReadGroup(user.gid()),
            SearchStage::Found(_) => Question::Nothing,
            SearchStage::Absent => Question::Nothing,
        }
    }

    /// Goes on with the number of the user that was found.
    pub fn on_found(self, uid: Option<u32>) -> (r: Result<Self, Error>)
        requires
            self.state() is Find,
        ensures
            match after_find(self.state()->Find_0, self.text(), uid) {
                Ok(v) => r matches Ok(s) && s.state() == v && s.text() == self.text(),
                Err(e) => error::fails(r, e),
            },
    {
        let stage = match uid {
            Some(n) => SearchStage::Read(n),
            None => match &self.stage {
                SearchStage::Find(q) => match after_missing(*q, self.text.as_str()) {
                    Ok(Some(next)) => SearchStage::Find(next),
                    Ok(None) => SearchStage::Absent,
                    Err(e) => {
                        return Err(e);
                    },
                },
                _ => SearchStage::Absent,
            },
        };
        Ok(AccountSearch { text: self.text, stage })
    }

    /// Goes on with the entry of the user.
    pub fn on_user(self, found: Option<UserEntry>) -> (r: Result<Self, Error>)
        requires
            self.state() is Read,
        ensures
            match after_user(found) {
                Ok(v) => r matches Ok(s) && s.state() == v,
                Err(e) => error::fails(r, e),
            },
    {
        match User::from_uid(found) {
            Err(e) => Err(e),
            Ok(None) => Ok(AccountSearch { text: self.text, stage: SearchStage::Absent }),
            Ok(Some(user)) => Ok(
                AccountSearch { text: self.text, stage: SearchStage::Primary(user) },
            ),
        }
    }

    /// Goes on with the entry of the primary group.
    pub fn on_group(self, found: Option<GroupEntry>) -> (r: Self)
        requires
            self.state() is Primary,
        ensures
            r.state() == after_group(self.state()->Primary_0, found),
    {
        let AccountSearch { text, stage } = self;
        let next = match stage {
            SearchStage::Primary(user) => match Account::from(Some(user), Group::from_gid(found)) {
                Some(account) => SearchStage::Found(account),
                None => SearchStage::Absent,
            },
            other => other,
        };
        AccountSearch { text, stage: next }
    }

    /// The account that was found.
    pub fn finish(self) -> (r: Option<Account>)
        ensures
            match self.state() {
                SearchView::Found(a) => r matches Some(account) && account@ == a,
                _ => r is None,
            },
    {
        match self.stage {
            SearchStage::Found(account) => Some(account),
            _ => None,
        }
    }
}

/// An account has the user of the entry with the number that was found, and the group of the
/// entry with the number of that user's primary group; without either there is no account. Its
/// other groups are not known yet.
pub proof fn law_account_parts(q: IdQuery, text: Seq<char>, uid: u32, entry: UserEntry)
    requires
        user_of(entry) is Ok,
    ensures
        ({
            let read = after_find(q, text, Some(uid))->Ok_0;
            let primary = after_user(Some(entry))->Ok_0;
            &&& question_of(read) == Question::ReadUser(uid)
            &&& question_of(primary) == Question::ReadGroup(entry.gid)
            &&& after_user(None) == Ok::<SearchView, ErrorView>(SearchView::Absent)
            &&& forall|found: Option<GroupEntry>|
                match #[trigger] after_group(primary->Primary_0, found) {
                    SearchView::Found(a) => found is Some && a.user.name == entry.name@
                        && a.user.uid == entry.uid && a.group.gid == found->Some_0.gid
                        && a.group_list is None,
                    SearchView::Absent => found is None,
                    _ => false,
                }
        }),
{
}

/// A text with a character that is no number is a name and nothing else.
pub proof fn law_name(s: Seq<char>, i: int)
    requires
        0 <= i < s.len(),
        !text::numeric(s[i]),
        s[0] != '#',
    ensures
        first_query(s) == Ok::<IdQuery, ErrorView>(IdQuery::ByName),
        next_query(IdQuery::ByName, s) is None,
{
}

/// Behind the mark stands a number and nothing else: what cannot be read as one is refused with
/// the reason, and a number that is not found is not looked for as a name.
pub proof fn law_marked(s: Seq<char>, n: u32)
    ensures
        match text::parsed(s) {
            Ok(v) => first_query(seq!['#'] + s) == Ok::<IdQuery, ErrorView>(
                IdQuery::ById(v as u32),
            ),
            Err(e) => first_query(seq!['#'] + s) == Err::<IdQuery, ErrorView>(
                ErrorView::ParseInt(e),
            ),
        },
        next_query(IdQuery::ById(n), s) is None,
{
    assert((seq!['#'] + s).drop_first() =~= s);
}

/// A user is what the entry says; the home directory and the shell have to be texts.
pub proof fn law_user_fields(entry: UserEntry, home: Seq<char>, shell: Seq<char>)
    ensures
        entry.home@ == encode_utf8(home) && entry.shell@ == encode_utf8(shell) ==> (user_of(
            entry,
        ) matches Ok(user) && user.uid == entry.uid && user.gid == entry.gid && user.name
            == entry.name@ && user.home == home && user.shell == shell),
        !valid_utf8(entry.home@) ==> user_of(entry) == Err::<UserView, ErrorView>(
            ErrorView::StaticMessage("user home path is not valid UTF-8"@),
        ),
        valid_utf8(entry.home@) && !valid_utf8(entry.shell@) ==> user_of(entry) == Err::<
            UserView,
            ErrorView,
        >(ErrorView::StaticMessage("user shell path is not valid UTF-8"@)),
{
    encode_utf8_valid_utf8(home);
    encode_utf8_valid_utf8(shell);
    encode_utf8_decode_utf8(home);
    encode_utf8_decode_utf8(shell);
}

/// The superuser, whose number is zero, belongs to every group. Anybody else belongs to the
/// groups in the list, and without the list nothing is known.
pub proof fn law_membership(account: AccountView, gid: u32)
    ensures
        account.root() <==> account.user.uid == 0,
        account.user.uid == 0 ==> account.membership(gid) == Some(true),
        account.user.uid != 0 && account.group_list is None ==> account.membership(gid) is None,
        account.user.uid != 0 && account.group_list is Some ==> account.membership(gid) == Some(
            exists|i: int|
                0 <= i < account.group_list->Some_0.len()
                    && #[trigger] account.group_list->Some_0[i] == gid,
        ),
{
}

/// A search asks for the user by the query, then for the entry of the user that was found, then
/// for its primary group, and stops where there is nothing to find. Only digits are tried a
/// second time, as a number.
pub proof fn law_search_steps(q: IdQuery, text: Seq<char>, uid: u32, user: UserView)
    ensures
        question_of(SearchView::Find(q)) == Question::FindUser(q),
        question_of(SearchView::Read(uid)) == Question::ReadUser(uid),
        question_of(SearchView::Primary(user)) == Question::ReadGroup(user.gid),
        question_of(SearchView::Absent) is Nothing,
        after_find(q, text, Some(uid)) == Ok::<SearchView, ErrorView>(SearchView::Read(uid)),
        q != IdQuery::ByNameThenId ==> after_find(q, text, None) == Ok::<SearchView, ErrorView>(
            SearchView::Absent,
        ),
        q == IdQuery::ByNameThenId ==> after_find(q, text, None) == (match text::parsed(text) {
            Ok(n) => Ok::<SearchView, ErrorView>(SearchView::Find(IdQuery::ById(n as u32))),
            Err(e) => Err(ErrorView::ParseInt(e)),
        }),
        after_user(None) == Ok::<SearchView, ErrorView>(SearchView::Absent),
        after_group(user, None) is Absent,
{
}

/// The account that a search ends with is the user and the group that were found, with the groups
/// of the user not known yet.
pub proof fn law_found_account(user: UserView, entry: GroupEntry)
    ensures
        after_group(user, Some(entry)) matches SearchView::Found(account) && account.user == user
            && account.group.gid == entry.gid && account.group.name == entry.name@
            && account.group_list is None,
        question_of(after_group(user, Some(entry))) is Nothing,
{
}

/// An empty text is no name and no number.
pub proof fn law_empty_text(s: Seq<char>)
    requires
        s.len() == 0,
    ensures
        first_query(s) == Ok::<IdQuery, ErrorView>(IdQuery::ByNameThenId),
        next_query(IdQuery::ByNameThenId, s) == Some(
            Err::<IdQuery, ErrorView>(ErrorView::ParseInt(text::IntError::Empty)),
        ),
{
}

/// An answer to a query is the query that was expected, or its error and no other.
pub proof fn law_query_answers(r: Result<IdQuery, Error>, q: IdQuery, e: ErrorView)
    ensures
        query_is(r, Ok(q)) <==> r is Ok && r->Ok_0 == q,
        query_is(r, Err(e)) <==> r is Err && r->Err_0@ == e,
{
}

} // verus!
