//! Who may act as whom.
//!
//! The superuser may do everything, and users may act as themselves in groups that they belong
//! to. Everybody else has to be a member of the authentication group and to authenticate,
//! through PAM or against the shadow file.

use vstd::prelude::*;
use vstd::string::*;

use crate::ffi::pam::{PamItem, PromptMode};
use crate::ffi::shadow::ShadowEntry;
use crate::modules::error;
use crate::modules::error::{Error, ErrorView};
use crate::modules::fork_sync::SyncDecision;
use crate::modules::passwd;
use crate::modules::user::{Account, AccountView, Group};
use crate::shared::{
    Backend, Features, RunFlags, AUTH_GROUP, AUTH_NO_PROMPT, AUTH_STDIN, PROMPT_HIDE, PROMPT_TEXT,
};
use crate::text;

verus! {

// ---------------------------------------------------------------------------------------------
// The decision
// ---------------------------------------------------------------------------------------------

/// What a request needs.
#[derive(Debug, Clone, Copy, PartialEq, Eq, Structural)]
pub enum AuthDecision {
    /// Nothing: it is allowed.
    Allow,
    /// It is denied.
    Deny,
    /// The user has to authenticate.
    Authenticate,
}

/// What a request needs. It is allowed to the superuser, and to users who keep their identity
/// and ask for a group that they belong to; without interaction everything else is denied.
pub open spec fn decision(
    is_root: bool,
    same_uid: bool,
    has_target_group: bool,
    non_interactive: bool,
) -> AuthDecision {
    if is_root || (same_uid && has_target_group) {
        AuthDecision::Allow
    } else if non_interactive {
        AuthDecision::Deny
    } else {
        AuthDecision::Authenticate
    }
}

/// Decides what a request needs.
pub fn auth_decision(
    is_root: bool,
    same_uid: bool,
    has_target_group: bool,
    non_interactive: bool,
) -> (r: AuthDecision)
    ensures
        r == decision(is_root, same_uid, has_target_group, non_interactive),
        r is Allow <==> is_root || (same_uid && has_target_group),
        r is Deny <==> !is_root && !(same_uid && has_target_group) && non_interactive,
{
    if is_root || (same_uid && has_target_group) {
        return AuthDecision::Allow;
    } else if !non_interactive {
        return AuthDecision::Authenticate;
    }
    AuthDecision::Deny
}

/// The next step of authenticating a user for a target.
#[derive(Debug, Clone, Copy, PartialEq, Eq, Structural)]
pub enum AuthStep {
    /// The request is granted.
    Granted,
    /// Find out which groups the user belongs to, and decide again.
    LoadGroups,
    /// Look up the authentication group.
    FindGroup,
    /// Go through PAM. The flag tells to leave out the authentication.
    RunPam(bool),
    /// Check the password against the shadow file.
    ReadShadow,
}

/// Nobody can be asked for a password.
pub open spec fn silent(flags: RunFlags) -> bool {
    flags.has(AUTH_NO_PROMPT) && !flags.has(AUTH_STDIN)
}

/// The user has the group of the target, if that is known.
pub open spec fn has_group(user: AccountView, target: AccountView) -> Option<bool> {
    if target.group.gid == user.group.gid {
        Some(true)
    } else {
        user.membership(target.group.gid)
    }
}

/// The first step of a request; `None` means that it is refused.
pub open spec fn first_step(
    user: AccountView,
    target: AccountView,
    flags: RunFlags,
    features: Features,
) -> Option<AuthStep> {
    match has_group(user, target) {
        None => Some(AuthStep::LoadGroups),
        Some(member) => match decision(
            user.root(),
            target.user.uid == user.user.uid,
            member,
            silent(flags),
        ) {
            AuthDecision::Allow => if features.session() {
                Some(AuthStep::RunPam(true))
            } else {
                Some(AuthStep::Granted)
            },
            AuthDecision::Deny => None,
            AuthDecision::Authenticate => Some(AuthStep::FindGroup),
        },
    }
}

/// The step after the authentication group was looked up, whose number is `gid`.
pub open spec fn group_step(
    user: AccountView,
    gid: Option<u32>,
    features: Features,
) -> Option<AuthStep> {
    match gid {
        None => None,
        Some(gid) => match user.membership(gid) {
            None => Some(AuthStep::LoadGroups),
            Some(member) => if !member {
                None
            } else if features.use_pam {
                Some(AuthStep::RunPam(false))
            } else {
                Some(AuthStep::ReadShadow)
            },
        },
    }
}

/// `r` is the step `step`, or the refusal.
pub open spec fn step_is(r: Result<AuthStep, Error>, step: Option<AuthStep>) -> bool {
    match step {
        Some(s) => r == Ok::<AuthStep, Error>(s),
        None => error::refuses(r, "authentication failed"@),
    }
}

/// Begins to authenticate `user` for `target`.
pub fn authenticate(
    user: &Account,
    target: &Account,
    flags: RunFlags,
    features: Features,
) -> (r: Result<AuthStep, Error>)
    ensures
        step_is(r, first_step(user@, target@, flags, features)),
{
    let non_interactive = flags.contains(AUTH_NO_PROMPT) && !flags.contains(AUTH_STDIN);
    let member = if target.gid() == user.gid() {
        true
    } else {
        match user.is_member(target.group()) {
            None => {
                return Ok(AuthStep::LoadGroups);
            },
            Some(b) => b,
        }
    };
    match auth_decision(user.is_root(), target.uid() == user.uid(), member, non_interactive) {
        AuthDecision::Allow => {
            if features.has_session() {
                Ok(AuthStep::RunPam(true))
            } else {
                Ok(AuthStep::Granted)
            }
        },
        AuthDecision::Deny => Err(Error::StaticMessage("authentication failed")),
        AuthDecision::Authenticate => Ok(AuthStep::FindGroup),
    }
}

/// The name of the authentication group.
pub fn auth_group() -> (r: &'static str)
    ensures
        r@ == AUTH_GROUP@,
{
    AUTH_GROUP
}

/// Goes on after the authentication group was looked up: only its members may authenticate.
pub fn authenticate_member(
    user: &Account,
    group: Option<&Group>,
    features: Features,
) -> (r: Result<AuthStep, Error>)
    ensures
        step_is(
            r,
            group_step(
                user@,
                match group {
                    Some(g) => Some(g@.gid),
                    None => None,
                },
                features,
            ),
        ),
{
    match group {
        None => Err(Error::StaticMessage("authentication failed")),
        Some(g) => match user.is_member(g) {
            None => Ok(AuthStep::LoadGroups),
            Some(false) => Err(Error::StaticMessage("authentication failed")),
            Some(true) => {
                if features.use_pam {
                    Ok(AuthStep::RunPam(false))
                } else {
                    Ok(AuthStep::ReadShadow)
                }
            },
        },
    }
}

/// The authentication group, as far as it was looked up.
pub enum GroupLookup {
    /// It was not looked up yet.
    Pending,
    /// There is no such group.
    Missing,
    /// This is the group.
    Found(Group),
}

impl View for GroupLookup {
    type V = Option<Option<u32>>;

    open spec fn view(&self) -> Option<Option<u32>> {
        match *self {
            GroupLookup::Pending => None,
            GroupLookup::Missing => Some(None),
            GroupLookup::Found(g) => Some(Some(g@.gid)),
        }
    }
}

/// The step that a request has come to, with all that is known of the groups; `None` means that
/// it is refused.
pub open spec fn current_step(
    user: AccountView,
    target: AccountView,
    looked_up: Option<Option<u32>>,
    flags: RunFlags,
    features: Features,
) -> Option<AuthStep> {
    match first_step(user, target, flags, features) {
        Some(AuthStep::FindGroup) => match looked_up {
            None => Some(AuthStep::FindGroup),
            Some(gid) => group_step(user, gid, features),
        },
        other => other,
    }
}

/// Decides the step that a request has come to. It is asked again whenever the groups of the
/// user or the authentication group became known.
pub fn next_step(
    user: &Account,
    target: &Account,
    looked_up: &GroupLookup,
    flags: RunFlags,
    features: Features,
) -> (r: Result<AuthStep, Error>)
    ensures
        step_is(r, current_step(user@, target@, looked_up@, flags, features)),
{
    match authenticate(user, target, flags, features) {
        Ok(AuthStep::FindGroup) => match looked_up {
            GroupLookup::Pending => Ok(AuthStep::FindGroup),
            GroupLookup::Missing => authenticate_member(user, None, features),
            GroupLookup::Found(g) => authenticate_member(user, Some(g), features),
        },
        other => other,
    }
}

/// Deciding comes to an end: once the groups of the user are known they are not asked for again,
/// nor is the authentication group once it was looked up.
pub proof fn law_steps_progress(
    user: AccountView,
    target: AccountView,
    looked_up: Option<Option<u32>>,
    flags: RunFlags,
    features: Features,
)
    ensures
        user.group_list is Some ==> current_step(user, target, looked_up, flags, features) != Some(
            AuthStep::LoadGroups,
        ),
        looked_up is Some ==> current_step(user, target, looked_up, flags, features) != Some(
            AuthStep::FindGroup,
        ),
{
}

/// Nobody but the superuser changes the identity without authenticating as a member of the
/// authentication group.
pub proof fn law_change_needs_membership(
    user: AccountView,
    target: AccountView,
    looked_up: Option<Option<u32>>,
    flags: RunFlags,
    features: Features,
)
    requires
        !user.root(),
        target.user.uid != user.user.uid,
    ensures
        match current_step(user, target, looked_up, flags, features) {
            Some(AuthStep::Granted) => false,
            Some(AuthStep::RunPam(disabled)) => !disabled && (looked_up matches Some(Some(gid))
                && user.membership(gid) == Some(true)),
            Some(AuthStep::ReadShadow) => looked_up matches Some(Some(gid)) && user.membership(gid)
                == Some(true),
            _ => true,
        },
{
}

/// The superuser is never asked to authenticate, whatever the target is.
pub proof fn law_root_allowed(
    user: AccountView,
    target: AccountView,
    flags: RunFlags,
    features: Features,
)
    requires
        user.root(),
    ensures
        first_step(user, target, flags, features) == Some(
            if features.session() {
                AuthStep::RunPam(true)
            } else {
                AuthStep::Granted
            },
        ),
{
}

/// Users who keep their identity are not asked to authenticate for their own group, nor for one
/// that they are known to belong to.
pub proof fn law_own_identity(
    user: AccountView,
    target: AccountView,
    flags: RunFlags,
    features: Features,
)
    requires
        target.user.uid == user.user.uid,
        target.group.gid == user.group.gid || (user.group_list matches Some(list) && list.contains(
            target.group.gid,
        )),
    ensures
        first_step(user, target, flags, features) == Some(
            if features.session() {
                AuthStep::RunPam(true)
            } else {
                AuthStep::Granted
            },
        ),
{
}

/// A change of the identity, or of the group to one that the user does not belong to, is never
/// simply granted to anybody but the superuser.
pub proof fn law_change_needs_auth(
    user: AccountView,
    target: AccountView,
    flags: RunFlags,
    features: Features,
)
    requires
        !user.root(),
        target.user.uid != user.user.uid || (target.group.gid != user.group.gid && !(
        user.group_list matches Some(list) && list.contains(target.group.gid))),
    ensures
        match first_step(user, target, flags, features) {
            None => silent(flags),
            Some(step) => step == AuthStep::LoadGroups || (step == AuthStep::FindGroup && !silent(
                flags,
            )),
        },
{
}

/// Nobody outside the authentication group gets as far as a password: without the group or
/// without membership in it the request is refused, and a member always authenticates.
pub proof fn law_members_only(user: AccountView, gid: Option<u32>, features: Features)
    ensures
        gid is None ==> group_step(user, gid, features) is None,
        gid matches Some(g) ==> user.membership(g) == Some(false) ==> group_step(
            user,
            gid,
            features,
        ) is None,
        group_step(user, gid, features) matches Some(step) ==> step != AuthStep::Granted && step
            != AuthStep::RunPam(true) && (step != AuthStep::LoadGroups ==> gid is Some
            && user.membership(gid->Some_0) == Some(true)),
{
}

// ---------------------------------------------------------------------------------------------
// The shadow file
// ---------------------------------------------------------------------------------------------

/// The seconds of a day.
pub const DAY_SECS: u64 = 86_400;

/// The day that `secs` seconds after the epoch belong to. A clock before the epoch counts as the
/// end of time.
pub open spec fn day_of(secs: Option<u64>) -> int {
    match secs {
        Some(s) => s as int / 86_400,
        None => i64::MAX as int,
    }
}

/// The day that `secs` seconds after the epoch belong to.
pub fn today(secs: Option<u64>) -> (r: i64)
    ensures
        r == day_of(secs),
{
    match secs {
        Some(s) => (s / DAY_SECS) as i64,
        None => i64::MAX,
    }
}

/// A password that was changed on a known day and has a limited age.
pub open spec fn ages(entry: ShadowEntry) -> bool {
    entry.last_change > 0 && entry.max_age >= 0
}

/// The last day of a password that ages.
pub open spec fn last_day(entry: ShadowEntry) -> int {
    entry.last_change + entry.max_age
}

/// Why an entry lets nobody in on the day `day`, whatever the password is.
pub open spec fn entry_fault(entry: ShadowEntry, day: int) -> Option<Seq<char>> {
    if entry.last_change == 0 {
        Some("password has expired"@)
    } else if ages(entry) && last_day(entry) > i64::MAX {
        Some("invalid shadow data"@)
    } else if entry.expiry >= 0 && day > entry.expiry {
        Some("account has expired"@)
    } else if ages(entry) && day > last_day(entry) {
        Some("password has expired"@)
    } else if entry.inactive >= 0 && ages(entry) && last_day(entry) + entry.inactive <= i64::MAX
        && day > last_day(entry) + entry.inactive {
        Some("account has been disabled due to password inactivity"@)
    } else {
        None
    }
}

/// Checks that an entry may be used on the day `day`.
pub fn check_entry(entry: &ShadowEntry, day: i64) -> (r: Result<(), Error>)
    ensures
        match entry_fault(*entry, day as int) {
            None => r is Ok,
            Some(message) => error::refuses(r, message),
        },
        entry.expiry >= 0 && day > entry.expiry ==> r is Err,
        entry.expiry >= 0 && day > entry.expiry && entry.last_change != 0 && !(entry.last_change > 0
            && entry.max_age >= 0 && entry.last_change + entry.max_age > i64::MAX)
            ==> error::refuses(r, "account has expired"@),
{
    let passwd_expiry: Option<i64> = if entry.last_change == 0 {
        return Err(Error::StaticMessage("password has expired"));
    } else if entry.last_change > 0 && entry.max_age >= 0 {
        match entry.last_change.checked_add(entry.max_age) {
            Some(expiry) => Some(expiry),
            None => {
                return Err(Error::StaticMessage("invalid shadow data"));
            },
        }
    } else {
        None
    };
    let accnt_expired = entry.expiry >= 0 && day > entry.expiry;
    let passwd_expired = match passwd_expiry {
        Some(expiry) => day > expiry,
        None => false,
    };
    let inactive = entry.inactive >= 0 && match passwd_expiry {
        Some(expiry) => match expiry.checked_add(entry.inactive) {
            Some(end) => day > end,
            None => false,
        },
        None => false,
    };
    if accnt_expired {
        return Err(Error::StaticMessage("account has expired"));
    } else if passwd_expired {
        return Err(Error::StaticMessage("password has expired"));
    } else if inactive {
        return Err(
            Error::StaticMessage("account has been disabled due to password inactivity"),
        );
    }
    Ok(())
}

/// A usable entry stays usable on every earlier day.
pub proof fn law_entry_ages(entry: ShadowEntry, day: int, earlier: int)
    requires
        earlier <= day,
        entry_fault(entry, day) is None,
    ensures
        entry_fault(entry, earlier) is None,
{
}

/// A password that is past its age is refused as such already, so the time of inactivity that
/// follows never lets its user in.
pub proof fn law_inactivity_covered(entry: ShadowEntry, day: int)
    requires
        entry.last_change > 0,
        entry.max_age >= 0,
        day > last_day(entry),
    ensures
        entry_fault(entry, day) matches Some(message) && (message == "password has expired"@
            || message == "account has expired"@ || message == "invalid shadow data"@),
{
}

/// How to ask for the password of the shadow file.
#[derive(Debug)]
pub struct AskPlan {
    /// The prompt.
    pub prompt: &'static str,
    /// The flags for the prompt.
    pub flags: RunFlags,
}

/// Begins the check against the shadow file: without an entry, or with one that may not be
/// used, the request is refused. Otherwise the password is asked for without showing it.
pub fn shadow_begin(entry: Option<&ShadowEntry>, day: i64, flags: RunFlags) -> (r: Result<
    AskPlan,
    Error,
>)
    ensures
        match entry {
            None => error::refuses(r, "authentication failed"@),
            Some(e) => match entry_fault(*e, day as int) {
                Some(message) => error::refuses(r, message),
                None => r matches Ok(plan) && plan.prompt@ == PROMPT_TEXT@ && plan.flags.bits
                    == flags.bits | PROMPT_HIDE,
            },
        },
{
    match entry {
        None => Err(Error::StaticMessage("authentication failed")),
        Some(e) => match check_entry(e, day) {
            Err(error) => Err(error),
            Ok(_) => Ok(AskPlan { prompt: PROMPT_TEXT, flags: flags.with(PROMPT_HIDE) }),
        },
    }
}

/// Ends the check against the shadow file: the hash of what was typed has to be the hash of the
/// entry.
pub fn shadow_finish(user_hash: &str, entry: &ShadowEntry) -> (r: Result<(), Error>)
    ensures
        if user_hash@ == entry.passwd_hash@ {
            r is Ok
        } else {
            error::refuses(r, "authentication failed"@)
        },
{
    if passwd::time_compare(user_hash, entry.passwd_hash.as_str()) {
        Ok(())
    } else {
        Err(Error::StaticMessage("authentication failed"))
    }
}

// ---------------------------------------------------------------------------------------------
// PAM
// ---------------------------------------------------------------------------------------------

/// The service name under which PAM is started.
pub const SERVICE: &'static str = "runas";

/// A call with which an expired password is changed.
pub const CHANGE_EXPIRED_AUTHTOK: i32 = 32;

/// The flags for a prompt of PAM: a hidden one does not show what is typed.
pub fn prompt_flags(flags: RunFlags, mode: PromptMode) -> (r: RunFlags)
    ensures
        r.bits == (if mode == PromptMode::Hidden {
            flags.bits | PROMPT_HIDE
        } else {
            flags.bits
        }),
{
    match mode {
        PromptMode::Hidden => flags.with(PROMPT_HIDE),
        _ => flags,
    }
}

/// The line for a text of PAM.
pub fn info_line(message: &str) -> (r: String)
    ensures
        r@ == "PAM info: "@ + message@,
{
    let mut s = "PAM info: ".to_owned();
    s.append(message);
    s
}

/// The line for an error of PAM.
pub fn error_line(message: &str) -> (r: String)
    ensures
        r@ == "PAM error: "@ + message@,
{
    let mut s = "PAM error: ".to_owned();
    s.append(message);
    s
}

/// The terminal that PAM is told: the name of standard input if that is a terminal with a name.
pub open spec fn terminal_item(is_terminal: bool, name: Option<Seq<char>>) -> Seq<char> {
    match name {
        Some(s) => if is_terminal {
            s
        } else {
            "/runas"@
        },
        None => "/runas"@,
    }
}

/// The terminal that PAM is told.
pub fn tty_item(is_terminal: bool, name: Option<&str>) -> (r: String)
    ensures
        r@ == terminal_item(is_terminal, text::opt_str(name)),
{
    match name {
        Some(s) => {
            if is_terminal {
                s.to_owned()
            } else {
                "/runas".to_owned()
            }
        },
        None => "/runas".to_owned(),
    }
}

/// Where the use of PAM stands.
#[derive(Debug, Clone, Copy, PartialEq, Eq, Structural)]
pub enum PamStage {
    /// Start PAM.
    Start,
    /// Tell the terminal.
    SetTty,
    /// Authenticate the user.
    Authenticate,
    /// Tell who asks.
    SetRUser,
    /// Check the account.
    AcctMgmt,
    /// Change an expired password.
    Chauthtok,
    /// Switch to the target user.
    SetUser,
    /// Open a session.
    OpenSession,
    /// Make the pipes for the two sides of the fork.
    MakePipes,
    /// Read the environment of the session.
    GetEnv,
    /// Fork: the child goes on and the parent watches it.
    Fork,
    /// Nothing is left to do.
    Done,
}

/// How a call ended.
#[derive(Debug, Clone, Copy, PartialEq, Eq, Structural)]
pub enum CallResult {
    /// It succeeded.
    Succeeded,
    /// PAM asks for an action first.
    ActionRequired,
    /// It failed.
    Failed,
}

/// How a call with the result `r` ended.
pub open spec fn call_result(r: Result<(), Error>) -> CallResult {
    match r {
        Ok(_) => CallResult::Succeeded,
        Err(Error::PamActionRequired(_)) => CallResult::ActionRequired,
        Err(_) => CallResult::Failed,
    }
}

/// What a use of PAM is for.
#[verifier::ext_equal]
pub struct FlowConfig {
    /// Who asks.
    pub user: Seq<char>,
    /// Whom to act as.
    pub target: Seq<char>,
    /// The terminal.
    pub tty: Seq<char>,
    /// The command runs in the scope of the caller, within a session.
    pub scopex: bool,
    /// The user need not authenticate.
    pub disable_auth: bool,
    /// Nobody may be asked.
    pub no_prompt: bool,
}

/// The stage that follows `stage` when its call ended as `result` says; `None` means that the
/// request fails. Only a request for a new password is met, and only if somebody may be asked.
pub open spec fn stage_after(config: FlowConfig, stage: PamStage, result: CallResult) -> Option<
    PamStage,
> {
    if stage == PamStage::AcctMgmt && result == CallResult::ActionRequired && !config.no_prompt {
        Some(PamStage::Chauthtok)
    } else if result != CallResult::Succeeded {
        None
    } else {
        Some(
            match stage {
                PamStage::Start => PamStage::SetTty,
                PamStage::SetTty => if config.disable_auth {
                    PamStage::SetRUser
                } else {
                    PamStage::Authenticate
                },
                PamStage::Authenticate => PamStage::SetRUser,
                PamStage::SetRUser => PamStage::AcctMgmt,
                PamStage::AcctMgmt => if config.scopex {
                    PamStage::SetUser
                } else {
                    PamStage::Done
                },
                PamStage::Chauthtok => if config.scopex {
                    PamStage::SetUser
                } else {
                    PamStage::Done
                },
                PamStage::SetUser => PamStage::OpenSession,
                PamStage::OpenSession => PamStage::MakePipes,
                PamStage::MakePipes => PamStage::GetEnv,
                PamStage::GetEnv => PamStage::Fork,
                PamStage::Fork => PamStage::Done,
                PamStage::Done => PamStage::Done,
            },
        )
    }
}

/// The stage after calls that ended as `results` say.
pub open spec fn stage_at(config: FlowConfig, results: Seq<CallResult>) -> Option<PamStage>
    decreases results.len(),
{
    if results.len() == 0 {
        Some(PamStage::Start)
    } else {
        match stage_at(config, results.drop_last()) {
            None => None,
            Some(stage) => stage_after(config, stage, results.last()),
        }
    }
}

/// The stage comes after the checks of the user.
pub open spec fn is_accepted(stage: PamStage) -> bool {
    stage == PamStage::SetUser || stage == PamStage::OpenSession || stage == PamStage::MakePipes
        || stage == PamStage::GetEnv || stage == PamStage::Fork || stage == PamStage::Done
}

/// Among the calls there is a successful authentication.
pub open spec fn authenticated(config: FlowConfig, results: Seq<CallResult>) -> bool {
    exists|i: int|
        0 <= i < results.len() && #[trigger] stage_at(config, results.take(i)) == Some(
            PamStage::Authenticate,
        ) && results[i] == CallResult::Succeeded
}

/// Among the calls there is a successful check of the account, or one that asked for a new
/// password and was followed by a successful change.
pub open spec fn account_valid(config: FlowConfig, results: Seq<CallResult>) -> bool {
    exists|i: int|
        0 <= i < results.len() && (#[trigger] stage_at(config, results.take(i)) == Some(
            PamStage::AcctMgmt,
        ) && results[i] == CallResult::Succeeded || (stage_at(config, results.take(i)) == Some(
            PamStage::Chauthtok,
        ) && results[i] == CallResult::Succeeded && !config.no_prompt))
}

proof fn lemma_flow(config: FlowConfig, results: Seq<CallResult>)
    ensures
        match stage_at(config, results) {
            None => true,
            Some(stage) => {
                &&& stage != PamStage::Start && stage != PamStage::SetTty && stage
                    != PamStage::Authenticate ==> config.disable_auth || authenticated(
                    config,
                    results,
                )
                &&& is_accepted(stage) ==> account_valid(config, results)
                &&& stage == PamStage::Chauthtok ==> !config.no_prompt
                &&& stage == PamStage::Authenticate ==> !config.disable_auth
                &&& !config.scopex ==> !is_accepted(stage) || stage == PamStage::Done
            },
        },
    decreases results.len(),
{
    if results.len() > 0 {
        let before = results.drop_last();
        lemma_flow(config, before);
        let n = before.len() as int;
        assert(results.take(n) =~= before);
        assert(results[n] == results.last());
        assert(stage_at(config, results.take(n)) == stage_at(config, before));
        if authenticated(config, before) {
            let i = choose|i: int|
                0 <= i < before.len() && #[trigger] stage_at(config, before.take(i)) == Some(
                    PamStage::Authenticate,
                ) && before[i] == CallResult::Succeeded;
            assert(results.take(i) =~= before.take(i));
            assert(stage_at(config, results.take(i)) == Some(PamStage::Authenticate));
        }
        if account_valid(config, before) {
            let i = choose|i: int|
                0 <= i < before.len() && (#[trigger] stage_at(config, before.take(i)) == Some(
                    PamStage::AcctMgmt,
                ) && before[i] == CallResult::Succeeded || (stage_at(config, before.take(i))
                    == Some(PamStage::Chauthtok) && before[i] == CallResult::Succeeded
                    && !config.no_prompt));
            assert(results.take(i) =~= before.take(i));
            assert(stage_at(config, results.take(i)) == stage_at(config, before.take(i)));
        }
    }
}

/// Whatever PAM answers, a request gets past the checks only if the user authenticated, unless
/// that was not asked for, and if the account was found valid or its expired password was
/// changed. A session is opened only then.
pub proof fn law_pam_checks(config: FlowConfig, results: Seq<CallResult>, stage: PamStage)
    requires
        stage_at(config, results) == Some(stage),
        is_accepted(stage),
    ensures
        config.disable_auth || authenticated(config, results),
        account_valid(config, results),
        !config.scopex ==> stage == PamStage::Done,
{
    lemma_flow(config, results);
}

/// A password is changed only where somebody may be asked: with prompts switched off an expired
/// password refuses the request.
pub proof fn law_no_prompt(config: FlowConfig, results: Seq<CallResult>)
    requires
        config.no_prompt,
    ensures
        stage_at(config, results) != Some(PamStage::Chauthtok),
        stage_after(config, PamStage::AcctMgmt, CallResult::ActionRequired) is None,
{
    lemma_flow(config, results);
}

/// A call that fails ends the request, wherever it happens, and nothing follows.
pub proof fn law_failure_ends(
    config: FlowConfig,
    before: Seq<CallResult>,
    after: Seq<CallResult>,
)
    ensures
        stage_at(config, before.push(CallResult::Failed) + after) is None,
    decreases after.len(),
{
    let all = before.push(CallResult::Failed) + after;
    if after.len() == 0 {
        assert(all =~= before.push(CallResult::Failed));
        assert(all.drop_last() =~= before);
    } else {
        law_failure_ends(config, before, after.drop_last());
        assert(all.drop_last() =~= before.push(CallResult::Failed) + after.drop_last());
    }
}

/// A use of PAM.
#[derive(Debug)]
pub struct PamFlow {
    user: String,
    target: String,
    tty: String,
    scopex: bool,
    disable_auth: bool,
    no_prompt: bool,
    stage: PamStage,
}

/// A call to make.
#[derive(Debug)]
pub enum PamCall {
    /// Start PAM for this user.
    Start(String),
    /// Set an item.
    SetItem(PamItem, String),
    /// Authenticate the user.
    Authenticate,
    /// Check the account.
    AcctMgmt,
    /// Change the password, with these flags.
    Chauthtok(i32),
    /// Open a session.
    OpenSession,
    /// Make the pipes for the two sides of the fork.
    MakePipes,
    /// Read the environment of the session.
    GetEnv,
    /// Fork.
    Fork,
    /// Nothing is left to do.
    Done,
}

/// What a `PamCall` says.
#[verifier::ext_equal]
pub enum PamCallView {
    /// See `PamCall::Start`.
    Start(Seq<char>),
    /// See `PamCall::SetItem`.
    SetItem(PamItem, Seq<char>),
    /// See `PamCall::Authenticate`.
    Authenticate,
    /// See `PamCall::AcctMgmt`.
    AcctMgmt,
    /// See `PamCall::Chauthtok`.
    Chauthtok(i32),
    /// See `PamCall::OpenSession`.
    OpenSession,
    /// See `PamCall::MakePipes`.
    MakePipes,
    /// See `PamCall::GetEnv`.
    GetEnv,
    /// See `PamCall::Fork`.
    Fork,
    /// See `PamCall::Done`.
    Done,
}

impl View for PamCall {
    type V = PamCallView;

    open spec fn view(&self) -> PamCallView {
        match *self {
            PamCall::Start(s) => PamCallView::Start(s@),
            PamCall::SetItem(item, s) => PamCallView::SetItem(item, s@),
            PamCall::Authenticate => PamCallView::Authenticate,
            PamCall::AcctMgmt => PamCallView::AcctMgmt,
            PamCall::Chauthtok(n) => PamCallView::Chauthtok(n),
            PamCall::OpenSession => PamCallView::OpenSession,
            PamCall::MakePipes => PamCallView::MakePipes,
            PamCall::GetEnv => PamCallView::GetEnv,
            PamCall::Fork => PamCallView::Fork,
            PamCall::Done => PamCallView::Done,
        }
    }
}

/// The call of a stage. Without authentication PAM is started for the target right away.
pub open spec fn stage_call(config: FlowConfig, stage: PamStage) -> PamCallView {
    match stage {
        PamStage::Start => PamCallView::Start(
            if config.disable_auth {
                config.target
            } else {
                config.user
            },
        ),
        PamStage::SetTty => PamCallView::SetItem(PamItem::Tty, config.tty),
        PamStage::Authenticate => PamCallView::Authenticate,
        PamStage::SetRUser => PamCallView::SetItem(PamItem::RUser, config.user),
        PamStage::AcctMgmt => PamCallView::AcctMgmt,
        PamStage::Chauthtok => PamCallView::Chauthtok(CHANGE_EXPIRED_AUTHTOK),
        PamStage::SetUser => PamCallView::SetItem(PamItem::User, config.target),
        PamStage::OpenSession => PamCallView::OpenSession,
        PamStage::MakePipes => PamCallView::MakePipes,
        PamStage::GetEnv => PamCallView::GetEnv,
        PamStage::Fork => PamCallView::Fork,
        PamStage::Done => PamCallView::Done,
    }
}

impl PamFlow {
    /// What the use is for.
    pub closed spec fn config(self) -> FlowConfig {
        FlowConfig {
            user: self.user@,
            target: self.target@,
            tty: self.tty@,
            scopex: self.scopex,
            disable_auth: self.disable_auth,
            no_prompt: self.no_prompt,
        }
    }

    /// Where it stands.
    pub closed spec fn stage(self) -> PamStage {
        self.stage
    }

    /// Begins a use of PAM. Authentication can be left out only where the command runs within a
    /// session.
    pub fn new(
        user: &Account,
        target: &Account,
        tty: String,
        flags: RunFlags,
        features: Features,
        disable_auth: bool,
    ) -> (r: Self)
        ensures
            r.stage() == PamStage::Start,
            r.config() == (FlowConfig {
                user: user@.user.name,
                target: target@.user.name,
                tty: tty@,
                scopex: features.backend == Backend::Scopex,
                disable_auth: features.backend == Backend::Scopex && disable_auth,
                no_prompt: flags.has(AUTH_NO_PROMPT),
            }),
    {
        let scopex = match features.backend {
            Backend::Scopex => true,
            _ => false,
        };
        PamFlow {
            user: user.name().to_owned(),
            target: target.name().to_owned(),
            tty,
            scopex,
            disable_auth: scopex && disable_auth,
            no_prompt: flags.contains(AUTH_NO_PROMPT),
            stage: PamStage::Start,
        }
    }

    /// The call to make now.
    pub fn call(&self) -> (r: PamCall)
        ensures
            r@ == stage_call(self.config(), self.stage()),
            self.stage() == PamStage::SetUser ==> r@ == PamCallView::SetItem(
                PamItem::User,
                self.config().target,
            ),
    {
        match self.stage {
            PamStage::Start => {
                if self.disable_auth {
                    PamCall::Start(self.target.as_str().to_owned())
                } else {
                    PamCall::Start(self.user.as_str().to_owned())
                }
            },
            PamStage::SetTty => PamCall::SetItem(PamItem::Tty, self.tty.as_str().to_owned()),
            PamStage::Authenticate => PamCall::Authenticate,
            PamStage::SetRUser => PamCall::SetItem(PamItem::RUser, self.user.as_str().to_owned()),
            PamStage::AcctMgmt => PamCall::AcctMgmt,
            PamStage::Chauthtok => PamCall::Chauthtok(CHANGE_EXPIRED_AUTHTOK),
            PamStage::SetUser => PamCall::SetItem(PamItem::User, self.target.as_str().to_owned()),
            PamStage::OpenSession => PamCall::OpenSession,
            PamStage::MakePipes => PamCall::MakePipes,
            PamStage::GetEnv => PamCall::GetEnv,
            PamStage::Fork => PamCall::Fork,
            PamStage::Done => PamCall::Done,
        }
    }

    /// Goes on with the result of the call. An error that ends the request is returned.
    pub fn advance(&mut self, result: Result<(), Error>) -> (r: Result<(), Error>)
        ensures
            final(self).config() == old(self).config(),
            match stage_after(old(self).config(), old(self).stage(), call_result(result)) {
                Some(stage) => r is Ok && final(self).stage() == stage,
                None => r == result && r is Err && final(self).stage() == old(self).stage(),
            },
    {
        match result {
            Ok(_) => {
                self.stage = match self.stage {
                    PamStage::Start => PamStage::SetTty,
                    PamStage::SetTty => {
                        if self.disable_auth {
                            PamStage::SetRUser
                        } else {
                            PamStage::Authenticate
                        }
                    },
                    PamStage::Authenticate => PamStage::SetRUser,
                    PamStage::SetRUser => PamStage::AcctMgmt,
                    PamStage::AcctMgmt => {
                        if self.scopex {
                            PamStage::SetUser
                        } else {
                            PamStage::Done
                        }
                    },
                    PamStage::Chauthtok => {
                        if self.scopex {
                            PamStage::SetUser
                        } else {
                            PamStage::Done
                        }
                    },
                    PamStage::SetUser => PamStage::OpenSession,
                    PamStage::OpenSession => PamStage::MakePipes,
                    PamStage::MakePipes => PamStage::GetEnv,
                    PamStage::GetEnv => PamStage::Fork,
                    PamStage::Fork => PamStage::Done,
                    PamStage::Done => PamStage::Done,
                };
                Ok(())
            },
            Err(Error::PamActionRequired(e)) => {
                let asks = match self.stage {
                    PamStage::AcctMgmt => true,
                    _ => false,
                };
                if asks && !self.no_prompt {
                    self.stage = PamStage::Chauthtok;
                    Ok(())
                } else {
                    Err(Error::PamActionRequired(e))
                }
            },
            Err(e) => Err(e),
        }
    }
}

/// What the child does after it waited for the parent: it goes on only if the parent is ready.
pub fn child_continues(decision: SyncDecision) -> (r: Result<(), Error>)
    ensures
        if decision == SyncDecision::Continue {
            r is Ok
        } else {
            error::fails(r, ErrorView::Unknown)
        },
{
    match decision {
        SyncDecision::Continue => Ok(()),
        SyncDecision::Abort => Err(Error::Unknown),
    }
}

/// The exit status of the parent, and the message that it prints first, if any.
pub fn parent_status(watched: Result<i32, Error>) -> (r: (i32, Option<String>))
    ensures
        match watched {
            Ok(code) => r == (code, None::<String>),
            Err(e) => r.0 == 1 && r.1 is Some && r.1->Some_0@ == e@.text(),
        },
{
    match watched {
        Ok(code) => (code, None),
        Err(e) => (1, Some(e.display())),
    }
}

// ---------------------------------------------------------------------------------------------
// What the decisions come to
// ---------------------------------------------------------------------------------------------

/// The steps of a request, by the facts that decide them: the groups of the user are asked for
/// exactly where they are needed and not known, a request that is allowed is granted (within a
/// session PAM opens it without authentication), and where the identity or the group changes the
/// request is refused if nobody may be asked, and otherwise goes on with the authentication
/// group.
pub proof fn law_request_steps(
    user: AccountView,
    target: AccountView,
    flags: RunFlags,
    features: Features,
)
    ensures
        ({
            let step = first_step(user, target, flags, features);
            let root = user.user.uid == 0;
            let same_group = target.group.gid == user.group.gid;
            let listed = user.group_list matches Some(list) && list.contains(target.group.gid);
            let allowed = root || (target.user.uid == user.user.uid && (same_group || listed));
            let mute = flags.bits & AUTH_NO_PROMPT == AUTH_NO_PROMPT && flags.bits & AUTH_STDIN
                != AUTH_STDIN;
            let session = features.backend == Backend::Scopex && features.use_pam;
            if !root && !same_group && user.group_list is None {
                step == Some(AuthStep::LoadGroups)
            } else if allowed && session {
                step == Some(AuthStep::RunPam(true))
            } else if allowed {
                step == Some(AuthStep::Granted)
            } else if mute {
                step is None
            } else {
                step == Some(AuthStep::FindGroup)
            }
        }),
{
}

/// A member of the authentication group authenticates through PAM where the program uses it,
/// and against the shadow file otherwise; nobody else gets that far.
pub proof fn law_member_steps(user: AccountView, gid: u32, features: Features)
    ensures
        ({
            let step = group_step(user, Some(gid), features);
            let root = user.user.uid == 0;
            if !root && user.group_list is None {
                step == Some(AuthStep::LoadGroups)
            } else if root || user.group_list->Some_0.contains(gid) {
                step == Some(
                    if features.use_pam {
                        AuthStep::RunPam(false)
                    } else {
                        AuthStep::ReadShadow
                    },
                )
            } else {
                step is None
            }
        }),
{
}

/// The request goes on from the first decision to the authentication group, and to nothing else.
pub proof fn law_step_in_turn(
    user: AccountView,
    target: AccountView,
    looked_up: Option<Option<u32>>,
    flags: RunFlags,
    features: Features,
)
    ensures
        ({
            let first = first_step(user, target, flags, features);
            let step = current_step(user, target, looked_up, flags, features);
            &&& first != Some(AuthStep::FindGroup) ==> step == first
            &&& first == Some(AuthStep::FindGroup) && looked_up is None ==> step == first
            &&& first == Some(AuthStep::FindGroup) && looked_up == Some(None::<u32>)
                ==> step is None
            &&& forall|gid: u32|
                first == Some(AuthStep::FindGroup) && looked_up == Some(Some(gid)) ==> step
                    == #[trigger] group_step(user, Some(gid), features)
        }),
{
}

/// A day begins with its first second and has 86400 of them.
pub proof fn law_day(secs: u64)
    ensures
        86_400 * day_of(Some(secs)) <= secs,
        secs < 86_400 * (day_of(Some(secs)) + 1),
        day_of(None) == 0x7fff_ffff_ffff_ffff,
{
}

/// Past its expiry date an account is refused, whatever is known of the password. The account is
/// what the refusal speaks of, unless the password has to be changed anyway or its data makes no
/// sense.
pub proof fn law_account_expiry(entry: ShadowEntry, day: int)
    requires
        entry.expiry >= 0,
        day > entry.expiry,
    ensures
        entry_fault(entry, day) is Some,
        entry.last_change != 0 && !(entry.last_change > 0 && entry.max_age >= 0
            && entry.last_change + entry.max_age > i64::MAX) ==> entry_fault(entry, day) == Some(
            "account has expired"@,
        ),
{
}

/// A password that has to be changed, or that is older than its age allows, is refused as
/// expired, as long as the account itself is not.
pub proof fn law_password_expiry(entry: ShadowEntry, day: int)
    ensures
        entry.last_change == 0 ==> entry_fault(entry, day) == Some("password has expired"@),
        entry.last_change > 0 && entry.max_age >= 0 && entry.last_change + entry.max_age
            <= i64::MAX && day > entry.last_change + entry.max_age && (entry.expiry < 0 || day
            <= entry.expiry) ==> entry_fault(entry, day) == Some("password has expired"@),
        entry.last_change > 0 && entry.max_age >= 0 && entry.last_change + entry.max_age
            > i64::MAX ==> entry_fault(entry, day) == Some("invalid shadow data"@),
{
}

/// An entry lets its user in exactly as long as neither the account nor the password has
/// expired. A negative number sets no limit, and the time of inactivity never shortens one.
pub proof fn law_entry_usable(entry: ShadowEntry, day: int)
    ensures
        entry_fault(entry, day) is None <==> entry.last_change != 0 && (entry.expiry < 0 || day
            <= entry.expiry) && (entry.last_change < 0 || entry.max_age < 0 || (entry.last_change
            + entry.max_age <= i64::MAX && day <= entry.last_change + entry.max_age)),
{
}

/// PAM is told the name of a terminal, and a fixed name in place of anything else.
pub proof fn law_terminal_item(is_terminal: bool, name: Option<Seq<char>>)
    ensures
        is_terminal && name is Some ==> terminal_item(is_terminal, name) == name->Some_0,
        !is_terminal || name is None ==> terminal_item(is_terminal, name) == "/runas"@,
{
}

/// Only an error that asks for an action asks for one; every other error is a failure.
pub proof fn law_call_results(result: Result<(), Error>)
    ensures
        result is Ok <==> call_result(result) == CallResult::Succeeded,
        call_result(result) == CallResult::ActionRequired <==> result is Err
            && result->Err_0 is PamActionRequired,
{
}

/// What PAM was told last, by its start or as the item `item`, in the calls that ended as
/// `results` say.
pub open spec fn told(config: FlowConfig, results: Seq<CallResult>, item: PamItem) -> Option<
    Seq<char>,
>
    decreases results.len(),
{
    if results.len() == 0 {
        None
    } else {
        let before = results.drop_last();
        match stage_at(config, before) {
            None => told(config, before, item),
            Some(stage) => match stage_call(config, stage) {
                PamCallView::Start(name) => if item == PamItem::User {
                    Some(name)
                } else {
                    None
                },
                PamCallView::SetItem(which, value) => if which == item {
                    Some(value)
                } else {
                    told(config, before, item)
                },
                _ => told(config, before, item),
            },
        }
    }
}

proof fn lemma_told(config: FlowConfig, results: Seq<CallResult>)
    ensures
        match stage_at(config, results) {
            None => true,
            Some(stage) => {
                let first = if config.disable_auth {
                    config.target
                } else {
                    config.user
                };
                &&& stage != PamStage::Start && stage != PamStage::SetTty ==> told(
                    config,
                    results,
                    PamItem::Tty,
                ) == Some(config.tty)
                &&& (stage == PamStage::AcctMgmt || stage == PamStage::Chauthtok || is_accepted(
                    stage,
                )) ==> told(config, results, PamItem::RUser) == Some(config.user)
                &&& stage != PamStage::Start && (!is_accepted(stage) || stage == PamStage::SetUser
                    || !config.scopex) ==> told(config, results, PamItem::User) == Some(first)
                &&& is_accepted(stage) && stage != PamStage::SetUser && config.scopex ==> told(
                    config,
                    results,
                    PamItem::User,
                ) == Some(config.target)
                &&& !config.scopex && is_accepted(stage) ==> stage == PamStage::Done
                &&& stage == PamStage::Authenticate ==> !config.disable_auth
            },
        },
    decreases results.len(),
{
    if results.len() > 0 {
        lemma_told(config, results.drop_last());
    }
}

/// Whenever a session is opened, and from then on, the user that PAM was told last is the
/// target, whether or not anybody authenticated: the session belongs to the user that the
/// command runs as.
pub proof fn law_session_user(config: FlowConfig, results: Seq<CallResult>, stage: PamStage)
    requires
        config.scopex,
        stage_at(config, results) == Some(stage),
        stage == PamStage::OpenSession || stage == PamStage::MakePipes || stage
            == PamStage::GetEnv || stage == PamStage::Fork || stage == PamStage::Done,
    ensures
        told(config, results, PamItem::User) == Some(config.target),
{
    lemma_told(config, results);
}

/// It is the caller who authenticates, with PAM knowing the terminal. The account that is checked
/// is the one that was started with, and by then PAM knows who asks.
pub proof fn law_authenticated_user(
    config: FlowConfig,
    results: Seq<CallResult>,
    stage: PamStage,
)
    requires
        stage_at(config, results) == Some(stage),
    ensures
        stage == PamStage::Authenticate ==> told(config, results, PamItem::User) == Some(
            config.user,
        ) && told(config, results, PamItem::Tty) == Some(config.tty),
        stage == PamStage::AcctMgmt || stage == PamStage::Chauthtok ==> told(
            config,
            results,
            PamItem::User,
        ) == Some(
            if config.disable_auth {
                config.target
            } else {
                config.user
            },
        ) && told(config, results, PamItem::RUser) == Some(config.user) && told(
            config,
            results,
            PamItem::Tty,
        ) == Some(config.tty),
        stage == PamStage::Done && !config.scopex ==> told(config, results, PamItem::User) == Some(
            if config.disable_auth {
                config.target
            } else {
                config.user
            },
        ),
{
    lemma_told(config, results);
}

/// The calls that carry a value, for every configuration: the start with the caller, or with the
/// target where nobody authenticates, the terminal, the caller as the one who asks, the change of
/// an expired password only, and the switch to the target.
pub proof fn law_call_values(config: FlowConfig)
    ensures
        !config.disable_auth ==> stage_call(config, PamStage::Start) == PamCallView::Start(
            config.user,
        ),
        config.disable_auth ==> stage_call(config, PamStage::Start) == PamCallView::Start(
            config.target,
        ),
        stage_call(config, PamStage::SetTty) == PamCallView::SetItem(PamItem::Tty, config.tty),
        stage_call(config, PamStage::SetRUser) == PamCallView::SetItem(
            PamItem::RUser,
            config.user,
        ),
        stage_call(config, PamStage::Chauthtok) == PamCallView::Chauthtok(0x20),
        stage_call(config, PamStage::SetUser) == PamCallView::SetItem(
            PamItem::User,
            config.target,
        ),
        stage_call(config, PamStage::Authenticate) is Authenticate,
        stage_call(config, PamStage::AcctMgmt) is AcctMgmt,
        stage_call(config, PamStage::OpenSession) is OpenSession,
        stage_call(config, PamStage::MakePipes) is MakePipes,
        stage_call(config, PamStage::GetEnv) is GetEnv,
        stage_call(config, PamStage::Fork) is Fork,
        stage_call(config, PamStage::Done) is Done,
{
}

/// Calls that all succeed.
pub open spec fn successes(n: nat) -> Seq<CallResult> {
    Seq::new(n, |i: int| CallResult::Succeeded)
}

proof fn lemma_success(config: FlowConfig, n: nat)
    requires
        n > 0,
    ensures
        stage_at(config, successes(n)) == match stage_at(config, successes((n - 1) as nat)) {
            None => None,
            Some(stage) => stage_after(config, stage, CallResult::Succeeded),
        },
{
    assert(successes(n).drop_last() =~= successes((n - 1) as nat));
}

/// As long as all calls succeed they come in a fixed order: the start, the terminal, the
/// authentication unless it is left out, who asks, and the account. Without a session that is
/// all; with one follow the switch to the target, the session, the pipes, the environment and
/// the fork.
pub proof fn law_call_order(config: FlowConfig)
    ensures
        ({
            let k: nat = if config.disable_auth {
                2
            } else {
                3
            };
            &&& stage_at(config, successes(0)) == Some(PamStage::Start)
            &&& stage_at(config, successes(1)) == Some(PamStage::SetTty)
            &&& !config.disable_auth ==> stage_at(config, successes(2)) == Some(
                PamStage::Authenticate,
            )
            &&& stage_at(config, successes(k)) == Some(PamStage::SetRUser)
            &&& stage_at(config, successes(k + 1)) == Some(PamStage::AcctMgmt)
            &&& !config.scopex ==> stage_at(config, successes(k + 2)) == Some(PamStage::Done)
            &&& config.scopex ==> {
                &&& stage_at(config, successes(k + 2)) == Some(PamStage::SetUser)
                &&& stage_at(config, successes(k + 3)) == Some(PamStage::OpenSession)
                &&& stage_at(config, successes(k + 4)) == Some(PamStage::MakePipes)
                &&& stage_at(config, successes(k + 5)) == Some(PamStage::GetEnv)
                &&& stage_at(config, successes(k + 6)) == Some(PamStage::Fork)
                &&& stage_at(config, successes(k + 7)) == Some(PamStage::Done)
            }
        }),
{
    let k: nat = if config.disable_auth {
        2
    } else {
        3
    };
    lemma_success(config, 1);
    lemma_success(config, 2);
    lemma_success(config, k);
    lemma_success(config, k + 1);
    lemma_success(config, k + 2);
    lemma_success(config, k + 3);
    lemma_success(config, k + 4);
    lemma_success(config, k + 5);
    lemma_success(config, k + 6);
    lemma_success(config, k + 7);
}

/// An expired password is changed where somebody may be asked, and a changed password counts as
/// a valid account. Nothing else that asks for an action gets one.
pub proof fn law_expired_password(config: FlowConfig, stage: PamStage)
    ensures
        stage_after(config, PamStage::AcctMgmt, CallResult::ActionRequired) == (if config.no_prompt {
            None
        } else {
            Some(PamStage::Chauthtok)
        }),
        stage_after(config, PamStage::Chauthtok, CallResult::Succeeded) == stage_after(
            config,
            PamStage::AcctMgmt,
            CallResult::Succeeded,
        ),
        stage != PamStage::AcctMgmt ==> stage_after(config, stage, CallResult::ActionRequired)
            is None,
        stage_after(config, stage, CallResult::Failed) is None,
{
}

/// A request that gets no step is refused, always in the same words; another one goes on with
/// its step and no other.
pub proof fn law_refusal(r: Result<AuthStep, Error>, step: AuthStep)
    ensures
        step_is(r, None) <==> r is Err && r->Err_0@ == ErrorView::StaticMessage(
            "authentication failed"@,
        ),
        step_is(r, Some(step)) <==> r == Ok::<AuthStep, Error>(step),
{
}

/// What a call of PAM says is what it is.
pub proof fn law_pam_call_views(call: PamCall)
    ensures
        call matches PamCall::Start(name) ==> call@ == PamCallView::Start(name@),
        call matches PamCall::SetItem(item, value) ==> call@ == PamCallView::SetItem(item, value@),
        call matches PamCall::Chauthtok(flags) ==> call@ == PamCallView::Chauthtok(flags),
        call@ is Authenticate <==> call is Authenticate,
        call@ is AcctMgmt <==> call is AcctMgmt,
        call@ is OpenSession <==> call is OpenSession,
        call@ is MakePipes <==> call is MakePipes,
        call@ is GetEnv <==> call is GetEnv,
        call@ is Fork <==> call is Fork,
        call@ is Done <==> call is Done,
{
}

} // verus!
