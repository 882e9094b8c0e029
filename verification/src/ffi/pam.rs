//! PAM, the Pluggable Authentication Modules.
//!
//! The library itself is called elsewhere. Here stands what its results mean: the conversation
//! that answers its messages, the state of a handle, and the environment that it hands out.

use vstd::prelude::*;
use vstd::string::*;
use vstd::utf8::*;

use crate::modules::env::EnvMap;
use crate::modules::error;
use crate::modules::error::{Error, ErrorView};
use crate::modules::passwd;
use crate::shared;
use crate::text;

verus! {

/// Success.
pub const PAM_SUCCESS: i32 = 0;

/// A system error.
pub const PAM_SYSTEM_ERR: u32 = 4;

/// Memory ran out.
pub const PAM_BUF_ERR: i32 = 5;

/// The password has to be changed first.
pub const PAM_NEW_AUTHTOK_REQD: i32 = 12;

/// The conversation failed.
pub const PAM_CONV_ERR: i32 = 19;

/// The most messages of one conversation.
pub const PAM_MAX_NUM_MSG: i32 = 32;

/// Ask without showing the answer.
pub const PAM_PROMPT_ECHO_OFF: i32 = 1;

/// Ask and show the answer.
pub const PAM_PROMPT_ECHO_ON: i32 = 2;

/// Show an error.
pub const PAM_ERROR_MSG: i32 = 3;

/// Show a text.
pub const PAM_TEXT_INFO: i32 = 4;

/// Set the credentials of the user.
pub const PAM_ESTABLISH_CRED: i32 = 2;

/// Take the credentials of the user away.
pub const PAM_DELETE_CRED: i32 = 4;

// ---------------------------------------------------------------------------------------------
// Errors and items
// ---------------------------------------------------------------------------------------------

/// An error that PAM reported.
#[derive(Debug, Clone, PartialEq, Eq)]
pub struct PamError {
    code: u32,
    message: String,
}

/// What a `PamError` says.
#[verifier::ext_equal]
pub struct PamErrorView {
    /// The code.
    pub code: u32,
    /// The message.
    pub message: Seq<char>,
}

impl View for PamError {
    type V = PamErrorView;

    closed spec fn view(&self) -> PamErrorView {
        PamErrorView { code: self.code, message: self.message@ }
    }
}

impl PamError {
    /// An error with its code and message.
    pub fn new(code: u32, message: String) -> (r: Self)
        ensures
            r@ == (PamErrorView { code, message: message@ }),
    {
        PamError { code, message }
    }

    /// The code.
    pub fn code(&self) -> (r: u32)
        ensures
            r == self@.code,
    {
        self.code
    }

    /// The message.
    pub fn message(&self) -> (r: &str)
        ensures
            r@ == self@.message,
    {
        self.message.as_str()
    }
}

/// The items of a handle.
#[derive(Debug, Clone, Copy, PartialEq, Eq, Structural)]
pub enum PamItem {
    /// The name of the service.
    Service,
    /// The user to authenticate.
    User,
    /// The user who asks.
    RUser,
    /// The terminal.
    Tty,
    /// The host of the user who asks.
    RHost,
    /// The conversation.
    Conv,
    /// The password.
    AuthTok,
    /// The old password.
    OldAuthTok,
    /// The prompt for the name of the user.
    UserPrompt,
}

impl PamItem {
    /// The number of the item.
    pub open spec fn number(self) -> int {
        match self {
            PamItem::Service => 1,
            PamItem::User => 2,
            PamItem::Tty => 3,
            PamItem::RHost => 4,
            PamItem::Conv => 5,
            PamItem::AuthTok => 6,
            PamItem::OldAuthTok => 7,
            PamItem::RUser => 8,
            PamItem::UserPrompt => 9,
        }
    }

    /// The number of the item.
    pub fn code(self) -> (r: i32)
        ensures
            r == self.number(),
    {
        match self {
            PamItem::Service => 1,
            PamItem::User => 2,
            PamItem::Tty => 3,
            PamItem::RHost => 4,
            PamItem::Conv => 5,
            PamItem::AuthTok => 6,
            PamItem::OldAuthTok => 7,
            PamItem::RUser => 8,
            PamItem::UserPrompt => 9,
        }
    }
}

// ---------------------------------------------------------------------------------------------
// The conversation
// ---------------------------------------------------------------------------------------------

/// How an answer is typed.
#[derive(Debug, Clone, Copy, PartialEq, Eq, Structural)]
pub enum PromptMode {
    /// The answer is shown.
    Visible,
    /// The answer is not shown.
    Hidden,
}

/// What was answered to a prompt.
pub open spec fn typed_answer(r: Result<String, Error>) -> Result<Seq<char>, ErrorView> {
    match r {
        Ok(s) => Ok(s@),
        Err(e) => Err(e@),
    }
}

/// What was answered to a text that was only shown: nothing, or an error.
pub open spec fn shown_answer(r: Result<(), Error>) -> Result<Seq<char>, ErrorView> {
    match r {
        Ok(_) => Ok(Seq::empty()),
        Err(e) => Err(e@),
    }
}

/// The side of the user in a conversation with PAM. What it was asked and what it answered is on
/// record.
pub trait Conversation {
    /// What this side was asked so far, each time with its answer. An implementation that does
    /// not spell its record out leaves it open.
    closed spec fn heard(&self) -> Seq<(RequestView, Result<Seq<char>, ErrorView>)> {
        arbitrary()
    }

    /// Asks the user.
    fn prompt(&mut self, message: &str, mode: PromptMode) -> (r: Result<String, Error>)
        ensures
            final(self).heard() == old(self).heard().push(
                (RequestView::Prompt(message@, mode), typed_answer(r)),
            ),
    ;

    /// Shows a text.
    fn info(&mut self, message: &str) -> (r: Result<(), Error>)
        ensures
            final(self).heard() == old(self).heard().push(
                (RequestView::Info(message@), shown_answer(r)),
            ),
    ;

    /// Shows an error.
    fn error(&mut self, message: &str) -> (r: Result<(), Error>)
        ensures
            final(self).heard() == old(self).heard().push(
                (RequestView::Error(message@), shown_answer(r)),
            ),
    ;
}

/// The text of a message.
pub enum MessageText {
    /// There is no message.
    NullRequest,
    /// The message has no text.
    NullText,
    /// The bytes of the text.
    Text(Vec<u8>),
}

/// A message of PAM.
pub struct PamMessage {
    /// What kind of message it is.
    pub style: i32,
    /// Its text.
    pub text: MessageText,
}

/// What a `MessageText` says.
#[verifier::ext_equal]
pub enum TextView {
    /// See `MessageText::NullRequest`.
    NullRequest,
    /// See `MessageText::NullText`.
    NullText,
    /// See `MessageText::Text`.
    Text(Seq<u8>),
}

impl View for PamMessage {
    type V = (i32, TextView);

    open spec fn view(&self) -> (i32, TextView) {
        (
            self.style,
            match self.text {
                MessageText::NullRequest => TextView::NullRequest,
                MessageText::NullText => TextView::NullText,
                MessageText::Text(b) => TextView::Text(b@),
            },
        )
    }
}

/// The messages of a conversation.
pub open spec fn message_views(v: Seq<PamMessage>) -> Seq<(i32, TextView)> {
    v.map_values(|m: PamMessage| m@)
}

/// What a message asks of the user.
pub enum ConvRequest {
    /// Ask, and type the answer in this mode.
    Prompt(String, PromptMode),
    /// Show an error.
    Error(String),
    /// Show a text.
    Info(String),
}

/// What a `ConvRequest` says.
#[verifier::ext_equal]
pub enum RequestView {
    /// See `ConvRequest::Prompt`.
    Prompt(Seq<char>, PromptMode),
    /// See `ConvRequest::Error`.
    Error(Seq<char>),
    /// See `ConvRequest::Info`.
    Info(Seq<char>),
}

impl View for ConvRequest {
    type V = RequestView;

    open spec fn view(&self) -> RequestView {
        match *self {
            ConvRequest::Prompt(s, mode) => RequestView::Prompt(s@, mode),
            ConvRequest::Error(s) => RequestView::Error(s@),
            ConvRequest::Info(s) => RequestView::Info(s@),
        }
    }
}

/// The mode for a prompt of the kind `style` whose text is `lowered` in lower case: the answer
/// is shown only where PAM allows it and the prompt does not ask for a password.
pub open spec fn mode_for(style: i32, lowered: Seq<char>) -> PromptMode {
    if style == PAM_PROMPT_ECHO_ON && !text::occurs(lowered, "password"@) {
        PromptMode::Visible
    } else {
        PromptMode::Hidden
    }
}

/// The mode for a prompt of the kind `style` whose text is `lowered` in lower case.
pub fn prompt_mode(style: i32, lowered: &str) -> (r: PromptMode)
    ensures
        r == mode_for(style, lowered@),
{
    if style == PAM_PROMPT_ECHO_ON && !text::contains(lowered, "password") {
        PromptMode::Visible
    } else {
        PromptMode::Hidden
    }
}

/// What begins every report of a failed conversation.
pub open spec fn report_head() -> Seq<char> {
    "PAM conversation error: "@
}

/// What a message asks of the user, or the report of why it cannot be understood.
pub open spec fn request_of(message: (i32, TextView)) -> Result<RequestView, Seq<char>> {
    let style = message.0;
    match message.1 {
        TextView::NullRequest => Err(report_head() + "null request pointer"@),
        TextView::NullText => Err(report_head() + "null message pointer"@),
        TextView::Text(b) => if !valid_utf8(b) {
            Err(report_head() + text::utf8_fault(b))
        } else if style == PAM_PROMPT_ECHO_ON || style == PAM_PROMPT_ECHO_OFF {
            Ok(
                RequestView::Prompt(
                    decode_utf8(b),
                    mode_for(style, text::lowercase(decode_utf8(b))),
                ),
            )
        } else if style == PAM_ERROR_MSG {
            Ok(RequestView::Error(decode_utf8(b)))
        } else if style == PAM_TEXT_INFO {
            Ok(RequestView::Info(decode_utf8(b)))
        } else {
            Err(
                report_head() + ("unknown message style ("@ + text::signed_decimal(style as int)
                    + ")"@),
            )
        },
    }
}

/// A report of a failed conversation.
fn report(tail: &str) -> (r: String)
    ensures
        r@ == report_head() + tail@,
{
    let mut r = "PAM conversation error: ".to_owned();
    r.append(tail);
    r
}

/// Reads a message: what it asks of the user, or the report of why it cannot be understood.
pub fn conv_request(message: &PamMessage) -> (r: Result<ConvRequest, String>)
    ensures
        match r {
            Ok(q) => request_of(message@) == Ok::<RequestView, Seq<char>>(q@),
            Err(e) => request_of(message@) == Err::<RequestView, Seq<char>>(e@),
        },
{
    let style = message.style;
    match &message.text {
        MessageText::NullRequest => Err(report("null request pointer")),
        MessageText::NullText => Err(report("null message pointer")),
        MessageText::Text(b) => {
            let msg = match text::from_utf8(b.as_slice()) {
                Ok(s) => s,
                Err(e) => {
                    return Err(report(e.as_str()));
                },
            };
            proof {
                encode_utf8_valid_utf8(msg@);
                encode_utf8_decode_utf8(msg@);
            }
            if style == PAM_PROMPT_ECHO_ON || style == PAM_PROMPT_ECHO_OFF {
                let lowered = text::to_lowercase(msg.as_str());
                let mode = prompt_mode(style, lowered.as_str());
                Ok(ConvRequest::Prompt(msg, mode))
            } else if style == PAM_ERROR_MSG {
                Ok(ConvRequest::Error(msg))
            } else if style == PAM_TEXT_INFO {
                Ok(ConvRequest::Info(msg))
            } else {
                let mut tail = "unknown message style (".to_owned();
                tail.append(text::i32_text(style).as_str());
                tail.append(")");
                Err(report(tail.as_str()))
            }
        },
    }
}

/// How a conversation failed.
pub struct ConvFault {
    /// The code for PAM.
    pub code: i32,
    /// What to report to the user.
    pub report: Option<String>,
}

/// The code and the report of a conversation that failed.
pub open spec fn fault_view(f: ConvFault) -> (int, Option<Seq<char>>) {
    (
        f.code as int,
        match f.report {
            Some(s) => Some(s@),
            None => None,
        },
    )
}

/// How the conversation fails when the user's side fails with `e`: an error of PAM keeps its
/// code, any other is reported.
pub open spec fn fault_of(e: ErrorView) -> (int, Option<Seq<char>>) {
    match e {
        ErrorView::Pam(p) => (shared::as_signed(p.code), None),
        _ => (PAM_CONV_ERR as int, Some(report_head() + e.text())),
    }
}

/// How the conversation fails when the user's side fails with `e`.
pub fn conv_fault(e: &Error) -> (r: ConvFault)
    ensures
        fault_view(r) == fault_of(e@),
{
    match e {
        Error::Pam(p) => ConvFault { code: shared::signed(p.code()), report: None },
        _ => ConvFault { code: PAM_CONV_ERR, report: Some(report(e.display().as_str())) },
    }
}

/// `String::into_bytes`: the UTF-8 encoding of the text, without copying it.
pub assume_specification[ String::into_bytes ](s: String) -> (r: Vec<u8>)
    ensures
        r@ == encode_utf8(s@),
;

/// The bytes of an answer as a C string.
pub fn reply_bytes(answer: String) -> (r: Vec<u8>)
    ensures
        r@ == encode_utf8(answer@).push(0),
{
    let mut bytes = answer.into_bytes();
    bytes.push(0);
    bytes
}

/// How far a conversation has come.
#[verifier::ext_equal]
pub struct ConvState {
    /// The replies so far: for a prompt the C string of the answer.
    pub replies: Seq<Option<Seq<u8>>>,
    /// How it failed.
    pub fault: Option<(int, Option<Seq<char>>)>,
}

/// A conversation that has just begun.
pub open spec fn conv_start() -> ConvState {
    ConvState { replies: Seq::empty(), fault: None }
}

/// What one message and the answer of the user's side do to a conversation. A conversation that
/// has failed stays as it is.
pub open spec fn conv_step(
    s: ConvState,
    message: (i32, TextView),
    answer: Result<Seq<char>, ErrorView>,
) -> ConvState {
    if s.fault is Some {
        s
    } else {
        match request_of(message) {
            Err(e) => ConvState { fault: Some((PAM_CONV_ERR as int, Some(e))), ..s },
            Ok(q) => match answer {
                Err(e) => ConvState { fault: Some(fault_of(e)), ..s },
                Ok(a) => ConvState {
                    replies: s.replies.push(
                        if q is Prompt {
                            Some(encode_utf8(a).push(0))
                        } else {
                            None
                        },
                    ),
                    ..s
                },
            },
        }
    }
}

/// A conversation after `messages` and the answers to them.
pub open spec fn conv_after(
    messages: Seq<(i32, TextView)>,
    answers: Seq<Result<Seq<char>, ErrorView>>,
) -> ConvState
    decreases messages.len(),
{
    if messages.len() == 0 {
        conv_start()
    } else {
        conv_step(
            conv_after(messages.drop_last(), answers.drop_last()),
            messages.last(),
            answers.last(),
        )
    }
}

/// The result of a conversation.
pub struct ConvOutcome {
    /// The code for PAM.
    pub code: i32,
    /// The replies, one for each message, if the conversation succeeded.
    pub replies: Vec<Option<Vec<u8>>>,
    /// What to report to the user.
    pub report: Option<String>,
}

/// The replies of a conversation.
pub open spec fn reply_views(v: Seq<Option<Vec<u8>>>) -> Seq<Option<Seq<u8>>> {
    v.map_values(
        |r: Option<Vec<u8>>|
            match r {
                Some(b) => Some(b@),
                None => None,
            },
    )
}

/// `r` is the result of a conversation that ended as `s`.
pub open spec fn outcome_is(r: ConvOutcome, s: ConvState) -> bool {
    match s.fault {
        None => {
            &&& r.code == PAM_SUCCESS
            &&& reply_views(r.replies@) == s.replies
            &&& r.report is None
        },
        Some((code, report)) => {
            &&& r.code == code
            &&& r.replies@.len() == 0
            &&& match r.report {
                Some(t) => report == Some(t@),
                None => report is None,
            }
        },
    }
}

/// Tells whether a conversation can begin: there is at least one message, there are not too
/// many, and none of the places for messages, replies and the user's side is missing.
pub fn conv_check(num_msg: i32, no_messages: bool, no_reply: bool, no_side: bool) -> (r: bool)
    ensures
        r == (0 < num_msg <= PAM_MAX_NUM_MSG && !no_messages && !no_reply && !no_side),
{
    num_msg > 0 && num_msg <= PAM_MAX_NUM_MSG && !no_messages && !no_reply && !no_side
}

/// Overwrites the replies.
fn wipe_replies(replies: Vec<Option<Vec<u8>>>) {
    let mut rest = replies;
    while rest.len() > 0
        decreases rest.len(),
    {
        match rest.pop() {
            Some(Some(b)) => {
                let mut bytes = b;
                passwd::zeroize_bytes(&mut bytes);
            },
            _ => {},
        }
    }
}

/// What the user's side answered: the text for a prompt, nothing for what was only shown.
pub open spec fn answer_view(r: Result<Option<String>, Error>) -> Result<Seq<char>, ErrorView> {
    match r {
        Ok(Some(s)) => Ok(s@),
        Ok(None) => Ok(Seq::empty()),
        Err(e) => Err(e@),
    }
}

/// Puts one request to the user's side.
fn ask<T: Conversation>(callback: &mut T, request: &ConvRequest) -> (r: Result<
    Option<String>,
    Error,
>)
    ensures
        final(callback).heard() == old(callback).heard().push((request@, answer_view(r))),
        r matches Ok(a) ==> (a is Some <==> request@ is Prompt),
{
    match request {
        ConvRequest::Prompt(msg, mode) => match callback.prompt(msg.as_str(), *mode) {
            Ok(a) => Ok(Some(a)),
            Err(e) => Err(e),
        },
        ConvRequest::Error(msg) => match callback.error(msg.as_str()) {
            Ok(_) => Ok(None),
            Err(e) => Err(e),
        },
        ConvRequest::Info(msg) => match callback.info(msg.as_str()) {
            Ok(_) => Ok(None),
            Err(e) => Err(e),
        },
    }
}

/// The reply that an answer of the user's side makes, or how it fails the conversation: the
/// text for a prompt becomes a C string, and what was only shown has no reply.
pub fn conv_reply(answer: Result<Option<String>, Error>) -> (r: Result<
    Option<Vec<u8>>,
    ConvFault,
>)
    ensures
        match answer {
            Ok(Some(s)) => r matches Ok(Some(b)) && b@ == encode_utf8(s@).push(0),
            Ok(None) => r == Ok::<Option<Vec<u8>>, ConvFault>(None),
            Err(e) => r is Err && fault_view(r->Err_0) == fault_of(e@),
        },
{
    match answer {
        Ok(Some(s)) => Ok(Some(reply_bytes(s))),
        Ok(None) => Ok(None),
        Err(e) => Err(conv_fault(&e)),
    }
}

/// A request and the answer to it.
pub type Exchange = (RequestView, Result<Seq<char>, ErrorView>);

/// The exchanges that `after` has beyond `before`.
pub open spec fn added(before: Seq<Exchange>, after: Seq<Exchange>) -> Seq<Exchange> {
    after.skip(before.len() as int)
}

/// The answers of exchanges.
pub open spec fn answers_in(exchanges: Seq<Exchange>) -> Seq<Result<Seq<char>, ErrorView>> {
    exchanges.map_values(|x: Exchange| x.1)
}

/// The last exchange was answered with an error.
pub open spec fn broken_off(exchanges: Seq<Exchange>) -> bool {
    exchanges.len() > 0 && exchanges.last().1 is Err
}

/// `exchanges` are those of a conversation about `messages`: they are put to the user's side in
/// their order, each once, until one is answered with an error or the next one cannot be
/// understood.
pub open spec fn is_conversation(
    messages: Seq<(i32, TextView)>,
    exchanges: Seq<Exchange>,
) -> bool {
    let n = exchanges.len() as int;
    &&& n <= messages.len()
    &&& forall|i: int|
        0 <= i < n ==> request_of(messages[i]) == Ok::<RequestView, Seq<char>>(
            (#[trigger] exchanges[i]).0,
        )
    &&& forall|i: int| 0 <= i < n - 1 ==> (#[trigger] exchanges[i]).1 is Ok
    &&& n < messages.len() ==> broken_off(exchanges) || request_of(messages[n]) is Err
}

/// How a conversation about `messages` with these exchanges ends.
pub open spec fn conv_result(
    messages: Seq<(i32, TextView)>,
    exchanges: Seq<Exchange>,
) -> ConvState {
    let n = exchanges.len() as int;
    if n < messages.len() && !broken_off(exchanges) {
        // The answer to a message that is not understood does not count.
        conv_after(messages.take(n + 1), answers_in(exchanges).push(Ok(Seq::empty())))
    } else {
        conv_after(messages.take(n), answers_in(exchanges))
    }
}

/// As long as every message is understood and no answer is an error, a conversation has not
/// failed and has the reply of each answer.
proof fn lemma_conv_replies(messages: Seq<(i32, TextView)>, exchanges: Seq<Exchange>)
    requires
        messages.len() == exchanges.len(),
        forall|i: int|
            0 <= i < exchanges.len() ==> request_of(messages[i]) == Ok::<RequestView, Seq<char>>(
                (#[trigger] exchanges[i]).0,
            ) && exchanges[i].1 is Ok,
    ensures
        ({
            let s = conv_after(messages, answers_in(exchanges));
            &&& s.fault is None
            &&& s.replies.len() == messages.len()
            &&& forall|i: int|
                0 <= i < messages.len() ==> #[trigger] s.replies[i] == (if exchanges[i].0
                    is Prompt {
                    Some(encode_utf8(exchanges[i].1->Ok_0).push(0))
                } else {
                    None
                })
        }),
    decreases messages.len(),
{
    if messages.len() > 0 {
        let n = messages.len() - 1;
        let before = exchanges.drop_last();
        assert forall|i: int| 0 <= i < before.len() implies request_of(messages.drop_last()[i])
            == Ok::<RequestView, Seq<char>>((#[trigger] before[i]).0) && before[i].1 is Ok by {
            assert(before[i] == exchanges[i]);
        }
        lemma_conv_replies(messages.drop_last(), before);
        assert(answers_in(exchanges).drop_last() =~= answers_in(before));
        assert(answers_in(exchanges).last() == exchanges[n].1);
        let s = conv_after(messages, answers_in(exchanges));
        assert forall|i: int| 0 <= i < messages.len() implies #[trigger] s.replies[i] == (if
        exchanges[i].0 is Prompt {
            Some(encode_utf8(exchanges[i].1->Ok_0).push(0))
        } else {
            None
        }) by {
            if i < n {
                assert(before[i] == exchanges[i]);
            }
        }
    }
}

/// If every message is understood and no answer is an error, each message was put to the user's
/// side and the conversation succeeds. PAM gets the user's own answer to each prompt
/// and nothing for what was only shown.
pub proof fn law_conversation_succeeds(
    messages: Seq<(i32, TextView)>,
    exchanges: Seq<Exchange>,
)
    requires
        is_conversation(messages, exchanges),
        forall|i: int| 0 <= i < messages.len() ==> request_of(#[trigger] messages[i]) is Ok,
        !broken_off(exchanges),
    ensures
        exchanges.len() == messages.len(),
        conv_result(messages, exchanges).fault is None,
        conv_result(messages, exchanges).replies.len() == messages.len(),
        forall|i: int|
            0 <= i < messages.len() ==> #[trigger] conv_result(messages, exchanges).replies[i]
                == (if exchanges[i].0 is Prompt {
                Some(encode_utf8(exchanges[i].1->Ok_0).push(0))
            } else {
                None
            }),
{
    let n = exchanges.len() as int;
    if n < messages.len() {
        assert(request_of(messages[n]) is Ok);
    }
    assert(messages.take(n) =~= messages);
    assert forall|i: int| 0 <= i < n implies request_of(messages[i]) == Ok::<
        RequestView,
        Seq<char>,
    >((#[trigger] exchanges[i]).0) && exchanges[i].1 is Ok by {
        if i == n - 1 {
            assert(exchanges[i] == exchanges.last());
        }
    }
    lemma_conv_replies(messages, exchanges);
}

/// An answer that is an error ends the conversation there: nothing more is asked, and the
/// conversation fails as that error says. A message that cannot be understood ends it too,
/// before it is put to anybody.
pub proof fn law_conversation_fails(messages: Seq<(i32, TextView)>, exchanges: Seq<Exchange>)
    requires
        is_conversation(messages, exchanges),
        broken_off(exchanges) || exchanges.len() < messages.len(),
    ensures
        conv_result(messages, exchanges).fault == Some(
            if broken_off(exchanges) {
                fault_of(exchanges.last().1->Err_0)
            } else {
                (
                    PAM_CONV_ERR as int,
                    Some(request_of(messages[exchanges.len() as int])->Err_0),
                )
            },
        ),
{
    let n = exchanges.len() as int;
    if broken_off(exchanges) {
        let before = exchanges.drop_last();
        let asked = messages.take(n);
        assert(asked.drop_last() =~= messages.take(n - 1));
        assert forall|i: int| 0 <= i < before.len() implies request_of(messages.take(n - 1)[i])
            == Ok::<RequestView, Seq<char>>((#[trigger] before[i]).0) && before[i].1 is Ok by {
            assert(before[i] == exchanges[i]);
        }
        lemma_conv_replies(messages.take(n - 1), before);
        assert(answers_in(exchanges).drop_last() =~= answers_in(before));
        assert(request_of(messages[n - 1]) == Ok::<RequestView, Seq<char>>(exchanges[n - 1].0));
        assert(asked.last() == messages[n - 1]);
    } else {
        let asked = messages.take(n + 1);
        assert(asked.drop_last() =~= messages.take(n));
        assert forall|i: int| 0 <= i < n implies request_of(messages.take(n)[i]) == Ok::<
            RequestView,
            Seq<char>,
        >((#[trigger] exchanges[i]).0) && exchanges[i].1 is Ok by {
            if i == n - 1 {
                assert(exchanges[i] == exchanges.last());
            }
        }
        lemma_conv_replies(messages.take(n), exchanges);
        let answers = answers_in(exchanges).push(Ok(Seq::empty()));
        assert(answers.drop_last() =~= answers_in(exchanges));
    }
}

/// Answers the messages of PAM through the user's side `callback`. The messages are put to it in
/// their order, each once, until one cannot be understood or is answered with an error, and its
/// own answers are what PAM gets.
pub fn pam_conv_process<T: Conversation>(
    messages: &Vec<PamMessage>,
    callback: &mut T,
) -> (r: ConvOutcome)
    ensures
        old(callback).heard().is_prefix_of(final(callback).heard()),
        is_conversation(
            message_views(messages@),
            added(old(callback).heard(), final(callback).heard()),
        ),
        outcome_is(
            r,
            conv_result(
                message_views(messages@),
                added(old(callback).heard(), final(callback).heard()),
            ),
        ),
{
    let ghost all = message_views(messages@);
    let ghost start = callback.heard();
    let ghost mut exchanges: Seq<Exchange> = Seq::empty();
    let mut replies: Vec<Option<Vec<u8>>> = Vec::new();
    proof {
        assert(reply_views(replies@) =~= Seq::<Option<Seq<u8>>>::empty());
        assert(callback.heard() =~= start + exchanges);
        assert(conv_after(all.take(0), answers_in(exchanges)) == conv_start());
    }
    let mut i: usize = 0;
    while i < messages.len()
        invariant
            i <= messages@.len(),
            all == message_views(messages@),
            start == old(callback).heard(),
            exchanges.len() == i,
            callback.heard() == start + exchanges,
            conv_after(all.take(i as int), answers_in(exchanges)) == (ConvState {
                replies: reply_views(replies@),
                fault: None,
            }),
            replies@.len() == i,
            forall|j: int|
                0 <= j < i ==> request_of(all[j]) == Ok::<RequestView, Seq<char>>(
                    (#[trigger] exchanges[j]).0,
                ) && exchanges[j].1 is Ok,
        decreases messages.len() - i,
    {
        let ghost next = all.take(i + 1);
        let ghost before = replies@;
        let ghost exchanged = exchanges;
        proof {
            assert(next.drop_last() =~= all.take(i as int));
            assert(next.last() == messages@[i as int]@);
        }
        let request = match conv_request(&messages[i]) {
            Ok(q) => q,
            Err(e) => {
                wipe_replies(replies);
                proof {
                    assert(added(start, start + exchanges) =~= exchanges);
                    let answers = answers_in(exchanges).push(Ok(Seq::empty()));
                    assert(answers.drop_last() =~= answers_in(exchanges));
                    assert(all[i as int] == messages@[i as int]@);
                    if i > 0 {
                        assert(exchanges[i - 1] == exchanges.last());
                    }
                }
                return ConvOutcome { code: PAM_CONV_ERR, replies: Vec::new(), report: Some(e) };
            },
        };
        let answer = ask(callback, &request);
        proof {
            exchanges = exchanged.push((request@, answer_view(answer)));
            assert(callback.heard() =~= start + exchanges);
            assert(answers_in(exchanges) =~= answers_in(exchanged).push(answer_view(answer)));
            assert(answers_in(exchanges).drop_last() =~= answers_in(exchanged));
            assert(all[i as int] == messages@[i as int]@);
        }
        match conv_reply(answer) {
            Err(f) => {
                wipe_replies(replies);
                proof {
                    assert(added(start, start + exchanges) =~= exchanges);
                }
                return ConvOutcome { code: f.code, replies: Vec::new(), report: f.report };
            },
            Ok(reply) => {
                replies.push(reply);
                assert(reply_views(replies@) =~= reply_views(before).push(
                    match reply {
                        Some(b) => Some(b@),
                        None => None,
                    },
                ));
            },
        }
        i = i + 1;
    }
    proof {
        assert(added(start, start + exchanges) =~= exchanges);
        assert(all.take(all.len() as int) =~= all);
    }
    ConvOutcome { code: PAM_SUCCESS, replies, report: None }
}

// ---------------------------------------------------------------------------------------------
// The handle
// ---------------------------------------------------------------------------------------------

/// The error for a code and the message that PAM has for it.
pub open spec fn error_of(code: i32, message: Option<Seq<char>>) -> PamErrorView {
    match message {
        Some(m) => PamErrorView { code: shared::as_unsigned(code) as u32, message: m },
        None => PamErrorView {
            code: PAM_SYSTEM_ERR,
            message: "Unknown error ("@ + text::signed_decimal(code as int) + ")"@,
        },
    }
}

/// The error for a code and the message that PAM has for it, if it has one.
pub fn pam_error(code: i32, message: Option<String>) -> (r: PamError)
    ensures
        r@ == error_of(code, text::opt_view(message)),
{
    match message {
        Some(m) => PamError::new(shared::unsigned(code), m),
        None => {
            let mut m = "Unknown error (".to_owned();
            m.append(text::i32_text(code).as_str());
            m.append(")");
            PamError::new(PAM_SYSTEM_ERR, m)
        },
    }
}

/// The state of a handle.
#[derive(Debug)]
pub struct PamHandle {
    last_status: i32,
    session: bool,
}

/// What a `PamHandle` says.
#[verifier::ext_equal]
pub struct HandleView {
    /// The result of the last call.
    pub last_status: i32,
    /// A session is open.
    pub session: bool,
}

impl View for PamHandle {
    type V = HandleView;

    closed spec fn view(&self) -> HandleView {
        HandleView { last_status: self.last_status, session: self.session }
    }
}

/// The next call of opening or closing a session.
#[derive(Debug, Clone, Copy, PartialEq, Eq, Structural)]
pub enum SessionCall {
    /// Set or take away the credentials of the user.
    SetCred(i32),
    /// Open the session.
    OpenSession,
    /// Close the session.
    CloseSession,
    /// There is nothing to do any more.
    Nothing,
}

/// The first call of opening a session: a session that is open already stays.
pub open spec fn open_first(s: HandleView) -> SessionCall {
    if s.session {
        SessionCall::Nothing
    } else {
        SessionCall::SetCred(PAM_ESTABLISH_CRED)
    }
}

/// What the result of `call` means for opening a session: the handle afterwards and, if the
/// call succeeded, the next one.
pub open spec fn open_next(
    s: HandleView,
    call: SessionCall,
    result: i32,
) -> (HandleView, Option<SessionCall>) {
    if result != PAM_SUCCESS {
        (HandleView { last_status: result, ..s }, None)
    } else {
        match call {
            SessionCall::SetCred(_) => (
                HandleView { last_status: result, ..s },
                Some(SessionCall::OpenSession),
            ),
            _ => (
                HandleView { last_status: result, session: true },
                Some(SessionCall::Nothing),
            ),
        }
    }
}

/// The first call of closing a session: without one there is none.
pub open spec fn close_first(s: HandleView) -> SessionCall {
    if s.session {
        SessionCall::CloseSession
    } else {
        SessionCall::Nothing
    }
}

/// What the result of `call` means for closing a session.
pub open spec fn close_next(
    s: HandleView,
    call: SessionCall,
    result: i32,
) -> (HandleView, Option<SessionCall>) {
    if result != PAM_SUCCESS {
        (HandleView { last_status: result, ..s }, None)
    } else {
        match call {
            SessionCall::CloseSession => (
                HandleView { last_status: result, ..s },
                Some(SessionCall::SetCred(PAM_DELETE_CRED)),
            ),
            _ => (
                HandleView { last_status: result, session: false },
                Some(SessionCall::Nothing),
            ),
        }
    }
}

/// A session is opened exactly if both the credentials are set and PAM opens it, and only an
/// open session is ever closed.
pub proof fn law_session(s: HandleView, cred: i32, open: i32)
    requires
        !s.session,
    ensures
        ({
            let first = open_next(s, open_first(s), cred);
            let second = open_next(first.0, SessionCall::OpenSession, open);
            let after = if first.1 is Some {
                second.0
            } else {
                first.0
            };
            &&& open_first(s) == SessionCall::SetCred(PAM_ESTABLISH_CRED)
            &&& close_first(s) == SessionCall::Nothing
            &&& after.session <==> cred == PAM_SUCCESS && open == PAM_SUCCESS
            &&& after.last_status == (if cred != PAM_SUCCESS {
                cred
            } else {
                open
            })
            &&& after.session ==> open_first(after) == SessionCall::Nothing && close_first(after)
                == SessionCall::CloseSession
        }),
{
}

/// An open session that PAM closed and whose credentials were taken away is open no more: closing
/// it again asks nothing of PAM, and opening begins anew. A close that failed can be tried again.
pub proof fn law_session_closed(s: HandleView, close: i32, cred: i32)
    requires
        s.session,
    ensures
        ({
            let first = close_next(s, close_first(s), close);
            let second = close_next(first.0, SessionCall::SetCred(PAM_DELETE_CRED), cred);
            let after = if first.1 is Some {
                second.0
            } else {
                first.0
            };
            &&& close_first(s) == SessionCall::CloseSession
            &&& close == PAM_SUCCESS ==> first.1 == Some(SessionCall::SetCred(PAM_DELETE_CRED))
            &&& after.session <==> close != PAM_SUCCESS || cred != PAM_SUCCESS
            &&& close_first(after) == if after.session {
                SessionCall::CloseSession
            } else {
                SessionCall::Nothing
            }
            &&& !after.session ==> open_first(after) == SessionCall::SetCred(PAM_ESTABLISH_CRED)
        }),
{
}

impl PamHandle {
    /// Keeps the result of a call and turns a failure into an error. `message` is what PAM has
    /// to say about it.
    pub fn check(&mut self, result: i32, message: Option<String>) -> (r: Result<(), Error>)
        ensures
            final(self)@ == (HandleView { last_status: result, ..old(self)@ }),
            if result == PAM_SUCCESS {
                r is Ok
            } else {
                error::fails(r, ErrorView::Pam(error_of(result, text::opt_view(message))))
            },
    {
        self.last_status = result;
        if result == PAM_SUCCESS {
            Ok(())
        } else {
            Err(Error::Pam(pam_error(result, message)))
        }
    }

    /// The error for a code and the message that PAM has for it, if it has one.
    pub fn error(&self, code: i32, message: Option<String>) -> (r: PamError)
        ensures
            r@ == error_of(code, text::opt_view(message)),
    {
        pam_error(code, message)
    }

    /// What the result of authenticating the user means.
    pub fn authenticate(&mut self, result: i32, message: Option<String>) -> (r: Result<(), Error>)
        ensures
            final(self)@ == (HandleView { last_status: result, ..old(self)@ }),
            if result == PAM_SUCCESS {
                r is Ok
            } else {
                error::fails(r, ErrorView::Pam(error_of(result, text::opt_view(message))))
            },
    {
        self.check(result, message)
    }

    /// What the result of the account checks means: an expired password asks for an action,
    /// any other failure is an error.
    pub fn acct_mgmt(&mut self, result: i32, message: Option<String>) -> (r: Result<(), Error>)
        ensures
            final(self)@ == (HandleView { last_status: result, ..old(self)@ }),
            if result == PAM_SUCCESS {
                r is Ok
            } else if result == PAM_NEW_AUTHTOK_REQD {
                error::fails(
                    r,
                    ErrorView::PamActionRequired(error_of(result, text::opt_view(message))),
                )
            } else {
                error::fails(r, ErrorView::Pam(error_of(result, text::opt_view(message))))
            },
    {
        self.last_status = result;
        if result == PAM_SUCCESS {
            Ok(())
        } else if result == PAM_NEW_AUTHTOK_REQD {
            Err(Error::PamActionRequired(pam_error(result, message)))
        } else {
            Err(Error::Pam(pam_error(result, message)))
        }
    }

    /// What the result of changing the password means.
    pub fn chauthtok(&mut self, result: i32, message: Option<String>) -> (r: Result<(), Error>)
        ensures
            final(self)@ == (HandleView { last_status: result, ..old(self)@ }),
            if result == PAM_SUCCESS {
                r is Ok
            } else {
                error::fails(r, ErrorView::Pam(error_of(result, text::opt_view(message))))
            },
    {
        self.check(result, message)
    }

    /// What the result of setting an item means.
    pub fn set_item(&mut self, result: i32, message: Option<String>) -> (r: Result<(), Error>)
        ensures
            final(self)@ == (HandleView { last_status: result, ..old(self)@ }),
            if result == PAM_SUCCESS {
                r is Ok
            } else {
                error::fails(r, ErrorView::Pam(error_of(result, text::opt_view(message))))
            },
    {
        self.check(result, message)
    }

    /// The first call of opening a session.
    pub fn open_session(&self) -> (r: SessionCall)
        ensures
            r == open_first(self@),
    {
        if self.session {
            SessionCall::Nothing
        } else {
            SessionCall::SetCred(PAM_ESTABLISH_CRED)
        }
    }

    /// The call that follows `call` in opening a session.
    pub fn open_session_next(
        &mut self,
        call: SessionCall,
        result: i32,
        message: Option<String>,
    ) -> (r: Result<SessionCall, Error>)
        requires
            call is SetCred || call is OpenSession,
        ensures
            final(self)@ == open_next(old(self)@, call, result).0,
            match open_next(old(self)@, call, result).1 {
                Some(next) => r == Ok::<SessionCall, Error>(next),
                None => error::fails(r, ErrorView::Pam(error_of(result, text::opt_view(message)))),
            },
    {
        match self.check(result, message) {
            Err(e) => Err(e),
            Ok(_) => match call {
                SessionCall::SetCred(_) => Ok(SessionCall::OpenSession),
                _ => {
                    self.session = true;
                    Ok(SessionCall::Nothing)
                },
            },
        }
    }

    /// The first call of closing a session.
    pub fn close_session(&self) -> (r: SessionCall)
        ensures
            r == close_first(self@),
    {
        if self.session {
            SessionCall::CloseSession
        } else {
            SessionCall::Nothing
        }
    }

    /// The call that follows `call` in closing a session.
    pub fn close_session_next(
        &mut self,
        call: SessionCall,
        result: i32,
        message: Option<String>,
    ) -> (r: Result<SessionCall, Error>)
        requires
            call is SetCred || call is CloseSession,
        ensures
            final(self)@ == close_next(old(self)@, call, result).0,
            match close_next(old(self)@, call, result).1 {
                Some(next) => r == Ok::<SessionCall, Error>(next),
                None => error::fails(r, ErrorView::Pam(error_of(result, text::opt_view(message)))),
            },
    {
        match self.check(result, message) {
            Err(e) => Err(e),
            Ok(_) => match call {
                SessionCall::CloseSession => Ok(SessionCall::SetCred(PAM_DELETE_CRED)),
                _ => {
                    self.session = false;
                    Ok(SessionCall::Nothing)
                },
            },
        }
    }

    /// The status to end the use of PAM with.
    pub fn end_status(&self) -> (r: i32)
        ensures
            r == self@.last_status,
    {
        self.last_status
    }
}

/// The handle that the start of PAM gave, unless it failed.
pub fn pam_start(result: i32, no_handle: bool, message: Option<String>) -> (r: Result<
    PamHandle,
    Error,
>)
    ensures
        if result != PAM_SUCCESS {
            error::fails(r, ErrorView::Pam(error_of(result, text::opt_view(message))))
        } else if no_handle {
            error::refuses(r, "returned null pointer PAM handle"@)
        } else {
            r matches Ok(h) && h@ == (HandleView { last_status: PAM_SUCCESS, session: false })
        },
{
    if result != PAM_SUCCESS {
        return Err(Error::Pam(pam_error(result, message)));
    }
    if no_handle {
        return Err(Error::StaticMessage("returned null pointer PAM handle"));
    }
    Ok(PamHandle { last_status: PAM_SUCCESS, session: false })
}

// ---------------------------------------------------------------------------------------------
// The environment
// ---------------------------------------------------------------------------------------------

/// The variable in an entry `NAME=VALUE` of PAM's environment.
pub open spec fn entry_variable(entry: Seq<u8>) -> Result<(Seq<char>, Seq<char>), ErrorView> {
    if !valid_utf8(entry) {
        Err(ErrorView::InvalidUtf8(text::utf8_fault(entry)))
    } else {
        match text::cut(decode_utf8(entry), '=') {
            Some(v) => Ok(v),
            None => Err(
                ErrorView::StaticMessage("invalid environment variable returned by PAM"@),
            ),
        }
    }
}

/// The variables in the entries of PAM's environment; the first entry that is none decides.
pub open spec fn entries_variables(entries: Seq<Seq<u8>>) -> Result<
    Map<Seq<char>, Seq<char>>,
    ErrorView,
>
    decreases entries.len(),
{
    if entries.len() == 0 {
        Ok(Map::empty())
    } else {
        match entries_variables(entries.drop_last()) {
            Err(e) => Err(e),
            Ok(m) => match entry_variable(entries.last()) {
                Err(e) => Err(e),
                Ok((k, v)) => Ok(m.insert(k, v)),
            },
        }
    }
}

/// The bytes of a list of entries.
pub open spec fn entry_views(v: Seq<Vec<u8>>) -> Seq<Seq<u8>> {
    v.map_values(|b: Vec<u8>| b@)
}

/// An entry that is no variable decides, whatever follows it.
proof fn lemma_entries_error(entries: Seq<Seq<u8>>, n: int)
    requires
        0 <= n <= entries.len(),
        entries_variables(entries.take(n)) is Err,
    ensures
        entries_variables(entries) == entries_variables(entries.take(n)),
    decreases entries.len() - n,
{
    if n == entries.len() {
        assert(entries.take(n) =~= entries);
    } else {
        assert(entries.take(n + 1).drop_last() =~= entries.take(n));
        lemma_entries_error(entries, n + 1);
    }
}

/// Reads one entry.
fn read_entry(entry: &Vec<u8>) -> (r: Result<(String, String), Error>)
    ensures
        match r {
            Ok((k, v)) => entry_variable(entry@) == Ok::<(Seq<char>, Seq<char>), ErrorView>(
                (k@, v@),
            ),
            Err(e) => entry_variable(entry@) == Err::<(Seq<char>, Seq<char>), ErrorView>(e@),
        },
{
    match text::from_utf8(entry.as_slice()) {
        Err(e) => Err(Error::InvalidUtf8(e)),
        Ok(s) => {
            proof {
                encode_utf8_valid_utf8(s@);
                encode_utf8_decode_utf8(s@);
            }
            match text::split_once(s.as_str(), '=') {
                Some((k, v)) => Ok((k.to_owned(), v.to_owned())),
                None => Err(
                    Error::StaticMessage("invalid environment variable returned by PAM"),
                ),
            }
        },
    }
}

/// The variables in the entries of PAM's environment. Of two entries for one name the last
/// counts.
fn read_entries(entries: &Vec<Vec<u8>>) -> (r: Result<EnvMap, Error>)
    ensures
        match r {
            Ok(m) => m.wf() && entries_variables(entry_views(entries@)) == Ok::<
                Map<Seq<char>, Seq<char>>,
                ErrorView,
            >(m@),
            Err(e) => entries_variables(entry_views(entries@)) == Err::<
                Map<Seq<char>, Seq<char>>,
                ErrorView,
            >(e@),
        },
{
    let mut m = EnvMap::new();
    let ghost all = entry_views(entries@);
    assert(entries_variables(all.take(0)) == Ok::<Map<Seq<char>, Seq<char>>, ErrorView>(m@));
    let mut i: usize = 0;
    while i < entries.len()
        invariant
            i <= entries@.len(),
            all == entry_views(entries@),
            m.wf(),
            entries_variables(all.take(i as int)) == Ok::<Map<Seq<char>, Seq<char>>, ErrorView>(
                m@,
            ),
        decreases entries.len() - i,
    {
        proof {
            let next = all.take(i + 1);
            assert(next.drop_last() =~= all.take(i as int));
            assert(next.last() == entries@[i as int]@);
        }
        match read_entry(&entries[i]) {
            Ok((k, v)) => {
                m.insert(k, v);
            },
            Err(e) => {
                proof {
                    lemma_entries_error(all, i + 1);
                }
                return Err(e);
            },
        }
        i = i + 1;
    }
    assert(all.take(all.len() as int) =~= all);
    Ok(m)
}

impl PamHandle {
    /// The variables in the entries of PAM's environment. Of two entries for one name the last
    /// counts, and an entry that is no variable is an error.
    pub fn getenvlist(&self, entries: &Vec<Vec<u8>>) -> (r: Result<EnvMap, Error>)
        ensures
            match r {
                Ok(m) => m.wf() && entries_variables(entry_views(entries@)) == Ok::<
                    Map<Seq<char>, Seq<char>>,
                    ErrorView,
                >(m@),
                Err(e) => entries_variables(entry_views(entries@)) == Err::<
                    Map<Seq<char>, Seq<char>>,
                    ErrorView,
                >(e@),
            },
    {
        read_entries(entries)
    }
}

// ---------------------------------------------------------------------------------------------
// What the answers come to
// ---------------------------------------------------------------------------------------------

/// The items have the numbers that PAM gives them.
pub proof fn law_item_numbers(item: PamItem)
    ensures
        item.number() == 1 <==> item == PamItem::Service,
        item.number() == 2 <==> item == PamItem::User,
        item.number() == 3 <==> item == PamItem::Tty,
        item.number() == 4 <==> item == PamItem::RHost,
        item.number() == 5 <==> item == PamItem::Conv,
        item.number() == 6 <==> item == PamItem::AuthTok,
        item.number() == 7 <==> item == PamItem::OldAuthTok,
        item.number() == 8 <==> item == PamItem::RUser,
        item.number() == 9 <==> item == PamItem::UserPrompt,
{
}

/// An answer is shown while it is typed only where PAM asks for that and the question is not for
/// a password.
pub proof fn law_answer_shown(style: i32, lowered: Seq<char>)
    ensures
        mode_for(style, lowered) == PromptMode::Visible <==> style == 2 && !text::occurs(
            lowered,
            "password"@,
        ),
        style != 2 ==> mode_for(style, lowered) == PromptMode::Hidden,
        text::occurs(lowered, "password"@) ==> mode_for(style, lowered) == PromptMode::Hidden,
{
}

/// What a message asks for, by its style: the two styles of a prompt are put to the user, an
/// error and a text are shown, each with the text of the message, and any other style is refused.
pub proof fn law_requests(style: i32, s: Seq<char>)
    ensures
        ({
            let request = request_of((style, TextView::Text(encode_utf8(s))));
            &&& style == 1 ==> request == Ok::<RequestView, Seq<char>>(
                RequestView::Prompt(s, PromptMode::Hidden),
            )
            &&& style == 2 ==> (request matches Ok(RequestView::Prompt(t, mode)) && t == s && (mode
                == PromptMode::Hidden <==> text::occurs(text::lowercase(s), "password"@)))
            &&& style == 3 ==> request == Ok::<RequestView, Seq<char>>(RequestView::Error(s))
            &&& style == 4 ==> request == Ok::<RequestView, Seq<char>>(RequestView::Info(s))
            &&& style < 1 || style > 4 ==> request == Err::<RequestView, Seq<char>>(
                "PAM conversation error: "@ + ("unknown message style ("@ + text::signed_decimal(
                    style as int,
                ) + ")"@),
            )
        }),
{
    encode_utf8_valid_utf8(s);
    encode_utf8_decode_utf8(s);
}

/// A message that is missing, has no text, or has one that cannot be read is refused whatever its
/// style is.
pub proof fn law_refused_messages(style: i32, bytes: Seq<u8>)
    ensures
        request_of((style, TextView::NullRequest)) == Err::<RequestView, Seq<char>>(
            "PAM conversation error: "@ + "null request pointer"@,
        ),
        request_of((style, TextView::NullText)) == Err::<RequestView, Seq<char>>(
            "PAM conversation error: "@ + "null message pointer"@,
        ),
        !valid_utf8(bytes) ==> request_of((style, TextView::Text(bytes))) == Err::<
            RequestView,
            Seq<char>,
        >("PAM conversation error: "@ + text::utf8_fault(bytes)),
{
}

/// An error of PAM goes back to PAM as its own code and needs no report. Any other error fails
/// the conversation and is reported.
pub proof fn law_faults(e: ErrorView)
    ensures
        e matches ErrorView::Pam(p) ==> fault_of(e) == (
            shared::as_signed(p.code),
            None::<Seq<char>>,
        ),
        !(e is Pam) ==> fault_of(e) == (19int, Some("PAM conversation error: "@ + e.text())),
{
}

/// Once a conversation failed, nothing changes it. A step that succeeds adds one reply: to a
/// prompt the answer as a C string, and nothing to a text that is shown.
pub proof fn law_conversation_step(
    s: ConvState,
    message: (i32, TextView),
    answer: Result<Seq<char>, ErrorView>,
)
    ensures
        ({
            let next = conv_step(s, message, answer);
            &&& s.fault is Some ==> next == s
            &&& next.fault is None <==> s.fault is None && request_of(message) is Ok && answer is Ok
            &&& next.fault is Some ==> next.replies == s.replies
            &&& next.fault is None ==> next.replies.len() == s.replies.len() + 1
                && next.replies.drop_last() == s.replies
            &&& next.fault is None && message.0 <= 2 ==> next.replies.last() == Some(
                encode_utf8(answer->Ok_0).push(0),
            )
            &&& next.fault is None && message.0 >= 3 ==> next.replies.last() is None
        }),
{
    let next = conv_step(s, message, answer);
    if next.fault is None {
        assert(next.replies.drop_last() =~= s.replies);
    }
}

/// What PAM gets: a code of zero and one reply for each message if the conversation succeeded,
/// and otherwise the code of the failure and no reply at all.
pub proof fn law_outcome(r: ConvOutcome, s: ConvState)
    requires
        outcome_is(r, s),
    ensures
        s.fault is None ==> r.code == 0 && r.report is None && r.replies@.len() == s.replies.len(),
        s.fault is None ==> (forall|i: int|
            0 <= i < s.replies.len() ==> match #[trigger] r.replies@[i] {
                Some(b) => s.replies[i] == Some(b@),
                None => s.replies[i] is None,
            }),
        s.fault matches Some(f) ==> r.code == f.0 && r.replies@.len() == 0 && text::opt_view(
            r.report,
        ) == f.1,
{
    if s.fault is None {
        assert forall|i: int| 0 <= i < s.replies.len() implies match #[trigger] r.replies@[i] {
            Some(b) => s.replies[i] == Some(b@),
            None => s.replies[i] is None,
        } by {
            assert(reply_views(r.replies@)[i] == s.replies[i]);
        }
    }
}

/// An error of PAM has its code and the message that PAM has for it. A code without a message is
/// a system error that names the code.
pub proof fn law_pam_errors(code: i32, message: Seq<char>)
    ensures
        error_of(code, Some(message)).message == message,
        shared::as_signed(error_of(code, Some(message)).code) == code,
        error_of(code, None).code == 4,
        error_of(code, None).message == "Unknown error ("@ + text::signed_decimal(code as int)
            + ")"@,
{
    shared::law_signs(0, code);
}

/// The calls around a session: the credentials are set before it is opened and taken away after
/// it was closed.
pub proof fn law_session_calls(s: HandleView)
    ensures
        s.session ==> open_first(s) is Nothing && close_first(s) is CloseSession,
        !s.session ==> open_first(s) == SessionCall::SetCred(2) && close_first(s) is Nothing,
        open_next(s, SessionCall::SetCred(2), 0).1 == Some(SessionCall::OpenSession),
        open_next(s, SessionCall::OpenSession, 0).1 == Some(SessionCall::Nothing),
        close_next(s, SessionCall::CloseSession, 0).1 == Some(SessionCall::SetCred(4)),
        close_next(s, SessionCall::SetCred(4), 0).1 == Some(SessionCall::Nothing),
{
}

/// A call around a session that fails ends the attempt: its result is kept, and whether a session
/// is open does not change.
pub proof fn law_session_failure(s: HandleView, call: SessionCall, result: i32)
    requires
        result != 0,
    ensures
        open_next(s, call, result).1 is None,
        open_next(s, call, result).0.last_status == result,
        open_next(s, call, result).0.session == s.session,
        close_next(s, call, result).1 is None,
        close_next(s, call, result).0.last_status == result,
        close_next(s, call, result).0.session == s.session,
{
}

/// The environment that PAM returns holds the variables of its entries, which stand before and
/// behind the first `=`. Of several entries for one name the last one counts.
pub proof fn law_session_variables(entries: Seq<Seq<u8>>, name: Seq<char>, value: Seq<char>)
    requires
        !name.contains('='),
        entries_variables(entries) is Ok,
    ensures
        entries_variables(Seq::empty()) == Ok::<Map<Seq<char>, Seq<char>>, ErrorView>(Map::empty()),
        entries_variables(entries.push(encode_utf8(name + seq!['='] + value))) == Ok::<
            Map<Seq<char>, Seq<char>>,
            ErrorView,
        >(entries_variables(entries)->Ok_0.insert(name, value)),
        entries_variables(entries.push(encode_utf8(name))) == Err::<
            Map<Seq<char>, Seq<char>>,
            ErrorView,
        >(ErrorView::StaticMessage("invalid environment variable returned by PAM"@)),
{
    let whole = name + seq!['='] + value;
    encode_utf8_valid_utf8(whole);
    encode_utf8_decode_utf8(whole);
    encode_utf8_valid_utf8(name);
    encode_utf8_decode_utf8(name);
    text::law_cut(name, '=', value);
    assert(entries.push(encode_utf8(whole)).drop_last() =~= entries);
    assert(entries.push(encode_utf8(name)).drop_last() =~= entries);
}

/// The first entry of the environment that cannot be read decides: it is what PAM is refused
/// with, whatever follows.
pub proof fn law_session_variables_refused(
    entries: Seq<Seq<u8>>,
    bytes: Seq<u8>,
    more: Seq<Seq<u8>>,
)
    ensures
        entries_variables(entries) is Ok && !valid_utf8(bytes) ==> entries_variables(
            entries.push(bytes),
        ) == Err::<Map<Seq<char>, Seq<char>>, ErrorView>(
            ErrorView::InvalidUtf8(text::utf8_fault(bytes)),
        ),
        entries_variables(entries) is Err ==> entries_variables(entries + more)
            == entries_variables(entries),
    decreases more.len(),
{
    assert(entries.push(bytes).drop_last() =~= entries);
    if more.len() == 0 {
        assert(entries + more =~= entries);
    } else {
        law_session_variables_refused(entries, bytes, more.drop_last());
        assert((entries + more).drop_last() =~= entries + more.drop_last());
    }
}

} // verus!
