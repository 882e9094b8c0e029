//! The error of every operation, and its message.

use vstd::prelude::*;
use vstd::string::*;
use vstd::utf8::*;

use crate::ffi::pam::{PamError, PamErrorView};
use crate::modules::signal;
use crate::modules::signal::Signal;
use crate::text;
use crate::text::IntError;

verus! {

/// The kind of a failed file operation, as far as decisions depend on it.
#[derive(Debug, Clone, Copy, PartialEq, Eq, Structural)]
pub enum IoKind {
    /// There is no such file.
    NotFound,
    /// Access was denied.
    PermissionDenied,
    /// Anything else.
    Other,
}

/// A failed file operation.
#[derive(Debug, Clone)]
pub struct IoError {
    /// Its kind.
    pub kind: IoKind,
    /// The number that the kernel reported, if it did.
    pub raw: Option<i32>,
    /// The message.
    pub text: String,
}

/// What went wrong.
#[derive(Debug)]
pub enum Error {
    /// Nothing is known.
    Unknown,
    /// A message made for the occasion.
    Message(String),
    /// A fixed message.
    StaticMessage(&'static str),
    /// A system call failed with this error number.
    Errno(i32),
    /// A file operation failed.
    Io(IoError),
    /// A text for the system holds a zero byte at this position.
    Nul(usize),
    /// Bytes are not UTF-8; the message says where.
    InvalidUtf8(String),
    /// A signal arrived.
    Interrupted(Signal),
    /// A text is not a number.
    ParseInt(IntError),
    /// PAM reported an error.
    Pam(PamError),
    /// PAM asks for an action before it grants access.
    PamActionRequired(PamError),
}

/// What an `Error` says.
#[verifier::ext_equal]
pub enum ErrorView {
    /// See `Error::Unknown`.
    Unknown,
    /// See `Error::Message`.
    Message(Seq<char>),
    /// See `Error::StaticMessage`.
    StaticMessage(Seq<char>),
    /// See `Error::Errno`.
    Errno(i32),
    /// See `Error::Io`: the kind, the number and the message.
    Io(IoKind, Option<i32>, Seq<char>),
    /// See `Error::Nul`.
    Nul(usize),
    /// See `Error::InvalidUtf8`.
    InvalidUtf8(Seq<char>),
    /// See `Error::Interrupted`: the number of the signal.
    Interrupted(i32),
    /// See `Error::ParseInt`.
    ParseInt(IntError),
    /// See `Error::Pam`.
    Pam(PamErrorView),
    /// See `Error::PamActionRequired`.
    PamActionRequired(PamErrorView),
}

impl View for Error {
    type V = ErrorView;

    open spec fn view(&self) -> ErrorView {
        match *self {
            Error::Unknown => ErrorView::Unknown,
            Error::Message(s) => ErrorView::Message(s@),
            Error::StaticMessage(s) => ErrorView::StaticMessage(s@),
            Error::Errno(n) => ErrorView::Errno(n),
            Error::Io(e) => ErrorView::Io(e.kind, e.raw, e.text@),
            Error::Nul(i) => ErrorView::Nul(i),
            Error::InvalidUtf8(s) => ErrorView::InvalidUtf8(s@),
            Error::Interrupted(s) => ErrorView::Interrupted(s.raw()),
            Error::ParseInt(e) => ErrorView::ParseInt(e),
            Error::Pam(e) => ErrorView::Pam(e@),
            Error::PamActionRequired(e) => ErrorView::PamActionRequired(e@),
        }
    }
}

/// `r` is the error that `e` describes.
pub open spec fn fails<T>(r: Result<T, Error>, e: ErrorView) -> bool {
    r is Err && r->Err_0@ == e
}

/// `r` is the error with the fixed message `text`.
pub open spec fn refuses<T>(r: Result<T, Error>, text: Seq<char>) -> bool {
    fails(r, ErrorView::StaticMessage(text))
}

/// What `nix::errno::Errno` writes for the error number `code`.
pub uninterp spec fn errno_description(code: i32) -> Seq<char>;

/// `nix::errno::Errno::from_i32` and the `Display` of its result: the name and the description
/// of an error number.
#[verifier::external_body]
pub(crate) fn errno_text(code: i32) -> (r: String)
    ensures
        r@ == errno_description(code),
{
    nix::errno::Errno::from_i32(code).to_string()
}

impl ErrorView {
    /// The message for people.
    pub open spec fn text(self) -> Seq<char> {
        match self {
            ErrorView::Unknown => "unknown error"@,
            ErrorView::Message(s) => s,
            ErrorView::StaticMessage(s) => s,
            ErrorView::Errno(n) => "system error: "@ + errno_description(n),
            ErrorView::Io(_, _, s) => "I/O error: "@ + s,
            ErrorView::Nul(i) => "invalid C string: nul byte found in provided data at position: "@
                + text::decimal(i as nat),
            ErrorView::InvalidUtf8(s) => "invalid UTF-8: "@ + s,
            ErrorView::Interrupted(n) => "interrupted by "@ + signal::signal_name(n),
            ErrorView::ParseInt(e) => "parse error "@ + e.text(),
            ErrorView::Pam(e) => "PAM: "@ + e.message,
            ErrorView::PamActionRequired(e) => "PAM: "@ + e.message,
        }
    }
}

/// `head` followed by `tail`.
fn joined(head: &str, tail: &str) -> (r: String)
    ensures
        r@ == head@ + tail@,
{
    let mut r = head.to_owned();
    r.append(tail);
    r
}

impl Error {
    /// The message for people.
    pub fn display(&self) -> (r: String)
        ensures
            r@ == self@.text(),
    {
        match self {
            Error::Unknown => "unknown error".to_owned(),
            Error::Message(s) => s.as_str().to_owned(),
            Error::StaticMessage(s) => (*s).to_owned(),
            Error::Errno(n) => joined("system error: ", errno_text(*n).as_str()),
            Error::Io(e) => joined("I/O error: ", e.text.as_str()),
            Error::Nul(i) => joined(
                "invalid C string: nul byte found in provided data at position: ",
                text::usize_text(*i).as_str(),
            ),
            Error::InvalidUtf8(s) => joined("invalid UTF-8: ", s.as_str()),
            Error::Interrupted(s) => joined("interrupted by ", s.name().as_str()),
            Error::ParseInt(e) => joined("parse error ", e.message()),
            Error::Pam(e) => joined("PAM: ", e.message()),
            Error::PamActionRequired(e) => joined("PAM: ", e.message()),
        }
    }
}

/// Checks that a text can be handed over as a C string.
pub fn c_text(s: &str) -> (r: Result<(), Error>)
    ensures
        ({
            let bytes = encode_utf8(s@);
            if text::nul_at(bytes) < bytes.len() {
                fails(r, ErrorView::Nul(text::nul_at(bytes) as usize))
            } else {
                r is Ok
            }
        }),
{
    match text::first_nul(s.as_bytes()) {
        Some(i) => Err(Error::Nul(i)),
        None => Ok(()),
    }
}

impl From<IntError> for Error {
    fn from(e: IntError) -> (r: Self)
        ensures
            r@ == ErrorView::ParseInt(e),
    {
        Error::ParseInt(e)
    }
}

impl vstd::std_specs::convert::FromSpecImpl<IntError> for Error {
    open spec fn obeys_from_spec() -> bool {
        true
    }

    open spec fn from_spec(e: IntError) -> Self {
        Error::ParseInt(e)
    }
}

impl From<Signal> for Error {
    fn from(s: Signal) -> (r: Self)
        ensures
            r@ == ErrorView::Interrupted(s.raw()),
    {
        Error::Interrupted(s)
    }
}

impl vstd::std_specs::convert::FromSpecImpl<Signal> for Error {
    open spec fn obeys_from_spec() -> bool {
        true
    }

    open spec fn from_spec(s: Signal) -> Self {
        Error::Interrupted(s)
    }
}

impl From<String> for Error {
    fn from(s: String) -> (r: Self)
        ensures
            r@ == ErrorView::Message(s@),
    {
        Error::Message(s)
    }
}

impl vstd::std_specs::convert::FromSpecImpl<String> for Error {
    open spec fn obeys_from_spec() -> bool {
        true
    }

    open spec fn from_spec(s: String) -> Self {
        Error::Message(s)
    }
}

impl From<IoError> for Error {
    fn from(e: IoError) -> (r: Self)
        ensures
            r@ == ErrorView::Io(e.kind, e.raw, e.text@),
    {
        Error::Io(e)
    }
}

impl vstd::std_specs::convert::FromSpecImpl<IoError> for Error {
    open spec fn obeys_from_spec() -> bool {
        true
    }

    open spec fn from_spec(e: IoError) -> Self {
        Error::Io(e)
    }
}

impl From<PamError> for Error {
    fn from(e: PamError) -> (r: Self)
        ensures
            r@ == ErrorView::Pam(e@),
    {
        Error::Pam(e)
    }
}

impl vstd::std_specs::convert::FromSpecImpl<PamError> for Error {
    open spec fn obeys_from_spec() -> bool {
        true
    }

    open spec fn from_spec(e: PamError) -> Self {
        Error::Pam(e)
    }
}

impl<'a> From<&'a str> for Error {
    fn from(s: &'a str) -> (r: Self)
        ensures
            r@ == ErrorView::Message(s@),
    {
        Error::Message(s.to_owned())
    }
}

impl<'a> vstd::std_specs::convert::FromSpecImpl<&'a str> for Error {
    open spec fn obeys_from_spec() -> bool {
        false
    }

    open spec fn from_spec(s: &'a str) -> Self {
        Error::Unknown
    }
}

/// What an error says: a message says itself, and every other error what kind it is and then what
/// is known of it.
pub proof fn law_error_texts(e: ErrorView)
    ensures
        e is Unknown ==> e.text() == "unknown error"@,
        e matches ErrorView::Message(s) ==> e.text() == s,
        e matches ErrorView::StaticMessage(s) ==> e.text() == s,
        e matches ErrorView::Errno(n) ==> e.text() == "system error: "@ + errno_description(n),
        e matches ErrorView::Io(_, _, s) ==> e.text() == "I/O error: "@ + s,
        e matches ErrorView::Nul(i) ==> e.text()
            == "invalid C string: nul byte found in provided data at position: "@ + text::decimal(
            i as nat,
        ),
        e matches ErrorView::InvalidUtf8(s) ==> e.text() == "invalid UTF-8: "@ + s,
        e matches ErrorView::Interrupted(n) ==> e.text() == "interrupted by "@
            + signal::signal_name(n),
        e matches ErrorView::ParseInt(f) ==> e.text() == "parse error "@ + f.text(),
        e matches ErrorView::Pam(p) ==> e.text() == "PAM: "@ + p.message,
        e matches ErrorView::PamActionRequired(p) ==> e.text() == "PAM: "@ + p.message,
{
}

/// A failure is an error and is the one that is named; a refusal is a fixed message.
pub proof fn law_failures<T>(r: Result<T, Error>, e: ErrorView, message: Seq<char>)
    ensures
        fails(r, e) <==> r is Err && r->Err_0@ == e,
        refuses(r, message) <==> r is Err && r->Err_0@ == ErrorView::StaticMessage(message),
        r is Ok ==> !fails(r, e) && !refuses(r, message),
{
}

} // verus!
