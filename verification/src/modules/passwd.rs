//! Passwords: how one is typed at a prompt, how a helper program hands one over, and how two
//! texts are compared without telling through time how much of them agrees.

use vstd::prelude::*;
use vstd::string::*;
use vstd::utf8::*;

use crate::modules::error;
use crate::modules::error::{Error, ErrorView};
use crate::modules::fork_sync::SyncDecision;
use crate::modules::proc;
use crate::modules::proc::WaitStatus;
use crate::modules::signal;
use crate::modules::signal::Signal;
use crate::modules::signal_recv::{Revents, SignalEvent};
use crate::shared;
use crate::shared::{Features, RunFlags, EINTR, EINVAL, EIO};
use crate::text;

verus! {

/// The most bytes that a password may have.
pub const MAX_INPUT_LEN: usize = 1024;

/// `zeroize::Zeroize::zeroize` on a vector of bytes: it overwrites the bytes and the spare
/// capacity with zeros and leaves the vector empty. That the memory is overwritten is no part of
/// the contract.
#[verifier::external_body]
pub(crate) fn zeroize_bytes(bytes: &mut Vec<u8>)
    ensures
        final(bytes)@ == Seq::<u8>::empty(),
{
    zeroize::Zeroize::zeroize(bytes)
}

/// The message for input that is too long.
pub open spec fn too_long() -> ErrorView {
    ErrorView::Message(
        "input exceeds the maximum length of "@ + text::decimal(MAX_INPUT_LEN as nat) + " bytes"@,
    )
}

/// The error for input that is too long.
fn too_long_error() -> (r: Error)
    ensures
        r@ == too_long(),
{
    let mut message = "input exceeds the maximum length of ".to_owned();
    message.append(text::usize_text(MAX_INPUT_LEN).as_str());
    message.append(" bytes");
    Error::Message(message)
}

/// The text that `bytes` encode, or the error for bytes that are not UTF-8.
fn decoded(bytes: &Vec<u8>) -> (r: Result<String, Error>)
    ensures
        match r {
            Ok(s) => valid_utf8(bytes@) && s@ == decode_utf8(bytes@),
            Err(e) => !valid_utf8(bytes@) && e@ == ErrorView::InvalidUtf8(text::utf8_fault(bytes@)),
        },
{
    match text::from_utf8(bytes.as_slice()) {
        Ok(s) => {
            proof {
                encode_utf8_valid_utf8(s@);
                encode_utf8_decode_utf8(s@);
            }
            Ok(s)
        },
        Err(e) => Err(Error::InvalidUtf8(e)),
    }
}

// ---------------------------------------------------------------------------------------------
// Typing at a prompt
// ---------------------------------------------------------------------------------------------

/// How the terminal answers to a byte that was typed.
#[derive(Debug, Clone, Copy, PartialEq, Eq, Structural)]
pub enum Echo {
    /// The line is complete.
    Finish,
    /// Take the last mask character back.
    Erase,
    /// Show a mask character.
    Mask,
    /// Show nothing.
    Nothing,
}

impl Echo {
    /// The bytes to write to the terminal.
    pub fn bytes(self) -> (r: Vec<u8>)
        ensures
            r@ == (match self {
                Echo::Erase => seq![8u8, 32, 8],
                Echo::Mask => seq![42u8],
                _ => Seq::<u8>::empty(),
            }),
    {
        match self {
            Echo::Erase => vec![8u8, 32, 8],
            Echo::Mask => vec![42u8],
            _ => Vec::new(),
        }
    }
}

/// What a line editor holds.
#[verifier::ext_equal]
pub struct EditorState {
    /// The bytes that were kept.
    pub bytes: Seq<u8>,
    /// How many bytes beyond the limit were typed and not erased.
    pub overflow: nat,
    /// Input is masked and can be erased.
    pub masked: bool,
}

/// `b` ends a line.
pub open spec fn is_newline(b: u8) -> bool {
    b == 10 || b == 13
}

/// `b` erases the byte before it, where input is masked.
pub open spec fn is_erase(b: u8) -> bool {
    b == 127 || b == 8
}

/// A new editor.
pub open spec fn editor_start(masked: bool) -> EditorState {
    EditorState { bytes: Seq::empty(), overflow: 0, masked }
}

/// What the byte `b` does to an editor, and the answer of the terminal.
pub open spec fn editor_step(s: EditorState, b: u8) -> (EditorState, Echo) {
    let shown = if s.masked {
        Echo::Mask
    } else {
        Echo::Nothing
    };
    if is_newline(b) {
        (s, Echo::Finish)
    } else if s.masked && is_erase(b) {
        if s.overflow > 0 {
            (EditorState { overflow: (s.overflow - 1) as nat, ..s }, Echo::Erase)
        } else if s.bytes.len() > 0 {
            (EditorState { bytes: s.bytes.drop_last(), ..s }, Echo::Erase)
        } else {
            (s, Echo::Nothing)
        }
    } else if s.bytes.len() < MAX_INPUT_LEN {
        (EditorState { bytes: s.bytes.push(b), ..s }, shown)
    } else if s.overflow < usize::MAX {
        (EditorState { overflow: s.overflow + 1, ..s }, shown)
    } else {
        (s, shown)
    }
}

/// The editor after the bytes `input` were typed.
pub open spec fn editor_after(input: Seq<u8>, masked: bool) -> EditorState
    decreases input.len(),
{
    if input.len() == 0 {
        editor_start(masked)
    } else {
        editor_step(editor_after(input.drop_last(), masked), input.last()).0
    }
}

/// How many mask characters the terminal shows after the bytes `input` were typed.
pub open spec fn masks_shown(input: Seq<u8>, masked: bool) -> int
    decreases input.len(),
{
    if input.len() == 0 {
        0
    } else {
        let before = input.drop_last();
        masks_shown(before, masked) + match editor_step(
            editor_after(before, masked),
            input.last(),
        ).1 {
            Echo::Mask => 1int,
            Echo::Erase => -1int,
            _ => 0int,
        }
    }
}

/// The line that the bytes `input` spell on an editor without a limit.
pub open spec fn typed_line(input: Seq<u8>, masked: bool) -> Seq<u8>
    decreases input.len(),
{
    if input.len() == 0 {
        Seq::empty()
    } else {
        let before = typed_line(input.drop_last(), masked);
        let b = input.last();
        if masked && is_erase(b) {
            if before.len() > 0 {
                before.drop_last()
            } else {
                before
            }
        } else {
            before.push(b)
        }
    }
}

/// The bytes of `input` all belong to one line.
pub open spec fn one_line(input: Seq<u8>) -> bool {
    forall|i: int| 0 <= i < input.len() ==> !is_newline(#[trigger] input[i])
}

/// What an editor returns at the end of the line.
pub open spec fn editor_result(s: EditorState) -> Result<Seq<char>, ErrorView> {
    if s.overflow > 0 {
        Err(too_long())
    } else if valid_utf8(s.bytes) {
        Ok(decode_utf8(s.bytes))
    } else {
        Err(ErrorView::InvalidUtf8(text::utf8_fault(s.bytes)))
    }
}

/// However long the line is, the editor behaves as one without a limit: it holds the first
/// bytes of that line up to the limit and counts the others, and the terminal shows one mask
/// character for each byte of the line where input is masked.
pub proof fn law_editor(input: Seq<u8>, masked: bool)
    requires
        one_line(input),
        input.len() <= usize::MAX,
    ensures
        ({
            let line = typed_line(input, masked);
            let s = editor_after(input, masked);
            &&& line.len() <= input.len()
            &&& s.masked == masked
            &&& line.len() <= MAX_INPUT_LEN ==> s.bytes == line && s.overflow == 0
            &&& line.len() > MAX_INPUT_LEN ==> s.bytes == line.take(MAX_INPUT_LEN as int)
                && s.overflow == line.len() - MAX_INPUT_LEN
            &&& masks_shown(input, masked) == (if masked {
                line.len() as int
            } else {
                0
            })
        }),
    decreases input.len(),
{
    if input.len() > 0 {
        let before = input.drop_last();
        assert forall|i: int| 0 <= i < before.len() implies !is_newline(#[trigger] before[i]) by {
            assert(before[i] == input[i]);
        }
        law_editor(before, masked);
        assert(!is_newline(input[input.len() - 1]));
        let old_line = typed_line(before, masked);
        let line = typed_line(input, masked);
        let old_s = editor_after(before, masked);
        let s = editor_after(input, masked);
        if old_line.len() > MAX_INPUT_LEN {
            if line.len() == MAX_INPUT_LEN {
                assert(old_line.take(MAX_INPUT_LEN as int) =~= line);
            } else {
                assert(old_line.take(MAX_INPUT_LEN as int) =~= line.take(MAX_INPUT_LEN as int));
            }
        } else if line.len() > MAX_INPUT_LEN {
            assert(line.take(MAX_INPUT_LEN as int) =~= old_line);
        }
    }
}

/// A text of at most the allowed length whose bytes hold no newline, and no erasing byte where
/// input is masked, comes back from the editor as it was typed.
pub proof fn law_typed_text(s: Seq<char>, masked: bool)
    requires
        encode_utf8(s).len() <= MAX_INPUT_LEN,
        one_line(encode_utf8(s)),
        masked ==> forall|i: int|
            0 <= i < encode_utf8(s).len() ==> !is_erase(#[trigger] encode_utf8(s)[i]),
    ensures
        editor_result(editor_after(encode_utf8(s), masked)) == Ok::<Seq<char>, ErrorView>(s),
{
    let input = encode_utf8(s);
    lemma_typed_verbatim(input, masked);
    law_editor(input, masked);
    encode_utf8_valid_utf8(s);
    encode_utf8_decode_utf8(s);
}

/// Without erasing bytes the line is the input.
proof fn lemma_typed_verbatim(input: Seq<u8>, masked: bool)
    requires
        masked ==> forall|i: int| 0 <= i < input.len() ==> !is_erase(#[trigger] input[i]),
    ensures
        typed_line(input, masked) == input,
    decreases input.len(),
{
    if input.len() > 0 {
        let before = input.drop_last();
        if masked {
            assert forall|i: int| 0 <= i < before.len() implies !is_erase(#[trigger] before[i]) by {
                assert(before[i] == input[i]);
            }
            assert(!is_erase(input[input.len() - 1]));
        }
        lemma_typed_verbatim(before, masked);
        assert(before.push(input.last()) =~= input);
    }
}

/// A line of input that is being typed.
pub struct LineEditor {
    bytes: Vec<u8>,
    overflow: usize,
    masked: bool,
}

impl View for LineEditor {
    type V = EditorState;

    closed spec fn view(&self) -> EditorState {
        EditorState { bytes: self.bytes@, overflow: self.overflow as nat, masked: self.masked }
    }
}

impl LineEditor {
    /// An empty line.
    pub fn new(masked: bool) -> (r: Self)
        ensures
            r@ == editor_start(masked),
    {
        LineEditor { bytes: Vec::with_capacity(MAX_INPUT_LEN), overflow: 0, masked }
    }

    /// Types one byte. The returned answer is for the terminal.
    pub fn feed(&mut self, b: u8) -> (r: Echo)
        ensures
            (final(self)@, r) == editor_step(old(self)@, b),
    {
        if b == 13 || b == 10 {
            return Echo::Finish;
        }
        if self.masked && (b == 127 || b == 8) {
            if self.overflow != 0 {
                self.overflow = self.overflow - 1;
                return Echo::Erase;
            }
            let popped = self.bytes.pop();
            if popped.is_some() {
                return Echo::Erase;
            }
            return Echo::Nothing;
        }
        if self.bytes.len() < MAX_INPUT_LEN {
            self.bytes.push(b);
        } else if self.overflow < usize::MAX {
            self.overflow = self.overflow + 1;
        }
        if self.masked {
            Echo::Mask
        } else {
            Echo::Nothing
        }
    }

    /// Overwrites what was typed and empties the line.
    pub fn wipe(&mut self)
        ensures
            final(self)@ == editor_start(old(self)@.masked),
    {
        zeroize_bytes(&mut self.bytes);
        self.overflow = 0;
    }

    /// The text that was typed. The line is overwritten and empty afterwards.
    pub fn finish(&mut self) -> (r: Result<String, Error>)
        ensures
            match r {
                Ok(s) => editor_result(old(self)@) == Ok::<Seq<char>, ErrorView>(s@),
                Err(e) => editor_result(old(self)@) == Err::<Seq<char>, ErrorView>(e@),
            },
            final(self)@ == editor_start(old(self)@.masked),
    {
        let r = if self.overflow != 0 {
            Err(too_long_error())
        } else {
            decoded(&self.bytes)
        };
        self.wipe();
        r
    }
}

// ---------------------------------------------------------------------------------------------
// The dialogue around the line
// ---------------------------------------------------------------------------------------------

/// The descriptor of standard input.
pub const STDIN_FILENO: i32 = 0;

/// The descriptor of standard error.
pub const STDERR_FILENO: i32 = 2;

/// How a prompt is shown and read.
pub struct PromptPlan {
    /// Read standard input and show nothing; else talk to the terminal.
    pub use_stdin: bool,
    /// Switch the echo of the terminal off.
    pub hide_input: bool,
    /// Answer each byte with a mask character and let bytes be erased.
    pub masked: bool,
    /// What to write before reading.
    pub text: Option<String>,
}

/// The prompt with a space behind it.
pub open spec fn spaced(msg: Seq<char>) -> Seq<char> {
    if msg.len() > 0 && msg.last() == ' ' {
        msg
    } else {
        msg.push(' ')
    }
}

/// Plans a prompt for `msg`. Not every message ends in a space; one is added where it is
/// missing.
pub fn prompt_plan(msg: &str, flags: RunFlags) -> (r: PromptPlan)
    ensures
        r.use_stdin == flags.has(shared::AUTH_STDIN),
        r.hide_input == (!r.use_stdin && flags.has(shared::PROMPT_HIDE)),
        r.masked == r.hide_input,
        match r.text {
            Some(t) => !r.use_stdin && t@ == spaced(msg@),
            None => r.use_stdin,
        },
{
    let use_stdin = flags.contains(shared::AUTH_STDIN);
    let hide = flags.contains(shared::PROMPT_HIDE);
    if use_stdin {
        return PromptPlan { use_stdin, hide_input: false, masked: false, text: None };
    }
    let v = text::chars_of(msg);
    let mut t = msg.to_owned();
    if v.len() == 0 || v[v.len() - 1] != ' ' {
        t.append(" ");
        proof {
            reveal_strlit(" ");
            assert(msg@ + " "@ =~= msg@.push(' '));
        }
    }
    PromptPlan { use_stdin, hide_input: hide, masked: hide, text: Some(t) }
}

/// The descriptors to read from and to write to, and whether the prompt has to close them.
/// `tty` is the terminal, if it could be opened.
pub fn prompt_channel(use_stdin: bool, tty: Option<i32>) -> (r: (i32, i32, bool))
    ensures
        r == (match tty {
            Some(fd) => if use_stdin {
                (STDIN_FILENO, STDERR_FILENO, false)
            } else {
                (fd, fd, true)
            },
            None => (STDIN_FILENO, STDERR_FILENO, false),
        }),
{
    match tty {
        Some(fd) => {
            if use_stdin {
                (STDIN_FILENO, STDERR_FILENO, false)
            } else {
                (fd, fd, true)
            }
        },
        None => (STDIN_FILENO, STDERR_FILENO, false),
    }
}

/// The descriptors that the end of a prompt closes, each once.
pub fn close_list(input: i32, output: i32, owned: bool) -> (r: Vec<i32>)
    ensures
        r@ == (if !owned {
            Seq::<i32>::empty()
        } else if input != output {
            seq![output, input]
        } else {
            seq![input]
        }),
        r@.no_duplicates(),
{
    if !owned {
        Vec::new()
    } else if input != output {
        vec![output, input]
    } else {
        vec![input]
    }
}

/// The signals that interrupt a prompt.
pub fn prompt_signals() -> (r: Vec<i32>)
    ensures
        r@ == seq![
            signal::SIGHUP,
            signal::SIGINT,
            signal::SIGQUIT,
            signal::SIGTERM,
            signal::SIGTSTP,
        ],
{
    vec![signal::SIGHUP, signal::SIGINT, signal::SIGQUIT, signal::SIGTERM, signal::SIGTSTP]
}

/// How to go on after part of a text was written.
#[derive(Debug, Clone, Copy, PartialEq, Eq, Structural)]
pub enum WriteStep {
    /// Write the text from this position on.
    From(usize),
    /// Everything is written.
    Done,
    /// Nothing was written, without an error.
    Stuck,
    /// Give up with this error number.
    Fail(i32),
}

/// Decides how to go on with a text of `total` bytes of which `done` are written, after a write
/// of the rest returned `result`.
pub fn after_write(total: usize, done: usize, result: Result<usize, i32>) -> (r: WriteStep)
    requires
        done < total,
        result matches Ok(n) ==> n <= total - done,
    ensures
        r == (match result {
            Ok(n) => if n == 0 {
                WriteStep::Stuck
            } else if done + n == total {
                WriteStep::Done
            } else {
                WriteStep::From((done + n) as usize)
            },
            Err(e) => if e == EINTR {
                WriteStep::From(done)
            } else {
                WriteStep::Fail(e)
            },
        }),
        r matches WriteStep::From(next) ==> done <= next < total,
{
    match result {
        Ok(n) => {
            if n == 0 {
                WriteStep::Stuck
            } else if n == total - done {
                WriteStep::Done
            } else {
                WriteStep::From(done + n)
            }
        },
        Err(e) => {
            if e == EINTR {
                WriteStep::From(done)
            } else {
                WriteStep::Fail(e)
            }
        },
    }
}

/// The error of a write that does not get on, if it is one.
pub fn write_error(step: WriteStep) -> (r: Option<Error>)
    ensures
        match r {
            Some(e) => match step {
                WriteStep::Stuck => e@ == ErrorView::StaticMessage("failed to write prompt"@),
                WriteStep::Fail(n) => e@ == ErrorView::Errno(n),
                _ => false,
            },
            None => !(step is Stuck || step is Fail),
        },
{
    match step {
        WriteStep::Stuck => Some(Error::StaticMessage("failed to write prompt")),
        WriteStep::Fail(n) => Some(Error::Errno(n)),
        _ => None,
    }
}

/// The descriptor to poll for input: none once the input has ended.
pub fn polled_input(input: i32, input_eof: bool) -> (r: i32)
    ensures
        r == (if input_eof {
            -1
        } else {
            input as int
        }),
{
    if input_eof {
        -1
    } else {
        input
    }
}

/// How to go on after a `poll` of the signal and the input descriptor.
#[derive(Debug, Clone, Copy, PartialEq, Eq, Structural)]
pub enum PollStep {
    /// Read the input.
    Read,
    /// A signal is pending.
    Interrupted,
    /// Poll again.
    Again,
    /// Give up with this error number.
    Fail(i32),
}

/// Decides what a `poll` means: a pending signal comes before input, and a descriptor with an
/// error ends the reading. Input that has ended is not looked at any more.
pub fn poll_step(result: Result<(Revents, Revents), i32>, input_eof: bool) -> (r: PollStep)
    ensures
        r == (match result {
            Err(e) => if e == EINTR {
                PollStep::Again
            } else {
                PollStep::Fail(e)
            },
            Ok((interrupt, input)) => if interrupt.readable {
                PollStep::Interrupted
            } else if interrupt.error || interrupt.hangup || interrupt.invalid {
                PollStep::Fail(EIO)
            } else if input_eof {
                PollStep::Again
            } else if input.readable || input.hangup {
                PollStep::Read
            } else if input.error || input.invalid {
                PollStep::Fail(EIO)
            } else {
                PollStep::Again
            },
        }),
{
    match result {
        Err(e) => {
            if e == EINTR {
                PollStep::Again
            } else {
                PollStep::Fail(e)
            }
        },
        Ok((interrupt, input)) => {
            if interrupt.readable {
                PollStep::Interrupted
            } else if interrupt.error || interrupt.hangup || interrupt.invalid {
                PollStep::Fail(EIO)
            } else if input_eof {
                PollStep::Again
            } else if input.readable || input.hangup {
                PollStep::Read
            } else if input.error || input.invalid {
                PollStep::Fail(EIO)
            } else {
                PollStep::Again
            }
        },
    }
}

/// What one read of a prompt gave.
#[derive(Debug, Clone, Copy, PartialEq, Eq, Structural)]
pub enum ReadOutcome {
    /// The input has ended.
    Eof,
    /// One byte.
    Byte(u8),
    /// The read failed with this error number.
    Failed(i32),
}

/// How a prompt goes on.
pub enum PromptStep {
    /// Give the terminal this answer and read on.
    Read(Echo),
    /// Look which signal is pending.
    TakeSignal,
    /// The prompt is over.
    Done(Result<String, Error>),
}

/// Takes one step of the dialogue at a prompt.
pub fn prompt_step(editor: &mut LineEditor, outcome: ReadOutcome) -> (r: PromptStep)
    ensures
        match outcome {
            ReadOutcome::Eof => {
                &&& final(editor)@ == editor_start(old(editor)@.masked)
                &&& r matches PromptStep::Done(done) && match done {
                    Ok(s) => editor_result(old(editor)@) == Ok::<Seq<char>, ErrorView>(s@),
                    Err(e) => editor_result(old(editor)@) == Err::<Seq<char>, ErrorView>(e@),
                }
            },
            ReadOutcome::Byte(b) => if is_newline(b) {
                &&& final(editor)@ == editor_start(old(editor)@.masked)
                &&& r matches PromptStep::Done(done) && match done {
                    Ok(s) => editor_result(old(editor)@) == Ok::<Seq<char>, ErrorView>(s@),
                    Err(e) => editor_result(old(editor)@) == Err::<Seq<char>, ErrorView>(e@),
                }
            } else {
                &&& final(editor)@ == editor_step(old(editor)@, b).0
                &&& r == PromptStep::Read(editor_step(old(editor)@, b).1)
            },
            ReadOutcome::Failed(n) => if n == EINTR {
                final(editor)@ == old(editor)@ && r == PromptStep::TakeSignal
            } else {
                &&& final(editor)@ == editor_start(old(editor)@.masked)
                &&& r matches PromptStep::Done(done) && error::fails(done, ErrorView::Errno(n))
            },
        },
{
    match outcome {
        ReadOutcome::Eof => PromptStep::Done(editor.finish()),
        ReadOutcome::Byte(b) => {
            let echo = editor.feed(b);
            match echo {
                Echo::Finish => PromptStep::Done(editor.finish()),
                _ => PromptStep::Read(echo),
            }
        },
        ReadOutcome::Failed(n) => {
            if n == EINTR {
                PromptStep::TakeSignal
            } else {
                editor.wipe();
                PromptStep::Done(Err(Error::Errno(n)))
            }
        },
    }
}

/// The error that a pending signal ends a prompt with; none if there was no signal after all.
pub fn prompt_interrupt(event: Option<SignalEvent>) -> (r: Option<Error>)
    ensures
        match event {
            None => r is None,
            Some(ev) => r matches Some(e) && e@ == (if 1 <= ev.raw() <= 31 {
                ErrorView::Interrupted(ev.raw() as i32)
            } else {
                ErrorView::Message("invalid signal number "@ + error::errno_description(EINVAL))
            }),
        },
{
    match event {
        None => None,
        Some(ev) => match ev.signal() {
            Some(s) => Some(Error::Interrupted(s)),
            None => {
                let mut message = "invalid signal number ".to_owned();
                message.append(error::errno_text(EINVAL).as_str());
                Some(Error::Message(message))
            },
        },
    }
}

/// How asking for a password goes on.
pub enum AskStep {
    /// This is the answer.
    Return(Result<String, Error>),
    /// Raise this signal, then show the prompt again.
    RaiseAndRetry(Signal),
}

/// Tells whether the password is asked for by a helper program.
pub fn uses_helper(features: Features, flags: RunFlags) -> (r: bool)
    ensures
        r == (features.askpass && flags.has(shared::AUTH_ASKPASS)),
{
    features.askpass && flags.contains(shared::AUTH_ASKPASS)
}

/// Decides how asking goes on after a prompt ended: an interrupted prompt raises the signal
/// again and, if that returns, is shown once more.
pub fn ask_step(result: Result<String, Error>) -> (r: AskStep)
    ensures
        match r {
            AskStep::RaiseAndRetry(s) => result == Err::<String, Error>(Error::Interrupted(s)),
            AskStep::Return(answer) => answer == result && !(result is Err
                && result->Err_0 is Interrupted),
        },
{
    match result {
        Err(Error::Interrupted(s)) => AskStep::RaiseAndRetry(s),
        other => AskStep::Return(other),
    }
}

// ---------------------------------------------------------------------------------------------
// A helper program
// ---------------------------------------------------------------------------------------------

/// The signals that matter while a helper program runs.
pub fn helper_signals() -> (r: Vec<i32>)
    ensures
        r@ == seq![
            signal::SIGCHLD,
            signal::SIGHUP,
            signal::SIGINT,
            signal::SIGQUIT,
            signal::SIGTERM,
            signal::SIGTSTP,
            signal::SIGCONT,
        ],
{
    vec![
        signal::SIGCHLD,
        signal::SIGHUP,
        signal::SIGINT,
        signal::SIGQUIT,
        signal::SIGTERM,
        signal::SIGTSTP,
        signal::SIGCONT,
    ]
}

/// The first of the two paths that is there and not empty.
pub open spec fn chosen_helper(runas: Option<Seq<u8>>, sudo: Option<Seq<u8>>) -> Option<Seq<u8>> {
    if runas is Some && runas->0.len() > 0 {
        runas
    } else if sudo is Some && sudo->0.len() > 0 {
        sudo
    } else {
        None
    }
}

/// Chooses the helper program from the values of `RUNAS_ASKPASS` and `SUDO_ASKPASS`. Its path
/// has to be absolute and must not hold a zero byte.
pub fn select_helper(runas: Option<Vec<u8>>, sudo: Option<Vec<u8>>) -> (r: Result<Vec<u8>, Error>)
    ensures
        match chosen_helper(text::opt_bytes(runas), text::opt_bytes(sudo)) {
            None => error::refuses(r, "RUNAS_ASKPASS is configured"@),
            Some(path) => if path[0] != 47 {
                error::refuses(r, "RUNAS_ASKPASS must contain an absolute path"@)
            } else if text::nul_at(path) < path.len() {
                error::fails(r, ErrorView::Nul(text::nul_at(path) as usize))
            } else {
                r matches Ok(p) && p@ == path
            },
        },
{
    let mut helper: Option<Vec<u8>> = None;
    if let Some(path) = runas {
        if path.len() > 0 {
            helper = Some(path);
        }
    }
    if helper.is_none() {
        if let Some(path) = sudo {
            if path.len() > 0 {
                helper = Some(path);
            }
        }
    }
    match helper {
        None => Err(Error::StaticMessage("RUNAS_ASKPASS is configured")),
        Some(path) => {
            if path[0] != 47 {
                return Err(Error::StaticMessage("RUNAS_ASKPASS must contain an absolute path"));
            }
            match text::first_nul(path.as_slice()) {
                Some(i) => Err(Error::Nul(i)),
                None => Ok(path),
            }
        },
    }
}

/// One step of the child that becomes the helper program.
#[derive(Debug, Clone, Copy, PartialEq, Eq, Structural)]
pub enum HelperCall {
    /// Close a descriptor.
    Close(i32),
    /// Let the second descriptor stand for the first one.
    Duplicate(i32, i32),
    /// Open a file without contents and make it standard input.
    EmptyInput,
    /// Set the real, the effective and the saved group.
    SetResGid(u32, u32, u32),
    /// Set the real, the effective and the saved user.
    SetResUid(u32, u32, u32),
    /// Be sent this signal when the parent ends.
    ParentExitSignal(i32),
    /// Wait until the parent is ready.
    Synchronize,
    /// Give up the right to gain privileges through a program.
    NoNewPrivileges,
    /// Choose the helper program.
    ChooseHelper,
    /// Remove what must not be inherited from the environment.
    CleanEnvironment,
    /// Run the helper program.
    Exec,
}

/// The steps that let `target` stand for the open file at `fd`.
pub open spec fn redirect_calls(fd: i32, target: i32) -> Seq<HelperCall> {
    if fd == target {
        Seq::empty()
    } else {
        seq![HelperCall::Duplicate(fd, target), HelperCall::Close(fd)]
    }
}

/// The steps that let `target` stand for the open file at `fd`, which is closed under its old
/// number.
pub fn redirect(fd: i32, target: i32) -> (r: Vec<HelperCall>)
    ensures
        r@ == redirect_calls(fd, target),
{
    if fd != target {
        vec![HelperCall::Duplicate(fd, target), HelperCall::Close(fd)]
    } else {
        Vec::new()
    }
}

/// The descriptor of standard output.
pub const STDOUT_FILENO: i32 = 1;

/// The steps of the child that becomes the helper program. Its output goes to the pipe from
/// `read_end` to `write_end`, it has nothing to read, and it keeps no identity but the one of
/// the caller, which `uid` and `gid` are.
pub open spec fn helper_calls(read_end: i32, write_end: i32, uid: u32, gid: u32) -> Seq<
    HelperCall,
> {
    seq![HelperCall::Close(read_end)] + redirect_calls(write_end, STDOUT_FILENO) + seq![
        HelperCall::EmptyInput,
        HelperCall::SetResGid(gid, gid, gid),
        HelperCall::SetResUid(uid, uid, uid),
        HelperCall::ParentExitSignal(signal::SIGKILL),
        HelperCall::Synchronize,
        HelperCall::NoNewPrivileges,
        HelperCall::ChooseHelper,
        HelperCall::CleanEnvironment,
        HelperCall::Exec,
    ]
}

/// The steps of the child that becomes the helper program.
pub fn launch_helper(read_end: i32, write_end: i32, uid: u32, gid: u32) -> (r: Vec<HelperCall>)
    ensures
        r@ == helper_calls(read_end, write_end, uid, gid),
{
    let mut v: Vec<HelperCall> = vec![HelperCall::Close(read_end)];
    let mut output = redirect(write_end, STDOUT_FILENO);
    v.append(&mut output);
    v.push(HelperCall::EmptyInput);
    v.push(HelperCall::SetResGid(gid, gid, gid));
    v.push(HelperCall::SetResUid(uid, uid, uid));
    v.push(HelperCall::ParentExitSignal(signal::SIGKILL));
    v.push(HelperCall::Synchronize);
    v.push(HelperCall::NoNewPrivileges);
    v.push(HelperCall::ChooseHelper);
    v.push(HelperCall::CleanEnvironment);
    v.push(HelperCall::Exec);
    assert(v@ =~= helper_calls(read_end, write_end, uid, gid));
    v
}

/// The helper program runs last, with the identity of the caller and no other: the group and
/// then the user are given up for good before it is even chosen, no privileges can be gained
/// back, and the environment is clean.
pub proof fn law_helper_unprivileged(read_end: i32, write_end: i32, uid: u32, gid: u32)
    ensures
        ({
            let calls = helper_calls(read_end, write_end, uid, gid);
            let n = calls.len() as int;
            &&& n >= 10
            &&& calls[n - 1] == HelperCall::Exec
            &&& calls[n - 2] == HelperCall::CleanEnvironment
            &&& calls[n - 3] == HelperCall::ChooseHelper
            &&& calls[n - 4] == HelperCall::NoNewPrivileges
            &&& calls[n - 7] == HelperCall::SetResUid(uid, uid, uid)
            &&& calls[n - 8] == HelperCall::SetResGid(gid, gid, gid)
            &&& forall|i: int| 0 <= i < n - 1 ==> !(#[trigger] calls[i] is Exec)
        }),
{
}

/// What the start of a helper program came to: both sides have to be ready.
pub fn helper_started(decision: SyncDecision) -> (r: Result<(), Error>)
    ensures
        if decision == SyncDecision::Continue {
            r is Ok
        } else {
            error::refuses(r, "askpass helper failed during startup"@)
        },
{
    match decision {
        SyncDecision::Continue => Ok(()),
        SyncDecision::Abort => Err(Error::StaticMessage("askpass helper failed during startup")),
    }
}

/// What is known of a helper program that runs.
#[verifier::ext_equal]
pub struct HelperState {
    /// The bytes that were kept of its output.
    pub bytes: Seq<u8>,
    /// Output was dropped.
    pub overflow: bool,
    /// Its output has ended.
    pub eof: bool,
    /// Its exit status.
    pub status: Option<i32>,
}

/// One byte more than a password may have, so that the end of a line still fits.
pub const MAX_OUTPUT_LEN: usize = 1025;

/// The state after the helper wrote `chunk`.
pub open spec fn helper_data(s: HelperState, chunk: Seq<u8>) -> HelperState {
    let room = MAX_OUTPUT_LEN - s.bytes.len();
    if chunk.len() == 0 {
        HelperState { eof: true, ..s }
    } else if chunk.len() <= room {
        HelperState { bytes: s.bytes + chunk, ..s }
    } else {
        HelperState { bytes: s.bytes + chunk.take(room), overflow: true, ..s }
    }
}

/// The bytes of `chunks` one after the other.
pub open spec fn joined(chunks: Seq<Seq<u8>>) -> Seq<u8>
    decreases chunks.len(),
{
    if chunks.len() == 0 {
        Seq::empty()
    } else {
        joined(chunks.drop_last()) + chunks.last()
    }
}

/// A helper program that has just been started.
pub open spec fn helper_start() -> HelperState {
    HelperState { bytes: Seq::empty(), overflow: false, eof: false, status: None }
}

/// The state after the helper wrote `chunks`.
pub open spec fn helper_after(chunks: Seq<Seq<u8>>) -> HelperState
    decreases chunks.len(),
{
    if chunks.len() == 0 {
        helper_start()
    } else {
        helper_data(helper_after(chunks.drop_last()), chunks.last())
    }
}

/// `b` without the end of line that it may have.
pub open spec fn without_newline(b: Seq<u8>) -> Seq<u8> {
    if b.len() > 0 && b.last() == 10 {
        let c = b.drop_last();
        if c.len() > 0 && c.last() == 13 {
            c.drop_last()
        } else {
            c
        }
    } else {
        b
    }
}

/// The answer of a helper program that has ended.
pub open spec fn helper_result(s: HelperState) -> Result<Seq<char>, ErrorView> {
    let b = without_newline(s.bytes);
    match s.status {
        None => Err(ErrorView::StaticMessage("askpass helper status is unavailable"@)),
        Some(n) => if n != 0 {
            Err(
                ErrorView::Message(
                    "askpass helper exited with status "@ + text::signed_decimal(n as int),
                ),
            )
        } else if s.overflow || b.len() > MAX_INPUT_LEN {
            Err(too_long())
        } else if valid_utf8(b) {
            Ok(decode_utf8(b))
        } else {
            Err(ErrorView::InvalidUtf8(text::utf8_fault(b)))
        },
    }
}

/// In whatever pieces the output arrives, the helper's state holds its first bytes up to the
/// limit and knows whether there were more.
pub proof fn law_helper_output(chunks: Seq<Seq<u8>>)
    ensures
        ({
            let all = joined(chunks);
            let s = helper_after(chunks);
            &&& s.status is None
            &&& s.overflow == (all.len() > MAX_OUTPUT_LEN)
            &&& all.len() <= MAX_OUTPUT_LEN ==> s.bytes == all
            &&& all.len() > MAX_OUTPUT_LEN ==> s.bytes == all.take(MAX_OUTPUT_LEN as int)
        }),
    decreases chunks.len(),
{
    if chunks.len() > 0 {
        let before = chunks.drop_last();
        law_helper_output(before);
        let all = joined(before);
        let chunk = chunks.last();
        let s = helper_after(before);
        if chunk.len() == 0 {
            assert(all + chunk =~= all);
        } else if all.len() <= MAX_OUTPUT_LEN {
            let room = MAX_OUTPUT_LEN - all.len();
            if chunk.len() > room {
                assert(all + chunk.take(room) =~= (all + chunk).take(MAX_OUTPUT_LEN as int));
            }
        } else {
            assert(s.bytes + chunk.take(0) =~= s.bytes);
            assert((all + chunk).take(MAX_OUTPUT_LEN as int) =~= all.take(MAX_OUTPUT_LEN as int));
        }
    }
}

/// A helper that writes a text of at most the allowed length and a newline, in whatever pieces,
/// and exits with success has answered with that text. The text must not end in a carriage
/// return, which would count as part of the end of line.
pub proof fn law_helper_answer(chunks: Seq<Seq<u8>>, s: Seq<char>)
    requires
        encode_utf8(s).len() <= MAX_INPUT_LEN,
        encode_utf8(s).len() > 0 ==> encode_utf8(s).last() != 13,
        joined(chunks) == encode_utf8(s).push(10),
    ensures
        helper_result(HelperState { status: Some(0i32), ..helper_after(chunks) }) == Ok::<
            Seq<char>,
            ErrorView,
        >(s),
{
    law_helper_output(chunks);
    let b = encode_utf8(s);
    assert(b.push(10).drop_last() =~= b);
    encode_utf8_valid_utf8(s);
    encode_utf8_decode_utf8(s);
}

/// How to go on after a look at the helper process.
#[derive(Debug, Clone, Copy, PartialEq, Eq, Structural)]
pub enum HelperWait {
    /// Call `waitpid` again.
    Again,
    /// Wait for the next event.
    Stop,
}

/// The state of a helper program that runs.
pub struct HelperSession {
    bytes: Vec<u8>,
    overflow: bool,
    eof: bool,
    status: Option<i32>,
}

impl View for HelperSession {
    type V = HelperState;

    closed spec fn view(&self) -> HelperState {
        HelperState {
            bytes: self.bytes@,
            overflow: self.overflow,
            eof: self.eof,
            status: self.status,
        }
    }
}

impl HelperSession {
    /// No more output is held than there is room for.
    pub open spec fn wf(self) -> bool {
        self@.bytes.len() <= MAX_OUTPUT_LEN
    }

    /// A helper program that has just been started.
    pub fn new() -> (r: Self)
        ensures
            r.wf(),
            r@ == helper_start(),
    {
        HelperSession {
            bytes: Vec::with_capacity(MAX_OUTPUT_LEN),
            overflow: false,
            eof: false,
            status: None,
        }
    }

    /// Takes what one read of the output gave; an empty chunk is its end.
    pub fn on_data(&mut self, chunk: &[u8])
        requires
            old(self).wf(),
        ensures
            final(self).wf(),
            final(self)@ == helper_data(old(self)@, chunk@),
    {
        let count = chunk.len();
        if count == 0 {
            self.eof = true;
            return;
        }
        let room = MAX_OUTPUT_LEN - self.bytes.len();
        let accepted = if count < room {
            count
        } else {
            room
        };
        let mut i: usize = 0;
        let ghost before = self.bytes@;
        while i < accepted
            invariant
                accepted <= chunk@.len(),
                i <= accepted,
                self.bytes@ == before + chunk@.take(i as int),
                self.overflow == old(self).overflow,
                self.eof == old(self).eof,
                self.status == old(self).status,
            decreases accepted - i,
        {
            self.bytes.push(chunk[i]);
            i = i + 1;
            assert(chunk@.take(i as int) =~= chunk@.take(i - 1).push(chunk@[i - 1]));
        }
        assert(chunk@.take(chunk@.len() as int) =~= chunk@);
        if accepted != count {
            self.overflow = true;
        }
    }

    /// Takes what `waitpid` reported of the helper process.
    pub fn on_wait(&mut self, result: Result<WaitStatus, i32>) -> (r: Result<HelperWait, Error>)
        ensures
            match result {
                Ok(WaitStatus::Exited(code)) => r == Ok::<HelperWait, Error>(HelperWait::Stop)
                    && final(self)@ == (HelperState { status: Some(code), ..old(self)@ }),
                Ok(WaitStatus::Signaled(s)) => r == Ok::<HelperWait, Error>(HelperWait::Stop)
                    && final(self)@ == (HelperState {
                    status: Some(proc::signal_status(s) as i32),
                    ..old(self)@
                }),
                Ok(WaitStatus::StillAlive) => r == Ok::<HelperWait, Error>(HelperWait::Stop)
                    && final(self)@ == old(self)@,
                Ok(_) => r == Ok::<HelperWait, Error>(HelperWait::Again) && final(self)@
                    == old(self)@,
                Err(n) => final(self)@ == old(self)@ && if n == EINTR {
                    r == Ok::<HelperWait, Error>(HelperWait::Again)
                } else {
                    error::fails(r, ErrorView::Errno(n))
                },
            },
    {
        match result {
            Ok(WaitStatus::Exited(code)) => {
                self.status = Some(code);
                Ok(HelperWait::Stop)
            },
            Ok(WaitStatus::Signaled(s)) => {
                self.status = Some(128 + s.number());
                Ok(HelperWait::Stop)
            },
            Ok(WaitStatus::StillAlive) => Ok(HelperWait::Stop),
            Ok(_) => Ok(HelperWait::Again),
            Err(n) => {
                if n == EINTR {
                    Ok(HelperWait::Again)
                } else {
                    Err(Error::Errno(n))
                }
            },
        }
    }

    /// Tells whether the output of the helper has ended.
    pub fn eof(&self) -> (r: bool)
        ensures
            r == self@.eof,
    {
        self.eof
    }

    /// Tells whether the helper is through: its output has ended and its status is known.
    pub fn is_complete(&self) -> (r: bool)
        ensures
            r == (self@.eof && self@.status is Some),
    {
        self.eof && self.status.is_some()
    }

    /// Overwrites the output that was kept.
    pub fn wipe(&mut self)
        ensures
            final(self)@ == (HelperState { bytes: Seq::empty(), ..old(self)@ }),
    {
        zeroize_bytes(&mut self.bytes);
    }

    /// The answer of the helper. The output is overwritten afterwards.
    pub fn finish(&mut self) -> (r: Result<String, Error>)
        ensures
            match r {
                Ok(s) => helper_result(old(self)@) == Ok::<Seq<char>, ErrorView>(s@),
                Err(e) => helper_result(old(self)@) == Err::<Seq<char>, ErrorView>(e@),
            },
            final(self)@ == (HelperState { bytes: Seq::empty(), ..old(self)@ }),
    {
        let r = self.answer();
        self.wipe();
        r
    }

    fn answer(&mut self) -> (r: Result<String, Error>)
        ensures
            match r {
                Ok(s) => helper_result(old(self)@) == Ok::<Seq<char>, ErrorView>(s@),
                Err(e) => helper_result(old(self)@) == Err::<Seq<char>, ErrorView>(e@),
            },
            final(self)@.overflow == old(self)@.overflow,
            final(self)@.eof == old(self)@.eof,
            final(self)@.status == old(self)@.status,
    {
        match self.status {
            None => return Err(Error::StaticMessage("askpass helper status is unavailable")),
            Some(n) => {
                if n != 0 {
                    let mut message = "askpass helper exited with status ".to_owned();
                    message.append(text::i32_text(n).as_str());
                    return Err(Error::Message(message));
                }
            },
        }
        let n = self.bytes.len();
        if n > 0 && self.bytes[n - 1] == 10 {
            let _ = self.bytes.pop();
            if n > 1 && self.bytes[n - 2] == 13 {
                let _ = self.bytes.pop();
            }
        }
        assert(self.bytes@ == without_newline(old(self)@.bytes));
        if self.overflow || self.bytes.len() > MAX_INPUT_LEN {
            return Err(too_long_error());
        }
        decoded(&self.bytes)
    }
}

/// What to do for a signal that arrives while a helper runs.
pub enum HelperSignal {
    /// No signal was pending after all.
    Nothing,
    /// Look at the helper process.
    Wait,
    /// Hand the signal on to the process group of the helper.
    Forward(Signal),
    /// Give up.
    Fail(Error),
}

/// Decides what a pending signal means while a helper runs.
pub fn helper_signal(event: Option<SignalEvent>) -> (r: HelperSignal)
    ensures
        match event {
            None => r is Nothing,
            Some(ev) => if ev.raw() == signal::SIGCHLD {
                r is Wait
            } else if 1 <= ev.raw() <= 31 {
                r matches HelperSignal::Forward(s) && s.raw() == ev.raw()
            } else {
                r matches HelperSignal::Fail(e) && e@ == ErrorView::Message(
                    "invalid signal number "@ + text::signed_decimal(ev.raw()),
                )
            },
        },
{
    match event {
        None => HelperSignal::Nothing,
        Some(ev) => match ev.signal() {
            Some(s) => {
                if s.is(signal::SIGCHLD) {
                    HelperSignal::Wait
                } else {
                    HelperSignal::Forward(s)
                }
            },
            None => {
                let mut message = "invalid signal number ".to_owned();
                message.append(text::i32_text(ev.raw_signal()).as_str());
                HelperSignal::Fail(Error::Message(message))
            },
        },
    }
}

// ---------------------------------------------------------------------------------------------
// Comparing
// ---------------------------------------------------------------------------------------------

/// Compares two texts. Every byte of `known` takes part, whether or not a difference was found
/// before, and where `secret` is shorter the rest of `known` is compared with its own inverse,
/// so the number of steps tells nothing about `secret`.
pub fn time_compare(known: &str, secret: &str) -> (r: bool)
    ensures
        r == (known@ == secret@),
{
    let buff_known: &[u8] = known.as_bytes();
    let buff_secret: &[u8] = secret.as_bytes();
    let known_len: usize = buff_known.len();
    let secret_len: usize = buff_secret.len();
    let mut result: usize = known_len ^ secret_len;
    let mut buff_inv: Vec<u8> = Vec::with_capacity(known_len);
    let mut i: usize = 0;
    while i < known_len
        invariant
            known_len == buff_known@.len(),
            i <= known_len,
            buff_inv@.len() == i,
            forall|j: int| 0 <= j < i ==> buff_inv@[j] == !(#[trigger] buff_known@[j]),
        decreases known_len - i,
    {
        buff_inv.push(!buff_known[i]);
        i = i + 1;
    }
    assert(known_len ^ secret_len == 0 <==> known_len == secret_len) by (bit_vector);
    let mut k: usize = 0;
    while k < known_len
        invariant
            known_len == buff_known@.len(),
            secret_len == buff_secret@.len(),
            k <= known_len,
            buff_inv@.len() == known_len,
            forall|j: int| 0 <= j < known_len ==> buff_inv@[j] == !(#[trigger] buff_known@[j]),
            result == 0 <==> (known_len == secret_len && forall|j: int|
                0 <= j < k ==> #[trigger] buff_known@[j] == buff_secret@[j]),
        decreases known_len - k,
    {
        let a: u8 = buff_known[k];
        let b: u8 = if k >= secret_len {
            buff_inv[k]
        } else {
            buff_secret[k]
        };
        let d: usize = (a ^ b) as usize;
        let before: usize = result;
        result = before | d;
        proof {
            let x: u8 = a ^ b;
            assert(x == 0 <==> a == b) by (bit_vector)
                requires
                    x == a ^ b,
            ;
            assert(before | d == 0 <==> before == 0 && d == 0) by (bit_vector);
            assert(buff_known@[k as int] == a);
            if result == 0 {
                assert forall|j: int| 0 <= j < k + 1 implies #[trigger] buff_known@[j]
                    == buff_secret@[j] by {
                    if j == k {
                        assert(k < secret_len);
                    }
                }
            } else if before == 0 {
                assert(buff_known@[k as int] != buff_secret@[k as int]);
            }
        }
        k = k + 1;
    }
    proof {
        if result == 0 {
            assert(buff_known@ =~= buff_secret@);
            encode_utf8_decode_utf8(known@);
            encode_utf8_decode_utf8(secret@);
        } else if known@ == secret@ {
            assert(buff_known@ == buff_secret@);
        }
    }
    result == 0
}

// ---------------------------------------------------------------------------------------------
// What the answers come to
// ---------------------------------------------------------------------------------------------

/// What was typed is the line, byte by byte. Where it is masked, the backspace and the delete
/// byte take the last byte back, and do nothing at the beginning of the line.
pub proof fn law_typed_bytes(input: Seq<u8>, b: u8, erase: u8)
    requires
        erase == 8 || erase == 127,
    ensures
        typed_line(Seq::empty(), true) == Seq::<u8>::empty(),
        typed_line(Seq::empty(), false) == Seq::<u8>::empty(),
        typed_line(input.push(b), false) == typed_line(input, false).push(b),
        b != 8 && b != 127 ==> typed_line(input.push(b), true) == typed_line(input, true).push(b),
        b != 8 && b != 127 ==> typed_line(input.push(b).push(erase), true) == typed_line(
            input,
            true,
        ),
        typed_line(input, true).len() == 0 ==> typed_line(input.push(erase), true) == Seq::<
            u8,
        >::empty(),
{
    let longer = input.push(b);
    assert(longer.drop_last() =~= input);
    assert(input.push(erase).drop_last() =~= input);
    assert(longer.push(erase).drop_last() =~= longer);
    assert(typed_line(input, true).push(b).drop_last() =~= typed_line(input, true));
    if b != 8 && b != 127 {
        assert(typed_line(longer, true) == typed_line(input, true).push(b));
        assert(typed_line(longer.push(erase), true) == typed_line(longer, true).drop_last());
    }
    if typed_line(input, true).len() == 0 {
        assert(typed_line(input, true) =~= Seq::<u8>::empty());
    }
}

/// A line feed or a carriage return ends the input, and nothing else does. A masked byte is shown
/// as one mask, which is taken away again with the byte; unmasked input is not shown.
pub proof fn law_echo(s: EditorState, b: u8)
    ensures
        editor_step(s, b).1 == Echo::Finish <==> b == 10 || b == 13,
        b == 10 || b == 13 ==> editor_step(s, b).0 == s,
        editor_step(s, b).1 == Echo::Erase <==> s.masked && (b == 8 || b == 127) && (
        s.bytes.len() > 0 || s.overflow > 0),
        editor_step(s, b).1 == Echo::Mask <==> s.masked && b != 8 && b != 127 && b != 10 && b
            != 13,
        editor_step(s, b).0.masked == s.masked,
{
}

/// A line of up to 1024 bytes is accepted as the text that it encodes. A longer one is refused
/// as too long, and one that encodes no text with what is wrong with it.
pub proof fn law_line(input: Seq<u8>, masked: bool)
    requires
        forall|i: int| 0 <= i < input.len() ==> #[trigger] input[i] != 10 && input[i] != 13,
        input.len() <= usize::MAX,
    ensures
        ({
            let line = typed_line(input, masked);
            let result = editor_result(editor_after(input, masked));
            if line.len() > 1024 {
                result == Err::<Seq<char>, ErrorView>(
                    ErrorView::Message(
                        "input exceeds the maximum length of "@ + text::decimal(1024)
                            + " bytes"@,
                    ),
                )
            } else if valid_utf8(line) {
                result is Ok && encode_utf8(result->Ok_0) == line
            } else {
                result == Err::<Seq<char>, ErrorView>(
                    ErrorView::InvalidUtf8(text::utf8_fault(line)),
                )
            }
        }),
{
    assert(one_line(input));
    law_editor(input, masked);
    let line = typed_line(input, masked);
    if valid_utf8(line) {
        decode_utf8_encode_utf8(line);
    }
}

/// A prompt is the message and ends in one space more than the message only where it has none.
pub proof fn law_spaced(msg: Seq<char>)
    ensures
        spaced(msg.push(' ')) == msg.push(' '),
        msg.len() == 0 || msg.last() != ' ' ==> spaced(msg) == msg.push(' '),
{
}

/// The helper program is the one that is set for this program, else the one that is set for
/// `sudo`; an empty setting is none.
pub proof fn law_helper_choice(runas: Option<Seq<u8>>, sudo: Option<Seq<u8>>)
    ensures
        runas matches Some(path) && path.len() > 0 ==> chosen_helper(runas, sudo) == runas,
        !(runas matches Some(path) && path.len() > 0) && (sudo matches Some(path) && path.len() > 0)
            ==> chosen_helper(runas, sudo) == sudo,
        !(runas matches Some(path) && path.len() > 0) && !(sudo matches Some(path) && path.len()
            > 0) ==> chosen_helper(runas, sudo) is None,
{
}

/// A helper program writes its answer into the pipe, reads nothing, and does not outlive its
/// parent; it goes on only when both sides are ready.
pub proof fn law_helper_setup(read_end: i32, write_end: i32, uid: u32, gid: u32)
    ensures
        ({
            let calls = helper_calls(read_end, write_end, uid, gid);
            let n = calls.len() as int;
            &&& n == (if write_end == 1 {
                10int
            } else {
                12
            })
            &&& calls[0] == HelperCall::Close(read_end)
            &&& write_end != 1 ==> calls[1] == HelperCall::Duplicate(write_end, 1) && calls[2]
                == HelperCall::Close(write_end)
            &&& calls[n - 9] == HelperCall::EmptyInput
            &&& calls[n - 6] == HelperCall::ParentExitSignal(9)
            &&& calls[n - 5] == HelperCall::Synchronize
        }),
{
}

/// The answer of a helper program is its output without the end of the line, which is a line feed
/// or a carriage return and a line feed. One end of a line is taken away, and nothing else.
pub proof fn law_answer_line(line: Seq<u8>)
    ensures
        line.len() == 0 || line.last() != 10 ==> without_newline(line) == line,
        line.len() == 0 || line.last() != 13 ==> without_newline(line.push(10)) == line,
        without_newline(line.push(13).push(10)) == line,
{
    assert(line.push(10).drop_last() =~= line);
    assert(line.push(13).push(10).drop_last() =~= line.push(13));
    assert(line.push(13).drop_last() =~= line);
}

/// The output of a helper program has ended once a read gave nothing.
pub proof fn law_helper_end(chunks: Seq<Seq<u8>>)
    ensures
        helper_after(chunks).eof <==> exists|i: int|
            0 <= i < chunks.len() && (#[trigger] chunks[i]).len() == 0,
    decreases chunks.len(),
{
    if chunks.len() > 0 {
        let before = chunks.drop_last();
        law_helper_end(before);
        assert(chunks[chunks.len() - 1] == chunks.last());
        if exists|i: int| 0 <= i < before.len() && (#[trigger] before[i]).len() == 0 {
            let i = choose|i: int| 0 <= i < before.len() && (#[trigger] before[i]).len() == 0;
            assert(chunks[i].len() == 0);
        }
        if exists|i: int| 0 <= i < chunks.len() && (#[trigger] chunks[i]).len() == 0 {
            let i = choose|i: int| 0 <= i < chunks.len() && (#[trigger] chunks[i]).len() == 0;
            if i < before.len() {
                assert(before[i].len() == 0);
            }
        }
    }
}

/// A helper program that failed gives no answer, whatever it wrote, and neither does one whose
/// status is not known.
pub proof fn law_helper_failure(s: HelperState)
    ensures
        s.status is None ==> helper_result(s) == Err::<Seq<char>, ErrorView>(
            ErrorView::StaticMessage("askpass helper status is unavailable"@),
        ),
        s.status matches Some(n) && n != 0 ==> helper_result(s) == Err::<Seq<char>, ErrorView>(
            ErrorView::Message(
                "askpass helper exited with status "@ + text::signed_decimal(
                    s.status->Some_0 as int,
                ),
            ),
        ),
{
}

/// A helper program that succeeded answers with the text that its line encodes. A line of more
/// than 1024 bytes is refused as too long, and one that encodes no text with what is wrong with
/// it.
pub proof fn law_helper_line(chunks: Seq<Seq<u8>>, line: Seq<u8>)
    requires
        line.len() == 0 || (line.last() != 10 && line.last() != 13),
        joined(chunks) == line || joined(chunks) == line.push(10),
    ensures
        ({
            let result = helper_result(HelperState { status: Some(0i32), ..helper_after(chunks) });
            if line.len() > 1024 {
                result == Err::<Seq<char>, ErrorView>(
                    ErrorView::Message(
                        "input exceeds the maximum length of "@ + text::decimal(1024)
                            + " bytes"@,
                    ),
                )
            } else if valid_utf8(line) {
                result is Ok && encode_utf8(result->Ok_0) == line
            } else {
                result == Err::<Seq<char>, ErrorView>(
                    ErrorView::InvalidUtf8(text::utf8_fault(line)),
                )
            }
        }),
{
    law_helper_output(chunks);
    law_answer_line(line);
    if valid_utf8(line) {
        decode_utf8_encode_utf8(line);
    }
}

/// Of the output of a helper program 1025 bytes are kept, which is a line of the greatest length
/// and its end. More is too long, even if the line itself would not be.
pub proof fn law_helper_capacity(chunks: Seq<Seq<u8>>)
    requires
        joined(chunks).len() > 1025,
    ensures
        helper_after(chunks).bytes == joined(chunks).take(1025),
        helper_result(HelperState { status: Some(0i32), ..helper_after(chunks) }) == Err::<
            Seq<char>,
            ErrorView,
        >(
            ErrorView::Message(
                "input exceeds the maximum length of "@ + text::decimal(1024) + " bytes"@,
            ),
        ),
{
    law_helper_output(chunks);
}

} // verus!
