//! What several modules share: the flags of a run, the build variant, fixed paths and the
//! numbers that the Linux kernel gives to errors.

use vstd::prelude::*;

verus! {

/// No such file or directory.
pub const ENOENT: i32 = 2;

/// Interrupted system call.
pub const EINTR: i32 = 4;

/// Input or output error.
pub const EIO: i32 = 5;

/// Bad file descriptor.
pub const EBADF: i32 = 9;

/// No child processes.
pub const ECHILD: i32 = 10;

/// Permission denied.
pub const EACCES: i32 = 13;

/// Not a directory.
pub const ENOTDIR: i32 = 20;

/// Invalid argument.
pub const EINVAL: i32 = 22;

/// Broken pipe.
pub const EPIPE: i32 = 32;

/// Protocol error.
pub const EPROTO: i32 = 71;

/// Operation already in progress.
pub const EALREADY: i32 = 114;

/// A number of 32 bits read as a signed one.
pub open spec fn as_signed(n: u32) -> int {
    if n < 0x8000_0000 {
        n as int
    } else {
        n - 0x1_0000_0000
    }
}

/// Reads a number of 32 bits as a signed one.
pub fn signed(n: u32) -> (r: i32)
    ensures
        r == as_signed(n),
{
    assert(#[verifier::truncate] (n as i32) == (if n < 0x8000_0000 {
        n as int
    } else {
        n - 0x1_0000_0000
    })) by (bit_vector);
    #[verifier::truncate] (n as i32)
}

/// A number of 32 bits read as an unsigned one.
pub open spec fn as_unsigned(n: i32) -> int {
    if n < 0 {
        n + 0x1_0000_0000
    } else {
        n as int
    }
}

/// Reads a number of 32 bits as an unsigned one.
pub fn unsigned(n: i32) -> (r: u32)
    ensures
        r == as_unsigned(n),
{
    assert(#[verifier::truncate] (n as u32) == (if n < 0 {
        n + 0x1_0000_0000
    } else {
        n as int
    })) by (bit_vector);
    #[verifier::truncate] (n as u32)
}

/// The controlling terminal of a process.
pub const PATH_TTY: &'static str = "/dev/tty";

/// The file with variables that are set for target users.
pub const ENV_FILE: &'static str = "/etc/runas.env";

/// The prompt for a password.
pub const PROMPT_TEXT: &'static str = "Password:";

/// Members of this group may authenticate for another identity.
pub const AUTH_GROUP: &'static str = "wheel";

/// What runs the command in the end.
#[derive(Debug, Clone, Copy, PartialEq, Eq, Structural)]
pub enum Backend {
    /// `systemd-run`.
    SystemdRun,
    /// `systemd-run` under the name `run0`.
    Run0,
    /// The command itself, in the scope of the caller.
    Scopex,
}

/// The variant of the program.
#[derive(Debug, Clone, Copy, PartialEq, Eq, Structural)]
pub struct Features {
    /// What runs the command.
    pub backend: Backend,
    /// Authenticate through PAM, not through the shadow file.
    pub use_pam: bool,
    /// `systemd-run` knows `--expand-environment`.
    pub expand_env: bool,
    /// A helper program may ask for the password.
    pub askpass: bool,
}

impl Features {
    /// A PAM session is kept open around a command that runs in the scope of the caller.
    pub open spec fn session(self) -> bool {
        self.backend == Backend::Scopex && self.use_pam
    }

    /// Tells whether a PAM session is kept open around the command.
    pub fn has_session(self) -> (r: bool)
        ensures
            r == self.session(),
    {
        match self.backend {
            Backend::Scopex => self.use_pam,
            _ => false,
        }
    }
}

/// A set of flags that steer a run.
#[derive(Debug, Clone, Copy, PartialEq, Eq, Structural)]
pub struct RunFlags {
    /// One bit for each flag.
    pub bits: u32,
}

/// Run a shell.
pub const SHELL: u32 = 1;

/// Read the password from standard input.
pub const AUTH_STDIN: u32 = 2;

/// Do not ask for a password.
pub const AUTH_NO_PROMPT: u32 = 4;

/// Let a helper program ask for the password.
pub const AUTH_ASKPASS: u32 = 8;

/// Do not show what is typed.
pub const PROMPT_HIDE: u32 = 16;

impl RunFlags {
    /// The flag `flag` is set.
    pub open spec fn has(self, flag: u32) -> bool {
        self.bits & flag == flag
    }

    /// No flag.
    pub fn none() -> (r: Self)
        ensures
            r.bits == 0,
    {
        RunFlags { bits: 0 }
    }

    /// Tells whether the flag `flag` is set.
    pub fn contains(self, flag: u32) -> (r: bool)
        ensures
            r == self.has(flag),
    {
        self.bits & flag == flag
    }

    /// These flags and `flag`.
    pub fn with(self, flag: u32) -> (r: Self)
        ensures
            r.bits == self.bits | flag,
            r.has(flag),
            forall|other: u32| self.has(other) ==> #[trigger] r.has(other),
            forall|other: u32| #[trigger] r.has(other) && other & flag == 0 ==> self.has(other),
    {
        let bits = self.bits;
        let r = RunFlags { bits: bits | flag };
        assert((bits | flag) & flag == flag) by (bit_vector);
        assert forall|other: u32| self.has(other) implies #[trigger] r.has(other) by {
            assert(bits & other == other ==> (bits | flag) & other == other) by (bit_vector);
        }
        assert forall|other: u32| #[trigger] r.has(other) && other & flag == 0 implies self.has(
            other,
        ) by {
            assert((bits | flag) & other == other && other & flag == 0 ==> bits & other == other)
                by (bit_vector);
        }
        r
    }
}

/// The flags are independent: setting one leaves every other as it was.
pub proof fn law_flags_independent(flags: RunFlags, set: RunFlags, one: u32, other: u32)
    requires
        one == SHELL || one == AUTH_STDIN || one == AUTH_NO_PROMPT || one == AUTH_ASKPASS || one
            == PROMPT_HIDE,
        other == SHELL || other == AUTH_STDIN || other == AUTH_NO_PROMPT || other == AUTH_ASKPASS
            || other == PROMPT_HIDE,
        one != other,
        set.bits == flags.bits | one,
    ensures
        set.has(one),
        set.has(other) == flags.has(other),
{
    let bits = flags.bits;
    assert((bits | one) & one == one) by (bit_vector);
    assert((bits | one) & other == other <==> bits & other == other) by (bit_vector)
        requires
            one == 1 || one == 2 || one == 4 || one == 8 || one == 16,
            other == 1 || other == 2 || other == 4 || other == 8 || other == 16,
            one != other,
    ;
}

/// Reading a number of 32 bits as a signed one and as an unsigned one are inverse to each other,
/// and neither changes a number that both can hold.
pub proof fn law_signs(n: u32, m: i32)
    ensures
        -0x8000_0000 <= as_signed(n) < 0x8000_0000,
        0 <= as_unsigned(m) < 0x1_0000_0000,
        as_unsigned(as_signed(n) as i32) == n,
        as_signed(as_unsigned(m) as u32) == m,
        n < 0x8000_0000 ==> as_signed(n) == n,
        m >= 0 ==> as_unsigned(m) == m,
{
}

/// A session is kept open for a command that runs in the scope of the caller, and only where PAM
/// is used.
pub proof fn law_has_session(features: Features)
    ensures
        features.session() <==> features.backend == Backend::Scopex && features.use_pam,
{
}

/// Each flag is a bit of its own, and a flag is set where its bit is.
pub proof fn law_flag_bits(flags: RunFlags)
    ensures
        flags.has(SHELL) <==> flags.bits & 1 != 0,
        flags.has(AUTH_STDIN) <==> flags.bits & 2 != 0,
        flags.has(AUTH_NO_PROMPT) <==> flags.bits & 4 != 0,
        flags.has(AUTH_ASKPASS) <==> flags.bits & 8 != 0,
        flags.has(PROMPT_HIDE) <==> flags.bits & 16 != 0,
{
    let bits = flags.bits;
    assert((bits & 1 == 1 <==> bits & 1 != 0) && (bits & 2 == 2 <==> bits & 2 != 0) && (bits & 4
        == 4 <==> bits & 4 != 0) && (bits & 8 == 8 <==> bits & 8 != 0) && (bits & 16 == 16 <==> bits
        & 16 != 0)) by (bit_vector);
}

} // verus!
