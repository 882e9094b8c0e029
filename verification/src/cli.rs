//! The command line, and the way from it to the command that is run.

use vstd::prelude::*;
use vstd::string::*;
use vstd::utf8::*;

use getopts::{Matches, Options};

use crate::modules::env;
use crate::modules::env::{EnvMap, EnvVar};
use crate::modules::error;
use crate::modules::error::{Error, ErrorView};
use crate::modules::path;
use crate::modules::user::{Account, AccountView, Group};
use crate::shared;
use crate::shared::{Backend, Features, RunFlags};
use crate::text;

verus! {

// ---------------------------------------------------------------------------------------------
// The parser
// ---------------------------------------------------------------------------------------------

/// An option of the program. Without a value it is a flag.
#[derive(Debug, Clone, Copy)]
pub struct CliOption {
    /// The short name, or nothing.
    pub flag: &'static str,
    /// The long name.
    pub name: &'static str,
    /// What it is for.
    pub desc: &'static str,
    /// What its value stands for, or nothing.
    pub val: &'static str,
}

/// An option as the parser knows it: the short and the long name, the description, what its
/// value stands for, and whether it takes a value.
pub type GroupView = (Seq<char>, Seq<char>, Seq<char>, Seq<char>, bool);

/// `getopts::Options`: the options that a program can handle.
#[verifier::external_type_specification]
#[verifier::external_body]
pub struct ExOptions(Options);

/// `getopts::Matches`: what a command line holds.
#[verifier::external_type_specification]
#[verifier::external_body]
pub struct ExMatches(Matches);

/// The options that were added to a set, in their order.
pub uninterp spec fn option_groups(options: Options) -> Seq<GroupView>;

/// The set was made by `Options::new`, `Options::optflag` and `Options::optopt` alone.
pub uninterp spec fn plain_options(options: Options) -> bool;

/// The occurrences of each option that is defined, by its short and by its long name; an
/// occurrence has a value or none.
pub uninterp spec fn option_values(matches: Matches) -> Map<
    Seq<char>,
    Seq<Option<Seq<char>>>,
>;

/// The arguments that belong to no option.
pub uninterp spec fn free_arguments(matches: Matches) -> Seq<Seq<char>>;

/// What `Options::parse` finds for these options in these arguments: the occurrences of the
/// options and the other arguments, or the message of the failure.
pub uninterp spec fn parse_outcome(groups: Seq<GroupView>, args: Seq<Seq<char>>) -> Result<
    (Map<Seq<char>, Seq<Option<Seq<char>>>>, Seq<Seq<char>>),
    Seq<char>,
>;

/// What `Options::usage` returns for these options.
pub uninterp spec fn usage_message(groups: Seq<GroupView>, brief: Seq<char>) -> Seq<char>;

/// Names that an option can have: a short one of one ASCII character and a long one of several
/// characters, either of which may be missing.
pub open spec fn valid_names(short: Seq<char>, long: Seq<char>) -> bool {
    &&& short.len() <= 1
    &&& short.len() == 1 ==> (short[0] as u32) < 128
    &&& long.len() != 1
}

/// The position of the first `--`, or the number of arguments if there is none.
pub open spec fn separator(args: Seq<Seq<char>>) -> int
    decreases args.len(),
{
    if args.len() == 0 || args[0] == "--"@ {
        0
    } else {
        1 + separator(args.drop_first())
    }
}

/// An argument that is read as an option: it begins with `-` and goes on.
pub open spec fn is_option(arg: Seq<char>) -> bool {
    arg.len() > 1 && arg[0] == '-'
}

/// The arguments before the first `--`.
pub open spec fn options_part(args: Seq<Seq<char>>) -> Seq<Seq<char>> {
    args.take(separator(args))
}

/// The arguments after the first `--`.
pub open spec fn command_part(args: Seq<Seq<char>>) -> Seq<Seq<char>> {
    if separator(args) < args.len() {
        args.skip(separator(args) + 1)
    } else {
        Seq::empty()
    }
}

/// No argument before the first `--` is an option.
pub open spec fn command_only(args: Seq<Seq<char>>) -> bool {
    forall|i: int| 0 <= i < separator(args) ==> !is_option(#[trigger] args[i])
}

/// Every name of every option is defined.
pub open spec fn defines(
    values: Map<Seq<char>, Seq<Option<Seq<char>>>>,
    groups: Seq<GroupView>,
) -> bool {
    forall|i: int|
        0 <= i < groups.len() ==> {
            &&& (#[trigger] groups[i]).0.len() > 0 ==> values.contains_key(groups[i].0)
            &&& groups[i].1.len() > 0 ==> values.contains_key(groups[i].1)
        }
}

/// If no argument before the first `--` is an option, no option occurs, and all arguments but
/// that `--` are free.
pub open spec fn left_alone(
    values: Map<Seq<char>, Seq<Option<Seq<char>>>>,
    free: Seq<Seq<char>>,
    args: Seq<Seq<char>>,
) -> bool {
    command_only(args) ==> {
        &&& forall|name: Seq<char>|
            #[trigger] values.contains_key(name) ==> values[name].len() == 0
        &&& free == options_part(args) + command_part(args)
    }
}

/// What was found is what was found before the first `--`, and all that follows it is free.
pub open spec fn extends(
    values: Map<Seq<char>, Seq<Option<Seq<char>>>>,
    free: Seq<Seq<char>>,
    before: Result<(Map<Seq<char>, Seq<Option<Seq<char>>>>, Seq<Seq<char>>), Seq<char>>,
    command: Seq<Seq<char>>,
) -> bool {
    before matches Ok(found) ==> values == found.0 && free == found.1 + command
}

/// `Options::new`: a set without options.
#[verifier::external_body]
fn new_options() -> (r: Options)
    ensures
        plain_options(r),
        option_groups(r) == Seq::<GroupView>::empty(),
{
    Options::new()
}

/// `Options::optflag`: one more option, which takes no value and may occur once. Names of other
/// lengths are left out, because it panics on them.
#[verifier::external_body]
fn optflag(options: &mut Options, short: &str, long: &str, desc: &str)
    requires
        valid_names(short@, long@),
    ensures
        plain_options(*final(options)) == plain_options(*old(options)),
        option_groups(*final(options)) == option_groups(*old(options)).push(
            (short@, long@, desc@, Seq::empty(), false),
        ),
{
    options.optflag(short, long, desc);
}

/// `Options::optopt`: one more option, which takes a value and may occur once. Names of other
/// lengths are left out, because it panics on them.
#[verifier::external_body]
fn optopt(options: &mut Options, short: &str, long: &str, desc: &str, hint: &str)
    requires
        valid_names(short@, long@),
    ensures
        plain_options(*final(options)) == plain_options(*old(options)),
        option_groups(*final(options)) == option_groups(*old(options)).push(
            (short@, long@, desc@, hint@, true),
        ),
{
    options.optopt(short, long, desc, hint);
}

/// `Options::parse`: its result depends on the options and the arguments alone, and on success
/// every name of every option is defined. It reads the arguments from the left as far as the
/// first `--`; what follows that is free, and what was read before is read as without it.
/// Arguments of which none is an option are all free. An option without any name is left out,
/// because it panics on one. How it reads options is not stated beyond the name of its result.
#[verifier::external_body]
fn parse(options: &Options, args: &Vec<String>) -> (r: Result<Matches, String>)
    requires
        plain_options(*options),
        forall|i: int|
            0 <= i < option_groups(*options).len() ==> (#[trigger] option_groups(
                *options,
            )[i]).0.len() + option_groups(*options)[i].1.len() > 0,
    ensures
        match r {
            Ok(m) => parse_outcome(option_groups(*options), text::views(args@)) == Ok::<
                (Map<Seq<char>, Seq<Option<Seq<char>>>>, Seq<Seq<char>>),
                Seq<char>,
            >((option_values(m), free_arguments(m))),
            Err(e) => parse_outcome(option_groups(*options), text::views(args@)) == Err::<
                (Map<Seq<char>, Seq<Option<Seq<char>>>>, Seq<Seq<char>>),
                Seq<char>,
            >(e@),
        },
        r matches Ok(m) ==> defines(option_values(m), option_groups(*options)),
        r is Ok || !command_only(text::views(args@)),
        r matches Ok(m) ==> left_alone(option_values(m), free_arguments(m), text::views(args@)),
        r is Ok || parse_outcome(
            option_groups(*options),
            options_part(text::views(args@)),
        ) is Err,
        r matches Ok(m) ==> extends(
            option_values(m),
            free_arguments(m),
            parse_outcome(option_groups(*options), options_part(text::views(args@))),
            command_part(text::views(args@)),
        ),
{
    options.parse(args).map_err(|e| e.to_string())
}

/// `Options::usage`: the help text. It depends on the options and on `brief` alone.
#[verifier::external_body]
fn usage(options: &Options, brief: &str) -> (r: String)
    requires
        plain_options(*options),
    ensures
        r@ == usage_message(option_groups(*options), brief@),
{
    options.usage(brief)
}

/// `Matches::opt_present`: whether an option occurs. A name that is not defined is left out,
/// because it panics on one.
#[verifier::external_body]
fn opt_present(matches: &Matches, name: &str) -> (r: bool)
    requires
        option_values(*matches).contains_key(name@),
    ensures
        r == (option_values(*matches)[name@].len() > 0),
{
    matches.opt_present(name)
}

/// `Matches::opt_str`: the value of the first occurrence of an option, if it has one. A name
/// that is not defined is left out, because it panics on one.
#[verifier::external_body]
fn opt_str(matches: &Matches, name: &str) -> (r: Option<String>)
    requires
        option_values(*matches).contains_key(name@),
    ensures
        text::opt_view(r) == (if option_values(*matches)[name@].len() > 0 {
            option_values(*matches)[name@][0]
        } else {
            None
        }),
{
    matches.opt_str(name)
}

/// `Matches::free`: the arguments that belong to no option.
#[verifier::external_body]
fn free(matches: &Matches) -> (r: Vec<String>)
    ensures
        text::views(r@) == free_arguments(*matches),
{
    matches.free.clone()
}

/// The options of the program.
pub open spec fn scheme_groups() -> Seq<GroupView> {
    seq![
        ("u"@, "user"@, "Run process as the specified user name or ID"@, "USER"@, true),
        ("g"@, "group"@, "Run process as the specified group name or ID"@, "GROUP"@, true),
        ("s"@, "shell"@, "Run $SHELL as the target user"@, Seq::empty(), false),
        ("h"@, "help"@, "Display this help screen"@, Seq::empty(), false),
        (
            "n"@,
            "non-interactive"@,
            "Non-interactive mode, don't prompt for password"@,
            Seq::empty(),
            false,
        ),
        ("S"@, "stdin"@, "Read password from standard input"@, Seq::empty(), false),
        ("v"@, "version"@, "Display version information and exit"@, Seq::empty(), false),
        (Seq::empty(), "env"@, "Set environment variable"@, "ENV"@, true),
        (
            Seq::empty(),
            "preserve-env"@,
            "Comma separated list of variables to preserve"@,
            "LIST"@,
            true,
        ),
        ("D"@, "chdir"@, "Run the command in the specified directory"@, "PATH"@, true),
    ]
}

/// An option as the parser knows it.
pub open spec fn group_of(option: CliOption) -> GroupView {
    (option.flag@, option.name@, option.desc@, option.val@, option.val@.len() > 0)
}

/// An option of the program.
fn option(
    flag: &'static str,
    name: &'static str,
    desc: &'static str,
    val: &'static str,
) -> (r: CliOption)
    ensures
        group_of(r) == (flag@, name@, desc@, val@, val@.len() > 0),
{
    CliOption { flag, name, desc, val }
}

/// The options of the program.
pub fn argv_scheme() -> (r: Vec<CliOption>)
    ensures
        r@.map_values(|o: CliOption| group_of(o)) == scheme_groups(),
{
    proof {
        reveal_strlit("");
        reveal_strlit("USER");
        reveal_strlit("GROUP");
        reveal_strlit("ENV");
        reveal_strlit("LIST");
        reveal_strlit("PATH");
        assert(""@ =~= Seq::<char>::empty());
    }
    let r: Vec<CliOption> = vec![
        option("u", "user", "Run process as the specified user name or ID", "USER"),
        option("g", "group", "Run process as the specified group name or ID", "GROUP"),
        option("s", "shell", "Run $SHELL as the target user", ""),
        option("h", "help", "Display this help screen", ""),
        option("n", "non-interactive", "Non-interactive mode, don't prompt for password", ""),
        option("S", "stdin", "Read password from standard input", ""),
        option("v", "version", "Display version information and exit", ""),
        option("", "env", "Set environment variable", "ENV"),
        option("", "preserve-env", "Comma separated list of variables to preserve", "LIST"),
        option("D", "chdir", "Run the command in the specified directory", "PATH"),
    ];
    assert(r@.map_values(|o: CliOption| group_of(o)) =~= scheme_groups());
    r
}

/// Every option of the program has names that an option can have.
proof fn lemma_scheme_names()
    ensures
        forall|i: int|
            0 <= i < scheme_groups().len() ==> valid_names(
                (#[trigger] scheme_groups()[i]).0,
                scheme_groups()[i].1,
            ) && scheme_groups()[i].1.len() > 0,
{
    reveal_strlit("u");
    reveal_strlit("g");
    reveal_strlit("s");
    reveal_strlit("h");
    reveal_strlit("n");
    reveal_strlit("S");
    reveal_strlit("v");
    reveal_strlit("D");
    reveal_strlit("user");
    reveal_strlit("group");
    reveal_strlit("shell");
    reveal_strlit("help");
    reveal_strlit("non-interactive");
    reveal_strlit("stdin");
    reveal_strlit("version");
    reveal_strlit("env");
    reveal_strlit("preserve-env");
    reveal_strlit("chdir");
}

/// The parser for the options of the program.
pub fn get_argv_options() -> (r: Options)
    ensures
        plain_options(r),
        option_groups(r) == scheme_groups(),
{
    proof {
        lemma_scheme_names();
    }
    let mut options = new_options();
    let scheme = argv_scheme();
    let ghost groups = scheme_groups();
    assert(groups.take(0) =~= Seq::<GroupView>::empty());
    let mut i: usize = 0;
    while i < scheme.len()
        invariant
            i <= scheme@.len(),
            scheme@.map_values(|o: CliOption| group_of(o)) == groups,
            forall|j: int|
                0 <= j < groups.len() ==> valid_names((#[trigger] groups[j]).0, groups[j].1),
            plain_options(options),
            option_groups(options) == groups.take(i as int),
        decreases scheme.len() - i,
    {
        let o = scheme[i];
        proof {
            assert(groups[i as int] == scheme@.map_values(|o: CliOption| group_of(o))[i as int]);
            assert(groups.take(i + 1) =~= groups.take(i as int).push(group_of(o)));
        }
        let chars = text::chars_of(o.val);
        if chars.len() == 0 {
            assert(o.val@ =~= Seq::<char>::empty());
            optflag(&mut options, o.flag, o.name, o.desc);
        } else {
            optopt(&mut options, o.flag, o.name, o.desc, o.val);
        }
        i = i + 1;
    }
    assert(groups.take(groups.len() as int) =~= groups);
    options
}

/// The help text of the program.
pub fn usage_text(program: &str) -> (r: String)
    ensures
        r@ == usage_message(
            scheme_groups(),
            "Usage: "@ + program@ + " [options] -- CMD"@,
        ),
{
    let mut brief = "Usage: ".to_owned();
    brief.append(program);
    brief.append(" [options] -- CMD");
    usage(&get_argv_options(), brief.as_str())
}

/// How an option occurs.
#[derive(Debug)]
pub enum Given {
    /// It does not.
    Absent,
    /// It occurs without a value.
    Bare,
    /// It occurs with this value.
    Value(String),
}

impl View for Given {
    type V = Option<Option<Seq<char>>>;

    open spec fn view(&self) -> Option<Option<Seq<char>>> {
        match *self {
            Given::Absent => None,
            Given::Bare => Some(None),
            Given::Value(s) => Some(Some(s@)),
        }
    }
}

/// How an option with these occurrences occurs.
pub open spec fn occurrence(values: Seq<Option<Seq<char>>>) -> Option<Option<Seq<char>>> {
    if values.len() == 0 {
        None
    } else {
        Some(values[0])
    }
}

/// What a command line asks for.
#[derive(Debug)]
pub struct ParsedArgs {
    /// The user to act as.
    pub user: Given,
    /// The group to act in.
    pub group: Given,
    /// Run a shell.
    pub shell: bool,
    /// Show the help text.
    pub help: bool,
    /// Do not ask for a password.
    pub non_interactive: bool,
    /// Read the password from standard input.
    pub stdin: bool,
    /// Show the version.
    pub version: bool,
    /// A variable to set.
    pub env: Given,
    /// Variables of the caller to keep.
    pub preserve: Given,
    /// The working directory.
    pub chdir: Given,
    /// The command and its arguments.
    pub free: Vec<String>,
}

/// What a `ParsedArgs` says.
#[verifier::ext_equal]
pub struct ParsedView {
    /// See `ParsedArgs::user`.
    pub user: Option<Option<Seq<char>>>,
    /// See `ParsedArgs::group`.
    pub group: Option<Option<Seq<char>>>,
    /// See `ParsedArgs::shell`.
    pub shell: bool,
    /// See `ParsedArgs::help`.
    pub help: bool,
    /// See `ParsedArgs::non_interactive`.
    pub non_interactive: bool,
    /// See `ParsedArgs::stdin`.
    pub stdin: bool,
    /// See `ParsedArgs::version`.
    pub version: bool,
    /// See `ParsedArgs::env`.
    pub env: Option<Option<Seq<char>>>,
    /// See `ParsedArgs::preserve`.
    pub preserve: Option<Option<Seq<char>>>,
    /// See `ParsedArgs::chdir`.
    pub chdir: Option<Option<Seq<char>>>,
    /// See `ParsedArgs::free`.
    pub free: Seq<Seq<char>>,
}

impl View for ParsedArgs {
    type V = ParsedView;

    open spec fn view(&self) -> ParsedView {
        ParsedView {
            user: self.user@,
            group: self.group@,
            shell: self.shell,
            help: self.help,
            non_interactive: self.non_interactive,
            stdin: self.stdin,
            version: self.version,
            env: self.env@,
            preserve: self.preserve@,
            chdir: self.chdir@,
            free: text::views(self.free@),
        }
    }
}

/// What the occurrences of the options and the other arguments ask for.
pub open spec fn parsed_args(
    values: Map<Seq<char>, Seq<Option<Seq<char>>>>,
    free: Seq<Seq<char>>,
) -> ParsedView {
    ParsedView {
        user: occurrence(values["user"@]),
        group: occurrence(values["group"@]),
        shell: values["shell"@].len() > 0,
        help: values["help"@].len() > 0,
        non_interactive: values["non-interactive"@].len() > 0,
        stdin: values["stdin"@].len() > 0,
        version: values["version"@].len() > 0,
        env: occurrence(values["env"@]),
        preserve: occurrence(values["preserve-env"@]),
        chdir: occurrence(values["chdir"@]),
        free,
    }
}

/// A command line with these free arguments and no options.
pub open spec fn no_request(free: Seq<Seq<char>>) -> ParsedView {
    ParsedView {
        user: None,
        group: None,
        shell: false,
        help: false,
        non_interactive: false,
        stdin: false,
        version: false,
        env: None,
        preserve: None,
        chdir: None,
        free,
    }
}

/// Reads how an option occurs.
fn read_option(matches: &Matches, name: &str) -> (r: Given)
    requires
        option_values(*matches).contains_key(name@),
    ensures
        r@ == occurrence(option_values(*matches)[name@]),
{
    if !opt_present(matches, name) {
        return Given::Absent;
    }
    match opt_str(matches, name) {
        Some(s) => Given::Value(s),
        None => Given::Bare,
    }
}

/// Reads a command line, without the name of the program. Everything after the first `--`
/// belongs to the command, whatever it looks like, and so do arguments that are no options.
pub fn parse_command_line(args: &Vec<String>) -> (r: Result<ParsedArgs, Error>)
    ensures
        match parse_outcome(scheme_groups(), text::views(args@)) {
            Ok((values, free)) => r matches Ok(p) && p@ == parsed_args(values, free),
            Err(message) => error::fails(r, ErrorView::Message(message)),
        },
        command_only(text::views(args@)) ==> (r matches Ok(p) && p@ == no_request(
            options_part(text::views(args@)) + command_part(text::views(args@)),
        )),
        parse_outcome(scheme_groups(), options_part(text::views(args@))) matches Ok(before) ==> (
        r matches Ok(p) && p@ == parsed_args(
            before.0,
            before.1 + command_part(text::views(args@)),
        )),
{
    let options = get_argv_options();
    proof {
        lemma_scheme_names();
    }
    match parse(&options, args) {
        Err(message) => Err(Error::Message(message)),
        Ok(m) => {
            proof {
                let groups = scheme_groups();
                assert(groups[0].1 == "user"@);
                assert(groups[1].1 == "group"@);
                assert(groups[2].1 == "shell"@);
                assert(groups[3].1 == "help"@);
                assert(groups[4].1 == "non-interactive"@);
                assert(groups[5].1 == "stdin"@);
                assert(groups[6].1 == "version"@);
                assert(groups[7].1 == "env"@);
                assert(groups[8].1 == "preserve-env"@);
                assert(groups[9].1 == "chdir"@);
            }
            Ok(
                ParsedArgs {
                    user: read_option(&m, "user"),
                    group: read_option(&m, "group"),
                    shell: opt_present(&m, "shell"),
                    help: opt_present(&m, "help"),
                    non_interactive: opt_present(&m, "non-interactive"),
                    stdin: opt_present(&m, "stdin"),
                    version: opt_present(&m, "version"),
                    env: read_option(&m, "env"),
                    preserve: read_option(&m, "preserve-env"),
                    chdir: read_option(&m, "chdir"),
                    free: free(&m),
                },
            )
        },
    }
}

// ---------------------------------------------------------------------------------------------
// What is asked for
// ---------------------------------------------------------------------------------------------

/// One if `b` holds.
pub open spec fn one_if(b: bool) -> int {
    if b {
        1
    } else {
        0
    }
}

/// What is wrong with a command line. It asks for a shell, the help text, the version or a
/// command, and for only one of them.
pub open spec fn request_fault(p: ParsedView) -> Option<Seq<char>> {
    let special = one_if(p.shell) + one_if(p.help) + one_if(p.version);
    if special > 1 {
        Some("Options -s, -h and -v are mutually exclusive"@)
    } else if special == 1 && p.free.len() > 0 {
        Some("This option does not accept command arguments"@)
    } else if special == 0 && p.free.len() == 0 {
        Some("No command specified"@)
    } else {
        None
    }
}

/// Checks what a command line asks for.
pub fn check_arguments(p: &ParsedArgs) -> (r: Result<(), Error>)
    ensures
        match request_fault(p@) {
            None => r is Ok,
            Some(message) => error::refuses(r, message),
        },
{
    let several = (p.shell && p.help) || (p.shell && p.version) || (p.help && p.version);
    let special = p.shell || p.help || p.version;
    if several {
        return Err(Error::StaticMessage("Options -s, -h and -v are mutually exclusive"));
    } else if special && p.free.len() > 0 {
        return Err(Error::StaticMessage("This option does not accept command arguments"));
    } else if !special && p.free.len() == 0 {
        return Err(Error::StaticMessage("No command specified"));
    }
    Ok(())
}

/// A command line is accepted if and only if it asks for exactly one of a shell, the help text,
/// the version and a command.
pub proof fn law_one_request(p: ParsedView)
    ensures
        request_fault(p) is None <==> one_if(p.shell) + one_if(p.help) + one_if(p.version)
            + one_if(p.free.len() > 0) == 1,
{
}

/// The value of an option, if it occurs; `fault` is the message if it has none.
fn value_of(given: &Given, fault: &'static str) -> (r: Result<Option<String>, Error>)
    ensures
        match given@ {
            None => r == Ok::<Option<String>, Error>(None),
            Some(None) => error::refuses(r, fault@),
            Some(Some(v)) => r matches Ok(Some(s)) && s@ == v,
        },
{
    match given {
        Given::Absent => Ok(None),
        Given::Bare => Err(Error::StaticMessage(fault)),
        Given::Value(s) => Ok(Some(s.as_str().to_owned())),
    }
}

/// The user to look up.
pub fn user_request(p: &ParsedArgs) -> (r: Result<Option<String>, Error>)
    ensures
        match p@.user {
            None => r == Ok::<Option<String>, Error>(None),
            Some(None) => error::refuses(r, "User was not supplied"@),
            Some(Some(v)) => r matches Ok(Some(s)) && s@ == v,
        },
{
    value_of(&p.user, "User was not supplied")
}

/// The group to look up.
pub fn group_request(p: &ParsedArgs) -> (r: Result<Option<String>, Error>)
    ensures
        match p@.group {
            None => r == Ok::<Option<String>, Error>(None),
            Some(None) => error::refuses(r, "Group was not supplied"@),
            Some(Some(v)) => r matches Ok(Some(s)) && s@ == v,
        },
{
    value_of(&p.group, "Group was not supplied")
}

/// `head`, `middle` and `tail` in one text.
fn joined(head: &str, middle: &str, tail: &str) -> (r: String)
    ensures
        r@ == head@ + middle@ + tail@,
{
    let mut s = head.to_owned();
    s.append(middle);
    s.append(tail);
    s
}

/// The user that was looked up as `value`; there has to be one.
pub fn accept_user(value: &str, found: Option<Account>) -> (r: Result<Account, Error>)
    ensures
        match found {
            Some(a) => r == Ok::<Account, Error>(a),
            None => error::fails(
                r,
                ErrorView::Message("User "@ + value@ + " is not valid"@),
            ),
        },
{
    match found {
        Some(a) => Ok(a),
        None => Err(Error::Message(joined("User ", value, " is not valid"))),
    }
}

/// The group that was looked up as `value`; there has to be one.
pub fn accept_group(value: &str, found: Option<Group>) -> (r: Result<Group, Error>)
    ensures
        match found {
            Some(g) => r == Ok::<Group, Error>(g),
            None => error::fails(
                r,
                ErrorView::Message("Group "@ + value@ + " is not valid"@),
            ),
        },
{
    match found {
        Some(g) => Ok(g),
        None => Err(Error::Message(joined("Group ", value, " is not valid"))),
    }
}

/// The account of the caller; there has to be one.
pub fn accept_caller(found: Option<Account>) -> (r: Result<Account, Error>)
    ensures
        match found {
            Some(a) => r == Ok::<Account, Error>(a),
            None => error::refuses(r, "Failed to initialize current user"@),
        },
{
    match found {
        Some(a) => Ok(a),
        None => Err(Error::StaticMessage("Failed to initialize current user")),
    }
}

/// The account of the superuser, who is the target if none is named; there has to be one.
pub fn accept_default(found: Option<Account>) -> (r: Result<Account, Error>)
    ensures
        match found {
            Some(a) => r == Ok::<Account, Error>(a),
            None => error::refuses(r, "Failed to initialize default user"@),
        },
{
    match found {
        Some(a) => Ok(a),
        None => Err(Error::StaticMessage("Failed to initialize default user")),
    }
}

/// The names of the features that differ from the plain program.
pub open spec fn feature_names(features: Features) -> Seq<char> {
    let backend = match features.backend {
        Backend::SystemdRun => ""@,
        Backend::Run0 => "RUN0"@,
        Backend::Scopex => "SCOPEX"@,
    };
    if !features.use_pam {
        backend
    } else if features.backend == Backend::SystemdRun {
        "PAM"@
    } else {
        "PAM,"@ + backend
    }
}

/// The program with its version, and its features if it has any.
pub open spec fn version_line(version: Seq<char>, features: Features) -> Seq<char> {
    if features.backend == Backend::SystemdRun && !features.use_pam {
        "runas "@ + version
    } else {
        "runas "@ + version + " "@ + feature_names(features)
    }
}

/// The version of the program.
pub fn version_text(version: &str, features: Features) -> (r: String)
    ensures
        r@ == version_line(version@, features),
{
    let mut s = "runas ".to_owned();
    s.append(version);
    let backend = match features.backend {
        Backend::SystemdRun => {
            if !features.use_pam {
                return s;
            }
            s.append(" ");
            s.append("PAM");
            return s;
        },
        Backend::Run0 => "RUN0",
        Backend::Scopex => "SCOPEX",
    };
    s.append(" ");
    let mut names = "".to_owned();
    if features.use_pam {
        names.append("PAM,");
    }
    names.append(backend);
    proof {
        reveal_strlit("");
        assert(names@ =~= feature_names(features));
    }
    s.append(names.as_str());
    s
}

/// The bit of a flag that is set or not.
pub open spec fn flag_bit(flag: u32, set: bool) -> u32 {
    if set {
        flag
    } else {
        0
    }
}

/// The flags of a run.
pub fn run_flags(p: &ParsedArgs) -> (r: RunFlags)
    ensures
        r.bits == flag_bit(shared::SHELL, p@.shell) | flag_bit(
            shared::AUTH_NO_PROMPT,
            p@.non_interactive,
        ) | flag_bit(shared::AUTH_STDIN, p@.stdin),
        r.has(shared::SHELL) == p@.shell,
        r.has(shared::AUTH_STDIN) == p@.stdin,
        r.has(shared::AUTH_NO_PROMPT) == p@.non_interactive,
        !r.has(shared::AUTH_ASKPASS),
        !r.has(shared::PROMPT_HIDE),
{
    let shell: u32 = if p.shell {
        shared::SHELL
    } else {
        0
    };
    let silent: u32 = if p.non_interactive {
        shared::AUTH_NO_PROMPT
    } else {
        0
    };
    let stdin: u32 = if p.stdin {
        shared::AUTH_STDIN
    } else {
        0
    };
    let bits = shell | silent | stdin;
    assert((shell == 0 || shell == 1) && (silent == 0 || silent == 4) && (stdin == 0 || stdin == 2)
        ==> {
        let all = shell | silent | stdin;
        (all & 1 == 1 <==> shell == 1) && (all & 2 == 2 <==> stdin == 2) && (all & 4 == 4
            <==> silent == 4) && all & 8 != 8 && all & 16 != 16
    }) by (bit_vector);
    RunFlags { bits }
}

/// `env` with those of `names` that the caller has set. Names are trimmed, and empty ones are
/// passed over.
pub open spec fn with_preserved(
    env: Map<Seq<char>, Seq<char>>,
    names: Seq<Seq<char>>,
    caller: Seq<(Seq<char>, Seq<char>)>,
) -> Map<Seq<char>, Seq<char>>
    decreases names.len(),
{
    if names.len() == 0 {
        env
    } else {
        let before = with_preserved(env, names.drop_last(), caller);
        let name = text::trimmed(names.last());
        match env::lookup(caller, name) {
            Some(value) => if name.len() > 0 {
                before.insert(name, value)
            } else {
                before
            },
            None => before,
        }
    }
}

/// The variable that an option sets.
pub open spec fn set_variable(given: Option<Option<Seq<char>>>) -> Result<
    Map<Seq<char>, Seq<char>>,
    Seq<char>,
> {
    match given {
        None => Ok(Map::empty()),
        Some(None) => Err("Missing environment variable"@),
        Some(Some(v)) => match text::cut(v, '=') {
            Some((name, value)) => Ok(Map::empty().insert(name, value)),
            None => Err("Missing environment list"@),
        },
    }
}

/// The variables that a command line sets: the one that it names with a value, and those of the
/// caller that it keeps, which win.
pub open spec fn asked_variables(
    p: ParsedView,
    caller: Seq<(Seq<char>, Seq<char>)>,
) -> Result<Map<Seq<char>, Seq<char>>, Seq<char>> {
    match set_variable(p.env) {
        Err(message) => Err(message),
        Ok(m) => match p.preserve {
            None => Ok(m),
            Some(None) => Err("Missing environment list"@),
            Some(Some(list)) => Ok(with_preserved(m, text::pieces(list, ','), caller)),
        },
    }
}

/// Adds the variables of the list `list` that the caller has set.
fn preserve(env: &mut EnvMap, list: &str, caller: &Vec<EnvVar>)
    requires
        old(env).wf(),
    ensures
        final(env).wf(),
        final(env)@ == with_preserved(
            old(env)@,
            text::pieces(list@, ','),
            env::var_views(caller@),
        ),
{
    let names = text::split(list, ',');
    let ghost all = text::pieces(list@, ',');
    let ghost base = env@;
    let ghost vars = env::var_views(caller@);
    assert(with_preserved(base, all.take(0), vars) == base);
    let mut i: usize = 0;
    while i < names.len()
        invariant
            i <= names@.len(),
            names@.map_values(|p: &str| p@) == all,
            vars == env::var_views(caller@),
            env.wf(),
            env@ == with_preserved(base, all.take(i as int), vars),
        decreases names.len() - i,
    {
        let name = text::trim(names[i]);
        proof {
            assert(all[i as int] == names@.map_values(|p: &str| p@)[i as int]);
            let next = all.take(i + 1);
            assert(next.drop_last() =~= all.take(i as int));
            assert(text::trimmed(next.last()) == name@);
        }
        let chars = text::chars_of(name);
        if chars.len() > 0 {
            if let Some(value) = env::find_var(caller, name) {
                env.insert(name.to_owned(), value.to_owned());
            }
        }
        i = i + 1;
    }
    assert(all.take(all.len() as int) =~= all);
}

/// The variables that a command line sets. `caller` are the variables of the caller.
pub fn asked_environment(p: &ParsedArgs, caller: &Vec<EnvVar>) -> (r: Result<EnvMap, Error>)
    ensures
        match asked_variables(p@, env::var_views(caller@)) {
            Ok(m) => r matches Ok(e) && e.wf() && e@ == m,
            Err(message) => error::refuses(r, message),
        },
{
    let mut env = EnvMap::new();
    match value_of(&p.env, "Missing environment variable") {
        Err(e) => {
            return Err(e);
        },
        Ok(None) => {},
        Ok(Some(v)) => match text::split_once(v.as_str(), '=') {
            None => {
                return Err(Error::StaticMessage("Missing environment list"));
            },
            Some((name, value)) => {
                env.insert(name.to_owned(), value.to_owned());
            },
        },
    }
    match value_of(&p.preserve, "Missing environment list") {
        Err(e) => Err(e),
        Ok(None) => Ok(env),
        Ok(Some(list)) => {
            preserve(&mut env, list.as_str(), caller);
            Ok(env)
        },
    }
}

/// The working directory to use.
pub fn chdir_request(p: &ParsedArgs) -> (r: Result<Option<String>, Error>)
    ensures
        match p@.chdir {
            None => r == Ok::<Option<String>, Error>(None),
            Some(None) => error::refuses(r, "No path was defined for working directory"@),
            Some(Some(v)) => r matches Ok(Some(s)) && s@ == v,
        },
{
    value_of(&p.chdir, "No path was defined for working directory")
}

// ---------------------------------------------------------------------------------------------
// The command that is run
// ---------------------------------------------------------------------------------------------

/// The file of `systemd-run`, unless another one is configured.
pub const SYSTEMD_PATH: &'static str = "/usr/bin/systemd-run";

/// The arguments that every use of `systemd-run` begins with: the file, its name, and the user,
/// which is the superuser at first.
pub open spec fn base_argv(file: Seq<char>, features: Features) -> Seq<Seq<char>> {
    match features.backend {
        Backend::Run0 => seq![
            file,
            "run0"@,
            "--user"@,
            "0"@,
            "--shell-prompt-prefix="@,
            "--background="@,
        ],
        _ => seq![
            file,
            "systemd-run"@,
            "--uid"@,
            "0"@,
            "--quiet"@,
            "-G"@,
            "--send-sighup"@,
        ] + (if features.expand_env {
            seq!["--expand-environment=false"@]
        } else {
            Seq::empty()
        }),
    }
}

/// Adds an argument.
fn push(argv: &mut Vec<String>, arg: &str)
    ensures
        text::views(final(argv)@) == text::views(old(argv)@).push(arg@),
{
    let s = arg.to_owned();
    let ghost before = argv@;
    argv.push(s);
    assert(text::views(argv@) =~= text::views(before).push(arg@));
}

/// The arguments that every use of `systemd-run` begins with.
pub fn build_argv(file: &str, features: Features) -> (r: Vec<String>)
    ensures
        text::views(r@) == base_argv(file@, features),
{
    let mut argv: Vec<String> = Vec::new();
    push(&mut argv, file);
    match features.backend {
        Backend::Run0 => {
            push(&mut argv, "run0");
            push(&mut argv, "--user");
            push(&mut argv, "0");
            push(&mut argv, "--shell-prompt-prefix=");
            push(&mut argv, "--background=");
        },
        _ => {
            push(&mut argv, "systemd-run");
            push(&mut argv, "--uid");
            push(&mut argv, "0");
            push(&mut argv, "--quiet");
            push(&mut argv, "-G");
            push(&mut argv, "--send-sighup");
            if features.expand_env {
                push(&mut argv, "--expand-environment=false");
            }
        },
    }
    assert(text::views(argv@) =~= base_argv(file@, features));
    argv
}

/// The value of an option that occurs with one.
pub open spec fn given_value(given: Option<Option<Seq<char>>>) -> Option<Seq<char>> {
    match given {
        Some(v) => v,
        None => None,
    }
}

/// An option with its value, if there is one.
pub open spec fn option_args(name: Seq<char>, value: Option<Seq<char>>) -> Seq<Seq<char>> {
    match value {
        Some(v) => seq![name, v],
        None => Seq::empty(),
    }
}

/// The arguments for the user, the group and the working directory that are asked for.
pub open spec fn target_argv(file: Seq<char>, p: ParsedView, features: Features) -> Seq<
    Seq<char>,
> {
    let base = base_argv(file, features);
    (match given_value(p.user) {
        Some(user) => base.update(3, user),
        None => base,
    }) + option_args(
        if features.backend == Backend::Run0 {
            "--group"@
        } else {
            "--gid"@
        },
        given_value(p.group),
    ) + option_args(
        if features.backend == Backend::Run0 {
            "--chdir"@
        } else {
            "--working-directory"@
        },
        given_value(p.chdir),
    )
}

/// The bytes of arguments.
pub open spec fn encoded(args: Seq<Seq<char>>) -> Seq<Seq<u8>> {
    args.map_values(|a: Seq<char>| encode_utf8(a))
}

/// The bytes of an argument list.
pub open spec fn arg_views(v: Seq<Vec<u8>>) -> Seq<Seq<u8>> {
    v.map_values(|a: Vec<u8>| a@)
}

/// The arguments for the directory where none was asked for: the service runs in the directory
/// of the caller, which `run0` is told, if it is known. Where a directory was asked for, or
/// `--chdir` stands among the arguments `target`, nothing is added.
pub open spec fn directory_argv(
    target: Seq<Seq<char>>,
    chdir: Option<Option<Seq<char>>>,
    cwd: Option<Seq<u8>>,
    features: Features,
) -> Seq<Seq<u8>> {
    if given_value(chdir) is Some || target.contains("--chdir"@) {
        Seq::empty()
    } else if features.backend == Backend::Run0 {
        match cwd {
            Some(dir) => seq![encode_utf8("--chdir"@), dir],
            None => Seq::empty(),
        }
    } else {
        seq![encode_utf8("--same-dir"@)]
    }
}

/// The arguments for a shell, or for a command on a terminal or not.
pub open spec fn mode_argv(shell: bool, terminal: bool, features: Features) -> Seq<Seq<char>> {
    if shell {
        if features.backend == Backend::Run0 {
            Seq::empty()
        } else {
            seq!["--shell"@, "--scope"@]
        }
    } else {
        seq![
            if terminal {
                "--pty"@
            } else {
                "--pipe"@
            },
        ] + (if features.backend == Backend::Run0 {
            Seq::empty()
        } else {
            seq!["--service-type=exec"@, "--wait"@]
        })
    }
}

/// All arguments of `systemd-run` before the environment and the command. The directory of the
/// caller need not be a text, so arguments are bytes.
pub open spec fn service_argv(
    file: Seq<char>,
    p: ParsedView,
    cwd: Option<Seq<u8>>,
    terminal: bool,
    features: Features,
) -> Seq<Seq<u8>> {
    let target = target_argv(file, p, features);
    encoded(target) + directory_argv(target, p.chdir, cwd, features) + encoded(
        mode_argv(p.shell, terminal, features),
    )
}

/// What is wrong with a request for a shell.
pub open spec fn shell_fault(p: ParsedView) -> Option<Seq<char>> {
    if p.shell && p.free.len() > 0 {
        Some("Not expecting arguments with the --shell option"@)
    } else if p.shell && p.stdin {
        Some("The --stdin option is not allowed combined with the --shell option"@)
    } else {
        None
    }
}

/// Checks a request for a shell: it has no arguments, and standard input belongs to it.
pub fn check_shell(p: &ParsedArgs) -> (r: Result<(), Error>)
    ensures
        match shell_fault(p@) {
            None => r is Ok,
            Some(message) => error::refuses(r, message),
        },
{
    if p.shell {
        if p.free.len() > 0 {
            return Err(Error::StaticMessage("Not expecting arguments with the --shell option"));
        } else if p.stdin {
            return Err(
                Error::StaticMessage(
                    "The --stdin option is not allowed combined with the --shell option",
                ),
            );
        }
    }
    Ok(())
}

/// Tells whether an argument stands among others.
fn lists(argv: &Vec<String>, arg: &str) -> (r: bool)
    ensures
        r == text::views(argv@).contains(arg@),
{
    let ghost all = text::views(argv@);
    let mut i: usize = 0;
    while i < argv.len()
        invariant
            i <= argv@.len(),
            all == text::views(argv@),
            forall|j: int| 0 <= j < i ==> all[j] != arg@,
        decreases argv.len() - i,
    {
        assert(all[i as int] == argv@[i as int]@);
        if text::same(argv[i].as_str(), arg) {
            return true;
        }
        i = i + 1;
    }
    false
}

/// Adds an option with the value of another one, if that has one.
fn push_option(argv: &mut Vec<String>, name: &str, value: Option<&str>)
    ensures
        text::views(final(argv)@) == text::views(old(argv)@) + option_args(
            name@,
            text::opt_str(value),
        ),
{
    if let Some(v) = value {
        push(argv, name);
        push(argv, v);
    }
    assert(text::views(argv@) =~= text::views(old(argv)@) + option_args(
        name@,
        text::opt_str(value),
    ));
}

/// The value of an option that occurs with one.
fn value_str<'a>(given: &'a Given) -> (r: Option<&'a str>)
    ensures
        text::opt_str(r) == given_value(given@),
{
    match given {
        Given::Value(s) => Some(s.as_str()),
        _ => None,
    }
}

/// The arguments for the user, the group and the working directory that are asked for.
fn target_args(file: &str, p: &ParsedArgs, features: Features) -> (r: Vec<String>)
    ensures
        text::views(r@) == target_argv(file@, p@, features),
{
    let run0 = match features.backend {
        Backend::Run0 => true,
        _ => false,
    };
    let mut argv = build_argv(file, features);
    let ghost base = base_argv(file@, features);
    assert(argv@.len() == base.len());
    if let Some(user) = value_str(&p.user) {
        argv.set(3, user.to_owned());
        assert(text::views(argv@) =~= base.update(3, user@));
    }
    let group_option = if run0 {
        "--group"
    } else {
        "--gid"
    };
    push_option(&mut argv, group_option, value_str(&p.group));
    let chdir_option = if run0 {
        "--chdir"
    } else {
        "--working-directory"
    };
    push_option(&mut argv, chdir_option, value_str(&p.chdir));
    argv
}

/// Adds the bytes of arguments.
fn push_encoded(argv: &mut Vec<Vec<u8>>, args: &Vec<String>)
    ensures
        arg_views(final(argv)@) == arg_views(old(argv)@) + encoded(text::views(args@)),
{
    let ghost start = arg_views(argv@);
    let ghost all = encoded(text::views(args@));
    assert(start + all.take(0) =~= start);
    let mut i: usize = 0;
    while i < args.len()
        invariant
            i <= args@.len(),
            all == encoded(text::views(args@)),
            arg_views(argv@) == start + all.take(i as int),
        decreases args.len() - i,
    {
        let bytes = args[i].as_str().to_owned().into_bytes();
        let ghost before = argv@;
        argv.push(bytes);
        proof {
            assert(all[i as int] == bytes@);
            assert(arg_views(argv@) =~= arg_views(before).push(bytes@));
            assert(start + all.take(i + 1) =~= (start + all.take(i as int)).push(all[i as int]));
        }
        i = i + 1;
    }
    assert(all.take(all.len() as int) =~= all);
}

/// The arguments for the directory where none was asked for.
fn directory_args(
    target: &Vec<String>,
    chdir: &Given,
    cwd: Option<Vec<u8>>,
    features: Features,
) -> (r: Vec<Vec<u8>>)
    ensures
        arg_views(r@) == directory_argv(text::views(target@), chdir@, text::opt_bytes(cwd), features),
{
    let ghost expected = directory_argv(
        text::views(target@),
        chdir@,
        text::opt_bytes(cwd),
        features,
    );
    let mut r: Vec<Vec<u8>> = Vec::new();
    if value_str(chdir).is_none() && !lists(target, "--chdir") {
        match features.backend {
            Backend::Run0 => {
                if let Some(dir) = cwd {
                    r.push("--chdir".to_owned().into_bytes());
                    r.push(dir);
                }
            },
            _ => {
                r.push("--same-dir".to_owned().into_bytes());
            },
        }
    }
    assert(arg_views(r@) =~= expected);
    r
}

/// Adds the arguments for a shell, or for a command on a terminal or not.
fn push_mode(argv: &mut Vec<String>, shell: bool, terminal: bool, features: Features)
    ensures
        text::views(final(argv)@) == text::views(old(argv)@) + mode_argv(shell, terminal, features),
        !shell ==> text::views(final(argv)@)[old(argv)@.len() as int] == (if terminal {
            "--pty"@
        } else {
            "--pipe"@
        }),
{
    let run0 = match features.backend {
        Backend::Run0 => true,
        _ => false,
    };
    let ghost before = text::views(argv@);
    if shell {
        if !run0 {
            push(argv, "--shell");
            push(argv, "--scope");
        }
    } else {
        if terminal {
            push(argv, "--pty");
        } else {
            push(argv, "--pipe");
        }
        if !run0 {
            push(argv, "--service-type=exec");
            push(argv, "--wait");
        }
    }
    assert(text::views(argv@) =~= before + mode_argv(shell, terminal, features));
}

/// All arguments of `systemd-run` before the environment and the command. `cwd` is the directory
/// of the caller, and `terminal` tells whether all three standard streams are terminals.
pub fn prepare_argv(
    file: &str,
    p: &ParsedArgs,
    cwd: Option<Vec<u8>>,
    terminal: bool,
    features: Features,
) -> (r: Vec<Vec<u8>>)
    ensures
        arg_views(r@) == service_argv(file@, p@, text::opt_bytes(cwd), terminal, features),
{
    let target = target_args(file, p, features);
    let mut argv: Vec<Vec<u8>> = Vec::new();
    push_encoded(&mut argv, &target);
    assert(arg_views(argv@) =~= encoded(text::views(target@)));
    let mut directory = directory_args(&target, &p.chdir, cwd, features);
    let ghost before = argv@;
    let ghost added = directory@;
    argv.append(&mut directory);
    assert(arg_views(argv@) =~= arg_views(before) + arg_views(added));
    let mut mode: Vec<String> = Vec::new();
    push_mode(&mut mode, p.shell, terminal, features);
    push_encoded(&mut argv, &mode);
    assert(text::views(mode@) =~= mode_argv(p.shell, terminal, features));
    argv
}

/// The entry `NAME=VALUE` for a variable.
pub open spec fn entry_of(var: (Seq<char>, Seq<char>)) -> Seq<char> {
    var.0 + "="@ + var.1
}

/// The entries for variables, in their order.
pub open spec fn entries_of(vars: Seq<(Seq<char>, Seq<char>)>) -> Seq<Seq<char>> {
    vars.map_values(|v: (Seq<char>, Seq<char>)| entry_of(v))
}

/// The arguments that set variables.
pub open spec fn setenv_argv(vars: Seq<(Seq<char>, Seq<char>)>) -> Seq<Seq<char>>
    decreases vars.len(),
{
    if vars.len() == 0 {
        Seq::empty()
    } else {
        setenv_argv(vars.drop_last()) + seq!["--setenv"@, entry_of(vars.last())]
    }
}

/// The command, set apart from what stands before it. A shell has none.
pub open spec fn command_argv(p: ParsedView) -> Seq<Seq<char>> {
    if p.shell {
        Seq::empty()
    } else {
        seq!["--"@] + p.free
    }
}

/// Adds all of `args`.
fn push_all(argv: &mut Vec<String>, args: &Vec<String>, from: usize)
    requires
        from <= args@.len(),
    ensures
        text::views(final(argv)@) == text::views(old(argv)@) + text::views(args@).skip(
            from as int,
        ),
{
    let ghost start = text::views(argv@);
    let ghost all = text::views(args@);
    assert(start + all.subrange(from as int, from as int) =~= start);
    let mut i: usize = from;
    while i < args.len()
        invariant
            from <= i <= args@.len(),
            all == text::views(args@),
            text::views(argv@) == start + all.subrange(from as int, i as int),
        decreases args.len() - i,
    {
        push(argv, args[i].as_str());
        proof {
            assert(all[i as int] == args@[i as int]@);
            assert(start + all.subrange(from as int, i + 1) =~= (start + all.subrange(
                from as int,
                i as int,
            )).push(all[i as int]));
        }
        i = i + 1;
    }
    assert(all.subrange(from as int, all.len() as int) =~= all.skip(from as int));
}

/// The entry `NAME=VALUE` for a variable.
fn entry(var: &EnvVar) -> (r: String)
    ensures
        r@ == entry_of(var@),
{
    joined(var.name.as_str(), "=", var.value.as_str())
}

/// Ends the arguments of `systemd-run` with the environment and the command.
pub fn finish_argv(argv: &mut Vec<Vec<u8>>, env: &EnvMap, p: &ParsedArgs)
    ensures
        arg_views(final(argv)@) == arg_views(old(argv)@) + encoded(setenv_argv(env.order()))
            + encoded(command_argv(p@)),
{
    let mut tail: Vec<String> = Vec::new();
    let ghost vars = env.order();
    assert(text::views(tail@) =~= setenv_argv(vars.take(0)));
    let mut i: usize = 0;
    while i < env.len()
        invariant
            i <= vars.len(),
            vars == env.order(),
            text::views(tail@) == setenv_argv(vars.take(i as int)),
        decreases vars.len() - i,
    {
        push(&mut tail, "--setenv");
        push(&mut tail, entry(env.at(i)).as_str());
        proof {
            let next = vars.take(i + 1);
            assert(next.drop_last() =~= vars.take(i as int));
            assert(next.last() == vars[i as int]);
            assert(text::views(tail@) =~= setenv_argv(next));
        }
        i = i + 1;
    }
    assert(vars.take(vars.len() as int) =~= vars);
    if !p.shell {
        push(&mut tail, "--");
        push_all(&mut tail, &p.free, 0);
        assert(text::views(p.free@).skip(0) =~= p@.free);
    }
    assert(text::views(tail@) =~= setenv_argv(vars) + command_argv(p@));
    let ghost before = arg_views(argv@);
    push_encoded(argv, &tail);
    assert(arg_views(argv@) =~= before + encoded(setenv_argv(vars)) + encoded(command_argv(p@)));
}

/// The command that was asked for stands at the end of the arguments, unchanged, after a `--`
/// that keeps its arguments from being read as options. What stands before it does not depend
/// on it.
pub proof fn law_command_last(
    file: Seq<char>,
    p: ParsedView,
    cwd: Option<Seq<u8>>,
    terminal: bool,
    vars: Seq<(Seq<char>, Seq<char>)>,
    features: Features,
)
    requires
        !p.shell,
    ensures
        ({
            let before = service_argv(file, p, cwd, terminal, features) + encoded(setenv_argv(vars));
            let argv = before + encoded(command_argv(p));
            let n = argv.len() - p.free.len();
            &&& n > 0
            &&& argv.skip(n) == encoded(p.free)
            &&& argv[n - 1] == encode_utf8("--"@)
            &&& argv.take(n - 1) == before
            &&& before == service_argv(
                file,
                ParsedView { free: Seq::empty(), ..p },
                cwd,
                terminal,
                features,
            ) + encoded(setenv_argv(vars))
        }),
{
    let before = service_argv(file, p, cwd, terminal, features) + encoded(setenv_argv(vars));
    let argv = before + encoded(command_argv(p));
    let n = argv.len() - p.free.len();
    assert(argv.skip(n) =~= encoded(p.free));
    assert(argv.take(n - 1) =~= before);
}

/// The user that was asked for stands in its place, behind its option, and the superuser stands
/// there if none was.
pub proof fn law_user_argument(
    file: Seq<char>,
    p: ParsedView,
    cwd: Option<Seq<u8>>,
    terminal: bool,
    features: Features,
)
    ensures
        ({
            let argv = service_argv(file, p, cwd, terminal, features);
            &&& argv.len() > 3
            &&& argv[0] == encode_utf8(file)
            &&& argv[2] == encode_utf8(
                if features.backend == Backend::Run0 {
                    "--user"@
                } else {
                    "--uid"@
                },
            )
            &&& argv[3] == encode_utf8(
                match given_value(p.user) {
                    Some(user) => user,
                    None => "0"@,
                },
            )
        }),
{
    let target = target_argv(file, p, features);
    let argv = service_argv(file, p, cwd, terminal, features);
    assert(target.len() > 3);
    assert forall|i: int| 0 <= i < 4 implies #[trigger] argv[i] == encode_utf8(target[i]) by {
        assert(encoded(target)[i] == encode_utf8(target[i]));
    }
}

/// A directory that was asked for is the one that the service is told: it stands behind its
/// option, and no other directory is named.
pub proof fn law_asked_directory(
    file: Seq<char>,
    p: ParsedView,
    cwd: Option<Seq<u8>>,
    terminal: bool,
    features: Features,
    dir: Seq<char>,
)
    requires
        p.chdir == Some(Some(dir)),
    ensures
        ({
            let target = target_argv(file, p, features);
            let n = target.len() as int;
            let argv = service_argv(file, p, cwd, terminal, features);
            &&& n >= 2
            &&& argv[n - 2] == encode_utf8(
                if features.backend == Backend::Run0 {
                    "--chdir"@
                } else {
                    "--working-directory"@
                },
            )
            &&& argv[n - 1] == encode_utf8(dir)
            &&& argv == encoded(target) + encoded(mode_argv(p.shell, terminal, features))
        }),
{
    let target = target_argv(file, p, features);
    let n = target.len() as int;
    let argv = service_argv(file, p, cwd, terminal, features);
    assert(argv =~= encoded(target) + encoded(mode_argv(p.shell, terminal, features)));
    assert(argv[n - 2] == encode_utf8(target[n - 2]));
    assert(argv[n - 1] == encode_utf8(target[n - 1]));
}

/// The shell to run: the one of the caller, else the one of the account, else `/bin/sh`.
pub open spec fn shell_of(caller: Option<Seq<char>>, account: Seq<char>) -> Seq<char> {
    if caller is Some && text::trimmed(caller->Some_0).len() > 0 {
        caller->Some_0
    } else if text::trimmed(account).len() > 0 {
        text::trimmed(account)
    } else {
        "/bin/sh"@
    }
}

/// The shell to run.
pub fn target_shell(caller: Option<&str>, account: &str) -> (r: String)
    ensures
        r@ == shell_of(text::opt_str(caller), account@),
{
    if let Some(s) = caller {
        let chars = text::chars_of(text::trim(s));
        if chars.len() > 0 {
            return s.to_owned();
        }
    }
    let s = text::trim(account);
    let chars = text::chars_of(s);
    if chars.len() > 0 {
        return s.to_owned();
    }
    "/bin/sh".to_owned()
}

/// The file of a command that runs in the scope of the caller, and its arguments. A shell is
/// told through its name that it is a login shell.
pub open spec fn scope_argv(p: ParsedView, shell: Seq<char>) -> Seq<Seq<char>> {
    if p.shell {
        seq![shell, "-"@ + path::name_in(shell)->Some_0]
    } else if p.free.len() > 0 {
        seq![p.free[0]] + p.free
    } else {
        Seq::empty()
    }
}

/// The file of a command that runs in the scope of the caller, and its arguments. A shell has to
/// be a path with a file name.
pub fn prepare_scope(p: &ParsedArgs, shell: &str) -> (r: Vec<String>)
    requires
        p@.shell ==> path::name_in(shell@) is Some,
    ensures
        text::views(r@) == scope_argv(p@, shell@),
{
    let mut argv: Vec<String> = Vec::new();
    if p.shell {
        push(&mut argv, shell);
        if let Some(name) = path::file_name(shell) {
            push(&mut argv, joined("-", name, "").as_str());
            proof {
                reveal_strlit("");
                assert("-"@ + name@ + ""@ =~= "-"@ + name@);
            }
        }
        assert(text::views(argv@) =~= scope_argv(p@, shell@));
    } else if p.free.len() > 0 {
        push(&mut argv, p.free[0].as_str());
        push_all(&mut argv, &p.free, 0);
        proof {
            assert(p@.free[0] == p.free@[0]@);
            assert(text::views(p.free@).skip(0) =~= p@.free);
            assert(text::views(argv@) =~= scope_argv(p@, shell@));
        }
    } else {
        assert(text::views(argv@) =~= scope_argv(p@, shell@));
    }
    argv
}

/// The entries of the environment of a command that runs in the scope of the caller.
pub fn environment_entries(env: &EnvMap) -> (r: Vec<String>)
    ensures
        text::views(r@) == entries_of(env.order()),
{
    let ghost vars = env.order();
    let mut out: Vec<String> = Vec::new();
    let mut i: usize = 0;
    while i < env.len()
        invariant
            i <= vars.len(),
            vars == env.order(),
            text::views(out@) == entries_of(vars.take(i as int)),
        decreases vars.len() - i,
    {
        push(&mut out, entry(env.at(i)).as_str());
        proof {
            assert(entries_of(vars.take(i + 1)) =~= entries_of(vars.take(i as int)).push(
                entry_of(vars[i as int]),
            ));
        }
        i = i + 1;
    }
    assert(vars.take(vars.len() as int) =~= vars);
    out
}

/// What stands for the target in the file of overrides.
pub open spec fn target_placeholders(target: AccountView) -> Seq<(Seq<char>, Seq<char>)> {
    seq![
        ("USER"@, target.user.name),
        ("GROUP"@, target.group.name),
        ("UID"@, text::decimal(target.user.uid as nat)),
        ("GID"@, text::decimal(target.group.gid as nat)),
    ]
}

/// What stands for the target in the file of overrides.
pub fn placeholders(target: &Account) -> (r: Vec<EnvVar>)
    ensures
        env::var_views(r@) == target_placeholders(target@),
{
    let mut v: Vec<EnvVar> = Vec::new();
    v.push(EnvVar { name: "USER".to_owned(), value: target.name().to_owned() });
    v.push(EnvVar { name: "GROUP".to_owned(), value: target.group().name().to_owned() });
    v.push(EnvVar { name: "UID".to_owned(), value: text::u32_text(target.uid()) });
    v.push(EnvVar { name: "GID".to_owned(), value: text::u32_text(target.gid()) });
    assert(env::var_views(v@) =~= target_placeholders(target@));
    v
}

// ---------------------------------------------------------------------------------------------
// The order of a run
// ---------------------------------------------------------------------------------------------

/// Where a run stands. A step that fails ends the run with its error.
#[derive(Debug, Clone, Copy, PartialEq, Eq, Structural)]
pub enum RunStage {
    /// Look up the user that was asked for.
    FindUser,
    /// Look up the group that was asked for.
    FindGroup,
    /// Show the help text.
    ShowHelp,
    /// Show the version.
    ShowVersion,
    /// Read the environment and the directory that were asked for.
    ReadRequest,
    /// Look up the caller.
    FindCaller,
    /// Look up the superuser.
    FindDefault,
    /// Put the command together.
    Prepare,
    /// Authenticate the caller for the target.
    Authenticate,
    /// Read the file of overrides.
    ReadOverrides,
    /// Add the environment of the PAM session.
    MergeSession,
    /// Complete the environment for the target.
    SetEnvironment,
    /// Run the command.
    Exec,
    /// The run is over.
    Exit,
}

/// The stage after both lookups.
pub open spec fn stage_after_lookup(p: ParsedView) -> RunStage {
    if p.help {
        RunStage::ShowHelp
    } else if p.version {
        RunStage::ShowVersion
    } else {
        RunStage::ReadRequest
    }
}

/// The first stage of a run.
pub open spec fn stage_first(p: ParsedView) -> RunStage {
    if p.user is Some {
        RunStage::FindUser
    } else if p.group is Some {
        RunStage::FindGroup
    } else {
        stage_after_lookup(p)
    }
}

/// The stage that follows one that succeeded.
pub open spec fn stage_next(stage: RunStage, p: ParsedView, features: Features) -> RunStage {
    match stage {
        RunStage::FindUser => if p.group is Some {
            RunStage::FindGroup
        } else {
            stage_after_lookup(p)
        },
        RunStage::FindGroup => stage_after_lookup(p),
        RunStage::ShowHelp => RunStage::Exit,
        RunStage::ShowVersion => RunStage::Exit,
        RunStage::ReadRequest => RunStage::FindCaller,
        RunStage::FindCaller => if p.user is Some {
            RunStage::Prepare
        } else {
            RunStage::FindDefault
        },
        RunStage::FindDefault => RunStage::Prepare,
        RunStage::Prepare => RunStage::Authenticate,
        RunStage::Authenticate => RunStage::ReadOverrides,
        RunStage::ReadOverrides => if features.session() {
            RunStage::MergeSession
        } else if features.backend == Backend::Scopex {
            RunStage::SetEnvironment
        } else {
            RunStage::Exec
        },
        RunStage::MergeSession => RunStage::SetEnvironment,
        RunStage::SetEnvironment => RunStage::Exec,
        RunStage::Exec => RunStage::Exit,
        RunStage::Exit => RunStage::Exit,
    }
}

/// The stage after `n` others that succeeded.
pub open spec fn stage_nth(n: nat, p: ParsedView, features: Features) -> RunStage
    decreases n,
{
    if n == 0 {
        stage_first(p)
    } else {
        stage_next(stage_nth((n - 1) as nat, p, features), p, features)
    }
}

/// Tells whether an option occurs.
fn occurs(given: &Given) -> (r: bool)
    ensures
        r == (given@ is Some),
{
    match given {
        Given::Absent => false,
        _ => true,
    }
}

/// The stage after both lookups.
fn after_lookup(p: &ParsedArgs) -> (r: RunStage)
    ensures
        r == stage_after_lookup(p@),
{
    if p.help {
        RunStage::ShowHelp
    } else if p.version {
        RunStage::ShowVersion
    } else {
        RunStage::ReadRequest
    }
}

/// The first stage of a run.
pub fn first_stage(p: &ParsedArgs) -> (r: RunStage)
    ensures
        r == stage_first(p@),
{
    if occurs(&p.user) {
        RunStage::FindUser
    } else if occurs(&p.group) {
        RunStage::FindGroup
    } else {
        after_lookup(p)
    }
}

/// The stage that follows one that succeeded.
pub fn next_stage(stage: RunStage, p: &ParsedArgs, features: Features) -> (r: RunStage)
    ensures
        r == stage_next(stage, p@, features),
{
    match stage {
        RunStage::FindUser => {
            if occurs(&p.group) {
                RunStage::FindGroup
            } else {
                after_lookup(p)
            }
        },
        RunStage::FindGroup => after_lookup(p),
        RunStage::ShowHelp => RunStage::Exit,
        RunStage::ShowVersion => RunStage::Exit,
        RunStage::ReadRequest => RunStage::FindCaller,
        RunStage::FindCaller => {
            if occurs(&p.user) {
                RunStage::Prepare
            } else {
                RunStage::FindDefault
            }
        },
        RunStage::FindDefault => RunStage::Prepare,
        RunStage::Prepare => RunStage::Authenticate,
        RunStage::Authenticate => RunStage::ReadOverrides,
        RunStage::ReadOverrides => {
            if features.has_session() {
                RunStage::MergeSession
            } else {
                match features.backend {
                    Backend::Scopex => RunStage::SetEnvironment,
                    _ => RunStage::Exec,
                }
            }
        },
        RunStage::MergeSession => RunStage::SetEnvironment,
        RunStage::SetEnvironment => RunStage::Exec,
        RunStage::Exec => RunStage::Exit,
        RunStage::Exit => RunStage::Exit,
    }
}

/// The stage comes after authentication.
pub open spec fn is_trusted(stage: RunStage) -> bool {
    stage == RunStage::ReadOverrides || stage == RunStage::MergeSession || stage
        == RunStage::SetEnvironment || stage == RunStage::Exec
}

/// No command is run before the caller was authenticated for the target, and neither is the file
/// of overrides read: each of these stages comes after the one that authenticates.
pub proof fn law_authenticated_first(n: nat, p: ParsedView, features: Features)
    requires
        is_trusted(stage_nth(n, p, features)),
    ensures
        exists|m: nat| m < n && #[trigger] stage_nth(m, p, features) == RunStage::Authenticate,
    decreases n,
{
    if n > 0 {
        let before = (n - 1) as nat;
        if is_trusted(stage_nth(before, p, features)) {
            law_authenticated_first(before, p, features);
            let m = choose|m: nat|
                m < before && #[trigger] stage_nth(m, p, features) == RunStage::Authenticate;
            assert(m < n && stage_nth(m, p, features) == RunStage::Authenticate);
        } else {
            assert(stage_nth(before, p, features) == RunStage::Authenticate);
        }
    }
}

/// A command line that asks for the help text or the version never gets anything run or anybody
/// authenticated.
pub proof fn law_no_run_for_help(n: nat, p: ParsedView, features: Features)
    requires
        p.help || p.version,
    ensures
        stage_nth(n, p, features) == RunStage::FindUser || stage_nth(n, p, features)
            == RunStage::FindGroup || stage_nth(n, p, features) == RunStage::ShowHelp || stage_nth(
            n,
            p,
            features,
        ) == RunStage::ShowVersion || stage_nth(n, p, features) == RunStage::Exit,
    decreases n,
{
    if n > 0 {
        law_no_run_for_help((n - 1) as nat, p, features);
    }
}

/// Every run comes to its end: after a dozen stages there is none left.
pub proof fn law_run_ends(p: ParsedView, features: Features)
    ensures
        stage_nth(12, p, features) == RunStage::Exit,
{
    reveal_with_fuel(stage_nth, 13);
}

// ---------------------------------------------------------------------------------------------
// What the decisions come to
// ---------------------------------------------------------------------------------------------

/// The first `--` parts the options from the command. It belongs to neither, and a later one
/// belongs to the command.
pub proof fn law_separator(before: Seq<Seq<char>>, after: Seq<Seq<char>>)
    requires
        !before.contains("--"@),
    ensures
        options_part(before + seq!["--"@] + after) == before,
        command_part(before + seq!["--"@] + after) == after,
        options_part(before) == before,
        command_part(before) == Seq::<Seq<char>>::empty(),
{
    let args = before + seq!["--"@] + after;
    lemma_separator(before, after);
    assert(args.take(before.len() as int) =~= before);
    assert(args.skip(before.len() as int + 1) =~= after);
    assert(before.take(before.len() as int) =~= before);
}

proof fn lemma_separator(before: Seq<Seq<char>>, after: Seq<Seq<char>>)
    requires
        !before.contains("--"@),
    ensures
        separator(before + seq!["--"@] + after) == before.len(),
        separator(before) == before.len(),
    decreases before.len(),
{
    let args = before + seq!["--"@] + after;
    if before.len() == 0 {
        assert(args[0] == "--"@);
    } else {
        assert(args[0] == before[0]);
        assert(before.contains(before[0]));
        let rest = before.drop_first();
        assert(args.drop_first() =~= rest + seq!["--"@] + after);
        assert forall|i: int| 0 <= i < rest.len() implies rest[i] != "--"@ by {
            assert(before.contains(before[i + 1]));
        }
        lemma_separator(rest, after);
    }
}

/// Each field of a request comes from the option of its name: a flag is set if the option occurs,
/// and of several values the first one counts.
pub proof fn law_request_fields(
    values: Map<Seq<char>, Seq<Option<Seq<char>>>>,
    free: Seq<Seq<char>>,
)
    ensures
        ({
            let p = parsed_args(values, free);
            &&& p.free == free
            &&& p.shell <==> values["shell"@].len() > 0
            &&& p.help <==> values["help"@].len() > 0
            &&& p.version <==> values["version"@].len() > 0
            &&& p.stdin <==> values["stdin"@].len() > 0
            &&& p.non_interactive <==> values["non-interactive"@].len() > 0
            &&& p.user is Some <==> values["user"@].len() > 0
            &&& p.user is Some ==> p.user->Some_0 == values["user"@][0]
            &&& p.group is Some <==> values["group"@].len() > 0
            &&& p.group is Some ==> p.group->Some_0 == values["group"@][0]
            &&& p.env is Some <==> values["env"@].len() > 0
            &&& p.env is Some ==> p.env->Some_0 == values["env"@][0]
            &&& p.preserve is Some <==> values["preserve-env"@].len() > 0
            &&& p.preserve is Some ==> p.preserve->Some_0 == values["preserve-env"@][0]
            &&& p.chdir is Some <==> values["chdir"@].len() > 0
            &&& p.chdir is Some ==> p.chdir->Some_0 == values["chdir"@][0]
        }),
{
}

/// A command line of a command alone asks for nothing else.
pub proof fn law_command_alone(free: Seq<Seq<char>>)
    ensures
        ({
            let p = no_request(free);
            &&& p.free == free
            &&& !p.shell && !p.help && !p.version && !p.stdin && !p.non_interactive
            &&& p.user is None && p.group is None && p.env is None && p.preserve is None
            &&& p.chdir is None
        }),
{
}

/// Which fault a refused command line has: several special requests, a special request with a
/// command, or no request at all.
pub proof fn law_request_faults(p: ParsedView)
    ensures
        (p.shell && p.help) || (p.shell && p.version) || (p.help && p.version) ==> request_fault(p)
            == Some("Options -s, -h and -v are mutually exclusive"@),
        !p.shell && !p.help && !p.version && p.free.len() == 0 ==> request_fault(p) == Some(
            "No command specified"@,
        ),
        p.free.len() > 0 && ((p.shell && !p.help && !p.version) || (!p.shell && p.help
            && !p.version) || (!p.shell && !p.help && p.version)) ==> request_fault(p) == Some(
            "This option does not accept command arguments"@,
        ),
        !p.shell && !p.help && !p.version && p.free.len() > 0 ==> request_fault(p) is None,
        p.free.len() == 0 && ((p.shell && !p.help && !p.version) || (!p.shell && p.help
            && !p.version) || (!p.shell && !p.help && p.version)) ==> request_fault(p) is None,
{
}

/// A shell takes no arguments, and the terminal has to be its input.
pub proof fn law_shell_faults(p: ParsedView)
    ensures
        !p.shell ==> shell_fault(p) is None,
        p.shell && p.free.len() > 0 ==> shell_fault(p) == Some(
            "Not expecting arguments with the --shell option"@,
        ),
        p.shell && p.free.len() == 0 && p.stdin ==> shell_fault(p) == Some(
            "The --stdin option is not allowed combined with the --shell option"@,
        ),
        p.shell && p.free.len() == 0 && !p.stdin ==> shell_fault(p) is None,
{
}

/// The version names the program, its number and the features that it was made with.
pub proof fn law_version_line(version: Seq<char>, features: Features)
    ensures
        ({
            let line = version_line(version, features);
            let name = "runas "@ + version;
            match (features.use_pam, features.backend) {
                (false, Backend::SystemdRun) => line == name,
                (false, Backend::Run0) => line == name + " "@ + "RUN0"@,
                (false, Backend::Scopex) => line == name + " "@ + "SCOPEX"@,
                (true, Backend::SystemdRun) => line == name + " "@ + "PAM"@,
                (true, Backend::Run0) => line == name + " "@ + ("PAM,"@ + "RUN0"@),
                (true, Backend::Scopex) => line == name + " "@ + ("PAM,"@ + "SCOPEX"@),
            }
        }),
{
}

/// A variable that is set on the command line has the text behind the first `=` as its value.
/// Without one, or without any text, there is no variable to set.
pub proof fn law_set_variable(
    p: ParsedView,
    caller: Seq<(Seq<char>, Seq<char>)>,
    name: Seq<char>,
    value: Seq<char>,
)
    requires
        !name.contains('='),
    ensures
        p.preserve is None && p.env == Some(Some(name + seq!['='] + value)) ==> asked_variables(
            p,
            caller,
        ) == Ok::<Map<Seq<char>, Seq<char>>, Seq<char>>(map![name => value]),
        p.preserve is None && p.env is None ==> asked_variables(p, caller) == Ok::<
            Map<Seq<char>, Seq<char>>,
            Seq<char>,
        >(Map::empty()),
        p.env == Some(None::<Seq<char>>) ==> asked_variables(p, caller) == Err::<
            Map<Seq<char>, Seq<char>>,
            Seq<char>,
        >("Missing environment variable"@),
        p.env == Some(Some(name)) ==> asked_variables(p, caller) == Err::<
            Map<Seq<char>, Seq<char>>,
            Seq<char>,
        >("Missing environment list"@),
        p.env is None && p.preserve == Some(None::<Seq<char>>) ==> asked_variables(p, caller)
            == Err::<Map<Seq<char>, Seq<char>>, Seq<char>>("Missing environment list"@),
{
    text::law_cut(name, '=', value);
    assert(Map::<Seq<char>, Seq<char>>::empty().insert(name, value) =~= map![name => value]);
}

/// A variable whose name stands in the list of those to preserve has the value that it has for
/// the caller, if it has one there, and comes before one that is set on the command line. No
/// other variable is touched.
pub proof fn law_preserved_variables(
    p: ParsedView,
    caller: Seq<(Seq<char>, Seq<char>)>,
    list: Seq<char>,
    key: Seq<char>,
)
    requires
        p.preserve == Some(Some(list)),
        set_variable(p.env) is Ok,
    ensures
        asked_variables(p, caller) matches Ok(full) && ({
            let names = text::pieces(list, ',');
            let set = set_variable(p.env)->Ok_0;
            let found = env::lookup(caller, key);
            if key.len() > 0 && found is Some && exists|i: int|
                0 <= i < names.len() && text::trimmed(#[trigger] names[i]) == key {
                full.contains_key(key) && full[key] == found->Some_0
            } else {
                &&& full.contains_key(key) == set.contains_key(key)
                &&& set.contains_key(key) ==> full[key] == set[key]
            }
        }),
{
    lemma_preserved(set_variable(p.env)->Ok_0, text::pieces(list, ','), caller, key);
}

proof fn lemma_preserved(
    env: Map<Seq<char>, Seq<char>>,
    names: Seq<Seq<char>>,
    caller: Seq<(Seq<char>, Seq<char>)>,
    key: Seq<char>,
)
    ensures
        ({
            let full = with_preserved(env, names, caller);
            let found = env::lookup(caller, key);
            if key.len() > 0 && found is Some && exists|i: int|
                0 <= i < names.len() && text::trimmed(#[trigger] names[i]) == key {
                full.contains_key(key) && full[key] == found->Some_0
            } else {
                &&& full.contains_key(key) == env.contains_key(key)
                &&& env.contains_key(key) ==> full[key] == env[key]
            }
        }),
    decreases names.len(),
{
    if names.len() > 0 {
        let before = names.drop_last();
        let n = before.len() as int;
        lemma_preserved(env, before, caller, key);
        assert(names[n] == names.last());
        if exists|i: int| 0 <= i < before.len() && text::trimmed(#[trigger] before[i]) == key {
            let i = choose|i: int|
                0 <= i < before.len() && text::trimmed(#[trigger] before[i]) == key;
            assert(text::trimmed(names[i]) == key);
        } else if exists|i: int| 0 <= i < names.len() && text::trimmed(#[trigger] names[i]) == key {
            let i = choose|i: int|
                0 <= i < names.len() && text::trimmed(#[trigger] names[i]) == key;
            if i < n {
                assert(text::trimmed(before[i]) == key);
            }
        }
    }
}

/// The arguments of a service that name it and its user, one by one. A group and a directory that
/// were asked for follow, each behind its option.
pub proof fn law_target_arguments(file: Seq<char>, p: ParsedView, features: Features)
    ensures
        ({
            let argv = target_argv(file, p, features);
            let run0 = features.backend == Backend::Run0;
            let k: int = if run0 {
                6
            } else if features.expand_env {
                8
            } else {
                7
            };
            let g: int = if p.group matches Some(Some(_)) {
                2
            } else {
                0
            };
            let d: int = if p.chdir matches Some(Some(_)) {
                2
            } else {
                0
            };
            &&& argv.len() == k + g + d
            &&& argv[0] == file
            &&& run0 ==> argv[1] == "run0"@ && argv[2] == "--user"@ && argv[4]
                == "--shell-prompt-prefix="@ && argv[5] == "--background="@
            &&& !run0 ==> argv[1] == "systemd-run"@ && argv[2] == "--uid"@ && argv[4]
                == "--quiet"@ && argv[5] == "-G"@ && argv[6] == "--send-sighup"@
            &&& !run0 && features.expand_env ==> argv[7] == "--expand-environment=false"@
            &&& p.user matches Some(Some(user)) ==> argv[3] == user
            &&& !(p.user matches Some(Some(_))) ==> argv[3] == "0"@
            &&& p.group matches Some(Some(group)) ==> argv[k] == (if run0 {
                "--group"@
            } else {
                "--gid"@
            }) && argv[k + 1] == group
            &&& p.chdir matches Some(Some(dir)) ==> argv[k + g] == (if run0 {
                "--chdir"@
            } else {
                "--working-directory"@
            }) && argv[k + g + 1] == dir
        }),
{
}

proof fn lemma_encoded_contains(args: Seq<Seq<char>>, arg: Seq<char>)
    ensures
        encoded(args).contains(encode_utf8(arg)) <==> args.contains(arg),
{
    if args.contains(arg) {
        let i = args.index_of(arg);
        assert(encoded(args)[i] == encode_utf8(arg));
    }
    if encoded(args).contains(encode_utf8(arg)) {
        let i = encoded(args).index_of(encode_utf8(arg));
        encode_utf8_decode_utf8(args[i]);
        encode_utf8_decode_utf8(arg);
        assert(args[i] == arg);
    }
}

/// A service for a command gets a terminal of its own if all three standard streams are
/// terminals, and the streams of the caller otherwise, never both: among the arguments behind
/// those for the target and the directory stands `--pty` or `--pipe`.
pub proof fn law_terminal_mode(
    file: Seq<char>,
    p: ParsedView,
    cwd: Option<Seq<u8>>,
    terminal: bool,
    features: Features,
)
    requires
        !p.shell,
    ensures
        ({
            let target = target_argv(file, p, features);
            let n = target.len() + directory_argv(target, p.chdir, cwd, features).len();
            let added = service_argv(file, p, cwd, terminal, features).skip(n as int);
            &&& added.contains(encode_utf8("--pty"@)) <==> terminal
            &&& added.contains(encode_utf8("--pipe"@)) <==> !terminal
            &&& !added.contains(encode_utf8("--shell"@))
            &&& !added.contains(encode_utf8("--scope"@))
            &&& added.contains(encode_utf8("--wait"@)) <==> features.backend != Backend::Run0
            &&& added.contains(encode_utf8("--service-type=exec"@)) <==> features.backend
                != Backend::Run0
            &&& added.len() == (if features.backend == Backend::Run0 {
                1int
            } else {
                3
            })
        }),
{
    let target = target_argv(file, p, features);
    let n = target.len() + directory_argv(target, p.chdir, cwd, features).len();
    let mode = mode_argv(p.shell, terminal, features);
    let added = service_argv(file, p, cwd, terminal, features).skip(n as int);
    assert(added =~= encoded(mode));
    lemma_mode_literals();
    lemma_encoded_contains(mode, "--pty"@);
    lemma_encoded_contains(mode, "--pipe"@);
    lemma_encoded_contains(mode, "--shell"@);
    lemma_encoded_contains(mode, "--scope"@);
    lemma_encoded_contains(mode, "--wait"@);
    lemma_encoded_contains(mode, "--service-type=exec"@);
    assert(mode[0] == "--pty"@ || mode[0] == "--pipe"@);
    if features.backend != Backend::Run0 {
        assert(mode[1] == "--service-type=exec"@);
        assert(mode[2] == "--wait"@);
    }
}

proof fn lemma_mode_literals()
    ensures
        "--pty"@ != "--pipe"@,
        "--pty"@ != "--wait"@,
        "--pty"@ != "--shell"@,
        "--pty"@ != "--scope"@,
        "--pty"@ != "--service-type=exec"@,
        "--pipe"@ != "--wait"@,
        "--pipe"@ != "--shell"@,
        "--pipe"@ != "--scope"@,
        "--pipe"@ != "--service-type=exec"@,
        "--wait"@ != "--shell"@,
        "--wait"@ != "--scope"@,
        "--wait"@ != "--service-type=exec"@,
        "--shell"@ != "--scope"@,
        "--shell"@ != "--service-type=exec"@,
        "--scope"@ != "--service-type=exec"@,
{
    reveal_strlit("--pty");
    reveal_strlit("--pipe");
    reveal_strlit("--wait");
    reveal_strlit("--shell");
    reveal_strlit("--scope");
    reveal_strlit("--service-type=exec");
    assert("--pty"@.len() == 5);
    assert("--pipe"@.len() == 6 && "--pipe"@[2] == 'p');
    assert("--wait"@.len() == 6 && "--wait"@[2] == 'w');
    assert("--shell"@.len() == 7 && "--shell"@[3] == 'h');
    assert("--scope"@.len() == 7 && "--scope"@[3] == 'c');
}

/// A service for a shell runs in a scope of the caller, which `run0` does by itself; it neither
/// gets a terminal nor is it waited for.
pub proof fn law_shell_mode(
    file: Seq<char>,
    p: ParsedView,
    cwd: Option<Seq<u8>>,
    terminal: bool,
    features: Features,
)
    requires
        p.shell,
    ensures
        ({
            let target = target_argv(file, p, features);
            let n = target.len() + directory_argv(target, p.chdir, cwd, features).len();
            let added = service_argv(file, p, cwd, terminal, features).skip(n as int);
            if features.backend == Backend::Run0 {
                added == Seq::<Seq<u8>>::empty()
            } else {
                added == seq![encode_utf8("--shell"@), encode_utf8("--scope"@)]
            }
        }),
{
    let target = target_argv(file, p, features);
    let n = target.len() + directory_argv(target, p.chdir, cwd, features).len();
    let added = service_argv(file, p, cwd, terminal, features).skip(n as int);
    assert(added =~= encoded(mode_argv(p.shell, terminal, features)));
}

/// Without a directory that was asked for, a service starts in the directory of the caller:
/// `run0` is told which one that is, if it is known, and `systemd-run` that it stays the same.
pub proof fn law_same_directory(
    file: Seq<char>,
    p: ParsedView,
    cwd: Option<Seq<u8>>,
    terminal: bool,
    features: Features,
)
    requires
        !(p.chdir matches Some(Some(_))),
        !target_argv(file, p, features).contains("--chdir"@),
    ensures
        ({
            let argv = service_argv(file, p, cwd, terminal, features);
            let n = target_argv(file, p, features).len() as int;
            let m = mode_argv(p.shell, terminal, features).len() as int;
            if features.backend != Backend::Run0 {
                argv.len() == n + 1 + m && argv[n] == encode_utf8("--same-dir"@)
            } else if cwd is Some {
                &&& argv.len() == n + 2 + m
                &&& argv[n] == encode_utf8("--chdir"@)
                &&& argv[n + 1] == cwd->Some_0
            } else {
                argv.len() == n + m
            }
        }),
{
}

/// Each variable of the environment is handed to a service as `NAME=VALUE` behind its option,
/// in the order of the environment.
pub proof fn law_setenv(vars: Seq<(Seq<char>, Seq<char>)>, i: int)
    ensures
        setenv_argv(vars).len() == 2 * vars.len(),
        0 <= i < vars.len() ==> setenv_argv(vars)[2 * i] == "--setenv"@ && setenv_argv(vars)[2 * i
            + 1] == vars[i].0 + seq!['='] + vars[i].1,
    decreases vars.len(),
{
    if vars.len() > 0 {
        law_setenv(vars.drop_last(), i);
        reveal_strlit("=");
        assert("="@ =~= seq!['=']);
    }
}

/// An entry of the environment gives the variable back when it is cut at its first `=`.
pub proof fn law_entries(vars: Seq<(Seq<char>, Seq<char>)>, i: int)
    ensures
        entries_of(vars).len() == vars.len(),
        0 <= i < vars.len() && !vars[i].0.contains('=') ==> text::cut(entries_of(vars)[i], '=')
            == Some((vars[i].0, vars[i].1)),
        0 <= i < vars.len() ==> entries_of(vars)[i] == vars[i].0 + seq!['='] + vars[i].1,
{
    if 0 <= i < vars.len() {
        reveal_strlit("=");
        assert("="@ =~= seq!['=']);
        if !vars[i].0.contains('=') {
            text::law_cut(vars[i].0, '=', vars[i].1);
        }
    }
}

/// The shell of the caller is run as it is written, unless it is blank. Then the shell of the
/// account is run, without the white space around it, and `/bin/sh` if that is blank too.
pub proof fn law_shell(
    caller: Seq<char>,
    lead: Seq<char>,
    shell: Seq<char>,
    trail: Seq<char>,
    given: Option<Seq<char>>,
)
    requires
        forall|i: int| 0 <= i < lead.len() ==> text::is_space(#[trigger] lead[i]),
        forall|i: int| 0 <= i < trail.len() ==> text::is_space(#[trigger] trail[i]),
        shell.len() > 0 ==> !text::is_space(shell[0]) && !text::is_space(shell.last()),
        given is Some ==> (forall|i: int|
            0 <= i < given->Some_0.len() ==> text::is_space(#[trigger] given->Some_0[i])),
    ensures
        (exists|i: int| 0 <= i < caller.len() && !text::is_space(#[trigger] caller[i]))
            ==> shell_of(Some(caller), lead + shell + trail) == caller,
        shell.len() > 0 ==> shell_of(given, lead + shell + trail) == shell,
        shell.len() == 0 ==> shell_of(given, lead + shell + trail) == "/bin/sh"@,
{
    let none = Seq::<char>::empty();
    text::law_trimmed(lead, shell, trail);
    if exists|i: int| 0 <= i < caller.len() && !text::is_space(#[trigger] caller[i]) {
        let i = choose|i: int| 0 <= i < caller.len() && !text::is_space(#[trigger] caller[i]);
        text::lemma_trimmed_keeps(caller, i);
    }
    if given is Some {
        text::law_trimmed(given->Some_0, none, none);
        assert(given->Some_0 + none + none =~= given->Some_0);
    }
}

/// A command that is run directly is looked up by its own name and gets the arguments that were
/// written. A shell is run as a login shell, which a hyphen before its name stands for.
pub proof fn law_scope_arguments(p: ParsedView, shell: Seq<char>, name: Seq<char>)
    ensures
        !p.shell && p.free.len() > 0 ==> scope_argv(p, shell).len() == p.free.len() + 1
            && scope_argv(p, shell)[0] == p.free[0] && scope_argv(p, shell).skip(1) == p.free,
        p.shell && path::name_in(shell) == Some(name) ==> scope_argv(p, shell) == seq![
            shell,
            seq!['-'] + name,
        ],
{
    if !p.shell && p.free.len() > 0 {
        assert(scope_argv(p, shell).skip(1) =~= p.free);
    }
    reveal_strlit("-");
    assert("-"@ =~= seq!['-']);
}

/// The placeholders of the file of overrides stand for the names and the numbers of the target
/// user and group.
pub proof fn law_placeholder_values(target: AccountView)
    ensures
        ({
            let values = target_placeholders(target);
            &&& values.len() == 4
            &&& env::lookup(values, "USER"@) == Some(target.user.name)
            &&& env::lookup(values, "GROUP"@) == Some(target.group.name)
            &&& env::lookup(values, "UID"@) == Some(text::decimal(target.user.uid as nat))
            &&& env::lookup(values, "GID"@) == Some(text::decimal(target.group.gid as nat))
        }),
{
    let values = target_placeholders(target);
    reveal_strlit("USER");
    reveal_strlit("GROUP");
    reveal_strlit("UID");
    reveal_strlit("GID");
    assert("USER"@.len() == 4 && "GROUP"@.len() == 5 && "UID"@.len() == 3 && "GID"@.len() == 3);
    assert("UID"@[0] == 'U' && "GID"@[0] == 'G');
    env::law_lookup(values, "USER"@, 0);
    env::law_lookup(values, "GROUP"@, 1);
    env::law_lookup(values, "UID"@, 2);
    env::law_lookup(values, "GID"@, 3);
}

/// The stages of a run, one by one. The user and the group that were asked for are looked up
/// first; then come the help text or the version, if one of them was asked for, and nothing
/// else. Otherwise the request is read, the caller and a user that was not named are looked up,
/// the command is put together, the caller authenticates, the overrides are read, and the
/// environment of a command that is run directly is completed, with that of its session if there
/// is one, before it is run.
pub proof fn law_run_order(p: ParsedView, features: Features)
    ensures
        ({
            let u: nat = if p.user is Some {
                1
            } else {
                0
            };
            let g: nat = if p.group is Some {
                1
            } else {
                0
            };
            let d: nat = if p.user is Some {
                0
            } else {
                1
            };
            let n = u + g;
            let m = n + 2 + d;
            &&& p.user is Some ==> stage_nth(0, p, features) == RunStage::FindUser
            &&& p.group is Some ==> stage_nth(u, p, features) == RunStage::FindGroup
            &&& p.help ==> stage_nth(n, p, features) == RunStage::ShowHelp && stage_nth(
                n + 1,
                p,
                features,
            ) == RunStage::Exit
            &&& !p.help && p.version ==> stage_nth(n, p, features) == RunStage::ShowVersion
                && stage_nth(n + 1, p, features) == RunStage::Exit
            &&& !p.help && !p.version ==> {
                &&& stage_nth(n, p, features) == RunStage::ReadRequest
                &&& stage_nth(n + 1, p, features) == RunStage::FindCaller
                &&& p.user is None ==> stage_nth(n + 2, p, features) == RunStage::FindDefault
                &&& stage_nth(m, p, features) == RunStage::Prepare
                &&& stage_nth(m + 1, p, features) == RunStage::Authenticate
                &&& stage_nth(m + 2, p, features) == RunStage::ReadOverrides
                &&& match (features.backend, features.use_pam) {
                    (Backend::Scopex, true) => {
                        &&& stage_nth(m + 3, p, features) == RunStage::MergeSession
                        &&& stage_nth(m + 4, p, features) == RunStage::SetEnvironment
                        &&& stage_nth(m + 5, p, features) == RunStage::Exec
                        &&& stage_nth(m + 6, p, features) == RunStage::Exit
                    },
                    (Backend::Scopex, false) => {
                        &&& stage_nth(m + 3, p, features) == RunStage::SetEnvironment
                        &&& stage_nth(m + 4, p, features) == RunStage::Exec
                        &&& stage_nth(m + 5, p, features) == RunStage::Exit
                    },
                    (_, _) => {
                        &&& stage_nth(m + 3, p, features) == RunStage::Exec
                        &&& stage_nth(m + 4, p, features) == RunStage::Exit
                    },
                }
            }
        }),
{
    reveal_with_fuel(stage_nth, 13);
}

/// The options of the program, by their short and their long names, and what the help text says
/// of them. Those that stand for somebody, for something or for a place take a value, and the
/// others do not.
pub proof fn law_options()
    ensures
        ({
            let groups = scheme_groups();
            &&& groups.len() == 10
            &&& groups[0].0 == "u"@ && groups[0].1 == "user"@ && groups[0].4
            &&& groups[1].0 == "g"@ && groups[1].1 == "group"@ && groups[1].4
            &&& groups[2].0 == "s"@ && groups[2].1 == "shell"@ && !groups[2].4
            &&& groups[3].0 == "h"@ && groups[3].1 == "help"@ && !groups[3].4
            &&& groups[4].0 == "n"@ && groups[4].1 == "non-interactive"@ && !groups[4].4
            &&& groups[5].0 == "S"@ && groups[5].1 == "stdin"@ && !groups[5].4
            &&& groups[6].0 == "v"@ && groups[6].1 == "version"@ && !groups[6].4
            &&& groups[7].0.len() == 0 && groups[7].1 == "env"@ && groups[7].4
            &&& groups[8].0.len() == 0 && groups[8].1 == "preserve-env"@ && groups[8].4
            &&& groups[9].0 == "D"@ && groups[9].1 == "chdir"@ && groups[9].4
            &&& groups[0].2 == "Run process as the specified user name or ID"@
            &&& groups[1].2 == "Run process as the specified group name or ID"@
            &&& groups[2].2 == "Run $SHELL as the target user"@
            &&& groups[3].2 == "Display this help screen"@
            &&& groups[4].2 == "Non-interactive mode, don't prompt for password"@
            &&& groups[5].2 == "Read password from standard input"@
            &&& groups[6].2 == "Display version information and exit"@
            &&& groups[7].2 == "Set environment variable"@ && groups[7].3 == "ENV"@
            &&& groups[8].2 == "Comma separated list of variables to preserve"@
            &&& groups[8].3 == "LIST"@
            &&& groups[9].2 == "Run the command in the specified directory"@
            &&& groups[0].3 == "USER"@ && groups[1].3 == "GROUP"@ && groups[9].3 == "PATH"@
            &&& forall|i: int| 2 <= i < 7 ==> (#[trigger] groups[i]).3.len() == 0
        }),
{
}

/// Where an argument for the target already reads like the option for a directory, no directory
/// is added to it.
pub proof fn law_named_directory(
    file: Seq<char>,
    p: ParsedView,
    cwd: Option<Seq<u8>>,
    terminal: bool,
    features: Features,
)
    requires
        target_argv(file, p, features).contains("--chdir"@),
    ensures
        service_argv(file, p, cwd, terminal, features) == encoded(target_argv(file, p, features))
            + encoded(mode_argv(p.shell, terminal, features)),
{
    assert(service_argv(file, p, cwd, terminal, features) =~= encoded(
        target_argv(file, p, features),
    ) + encoded(mode_argv(p.shell, terminal, features)));
}

} // verus!
