//! The search for the file of a command.

use vstd::prelude::*;
use vstd::string::*;

use crate::modules::error::{IoError, IoKind};
use crate::shared::{EACCES, ENOENT, ENOTDIR};
use crate::text;

verus! {

/// `name` in the directory `dir`.
pub open spec fn in_dir(dir: Seq<char>, name: Seq<char>) -> Seq<char> {
    if dir.len() > 0 && dir.last() == '/' {
        dir + name
    } else {
        dir + "/"@ + name
    }
}

/// The files `name` in the directories of a list; empty directories are passed over.
pub open spec fn in_dirs(dirs: Seq<Seq<char>>, name: Seq<char>) -> Seq<Seq<char>>
    decreases dirs.len(),
{
    if dirs.len() == 0 {
        Seq::empty()
    } else if dirs.last().len() == 0 {
        in_dirs(dirs.drop_last(), name)
    } else {
        in_dirs(dirs.drop_last(), name).push(in_dir(dirs.last(), name))
    }
}

/// The files `name` in the directories of the search paths `paths`, one path after the other.
pub open spec fn in_paths(paths: Seq<Seq<char>>, name: Seq<char>) -> Seq<Seq<char>>
    decreases paths.len(),
{
    if paths.len() == 0 {
        Seq::empty()
    } else {
        in_paths(paths.drop_last(), name) + in_dirs(text::pieces(paths.last(), ':'), name)
    }
}

/// The search paths among entries `NAME=VALUE` of an environment, in their order.
pub open spec fn path_entries(entries: Seq<Seq<char>>) -> Seq<Seq<char>>
    decreases entries.len(),
{
    if entries.len() == 0 {
        Seq::empty()
    } else if text::begins(entries.last(), "PATH="@) {
        path_entries(entries.drop_last()).push(entries.last().skip("PATH="@.len() as int))
    } else {
        path_entries(entries.drop_last())
    }
}

/// The search path of the caller, if there is one, before others.
pub open spec fn all_paths(caller: Option<Seq<char>>, others: Seq<Seq<char>>) -> Seq<Seq<char>> {
    match caller {
        Some(path) => seq![path] + others,
        None => others,
    }
}

/// The file `name` in the directory `dir`.
fn join(dir: &str, name: &str) -> (r: String)
    ensures
        r@ == in_dir(dir@, name@),
{
    let v = text::chars_of(dir);
    let mut s = dir.to_owned();
    if v.len() == 0 || v[v.len() - 1] != '/' {
        s.append("/");
    }
    s.append(name);
    s
}

/// Adds the files `name` in the directories of the search path `path`.
fn push_candidates(out: &mut Vec<String>, path: &str, name: &str)
    ensures
        text::views(final(out)@) == text::views(old(out)@) + in_dirs(
            text::pieces(path@, ':'),
            name@,
        ),
{
    let dirs = text::split(path, ':');
    let ghost all = text::pieces(path@, ':');
    let ghost start = text::views(out@);
    assert(text::views(out@) =~= start + in_dirs(all.take(0), name@));
    let mut i: usize = 0;
    while i < dirs.len()
        invariant
            i <= dirs@.len(),
            dirs@.map_values(|p: &str| p@) == all,
            text::views(out@) == start + in_dirs(all.take(i as int), name@),
        decreases dirs.len() - i,
    {
        let dir = dirs[i];
        proof {
            assert(all[i as int] == dirs@.map_values(|p: &str| p@)[i as int]);
            let next = all.take(i + 1);
            assert(next.drop_last() =~= all.take(i as int));
            assert(next.last() == dir@);
        }
        let chars = text::chars_of(dir);
        if chars.len() > 0 {
            let candidate = join(dir, name);
            let ghost before = out@;
            out.push(candidate);
            proof {
                assert(text::views(out@) =~= text::views(before).push(candidate@));
            }
        }
        i = i + 1;
    }
    assert(all.take(all.len() as int) =~= all);
}

/// The files to try for the command `name`: those in the search path of the caller, then those
/// in the search paths of `entries`, from the first or from the last on.
fn candidates(name: &str, caller: Option<&str>, entries: &Vec<String>, last_first: bool) -> (r: Vec<
    String,
>)
    ensures
        text::views(r@) == in_paths(
            all_paths(
                text::opt_str(caller),
                path_entries(
                    if last_first {
                        text::views(entries@).reverse()
                    } else {
                        text::views(entries@)
                    },
                ),
            ),
            name@,
        ),
{
    let mut out: Vec<String> = Vec::new();
    let ghost order = if last_first {
        text::views(entries@).reverse()
    } else {
        text::views(entries@)
    };
    let ghost first = text::opt_str(caller);
    if let Some(path) = caller {
        push_candidates(&mut out, path, name);
        proof {
            let one = seq![path@];
            assert(one.drop_last() =~= Seq::<Seq<char>>::empty());
            assert(in_paths(one.drop_last(), name@) =~= Seq::<Seq<char>>::empty());
            assert(one.last() == path@);
            assert(in_paths(one, name@) =~= in_dirs(text::pieces(path@, ':'), name@));
        }
    }
    proof {
        assert(path_entries(order.take(0)) =~= Seq::<Seq<char>>::empty());
        assert(all_paths(first, path_entries(order.take(0))) =~= match first {
            Some(path) => seq![path],
            None => Seq::empty(),
        });
        assert(text::views(out@) =~= in_paths(
            all_paths(first, path_entries(order.take(0))),
            name@,
        ));
    }
    let n = entries.len();
    let mut i: usize = 0;
    while i < n
        invariant
            n == entries@.len(),
            i <= n,
            order == (if last_first {
                text::views(entries@).reverse()
            } else {
                text::views(entries@)
            }),
            text::views(out@) == in_paths(
                all_paths(first, path_entries(order.take(i as int))),
                name@,
            ),
        decreases n - i,
    {
        let k = if last_first {
            n - 1 - i
        } else {
            i
        };
        let entry = entries[k].as_str();
        proof {
            assert(order[i as int] == text::views(entries@)[k as int]);
            let next = order.take(i + 1);
            assert(next.drop_last() =~= order.take(i as int));
            assert(next.last() == entry@);
        }
        if let Some(path) = text::strip_prefix(entry, "PATH=") {
            push_candidates(&mut out, path, name);
            proof {
                let before = all_paths(first, path_entries(order.take(i as int)));
                let after = all_paths(first, path_entries(order.take(i + 1)));
                assert(after =~= before.push(path@));
                assert(after.drop_last() =~= before);
            }
        }
        i = i + 1;
    }
    assert(order.take(n as int) =~= order);
    out
}

/// How the look at one candidate ended.
#[derive(Debug, Clone, Copy, PartialEq, Eq, Structural)]
pub enum Probe {
    /// It is what was searched for.
    Found,
    /// It may not be used.
    Denied,
    /// It is not there.
    Missing,
    /// The look at it failed.
    Fatal,
}

/// A search through candidates.
#[derive(Debug)]
pub struct PathSearch {
    candidates: Vec<String>,
    next: usize,
    denied: bool,
}

/// What a `PathSearch` says.
#[verifier::ext_equal]
pub struct SearchView {
    /// The candidates.
    pub candidates: Seq<Seq<char>>,
    /// How many of them were looked at.
    pub next: int,
    /// One of them may not be used.
    pub denied: bool,
}

impl View for PathSearch {
    type V = SearchView;

    closed spec fn view(&self) -> SearchView {
        SearchView {
            candidates: text::views(self.candidates@),
            next: self.next as int,
            denied: self.denied,
        }
    }
}

/// A search that begins.
pub open spec fn search_start(candidates: Seq<Seq<char>>) -> SearchView {
    SearchView { candidates, next: 0, denied: false }
}

/// A search after one more look: a find and a failure end it where it stands.
pub open spec fn search_step(s: SearchView, probe: Probe) -> SearchView {
    match probe {
        Probe::Found => s,
        Probe::Fatal => s,
        Probe::Missing => SearchView { next: s.next + 1, ..s },
        Probe::Denied => SearchView { next: s.next + 1, denied: true, ..s },
    }
}

/// The error number of a search that found nothing.
pub open spec fn search_error(s: SearchView) -> i32 {
    if s.denied {
        EACCES
    } else {
        ENOENT
    }
}

/// A search after looks that ended as `probes` say.
pub open spec fn search_after(s: SearchView, probes: Seq<Probe>) -> SearchView
    decreases probes.len(),
{
    if probes.len() == 0 {
        s
    } else {
        search_step(search_after(s, probes.drop_last()), probes.last())
    }
}

/// A search finds the first candidate that can be used and passes over all before it, and a
/// search without a find reports that access was denied if and only if one of the candidates
/// was there and could not be used.
pub proof fn law_search(candidates: Seq<Seq<char>>, probes: Seq<Probe>)
    requires
        forall|i: int|
            0 <= i < probes.len() ==> #[trigger] probes[i] == Probe::Missing || probes[i]
                == Probe::Denied,
    ensures
        ({
            let s = search_after(search_start(candidates), probes);
            &&& s.candidates == candidates
            &&& s.next == probes.len()
            &&& s.denied <==> probes.contains(Probe::Denied)
            &&& search_step(s, Probe::Found) == s
            &&& search_error(s) == if probes.contains(Probe::Denied) {
                EACCES
            } else {
                ENOENT
            }
        }),
    decreases probes.len(),
{
    if probes.len() > 0 {
        let before = probes.drop_last();
        law_search(candidates, before);
        assert(probes =~= before.push(probes.last()));
        assert(probes[probes.len() - 1] == probes.last());
        if before.contains(Probe::Denied) {
            let i = choose|i: int| 0 <= i < before.len() && before[i] == Probe::Denied;
            assert(probes[i] == Probe::Denied);
        }
        if probes.contains(Probe::Denied) && probes.last() != Probe::Denied {
            let i = choose|i: int| 0 <= i < probes.len() && probes[i] == Probe::Denied;
            assert(before[i] == Probe::Denied);
        }
    }
}

/// Several search paths are searched one after the other: the candidates of the first ones come
/// before those of the others, and nothing is found if nothing is found in either. Then access
/// was denied if it was denied in one of them.
pub proof fn law_paths_in_turn(
    first: Seq<Seq<char>>,
    others: Seq<Seq<char>>,
    name: Seq<char>,
    probes: Seq<Probe>,
    more: Seq<Probe>,
)
    requires
        probes.len() == in_paths(first, name).len(),
        forall|i: int|
            0 <= i < probes.len() ==> #[trigger] probes[i] == Probe::Missing || probes[i]
                == Probe::Denied,
        forall|i: int|
            0 <= i < more.len() ==> #[trigger] more[i] == Probe::Missing || more[i]
                == Probe::Denied,
    ensures
        in_paths(first + others, name) == in_paths(first, name) + in_paths(others, name),
        ({
            let one = search_after(search_start(in_paths(first, name)), probes);
            let other = search_after(search_start(in_paths(others, name)), more);
            let both = search_after(search_start(in_paths(first + others, name)), probes + more);
            &&& both.next == one.next + other.next
            &&& search_error(both) == if search_error(one) == EACCES {
                EACCES
            } else {
                search_error(other)
            }
        }),
{
    lemma_in_paths(first, others, name);
    let all = probes + more;
    assert forall|i: int| 0 <= i < all.len() implies #[trigger] all[i] == Probe::Missing || all[i]
        == Probe::Denied by {
        if i < probes.len() {
            assert(all[i] == probes[i]);
        } else {
            assert(all[i] == more[i - probes.len()]);
        }
    }
    law_search(in_paths(first, name), probes);
    law_search(in_paths(others, name), more);
    law_search(in_paths(first + others, name), all);
    if probes.contains(Probe::Denied) {
        let i = choose|i: int| 0 <= i < probes.len() && probes[i] == Probe::Denied;
        assert(all[i] == Probe::Denied);
    }
    if more.contains(Probe::Denied) {
        let i = choose|i: int| 0 <= i < more.len() && more[i] == Probe::Denied;
        assert(all[probes.len() + i] == Probe::Denied);
    }
    if all.contains(Probe::Denied) {
        let i = choose|i: int| 0 <= i < all.len() && all[i] == Probe::Denied;
        if i < probes.len() {
            assert(probes[i] == Probe::Denied);
        } else {
            assert(more[i - probes.len()] == Probe::Denied);
        }
    }
}

proof fn lemma_in_paths(first: Seq<Seq<char>>, others: Seq<Seq<char>>, name: Seq<char>)
    ensures
        in_paths(first + others, name) == in_paths(first, name) + in_paths(others, name),
    decreases others.len(),
{
    let all = first + others;
    if others.len() == 0 {
        assert(all =~= first);
        assert(in_paths(others, name) =~= Seq::<Seq<char>>::empty());
    } else {
        lemma_in_paths(first, others.drop_last(), name);
        assert(all.drop_last() =~= first + others.drop_last());
        assert(all.last() == others.last());
        assert(in_paths(all, name) =~= in_paths(first, name) + in_paths(others, name));
    }
}

/// How the look at a file with this result ended.
pub open spec fn io_probe(result: Result<(), IoError>) -> Probe {
    match result {
        Ok(_) => Probe::Found,
        Err(e) => if e.kind == IoKind::PermissionDenied {
            Probe::Denied
        } else if e.kind == IoKind::NotFound || e.raw == Some(ENOTDIR) {
            Probe::Missing
        } else {
            Probe::Fatal
        },
    }
}

/// How the attempt to run a file ended, which comes back only with an error number.
pub open spec fn exec_probe(errno: i32) -> Probe {
    if errno == ENOENT || errno == ENOTDIR {
        Probe::Missing
    } else if errno == EACCES {
        Probe::Denied
    } else {
        Probe::Fatal
    }
}

impl PathSearch {
    #[verifier::type_invariant]
    closed spec fn valid(self) -> bool {
        self.next <= self.candidates@.len()
    }

    /// Begins a search through `candidates`.
    fn new(candidates: Vec<String>) -> (r: Self)
        ensures
            r@ == search_start(text::views(candidates@)),
    {
        PathSearch { candidates, next: 0, denied: false }
    }

    /// The candidate to look at now.
    pub fn current(&self) -> (r: Option<&str>)
        ensures
            match r {
                Some(s) => 0 <= self@.next < self@.candidates.len() && s@
                    == self@.candidates[self@.next],
                None => self@.next == self@.candidates.len(),
            },
    {
        proof {
            use_type_invariant(self);
        }
        if self.next < self.candidates.len() {
            assert(self@.candidates[self.next as int] == self.candidates@[self.next as int]@);
            Some(self.candidates[self.next].as_str())
        } else {
            None
        }
    }

    /// Passes over the current candidate.
    fn pass(&mut self, denied: bool)
        requires
            old(self)@.next < old(self)@.candidates.len(),
        ensures
            final(self)@ == search_step(
                old(self)@,
                if denied {
                    Probe::Denied
                } else {
                    Probe::Missing
                },
            ),
    {
        proof {
            use_type_invariant(&*self);
        }
        let n = self.candidates.len();
        assert(self.next < n);
        self.next = self.next + 1;
        if denied {
            self.denied = true;
        }
    }

    /// Goes on after the look at the current candidate: a find is returned, and so is an error
    /// that ends the search.
    pub fn inspected(&mut self, result: Result<(), IoError>) -> (r: Result<
        Option<String>,
        IoError,
    >)
        requires
            old(self)@.next < old(self)@.candidates.len(),
        ensures
            final(self)@ == search_step(old(self)@, io_probe(result)),
            match io_probe(result) {
                Probe::Found => r matches Ok(Some(s)) && s@
                    == old(self)@.candidates[old(self)@.next],
                Probe::Fatal => r is Err && result is Err && r->Err_0 == result->Err_0,
                _ => r == Ok::<Option<String>, IoError>(None),
            },
    {
        match result {
            Ok(_) => match self.current() {
                Some(s) => Ok(Some(s.to_owned())),
                None => Ok(None),
            },
            Err(e) => {
                let denied = match e.kind {
                    IoKind::PermissionDenied => true,
                    _ => false,
                };
                let missing = match e.kind {
                    IoKind::NotFound => true,
                    _ => match e.raw {
                        Some(n) => n == ENOTDIR,
                        None => false,
                    },
                };
                if denied || missing {
                    self.pass(denied);
                    Ok(None)
                } else {
                    Err(e)
                }
            },
        }
    }

    /// Goes on after the current candidate could not be run: an error that ends the search is
    /// returned.
    pub fn not_run(&mut self, errno: i32) -> (r: Result<(), i32>)
        requires
            old(self)@.next < old(self)@.candidates.len(),
        ensures
            final(self)@ == search_step(old(self)@, exec_probe(errno)),
            r == (if exec_probe(errno) == Probe::Fatal {
                Err::<(), i32>(errno)
            } else {
                Ok(())
            }),
    {
        if errno == ENOENT || errno == ENOTDIR {
            self.pass(false);
            Ok(())
        } else if errno == EACCES {
            self.pass(true);
            Ok(())
        } else {
            Err(errno)
        }
    }

    /// The error number of a search that found nothing.
    pub fn exhausted(&self) -> (r: i32)
        ensures
            r == search_error(self@),
    {
        if self.denied {
            EACCES
        } else {
            ENOENT
        }
    }
}

/// How the file of a command is found.
#[derive(Debug)]
pub enum FindPlan {
    /// This is the file, if it can be used.
    Inspect(String),
    /// The file is the one that this path leads to, if it can be used.
    Canonicalize(String),
    /// It is searched for.
    Search(PathSearch),
}

/// What a `FindPlan` says.
#[verifier::ext_equal]
pub enum FindView {
    /// See `FindPlan::Inspect`.
    Inspect(Seq<char>),
    /// See `FindPlan::Canonicalize`.
    Canonicalize(Seq<char>),
    /// See `FindPlan::Search`.
    Search(SearchView),
}

impl View for FindPlan {
    type V = FindView;

    open spec fn view(&self) -> FindView {
        match *self {
            FindPlan::Inspect(s) => FindView::Inspect(s@),
            FindPlan::Canonicalize(s) => FindView::Canonicalize(s@),
            FindPlan::Search(s) => FindView::Search(s@),
        }
    }
}

/// How the file of the command `cmd` is found: an absolute path is taken as it is, another path
/// is resolved, and a name is searched for, in the search path of the caller and then in those
/// of `entries`, of which the last comes first.
pub open spec fn find_plan(
    cmd: Seq<char>,
    caller: Option<Seq<char>>,
    entries: Seq<Seq<char>>,
) -> FindView {
    if cmd.len() > 0 && cmd[0] == '/' {
        FindView::Inspect(cmd)
    } else if cmd.contains('/') {
        FindView::Canonicalize(cmd)
    } else {
        FindView::Search(
            search_start(in_paths(all_paths(caller, path_entries(entries.reverse())), cmd)),
        )
    }
}

/// Decides how to find the file of the command `cmd`. `caller` is the search path of the caller,
/// and `extra_envp` are more entries of an environment.
pub fn find_executable(cmd: &str, caller: Option<&str>, extra_envp: &Vec<String>) -> (r: FindPlan)
    ensures
        r@ == find_plan(cmd@, text::opt_str(caller), text::views(extra_envp@)),
{
    let v = text::chars_of(cmd);
    if v.len() > 0 && v[0] == '/' {
        return FindPlan::Inspect(cmd.to_owned());
    }
    if text::has_char(cmd, '/') {
        return FindPlan::Canonicalize(cmd.to_owned());
    }
    FindPlan::Search(PathSearch::new(candidates(cmd, caller, extra_envp, true)))
}

/// How a command is run: a path as it is, a name through a search.
#[derive(Debug)]
pub enum RunPlan {
    /// Run this file.
    Direct,
    /// Try candidates.
    Search(PathSearch),
}

/// The candidates for running the command `cmd`; there are none for a path. Unlike the search for
/// a file, this one goes through `entries` from the first on.
pub open spec fn run_plan(
    cmd: Seq<char>,
    caller: Option<Seq<char>>,
    entries: Seq<Seq<char>>,
) -> Option<SearchView> {
    if cmd.contains('/') {
        None
    } else {
        Some(search_start(in_paths(all_paths(caller, path_entries(entries)), cmd)))
    }
}

/// Decides how to run the command `cmd`. `caller` is the search path of the caller, and `envp`
/// is the environment of the command.
pub fn execvpe(cmd: &str, caller: Option<&str>, envp: &Vec<String>) -> (r: RunPlan)
    ensures
        match r {
            RunPlan::Direct => run_plan(cmd@, text::opt_str(caller), text::views(envp@)) is None,
            RunPlan::Search(s) => run_plan(cmd@, text::opt_str(caller), text::views(envp@)) == Some(s@),
        },
{
    if text::has_char(cmd, '/') {
        return RunPlan::Direct;
    }
    RunPlan::Search(PathSearch::new(candidates(cmd, caller, envp, false)))
}

/// A file can be used as a command: it is a regular file that somebody may execute.
pub open spec fn executable(is_file: bool, mode: u32) -> bool {
    is_file && mode & 0o111 != 0
}

/// Checks that a file can be used as a command.
pub fn inspect_candidate(is_file: bool, mode: u32) -> (r: Result<(), i32>)
    ensures
        r == (if executable(is_file, mode) {
            Ok::<(), i32>(())
        } else {
            Err(EACCES)
        }),
{
    if !is_file {
        return Err(EACCES);
    } else if mode & 0o111 == 0 {
        return Err(EACCES);
    }
    Ok(())
}

/// The last of `parts` that stands for something: neither nothing nor the same directory.
pub open spec fn last_part(parts: Seq<Seq<char>>) -> Option<Seq<char>>
    decreases parts.len(),
{
    if parts.len() == 0 {
        None
    } else if parts.last().len() == 0 || parts.last() == "."@ {
        last_part(parts.drop_last())
    } else {
        Some(parts.last())
    }
}

/// The name of the file that a path leads to; there is none if the path ends in the directory
/// above.
pub open spec fn name_in(path: Seq<char>) -> Option<Seq<char>> {
    match last_part(text::pieces(path, '/')) {
        Some(part) => if part == ".."@ {
            None
        } else {
            Some(part)
        },
        None => None,
    }
}

/// The name of the file that a path leads to.
pub fn file_name<'a>(path: &'a str) -> (r: Option<&'a str>)
    ensures
        text::opt_str(r) == name_in(path@),
{
    let parts = text::split(path, '/');
    let ghost all = text::pieces(path@, '/');
    let n = parts.len();
    let mut i: usize = n;
    assert(all.take(n as int) =~= all);
    while i > 0
        invariant
            n == parts@.len(),
            i <= n,
            parts@.map_values(|p: &str| p@) == all,
            last_part(all.take(i as int)) == last_part(all),
            name_in(path@) == (match last_part(all) {
                Some(part) => if part == ".."@ {
                    None
                } else {
                    Some(part)
                },
                None => None,
            }),
        decreases i,
    {
        let part = parts[i - 1];
        proof {
            assert(all[i - 1] == parts@.map_values(|p: &str| p@)[i - 1]);
            assert(all.take(i as int).drop_last() =~= all.take(i - 1));
            assert(all.take(i as int).last() == part@);
        }
        let chars = text::chars_of(part);
        if chars.len() > 0 && !text::same(part, ".") {
            if text::same(part, "..") {
                return None;
            }
            return Some(part);
        }
        i = i - 1;
    }
    None
}

// ---------------------------------------------------------------------------------------------
// What the searches come to
// ---------------------------------------------------------------------------------------------

/// A file in a directory has one slash between the two, which the directory may bring along.
pub proof fn law_in_dir(dir: Seq<char>, name: Seq<char>)
    ensures
        in_dir(dir.push('/'), name) == dir + seq!['/'] + name,
        dir.len() == 0 || dir.last() != '/' ==> in_dir(dir, name) == dir + seq!['/'] + name,
{
    reveal_strlit("/");
    assert("/"@ =~= seq!['/']);
    assert(dir.push('/') + name =~= dir + seq!['/'] + name);
}

proof fn lemma_in_dirs(first: Seq<Seq<char>>, more: Seq<Seq<char>>, name: Seq<char>)
    ensures
        in_dirs(first + more, name) == in_dirs(first, name) + in_dirs(more, name),
    decreases more.len(),
{
    if more.len() == 0 {
        assert(first + more =~= first);
        assert(in_dirs(first, name) + in_dirs(more, name) =~= in_dirs(first, name));
    } else {
        assert((first + more).drop_last() =~= first + more.drop_last());
        lemma_in_dirs(first, more.drop_last(), name);
        if more.last().len() > 0 {
            assert((in_dirs(first, name) + in_dirs(more.drop_last(), name)).push(
                in_dir(more.last(), name),
            ) =~= in_dirs(first, name) + in_dirs(more, name));
        }
    }
}

/// A search path is a list of directories with colons between them. The name is looked for in
/// each of them, in their order, and an empty one is passed over.
pub proof fn law_candidates(dir: Seq<char>, rest: Seq<char>, name: Seq<char>)
    requires
        !dir.contains(':'),
    ensures
        dir.len() > 0 ==> in_paths(seq![dir], name) == seq![in_dir(dir, name)],
        dir.len() == 0 ==> in_paths(seq![dir], name) == Seq::<Seq<char>>::empty(),
        in_paths(seq![dir + seq![':'] + rest], name) == in_paths(seq![dir], name) + in_paths(
            seq![rest],
            name,
        ),
{
    let none = Seq::<Seq<char>>::empty();
    let path = dir + seq![':'] + rest;
    text::law_pieces(dir, ':', rest);
    lemma_in_dirs(seq![dir], text::pieces(rest, ':'), name);
    assert(seq![dir].drop_last() =~= none);
    assert(seq![rest].drop_last() =~= none);
    assert(seq![path].drop_last() =~= none);
    assert(in_paths(none, name) == none);
    assert(in_dirs(none, name) == none);
    assert(none + in_dirs(seq![dir], name) =~= in_dirs(seq![dir], name));
    assert(none + in_dirs(text::pieces(rest, ':'), name) =~= in_dirs(
        text::pieces(rest, ':'),
        name,
    ));
    assert(none + in_dirs(text::pieces(path, ':'), name) =~= in_dirs(
        text::pieces(path, ':'),
        name,
    ));
    assert(none.push(in_dir(dir, name)) =~= seq![in_dir(dir, name)]);
}

/// The search paths in an environment are the values of its entries for `PATH`, in their order.
pub proof fn law_path_entries(entries: Seq<Seq<char>>, entry: Seq<char>, path: Seq<char>)
    ensures
        path_entries(Seq::empty()) == Seq::<Seq<char>>::empty(),
        path_entries(entries.push(seq!['P', 'A', 'T', 'H', '='] + path)) == path_entries(
            entries,
        ).push(path),
        !text::begins(entry, seq!['P', 'A', 'T', 'H', '=']) ==> path_entries(entries.push(entry))
            == path_entries(entries),
{
    reveal_strlit("PATH=");
    let prefix = seq!['P', 'A', 'T', 'H', '='];
    assert("PATH="@ =~= prefix);
    let whole = prefix + path;
    assert(entries.push(whole).drop_last() =~= entries);
    assert(entries.push(entry).drop_last() =~= entries);
    assert(whole.take(5) =~= prefix);
    assert(whole.skip(5) =~= path);
}

/// Where a command is looked for: an absolute path is taken as it is, another path is resolved,
/// and a plain name is looked for in the search path of the caller first and then in those of
/// the environment, the last one first.
pub proof fn law_find_plan(cmd: Seq<char>, path: Seq<char>, entries: Seq<Seq<char>>)
    ensures
        cmd.len() > 0 && cmd[0] == '/' ==> find_plan(cmd, Some(path), entries)
            == FindView::Inspect(cmd) && find_plan(cmd, None, entries) == FindView::Inspect(cmd),
        cmd.contains('/') && cmd[0] != '/' ==> find_plan(cmd, Some(path), entries)
            == FindView::Canonicalize(cmd) && find_plan(cmd, None, entries)
            == FindView::Canonicalize(cmd),
        !cmd.contains('/') ==> {
            &&& find_plan(cmd, Some(path), entries) matches FindView::Search(s) && s.next == 0
                && !s.denied && s.candidates == in_paths(seq![path], cmd) + in_paths(
                path_entries(entries.reverse()),
                cmd,
            )
            &&& find_plan(cmd, None, entries) matches FindView::Search(s) && s.next == 0
                && !s.denied && s.candidates == in_paths(path_entries(entries.reverse()), cmd)
        },
{
    lemma_in_paths(seq![path], path_entries(entries.reverse()), cmd);
    if cmd.len() > 0 {
        assert(cmd.contains(cmd[0]));
    }
}

/// How a command is run: one with a slash as it is, and a plain name from the search path of the
/// caller first and then from those of its environment, in their order.
pub proof fn law_run_plan(cmd: Seq<char>, path: Seq<char>, entries: Seq<Seq<char>>)
    ensures
        cmd.contains('/') ==> run_plan(cmd, Some(path), entries) is None && run_plan(
            cmd,
            None,
            entries,
        ) is None,
        !cmd.contains('/') ==> {
            &&& run_plan(cmd, Some(path), entries) matches Some(s) && s.next == 0 && !s.denied
                && s.candidates == in_paths(seq![path], cmd) + in_paths(path_entries(entries), cmd)
            &&& run_plan(cmd, None, entries) matches Some(s) && s.next == 0 && !s.denied
                && s.candidates == in_paths(path_entries(entries), cmd)
        },
{
    lemma_in_paths(seq![path], path_entries(entries), cmd);
}

/// What a failure says of a candidate: where it is missing or may not be used the search goes
/// on, and any other failure ends it.
pub proof fn law_probes(e: IoError, errno: i32)
    ensures
        io_probe(Ok(())) == Probe::Found,
        io_probe(Err(e)) == Probe::Denied <==> e.kind == IoKind::PermissionDenied,
        io_probe(Err(e)) == Probe::Missing <==> e.kind == IoKind::NotFound || (e.raw == Some(20i32)
            && e.kind != IoKind::PermissionDenied),
        io_probe(Err(e)) != Probe::Found,
        exec_probe(errno) == Probe::Missing <==> errno == 2 || errno == 20,
        exec_probe(errno) == Probe::Denied <==> errno == 13,
        exec_probe(errno) != Probe::Found,
{
}

/// A file can be run if it is a regular one and its owner, its group or others may run it.
pub proof fn law_executable(is_file: bool, mode: u32)
    ensures
        executable(is_file, mode) <==> is_file && (mode & 0x40 != 0 || mode & 0x8 != 0 || mode & 0x1
            != 0),
{
    assert(mode & 0o111 != 0 <==> (mode & 0x40 != 0 || mode & 0x8 != 0 || mode & 0x1 != 0))
        by (bit_vector);
}

/// The name in a path is what stands behind its last slash. A slash at the end and a part that
/// is one dot do not count, and two dots name no file.
pub proof fn law_file_name(dir: Seq<char>, name: Seq<char>)
    requires
        name.len() > 0,
        !name.contains('/'),
        name != seq!['.'],
        name != seq!['.', '.'],
    ensures
        name_in(name) == Some(name),
        name_in(dir + seq!['/'] + name) == Some(name),
        name_in(dir + seq!['/']) == name_in(dir),
        name_in(dir + seq!['/'] + seq!['.']) == name_in(dir),
        name_in(dir + seq!['/'] + seq!['.', '.']) is None,
        name_in(Seq::empty()) is None,
{
    let none = Seq::<char>::empty();
    reveal_strlit(".");
    reveal_strlit("..");
    assert("."@ =~= seq!['.']);
    assert(".."@ =~= seq!['.', '.']);
    assert(".."@.len() == 2 && "."@.len() == 1);
    text::law_pieces(name, '/', none);
    text::law_pieces(none, '/', none);
    text::law_last_piece(dir, '/', name);
    text::law_last_piece(dir, '/', none);
    text::law_last_piece(dir, '/', seq!['.']);
    text::law_last_piece(dir, '/', seq!['.', '.']);
    assert(dir + seq!['/'] + none =~= dir + seq!['/']);
    let parts = text::pieces(dir, '/');
    assert(parts.push(name).drop_last() =~= parts);
    assert(parts.push(none).drop_last() =~= parts);
    assert(parts.push(seq!['.']).drop_last() =~= parts);
    assert(seq![none].drop_last() =~= Seq::<Seq<char>>::empty());
    assert(last_part(seq![none].drop_last()) is None);
}

} // verus!
