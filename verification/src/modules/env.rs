//! Environment variables: which of them a run keeps, which it sets for the target user, and
//! which it reads from the file of overrides.

use vstd::prelude::*;
use vstd::string::*;

use crate::modules::error;
use crate::modules::error::Error;
use crate::modules::user::{Account, UserView};
use crate::text;

verus! {

// ---------------------------------------------------------------------------------------------
// Variables by name
// ---------------------------------------------------------------------------------------------

/// A variable: its name and its value.
pub struct EnvVar {
    /// The name.
    pub name: String,
    /// The value.
    pub value: String,
}

impl View for EnvVar {
    type V = (Seq<char>, Seq<char>);

    open spec fn view(&self) -> (Seq<char>, Seq<char>) {
        (self.name@, self.value@)
    }
}

/// The names and values of a list of variables.
pub open spec fn var_views(v: Seq<EnvVar>) -> Seq<(Seq<char>, Seq<char>)> {
    v.map_values(|e: EnvVar| e@)
}

/// The value of the first variable with the name `name`.
pub open spec fn lookup(vars: Seq<(Seq<char>, Seq<char>)>, name: Seq<char>) -> Option<Seq<char>>
    decreases vars.len(),
{
    if vars.len() == 0 {
        None
    } else if vars[0].0 == name {
        Some(vars[0].1)
    } else {
        lookup(vars.drop_first(), name)
    }
}

/// Finds the first variable with the name `name` in `vars`.
pub fn find_var<'a>(vars: &'a Vec<EnvVar>, name: &str) -> (r: Option<&'a str>)
    ensures
        match r {
            Some(value) => lookup(var_views(vars@), name@) == Some(value@),
            None => lookup(var_views(vars@), name@) is None,
        },
{
    let ghost all = var_views(vars@);
    assert(all.skip(0) =~= all);
    let mut i: usize = 0;
    while i < vars.len()
        invariant
            i <= vars@.len(),
            all == var_views(vars@),
            lookup(all, name@) == lookup(all.skip(i as int), name@),
        decreases vars.len() - i,
    {
        assert(all.skip(i as int)[0] == vars@[i as int]@);
        if text::same(vars[i].name.as_str(), name) {
            return Some(vars[i].value.as_str());
        }
        assert(all.skip(i as int).drop_first() =~= all.skip(i + 1));
        i = i + 1;
    }
    None
}

/// Variables by name. Each name occurs once, and the variables keep the order in which their
/// names were first set.
pub struct EnvMap {
    vars: Vec<EnvVar>,
}

impl EnvMap {
    /// The variables in their order.
    pub closed spec fn order(self) -> Seq<(Seq<char>, Seq<char>)> {
        var_views(self.vars@)
    }

    /// Each name occurs once.
    pub open spec fn wf(self) -> bool {
        forall|i: int, j: int|
            0 <= i < j < self.order().len() ==> (#[trigger] self.order()[i]).0 != (
            #[trigger] self.order()[j]).0
    }
}

/// The variables of a list, by name.
pub open spec fn by_name(vars: Seq<(Seq<char>, Seq<char>)>) -> Map<Seq<char>, Seq<char>>
    decreases vars.len(),
{
    if vars.len() == 0 {
        Map::empty()
    } else {
        by_name(vars.drop_last()).insert(vars.last().0, vars.last().1)
    }
}

impl View for EnvMap {
    type V = Map<Seq<char>, Seq<char>>;

    open spec fn view(&self) -> Map<Seq<char>, Seq<char>> {
        by_name(self.order())
    }
}

/// A name is known if and only if it occurs in the list.
pub proof fn lemma_by_name_dom(vars: Seq<(Seq<char>, Seq<char>)>)
    ensures
        forall|name: Seq<char>| #[trigger]
            by_name(vars).contains_key(name) <==> exists|i: int|
                0 <= i < vars.len() && (#[trigger] vars[i]).0 == name,
    decreases vars.len(),
{
    if vars.len() > 0 {
        let before = vars.drop_last();
        lemma_by_name_dom(before);
        assert forall|name: Seq<char>| #[trigger]
            by_name(vars).contains_key(name) <==> exists|i: int|
                0 <= i < vars.len() && (#[trigger] vars[i]).0 == name by {
            if by_name(before).contains_key(name) {
                let i = choose|i: int| 0 <= i < before.len() && (#[trigger] before[i]).0 == name;
                assert(vars[i].0 == name);
            }
            if exists|i: int| 0 <= i < vars.len() && (#[trigger] vars[i]).0 == name {
                let i = choose|i: int| 0 <= i < vars.len() && (#[trigger] vars[i]).0 == name;
                if i < before.len() {
                    assert(before[i].0 == name);
                }
            }
            if name == vars.last().0 {
                assert(vars[vars.len() - 1].0 == name);
            }
        }
    }
}

/// Where each name occurs once, every variable of the list has its value by name.
pub proof fn lemma_by_name_value(vars: Seq<(Seq<char>, Seq<char>)>, i: int)
    requires
        0 <= i < vars.len(),
        forall|j: int, k: int|
            0 <= j < k < vars.len() ==> (#[trigger] vars[j]).0 != (#[trigger] vars[k]).0,
    ensures
        by_name(vars).contains_key(vars[i].0),
        by_name(vars)[vars[i].0] == vars[i].1,
    decreases vars.len(),
{
    let before = vars.drop_last();
    if i < before.len() {
        assert forall|j: int, k: int| 0 <= j < k < before.len() implies (#[trigger] before[j]).0
            != (#[trigger] before[k]).0 by {
            assert(vars[j].0 != vars[k].0);
        }
        lemma_by_name_value(before, i);
        assert(before[i] == vars[i]);
        assert(vars[i].0 != vars[vars.len() - 1].0);
    }
}

/// Setting the value of the variable at position `i` sets it by name.
proof fn lemma_by_name_update(vars: Seq<(Seq<char>, Seq<char>)>, i: int, value: Seq<char>)
    requires
        0 <= i < vars.len(),
        forall|j: int, k: int|
            0 <= j < k < vars.len() ==> (#[trigger] vars[j]).0 != (#[trigger] vars[k]).0,
    ensures
        by_name(vars.update(i, (vars[i].0, value))) == by_name(vars).insert(vars[i].0, value),
    decreases vars.len(),
{
    let name = vars[i].0;
    let new = vars.update(i, (name, value));
    let before = vars.drop_last();
    if i == vars.len() - 1 {
        assert(new.drop_last() =~= before);
        assert(by_name(new) =~= by_name(vars).insert(name, value));
    } else {
        assert forall|j: int, k: int| 0 <= j < k < before.len() implies (#[trigger] before[j]).0
            != (#[trigger] before[k]).0 by {
            assert(vars[j].0 != vars[k].0);
        }
        lemma_by_name_update(before, i, value);
        assert(new.drop_last() =~= before.update(i, (before[i].0, value)));
        assert(name != vars[vars.len() - 1].0);
        assert(by_name(new) =~= by_name(vars).insert(name, value));
    }
}

/// A name that is new goes to the end, another keeps its place.
pub open spec fn placed(
    vars: Seq<(Seq<char>, Seq<char>)>,
    name: Seq<char>,
    value: Seq<char>,
) -> Seq<(Seq<char>, Seq<char>)> {
    if exists|i: int| 0 <= i < vars.len() && (#[trigger] vars[i]).0 == name {
        let i = choose|i: int| 0 <= i < vars.len() && (#[trigger] vars[i]).0 == name;
        vars.update(i, (name, value))
    } else {
        vars.push((name, value))
    }
}

impl EnvMap {
    /// No variables.
    pub fn new() -> (r: Self)
        ensures
            r.wf(),
            r@ == Map::<Seq<char>, Seq<char>>::empty(),
            r.order() == Seq::<(Seq<char>, Seq<char>)>::empty(),
    {
        let r = EnvMap { vars: Vec::new() };
        assert(r.order() =~= Seq::<(Seq<char>, Seq<char>)>::empty());
        r
    }

    /// How many variables there are.
    pub fn len(&self) -> (r: usize)
        ensures
            r == self.order().len(),
    {
        self.vars.len()
    }

    /// The variable at a position.
    pub fn at(&self, i: usize) -> (r: &EnvVar)
        requires
            i < self.order().len(),
        ensures
            r@ == self.order()[i as int],
    {
        &self.vars[i]
    }

    /// The position of a name, or the number of variables.
    fn position(&self, name: &str) -> (r: usize)
        ensures
            r <= self.order().len(),
            r < self.order().len() ==> self.order()[r as int].0 == name@,
            r < self.order().len() <==> self@.contains_key(name@),
            r == self.order().len() ==> forall|i: int|
                0 <= i < self.order().len() ==> (#[trigger] self.order()[i]).0 != name@,
    {
        proof {
            lemma_by_name_dom(self.order());
        }
        let mut i: usize = 0;
        while i < self.vars.len()
            invariant
                i <= self.vars@.len(),
                self.order().len() == self.vars@.len(),
                forall|j: int| 0 <= j < i ==> (#[trigger] self.order()[j]).0 != name@,
                forall|n: Seq<char>| #[trigger]
                    self@.contains_key(n) <==> exists|j: int|
                        0 <= j < self.order().len() && (#[trigger] self.order()[j]).0 == n,
            decreases self.vars.len() - i,
        {
            assert(self.order()[i as int] == self.vars@[i as int]@);
            if text::same(self.vars[i].name.as_str(), name) {
                return i;
            }
            i = i + 1;
        }
        i
    }

    /// Tells whether the variable `name` is set.
    pub fn contains(&self, name: &str) -> (r: bool)
        ensures
            r == self@.contains_key(name@),
    {
        self.position(name) < self.vars.len()
    }

    /// The value of the variable `name`.
    pub fn get(&self, name: &str) -> (r: Option<&str>)
        requires
            self.wf(),
        ensures
            match r {
                Some(value) => self@.contains_key(name@) && self@[name@] == value@,
                None => !self@.contains_key(name@),
            },
    {
        let i = self.position(name);
        if i < self.vars.len() {
            proof {
                lemma_by_name_value(self.order(), i as int);
            }
            Some(self.vars[i].value.as_str())
        } else {
            None
        }
    }

    /// Sets the variable `name`.
    pub fn insert(&mut self, name: String, value: String)
        requires
            old(self).wf(),
        ensures
            final(self).wf(),
            final(self)@ == old(self)@.insert(name@, value@),
            final(self).order() == placed(old(self).order(), name@, value@),
    {
        let ghost before = self.order();
        let i = self.position(name.as_str());
        if i < self.vars.len() {
            let ghost n = name@;
            let ghost v = value@;
            proof {
                lemma_by_name_update(before, i as int, v);
                let k = choose|k: int| 0 <= k < before.len() && (#[trigger] before[k]).0 == n;
                assert(before[k].0 == before[i as int].0);
                assert(k == i);
            }
            self.vars.set(i, EnvVar { name, value });
            assert(self.order() =~= before.update(i as int, (n, v)));
        } else {
            let ghost n = name@;
            let ghost v = value@;
            self.vars.push(EnvVar { name, value });
            assert(self.order() =~= before.push((n, v)));
            assert(self.order().drop_last() =~= before);
        }
    }

    /// Sets the variable `name` unless it is set already.
    pub fn insert_missing(&mut self, name: &str, value: &str)
        requires
            old(self).wf(),
        ensures
            final(self).wf(),
            final(self)@ == add_missing(old(self)@, name@, value@),
            old(self)@.contains_key(name@) ==> final(self).order() == old(self).order(),
            !old(self)@.contains_key(name@) ==> final(self).order() == old(self).order().push(
                (name@, value@),
            ),
    {
        if !self.contains(name) {
            proof {
                lemma_by_name_dom(self.order());
            }
            self.insert(name.to_owned(), value.to_owned());
        }
    }
}

/// `env` with those of `vars` that are not set yet.
pub open spec fn with_missing(
    env: Map<Seq<char>, Seq<char>>,
    vars: Seq<(Seq<char>, Seq<char>)>,
) -> Map<Seq<char>, Seq<char>>
    decreases vars.len(),
{
    if vars.len() == 0 {
        env
    } else {
        add_missing(with_missing(env, vars.drop_last()), vars.last().0, vars.last().1)
    }
}

/// Adds the variables of `other` that `env` has not.
pub fn merge_missing(env: &mut EnvMap, other: &EnvMap)
    requires
        old(env).wf(),
        other.wf(),
    ensures
        final(env).wf(),
        final(env)@ == other@.union_prefer_right(old(env)@),
{
    let ghost base = env@;
    let ghost all = other.order();
    assert(with_missing(base, all.take(0)) == base);
    let mut i: usize = 0;
    while i < other.len()
        invariant
            all == other.order(),
            i <= all.len(),
            env.wf(),
            env@ == with_missing(base, all.take(i as int)),
        decreases all.len() - i,
    {
        let var = other.at(i);
        proof {
            let next = all.take(i + 1);
            assert(next.drop_last() =~= all.take(i as int));
            assert(next.last() == var@);
        }
        env.insert_missing(var.name.as_str(), var.value.as_str());
        i = i + 1;
    }
    assert(all.take(all.len() as int) =~= all);
    proof {
        lemma_with_missing(base, all);
    }
}

proof fn lemma_with_missing(
    env: Map<Seq<char>, Seq<char>>,
    vars: Seq<(Seq<char>, Seq<char>)>,
)
    requires
        forall|j: int, k: int|
            0 <= j < k < vars.len() ==> (#[trigger] vars[j]).0 != (#[trigger] vars[k]).0,
    ensures
        with_missing(env, vars) == by_name(vars).union_prefer_right(env),
    decreases vars.len(),
{
    if vars.len() == 0 {
        assert(by_name(vars).union_prefer_right(env) =~= env);
    } else {
        let before = vars.drop_last();
        let last = vars.last();
        assert forall|j: int, k: int| 0 <= j < k < before.len() implies (#[trigger] before[j]).0
            != (#[trigger] before[k]).0 by {
            assert(vars[j].0 != vars[k].0);
        }
        lemma_with_missing(env, before);
        lemma_by_name_dom(before);
        assert(!by_name(before).contains_key(last.0)) by {
            if by_name(before).contains_key(last.0) {
                let i = choose|i: int| 0 <= i < before.len() && (#[trigger] before[i]).0 == last.0;
                assert(vars[i].0 != vars[vars.len() - 1].0);
            }
        }
        assert(with_missing(env, vars) =~= by_name(vars).union_prefer_right(env));
    }
}

/// `env` with the variable `name` set, unless it is set already.
pub open spec fn add_missing(
    env: Map<Seq<char>, Seq<char>>,
    name: Seq<char>,
    value: Seq<char>,
) -> Map<Seq<char>, Seq<char>> {
    if env.contains_key(name) {
        env
    } else {
        env.insert(name, value)
    }
}

// ---------------------------------------------------------------------------------------------
// The environment of the caller
// ---------------------------------------------------------------------------------------------

/// The variables that a command may have from its caller.
pub open spec fn is_passed(name: Seq<char>) -> bool {
    ||| name == "PATH"@
    ||| name == "LANG"@
    ||| name == "PWD"@
    ||| name == "TERM"@
    ||| name == "COLORTERM"@
    ||| name == "DISPLAY"@
    ||| name == "WAYLAND_DISPLAY"@
    ||| name == "XAUTHORITY"@
    ||| name == "DBUS_SESSION_BUS_ADDRESS"@
    ||| name == "SSH_AUTH_SOCK"@
}

/// The variables that stay in the environment when it is cleaned.
pub open spec fn is_kept(name: Seq<char>) -> bool {
    is_passed(name) || text::begins(name, "LC_"@) || text::begins(name, "XDG_"@)
}

/// The variables that a command in the scope of its caller has from it.
pub open spec fn is_inherited(name: Seq<char>) -> bool {
    is_passed(name) || text::begins(name, "LC_"@)
}

fn passes(name: &str) -> (r: bool)
    ensures
        r == is_passed(name@),
{
    text::same(name, "PATH") || text::same(name, "LANG") || text::same(name, "PWD") || text::same(
        name,
        "TERM",
    ) || text::same(name, "COLORTERM") || text::same(name, "DISPLAY") || text::same(
        name,
        "WAYLAND_DISPLAY",
    ) || text::same(name, "XAUTHORITY") || text::same(name, "DBUS_SESSION_BUS_ADDRESS")
        || text::same(name, "SSH_AUTH_SOCK")
}

/// The names of the variables that do not stay when the environment is cleaned.
pub open spec fn removed_names(names: Seq<Seq<char>>) -> Seq<Seq<char>> {
    names.filter(|name: Seq<char>| !is_kept(name))
}

/// The variables to remove from an environment with the variables `names`, in their order.
pub fn clean_environment(names: &Vec<String>) -> (r: Vec<String>)
    ensures
        text::views(r@) == removed_names(text::views(names@)),
{
    let mut r: Vec<String> = Vec::new();
    let ghost all = text::views(names@);
    let ghost gone = |name: Seq<char>| !is_kept(name);
    let mut i: usize = 0;
    assert(all.take(0).filter(gone) =~= Seq::<Seq<char>>::empty()) by {
        reveal(Seq::filter);
    }
    assert(text::views(r@) =~= Seq::<Seq<char>>::empty());
    while i < names.len()
        invariant
            i <= names@.len(),
            all == text::views(names@),
            gone == (|name: Seq<char>| !is_kept(name)),
            text::views(r@) == all.take(i as int).filter(gone),
        decreases names.len() - i,
    {
        let name = names[i].as_str();
        let ghost before = r@;
        proof {
            reveal(Seq::filter);
            let next = all.take(i + 1);
            assert(next.drop_last() =~= all.take(i as int));
            assert(next.last() == name@);
        }
        if !(passes(name) || text::starts_with(name, "LC_") || text::starts_with(name, "XDG_")) {
            r.push(name.to_owned());
            assert(text::views(r@) =~= text::views(before).push(name@));
        }
        i = i + 1;
    }
    assert(all.take(all.len() as int) =~= all);
    r
}

/// Cleaning removes a variable if and only if it is not one of those that stay.
pub proof fn law_clean(names: Seq<Seq<char>>, name: Seq<char>)
    ensures
        removed_names(names).contains(name) <==> names.contains(name) && !is_kept(name),
    decreases names.len(),
{
    reveal(Seq::filter);
    if names.len() > 0 {
        let before = names.drop_last();
        let last = names.last();
        law_clean(before, name);
        let kept_before = removed_names(before);
        let all = removed_names(names);
        assert(names =~= before.push(last));
        if before.contains(name) {
            let i = before.index_of(name);
            assert(names[i] == name);
        }
        if names.contains(name) && name != last {
            let i = names.index_of(name);
            assert(before[i] == name);
        }
        if name == last {
            assert(names[names.len() - 1] == name);
        }
        if is_kept(last) {
            assert(all == kept_before);
        } else {
            assert(all == kept_before.push(last));
            if kept_before.contains(name) {
                let i = kept_before.index_of(name);
                assert(all[i] == name);
            }
            if all.contains(name) && name != last {
                let i = all.index_of(name);
                assert(kept_before[i] == name);
            }
            if name == last {
                assert(all[all.len() - 1] == name);
            }
        }
    }
}

/// `env` with those of `vars` that a command inherits and that are not set yet.
pub open spec fn with_inherited(
    env: Map<Seq<char>, Seq<char>>,
    vars: Seq<(Seq<char>, Seq<char>)>,
) -> Map<Seq<char>, Seq<char>>
    decreases vars.len(),
{
    if vars.len() == 0 {
        env
    } else {
        let before = with_inherited(env, vars.drop_last());
        if is_inherited(vars.last().0) {
            add_missing(before, vars.last().0, vars.last().1)
        } else {
            before
        }
    }
}

/// `env` with the variables that describe the user.
pub open spec fn with_identity(
    env: Map<Seq<char>, Seq<char>>,
    home: Seq<char>,
    name: Seq<char>,
    shell: Seq<char>,
) -> Map<Seq<char>, Seq<char>> {
    let e1 = add_missing(env, "HOME"@, home);
    let e2 = add_missing(e1, "USER"@, name);
    let e3 = add_missing(e2, "LOGNAME"@, name);
    add_missing(e3, "SHELL"@, shell)
}

/// Completes the environment of a command that runs in the scope of its caller: the variables
/// that describe the target user, then those of the caller's variables `vars` that it inherits.
/// A variable that is set already stays.
pub fn set_environment(target: &Account, vars: &Vec<EnvVar>, env: &mut EnvMap)
    requires
        old(env).wf(),
    ensures
        final(env).wf(),
        final(env)@ == with_inherited(
            with_identity(
                old(env)@,
                target@.user.home,
                target@.user.name,
                target@.user.shell,
            ),
            var_views(vars@),
        ),
        !old(env)@.contains_key("HOME"@) ==> final(env)@["HOME"@] == target@.user.home,
        !old(env)@.contains_key("USER"@) ==> final(env)@["USER"@] == target@.user.name,
        !old(env)@.contains_key("LOGNAME"@) ==> final(env)@["LOGNAME"@] == target@.user.name,
        !old(env)@.contains_key("SHELL"@) ==> final(env)@["SHELL"@] == target@.user.shell,
{
    proof {
        law_identity_variables(
            env@,
            target@.user.home,
            target@.user.name,
            target@.user.shell,
            var_views(vars@),
        );
    }
    env.insert_missing("HOME", target.home());
    env.insert_missing("USER", target.name());
    env.insert_missing("LOGNAME", target.name());
    env.insert_missing("SHELL", target.shell());
    let ghost base = env@;
    let ghost all = var_views(vars@);
    assert(with_inherited(base, all.take(0)) == base);
    let mut i: usize = 0;
    while i < vars.len()
        invariant
            i <= vars@.len(),
            all == var_views(vars@),
            env.wf(),
            env@ == with_inherited(base, all.take(i as int)),
        decreases vars.len() - i,
    {
        let name = vars[i].name.as_str();
        proof {
            let next = all.take(i + 1);
            assert(next.drop_last() =~= all.take(i as int));
            assert(next.last() == vars@[i as int]@);
        }
        if passes(name) || text::starts_with(name, "LC_") {
            env.insert_missing(name, vars[i].value.as_str());
        }
        i = i + 1;
    }
    assert(all.take(all.len() as int) =~= all);
}

/// Completing an environment changes no variable that is set, and adds none of the caller's
/// that a command does not inherit.
pub proof fn law_set_environment(
    env: Map<Seq<char>, Seq<char>>,
    home: Seq<char>,
    name: Seq<char>,
    shell: Seq<char>,
    vars: Seq<(Seq<char>, Seq<char>)>,
    key: Seq<char>,
)
    ensures
        ({
            let base = with_identity(env, home, name, shell);
            let full = with_inherited(base, vars);
            &&& env.contains_key(key) ==> full.contains_key(key) && full[key] == env[key]
            &&& base.contains_key(key) ==> full.contains_key(key) && full[key] == base[key]
            &&& full.contains_key(key) && !base.contains_key(key) ==> is_inherited(key) && lookup(
                vars,
                key,
            ) == Some(full[key])
        }),
{
    lemma_inherited(with_identity(env, home, name, shell), vars, key);
}

/// A lookup in a longer list finds what it found in the shorter one.
proof fn lemma_lookup_push(
    vars: Seq<(Seq<char>, Seq<char>)>,
    last: (Seq<char>, Seq<char>),
    key: Seq<char>,
)
    ensures
        lookup(vars, key) is Some ==> lookup(vars.push(last), key) == lookup(vars, key),
        lookup(vars, key) is None ==> lookup(vars.push(last), key) == (if last.0 == key {
            Some(last.1)
        } else {
            None
        }),
    decreases vars.len(),
{
    let longer = vars.push(last);
    if vars.len() == 0 {
        assert(longer[0] == last);
        assert(longer.drop_first() =~= Seq::<(Seq<char>, Seq<char>)>::empty());
        assert(lookup(longer.drop_first(), key) is None);
    } else {
        assert(longer[0] == vars[0]);
        assert(longer.drop_first() =~= vars.drop_first().push(last));
        lemma_lookup_push(vars.drop_first(), last, key);
    }
}

proof fn lemma_inherited(
    base: Map<Seq<char>, Seq<char>>,
    vars: Seq<(Seq<char>, Seq<char>)>,
    key: Seq<char>,
)
    ensures
        ({
            let full = with_inherited(base, vars);
            &&& base.contains_key(key) ==> full.contains_key(key) && full[key] == base[key]
            &&& !base.contains_key(key) ==> full.contains_key(key) == (is_inherited(key) && lookup(
                vars,
                key,
            ) is Some)
            &&& full.contains_key(key) && !base.contains_key(key) ==> lookup(vars, key) == Some(
                full[key],
            )
        }),
    decreases vars.len(),
{
    if vars.len() > 0 {
        lemma_inherited(base, vars.drop_last(), key);
        lemma_lookup_push(vars.drop_last(), vars.last(), key);
        assert(vars.drop_last().push(vars.last()) =~= vars);
    }
}

// ---------------------------------------------------------------------------------------------
// The file of overrides
// ---------------------------------------------------------------------------------------------

/// The write permission of the group and of others.
pub const WRITABLE_BY_OTHERS: u32 = 0o022;

/// Checks the owner and the mode of the file of overrides: it has to belong to the superuser,
/// who alone may write to it.
pub fn check_overwrite_file(owner: u32, mode: u32) -> (r: Result<(), Error>)
    ensures
        r is Ok <==> owner == 0 && mode & WRITABLE_BY_OTHERS == 0,
        r is Ok <==> owner == 0 && mode & 0x10 == 0 && mode & 0x2 == 0,
        owner != 0 ==> error::refuses(
            r,
            "ignoring environment override file: not owned by root"@,
        ),
        owner == 0 && mode & WRITABLE_BY_OTHERS != 0 ==> error::refuses(
            r,
            "ignoring environment override file: writable by group or others"@,
        ),
{
    assert(mode & 0o022 == 0 <==> (mode & 0x10 == 0 && mode & 0x2 == 0)) by (bit_vector);
    if owner != 0 {
        return Err(Error::StaticMessage("ignoring environment override file: not owned by root"));
    }
    if mode & WRITABLE_BY_OTHERS != 0 {
        return Err(
            Error::StaticMessage("ignoring environment override file: writable by group or others"),
        );
    }
    Ok(())
}

/// `c` may stand in the name of a variable; a digit not at its beginning.
pub open spec fn is_name_char(c: char, first: bool) -> bool {
    ||| 'A' <= c <= 'Z'
    ||| 'a' <= c <= 'z'
    ||| c == '_'
    ||| '0' <= c <= '9' && !first
}

/// `key` can be the name of a variable.
pub open spec fn is_name(key: Seq<char>) -> bool {
    &&& key.len() > 0
    &&& forall|i: int| 0 <= i < key.len() ==> is_name_char(#[trigger] key[i], i == 0)
}

fn names_variable(key: &str) -> (r: bool)
    ensures
        r == is_name(key@),
{
    let v = text::chars_of(key);
    if v.len() == 0 {
        return false;
    }
    let mut i: usize = 0;
    while i < v.len()
        invariant
            v@ == key@,
            v@.len() > 0,
            i <= v@.len(),
            forall|j: int| 0 <= j < i ==> is_name_char(#[trigger] key@[j], j == 0),
        decreases v.len() - i,
    {
        let c = v[i];
        let letter = ('A' <= c && c <= 'Z') || ('a' <= c && c <= 'z') || c == '_';
        let digit = '0' <= c && c <= '9';
        if !(letter || (digit && i != 0)) {
            assert(!is_name_char(key@[i as int], i == 0));
            return false;
        }
        i = i + 1;
    }
    true
}

/// The variable that a line of the file sets for the user `user`: after the name of the user,
/// or `*` for everyone, stands white space and then `NAME=VALUE`. Empty lines, lines that begin
/// with `#` and lines of any other form set nothing.
pub open spec fn line_variable(line: Seq<char>, user: Seq<char>) -> Option<(Seq<char>, Seq<char>)> {
    let l = text::trimmed(line);
    let i = text::find_space(l);
    if l.len() == 0 || l[0] == '#' || i >= l.len() {
        None
    } else if l.take(i) != "*"@ && l.take(i) != user {
        None
    } else {
        match text::cut(text::trimmed_start(l.skip(i + 1)), '=') {
            None => None,
            Some((k, v)) => if is_name(text::trimmed(k)) {
                Some((text::trimmed(k), text::trimmed(v)))
            } else {
                None
            },
        }
    }
}

/// Reads one line of the file.
fn read_line<'a>(line: &'a str, user: &str) -> (r: Option<(&'a str, &'a str)>)
    ensures
        match r {
            Some((k, v)) => line_variable(line@, user@) == Some((k@, v@)),
            None => line_variable(line@, user@) is None,
        },
{
    let l = text::trim(line);
    let chars = text::chars_of(l);
    if chars.len() == 0 || chars[0] == '#' {
        return None;
    }
    let (name, rest) = text::split_word(l);
    if !text::same(name, "*") && !text::same(name, user) {
        return None;
    }
    match rest {
        None => None,
        Some(rest) => match text::split_once(text::trim_start(rest), '=') {
            None => None,
            Some((k, v)) => {
                let key = text::trim(k);
                if names_variable(key) {
                    Some((key, text::trim(v)))
                } else {
                    None
                }
            },
        },
    }
}

/// The placeholder for `name` in a value.
pub open spec fn placeholder(name: Seq<char>) -> Seq<char> {
    seq!['$', '{'] + name + seq!['}']
}

/// `value` with the placeholders replaced, one after the other.
pub open spec fn expanded(
    value: Seq<char>,
    placeholders: Seq<(Seq<char>, Seq<char>)>,
) -> Seq<char>
    decreases placeholders.len(),
{
    if placeholders.len() == 0 {
        value
    } else {
        text::replaced(
            expanded(value, placeholders.drop_last()),
            placeholder(placeholders.last().0),
            placeholders.last().1,
        )
    }
}

fn expand(value: &str, placeholders: &Vec<EnvVar>) -> (r: String)
    ensures
        r@ == expanded(value@, var_views(placeholders@)),
{
    let mut r = value.to_owned();
    let ghost all = var_views(placeholders@);
    assert(expanded(value@, all.take(0)) == value@);
    let mut i: usize = 0;
    while i < placeholders.len()
        invariant
            i <= placeholders@.len(),
            all == var_views(placeholders@),
            r@ == expanded(value@, all.take(i as int)),
        decreases placeholders.len() - i,
    {
        let mut pattern = "${".to_owned();
        pattern.append(placeholders[i].name.as_str());
        pattern.append("}");
        proof {
            reveal_strlit("${");
            reveal_strlit("}");
            assert(pattern@ =~= placeholder(placeholders@[i as int].name@));
            let next = all.take(i + 1);
            assert(next.drop_last() =~= all.take(i as int));
            assert(next.last() == placeholders@[i as int]@);
        }
        r = text::replace(r.as_str(), pattern.as_str(), placeholders[i].value.as_str());
        i = i + 1;
    }
    assert(all.take(all.len() as int) =~= all);
    r
}

/// What one line of the file does to an environment: it sets a variable, whether or not that is
/// set already.
pub open spec fn with_line(
    env: Map<Seq<char>, Seq<char>>,
    line: Seq<char>,
    user: Seq<char>,
    placeholders: Seq<(Seq<char>, Seq<char>)>,
) -> Map<Seq<char>, Seq<char>> {
    match line_variable(line, user) {
        None => env,
        Some((k, v)) => env.insert(k, expanded(v, placeholders)),
    }
}

/// What the lines of the file do to an environment.
pub open spec fn with_lines(
    env: Map<Seq<char>, Seq<char>>,
    lines: Seq<Seq<char>>,
    user: Seq<char>,
    placeholders: Seq<(Seq<char>, Seq<char>)>,
) -> Map<Seq<char>, Seq<char>>
    decreases lines.len(),
{
    if lines.len() == 0 {
        env
    } else {
        with_line(
            with_lines(env, lines.drop_last(), user, placeholders),
            lines.last(),
            user,
            placeholders,
        )
    }
}

/// Sets the variables that the lines of the file of overrides set for the target user: they are
/// added, or override what is set already. Of several lines for one name the last counts.
pub fn load_overwrite_vars(
    lines: &Vec<String>,
    target: &Account,
    placeholders: &Vec<EnvVar>,
    env: &mut EnvMap,
)
    requires
        old(env).wf(),
    ensures
        final(env).wf(),
        final(env)@ == with_lines(
            old(env)@,
            text::views(lines@),
            target@.user.name,
            var_views(placeholders@),
        ),
{
    let ghost all = text::views(lines@);
    let ghost base = env@;
    let ghost user = target@.user.name;
    let ghost marks = var_views(placeholders@);
    assert(with_lines(base, all.take(0), user, marks) == base);
    let mut i: usize = 0;
    while i < lines.len()
        invariant
            i <= lines@.len(),
            all == text::views(lines@),
            user == target@.user.name,
            marks == var_views(placeholders@),
            env.wf(),
            env@ == with_lines(base, all.take(i as int), user, marks),
        decreases lines.len() - i,
    {
        proof {
            let next = all.take(i + 1);
            assert(next.drop_last() =~= all.take(i as int));
            assert(next.last() == lines@[i as int]@);
        }
        match read_line(lines[i].as_str(), target.name()) {
            None => {},
            Some((key, value)) => {
                env.insert(key.to_owned(), expand(value, placeholders));
            },
        }
        i = i + 1;
    }
    assert(all.take(all.len() as int) =~= all);
}

/// A line of the file sets the variable `key` for the user `user`.
pub open spec fn sets(line: Seq<char>, user: Seq<char>, key: Seq<char>) -> bool {
    line_variable(line, user) matches Some((k, _)) && k == key
}

/// The file of overrides changes the variables that its lines set for the user, all of which
/// have valid names, and no others.
pub proof fn law_overwrite_vars(
    env: Map<Seq<char>, Seq<char>>,
    lines: Seq<Seq<char>>,
    user: Seq<char>,
    placeholders: Seq<(Seq<char>, Seq<char>)>,
    key: Seq<char>,
)
    ensures
        ({
            let full = with_lines(env, lines, user, placeholders);
            if exists|i: int| 0 <= i < lines.len() && sets(#[trigger] lines[i], user, key) {
                full.contains_key(key) && is_name(key)
            } else {
                &&& full.contains_key(key) == env.contains_key(key)
                &&& env.contains_key(key) ==> full[key] == env[key]
            }
        }),
    decreases lines.len(),
{
    if lines.len() > 0 {
        let before = lines.drop_last();
        let n = before.len() as int;
        law_overwrite_vars(env, before, user, placeholders, key);
        assert(lines[n] == lines.last());
        if exists|i: int| 0 <= i < before.len() && sets(#[trigger] before[i], user, key) {
            let i = choose|i: int| 0 <= i < before.len() && sets(#[trigger] before[i], user, key);
            assert(sets(lines[i], user, key));
        } else if exists|i: int| 0 <= i < lines.len() && sets(#[trigger] lines[i], user, key) {
            let i = choose|i: int| 0 <= i < lines.len() && sets(#[trigger] lines[i], user, key);
            if i < n {
                assert(sets(before[i], user, key));
            }
        }
    }
}

/// What a line sets for everyone or for the target user has its value afterwards, whatever was
/// set before, unless a later line sets it again.
pub proof fn law_overwrite_line(
    env: Map<Seq<char>, Seq<char>>,
    lines: Seq<Seq<char>>,
    user: Seq<char>,
    placeholders: Seq<(Seq<char>, Seq<char>)>,
    i: int,
)
    requires
        0 <= i < lines.len(),
        line_variable(lines[i], user) is Some,
        forall|j: int|
            i < j < lines.len() ==> !sets(
                #[trigger] lines[j],
                user,
                (line_variable(lines[i], user)->Some_0).0,
            ),
    ensures
        ({
            let (key, value) = line_variable(lines[i], user)->0;
            let full = with_lines(env, lines, user, placeholders);
            full.contains_key(key) && full[key] == expanded(value, placeholders)
        }),
    decreases lines.len(),
{
    let (key, value) = line_variable(lines[i], user)->0;
    if i < lines.len() - 1 {
        let shorter = lines.drop_last();
        assert(shorter[i] == lines[i]);
        assert forall|j: int| i < j < shorter.len() implies !sets(
            #[trigger] shorter[j],
            user,
            key,
        ) by {
            assert(shorter[j] == lines[j]);
        }
        law_overwrite_line(env, shorter, user, placeholders, i);
        assert(!sets(lines[lines.len() - 1], user, key));
        assert(lines.last() == lines[lines.len() - 1]);
    }
}

/// The environment of a command that runs in the scope of its caller: the file of overrides, then
/// what was asked for, then the session, then the variables that describe the user, then what
/// is inherited.
pub open spec fn scope_environment(
    asked: Map<Seq<char>, Seq<char>>,
    lines: Seq<Seq<char>>,
    placeholders: Seq<(Seq<char>, Seq<char>)>,
    session: Map<Seq<char>, Seq<char>>,
    user: UserView,
    caller: Seq<(Seq<char>, Seq<char>)>,
) -> Map<Seq<char>, Seq<char>> {
    let overridden = with_lines(asked, lines, user.name, placeholders);
    with_inherited(
        with_identity(
            session.union_prefer_right(overridden),
            user.home,
            user.name,
            user.shell,
        ),
        caller,
    )
}

/// The file of overrides always counts. Next comes what was asked for on the command line, then
/// the session, and only what none of them sets comes from the target user or the caller.
pub proof fn law_environment_order(
    asked: Map<Seq<char>, Seq<char>>,
    lines: Seq<Seq<char>>,
    placeholders: Seq<(Seq<char>, Seq<char>)>,
    session: Map<Seq<char>, Seq<char>>,
    user: UserView,
    caller: Seq<(Seq<char>, Seq<char>)>,
    key: Seq<char>,
)
    ensures
        ({
            let overridden = with_lines(asked, lines, user.name, placeholders);
            let merged = session.union_prefer_right(overridden);
            let identity = with_identity(merged, user.home, user.name, user.shell);
            let full = scope_environment(asked, lines, placeholders, session, user, caller);
            if exists|i: int| 0 <= i < lines.len() && sets(#[trigger] lines[i], user.name, key) {
                full.contains_key(key) && full[key] == overridden[key]
            } else if asked.contains_key(key) {
                full.contains_key(key) && full[key] == asked[key]
            } else if session.contains_key(key) {
                full.contains_key(key) && full[key] == session[key]
            } else if identity.contains_key(key) {
                full.contains_key(key) && full[key] == identity[key] && (key == "HOME"@ || key
                    == "USER"@ || key == "LOGNAME"@ || key == "SHELL"@)
            } else {
                full.contains_key(key) ==> is_inherited(key) && lookup(caller, key) == Some(
                    full[key],
                )
            }
        }),
{
    let overridden = with_lines(asked, lines, user.name, placeholders);
    let merged = session.union_prefer_right(overridden);
    law_overwrite_vars(asked, lines, user.name, placeholders, key);
    law_set_environment(merged, user.home, user.name, user.shell, caller, key);
}

// ---------------------------------------------------------------------------------------------
// What the operations on the environment come to
// ---------------------------------------------------------------------------------------------

/// A lookup finds the value that stands first under a name, and nothing if none does.
pub proof fn law_lookup(vars: Seq<(Seq<char>, Seq<char>)>, name: Seq<char>, i: int)
    requires
        0 <= i <= vars.len(),
        forall|j: int| 0 <= j < i ==> (#[trigger] vars[j]).0 != name,
    ensures
        i < vars.len() && vars[i].0 == name ==> lookup(vars, name) == Some(vars[i].1),
        i == vars.len() ==> lookup(vars, name) is None,
    decreases vars.len(),
{
    if i > 0 {
        let rest = vars.drop_first();
        assert forall|j: int| 0 <= j < i - 1 implies (#[trigger] rest[j]).0 != name by {
            assert(rest[j] == vars[j + 1]);
        }
        assert(vars[0].0 != name);
        law_lookup(rest, name, i - 1);
        if i < vars.len() {
            assert(rest[i - 1] == vars[i]);
        }
    }
}

/// Setting a variable leaves its place to one that is known, and puts a new one last.
pub proof fn law_placed(
    vars: Seq<(Seq<char>, Seq<char>)>,
    name: Seq<char>,
    value: Seq<char>,
    i: int,
)
    requires
        forall|j: int, k: int|
            0 <= j < k < vars.len() ==> (#[trigger] vars[j]).0 != (#[trigger] vars[k]).0,
    ensures
        0 <= i < vars.len() && vars[i].0 == name ==> placed(vars, name, value) == vars.update(
            i,
            (name, value),
        ),
        (forall|j: int| 0 <= j < vars.len() ==> (#[trigger] vars[j]).0 != name) ==> placed(
            vars,
            name,
            value,
        ) == vars.push((name, value)),
{
    if 0 <= i < vars.len() && vars[i].0 == name {
        let k = choose|k: int| 0 <= k < vars.len() && (#[trigger] vars[k]).0 == name;
        assert(k == i);
    }
}

/// A variable is added where it is missing, and never changed where it is set.
pub proof fn law_add_missing(
    env: Map<Seq<char>, Seq<char>>,
    name: Seq<char>,
    value: Seq<char>,
    key: Seq<char>,
)
    ensures
        ({
            let full = add_missing(env, name, value);
            &&& full.contains_key(key) <==> env.contains_key(key) || key == name
            &&& env.contains_key(key) ==> full[key] == env[key]
            &&& !env.contains_key(name) ==> full[name] == value
        }),
{
}

/// Cleaning an environment leaves the variables of the locale, of the desktop session and of the
/// terminal, and no other one.
pub proof fn law_cleaned(names: Seq<Seq<char>>, name: Seq<char>)
    requires
        names.contains(name),
    ensures
        removed_names(names).contains(name) <==> !(name == "PATH"@ || name == "LANG"@ || name == "PWD"@ || name == "TERM"@
            || name == "COLORTERM"@ || name == "DISPLAY"@ || name == "WAYLAND_DISPLAY"@
            || name == "XAUTHORITY"@ || name == "DBUS_SESSION_BUS_ADDRESS"@
            || name == "SSH_AUTH_SOCK"@ || text::begins(name, "LC_"@)
            || text::begins(name, "XDG_"@)),
{
    law_clean(names, name);
}

/// In a completed environment `HOME`, `USER`, `LOGNAME` and `SHELL` describe the target, unless
/// they were set before: then they are what they were.
pub proof fn law_identity_variables(
    env: Map<Seq<char>, Seq<char>>,
    home: Seq<char>,
    name: Seq<char>,
    shell: Seq<char>,
    vars: Seq<(Seq<char>, Seq<char>)>,
)
    ensures
        ({
            let full = with_inherited(with_identity(env, home, name, shell), vars);
            &&& full.contains_key("HOME"@) && full["HOME"@] == (if env.contains_key("HOME"@) {
                env["HOME"@]
            } else {
                home
            })
            &&& full.contains_key("USER"@) && full["USER"@] == (if env.contains_key("USER"@) {
                env["USER"@]
            } else {
                name
            })
            &&& full.contains_key("LOGNAME"@) && full["LOGNAME"@] == (if env.contains_key(
                "LOGNAME"@,
            ) {
                env["LOGNAME"@]
            } else {
                name
            })
            &&& full.contains_key("SHELL"@) && full["SHELL"@] == (if env.contains_key("SHELL"@) {
                env["SHELL"@]
            } else {
                shell
            })
        }),
{
    reveal_strlit("HOME");
    reveal_strlit("USER");
    reveal_strlit("LOGNAME");
    reveal_strlit("SHELL");
    assert("HOME"@[0] == 'H' && "USER"@[0] == 'U' && "LOGNAME"@[0] == 'L' && "SHELL"@[0] == 'S');
    law_set_environment(env, home, name, shell, vars, "HOME"@);
    law_set_environment(env, home, name, shell, vars, "USER"@);
    law_set_environment(env, home, name, shell, vars, "LOGNAME"@);
    law_set_environment(env, home, name, shell, vars, "SHELL"@);
}

/// Whatever else a completed environment holds was set before or comes from the caller, whose
/// first value counts. From the caller come the variables of the locale, of the terminal and of
/// the display, and no other ones.
pub proof fn law_inherited_variables(
    env: Map<Seq<char>, Seq<char>>,
    target: UserView,
    vars: Seq<(Seq<char>, Seq<char>)>,
    name: Seq<char>,
)
    requires
        name != "HOME"@,
        name != "USER"@,
        name != "LOGNAME"@,
        name != "SHELL"@,
        !env.contains_key(name),
    ensures
        ({
            let full = with_inherited(
                with_identity(env, target.home, target.name, target.shell),
                vars,
            );
            let passed = name == "PATH"@ || name == "LANG"@ || name == "PWD"@ || name == "TERM"@
                || name == "COLORTERM"@ || name == "DISPLAY"@ || name == "WAYLAND_DISPLAY"@
                || name == "XAUTHORITY"@ || name == "DBUS_SESSION_BUS_ADDRESS"@
                || name == "SSH_AUTH_SOCK"@ || text::begins(name, "LC_"@);
            &&& full.contains_key(name) <==> passed && lookup(vars, name) is Some
            &&& full.contains_key(name) ==> lookup(vars, name) == Some(full[name])
        }),
{
    lemma_inherited(with_identity(env, target.home, target.name, target.shell), vars, name);
}

/// A line of the file of overrides names a user, or all of them, then a variable and its value.
/// It sets that variable for that user and for nobody else, white space around the parts does not
/// count, and neither does a line that begins with `#` or whose variable has no proper name.
pub proof fn law_override_line(
    lead: Seq<char>,
    who: Seq<char>,
    gap: Seq<char>,
    key: Seq<char>,
    pad: Seq<char>,
    pad2: Seq<char>,
    value: Seq<char>,
    trail: Seq<char>,
    user: Seq<char>,
)
    requires
        forall|i: int| 0 <= i < lead.len() ==> text::is_space(#[trigger] lead[i]),
        forall|i: int| 0 <= i < gap.len() ==> text::is_space(#[trigger] gap[i]),
        forall|i: int| 0 <= i < pad.len() ==> text::is_space(#[trigger] pad[i]),
        forall|i: int| 0 <= i < pad2.len() ==> text::is_space(#[trigger] pad2[i]),
        forall|i: int| 0 <= i < trail.len() ==> text::is_space(#[trigger] trail[i]),
        who.len() > 0,
        forall|i: int| 0 <= i < who.len() ==> !text::is_space(#[trigger] who[i]),
        gap.len() > 0,
        key.len() > 0,
        !text::is_space(key[0]),
        !text::is_space(key.last()),
        !key.contains('='),
        value.len() > 0 ==> !text::is_space(value[0]) && !text::is_space(value.last()),
    ensures
        ({
            let line = lead + (who + (gap + (key + pad + seq!['='] + (pad2 + value)))) + trail;
            let proper = forall|i: int|
                0 <= i < key.len() ==> ('A' <= #[trigger] key[i] <= 'Z' || 'a' <= key[i] <= 'z'
                    || key[i] == '_' || ('0' <= key[i] <= '9' && i > 0));
            line_variable(line, user) == (if who[0] != '#' && (who == user || who == "*"@)
                && proper {
                Some((key, value))
            } else {
                None
            })
        }),
{
    let none = Seq::<char>::empty();
    let (tail, end) = if value.len() == 0 {
        (none, pad2 + trail)
    } else {
        (pad2 + value, trail)
    };
    let setting = key + pad + seq!['='] + tail;
    let l = who + (gap + setting);
    let line = lead + (who + (gap + (key + pad + seq!['='] + (pad2 + value)))) + trail;
    assert(line =~= lead + l + end);
    assert(l[0] == who[0]);
    assert(l.last() == setting.last());
    assert(setting.last() == (if value.len() == 0 {
        '='
    } else {
        value.last()
    }));
    text::law_trimmed(lead, l, end);
    text::lemma_find_space(l);
    let n = who.len() as int;
    assert(l[n] == gap[0]);
    assert forall|j: int| 0 <= j < n implies !text::is_space(#[trigger] l[j]) by {
        assert(l[j] == who[j]);
    }
    assert(text::find_space(l) == n);
    assert(l.take(n) =~= who);
    assert(l.skip(n + 1) =~= gap.skip(1) + setting);
    assert(setting[0] == key[0]);
    text::law_trimmed(gap.skip(1), setting, none);
    assert forall|j: int| 0 <= j < (key + pad).len() implies (key + pad)[j] != '=' by {
        if j < key.len() {
            assert(key.contains(key[j]));
        } else {
            assert(text::is_space(pad[j - key.len()]));
        }
    }
    text::law_cut(key + pad, '=', tail);
    text::law_trimmed(none, key, pad);
    assert(none + key + pad =~= key + pad);
    if value.len() == 0 {
        text::law_trimmed(none, none, none);
        assert(none + none + none =~= none);
        assert(value =~= none);
    } else {
        text::law_trimmed(pad2, value, none);
        assert(pad2 + value + none =~= pad2 + value);
    }
}

/// A line without a value behind a name and `=`, or without any white space inside, sets nothing.
pub proof fn law_no_override(line: Seq<char>, user: Seq<char>)
    requires
        !line.contains('=') || (forall|i: int|
            0 <= i < line.len() ==> !text::is_space(#[trigger] line[i])),
    ensures
        line_variable(line, user) is None,
{
    let l = text::trimmed(line);
    text::lemma_trimmed_within(line);
    if line.contains('=') {
        text::lemma_find_space(l);
        if text::find_space(l) < l.len() {
            let c = l[text::find_space(l)];
            assert(l.contains(c));
            let k = line.index_of(c);
            assert(text::is_space(line[k]));
        }
    } else {
        let i = text::find_space(l);
        text::lemma_find_space(l);
        if i < l.len() {
            let rest = l.skip(i + 1);
            let t = text::trimmed_start(rest);
            text::lemma_trimmed_within(rest);
            text::lemma_find(t, '=');
            if t.contains('=') {
                assert(rest.contains('='));
                let k = rest.index_of('=');
                assert(l[i + 1 + k] == '=');
                assert(l.contains('='));
            }
        }
    }
}

/// A value without a dollar sign stays as it is.
pub proof fn law_plain_value(value: Seq<char>, placeholders: Seq<(Seq<char>, Seq<char>)>)
    requires
        !value.contains('$'),
    ensures
        expanded(value, placeholders) == value,
    decreases placeholders.len(),
{
    if placeholders.len() > 0 {
        law_plain_value(value, placeholders.drop_last());
        let from = placeholder(placeholders.last().0);
        if text::occurs(value, from) {
            let i = choose|i: int|
                0 <= i <= value.len() - from.len() && #[trigger] value.subrange(
                    i,
                    i + from.len(),
                ) == from;
            assert(value.subrange(i, i + from.len())[0] == value[i]);
            assert(from[0] == '$');
            assert(value.contains(value[i]));
        }
        text::law_unreplaced(value, from, placeholders.last().1);
    }
}

/// A placeholder, which is a name in braces behind a dollar sign, stands for its value, wherever
/// it occurs.
pub proof fn law_placeholder(
    before: Seq<char>,
    name: Seq<char>,
    value: Seq<char>,
    after: Seq<char>,
)
    requires
        !before.contains('$'),
    ensures
        expanded(
            before + (seq!['$', '{'] + name + seq!['}']) + after,
            seq![(name, value)],
        ) == before + value + expanded(after, seq![(name, value)]),
{
    let from = seq!['$', '{'] + name + seq!['}'];
    let s = before + from + after;
    let one = seq![(name, value)];
    assert(one.drop_last() =~= Seq::<(Seq<char>, Seq<char>)>::empty());
    assert(expanded(s, one.drop_last()) == s);
    assert(expanded(after, one.drop_last()) == after);
    assert forall|i: int| 0 <= i < before.len() implies !text::begins(
        #[trigger] s.skip(i),
        from,
    ) by {
        if text::begins(s.skip(i), from) {
            assert(s.skip(i).take(from.len() as int)[0] == s[i]);
            assert(from[0] == '$');
            assert(before.contains(before[i]));
        }
    }
    text::law_replaced(before, from, value, after);
}

/// Placeholders are put in one after the other.
pub proof fn law_placeholders_in_turn(
    text: Seq<char>,
    first: Seq<(Seq<char>, Seq<char>)>,
    more: Seq<(Seq<char>, Seq<char>)>,
)
    ensures
        expanded(text, first + more) == expanded(expanded(text, first), more),
    decreases more.len(),
{
    if more.len() == 0 {
        assert(first + more =~= first);
    } else {
        assert((first + more).drop_last() =~= first + more.drop_last());
        law_placeholders_in_turn(text, first, more.drop_last());
    }
}

/// A line whose `=` has no name before it sets nothing.
pub proof fn law_nameless_override(
    who: Seq<char>,
    gap: Seq<char>,
    value: Seq<char>,
    user: Seq<char>,
)
    requires
        who.len() > 0,
        forall|i: int| 0 <= i < who.len() ==> !text::is_space(#[trigger] who[i]),
        gap.len() > 0,
        forall|i: int| 0 <= i < gap.len() ==> text::is_space(#[trigger] gap[i]),
        value.len() > 0 ==> !text::is_space(value.last()),
    ensures
        line_variable(who + gap + seq!['='] + value, user) is None,
{
    let none = Seq::<char>::empty();
    let line = who + gap + seq!['='] + value;
    let setting = seq!['='] + value;
    let n = who.len() as int;
    assert(line[0] == who[0]);
    text::law_trimmed(none, line, none);
    assert(none + line + none =~= line);
    text::lemma_find_space(line);
    assert(line[n] == gap[0]);
    assert forall|j: int| 0 <= j < n implies !text::is_space(#[trigger] line[j]) by {
        assert(line[j] == who[j]);
    }
    assert(text::find_space(line) == n);
    assert(line.skip(n + 1) =~= gap.skip(1) + setting);
    text::law_trimmed(gap.skip(1), setting, none);
    text::law_cut(none, '=', value);
    assert(none + seq!['='] + value =~= setting);
    text::law_trimmed(none, none, none);
    assert(none + none + none =~= none);
}

} // verus!
