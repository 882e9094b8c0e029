//! Text handling on characters: trimming, splitting, searching, replacing and numbers.
//!
//! Every function works on the character sequence of its argument, so the specification
//! functions below are plain statements about `Seq<char>`.

use vstd::prelude::*;
use vstd::string::*;

verus! {

/// The characters with the Unicode property `White_Space`.
pub open spec fn is_space(c: char) -> bool {
    ||| '\u{9}' <= c <= '\u{d}'
    ||| c == ' '
    ||| c == '\u{85}'
    ||| c == '\u{a0}'
    ||| c == '\u{1680}'
    ||| '\u{2000}' <= c <= '\u{200a}'
    ||| c == '\u{2028}'
    ||| c == '\u{2029}'
    ||| c == '\u{202f}'
    ||| c == '\u{205f}'
    ||| c == '\u{3000}'
}

/// Tells whether `c` is white space.
pub fn is_whitespace(c: char) -> (r: bool)
    ensures
        r == is_space(c),
{
    ('\u{9}' <= c && c <= '\u{d}') || c == ' ' || c == '\u{85}' || c == '\u{a0}' || c == '\u{1680}'
        || ('\u{2000}' <= c && c <= '\u{200a}') || c == '\u{2028}' || c == '\u{2029}' || c
        == '\u{202f}' || c == '\u{205f}' || c == '\u{3000}'
}

/// The characters of a list of strings.
pub open spec fn views(v: Seq<String>) -> Seq<Seq<char>> {
    v.map_values(|s: String| s@)
}

/// The characters of an optional text.
pub open spec fn opt_view(s: Option<String>) -> Option<Seq<char>> {
    match s {
        Some(t) => Some(t@),
        None => None,
    }
}

/// The bytes of an optional value.
pub open spec fn opt_bytes(v: Option<Vec<u8>>) -> Option<Seq<u8>> {
    match v {
        Some(b) => Some(b@),
        None => None,
    }
}

/// The characters of an optional text that is borrowed.
pub open spec fn opt_str(s: Option<&str>) -> Option<Seq<char>> {
    match s {
        Some(t) => Some(t@),
        None => None,
    }
}

/// The first position in `s` that holds `c`, or the length of `s` if there is none.
pub open spec fn find(s: Seq<char>, c: char) -> int
    decreases s.len(),
{
    if s.len() == 0 || s[0] == c {
        0
    } else {
        1 + find(s.drop_first(), c)
    }
}

/// The first position in `s` that holds white space, or the length of `s` if there is none.
pub open spec fn find_space(s: Seq<char>) -> int
    decreases s.len(),
{
    if s.len() == 0 || is_space(s[0]) {
        0
    } else {
        1 + find_space(s.drop_first())
    }
}

/// `s` without its leading white space.
pub open spec fn trimmed_start(s: Seq<char>) -> Seq<char>
    decreases s.len(),
{
    if s.len() > 0 && is_space(s[0]) {
        trimmed_start(s.drop_first())
    } else {
        s
    }
}

/// `s` without its trailing white space.
pub open spec fn trimmed_end(s: Seq<char>) -> Seq<char>
    decreases s.len(),
{
    if s.len() > 0 && is_space(s.last()) {
        trimmed_end(s.drop_last())
    } else {
        s
    }
}

/// `s` without the white space at either end.
pub open spec fn trimmed(s: Seq<char>) -> Seq<char> {
    trimmed_end(trimmed_start(s))
}

/// What stands before and after the first `c` of `s`.
pub open spec fn cut(s: Seq<char>, c: char) -> Option<(Seq<char>, Seq<char>)> {
    let i = find(s, c);
    if i < s.len() {
        Some((s.take(i), s.skip(i + 1)))
    } else {
        None
    }
}

/// The pieces of `s` between the characters `c`; there is one more of them than of `c`.
pub open spec fn pieces(s: Seq<char>, c: char) -> Seq<Seq<char>>
    decreases s.len(),
{
    proof {
        lemma_find(s, c);
    }
    let i = find(s, c);
    if i < s.len() {
        seq![s.take(i)] + pieces(s.skip(i + 1), c)
    } else {
        seq![s]
    }
}

/// `s` begins with `prefix`.
pub open spec fn begins(s: Seq<char>, prefix: Seq<char>) -> bool {
    prefix.len() <= s.len() && s.take(prefix.len() as int) == prefix
}

/// `part` stands somewhere in `s`.
pub open spec fn occurs(s: Seq<char>, part: Seq<char>) -> bool {
    exists|i: int|
        0 <= i <= s.len() - part.len() && #[trigger] s.subrange(i, i + part.len()) == part
}

/// `s` with every `from` that is met from the left replaced by `to`.
pub open spec fn replaced(s: Seq<char>, from: Seq<char>, to: Seq<char>) -> Seq<char>
    decreases s.len(),
{
    if from.len() == 0 || s.len() == 0 {
        s
    } else if begins(s, from) {
        to + replaced(s.skip(from.len() as int), from, to)
    } else {
        seq![s[0]] + replaced(s.drop_first(), from, to)
    }
}

/// `find` names the first occurrence.
pub proof fn lemma_find(s: Seq<char>, c: char)
    ensures
        0 <= find(s, c) <= s.len(),
        find(s, c) < s.len() ==> s[find(s, c)] == c,
        forall|j: int| 0 <= j < find(s, c) ==> s[j] != c,
        find(s, c) < s.len() <==> s.contains(c),
    decreases s.len(),
{
    if s.len() > 0 && s[0] != c {
        let t = s.drop_first();
        lemma_find(t, c);
        assert forall|j: int| 0 <= j < find(s, c) implies s[j] != c by {
            if j > 0 {
                assert(t[j - 1] == s[j]);
            }
        }
        if s.contains(c) {
            let k = choose|k: int| 0 <= k < s.len() && s[k] == c;
            assert(t[k - 1] == c);
        }
    }
}

/// The first occurrence is the only position that `find` can name.
proof fn lemma_find_unique(s: Seq<char>, c: char, i: int)
    requires
        0 <= i <= s.len(),
        i < s.len() ==> s[i] == c,
        forall|j: int| 0 <= j < i ==> s[j] != c,
    ensures
        find(s, c) == i,
{
    lemma_find(s, c);
}

/// `find_space` names the first white space.
pub proof fn lemma_find_space(s: Seq<char>)
    ensures
        0 <= find_space(s) <= s.len(),
        find_space(s) < s.len() ==> is_space(s[find_space(s)]),
        forall|j: int| 0 <= j < find_space(s) ==> !is_space(s[j]),
    decreases s.len(),
{
    if s.len() > 0 && !is_space(s[0]) {
        let t = s.drop_first();
        lemma_find_space(t);
        assert forall|j: int| 0 <= j < find_space(s) implies !is_space(s[j]) by {
            if j > 0 {
                assert(t[j - 1] == s[j]);
            }
        }
    }
}

/// The characters of `s` as a vector.
pub fn chars_of(s: &str) -> (v: Vec<char>)
    ensures
        v@ == s@,
{
    let mut v: Vec<char> = Vec::new();
    for c in it: s.chars()
        invariant
            v@ == it.seq().take(it.index() as int),
            it.seq() == s@,
    {
        v.push(c);
    }
    v
}

/// Tells whether two texts are the same.
pub fn same(a: &str, b: &str) -> (r: bool)
    ensures
        r == (a@ == b@),
{
    let x = chars_of(a);
    let y = chars_of(b);
    if x.len() != y.len() {
        return false;
    }
    let mut i: usize = 0;
    while i < x.len()
        invariant
            i <= x@.len() == y@.len(),
            forall|j: int| 0 <= j < i ==> x@[j] == y@[j],
            x@ == a@,
            y@ == b@,
        decreases x.len() - i,
    {
        if x[i] != y[i] {
            return false;
        }
        i = i + 1;
    }
    assert(x@ =~= y@);
    true
}

/// The part of `s` from character `from` up to character `to`.
pub fn slice<'a>(s: &'a str, from: usize, to: usize) -> (r: &'a str)
    requires
        from <= to <= s@.len(),
    ensures
        r@ == s@.subrange(from as int, to as int),
{
    s.substring_char(from, to)
}

/// The position of the first `c` in `v`, or its length.
fn position(v: &Vec<char>, c: char) -> (i: usize)
    ensures
        i == find(v@, c),
        i <= v@.len(),
{
    let mut i: usize = 0;
    while i < v.len()
        invariant
            i <= v@.len(),
            forall|j: int| 0 <= j < i ==> v@[j] != c,
        ensures
            i <= v@.len(),
            i < v@.len() ==> v@[i as int] == c,
            forall|j: int| 0 <= j < i ==> v@[j] != c,
        decreases v.len() - i,
    {
        if v[i] == c {
            break;
        }
        i = i + 1;
    }
    proof {
        lemma_find_unique(v@, c, i as int);
    }
    i
}

/// Tells whether `s` holds the character `c`.
pub fn has_char(s: &str, c: char) -> (r: bool)
    ensures
        r == s@.contains(c),
{
    let v = chars_of(s);
    let i = position(&v, c);
    proof {
        lemma_find(v@, c);
    }
    i < v.len()
}

/// Splits `s` at its first `c`.
pub fn split_once<'a>(s: &'a str, c: char) -> (r: Option<(&'a str, &'a str)>)
    ensures
        match r {
            Some((head, tail)) => cut(s@, c) == Some((head@, tail@)),
            None => cut(s@, c) is None,
        },
{
    let v = chars_of(s);
    let i = position(&v, c);
    if i < v.len() {
        let head = slice(s, 0, i);
        let tail = slice(s, i + 1, v.len());
        assert(head@ =~= s@.take(i as int));
        assert(tail@ =~= s@.skip(i + 1));
        Some((head, tail))
    } else {
        None
    }
}

/// Splits `s` at its first white space: the word before it, and what follows it.
pub fn split_word<'a>(s: &'a str) -> (r: (&'a str, Option<&'a str>))
    ensures
        r.0@ == s@.take(find_space(s@)),
        match r.1 {
            Some(tail) => find_space(s@) < s@.len() && tail@ == s@.skip(find_space(s@) + 1),
            None => find_space(s@) == s@.len(),
        },
{
    let v = chars_of(s);
    let mut i: usize = 0;
    while i < v.len()
        invariant
            i <= v@.len(),
            forall|j: int| 0 <= j < i ==> !is_space(v@[j]),
        ensures
            i <= v@.len(),
            i < v@.len() ==> is_space(v@[i as int]),
            forall|j: int| 0 <= j < i ==> !is_space(v@[j]),
        decreases v.len() - i,
    {
        if is_whitespace(v[i]) {
            break;
        }
        i = i + 1;
    }
    proof {
        lemma_find_space(s@);
    }
    let word = slice(s, 0, i);
    assert(word@ =~= s@.take(i as int));
    if i < v.len() {
        let tail = slice(s, i + 1, v.len());
        assert(tail@ =~= s@.skip(i + 1));
        (word, Some(tail))
    } else {
        (word, None)
    }
}

/// Splits `s` at every `c`.
pub fn split<'a>(s: &'a str, c: char) -> (r: Vec<&'a str>)
    ensures
        r@.map_values(|p: &'a str| p@) == pieces(s@, c),
{
    let v = chars_of(s);
    let n = v.len();
    let mut r: Vec<&'a str> = Vec::new();
    let mut start: usize = 0;
    let mut i: usize = 0;
    assert(s@.skip(0) =~= s@);
    let ghost view = |p: &'a str| p@;
    assert(r@.map_values(view) + pieces(s@.skip(0), c) =~= pieces(s@, c));
    while i < n
        invariant
            n == v@.len(),
            v@ == s@,
            start <= i <= n,
            forall|j: int| start <= j < i ==> v@[j] != c,
            view == (|p: &'a str| p@),
            r@.map_values(view) + pieces(s@.skip(start as int), c) == pieces(s@, c),
        decreases n - i,
    {
        if v[i] == c {
            let piece = slice(s, start, i);
            proof {
                let rest = s@.skip(start as int);
                assert(forall|j: int| 0 <= j < i - start ==> rest[j] == v@[start + j]);
                lemma_find_unique(rest, c, i - start);
                assert(piece@ =~= rest.take(i - start));
                assert(rest.skip(i - start + 1) =~= s@.skip(i + 1));
                assert(r@.push(piece).map_values(view) =~= r@.map_values(view).push(piece@));
                assert(r@.map_values(view).push(piece@) + pieces(s@.skip(i + 1), c)
                    =~= r@.map_values(view) + (seq![piece@] + pieces(s@.skip(i + 1), c)));
            }
            r.push(piece);
            start = i + 1;
        }
        i = i + 1;
    }
    let piece = slice(s, start, n);
    proof {
        let rest = s@.skip(start as int);
        assert(forall|j: int| 0 <= j < n - start ==> rest[j] == v@[start + j]);
        lemma_find_unique(rest, c, n - start);
        assert(piece@ =~= rest);
        assert(r@.push(piece).map_values(view) =~= r@.map_values(view) + seq![piece@]);
    }
    r.push(piece);
    r
}

/// Dropping leading white space one by one leads to the trimmed text.
proof fn lemma_trim_start(s: Seq<char>, i: int)
    requires
        0 <= i <= s.len(),
        forall|j: int| 0 <= j < i ==> is_space(s[j]),
    ensures
        trimmed_start(s) == trimmed_start(s.skip(i)),
    decreases i,
{
    if i == 0 {
        assert(s.skip(0) =~= s);
    } else {
        lemma_trim_start(s, i - 1);
        let t = s.skip(i - 1);
        assert(t[0] == s[i - 1]);
        assert(t.drop_first() =~= s.skip(i));
    }
}

/// Dropping trailing white space one by one leads to the trimmed text.
proof fn lemma_trim_end(s: Seq<char>, i: int)
    requires
        0 <= i <= s.len(),
        forall|j: int| i <= j < s.len() ==> is_space(s[j]),
    ensures
        trimmed_end(s) == trimmed_end(s.take(i)),
    decreases s.len() - i,
{
    if i == s.len() {
        assert(s.take(i) =~= s);
    } else {
        lemma_trim_end(s, i + 1);
        let t = s.take(i + 1);
        assert(t.last() == s[i]);
        assert(t.drop_last() =~= s.take(i));
    }
}

/// Drops the leading white space of `s`.
pub fn trim_start<'a>(s: &'a str) -> (r: &'a str)
    ensures
        r@ == trimmed_start(s@),
{
    let v = chars_of(s);
    let n = v.len();
    let mut i: usize = 0;
    while i < n && is_whitespace(v[i])
        invariant
            n == v@.len(),
            v@ == s@,
            i <= n,
            forall|j: int| 0 <= j < i ==> is_space(v@[j]),
        decreases n - i,
    {
        i = i + 1;
    }
    proof {
        lemma_trim_start(s@, i as int);
        if i < n {
            assert(s@.skip(i as int)[0] == v@[i as int]);
        }
        assert(s@.subrange(i as int, n as int) =~= s@.skip(i as int));
    }
    slice(s, i, n)
}

/// Drops the trailing white space of `s`.
pub fn trim_end<'a>(s: &'a str) -> (r: &'a str)
    ensures
        r@ == trimmed_end(s@),
{
    let v = chars_of(s);
    let n = v.len();
    let mut i: usize = n;
    while i > 0 && is_whitespace(v[i - 1])
        invariant
            n == v@.len(),
            v@ == s@,
            i <= n,
            forall|j: int| i <= j < n ==> is_space(v@[j]),
        decreases i,
    {
        i = i - 1;
    }
    proof {
        lemma_trim_end(s@, i as int);
        if i > 0 {
            assert(s@.take(i as int).last() == v@[i - 1]);
        }
        assert(s@.subrange(0, i as int) =~= s@.take(i as int));
    }
    slice(s, 0, i)
}

/// Drops the white space at both ends of `s`.
pub fn trim<'a>(s: &'a str) -> (r: &'a str)
    ensures
        r@ == trimmed(s@),
{
    trim_end(trim_start(s))
}

/// Tells whether `v` holds `part` from position `i` on.
fn matches_at(v: &Vec<char>, i: usize, part: &Vec<char>) -> (r: bool)
    requires
        i <= v@.len(),
    ensures
        r == begins(v@.skip(i as int), part@),
{
    let n = v.len();
    if part.len() > n - i {
        return false;
    }
    let mut k: usize = 0;
    let ghost rest = v@.skip(i as int);
    while k < part.len()
        invariant
            n == v@.len(),
            i <= n,
            part@.len() <= n - i,
            k <= part@.len(),
            rest == v@.skip(i as int),
            forall|j: int| 0 <= j < k ==> v@[i + j] == part@[j],
        decreases part.len() - k,
    {
        if v[i + k] != part[k] {
            assert(rest.take(part@.len() as int)[k as int] == v@[i + k]);
            return false;
        }
        k = k + 1;
    }
    assert(rest.take(part@.len() as int) =~= part@);
    true
}

/// What follows `prefix` in `s`, if `s` begins with it.
pub fn strip_prefix<'a>(s: &'a str, prefix: &str) -> (r: Option<&'a str>)
    ensures
        match r {
            Some(rest) => begins(s@, prefix@) && rest@ == s@.skip(prefix@.len() as int),
            None => !begins(s@, prefix@),
        },
{
    let v = chars_of(s);
    let p = chars_of(prefix);
    assert(v@.skip(0) =~= v@);
    if matches_at(&v, 0, &p) {
        let rest = slice(s, p.len(), v.len());
        assert(rest@ =~= s@.skip(prefix@.len() as int));
        Some(rest)
    } else {
        None
    }
}

/// Tells whether `s` begins with `prefix`.
pub fn starts_with(s: &str, prefix: &str) -> (r: bool)
    ensures
        r == begins(s@, prefix@),
{
    strip_prefix(s, prefix).is_some()
}

/// Tells whether `part` stands somewhere in `s`.
pub fn contains(s: &str, part: &str) -> (r: bool)
    ensures
        r == occurs(s@, part@),
{
    let v = chars_of(s);
    let p = chars_of(part);
    let mut i: usize = 0;
    while i < v.len()
        invariant
            v@ == s@,
            p@ == part@,
            i <= v@.len(),
            forall|j: int| 0 <= j < i ==> !begins(#[trigger] s@.skip(j), part@),
        decreases v.len() - i,
    {
        if matches_at(&v, i, &p) {
            assert(s@.skip(i as int).take(part@.len() as int) =~= s@.subrange(
                i as int,
                i + part@.len(),
            ));
            return true;
        }
        i = i + 1;
    }
    let r = matches_at(&v, i, &p);
    proof {
        if r {
            assert(s@.skip(i as int).take(part@.len() as int) =~= s@.subrange(
                i as int,
                i + part@.len(),
            ));
        } else if occurs(s@, part@) {
            let k = choose|k: int|
                0 <= k <= s@.len() - part@.len() && #[trigger] s@.subrange(k, k + part@.len())
                    == part@;
            assert(s@.skip(k).take(part@.len() as int) =~= s@.subrange(k, k + part@.len()));
            assert(begins(s@.skip(k), part@));
        }
    }
    r
}

/// Replaces every `from` that is met from the left in `s` by `to`.
pub fn replace(s: &str, from: &str, to: &str) -> (r: String)
    ensures
        r@ == replaced(s@, from@, to@),
{
    let v = chars_of(s);
    let f = chars_of(from);
    if f.len() == 0 {
        return s.to_owned();
    }
    let n = v.len();
    let mut out = String::new();
    let mut i: usize = 0;
    assert(s@.skip(0) =~= s@);
    assert(out@ + replaced(s@.skip(0), from@, to@) =~= replaced(s@, from@, to@));
    while i < n
        invariant
            n == v@.len(),
            v@ == s@,
            f@ == from@,
            f@.len() > 0,
            i <= n,
            out@ + replaced(s@.skip(i as int), from@, to@) == replaced(s@, from@, to@),
        decreases n - i,
    {
        let ghost rest = s@.skip(i as int);
        let ghost done = out@;
        if matches_at(&v, i, &f) {
            out.append(to);
            proof {
                assert(rest.skip(from@.len() as int) =~= s@.skip(i + from@.len()));
                assert(done + (to@ + replaced(rest.skip(from@.len() as int), from@, to@)) =~= (done
                    + to@) + replaced(rest.skip(from@.len() as int), from@, to@));
            }
            i = i + f.len();
        } else {
            let one = slice(s, i, i + 1);
            out.append(one);
            proof {
                assert(one@ =~= seq![rest[0]]);
                assert(rest.drop_first() =~= s@.skip(i + 1));
                assert(done + (seq![rest[0]] + replaced(rest.drop_first(), from@, to@)) =~= (done
                    + one@) + replaced(rest.drop_first(), from@, to@));
            }
            i = i + 1;
        }
    }
    assert(s@.skip(n as int) =~= Seq::<char>::empty());
    assert(out@ =~= out@ + replaced(s@.skip(n as int), from@, to@));
    out
}

/// The position of the first zero byte, or the number of bytes if there is none.
pub open spec fn nul_at(bytes: Seq<u8>) -> int
    decreases bytes.len(),
{
    if bytes.len() == 0 || bytes[0] == 0 {
        0
    } else {
        1 + nul_at(bytes.drop_first())
    }
}

proof fn lemma_nul_at(bytes: Seq<u8>, i: int)
    requires
        0 <= i <= bytes.len(),
        i < bytes.len() ==> bytes[i] == 0,
        forall|j: int| 0 <= j < i ==> bytes[j] != 0,
    ensures
        nul_at(bytes) == i,
    decreases bytes.len(),
{
    if bytes.len() > 0 && bytes[0] != 0 {
        let rest = bytes.drop_first();
        assert forall|j: int| 0 <= j < i - 1 implies rest[j] != 0 by {
            assert(rest[j] == bytes[j + 1]);
        }
        lemma_nul_at(rest, i - 1);
    }
}

/// Finds the first zero byte.
pub fn first_nul(bytes: &[u8]) -> (r: Option<usize>)
    ensures
        match r {
            Some(i) => i == nul_at(bytes@) && i < bytes@.len(),
            None => nul_at(bytes@) == bytes@.len(),
        },
{
    let n = bytes.len();
    let mut i: usize = 0;
    while i < n
        invariant
            n == bytes@.len(),
            i <= n,
            forall|j: int| 0 <= j < i ==> bytes@[j] != 0,
        decreases n - i,
    {
        if bytes[i] == 0 {
            proof {
                lemma_nul_at(bytes@, i as int);
            }
            return Some(i);
        }
        i = i + 1;
    }
    proof {
        lemma_nul_at(bytes@, i as int);
    }
    None
}

/// Why a text is not a number.
#[derive(Debug, Clone, Copy, PartialEq, Eq, Structural)]
pub enum IntError {
    /// The text is empty.
    Empty,
    /// A character is not a digit, or there is nothing but a sign.
    InvalidDigit,
    /// The number does not fit.
    PosOverflow,
}

impl IntError {
    /// The message for people.
    pub open spec fn text(self) -> Seq<char> {
        match self {
            IntError::Empty => "cannot parse integer from empty string"@,
            IntError::InvalidDigit => "invalid digit found in string"@,
            IntError::PosOverflow => "number too large to fit in target type"@,
        }
    }

    /// The message for people.
    pub fn message(self) -> (r: &'static str)
        ensures
            r@ == self.text(),
    {
        match self {
            IntError::Empty => "cannot parse integer from empty string",
            IntError::InvalidDigit => "invalid digit found in string",
            IntError::PosOverflow => "number too large to fit in target type",
        }
    }
}

/// `c` is one of the ten decimal digits of ASCII.
pub open spec fn is_digit(c: char) -> bool {
    '0' <= c <= '9'
}

/// The number that the digits `s` spell after `acc`, as long as it stays a `u32`.
pub open spec fn digits_value(s: Seq<char>, acc: int) -> Result<int, IntError>
    decreases s.len(),
{
    if s.len() == 0 {
        Ok(acc)
    } else if !is_digit(s[0]) {
        Err(IntError::InvalidDigit)
    } else {
        let next = acc * 10 + (s[0] as int - '0' as int);
        if next > u32::MAX {
            Err(IntError::PosOverflow)
        } else {
            digits_value(s.drop_first(), next)
        }
    }
}

/// The number that `s` spells in decimal, with an optional `+` before the digits.
pub open spec fn parsed(s: Seq<char>) -> Result<int, IntError> {
    if s.len() == 0 {
        Err(IntError::Empty)
    } else if s[0] == '+' {
        if s.len() == 1 {
            Err(IntError::InvalidDigit)
        } else {
            digits_value(s.drop_first(), 0)
        }
    } else {
        digits_value(s, 0)
    }
}

/// Reads a decimal number.
pub fn parse_u32(s: &str) -> (r: Result<u32, IntError>)
    ensures
        match r {
            Ok(n) => parsed(s@) == Ok::<int, IntError>(n as int),
            Err(e) => parsed(s@) == Err::<int, IntError>(e),
        },
{
    let v = chars_of(s);
    let n = v.len();
    if n == 0 {
        return Err(IntError::Empty);
    }
    let mut i: usize = 0;
    if v[0] == '+' {
        if n == 1 {
            return Err(IntError::InvalidDigit);
        }
        i = 1;
    }
    let mut acc: u32 = 0;
    proof {
        assert(s@.skip(0) =~= s@);
        assert(s@.skip(1) =~= s@.drop_first());
    }
    while i < n
        invariant
            n == v@.len(),
            v@ == s@,
            i <= n,
            parsed(s@) == digits_value(s@.skip(i as int), acc as int),
        decreases n - i,
    {
        let ghost rest = s@.skip(i as int);
        let c = v[i];
        assert(rest[0] == c);
        if c < '0' || '9' < c {
            return Err(IntError::InvalidDigit);
        }
        let d: u32 = c as u32 - '0' as u32;
        let next: u64 = acc as u64 * 10 + d as u64;
        if next > u32::MAX as u64 {
            return Err(IntError::PosOverflow);
        }
        acc = next as u32;
        i = i + 1;
        assert(rest.drop_first() =~= s@.skip(i as int));
    }
    Ok(acc)
}

/// The digit of a number below ten.
pub open spec fn digit_char(d: int) -> char {
    ('0' as int + d) as char
}

/// The decimal digits of `n`.
pub open spec fn decimal(n: nat) -> Seq<char>
    decreases n,
{
    if n < 10 {
        seq![digit_char(n as int)]
    } else {
        decimal(n / 10).push(digit_char((n % 10) as int))
    }
}

/// One digit as text.
fn digit_text(d: u32) -> (r: &'static str)
    requires
        d < 10,
    ensures
        r@ == seq![digit_char(d as int)],
{
    proof {
        reveal_strlit("0");
        reveal_strlit("1");
        reveal_strlit("2");
        reveal_strlit("3");
        reveal_strlit("4");
        reveal_strlit("5");
        reveal_strlit("6");
        reveal_strlit("7");
        reveal_strlit("8");
        reveal_strlit("9");
    }
    match d {
        0 => "0",
        1 => "1",
        2 => "2",
        3 => "3",
        4 => "4",
        5 => "5",
        6 => "6",
        7 => "7",
        8 => "8",
        _ => "9",
    }
}

/// Writes `n` in decimal.
pub fn u32_text(n: u32) -> (r: String)
    ensures
        r@ == decimal(n as nat),
    decreases n,
{
    if n < 10 {
        digit_text(n).to_owned()
    } else {
        let mut r = u32_text(n / 10);
        r.append(digit_text(n % 10));
        r
    }
}

/// Writes `n` in decimal.
pub fn usize_text(n: usize) -> (r: String)
    ensures
        r@ == decimal(n as nat),
    decreases n,
{
    if n < 10 {
        digit_text(n as u32).to_owned()
    } else {
        let mut r = usize_text(n / 10);
        r.append(digit_text((n % 10) as u32));
        r
    }
}

/// The decimal digits of an integer, with `-` before those of a negative one.
pub open spec fn signed_decimal(n: int) -> Seq<char> {
    if n < 0 {
        seq!['-'] + decimal((-n) as nat)
    } else {
        decimal(n as nat)
    }
}

/// Writes `n` in decimal.
pub fn i32_text(n: i32) -> (r: String)
    ensures
        r@ == signed_decimal(n as int),
{
    if n < 0 {
        let mut r = "-".to_owned();
        let size: u32 = (-(n as i64)) as u32;
        r.append(u32_text(size).as_str());
        proof {
            reveal_strlit("-");
            assert("-"@ =~= seq!['-']);
        }
        r
    } else {
        u32_text(n as u32)
    }
}

/// Reading digits piece by piece.
proof fn lemma_digits_append(s: Seq<char>, c: char, acc: int)
    requires
        acc >= 0,
        is_digit(c),
        digits_value(s, acc) matches Ok(v) && v * 10 + (c as int - '0' as int) <= u32::MAX,
    ensures
        digits_value(s.push(c), acc) == Ok::<int, IntError>(
            digits_value(s, acc)->Ok_0 * 10 + (c as int - '0' as int),
        ),
    decreases s.len(),
{
    let t = s.push(c);
    if s.len() == 0 {
        assert(t[0] == c);
        assert(t.drop_first() =~= Seq::<char>::empty());
        assert(digits_value(t.drop_first(), acc * 10 + (c as int - '0' as int)) == Ok::<
            int,
            IntError,
        >(acc * 10 + (c as int - '0' as int)));
    } else {
        assert(t[0] == s[0]);
        assert(t.drop_first() =~= s.drop_first().push(c));
        lemma_digits_append(s.drop_first(), c, acc * 10 + (s[0] as int - '0' as int));
    }
}

proof fn lemma_decimal(n: nat)
    requires
        n <= u32::MAX,
    ensures
        decimal(n).len() > 0,
        is_digit(decimal(n)[0]),
        digits_value(decimal(n), 0) == Ok::<int, IntError>(n as int),
    decreases n,
{
    if n < 10 {
        let s = decimal(n);
        assert(s.drop_first() =~= Seq::<char>::empty());
        assert(digits_value(s.drop_first(), n as int) == Ok::<int, IntError>(n as int));
    } else {
        lemma_decimal(n / 10);
        lemma_digits_append(decimal(n / 10), digit_char((n % 10) as int), 0);
    }
}

/// `decimal` writes digits only.
pub proof fn lemma_decimal_digits(n: nat)
    ensures
        decimal(n).len() > 0,
        forall|i: int| 0 <= i < decimal(n).len() ==> is_digit(#[trigger] decimal(n)[i]),
    decreases n,
{
    if n >= 10 {
        lemma_decimal_digits(n / 10);
    }
}

/// Reading a number back from its decimal digits gives that number.
pub proof fn law_parse_decimal(n: u32)
    ensures
        parsed(decimal(n as nat)) == Ok::<int, IntError>(n as int),
{
    lemma_decimal(n as nat);
}

/// What `char::is_numeric` answers for a character beyond ASCII.
pub uninterp spec fn wide_numeric(c: char) -> bool;

/// `c` belongs to one of the Unicode categories for numbers. Of the ASCII characters these are
/// the ten digits.
pub open spec fn numeric(c: char) -> bool {
    if '\u{80}' > c {
        is_digit(c)
    } else {
        wide_numeric(c)
    }
}

/// `char::is_numeric`: whether `c` is in one of the Unicode categories for numbers (`Nd`, `Nl`,
/// `No`). Of the ASCII characters these are the ten digits; beyond ASCII the answer only has a
/// name.
#[verifier::external_body]
fn is_numeric(c: char) -> (r: bool)
    ensures
        '\u{80}' > c ==> r == is_digit(c),
        '\u{80}' <= c ==> r == wide_numeric(c),
{
    c.is_numeric()
}

/// Tells whether every character of `s` is numeric; an empty text has none that is not.
pub fn all_numeric(s: &str) -> (r: bool)
    ensures
        r == (forall|i: int| 0 <= i < s@.len() ==> numeric(#[trigger] s@[i])),
{
    let v = chars_of(s);
    let mut i: usize = 0;
    while i < v.len()
        invariant
            v@ == s@,
            i <= v@.len(),
            forall|j: int| 0 <= j < i ==> numeric(#[trigger] s@[j]),
        decreases v.len() - i,
    {
        if !is_numeric(v[i]) {
            assert(!numeric(s@[i as int]));
            return false;
        }
        i = i + 1;
    }
    true
}

/// What `str::to_lowercase` returns.
pub uninterp spec fn lowercase(s: Seq<char>) -> Seq<char>;

/// `str::to_lowercase`: the text with each character in its Unicode lower case.
#[verifier::external_body]
pub(crate) fn to_lowercase(s: &str) -> (r: String)
    ensures
        r@ == lowercase(s@),
{
    s.to_lowercase()
}

/// The message of the error that `std::str::from_utf8` reports for bytes that are not UTF-8.
pub uninterp spec fn utf8_fault(bytes: Seq<u8>) -> Seq<char>;

/// `std::str::from_utf8`: the text whose UTF-8 encoding is `bytes`, or the message of the error
/// if `bytes` is not valid UTF-8.
#[verifier::external_body]
pub(crate) fn from_utf8(bytes: &[u8]) -> (r: Result<String, String>)
    ensures
        match r {
            Ok(s) => vstd::utf8::encode_utf8(s@) == bytes@,
            Err(e) => !vstd::utf8::valid_utf8(bytes@) && e@ == utf8_fault(bytes@),
        },
{
    match std::str::from_utf8(bytes) {
        Ok(s) => Ok(s.to_owned()),
        Err(e) => Err(e.to_string()),
    }
}

// ---------------------------------------------------------------------------------------------
// What the operations on texts come to
// ---------------------------------------------------------------------------------------------

/// Trimming takes away the white space around a text that neither begins nor ends with any, and
/// nothing else.
pub proof fn law_trimmed(lead: Seq<char>, inner: Seq<char>, trail: Seq<char>)
    requires
        forall|i: int| 0 <= i < lead.len() ==> is_space(#[trigger] lead[i]),
        forall|i: int| 0 <= i < trail.len() ==> is_space(#[trigger] trail[i]),
        inner.len() > 0 ==> !is_space(inner[0]) && !is_space(inner.last()),
    ensures
        trimmed(lead + inner + trail) == inner,
        trimmed_start(lead + inner) == inner,
{
    let s = lead + inner + trail;
    lemma_trim_start(s, lead.len() as int);
    assert(s.skip(lead.len() as int) =~= inner + trail);
    lemma_trim_start(lead + inner, lead.len() as int);
    assert((lead + inner).skip(lead.len() as int) =~= inner);
    if inner.len() > 0 {
        assert((inner + trail)[0] == inner[0]);
        lemma_trim_end(inner + trail, inner.len() as int);
        assert((inner + trail).take(inner.len() as int) =~= inner);
    } else {
        assert(inner + trail =~= trail);
        lemma_trim_start(trail, trail.len() as int);
        assert(trail.skip(trail.len() as int) =~= inner);
    }
}

/// What is left of a trimmed text stood in it.
pub(crate) proof fn lemma_trimmed_within(s: Seq<char>)
    ensures
        forall|c: char| trimmed_start(s).contains(c) ==> s.contains(c),
        forall|c: char| trimmed(s).contains(c) ==> s.contains(c),
{
    lemma_trimmed_start_within(s);
    lemma_trimmed_end_within(trimmed_start(s));
}

proof fn lemma_trimmed_start_within(s: Seq<char>)
    ensures
        forall|c: char| trimmed_start(s).contains(c) ==> s.contains(c),
    decreases s.len(),
{
    if s.len() > 0 && is_space(s[0]) {
        let t = s.drop_first();
        lemma_trimmed_start_within(t);
        assert forall|c: char| t.contains(c) implies s.contains(c) by {
            assert(s[t.index_of(c) + 1] == c);
        }
    }
}

proof fn lemma_trimmed_end_within(s: Seq<char>)
    ensures
        forall|c: char| trimmed_end(s).contains(c) ==> s.contains(c),
    decreases s.len(),
{
    if s.len() > 0 && is_space(s.last()) {
        let t = s.drop_last();
        lemma_trimmed_end_within(t);
        assert forall|c: char| t.contains(c) implies s.contains(c) by {
            assert(s[t.index_of(c)] == c);
        }
    }
}

/// Trimming takes away no character that is not white space.
pub(crate) proof fn lemma_trimmed_keeps(s: Seq<char>, i: int)
    requires
        0 <= i < s.len(),
        !is_space(s[i]),
    ensures
        trimmed(s).len() > 0,
{
    lemma_trimmed_start_keeps(s, i);
    let t = trimmed_start(s);
    lemma_trimmed_end_keeps(t, t.index_of(s[i]));
}

proof fn lemma_trimmed_start_keeps(s: Seq<char>, i: int)
    requires
        0 <= i < s.len(),
        !is_space(s[i]),
    ensures
        trimmed_start(s).contains(s[i]),
    decreases s.len(),
{
    if is_space(s[0]) {
        assert(s.drop_first()[i - 1] == s[i]);
        lemma_trimmed_start_keeps(s.drop_first(), i - 1);
    }
}

proof fn lemma_trimmed_end_keeps(s: Seq<char>, i: int)
    requires
        0 <= i < s.len(),
        !is_space(s[i]),
    ensures
        trimmed_end(s).len() > 0,
    decreases s.len(),
{
    if is_space(s.last()) {
        assert(s.drop_last()[i] == s[i]);
        lemma_trimmed_end_keeps(s.drop_last(), i);
    }
}

/// A text is cut at the first separator, which belongs to neither part, and not at all where
/// there is none.
pub proof fn law_cut(before: Seq<char>, c: char, after: Seq<char>)
    requires
        !before.contains(c),
    ensures
        cut(before + seq![c] + after, c) == Some((before, after)),
        cut(before, c) is None,
{
    let s = before + seq![c] + after;
    let n = before.len() as int;
    assert(s[n] == c);
    assert forall|j: int| 0 <= j < n implies s[j] != c by {
        assert(before.contains(before[j]));
    }
    lemma_find_unique(s, c, n);
    assert(s.take(n) =~= before);
    assert(s.skip(n + 1) =~= after);
    lemma_find(before, c);
}

/// A list is taken apart at each of its separators: what stands before the first one is the first
/// piece, and the rest is a list again. A list without a separator is one piece.
pub proof fn law_pieces(first: Seq<char>, c: char, rest: Seq<char>)
    requires
        !first.contains(c),
    ensures
        pieces(first, c) == seq![first],
        pieces(first + seq![c] + rest, c) == seq![first] + pieces(rest, c),
{
    law_cut(first, c, rest);
    lemma_find(first, c);
    let s = first + seq![c] + rest;
    let n = first.len() as int;
    assert(s[n] == c);
    assert forall|j: int| 0 <= j < n implies s[j] != c by {
        assert(first.contains(first[j]));
    }
    lemma_find_unique(s, c, n);
    assert(s.take(n) =~= first);
    assert(s.skip(n + 1) =~= rest);
}

/// A text begins with a prefix if it is the prefix and some rest, and holds a part if it is that
/// part with something on either side.
pub proof fn law_parts(s: Seq<char>, part: Seq<char>)
    ensures
        begins(s, part) <==> exists|rest: Seq<char>| s == #[trigger] (part + rest),
        occurs(s, part) <==> exists|a: Seq<char>, b: Seq<char>| s == #[trigger] (a + part + b),
{
    let n = part.len() as int;
    if begins(s, part) {
        assert(s =~= part + s.skip(n));
    }
    if exists|rest: Seq<char>| s == #[trigger] (part + rest) {
        assert(s.take(n) =~= part);
    }
    if occurs(s, part) {
        let i = choose|i: int| 0 <= i <= s.len() - n && #[trigger] s.subrange(i, i + n) == part;
        assert(s =~= s.take(i) + part + s.skip(i + n)) by {
            assert forall|j: int| i <= j < i + n implies s[j] == part[j - i] by {
                assert(s.subrange(i, i + n)[j - i] == s[j]);
            }
        }
    }
    if exists|a: Seq<char>, b: Seq<char>| s == #[trigger] (a + part + b) {
        let (a, b) = choose|a: Seq<char>, b: Seq<char>| s == #[trigger] (a + part + b);
        assert(s.subrange(a.len() as int, a.len() + n) =~= part);
    }
}

/// The first occurrence of a text is replaced, and the search goes on behind it. A text without
/// an occurrence stays as it is.
pub proof fn law_replaced(before: Seq<char>, from: Seq<char>, to: Seq<char>, after: Seq<char>)
    requires
        from.len() > 0,
        forall|i: int|
            0 <= i < before.len() ==> !begins(#[trigger] (before + from + after).skip(i), from),
    ensures
        replaced(before + from + after, from, to) == before + to + replaced(after, from, to),
    decreases before.len(),
{
    let s = before + from + after;
    if before.len() == 0 {
        assert(s.take(from.len() as int) =~= from);
        assert(s.skip(from.len() as int) =~= after);
        assert(before + to =~= to);
    } else {
        assert(s.skip(0) =~= s);
        let rest = before.drop_first();
        let t = rest + from + after;
        assert(s.drop_first() =~= t);
        assert forall|i: int| 0 <= i < rest.len() implies !begins(#[trigger] t.skip(i), from) by {
            assert(t.skip(i) =~= s.skip(i + 1));
        }
        law_replaced(rest, from, to, after);
        assert(s[0] == before[0]);
        assert(seq![s[0]] + (rest + to + replaced(after, from, to)) =~= before + to + replaced(
            after,
            from,
            to,
        ));
    }
}

/// A text that does not hold what is to be replaced stays as it is.
pub proof fn law_unreplaced(s: Seq<char>, from: Seq<char>, to: Seq<char>)
    requires
        !occurs(s, from),
    ensures
        replaced(s, from, to) == s,
    decreases s.len(),
{
    if from.len() > 0 && s.len() > 0 {
        let n = from.len() as int;
        if begins(s, from) {
            assert(s.subrange(0, 0 + n) =~= s.take(n));
            assert(false);
        }
        let t = s.drop_first();
        if occurs(t, from) {
            let i = choose|i: int|
                0 <= i <= t.len() - n && #[trigger] t.subrange(i, i + n) == from;
            assert(s.subrange(i + 1, i + 1 + n) =~= t.subrange(i, i + n));
            assert(false);
        }
        law_unreplaced(t, from, to);
        assert(seq![s[0]] + t =~= s);
    }
}

/// A C string ends before its first null byte.
pub proof fn law_c_string(before: Seq<u8>, after: Seq<u8>)
    requires
        !before.contains(0),
    ensures
        nul_at(before + seq![0u8] + after) == before.len(),
        nul_at(before) == before.len(),
{
    let s = before + seq![0u8] + after;
    let n = before.len() as int;
    assert(s[n] == 0);
    assert forall|j: int| 0 <= j < n implies s[j] != 0 && before[j] != 0 by {
        assert(before.contains(before[j]));
        assert(s[j] == before[j]);
    }
    lemma_nul_at(s, n);
    lemma_nul_at(before, n);
}

/// The decimal notation of a number: one digit for a number below ten, and one digit more for
/// each factor of ten. A number below zero has a sign in front.
pub proof fn law_decimal(n: nat, d: nat)
    requires
        d < 10,
    ensures
        decimal(d) == seq![('0' as int + d) as char],
        n > 0 ==> decimal(10 * n + d) == decimal(n).push(('0' as int + d) as char),
        signed_decimal(n as int) == decimal(n),
        n > 0 ==> signed_decimal(-(n as int)) == seq!['-'] + decimal(n),
{
    if n > 0 {
        assert((10 * n + d) / 10 == n);
        assert((10 * n + d) % 10 == d);
    }
}

proof fn lemma_digits_fault(s: Seq<char>, t: Seq<char>, acc: int)
    requires
        acc >= 0,
        digits_value(s, acc) is Err,
    ensures
        digits_value(s + t, acc) == digits_value(s, acc),
    decreases s.len(),
{
    if s.len() > 0 {
        assert((s + t)[0] == s[0]);
        let next = acc * 10 + (s[0] as int - '0' as int);
        if is_digit(s[0]) && next <= u32::MAX {
            assert((s + t).drop_first() =~= s.drop_first() + t);
            lemma_digits_fault(s.drop_first(), t, next);
        }
    }
}

proof fn lemma_digits_next(s: Seq<char>, c: char, acc: int)
    requires
        acc >= 0,
        digits_value(s, acc) is Ok,
    ensures
        digits_value(s, acc)->Ok_0 >= 0,
        !is_digit(c) ==> digits_value(s.push(c), acc) == Err::<int, IntError>(
            IntError::InvalidDigit,
        ),
        is_digit(c) ==> digits_value(s.push(c), acc) == ({
            let v = digits_value(s, acc)->Ok_0 * 10 + (c as int - '0' as int);
            if v <= u32::MAX {
                Ok(v)
            } else {
                Err::<int, IntError>(IntError::PosOverflow)
            }
        }),
    decreases s.len(),
{
    let t = s.push(c);
    if s.len() == 0 {
        assert(t[0] == c);
        assert(t.drop_first() =~= Seq::<char>::empty());
        assert(digits_value(t.drop_first(), acc * 10 + (c as int - '0' as int)) is Ok);
    } else {
        assert(t[0] == s[0]);
        assert(t.drop_first() =~= s.drop_first().push(c));
        lemma_digits_next(s.drop_first(), c, acc * 10 + (s[0] as int - '0' as int));
    }
}

/// A number is read digit by digit: each further digit weighs as much as ten of the last, as
/// long as the number fits in 32 bits. Anything that is no digit is refused, and what was refused
/// is not mended by what follows.
pub proof fn law_parse_digit(s: Seq<char>, c: char)
    ensures
        parsed(s) matches Ok(v) ==> v >= 0 && parsed(s.push(c)) == (if !('0' <= c <= '9') {
            Err::<int, IntError>(IntError::InvalidDigit)
        } else if v * 10 + (c as int - '0' as int) > 0xffff_ffff {
            Err(IntError::PosOverflow)
        } else {
            Ok(v * 10 + (c as int - '0' as int))
        }),
        parsed(s) is Err && s.len() > 0 && s != seq!['+'] ==> parsed(s.push(c)) == parsed(s),
{
    let t = s.push(c);
    if s.len() > 0 {
        assert(t[0] == s[0]);
        let (a, b) = if s[0] == '+' {
            (s.drop_first(), t.drop_first())
        } else {
            (s, t)
        };
        assert(b =~= a.push(c));
        if digits_value(a, 0) is Ok {
            lemma_digits_next(a, c, 0);
        } else {
            lemma_digits_fault(a, seq![c], 0);
            assert(a.push(c) =~= a + seq![c]);
        }
        if s[0] == '+' && s.len() == 1 {
            assert(s =~= seq!['+']);
        }
    }
}

/// One digit is a number, with or without a sign; nothing at all, or a sign alone, is none.
pub proof fn law_parse_first(c: char)
    ensures
        parsed(Seq::<char>::empty()) == Err::<int, IntError>(IntError::Empty),
        parsed(seq!['+']) == Err::<int, IntError>(IntError::InvalidDigit),
        '0' <= c <= '9' ==> parsed(seq![c]) == Ok::<int, IntError>(c as int - '0' as int),
        '0' <= c <= '9' ==> parsed(seq!['+', c]) == Ok::<int, IntError>(c as int - '0' as int),
        !('0' <= c <= '9') ==> parsed(seq![c]) == Err::<int, IntError>(IntError::InvalidDigit),
        !('0' <= c <= '9') ==> parsed(seq!['+', c]) == Err::<int, IntError>(
            IntError::InvalidDigit,
        ),
{
    assert(seq!['+', c].drop_first() =~= seq![c]);
    assert(seq![c].drop_first() =~= Seq::<char>::empty());
    assert(digits_value(Seq::<char>::empty(), c as int - '0' as int) is Ok);
}

/// Of the ASCII characters the ten digits are numeric, and no other.
pub proof fn law_ascii_numeric(c: char)
    requires
        (c as int) < 0x80,
    ensures
        numeric(c) <==> 0x30 <= c as int <= 0x39,
{
}

/// What is wrong with a number is said for people, in a sentence of its own for each fault.
pub proof fn law_number_faults(e: IntError)
    ensures
        e == IntError::Empty ==> e.text() == "cannot parse integer from empty string"@,
        e == IntError::InvalidDigit ==> e.text() == "invalid digit found in string"@,
        e == IntError::PosOverflow ==> e.text() == "number too large to fit in target type"@,
{
}

/// A list that is followed by a separator and one more piece has that piece more.
pub proof fn law_last_piece(s: Seq<char>, c: char, last: Seq<char>)
    requires
        !last.contains(c),
    ensures
        pieces(s + seq![c] + last, c) == pieces(s, c).push(last),
    decreases s.len(),
{
    lemma_find(s, c);
    let i = find(s, c);
    if i < s.len() {
        let first = s.take(i);
        let rest = s.skip(i + 1);
        assert(!first.contains(c));
        assert(s =~= first + seq![c] + rest);
        assert(s + seq![c] + last =~= first + seq![c] + (rest + seq![c] + last));
        law_pieces(first, c, rest);
        law_pieces(first, c, rest + seq![c] + last);
        law_last_piece(rest, c, last);
        assert(seq![first] + pieces(rest, c).push(last) =~= (seq![first] + pieces(rest, c)).push(
            last,
        ));
    } else {
        law_pieces(s, c, last);
        law_pieces(last, c, last);
        assert(seq![s] + seq![last] =~= seq![s].push(last));
    }
}

} // verus!
