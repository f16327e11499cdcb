//! Path patterns as character sequences: where the literal part of a pattern
//! ends, which directory a traversal starts from, and how deep it may go.

use crate::text::chars_of;
use vstd::prelude::*;

verus! {

/// The path separator.
pub open spec fn is_separator(c: char) -> bool {
    c == '/'
}

/// A character that ends the literal part of a pattern.
pub open spec fn is_meta(c: char) -> bool {
    c == '*' || c == '?' || c == '['
}

/// The first index at or after `i` that holds a metacharacter, or the length
/// of `p` when there is none.
pub open spec fn literal_end(p: Seq<char>, i: int) -> int
    decreases p.len() - i,
{
    if i < 0 || i >= p.len() || is_meta(p[i]) {
        i
    } else {
        literal_end(p, i + 1)
    }
}

/// The length of the literal prefix of `p`: everything before its first
/// metacharacter.
pub open spec fn literal_len(p: Seq<char>) -> int {
    literal_end(p, 0)
}

/// The literal prefix of `p`.
pub open spec fn literal_prefix(p: Seq<char>) -> Seq<char> {
    p.subrange(0, literal_len(p))
}

/// The end of the last separator among the first `k` characters of `p`, or 0
/// when none of them is a separator.
pub open spec fn separator_end(p: Seq<char>, k: int) -> int
    decreases k,
{
    if k <= 0 {
        0
    } else if is_separator(p[k - 1]) {
        k
    } else {
        separator_end(p, k - 1)
    }
}

/// The length of the root of pattern `p`.
pub open spec fn root_len(p: Seq<char>) -> int {
    separator_end(p, literal_len(p))
}

/// The root of pattern `p`: its longest literal prefix that ends with a
/// separator. It is empty when no separator precedes the first metacharacter.
pub open spec fn root_of(p: Seq<char>) -> Seq<char> {
    p.subrange(0, root_len(p))
}

/// Whether `p` holds `*` or `?`, which makes it a pattern to match against.
pub open spec fn has_wildcard(p: Seq<char>) -> bool {
    exists|i: int| 0 <= i < p.len() && (p[i] == '*' || p[i] == '?')
}

/// Whether `**` stands at index `i` of `p`.
pub open spec fn globstar_at(p: Seq<char>, i: int) -> bool {
    0 <= i && i + 1 < p.len() && p[i] == '*' && p[i + 1] == '*'
}

/// Whether `p` holds `**`, which lets a traversal descend without bound.
pub open spec fn has_globstar(p: Seq<char>) -> bool {
    exists|i: int| globstar_at(p, i)
}

/// Whether a path component of `s` starts at index `i`. A component is a
/// maximal run of characters other than the separator; a run that is a
/// single `.` names the directory it stands in and is no component.
pub open spec fn starts_component(s: Seq<char>, i: int) -> bool {
    &&& 0 <= i < s.len()
    &&& !is_separator(s[i])
    &&& (i == 0 || is_separator(s[i - 1]))
    &&& !(s[i] == '.' && (i + 1 == s.len() || is_separator(s[i + 1])))
}

/// The number of components that start among the first `n` characters of `s`.
pub open spec fn components_before(s: Seq<char>, n: int) -> nat
    decreases n,
{
    if n <= 0 {
        0
    } else {
        components_before(s, n - 1) + if starts_component(s, n - 1) {
            1nat
        } else {
            0nat
        }
    }
}

/// The number of path components of `s`.
pub open spec fn component_count(s: Seq<char>) -> nat {
    components_before(s, s.len() as int)
}

/// Where a traversal for `p` starts: at the root of the pattern when `p` has
/// a wildcard, at `p` itself when it has none.
pub open spec fn start_of(p: Seq<char>) -> Seq<char> {
    if has_wildcard(p) {
        root_of(p)
    } else {
        p
    }
}

/// How many levels below its start a traversal for `p` may go: no limit when
/// `p` holds `**`, else the number of components of `p` below the start.
pub open spec fn depth_limit(p: Seq<char>) -> Option<nat> {
    if has_globstar(p) {
        None
    } else {
        Some(component_count(p.skip(start_of(p).len() as int)))
    }
}

/// Nothing before the end of the literal part is a metacharacter, and what
/// stands at its end is one.
pub proof fn lemma_literal_end_bounds(p: Seq<char>, i: int)
    requires
        0 <= i <= p.len(),
    ensures
        i <= literal_end(p, i) <= p.len(),
        forall|j: int| i <= j < literal_end(p, i) ==> !is_meta(#[trigger] p[j]),
        literal_end(p, i) < p.len() ==> is_meta(p[literal_end(p, i)]),
    decreases p.len() - i,
{
    if i < p.len() && !is_meta(p[i]) {
        lemma_literal_end_bounds(p, i + 1);
    }
}

/// A separator stands right before the place found, and none stands between
/// it and `k`.
pub proof fn lemma_separator_end_bounds(p: Seq<char>, k: int)
    requires
        0 <= k <= p.len(),
    ensures
        0 <= separator_end(p, k) <= k,
        separator_end(p, k) > 0 ==> is_separator(p[separator_end(p, k) - 1]),
        forall|j: int| separator_end(p, k) <= j < k ==> !is_separator(#[trigger] p[j]),
    decreases k,
{
    if k > 0 && !is_separator(p[k - 1]) {
        lemma_separator_end_bounds(p, k - 1);
    }
}

/// The root of a pattern is a literal prefix of it.
pub proof fn lemma_root_is_prefix(p: Seq<char>)
    ensures
        0 <= root_len(p) <= literal_len(p) <= p.len(),
        root_of(p).len() == root_len(p),
        root_of(p).is_prefix_of(p),
        forall|j: int| 0 <= j < root_len(p) ==> !is_meta(#[trigger] p[j]),
        root_len(p) > 0 ==> is_separator(root_of(p).last()),
{
    lemma_literal_end_bounds(p, 0);
    lemma_separator_end_bounds(p, literal_len(p));
}

/// The length of the literal prefix of a pattern.
pub fn find_literal_len(chars: &Vec<char>) -> (k: usize)
    ensures
        k == literal_len(chars@),
        k <= chars.len(),
{
    let mut i: usize = 0;
    while i < chars.len() && !(chars[i] == '*' || chars[i] == '?' || chars[i] == '[')
        invariant
            i <= chars.len(),
            literal_end(chars@, 0) == literal_end(chars@, i as int),
        decreases chars.len() - i,
    {
        i += 1;
    }
    i
}

/// The length of the root of a pattern.
pub fn find_root_len(chars: &Vec<char>) -> (r: usize)
    ensures
        r == root_len(chars@),
        r <= literal_len(chars@) <= chars.len(),
{
    let k = find_literal_len(chars);
    let mut r: usize = 0;
    let mut i: usize = 0;
    while i < k
        invariant
            i <= k <= chars.len(),
            r <= i,
            r == separator_end(chars@, i as int),
        decreases k - i,
    {
        if chars[i] == '/' {
            r = i + 1;
        }
        i += 1;
    }
    r
}

/// Whether a pattern holds `*` or `?`.
pub fn contains_wildcard(chars: &Vec<char>) -> (r: bool)
    ensures
        r == has_wildcard(chars@),
{
    let mut i: usize = 0;
    while i < chars.len()
        invariant
            i <= chars.len(),
            forall|j: int| 0 <= j < i ==> !(chars@[j] == '*' || chars@[j] == '?'),
        decreases chars.len() - i,
    {
        if chars[i] == '*' || chars[i] == '?' {
            return true;
        }
        i += 1;
    }
    false
}

/// Whether a pattern holds `**`.
pub fn contains_globstar(chars: &Vec<char>) -> (r: bool)
    ensures
        r == has_globstar(chars@),
{
    let mut i: usize = 1;
    while i < chars.len()
        invariant
            1 <= i,
            forall|j: int| j + 1 < i ==> !globstar_at(chars@, j),
        decreases chars.len() - i,
    {
        if chars[i - 1] == '*' && chars[i] == '*' {
            assert(globstar_at(chars@, i - 1));
            return true;
        }
        i += 1;
    }
    false
}

/// The number of path components of `chars` from index `from` on.
pub fn count_components(chars: &Vec<char>, from: usize) -> (n: usize)
    requires
        from <= chars.len(),
    ensures
        n == component_count(chars@.skip(from as int)),
{
    let ghost rest = chars@.skip(from as int);
    let mut n: usize = 0;
    let mut i: usize = from;
    while i < chars.len()
        invariant
            from <= i <= chars.len(),
            rest == chars@.skip(from as int),
            n == components_before(rest, i - from),
            n <= i - from,
        decreases chars.len() - i,
    {
        let begins = chars[i] != '/' && (i == from || chars[i - 1] == '/');
        let lone_dot = chars[i] == '.' && (i + 1 == chars.len() || chars[i + 1] == '/');
        assert(starts_component(rest, i - from) == (begins && !lone_dot));
        if begins && !lone_dot {
            n += 1;
        }
        i += 1;
    }
    n
}

/// The directory that a traversal for the pattern `path` starts from: the
/// longest prefix of `path` that ends with a separator and precedes its first
/// metacharacter.
pub fn path_root(path: &str) -> (root: String)
    ensures
        root@ == root_of(path@),
{
    let chars = chars_of(path);
    let r = find_root_len(&chars);
    path.substring_char(0, r).to_owned()
}

} // verus!
