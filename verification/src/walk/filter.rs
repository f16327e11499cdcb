//! Predicates over path strings. A traversal yields an entry only if every
//! one of its filters matches the entry's path.

use crate::walk::err::Error;
use crate::text::{chars_of, ends_with, starts_with};
use crate::walk::path::find_literal_len;
use vstd::prelude::*;

verus! {

/// `glob::Pattern`, a compiled shell-style pattern.
#[verifier::external_type_specification]
#[verifier::external_body]
pub struct ExPattern(glob::Pattern);

/// The text that a compiled pattern was made from (what `Pattern::as_str`
/// returns).
pub uninterp spec fn pattern_source(p: glob::Pattern) -> Seq<char>;

/// Whether `glob::Pattern::new` accepts `text`. It refuses a `**` that is not
/// a whole path component, three or more `*` in a row, and a `[` that opens
/// no character class.
pub uninterp spec fn glob_compiles(text: Seq<char>) -> bool;

/// Whether the pattern compiled from `text` matches `path` under the given
/// `glob::MatchOptions`, as `glob::Pattern::matches_with` decides it where
/// `/` is the only path separator.
pub uninterp spec fn glob_matches(
    text: Seq<char>,
    path: Seq<char>,
    case_sensitive: bool,
    require_literal_separator: bool,
    require_literal_leading_dot: bool,
) -> bool;

/// `glob::Pattern::new`: compiles `text`, or says why it is no pattern. It
/// succeeds exactly on the texts that `glob_compiles` holds of, and the
/// pattern remembers its text.
#[verifier::external_body]
fn compile_pattern(text: &str) -> (r: Result<glob::Pattern, glob::PatternError>)
    ensures
        r is Ok <==> glob_compiles(text@),
        r matches Ok(p) ==> pattern_source(p) == text@,
{
    glob::Pattern::new(text)
}

/// `glob::Pattern::matches_with`: whether `pattern` matches the whole of
/// `path` under the options given.
#[verifier::external_body]
fn pattern_matches_with(
    pattern: &glob::Pattern,
    path: &str,
    case_sensitive: bool,
    require_literal_separator: bool,
    require_literal_leading_dot: bool,
) -> (r: bool)
    ensures
        r == glob_matches(
            pattern_source(*pattern),
            path@,
            case_sensitive,
            require_literal_separator,
            require_literal_leading_dot,
        ),
{
    let options = glob::MatchOptions {
        case_sensitive,
        require_literal_separator,
        require_literal_leading_dot,
    };
    pattern.matches_with(path, &options)
}

/// A predicate over path strings.
pub trait PathFilter {
    /// The set of paths that the filter lets through.
    spec fn matches(&self, path: Seq<char>) -> bool;

    fn is_match(&self, path: &str) -> (r: bool)
        ensures
            r == self.matches(path@),
    ;
}


/// Lets through the paths that end in `.h`.
pub struct TestFilter {}

impl PathFilter for TestFilter {
    open spec fn matches(&self, path: Seq<char>) -> bool {
        seq!['.', 'h'].is_suffix_of(path)
    }

    fn is_match(&self, path: &str) -> (r: bool) {
        let mut suffix: Vec<char> = Vec::new();
        suffix.push('.');
        suffix.push('h');
        assert(suffix@ =~= seq!['.', 'h']);
        ends_with(&chars_of(path), &suffix)
    }
}

/// Lets through the paths that start with a fixed text.
pub struct StartFilter {
    pattern: String,
}

impl StartFilter {
    /// The text that a path has to start with.
    pub closed spec fn prefix(&self) -> Seq<char> {
        self.pattern@
    }

    pub fn new(pattern: String) -> (f: StartFilter)
        ensures
            f.prefix() == pattern@,
    {
        StartFilter { pattern }
    }
}

impl PathFilter for StartFilter {
    open spec fn matches(&self, path: Seq<char>) -> bool {
        self.prefix().is_prefix_of(path)
    }

    fn is_match(&self, path: &str) -> (r: bool) {
        starts_with(&chars_of(path), &chars_of(self.pattern.as_str()))
    }
}

/// Lets through the paths that a glob pattern matches as a whole. `*` and `?`
/// stay within one path segment, `**` spans whole segments, case counts, and
/// a leading dot is matched like any other character.
pub struct GlobFilter {
    pattern: glob::Pattern,
}

impl GlobFilter {
    /// The text of the pattern.
    pub closed spec fn source(&self) -> Seq<char> {
        pattern_source(self.pattern)
    }

    /// Compiles `path` into a filter. Fails with `Error::PatternError`
    /// exactly when `path` is no glob pattern.
    pub fn new(path: &str) -> (r: Result<GlobFilter, Error>)
        ensures
            r is Ok <==> glob_compiles(path@),
            r matches Ok(f) ==> f.source() == path@,
            r matches Err(e) ==> e is PatternError,
    {
        match compile_pattern(path) {
            Ok(pattern) => Ok(GlobFilter { pattern }),
            Err(e) => Err(Error::PatternError(e)),
        }
    }
}

impl PathFilter for GlobFilter {
    open spec fn matches(&self, path: Seq<char>) -> bool {
        glob_matches(self.source(), path, true, true, false)
    }

    fn is_match(&self, path: &str) -> (r: bool) {
        pattern_matches_with(&self.pattern, path, true, true, false)
    }
}

/// Any of the filters of this library, so that filters of different kinds
/// can stand in one list.
pub enum Filter {
    Test(TestFilter),
    Start(StartFilter),
    Glob(GlobFilter),
}

impl PathFilter for Filter {
    open spec fn matches(&self, path: Seq<char>) -> bool {
        match self {
            Filter::Test(f) => f.matches(path),
            Filter::Start(f) => f.matches(path),
            Filter::Glob(f) => f.matches(path),
        }
    }

    fn is_match(&self, path: &str) -> (r: bool) {
        match self {
            Filter::Test(f) => f.is_match(path),
            Filter::Start(f) => f.is_match(path),
            Filter::Glob(f) => f.is_match(path),
        }
    }
}

/// Whether every filter of `filters` matches `path`.
pub open spec fn all_match(filters: Seq<Filter>, path: Seq<char>) -> bool {
    forall|i: int| 0 <= i < filters.len() ==> (#[trigger] filters[i]).matches(path)
}

/// Whether every filter of `filters` matches `path`.
pub fn matches_all(filters: &Vec<Filter>, path: &str) -> (r: bool)
    ensures
        r == all_match(filters@, path@),
{
    let mut i: usize = 0;
    while i < filters.len()
        invariant
            i <= filters.len(),
            forall|j: int| 0 <= j < i ==> (#[trigger] filters@[j]).matches(path@),
        decreases filters.len() - i,
    {
        if !filters[i].is_match(path) {
            return false;
        }
        i += 1;
    }
    true
}

/// The filter that lets through what starts with the literal prefix of the
/// pattern `path`: everything before its first metacharacter.
pub fn start_with_filter(path: &str) -> (f: StartFilter)
    ensures
        f.prefix() == crate::walk::path::literal_prefix(path@),
{
    let chars = chars_of(path);
    let k = find_literal_len(&chars);
    StartFilter::new(path.substring_char(0, k).to_owned())
}

} // verus!
