use hdfs_walk::walk::err::Error;
use hdfs_walk::text::{chars_of, ends_with, starts_with};
use hdfs_walk::walk::filter::{
    matches_all, start_with_filter, Filter, GlobFilter, PathFilter, StartFilter, TestFilter,
};
use hdfs_walk::walk::path::{
    contains_globstar, contains_wildcard, count_components, find_literal_len, find_root_len,
    path_root,
};

fn chars(s: &str) -> Vec<char> {
    s.chars().collect()
}

#[test]
fn chars_are_those_of_the_text() {
    assert_eq!(chars_of(""), chars(""));
    assert_eq!(chars_of("/var/é*"), vec!['/', 'v', 'a', 'r', '/', 'é', '*']);
}

#[test]
fn root_is_the_longest_literal_prefix_ending_in_a_separator() {
    assert_eq!(path_root("/va*/fi*"), "/");
    assert_eq!(path_root("/var/file?a"), "/var/");
    assert_eq!(path_root("/*/*/*"), "/");
    assert_eq!(path_root("/var*/**/file2"), "/");
    assert_eq!(path_root("/a/b/c[0-9]/d"), "/a/b/");
    assert_eq!(path_root("/a/b/c"), "/a/b/");
    assert_eq!(path_root("/a/b/"), "/a/b/");
    assert_eq!(path_root("a//b/*"), "a//b/");
    assert_eq!(path_root("*.txt"), "");
    assert_eq!(path_root("abc"), "");
    assert_eq!(path_root(""), "");
    assert_eq!(path_root("/é/ü*"), "/é/");
}

#[test]
fn literal_prefix_ends_at_the_first_metacharacter() {
    assert_eq!(find_literal_len(&chars("/va*/fi*")), 3);
    assert_eq!(find_literal_len(&chars("/var/file?a")), 9);
    assert_eq!(find_literal_len(&chars("/a[b]")), 2);
    assert_eq!(find_literal_len(&chars("/abc")), 4);
    assert_eq!(find_literal_len(&chars("")), 0);
    assert_eq!(find_root_len(&chars("/var/file?a")), 5);
    assert_eq!(find_root_len(&chars("var")), 0);
}

#[test]
fn wildcards_are_found() {
    assert!(contains_wildcard(&chars("/va*")));
    assert!(contains_wildcard(&chars("/va?")));
    assert!(!contains_wildcard(&chars("/va[r]")));
    assert!(!contains_wildcard(&chars("/var")));
    assert!(!contains_wildcard(&chars("")));
    assert!(contains_globstar(&chars("/a/**/b")));
    assert!(contains_globstar(&chars("**")));
    assert!(!contains_globstar(&chars("/a/*/*")));
    assert!(!contains_globstar(&chars("*")));
    assert!(!contains_globstar(&chars("")));
}

#[test]
fn components_are_counted() {
    assert_eq!(count_components(&chars("/va*/fi*"), 1), 2);
    assert_eq!(count_components(&chars("/*/*/*"), 1), 3);
    assert_eq!(count_components(&chars("/var/file?a"), 5), 1);
    assert_eq!(count_components(&chars("/var/"), 5), 0);
    assert_eq!(count_components(&chars("a//b///c/"), 0), 3);
    assert_eq!(count_components(&chars("a/./b/."), 0), 2);
    assert_eq!(count_components(&chars("a/../b"), 0), 3);
    assert_eq!(count_components(&chars(".a/b."), 0), 2);
    assert_eq!(count_components(&chars(""), 0), 0);
    assert_eq!(count_components(&chars("///"), 0), 0);
}

#[test]
fn prefixes_and_suffixes() {
    assert!(starts_with(&chars("/var/x"), &chars("/var")));
    assert!(starts_with(&chars("/var"), &chars("/var")));
    assert!(starts_with(&chars("/var"), &chars("")));
    assert!(!starts_with(&chars("/va"), &chars("/var")));
    assert!(!starts_with(&chars("/bar/x"), &chars("/var")));
    assert!(ends_with(&chars("a.h"), &chars(".h")));
    assert!(ends_with(&chars(".h"), &chars(".h")));
    assert!(!ends_with(&chars("h"), &chars(".h")));
    assert!(!ends_with(&chars("a.hh"), &chars(".h")));
}

#[test]
fn test_filter_wants_headers() {
    let f = TestFilter {};
    assert!(f.is_match("/usr/include/stdio.h"));
    assert!(f.is_match(".h"));
    assert!(!f.is_match("/usr/include/stdio.c"));
    assert!(!f.is_match("h"));
    assert!(!f.is_match(""));
}

#[test]
fn start_filter_wants_a_prefix() {
    let f = StartFilter::new("/var".to_string());
    assert!(f.is_match("/var"));
    assert!(f.is_match("/var/log"));
    assert!(f.is_match("/variable"));
    assert!(!f.is_match("/va"));
    assert!(!f.is_match("/Var/log"));
    assert!(StartFilter::new(String::new()).is_match("anything"));
}

#[test]
fn start_with_filter_takes_the_literal_prefix() {
    let f = start_with_filter("/va*/fi*");
    assert!(f.is_match("/var/file"));
    assert!(f.is_match("/va"));
    assert!(!f.is_match("/v"));
    assert!(!f.is_match("/bar"));
    let f = start_with_filter("/var/file?a");
    assert!(f.is_match("/var/file2a"));
    assert!(!f.is_match("/var/fil"));
    let f = start_with_filter("*");
    assert!(f.is_match(""));
    assert!(f.is_match("/x"));
}

fn glob(pattern: &str) -> GlobFilter {
    GlobFilter::new(pattern).unwrap()
}

#[test]
fn glob_star_stays_in_its_segment() {
    assert!(glob("/va*").is_match("/var"));
    assert!(glob("/va*").is_match("/va"));
    assert!(!glob("/va*").is_match("/var/file1"));
    assert!(!glob("/va*").is_match("/bar"));
    assert!(glob("/va*/fi*").is_match("/var/file1"));
    assert!(!glob("/va*/fi*").is_match("/var"));
    assert!(!glob("/*").is_match("/a/b"));
}

#[test]
fn glob_question_mark_is_one_character_of_a_segment() {
    assert!(glob("/var/file?a").is_match("/var/file2a"));
    assert!(!glob("/var/file?a").is_match("/var/file2b"));
    assert!(!glob("/var/file?a").is_match("/var/filea"));
    assert!(!glob("/var/file?a").is_match("/var/file22a"));
    assert!(!glob("/a?b").is_match("/a/b"));
}

#[test]
fn glob_classes() {
    assert!(glob("/f[0-9]").is_match("/f7"));
    assert!(!glob("/f[0-9]").is_match("/fa"));
    assert!(glob("/f[!0-9]").is_match("/fa"));
    assert!(!glob("/f[!0-9]").is_match("/f7"));
    assert!(glob("/f[ab]").is_match("/fb"));
    assert!(!glob("/f[ab]").is_match("/f/"));
}

#[test]
fn glob_globstar_spans_segments() {
    let f = glob("/var*/**/file2");
    assert!(f.is_match("/var/file2"));
    assert!(f.is_match("/var3/var5/file2"));
    assert!(f.is_match("/var3/a/b/c/file2"));
    assert!(!f.is_match("/bar/file2"));
    assert!(!f.is_match("/var/file3"));
}

#[test]
fn glob_case_counts_and_dots_are_plain() {
    assert!(!glob("/Var").is_match("/var"));
    assert!(glob("/*").is_match("/.hidden"));
    assert!(glob("/?hidden").is_match("/.hidden"));
    assert!(glob("/a.b").is_match("/a.b"));
    assert!(!glob("/a.b").is_match("/aXb"));
}

#[test]
fn glob_rejects_what_is_no_pattern() {
    assert!(GlobFilter::new("/a***").is_err());
    assert!(GlobFilter::new("/a**").is_err());
    assert!(GlobFilter::new("/**a").is_err());
    assert!(GlobFilter::new("/a[").is_err());
    assert!(GlobFilter::new("/a[!").is_err());
    assert!(GlobFilter::new("").is_ok());
    assert!(GlobFilter::new("/a/**/b").is_ok());
    match GlobFilter::new("/a***") {
        Err(e) => {
            assert!(matches!(e, Error::PatternError(_)));
            assert!(e.message().contains("wildcards"));
        }
        Ok(_) => panic!("compiled"),
    }
}

#[test]
fn filters_are_anded() {
    let filters = vec![
        Filter::Start(StartFilter::new("/usr".to_string())),
        Filter::Test(TestFilter {}),
        Filter::Glob(glob("/usr/*/*")),
    ];
    assert!(matches_all(&filters, "/usr/include/a.h"));
    assert!(!matches_all(&filters, "/usr/include/a.c"));
    assert!(!matches_all(&filters, "/opt/include/a.h"));
    assert!(!matches_all(&filters, "/usr/a.h"));
    assert!(matches_all(&Vec::new(), "/whatever"));
    assert!(Filter::Test(TestFilter {}).is_match("x.h"));
    assert!(!Filter::Start(StartFilter::new("a".to_string())).is_match("b"));
}

#[test]
fn errors_describe_themselves() {
    assert_eq!(Error::NoPathDefined.message(), "no path defined");
    assert_eq!(Error::PathFormatError.message(), "path is not valid UTF-8");
    assert_eq!(
        Error::PathConversionError("a\u{fffd}b".to_string()).message(),
        "path cannot be converted: a\u{fffd}b"
    );
    let io = std::io::Error::new(std::io::ErrorKind::NotFound, "gone missing");
    assert!(Error::IoError(io).message().contains("gone missing"));
}

#[test]
fn errors_are_made_from_what_they_carry() {
    let e = Error::from(std::io::Error::new(std::io::ErrorKind::Other, "boom"));
    assert!(matches!(e, Error::IoError(_)));
    assert_eq!(e.message(), "boom");
    let e = Error::from(glob::Pattern::new("[").unwrap_err());
    assert!(matches!(e, Error::PatternError(_)));
    assert!(e.message().contains("invalid range"));
}
