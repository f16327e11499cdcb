use hdfs_walk::walk::backend::{probe, DirEntryTrait, FileSystem, Found, MetadataTrait};
use hdfs_walk::walk::err;
use hdfs_walk::walk::filter::{Filter, GlobFilter, StartFilter, TestFilter};
use hdfs_walk::walk::walker::{read_listing, Listing, Visit, Walk, WalkBuilder, VISIT_LIMIT};
use std::cell::Cell;
use std::collections::HashMap;
use std::path::Component;
use std::path::PathBuf;

#[derive(Debug)]
enum Error {
    NotFound(String),
    Inner(err::Error),
}

impl From<err::Error> for Error {
    fn from(e: err::Error) -> Error {
        Error::Inner(e)
    }
}

#[derive(Default)]
struct MockFS {
    root: Node,
    listings: Cell<usize>,
    failing: Option<String>,
}

impl MockFS {
    fn new(root: Node) -> MockFS {
        MockFS {
            root,
            listings: Cell::new(0),
            failing: None,
        }
    }

    fn failing_at(root: Node, path: &str) -> MockFS {
        MockFS {
            root,
            listings: Cell::new(0),
            failing: Some(path.to_string()),
        }
    }

    fn find_node(&self, path: &String) -> Result<&Node, Error> {
        let mut current_node = &self.root;

        if current_node.path() == path {
            return Ok(current_node);
        }

        for c in PathBuf::from(path).components() {
            match c {
                Component::RootDir => continue,
                Component::Normal(value) => {
                    current_node = match current_node {
                        Node::Dir(_, entries) => entries
                            .get(value.to_str().unwrap())
                            .ok_or_else(|| Error::NotFound(path.clone())),
                        _ => return Err(Error::NotFound(path.clone())),
                    }?;
                }
                _ => return Err(Error::NotFound(path.clone())),
            }
        }

        Ok(current_node)
    }
}

enum NodeBuilder {
    File(String),
    Dir(String, HashMap<String, NodeBuilder>),
}

fn join(parent: &String, name: &String) -> String {
    PathBuf::from(parent)
        .join(name)
        .to_str()
        .unwrap()
        .to_string()
}

impl NodeBuilder {
    fn path(&self) -> &String {
        match self {
            NodeBuilder::Dir(path, _) => path,
            NodeBuilder::File(path) => path,
        }
    }

    fn build(self, parent_path: &String) -> Node {
        match self {
            NodeBuilder::File(name) => Node::File(join(parent_path, &name)),
            NodeBuilder::Dir(name, children) => {
                let path = join(parent_path, &name);
                let dir_path = path.clone();
                let map = children
                    .into_iter()
                    .map(move |(k, v)| (k, v.build(&path)))
                    .collect();
                Node::Dir(dir_path, map)
            }
        }
    }
}

#[derive(Debug)]
enum Node {
    File(String),
    Dir(String, HashMap<String, Node>),
}

impl Default for Node {
    fn default() -> Node {
        Node::Dir(String::from("/"), HashMap::default())
    }
}

impl Node {
    fn path(&self) -> &String {
        match self {
            Node::Dir(path, _) => path,
            Node::File(path) => path,
        }
    }

    fn to_read_dir_node(&self) -> Vec<Result<DirEntryNode, Error>> {
        match self {
            Node::File(_) => vec![Ok(self.to_dir_entry_node())],
            Node::Dir(_, entries) => entries
                .iter()
                .map(|(_, v)| Ok(v.to_dir_entry_node()))
                .collect(),
        }
    }

    fn to_dir_entry_node(&self) -> DirEntryNode {
        let (path, is_dir) = match self {
            Node::File(path) => (path, false),
            Node::Dir(path, _) => (path, true),
        };
        DirEntryNode {
            path: path.clone(),
            is_dir,
        }
    }
}

struct DirEntryNode {
    path: String,
    is_dir: bool,
}

impl DirEntryTrait for DirEntryNode {
    fn path(&self) -> String {
        self.path.clone()
    }

    fn is_dir(&self) -> bool {
        self.is_dir
    }
}

impl MetadataTrait for DirEntryNode {
    fn is_dir(&self) -> bool {
        self.is_dir
    }
}

impl FileSystem for MockFS {
    type Error = Error;
    type DirEntry = DirEntryNode;
    type Metadata = DirEntryNode;

    fn current_dir(&self) -> Result<String, Self::Error> {
        Ok(String::from("/"))
    }

    fn path_exists(&self, path: &String) -> bool {
        self.find_node(path).is_ok()
    }

    fn read_dir(&self, path: &String) -> Result<Vec<Result<DirEntryNode, Error>>, Self::Error> {
        self.listings.set(self.listings.get() + 1);
        if self.failing.as_ref() == Some(path) {
            return Err(Error::NotFound(path.clone()));
        }
        self.find_node(path).map(|n| n.to_read_dir_node())
    }

    fn metadata(&self, path: &String) -> Result<Self::Metadata, Self::Error> {
        self.find_node(path).map(|n| n.to_dir_entry_node())
    }
}

fn td(name: &str, children: Vec<NodeBuilder>) -> NodeBuilder {
    let hashmap: HashMap<String, NodeBuilder> = children
        .into_iter()
        .map(|c| (c.path().clone(), c))
        .collect();
    NodeBuilder::Dir(name.to_owned(), hashmap)
}

fn tf(name: &str) -> NodeBuilder {
    NodeBuilder::File(String::from(name))
}

fn path_list(list: &[&str]) -> Vec<PathBuf> {
    list.iter().map(PathBuf::from).collect()
}

fn listed(fs: &MockFS, path: &str) -> Vec<PathBuf> {
    let entries: Result<Vec<_>, _> = fs.read_dir(&String::from(path)).unwrap().into_iter().collect();
    let mut paths: Vec<PathBuf> = entries
        .unwrap()
        .into_iter()
        .map(|de| PathBuf::from(de.path))
        .collect();
    paths.sort();
    paths
}

fn walked(fs: &MockFS, path: &str) -> Vec<PathBuf> {
    let list: Result<Vec<_>, Error> = WalkBuilder::new(fs)
        .with_path(String::from(path))
        .build()
        .unwrap()
        .collect()
        .into_iter()
        .collect();
    let mut list: Vec<PathBuf> = list
        .unwrap()
        .into_iter()
        .map(|item| PathBuf::from(item.path()))
        .collect();
    list.sort();
    list
}

#[test]
fn walk_1() {
    let _fs = MockFS::default();
}

#[test]
fn walk_2() {
    let tree = td("/", vec![td("var", vec![]), tf("file")]);

    let _fs = MockFS::new(tree.build(&String::from("")));
}

#[test]
fn walk_3() {
    let tree = td("/", vec![td("var", vec![]), tf("file")]);

    let fs = MockFS::new(tree.build(&String::from("")));

    assert_eq!(listed(&fs, "/"), path_list(&["/file", "/var"]));
}

#[test]
fn walk_4() {
    let tree = td(
        "/",
        vec![td("var", vec![tf("file1"), tf("file2")]), tf("file")],
    );
    let fs = MockFS::new(tree.build(&String::from("/")));

    assert_eq!(
        listed(&fs, "/var"),
        path_list(&["/var/file1", "/var/file2"])
    );
}

#[test]
fn test_list_root() {
    let tree = td("/", vec![td("var", vec![]), tf("file")]);

    let fs = MockFS::new(tree.build(&String::from("")));
    assert_eq!(walked(&fs, "/"), path_list(&["/"]));
}

#[test]
fn test_list_directory_explicit() {
    let tree = td(
        "/",
        vec![td("var", vec![tf("file1"), tf("file2")]), tf("file")],
    );

    let fs = MockFS::new(tree.build(&String::from("")));
    assert_eq!(walked(&fs, "/var/"), path_list(&["/var"]));
}

#[test]
fn test_list_directory_implicit() {
    let tree = td(
        "/",
        vec![td("var", vec![tf("file1"), tf("file2")]), tf("file")],
    );

    let fs = MockFS::new(tree.build(&String::from("")));
    assert_eq!(walked(&fs, "/var"), path_list(&["/var"]));
}

#[test]
fn test_list_directory_empty() {
    let tree = td(
        "/",
        vec![td("var", vec![tf("file1"), tf("file2")]), tf("file")],
    );

    let fs = MockFS::new(tree.build(&String::from("")));
    let list = walked(&fs, "/va");
    assert_eq!(0, list.len());
}

#[test]
fn test_list_directory_with_glob() {
    let tree = td(
        "/",
        vec![td("var", vec![tf("file1"), tf("file2")]), tf("file")],
    );

    let fs = MockFS::new(tree.build(&String::from("")));
    assert_eq!(walked(&fs, "/va*"), path_list(&["/var"]));
}

#[test]
fn test_list_directory_with_complex_glob() {
    let tree = td(
        "/",
        vec![td("var", vec![tf("file1"), tf("file2")]), tf("file")],
    );

    let fs = MockFS::new(tree.build(&String::from("")));
    assert_eq!(
        walked(&fs, "/va*/fi*"),
        path_list(&["/var/file1", "/var/file2"])
    );
}

#[test]
fn test_list_directory_with_question_mark() {
    let tree = td(
        "/",
        vec![
            td(
                "var",
                vec![tf("file1"), tf("file2a"), tf("file3a"), tf("file2b")],
            ),
            tf("file"),
        ],
    );

    let fs = MockFS::new(tree.build(&String::from("")));
    assert_eq!(
        walked(&fs, "/var/file?a"),
        path_list(&["/var/file2a", "/var/file3a"])
    );
}

#[test]
fn test_list_directory_with_multiple_glob() {
    let tree = td(
        "/",
        vec![
            td("var", vec![tf("file1"), tf("file2")]),
            td("var2", vec![tf("file3"), tf("file4")]),
            td("bar3", vec![tf("file3"), tf("file4")]),
            td(
                "var3",
                vec![
                    td("var4", vec![tf("file5"), tf("file8")]),
                    td("var5", vec![tf("file2"), tf("file9")]),
                    td("var6", vec![tf("file7"), tf("file10"), td("var7", vec![])]),
                    tf("file11"),
                ],
            ),
            tf("file0"),
        ],
    );

    let fs = MockFS::new(tree.build(&String::from("")));
    assert_eq!(
        walked(&fs, "/*/*/*"),
        path_list(&[
            "/var3/var4/file5",
            "/var3/var4/file8",
            "/var3/var5/file2",
            "/var3/var5/file9",
            "/var3/var6/file10",
            "/var3/var6/file7",
            "/var3/var6/var7"
        ])
    );
}

#[test]
fn test_list_directory_with_globstar() {
    let tree = td(
        "/",
        vec![
            td("var", vec![tf("file1"), tf("file2")]),
            td("var2", vec![tf("file3"), tf("file4")]),
            td(
                "var3",
                vec![
                    td("var4", vec![tf("file5"), tf("file8")]),
                    td("var5", vec![tf("file2"), tf("file9")]),
                    td("var6", vec![tf("file7"), tf("file10")]),
                    tf("file11"),
                ],
            ),
            tf("file0"),
        ],
    );

    let fs = MockFS::new(tree.build(&String::from("")));
    assert_eq!(
        walked(&fs, "/var*/**/file2"),
        path_list(&["/var/file2", "/var3/var5/file2"])
    );
}

fn big_tree() -> MockFS {
    let tree = td(
        "/",
        vec![
            td("var", vec![tf("file1"), tf("file2")]),
            td("var2", vec![tf("file3"), tf("file4.h")]),
            td(
                "var3",
                vec![
                    td("var4", vec![tf("file5"), tf("file8.h")]),
                    td("var5", vec![tf("file2"), tf("file9")]),
                    td("var6", vec![tf("file7"), tf("file10"), td("var7", vec![])]),
                    tf("file11"),
                ],
            ),
            tf("file0"),
        ],
    );
    MockFS::new(tree.build(&String::from("")))
}

const BIG_TREE_ENTRIES: usize = 20;

fn walked_with(fs: &MockFS, path: &str, filters: Vec<Filter>) -> Vec<PathBuf> {
    let mut builder = WalkBuilder::new(fs).with_path(String::from(path));
    for f in filters {
        builder = builder.add_filter(f);
    }
    let mut list: Vec<PathBuf> = builder
        .build()
        .unwrap()
        .collect()
        .into_iter()
        .map(|item| PathBuf::from(item.unwrap().path()))
        .collect();
    list.sort();
    list
}

#[test]
fn build_without_a_path_fails() {
    let fs = MockFS::default();
    assert!(matches!(
        WalkBuilder::new(&fs).build(),
        Err(err::Error::NoPathDefined)
    ));
}

#[test]
fn build_with_a_bad_pattern_fails() {
    let fs = MockFS::default();
    assert!(matches!(
        WalkBuilder::new(&fs).with_path("/a***".to_string()).build(),
        Err(err::Error::PatternError(_))
    ));
    assert!(matches!(
        Walk::new(&fs, "/a/**b/*", Vec::new()),
        Err(err::Error::PatternError(_))
    ));
    // without `*` or `?` nothing is compiled, and nothing can fail
    assert!(Walk::new(&fs, "/a[", Vec::new()).is_ok());
}

#[test]
fn a_file_as_start_is_yielded_alone() {
    let fs = big_tree();
    assert_eq!(walked(&fs, "/file0"), path_list(&["/file0"]));
    assert_eq!(walked(&fs, "/var3/var5/file9"), path_list(&["/var3/var5/file9"]));
    assert_eq!(fs.listings.get(), 0);
}

#[test]
fn a_pattern_lists_one_level_of_its_root() {
    let fs = big_tree();
    // `*` may stand for nothing, so the root of the pattern matches as well
    assert_eq!(
        walked(&fs, "/var3/*"),
        path_list(&["/var3", "/var3/file11", "/var3/var4", "/var3/var5", "/var3/var6"])
    );
    assert_eq!(fs.listings.get(), 1);
    assert_eq!(
        walked(&fs, "/var3/v*"),
        path_list(&["/var3/var4", "/var3/var5", "/var3/var6"])
    );
}

#[test]
fn a_relative_pattern_starts_from_the_empty_path() {
    // this backend takes the empty path for its root directory
    let fs = big_tree();
    assert_eq!(walked(&fs, "*"), path_list(&[""]));
    assert_eq!(fs.listings.get(), 1);
    assert_eq!(walked(&fs, "v*"), path_list(&[]));
}

#[test]
fn every_yielded_path_exists() {
    let fs = big_tree();
    for pattern in ["/**/*", "/*", "/*/*", "/var?/*", "/var3/**/file*"] {
        for path in walked(&fs, pattern) {
            assert!(fs.path_exists(&path.to_str().unwrap().to_string()));
        }
    }
}

#[test]
fn every_yielded_path_passes_every_filter() {
    let fs = big_tree();
    let list = walked_with(
        &fs,
        "/**/*",
        vec![
            Filter::Start(StartFilter::new("/var3".to_string())),
            Filter::Test(TestFilter {}),
        ],
    );
    assert_eq!(list, path_list(&["/var3/var4/file8.h"]));
    let list = walked_with(
        &fs,
        "/*/*",
        vec![Filter::Glob(GlobFilter::new("/var[23]/*").unwrap())],
    );
    assert_eq!(
        list,
        path_list(&[
            "/var2/file3",
            "/var2/file4.h",
            "/var3/file11",
            "/var3/var4",
            "/var3/var5",
            "/var3/var6"
        ])
    );
    let list = walked_with(&fs, "/", vec![Filter::Test(TestFilter {})]);
    assert_eq!(list, path_list(&[]));
}

#[test]
fn no_yielded_path_lies_below_the_depth_limit() {
    let fs = big_tree();
    for (pattern, depth) in [("/*", 1), ("/*/*", 2), ("/*/*/*", 3), ("/var3/*/*", 2)] {
        let walk = WalkBuilder::new(&fs)
            .with_path(pattern.to_string())
            .build()
            .unwrap();
        assert!(!walk.is_recursive());
        let root = PathBuf::from(hdfs_walk::walk::path::path_root(pattern));
        let list = walked(&fs, pattern);
        let depths: Vec<usize> = list
            .iter()
            .map(|path| path.strip_prefix(&root).unwrap().components().count())
            .collect();
        assert!(depths.iter().all(|d| *d <= depth));
        assert!(depths.iter().any(|d| *d == depth));
    }
    let walk = WalkBuilder::new(&fs)
        .with_path("/**/*".to_string())
        .build()
        .unwrap();
    assert!(walk.is_recursive());
}

#[test]
fn listings_are_no_more_than_entries() {
    for pattern in ["/**/*", "/*/*/*/*/*", "/*/*", "/var3/**/x", "/"] {
        let fs = big_tree();
        let _ = walked(&fs, pattern);
        assert!(fs.listings.get() <= BIG_TREE_ENTRIES);
    }
    let fs = big_tree();
    let everything = walked(&fs, "/**/*");
    assert_eq!(everything.len(), BIG_TREE_ENTRIES);
    // each of the 8 directories was listed once
    assert_eq!(fs.listings.get(), 8);
    let fs = big_tree();
    let _ = walked(&fs, "/*/*");
    // the root and its three directories
    assert_eq!(fs.listings.get(), 4);
}

#[test]
fn a_failed_listing_is_yielded_and_the_walk_goes_on() {
    let tree = td(
        "/",
        vec![
            td("a", vec![tf("x")]),
            td("b", vec![tf("y")]),
            td("c", vec![tf("z")]),
        ],
    );
    let fs = MockFS::failing_at(tree.build(&String::from("")), "/b");
    let mut walk = Walk::new(&fs, "/*/*", Vec::new()).unwrap();
    let mut found = Vec::new();
    let mut failures = 0;
    while let Some(r) = walk.next() {
        match r {
            Ok(item) => {
                assert!(!item.is_dir());
                found.push(item.path());
            }
            Err(Error::NotFound(p)) => {
                assert_eq!(p, "/b");
                failures += 1;
            }
            Err(_) => panic!("another failure"),
        }
    }
    found.sort();
    assert_eq!(found, vec!["/a/x", "/c/z"]);
    assert_eq!(failures, 1);
    assert!(walk.next().is_none());
}

#[test]
fn items_say_what_they_are() {
    let fs = big_tree();
    let items = Walk::new(&fs, "/var3/*", Vec::new()).unwrap().collect();
    assert_eq!(items.len(), 5);
    for item in items {
        let item = item.unwrap();
        assert_eq!(item.is_dir(), fs.is_dir(&item.path()));
    }
}

#[test]
fn probing_asks_for_a_directory_first() {
    let fs = big_tree();
    assert!(probe(&fs, &"/var3".to_string()) == Found::Directory);
    assert!(probe(&fs, &"/file0".to_string()) == Found::File);
    assert!(probe(&fs, &"/nothing".to_string()) == Found::Nothing);
}

#[test]
fn listings_are_read_up_to_the_first_failure() {
    let fs = big_tree();
    match read_listing(&fs, &"/var".to_string()) {
        Listing::Entries(mut entries, None) => {
            entries.sort();
            assert_eq!(
                entries,
                vec![
                    ("/var/file1".to_string(), false),
                    ("/var/file2".to_string(), false)
                ]
            );
        }
        _ => panic!("no listing"),
    }
    assert!(matches!(
        read_listing(&fs, &"/nothing".to_string()),
        Listing::Failed(Error::NotFound(_))
    ));
}

fn entry(path: &str, is_dir: bool) -> (String, bool) {
    (path.to_string(), is_dir)
}

#[test]
fn visits_follow_the_listings_given() {
    let fs = MockFS::default();
    let pattern = GlobFilter::new("/*/*").unwrap();
    let mut walk = Walk::with_pattern(&fs, "/*/*", Vec::new(), Some(pattern), Found::Directory);
    assert!(!walk.is_recursive());

    // the root: listed, but the pattern does not match it
    assert_eq!(walk.next_listing(), Some("/".to_string()));
    let listing = Listing::Entries(vec![entry("/a", true), entry("/f", false)], None);
    assert!(matches!(walk.visit(listing), Visit::Skipped));

    // the last entry goes first: a file one level down, which wants no listing
    assert_eq!(walk.next_listing(), None);
    assert!(matches!(walk.visit(Listing::NotAsked), Visit::Skipped));

    // a directory one level down
    assert_eq!(walk.next_listing(), Some("/a".to_string()));
    let listing = Listing::Entries(
        vec![entry("/a/d", true), entry("/a/g", false)],
        Some(Error::NotFound("later".to_string())),
    );
    assert!(matches!(walk.visit(listing), Visit::Failed(Error::NotFound(_))));

    // what was listed before the failure is visited all the same
    assert_eq!(walk.next_listing(), None);
    match walk.visit(Listing::NotAsked) {
        Visit::Yielded(item) => {
            assert_eq!(item.path(), "/a/g");
            assert!(!item.is_dir());
        }
        _ => panic!("nothing yielded"),
    }

    // a directory at the depth limit is yielded and not listed
    assert_eq!(walk.next_listing(), None);
    let unwanted = Listing::Entries(vec![entry("/a/d/deep", false)], None);
    match walk.visit(unwanted) {
        Visit::Yielded(item) => {
            assert_eq!(item.path(), "/a/d");
            assert!(item.is_dir());
        }
        _ => panic!("nothing yielded"),
    }

    assert_eq!(walk.next_listing(), None);
    assert!(matches!(walk.visit(Listing::NotAsked), Visit::Done));
    assert!(walk.next().is_none());
}

#[test]
fn a_failed_listing_takes_the_place_of_its_directory() {
    let fs = MockFS::default();
    let mut walk = Walk::with_pattern(&fs, "/", vec![], None, Found::Directory);
    // without a pattern the start is at the depth limit already
    assert_eq!(walk.next_listing(), None);
    assert!(matches!(walk.visit(Listing::NotAsked), Visit::Yielded(_)));

    let pattern = GlobFilter::new("/**").unwrap();
    let mut walk = Walk::with_pattern(&fs, "/**", vec![], Some(pattern), Found::Directory);
    assert!(walk.is_recursive());
    assert_eq!(walk.next_listing(), Some("/".to_string()));
    assert!(matches!(
        walk.visit(Listing::Failed(Error::NotFound("/".to_string()))),
        Visit::Failed(_)
    ));
    assert!(matches!(walk.visit(Listing::NotAsked), Visit::Done));
}

#[test]
fn a_walk_starts_with_what_was_found() {
    let fs = MockFS::default();
    let mut walk = Walk::with_pattern(&fs, "/x", vec![], None, Found::Nothing);
    assert_eq!(walk.next_listing(), None);
    assert!(matches!(walk.visit(Listing::NotAsked), Visit::Done));

    let mut walk = Walk::with_pattern(&fs, "/x", vec![], None, Found::File);
    match walk.visit(Listing::NotAsked) {
        Visit::Yielded(item) => {
            assert_eq!(item.path(), "/x");
            assert!(!item.is_dir());
        }
        _ => panic!("nothing yielded"),
    }

    assert_eq!(Walk::<MockFS>::start_path("/var/f*", true), "/var/");
    assert_eq!(Walk::<MockFS>::start_path("/var/f*", false), "/var/f*");
    assert_eq!(VISIT_LIMIT, u64::MAX);
}
