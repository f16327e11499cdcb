//! The traversal itself: a stack of entries that wait to be visited, a
//! limit on how deep to go, and the filters that decide what is yielded.
//! The walker also keeps a record, for proofs only, of every entry that the
//! backend has named to it and of how often it asked for a listing.

use crate::text::chars_of;
use crate::walk::backend;
use crate::walk::backend::{probe, DirEntryTrait, FileSystem, Found};
use crate::walk::err::Error;
use crate::walk::filter;
use crate::walk::filter::{matches_all, Filter, GlobFilter};
use crate::walk::path;
use crate::walk::path::{contains_globstar, contains_wildcard, count_components, find_root_len};
use vstd::prelude::*;

verus! {

/// The number of entries that one walk visits at most. A walk that has
/// visited this many yields nothing more.
pub const VISIT_LIMIT: u64 = 0xffff_ffff_ffff_ffff;

/// An entry as the backend named it to the walker.
pub struct Pending {
    pub path: Seq<char>,
    /// The number of listings between the start of the walk and the entry.
    pub depth: nat,
    pub dir: bool,
}

/// The depth of what stands directly below a directory of depth `d`. It
/// stops growing at the largest number that the walker can hold.
pub open spec fn child_depth(d: nat) -> nat {
    if d + 1 > usize::MAX {
        usize::MAX as nat
    } else {
        d + 1
    }
}

/// The stack that a walk starts with: its start path, if something was
/// found there.
pub open spec fn start_stack(start: Seq<char>, found: Found) -> Seq<Pending> {
    match found {
        Found::Directory => seq![Pending { path: start, depth: 0, dir: true }],
        Found::File => seq![Pending { path: start, depth: 0, dir: false }],
        Found::Nothing => Seq::empty(),
    }
}

/// The filters of a walk: those given, and after them the glob filter
/// compiled from the path if there is one.
pub open spec fn with_pattern_filter(given: Seq<Filter>, pattern: Option<GlobFilter>) -> Seq<
    Filter,
> {
    match pattern {
        Some(g) => given.push(Filter::Glob(g)),
        None => given,
    }
}

/// Where a walk for `path` starts: at the root of the pattern when a glob
/// filter was compiled from `path`, at `path` itself when none was.
pub open spec fn start_for(path: Seq<char>, globbed: bool) -> Seq<char> {
    if globbed {
        path::root_of(path)
    } else {
        path
    }
}

/// How deep a walk for `path` may go below `start`: without limit when
/// `path` holds `**`, else as many levels as `path` has components after
/// `start`.
pub open spec fn limit_for(path: Seq<char>, start: Seq<char>) -> Option<nat> {
    if path::has_globstar(path) {
        None
    } else {
        Some(path::component_count(path.skip(start.len() as int)))
    }
}

/// The part of a walk that changes as it goes.
pub struct Progress {
    /// The entries that wait to be visited; the last one is visited next.
    pub pending: Seq<Pending>,
    /// Every entry that was named to the walk so far.
    pub named: Seq<Pending>,
    /// How often a listing was asked for.
    pub read_dir_calls: nat,
    /// How many entries may still be visited.
    pub visits_left: nat,
}

enum Node {
    File(Ghost<nat>, String),
    Dir(usize, String),
}

impl Node {
    spec fn shape(self) -> Pending {
        match self {
            Node::File(depth, path) => Pending { path: path@, depth: depth@, dir: false },
            Node::Dir(depth, path) => Pending { path: path@, depth: depth as nat, dir: true },
        }
    }
}

/// An entry that a walk has yielded.
pub struct WalkItem {
    path: String,
    is_dir: bool,
    depth: Ghost<nat>,
}

impl WalkItem {
    /// The path of the entry.
    pub closed spec fn location(&self) -> Seq<char> {
        self.path@
    }

    /// Whether the entry is a directory.
    pub closed spec fn dir(&self) -> bool {
        self.is_dir
    }

    /// The number of listings between the start of the walk and the entry.
    pub closed spec fn depth(&self) -> nat {
        self.depth@
    }

    /// The entry as the backend named it.
    pub open spec fn shape(&self) -> Pending {
        Pending { path: self.location(), depth: self.depth(), dir: self.dir() }
    }

    fn new(path: String, is_dir: bool, depth: Ghost<nat>) -> (item: WalkItem)
        ensures
            item.location() == path@,
            item.dir() == is_dir,
            item.depth() == depth@,
    {
        WalkItem { path, is_dir, depth }
    }

    pub fn path(&self) -> (r: String)
        ensures
            r@ == self.location(),
    {
        self.path.clone()
    }

    pub fn is_dir(&self) -> (r: bool)
        ensures
            r == self.dir(),
    {
        self.is_dir
    }
}

/// A traversal of the entries at and below a start path.
pub struct Walk<'a, T: FileSystem> {
    path_stack: Vec<Node>,
    fs: &'a T,
    max_depth: Option<usize>,
    filters: Vec<Filter>,
    visits_left: u64,
    root: Ghost<Seq<char>>,
    named: Ghost<Seq<Pending>>,
    reads: Ghost<nat>,
}

/// What holds of every entry that a walk yields: the backend has named it
/// to the walk, as the kind and at the depth that the item says; every
/// filter of the walk matches its path; and it lies within the depth limit.
pub open spec fn yielded_ok<T: FileSystem>(walk: &Walk<'_, T>, item: WalkItem) -> bool {
    &&& walk.named().contains(item.shape())
    &&& filter::all_match(walk.filters(), item.location())
    &&& walk.depth_limit() matches Some(d) ==> item.depth() <= d
}

impl<'a, T: FileSystem> Walk<'a, T> {
    /// The backend that is walked.
    pub closed spec fn backend(&self) -> &T {
        self.fs
    }

    /// The entries that wait to be visited; the last one is visited next.
    pub closed spec fn pending(&self) -> Seq<Pending> {
        self.path_stack@.map_values(|n: Node| n.shape())
    }

    /// How deep below its start the walk may go; `None` for no limit.
    pub closed spec fn depth_limit(&self) -> Option<nat> {
        match self.max_depth {
            Some(d) => Some(d as nat),
            None => None,
        }
    }

    /// The filters that an entry has to pass to be yielded.
    pub closed spec fn filters(&self) -> Seq<Filter> {
        self.filters@
    }

    /// The path that the walk started from.
    pub closed spec fn root(&self) -> Seq<char> {
        self.root@
    }

    /// Every entry that the backend has named to the walk so far, in the
    /// order of naming: the start, if something was found there, and then
    /// the entries of each listing.
    pub closed spec fn named(&self) -> Seq<Pending> {
        self.named@
    }

    /// How often the walk has asked the backend for a listing.
    pub closed spec fn read_dir_calls(&self) -> nat {
        self.reads@
    }

    /// How many entries the walk may still visit.
    pub closed spec fn visits_left(&self) -> nat {
        self.visits_left as nat
    }

    /// The part of the walk that changes as it goes.
    pub open spec fn progress(&self) -> Progress {
        Progress {
            pending: self.pending(),
            named: self.named(),
            read_dir_calls: self.read_dir_calls(),
            visits_left: self.visits_left(),
        }
    }

    /// How many entries the walk has visited.
    pub open spec fn visits(&self) -> nat {
        (VISIT_LIMIT - self.visits_left()) as nat
    }

    /// What holds of a walk at all times: each entry that waits was named by
    /// the backend; each entry that was named lies within the depth limit;
    /// the listings asked for and the entries that wait are together no
    /// more than the entries that were named; and each entry that was named
    /// either waits or was visited, once.
    pub open spec fn wf(&self) -> bool {
        &&& forall|i: int|
            0 <= i < self.pending().len() ==> self.named().contains(#[trigger] self.pending()[i])
        &&& forall|i: int|
            0 <= i < self.named().len() ==> (self.depth_limit() matches Some(d) ==> (
            #[trigger] self.named()[i]).depth <= d)
        &&& self.read_dir_calls() + self.pending().len() <= self.named().len()
        &&& self.visits_left() <= VISIT_LIMIT
        &&& self.visits() + self.pending().len() == self.named().len()
    }

    /// Whether `self` and `other` are states of one walk: same backend,
    /// start, depth limit and filters.
    pub open spec fn same_walk(&self, other: &Self) -> bool {
        &&& self.backend() == other.backend()
        &&& self.root() == other.root()
        &&& self.depth_limit() == other.depth_limit()
        &&& self.filters() == other.filters()
    }

    /// Whether `self` is a later state of the walk `other`: one walk, and
    /// nothing of the record was lost.
    pub open spec fn follows(&self, other: &Self) -> bool {
        &&& self.same_walk(other)
        &&& other.named().is_prefix_of(self.named())
        &&& self.read_dir_calls() >= other.read_dir_calls()
        &&& self.visits_left() <= other.visits_left()
    }

    /// Whether `self` is the walk for `path` as it stands before its first
    /// step, where `found` is what the backend found at its start.
    pub open spec fn starts(&self, fs: &T, path: Seq<char>, globbed: bool, found: Found) -> bool {
        &&& self.wf()
        &&& self.backend() == fs
        &&& self.root() == start_for(path, globbed)
        &&& self.depth_limit() == limit_for(path, self.root())
        &&& self.pending() == start_stack(self.root(), found)
        &&& self.named() == start_stack(self.root(), found)
        &&& self.read_dir_calls() == 0
        &&& self.visits_left() == VISIT_LIMIT
    }

    /// The walk for `path` over `fs`. Where `path` holds `*` or `?` it is
    /// compiled into a glob filter that joins `filters`, and the walk starts
    /// from the root of the pattern; else it starts from `path` itself. The
    /// backend is asked what stands at the start, and the walk starts with
    /// what it finds; nothing waits if it finds nothing. Fails exactly when
    /// `path` has a wildcard and is no glob pattern.
    pub fn new(fs: &'a T, path: &str, filters: Vec<Filter>) -> (r: Result<Walk<'a, T>, Error>)
        ensures
            r is Err <==> path::has_wildcard(path@) && !filter::glob_compiles(path@),
            r matches Err(e) ==> e is PatternError,
            r matches Ok(w) ==> {
                &&& w.wf()
                &&& exists|found: Found, start: String|
                    start@ == w.root() && #[trigger] backend::may_find(fs, &start, found)
                        && w.starts(fs, path@, path::has_wildcard(path@), found)
                &&& w.root() == path::start_of(path@)
                &&& w.depth_limit() == path::depth_limit(path@)
                &&& path::has_wildcard(path@) ==> w.filters().len() == filters@.len() + 1
                    && w.filters().drop_last() == filters@ && (w.filters().last() matches Filter::Glob(
                    g,
                ) && g.source() == path@)
                &&& !path::has_wildcard(path@) ==> w.filters() == filters@
            },
    {
        let chars = chars_of(path);
        let pattern = if contains_wildcard(&chars) {
            match GlobFilter::new(path) {
                Ok(g) => Some(g),
                Err(e) => {
                    return Err(e);
                },
            }
        } else {
            None
        };
        let start = Self::start_path(path, pattern.is_some());
        let found = probe(fs, &start);
        let w = Walk::with_pattern(fs, path, filters, pattern, found);
        proof {
            if pattern is Some {
                assert(w.filters().drop_last() =~= filters@);
            }
            assert(start@ == w.root() && backend::may_find(fs, &start, found) && w.starts(
                fs,
                path@,
                path::has_wildcard(path@),
                found,
            ));
        }
        Ok(w)
    }

    /// Where the walk for `path` starts.
    pub fn start_path(path: &str, globbed: bool) -> (start: String)
        ensures
            start@ == start_for(path@, globbed),
    {
        if globbed {
            path::path_root(path)
        } else {
            path.to_owned()
        }
    }

    /// The walk for `path` over `fs`, given the glob filter that was compiled
    /// from `path`, if any, and what the backend found at the start of the
    /// walk.
    pub fn with_pattern(
        fs: &'a T,
        path: &str,
        filters: Vec<Filter>,
        pattern: Option<GlobFilter>,
        found: Found,
    ) -> (w: Walk<'a, T>)
        ensures
            w.starts(fs, path@, pattern is Some, found),
            w.filters() == with_pattern_filter(filters@, pattern),
    {
        let chars = chars_of(path);
        let mut filters = filters;
        let root_len = match pattern {
            Some(g) => {
                filters.push(Filter::Glob(g));
                find_root_len(&chars)
            },
            None => chars.len(),
        };
        proof {
            path::lemma_root_is_prefix(path@);
        }
        let root = path.substring_char(0, root_len).to_owned();
        assert(pattern is None ==> root@ =~= path@);
        let max_depth = if contains_globstar(&chars) {
            None
        } else {
            Some(count_components(&chars, root_len))
        };
        let mut path_stack: Vec<Node> = Vec::new();
        let ghost start = root@;
        match found {
            Found::Directory => {
                path_stack.push(Node::Dir(0, root));
            },
            Found::File => {
                path_stack.push(Node::File(Ghost(0), root));
            },
            Found::Nothing => {},
        }
        let w = Walk {
            path_stack,
            fs,
            max_depth,
            filters,
            visits_left: VISIT_LIMIT,
            root: Ghost(start),
            named: Ghost(start_stack(start, found)),
            reads: Ghost(0),
        };
        proof {
            assert(w.pending() =~= start_stack(start, found));
            assert forall|i: int| 0 <= i < w.pending().len() implies w.named().contains(
                #[trigger] w.pending()[i],
            ) by {
                assert(w.named()[i] == w.pending()[i]);
            }
        }
        w
    }

    /// Whether every filter of the walk matches `path`.
    fn is_valid(&self, path: &String) -> (r: bool)
        ensures
            r == filter::all_match(self.filters(), path@),
    {
        matches_all(&self.filters, path.as_str())
    }

    /// Whether the walk may go to any depth.
    pub fn is_recursive(&self) -> (r: bool)
        ensures
            r == (self.depth_limit() is None),
    {
        self.max_depth.is_none()
    }

    /// Whether the next visit is that of a directory whose listing the
    /// walker wants: something waits, the walk may still visit, and the
    /// entry that waits last is a directory above the depth limit.
    pub open spec fn expects_listing(&self) -> bool {
        wants_listing(self.progress(), self.depth_limit())
    }

    /// Where a visit with the given listing leads, and how it ends.
    pub open spec fn after_visit(&self, listing: Listing<T::Error>) -> (
        Progress,
        Outcome<T::Error>,
    ) {
        step(self.progress(), self.depth_limit(), self.filters(), listing)
    }

    /// The path of the directory whose listing the next visit wants, if it
    /// wants one.
    pub fn next_listing(&self) -> (r: Option<String>)
        ensures
            r is Some <==> self.expects_listing(),
            r matches Some(p) ==> p@ == self.pending().last().path,
    {
        if self.visits_left == 0 || self.path_stack.len() == 0 {
            return None;
        }
        match &self.path_stack[self.path_stack.len() - 1] {
            Node::File(_, _) => None,
            Node::Dir(depth, path) => {
                let within = match self.max_depth {
                    Some(limit) => *depth < limit,
                    None => true,
                };
                if within {
                    Some(path.clone())
                } else {
                    None
                }
            },
        }
    }

    /// Visits the entry that waits last, given what the backend answered
    /// when asked for its listing. The entries of the listing are put on the
    /// stack in the order of the listing. A failure of the listing is handed
    /// back in place of the entry; else the entry is yielded if every filter
    /// matches its path, and skipped if not. A listing that the walker did
    /// not want is passed over.
    pub fn visit(&mut self, listing: Listing<T::Error>) -> (r: Visit<T::Error>)
        requires
            old(self).wf(),
        ensures
            final(self).wf(),
            final(self).follows(old(self)),
            final(self).pending() == old(self).after_visit(listing).0.pending,
            final(self).named() == old(self).after_visit(listing).0.named,
            final(self).read_dir_calls() == old(self).after_visit(listing).0.read_dir_calls,
            final(self).visits_left() == old(self).after_visit(listing).0.visits_left,
            r.outcome() == old(self).after_visit(listing).1,
    {
        if self.visits_left == 0 {
            return Visit::Done;
        }
        let ghost waiting = self.pending();
        let ghost known = self.named();
        let node = match self.path_stack.pop() {
            None => {
                return Visit::Done;
            },
            Some(node) => node,
        };
        self.visits_left = self.visits_left - 1;
        let ghost top = node.shape();
        proof {
            assert(top == waiting.last());
            assert(self.pending() =~= waiting.drop_last());
            assert(self.named().contains(waiting[waiting.len() - 1]));
            assert forall|i: int| 0 <= i < self.pending().len() implies self.named().contains(
                #[trigger] self.pending()[i],
            ) by {
                assert(self.pending()[i] == waiting[i]);
            }
            assert(self.pending() + Seq::<Pending>::empty() =~= self.pending());
            assert(known + Seq::<Pending>::empty() =~= known);
        }
        let (depth, path, is_dir): (Ghost<nat>, String, bool) = match node {
            Node::File(depth, path) => (depth, path, false),
            Node::Dir(depth, path) => {
                let within = match self.max_depth {
                    Some(limit) => depth < limit,
                    None => true,
                };
                if within {
                    match listing {
                        Listing::NotAsked => {},
                        Listing::Failed(e) => {
                            self.reads = Ghost(self.reads@ + 1);
                            return Visit::Failed(e);
                        },
                        Listing::Entries(entries, failure) => {
                            self.reads = Ghost(self.reads@ + 1);
                            self.push_entries(entries, depth);
                            if let Some(e) = failure {
                                return Visit::Failed(e);
                            }
                        },
                    }
                }
                (Ghost(depth as nat), path, true)
            },
        };
        if self.is_valid(&path) {
            Visit::Yielded(WalkItem::new(path, is_dir, depth))
        } else {
            Visit::Skipped
        }
    }

    /// Puts the entries of a listing on the stack, in the order of the
    /// listing, as entries directly below a directory at `depth`.
    fn push_entries(&mut self, entries: Vec<(String, bool)>, depth: usize)
        requires
            old(self).wf(),
            old(self).read_dir_calls() + old(self).pending().len() <= old(self).named().len(),
            old(self).depth_limit() matches Some(d) ==> depth < d,
        ensures
            final(self).wf(),
            final(self).follows(old(self)),
            final(self).read_dir_calls() == old(self).read_dir_calls(),
            final(self).visits_left() == old(self).visits_left(),
            final(self).pending() == old(self).pending() + listed(
                entries@,
                child_depth(depth as nat),
            ),
            final(self).named() == old(self).named() + listed(entries@, child_depth(depth as nat)),
    {
        let ghost all = entries@;
        let ghost before = self.pending();
        let ghost known = self.named();
        let below = depth.saturating_add(1);
        proof {
            assert(listed(all.take(0), below as nat) =~= Seq::<Pending>::empty());
            assert(before + Seq::<Pending>::empty() =~= before);
            assert(known + Seq::<Pending>::empty() =~= known);
        }
        for entry in it: entries.into_iter()
            invariant
                it.seq() == all,
                before == old(self).pending(),
                known == old(self).named(),
                below == child_depth(depth as nat),
                self.same_walk(old(self)),
                self.read_dir_calls() == old(self).read_dir_calls(),
                self.visits_left() == old(self).visits_left(),
                self.pending() == before + listed(all.take(it.index() as int), below as nat),
                self.named() == known + listed(all.take(it.index() as int), below as nat),
                self.depth_limit() matches Some(d) ==> below <= d,
                self.wf(),
        {
            let ghost so_far = self.pending();
            let ghost named_so_far = self.named();
            let ghost i = it.index() as int;
            proof {
                assert(entry == all[i]);
            }
            let (p, is_dir) = entry;
            let node = if is_dir {
                Node::Dir(below, p)
            } else {
                Node::File(Ghost(below as nat), p)
            };
            let ghost added = node.shape();
            self.path_stack.push(node);
            self.named = Ghost(self.named@.push(added));
            proof {
                assert(self.pending() =~= so_far.push(added));
                assert(all.take(i + 1) =~= all.take(i).push(entry));
                assert(listed(all.take(i + 1), below as nat) =~= listed(
                    all.take(i),
                    below as nat,
                ).push(added));
                assert(self.pending() =~= before + listed(all.take(i + 1), below as nat));
                assert(self.named() =~= known + listed(all.take(i + 1), below as nat));
                assert(self.named().last() == added);
                assert forall|j: int| 0 <= j < self.pending().len() implies self.named().contains(
                    #[trigger] self.pending()[j],
                ) by {
                    if j < so_far.len() {
                        let k = choose|k: int|
                            0 <= k < named_so_far.len() && named_so_far[k] == so_far[j];
                        assert(self.named()[k] == so_far[j]);
                    } else {
                        assert(self.named()[self.named().len() - 1] == added);
                    }
                }
                assert forall|j: int| 0 <= j < self.named().len() implies (
                self.depth_limit() matches Some(d) ==> (#[trigger] self.named()[j]).depth <= d) by {
                    if j < named_so_far.len() {
                        assert(self.named()[j] == named_so_far[j]);
                    }
                }
            }
        }
        proof {
            assert(all.take(all.len() as int) =~= all);
        }
    }

    /// Visits waiting entries, last one first, until one passes the filters
    /// or a listing fails. The backend is asked for the listing of each
    /// directory above the depth limit, once, right before its visit.
    fn resolve_next(&mut self) -> (r: Option<Result<WalkItem, T::Error>>)
        requires
            old(self).wf(),
        ensures
            final(self).wf(),
            final(self).follows(old(self)),
            r is Some ==> final(self).visits_left() < old(self).visits_left(),
            r is None ==> final(self).pending().len() == 0 || final(self).visits_left() == 0,
            r matches Some(Ok(item)) ==> yielded_ok(final(self), item),
            exists|listings: Seq<Listing<T::Error>>|
                explains(
                    old(self).backend(),
                    old(self).progress(),
                    old(self).depth_limit(),
                    old(self).filters(),
                    listings,
                    final(self).progress(),
                    outcome_of(r),
                ),
    {
        let ghost fs = self.backend();
        let ghost start = self.progress();
        let ghost limit = self.depth_limit();
        let ghost filters = self.filters();
        let ghost mut skipped: Seq<Listing<T::Error>> = Seq::empty();
        loop
            invariant
                self.wf(),
                self.follows(old(self)),
                fs == self.backend(),
                start == old(self).progress(),
                limit == self.depth_limit(),
                filters == self.filters(),
                after_skips(fs, start, limit, filters, skipped) == Some(self.progress()),
            decreases self.visits_left,
        {
            let listing = match self.next_listing() {
                Some(path) => {
                    let listing = read_listing(self.fs, &path);
                    proof {
                        let answer = choose|
                            answer: Result<Vec<Result<T::DirEntry, T::Error>>, T::Error>,
                        |
                            call_ensures(T::read_dir, (self.fs, &path), answer) && reads_as(
                                answer,
                                listing,
                            );
                        assert(may_answer(fs, path, answer));
                        assert(may_list(fs, path@, listing));
                    }
                    listing
                },
                None => Listing::NotAsked,
            };
            let ghost earlier = *self;
            let ghost given = listing;
            assert(taken_ok(fs, earlier.progress(), limit, given));
            let visit = self.visit(listing);
            proof {
                let (q, o) = step(earlier.progress(), limit, filters, given);
                assert(self.progress() == q);
                assert(visit.outcome() == o);
                assert(skipped.push(given).drop_last() =~= skipped);
                assert(skipped.push(given).last() == given);
            }
            match visit {
                Visit::Done => {
                    proof {
                        assert(explains(
                            fs,
                            start,
                            limit,
                            filters,
                            skipped.push(given),
                            self.progress(),
                            outcome_of::<T::Error>(None),
                        ));
                    }
                    return None;
                },
                Visit::Skipped => {
                    proof {
                        skipped = skipped.push(given);
                    }
                },
                Visit::Yielded(item) => {
                    proof {
                        let top = earlier.pending().last();
                        assert(earlier.named().contains(earlier.pending()[earlier.pending().len()
                            - 1]));
                        let k = choose|k: int|
                            0 <= k < earlier.named().len() && earlier.named()[k] == top;
                        assert(self.named()[k] == top);
                        lemma_named_within_limit(self, top);
                        assert(explains(
                            fs,
                            start,
                            limit,
                            filters,
                            skipped.push(given),
                            self.progress(),
                            outcome_of(Some(Ok::<WalkItem, T::Error>(item))),
                        ));
                    }
                    return Some(Ok(item));
                },
                Visit::Failed(e) => {
                    proof {
                        assert(explains(
                            fs,
                            start,
                            limit,
                            filters,
                            skipped.push(given),
                            self.progress(),
                            outcome_of(Some(Err::<WalkItem, T::Error>(e))),
                        ));
                    }
                    return Some(Err(e));
                },
            }
        }
    }

    /// The next entry of the walk that passes every filter, a failure that a
    /// listing met on the way, or `None` once nothing waits any more. A
    /// failure does not end the walk: the next call goes on with what waits.
    /// The call is a run of visits, each given what the backend answered when
    /// it was asked for the listing that the visit wanted: all but the last
    /// skip their entry, and the last decides how the call ends.
    pub fn next(&mut self) -> (r: Option<Result<WalkItem, T::Error>>)
        requires
            old(self).wf(),
        ensures
            final(self).wf(),
            final(self).follows(old(self)),
            r is Some ==> final(self).visits_left() < old(self).visits_left(),
            r is None ==> final(self).pending().len() == 0 || final(self).visits_left() == 0,
            r matches Some(Ok(item)) ==> yielded_ok(final(self), item),
            exists|listings: Seq<Listing<T::Error>>|
                explains(
                    old(self).backend(),
                    old(self).progress(),
                    old(self).depth_limit(),
                    old(self).filters(),
                    listings,
                    final(self).progress(),
                    outcome_of(r),
                ),
    {
        self.resolve_next()
    }

    /// Runs the walk to its end and hands back all that it yields, in order:
    /// what one call for the next entry after the other hands back, up to
    /// the call that finds nothing more.
    pub fn collect(&mut self) -> (items: Vec<Result<WalkItem, T::Error>>)
        requires
            old(self).wf(),
        ensures
            final(self).wf(),
            final(self).follows(old(self)),
            final(self).pending().len() == 0 || final(self).visits_left() == 0,
            forall|i: int|
                0 <= i < items@.len() ==> ((#[trigger] items@[i]) matches Ok(item) ==> yielded_ok(
                    final(self),
                    item,
                )),
            exists|runs: Seq<Seq<Listing<T::Error>>>|
                #[trigger] after_calls(
                    old(self).backend(),
                    old(self).progress(),
                    old(self).depth_limit(),
                    old(self).filters(),
                    runs,
                    outcomes_of(items@).push(Outcome::Done),
                ) == Some(final(self).progress()),
            items@.len() + old(self).visits() <= final(self).visits(),
    {
        let mut items: Vec<Result<WalkItem, T::Error>> = Vec::new();
        let ghost fs = self.backend();
        let ghost start = self.progress();
        let ghost limit = self.depth_limit();
        let ghost filters = self.filters();
        let ghost mut runs: Seq<Seq<Listing<T::Error>>> = Seq::empty();
        proof {
            assert(outcomes_of(items@) =~= Seq::<Outcome<T::Error>>::empty());
        }
        loop
            invariant
                self.wf(),
                self.follows(old(self)),
                fs == self.backend(),
                start == old(self).progress(),
                limit == self.depth_limit(),
                filters == self.filters(),
                after_calls(fs, start, limit, filters, runs, outcomes_of(items@)) == Some(
                    self.progress(),
                ),
                items@.len() + old(self).visits() <= self.visits(),
                forall|i: int|
                    0 <= i < items@.len() ==> ((#[trigger] items@[i]) matches Ok(item)
                        ==> yielded_ok(self, item)),
            decreases self.visits_left,
        {
            let ghost earlier = *self;
            let ghost so_far = items@;
            let next = self.next();
            let ghost listings = choose|listings: Seq<Listing<T::Error>>|
                explains(
                    fs,
                    earlier.progress(),
                    limit,
                    filters,
                    listings,
                    self.progress(),
                    outcome_of(next),
                );
            proof {
                assert(runs.push(listings).drop_last() =~= runs);
                assert(runs.push(listings).last() == listings);
            }
            match next {
                None => {
                    proof {
                        let outcomes = outcomes_of(so_far).push(Outcome::<T::Error>::Done);
                        assert(outcomes.drop_last() =~= outcomes_of(so_far));
                        assert(outcomes.last() == Outcome::<T::Error>::Done);
                        assert(after_calls(fs, start, limit, filters, runs.push(listings), outcomes)
                            == Some(self.progress()));
                    }
                    return items;
                },
                Some(r) => {
                    items.push(r);
                    proof {
                        let outcomes = outcomes_of(items@);
                        assert(outcomes =~= outcomes_of(so_far).push(outcome_of(Some(r))));
                        assert(outcomes.drop_last() =~= outcomes_of(so_far));
                        assert(outcomes.last() == outcome_of(Some(r)));
                        assert(after_calls(fs, start, limit, filters, runs.push(listings), outcomes)
                            == Some(self.progress()));
                        runs = runs.push(listings);
                        assert forall|i: int| 0 <= i < items@.len() implies ((
                        #[trigger] items@[i]) matches Ok(item) ==> yielded_ok(self, item)) by {
                            if i < so_far.len() {
                                assert(items@[i] == so_far[i]);
                                if let Ok(item) = so_far[i] {
                                    let k = choose|k: int|
                                        0 <= k < earlier.named().len() && earlier.named()[k]
                                            == item.shape();
                                    assert(self.named()[k] == item.shape());
                                }
                            }
                        }
                    }
                },
            }
        }
    }
}

/// What the backend answered when it was asked for a listing.
pub enum Listing<E> {
    /// It was not asked.
    NotAsked,
    /// The listing failed as a whole.
    Failed(E),
    /// The entries named before the first failure, each with its path and
    /// whether it is a directory, and that failure if there was one.
    Entries(Vec<(String, bool)>, Option<E>),
}

/// The entries of a listing as the walker notes them, at `depth`.
pub open spec fn listed(entries: Seq<(String, bool)>, depth: nat) -> Seq<Pending> {
    entries.map_values(|e: (String, bool)| Pending { path: e.0@, depth, dir: e.1 })
}

impl<E> Listing<E> {
    /// The entries that the listing names, at `depth`.
    pub open spec fn children(self, depth: nat) -> Seq<Pending> {
        match self {
            Listing::Entries(entries, _) => listed(entries@, depth),
            _ => Seq::empty(),
        }
    }

    /// The failure that the listing met, if it met one.
    pub open spec fn failure(self) -> Option<E> {
        match self {
            Listing::Failed(e) => Some(e),
            Listing::Entries(_, Some(e)) => Some(e),
            _ => None,
        }
    }
}

/// How a visit ended.
pub enum Visit<E> {
    /// There was nothing to visit.
    Done,
    /// The entry did not pass the filters.
    Skipped,
    /// The entry passed the filters.
    Yielded(WalkItem),
    /// The listing of the entry failed.
    Failed(E),
}

/// How a visit ended, with the entry as the backend named it.
pub enum Outcome<E> {
    Done,
    Skipped,
    Yielded(Pending),
    Failed(E),
}

impl<E> Visit<E> {
    /// How the visit ended.
    pub open spec fn outcome(self) -> Outcome<E> {
        match self {
            Visit::Done => Outcome::Done,
            Visit::Skipped => Outcome::Skipped,
            Visit::Yielded(item) => Outcome::Yielded(item.shape()),
            Visit::Failed(e) => Outcome::Failed(e),
        }
    }
}

/// How a call for the next entry ended.
pub open spec fn outcome_of<E>(r: Option<Result<WalkItem, E>>) -> Outcome<E> {
    match r {
        None => Outcome::Done,
        Some(Ok(item)) => Outcome::Yielded(item.shape()),
        Some(Err(e)) => Outcome::Failed(e),
    }
}

/// Whether the next visit is that of a directory whose listing is wanted:
/// something waits, the walk may still visit, and the entry that waits last
/// is a directory above the depth limit.
pub open spec fn wants_listing(p: Progress, limit: Option<nat>) -> bool {
    &&& p.visits_left > 0
    &&& p.pending.len() > 0
    &&& p.pending.last().dir
    &&& limit matches Some(d) ==> p.pending.last().depth < d
}

/// What a visit does. Where nothing waits, or the walk has used up its
/// visits, nothing changes. Else the entry that waits last leaves the
/// stack, the entries of its listing take its place and join the record,
/// the count of listings grows if one was asked for, and the visit ends with
/// the failure of the listing, or with the entry if the filters match it.
/// A listing that was not wanted counts as not asked for.
pub open spec fn step<E>(
    p: Progress,
    limit: Option<nat>,
    filters: Seq<Filter>,
    listing: Listing<E>,
) -> (Progress, Outcome<E>) {
    if p.pending.len() == 0 || p.visits_left == 0 {
        (p, Outcome::Done)
    } else {
        let top = p.pending.last();
        let taken = if wants_listing(p, limit) {
            listing
        } else {
            Listing::NotAsked
        };
        let below = taken.children(child_depth(top.depth));
        let q = Progress {
            pending: p.pending.drop_last() + below,
            named: p.named + below,
            read_dir_calls: p.read_dir_calls + if taken is NotAsked {
                0nat
            } else {
                1nat
            },
            visits_left: (p.visits_left - 1) as nat,
        };
        let outcome = match taken.failure() {
            Some(e) => Outcome::Failed(e),
            None => if filter::all_match(filters, top.path) {
                Outcome::Yielded(top)
            } else {
                Outcome::Skipped
            },
        };
        (q, outcome)
    }
}

/// Whether `listing` is what a visit from `p` may be given: where the visit
/// wants a listing, one that the backend may give for the path of the entry
/// that waits last; where it wants none, none.
pub open spec fn taken_ok<T: FileSystem>(
    fs: &T,
    p: Progress,
    limit: Option<nat>,
    listing: Listing<T::Error>,
) -> bool {
    if wants_listing(p, limit) {
        may_list(fs, p.pending.last().path, listing)
    } else {
        listing is NotAsked
    }
}

/// Where a run of visits leads that all end with the entry skipped, one
/// visit for each of `listings`, each of them being what its visit may be
/// given. `None` where a visit of the run ends otherwise.
pub open spec fn after_skips<T: FileSystem>(
    fs: &T,
    p: Progress,
    limit: Option<nat>,
    filters: Seq<Filter>,
    listings: Seq<Listing<T::Error>>,
) -> Option<Progress>
    decreases listings.len(),
{
    if listings.len() == 0 {
        Some(p)
    } else {
        match after_skips(fs, p, limit, filters, listings.drop_last()) {
            Some(q) => if step(q, limit, filters, listings.last()).1 is Skipped && taken_ok(
                fs,
                q,
                limit,
                listings.last(),
            ) {
                Some(step(q, limit, filters, listings.last()).0)
            } else {
                None
            },
            None => None,
        }
    }
}

/// Where a call for the next entry leads, and how it ends, if `listings`
/// are what its visits were given: the visits for all but the last of them
/// end with the entry skipped, and the visit for the last of them, which is
/// no skip, decides. `None` where `listings` are those of no call.
pub open spec fn after_call<T: FileSystem>(
    fs: &T,
    p: Progress,
    limit: Option<nat>,
    filters: Seq<Filter>,
    listings: Seq<Listing<T::Error>>,
) -> Option<(Progress, Outcome<T::Error>)> {
    if listings.len() == 0 {
        None
    } else {
        match after_skips(fs, p, limit, filters, listings.drop_last()) {
            Some(m) => if !(step(m, limit, filters, listings.last()).1 is Skipped) && taken_ok(
                fs,
                m,
                limit,
                listings.last(),
            ) {
                Some(step(m, limit, filters, listings.last()))
            } else {
                None
            },
            None => None,
        }
    }
}

/// Whether `listings` explain how a call for the next entry went from `p`
/// to `q` and ended with `last`.
pub open spec fn explains<T: FileSystem>(
    fs: &T,
    p: Progress,
    limit: Option<nat>,
    filters: Seq<Filter>,
    listings: Seq<Listing<T::Error>>,
    q: Progress,
    last: Outcome<T::Error>,
) -> bool {
    after_call(fs, p, limit, filters, listings) == Some((q, last))
}

/// How the calls ended that yielded `items`, one after the other.
pub open spec fn outcomes_of<E>(items: Seq<Result<WalkItem, E>>) -> Seq<Outcome<E>> {
    items.map_values(|r: Result<WalkItem, E>| outcome_of(Some(r)))
}

/// Where a series of calls for the next entry leads, one call for each of
/// `runs`, which are the listings that its visits were given, if the calls
/// end as `outcomes` say, one after the other. `None` where they do not.
pub open spec fn after_calls<T: FileSystem>(
    fs: &T,
    p: Progress,
    limit: Option<nat>,
    filters: Seq<Filter>,
    runs: Seq<Seq<Listing<T::Error>>>,
    outcomes: Seq<Outcome<T::Error>>,
) -> Option<Progress>
    decreases runs.len(),
{
    if runs.len() != outcomes.len() {
        None
    } else if runs.len() == 0 {
        Some(p)
    } else {
        match after_calls(fs, p, limit, filters, runs.drop_last(), outcomes.drop_last()) {
            Some(m) => match after_call(fs, m, limit, filters, runs.last()) {
                Some((q, o)) => if o == outcomes.last() {
                    Some(q)
                } else {
                    None
                },
                None => None,
            },
            None => None,
        }
    }
}

/// A run of skips does not go past a visit that ends otherwise: where the
/// visit for the first of `listings` is no skip, no run of skips uses more
/// than none of them.
pub proof fn lemma_skips_stop<T: FileSystem>(
    fs: &T,
    p: Progress,
    limit: Option<nat>,
    filters: Seq<Filter>,
    listings: Seq<Listing<T::Error>>,
)
    requires
        listings.len() > 0,
        !(step(p, limit, filters, listings[0]).1 is Skipped),
    ensures
        after_skips(fs, p, limit, filters, listings) is None,
    decreases listings.len(),
{
    let front = listings.drop_last();
    if front.len() > 0 {
        assert(front[0] == listings[0]);
        lemma_skips_stop(fs, p, limit, filters, front);
    } else {
        assert(listings.last() == listings[0]);
        assert(after_skips(fs, p, limit, filters, front) == Some(p));
    }
}

/// Where the first visit of a call for the next entry is no skip, it is the
/// only visit of the call, and decides how the call ends.
pub proof fn lemma_first_visit_decides<T: FileSystem>(
    fs: &T,
    p: Progress,
    limit: Option<nat>,
    filters: Seq<Filter>,
    listings: Seq<Listing<T::Error>>,
    q: Progress,
    last: Outcome<T::Error>,
)
    requires
        explains(fs, p, limit, filters, listings, q, last),
        !(step(p, limit, filters, listings[0]).1 is Skipped),
    ensures
        listings.len() == 1,
        step(p, limit, filters, listings[0]) == (q, last),
        taken_ok(fs, p, limit, listings[0]),
{
    if listings.len() > 1 {
        assert(listings.drop_last()[0] == listings[0]);
        lemma_skips_stop(fs, p, limit, filters, listings.drop_last());
    }
    assert(listings.drop_last() =~= Seq::<Listing<T::Error>>::empty());
}

/// Whether `r` is how the answer of a backend to the question for a
/// listing reads. A listing that failed as a whole reads as that failure.
/// Else it reads as its entries before the first one that failed, each with
/// what it may say of itself, in the order of the listing, and with that
/// first failure if there is one.
pub open spec fn reads_as<E: DirEntryTrait, X>(
    answer: Result<Vec<Result<E, X>>, X>,
    r: Listing<X>,
) -> bool {
    match answer {
        Err(e) => r == Listing::<X>::Failed(e),
        Ok(entries) => {
            let k = backend::first_failure(entries@, 0);
            r matches Listing::Entries(plain, failure) && {
                &&& plain@.len() == k
                &&& forall|i: int|
                    0 <= i < k ==> backend::says_entry(entries@[i]->Ok_0, #[trigger] plain@[i])
                &&& failure == if k < entries@.len() {
                    Some(entries@[k]->Err_0)
                } else {
                    None
                }
            }
        },
    }
}

/// Whether `answer` is what the backend may answer when it is asked for the
/// listing of `asked`.
pub open spec fn may_answer<T: FileSystem>(
    fs: &T,
    asked: String,
    answer: Result<Vec<Result<T::DirEntry, T::Error>>, T::Error>,
) -> bool {
    call_ensures(T::read_dir, (fs, &asked), answer)
}

/// Whether `listing` is what the backend may give for the listing of the
/// directory at `path`: how one of its answers to that question reads.
pub open spec fn may_list<T: FileSystem>(
    fs: &T,
    path: Seq<char>,
    listing: Listing<T::Error>,
) -> bool {
    exists|asked: String, answer: Result<Vec<Result<T::DirEntry, T::Error>>, T::Error>|
        asked@ == path && #[trigger] may_answer(fs, asked, answer) && reads_as(answer, listing)
}

/// Asks the backend for the listing of the directory `path`, once, and each
/// entry of the listing, up to the first that fails, for its path and its
/// kind, once each.
pub fn read_listing<T: FileSystem>(fs: &T, path: &String) -> (r: Listing<T::Error>)
    ensures
        !(r is NotAsked),
        exists|answer: Result<Vec<Result<T::DirEntry, T::Error>>, T::Error>|
            call_ensures(T::read_dir, (fs, path), answer) && #[trigger] reads_as(answer, r),
{
    let answer = fs.read_dir(path);
    let ghost given = answer;
    match answer {
        Err(e) => {
            let r = Listing::Failed(e);
            assert(reads_as(given, r));
            r
        },
        Ok(entries) => {
            let ghost all = entries@;
            let mut plain: Vec<(String, bool)> = Vec::new();
            for entry in it: entries.into_iter()
                invariant
                    it.seq() == all,
                    given == Ok::<Vec<Result<T::DirEntry, T::Error>>, T::Error>(entries),
                    all == entries@,
                    call_ensures(T::read_dir, (fs, path), given),
                    backend::first_failure(all, 0) == backend::first_failure(
                        all,
                        it.index() as int,
                    ),
                    plain@.len() == it.index(),
                    forall|i: int|
                        0 <= i < it.index() ==> backend::says_entry(
                            all[i]->Ok_0,
                            #[trigger] plain@[i],
                        ),
            {
                let ghost i = it.index() as int;
                let ghost so_far = plain@;
                proof {
                    assert(entry == all[i]);
                    backend::lemma_first_failure_bounds(all, i);
                    if entry is Ok {
                        backend::lemma_first_failure_bounds(all, i + 1);
                    }
                }
                match entry {
                    Err(e) => {
                        let r = Listing::Entries(plain, Some(e));
                        assert(reads_as(given, r));
                        return r;
                    },
                    Ok(entry) => {
                        let p = entry.path();
                        let d = entry.is_dir();
                        plain.push((p, d));
                        proof {
                            assert(backend::says_entry(entry, (p, d)));
                            assert forall|j: int| 0 <= j < i + 1 implies backend::says_entry(
                                all[j]->Ok_0,
                                #[trigger] plain@[j],
                            ) by {
                                if j < i {
                                    assert(plain@[j] == so_far[j]);
                                }
                            }
                        }
                    },
                }
            }
            proof {
                backend::lemma_first_failure_bounds(all, all.len() as int);
            }
            let r = Listing::Entries(plain, None);
            assert(reads_as(given, r));
            r
        },
    }
}

/// Whatever the backend has named to a walk lies within its depth limit.
pub proof fn lemma_named_within_limit<T: FileSystem>(walk: &Walk<'_, T>, entry: Pending)
    requires
        walk.wf(),
        walk.named().contains(entry),
    ensures
        walk.depth_limit() matches Some(d) ==> entry.depth <= d,
{
    let k = choose|k: int| 0 <= k < walk.named().len() && walk.named()[k] == entry;
    assert(walk.named()[k] == entry);
}

/// What a walk yields exists, if what the backend names exists: for any
/// set of paths that holds every path that the backend has named to the
/// walk, the path of a yielded entry is in the set.
pub proof fn lemma_yielded_exists<T: FileSystem>(
    walk: &Walk<'_, T>,
    item: WalkItem,
    existing: Set<Seq<char>>,
)
    requires
        yielded_ok(walk, item),
        forall|i: int|
            0 <= i < walk.named().len() ==> existing.contains((#[trigger] walk.named()[i]).path),
    ensures
        existing.contains(item.location()),
{
    let k = choose|k: int| 0 <= k < walk.named().len() && walk.named()[k] == item.shape();
    assert(walk.named()[k].path == item.location());
}

/// A walk asks for no more listings than the backend has named entries to
/// it, the start included: each listing is that of one named entry, and none
/// is asked for twice.
pub proof fn lemma_one_listing_per_entry<T: FileSystem>(walk: &Walk<'_, T>)
    requires
        walk.wf(),
    ensures
        walk.read_dir_calls() + walk.pending().len() <= walk.named().len(),
{
}

/// Over a tree of `n` entries, each of which the backend names once, a walk
/// asks for at most `n` listings: where `tree` holds the path of every entry
/// that the backend has named to the walk, and no path was named twice, the
/// listings asked for are no more than the paths of `tree`.
pub proof fn lemma_read_dir_calls_bounded<T: FileSystem>(
    walk: &Walk<'_, T>,
    tree: Set<Seq<char>>,
)
    requires
        walk.wf(),
        tree.finite(),
        forall|i: int|
            0 <= i < walk.named().len() ==> tree.contains((#[trigger] walk.named()[i]).path),
        forall|i: int, j: int|
            0 <= i < j < walk.named().len() ==> (#[trigger] walk.named()[i]).path != (
            #[trigger] walk.named()[j]).path,
    ensures
        walk.read_dir_calls() <= tree.len(),
{
    lemma_visits_bounded(walk, tree);
}

/// Over a tree of `n` entries, each of which the backend names once, a walk
/// visits at most `n` entries, and so yields at most `n`: where `tree` holds
/// the path of every entry that the backend has named to the walk, and no
/// path was named twice, the visits are no more than the paths of `tree`.
pub proof fn lemma_visits_bounded<T: FileSystem>(walk: &Walk<'_, T>, tree: Set<Seq<char>>)
    requires
        walk.wf(),
        tree.finite(),
        forall|i: int|
            0 <= i < walk.named().len() ==> tree.contains((#[trigger] walk.named()[i]).path),
        forall|i: int, j: int|
            0 <= i < j < walk.named().len() ==> (#[trigger] walk.named()[i]).path != (
            #[trigger] walk.named()[j]).path,
    ensures
        walk.visits() <= tree.len(),
        walk.named().len() <= tree.len(),
{
    let paths = walk.named().map_values(|n: Pending| n.path);
    assert(paths.no_duplicates()) by {
        assert forall|i: int, j: int|
            0 <= i < paths.len() && 0 <= j < paths.len() && i != j implies paths[i]
            != paths[j] by {
            if i < j {
                assert(walk.named()[i].path != walk.named()[j].path);
            } else {
                assert(walk.named()[j].path != walk.named()[i].path);
            }
        }
    }
    paths.unique_seq_to_set();
    assert(paths.to_set().subset_of(tree)) by {
        assert forall|p: Seq<char>| paths.to_set().contains(p) implies tree.contains(p) by {
            let i = choose|i: int| 0 <= i < paths.len() && paths[i] == p;
            assert(tree.contains(walk.named()[i].path));
        }
    }
    vstd::set_lib::lemma_len_subset(paths.to_set(), tree);
}

/// Collects what a walk needs: a backend, a path and filters.
pub struct WalkBuilder<'a, T: FileSystem> {
    fs: &'a T,
    path: Option<String>,
    filters: Vec<Filter>,
}

impl<'a, T: FileSystem> WalkBuilder<'a, T> {
    /// The backend to walk.
    pub closed spec fn backend(&self) -> &T {
        self.fs
    }

    /// The path to walk, once one was given.
    pub closed spec fn target(&self) -> Option<Seq<char>> {
        match self.path {
            Some(p) => Some(p@),
            None => None,
        }
    }

    /// The filters added so far.
    pub closed spec fn filters(&self) -> Seq<Filter> {
        self.filters@
    }

    pub fn new(file_system: &'a T) -> (b: WalkBuilder<'a, T>)
        ensures
            b.backend() == file_system,
            b.target() is None,
            b.filters().len() == 0,
    {
        WalkBuilder { fs: file_system, path: None, filters: Vec::new() }
    }

    /// The walk for the path and the filters given. Fails with
    /// `Error::NoPathDefined` when no path was given, and as `Walk::new`
    /// does when the path has a wildcard and is no glob pattern.
    pub fn build(self) -> (r: Result<Walk<'a, T>, Error>)
        ensures
            self.target() is None ==> (r matches Err(e) && e is NoPathDefined),
            self.target() matches Some(p) ==> {
                &&& r is Err <==> path::has_wildcard(p) && !filter::glob_compiles(p)
                &&& r matches Err(e) ==> e is PatternError
                &&& r matches Ok(w) ==> {
                    &&& w.wf()
                    &&& exists|found: Found, start: String|
                        start@ == w.root() && #[trigger] backend::may_find(
                            self.backend(),
                            &start,
                            found,
                        ) && w.starts(self.backend(), p, path::has_wildcard(p), found)
                    &&& w.root() == path::start_of(p)
                    &&& w.depth_limit() == path::depth_limit(p)
                    &&& path::has_wildcard(p) ==> w.filters().len() == self.filters().len() + 1
                        && w.filters().drop_last() == self.filters() && (
                    w.filters().last() matches Filter::Glob(g) && g.source() == p)
                    &&& !path::has_wildcard(p) ==> w.filters() == self.filters()
                }
            },
    {
        match self.path {
            None => Err(Error::NoPathDefined),
            Some(path) => {
                let r = Walk::new(self.fs, path.as_str(), self.filters);
                proof {
                    if let Ok(w) = &r {
                        let (found, start) = choose|found: Found, start: String|
                            start@ == w.root() && #[trigger] backend::may_find(
                                self.fs,
                                &start,
                                found,
                            ) && w.starts(self.fs, path@, path::has_wildcard(path@), found);
                        assert(start@ == w.root() && backend::may_find(
                            self.backend(),
                            &start,
                            found,
                        ) && w.starts(self.backend(), path@, path::has_wildcard(path@), found));
                    }
                }
                r
            },
        }
    }

    pub fn add_filter(self, path_filter: Filter) -> (b: WalkBuilder<'a, T>)
        ensures
            b.backend() == self.backend(),
            b.target() == self.target(),
            b.filters() == self.filters().push(path_filter),
    {
        let mut b = self;
        b.filters.push(path_filter);
        b
    }

    pub fn with_path(self, path: String) -> (b: WalkBuilder<'a, T>)
        ensures
            b.backend() == self.backend(),
            b.target() == Some(path@),
            b.filters() == self.filters(),
    {
        let mut b = self;
        b.path = Some(path);
        b
    }
}

} // verus!
