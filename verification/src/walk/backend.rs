//! What the walker asks of a filesystem. A backend is free in how it
//! answers: the walker holds for every answer, and keeps a record of the
//! entries that the backend has named to it.

use crate::walk::err::Error;
use vstd::prelude::*;

verus! {

/// What is known of an entry once it has been looked up.
pub trait MetadataTrait {
    /// Whether the entry is a directory.
    fn is_dir(&self) -> bool;
}

/// One entry of a directory listing.
pub trait DirEntryTrait {
    /// The path of the entry.
    fn path(&self) -> String;

    /// Whether the entry is a directory.
    fn is_dir(&self) -> bool;
}

/// Whether `r` is what the answer to a lookup says of the question whether
/// its entry is a directory: what the metadata may say of itself where the
/// lookup found them, and `false` where the lookup failed.
pub open spec fn says_dir<M: MetadataTrait, X>(answer: Result<M, X>, r: bool) -> bool {
    match answer {
        Ok(m) => call_ensures(M::is_dir, (&m,), r),
        Err(_) => !r,
    }
}

/// A filesystem that can be walked.
pub trait FileSystem {
    type Error: From<Error>;

    type DirEntry: DirEntryTrait;

    type Metadata: MetadataTrait;

    /// Whether `path` is a directory; `false` where it cannot be told.
    /// Unless a backend has an answer of its own, `path` is looked up once,
    /// and the answer is what the lookup says.
    fn is_dir(&self, path: &String) -> (r: bool)
        default_ensures
            exists|answer: Result<Self::Metadata, Self::Error>|
                call_ensures(Self::metadata, (self, path), answer) && #[trigger] says_dir(
                    answer,
                    r,
                ),
    {
        let answer = self.metadata(path);
        let r = match &answer {
            Ok(m) => m.is_dir(),
            Err(_) => false,
        };
        assert(says_dir(answer, r));
        r
    }

    fn current_dir(&self) -> Result<String, Self::Error>;

    /// Whether `path` exists; `false` where it cannot be told.
    fn path_exists(&self, path: &String) -> bool;

    /// The entries directly below `path`, in no particular order. The whole
    /// listing fails where `path` is no directory; a single entry may fail
    /// too, and ends the listing.
    fn read_dir(&self, path: &String) -> Result<
        Vec<Result<Self::DirEntry, Self::Error>>,
        Self::Error,
    >;

    /// Looks `path` up. Fails where no entry stands at `path`.
    fn metadata(&self, path: &String) -> Result<Self::Metadata, Self::Error>;
}

/// Whether `plain` is what an entry of a listing may say of itself: its path
/// and whether it is a directory.
pub open spec fn says_entry<E: DirEntryTrait>(entry: E, plain: (String, bool)) -> bool {
    call_ensures(E::path, (&entry,), plain.0) && call_ensures(E::is_dir, (&entry,), plain.1)
}

/// The index of the first failure of `listing` at or after `i`, or its
/// length when there is none.
pub open spec fn first_failure<E, X>(listing: Seq<Result<E, X>>, i: int) -> int
    decreases listing.len() - i,
{
    if i < 0 || i >= listing.len() || listing[i] is Err {
        i
    } else {
        first_failure(listing, i + 1)
    }
}

/// Nothing before the first failure is a failure, and what stands at its
/// place is one unless it is the end of the listing.
pub proof fn lemma_first_failure_bounds<E, X>(listing: Seq<Result<E, X>>, i: int)
    requires
        0 <= i <= listing.len(),
    ensures
        i <= first_failure(listing, i) <= listing.len(),
        forall|j: int| i <= j < first_failure(listing, i) ==> (#[trigger] listing[j]) is Ok,
        first_failure(listing, i) < listing.len() ==> listing[first_failure(listing, i)] is Err,
    decreases listing.len() - i,
{
    if i < listing.len() && listing[i] is Ok {
        lemma_first_failure_bounds(listing, i + 1);
    }
}

/// What a first look at the start of a walk found there.
#[derive(Clone, Copy, PartialEq, Eq, Structural, Debug)]
pub enum Found {
    Directory,
    File,
    Nothing,
}

/// What two answers of a backend about one path amount to: a directory if
/// it said so, else a file if it said that the path exists, else nothing.
pub open spec fn found_of(is_dir: bool, exists: bool) -> Found {
    if is_dir {
        Found::Directory
    } else if exists {
        Found::File
    } else {
        Found::Nothing
    }
}

/// Whether `found` is what a backend may find at `path`: a directory where
/// it may say that `path` is one; else a file where it may say that `path`
/// exists; else nothing.
pub open spec fn may_find<T: FileSystem>(fs: &T, path: &String, found: Found) -> bool {
    match found {
        Found::Directory => call_ensures(T::is_dir, (fs, path), true),
        Found::File => call_ensures(T::is_dir, (fs, path), false) && call_ensures(
            T::path_exists,
            (fs, path),
            true,
        ),
        Found::Nothing => call_ensures(T::is_dir, (fs, path), false) && call_ensures(
            T::path_exists,
            (fs, path),
            false,
        ),
    }
}

/// Asks the backend what stands at `path`: first whether it is a directory,
/// and only if not, whether it exists.
pub fn probe<T: FileSystem>(fs: &T, path: &String) -> (found: Found)
    ensures
        may_find(fs, path, found),
{
    if fs.is_dir(path) {
        Found::Directory
    } else if fs.path_exists(path) {
        Found::File
    } else {
        Found::Nothing
    }
}

} // verus!
