//! Directory entries as the HDFS client reports them, copied out of the
//! client's memory into values of our own.

use crate::hdfs::err::Error;
use vstd::prelude::*;

verus! {

/// The kind of an entry as the client encodes it.
#[allow(non_camel_case_types)]
#[allow(non_snake_case)]
pub enum tObjectKind {
    /// A file, which the client writes as `F`.
    kObjectKindFile,
    /// A directory, which the client writes as `D`.
    kObjectKindDirectory,
}

impl tObjectKind {
    /// The byte that the client writes for this kind.
    pub open spec fn spec_code(self) -> u8 {
        match self {
            tObjectKind::kObjectKindFile => 0x46,
            tObjectKind::kObjectKindDirectory => 0x44,
        }
    }

    pub fn code(&self) -> (c: u8)
        ensures
            c == self.spec_code(),
    {
        match self {
            tObjectKind::kObjectKindFile => 0x46,
            tObjectKind::kObjectKindDirectory => 0x44,
        }
    }

    /// The kind that the client writes as `code`, if it is one.
    pub fn from_code(code: u8) -> (k: Option<tObjectKind>)
        ensures
            code == 0x46 ==> k == Some(tObjectKind::kObjectKindFile),
            code == 0x44 ==> k == Some(tObjectKind::kObjectKindDirectory),
            code != 0x46 && code != 0x44 ==> k is None,
    {
        if code == 0x46 {
            Some(tObjectKind::kObjectKindFile)
        } else if code == 0x44 {
            Some(tObjectKind::kObjectKindDirectory)
        } else {
            None
        }
    }
}

/// The kind of an entry.
#[derive(PartialEq, Eq, Structural, Clone, Copy, Debug)]
pub enum ObjectKind {
    Unknown,
    File,
    Directory,
}

impl ObjectKind {
    /// The kind that the byte `code` stands for: `F` is a file, `D` a
    /// directory, anything else unknown.
    pub open spec fn of_code(code: u8) -> ObjectKind {
        if code == 0x46 {
            ObjectKind::File
        } else if code == 0x44 {
            ObjectKind::Directory
        } else {
            ObjectKind::Unknown
        }
    }

    pub fn from_code(code: u8) -> (k: ObjectKind)
        ensures
            k == ObjectKind::of_code(code),
    {
        match tObjectKind::from_code(code) {
            Some(kind) => ObjectKind::from_t_object_kind(&kind),
            None => ObjectKind::Unknown,
        }
    }

    pub fn from_t_object_kind(kind: &tObjectKind) -> (k: ObjectKind)
        ensures
            k == ObjectKind::of_code(kind.spec_code()),
            k != ObjectKind::Unknown,
    {
        match kind {
            tObjectKind::kObjectKindFile => ObjectKind::File,
            tObjectKind::kObjectKindDirectory => ObjectKind::Directory,
        }
    }
}

/// One entry of a directory: where it is and what it is.
pub struct DirEntry {
    path: String,
    kind: ObjectKind,
}

impl DirEntry {
    /// The path of the entry.
    pub closed spec fn location(&self) -> Seq<char> {
        self.path@
    }

    /// The kind of the entry.
    pub closed spec fn kind(&self) -> ObjectKind {
        self.kind
    }

    pub fn is_dir(&self) -> (r: bool)
        ensures
            r == (self.kind() == ObjectKind::Directory),
    {
        self.kind == ObjectKind::Directory
    }

    pub fn is_file(&self) -> (r: bool)
        ensures
            r == (self.kind() == ObjectKind::File),
    {
        self.kind == ObjectKind::File
    }

    pub fn path(&self) -> (r: String)
        ensures
            r@ == self.location(),
    {
        self.path.clone()
    }
}

/// What the client reports of one entry: its name and the byte for its kind.
pub struct RawFileInfo {
    pub name: String,
    pub kind: u8,
}

/// The entry that the client's report `file` describes.
pub fn hdfsfile_to_file_info(file: &RawFileInfo) -> (e: DirEntry)
    ensures
        e.location() == file.name@,
        e.kind() == ObjectKind::of_code(file.kind),
{
    DirEntry { path: file.name.clone(), kind: ObjectKind::from_code(file.kind) }
}

/// Whether `entries` are the entries that the reports `raw` describe, one
/// for one and in the same order.
pub open spec fn describes(entries: Seq<DirEntry>, raw: Seq<RawFileInfo>) -> bool {
    &&& entries.len() == raw.len()
    &&& forall|i: int|
        0 <= i < raw.len() ==> (#[trigger] entries[i]).location() == raw[i].name@
            && entries[i].kind() == ObjectKind::of_code(raw[i].kind)
}

/// The entries of an array of reports. The client hands back no array
/// (`None` here) when the call failed: that is `Error::Unknown`.
pub fn convert_file_info_to_vec(raw: Option<Vec<RawFileInfo>>) -> (r: Result<Vec<DirEntry>, Error>)
    ensures
        raw is None ==> (r matches Err(e) && e is Unknown),
        raw matches Some(infos) ==> (r matches Ok(entries) && describes(entries@, infos@)),
{
    match raw {
        None => Err(Error::Unknown),
        Some(infos) => {
            let mut entries: Vec<DirEntry> = Vec::new();
            let mut i: usize = 0;
            while i < infos.len()
                invariant
                    i <= infos.len(),
                    describes(entries@, infos@.take(i as int)),
                decreases infos.len() - i,
            {
                entries.push(hdfsfile_to_file_info(&infos[i]));
                i += 1;
            }
            assert(infos@.take(infos.len() as int) =~= infos@);
            Ok(entries)
        },
    }
}

/// The listing of a directory.
pub struct ReadDir {
    pub path: String,
    pub kind: ObjectKind,
    /// The entries that were not handed out yet; the last one goes first.
    pub files: Vec<DirEntry>,
}

impl ReadDir {
    /// Hands out the next entry of the listing, or `None` at its end.
    pub fn next(&mut self) -> (r: Option<DirEntry>)
        ensures
            old(self).files@.len() == 0 ==> r is None && final(self).files@ == old(self).files@,
            old(self).files@.len() > 0 ==> r == Some(old(self).files@.last()) && final(self).files@
                == old(self).files@.drop_last(),
            final(self).path == old(self).path,
            final(self).kind == old(self).kind,
    {
        self.files.pop()
    }
}

/// The listing of the directory `path` from what the client reports for it.
/// Fails with `Error::Unknown` when the client handed back no array.
pub fn list_directory(path: &str, raw: Option<Vec<RawFileInfo>>) -> (r: Result<ReadDir, Error>)
    ensures
        raw is None ==> (r matches Err(e) && e is Unknown),
        raw matches Some(infos) ==> (r matches Ok(listing) && listing.path@ == path@
            && listing.kind == ObjectKind::Directory && describes(listing.files@, infos@)),
{
    match convert_file_info_to_vec(raw) {
        Err(e) => Err(e),
        Ok(files) => Ok(ReadDir { path: path.to_owned(), kind: ObjectKind::Directory, files }),
    }
}

/// The entry at a path from what the client reports for it: the last entry
/// of the array. Fails with `Error::Unknown` when the client handed back no
/// array or an empty one.
pub fn path_info(raw: Option<Vec<RawFileInfo>>) -> (r: Result<DirEntry, Error>)
    ensures
        (raw is None || raw->Some_0@.len() == 0) ==> (r matches Err(e) && e is Unknown),
        raw matches Some(infos) ==> (infos@.len() > 0 ==> (r matches Ok(e) && e.location()
            == infos@.last().name@ && e.kind() == ObjectKind::of_code(infos@.last().kind))),
{
    match convert_file_info_to_vec(raw) {
        Err(e) => Err(e),
        Ok(mut entries) => match entries.pop() {
            None => Err(Error::Unknown),
            Some(entry) => Ok(entry),
        },
    }
}

/// Whether a path exists, from the code that the client's query returned and
/// the text of its error slot right after. Code 0 means yes. Any other code
/// means no when the slot reports success, and a failure otherwise.
pub fn check_exists(code: i32, last_error: &str) -> (r: Result<bool, Error>)
    ensures
        code == 0 ==> r == Ok::<bool, Error>(true),
        code != 0 && last_error@ == crate::hdfs::err::success_text() ==> r == Ok::<bool, Error>(
            false,
        ),
        code != 0 && last_error@ != crate::hdfs::err::success_text() ==> (r matches Err(
            Error::HdfsError(msg),
        ) && msg@ == last_error@),
{
    if code == 0 {
        Ok(true)
    } else {
        match Error::get_last_hdfs_error(last_error) {
            Error::NoError() => Ok(false),
            e => Err(e),
        }
    }
}

/// The number of bytes that a read or a write moved, from what the client
/// returned: a negative number stands for a failure.
pub fn transferred(returned: i32) -> (r: Option<usize>)
    ensures
        returned < 0 ==> r is None,
        returned >= 0 ==> r == Some(returned as usize),
{
    if returned >= 0 {
        Some(returned as usize)
    } else {
        None
    }
}

} // verus!
