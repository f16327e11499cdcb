//! The options a file is opened with, and the open flags they stand for.

use crate::hdfs::err::Error;
use vstd::prelude::*;

verus! {

/// How a file is to be opened.
#[derive(Clone, Copy, Debug)]
pub struct OpenOptions {
    read: bool,
    write: bool,
    append: bool,
    create: bool,
}

/// The four options as plain values.
pub struct Access {
    pub read: bool,
    pub write: bool,
    pub append: bool,
    pub create: bool,
}

/// The values that the platform gives the four open flags.
pub struct FlagBits {
    pub read_only: i32,
    pub write_only: i32,
    pub append: i32,
    pub create: i32,
}

/// `bits` if `on`, else no bit at all.
pub open spec fn pick(on: bool, bits: i32) -> i32 {
    if on {
        bits
    } else {
        0
    }
}

/// The open flags for `access`: the flags of the options that are set, or-ed
/// together.
pub open spec fn flags_of(access: Access, bits: FlagBits) -> i32 {
    pick(access.create, bits.create) | pick(access.write, bits.write_only) | pick(
        access.append,
        bits.append,
    ) | pick(access.read, bits.read_only)
}

/// Whether the flags for writing, appending and creating can be told apart
/// in what they are or-ed into: each has a bit, and no two share one.
pub open spec fn tells_apart(bits: FlagBits) -> bool {
    &&& bits.write_only != 0
    &&& bits.append != 0
    &&& bits.create != 0
    &&& bits.write_only & bits.append == 0
    &&& bits.write_only & bits.create == 0
    &&& bits.append & bits.create == 0
}

/// `nix::fcntl::OFlag::bits` of `O_RDONLY`, `O_WRONLY`, `O_APPEND` and
/// `O_CREAT`. The values differ from platform to platform. On each of them
/// the flags for writing, appending and creating are not zero, and no two of
/// them share a bit; nothing is claimed of the flag for reading, which most
/// platforms give no bit at all.
#[verifier::external_body]
fn platform_flag_bits() -> (bits: FlagBits)
    ensures
        tells_apart(bits),
{
    FlagBits {
        read_only: nix::fcntl::OFlag::O_RDONLY.bits(),
        write_only: nix::fcntl::OFlag::O_WRONLY.bits(),
        append: nix::fcntl::OFlag::O_APPEND.bits(),
        create: nix::fcntl::OFlag::O_CREAT.bits(),
    }
}

impl Default for OpenOptions {
    fn default() -> (o: OpenOptions)
        ensures
            o@ == (Access { read: true, write: false, append: false, create: false }),
    {
        OpenOptions { read: true, write: false, append: false, create: false }
    }
}

impl View for OpenOptions {
    type V = Access;

    closed spec fn view(&self) -> Access {
        Access { read: self.read, write: self.write, append: self.append, create: self.create }
    }
}

impl OpenOptions {
    /// Options that ask for read access and nothing else.
    pub fn new() -> (o: OpenOptions)
        ensures
            o@ == (Access { read: true, write: false, append: false, create: false }),
    {
        OpenOptions { read: true, write: false, append: false, create: false }
    }

    /// Sets the option for read access.
    pub fn read(&mut self, read: bool) -> (r: &mut OpenOptions)
        ensures
            r@ == (Access { read, ..old(self)@ }),
            *final(self) == *final(r),
    {
        self.read = read;
        self
    }

    /// Sets the option for write access.
    pub fn write(&mut self, write: bool) -> (r: &mut OpenOptions)
        ensures
            r@ == (Access { write, ..old(self)@ }),
            *final(self) == *final(r),
    {
        self.write = write;
        self
    }

    /// Sets the option for appending. Appending is writing: setting it also
    /// sets the option for write access.
    pub fn append(&mut self, append: bool) -> (r: &mut OpenOptions)
        ensures
            r@ == (Access { append, write: append || old(self)@.write, ..old(self)@ }),
            *final(self) == *final(r),
    {
        self.append = append;
        if append {
            self.write = true;
        }
        self
    }

    /// Sets the option for creating the file if there is none. Creating is
    /// writing: setting it also sets the option for write access.
    pub fn create(&mut self, create: bool) -> (r: &mut OpenOptions)
        ensures
            r@ == (Access { create, write: create || old(self)@.write, ..old(self)@ }),
            *final(self) == *final(r),
    {
        self.create = create;
        if create {
            self.write = true;
        }
        self
    }

    /// The error for a file that the client did not open, where the options
    /// say which: without the option to create it, the file is not there.
    /// With that option the options do not tell, and the answer is `None`.
    pub fn open_failure(&self, path: &str) -> (r: Option<Error>)
        ensures
            !self@.create ==> (r matches Some(Error::FileNotFound(p)) && p@ == path@),
            self@.create ==> r is None,
    {
        if self.create {
            None
        } else {
            Some(Error::FileNotFound(path.to_owned()))
        }
    }

    /// The open flags for these options where the platform's flags have the
    /// values `bits`.
    pub fn flags_with(&self, bits: &FlagBits) -> (r: i32)
        ensures
            r == flags_of(self@, *bits),
    {
        let c: i32 = if self.create { bits.create } else { 0 };
        let w: i32 = if self.write { bits.write_only } else { 0 };
        let a: i32 = if self.append { bits.append } else { 0 };
        let r: i32 = if self.read { bits.read_only } else { 0 };
        c | w | a | r
    }

    /// The open flags for these options on this platform: the flags of the
    /// options that are set, or-ed together, for flag values that tell
    /// writing, appending and creating apart.
    pub fn flags(&self) -> (r: i32)
        ensures
            exists|bits: FlagBits| tells_apart(bits) && r == #[trigger] flags_of(self@, bits),
    {
        let bits = platform_flag_bits();
        self.flags_with(&bits)
    }
}

} // verus!
