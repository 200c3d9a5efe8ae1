//! A filesystem surface that presents one directory with one file of fixed
//! content. It decides what each call answers; mounting it and talking to
//! the kernel is the caller's business. The times it reports come from the
//! system clock.

use vstd::prelude::*;
use crate::text::same;

verus! {

/// Why a filesystem call was refused.
#[derive(Clone, Copy, Debug, PartialEq, Eq, Structural)]
pub enum FsError {
    /// No data is available for the path.
    NoData,
    /// The operation is not permitted.
    NotPermitted,
    /// There is no such device or address.
    NoSuchDevice,
}

#[derive(Clone, Copy, Debug, PartialEq, Eq, Structural)]
pub enum FileKind {
    Directory,
    RegularFile,
}

/// A point in time, or a span of it.
#[derive(Clone, Copy, Debug, PartialEq, Eq, Structural)]
pub struct Timestamp {
    pub sec: i64,
    pub nsec: i32,
}

#[derive(Clone, Copy, Debug, PartialEq, Eq, Structural)]
pub struct FileAttributes {
    pub size: u64,
    pub blocks: u64,
    pub atime: Timestamp,
    pub mtime: Timestamp,
    pub ctime: Timestamp,
    pub crtime: Timestamp,
    pub kind: FileKind,
    pub perm: u16,
    pub nlink: u32,
    pub uid: u32,
    pub gid: u32,
    pub rdev: u32,
    pub flags: u32,
}

/// Attributes, and for how long they may be cached.
#[derive(Clone, Copy, Debug, PartialEq, Eq, Structural)]
pub struct Entry {
    pub ttl: Timestamp,
    pub attr: FileAttributes,
}

/// One name in a directory.
#[derive(Debug, PartialEq, Eq)]
pub struct DirectoryEntry {
    pub name: String,
    pub kind: FileKind,
}

/// The handle under which the one file is open.
pub const FILE_HANDLE: u64 = 42;

/// Length of the one file.
pub const FILE_LEN: u64 = 8;

/// The content of the one file.
pub open spec fn content() -> Seq<u8> {
    seq![98u8, 117u8, 114u8, 114u8, 105u8, 116u8, 111u8, 10u8]
}

/// The path of the one directory.
pub open spec fn is_root(path: Seq<char>) -> bool {
    path == "/"@
}

/// The path of the one file.
pub open spec fn is_file(path: Seq<char>) -> bool {
    path == "/neato"@
}

/// The four times of a file: of its last access, of its last change, of the
/// last change of its attributes, and of its creation.
#[derive(Clone, Copy, Debug, PartialEq, Eq, Structural)]
pub struct Times {
    pub atime: Timestamp,
    pub mtime: Timestamp,
    pub ctime: Timestamp,
    pub crtime: Timestamp,
}

/// Whether the nanoseconds of `t` lie within a second.
pub open spec fn within_a_second(t: Timestamp) -> bool {
    0 <= t.nsec < 1_000_000_000
}

/// The attributes of an entry of this filesystem, owned by the caller and
/// stamped with `times`.
pub open spec fn entry_of(kind: FileKind, size: u64, perm: u16, uid: u32, gid: u32, times: Times) -> Entry {
    Entry {
        ttl: Timestamp { sec: 1, nsec: 0 },
        attr: FileAttributes {
            size,
            blocks: 1,
            atime: times.atime,
            mtime: times.mtime,
            ctime: times.ctime,
            crtime: times.crtime,
            kind,
            perm,
            nlink: 1,
            uid,
            gid,
            rdev: 0,
            flags: 0,
        },
    }
}

/// The times of the attributes in `e`.
pub open spec fn times_of(e: Entry) -> Times {
    Times { atime: e.attr.atime, mtime: e.attr.mtime, ctime: e.attr.ctime, crtime: e.attr.crtime }
}

/// What `getattr` answers when the clock reads `times`.
pub open spec fn attributes(path: Seq<char>, uid: u32, gid: u32, times: Times) -> Result<Entry, FsError> {
    if is_root(path) {
        Ok(entry_of(FileKind::Directory, 1024, 0x140, uid, gid, times))
    } else if is_file(path) {
        Ok(entry_of(FileKind::RegularFile, 8, 0x100, uid, gid, times))
    } else {
        Err(FsError::NoData)
    }
}

/// What `read` answers: for the one file, open under its handle, the part
/// of the content from `offset` on, at most `size` bytes of it; for any
/// other path or handle, and past the end, an error.
pub open spec fn read_result(path: Seq<char>, file_handle: u64, offset: u64, size: u32) -> Result<Seq<u8>, FsError> {
    if is_file(path) && file_handle == FILE_HANDLE && offset < FILE_LEN {
        Ok(content().subrange(offset as int, if offset + size < FILE_LEN { offset + size } else { FILE_LEN as int }))
    } else {
        Err(FsError::NoSuchDevice)
    }
}

/// Checks what is known of a potential directory: that it exists and that
/// it is a directory.
pub fn check_directory(directory: &str, exists: bool, is_dir: bool) -> (r: Result<(), String>)
    ensures
        r is Ok == (exists && is_dir),
        !exists ==> r is Err && r->Err_0@ == directory@ + " does not exist!"@,
        exists && !is_dir ==> r is Err && r->Err_0@ == directory@ + " is not a directory!"@,
{
    if !exists {
        Err(directory.to_owned().concat(" does not exist!"))
    } else if !is_dir {
        Err(directory.to_owned().concat(" is not a directory!"))
    } else {
        Ok(())
    }
}

/// The current time.
///
/// Calls `time::get_time`, which reads the system clock and builds its result
/// with `Timespec::new`; that constructor accepts only nanoseconds that lie
/// within a second. The contract states that range and nothing of the moment.
#[verifier::external_body]
fn clock() -> (t: Timestamp)
    ensures
        within_a_second(t),
{
    let t = time::get_time();
    Timestamp { sec: t.sec, nsec: t.nsec }
}

/// Reads the clock once for each of the four times, in their order.
fn stamp() -> (times: Times)
    ensures
        within_a_second(times.atime),
        within_a_second(times.mtime),
        within_a_second(times.ctime),
        within_a_second(times.crtime),
{
    let atime = clock();
    let mtime = clock();
    let ctime = clock();
    let crtime = clock();
    Times { atime, mtime, ctime, crtime }
}

fn make_entry(kind: FileKind, size: u64, perm: u16, uid: u32, gid: u32, times: Times) -> (e: Entry)
    ensures
        e == entry_of(kind, size, perm, uid, gid, times),
{
    Entry {
        ttl: Timestamp { sec: 1, nsec: 0 },
        attr: FileAttributes {
            size,
            blocks: 1,
            atime: times.atime,
            mtime: times.mtime,
            ctime: times.ctime,
            crtime: times.crtime,
            kind,
            perm,
            nlink: 1,
            uid,
            gid,
            rdev: 0,
            flags: 0,
        },
    }
}

/// The filesystem over a backing directory.
#[derive(Debug, PartialEq, Eq)]
pub struct WatchedFilesystem {
    backing_directory: String,
}

impl WatchedFilesystem {
    /// The backing directory.
    pub closed spec fn backing(&self) -> Seq<char> {
        self.backing_directory@
    }

    pub fn new(backing_directory: &str) -> (fs: WatchedFilesystem)
        ensures
            fs.backing() == backing_directory@,
    {
        WatchedFilesystem { backing_directory: backing_directory.to_owned() }
    }

    pub fn backing_directory(&self) -> (s: &str)
        ensures
            s@ == self.backing(),
    {
        self.backing_directory.as_str()
    }

    /// Called after mount. Always succeeds.
    pub fn init(&self) -> (r: Result<(), FsError>)
        ensures
            r == Ok::<(), FsError>(()),
    {
        Ok(())
    }

    /// The attributes of the directory, of the file, or no data, when the
    /// clock reads `times`.
    pub fn getattr_at(&self, path: &str, uid: u32, gid: u32, times: Times) -> (r: Result<Entry, FsError>)
        ensures
            r == attributes(path@, uid, gid, times),
    {
        if same(path, "/") {
            Ok(make_entry(FileKind::Directory, 1024, 0x140, uid, gid, times))
        } else if same(path, "/neato") {
            Ok(make_entry(FileKind::RegularFile, 8, 0x100, uid, gid, times))
        } else {
            Err(FsError::NoData)
        }
    }

    /// The attributes of the directory, of the file, or no data. Each of
    /// the four times of an entry is a reading of the clock; for a path
    /// that gets no data the clock is not read.
    pub fn getattr(&self, path: &str, uid: u32, gid: u32) -> (r: Result<Entry, FsError>)
        ensures
            r is Ok == (is_root(path@) || is_file(path@)),
            match r {
                Ok(e) => {
                    &&& r == attributes(path@, uid, gid, times_of(e))
                    &&& within_a_second(e.attr.atime)
                    &&& within_a_second(e.attr.mtime)
                    &&& within_a_second(e.attr.ctime)
                    &&& within_a_second(e.attr.crtime)
                },
                Err(x) => x == FsError::NoData,
            },
    {
        if same(path, "/") || same(path, "/neato") {
            self.getattr_at(path, uid, gid, stamp())
        } else {
            Err(FsError::NoData)
        }
    }

    /// Opens the one directory under handle zero, with the flags it was
    /// asked with.
    pub fn opendir(&self, path: &str, flags: u32) -> (r: Result<(u64, u32), FsError>)
        ensures
            r == (if is_root(path@) {
                Ok::<(u64, u32), FsError>((0u64, flags))
            } else {
                Err::<(u64, u32), FsError>(FsError::NotPermitted)
            }),
    {
        if same(path, "/") {
            Ok((0, flags))
        } else {
            Err(FsError::NotPermitted)
        }
    }

    /// Lists the one directory: it holds the one file.
    pub fn readdir(&self, path: &str) -> (r: Result<Vec<DirectoryEntry>, FsError>)
        ensures
            is_root(path@) ==> r is Ok && r->Ok_0@.len() == 1 && r->Ok_0@[0].name@ == "neato"@ && r->Ok_0@[0].kind
                == FileKind::RegularFile,
            !is_root(path@) ==> r == Err::<Vec<DirectoryEntry>, FsError>(FsError::NotPermitted),
    {
        if same(path, "/") {
            let mut entries: Vec<DirectoryEntry> = Vec::new();
            entries.push(DirectoryEntry { name: "neato".to_owned(), kind: FileKind::RegularFile });
            Ok(entries)
        } else {
            Err(FsError::NotPermitted)
        }
    }

    /// Closes the one directory.
    pub fn releasedir(&self, path: &str) -> (r: Result<(), FsError>)
        ensures
            r == (if is_root(path@) {
                Ok::<(), FsError>(())
            } else {
                Err::<(), FsError>(FsError::NotPermitted)
            }),
    {
        if same(path, "/") {
            Ok(())
        } else {
            Err(FsError::NotPermitted)
        }
    }

    /// Opens the one file under its handle, with the flags it was asked
    /// with.
    pub fn open(&self, path: &str, flags: u32) -> (r: Result<(u64, u32), FsError>)
        ensures
            r == (if is_file(path@) {
                Ok::<(u64, u32), FsError>((FILE_HANDLE, flags))
            } else {
                Err::<(u64, u32), FsError>(FsError::NotPermitted)
            }),
    {
        if same(path, "/neato") {
            Ok((FILE_HANDLE, flags))
        } else {
            Err(FsError::NotPermitted)
        }
    }

    /// Reads from the one file. The content of the file is never given for
    /// another path.
    pub fn read(&self, path: &str, file_handle: u64, offset: u64, size: u32) -> (r: Result<Vec<u8>, FsError>)
        ensures
            match r {
                Ok(bytes) => read_result(path@, file_handle, offset, size) == Ok::<Seq<u8>, FsError>(bytes@),
                Err(e) => read_result(path@, file_handle, offset, size) == Err::<Seq<u8>, FsError>(e),
            },
    {
        if same(path, "/neato") && file_handle == FILE_HANDLE && offset < FILE_LEN {
            let data: Vec<u8> = vec![98u8, 117u8, 114u8, 114u8, 105u8, 116u8, 111u8, 10u8];
            assert(data@ =~= content());
            let end: u64 = if offset + (size as u64) < FILE_LEN {
                offset + size as u64
            } else {
                FILE_LEN
            };
            let mut out: Vec<u8> = Vec::new();
            let mut i: u64 = offset;
            while i < end
                invariant
                    offset <= i <= end <= FILE_LEN,
                    data@ == content(),
                    out@ == content().subrange(offset as int, i as int),
                decreases end - i,
            {
                out.push(data[i as usize]);
                assert(content().subrange(offset as int, i + 1) =~= content().subrange(offset as int, i as int).push(
                    content()[i as int],
                ));
                i += 1;
            }
            Ok(out)
        } else {
            Err(FsError::NoSuchDevice)
        }
    }

    /// Nothing can be written.
    pub fn write(&self, path: &str, file_handle: u64, offset: u64, data: &Vec<u8>, flags: u32) -> (r: Result<
        u32,
        FsError,
    >)
        ensures
            r == Err::<u32, FsError>(FsError::NotPermitted),
    {
        Err(FsError::NotPermitted)
    }

    /// Closes a file. Always succeeds.
    pub fn release(&self, path: &str, file_handle: u64, flags: u32, lock_owner: u64, flush: bool) -> (r: Result<
        (),
        FsError,
    >)
        ensures
            r == Ok::<(), FsError>(()),
    {
        Ok(())
    }
}

} // verus!
