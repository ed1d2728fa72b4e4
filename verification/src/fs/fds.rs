//! File descriptors: per-task tables of open files, anonymous pipes and
//! credentials.

use crate::fs::nextfs::FsError;
use std::collections::{BTreeMap, VecDeque};
use vstd::prelude::*;
use vstd::std_specs::cmp::OrdSpec;
use vstd::std_specs::iter::IteratorSpec;

verus! {

broadcast use vstd::std_specs::btree::group_btree_axioms;

/// Maximum number of open files per task.
pub const MAX_FDS_PER_TASK: usize = 64;

/// File descriptor number.
pub type Fd = u32;

/// Standard file descriptors.
pub const STDIN: u32 = 0;

pub const STDOUT: u32 = 1;

pub const STDERR: u32 = 2;

/// Open file flags.
#[derive(Debug, Clone, Copy, PartialEq, Eq, Structural)]
pub struct OpenFlags {
    pub read: bool,
    pub write: bool,
    pub create: bool,
    pub truncate: bool,
    pub append: bool,
}

impl OpenFlags {
    pub open spec fn access(read: bool, write: bool, create: bool) -> OpenFlags {
        OpenFlags { read, write, create, truncate: false, append: false }
    }

    pub fn rdonly() -> (r: OpenFlags)
        ensures
            r == OpenFlags::access(true, false, false),
    {
        OpenFlags { read: true, write: false, create: false, truncate: false, append: false }
    }

    pub fn wronly() -> (r: OpenFlags)
        ensures
            r == OpenFlags::access(false, true, false),
    {
        OpenFlags { read: false, write: true, create: false, truncate: false, append: false }
    }

    pub fn rdwr() -> (r: OpenFlags)
        ensures
            r == OpenFlags::access(true, true, false),
    {
        OpenFlags { read: true, write: true, create: false, truncate: false, append: false }
    }

    pub fn create() -> (r: OpenFlags)
        ensures
            r == OpenFlags::access(false, true, true),
    {
        OpenFlags { read: false, write: true, create: true, truncate: false, append: false }
    }

    pub fn with_truncate(self) -> (r: OpenFlags)
        ensures
            r == (OpenFlags { truncate: true, ..self }),
    {
        OpenFlags { truncate: true, ..self }
    }

    pub fn with_append(self) -> (r: OpenFlags)
        ensures
            r == (OpenFlags { append: true, ..self }),
    {
        OpenFlags { append: true, ..self }
    }
}

/// Seek origin.
#[derive(Debug, Clone, Copy, PartialEq, Eq, Structural)]
pub enum SeekWhence {
    /// Relative to the start of the file.
    Start,
    /// Relative to current position.
    Current,
    /// Relative to end of file.
    End,
}

/// Type of open file.
#[derive(Debug, Clone, Copy, PartialEq, Eq, Structural)]
pub enum FileType {
    /// Regular file, by inode number.
    Regular(u32),
    /// Console output.
    Console,
    /// Keyboard input.
    Keyboard,
    /// One end of an anonymous pipe, by pipe id; `true` for the write end.
    Pipe(u64, bool),
    /// Network socket, by socket id.
    Socket(u32),
}

/// An open file handle.
#[derive(Debug, Clone, Copy, PartialEq, Eq, Structural)]
pub struct OpenFile {
    pub file_type: FileType,
    pub flags: OpenFlags,
    pub pos: u64,
}

/// A handle at position 0 that can be read, written or both.
pub open spec fn handle(file_type: FileType, read: bool, write: bool) -> OpenFile {
    OpenFile { file_type, flags: OpenFlags::access(read, write, false), pos: 0 }
}

impl OpenFile {
    pub fn new(inode: u32, flags: OpenFlags) -> (r: OpenFile)
        ensures
            r == (OpenFile { file_type: FileType::Regular(inode), flags, pos: 0 }),
    {
        OpenFile { file_type: FileType::Regular(inode), flags, pos: 0 }
    }

    pub fn console(writable: bool) -> (r: OpenFile)
        ensures
            r == handle(FileType::Console, !writable, writable),
    {
        OpenFile {
            file_type: FileType::Console,
            flags: if writable {
                OpenFlags::wronly()
            } else {
                OpenFlags::rdonly()
            },
            pos: 0,
        }
    }

    pub fn keyboard() -> (r: OpenFile)
        ensures
            r == handle(FileType::Keyboard, true, false),
    {
        OpenFile { file_type: FileType::Keyboard, flags: OpenFlags::rdonly(), pos: 0 }
    }

    /// One end of a pipe: the read end is read-only, the write end write-only.
    pub fn pipe(id: u64, is_write: bool) -> (r: OpenFile)
        ensures
            r == handle(FileType::Pipe(id, is_write), !is_write, is_write),
    {
        OpenFile {
            file_type: FileType::Pipe(id, is_write),
            flags: if is_write {
                OpenFlags::wronly()
            } else {
                OpenFlags::rdonly()
            },
            pos: 0,
        }
    }
}

/// VFS errors.
#[derive(Debug, Clone, Copy, PartialEq, Eq)]
pub enum VfsError {
    NotFound,
    NotFile,
    NotDirectory,
    AlreadyExists,
    NoSpace,
    BadFileDescriptor,
    InvalidOperation,
    ReadOnlyFile,
    WriteOnlyFile,
    TooManyFiles,
    NotMounted,
    PermissionDenied,
    FsError(FsError),
}

/// The error that a file system error becomes.
pub open spec fn vfs_error(e: FsError) -> VfsError {
    match e {
        FsError::NotFound => VfsError::NotFound,
        FsError::NotDirectory => VfsError::NotDirectory,
        FsError::NotFile => VfsError::NotFile,
        FsError::AlreadyExists => VfsError::AlreadyExists,
        FsError::NoSpace => VfsError::NoSpace,
        FsError::PermissionDenied => VfsError::PermissionDenied,
        other => VfsError::FsError(other),
    }
}

impl From<FsError> for VfsError {
    fn from(e: FsError) -> (r: VfsError) {
        match e {
            FsError::NotFound => VfsError::NotFound,
            FsError::NotDirectory => VfsError::NotDirectory,
            FsError::NotFile => VfsError::NotFile,
            FsError::AlreadyExists => VfsError::AlreadyExists,
            FsError::NoSpace => VfsError::NoSpace,
            FsError::PermissionDenied => VfsError::PermissionDenied,
            other => VfsError::FsError(other),
        }
    }
}

impl vstd::std_specs::convert::FromSpecImpl<FsError> for VfsError {
    open spec fn obeys_from_spec() -> bool {
        true
    }

    open spec fn from_spec(e: FsError) -> VfsError {
        vfs_error(e)
    }
}

/// Capacity of a pipe's buffer.
pub const PIPE_CAPACITY: usize = 4096;

/// One anonymous pipe.
pub struct Pipe {
    buf: VecDeque<u8>,
    read_ends: u32,
    write_ends: u32,
}

/// The contents of a pipe and the number of its open ends.
#[verifier::ext_equal]
pub struct PipeView {
    pub buf: Seq<u8>,
    pub read_ends: u32,
    pub write_ends: u32,
}

impl Pipe {
    pub closed spec fn view(&self) -> PipeView {
        PipeView { buf: self.buf@, read_ends: self.read_ends, write_ends: self.write_ends }
    }
}

/// Per-task file descriptor table.
pub struct FdTable {
    files: BTreeMap<u32, OpenFile>,
    next_fd: u32,
}

/// The open files of a task, and where the search for a free descriptor begins.
#[verifier::ext_equal]
pub struct FdTableView {
    pub files: Map<u32, OpenFile>,
    pub next_fd: u32,
}

/// The descriptor that is tried after `fd`.
pub open spec fn fd_after(fd: u32) -> u32 {
    if fd >= 63 {
        3
    } else {
        (fd + 1) as u32
    }
}

/// The first of `tries` descriptors from `fd` on that is not in use.
pub open spec fn free_fd(files: Map<u32, OpenFile>, fd: u32, tries: nat) -> Option<u32>
    decreases tries,
{
    if tries == 0 {
        None
    } else if !files.contains_key(fd) {
        Some(fd)
    } else {
        free_fd(files, fd_after(fd), (tries - 1) as nat)
    }
}

/// Opening a file in a table. The search goes round once through all
/// descriptors below the limit.
pub open spec fn alloc_fd_s(t: FdTableView, file: OpenFile) -> (Result<u32, VfsError>, FdTableView) {
    if t.files.len() >= MAX_FDS_PER_TASK {
        (Err(VfsError::TooManyFiles), t)
    } else {
        match free_fd(t.files, t.next_fd, 62) {
            None => (Err(VfsError::TooManyFiles), t),
            Some(fd) => (
                Ok(fd),
                FdTableView {
                    files: t.files.insert(fd, file),
                    next_fd: if fd == u32::MAX {
                        0
                    } else {
                        (fd + 1) as u32
                    },
                },
            ),
        }
    }
}

/// The table that every task starts with: keyboard and console.
pub open spec fn standard_table() -> FdTableView {
    FdTableView {
        files: Map::empty().insert(STDIN, handle(FileType::Keyboard, true, false)).insert(
            STDOUT,
            handle(FileType::Console, false, true),
        ).insert(STDERR, handle(FileType::Console, false, true)),
        next_fd: 3,
    }
}

impl FdTable {
    pub closed spec fn view(&self) -> FdTableView {
        FdTableView { files: self.files@, next_fd: self.next_fd }
    }

    /// An empty table.
    pub fn new() -> (r: FdTable)
        ensures
            r@ == (FdTableView { files: Map::empty(), next_fd: 3 }),
    {
        FdTable { files: BTreeMap::new(), next_fd: 3 }
    }

    /// A table with the three standard streams.
    pub fn standard() -> (r: FdTable)
        ensures
            r@ == standard_table(),
    {
        let mut t = FdTable::new();
        t.files.insert(STDIN, OpenFile::keyboard());
        t.files.insert(STDOUT, OpenFile::console(true));
        t.files.insert(STDERR, OpenFile::console(true));
        t
    }

    /// Opens a file under the next free descriptor.
    pub fn alloc_fd(&mut self, file: OpenFile) -> (r: Result<u32, VfsError>)
        ensures
            (r, final(self)@) == alloc_fd_s(old(self)@, file),
    {
        if self.files.len() >= MAX_FDS_PER_TASK {
            return Err(VfsError::TooManyFiles);
        }
        let mut fd: u32 = self.next_fd;
        let mut tries: u32 = 62;
        while tries > 0 && self.files.contains_key(&fd)
            invariant
                *self == *old(self),
                free_fd(self.files@, self.next_fd, 62) == free_fd(
                    self.files@,
                    fd,
                    tries as nat,
                ),
            decreases tries,
        {
            fd = if fd >= 63 {
                3
            } else {
                fd + 1
            };
            tries -= 1;
        }
        if tries == 0 {
            return Err(VfsError::TooManyFiles);
        }
        self.files.insert(fd, file);
        self.next_fd = fd.wrapping_add(1);
        Ok(fd)
    }

    /// The open file behind a descriptor.
    pub fn get(&self, fd: u32) -> (r: Result<OpenFile, VfsError>)
        ensures
            r == (if self@.files.contains_key(fd) {
                Ok(self@.files[fd])
            } else {
                Err(VfsError::BadFileDescriptor)
            }),
    {
        match self.files.get(&fd) {
            Some(f) => Ok(*f),
            None => Err(VfsError::BadFileDescriptor),
        }
    }

    /// Sets the position of an open file.
    pub fn set_pos(&mut self, fd: u32, pos: u64) -> (r: Result<(), VfsError>)
        ensures
            old(self)@.files.contains_key(fd) ==> r is Ok && final(self)@ == (FdTableView {
                files: old(self)@.files.insert(fd, OpenFile { pos, ..old(self)@.files[fd] }),
                ..old(self)@
            }),
            !old(self)@.files.contains_key(fd) ==> r == Err::<(), VfsError>(
                VfsError::BadFileDescriptor,
            ) && final(self)@ == old(self)@,
    {
        match self.get(fd) {
            Ok(f) => {
                self.files.insert(fd, OpenFile { pos, ..f });
                Ok(())
            },
            Err(e) => Err(e),
        }
    }

    /// Forgets an open file.
    pub fn close(&mut self, fd: u32) -> (r: Result<OpenFile, VfsError>)
        ensures
            old(self)@.files.contains_key(fd) ==> r == Ok::<OpenFile, VfsError>(
                old(self)@.files[fd],
            ) && final(self)@ == (FdTableView {
                files: old(self)@.files.remove(fd),
                ..old(self)@
            }),
            !old(self)@.files.contains_key(fd) ==> r == Err::<OpenFile, VfsError>(
                VfsError::BadFileDescriptor,
            ) && final(self)@ == old(self)@,
    {
        let r = match self.files.remove(&fd) {
            Some(f) => Ok(f),
            None => Err(VfsError::BadFileDescriptor),
        };
        assert(r is Err ==> self.files@ =~= old(self).files@);
        r
    }

    /// Forgets all open files.
    pub fn close_all(&mut self)
        ensures
            final(self)@ == (FdTableView { files: Map::empty(), ..old(self)@ }),
    {
        self.files.clear();
    }
}

/// A task's security credentials.
#[derive(Debug, Clone, Copy, PartialEq, Eq, Structural)]
pub struct Credentials {
    pub uid: u16,
    pub gid: u16,
}

impl Credentials {
    /// The superuser, who bypasses permission checks.
    pub fn root() -> (r: Credentials)
        ensures
            r == (Credentials { uid: 0, gid: 0 }),
    {
        Credentials { uid: 0, gid: 0 }
    }
}

/// A free descriptor that was handed out was not in use, and only it changes.
pub proof fn law_alloc_fd(t: FdTableView, file: OpenFile)
    ensures
        alloc_fd_s(t, file).0 matches Ok(fd) ==> !t.files.contains_key(fd) && alloc_fd_s(
            t,
            file,
        ).1.files == t.files.insert(fd, file),
        alloc_fd_s(t, file).0 is Err ==> alloc_fd_s(t, file).1 == t,
{
    lemma_free_fd(t.files, t.next_fd, 62);
}

proof fn lemma_free_fd(files: Map<u32, OpenFile>, fd: u32, tries: nat)
    ensures
        free_fd(files, fd, tries) matches Some(x) ==> !files.contains_key(x),
    decreases tries,
{
    if tries > 0 && files.contains_key(fd) {
        lemma_free_fd(files, fd_after(fd), (tries - 1) as nat);
    }
}

/// The pipe after up to `len` of its oldest bytes were taken.
pub open spec fn pipe_taken(p: PipeView, len: int) -> (Seq<u8>, PipeView) {
    let n = if len < p.buf.len() {
        len
    } else {
        p.buf.len() as int
    };
    (p.buf.subrange(0, n), PipeView { buf: p.buf.skip(n), ..p })
}

/// How many of `len` bytes still fit into a pipe.
pub open spec fn pipe_room(p: PipeView, len: int) -> int {
    if len < PIPE_CAPACITY - p.buf.len() {
        len
    } else {
        PIPE_CAPACITY - p.buf.len()
    }
}

/// A pipe with one more open end.
pub open spec fn end_opened(p: PipeView, is_write: bool) -> PipeView {
    if is_write {
        PipeView { write_ends: ends_plus(p.write_ends, 1), ..p }
    } else {
        PipeView { read_ends: ends_plus(p.read_ends, 1), ..p }
    }
}

/// A pipe with one open end less.
pub open spec fn end_closed(p: PipeView, is_write: bool) -> PipeView {
    if is_write {
        PipeView { write_ends: ends_minus(p.write_ends, 1), ..p }
    } else {
        PipeView { read_ends: ends_minus(p.read_ends, 1), ..p }
    }
}

/// A count of open ends after `k` more; it stops at the largest count.
pub open spec fn ends_plus(n: u32, k: nat) -> u32 {
    if n + k > u32::MAX {
        u32::MAX
    } else {
        (n + k) as u32
    }
}

/// A count of open ends after `k` fewer; it stops at zero.
pub open spec fn ends_minus(n: u32, k: nat) -> u32 {
    if n < k {
        0
    } else {
        (n - k) as u32
    }
}

impl Pipe {
    /// An empty pipe with both ends open once.
    pub fn new() -> (r: Pipe)
        ensures
            r@ == (PipeView { buf: Seq::empty(), read_ends: 1, write_ends: 1 }),
    {
        Pipe { buf: VecDeque::new(), read_ends: 1, write_ends: 1 }
    }

    pub fn is_empty(&self) -> (r: bool)
        ensures
            r == (self@.buf.len() == 0),
    {
        self.buf.len() == 0
    }

    pub fn has_readers(&self) -> (r: bool)
        ensures
            r == (self@.read_ends != 0),
    {
        self.read_ends != 0
    }

    pub fn has_writers(&self) -> (r: bool)
        ensures
            r == (self@.write_ends != 0),
    {
        self.write_ends != 0
    }

    /// Takes bytes out of the pipe, as many as are there and fit into `buf`.
    pub fn read(&mut self, buf: &mut [u8]) -> (n: usize)
        ensures
            ({
                let (data, p) = pipe_taken(old(self)@, old(buf)@.len() as int);
                &&& n == data.len()
                &&& final(self)@ == p
                &&& final(buf)@ == crate::bytes::patch(old(buf)@, 0, data)
            }),
    {
        let len: usize = buf.len();
        let ghost p0 = self@;
        let ghost b0 = buf@;
        let mut n: usize = 0;
        assert(p0.buf.skip(0) =~= p0.buf);
        assert(b0 =~= crate::bytes::patch(b0, 0, p0.buf.subrange(0, 0)));
        while n < len && self.buf.len() > 0
            invariant
                n <= len == b0.len() == buf@.len(),
                n <= p0.buf.len(),
                self@ == (PipeView { buf: p0.buf.skip(n as int), ..p0 }),
                buf@ == crate::bytes::patch(b0, 0, p0.buf.subrange(0, n as int)),
            decreases len - n,
        {
            match self.buf.pop_front() {
                Some(b) => {
                    buf[n] = b;
                    n += 1;
                    assert(self.buf@ =~= p0.buf.skip(n as int));
                    assert(buf@ =~= crate::bytes::patch(b0, 0, p0.buf.subrange(0, n as int)));
                },
                None => {
                    return n;
                },
            }
        }
        n
    }

    /// Puts bytes `[from, ..)` of `buf` into the pipe, as many as fit.
    pub fn write(&mut self, buf: &[u8], from: usize) -> (n: usize)
        requires
            from <= buf@.len(),
            old(self)@.buf.len() <= PIPE_CAPACITY,
        ensures
            n == pipe_room(old(self)@, buf@.len() - from),
            final(self)@ == (PipeView {
                buf: old(self)@.buf + buf@.subrange(from as int, from + n),
                ..old(self)@
            }),
            final(self)@.buf.len() <= PIPE_CAPACITY,
    {
        let space: usize = PIPE_CAPACITY - self.buf.len();
        let len: usize = buf.len();
        let left: usize = len - from;
        let take: usize = if left < space {
            left
        } else {
            space
        };
        let ghost p0 = self@;
        let mut k: usize = 0;
        assert(p0.buf + buf@.subrange(from as int, from as int) =~= p0.buf);
        while k < take
            invariant
                k <= take,
                from + take <= buf@.len() <= usize::MAX,
                self@ == (PipeView { buf: p0.buf + buf@.subrange(from as int, from + k), ..p0 }),
            decreases take - k,
        {
            self.buf.push_back(buf[from + k]);
            k += 1;
            assert(self.buf@ =~= p0.buf + buf@.subrange(from as int, from + k));
        }
        take
    }

    /// One more end of the pipe is open.
    pub fn dup_end(&mut self, is_write: bool)
        ensures
            final(self)@ == end_opened(old(self)@, is_write),
    {
        if is_write {
            if self.write_ends < u32::MAX {
                self.write_ends = self.write_ends + 1;
            }
        } else {
            if self.read_ends < u32::MAX {
                self.read_ends = self.read_ends + 1;
            }
        }
    }

    /// One end of the pipe less is open.
    pub fn close_end(&mut self, is_write: bool)
        ensures
            final(self)@ == end_closed(old(self)@, is_write),
    {
        if is_write {
            if self.write_ends > 0 {
                self.write_ends = self.write_ends - 1;
            }
        } else {
            if self.read_ends > 0 {
                self.read_ends = self.read_ends - 1;
            }
        }
    }
}

/// The descriptors of a table in increasing order.
pub open spec fn in_order(fds: Seq<u32>, files: Map<u32, OpenFile>) -> bool {
    &&& forall|i: int, j: int| 0 <= i < j < fds.len() ==> fds[i] < fds[j]
    &&& fds.to_set() == files.dom()
}

impl FdTable {
    /// A copy of the table.
    pub fn duplicate(&self) -> (r: FdTable)
        ensures
            r@ == self@,
    {
        FdTable { files: self.files.clone(), next_fd: self.next_fd }
    }

    /// All descriptors of the table, in increasing order.
    pub fn fds(&self) -> (r: Vec<u32>)
        ensures
            in_order(r@, self@.files),
    {
        let mut r: Vec<u32> = Vec::new();
        assert(vstd::laws_cmp::obeys_cmp::<u32>());
        let iter = self.files.iter();
        let ghost all = iter.remaining();
        proof {
            let ks = all.map_values(|kv: (&u32, &OpenFile)| *kv.0);
            assert(vstd::std_specs::btree::increasing_seq(ks));
            assert forall|i: int, j: int| 0 <= i < j < all.len() implies *all[i].0 < *all[j].0 by {
                assert(ks[i] == *all[i].0 && ks[j] == *all[j].0);
                assert(ks[i].cmp_spec(&ks[j]) is Less);
            }
        }
        for kv in it: iter
            invariant
                it.seq() == all,
                r@.len() == it.index(),
                forall|j: int| 0 <= j < r@.len() ==> r@[j] == *all[j].0,
        {
            r.push(*kv.0);
        }
        proof {
            let files = self.files@;
            assert forall|k: u32| files.contains_key(k) implies r@.contains(k) by {
                assert(all.contains((&k, &files[k])));
                let j = choose|j: int| 0 <= j < all.len() && all[j] == (&k, &files[k]);
                assert(r@[j] == k);
            }
            assert forall|k: u32| r@.contains(k) implies files.contains_key(k) by {
                let j = choose|j: int| 0 <= j < r@.len() && r@[j] == k;
                assert(files.contains_key(*all[j].0));
            }
            assert(r@.to_set() =~= files.dom());
        }
        r
    }
}

} // verus!
