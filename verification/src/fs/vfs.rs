//! The file-descriptor layer: system-call level file operations on the mounted
//! file system, the console, pipes and sockets.
//!
//! Operations that would block do not: they say what to wait for, and the
//! caller repeats them once that has happened.

use crate::bytes::patch;
use crate::driver::block::{only_device_changed, BlockDevice, BlockRegistry};
use crate::driver::console::{asked, read_char, read_char_blocking, ConsoleInput, ConsoleView};
use crate::fs::directory::{
    create_dir_blind_s, create_dir_s, create_file_blind_s, create_file_s, dir_list_s, dir_lookup_s,
    listing, rmdir_s, unlink_s,
};
use crate::fs::fds::{
    alloc_fd_s, handle, in_order, standard_table, vfs_error, Credentials, FdTable, FdTableView,
    FileType, OpenFile, OpenFlags, Pipe, PipeView, SeekWhence, VfsError, PIPE_CAPACITY,
};
use crate::fs::metadata::{
    check_permission_s, chmod_s, chown_s, stat_s, FileStat,
};
use crate::fs::nextfs::{
    device_failed, fs_ok, fs_view, got, read_inode_data_s, read_inode_s, truncate_s,
    write_inode_data_s, write_inode_s, FsError, FsView, NextFS,
};
use crate::fs::ondisk::{MAY_WRITE, ROOT_INODE};
use crate::fs::path::{components, lemma_word_len, name_of, parent_of, split_path};
use crate::fs::volume::mount_s;
use std::collections::BTreeMap;
use vstd::prelude::*;
use vstd::string::StrSliceExecFns;
use vstd::utf8::encode_utf8;

pub mod net;
pub mod nx;
pub mod selftest;

verus! {

broadcast use vstd::std_specs::btree::group_btree_axioms;

/// Everything the file layer keeps: the mounted file system with the devices it
/// may be on, the descriptor tables and credentials of all tasks, and the pipes.
pub struct FileSystem<D> {
    mounted: Option<NextFS>,
    devs: BlockRegistry<D>,
    tables: BTreeMap<u32, FdTable>,
    creds: BTreeMap<u32, Credentials>,
    pipes: BTreeMap<u64, Pipe>,
    next_pipe: u64,
}

/// The state of the file layer.
#[verifier::ext_equal]
pub struct FilesView {
    pub fs: Option<FsView>,
    pub tables: Map<u32, FdTableView>,
    pub creds: Map<u32, Credentials>,
    pub pipes: Map<u64, PipeView>,
    pub next_pipe: u64,
}

impl<D: BlockDevice> FileSystem<D> {
    /// The mounted file system fits its device, every pipe has an open end and
    /// no pipe is overfull.
    pub closed spec fn wf(&self) -> bool {
        &&& self.mounted matches Some(fs) ==> fs_ok(fs, self.devs@)
        &&& pipes_ok(self@.pipes)
    }

    /// The device of the mounted file system reports no errors.
    pub open spec fn reliable(&self) -> bool {
        self.mounted_on() matches Some(i) ==> self.devices()[i as int].reliable()
    }

    /// The device that the mounted file system is on.
    pub closed spec fn mounted_on(&self) -> Option<usize> {
        match self.mounted {
            Some(fs) => Some(fs.dev_idx),
            None => None,
        }
    }

    /// The registered devices.
    pub closed spec fn devices(&self) -> Seq<D> {
        self.devs@
    }

    pub closed spec fn view(&self) -> FilesView {
        FilesView {
            fs: match self.mounted {
                Some(fs) => Some(fs_view(fs, self.devs@)),
                None => None,
            },
            tables: self.tables@.map_values(|t: FdTable| t@),
            creds: self.creds@,
            pipes: self.pipes@.map_values(|p: Pipe| p@),
            next_pipe: self.next_pipe,
        }
    }

    /// A file layer over the given devices, with nothing mounted or open.
    pub fn new(devs: BlockRegistry<D>) -> (r: FileSystem<D>)
        ensures
            r.wf(),
            r.devices() == devs@,
            r.mounted_on() is None,
            r@ == (FilesView {
                fs: None,
                tables: Map::empty(),
                creds: Map::empty(),
                pipes: Map::empty(),
                next_pipe: 1,
            }),
    {
        let r = FileSystem {
            mounted: None,
            devs,
            tables: BTreeMap::new(),
            creds: BTreeMap::new(),
            pipes: BTreeMap::new(),
            next_pipe: 1,
        };
        assert(r@.tables =~= Map::empty());
        assert(r@.pipes =~= Map::empty());
        r
    }
}

/// Every pipe has an open end, and holds no more than fits.
pub open spec fn pipes_ok(pipes: Map<u64, PipeView>) -> bool {
    forall|id: u64| #[trigger]
        pipes.contains_key(id) ==> pipes[id].buf.len() <= PIPE_CAPACITY && (pipes[id].read_ends
            > 0 || pipes[id].write_ends > 0)
}

/// The credentials of a task; a task without any is the superuser.
pub open spec fn creds_of(creds: Map<u32, Credentials>, task: u32) -> Credentials {
    if creds.contains_key(task) {
        creds[task]
    } else {
        Credentials { uid: 0, gid: 0 }
    }
}

/// Returns the credentials for a task (the superuser's if unset).
pub fn credentials<D: BlockDevice>(files: &FileSystem<D>, task_id: u32) -> (r: Credentials)
    ensures
        r == creds_of(files@.creds, task_id),
{
    match files.creds.get(&task_id) {
        Some(c) => *c,
        None => Credentials::root(),
    }
}

/// Sets the credentials for a task.
pub fn set_credentials<D: BlockDevice>(
    files: &mut FileSystem<D>,
    task_id: u32,
    uid: u16,
    gid: u16,
)
    requires
        old(files).wf(),
    ensures
        frame(*old(files), *final(files)),
        final(files).wf(),
        final(files).devices() == old(files).devices(),
        final(files)@ == (FilesView {
            creds: old(files)@.creds.insert(task_id, Credentials { uid, gid }),
            ..old(files)@
        }),
{
    files.creds.insert(task_id, Credentials { uid, gid });
}

/// Gives a task a fresh descriptor table with the standard streams.
pub fn init_task_fds<D: BlockDevice>(files: &mut FileSystem<D>, task_id: u32)
    requires
        old(files).wf(),
    ensures
        frame(*old(files), *final(files)),
        final(files).wf(),
        final(files).devices() == old(files).devices(),
        final(files)@ == (FilesView {
            tables: old(files)@.tables.insert(task_id, standard_table()),
            ..old(files)@
        }),
{
    files.tables.insert(task_id, FdTable::standard());
    assert(files@.tables =~= old(files)@.tables.insert(task_id, standard_table()));
}

/// Mounts a NextFS from the given block device.
pub fn mount<D: BlockDevice>(files: &mut FileSystem<D>, dev_idx: usize) -> (r: Result<(), FsError>)
    requires
        old(files).wf(),
        dev_idx < old(files).devices().len() ==> crate::driver::block::device_ok(
            &old(files).devices()[dev_idx as int],
        ) && old(files).devices()[dev_idx as int].unit() == 512,
    ensures
        final(files).wf(),
        final(files).devices() == old(files).devices(),
        final(files).mounted_on() == (if r is Ok {
            Some(dev_idx)
        } else {
            old(files).mounted_on()
        }),
        dev_idx >= old(files).devices().len() ==> r == Err::<(), FsError>(
            FsError::BlockError(crate::driver::block::BlockError::OutOfRange),
        ) && final(files)@ == old(files)@,
        dev_idx < old(files).devices().len() ==> {
            let d = old(files).devices()[dev_idx as int];
            match r {
                Ok(_) => mount_s(d.blocks()) matches Ok(v) && final(files)@ == (FilesView {
                    fs: Some(v),
                    ..old(files)@
                }),
                Err(e) => final(files)@ == old(files)@ && ((device_failed(e) && !d.reliable())
                    || mount_s(d.blocks()) == Err::<FsView, FsError>(e)),
            }
        },
{
    match NextFS::mount(&files.devs, dev_idx) {
        Ok(fs) => {
            files.mounted = Some(fs);
            Ok(())
        },
        Err(e) => Err(e),
    }
}

/// Unmounts the current file system.
pub fn unmount<D: BlockDevice>(files: &mut FileSystem<D>)
    requires
        old(files).wf(),
    ensures
        final(files).wf(),
        final(files).devices() == old(files).devices(),
        final(files).mounted_on() is None,
        final(files)@ == (FilesView { fs: None, ..old(files)@ }),
{
    files.mounted = None;
}

/// Whether a file system is mounted.
pub fn is_mounted<D: BlockDevice>(files: &FileSystem<D>) -> (r: bool)
    ensures
        r == (files@.fs is Some),
{
    files.mounted.is_some()
}

/// A path walked from inode `cur` on, component by component.
pub open spec fn walk_s(v: FsView, cur: u32, parts: Seq<Seq<char>>) -> Result<u32, FsError>
    decreases parts.len(),
{
    if parts.len() == 0 {
        Ok(cur)
    } else {
        match dir_lookup_s(v, cur, parts[0]) {
            Ok(n) => walk_s(v, n, parts.drop_first()),
            Err(e) => Err(e),
        }
    }
}

/// The inode that a path leads to.
pub open spec fn resolve_s(fs: Option<FsView>, path: Seq<char>) -> Result<u32, VfsError> {
    if path.len() == 0 {
        Err(VfsError::NotFound)
    } else {
        match fs {
            None => Err(VfsError::NotMounted),
            Some(v) => lift(walk_s(v, ROOT_INODE, components(path))),
        }
    }
}

/// A result of the file system as a result of this layer.
pub open spec fn lift<T>(r: Result<T, FsError>) -> Result<T, VfsError> {
    match r {
        Ok(x) => Ok(x),
        Err(e) => Err(vfs_error(e)),
    }
}

/// The error is a hardware error that the device reported.
pub open spec fn vfs_device_failed(e: VfsError) -> bool {
    e matches VfsError::FsError(f) && device_failed(f)
}

/// A query answered as `want` says, unless the device failed.
pub open spec fn answered<T>(reliable: bool, r: Result<T, VfsError>, want: Result<T, VfsError>) -> bool {
    ||| r == want
    ||| r matches Err(e) && vfs_device_failed(e) && !reliable
}

/// A change ended as `want` says, unless the device failed; then at most the file
/// system is not as it was.
pub open spec fn done<T>(
    reliable: bool,
    r: Result<T, VfsError>,
    post: FilesView,
    f0: FilesView,
    want: (Result<T, VfsError>, FilesView),
) -> bool {
    ||| r == want.0 && post == want.1
    ||| {
        &&& !reliable
        &&& r matches Err(e) && vfs_device_failed(e)
        &&& post == (FilesView { fs: post.fs, ..f0 })
    }
}

/// As [`done`], for what makes a file or directory and then gives it to its owner. Two
/// failures of the device go unnoticed: that of giving it to its owner, after which the
/// file system may hold anything; and that of looking up whether the name is taken,
/// where it is, after which the change ends as `blind` says.
pub open spec fn made<T>(
    reliable: bool,
    r: Result<T, VfsError>,
    post: FilesView,
    f0: FilesView,
    want: (Result<T, VfsError>, FilesView),
    blind: (Result<T, VfsError>, FilesView),
) -> bool {
    ||| done(reliable, r, post, f0, want)
    ||| !reliable && r is Ok && r == want.0 && post == (FilesView { fs: post.fs, ..f0 })
    ||| !reliable && want.0 == Err::<T, VfsError>(VfsError::AlreadyExists) && {
        ||| r == blind.0 && post == blind.1
        ||| r is Ok && r == blind.0 && post == (FilesView { fs: post.fs, ..f0 })
    }
}

/// Other devices than the mounted one stay as they are, and the file system
/// stays on its device.
pub closed spec fn frame<D: BlockDevice>(f0: FileSystem<D>, f1: FileSystem<D>) -> bool {
    &&& f1.wf()
    &&& f1.reliable() == f0.reliable()
    &&& match (f0.mounted, f1.mounted) {
        (Some(a), Some(b)) => a.dev_idx == b.dev_idx && only_device_changed(
            f0.devs@,
            f1.devs@,
            a.dev_idx as int,
        ),
        (None, None) => f1.devs@ == f0.devs@,
        _ => false,
    }
}

/// Operations keep the file layer in order, and its device as reliable as it
/// was.
pub proof fn lemma_frame<D: BlockDevice>(f0: FileSystem<D>, f1: FileSystem<D>)
    requires
        frame(f0, f1),
    ensures
        f1.wf(),
        f1.reliable() == f0.reliable(),
{
}

/// Operations change at most the device that the file system is on.
pub proof fn lemma_frame_devices<D: BlockDevice>(f0: FileSystem<D>, f1: FileSystem<D>)
    requires
        frame(f0, f1),
        forall|i: int|
            0 <= i < f0.devices().len() ==> crate::driver::block::device_ok(
                &#[trigger] f0.devices()[i],
            ),
    ensures
        f1.mounted_on() == f0.mounted_on(),
        match f0.mounted_on() {
            Some(i) => only_device_changed(f0.devices(), f1.devices(), i as int),
            None => f1.devices() == f0.devices(),
        },
        forall|i: int|
            0 <= i < f1.devices().len() ==> crate::driver::block::device_ok(
                &#[trigger] f1.devices()[i],
            ),
{
}

/// Two operations in a row change no more than each may.
pub proof fn lemma_frame_trans<D: BlockDevice>(
    f0: FileSystem<D>,
    f1: FileSystem<D>,
    f2: FileSystem<D>,
)
    requires
        frame(f0, f1),
        frame(f1, f2),
    ensures
        frame(f0, f2),
{
}

/// An operation that does nothing keeps everything.
pub proof fn lemma_frame_refl<D: BlockDevice>(f: FileSystem<D>)
    requires
        f.wf(),
    ensures
        frame(f, f),
{
}

/// Walks a path from the root directory.
pub(crate) fn walk_path<D: BlockDevice>(fs: &NextFS, devs: &BlockRegistry<D>, path: &str) -> (r:
    Result<u32, FsError>)
    requires
        fs_ok(*fs, devs@),
    ensures
        got(
            devs@[fs.dev_idx as int].reliable(),
            r,
            walk_s(fs_view(*fs, devs@), ROOT_INODE, components(path@)),
        ),
{
    let n: usize = path.unicode_len();
    let ghost v = fs_view(*fs, devs@);
    let mut cur: u32 = ROOT_INODE;
    let mut i: usize = 0;
    assert(path@.skip(0) =~= path@);
    while i < n
        invariant
            fs_ok(*fs, devs@),
            v == fs_view(*fs, devs@),
            i <= n == path@.len(),
            walk_s(v, ROOT_INODE, components(path@)) == walk_s(
                v,
                cur,
                components(path@.skip(i as int)),
            ),
        decreases n - i,
    {
        let ghost rest = path@.skip(i as int);
        if path.get_char(i) == '/' {
            assert(rest[0] == '/');
            assert(rest.drop_first() =~= path@.skip(i + 1));
            i += 1;
        } else {
            let mut j: usize = i;
            while j < n && path.get_char(j) != '/'
                invariant
                    i <= j <= n == path@.len(),
                    forall|k: int| i <= k < j ==> #[trigger] path@[k] != '/',
                decreases n - j,
            {
                j += 1;
            }
            proof {
                assert forall|k: int| 0 <= k < j - i implies #[trigger] rest[k] != '/' by {
                    assert(rest[k] == path@[i + k]);
                }
                lemma_word_len(rest, j - i);
                assert(rest[0] == path@[i as int]);
                assert(j > i);
            }
            let name = path.substring_char(i, j);
            proof {
                assert(name@ =~= rest.subrange(0, j - i));
                assert(rest.skip(j - i) =~= path@.skip(j as int));
                let parts = components(rest);
                assert(parts[0] == name@);
                assert(parts.drop_first() =~= components(path@.skip(j as int)));
            }
            match fs.dir_lookup(devs, cur, name) {
                Ok(next) => {
                    cur = next;
                },
                Err(e) => return Err(e),
            }
            i = j;
        }
    }
    assert(path@.skip(n as int) =~= Seq::<char>::empty());
    Ok(cur)
}

/// Resolves a path to an inode number.
fn resolve_path<D: BlockDevice>(files: &FileSystem<D>, path: &str) -> (r: Result<u32, VfsError>)
    requires
        files.wf(),
    ensures
        answered(files.reliable(), r, resolve_s(files@.fs, path@)),
{
    if path.unicode_len() == 0 {
        return Err(VfsError::NotFound);
    }
    match &files.mounted {
        Some(fs) => match walk_path(fs, &files.devs, path) {
            Ok(n) => Ok(n),
            Err(e) => Err(VfsError::from(e)),
        },
        None => Err(VfsError::NotMounted),
    }
}

/// Whether a task may write to a directory.
pub open spec fn dir_write_s(fs: Option<FsView>, c: Credentials, dir: u32) -> Result<(), VfsError> {
    match fs {
        None => Err(VfsError::NotMounted),
        Some(v) => lift(check_permission_s(v, dir, c.uid, c.gid, MAY_WRITE)),
    }
}

/// Requires that a task has write permission on a directory.
fn require_dir_write<D: BlockDevice>(files: &FileSystem<D>, task_id: u32, dir_inode: u32) -> (r:
    Result<(), VfsError>)
    requires
        files.wf(),
    ensures
        answered(
            files.reliable(),
            r,
            dir_write_s(files@.fs, creds_of(files@.creds, task_id), dir_inode),
        ),
{
    let c = credentials(files, task_id);
    match &files.mounted {
        None => Err(VfsError::NotMounted),
        Some(fs) => match fs.check_permission(&files.devs, dir_inode, c.uid, c.gid, MAY_WRITE) {
            Ok(_) => Ok(()),
            Err(e) => Err(VfsError::from(e)),
        },
    }
}

/// Creating the file that a path names, owned by its creator.
pub open spec fn create_s(fs: Option<FsView>, c: Credentials, path: Seq<char>, now: u32) -> (
    Result<u32, VfsError>,
    Option<FsView>,
) {
    match resolve_s(fs, parent_of(path)) {
        Err(e) => (Err(e), fs),
        Ok(parent) => match dir_write_s(fs, c, parent) {
            Err(e) => (Err(e), fs),
            Ok(_) => match fs {
                None => (Err(VfsError::NotMounted), fs),
                Some(v) => match create_file_s(v, parent, name_of(path), now) {
                    (Err(e), v1) => (Err(vfs_error(e)), Some(v1)),
                    (Ok(n), v1) => (Ok(n), Some(chown_s(v1, n, c.uid, c.gid, now).1)),
                },
            },
        },
    }
}

/// As [`create_s`], whether or not the name is taken.
pub open spec fn create_blind_s(fs: Option<FsView>, c: Credentials, path: Seq<char>, now: u32) -> (
    Result<u32, VfsError>,
    Option<FsView>,
) {
    match resolve_s(fs, parent_of(path)) {
        Err(e) => (Err(e), fs),
        Ok(parent) => match dir_write_s(fs, c, parent) {
            Err(e) => (Err(e), fs),
            Ok(_) => match fs {
                None => (Err(VfsError::NotMounted), fs),
                Some(v) => match create_file_blind_s(v, parent, name_of(path), now) {
                    (Err(e), v1) => (Err(vfs_error(e)), Some(v1)),
                    (Ok(n), v1) => (Ok(n), Some(chown_s(v1, n, c.uid, c.gid, now).1)),
                },
            },
        },
    }
}

/// The inode to open: the one that the path leads to, emptied if asked for, or
/// a new one if there is none and creation is asked for.
pub open spec fn open_inode_s(
    fs: Option<FsView>,
    c: Credentials,
    path: Seq<char>,
    flags: OpenFlags,
    now: u32,
) -> (Result<u32, VfsError>, Option<FsView>) {
    match resolve_s(fs, path) {
        Ok(n) => if flags.create && flags.truncate {
            match fs {
                None => (Err(VfsError::NotMounted), fs),
                Some(v) => match truncate_s(v, n, 0) {
                    (Err(e), v1) => (Err(vfs_error(e)), Some(v1)),
                    (Ok(_), v1) => (Ok(n), Some(v1)),
                },
            }
        } else {
            (Ok(n), fs)
        },
        Err(e) => if flags.create && e == VfsError::NotFound {
            create_s(fs, c, path, now)
        } else {
            (Err(e), fs)
        },
    }
}

/// The access that open flags ask for.
pub open spec fn wanted(flags: OpenFlags) -> u16 {
    if flags.read {
        if flags.write {
            6
        } else {
            4
        }
    } else if flags.write {
        2
    } else {
        0
    }
}

/// Whether the opened inode may be accessed as asked, and where in it to start.
pub open spec fn open_pos_s(fs: Option<FsView>, c: Credentials, n: u32, flags: OpenFlags) -> Result<
    u64,
    VfsError,
> {
    match fs {
        None => if wanted(flags) != 0 || flags.append {
            Err(VfsError::NotMounted)
        } else {
            Ok(0)
        },
        Some(v) => {
            let access = check_permission_s(v, n, c.uid, c.gid, wanted(flags));
            if wanted(flags) != 0 && access is Err {
                Err(vfs_error(access->Err_0))
            } else if flags.append {
                match read_inode_s(v, n) {
                    Err(e) => Err(vfs_error(e)),
                    Ok(i) => Ok(i.size),
                }
            } else {
                Ok(0)
            }
        },
    }
}

/// Adding an open file to the table of a task.
pub open spec fn add_file_s(f: FilesView, task: u32, file: OpenFile) -> (
    Result<u32, VfsError>,
    FilesView,
) {
    if f.tables.contains_key(task) {
        let (r, t) = alloc_fd_s(f.tables[task], file);
        (r, FilesView { tables: f.tables.insert(task, t), ..f })
    } else {
        (Err(VfsError::InvalidOperation), f)
    }
}

/// Opening an inode.
pub open spec fn opened_s(f: FilesView, task: u32, n: u32, flags: OpenFlags) -> (
    Result<u32, VfsError>,
    FilesView,
) {
    match open_pos_s(f.fs, creds_of(f.creds, task), n, flags) {
        Err(e) => (Err(e), f),
        Ok(pos) => add_file_s(
            f,
            task,
            OpenFile { file_type: FileType::Regular(n), flags, pos },
        ),
    }
}

/// Opening a file.
pub open spec fn open_s(f: FilesView, task: u32, path: Seq<char>, flags: OpenFlags, now: u32) -> (
    Result<u32, VfsError>,
    FilesView,
) {
    let c = creds_of(f.creds, task);
    match open_inode_s(f.fs, c, path, flags, now) {
        (Err(e), fs) => (Err(e), FilesView { fs, ..f }),
        (Ok(n), fs) => opened_s(FilesView { fs, ..f }, task, n, flags),
    }
}

/// A file has to be made before it can be opened.
pub open spec fn makes_file(f: FilesView, path: Seq<char>, flags: OpenFlags) -> bool {
    flags.create && resolve_s(f.fs, path) == Err::<u32, VfsError>(VfsError::NotFound)
}

/// A file was opened as [`open_s`] says, unless the device failed. Where the file had to
/// be made first, it may be that the device failed unnoticed while it was (see
/// [`made`]); it was then opened as it is.
pub open spec fn open_done(
    reliable: bool,
    r: Result<u32, VfsError>,
    post: FilesView,
    f0: FilesView,
    task: u32,
    path: Seq<char>,
    flags: OpenFlags,
    now: u32,
) -> bool {
    let c = creds_of(f0.creds, task);
    let want = create_s(f0.fs, c, path, now);
    let blind = create_blind_s(f0.fs, c, path, now);
    ||| (r, post) == open_s(f0, task, path, flags, now)
    ||| {
        &&& !reliable
        &&& r matches Err(e) && vfs_device_failed(e)
        &&& post == (FilesView { fs: post.fs, ..f0 })
        &&& !flags.create ==> post == f0
    }
    ||| !reliable && makes_file(f0, path, flags) && want.0 is Ok && (r, post) == opened_s(
        FilesView { fs: post.fs, ..f0 },
        task,
        want.0->Ok_0,
        flags,
    )
    ||| !reliable && makes_file(f0, path, flags) && want.0 == Err::<u32, VfsError>(
        VfsError::AlreadyExists,
    ) && match blind.0 {
        Ok(n) => (r, post) == opened_s(FilesView { fs: post.fs, ..f0 }, task, n, flags),
        Err(e) => r == Err::<u32, VfsError>(e) && post == (FilesView { fs: blind.1, ..f0 }),
    }
}

/// Adds an open file to the table of a task.
fn add_file<D: BlockDevice>(files: &mut FileSystem<D>, task_id: u32, file: OpenFile) -> (r: Result<
    u32,
    VfsError,
>)
    requires
        old(files).wf(),
    ensures
        frame(*old(files), *final(files)),
        (r, final(files)@) == add_file_s(old(files)@, task_id, file),
{
    match files.tables.remove(&task_id) {
        None => {
            assert(files.tables@ =~= old(files).tables@);
            Err(VfsError::InvalidOperation)
        },
        Some(mut table) => {
            let r = table.alloc_fd(file);
            files.tables.insert(task_id, table);
            assert(files@.tables =~= add_file_s(old(files)@, task_id, file).1.tables);
            r
        },
    }
}

/// Creates the file that a path names. Its creator must be able to write to the
/// parent directory, and becomes its owner; that this fails is passed over.
#[verifier::spinoff_prover]
#[verifier::rlimit(60)]
fn create_owned<D: BlockDevice>(
    files: &mut FileSystem<D>,
    task_id: u32,
    path: &str,
    now: u32,
) -> (r: Result<u32, VfsError>)
    requires
        old(files).wf(),
    ensures
        frame(*old(files), *final(files)),
        ({
            let c = creds_of(old(files)@.creds, task_id);
            let (want, fs) = create_s(old(files)@.fs, c, path@, now);
            let (blind, fs1) = create_blind_s(old(files)@.fs, c, path@, now);
            made(
                old(files).reliable(),
                r,
                final(files)@,
                old(files)@,
                (want, FilesView { fs, ..old(files)@ }),
                (blind, FilesView { fs: fs1, ..old(files)@ }),
            )
        }),
{
    let (parent_path, name) = split_path(path);
    let parent: u32 = match resolve_path(files, parent_path) {
        Ok(n) => n,
        Err(e) => return Err(e),
    };
    match require_dir_write(files, task_id, parent) {
        Ok(_) => {},
        Err(e) => return Err(e),
    }
    let c = credentials(files, task_id);
    match &mut files.mounted {
        None => Err(VfsError::NotMounted),
        Some(fs) => match fs.create_file(&mut files.devs, parent, name, now) {
            Ok(n) => {
                let _ = fs.chown(&mut files.devs, n, c.uid, c.gid, now);
                Ok(n)
            },
            Err(e) => Err(VfsError::from(e)),
        },
    }
}

/// Opens a file and returns a file descriptor.
#[verifier::spinoff_prover]
#[verifier::rlimit(60)]
pub fn open<D: BlockDevice>(
    files: &mut FileSystem<D>,
    task_id: u32,
    path: &str,
    flags: OpenFlags,
    now: u32,
) -> (r: Result<u32, VfsError>)
    requires
        old(files).wf(),
    ensures
        frame(*old(files), *final(files)),
        open_done(
            old(files).reliable(),
            r,
            final(files)@,
            old(files)@,
            task_id,
            path@,
            flags,
            now,
        ),
{
    let found = resolve_path(files, path);
    let inode: u32 = match found {
        Ok(n) => {
            if flags.create && flags.truncate {
                match &mut files.mounted {
                    None => return Err(VfsError::NotMounted),
                    Some(fs) => match fs.truncate(&mut files.devs, n, 0) {
                        Ok(_) => {},
                        Err(e) => return Err(VfsError::from(e)),
                    },
                }
            }
            n
        },
        Err(VfsError::NotFound) => {
            if !flags.create {
                return Err(VfsError::NotFound);
            }
            match create_owned(files, task_id, path, now) {
                Ok(n) => n,
                Err(e) => return Err(e),
            }
        },
        Err(e) => return Err(e),
    };
    let pos: u64 = match open_pos(files, task_id, inode, flags) {
        Ok(p) => p,
        Err(e) => return Err(e),
    };
    let file = OpenFile { file_type: FileType::Regular(inode), flags, pos };
    add_file(files, task_id, file)
}

/// Checks that a task may access an inode as asked, and finds where to start.
fn open_pos<D: BlockDevice>(
    files: &FileSystem<D>,
    task_id: u32,
    inode: u32,
    flags: OpenFlags,
) -> (r: Result<u64, VfsError>)
    requires
        files.wf(),
    ensures
        answered(
            files.reliable(),
            r,
            open_pos_s(files@.fs, creds_of(files@.creds, task_id), inode, flags),
        ),
{
    let c = credentials(files, task_id);
    let want: u16 = if flags.read {
        if flags.write {
            6
        } else {
            4
        }
    } else if flags.write {
        2
    } else {
        0
    };
    if want != 0 {
        match &files.mounted {
            None => return Err(VfsError::NotMounted),
            Some(fs) => match fs.check_permission(&files.devs, inode, c.uid, c.gid, want) {
                Ok(_) => {},
                Err(e) => return Err(VfsError::from(e)),
            },
        }
    }
    if flags.append {
        match &files.mounted {
            None => return Err(VfsError::NotMounted),
            Some(fs) => match fs.read_inode(&files.devs, inode) {
                Ok(i) => return Ok(i.size),
                Err(e) => return Err(VfsError::from(e)),
            },
        }
    }
    Ok(0)
}

/// The open file behind a descriptor of a task.
pub open spec fn file_s(f: FilesView, task: u32, fd: u32) -> Result<OpenFile, VfsError> {
    if !f.tables.contains_key(task) {
        Err(VfsError::InvalidOperation)
    } else if !f.tables[task].files.contains_key(fd) {
        Err(VfsError::BadFileDescriptor)
    } else {
        Ok(f.tables[task].files[fd])
    }
}

/// The state after the position of an open file was set.
pub open spec fn moved(f: FilesView, task: u32, fd: u32, pos: u64) -> FilesView {
    let t = f.tables[task];
    FilesView {
        tables: f.tables.insert(
            task,
            FdTableView { files: t.files.insert(fd, OpenFile { pos, ..t.files[fd] }), ..t },
        ),
        ..f
    }
}

/// Looks up the open file behind a descriptor of a task.
pub fn get_file<D: BlockDevice>(files: &FileSystem<D>, task_id: u32, fd: u32) -> (r: Result<
    OpenFile,
    VfsError,
>)
    ensures
        r == file_s(files@, task_id, fd),
{
    match files.tables.get(&task_id) {
        None => Err(VfsError::InvalidOperation),
        Some(t) => {
            assert(t@ == files@.tables[task_id]);
            t.get(fd)
        },
    }
}

/// Sets the position of an open file.
fn set_pos<D: BlockDevice>(files: &mut FileSystem<D>, task_id: u32, fd: u32, pos: u64)
    requires
        old(files).wf(),
        file_s(old(files)@, task_id, fd) is Ok,
    ensures
        frame(*old(files), *final(files)),
        final(files)@ == moved(old(files)@, task_id, fd, pos),
{
    match files.tables.remove(&task_id) {
        None => {},
        Some(mut t) => {
            assert(t@ == old(files)@.tables[task_id]);
            let _ = t.set_pos(fd, pos);
            files.tables.insert(task_id, t);
            assert(files@.tables =~= moved(old(files)@, task_id, fd, pos).tables);
        },
    }
}

/// What a read came to: bytes were read; or there is nothing yet, and the caller
/// is to wait for keyboard input or for a writer of the pipe; or the read is
/// one from a socket, which the caller carries out.
#[derive(Debug, Clone, Copy, PartialEq, Eq, Structural)]
pub enum ReadStep {
    Bytes(usize),
    WaitInput,
    WaitPipe,
    Socket(u32),
}

/// Characters from a queue as bytes behind `out`, as long as they fit into
/// `len`. The first one that does not fit is lost.
pub open spec fn typed(q: Seq<char>, out: Seq<u8>, len: int) -> (Seq<u8>, Seq<char>)
    decreases q.len(),
{
    if out.len() >= len || q.len() == 0 {
        (out, q)
    } else {
        let e = encode_utf8(seq![q[0]]);
        if out.len() + e.len() > len {
            (out, q.drop_first())
        } else {
            typed(q.drop_first(), out + e, len)
        }
    }
}

/// What a read of `len > 0` bytes takes from a queue of characters that is not
/// empty. If the first character does not fit, reading goes on behind it.
pub open spec fn typed_first(q: Seq<char>, len: int) -> (Seq<u8>, Seq<char>) {
    let e = encode_utf8(seq![q[0]]);
    typed(
        q.drop_first(),
        if e.len() <= len {
            e
        } else {
            Seq::empty()
        },
        len,
    )
}

/// Reading from an open file: the outcome, the bytes read, and the state after.
pub open spec fn read_s(f: FilesView, con: ConsoleView, task: u32, fd: u32, len: nat) -> (
    Result<ReadStep, VfsError>,
    Seq<u8>,
    FilesView,
    ConsoleView,
) {
    let none = Seq::<u8>::empty();
    match file_s(f, task, fd) {
        Err(e) => (Err(e), none, f, con),
        Ok(file) => if !file.flags.read {
            (Err(VfsError::WriteOnlyFile), none, f, con)
        } else {
            match file.file_type {
                FileType::Regular(n) => match f.fs {
                    None => (Err(VfsError::NotMounted), none, f, con),
                    Some(v) => match read_inode_data_s(v, n, file.pos, len) {
                        Err(e) => (Err(vfs_error(e)), none, f, con),
                        Ok(data) => (
                            Ok(ReadStep::Bytes(data.len() as usize)),
                            data,
                            moved(f, task, fd, (file.pos + data.len()) as u64),
                            con,
                        ),
                    },
                },
                FileType::Console => (Err(VfsError::WriteOnlyFile), none, f, con),
                FileType::Keyboard => if len == 0 {
                    (Ok(ReadStep::Bytes(0)), none, f, con)
                } else if con.queue.len() == 0 {
                    (Ok(ReadStep::WaitInput), none, f, asked(con, task).1)
                } else {
                    let (data, q) = typed_first(con.queue, len as int);
                    (
                        Ok(ReadStep::Bytes(data.len() as usize)),
                        data,
                        f,
                        ConsoleView { queue: q, ..con },
                    )
                },
                FileType::Pipe(id, is_write) => if is_write {
                    (Err(VfsError::WriteOnlyFile), none, f, con)
                } else if !f.pipes.contains_key(id) {
                    (Ok(ReadStep::Bytes(0)), none, f, con)
                } else if f.pipes[id].buf.len() > 0 {
                    let (data, p) = crate::fs::fds::pipe_taken(f.pipes[id], len as int);
                    (
                        Ok(ReadStep::Bytes(data.len() as usize)),
                        data,
                        FilesView { pipes: f.pipes.insert(id, p), ..f },
                        con,
                    )
                } else if f.pipes[id].write_ends == 0 {
                    (Ok(ReadStep::Bytes(0)), none, f, con)
                } else {
                    (Ok(ReadStep::WaitPipe), none, f, con)
                },
                FileType::Socket(id) => (Ok(ReadStep::Socket(id)), none, f, con),
            }
        },
    }
}

/// A descriptor is one of a file on the disk.
pub open spec fn on_disk(f: FilesView, task: u32, fd: u32) -> bool {
    file_s(f, task, fd) matches Ok(file) && file.file_type is Regular
}

/// A read ended as [`read_s`] says, unless it was one of a file on the disk and the
/// device failed. Then nothing is changed, except perhaps what is in the buffer.
pub open spec fn read_done(
    reliable: bool,
    r: Result<ReadStep, VfsError>,
    post: FilesView,
    con: ConsoleView,
    buf: Seq<u8>,
    before: (FilesView, ConsoleView, Seq<u8>),
    task: u32,
    fd: u32,
) -> bool {
    let (f0, con0, buf0) = before;
    let (want, data, f1, con1) = read_s(f0, con0, task, fd, buf0.len());
    ||| {
        &&& r == want
        &&& post == f1
        &&& con == con1
        &&& r is Ok || !on_disk(f0, task, fd) ==> buf == patch(buf0, 0, data)
    }
    ||| {
        &&& on_disk(f0, task, fd) && !reliable
        &&& r matches Err(e) && vfs_device_failed(e)
        &&& post == f0
        &&& con == con0
    }
}

/// Drains typed characters into bytes.
fn read_typed(console: &mut ConsoleInput, len: usize) -> (out: Vec<u8>)
    requires
        old(console).wf(),
        len > 0,
        old(console)@.queue.len() > 0,
    ensures
        final(console).wf(),
        out@.len() <= len,
        ({
            let (data, q) = typed_first(old(console)@.queue, len as int);
            out@ == data && final(console)@ == (ConsoleView { queue: q, ..old(console)@ })
        }),
{
    let ghost q0 = console@.queue;
    let ghost c0 = console@;
    let mut out: Vec<u8> = Vec::new();
    match read_char(console) {
        Some(c) => {
            let e = crate::bytes::char_bytes(c);
            if e.len() <= len {
                crate::bytes::push_range(&mut out, e.as_slice(), 0, e.len());
                assert(out@ =~= e@);
            }
        },
        None => {},
    }
    let ghost want = typed_first(q0, len as int);
    assert(out@ == Seq::<u8>::empty() || out@ == encode_utf8(seq![q0[0]]));
    loop
        invariant_except_break
            console.wf(),
            out@.len() <= len,
            console@ == (ConsoleView { queue: console@.queue, ..c0 }),
            want == typed(console@.queue, out@, len as int),
        ensures
            console.wf(),
            out@.len() <= len,
            console@ == (ConsoleView { queue: console@.queue, ..c0 }),
            want == (out@, console@.queue),
        decreases console@.queue.len(),
    {
        if out.len() >= len {
            break;
        }
        match read_char(console) {
            None => {
                break;
            },
            Some(c) => {
                let e = crate::bytes::char_bytes(c);
                if e.len() > len - out.len() {
                    break;
                }
                let ghost before = out@;
                crate::bytes::push_range(&mut out, e.as_slice(), 0, e.len());
                assert(out@ =~= before + e@);
            },
        }
    }
    out
}

/// Reads from a file descriptor.
pub fn read<D: BlockDevice>(
    files: &mut FileSystem<D>,
    console: &mut ConsoleInput,
    task_id: u32,
    fd: u32,
    buf: &mut [u8],
) -> (r: Result<ReadStep, VfsError>)
    requires
        old(files).wf(),
        old(console).wf(),
    ensures
        frame(*old(files), *final(files)),
        final(console).wf(),
        final(buf)@.len() == old(buf)@.len(),
        read_done(
            old(files).reliable(),
            r,
            final(files)@,
            final(console)@,
            final(buf)@,
            (old(files)@, old(console)@, old(buf)@),
            task_id,
            fd,
        ),
{
    assert(buf@ =~= patch(buf@, 0, Seq::<u8>::empty()));
    let file = match get_file(files, task_id, fd) {
        Ok(f) => f,
        Err(e) => return Err(e),
    };
    if !file.flags.read {
        return Err(VfsError::WriteOnlyFile);
    }
    match file.file_type {
        FileType::Regular(inode) => {
            let n: usize = match &files.mounted {
                None => return Err(VfsError::NotMounted),
                Some(fs) => match fs.read_inode_data(&files.devs, inode, file.pos, buf) {
                    Ok(n) => n,
                    Err(e) => return Err(VfsError::from(e)),
                },
            };
            proof {
                lemma_read_bound(files@.fs->Some_0, inode, file.pos, old(buf)@.len());
            }
            set_pos(files, task_id, fd, file.pos + n as u64);
            Ok(ReadStep::Bytes(n))
        },
        FileType::Console => Err(VfsError::WriteOnlyFile),
        FileType::Keyboard => {
            let len: usize = buf.len();
            if len == 0 {
                return Ok(ReadStep::Bytes(0));
            }
            if !crate::driver::console::has_input(console) {
                let _ = read_char_blocking(console, task_id);
                return Ok(ReadStep::WaitInput);
            }
            let out = read_typed(console, len);
            let n: usize = out.len();
            crate::bytes::splice_into(buf, 0, out.as_slice(), 0, n);
            assert(out@.subrange(0, n as int) =~= out@);
            Ok(ReadStep::Bytes(n))
        },
        FileType::Pipe(id, is_write) => {
            if is_write {
                return Err(VfsError::WriteOnlyFile);
            }
            match files.pipes.remove(&id) {
                None => {
                    assert(files.pipes@ =~= old(files).pipes@);
                    Ok(ReadStep::Bytes(0))
                },
                Some(mut p) => {
                    assert(p@ == old(files)@.pipes[id]);
                    let r = if !p.is_empty() {
                        Ok(ReadStep::Bytes(p.read(buf)))
                    } else if !p.has_writers() {
                        Ok(ReadStep::Bytes(0))
                    } else {
                        Ok(ReadStep::WaitPipe)
                    };
                    files.pipes.insert(id, p);
                    assert(files@.pipes =~= old(files)@.pipes.insert(id, p@));
                    assert(old(files)@.pipes.insert(id, old(files)@.pipes[id]) =~= old(
                        files,
                    )@.pipes);
                    r
                },
            }
        },
        FileType::Socket(id) => Ok(ReadStep::Socket(id)),
    }
}

/// Reading never goes beyond the end of a file.
proof fn lemma_read_bound(v: FsView, n: u32, pos: u64, len: nat)
    ensures
        read_inode_data_s(v, n, pos, len) matches Ok(d) ==> pos + d.len() <= u64::MAX,
{
}

/// What a write came to: bytes were written; or the pipe is full after `n` bytes
/// in all, and the caller is to wait and go on from there; or the bytes are for
/// the console or a socket, which the caller serves.
#[derive(Debug, Clone, Copy, PartialEq, Eq, Structural)]
pub enum WriteStep {
    Bytes(usize),
    WaitPipe(usize),
    Console,
    Socket(u32),
}

/// Writing to a regular file: the bytes go to the file's position.
pub open spec fn write_regular_s(v: FsView, n: u32, pos: u64, data: Seq<u8>, now: u32) -> (
    Result<usize, FsError>,
    FsView,
) {
    match read_inode_s(v, n) {
        Err(e) => (Err(e), v),
        Ok(i) => match write_inode_data_s(v, i, pos, data, now) {
            (Err(e), v1, i1) => (Err(e), v1),
            (Ok(k), v1, i1) => match write_inode_s(v1, n, i1) {
                (Err(e), v2) => (Err(e), v2),
                (Ok(_), v2) => (Ok(k), v2),
            },
        },
    }
}

/// Writing to a pipe, of which `done` bytes were already taken. Without a
/// reader, what was written so far is all; writing nothing at all is an error.
pub open spec fn write_pipe_s(pipes: Map<u64, PipeView>, id: u64, data: Seq<u8>, done: int) -> (
    Result<WriteStep, VfsError>,
    Map<u64, PipeView>,
) {
    if !pipes.contains_key(id) || pipes[id].read_ends == 0 {
        if done == 0 && data.len() > 0 {
            (Err(VfsError::InvalidOperation), pipes)
        } else {
            (Ok(WriteStep::Bytes(done as usize)), pipes)
        }
    } else {
        let p = pipes[id];
        let n = crate::fs::fds::pipe_room(p, data.len() - done);
        let p1 = PipeView { buf: p.buf + data.subrange(done, done + n), ..p };
        (
            Ok(
                if done + n >= data.len() {
                    WriteStep::Bytes((done + n) as usize)
                } else {
                    WriteStep::WaitPipe((done + n) as usize)
                },
            ),
            pipes.insert(id, p1),
        )
    }
}

/// Writing to an open file.
pub open spec fn write_s(
    f: FilesView,
    task: u32,
    fd: u32,
    data: Seq<u8>,
    done: int,
    now: u32,
) -> (Result<WriteStep, VfsError>, FilesView) {
    match file_s(f, task, fd) {
        Err(e) => (Err(e), f),
        Ok(file) => if !file.flags.write {
            (Err(VfsError::ReadOnlyFile), f)
        } else {
            match file.file_type {
                FileType::Regular(n) => match f.fs {
                    None => (Err(VfsError::NotMounted), f),
                    Some(v) => match write_regular_s(v, n, file.pos, data, now) {
                        (Err(e), v1) => (Err(vfs_error(e)), FilesView { fs: Some(v1), ..f }),
                        (Ok(k), v1) => (
                            Ok(WriteStep::Bytes(k)),
                            moved(
                                FilesView { fs: Some(v1), ..f },
                                task,
                                fd,
                                (file.pos + k) as u64,
                            ),
                        ),
                    },
                },
                FileType::Console => (Ok(WriteStep::Console), f),
                FileType::Keyboard => (Err(VfsError::ReadOnlyFile), f),
                FileType::Pipe(id, is_write) => if !is_write {
                    (Err(VfsError::ReadOnlyFile), f)
                } else {
                    let (r, pipes) = write_pipe_s(f.pipes, id, data, done);
                    (r, FilesView { pipes, ..f })
                },
                FileType::Socket(id) => (Ok(WriteStep::Socket(id)), f),
            }
        },
    }
}

/// Writes to a regular file of the mounted file system.
fn write_regular<D: BlockDevice>(
    files: &mut FileSystem<D>,
    inode_num: u32,
    pos: u64,
    buf: &[u8],
    now: u32,
) -> (r: Result<usize, VfsError>)
    requires
        old(files).wf(),
    ensures
        frame(*old(files), *final(files)),
        final(files)@ == (FilesView { fs: final(files)@.fs, ..old(files)@ }),
        r matches Ok(n) ==> n == buf@.len() && pos + n <= u64::MAX,
        ({
            let (want, fs) = match old(files)@.fs {
                None => (Err::<usize, VfsError>(VfsError::NotMounted), None),
                Some(v) => {
                    let (k, v1) = write_regular_s(v, inode_num, pos, buf@, now);
                    (lift(k), Some(v1))
                },
            };
            ||| r == want && final(files)@.fs == fs
            ||| r matches Err(e) && vfs_device_failed(e) && !old(files).reliable()
        }),
{
    assert(buf@.len() == buf.len());
    match &mut files.mounted {
        None => Err(VfsError::NotMounted),
        Some(fs) => {
            let mut inode = match fs.read_inode(&files.devs, inode_num) {
                Ok(i) => i,
                Err(e) => return Err(VfsError::from(e)),
            };
            let n: usize = match fs.write_inode_data(&mut files.devs, &mut inode, pos, buf, now) {
                Ok(n) => n,
                Err(e) => return Err(VfsError::from(e)),
            };
            match fs.write_inode(&mut files.devs, inode_num, &inode) {
                Ok(_) => Ok(n),
                Err(e) => Err(VfsError::from(e)),
            }
        },
    }
}

/// Writes to a file descriptor. For a pipe, `done` bytes of `buf` were written by
/// earlier calls; a first call passes 0.
pub fn write<D: BlockDevice>(
    files: &mut FileSystem<D>,
    task_id: u32,
    fd: u32,
    buf: &[u8],
    done: usize,
    now: u32,
) -> (r: Result<WriteStep, VfsError>)
    requires
        old(files).wf(),
        done <= buf@.len(),
    ensures
        frame(*old(files), *final(files)),
        ({
            let (want, f) = write_s(old(files)@, task_id, fd, buf@, done as int, now);
            ||| r == want && final(files)@ == f
            ||| {
                &&& on_disk(old(files)@, task_id, fd) && !old(files).reliable()
                &&& r matches Err(e) && vfs_device_failed(e)
                &&& final(files)@ == (FilesView { fs: final(files)@.fs, ..old(files)@ })
            }
        }),
{
    let file = match get_file(files, task_id, fd) {
        Ok(f) => f,
        Err(e) => return Err(e),
    };
    if !file.flags.write {
        return Err(VfsError::ReadOnlyFile);
    }
    match file.file_type {
        FileType::Regular(inode) => {
            let n: usize = match write_regular(files, inode, file.pos, buf, now) {
                Ok(n) => n,
                Err(e) => return Err(e),
            };
            set_pos(files, task_id, fd, file.pos + n as u64);
            Ok(WriteStep::Bytes(n))
        },
        FileType::Console => Ok(WriteStep::Console),
        FileType::Keyboard => Err(VfsError::ReadOnlyFile),
        FileType::Pipe(id, is_write) => {
            if !is_write {
                return Err(VfsError::ReadOnlyFile);
            }
            let ghost before = files@.pipes;
            match files.pipes.remove(&id) {
                None => {
                    assert(files.pipes@ =~= old(files).pipes@);
                    if done == 0 && buf.len() > 0 {
                        Err(VfsError::InvalidOperation)
                    } else {
                        Ok(WriteStep::Bytes(done))
                    }
                },
                Some(mut p) => {
                    assert(p@ == before[id]);
                    assert(before.contains_key(id));
                    let r = if !p.has_readers() {
                        if done == 0 && buf.len() > 0 {
                            Err(VfsError::InvalidOperation)
                        } else {
                            Ok(WriteStep::Bytes(done))
                        }
                    } else {
                        let n: usize = p.write(buf, done);
                        let len: usize = buf.len();
                        if done + n >= len {
                            Ok(WriteStep::Bytes(done + n))
                        } else {
                            Ok(WriteStep::WaitPipe(done + n))
                        }
                    };
                    files.pipes.insert(id, p);
                    assert(files@.pipes =~= before.insert(id, p@));
                    assert(before.insert(id, before[id]) =~= before);
                    r
                },
            }
        },
        FileType::Socket(id) => Ok(WriteStep::Socket(id)),
    }
}

/// The position that a seek leads to; `None` if it lies before the start of the
/// file or beyond the largest position.
pub open spec fn seek_target(pos: u64, size: u64, offset: i64, whence: SeekWhence) -> Option<u64> {
    let t = match whence {
        SeekWhence::Start => offset as int,
        SeekWhence::Current => (pos as i64) + offset,
        SeekWhence::End => (size as i64) + offset,
    };
    if 0 <= t <= i64::MAX {
        Some(t as u64)
    } else {
        None
    }
}

/// Moving the position of an open file. Only regular files have one.
pub open spec fn seek_s(f: FilesView, task: u32, fd: u32, offset: i64, whence: SeekWhence) -> (
    Result<u64, VfsError>,
    FilesView,
) {
    match file_s(f, task, fd) {
        Err(e) => (Err(e), f),
        Ok(file) => match file.file_type {
            FileType::Regular(n) => match f.fs {
                None => (Err(VfsError::NotMounted), f),
                Some(v) => match read_inode_s(v, n) {
                    Err(e) => (Err(vfs_error(e)), f),
                    Ok(i) => match seek_target(file.pos, i.size, offset, whence) {
                        None => (Err(VfsError::InvalidOperation), f),
                        Some(p) => (Ok(p), moved(f, task, fd, p)),
                    },
                },
            },
            _ => (Err(VfsError::InvalidOperation), f),
        },
    }
}

/// Adds an offset to a position.
fn seek_from(base: i64, offset: i64) -> (r: Option<u64>)
    ensures
        r == (if 0 <= base + offset <= i64::MAX {
            Some((base + offset) as u64)
        } else {
            None
        }),
{
    match base.checked_add(offset) {
        None => None,
        Some(t) => if t < 0 {
            None
        } else {
            Some(t as u64)
        },
    }
}

/// Seeks within a file.
pub fn seek<D: BlockDevice>(
    files: &mut FileSystem<D>,
    task_id: u32,
    fd: u32,
    offset: i64,
    whence: SeekWhence,
) -> (r: Result<u64, VfsError>)
    requires
        old(files).wf(),
    ensures
        frame(*old(files), *final(files)),
        ({
            let (want, f) = seek_s(old(files)@, task_id, fd, offset, whence);
            ||| r == want && final(files)@ == f
            ||| {
                &&& on_disk(old(files)@, task_id, fd) && !old(files).reliable()
                &&& r matches Err(e) && vfs_device_failed(e)
                &&& final(files)@ == old(files)@
            }
        }),
{
    let file = match get_file(files, task_id, fd) {
        Ok(f) => f,
        Err(e) => return Err(e),
    };
    let inode: u32 = match file.file_type {
        FileType::Regular(n) => n,
        _ => return Err(VfsError::InvalidOperation),
    };
    let size: u64 = match &files.mounted {
        None => return Err(VfsError::NotMounted),
        Some(fs) => match fs.read_inode(&files.devs, inode) {
            Ok(i) => i.size,
            Err(e) => return Err(VfsError::from(e)),
        },
    };
    let target: Option<u64> = match whence {
        SeekWhence::Start => seek_from(0, offset),
        SeekWhence::Current => seek_from(file.pos as i64, offset),
        SeekWhence::End => seek_from(size as i64, offset),
    };
    match target {
        None => Err(VfsError::InvalidOperation),
        Some(p) => {
            set_pos(files, task_id, fd, p);
            Ok(p)
        },
    }
}

/// The pipes after one end of a pipe was closed. A pipe without any open end is
/// gone.
pub open spec fn pipe_end_closed(pipes: Map<u64, PipeView>, id: u64, is_write: bool) -> Map<
    u64,
    PipeView,
> {
    if pipes.contains_key(id) {
        let p = crate::fs::fds::end_closed(pipes[id], is_write);
        if p.read_ends == 0 && p.write_ends == 0 {
            pipes.remove(id)
        } else {
            pipes.insert(id, p)
        }
    } else {
        pipes
    }
}

/// Closes one end of a pipe, freeing the pipe once both ends are closed
/// everywhere.
fn pipe_close_end<D: BlockDevice>(files: &mut FileSystem<D>, id: u64, is_write: bool)
    requires
        old(files).wf(),
    ensures
        frame(*old(files), *final(files)),
        final(files)@ == (FilesView {
            pipes: pipe_end_closed(old(files)@.pipes, id, is_write),
            ..old(files)@
        }),
{
    let ghost before = files@.pipes;
    match files.pipes.remove(&id) {
        None => {
            assert(files.pipes@ =~= old(files).pipes@);
        },
        Some(mut p) => {
            assert(p@ == before[id]);
            assert(before.contains_key(id));
            p.close_end(is_write);
            if p.has_readers() || p.has_writers() {
                files.pipes.insert(id, p);
                assert(files@.pipes =~= before.insert(id, p@));
            } else {
                assert(files@.pipes =~= before.remove(id));
            }
        },
    }
}

/// Counts one more open end of a pipe.
fn pipe_dup_end<D: BlockDevice>(files: &mut FileSystem<D>, id: u64, is_write: bool)
    requires
        old(files).wf(),
    ensures
        frame(*old(files), *final(files)),
        final(files)@ == (FilesView {
            pipes: pipe_end_opened(old(files)@.pipes, id, is_write),
            ..old(files)@
        }),
{
    let ghost before = files@.pipes;
    match files.pipes.remove(&id) {
        None => {
            assert(files.pipes@ =~= old(files).pipes@);
        },
        Some(mut p) => {
            assert(p@ == before[id]);
            assert(before.contains_key(id));
            p.dup_end(is_write);
            files.pipes.insert(id, p);
            assert(files@.pipes =~= before.insert(id, p@));
        },
    }
}

/// The pipes after one more end of a pipe was opened.
pub open spec fn pipe_end_opened(pipes: Map<u64, PipeView>, id: u64, is_write: bool) -> Map<
    u64,
    PipeView,
> {
    if pipes.contains_key(id) {
        pipes.insert(id, crate::fs::fds::end_opened(pipes[id], is_write))
    } else {
        pipes
    }
}

/// Closing a descriptor. A socket behind it is for the caller to destroy.
pub open spec fn close_s(f: FilesView, task: u32, fd: u32) -> (
    Result<Option<u32>, VfsError>,
    FilesView,
) {
    match file_s(f, task, fd) {
        Err(e) => (Err(e), f),
        Ok(file) => {
            let t = f.tables[task];
            let f1 = FilesView {
                tables: f.tables.insert(task, FdTableView { files: t.files.remove(fd), ..t }),
                ..f
            };
            match file.file_type {
                FileType::Pipe(id, w) => (
                    Ok(None),
                    FilesView { pipes: pipe_end_closed(f.pipes, id, w), ..f1 },
                ),
                FileType::Socket(id) => (Ok(Some(id)), f1),
                _ => (Ok(None), f1),
            }
        },
    }
}

/// Closes a file descriptor. Returns the socket that was behind it, if any, for
/// the caller to destroy.
pub fn close<D: BlockDevice>(files: &mut FileSystem<D>, task_id: u32, fd: u32) -> (r: Result<
    Option<u32>,
    VfsError,
>)
    requires
        old(files).wf(),
    ensures
        frame(*old(files), *final(files)),
        (r, final(files)@) == close_s(old(files)@, task_id, fd),
{
    match files.tables.remove(&task_id) {
        None => {
            assert(files.tables@ =~= old(files).tables@);
            Err(VfsError::InvalidOperation)
        },
        Some(mut t) => {
            assert(t@ == old(files)@.tables[task_id]);
            let closed = t.close(fd);
            files.tables.insert(task_id, t);
            match closed {
                Err(e) => {
                    assert(files@.tables =~= old(files)@.tables);
                    Err(e)
                },
                Ok(file) => {
                    assert(files@.tables =~= close_s(old(files)@, task_id, fd).1.tables);
                    match file.file_type {
                        FileType::Pipe(id, w) => {
                            pipe_close_end(files, id, w);
                            Ok(None)
                        },
                        FileType::Socket(id) => Ok(Some(id)),
                        _ => Ok(None),
                    }
                },
            }
        },
    }
}

/// Creating a pipe: two descriptors, and the pipe itself once both are there.
pub open spec fn pipe_s(f: FilesView, task: u32) -> (Result<(u32, u32), VfsError>, FilesView) {
    if !f.tables.contains_key(task) {
        (Err(VfsError::InvalidOperation), f)
    } else {
        let id = f.next_pipe;
        let f0 = FilesView {
            next_pipe: if id == u64::MAX {
                0
            } else {
                (id + 1) as u64
            },
            ..f
        };
        match add_file_s(f0, task, handle(FileType::Pipe(id, false), true, false)) {
            (Err(e), f1) => (Err(e), f1),
            (Ok(a), f1) => match add_file_s(
                f1,
                task,
                handle(FileType::Pipe(id, true), false, true),
            ) {
                (Err(e), f2) => (Err(e), f2),
                (Ok(b), f2) => (
                    Ok((a, b)),
                    FilesView {
                        pipes: f2.pipes.insert(
                            id,
                            PipeView { buf: Seq::empty(), read_ends: 1, write_ends: 1 },
                        ),
                        ..f2
                    },
                ),
            },
        }
    }
}

/// Creates an anonymous pipe. Returns `(read_fd, write_fd)`.
pub fn pipe<D: BlockDevice>(files: &mut FileSystem<D>, task_id: u32) -> (r: Result<
    (u32, u32),
    VfsError,
>)
    requires
        old(files).wf(),
    ensures
        frame(*old(files), *final(files)),
        (r, final(files)@) == pipe_s(old(files)@, task_id),
{
    if !files.tables.contains_key(&task_id) {
        return Err(VfsError::InvalidOperation);
    }
    let id: u64 = files.next_pipe;
    files.next_pipe = id.wrapping_add(1);
    let read_fd: u32 = match add_file(files, task_id, OpenFile::pipe(id, false)) {
        Ok(fd) => fd,
        Err(e) => return Err(e),
    };
    let write_fd: u32 = match add_file(files, task_id, OpenFile::pipe(id, true)) {
        Ok(fd) => fd,
        Err(e) => return Err(e),
    };
    let ghost before = files@.pipes;
    let p = Pipe::new();
    files.pipes.insert(id, p);
    assert(files@.pipes =~= before.insert(id, p@));
    Ok((read_fd, write_fd))
}

/// Creates a socket file descriptor. Returns the descriptor.
pub fn socket<D: BlockDevice>(files: &mut FileSystem<D>, task_id: u32, socket_id: u32) -> (r:
    Result<u32, VfsError>)
    requires
        old(files).wf(),
    ensures
        frame(*old(files), *final(files)),
        (r, final(files)@) == add_file_s(
            old(files)@,
            task_id,
            handle(FileType::Socket(socket_id), true, true),
        ),
{
    let file = OpenFile {
        file_type: FileType::Socket(socket_id),
        flags: OpenFlags::rdwr(),
        pos: 0,
    };
    add_file(files, task_id, file)
}

/// Reads directory entries.
pub fn readdir<D: BlockDevice>(files: &FileSystem<D>, task_id: u32, path: &str) -> (r: Result<
    Vec<(String, u32)>,
    VfsError,
>)
    requires
        files.wf(),
    ensures
        ({
            let want = match resolve_s(files@.fs, path@) {
                Err(e) => Err(e),
                Ok(n) => lift(dir_list_s(files@.fs->Some_0, n)),
            };
            match r {
                Ok(v) => want == Ok::<Seq<(Seq<char>, u32)>, VfsError>(listing(v@)),
                Err(e) => answered(
                    files.reliable(),
                    Err::<Seq<(Seq<char>, u32)>, VfsError>(e),
                    want,
                ),
            }
        }),
{
    let inode: u32 = match resolve_path(files, path) {
        Ok(n) => n,
        Err(e) => return Err(e),
    };
    match &files.mounted {
        None => Err(VfsError::NotMounted),
        Some(fs) => match fs.dir_list(&files.devs, inode) {
            Ok(v) => Ok(v),
            Err(e) => Err(VfsError::from(e)),
        },
    }
}

/// The parent directory of a path, if the task may write to it.
pub open spec fn writable_parent_s(fs: Option<FsView>, c: Credentials, path: Seq<char>) -> Result<
    u32,
    VfsError,
> {
    match resolve_s(fs, parent_of(path)) {
        Err(e) => Err(e),
        Ok(parent) => match dir_write_s(fs, c, parent) {
            Err(e) => Err(e),
            Ok(_) => Ok(parent),
        },
    }
}

/// Finds the parent directory of a path and checks that the task may write to
/// it.
fn writable_parent<D: BlockDevice>(files: &FileSystem<D>, task_id: u32, parent_path: &str, Ghost(
    path,
): Ghost<Seq<char>>) -> (r: Result<u32, VfsError>)
    requires
        files.wf(),
        parent_path@ == parent_of(path),
    ensures
        answered(
            files.reliable(),
            r,
            writable_parent_s(files@.fs, creds_of(files@.creds, task_id), path),
        ),
{
    let parent: u32 = match resolve_path(files, parent_path) {
        Ok(n) => n,
        Err(e) => return Err(e),
    };
    match require_dir_write(files, task_id, parent) {
        Ok(_) => Ok(parent),
        Err(e) => Err(e),
    }
}

/// Deleting the file that a path names.
pub open spec fn unlink_path_s(f: FilesView, task: u32, path: Seq<char>, now: u32) -> (
    Result<(), VfsError>,
    FilesView,
) {
    match writable_parent_s(f.fs, creds_of(f.creds, task), path) {
        Err(e) => (Err(e), f),
        Ok(parent) => {
            let (r, v1) = unlink_s(f.fs->Some_0, parent, name_of(path), now);
            (lift(r), FilesView { fs: Some(v1), ..f })
        },
    }
}

/// A file was deleted as `want` says, unless the device failed. Where the path names
/// something else, a device that fails may keep its name from being put back.
pub open spec fn unlink_done(
    reliable: bool,
    r: Result<(), VfsError>,
    post: FilesView,
    f0: FilesView,
    want: (Result<(), VfsError>, FilesView),
) -> bool {
    ||| done(reliable, r, post, f0, want)
    ||| !reliable && r == want.0 && r == Err::<(), VfsError>(VfsError::NotFile) && post == (
    FilesView { fs: post.fs, ..f0 })
}

/// Unlinks (deletes) a file.
pub fn unlink<D: BlockDevice>(
    files: &mut FileSystem<D>,
    task_id: u32,
    path: &str,
    now: u32,
) -> (r: Result<(), VfsError>)
    requires
        old(files).wf(),
    ensures
        frame(*old(files), *final(files)),
        unlink_done(
            old(files).reliable(),
            r,
            final(files)@,
            old(files)@,
            unlink_path_s(old(files)@, task_id, path@, now),
        ),
{
    let (parent_path, name) = split_path(path);
    let parent: u32 = match writable_parent(files, task_id, parent_path, Ghost(path@)) {
        Ok(n) => n,
        Err(e) => return Err(e),
    };
    match &mut files.mounted {
        None => Err(VfsError::NotMounted),
        Some(fs) => match fs.unlink(&mut files.devs, parent, name, now) {
            Ok(_) => Ok(()),
            Err(e) => Err(VfsError::from(e)),
        },
    }
}

/// Removing the directory that a path names.
pub open spec fn rmdir_path_s(f: FilesView, task: u32, path: Seq<char>) -> (
    Result<(), VfsError>,
    FilesView,
) {
    match writable_parent_s(f.fs, creds_of(f.creds, task), path) {
        Err(e) => (Err(e), f),
        Ok(parent) => {
            let (r, v1) = rmdir_s(f.fs->Some_0, parent, name_of(path));
            (lift(r), FilesView { fs: Some(v1), ..f })
        },
    }
}

/// Removes a directory.
pub fn rmdir<D: BlockDevice>(files: &mut FileSystem<D>, task_id: u32, path: &str) -> (r: Result<
    (),
    VfsError,
>)
    requires
        old(files).wf(),
    ensures
        frame(*old(files), *final(files)),
        done(
            old(files).reliable(),
            r,
            final(files)@,
            old(files)@,
            rmdir_path_s(old(files)@, task_id, path@),
        ),
{
    let (parent_path, name) = split_path(path);
    let parent: u32 = match writable_parent(files, task_id, parent_path, Ghost(path@)) {
        Ok(n) => n,
        Err(e) => return Err(e),
    };
    match &mut files.mounted {
        None => Err(VfsError::NotMounted),
        Some(fs) => match fs.rmdir(&mut files.devs, parent, name) {
            Ok(_) => Ok(()),
            Err(e) => Err(VfsError::from(e)),
        },
    }
}

/// Creating the directory that a path names, owned by its creator.
pub open spec fn mkdir_path_s(f: FilesView, task: u32, path: Seq<char>, now: u32) -> (
    Result<(), VfsError>,
    FilesView,
) {
    let c = creds_of(f.creds, task);
    match writable_parent_s(f.fs, c, path) {
        Err(e) => (Err(e), f),
        Ok(parent) => match create_dir_s(f.fs->Some_0, parent, name_of(path), now) {
            (Err(e), v1) => (Err(vfs_error(e)), FilesView { fs: Some(v1), ..f }),
            (Ok(n), v1) => (
                Ok(()),
                FilesView { fs: Some(chown_s(v1, n, c.uid, c.gid, now).1), ..f },
            ),
        },
    }
}

/// As [`mkdir_path_s`], whether or not the name is taken.
pub open spec fn mkdir_blind_s(f: FilesView, task: u32, path: Seq<char>, now: u32) -> (
    Result<(), VfsError>,
    FilesView,
) {
    let c = creds_of(f.creds, task);
    match writable_parent_s(f.fs, c, path) {
        Err(e) => (Err(e), f),
        Ok(parent) => match create_dir_blind_s(f.fs->Some_0, parent, name_of(path), now) {
            (Err(e), v1) => (Err(vfs_error(e)), FilesView { fs: Some(v1), ..f }),
            (Ok(n), v1) => (
                Ok(()),
                FilesView { fs: Some(chown_s(v1, n, c.uid, c.gid, now).1), ..f },
            ),
        },
    }
}

/// Creates a directory. The creating task becomes its owner; that this
/// fails is passed over.
#[verifier::spinoff_prover]
#[verifier::rlimit(60)]
pub fn mkdir<D: BlockDevice>(
    files: &mut FileSystem<D>,
    task_id: u32,
    path: &str,
    now: u32,
) -> (r: Result<(), VfsError>)
    requires
        old(files).wf(),
    ensures
        frame(*old(files), *final(files)),
        made(
            old(files).reliable(),
            r,
            final(files)@,
            old(files)@,
            mkdir_path_s(old(files)@, task_id, path@, now),
            mkdir_blind_s(old(files)@, task_id, path@, now),
        ),
{
    let (parent_path, name) = split_path(path);
    let parent: u32 = match writable_parent(files, task_id, parent_path, Ghost(path@)) {
        Ok(n) => n,
        Err(e) => return Err(e),
    };
    let c = credentials(files, task_id);
    match &mut files.mounted {
        None => Err(VfsError::NotMounted),
        Some(fs) => match fs.create_dir(&mut files.devs, parent, name, now) {
            Ok(n) => {
                let _ = fs.chown(&mut files.devs, n, c.uid, c.gid, now);
                Ok(())
            },
            Err(e) => Err(VfsError::from(e)),
        },
    }
}

/// Setting the size of the file that a path names.
pub open spec fn truncate_path_s(f: FilesView, task: u32, path: Seq<char>, size: u64) -> (
    Result<(), VfsError>,
    FilesView,
) {
    let c = creds_of(f.creds, task);
    match resolve_s(f.fs, path) {
        Err(e) => (Err(e), f),
        Ok(n) => match check_permission_s(f.fs->Some_0, n, c.uid, c.gid, MAY_WRITE) {
            Err(e) => (Err(vfs_error(e)), f),
            Ok(_) => {
                let (r, v1) = truncate_s(f.fs->Some_0, n, size);
                (lift(r), FilesView { fs: Some(v1), ..f })
            },
        },
    }
}

/// Truncates a file to a specific size. Requires write permission.
pub fn truncate<D: BlockDevice>(
    files: &mut FileSystem<D>,
    task_id: u32,
    path: &str,
    size: u64,
) -> (r: Result<(), VfsError>)
    requires
        old(files).wf(),
    ensures
        frame(*old(files), *final(files)),
        done(
            old(files).reliable(),
            r,
            final(files)@,
            old(files)@,
            truncate_path_s(old(files)@, task_id, path@, size),
        ),
{
    let inode: u32 = match resolve_path(files, path) {
        Ok(n) => n,
        Err(e) => return Err(e),
    };
    let c = credentials(files, task_id);
    match &mut files.mounted {
        None => Err(VfsError::NotMounted),
        Some(fs) => match fs.check_permission(&files.devs, inode, c.uid, c.gid, MAY_WRITE) {
            Err(e) => Err(VfsError::from(e)),
            Ok(_) => match fs.truncate(&mut files.devs, inode, size) {
                Ok(_) => Ok(()),
                Err(e) => Err(VfsError::from(e)),
            },
        },
    }
}

/// Returns metadata for a path.
pub fn stat<D: BlockDevice>(files: &FileSystem<D>, task_id: u32, path: &str) -> (r: Result<
    FileStat,
    VfsError,
>)
    requires
        files.wf(),
    ensures
        answered(
            files.reliable(),
            r,
            match resolve_s(files@.fs, path@) {
                Err(e) => Err(e),
                Ok(n) => lift(stat_s(files@.fs->Some_0, n)),
            },
        ),
{
    let inode: u32 = match resolve_path(files, path) {
        Ok(n) => n,
        Err(e) => return Err(e),
    };
    match &files.mounted {
        None => Err(VfsError::NotMounted),
        Some(fs) => match fs.stat(&files.devs, inode) {
            Ok(st) => Ok(st),
            Err(e) => Err(VfsError::from(e)),
        },
    }
}

/// Changing the permission bits of a path. Only the owner and the superuser may.
pub open spec fn chmod_path_s(f: FilesView, task: u32, path: Seq<char>, mode: u16, now: u32) -> (
    Result<(), VfsError>,
    FilesView,
) {
    let c = creds_of(f.creds, task);
    match resolve_s(f.fs, path) {
        Err(e) => (Err(e), f),
        Ok(n) => match stat_s(f.fs->Some_0, n) {
            Err(e) => (Err(vfs_error(e)), f),
            Ok(st) => if c.uid != 0 && c.uid != st.uid {
                (Err(VfsError::PermissionDenied), f)
            } else {
                let (r, v1) = chmod_s(f.fs->Some_0, n, mode, now);
                (lift(r), FilesView { fs: Some(v1), ..f })
            },
        },
    }
}

/// Changes permission bits of a path. Only the owner or the superuser may.
pub fn chmod<D: BlockDevice>(
    files: &mut FileSystem<D>,
    task_id: u32,
    path: &str,
    mode: u16,
    now: u32,
) -> (r: Result<(), VfsError>)
    requires
        old(files).wf(),
    ensures
        frame(*old(files), *final(files)),
        done(
            old(files).reliable(),
            r,
            final(files)@,
            old(files)@,
            chmod_path_s(old(files)@, task_id, path@, mode, now),
        ),
{
    let inode: u32 = match resolve_path(files, path) {
        Ok(n) => n,
        Err(e) => return Err(e),
    };
    let c = credentials(files, task_id);
    match &mut files.mounted {
        None => Err(VfsError::NotMounted),
        Some(fs) => match fs.stat(&files.devs, inode) {
            Err(e) => Err(VfsError::from(e)),
            Ok(st) => {
                if c.uid != 0 && c.uid != st.uid {
                    return Err(VfsError::PermissionDenied);
                }
                match fs.chmod(&mut files.devs, inode, mode, now) {
                    Ok(_) => Ok(()),
                    Err(e) => Err(VfsError::from(e)),
                }
            },
        },
    }
}

/// Changing owner and group of a path. Only the superuser may.
pub open spec fn chown_path_s(
    f: FilesView,
    task: u32,
    path: Seq<char>,
    uid: u16,
    gid: u16,
    now: u32,
) -> (Result<(), VfsError>, FilesView) {
    match resolve_s(f.fs, path) {
        Err(e) => (Err(e), f),
        Ok(n) => if creds_of(f.creds, task).uid != 0 {
            (Err(VfsError::PermissionDenied), f)
        } else {
            let (r, v1) = chown_s(f.fs->Some_0, n, uid, gid, now);
            (lift(r), FilesView { fs: Some(v1), ..f })
        },
    }
}

/// Changes owner and group of a path. Only the superuser may.
pub fn chown<D: BlockDevice>(
    files: &mut FileSystem<D>,
    task_id: u32,
    path: &str,
    uid: u16,
    gid: u16,
    now: u32,
) -> (r: Result<(), VfsError>)
    requires
        old(files).wf(),
    ensures
        frame(*old(files), *final(files)),
        done(
            old(files).reliable(),
            r,
            final(files)@,
            old(files)@,
            chown_path_s(old(files)@, task_id, path@, uid, gid, now),
        ),
{
    let inode: u32 = match resolve_path(files, path) {
        Ok(n) => n,
        Err(e) => return Err(e),
    };
    let c = credentials(files, task_id);
    if c.uid != 0 {
        return Err(VfsError::PermissionDenied);
    }
    match &mut files.mounted {
        None => Err(VfsError::NotMounted),
        Some(fs) => match fs.chown(&mut files.devs, inode, uid, gid, now) {
            Ok(_) => Ok(()),
            Err(e) => Err(VfsError::from(e)),
        },
    }
}

/// The pipes after the ends behind some descriptors, in turn, were closed.
pub open spec fn ends_released(
    pipes: Map<u64, PipeView>,
    files: Map<u32, OpenFile>,
    fds: Seq<u32>,
) -> Map<u64, PipeView>
    decreases fds.len(),
{
    if fds.len() == 0 {
        pipes
    } else {
        let before = ends_released(pipes, files, fds.drop_last());
        match files[fds.last()].file_type {
            FileType::Pipe(id, w) => pipe_end_closed(before, id, w),
            _ => before,
        }
    }
}

/// The pipes after the ends behind some descriptors, in turn, were opened once
/// more.
pub open spec fn ends_shared(
    pipes: Map<u64, PipeView>,
    files: Map<u32, OpenFile>,
    fds: Seq<u32>,
) -> Map<u64, PipeView>
    decreases fds.len(),
{
    if fds.len() == 0 {
        pipes
    } else {
        let before = ends_shared(pipes, files, fds.drop_last());
        match files[fds.last()].file_type {
            FileType::Pipe(id, w) => pipe_end_opened(before, id, w),
            _ => before,
        }
    }
}

/// The sockets behind some descriptors.
pub open spec fn sockets_behind(files: Map<u32, OpenFile>, fds: Seq<u32>) -> Seq<u32>
    decreases fds.len(),
{
    if fds.len() == 0 {
        Seq::empty()
    } else {
        let before = sockets_behind(files, fds.drop_last());
        match files[fds.last()].file_type {
            FileType::Socket(id) => before.push(id),
            _ => before,
        }
    }
}

/// Closes the ends behind all descriptors of a table that was taken out.
fn release_table<D: BlockDevice>(files: &mut FileSystem<D>, table: &FdTable, fds: &Vec<u32>) -> (r:
    Vec<u32>)
    requires
        old(files).wf(),
        in_order(fds@, table@.files),
    ensures
        frame(*old(files), *final(files)),
        final(files)@ == (FilesView {
            pipes: ends_released(old(files)@.pipes, table@.files, fds@),
            ..old(files)@
        }),
        r@ == sockets_behind(table@.files, fds@),
{
    let mut sockets: Vec<u32> = Vec::new();
    let ghost all = table@.files;
    for k in 0..fds.len()
        invariant
            in_order(fds@, all),
            all == table@.files,
            frame(*old(files), *files),
            files@ == (FilesView {
                pipes: ends_released(old(files)@.pipes, all, fds@.take(k as int)),
                ..old(files)@
            }),
            sockets@ == sockets_behind(all, fds@.take(k as int)),
    {
        proof {
            assert(fds@.take(k + 1).drop_last() =~= fds@.take(k as int));
            assert(fds@.to_set().contains(fds@[k as int]));
        }
        if let Ok(file) = table.get(fds[k]) {
            match file.file_type {
                FileType::Pipe(id, w) => pipe_close_end(files, id, w),
                FileType::Socket(id) => sockets.push(id),
                _ => {},
            }
        }
    }
    assert(fds@.take(fds@.len() as int) =~= fds@);
    sockets
}

/// Opens the ends behind all descriptors of a table once more.
fn share_table<D: BlockDevice>(files: &mut FileSystem<D>, table: &FdTable, fds: &Vec<u32>)
    requires
        old(files).wf(),
        in_order(fds@, table@.files),
    ensures
        frame(*old(files), *final(files)),
        final(files)@ == (FilesView {
            pipes: ends_shared(old(files)@.pipes, table@.files, fds@),
            ..old(files)@
        }),
{
    let ghost all = table@.files;
    for k in 0..fds.len()
        invariant
            in_order(fds@, all),
            all == table@.files,
            frame(*old(files), *files),
            files@ == (FilesView {
                pipes: ends_shared(old(files)@.pipes, all, fds@.take(k as int)),
                ..old(files)@
            }),
    {
        proof {
            assert(fds@.take(k + 1).drop_last() =~= fds@.take(k as int));
            assert(fds@.to_set().contains(fds@[k as int]));
        }
        if let Ok(file) = table.get(fds[k]) {
            match file.file_type {
                FileType::Pipe(id, w) => pipe_dup_end(files, id, w),
                _ => {},
            }
        }
    }
    assert(fds@.take(fds@.len() as int) =~= fds@);
}

/// Forgets a task that has ended: its descriptors are closed, and its pipe ends
/// and credentials released. Returns the sockets that the task still had open,
/// for the caller to destroy.
pub fn cleanup_task_fds<D: BlockDevice>(files: &mut FileSystem<D>, task_id: u32) -> (r: Vec<u32>)
    requires
        old(files).wf(),
    ensures
        frame(*old(files), *final(files)),
        final(files)@.tables == old(files)@.tables.remove(task_id),
        final(files)@.creds == old(files)@.creds.remove(task_id),
        final(files)@.fs == old(files)@.fs,
        final(files)@.next_pipe == old(files)@.next_pipe,
        !old(files)@.tables.contains_key(task_id) ==> r@.len() == 0 && final(files)@.pipes == old(
            files,
        )@.pipes,
        old(files)@.tables.contains_key(task_id) ==> exists|fds: Seq<u32>|
            #![trigger in_order(fds, old(files)@.tables[task_id].files)]
            {
                let open = old(files)@.tables[task_id].files;
                &&& in_order(fds, open)
                &&& r@ == sockets_behind(open, fds)
                &&& final(files)@.pipes == ends_released(old(files)@.pipes, open, fds)
            },
{
    let ghost before = *files;
    files.creds.remove(&task_id);
    match files.tables.remove(&task_id) {
        None => {
            assert(files@.tables =~= before@.tables.remove(task_id));
            Vec::new()
        },
        Some(table) => {
            assert(files@.tables =~= before@.tables.remove(task_id));
            assert(table@ == before@.tables[task_id]);
            let fds = table.fds();
            release_table(files, &table, &fds)
        },
    }
}

/// Gives `child` a copy of every open file of `parent`, as a fork does, in place
/// of any table that it had. The child holds its own end of each pipe, and has
/// the credentials of its parent.
pub fn clone_task_fds<D: BlockDevice>(files: &mut FileSystem<D>, parent: u32, child: u32)
    requires
        old(files).wf(),
    ensures
        frame(*old(files), *final(files)),
        final(files)@.creds == old(files)@.creds.insert(
            child,
            creds_of(old(files)@.creds, parent),
        ),
        final(files)@.fs == old(files)@.fs,
        final(files)@.next_pipe == old(files)@.next_pipe,
        !old(files)@.tables.contains_key(parent) ==> final(files)@.pipes == old(files)@.pipes
            && final(files)@.tables == old(files)@.tables.insert(child, standard_table()),
        old(files)@.tables.contains_key(parent) ==> {
            &&& final(files)@.tables == old(files)@.tables.insert(
                child,
                old(files)@.tables[parent],
            )
            &&& exists|fds: Seq<u32>|
                #![trigger in_order(fds, old(files)@.tables[parent].files)]
                {
                    let open = old(files)@.tables[parent].files;
                    &&& in_order(fds, open)
                    &&& final(files)@.pipes == ends_shared(old(files)@.pipes, open, fds)
                }
        },
{
    let ghost before = *files;
    let copied: Option<FdTable> = match files.tables.get(&parent) {
        None => None,
        Some(t) => {
            assert(t@ == before@.tables[parent]);
            Some(t.duplicate())
        },
    };
    let c = credentials(files, parent);
    files.creds.insert(child, c);
    match copied {
        None => {
            let t = FdTable::standard();
            files.tables.insert(child, t);
            assert(files@.tables =~= before@.tables.insert(child, t@));
        },
        Some(t) => {
            let fds = t.fds();
            share_table(files, &t, &fds);
            let ghost shared = files@;
            files.tables.insert(child, t);
            assert(files@.tables =~= shared.tables.insert(child, t@));
        },
    }
}

} // verus!
