//! System calls on files: results and memory images for the caller.

use super::{Call, FAILED};
use crate::bytes::{le16, le32, le64, push_u16, push_u32, push_u64, utf8_text};
use crate::driver::block::BlockDevice;
use crate::driver::console::ConsoleInput;
use crate::fs::fds::VfsError;
use crate::fs::metadata::{stat_s, FileStat};
use crate::fs::vfs::{
    self, chmod_path_s, chown_path_s, frame, lemma_frame_refl, lift, made, mkdir_blind_s,
    mkdir_path_s, on_disk, open_done, open_s, pipe_s, resolve_s, rmdir_path_s, seek_s,
    truncate_path_s, unlink_path_s, FileSystem, FilesView,
};
use crate::fs::vfs::net::{
    close_through_s, read_through, tcp_behind, write_through, ReadState, Reading, Writing,
};
use crate::net::model::net;
use crate::net::stack::{stack_ok, NetworkStack};
use smoltcp::iface::SocketSet;
use vstd::prelude::*;
use vstd::utf8::{decode_utf8, valid_utf8};

verus! {

/// What goes back to the caller: the value in its register, and bytes for the
/// memory that the call named.
#[derive(Debug)]
pub struct Reply {
    pub value: u64,
    pub out: Vec<u8>,
}

/// The value for an operation that returns nothing.
pub open spec fn status(r: Result<(), VfsError>) -> u64 {
    match r {
        Ok(_) => 0,
        Err(_) => FAILED,
    }
}

/// The value for an operation that returns a descriptor.
pub open spec fn descriptor(r: Result<u32, VfsError>) -> u64 {
    match r {
        Ok(fd) => fd as u64,
        Err(_) => FAILED,
    }
}

/// The value for an operation that returns a position.
pub open spec fn position(r: Result<u64, VfsError>) -> u64 {
    match r {
        Ok(p) => p,
        Err(_) => FAILED,
    }
}

fn descriptor_of(r: Result<u32, VfsError>) -> (v: u64)
    ensures
        v == descriptor(r),
{
    match r {
        Ok(fd) => fd as u64,
        Err(_) => FAILED,
    }
}

fn status_of(r: Result<(), VfsError>) -> (v: u64)
    ensures
        v == status(r),
{
    match r {
        Ok(_) => 0,
        Err(_) => FAILED,
    }
}

/// Whether a call is one that changes what a path names.
pub open spec fn changes_path(c: Call) -> bool {
    c is Open || c is Unlink || c is Rmdir || c is Mkdir || c is Truncate || c is Chmod || c is Chown
}

/// What a call on a path returns and does.
pub open spec fn path_call_s(f: FilesView, task: u32, c: Call, path: Seq<char>, now: u32) -> (
    u64,
    FilesView,
) {
    match c {
        Call::Open { flags, .. } => {
            let (r, f1) = open_s(f, task, path, flags, now);
            (descriptor(r), f1)
        },
        Call::Unlink { .. } => {
            let (r, f1) = unlink_path_s(f, task, path, now);
            (status(r), f1)
        },
        Call::Rmdir { .. } => {
            let (r, f1) = rmdir_path_s(f, task, path);
            (status(r), f1)
        },
        Call::Mkdir { .. } => {
            let (r, f1) = mkdir_path_s(f, task, path, now);
            (status(r), f1)
        },
        Call::Truncate { size, .. } => {
            let (r, f1) = truncate_path_s(f, task, path, size);
            (status(r), f1)
        },
        Call::Chmod { mode, .. } => {
            let (r, f1) = chmod_path_s(f, task, path, mode, now);
            (status(r), f1)
        },
        Call::Chown { uid, gid, .. } => {
            let (r, f1) = chown_path_s(f, task, path, uid, gid, now);
            (status(r), f1)
        },
        _ => (FAILED, f),
    }
}

/// A call on a path was served as [`path_call_s`] says, unless the device failed: then
/// the call fails, and at most the file system is not as it was. Opening, making and
/// deleting may not notice that the device failed, as the operations themselves state.
pub open spec fn path_call_done(
    reliable: bool,
    r: u64,
    post: FilesView,
    f0: FilesView,
    task: u32,
    c: Call,
    path: Seq<char>,
    now: u32,
) -> bool {
    ||| (r, post) == path_call_s(f0, task, c, path, now)
    ||| !reliable && r == FAILED && post == (FilesView { fs: post.fs, ..f0 })
    ||| !reliable && match c {
        Call::Open { flags, .. } => exists|x: Result<u32, VfsError>|
            r == #[trigger] descriptor(x) && open_done(false, x, post, f0, task, path, flags, now),
        Call::Mkdir { .. } => exists|x: Result<(), VfsError>|
            {
                &&& r == #[trigger] status(x)
                &&& made(
                    false,
                    x,
                    post,
                    f0,
                    mkdir_path_s(f0, task, path, now),
                    mkdir_blind_s(f0, task, path, now),
                )
            },
        _ => false,
    }
}

/// Serves a call on a path, whose bytes were read from the caller's memory. A
/// path that is not valid UTF-8 fails.
pub fn path_call<D: BlockDevice>(
    files: &mut FileSystem<D>,
    task: u32,
    c: &Call,
    path: &[u8],
    now: u32,
) -> (r: u64)
    requires
        old(files).wf(),
        changes_path(*c),
    ensures
        frame(*old(files), *final(files)),
        !valid_utf8(path@) ==> r == FAILED && final(files)@ == old(files)@,
        valid_utf8(path@) ==> path_call_done(
            old(files).reliable(),
            r,
            final(files)@,
            old(files)@,
            task,
            *c,
            decode_utf8(path@),
            now,
        ),
{
    let path = match utf8_text(path) {
        Some(t) => t,
        None => {
            proof {
                lemma_frame_refl(*files);
            }
            return FAILED;
        },
    };
    match *c {
        Call::Open { flags, .. } => descriptor_of(vfs::open(files, task, path, flags, now)),
        Call::Unlink { .. } => status_of(vfs::unlink(files, task, path, now)),
        Call::Rmdir { .. } => status_of(vfs::rmdir(files, task, path)),
        Call::Mkdir { .. } => status_of(vfs::mkdir(files, task, path, now)),
        Call::Truncate { size, .. } => status_of(vfs::truncate(files, task, path, size)),
        Call::Chmod { mode, .. } => status_of(vfs::chmod(files, task, path, mode, now)),
        Call::Chown { uid, gid, .. } => status_of(vfs::chown(files, task, path, uid, gid, now)),
        _ => FAILED,
    }
}

/// Metadata as the caller's memory gets it: type, a pad byte, mode, owner,
/// group, size and time of modification.
pub open spec fn stat_bytes(st: FileStat) -> Seq<u8> {
    seq![st.inode_type, 0] + le16(st.mode) + le16(st.uid) + le16(st.gid) + le64(st.size) + le32(
        st.mtime,
    )
}

/// What a stat finds.
pub open spec fn stat_path_s(f: FilesView, path: Seq<char>) -> Result<FileStat, VfsError> {
    match resolve_s(f.fs, path) {
        Err(e) => Err(e),
        Ok(n) => lift(stat_s(f.fs->Some_0, n)),
    }
}

/// What a stat call returns.
pub open spec fn stat_reply(st: Result<FileStat, VfsError>) -> (u64, Seq<u8>) {
    match st {
        Ok(st) => (0, stat_bytes(st)),
        Err(_) => (FAILED, Seq::empty()),
    }
}

/// Serves a stat call.
pub fn stat_call<D: BlockDevice>(files: &FileSystem<D>, task: u32, path: &[u8]) -> (r: Reply)
    requires
        files.wf(),
    ensures
        !valid_utf8(path@) ==> r.value == FAILED && r.out@.len() == 0,
        valid_utf8(path@) ==> {
            ||| (r.value, r.out@) == stat_reply(stat_path_s(files@, decode_utf8(path@)))
            ||| !files.reliable() && r.value == FAILED && r.out@.len() == 0
        },
{
    let path = match utf8_text(path) {
        Some(t) => t,
        None => return Reply { value: FAILED, out: Vec::new() },
    };
    match vfs::stat(files, task, path) {
        Ok(st) => {
            let mut out: Vec<u8> = Vec::new();
            out.push(st.inode_type);
            out.push(0);
            assert(out@ =~= seq![st.inode_type, 0]);
            push_u16(&mut out, st.mode);
            push_u16(&mut out, st.uid);
            push_u16(&mut out, st.gid);
            push_u64(&mut out, st.size);
            push_u32(&mut out, st.mtime);
            Reply { value: 0, out }
        },
        Err(_) => {
            let out: Vec<u8> = Vec::new();
            assert(out@ =~= Seq::<u8>::empty());
            Reply { value: FAILED, out }
        },
    }
}

/// What a pipe call returns.
pub open spec fn pipe_reply(r: Result<(u32, u32), VfsError>) -> (u64, Seq<u8>) {
    match r {
        Ok((a, b)) => (0, le32(a) + le32(b)),
        Err(_) => (FAILED, Seq::empty()),
    }
}

/// Serves a pipe call: the descriptors of the two ends go to the caller.
pub fn pipe_call<D: BlockDevice>(files: &mut FileSystem<D>, task: u32) -> (r: Reply)
    requires
        old(files).wf(),
    ensures
        frame(*old(files), *final(files)),
        ({
            let (p, f) = pipe_s(old(files)@, task);
            (r.value, r.out@) == pipe_reply(p) && final(files)@ == f
        }),
{
    match vfs::pipe(files, task) {
        Ok((a, b)) => {
            let mut out: Vec<u8> = Vec::new();
            push_u32(&mut out, a);
            assert(out@ =~= le32(a));
            push_u32(&mut out, b);
            Reply { value: 0, out }
        },
        Err(_) => {
            let out: Vec<u8> = Vec::new();
            assert(out@ =~= Seq::<u8>::empty());
            Reply { value: FAILED, out }
        },
    }
}

/// Serves a close call. The socket behind the descriptor, if there is one, is
/// destroyed.
pub fn close_call<D: BlockDevice>(
    files: &mut FileSystem<D>,
    stack: &mut NetworkStack,
    s: &mut SocketSet<'static>,
    task: u32,
    fd: u32,
) -> (r: u64)
    requires
        old(files).wf(),
        stack_ok(old(stack)@, *old(s)),
        tcp_behind(old(files)@, net(old(stack)@, *old(s)), task, fd),
    ensures
        frame(*old(files), *final(files)),
        stack_ok(final(stack)@, *final(s)),
        ({
            let (c, f, n) = close_through_s(old(files)@, net(old(stack)@, *old(s)), task, fd);
            &&& r == status(c)
            &&& final(files)@ == f
            &&& net(final(stack)@, *final(s)) == n
        }),
{
    match vfs::net::close(files, stack, s, task, fd) {
        Ok(_) => 0,
        Err(_) => FAILED,
    }
}

/// Serves a seek call.
pub fn seek_call<D: BlockDevice>(
    files: &mut FileSystem<D>,
    task: u32,
    fd: u32,
    offset: i64,
    whence: crate::fs::fds::SeekWhence,
) -> (r: u64)
    requires
        old(files).wf(),
    ensures
        frame(*old(files), *final(files)),
        ({
            let (p, f) = seek_s(old(files)@, task, fd, offset, whence);
            ||| r == position(p) && final(files)@ == f
            ||| {
                &&& on_disk(old(files)@, task, fd) && !old(files).reliable()
                &&& r == FAILED && final(files)@ == old(files)@
            }
        }),
{
    match vfs::seek(files, task, fd, offset, whence) {
        Ok(p) => p,
        Err(_) => FAILED,
    }
}

/// How a read or a write goes on: it is over, or it is to be tried again once
/// something has happened, or it is one on the console.
#[derive(Debug, Clone, Copy, PartialEq, Eq, Structural)]
pub enum Transfer {
    Value(u64),
    WaitInput,
    WaitPipe { done: u64 },
    Console,
}

/// How a read goes on.
pub open spec fn read_transfer(r: Result<Reading, VfsError>) -> Transfer {
    match r {
        Ok(Reading::Bytes(n)) => Transfer::Value(n as u64),
        Ok(Reading::WaitInput) => Transfer::WaitInput,
        Ok(Reading::WaitPipe) => Transfer::WaitPipe { done: 0 },
        Err(_) => Transfer::Value(FAILED),
    }
}

/// How a write goes on.
pub open spec fn write_transfer(r: Result<Writing, VfsError>) -> Transfer {
    match r {
        Ok(Writing::Bytes(n)) => Transfer::Value(n as u64),
        Ok(Writing::WaitPipe(n)) => Transfer::WaitPipe { done: n as u64 },
        Ok(Writing::Console) => Transfer::Console,
        Err(_) => Transfer::Value(FAILED),
    }
}

fn read_transfer_of(r: Result<Reading, VfsError>) -> (t: Transfer)
    ensures
        t == read_transfer(r),
{
    match r {
        Ok(Reading::Bytes(n)) => Transfer::Value(n as u64),
        Ok(Reading::WaitInput) => Transfer::WaitInput,
        Ok(Reading::WaitPipe) => Transfer::WaitPipe { done: 0 },
        Err(_) => Transfer::Value(FAILED),
    }
}

fn write_transfer_of(r: Result<Writing, VfsError>) -> (t: Transfer)
    ensures
        t == write_transfer(r),
{
    match r {
        Ok(Writing::Bytes(n)) => Transfer::Value(n as u64),
        Ok(Writing::WaitPipe(n)) => Transfer::WaitPipe { done: n as u64 },
        Ok(Writing::Console) => Transfer::Console,
        Err(_) => Transfer::Value(FAILED),
    }
}

/// Serves a read call into a buffer that then goes to the caller's memory.
pub fn read_call<D: BlockDevice>(
    files: &mut FileSystem<D>,
    console: &mut ConsoleInput,
    stack: &NetworkStack,
    s: &mut SocketSet<'static>,
    task: u32,
    fd: u32,
    buf: &mut [u8],
) -> (r: Transfer)
    requires
        old(files).wf(),
        old(console).wf(),
        stack_ok(stack@, *old(s)),
        tcp_behind(old(files)@, net(stack@, *old(s)), task, fd),
    ensures
        frame(*old(files), *final(files)),
        final(console).wf(),
        stack_ok(stack@, *final(s)),
        final(buf)@.len() == old(buf)@.len(),
        exists|x: Result<Reading, VfsError>|
            {
                &&& r == #[trigger] read_transfer(x)
                &&& read_through(
                    old(files).reliable(),
                    (ReadState {
                        files: old(files)@,
                        console: old(console)@,
                        net: net(stack@, *old(s)),
                        buf: old(buf)@,
                    }),
                    task,
                    fd,
                    (ReadState {
                        files: final(files)@,
                        console: final(console)@,
                        net: net(stack@, *final(s)),
                        buf: final(buf)@,
                    }),
                    x,
                )
            },
{
    read_transfer_of(vfs::net::read(files, console, stack, s, task, fd, buf))
}

/// Serves a write call, `done` bytes of which have been written before.
pub fn write_call<D: BlockDevice>(
    files: &mut FileSystem<D>,
    stack: &NetworkStack,
    s: &mut SocketSet<'static>,
    task: u32,
    fd: u32,
    buf: &[u8],
    done: usize,
    now: u32,
) -> (r: Transfer)
    requires
        old(files).wf(),
        done <= buf@.len(),
        stack_ok(stack@, *old(s)),
        tcp_behind(old(files)@, net(stack@, *old(s)), task, fd),
    ensures
        frame(*old(files), *final(files)),
        stack_ok(stack@, *final(s)),
        exists|x: Result<Writing, VfsError>|
            {
                &&& r == #[trigger] write_transfer(x)
                &&& write_through(
                    old(files).reliable(),
                    old(files)@,
                    net(stack@, *old(s)),
                    task,
                    fd,
                    buf@,
                    done as int,
                    now,
                    final(files)@,
                    net(stack@, *final(s)),
                    x,
                )
            },
{
    write_transfer_of(vfs::net::write(files, stack, s, task, fd, buf, done, now))
}

} // verus!
