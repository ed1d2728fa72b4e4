//! Laws of the file-descriptor layer.

use crate::driver::console::ConsoleView;
use crate::fs::data_laws::{file_sound, law_write_then_read, max_blocks};
use crate::fs::fds::{FileType, SeekWhence, VfsError, PipeView, PIPE_CAPACITY};
use crate::fs::laws::volume_ok;
use crate::fs::nextfs::{read_inode_s, FsView};
use crate::fs::vfs::{
    chmod_path_s, chown_path_s, close_s, creds_of, dir_write_s, file_s, mkdir_path_s, open_s,
    pipe_end_closed, pipe_end_opened, read_s, resolve_s, rmdir_path_s, seek_s, unlink_path_s,
    write_s, FilesView, ReadStep, WriteStep,
};
use crate::fs::ondisk::inode_shaped;
use crate::fs::path::parent_of;
use vstd::prelude::*;

verus! {

/// A pipe hands its bytes on in the order they were written: bytes that fit
/// into the pipe and were written are read behind those that it held before.
pub proof fn law_pipe_is_first_in_first_out(
    f: FilesView,
    con: ConsoleView,
    writer: u32,
    wfd: u32,
    reader: u32,
    rfd: u32,
    id: u64,
    data: Seq<u8>,
    now: u32,
)
    requires
        file_s(f, writer, wfd) matches Ok(w) && w.flags.write && w.file_type == FileType::Pipe(
            id,
            true,
        ),
        file_s(f, reader, rfd) matches Ok(r) && r.flags.read && r.file_type == FileType::Pipe(
            id,
            false,
        ),
        f.pipes.contains_key(id),
        f.pipes[id].read_ends > 0,
        f.pipes[id].buf.len() + data.len() <= PIPE_CAPACITY,
        data.len() > 0,
    ensures
        ({
            let (w, f1) = write_s(f, writer, wfd, data, 0, now);
            let all = f.pipes[id].buf + data;
            let (r, got, f2, con2) = read_s(f1, con, reader, rfd, all.len());
            &&& w == Ok::<WriteStep, VfsError>(WriteStep::Bytes(data.len() as usize))
            &&& r == Ok::<ReadStep, VfsError>(ReadStep::Bytes(all.len() as usize))
            &&& got == all
            &&& f2.pipes[id].buf.len() == 0
        }),
{
    let all = f.pipes[id].buf + data;
    assert(data.subrange(0, data.len() as int) =~= data);
    assert(all.subrange(0, all.len() as int) =~= all);
}

/// A pipe that is empty and has no writer left gives end of file, and one that
/// still has a writer makes the reader wait.
pub proof fn law_pipe_end_of_file(
    f: FilesView,
    con: ConsoleView,
    reader: u32,
    rfd: u32,
    id: u64,
    len: nat,
)
    requires
        file_s(f, reader, rfd) matches Ok(r) && r.flags.read && r.file_type == FileType::Pipe(
            id,
            false,
        ),
        f.pipes.contains_key(id) ==> f.pipes[id].buf.len() == 0,
    ensures
        ({
            let step = read_s(f, con, reader, rfd, len).0;
            if f.pipes.contains_key(id) && f.pipes[id].write_ends > 0 {
                step == Ok::<ReadStep, VfsError>(ReadStep::WaitPipe)
            } else {
                step == Ok::<ReadStep, VfsError>(ReadStep::Bytes(0))
            }
        }),
{
}

/// Closing an end that was opened once more leaves the pipes as they were.
pub proof fn law_close_undoes_dup(pipes: Map<u64, PipeView>, id: u64, is_write: bool)
    requires
        pipes.contains_key(id) ==> {
            &&& pipes[id].read_ends > 0 || pipes[id].write_ends > 0
            &&& pipes[id].read_ends < u32::MAX
            &&& pipes[id].write_ends < u32::MAX
        },
    ensures
        pipe_end_closed(pipe_end_opened(pipes, id, is_write), id, is_write) == pipes,
{
    assert(pipe_end_closed(pipe_end_opened(pipes, id, is_write), id, is_write) =~= pipes);
}

/// A descriptor that `open` returned can be closed once, and not twice; closing
/// it leaves the other open files of the task as they were.
pub proof fn law_open_then_close(
    f: FilesView,
    task: u32,
    path: Seq<char>,
    flags: crate::fs::fds::OpenFlags,
    now: u32,
)
    requires
        open_s(f, task, path, flags, now).0 is Ok,
    ensures
        ({
            let (r, f1) = open_s(f, task, path, flags, now);
            let fd = r->Ok_0;
            let (c, f2) = close_s(f1, task, fd);
            &&& c == Ok::<Option<u32>, VfsError>(None)
            &&& f2.tables[task].files == f.tables[task].files
            &&& close_s(f2, task, fd).0 == Err::<Option<u32>, VfsError>(
                VfsError::BadFileDescriptor,
            )
        }),
{
    let (r, f1) = open_s(f, task, path, flags, now);
    let fd = r->Ok_0;
    let file = f1.tables[task].files[fd];
    crate::fs::fds::law_alloc_fd(f.tables[task], file);
    assert(f.tables[task].files.insert(fd, file).remove(fd) =~= f.tables[task].files);
}

/// Without permission to write to a directory, a task changes nothing in it.
pub proof fn law_directory_is_protected(f: FilesView, task: u32, path: Seq<char>, now: u32)
    requires
        resolve_s(f.fs, parent_of(path)) matches Ok(d) && dir_write_s(
            f.fs,
            creds_of(f.creds, task),
            d,
        ) == Err::<(), VfsError>(VfsError::PermissionDenied),
    ensures
        unlink_path_s(f, task, path, now) == (Err::<(), VfsError>(VfsError::PermissionDenied), f),
        rmdir_path_s(f, task, path) == (Err::<(), VfsError>(VfsError::PermissionDenied), f),
        mkdir_path_s(f, task, path, now) == (Err::<(), VfsError>(VfsError::PermissionDenied), f),
{
}

/// Only the superuser changes the owner of a file, and only its owner or the
/// superuser its mode.
pub proof fn law_ownership(
    f: FilesView,
    task: u32,
    path: Seq<char>,
    mode: u16,
    uid: u16,
    gid: u16,
    now: u32,
)
    requires
        creds_of(f.creds, task).uid != 0,
    ensures
        chown_path_s(f, task, path, uid, gid, now).0 is Err,
        chown_path_s(f, task, path, uid, gid, now).1 == f,
        chmod_path_s(f, task, path, mode, now).0 is Ok ==> {
            let n = resolve_s(f.fs, path)->Ok_0;
            let st = crate::fs::metadata::stat_s(f.fs->Some_0, n);
            st is Ok && st->Ok_0.uid == creds_of(f.creds, task).uid
        },
{
}

/// What was written through a descriptor of a regular file is read through it
/// after seeking back to where the write began.
pub proof fn law_write_seek_read(
    f: FilesView,
    v: FsView,
    con: ConsoleView,
    task: u32,
    fd: u32,
    data: Seq<u8>,
    now: u32,
)
    requires
        f.fs == Some(v),
        volume_ok(v),
        data.len() <= usize::MAX,
        file_s(f, task, fd) matches Ok(file) && file.flags.read && file.flags.write
            && file.file_type is Regular && file.pos <= 512 * max_blocks(),
        ({
            let n = file_s(f, task, fd)->Ok_0.file_type->Regular_0;
            read_inode_s(v, n) matches Ok(i) && file_sound(v, i) && inode_shaped(i) && i.inode_type
                == 1 && i.size <= 512 * max_blocks()
        }),
        write_s(f, task, fd, data, 0, now).0 is Ok,
    ensures
        ({
            let pos = file_s(f, task, fd)->Ok_0.pos;
            let (w, f1) = write_s(f, task, fd, data, 0, now);
            let (s, f2) = seek_s(f1, task, fd, pos as i64, SeekWhence::Start);
            let (r, got, f3, con3) = read_s(f2, con, task, fd, data.len());
            &&& w == Ok::<WriteStep, VfsError>(WriteStep::Bytes(data.len() as usize))
            &&& s == Ok::<u64, VfsError>(pos)
            &&& r == Ok::<ReadStep, VfsError>(ReadStep::Bytes(data.len() as usize))
            &&& got == data
        }),
{
    let file = file_s(f, task, fd)->Ok_0;
    let n = file.file_type->Regular_0;
    let i = read_inode_s(v, n)->Ok_0;
    law_write_then_read(v, n, i, file.pos, data, now, 0, 0);
}

} // verus!
