//! Whom new files belong to, and what becomes of data that nobody will read.

use crate::fs::dir_laws::good_name;
use crate::fs::directory::create_file_s;
use crate::fs::fds::{Credentials, FileType, PipeView, VfsError};
use crate::fs::laws::law_inode_reads_back;
use crate::fs::metadata::{chown_s, stat_s, FileStat};
use crate::fs::nextfs::{write_inode_s, FsError, FsView};
use crate::fs::ondisk::InodeView;
use crate::fs::path::{name_of, parent_of};
use crate::fs::vfs::{create_s, file_s, resolve_s, write_s, FilesView, WriteStep};
use crate::fs::volume_laws::{law_create_file_keeps_order, node, node_ok, sound};
use vstd::prelude::*;

verus! {

/// A file that is made on the way to opening it is empty, belongs to the user and the group
/// that made it, may be read by everyone but written only by its owner, and is dated then.
pub proof fn law_new_files_belong_to_their_maker(
    v: FsView,
    c: Credentials,
    path: Seq<char>,
    now: u32,
)
    requires
        sound(v),
        good_name(name_of(path)),
        create_s(Some(v), c, path, now).0 is Ok,
    ensures
        ({
            let (r, fs) = create_s(Some(v), c, path, now);
            let n = r->Ok_0;
            &&& fs is Some
            &&& stat_s(fs->Some_0, n) == Ok::<FileStat, FsError>(
                FileStat {
                    inode: n,
                    inode_type: 1,
                    mode: (6 * 64 + 4 * 8 + 4) as u16,
                    uid: c.uid,
                    gid: c.gid,
                    size: 0,
                    mtime: now,
                },
            )
        }),
{
    let p = resolve_s(Some(v), parent_of(path))->Ok_0;
    let (r, v1) = create_file_s(v, p, name_of(path), now);
    let n = r->Ok_0;
    law_create_file_keeps_order(v, p, name_of(path), now);
    assert(node_ok(v1, n));
    let i = node(v1, n);
    let j = InodeView { uid: c.uid, gid: c.gid, mtime: now, ..i };
    assert(chown_s(v1, n, c.uid, c.gid, now) == write_inode_s(v1, n, j));
    assert(chown_s(v1, n, c.uid, c.gid, now).0 is Ok);
    law_inode_reads_back(v1, n, j, n);
}

/// Data cannot be written to a pipe that nobody reads: the write fails, unless part of it
/// went in before, which is then what it comes to. Nothing goes into the pipe.
pub proof fn law_pipes_need_a_reader(
    f: FilesView,
    task: u32,
    fd: u32,
    id: u64,
    data: Seq<u8>,
    done: int,
    now: u32,
)
    requires
        file_s(f, task, fd) matches Ok(file) && file.file_type == FileType::Pipe(id, true)
            && file.flags.write,
        f.pipes.contains_key(id) ==> f.pipes[id].read_ends == 0,
        0 <= done < data.len(),
        data.len() <= usize::MAX,
    ensures
        write_s(f, task, fd, data, done, now).1.pipes == f.pipes,
        done == 0 ==> write_s(f, task, fd, data, done, now).0 is Err,
        done > 0 ==> write_s(f, task, fd, data, done, now).0 == Ok::<WriteStep, VfsError>(
            WriteStep::Bytes(done as usize),
        ),
{
}

/// A pipe holds 4096 bytes. What is written to it goes in behind what is there, as much as
/// it then has room for; a write that went in whole is done, and one that did not waits.
pub proof fn law_pipes_hold_a_page(
    f: FilesView,
    task: u32,
    fd: u32,
    id: u64,
    data: Seq<u8>,
    done: int,
    now: u32,
)
    requires
        file_s(f, task, fd) matches Ok(file) && file.file_type == FileType::Pipe(id, true)
            && file.flags.write,
        f.pipes.contains_key(id),
        f.pipes[id].read_ends > 0,
        f.pipes[id].buf.len() <= 4096,
        0 <= done <= data.len(),
        data.len() <= usize::MAX,
    ensures
        ({
            let p = f.pipes[id];
            let (r, f1) = write_s(f, task, fd, data, done, now);
            let p1 = f1.pipes[id];
            let k = p1.buf.len() - p.buf.len();
            &&& 0 <= k <= data.len() - done
            &&& p1 == (PipeView { buf: p.buf + data.subrange(done, done + k), ..p })
            &&& p1.buf.len() <= 4096
            &&& done + k == data.len() ==> r == Ok::<WriteStep, VfsError>(
                WriteStep::Bytes(data.len() as usize),
            )
            &&& done + k < data.len() ==> p1.buf.len() == 4096 && r == Ok::<WriteStep, VfsError>(
                WriteStep::WaitPipe((done + k) as usize),
            )
            &&& forall|other: u64| other != id ==> #[trigger] f1.pipes[other] == f.pipes[other]
        }),
{
}

} // verus!
