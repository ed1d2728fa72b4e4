//! Reading, writing and closing descriptors where sockets may be behind them.

use super::{
    add_file_s, close_s, creds_of, ends_released, file_s, frame, get_file, on_disk, open_inode_s,
    open_pos_s, open_s, pipe_s, read_done, read_s, seek_s, sockets_behind, vfs_device_failed,
    write_s, FileSystem, FilesView, ReadStep, WriteStep,
};
use crate::driver::block::BlockDevice;
use crate::driver::console::{ConsoleInput, ConsoleView};
use crate::fs::fds::{
    handle, in_order, standard_table, FileType, OpenFile, OpenFlags, SeekWhence, VfsError,
};
use crate::fs::vfs;
use crate::net::model::{
    destroyed_all_s, destroyed_s, known, lemma_destroyed_keeps, net, received_s, sent_s,
    tcp_if_known, NetView,
};
use crate::net::stack::{stack_ok, NetworkStack, StackView};
use smoltcp::iface::SocketSet;
use vstd::prelude::*;

verus! {

/// The socket behind a descriptor.
pub open spec fn socket_behind(f: FilesView, task: u32, fd: u32) -> Option<u32> {
    match file_s(f, task, fd) {
        Ok(file) => match file.file_type {
            FileType::Socket(id) => Some(id),
            _ => None,
        },
        Err(_) => None,
    }
}

/// A descriptor is not one of a UDP socket.
pub open spec fn tcp_behind(f: FilesView, n: NetView, task: u32, fd: u32) -> bool {
    socket_behind(f, task, fd) matches Some(id) ==> tcp_if_known(n, id)
}

/// All descriptors of sockets are of TCP sockets, and of such as there were.
pub open spec fn descriptors_ok(f: FilesView, n: NetView) -> bool {
    forall|task: u32, fd: u32|
        (#[trigger] socket_behind(f, task, fd)) matches Some(id) ==> id < n.stack.next
            && tcp_if_known(n, id)
}

/// The socket behind a descriptor, if it is one.
pub fn get_socket_id<D: BlockDevice>(files: &FileSystem<D>, task: u32, fd: u32) -> (r: Option<u32>)
    ensures
        r == socket_behind(files@, task, fd),
{
    match get_file(files, task, fd) {
        Ok(file) => match file.file_type {
            FileType::Socket(id) => Some(id),
            _ => None,
        },
        Err(_) => None,
    }
}

/// What a read came to: bytes were read, or there is nothing yet, and the caller is to
/// wait for keyboard input or for a writer of the pipe.
#[derive(Debug, Clone, Copy, PartialEq, Eq, Structural)]
pub enum Reading {
    Bytes(usize),
    WaitInput,
    WaitPipe,
}

/// What a write came to: bytes were written; or the pipe is full after `n` bytes in
/// all, and the caller is to wait and go on from there; or the bytes are for the
/// console.
#[derive(Debug, Clone, Copy, PartialEq, Eq, Structural)]
pub enum Writing {
    Bytes(usize),
    WaitPipe(usize),
    Console,
}

/// A read that was not one of a socket came to this.
pub open spec fn reads_as(x: Result<ReadStep, VfsError>, r: Result<Reading, VfsError>) -> bool {
    match x {
        Ok(ReadStep::Bytes(n)) => r == Ok::<Reading, VfsError>(Reading::Bytes(n)),
        Ok(ReadStep::WaitInput) => r == Ok::<Reading, VfsError>(Reading::WaitInput),
        Ok(ReadStep::WaitPipe) => r == Ok::<Reading, VfsError>(Reading::WaitPipe),
        Ok(ReadStep::Socket(_)) => false,
        Err(e) => r == Err::<Reading, VfsError>(e),
    }
}

/// A write that was not one to a socket came to this.
pub open spec fn writes_as(x: Result<WriteStep, VfsError>, r: Result<Writing, VfsError>) -> bool {
    match x {
        Ok(WriteStep::Bytes(n)) => r == Ok::<Writing, VfsError>(Writing::Bytes(n)),
        Ok(WriteStep::WaitPipe(n)) => r == Ok::<Writing, VfsError>(Writing::WaitPipe(n)),
        Ok(WriteStep::Console) => r == Ok::<Writing, VfsError>(Writing::Console),
        Ok(WriteStep::Socket(_)) => false,
        Err(e) => r == Err::<Writing, VfsError>(e),
    }
}

/// Everything that a read can change.
#[verifier::ext_equal]
pub struct ReadState {
    pub files: FilesView,
    pub console: ConsoleView,
    pub net: NetView,
    pub buf: Seq<u8>,
}

/// How a read ends. One of a socket gives what was received; an error of the stack is
/// an invalid operation.
pub open spec fn read_through(
    reliable: bool,
    a: ReadState,
    task: u32,
    fd: u32,
    b: ReadState,
    r: Result<Reading, VfsError>,
) -> bool {
    match read_s(a.files, a.console, task, fd, a.buf.len()).0 {
        Ok(ReadStep::Socket(id)) => {
            let (k, n, buf) = received_s(a.net, id, a.buf);
            &&& b == (ReadState { net: n, buf, ..a })
            &&& r == (match k {
                Some(k) => Ok::<Reading, VfsError>(Reading::Bytes(k as usize)),
                None => Err(VfsError::InvalidOperation),
            })
        },
        _ => {
            &&& b.net == a.net
            &&& exists|x: Result<ReadStep, VfsError>|
                {
                    &&& #[trigger] reads_as(x, r)
                    &&& read_done(
                        reliable,
                        x,
                        b.files,
                        b.console,
                        b.buf,
                        (a.files, a.console, a.buf),
                        task,
                        fd,
                    )
                }
        },
    }
}

/// Reads from a file descriptor.
pub fn read<D: BlockDevice>(
    files: &mut FileSystem<D>,
    console: &mut ConsoleInput,
    stack: &NetworkStack,
    s: &mut SocketSet<'static>,
    task: u32,
    fd: u32,
    buf: &mut [u8],
) -> (r: Result<Reading, VfsError>)
    requires
        old(files).wf(),
        old(console).wf(),
        stack_ok(stack@, *old(s)),
        tcp_behind(old(files)@, net(stack@, *old(s)), task, fd),
    ensures
        frame(*old(files), *final(files)),
        final(console).wf(),
        stack_ok(stack@, *final(s)),
        final(buf)@.len() == old(buf)@.len(),
        read_through(
            old(files).reliable(),
            (ReadState {
                files: old(files)@,
                console: old(console)@,
                net: net(stack@, *old(s)),
                buf: old(buf)@,
            }),
            task,
            fd,
            (ReadState {
                files: final(files)@,
                console: final(console)@,
                net: net(stack@, *final(s)),
                buf: final(buf)@,
            }),
            r,
        ),
{
    let x = vfs::read(files, console, task, fd, buf);
    match x {
        Ok(ReadStep::Socket(id)) => {
            assert(crate::bytes::patch(old(buf)@, 0, Seq::<u8>::empty()) =~= old(buf)@);
            assert(buf@ =~= old(buf)@);
            match stack.tcp_recv(s, id, buf) {
                Ok(n) => Ok(Reading::Bytes(n)),
                Err(_) => Err(VfsError::InvalidOperation),
            }
        },
        Ok(ReadStep::Bytes(n)) => {
            let r = Ok(Reading::Bytes(n));
            assert(reads_as(x, r));
            r
        },
        Ok(ReadStep::WaitInput) => {
            let r = Ok(Reading::WaitInput);
            assert(reads_as(x, r));
            r
        },
        Ok(ReadStep::WaitPipe) => {
            let r = Ok(Reading::WaitPipe);
            assert(reads_as(x, r));
            r
        },
        Err(e) => {
            let r = Err(e);
            assert(reads_as(x, r));
            r
        },
    }
}

/// How a write ends. One to a socket queues what there is room for; an error of the
/// stack is an invalid operation.
pub open spec fn write_through(
    reliable: bool,
    f0: FilesView,
    n0: NetView,
    task: u32,
    fd: u32,
    data: Seq<u8>,
    done: int,
    now: u32,
    f1: FilesView,
    n1: NetView,
    r: Result<Writing, VfsError>,
) -> bool {
    let (want, f) = write_s(f0, task, fd, data, done, now);
    match want {
        Ok(WriteStep::Socket(id)) => {
            let (k, n) = sent_s(n0, id, data);
            &&& f1 == f0
            &&& n1 == n
            &&& r == (match k {
                Some(k) => Ok::<Writing, VfsError>(Writing::Bytes(k as usize)),
                None => Err(VfsError::InvalidOperation),
            })
        },
        _ => {
            &&& n1 == n0
            &&& {
                ||| writes_as(want, r) && f1 == f
                ||| {
                    &&& on_disk(f0, task, fd) && !reliable
                    &&& r is Err && vfs_device_failed(r->Err_0)
                    &&& f1 == (FilesView { fs: f1.fs, ..f0 })
                }
            }
        },
    }
}

/// Writes to a file descriptor. For a pipe, `done` bytes of `buf` were written by
/// earlier calls; a first call passes 0.
pub fn write<D: BlockDevice>(
    files: &mut FileSystem<D>,
    stack: &NetworkStack,
    s: &mut SocketSet<'static>,
    task: u32,
    fd: u32,
    buf: &[u8],
    done: usize,
    now: u32,
) -> (r: Result<Writing, VfsError>)
    requires
        old(files).wf(),
        done <= buf@.len(),
        stack_ok(stack@, *old(s)),
        tcp_behind(old(files)@, net(stack@, *old(s)), task, fd),
    ensures
        frame(*old(files), *final(files)),
        stack_ok(stack@, *final(s)),
        write_through(
            old(files).reliable(),
            old(files)@,
            net(stack@, *old(s)),
            task,
            fd,
            buf@,
            done as int,
            now,
            final(files)@,
            net(stack@, *final(s)),
            r,
        ),
{
    match vfs::write(files, task, fd, buf, done, now) {
        Ok(WriteStep::Socket(id)) => match stack.tcp_send(s, id, buf) {
            Ok(n) => Ok(Writing::Bytes(n)),
            Err(_) => Err(VfsError::InvalidOperation),
        },
        Ok(WriteStep::Bytes(n)) => Ok(Writing::Bytes(n)),
        Ok(WriteStep::WaitPipe(n)) => Ok(Writing::WaitPipe(n)),
        Ok(WriteStep::Console) => Ok(Writing::Console),
        Err(e) => Err(e),
    }
}

/// Closing a descriptor. A socket behind it is destroyed.
pub open spec fn close_through_s(f: FilesView, n: NetView, task: u32, fd: u32) -> (
    Result<(), VfsError>,
    FilesView,
    NetView,
) {
    let (x, f1) = close_s(f, task, fd);
    match x {
        Ok(Some(id)) => (Ok(()), f1, destroyed_s(n, id)),
        Ok(None) => (Ok(()), f1, n),
        Err(e) => (Err(e), f1, n),
    }
}

/// Closes a file descriptor, and destroys the socket behind it, if there is one.
pub fn close<D: BlockDevice>(
    files: &mut FileSystem<D>,
    stack: &mut NetworkStack,
    s: &mut SocketSet<'static>,
    task: u32,
    fd: u32,
) -> (r: Result<(), VfsError>)
    requires
        old(files).wf(),
        stack_ok(old(stack)@, *old(s)),
        tcp_behind(old(files)@, net(old(stack)@, *old(s)), task, fd),
    ensures
        frame(*old(files), *final(files)),
        stack_ok(final(stack)@, *final(s)),
        (r, final(files)@, net(final(stack)@, *final(s))) == close_through_s(
            old(files)@,
            net(old(stack)@, *old(s)),
            task,
            fd,
        ),
{
    match vfs::close(files, task, fd) {
        Ok(Some(id)) => {
            stack.tcp_destroy(s, id);
            assert(net(stack@, *s) =~= destroyed_s(net(old(stack)@, *old(s)), id));
            Ok(())
        },
        Ok(None) => Ok(()),
        Err(e) => Err(e),
    }
}

/// Destroys sockets in turn.
fn destroy_all(stack: &mut NetworkStack, s: &mut SocketSet<'static>, ids: &Vec<u32>)
    requires
        stack_ok(old(stack)@, *old(s)),
        forall|k: int|
            0 <= k < ids@.len() ==> tcp_if_known(
                net(old(stack)@, *old(s)),
                #[trigger] ids@[k],
            ),
    ensures
        stack_ok(final(stack)@, *final(s)),
        net(final(stack)@, *final(s)) == destroyed_all_s(net(old(stack)@, *old(s)), ids@),
        final(stack)@.next == old(stack)@.next,
        forall|id: u32| #[trigger]
            tcp_if_known(net(old(stack)@, *old(s)), id) ==> tcp_if_known(
                net(final(stack)@, *final(s)),
                id,
            ),
{
    let ghost n0 = net(stack@, *s);
    let mut i: usize = 0;
    assert(ids@.take(0) =~= Seq::<u32>::empty());
    while i < ids.len()
        invariant
            i <= ids@.len(),
            stack_ok(stack@, *s),
            net(stack@, *s) == destroyed_all_s(n0, ids@.take(i as int)),
            forall|k: int| 0 <= k < ids@.len() ==> tcp_if_known(n0, #[trigger] ids@[k]),
            stack@.next == n0.stack.next,
            forall|id: u32| #[trigger]
                tcp_if_known(n0, id) ==> tcp_if_known(net(stack@, *s), id),
        decreases ids@.len() - i,
    {
        let id: u32 = ids[i];
        let ghost v = stack@;
        let ghost s0 = *s;
        assert(tcp_if_known(n0, ids@[i as int]));
        stack.tcp_destroy(s, id);
        proof {
            assert(net(stack@, *s) =~= destroyed_s(net(v, s0), id));
            assert(ids@.take(i + 1).drop_last() =~= ids@.take(i as int));
            assert forall|other: u32| #[trigger] tcp_if_known(n0, other) implies tcp_if_known(
                net(stack@, *s),
                other,
            ) by {
                lemma_destroyed_keeps(v, s0, id, other);
            }
        }
        i = i + 1;
    }
    assert(ids@.take(ids@.len() as int) =~= ids@);
}

/// The sockets behind descriptors are behind one of them.
proof fn lemma_sockets_behind(f: FilesView, task: u32, fds: Seq<u32>, k: int) -> (fd: u32)
    requires
        f.tables.contains_key(task),
        forall|j: int| 0 <= j < fds.len() ==> f.tables[task].files.contains_key(#[trigger] fds[j]),
        0 <= k < sockets_behind(f.tables[task].files, fds).len(),
    ensures
        socket_behind(f, task, fd) == Some(sockets_behind(f.tables[task].files, fds)[k]),
    decreases fds.len(),
{
    let files = f.tables[task].files;
    let before = sockets_behind(files, fds.drop_last());
    if k < before.len() {
        assert forall|j: int| 0 <= j < fds.drop_last().len() implies files.contains_key(
            #[trigger] fds.drop_last()[j],
        ) by {
            assert(files.contains_key(fds[j]));
        }
        lemma_sockets_behind(f, task, fds.drop_last(), k)
    } else {
        assert(files.contains_key(fds[fds.len() - 1]));
        fds.last()
    }
}

/// Forgets a task that has ended: its descriptors are closed, its pipe ends and
/// credentials released, and the sockets that it still had open destroyed.
pub fn cleanup_task_fds<D: BlockDevice>(
    files: &mut FileSystem<D>,
    stack: &mut NetworkStack,
    s: &mut SocketSet<'static>,
    task: u32,
)
    requires
        old(files).wf(),
        stack_ok(old(stack)@, *old(s)),
        forall|fd: u32| #[trigger] tcp_behind(old(files)@, net(old(stack)@, *old(s)), task, fd),
    ensures
        frame(*old(files), *final(files)),
        stack_ok(final(stack)@, *final(s)),
        final(files)@.tables == old(files)@.tables.remove(task),
        final(files)@.creds == old(files)@.creds.remove(task),
        final(files)@.fs == old(files)@.fs,
        final(files)@.next_pipe == old(files)@.next_pipe,
        !old(files)@.tables.contains_key(task) ==> final(files)@.pipes == old(files)@.pipes && net(
            final(stack)@,
            *final(s),
        ) == net(old(stack)@, *old(s)),
        old(files)@.tables.contains_key(task) ==> exists|fds: Seq<u32>|
            #![trigger in_order(fds, old(files)@.tables[task].files)]
            {
                let open = old(files)@.tables[task].files;
                &&& in_order(fds, open)
                &&& final(files)@.pipes == ends_released(old(files)@.pipes, open, fds)
                &&& net(final(stack)@, *final(s)) == destroyed_all_s(
                    net(old(stack)@, *old(s)),
                    sockets_behind(open, fds),
                )
            },
        descriptors_ok(old(files)@, net(old(stack)@, *old(s))) ==> descriptors_ok(
            final(files)@,
            net(final(stack)@, *final(s)),
        ),
{
    let ids = vfs::cleanup_task_fds(files, task);
    let ghost n0 = net(stack@, *s);
    proof {
        let f = old(files)@;
        assert forall|k: int| 0 <= k < ids@.len() implies tcp_if_known(n0, #[trigger] ids@[k]) by {
            let open = f.tables[task].files;
            let fds = choose|fds: Seq<u32>|
                #![trigger in_order(fds, open)]
                in_order(fds, open) && ids@ == sockets_behind(open, fds);
            assert forall|j: int| 0 <= j < fds.len() implies open.contains_key(
                #[trigger] fds[j],
            ) by {
                assert(fds.to_set().contains(fds[j]));
            }
            let fd = lemma_sockets_behind(f, task, fds, k);
            assert(tcp_behind(f, n0, task, fd));
        }
    }
    destroy_all(stack, s, &ids);
    proof {
        let f = old(files)@;
        let g = files@;
        let n = net(stack@, *s);
        if descriptors_ok(f, n0) {
            assert forall|t: u32, d: u32|
                (#[trigger] socket_behind(g, t, d)) is Some implies socket_behind(g, t, d)->Some_0
                < n.stack.next && tcp_if_known(n, socket_behind(g, t, d)->Some_0) by {
                assert(socket_behind(f, t, d) == socket_behind(g, t, d));
                assert(tcp_if_known(n0, socket_behind(f, t, d)->Some_0));
            }
        }
    }
}

/// A descriptor that was closed is one no more, the socket behind it is gone, and all
/// other descriptors are in order.
pub proof fn law_close_destroys_the_socket(
    f: FilesView,
    v: StackView,
    s: SocketSet<'static>,
    task: u32,
    fd: u32,
)
    requires
        stack_ok(v, s),
        descriptors_ok(f, net(v, s)),
    ensures
        ({
            let (r, f1, n1) = close_through_s(f, net(v, s), task, fd);
            &&& socket_behind(f1, task, fd) is None
            &&& socket_behind(f, task, fd) matches Some(id) ==> !known(n1, id)
            &&& descriptors_ok(f1, n1)
        }),
{
    let n = net(v, s);
    let (r, f1, n1) = close_through_s(f, n, task, fd);
    assert forall|t: u32, d: u32|
        (#[trigger] socket_behind(f1, t, d)) is Some implies socket_behind(f1, t, d)->Some_0
        < n1.stack.next && tcp_if_known(n1, socket_behind(f1, t, d)->Some_0) by {
        let id = socket_behind(f1, t, d)->Some_0;
        assert(socket_behind(f, t, d) == Some(id));
        if let Some(gone) = socket_behind(f, task, fd) {
            lemma_destroyed_keeps(v, s, gone, id);
        }
    }
}

/// An open file that is no socket leaves descriptors in order.
proof fn lemma_added(f: FilesView, n: NetView, task: u32, file: OpenFile)
    requires
        descriptors_ok(f, n),
        !(file.file_type is Socket),
    ensures
        descriptors_ok(add_file_s(f, task, file).1, n),
{
    let f1 = add_file_s(f, task, file).1;
    assert forall|t: u32, d: u32| (#[trigger] socket_behind(f1, t, d)) is Some implies socket_behind(
        f,
        t,
        d,
    ) == socket_behind(f1, t, d) by {}
}

/// Opening, reading, writing, seeking and making pipes leave descriptors of sockets in
/// order.
pub proof fn law_files_keep_descriptors(
    f: FilesView,
    n: NetView,
    con: ConsoleView,
    task: u32,
    fd: u32,
    path: Seq<char>,
    flags: OpenFlags,
    len: nat,
    data: Seq<u8>,
    done: int,
    offset: i64,
    whence: SeekWhence,
    now: u32,
)
    requires
        descriptors_ok(f, n),
    ensures
        descriptors_ok(open_s(f, task, path, flags, now).1, n),
        descriptors_ok(read_s(f, con, task, fd, len).2, n),
        descriptors_ok(write_s(f, task, fd, data, done, now).1, n),
        descriptors_ok(seek_s(f, task, fd, offset, whence).1, n),
        descriptors_ok(pipe_s(f, task).1, n),
{
    let (x, fs) = open_inode_s(f.fs, creds_of(f.creds, task), path, flags, now);
    let g = FilesView { fs, ..f };
    lemma_alike(f, g, n);
    if let Ok(i) = x {
        if let Ok(pos) = open_pos_s(fs, creds_of(f.creds, task), i, flags) {
            lemma_added(g, n, task, OpenFile { file_type: FileType::Regular(i), flags, pos });
        }
    }
    lemma_alike(f, read_s(f, con, task, fd, len).2, n);
    lemma_alike(f, write_s(f, task, fd, data, done, now).1, n);
    lemma_alike(f, seek_s(f, task, fd, offset, whence).1, n);
    let id = f.next_pipe;
    let h = FilesView {
        next_pipe: if id == u64::MAX {
            0
        } else {
            (id + 1) as u64
        },
        ..f
    };
    lemma_alike(f, h, n);
    let a = handle(FileType::Pipe(id, false), true, false);
    lemma_added(h, n, task, a);
    let h1 = add_file_s(h, task, a).1;
    let b = handle(FileType::Pipe(id, true), false, true);
    lemma_added(h1, n, task, b);
    lemma_alike(add_file_s(h1, task, b).1, pipe_s(f, task).1, n);
}

/// Descriptors of the same sockets are in the same order.
proof fn lemma_alike(f: FilesView, g: FilesView, n: NetView)
    requires
        descriptors_ok(f, n),
        forall|t: u32, d: u32| #[trigger] socket_behind(g, t, d) == socket_behind(f, t, d),
    ensures
        descriptors_ok(g, n),
{
}

/// A task that begins has descriptors in order, whether they are new or copies of those
/// of its parent.
pub proof fn law_new_tasks_keep_descriptors(f: FilesView, n: NetView, task: u32, parent: u32)
    requires
        descriptors_ok(f, n),
    ensures
        descriptors_ok(FilesView { tables: f.tables.insert(task, standard_table()), ..f }, n),
        f.tables.contains_key(parent) ==> descriptors_ok(
            FilesView { tables: f.tables.insert(task, f.tables[parent]), ..f },
            n,
        ),
        descriptors_ok(FilesView { tables: f.tables.remove(task), ..f }, n),
{
    let a = FilesView { tables: f.tables.insert(task, standard_table()), ..f };
    assert forall|t: u32, d: u32| (#[trigger] socket_behind(a, t, d)) is Some implies socket_behind(
        f,
        t,
        d,
    ) == socket_behind(a, t, d) by {}
    let b = FilesView { tables: f.tables.insert(task, f.tables[parent]), ..f };
    assert forall|t: u32, d: u32|
        (#[trigger] socket_behind(b, t, d)) is Some && f.tables.contains_key(
            parent,
        ) implies socket_behind(
        f,
        if t == task {
            parent
        } else {
            t
        },
        d,
    ) == socket_behind(b, t, d) by {}
    let c = FilesView { tables: f.tables.remove(task), ..f };
    assert forall|t: u32, d: u32| (#[trigger] socket_behind(c, t, d)) is Some implies socket_behind(
        f,
        t,
        d,
    ) == socket_behind(c, t, d) by {}
}

} // verus!
