//! What the callers of the kernel can rely on.

use super::serve::{served_as, Served};
use super::Call;
use crate::bytes::{le32, lemma_number32, number};
use crate::capability::Slots;
use crate::driver::block::BlockDevice;
use crate::fs::fds::{alloc_fd_s, handle, law_alloc_fd, FileType, SeekWhence};
use crate::fs::nextfs::read_inode_s;
use crate::fs::vfs::{file_s, pipe_s, FileSystem};
use crate::ipc::IpcView;
use crate::net::model::NetView;
use vstd::prelude::*;

verus! {

/// A number that one task sends to an endpoint is what the next task to receive from it
/// gets, if nothing else waits there; the task that waited longest is to be woken. To an
/// endpoint that is not there nothing is sent, and from it nobody receives.
pub proof fn law_numbers_pass_between_tasks<D: BlockDevice>(
    f0: FileSystem<D>,
    f1: FileSystem<D>,
    f2: FileSystem<D>,
    n0: NetView,
    n1: NetView,
    n2: NetView,
    ipc0: IpcView,
    ipc1: IpcView,
    ipc2: IpcView,
    caps: Map<u64, Slots>,
    ticks: u64,
    now: u32,
    sender: u64,
    receiver: u64,
    endpoint: u64,
    tag: u64,
    sent: Served,
    got: Served,
)
    requires
        served_as(
            f0,
            ipc0,
            n0,
            caps,
            sender,
            ticks,
            now,
            Call::IpcSend { endpoint, tag },
            Seq::empty(),
            f1,
            ipc1,
            n1,
            sent,
        ),
        served_as(
            f1,
            ipc1,
            n1,
            caps,
            receiver,
            ticks,
            now,
            Call::IpcRecv { endpoint },
            Seq::empty(),
            f2,
            ipc2,
            n2,
            got,
        ),
        ipc0.endpoints.contains_key(endpoint) ==> ipc0.endpoints[endpoint].queue.len() == 0,
    ensures
        ipc0.endpoints.contains_key(endpoint) ==> got == Served::Value(tag) && ipc2.endpoints[endpoint].queue.len()
            == 0 && sent == (Served::Sent {
            wake: if ipc0.endpoints[endpoint].waiters.len() > 0 {
                Some(ipc0.endpoints[endpoint].waiters[0])
            } else {
                None
            },
        }),
        !ipc0.endpoints.contains_key(endpoint) ==> got == Served::Blocked && ipc2 == ipc0,
        f2@ == f0@,
        n2 == n0,
{
}

/// A pipe call stores two descriptors of four bytes each, low byte first, that were not in
/// use: the first is open for reading and the second for writing the same, empty pipe. The
/// caller's other descriptors stay.
pub proof fn law_pipe_call_gives_both_ends<D: BlockDevice>(
    f0: FileSystem<D>,
    f1: FileSystem<D>,
    n0: NetView,
    n1: NetView,
    ipc0: IpcView,
    ipc1: IpcView,
    caps: Map<u64, Slots>,
    me: u64,
    ticks: u64,
    now: u32,
    out: u64,
    r: Served,
)
    requires
        served_as(
            f0,
            ipc0,
            n0,
            caps,
            me,
            ticks,
            now,
            Call::Pipe { out },
            Seq::empty(),
            f1,
            ipc1,
            n1,
            r,
        ),
        r is Stored && r->Stored_value == 0,
    ensures
        r->at == out,
        r->bytes@.len() == 8,
        ({
            let task = me as u32;
            let a = number(r->bytes@, 0, 4) as u32;
            let b = number(r->bytes@, 4, 4) as u32;
            let before = f0@.tables[task].files;
            let after = f1@.tables[task].files;
            &&& a != b
            &&& !before.contains_key(a) && !before.contains_key(b)
            &&& after.contains_key(a) && after.contains_key(b)
            &&& after[a].file_type matches FileType::Pipe(p, false) && after[b].file_type
                == FileType::Pipe(p, true) && f1@.pipes[p].buf.len() == 0
            &&& after[a].flags.read && !after[a].flags.write
            &&& after[b].flags.write && !after[b].flags.read
            &&& forall|fd: u32|
                before.contains_key(fd) ==> #[trigger] after.contains_key(fd) && after[fd]
                    == before[fd]
        }),
{
    let task = me as u32;
    let (p, f) = pipe_s(f0@, task);
    let (a, b) = p->Ok_0;
    let bytes = r->bytes@;
    assert(p is Ok);
    assert(bytes == le32(a) + le32(b));
    assert(bytes.subrange(0, 4) =~= le32(a));
    assert(bytes.subrange(4, 8) =~= le32(b));
    lemma_number32(bytes, 0, a);
    lemma_number32(bytes, 4, b);
    let t = f0@.tables[task];
    let id = f0@.next_pipe;
    let read_end = handle(FileType::Pipe(id, false), true, false);
    let write_end = handle(FileType::Pipe(id, true), false, true);
    law_alloc_fd(t, read_end);
    law_alloc_fd(alloc_fd_s(t, read_end).1, write_end);
}

/// A seek call returns the place that it leads to: the offset counted from the beginning of
/// the file, from the position, or from its end; and -1 where there is no such place.
pub proof fn law_seek_call_returns_the_place<D: BlockDevice>(
    f0: FileSystem<D>,
    f1: FileSystem<D>,
    n0: NetView,
    n1: NetView,
    ipc0: IpcView,
    ipc1: IpcView,
    caps: Map<u64, Slots>,
    me: u64,
    ticks: u64,
    now: u32,
    fd: u32,
    offset: i64,
    whence: SeekWhence,
    r: Served,
    n: u32,
)
    requires
        served_as(
            f0,
            ipc0,
            n0,
            caps,
            me,
            ticks,
            now,
            Call::Seek { fd, offset, whence },
            Seq::empty(),
            f1,
            ipc1,
            n1,
            r,
        ),
        f0.reliable(),
        f0@.fs is Some,
        file_s(f0@, me as u32, fd) matches Ok(file) && file.file_type == FileType::Regular(n)
            && file.pos <= i64::MAX,
        read_inode_s(f0@.fs->Some_0, n) matches Ok(i) && i.size <= i64::MAX,
    ensures
        ({
            let base = match whence {
                SeekWhence::Start => 0int,
                SeekWhence::Current => file_s(f0@, me as u32, fd)->Ok_0.pos as int,
                SeekWhence::End => read_inode_s(f0@.fs->Some_0, n)->Ok_0.size as int,
            };
            r == Served::Value(
                if 0 <= base + offset <= i64::MAX {
                    (base + offset) as u64
                } else {
                    u64::MAX
                },
            )
        }),
{
}

/// A descriptor that was closed means nothing any more, and the others mean what they did;
/// closing one that means nothing is answered with -1.
pub proof fn law_close_call_ends_a_descriptor<D: BlockDevice>(
    f0: FileSystem<D>,
    f1: FileSystem<D>,
    n0: NetView,
    n1: NetView,
    ipc0: IpcView,
    ipc1: IpcView,
    caps: Map<u64, Slots>,
    me: u64,
    ticks: u64,
    now: u32,
    fd: u32,
    other: u32,
    r: Served,
)
    requires
        served_as(
            f0,
            ipc0,
            n0,
            caps,
            me,
            ticks,
            now,
            Call::Close { fd },
            Seq::empty(),
            f1,
            ipc1,
            n1,
            r,
        ),
    ensures
        r == Served::Value(
            if file_s(f0@, me as u32, fd) is Ok {
                0
            } else {
                u64::MAX
            },
        ),
        file_s(f1@, me as u32, fd) is Err,
        other != fd ==> file_s(f1@, me as u32, other) == file_s(f0@, me as u32, other),
        f1@.fs == f0@.fs,
{
}

} // verus!
