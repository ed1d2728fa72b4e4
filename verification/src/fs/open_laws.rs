//! What descriptors of files are for: where they start, how they move, and what is read
//! and written through them.

use crate::driver::console::ConsoleView;
use crate::fs::data_laws::{
    file_byte, file_sound, law_write_then_read, lemma_read_span, lemma_write_saved, max_blocks,
};
use crate::fs::fds::{FileType, OpenFlags, SeekWhence, VfsError};
use crate::fs::file_laws::{law_part_of_a_file, law_truncate_then_read};
use crate::fs::laws::volume_ok;
use crate::fs::metadata::stat_s;
use crate::fs::nextfs::{
    lemma_write_span_inode, read_file_s, read_inode_data_s, read_inode_s, write_inode_data_s,
    FsError, FsView,
};
use crate::fs::ondisk::{class_bits, inode_shaped, permitted, InodeView};
use crate::fs::vfs::{
    creds_of, file_s, open_s, read_s, resolve_s, seek_s, write_s, FilesView, ReadStep, WriteStep,
};
use vstd::prelude::*;

verus! {

/// Opening an existing file changes nothing on the disk, unless it is to be emptied. The
/// descriptor is one of that file with the access that was asked for. It starts at the
/// size that the file has, if data is to be appended, and else at the beginning.
pub proof fn law_open_starts_where_asked(
    f: FilesView,
    task: u32,
    path: Seq<char>,
    flags: OpenFlags,
    now: u32,
    n: u32,
)
    requires
        resolve_s(f.fs, path) == Ok::<u32, VfsError>(n),
        !(flags.create && flags.truncate),
        open_s(f, task, path, flags, now).0 is Ok,
    ensures
        ({
            let (r, f1) = open_s(f, task, path, flags, now);
            let file = file_s(f1, task, r->Ok_0)->Ok_0;
            &&& file_s(f1, task, r->Ok_0) is Ok
            &&& file_s(f, task, r->Ok_0) is Err
            &&& f1.fs == f.fs
            &&& file.file_type == FileType::Regular(n)
            &&& file.flags == flags
            &&& !flags.append ==> file.pos == 0
            &&& flags.append && stat_s(f.fs->Some_0, n) is Ok ==> file.pos == stat_s(
                f.fs->Some_0,
                n,
            )->Ok_0.size
            &&& flags.append && read_file_s(f.fs->Some_0, n) is Ok ==> file.pos == read_file_s(
                f.fs->Some_0,
                n,
            )->Ok_0.len()
        }),
{
    let t = f.tables[task];
    let file = crate::fs::fds::OpenFile {
        file_type: FileType::Regular(n),
        flags,
        pos: crate::fs::vfs::open_pos_s(f.fs, creds_of(f.creds, task), n, flags)->Ok_0,
    };
    crate::fs::fds::law_alloc_fd(t, file);
}

/// A regular file of a volume that is in order.
pub open spec fn good_file(v: FsView, n: u32) -> bool {
    &&& volume_ok(v)
    &&& read_inode_s(v, n) matches Ok(i) && inode_shaped(i) && file_sound(v, i) && i.inode_type == 1
        && i.size <= 512 * max_blocks()
}

/// The contents of a file after data was written at a position within it or at its end.
pub open spec fn overwritten(old_bytes: Seq<u8>, pos: int, data: Seq<u8>) -> Seq<u8> {
    old_bytes.take(pos) + data + (if pos + data.len() < old_bytes.len() {
        old_bytes.skip(pos + data.len())
    } else {
        Seq::empty()
    })
}

/// What is written through a descriptor replaces what the file held from its position
/// on, and no more; what goes beyond the end makes the file longer. The position is then
/// behind what was written.
#[verifier::spinoff_prover]
#[verifier::rlimit(60)]
pub proof fn law_write_replaces_from_the_position(
    f: FilesView,
    v: FsView,
    task: u32,
    fd: u32,
    n: u32,
    before: Seq<u8>,
    data: Seq<u8>,
    now: u32,
)
    requires
        f.fs == Some(v),
        good_file(v, n),
        data.len() <= usize::MAX,
        read_file_s(v, n) == Ok::<Seq<u8>, FsError>(before),
        file_s(f, task, fd) matches Ok(file) && file.flags.write && file.file_type
            == FileType::Regular(n) && file.pos <= before.len(),
        write_s(f, task, fd, data, 0, now).0 is Ok,
    ensures
        ({
            let pos = file_s(f, task, fd)->Ok_0.pos;
            let (w, f1) = write_s(f, task, fd, data, 0, now);
            &&& w == Ok::<WriteStep, VfsError>(WriteStep::Bytes(data.len() as usize))
            &&& f1.fs is Some
            &&& read_file_s(f1.fs->Some_0, n) == Ok::<Seq<u8>, FsError>(
                overwritten(before, pos as int, data),
            )
            &&& file_s(f1, task, fd)->Ok_0.pos == pos + data.len()
        }),
{
    let file = file_s(f, task, fd)->Ok_0;
    let pos = file.pos;
    let i = read_inode_s(v, n)->Ok_0;
    assert(before.len() == i.size);
    let (r, v1, i1) = write_inode_data_s(v, i, pos, data, now);
    let v2 = crate::fs::nextfs::write_inode_s(v1, n, i1).1;
    lemma_write_span_inode(v, i, pos as int, data);
    lemma_write_saved(v, n, i, pos, data, now);
    let size = i1.size as nat;
    assert(size == if pos + data.len() > before.len() {
        pos + data.len()
    } else {
        before.len() as int
    });
    law_write_then_read(v, n, i, pos, data, now, 0, size);
    lemma_read_span(v, i, 0, i.size as int);
    let want = overwritten(before, pos as int, data);
    let got = read_inode_data_s(v2, n, 0, size)->Ok_0;
    assert(got.len() == want.len());
    assert forall|k: int| 0 <= k < size implies #[trigger] got[k] == want[k] by {
        if k < before.len() {
            assert(before[k] == file_byte(v.disk, i, 0 + k));
        }
    }
    assert(got =~= want);
    if size == 0 {
        assert(read_file_s(v2, n)->Ok_0 =~= Seq::<u8>::empty());
    }
}

/// Data that is written through a descriptor that was opened to append comes behind
/// everything that the file held.
pub proof fn law_append_adds_at_the_end(
    f: FilesView,
    v: FsView,
    task: u32,
    path: Seq<char>,
    flags: OpenFlags,
    n: u32,
    before: Seq<u8>,
    data: Seq<u8>,
    now: u32,
)
    requires
        f.fs == Some(v),
        good_file(v, n),
        data.len() <= usize::MAX,
        resolve_s(f.fs, path) == Ok::<u32, VfsError>(n),
        read_file_s(v, n) == Ok::<Seq<u8>, FsError>(before),
        flags.append && flags.write && !(flags.create && flags.truncate),
        open_s(f, task, path, flags, now).0 is Ok,
        ({
            let (r, f1) = open_s(f, task, path, flags, now);
            write_s(f1, task, r->Ok_0, data, 0, now).0 is Ok
        }),
    ensures
        ({
            let (r, f1) = open_s(f, task, path, flags, now);
            let f2 = write_s(f1, task, r->Ok_0, data, 0, now).1;
            read_file_s(f2.fs->Some_0, n) == Ok::<Seq<u8>, FsError>(before + data)
        }),
{
    law_open_starts_where_asked(f, task, path, flags, now, n);
    let (r, f1) = open_s(f, task, path, flags, now);
    law_write_replaces_from_the_position(f1, v, task, r->Ok_0, n, before, data, now);
    assert(overwritten(before, before.len() as int, data) =~= before + data);
}

/// An existing file that is opened to be made anew is empty, and the descriptor is at
/// its beginning.
pub proof fn law_open_empties_where_asked(
    f: FilesView,
    v: FsView,
    task: u32,
    path: Seq<char>,
    flags: OpenFlags,
    n: u32,
    before: Seq<u8>,
    now: u32,
)
    requires
        f.fs == Some(v),
        good_file(v, n),
        resolve_s(f.fs, path) == Ok::<u32, VfsError>(n),
        read_file_s(v, n) == Ok::<Seq<u8>, FsError>(before),
        flags.create && flags.truncate,
        open_s(f, task, path, flags, now).0 is Ok,
    ensures
        ({
            let (r, f1) = open_s(f, task, path, flags, now);
            let file = file_s(f1, task, r->Ok_0)->Ok_0;
            &&& read_file_s(f1.fs->Some_0, n) == Ok::<Seq<u8>, FsError>(Seq::empty())
            &&& file.file_type == FileType::Regular(n)
            &&& file.pos == 0
        }),
{
    law_truncate_then_read(v, n, 0, before);
    assert(before.take(0) =~= Seq::<u8>::empty());
    let (r, f1) = open_s(f, task, path, flags, now);
    assert(read_inode_s(f1.fs->Some_0, n)->Ok_0.size == 0);
}

/// Reading gives what the file holds from the position on, as far as there is room and
/// the file goes, and moves the position behind it.
pub proof fn law_read_goes_on_from_the_position(
    f: FilesView,
    v: FsView,
    con: ConsoleView,
    task: u32,
    fd: u32,
    n: u32,
    all: Seq<u8>,
    len: nat,
)
    requires
        f.fs == Some(v),
        read_file_s(v, n) == Ok::<Seq<u8>, FsError>(all),
        all.len() <= usize::MAX,
        file_s(f, task, fd) matches Ok(file) && file.flags.read && file.file_type
            == FileType::Regular(n),
    ensures
        ({
            let pos = file_s(f, task, fd)->Ok_0.pos;
            let (r, got, f1, con1) = read_s(f, con, task, fd, len);
            let rest = if pos < all.len() {
                all.skip(pos as int)
            } else {
                Seq::empty()
            };
            &&& r == Ok::<ReadStep, VfsError>(ReadStep::Bytes(got.len() as usize))
            &&& got == (if len < rest.len() {
                rest.take(len as int)
            } else {
                rest
            })
            &&& file_s(f1, task, fd)->Ok_0.pos == pos + got.len()
            &&& f1.fs == f.fs && con1 == con
        }),
{
    let pos = file_s(f, task, fd)->Ok_0.pos;
    law_part_of_a_file(v, n, pos, len, all);
    let got = read_s(f, con, task, fd, len).1;
    if pos < all.len() {
        let rest = all.skip(pos as int);
        if len < rest.len() {
            assert(got =~= rest.take(len as int));
        }
    }
}

/// Reading in two calls gives what reading in one does.
pub proof fn law_reads_follow_each_other(
    f: FilesView,
    v: FsView,
    con: ConsoleView,
    task: u32,
    fd: u32,
    n: u32,
    all: Seq<u8>,
    a: nat,
    b: nat,
)
    requires
        f.fs == Some(v),
        read_file_s(v, n) == Ok::<Seq<u8>, FsError>(all),
        all.len() <= usize::MAX,
        file_s(f, task, fd) matches Ok(file) && file.flags.read && file.file_type
            == FileType::Regular(n),
    ensures
        ({
            let (r1, got1, f1, c1) = read_s(f, con, task, fd, a);
            let (r2, got2, f2, c2) = read_s(f1, con, task, fd, b);
            let (r3, got3, f3, c3) = read_s(f, con, task, fd, a + b);
            got1 + got2 == got3
        }),
{
    let (r1, got1, f1, c1) = read_s(f, con, task, fd, a);
    let (r2, got2, f2, c2) = read_s(f1, con, task, fd, b);
    let (r3, got3, f3, c3) = read_s(f, con, task, fd, a + b);
    law_read_goes_on_from_the_position(f, v, con, task, fd, n, all, a);
    law_read_goes_on_from_the_position(f1, v, con, task, fd, n, all, b);
    law_read_goes_on_from_the_position(f, v, con, task, fd, n, all, a + b);
    assert(got1 + got2 =~= got3);
}

/// A seek leads to a place counted from the beginning, from the position, or from the
/// end of the file; one to before the beginning fails, and then nothing changes.
pub proof fn law_seek_leads_to_the_place(
    f: FilesView,
    v: FsView,
    task: u32,
    fd: u32,
    n: u32,
    offset: i64,
)
    requires
        f.fs == Some(v),
        file_s(f, task, fd) matches Ok(file) && file.file_type == FileType::Regular(n) && file.pos
            <= i64::MAX,
        read_inode_s(v, n) matches Ok(i) && i.size <= i64::MAX,
    ensures
        ({
            let pos = file_s(f, task, fd)->Ok_0.pos as int;
            let size = read_inode_s(v, n)->Ok_0.size as int;
            let a = seek_s(f, task, fd, offset, SeekWhence::Start);
            let b = seek_s(f, task, fd, offset, SeekWhence::Current);
            let c = seek_s(f, task, fd, offset, SeekWhence::End);
            &&& arrived(f, task, fd, offset as int, a)
            &&& arrived(f, task, fd, pos + offset, b)
            &&& arrived(f, task, fd, size + offset, c)
        }),
{
}

/// A seek led to a place: the descriptor is there, and everything else is as before. It
/// failed if there is no such place.
pub open spec fn arrived(
    f: FilesView,
    task: u32,
    fd: u32,
    place: int,
    r: (Result<u64, VfsError>, FilesView),
) -> bool {
    if 0 <= place <= i64::MAX {
        &&& r.0 is Ok && r.0->Ok_0 == place
        &&& file_s(r.1, task, fd) is Ok && file_s(r.1, task, fd)->Ok_0.pos == place
        &&& file_s(r.1, task, fd)->Ok_0.file_type == file_s(f, task, fd)->Ok_0.file_type
        &&& file_s(r.1, task, fd)->Ok_0.flags == file_s(f, task, fd)->Ok_0.flags
        &&& r.1.fs == f.fs && r.1.pipes == f.pipes && r.1.creds == f.creds
        &&& forall|t: u32, d: u32|
            (t, d) != (task, fd) ==> #[trigger] file_s(r.1, t, d) == file_s(f, t, d)
    } else {
        r.0 is Err && r.1 == f
    }
}

/// A descriptor gives only the access that it was opened for, and then nothing changes.
pub proof fn law_access_is_as_opened(
    f: FilesView,
    con: ConsoleView,
    task: u32,
    fd: u32,
    len: nat,
    data: Seq<u8>,
    now: u32,
)
    requires
        file_s(f, task, fd) is Ok,
    ensures
        !file_s(f, task, fd)->Ok_0.flags.read ==> read_s(f, con, task, fd, len).0 is Err && read_s(
            f,
            con,
            task,
            fd,
            len,
        ).2 == f,
        !file_s(f, task, fd)->Ok_0.flags.write ==> write_s(f, task, fd, data, 0, now).0 is Err
            && write_s(f, task, fd, data, 0, now).1 == f,
{
}

/// Of the nine bits of a mode, the first three are those of the owner, the next those of
/// its group, the last those of everyone else; of three, 4 is to read, 2 to write and 1
/// to execute. A user has what the bits of its class give, and the superuser all.
pub proof fn law_mode_bits(i: InodeView, uid: u16, gid: u16, r: bool, w: bool, x: bool)
    requires
        uid != 0,
        ({
            let class: int = if i.uid == uid {
                i.mode as int / 64 % 8
            } else if i.gid == gid {
                i.mode as int / 8 % 8
            } else {
                i.mode as int % 8
            };
            class == (if r {
                4int
            } else {
                0
            }) + (if w {
                2int
            } else {
                0
            }) + (if x {
                1int
            } else {
                0
            })
        }),
    ensures
        permitted(i, uid, gid, 4) == r,
        permitted(i, uid, gid, 2) == w,
        permitted(i, uid, gid, 1) == x,
        permitted(i, uid, gid, 6) == (r && w),
        permitted(i, 0, gid, 7),
{
    let b = class_bits(i, uid, gid);
    assert((b & 4 == 4) == r && (b & 2 == 2) == w && (b & 1 == 1) == x && (b & 6 == 6) == (r && w))
        by (bit_vector)
        requires
            b == (if r {
                4u16
            } else {
                0
            }) + (if w {
                2u16
            } else {
                0
            }) + (if x {
                1u16
            } else {
                0
            }),
    ;
}

/// A file is opened only by those whom its mode gives the access that they ask for.
pub proof fn law_open_needs_permission(
    f: FilesView,
    v: FsView,
    task: u32,
    path: Seq<char>,
    flags: OpenFlags,
    n: u32,
    now: u32,
)
    requires
        f.fs == Some(v),
        resolve_s(f.fs, path) == Ok::<u32, VfsError>(n),
        !(flags.create && flags.truncate),
        open_s(f, task, path, flags, now).0 is Ok,
    ensures
        ({
            let c = creds_of(f.creds, task);
            let i = read_inode_s(v, n);
            &&& flags.read ==> i is Ok && permitted(i->Ok_0, c.uid, c.gid, 4)
            &&& flags.write ==> i is Ok && permitted(i->Ok_0, c.uid, c.gid, 2)
        }),
{
    if flags.read && flags.write {
        let c = creds_of(f.creds, task);
        let b = class_bits(read_inode_s(v, n)->Ok_0, c.uid, c.gid);
        assert(b & 6 == 6 ==> b & 4 == 4 && b & 2 == 2) by (bit_vector);
    }
}

} // verus!
