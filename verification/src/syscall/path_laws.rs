//! What calls on paths leave behind.

use super::files::{path_call_s, stat_bytes, stat_path_s, stat_reply};
use super::Call;
use crate::bytes::{get16, get32, get64, le16, le32, le64};
use crate::fs::dir_laws::good_name;
use crate::fs::directory::{create_dir_s, dir_list_s, dir_lookup_s, open_dir_s, unlink_s};
use crate::fs::fds::VfsError;
use crate::fs::file_laws::law_truncate_then_read;
use crate::fs::laws::law_inode_reads_back;
use crate::fs::metadata::{chown_s, FileStat};
use crate::fs::nextfs::{read_file_s, FsError, FsView};
use crate::fs::ondisk::{InodeView, ROOT_INODE};
use crate::fs::order_laws::{
    law_attributes_keep_order, law_create_dir_keeps_order, law_rmdir_keeps_order,
    law_truncate_keeps_order, law_unlink_keeps_order, lemma_unlinked_was_file,
};
use crate::fs::path::{components, law_components_of_parent, name_of, parent_of};
use crate::fs::path_laws::lemma_walk_kept_but;
use crate::fs::vfs::{creds_of, file_s, resolve_s, walk_s, FilesView};
use crate::fs::volume_laws::{lemma_walk_kept, lemma_walk_push, live, node, node_ok, sound};
use vstd::prelude::*;

verus! {

/// A path leads to what its parent has under its name.
proof fn lemma_by_parent(v: FsView, path: Seq<char>)
    requires
        name_of(path).len() > 0,
    ensures
        walk_s(v, ROOT_INODE, components(path)) == match walk_s(
            v,
            ROOT_INODE,
            components(parent_of(path)),
        ) {
            Ok(p) => dir_lookup_s(v, p, name_of(path)),
            Err(e) => Err(e),
        },
{
    law_components_of_parent(path);
    lemma_walk_push(v, ROOT_INODE, components(parent_of(path)), name_of(path));
}

/// An unlink call that returns zero took a file away: the path led to one, and leads to
/// nothing afterwards.
#[verifier::spinoff_prover]
#[verifier::rlimit(60)]
pub proof fn law_unlink_call_takes_the_file_away(
    f: FilesView,
    v: FsView,
    task: u32,
    c: Call,
    path: Seq<char>,
    now: u32,
)
    requires
        f.fs == Some(v),
        sound(v),
        c is Unlink,
        name_of(path).len() > 0,
        path_call_s(f, task, c, path, now).0 == 0,
    ensures
        ({
            let f1 = path_call_s(f, task, c, path, now).1;
            &&& resolve_s(f.fs, path) matches Ok(n) && node(v, n).inode_type == 1
            &&& resolve_s(f1.fs, path) == Err::<u32, VfsError>(VfsError::NotFound)
        }),
{
    let p = resolve_s(f.fs, parent_of(path))->Ok_0;
    let name = name_of(path);
    let v1 = unlink_s(v, p, name, now).1;
    law_unlink_keeps_order(v, p, name, now);
    lemma_unlinked_was_file(v, p, name, now);
    lemma_by_parent(v, path);
    lemma_by_parent(v1, path);
    let n = dir_lookup_s(v, p, name)->Ok_0;
    lemma_walk_kept_but(v, v1, p, name, n, ROOT_INODE, components(parent_of(path)));
}

/// A rmdir call that returns zero took an empty directory away: the path led to one that
/// listed no more than itself and its parent, and its name is free afterwards.
#[verifier::spinoff_prover]
#[verifier::rlimit(60)]
pub proof fn law_rmdir_call_takes_the_directory_away(
    f: FilesView,
    v: FsView,
    task: u32,
    c: Call,
    path: Seq<char>,
    now: u32,
    p: u32,
)
    requires
        f.fs == Some(v),
        sound(v),
        c is Rmdir,
        name_of(path).len() > 0,
        resolve_s(f.fs, parent_of(path)) == Ok::<u32, VfsError>(p),
        dir_lookup_s(v, p, name_of(path)) != Ok::<u32, FsError>(p),
        path_call_s(f, task, c, path, now).0 == 0,
    ensures
        ({
            let f1 = path_call_s(f, task, c, path, now).1;
            let v1 = f1.fs->Some_0;
            &&& resolve_s(f.fs, path) matches Ok(n) && node(v, n).inode_type == 2 && !live(v1, n)
                && dir_list_s(v, n) is Ok && dir_list_s(v, n)->Ok_0.len() <= 2
            &&& dir_lookup_s(v1, p, name_of(path)) == Err::<u32, FsError>(FsError::NotFound)
        }),
{
    lemma_by_parent(v, path);
    law_rmdir_keeps_order(v, p, name_of(path));
}

/// A mkdir call that returns zero made a directory of the caller's: the path led to
/// nothing, and leads to a new directory afterwards.
#[verifier::spinoff_prover]
#[verifier::rlimit(60)]
pub proof fn law_mkdir_call_makes_a_directory(
    f: FilesView,
    v: FsView,
    task: u32,
    c: Call,
    path: Seq<char>,
    now: u32,
    p: u32,
)
    requires
        f.fs == Some(v),
        sound(v),
        c is Mkdir,
        name_of(path).len() > 0,
        good_name(name_of(path)),
        path.len() > 0,
        resolve_s(f.fs, parent_of(path)) == Ok::<u32, VfsError>(p),
        open_dir_s(v, p) is Ok,
        path_call_s(f, task, c, path, now).0 == 0,
    ensures
        ({
            let f1 = path_call_s(f, task, c, path, now).1;
            let v1 = f1.fs->Some_0;
            &&& resolve_s(f1.fs, path) matches Ok(n) && !live(v, n) && live(v1, n) && node(
                v1,
                n,
            ).inode_type == 2 && node(v1, n).uid == creds_of(f.creds, task).uid && node(
                v1,
                n,
            ).gid == creds_of(f.creds, task).gid
        }),
{
    let cr = creds_of(f.creds, task);
    let name = name_of(path);
    let (r, vc) = create_dir_s(v, p, name, now);
    let n = r->Ok_0;
    let v1 = chown_s(vc, n, cr.uid, cr.gid, now).1;
    law_create_dir_keeps_order(v, p, name, now);
    lemma_walk_kept(v, vc, ROOT_INODE, components(parent_of(path)));
    lemma_by_parent(vc, path);
    assert(node_ok(vc, n));
    let i = node(vc, n);
    let j = InodeView { uid: cr.uid, gid: cr.gid, mtime: now, ..i };
    assert(chown_s(vc, n, cr.uid, cr.gid, now) == crate::fs::nextfs::write_inode_s(vc, n, j));
    assert(chown_s(vc, n, cr.uid, cr.gid, now).0 is Ok);
    law_inode_reads_back(vc, n, j, n);
    law_attributes_keep_order(vc, n, cr.uid, cr.gid, 0, now);
    lemma_walk_kept(vc, v1, ROOT_INODE, components(path));
}

/// A truncate call that returns zero cut the file: it holds what it held up to the size
/// that was asked for, and has that size.
#[verifier::spinoff_prover]
#[verifier::rlimit(60)]
pub proof fn law_truncate_call_cuts_the_file(
    f: FilesView,
    v: FsView,
    task: u32,
    c: Call,
    path: Seq<char>,
    now: u32,
    n: u32,
    before: Seq<u8>,
)
    requires
        f.fs == Some(v),
        sound(v),
        c is Truncate,
        resolve_s(f.fs, path) == Ok::<u32, VfsError>(n),
        read_file_s(v, n) == Ok::<Seq<u8>, FsError>(before),
        path_call_s(f, task, c, path, now).0 == 0,
    ensures
        ({
            let f1 = path_call_s(f, task, c, path, now).1;
            let v1 = f1.fs->Some_0;
            let size = c->Truncate_size;
            &&& resolve_s(f1.fs, path) == Ok::<u32, VfsError>(n)
            &&& node(v1, n).size == size
            &&& size <= before.len() ==> read_file_s(v1, n) == Ok::<Seq<u8>, FsError>(
                before.take(size as int),
            )
        }),
{
    let size = c->Truncate_size;
    law_truncate_keeps_order(v, n, size);
    let v1 = path_call_s(f, task, c, path, now).1.fs->Some_0;
    lemma_walk_kept(v, v1, ROOT_INODE, components(path));
    assert(node_ok(v, n));
    if size <= before.len() {
        law_truncate_then_read(v, n, size, before);
    }
}

/// A chmod call that returns zero gave the file the lower nine bits as its mode, and a
/// chown call its owner and group; the rest of what stat tells of it is as before, but
/// for the time.
#[verifier::spinoff_prover]
#[verifier::rlimit(60)]
pub proof fn law_attribute_calls_are_seen_by_stat(
    f: FilesView,
    v: FsView,
    task: u32,
    c: Call,
    path: Seq<char>,
    now: u32,
)
    requires
        f.fs == Some(v),
        sound(v),
        c is Chmod || c is Chown,
        path_call_s(f, task, c, path, now).0 == 0,
    ensures
        ({
            let f1 = path_call_s(f, task, c, path, now).1;
            let (s0, s1) = (stat_path_s(f, path), stat_path_s(f1, path));
            &&& s0 is Ok && s1 is Ok
            &&& c is Chmod ==> s1->Ok_0 == (FileStat {
                mode: (c->Chmod_mode % 512) as u16,
                mtime: now,
                ..s0->Ok_0
            })
            &&& c is Chown ==> s1->Ok_0 == (FileStat {
                uid: c->Chown_uid,
                gid: c->Chown_gid,
                mtime: now,
                ..s0->Ok_0
            })
        }),
{
    let n = resolve_s(f.fs, path)->Ok_0;
    assert(node_ok(v, n));
    let i = node(v, n);
    let v1 = path_call_s(f, task, c, path, now).1.fs->Some_0;
    if c is Chmod {
        let mode = c->Chmod_mode;
        assert(mode & 0o777 == mode % 512) by (bit_vector);
        law_attributes_keep_order(v, n, 0, 0, mode, now);
        law_inode_reads_back(v, n, InodeView { mode: mode & 0o777, mtime: now, ..i }, n);
    } else {
        law_attributes_keep_order(v, n, c->Chown_uid, c->Chown_gid, 0, now);
        law_inode_reads_back(
            v,
            n,
            InodeView { uid: c->Chown_uid, gid: c->Chown_gid, mtime: now, ..i },
            n,
        );
    }
    lemma_walk_kept(v, v1, ROOT_INODE, components(path));
}

/// An open call that does not fail returns a descriptor of the caller's that was free,
/// and that is one of the file then.
pub proof fn law_open_call_returns_a_descriptor(
    f: FilesView,
    task: u32,
    c: Call,
    path: Seq<char>,
    now: u32,
)
    requires
        c is Open,
        path_call_s(f, task, c, path, now).0 != 0xffff_ffff_ffff_ffff,
    ensures
        ({
            let (fd, f1) = path_call_s(f, task, c, path, now);
            &&& fd <= u32::MAX
            &&& file_s(f, task, fd as u32) is Err
            &&& file_s(f1, task, fd as u32) matches Ok(file) && file.file_type is Regular
                && file.flags == c->Open_flags
        }),
{
    let (r, f1) = crate::fs::vfs::open_s(f, task, path, c->Open_flags, now);
    if r is Ok {
        let fd = r->Ok_0;
        crate::fs::fds::law_alloc_fd(f.tables[task], f1.tables[task].files[fd]);
    }
}

/// What stat tells can be read from the bytes that the caller gets: the type at 0, the
/// mode at 2, owner and group at 4 and 6, the size at 8, and the time at 16.
pub proof fn law_stat_reads_back(st: FileStat)
    ensures
        ({
            let (value, b) = stat_reply(Ok(st));
            &&& value == 0
            &&& b.len() == 20
            &&& b[0] == st.inode_type
            &&& get16(b, 2) == st.mode
            &&& get16(b, 4) == st.uid
            &&& get16(b, 6) == st.gid
            &&& get64(b, 8) == st.size
            &&& get32(b, 16) == st.mtime
        }),
{
    let b = stat_bytes(st);
    assert(b.subrange(2, 4) =~= le16(st.mode));
    assert(b.subrange(8, 16) =~= le64(st.size));
    let lo = (st.size % 0x1_0000_0000) as u32;
    let hi = (st.size / 0x1_0000_0000) as u32;
    assert(b.subrange(8, 12) =~= le32(lo));
    assert(b.subrange(12, 16) =~= le32(hi));
    assert(b.subrange(16, 20) =~= le32(st.mtime));
    lemma_get32(b, 8, lo);
    lemma_get32(b, 12, hi);
    lemma_get32(b, 16, st.mtime);
}

proof fn lemma_get32(b: Seq<u8>, at: int, x: u32)
    requires
        0 <= at && at + 4 <= b.len(),
        b.subrange(at, at + 4) == le32(x),
    ensures
        get32(b, at) == x,
{
    let s = b.subrange(at, at + 4);
    assert(s[0] == b[at] && s[1] == b[at + 1] && s[2] == b[at + 2] && s[3] == b[at + 3]);
}

} // verus!
