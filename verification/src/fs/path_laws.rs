//! Making and deleting by path: what a path leads to afterwards, and that all other
//! paths lead where they led.

use crate::fs::dir_laws::good_name;
use crate::fs::directory::{create_dir_s, dir_lookup_s, open_dir_s, unlink_s};
use crate::fs::nextfs::{read_file_s, FsError, FsView};
use crate::fs::ondisk::ROOT_INODE;
use crate::fs::order_laws::{law_create_dir_keeps_order, law_unlink_keeps_order, lookups_kept_but};
use crate::fs::path::{
    components, law_components_of_parent, law_trailing_slashes, parent_of, without_slashes,
};
use crate::fs::vfs::nx::{
    entry_name, inode_of_path, make_dir_s, parent_inode, read_s_path, unlink_s_path,
};
use crate::fs::vfs::walk_s;
use crate::fs::volume::sync_s;
use crate::fs::volume_laws::{
    kept, law_sync_keeps_order, lemma_kept_reads, lemma_lookups_trans, lemma_walk_kept,
    lemma_walk_push, node, sound,
};
use vstd::prelude::*;

verus! {

/// A path that names something: its parent and its name.
proof fn lemma_walk_by_parent(v: FsView, path: Seq<char>)
    requires
        entry_name(path).len() > 0,
    ensures
        inode_of_path(v, path) == match parent_inode(v, path) {
            Ok(p) => dir_lookup_s(v, p, entry_name(path)),
            Err(e) => Err(e),
        },
{
    law_trailing_slashes(path);
    law_components_of_parent(without_slashes(path));
    lemma_walk_push(
        v,
        ROOT_INODE,
        components(parent_of(without_slashes(path))),
        entry_name(path),
    );
}

/// A directory that was made is found at its path, and leads to itself and to its
/// parent. Every other path that led to a file leads to the same file with the same
/// contents, and the volume stays in good order.
#[verifier::spinoff_prover]
#[verifier::rlimit(60)]
pub proof fn law_make_dir_then_find(v: FsView, path: Seq<char>, now: u32, other: Seq<char>)
    requires
        sound(v),
        entry_name(path).len() > 0,
        good_name(entry_name(path)),
        parent_inode(v, path) matches Ok(p) ==> open_dir_s(v, p) is Ok,
        make_dir_s(v, path, now).0 is Ok,
    ensures
        ({
            let p = parent_inode(v, path)->Ok_0;
            let n = create_dir_s(v, p, entry_name(path), now).0->Ok_0;
            let v1 = make_dir_s(v, path, now).1;
            &&& sound(v1)
            &&& inode_of_path(v1, path) == Ok::<u32, FsError>(n)
            &&& dir_lookup_s(v1, n, "."@) == Ok::<u32, FsError>(n)
            &&& dir_lookup_s(v1, n, ".."@) == Ok::<u32, FsError>(p)
            &&& inode_of_path(v, other) matches Ok(m) ==> inode_of_path(v1, other) == Ok::<
                u32,
                FsError,
            >(m) && (m != n ==> read_s_path(Some(v1), other) == read_s_path(Some(v), other))
        }),
{
    let p = parent_inode(v, path)->Ok_0;
    let name = entry_name(path);
    let (r, vc) = create_dir_s(v, p, name, now);
    let n = r->Ok_0;
    let v1 = make_dir_s(v, path, now).1;
    law_create_dir_keeps_order(v, p, name, now);
    law_sync_keeps_order(vc);
    assert(v1 == sync_s(vc).1);
    lemma_lookups_trans(v, vc, v1);
    lemma_walk_by_parent(v1, path);
    lemma_walk_kept(v, v1, ROOT_INODE, components(parent_of(without_slashes(path))));
    assert(dir_lookup_s(vc, p, name) is Ok);
    assert(dir_lookup_s(vc, n, "."@) is Ok);
    assert(dir_lookup_s(vc, n, ".."@) is Ok);
    if let Ok(m) = inode_of_path(v, other) {
        lemma_walk_kept(v, v1, ROOT_INODE, components(other));
        if m != n {
            assert(kept(vc, v1, m));
            lemma_kept_reads(vc, v1, m);
            if m != p {
                assert(kept(v, vc, m));
                lemma_kept_reads(v, vc, m);
            } else {
                lemma_no_file(v, p, name, vc, n);
            }
        }
    }
}

/// A directory does not read as a file, before and after.
proof fn lemma_no_file(v: FsView, p: u32, name: Seq<char>, vc: FsView, n: u32)
    requires
        open_dir_s(v, p) is Ok,
        dir_lookup_s(vc, p, name) == Ok::<u32, FsError>(n),
    ensures
        read_file_s(v, p) == read_file_s(vc, p),
{
    assert(open_dir_s(vc, p) is Ok);
}

/// A walk that does not end at a file that went ends where it ended.
pub proof fn lemma_walk_kept_but(
    v: FsView,
    v1: FsView,
    d: u32,
    name: Seq<char>,
    n: u32,
    cur: u32,
    parts: Seq<Seq<char>>,
)
    requires
        lookups_kept_but(v, v1, d, name, n),
        dir_lookup_s(v, d, name) == Ok::<u32, FsError>(n),
        node(v, n).inode_type == 1,
        walk_s(v, cur, parts) is Ok,
        walk_s(v, cur, parts) != Ok::<u32, FsError>(n),
    ensures
        walk_s(v1, cur, parts) == walk_s(v, cur, parts),
    decreases parts.len(),
{
    if parts.len() > 0 {
        let x = dir_lookup_s(v, cur, parts[0])->Ok_0;
        assert(dir_lookup_s(v, cur, parts[0]) is Ok);
        assert(cur != n);
        if cur == d && parts[0] == name {
            let rest = parts.drop_first();
            assert(walk_s(v, cur, parts) == walk_s(v, n, rest));
            if rest.len() > 0 {
                assert(dir_lookup_s(v, n, rest[0]) is Err);
                assert(walk_s(v, n, rest) is Err);
            } else {
                assert(walk_s(v, n, rest) == Ok::<u32, FsError>(n));
            }
            assert(false);
        }
        assert(dir_lookup_s(v1, cur, parts[0]) == dir_lookup_s(v, cur, parts[0]));
        lemma_walk_kept_but(v, v1, d, name, n, x, parts.drop_first());
    }
}

/// A file that was deleted is not found at its path. Every path that led to another
/// file leads to the same file with the same contents, and the volume stays in good
/// order.
#[verifier::spinoff_prover]
#[verifier::rlimit(60)]
pub proof fn law_delete_then_find_nothing(v: FsView, path: Seq<char>, now: u32, other: Seq<char>)
    requires
        sound(v),
        entry_name(path).len() > 0,
        unlink_s_path(v, path, now).0 is Ok,
    ensures
        ({
            let v1 = unlink_s_path(v, path, now).1;
            &&& sound(v1)
            &&& inode_of_path(v, path) is Ok
            &&& inode_of_path(v1, path) == Err::<u32, FsError>(FsError::NotFound)
            &&& read_s_path(Some(v1), path) == Err::<Seq<u8>, FsError>(FsError::NotFound)
            &&& inode_of_path(v, other) matches Ok(m) ==> Ok::<u32, FsError>(m) != inode_of_path(
                v,
                path,
            ) ==> inode_of_path(v1, other) == Ok::<u32, FsError>(m) && read_s_path(Some(v1), other)
                == read_s_path(Some(v), other)
        }),
{
    let p = parent_inode(v, path)->Ok_0;
    let name = entry_name(path);
    let vu = unlink_s(v, p, name, now).1;
    let v1 = unlink_s_path(v, path, now).1;
    let n = dir_lookup_s(v, p, name)->Ok_0;
    law_unlink_keeps_order(v, p, name, now);
    law_sync_keeps_order(vu);
    assert(v1 == sync_s(vu).1);
    crate::fs::order_laws::lemma_unlinked_was_file(v, p, name, now);
    crate::fs::order_laws::lemma_sync_alike(vu);
    lemma_walk_by_parent(v, path);
    lemma_walk_by_parent(v1, path);
    let parts = components(parent_of(without_slashes(path)));
    assert(p != n);
    lemma_walk_kept_but(v, vu, p, name, n, ROOT_INODE, parts);
    lemma_walk_kept(vu, v1, ROOT_INODE, parts);
    assert(dir_lookup_s(v1, p, name) == dir_lookup_s(vu, p, name));
    if let Ok(m) = inode_of_path(v, other) {
        if m != n {
            lemma_walk_kept_but(v, vu, p, name, n, ROOT_INODE, components(other));
            lemma_walk_kept(vu, v1, ROOT_INODE, components(other));
            assert(read_file_s(v1, m) == read_file_s(vu, m));
            if m != p {
                assert(kept(v, vu, m));
                lemma_kept_reads(v, vu, m);
            } else {
                crate::fs::order_laws::lemma_unlink_keeps_dir(v, p, name, now);
            }
        }
    }
}

} // verus!
