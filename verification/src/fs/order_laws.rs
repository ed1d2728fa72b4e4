//! A NextFS volume is in good order when it is new, and the operations that succeed
//! keep it so.

use crate::fs::data_laws::{
    content, file_sound, in_use, lemma_inode_write_keeps, lemma_meta_irrelevant, lemma_write_span,
    lemma_write_span_fits, max_blocks, owns, ptr,
};
use crate::fs::dir_laws::{
    dir_ok, good_name, law_add_then_lookup, law_remove_then_lookup, lemma_entry_at,
    lemma_lookup_same, lemma_put_entry, matches_name, slot_entry, slots,
};
use crate::fs::directory::{
    create_dir_s, dir_add_entry_s, dir_block, dir_inode, dir_lookup_s, dir_remove_entry_s,
    discard_inode_s, entry_at, find_entry, open_dir_s, rmdir_s, unlink_s,
};
use crate::fs::file_laws::{
    lemma_cut, lemma_free_all, lemma_owned_in_use, lemma_still_sound, lemma_table_untouched,
    lemma_truncate, listed,
};
use crate::fs::format_laws::{
    law_format_then_mount, lemma_dir_block, lemma_first_entries, lemma_fresh_dir, lemma_fresh_names,
};
use crate::fs::laws::{
    disk_shaped, law_alloc_block, law_alloc_inode, law_inode_reads_back, lemma_remount, volume_ok,
};
use crate::fs::metadata::{chmod_s, chown_s, set_owner_mode_s};
use crate::fs::nextfs::{
    alloc_block_s, alloc_inode_s, block_ptr, free_all, free_direct_s, free_inode_blocks_s, ptrs_of,
    put_block, read_file_s, read_inode_s, truncate_inode_s, truncate_s, write_inode_data_s,
    write_inode_s, write_span_s, FsError, FsView,
};
use crate::fs::ondisk::{
    field_name, inode_shaped, new_dirent, InodeView, SuperblockView, ROOT_INODE,
};
use crate::fs::path::components;
use crate::fs::vfs::nx::{inode_of_path, read_s_path};
use crate::fs::vfs::{walk_s, write_regular_s};
use crate::fs::volume::{can_format, formatted, mount_s, sync_s, type_in_table};
use crate::fs::volume_laws::{
    apart, changed_one, holds, kept, law_sync_keeps_order, lemma_add_entry_changes,
    lemma_changed_one, lemma_kept_reads, lemma_kept_trans, lemma_lookups_kept, lemma_lookups_trans,
    lemma_put_keeps_dir, live, lookups_kept, names_unique, node, node_ok, same_name, sound,
};
use vstd::prelude::*;

verus! {

/// A new volume is in good order.
#[verifier::spinoff_prover]
#[verifier::rlimit(60)]
pub proof fn law_new_volume_is_in_order(disk: Seq<Seq<u8>>, total: u32)
    requires
        disk_shaped(disk),
        total <= disk.len(),
        can_format(total),
    ensures
        mount_s(formatted(disk, total)) is Ok,
        sound(mount_s(formatted(disk, total))->Ok_0),
{
    law_format_then_mount(disk, total);
    let v = mount_s(formatted(disk, total))->Ok_0;
    assert forall|n: u32| #[trigger] live(v, n) implies n == 1 by {
        assert(v.used[n as int] == (type_in_table(
            v.disk,
            v.sb.inode_table_start as int,
            n as int,
        ) != 0));
    }
    let root = node(v, 1);
    lemma_two_names(v.disk, root);
    assert forall|n: u32| #[trigger] node_ok(v, n) by {
        if live(v, n) {
            assert(n == 1);
            assert(v.used[1]);
        }
    }
    assert forall|a: u32, b: u32| #[trigger] apart(v, a, b) by {}
}

/// Two names that differ are unique.
proof fn lemma_two_names(disk: Seq<Seq<u8>>, i: InodeView)
    requires
        slots(i) == 2,
        field_name(slot_entry(disk, i, 0).name) != field_name(slot_entry(disk, i, 1).name),
    ensures
        names_unique(disk, i),
{
}

/// Two searches that see the same find the same.
proof fn lemma_find_alike(
    d0: Seq<Seq<u8>>,
    i0: InodeView,
    d1: Seq<Seq<u8>>,
    i1: InodeView,
    name: Seq<char>,
    from: int,
    total: int,
)
    requires
        forall|k: int|
            from <= k < total ==> #[trigger] entry_at(d1, i1, k) == entry_at(d0, i0, k),
    ensures
        find_entry(d1, i1, name, from, total) == find_entry(d0, i0, name, from, total),
        find_entry(d0, i0, name, from, total) matches Ok(k) ==> from <= k < total,
    decreases total - from,
{
    if from < total {
        assert(entry_at(d1, i1, from) == entry_at(d0, i0, from));
        lemma_find_alike(d0, i0, d1, i1, name, from + 1, total);
    }
}

/// An inode that differs from inode `n` only in its attributes.
spec fn same_body(v: FsView, n: u32, j: InodeView) -> bool {
    &&& inode_shaped(j)
    &&& j.inode_type == node(v, n).inode_type
    &&& j.size == node(v, n).size
    &&& j.direct == node(v, n).direct
    &&& j.indirect == node(v, n).indirect
}

/// Storing such an inode leaves its blocks as they are.
#[verifier::spinoff_prover]
#[verifier::rlimit(60)]
proof fn lemma_attributes_body(v: FsView, n: u32, j: InodeView)
    requires
        sound(v),
        live(v, n),
        same_body(v, n, j),
        write_inode_s(v, n, j).0 is Ok,
    ensures
        ({
            let i = node(v, n);
            let v1 = write_inode_s(v, n, j).1;
            &&& volume_ok(v1)
            &&& v1.free == v.free && v1.used == v.used && v1.sb == v.sb
            &&& v1.disk.len() == v.disk.len()
            &&& forall|c: int|
                v.sb.data_start <= c < v.sb.total_blocks ==> #[trigger] v1.disk[c] == v.disk[c]
            &&& file_sound(v1, j)
            &&& forall|a: int|
                0 <= a < max_blocks() ==> #[trigger] ptr(v1.disk, j, a) == ptr(v.disk, i, a)
            &&& forall|k: int|
                0 <= k < 8 * max_blocks() ==> #[trigger] slot_entry(v1.disk, j, k) == slot_entry(
                    v.disk,
                    i,
                    k,
                )
            &&& forall|c: int| #[trigger] owns(v1, j, c) ==> owns(v, i, c)
        }),
{
    let i = node(v, n);
    let v1 = write_inode_s(v, n, j).1;
    assert(node_ok(v, n));
    lemma_meta_irrelevant(v, i, j);
    lemma_inode_write_keeps(v, n, j, j);
    lemma_owned_in_use(v, j);
    lemma_still_sound(v, v1, j);
    assert forall|a: int| 0 <= a < max_blocks() implies #[trigger] ptr(v1.disk, j, a) == ptr(
        v.disk,
        i,
        a,
    ) by {
        assert(block_ptr(v1.disk, j, a) == block_ptr(v.disk, j, a));
        assert(block_ptr(v.disk, j, a) == block_ptr(v.disk, i, a));
    }
    assert forall|k: int| 0 <= k < 8 * max_blocks() implies #[trigger] slot_entry(v1.disk, j, k)
        == slot_entry(v.disk, i, k) by {
        assert(content(v1.disk, j, k / 8) == content(v.disk, j, k / 8));
        assert(content(v.disk, j, k / 8) == content(v.disk, i, k / 8));
    }
    assert forall|c: int| #[trigger] owns(v1, j, c) implies owns(v, i, c) by {
        assert(owns(v, j, c));
    }
}

/// Storing an inode that differs only in its attributes changes that inode alone.
#[verifier::spinoff_prover]
#[verifier::rlimit(60)]
proof fn lemma_attributes_change(v: FsView, n: u32, j: InodeView)
    requires
        sound(v),
        live(v, n),
        same_body(v, n, j),
        write_inode_s(v, n, j).0 is Ok,
    ensures
        changed_one(v, write_inode_s(v, n, j).1, n),
        read_inode_s(write_inode_s(v, n, j).1, n) == Ok::<InodeView, FsError>(j),
{
    let i = node(v, n);
    let v1 = write_inode_s(v, n, j).1;
    assert(node_ok(v, n));
    lemma_attributes_body(v, n, j);
    law_inode_reads_back(v, n, j, n);
    if i.inode_type == 2 {
        assert forall|k: int|
            slots(j) <= k < 8 * (slots(j) / 8) + 8 && k < 8 * max_blocks() implies (
        #[trigger] slot_entry(v1.disk, j, k)).inode == 0 by {
            assert(slot_entry(v.disk, i, k).inode == 0);
        }
        assert(dir_ok(v1, j));
        assert forall|a: int, b: int|
            0 <= a < slots(j) && 0 <= b < slots(j) && a != b implies !same_name(
            #[trigger] slot_entry(v1.disk, j, a),
            #[trigger] slot_entry(v1.disk, j, b),
        ) by {
            assert(!same_name(slot_entry(v.disk, i, a), slot_entry(v.disk, i, b)));
        }
    }
    assert forall|m: u32| m != n implies #[trigger] read_inode_s(v1, m) == read_inode_s(v, m) by {
        law_inode_reads_back(v, n, j, m);
    }
    assert forall|m: u32| m != n && live(v, m) implies #[trigger] v1.used[m as int] by {
        assert(node_ok(v, m));
    }
    assert forall|c: int|
        v.sb.data_start <= c < v.sb.total_blocks && in_use(v, c) && !holds(
            v,
            n,
            c,
        ) implies #[trigger] in_use(v1, c) && v1.disk[c] == v.disk[c] by {
        assert(v1.free[c] == v.free[c]);
    }
    assert forall|c: int| #[trigger] holds(v1, n, c) implies holds(v, n, c) || !in_use(v, c) by {
        assert(owns(v1, j, c));
    }
}

/// Storing an inode that differs only in its attributes keeps the volume in good
/// order, every lookup, and every other inode.
#[verifier::spinoff_prover]
#[verifier::rlimit(60)]
proof fn lemma_attributes(v: FsView, n: u32, j: InodeView)
    requires
        sound(v),
        live(v, n),
        same_body(v, n, j),
        write_inode_s(v, n, j).0 is Ok,
    ensures
        ({
            let v1 = write_inode_s(v, n, j).1;
            &&& sound(v1)
            &&& lookups_kept(v, v1)
            &&& forall|m: u32| m != n ==> #[trigger] kept(v, v1, m)
        }),
{
    let i = node(v, n);
    let v1 = write_inode_s(v, n, j).1;
    assert(node_ok(v, n));
    lemma_attributes_body(v, n, j);
    lemma_attributes_change(v, n, j);
    lemma_changed_one(v, v1, n);
    assert forall|name: Seq<char>|
        (#[trigger] dir_lookup_s(v, n, name)) is Ok implies dir_lookup_s(v1, n, name)
        == dir_lookup_s(v, n, name) by {
        assert forall|k: int| 0 <= k < slots(i) implies #[trigger] entry_at(v1.disk, j, k)
            == entry_at(v.disk, i, k) by {
            lemma_entry_at(v, i, k);
            lemma_entry_at(v1, j, k);
            assert(slot_entry(v1.disk, j, k) == slot_entry(v.disk, i, k));
            assert(ptr(v1.disk, j, k / 8) == ptr(v.disk, i, k / 8));
        }
        lemma_find_alike(v.disk, i, v1.disk, j, name, 0, slots(i));
    }
    lemma_lookups_kept(v, v1, n);
}

/// Changing permissions or ownership keeps the volume in good order, every lookup, and
/// every other inode.
#[verifier::spinoff_prover]
#[verifier::rlimit(60)]
pub proof fn law_attributes_keep_order(v: FsView, n: u32, uid: u16, gid: u16, mode: u16, now: u32)
    requires
        sound(v),
    ensures
        chmod_s(v, n, mode, now).0 is Ok ==> ({
            let v1 = chmod_s(v, n, mode, now).1;
            sound(v1) && lookups_kept(v, v1) && forall|m: u32| m != n ==> #[trigger] kept(v, v1, m)
        }),
        chown_s(v, n, uid, gid, now).0 is Ok ==> ({
            let v1 = chown_s(v, n, uid, gid, now).1;
            sound(v1) && lookups_kept(v, v1) && forall|m: u32| m != n ==> #[trigger] kept(v, v1, m)
        }),
        set_owner_mode_s(v, n, uid, gid, mode).0 is Ok ==> ({
            let v1 = set_owner_mode_s(v, n, uid, gid, mode).1;
            sound(v1) && lookups_kept(v, v1) && forall|m: u32| m != n ==> #[trigger] kept(v, v1, m)
        }),
{
    if live(v, n) {
        let i = node(v, n);
        assert(node_ok(v, n));
        if chmod_s(v, n, mode, now).0 is Ok {
            lemma_attributes(v, n, InodeView { mode: mode & 0o777, mtime: now, ..i });
        }
        if chown_s(v, n, uid, gid, now).0 is Ok {
            lemma_attributes(v, n, InodeView { uid, gid, mtime: now, ..i });
        }
        if set_owner_mode_s(v, n, uid, gid, mode).0 is Ok {
            lemma_attributes(v, n, InodeView { uid, gid, mode: mode & 0o777, ..i });
        }
    }
}

/// Writing into a file at a position keeps the volume in good order, every lookup, and
/// every other inode.
#[verifier::spinoff_prover]
#[verifier::rlimit(60)]
pub proof fn law_write_regular_keeps_order(v: FsView, n: u32, pos: u64, data: Seq<u8>, now: u32)
    requires
        sound(v),
        live(v, n),
        node(v, n).inode_type == 1,
        pos <= 512 * max_blocks(),
        write_regular_s(v, n, pos, data, now).0 is Ok,
    ensures
        ({
            let v1 = write_regular_s(v, n, pos, data, now).1;
            &&& sound(v1)
            &&& lookups_kept(v, v1)
            &&& live(v1, n) && node(v1, n).inode_type == 1
            &&& forall|m: u32| m != n ==> #[trigger] kept(v, v1, m)
        }),
{
    let i = node(v, n);
    assert(node_ok(v, n));
    let (rs, vs, is_) = write_span_s(v, i, pos as int, data);
    let (rw, vw, iw) = write_inode_data_s(v, i, pos, data, now);
    let v1 = write_regular_s(v, n, pos, data, now).1;
    lemma_write_span_fits(v, i, pos as int, data);
    lemma_write_span(v, i, pos as int, data);
    assert(vw == vs);
    lemma_meta_irrelevant(vw, is_, iw);
    lemma_inode_write_keeps(vw, n, iw, iw);
    lemma_owned_in_use(vw, iw);
    lemma_still_sound(vw, v1, iw);
    law_inode_reads_back(vw, n, iw, n);
    assert forall|m: u32| m != n implies #[trigger] read_inode_s(v1, m) == read_inode_s(v, m) by {
        law_inode_reads_back(vw, n, iw, m);
        lemma_table_untouched(v, i, vs, is_, m);
    }
    assert forall|m: u32| m != n && live(v, m) implies #[trigger] v1.used[m as int] by {
        assert(node_ok(v, m));
    }
    assert forall|c: int|
        v.sb.data_start <= c < v.sb.total_blocks && in_use(v, c) && !holds(
            v,
            n,
            c,
        ) implies #[trigger] in_use(v1, c) && v1.disk[c] == v.disk[c] by {
        assert(in_use(v, c));
        assert(!owns(v, i, c));
        assert(in_use(vs, c));
        assert(vs.disk[c] == v.disk[c]);
    }
    assert forall|c: int| #[trigger] holds(v1, n, c) implies holds(v, n, c) || !in_use(v, c) by {
        assert(owns(vw, iw, c));
        assert(owns(vs, is_, c));
    }
    assert(changed_one(v, v1, n));
    lemma_changed_one(v, v1, n);
    lemma_lookups_kept(v, v1, n);
}

/// Setting the size of a file keeps the volume in good order, every lookup, and every
/// other inode.
#[verifier::spinoff_prover]
#[verifier::rlimit(60)]
pub proof fn law_truncate_keeps_order(v: FsView, n: u32, size: u64)
    requires
        sound(v),
        truncate_s(v, n, size).0 is Ok,
    ensures
        ({
            let v1 = truncate_s(v, n, size).1;
            &&& sound(v1)
            &&& lookups_kept(v, v1)
            &&& live(v1, n) && node(v1, n).inode_type == 1 && node(v1, n).size == size
            &&& forall|m: u32| m != n ==> #[trigger] kept(v, v1, m)
        }),
{
    let i = node(v, n);
    assert(node_ok(v, n));
    if 9 * 512 < size < i.size {
        lemma_cut(v, i, size);
    } else {
        lemma_truncate(v, i, size);
    }
    let (rt, vt, it) = truncate_inode_s(v, i, size);
    let v1 = truncate_s(v, n, size).1;
    lemma_inode_write_keeps(vt, n, it, it);
    lemma_owned_in_use(vt, it);
    lemma_still_sound(vt, v1, it);
    law_inode_reads_back(vt, n, it, n);
    assert forall|m: u32| m != n implies #[trigger] read_inode_s(v1, m) == read_inode_s(v, m) by {
        law_inode_reads_back(vt, n, it, m);
        lemma_table_kept(v, i, vt, m);
    }
    assert forall|m: u32| m != n && live(v, m) implies #[trigger] v1.used[m as int] by {
        assert(node_ok(v, m));
    }
    assert forall|c: int|
        v.sb.data_start <= c < v.sb.total_blocks && in_use(v, c) && !holds(
            v,
            n,
            c,
        ) implies #[trigger] in_use(v1, c) && v1.disk[c] == v.disk[c] by {
        assert(!owns(v, i, c));
        assert(in_use(vt, c));
        assert(vt.disk[c] == v.disk[c]);
    }
    assert forall|c: int| #[trigger] holds(v1, n, c) implies holds(v, n, c) || !in_use(v, c) by {
        assert(owns(vt, it, c));
        assert(owns(v, i, c));
    }
    assert(changed_one(v, v1, n));
    lemma_changed_one(v, v1, n);
    lemma_lookups_kept(v, v1, n);
}

/// A change to none but the blocks of a file leaves the inode table.
proof fn lemma_table_kept(v: FsView, i: InodeView, v1: FsView, m: u32)
    requires
        volume_ok(v),
        file_sound(v, i),
        v1.sb == (SuperblockView { free_blocks: v1.sb.free_blocks, ..v.sb }),
        v1.disk.len() == v.disk.len(),
        forall|c: int| 0 <= c < v.disk.len() && !owns(v, i, c) ==> #[trigger] v1.disk[c] == v.disk[c],
    ensures
        read_inode_s(v1, m) == read_inode_s(v, m),
{
    let c = v.sb.inode_table_start + m as int / 8;
    if m < v.sb.inode_count {
        assert(c < v.sb.data_start);
        if owns(v, i, c) {
            let a = choose|a: int|
                0 <= a < max_blocks() && #[trigger] ptr(v.disk, i, a) != 0 && c == ptr(
                    v.disk,
                    i,
                    a,
                );
            assert(v.sb.data_start <= ptr(v.disk, i, a));
        }
        assert(v1.disk[c] == v.disk[c]);
    }
}

/// Giving back all blocks of a file frees none but its own, and writes nothing.
#[verifier::spinoff_prover]
#[verifier::rlimit(60)]
proof fn lemma_free_blocks(v: FsView, i: InodeView)
    requires
        volume_ok(v),
        file_sound(v, i),
        inode_shaped(i),
    ensures
        ({
            let (r, v1, i1) = free_inode_blocks_s(v, i);
            &&& r is Ok
            &&& volume_ok(v1)
            &&& inode_shaped(i1)
            &&& v1.disk == v.disk
            &&& v1.used == v.used
            &&& v1.sb == (SuperblockView { free_blocks: v1.sb.free_blocks, ..v.sb })
            &&& forall|c: int| in_use(v, c) && !owns(v, i, c) ==> #[trigger] in_use(v1, c)
        }),
{
    let (va, ia) = free_direct_s(v, i, 0, 9);
    let direct = i.direct.subrange(0, 9);
    lemma_free_all(v, direct);
    assert forall|c: int| c != 0 && #[trigger] listed(direct, c) implies owns(v, i, c) by {
        let k = choose|k: int| 0 <= k < direct.len() && #[trigger] direct[k] == c;
        assert(ptr(v.disk, i, k) == c);
    }
    let (r, v1, i1) = free_inode_blocks_s(v, i);
    if i.indirect != 0 {
        let b = v.disk[i.indirect as int];
        let ptrs = ptrs_of(b);
        lemma_free_all(va, ptrs);
        let vb = free_all(va, ptrs);
        assert forall|c: int| c != 0 && #[trigger] listed(ptrs, c) implies owns(v, i, c) by {
            let k = choose|k: int| 0 <= k < ptrs.len() && #[trigger] ptrs[k] == c;
            assert(ptr(v.disk, i, k + 9) == c);
        }
        assert forall|c: int| in_use(v, c) && !owns(v, i, c) implies #[trigger] in_use(v1, c) by {
            assert(c != i.indirect);
            if 0 <= c < v.free.len() {
                assert(va.free[c] <==> v.free[c] || (c != 0 && listed(direct, c)));
                assert(vb.free[c] <==> va.free[c] || (c != 0 && listed(ptrs, c)));
            }
        }
    } else {
        assert forall|c: int| in_use(v, c) && !owns(v, i, c) implies #[trigger] in_use(v1, c) by {
            if 0 <= c < v.free.len() {
                assert(va.free[c] <==> v.free[c] || (c != 0 && listed(direct, c)));
            }
        }
    }
}

/// Giving an inode back with its blocks changes that inode alone.
#[verifier::spinoff_prover]
#[verifier::rlimit(60)]
proof fn lemma_discard_changes(v: FsView, n: u32)
    requires
        sound(v),
        live(v, n),
        discard_inode_s(v, n, node(v, n)).0 is Ok,
    ensures
        changed_one(v, discard_inode_s(v, n, node(v, n)).1, n),
        !live(discard_inode_s(v, n, node(v, n)).1, n),
{
    let i = node(v, n);
    assert(node_ok(v, n));
    lemma_free_blocks(v, i);
    let (rf, vf, jf) = free_inode_blocks_s(v, i);
    let j = InodeView { inode_type: 0, size: 0, ..jf };
    let vi = write_inode_s(vf, n, j).1;
    let v1 = discard_inode_s(v, n, i).1;
    law_inode_reads_back(vf, n, j, n);
    assert(read_inode_s(v1, n) == read_inode_s(vi, n));
    assert forall|m: u32| m != n implies #[trigger] read_inode_s(v1, m) == read_inode_s(v, m) by {
        law_inode_reads_back(vf, n, j, m);
        assert(read_inode_s(v1, m) == read_inode_s(vi, m));
        assert(read_inode_s(vf, m) == read_inode_s(v, m));
    }
    assert forall|m: u32| m != n && live(v, m) implies #[trigger] v1.used[m as int] by {
        assert(node_ok(v, m));
    }
    assert forall|c: int|
        v.sb.data_start <= c < v.sb.total_blocks && in_use(v, c) && !holds(
            v,
            n,
            c,
        ) implies #[trigger] in_use(v1, c) && v1.disk[c] == v.disk[c] by {
        assert(in_use(vf, c));
    }
    assert(volume_ok(v1));
}

/// Whatever was found is still found, but for one name of a directory, and in a
/// directory that went.
pub open spec fn lookups_kept_but(v: FsView, v1: FsView, d: u32, name: Seq<char>, n: u32) -> bool {
    forall|e: u32, other: Seq<char>|
        (#[trigger] dir_lookup_s(v, e, other)) is Ok && !(e == d && other == name) && e != n
            ==> dir_lookup_s(v1, e, other) == dir_lookup_s(v, e, other)
}

/// Removing a name changes its directory alone.
#[verifier::spinoff_prover]
#[verifier::rlimit(60)]
proof fn lemma_remove_entry_changes(v: FsView, d: u32, name: Seq<char>)
    requires
        sound(v),
        dir_remove_entry_s(v, d, name).0 is Ok,
    ensures
        changed_one(v, dir_remove_entry_s(v, d, name).1, d),
        live(v, d),
        node(v, d).inode_type == 2,
        dir_lookup_s(v, d, name) == dir_remove_entry_s(v, d, name).0,
{
    let i = node(v, d);
    let v1 = dir_remove_entry_s(v, d, name).1;
    assert(node_ok(v, d));
    law_remove_then_lookup(v, d, name, name);
    lemma_find_alike(v.disk, i, v.disk, i, name, 0, slots(i));
    let k = find_entry(v.disk, i, name, 0, slots(i))->Ok_0;
    let none = new_dirent(0, Seq::empty());
    lemma_entry_at(v, i, k);
    lemma_find_hit(v.disk, i, name, 0, slots(i));
    assert(none.name.len() == 60) by {
        crate::fs::ondisk::law_name_round_trip(Seq::empty());
    }
    lemma_put_entry(v, d, i, k, none);
    lemma_put_keeps_dir(v, d, i, k, v1, none);
}

/// A search ends at an entry that is there.
proof fn lemma_find_hit(disk: Seq<Seq<u8>>, i: InodeView, name: Seq<char>, from: int, total: int)
    ensures
        find_entry(disk, i, name, from, total) matches Ok(k) ==> from <= k < total && (entry_at(
            disk,
            i,
            k,
        ) matches Ok(Some(e)) && matches_name(e, name)),
    decreases total - from,
{
    if from < total {
        lemma_find_hit(disk, i, name, from + 1, total);
    }
}

/// Removing a name and giving back what it led to.
#[verifier::spinoff_prover]
#[verifier::rlimit(60)]
proof fn lemma_removed(v: FsView, d: u32, name: Seq<char>, n: u32)
    requires
        sound(v),
        n != d,
        live(v, n),
        dir_remove_entry_s(v, d, name).0 is Ok,
        discard_inode_s(dir_remove_entry_s(v, d, name).1, n, node(v, n)).0 is Ok,
    ensures
        ({
            let v2 = discard_inode_s(dir_remove_entry_s(v, d, name).1, n, node(v, n)).1;
            &&& sound(v2)
            &&& dir_lookup_s(v2, d, name) == Err::<u32, FsError>(FsError::NotFound)
            &&& lookups_kept_but(v, v2, d, name, n)
            &&& !live(v2, n)
            &&& forall|m: u32| m != n && m != d ==> #[trigger] kept(v, v2, m)
        }),
{
    let v1 = dir_remove_entry_s(v, d, name).1;
    let v2 = discard_inode_s(v1, n, node(v, n)).1;
    lemma_remove_entry_changes(v, d, name);
    lemma_changed_one(v, v1, d);
    assert(kept(v, v1, n));
    lemma_discard_changes(v1, n);
    lemma_changed_one(v1, v2, n);
    assert(dir_lookup_s(v2, d, name) == Err::<u32, FsError>(FsError::NotFound)) by {
        let i = node(v, d);
        assert(node_ok(v, d));
        assert(node_ok(v1, d));
        law_remove_then_lookup(v, d, name, name);
        assert forall|a: int, b: int|
            0 <= a < slots(i) && 0 <= b < slots(i) && a != b && matches_name(
                #[trigger] slot_entry(v.disk, i, a),
                name,
            ) implies !matches_name(#[trigger] slot_entry(v.disk, i, b), name) by {
            assert(!same_name(slot_entry(v.disk, i, a), slot_entry(v.disk, i, b)));
        }
        assert(dir_lookup_s(v1, d, name) == Err::<u32, FsError>(FsError::NotFound));
        assert(kept(v1, v2, d));
        lemma_lookup_same(v1, v2, d, node(v1, d), name);
    }
    assert forall|m: u32| m != n && m != d implies #[trigger] kept(v, v2, m) by {
        assert(kept(v, v1, m));
        assert(kept(v1, v2, m));
        lemma_kept_trans(v, v1, v2, m);
    }
    assert forall|e: u32, other: Seq<char>|
        (#[trigger] dir_lookup_s(v, e, other)) is Ok && !(e == d && other == name) && e
            != n implies dir_lookup_s(v2, e, other) == dir_lookup_s(v, e, other) by {
        assert(node_ok(v, e));
        assert(node_ok(v1, e));
        if e == d {
            law_remove_then_lookup(v, d, name, other);
        } else {
            assert(kept(v, v1, e));
            lemma_lookup_same(v, v1, e, node(v, e), other);
        }
        assert(kept(v1, v2, e));
        lemma_lookup_same(v1, v2, e, node(v1, e), other);
    }
}

/// Deleting a file keeps the volume in good order; the file is no longer in use, its
/// name is not found, and all else that was found is still found.
#[verifier::spinoff_prover]
#[verifier::rlimit(60)]
pub proof fn law_unlink_keeps_order(v: FsView, d: u32, name: Seq<char>, now: u32)
    requires
        sound(v),
        unlink_s(v, d, name, now).0 is Ok,
    ensures
        ({
            let n = dir_lookup_s(v, d, name)->Ok_0;
            let v1 = unlink_s(v, d, name, now).1;
            &&& dir_lookup_s(v, d, name) is Ok
            &&& sound(v1)
            &&& dir_lookup_s(v1, d, name) == Err::<u32, FsError>(FsError::NotFound)
            &&& lookups_kept_but(v, v1, d, name, n)
            &&& !live(v1, n)
            &&& forall|m: u32| m != n && m != d ==> #[trigger] kept(v, v1, m)
        }),
{
    let v1 = dir_remove_entry_s(v, d, name).1;
    let n = dir_remove_entry_s(v, d, name).0->Ok_0;
    lemma_unlink_is(v, d, name, now);
    lemma_remove_entry_changes(v, d, name);
    lemma_changed_one(v, v1, d);
    assert(node_ok(v, d));
    if n == d {
        law_remove_then_lookup(v, d, name, name);
        lemma_remove_keeps_node(v, d, name);
    }
    assert(kept(v, v1, n));
    lemma_removed(v, d, name, n);
}

/// What was deleted was a file.
pub proof fn lemma_unlinked_was_file(v: FsView, d: u32, name: Seq<char>, now: u32)
    requires
        sound(v),
        unlink_s(v, d, name, now).0 is Ok,
    ensures
        ({
            let n = dir_lookup_s(v, d, name)->Ok_0;
            n != d && live(v, n) && node(v, n).inode_type == 1
        }),
{
    let v1 = dir_remove_entry_s(v, d, name).1;
    let n = dir_remove_entry_s(v, d, name).0->Ok_0;
    lemma_unlink_is(v, d, name, now);
    lemma_remove_entry_changes(v, d, name);
    lemma_changed_one(v, v1, d);
    if n == d {
        lemma_remove_keeps_node(v, d, name);
    }
    assert(kept(v, v1, n));
}

/// The directory that a file was deleted from is still a directory, and reads as no
/// file.
pub proof fn lemma_unlink_keeps_dir(v: FsView, d: u32, name: Seq<char>, now: u32)
    requires
        sound(v),
        unlink_s(v, d, name, now).0 is Ok,
    ensures
        read_file_s(unlink_s(v, d, name, now).1, d) == read_file_s(v, d),
{
    let v1 = dir_remove_entry_s(v, d, name).1;
    let n = dir_remove_entry_s(v, d, name).0->Ok_0;
    let v2 = unlink_s(v, d, name, now).1;
    lemma_unlink_is(v, d, name, now);
    lemma_unlinked_was_file(v, d, name, now);
    lemma_remove_entry_changes(v, d, name);
    lemma_changed_one(v, v1, d);
    lemma_remove_keeps_node(v, d, name);
    lemma_discard_changes(v1, n);
    assert(read_inode_s(v2, d) == read_inode_s(v1, d));
}

/// Deleting a file is removing its name and giving back its inode.
#[verifier::spinoff_prover]
proof fn lemma_unlink_is(v: FsView, d: u32, name: Seq<char>, now: u32)
    requires
        unlink_s(v, d, name, now).0 is Ok,
    ensures
        ({
            let (r, v1) = dir_remove_entry_s(v, d, name);
            &&& r is Ok
            &&& live(v1, r->Ok_0)
            &&& node(v1, r->Ok_0).inode_type == 1
            &&& unlink_s(v, d, name, now) == discard_inode_s(v1, r->Ok_0, node(v1, r->Ok_0))
        }),
{
}

/// Removing a name leaves the directory's inode as it is.
proof fn lemma_remove_keeps_node(v: FsView, d: u32, name: Seq<char>)
    requires
        sound(v),
        dir_remove_entry_s(v, d, name).0 is Ok,
    ensures
        read_inode_s(dir_remove_entry_s(v, d, name).1, d) == read_inode_s(v, d),
{
    let i = node(v, d);
    assert(node_ok(v, d));
    let k = find_entry(v.disk, i, name, 0, slots(i))->Ok_0;
    let none = new_dirent(0, Seq::empty());
    lemma_find_hit(v.disk, i, name, 0, slots(i));
    lemma_entry_at(v, i, k);
    crate::fs::ondisk::law_name_round_trip(Seq::empty());
    lemma_put_entry(v, d, i, k, none);
}

/// Removing an empty directory keeps the volume in good order; the directory is no
/// longer in use, its name is not found, and all else that was found is still found.
/// The name must not lead to the directory that it is in.
#[verifier::spinoff_prover]
#[verifier::rlimit(60)]
pub proof fn law_rmdir_keeps_order(v: FsView, d: u32, name: Seq<char>)
    requires
        sound(v),
        dir_lookup_s(v, d, name) != Ok::<u32, FsError>(d),
        rmdir_s(v, d, name).0 is Ok,
    ensures
        ({
            let n = dir_lookup_s(v, d, name)->Ok_0;
            let v1 = rmdir_s(v, d, name).1;
            &&& dir_lookup_s(v, d, name) is Ok
            &&& sound(v1)
            &&& dir_lookup_s(v1, d, name) == Err::<u32, FsError>(FsError::NotFound)
            &&& lookups_kept_but(v, v1, d, name, n)
            &&& !live(v1, n)
            &&& forall|m: u32| m != n && m != d ==> #[trigger] kept(v, v1, m)
        }),
{
    let n = dir_lookup_s(v, d, name)->Ok_0;
    lemma_removed(v, d, name, n);
}

/// Taking an inode and a block for a new directory changes that inode alone, which was
/// not in use.
#[verifier::spinoff_prover]
#[verifier::rlimit(60)]
proof fn lemma_new_dir_changes(v: FsView, d: u32, now: u32)
    requires
        sound(v),
        alloc_inode_s(v).0 is Ok,
        alloc_block_s(alloc_inode_s(v).1).0 is Ok,
    ensures
        ({
            let (rn, v1) = alloc_inode_s(v);
            let (rb, v2) = alloc_block_s(v1);
            let (n, b) = (rn->Ok_0, rb->Ok_0);
            let v3 = put_block(v2, b as int, dir_block(n, d)).1;
            let (r, v4) = write_inode_s(v3, n, dir_inode(b, now));
            &&& !live(v, n)
            &&& n != 0
            &&& r is Ok ==> changed_one(v, v4, n)
            &&& r is Ok ==> read_inode_s(v4, n) == Ok::<InodeView, FsError>(dir_inode(b, now))
            &&& r is Ok ==> v4.disk[b as int] == dir_block(n, d)
        }),
{
    let (rn, v1) = alloc_inode_s(v);
    let n = rn->Ok_0;
    law_alloc_inode(v);
    law_alloc_block(v1);
    let (rb, v2) = alloc_block_s(v1);
    let b = rb->Ok_0;
    let v3 = put_block(v2, b as int, dir_block(n, d)).1;
    let i = dir_inode(b, now);
    let (r, v4) = write_inode_s(v3, n, i);
    assert(node_ok(v, n));
    lemma_dir_block(n, d);
    if r is Ok {
        assert(disk_shaped(v3.disk));
        assert(volume_ok(v3));
        law_inode_reads_back(v3, n, i, n);
        assert(v4.disk[b as int] == dir_block(n, d));
        assert(volume_ok(v4));
        lemma_fresh_dir(v4, i, b, n, d, now);
        lemma_fresh_names(v4.disk, i, b, n, d);
        lemma_two_names(v4.disk, i);
        assert forall|m: u32| m != n implies #[trigger] read_inode_s(v4, m) == read_inode_s(
            v,
            m,
        ) by {
            law_inode_reads_back(v3, n, i, m);
            if m != 0 && m < v.sb.inode_count {
                let t = v.sb.inode_table_start + m / 8;
                assert(t < v.sb.data_start);
                assert(v3.disk[t] == v.disk[t]);
            }
        }
        assert forall|m: u32| m != n && live(v, m) implies #[trigger] v4.used[m as int] by {
            assert(node_ok(v, m));
        }
        assert forall|c: int|
            v.sb.data_start <= c < v.sb.total_blocks && in_use(v, c) && !holds(
                v,
                n,
                c,
            ) implies #[trigger] in_use(v4, c) && v4.disk[c] == v.disk[c] by {
            assert(c != b);
        }
        assert forall|c: int| #[trigger] holds(v4, n, c) implies holds(v, n, c) || !in_use(
            v,
            c,
        ) by {
            assert(owns(v4, i, c));
            let a = choose|a: int|
                0 <= a < max_blocks() && #[trigger] ptr(v4.disk, i, a) != 0 && c == ptr(
                    v4.disk,
                    i,
                    a,
                );
            assert(a == 0);
        }
    }
}

/// Creating a directory keeps the volume in good order. The directory is found under
/// its name, and leads to itself and to the directory that it is in; all else that was
/// found is still found, and no inode changes but that of the directory, which was not
/// in use, and that of the one that it is in.
#[verifier::spinoff_prover]
#[verifier::rlimit(40)]
pub proof fn law_create_dir_keeps_order(v: FsView, d: u32, name: Seq<char>, now: u32)
    requires
        sound(v),
        open_dir_s(v, d) is Ok,
        good_name(name),
        create_dir_s(v, d, name, now).0 is Ok,
    ensures
        ({
            let (r, v1) = create_dir_s(v, d, name, now);
            let n = r->Ok_0;
            &&& sound(v1)
            &&& lookups_kept(v, v1)
            &&& dir_lookup_s(v1, d, name) == r
            &&& dir_lookup_s(v1, n, "."@) == Ok::<u32, FsError>(n)
            &&& dir_lookup_s(v1, n, ".."@) == Ok::<u32, FsError>(d)
            &&& !live(v, n)
            &&& live(v1, n) && node(v1, n).inode_type == 2
            &&& forall|m: u32| m != n && m != d ==> #[trigger] kept(v, v1, m)
        }),
{
    let n = alloc_inode_s(v).0->Ok_0;
    let (rb, v2) = alloc_block_s(alloc_inode_s(v).1);
    let b = rb->Ok_0;
    let v3 = put_block(v2, b as int, dir_block(n, d)).1;
    let v4 = write_inode_s(v3, n, dir_inode(b, now)).1;
    let v5 = create_dir_s(v, d, name, now).1;
    lemma_create_dir_is(v, d, name, now);
    lemma_new_dir_changes(v, d, now);
    law_alloc_inode(v);
    law_alloc_block(alloc_inode_s(v).1);
    lemma_changed_one(v, v4, n);
    lemma_lookups_kept(v, v4, n);
    assert(node_ok(v4, n));
    lemma_dots(v4, n, d, b, now);
    lemma_added(v, v4, v5, d, name, n, now);
}

/// Creating a directory is taking an inode and a block, and naming it.
#[verifier::spinoff_prover]
proof fn lemma_create_dir_is(v: FsView, d: u32, name: Seq<char>, now: u32)
    requires
        create_dir_s(v, d, name, now).0 is Ok,
    ensures
        ({
            let (rn, v1) = alloc_inode_s(v);
            let (rb, v2) = alloc_block_s(v1);
            let (n, b) = (rn->Ok_0, rb->Ok_0);
            let v3 = put_block(v2, b as int, dir_block(n, d)).1;
            let (r, v4) = write_inode_s(v3, n, dir_inode(b, now));
            let (re, v5) = dir_add_entry_s(v4, d, name, n, now);
            &&& rn is Ok && rb is Ok && r is Ok && re is Ok
            &&& create_dir_s(v, d, name, now) == (Ok::<u32, FsError>(n), v5)
        }),
{
}

/// A fresh directory leads to itself and to the one that it is in.
#[verifier::spinoff_prover]
#[verifier::rlimit(60)]
proof fn lemma_dots(v: FsView, n: u32, d: u32, b: u32, now: u32)
    requires
        sound(v),
        n != 0,
        read_inode_s(v, n) == Ok::<InodeView, FsError>(dir_inode(b, now)),
        v.sb.data_start <= b < v.sb.total_blocks,
        v.disk[b as int] == dir_block(n, d),
    ensures
        dir_lookup_s(v, n, "."@) == Ok::<u32, FsError>(n),
        d != 0 ==> dir_lookup_s(v, n, ".."@) == Ok::<u32, FsError>(d),
{
    let i = dir_inode(b, now);
    lemma_dir_block(n, d);
    let block = dir_block(n, d);
    lemma_first_entries(
        v.disk,
        i,
        block,
        new_dirent(n, "."@),
        new_dirent(d, ".."@),
    );
    assert(slots(i) == 2);
    reveal_strlit(".");
    reveal_strlit("..");
    assert("."@.len() != ".."@.len());
    assert(find_entry(v.disk, i, "."@, 0, 2) == Ok::<int, FsError>(0));
    if d != 0 {
        assert(find_entry(v.disk, i, ".."@, 1, 2) == Ok::<int, FsError>(1));
        assert(find_entry(v.disk, i, ".."@, 0, 2) == Ok::<int, FsError>(1));
    }
}

/// Naming a new directory.
#[verifier::spinoff_prover]
#[verifier::rlimit(60)]
proof fn lemma_added(
    v: FsView,
    v4: FsView,
    v5: FsView,
    d: u32,
    name: Seq<char>,
    n: u32,
    now: u32,
)
    requires
        sound(v),
        sound(v4),
        changed_one(v, v4, n),
        lookups_kept(v, v4),
        forall|m: u32| m != n ==> #[trigger] kept(v, v4, m),
        !live(v, n),
        live(v4, n),
        node(v4, n).inode_type == 2,
        n != 0,
        dir_lookup_s(v4, n, "."@) == Ok::<u32, FsError>(n),
        d != 0 ==> dir_lookup_s(v4, n, ".."@) == Ok::<u32, FsError>(d),
        good_name(name),
        n != d,
        dir_add_entry_s(v4, d, name, n, now) == (Ok::<(), FsError>(()), v5),
    ensures
        sound(v5),
        lookups_kept(v, v5),
        dir_lookup_s(v5, d, name) == Ok::<u32, FsError>(n),
        dir_lookup_s(v5, n, "."@) == Ok::<u32, FsError>(n),
        dir_lookup_s(v5, n, ".."@) == Ok::<u32, FsError>(d),
        live(v5, n) && node(v5, n).inode_type == 2,
        forall|m: u32| m != n && m != d ==> #[trigger] kept(v, v5, m),
{
    assert(kept(v, v4, d));
    lemma_add_entry_changes(v4, d, name, n, now);
    lemma_changed_one(v4, v5, d);
    assert(node_ok(v4, d));
    assert forall|other: Seq<char>|
        (#[trigger] dir_lookup_s(v4, d, other)) is Ok implies dir_lookup_s(v5, d, other)
        == dir_lookup_s(v4, d, other) by {
        law_add_then_lookup(v4, d, name, n, now, other);
    }
    law_add_then_lookup(v4, d, name, n, now, name);
    lemma_lookups_kept(v4, v5, d);
    lemma_lookups_trans(v, v4, v5);
    assert(kept(v4, v5, n));
    assert forall|m: u32| m != n && m != d implies #[trigger] kept(v, v5, m) by {
        assert(kept(v, v4, m));
        assert(kept(v4, v5, m));
        lemma_kept_trans(v, v4, v5, m);
    }
}

/// Two states in which every directory answers alike lead every path alike.
proof fn lemma_walk_alike(v: FsView, v1: FsView, cur: u32, parts: Seq<Seq<char>>)
    requires
        forall|d: u32, name: Seq<char>|
            #[trigger] dir_lookup_s(v1, d, name) == dir_lookup_s(v, d, name),
    ensures
        walk_s(v1, cur, parts) == walk_s(v, cur, parts),
    decreases parts.len(),
{
    if parts.len() > 0 {
        assert(dir_lookup_s(v1, cur, parts[0]) == dir_lookup_s(v, cur, parts[0]));
        if let Ok(n) = dir_lookup_s(v, cur, parts[0]) {
            lemma_walk_alike(v, v1, n, parts.drop_first());
        }
    }
}

/// Flushing leaves every lookup and every file as it is.
pub proof fn lemma_sync_alike(v: FsView)
    requires
        sound(v),
    ensures
        sync_s(v).0 is Ok,
        sound(sync_s(v).1),
        forall|d: u32, name: Seq<char>|
            #[trigger] dir_lookup_s(sync_s(v).1, d, name) == dir_lookup_s(v, d, name),
        forall|m: u32| #[trigger] read_file_s(sync_s(v).1, m) == read_file_s(v, m),
{
    let v1 = sync_s(v).1;
    law_sync_keeps_order(v);
    assert forall|d: u32, name: Seq<char>|
        #[trigger] dir_lookup_s(v1, d, name) == dir_lookup_s(v, d, name) by {
        assert(kept(v, v1, d));
        assert(node_ok(v, d));
        if let Ok(i) = open_dir_s(v, d) {
            lemma_lookup_same(v, v1, d, i, name);
        }
    }
    assert forall|m: u32| #[trigger] read_file_s(v1, m) == read_file_s(v, m) by {
        assert(kept(v, v1, m));
        lemma_kept_reads(v, v1, m);
    }
}

/// What was flushed survives: mounting the disk gives a volume in good order in which
/// every path leads where it led, and every file reads as it read.
#[verifier::spinoff_prover]
#[verifier::rlimit(60)]
pub proof fn law_files_survive_a_remount(v: FsView, path: Seq<char>)
    requires
        sound(v),
    ensures
        sync_s(v).0 is Ok,
        mount_s(sync_s(v).1.disk) is Ok,
        ({
            let v2 = mount_s(sync_s(v).1.disk)->Ok_0;
            &&& sound(v2)
            &&& inode_of_path(v2, path) == inode_of_path(v, path)
            &&& read_s_path(Some(v2), path) == read_s_path(Some(v), path)
        }),
{
    let v1 = sync_s(v).1;
    lemma_sync_alike(v);
    lemma_remount(v);
    let v2 = mount_s(v1.disk)->Ok_0;
    let table = v1.sb.inode_table_start as int;
    assert forall|m: u32| #[trigger] read_inode_s(v2, m) == read_inode_s(v1, m) by {}
    assert forall|m: u32| m != 0 && live(v1, m) implies #[trigger] v2.used[m as int] by {
        assert(type_in_table(v1.disk, table, m as int) == node(v1, m).inode_type);
    }
    assert(!live(v2, 0));
    assert forall|c: int|
        v1.sb.data_start <= c < v1.sb.total_blocks && in_use(v1, c) && !holds(
            v1,
            0,
            c,
        ) implies #[trigger] in_use(v2, c) && v2.disk[c] == v1.disk[c] by {}
    assert(changed_one(v1, v2, 0));
    lemma_changed_one(v1, v2, 0);
    assert forall|d: u32, name: Seq<char>|
        #[trigger] dir_lookup_s(v2, d, name) == dir_lookup_s(v, d, name) by {
        assert(read_inode_s(v2, d) == read_inode_s(v1, d));
        assert(dir_lookup_s(v1, d, name) == dir_lookup_s(v, d, name));
    }
    lemma_walk_alike(v, v2, ROOT_INODE, components(path));
    if let Ok(m) = inode_of_path(v, path) {
        assert(read_inode_s(v2, m) == read_inode_s(v1, m));
        assert(read_file_s(v1, m) == read_file_s(v, m));
    }
}

} // verus!
