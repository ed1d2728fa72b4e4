//! Order on a whole NextFS volume: every file has its blocks to itself, every
//! directory is in good order, and the operations keep it so.

use crate::fs::data_laws::{
    content, file_sound, in_use, lemma_inode_write_keeps, lemma_meta_irrelevant, lemma_same_file,
    lemma_same_read, lemma_write_span, lemma_write_span_fits, max_blocks, owns, ptr, same_file,
};
use crate::fs::dir_laws::{
    appended, dir_ok, good_name, grown, law_add_then_lookup, lemma_append, lemma_append_fits,
    lemma_append_is, lemma_append_step, lemma_dir_same, lemma_entry_at, lemma_find_failed,
    lemma_find_unused, lemma_lookup_same, lemma_put_entry, matches_name, slot_entry, slots,
};
use crate::fs::directory::{
    create_file_s, dir_add_entry_s, dir_lookup_s, entry_at, find_entry, find_unused,
};
use crate::fs::file_laws::{
    disjoint, law_write_file_then_read_file, lemma_owned_in_use, lemma_still_sound,
    lemma_table_untouched, lemma_truncate,
};
use crate::fs::laws::{law_alloc_inode, law_inode_reads_back, lemma_sync, volume_ok};
use crate::fs::nextfs::{
    alloc_inode_s, block_ptr, read_file_s, read_inode_s, truncate_inode_s, write_file_s,
    write_inode_data_s, write_inode_s, write_span_s, write_step_s, FsError, FsView,
};
use crate::fs::ondisk::{
    blank_inode, dirent_bytes, field_name, inode_shaped, law_name_round_trip, new_dirent,
    DirEntryView, InodeView, DEFAULT_FILE_MODE, ROOT_INODE,
};
use crate::fs::path::{
    components, law_components_of_parent, law_trailing_slashes, parent_of, without_slashes,
};
use crate::fs::vfs::nx::{entry_name, inode_of_path, parent_inode, read_s_path, write_path_s};
use crate::fs::vfs::walk_s;
use crate::fs::volume::sync_s;
use vstd::prelude::*;

verus! {

/// Inode `n` is in use.
pub open spec fn live(v: FsView, n: u32) -> bool {
    read_inode_s(v, n) matches Ok(i) && i.inode_type != 0
}

/// Inode `n`.
pub open spec fn node(v: FsView, n: u32) -> InodeView {
    read_inode_s(v, n)->Ok_0
}

/// Two entries in use bear the same name.
pub open spec fn same_name(e: DirEntryView, f: DirEntryView) -> bool {
    e.inode != 0 && f.inode != 0 && field_name(e.name) == field_name(f.name)
}

/// No name occurs twice in a directory.
pub open spec fn names_unique(disk: Seq<Seq<u8>>, i: InodeView) -> bool {
    forall|j: int, k: int|
        0 <= j < slots(i) && 0 <= k < slots(i) && j != k ==> !same_name(
            #[trigger] slot_entry(disk, i, j),
            #[trigger] slot_entry(disk, i, k),
        )
}

/// An inode that is in use is marked so, its blocks are data blocks in use, and a
/// directory is in good order and has no name twice.
pub open spec fn node_ok(v: FsView, n: u32) -> bool {
    live(v, n) ==> {
        &&& v.used[n as int]
        &&& inode_shaped(node(v, n))
        &&& file_sound(v, node(v, n))
        &&& node(v, n).inode_type == 2 ==> dir_ok(v, node(v, n)) && names_unique(
            v.disk,
            node(v, n),
        )
    }
}

/// Two inodes in use have no block in common.
pub open spec fn apart(v: FsView, m: u32, n: u32) -> bool {
    live(v, m) && live(v, n) && m != n ==> disjoint(v, node(v, m), node(v, n))
}

/// A volume in good order.
pub open spec fn sound(v: FsView) -> bool {
    &&& volume_ok(v)
    &&& forall|n: u32| #[trigger] node_ok(v, n)
    &&& forall|m: u32, n: u32| #[trigger] apart(v, m, n)
}

/// Inode `n` is in use and has block `c`.
pub open spec fn holds(v: FsView, n: u32, c: int) -> bool {
    live(v, n) && owns(v, node(v, n), c)
}

/// Inode `m` is the same in both states, and so are its blocks.
pub open spec fn kept(v: FsView, v1: FsView, m: u32) -> bool {
    &&& read_inode_s(v1, m) == read_inode_s(v, m)
    &&& live(v, m) ==> same_file(v, v1, node(v, m)) && file_sound(v1, node(v, m))
}

/// The volume is laid out as before.
pub open spec fn same_layout(v: FsView, v1: FsView) -> bool {
    &&& v1.disk.len() == v.disk.len()
    &&& v1.sb.data_start == v.sb.data_start
    &&& v1.sb.total_blocks == v.sb.total_blocks
    &&& v1.sb.inode_count == v.sb.inode_count
    &&& v1.sb.inode_table_start == v.sb.inode_table_start
}

/// One state follows another by a change to inode `n` alone: data blocks in use that
/// are not its own stay as they are, and it gains only blocks that were free.
pub open spec fn changed_one(v: FsView, v1: FsView, n: u32) -> bool {
    &&& volume_ok(v1)
    &&& same_layout(v, v1)
    &&& node_ok(v1, n)
    &&& forall|m: u32| m != n ==> #[trigger] read_inode_s(v1, m) == read_inode_s(v, m)
    &&& forall|m: u32| m != n && live(v, m) ==> #[trigger] v1.used[m as int]
    &&& forall|c: int|
        v.sb.data_start <= c < v.sb.total_blocks && in_use(v, c) && !holds(v, n, c)
            ==> #[trigger] in_use(v1, c) && v1.disk[c] == v.disk[c]
    &&& forall|c: int| #[trigger] holds(v1, n, c) ==> holds(v, n, c) || !in_use(v, c)
}

/// A file that has none of the blocks that a change touched stays as it is.
#[verifier::spinoff_prover]
#[verifier::rlimit(60)]
proof fn lemma_other_kept(v: FsView, v1: FsView, n: u32, m: u32)
    requires
        sound(v),
        changed_one(v, v1, n),
        m != n,
    ensures
        kept(v, v1, m),
        node_ok(v1, m),
        forall|c: int| #[trigger] holds(v1, m, c) <==> holds(v, m, c),
{
    assert(node_ok(v, m));
    assert(read_inode_s(v1, m) == read_inode_s(v, m));
    if live(v, m) {
        let j = node(v, m);
        assert(apart(v, n, m));
        lemma_owned_in_use(v, j);
        assert forall|c: int| #[trigger] owns(v, j, c) implies v1.disk[c] == v.disk[c] && in_use(
            v1,
            c,
        ) by {
            assert(!holds(v, n, c));
            assert(in_use(v1, c));
        }
        lemma_same_file(v, v1, j);
        lemma_still_sound(v, v1, j);
        assert(v1.used[m as int]);
        if j.inode_type == 2 {
            lemma_dir_same(v, v, v1, m, j);
            assert forall|a: int, b: int|
                0 <= a < slots(j) && 0 <= b < slots(j) && a != b implies !same_name(
                #[trigger] slot_entry(v1.disk, j, a),
                #[trigger] slot_entry(v1.disk, j, b),
            ) by {
                assert(content(v1.disk, j, a / 8) == content(v.disk, j, a / 8));
                assert(content(v1.disk, j, b / 8) == content(v.disk, j, b / 8));
                assert(!same_name(slot_entry(v.disk, j, a), slot_entry(v.disk, j, b)));
            }
        }
        assert forall|c: int| #[trigger] holds(v1, m, c) <==> holds(v, m, c) by {
            assert(owns(v1, j, c) <==> owns(v, j, c));
        }
    }
}

/// A change to one inode keeps the volume in good order, and all others.
#[verifier::spinoff_prover]
#[verifier::rlimit(60)]
pub proof fn lemma_changed_one(v: FsView, v1: FsView, n: u32)
    requires
        sound(v),
        changed_one(v, v1, n),
    ensures
        sound(v1),
        forall|m: u32| m != n ==> #[trigger] kept(v, v1, m),
{
    assert forall|m: u32| m != n implies #[trigger] kept(v, v1, m) by {
        lemma_other_kept(v, v1, n, m);
    }
    assert forall|m: u32| #[trigger] node_ok(v1, m) by {
        if m != n {
            lemma_other_kept(v, v1, n, m);
        }
    }
    assert forall|a: u32, b: u32| #[trigger] apart(v1, a, b) by {
        if live(v1, a) && live(v1, b) && a != b {
            assert forall|c: int| #[trigger] owns(v1, node(v1, a), c) implies !owns(
                v1,
                node(v1, b),
                c,
            ) by {
                assert(holds(v1, a, c));
                if holds(v1, b, c) {
                    lemma_no_sharing(v, v1, n, a, b, c);
                }
            }
        }
    }
}

/// No block comes to belong to two inodes.
proof fn lemma_no_sharing(v: FsView, v1: FsView, n: u32, a: u32, b: u32, c: int)
    requires
        sound(v),
        changed_one(v, v1, n),
        a != b,
        holds(v1, a, c),
    ensures
        !holds(v1, b, c),
{
    if holds(v1, b, c) {
        if a != n {
            lemma_other_kept(v, v1, n, a);
            assert(node_ok(v, a));
            lemma_owned_in_use(v, node(v, a));
            assert(holds(v, a, c));
        }
        if b != n {
            lemma_other_kept(v, v1, n, b);
            assert(node_ok(v, b));
            lemma_owned_in_use(v, node(v, b));
            assert(holds(v, b, c));
        }
        assert(holds(v, a, c) && holds(v, b, c));
        assert(apart(v, a, b));
    }
}

/// Replacing the contents of a file changes that file alone.
#[verifier::spinoff_prover]
#[verifier::rlimit(60)]
pub proof fn lemma_write_file_changes(v: FsView, n: u32, data: Seq<u8>, now: u32)
    requires
        sound(v),
        write_file_s(v, n, data, now).0 is Ok,
    ensures
        changed_one(v, write_file_s(v, n, data, now).1, n),
        live(v, n),
        node(v, n).inode_type == 1,
        live(write_file_s(v, n, data, now).1, n),
        node(write_file_s(v, n, data, now).1, n).inode_type == 1,
{
    let i = node(v, n);
    assert(node_ok(v, n));
    let (rt, vt, it) = truncate_inode_s(v, i, 0);
    let (rs, vs, is_) = write_span_s(vt, it, 0, data);
    let (rw, vw, iw) = write_inode_data_s(vt, it, 0, data, now);
    let v1 = write_file_s(v, n, data, now).1;
    lemma_truncate(v, i, 0);
    lemma_write_span_fits(vt, it, 0, data);
    lemma_write_span(vt, it, 0, data);
    assert(vw == vs);
    lemma_meta_irrelevant(vw, is_, iw);
    lemma_inode_write_keeps(vw, n, iw, iw);
    lemma_owned_in_use(vw, iw);
    lemma_still_sound(vw, v1, iw);
    law_inode_reads_back(vw, n, iw, n);
    assert forall|m: u32| m != n implies #[trigger] read_inode_s(v1, m) == read_inode_s(v, m) by {
        law_inode_reads_back(vw, n, iw, m);
        lemma_table_untouched(vt, it, vs, is_, m);
    }
    assert forall|m: u32| m != n && live(v, m) implies #[trigger] v1.used[m as int] by {
        assert(node_ok(v, m));
    }
    assert forall|c: int|
        v.sb.data_start <= c < v.sb.total_blocks && in_use(v, c) && !holds(
            v,
            n,
            c,
        ) implies #[trigger] in_use(v1, c) && v1.disk[c] == v.disk[c] by {
        assert(in_use(vt, c));
        if owns(vt, it, c) {
            assert(owns(v, i, c));
        }
        assert(in_use(vs, c));
        assert(vs.disk[c] == vt.disk[c]);
    }
    assert forall|c: int| #[trigger] holds(v1, n, c) implies holds(v, n, c) || !in_use(v, c) by {
        assert(owns(vw, iw, c));
        assert(owns(vs, is_, c));
        if owns(vt, it, c) {
            assert(owns(v, i, c));
        } else if in_use(v, c) && !owns(v, i, c) {
            assert(in_use(vt, c));
        }
    }
}

/// Adding a name to a directory changes that directory alone.
#[verifier::spinoff_prover]
#[verifier::rlimit(60)]
pub proof fn lemma_add_entry_changes(v: FsView, d: u32, name: Seq<char>, target: u32, now: u32)
    requires
        sound(v),
        good_name(name),
        dir_add_entry_s(v, d, name, target, now).0 is Ok,
    ensures
        changed_one(v, dir_add_entry_s(v, d, name, target, now).1, d),
        live(v, d),
        live(dir_add_entry_s(v, d, name, target, now).1, d),
        node(dir_add_entry_s(v, d, name, target, now).1, d).inode_type == 2,
{
    let i = node(v, d);
    let e = new_dirent(target, name);
    let v1 = dir_add_entry_s(v, d, name, target, now).1;
    assert(node_ok(v, d));
    law_name_round_trip(name);
    lemma_name_is_new(v, i, name);
    lemma_find_unused(v.disk, i, 0, slots(i));
    match find_unused(v.disk, i, 0, slots(i)) {
        Ok(Some(k)) => {
            lemma_entry_at(v, i, k);
            lemma_put_entry(v, d, i, k, e);
            lemma_put_keeps_dir(v, d, i, k, v1, e);
        },
        _ => {
            lemma_append_changes(v, d, i, target, name, now);
        },
    }
}

/// A name that is not found in a directory is in none of its slots.
proof fn lemma_name_is_new(v: FsView, i: InodeView, name: Seq<char>)
    requires
        volume_ok(v),
        dir_ok(v, i),
        find_entry(v.disk, i, name, 0, slots(i)) is Err,
    ensures
        forall|j: int|
            0 <= j < slots(i) ==> !matches_name(#[trigger] slot_entry(v.disk, i, j), name),
{
    assert forall|j: int| 0 <= j < slots(i) implies !matches_name(
        #[trigger] slot_entry(v.disk, i, j),
        name,
    ) by {
        lemma_entry_at(v, i, j);
        if ptr(v.disk, i, j / 8) == 0 {
            lemma_empty_slot(v.disk, i, j);
        } else {
            assert forall|k: int| 0 <= k < j + 1 implies (#[trigger] entry_at(v.disk, i, k)
                matches Ok(Some(e))) by {
                lemma_entry_at(v, i, k);
                if k / 8 != j / 8 {
                    assert(k / 8 < slots(i) / 8);
                    assert(ptr(v.disk, i, k / 8) != 0);
                }
            }
            lemma_find_failed(v.disk, i, name, 0, j + 1, slots(i));
            assert(entry_at(v.disk, i, j) matches Ok(Some(e)));
        }
    }
}

/// A slot in a block that is not there holds nothing.
proof fn lemma_empty_slot(disk: Seq<Seq<u8>>, i: InodeView, k: int)
    requires
        0 <= k,
        ptr(disk, i, k / 8) == 0,
    ensures
        slot_entry(disk, i, k).inode == 0,
{
    let z = crate::bytes::zeros(512).subrange(64 * (k % 8), 64 * (k % 8) + 64);
    assert(crate::bytes::get32(z, 0) == 0);
}

/// Overwriting a slot of a directory keeps the directory in good order, if the new
/// entry is empty or bears a new name.
#[verifier::spinoff_prover]
#[verifier::rlimit(60)]
pub proof fn lemma_put_keeps_dir(
    v: FsView,
    d: u32,
    i: InodeView,
    k: int,
    v1: FsView,
    e: DirEntryView,
)
    requires
        sound(v),
        live(v, d),
        i == node(v, d),
        i.inode_type == 2,
        0 <= k < slots(i),
        ptr(v.disk, i, k / 8) != 0,
        entry_at(v1.disk, i, k) == Ok::<Option<DirEntryView>, FsError>(Some(e)),
        e.inode == 0 || forall|j: int|
            0 <= j < slots(i) ==> !matches_name(
                #[trigger] slot_entry(v.disk, i, j),
                field_name(e.name),
            ),
        crate::fs::data_laws::evolved(v, i, v1, i),
        forall|j: int|
            0 <= j < 8 * max_blocks() && j != k ==> #[trigger] entry_at(v1.disk, i, j) == entry_at(
                v.disk,
                i,
                j,
            ),
        forall|m: u32| #[trigger] read_inode_s(v1, m) == read_inode_s(v, m),
        forall|a: int| 0 <= a < max_blocks() ==> #[trigger] ptr(v1.disk, i, a) == ptr(v.disk, i, a),
    ensures
        changed_one(v, v1, d),
        live(v1, d),
{
    assert(node_ok(v, d));
    assert(read_inode_s(v1, d) == read_inode_s(v, d));
    assert forall|s: int|
        slots(i) <= s < 8 * (slots(i) / 8) + 8 && s < 8 * max_blocks() implies (
    #[trigger] slot_entry(v1.disk, i, s)).inode == 0 by {
        lemma_entry_at(v, i, s);
        lemma_entry_at(v1, i, s);
        assert(slot_entry(v.disk, i, s).inode == 0);
        assert(entry_at(v1.disk, i, s) == entry_at(v.disk, i, s));
        assert(ptr(v1.disk, i, s / 8) == ptr(v.disk, i, s / 8));
    }
    assert(dir_ok(v1, i));
    assert forall|j: int| 0 <= j < slots(i) implies #[trigger] slot_entry(v1.disk, i, j) == (if j
        == k {
        e
    } else {
        slot_entry(v.disk, i, j)
    }) || (slot_entry(v1.disk, i, j).inode == 0 && j != k) by {
        lemma_entry_at(v, i, j);
        lemma_entry_at(v1, i, j);
        assert(ptr(v1.disk, i, j / 8) == ptr(v.disk, i, j / 8));
        if ptr(v.disk, i, j / 8) == 0 {
            lemma_empty_slot(v1.disk, i, j);
        } else if j != k {
            assert(entry_at(v1.disk, i, j) == entry_at(v.disk, i, j));
        }
    }
    assert(names_unique(v1.disk, i)) by {
        assert forall|a: int, b: int|
            0 <= a < slots(i) && 0 <= b < slots(i) && a != b implies !same_name(
            #[trigger] slot_entry(v1.disk, i, a),
            #[trigger] slot_entry(v1.disk, i, b),
        ) by {
            assert(!same_name(slot_entry(v.disk, i, a), slot_entry(v.disk, i, b)));
        }
    }
    assert forall|m: u32| m != d && live(v, m) implies #[trigger] v1.used[m as int] by {
        assert(node_ok(v, m));
    }
    assert forall|c: int|
        v.sb.data_start <= c < v.sb.total_blocks && in_use(v, c) && !holds(
            v,
            d,
            c,
        ) implies #[trigger] in_use(v1, c) && v1.disk[c] == v.disk[c] by {
        assert(in_use(v, c));
        assert(!owns(v, i, c));
    }
    assert forall|c: int| #[trigger] holds(v1, d, c) implies holds(v, d, c) || !in_use(v, c) by {
        assert(owns(v1, i, c));
    }
}

/// Appending a name to a directory changes that directory alone, and keeps it in good
/// order.
#[verifier::spinoff_prover]
#[verifier::rlimit(60)]
proof fn lemma_append_changes(
    v: FsView,
    d: u32,
    i: InodeView,
    target: u32,
    name: Seq<char>,
    now: u32,
)
    requires
        sound(v),
        live(v, d),
        i == node(v, d),
        i.inode_type == 2,
        new_dirent(target, name).name.len() == 60,
        field_name(new_dirent(target, name).name) == name,
        forall|j: int|
            0 <= j < slots(i) ==> !matches_name(#[trigger] slot_entry(v.disk, i, j), name),
        crate::fs::directory::append_entry_s(v, d, i, new_dirent(target, name), now).0 is Ok,
    ensures
        ({
            let v1 = crate::fs::directory::append_entry_s(
                v,
                d,
                i,
                new_dirent(target, name),
                now,
            ).1;
            &&& changed_one(v, v1, d)
            &&& live(v1, d)
            &&& node(v1, d).inode_type == 2
        }),
{
    let e = new_dirent(target, name);
    let v1 = crate::fs::directory::append_entry_s(v, d, i, e, now).1;
    let (rs, vs, is_) = write_step_s(v, i, i.size as int, dirent_bytes(e));
    let g = grown(i, is_, now);
    assert(node_ok(v, d));
    lemma_append_fits(v, d, i, e, now);
    lemma_append(v, d, i, e, now);
    lemma_append_is(v, d, i, e, now);
    lemma_append_step(v, i, e);
    lemma_meta_irrelevant(vs, is_, g);
    lemma_inode_write_keeps(vs, d, g, g);
    lemma_owned_in_use(vs, g);
    lemma_still_sound(vs, v1, g);
    lemma_grown_ok(v, i, v1, g, e);
    assert forall|m: u32| m != d && live(v, m) implies #[trigger] v1.used[m as int] by {
        assert(node_ok(v, m));
    }
    assert forall|c: int|
        v.sb.data_start <= c < v.sb.total_blocks && in_use(v, c) && !holds(
            v,
            d,
            c,
        ) implies #[trigger] in_use(v1, c) && v1.disk[c] == v.disk[c] by {
        assert(in_use(v, c));
        assert(!owns(v, i, c));
        assert(in_use(vs, c));
        assert(vs.disk[c] == v.disk[c]);
    }
    assert forall|c: int| #[trigger] holds(v1, d, c) implies holds(v, d, c) || !in_use(v, c) by {
        assert(owns(v1, g, c));
        assert(owns(vs, g, c));
        assert(owns(vs, is_, c));
    }
}

/// A directory that grew by two slots is in good order.
#[verifier::spinoff_prover]
#[verifier::rlimit(60)]
proof fn lemma_grown_ok(
    v: FsView,
    i: InodeView,
    v1: FsView,
    g: InodeView,
    e: DirEntryView,
)
    requires
        volume_ok(v),
        volume_ok(v1),
        dir_ok(v, i),
        slots(i) + 2 <= 8 * max_blocks(),
        file_sound(v1, g),
        inode_shaped(g),
        g.inode_type == 2,
        g.size == i.size + 128,
        slots(g) == slots(i) + 2,
        appended(v, i, v1, g, e),
        names_unique(v.disk, i),
        forall|j: int|
            0 <= j < slots(i) ==> !matches_name(
                #[trigger] slot_entry(v.disk, i, j),
                field_name(e.name),
            ),
    ensures
        dir_ok(v1, g),
        names_unique(v1.disk, g),
{
    let t = slots(i);
    assert(slot_entry(v1.disk, g, t + 1).inode == 0) by {
        assert(slot_entry(v1.disk, g, t + 1) == slot_entry(v.disk, i, t + 1));
        if (t + 1) / 8 != t / 8 {
            assert(ptr(v.disk, i, (t + 1) / 8) == 0);
            lemma_empty_slot(v.disk, i, t + 1);
        }
    }
    assert forall|a: int, b: int|
        0 <= a < slots(g) && 0 <= b < slots(g) && a != b implies !same_name(
        #[trigger] slot_entry(v1.disk, g, a),
        #[trigger] slot_entry(v1.disk, g, b),
    ) by {
        if a < t && b < t {
            assert(slot_entry(v1.disk, g, a) == slot_entry(v.disk, i, a));
            assert(slot_entry(v1.disk, g, b) == slot_entry(v.disk, i, b));
            assert(!same_name(slot_entry(v.disk, i, a), slot_entry(v.disk, i, b)));
        } else if a < t && b == t {
            assert(slot_entry(v1.disk, g, a) == slot_entry(v.disk, i, a));
        } else if b < t && a == t {
            assert(slot_entry(v1.disk, g, b) == slot_entry(v.disk, i, b));
        }
    }
    assert forall|a: int| 0 <= a < slots(g) / 8 implies #[trigger] ptr(v1.disk, g, a) != 0 by {
        if a != t / 8 {
            assert(ptr(v1.disk, g, a) == ptr(v.disk, i, a));
        }
    }
    assert forall|a: int| slots(g) / 8 < a < max_blocks() implies #[trigger] ptr(v1.disk, g, a)
        == 0 by {
        assert(ptr(v1.disk, g, a) == ptr(v.disk, i, a));
    }
    assert forall|k: int|
        slots(g) <= k < 8 * (slots(g) / 8) + 8 && k < 8 * max_blocks() implies (
    #[trigger] slot_entry(v1.disk, g, k)).inode == 0 by {
        assert(slot_entry(v1.disk, g, k) == slot_entry(v.disk, i, k));
        if k / 8 == t / 8 {
            assert(slot_entry(v.disk, i, k).inode == 0);
        } else {
            assert(ptr(v.disk, i, k / 8) == 0);
            lemma_empty_slot(v.disk, i, k);
        }
    }
}

/// The inode of a new file.
pub open spec fn new_file(now: u32) -> InodeView {
    InodeView { mtime: now, ..blank_inode(1, DEFAULT_FILE_MODE) }
}

/// Taking an inode for a new file changes that inode alone, which was not in use.
#[verifier::spinoff_prover]
#[verifier::rlimit(60)]
pub proof fn lemma_new_file_changes(v: FsView, now: u32)
    requires
        sound(v),
        alloc_inode_s(v).0 is Ok,
    ensures
        ({
            let n = alloc_inode_s(v).0->Ok_0;
            let (r, v2) = write_inode_s(alloc_inode_s(v).1, n, new_file(now));
            &&& r is Ok ==> changed_one(v, v2, n)
            &&& r is Ok ==> read_inode_s(v2, n) == Ok::<InodeView, FsError>(new_file(now))
            &&& !live(v, n)
            &&& n != 0
        }),
{
    law_alloc_inode(v);
    let (ra, v1) = alloc_inode_s(v);
    let n = ra->Ok_0;
    let (r, v2) = write_inode_s(v1, n, new_file(now));
    assert(node_ok(v, n));
    if r is Ok {
        let f = new_file(now);
        law_inode_reads_back(v1, n, f, n);
        assert forall|a: int| 0 <= a < max_blocks() implies #[trigger] ptr(v2.disk, f, a) == 0 by {}
        assert(file_sound(v2, f));
        assert forall|m: u32| m != n implies #[trigger] read_inode_s(v2, m) == read_inode_s(
            v,
            m,
        ) by {
            law_inode_reads_back(v1, n, f, m);
            assert(read_inode_s(v1, m) == read_inode_s(v, m));
        }
        assert forall|m: u32| m != n && live(v, m) implies #[trigger] v2.used[m as int] by {
            assert(node_ok(v, m));
        }
        assert forall|c: int|
            v.sb.data_start <= c < v.sb.total_blocks && in_use(v, c) && !holds(
                v,
                n,
                c,
            ) implies #[trigger] in_use(v2, c) && v2.disk[c] == v.disk[c] by {}
        assert forall|c: int| #[trigger] holds(v2, n, c) implies holds(v, n, c) || !in_use(
            v,
            c,
        ) by {
            assert(!owns(v2, f, c));
        }
    }
}

/// Flushing a volume to its disk always succeeds and changes no inode and no data.
#[verifier::spinoff_prover]
#[verifier::rlimit(60)]
pub proof fn lemma_sync_changes(v: FsView)
    requires
        sound(v),
    ensures
        sync_s(v).0 is Ok,
        changed_one(v, sync_s(v).1, 0),
{
    lemma_sync(v);
    let v1 = sync_s(v).1;
    assert(volume_ok(v1));
    assert forall|m: u32| m != 0 implies #[trigger] read_inode_s(v1, m) == read_inode_s(v, m) by {
        if m < v.sb.inode_count {
            let b = v.sb.inode_table_start + m / 8;
            assert(v1.disk[b] == v.disk[b]);
        }
    }
    assert forall|m: u32| m != 0 && live(v, m) implies #[trigger] v1.used[m as int] by {
        assert(node_ok(v, m));
    }
    assert(!live(v1, 0));
    assert forall|c: int|
        v.sb.data_start <= c < v.sb.total_blocks && in_use(v, c) && !holds(
            v,
            0,
            c,
        ) implies #[trigger] in_use(v1, c) && v1.disk[c] == v.disk[c] by {}
}

/// Whatever a directory led to, it still leads to.
pub open spec fn lookups_kept(v: FsView, v1: FsView) -> bool {
    forall|d: u32, name: Seq<char>|
        (#[trigger] dir_lookup_s(v, d, name)) is Ok ==> dir_lookup_s(v1, d, name) == dir_lookup_s(
            v,
            d,
            name,
        )
}

/// A change to one inode that keeps what it led to keeps what all led to.
pub proof fn lemma_lookups_kept(v: FsView, v1: FsView, n: u32)
    requires
        sound(v),
        changed_one(v, v1, n),
        forall|name: Seq<char>|
            (#[trigger] dir_lookup_s(v, n, name)) is Ok ==> dir_lookup_s(v1, n, name)
                == dir_lookup_s(v, n, name),
    ensures
        lookups_kept(v, v1),
{
    lemma_changed_one(v, v1, n);
    assert forall|d: u32, name: Seq<char>|
        (#[trigger] dir_lookup_s(v, d, name)) is Ok implies dir_lookup_s(v1, d, name)
        == dir_lookup_s(v, d, name) by {
        if d != n {
            let i = node(v, d);
            assert(kept(v, v1, d));
            assert(node_ok(v, d));
            lemma_lookup_same(v, v1, d, i, name);
        }
    }
}

/// What a path led to, it still leads to.
pub proof fn lemma_walk_kept(v: FsView, v1: FsView, cur: u32, parts: Seq<Seq<char>>)
    requires
        lookups_kept(v, v1),
        walk_s(v, cur, parts) is Ok,
    ensures
        walk_s(v1, cur, parts) == walk_s(v, cur, parts),
    decreases parts.len(),
{
    if parts.len() > 0 {
        assert(dir_lookup_s(v, cur, parts[0]) is Ok);
        let n = dir_lookup_s(v, cur, parts[0])->Ok_0;
        assert(dir_lookup_s(v1, cur, parts[0]) == Ok::<u32, FsError>(n));
        lemma_walk_kept(v, v1, n, parts.drop_first());
    }
}

/// A walk with one more step.
pub proof fn lemma_walk_push(v: FsView, cur: u32, parts: Seq<Seq<char>>, name: Seq<char>)
    ensures
        walk_s(v, cur, parts.push(name)) == match walk_s(v, cur, parts) {
            Ok(p) => dir_lookup_s(v, p, name),
            Err(e) => Err(e),
        },
    decreases parts.len(),
{
    let all = parts.push(name);
    assert(all.drop_first() =~= if parts.len() == 0 {
        Seq::empty()
    } else {
        parts.drop_first().push(name)
    });
    if parts.len() == 0 {
        if let Ok(n) = dir_lookup_s(v, cur, name) {
            assert(walk_s(v, n, all.drop_first()) == Ok::<u32, FsError>(n));
        }
    } else {
        assert(all[0] == parts[0]);
        if let Ok(n) = dir_lookup_s(v, cur, parts[0]) {
            lemma_walk_push(v, n, parts.drop_first(), name);
        }
    }
}

/// What is the same in a second and a third state is the same in the first and third.
pub proof fn lemma_kept_trans(v: FsView, v1: FsView, v2: FsView, m: u32)
    requires
        kept(v, v1, m),
        kept(v1, v2, m),
    ensures
        kept(v, v2, m),
{
    if live(v, m) {
        let j = node(v, m);
        assert forall|a: int| 0 <= a implies #[trigger] block_ptr(v2.disk, j, a) == block_ptr(
            v.disk,
            j,
            a,
        ) by {
            assert(block_ptr(v1.disk, j, a) == block_ptr(v.disk, j, a));
        }
        assert forall|a: int| 0 <= a < max_blocks() implies #[trigger] content(v2.disk, j, a)
            == content(v.disk, j, a) by {
            assert(content(v1.disk, j, a) == content(v.disk, j, a));
        }
    }
}

/// A file that stayed the same reads the same.
pub proof fn lemma_kept_reads(v: FsView, v1: FsView, m: u32)
    requires
        sound(v),
        sound(v1),
        kept(v, v1, m),
    ensures
        read_file_s(v1, m) == read_file_s(v, m),
{
    if live(v, m) {
        let j = node(v, m);
        assert(node_ok(v, m));
        lemma_same_read(v, v1, j, 0, j.size as int);
    }
}

/// Lookups kept twice are kept.
pub proof fn lemma_lookups_trans(v: FsView, v1: FsView, v2: FsView)
    requires
        lookups_kept(v, v1),
        lookups_kept(v1, v2),
    ensures
        lookups_kept(v, v2),
{
    assert forall|d: u32, name: Seq<char>|
        (#[trigger] dir_lookup_s(v, d, name)) is Ok implies dir_lookup_s(v2, d, name)
        == dir_lookup_s(v, d, name) by {
        assert(dir_lookup_s(v1, d, name) is Ok);
    }
}

/// Creating a file keeps the volume in good order; the new file is found under its
/// name, all else that was found is still found, and no inode changes but that of the
/// file, which was not in use, and that of the directory.
#[verifier::spinoff_prover]
#[verifier::rlimit(60)]
pub proof fn law_create_file_keeps_order(v: FsView, d: u32, name: Seq<char>, now: u32)
    requires
        sound(v),
        good_name(name),
        create_file_s(v, d, name, now).0 is Ok,
    ensures
        ({
            let (r, v1) = create_file_s(v, d, name, now);
            let n = r->Ok_0;
            &&& sound(v1)
            &&& lookups_kept(v, v1)
            &&& dir_lookup_s(v1, d, name) == r
            &&& !live(v, n)
            &&& read_inode_s(v1, n) == Ok::<InodeView, FsError>(new_file(now))
            &&& live(v, d) && node(v, d).inode_type == 2
            &&& live(v1, d) && node(v1, d).inode_type == 2
            &&& forall|m: u32| m != n && m != d ==> #[trigger] kept(v, v1, m)
        }),
{
    let n = alloc_inode_s(v).0->Ok_0;
    let v2 = write_inode_s(alloc_inode_s(v).1, n, new_file(now)).1;
    let v3 = create_file_s(v, d, name, now).1;
    lemma_new_file_changes(v, now);
    lemma_changed_one(v, v2, n);
    assert(node(v2, n).inode_type == 1);
    assert(d != n);
    assert(kept(v, v2, d));
    lemma_lookups_kept(v, v2, n);
    lemma_add_entry_changes(v2, d, name, n, now);
    lemma_changed_one(v2, v3, d);
    assert(node_ok(v2, d));
    assert forall|other: Seq<char>|
        (#[trigger] dir_lookup_s(v2, d, other)) is Ok implies dir_lookup_s(v3, d, other)
        == dir_lookup_s(v2, d, other) by {
        law_add_then_lookup(v2, d, name, n, now, other);
    }
    law_add_then_lookup(v2, d, name, n, now, name);
    lemma_lookups_kept(v2, v3, d);
    lemma_lookups_trans(v, v2, v3);
    assert(kept(v2, v3, n));
    assert forall|m: u32| m != n && m != d implies #[trigger] kept(v, v3, m) by {
        assert(kept(v, v2, m));
        assert(kept(v2, v3, m));
        lemma_kept_trans(v, v2, v3, m);
    }
}

/// Replacing the contents of a file keeps the volume in good order, every path, and
/// every other inode.
pub proof fn law_write_file_keeps_order(v: FsView, n: u32, data: Seq<u8>, now: u32)
    requires
        sound(v),
        write_file_s(v, n, data, now).0 is Ok,
    ensures
        ({
            let v1 = write_file_s(v, n, data, now).1;
            &&& sound(v1)
            &&& lookups_kept(v, v1)
            &&& read_file_s(v1, n) == Ok::<Seq<u8>, FsError>(data)
            &&& forall|m: u32| m != n ==> #[trigger] kept(v, v1, m)
        }),
{
    let v1 = write_file_s(v, n, data, now).1;
    lemma_write_file_changes(v, n, data, now);
    lemma_changed_one(v, v1, n);
    assert(node_ok(v, n));
    law_write_file_then_read_file(v, n, data, now);
    lemma_lookups_kept(v, v1, n);
}

/// Flushing a volume keeps it in good order, and all that is in it.
pub proof fn law_sync_keeps_order(v: FsView)
    requires
        sound(v),
    ensures
        sync_s(v).0 is Ok,
        sound(sync_s(v).1),
        lookups_kept(v, sync_s(v).1),
        forall|m: u32| #[trigger] kept(v, sync_s(v).1, m),
{
    let v1 = sync_s(v).1;
    lemma_sync_changes(v);
    lemma_changed_one(v, v1, 0);
    lemma_lookups_kept(v, v1, 0);
    assert forall|m: u32| #[trigger] kept(v, v1, m) by {
        if m == 0 {
            assert(read_inode_s(v1, 0) == read_inode_s(v, 0));
        }
    }
}

/// The inode that writing to a path writes to: that of the file that is there, or of
/// the one that is created.
pub open spec fn written_inode(v: FsView, path: Seq<char>, now: u32) -> u32 {
    let p = parent_inode(v, path)->Ok_0;
    match dir_lookup_s(v, p, entry_name(path)) {
        Ok(n) => n,
        Err(_) => create_file_s(v, p, entry_name(path), now).0->Ok_0,
    }
}

/// What is written to a path is what is read from it, until something else is
/// written: the file is created where there is none. Every other path that led to a
/// file leads to the same file with the same contents, and the volume stays in good
/// order.
#[verifier::spinoff_prover]
#[verifier::rlimit(60)]
pub proof fn law_write_path_then_read_path(
    v: FsView,
    path: Seq<char>,
    data: Seq<u8>,
    now: u32,
    other: Seq<char>,
)
    requires
        sound(v),
        entry_name(path).len() > 0,
        good_name(entry_name(path)),
        write_path_s(v, path, data, now).0 is Ok,
    ensures
        ({
            let v1 = write_path_s(v, path, data, now).1;
            let n = written_inode(v, path, now);
            &&& sound(v1)
            &&& inode_of_path(v1, path) == Ok::<u32, FsError>(n)
            &&& read_s_path(Some(v1), path) == Ok::<Seq<u8>, FsError>(data)
            &&& inode_of_path(v, other) matches Ok(m) ==> inode_of_path(v1, other) == Ok::<
                u32,
                FsError,
            >(m) && (m != n ==> read_s_path(Some(v1), other) == read_s_path(Some(v), other))
        }),
{
    let p = parent_inode(v, path)->Ok_0;
    let name = entry_name(path);
    let n = written_inode(v, path, now);
    let vc = match dir_lookup_s(v, p, name) {
        Ok(_) => v,
        Err(_) => create_file_s(v, p, name, now).1,
    };
    let vw = write_file_s(vc, n, data, now).1;
    let v1 = write_path_s(v, path, data, now).1;
    if dir_lookup_s(v, p, name) is Err {
        law_create_file_keeps_order(v, p, name, now);
    }
    law_write_file_keeps_order(vc, n, data, now);
    law_sync_keeps_order(vw);
    assert(v1 == sync_s(vw).1);
    lemma_lookups_trans(v, vc, vw);
    lemma_lookups_trans(v, vw, v1);
    lemma_lookups_trans(vc, vw, v1);
    let parent = parent_of(without_slashes(path));
    law_trailing_slashes(path);
    law_components_of_parent(without_slashes(path));
    lemma_walk_push(v1, ROOT_INODE, components(parent), name);
    lemma_walk_kept(v, v1, ROOT_INODE, components(parent));
    assert(dir_lookup_s(vc, p, name) == Ok::<u32, FsError>(n));
    assert(kept(vw, v1, n));
    lemma_kept_reads(vw, v1, n);
    if let Ok(m) = inode_of_path(v, other) {
        lemma_walk_kept(v, v1, ROOT_INODE, components(other));
        if m != n {
            lemma_others_read(v, vc, vw, v1, m, n, p);
        }
    }
}

/// A file that was neither created nor written to reads the same.
proof fn lemma_others_read(
    v: FsView,
    vc: FsView,
    vw: FsView,
    v1: FsView,
    m: u32,
    n: u32,
    p: u32,
)
    requires
        sound(v),
        sound(vc),
        sound(vw),
        sound(v1),
        m != n,
        vc == v || ((m != p ==> kept(v, vc, m)) && live(v, p) && node(v, p).inode_type == 2 && live(
            vc,
            p,
        ) && node(vc, p).inode_type == 2),
        kept(vc, vw, m),
        kept(vw, v1, m),
    ensures
        read_file_s(v1, m) == read_file_s(v, m),
{
    lemma_kept_reads(vc, vw, m);
    lemma_kept_reads(vw, v1, m);
    if vc != v && m != p {
        lemma_kept_reads(v, vc, m);
    }
}

} // verus!
