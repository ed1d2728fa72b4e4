//! What a freshly formatted volume holds when it is mounted.

use crate::bytes::{patch, zeros};
use crate::fs::data_laws::{content, file_sound, max_blocks, ptr};
use crate::fs::dir_laws::{dir_ok, good_name, slot_entry, slots};
use crate::fs::directory::{dir_block, dir_inode, dir_list_s, entry_at, list_from, open_dir_s};
use crate::fs::laws::{disk_shaped, lemma_patch, used_agrees, volume_ok};
use crate::fs::nextfs::{bits_of, block_ptr, bytes_for, read_inode_s, FsError, FsView};
use crate::fs::ondisk::{
    dirent_bytes, dirent_of, field_name, inode_bytes, inode_of, law_dirent_round_trip,
    law_inode_round_trip, law_name_round_trip, law_superblock_round_trip, new_dirent, DirEntryView,
    InodeView,
};
use crate::fs::volume::{
    blank_block, bytes_at, can_format, formatted, mount_s, new_bitmap_byte, new_data_start,
    new_inode_count, new_superblock, new_table_start, used_in_table,
};
use vstd::prelude::*;
use vstd::utf8::{encode_utf8, is_ascii_chars, is_ascii_chars_encode_utf8};

verus! {

proof fn lemma_full_byte(k: u8, m: u8)
    by (bit_vector)
    requires
        k < 8,
        m < 8,
    ensures
        0xFFu8 & (1u8 << k) != 0,
        (0xFFu8 & !(1u8 << m)) & (1u8 << k) != 0 <==> k != m,
{
}

/// Every block of a new volume is marked free but that of the root directory.
proof fn lemma_new_bitmap(disk: Seq<Seq<u8>>, total: u32)
    requires
        disk_shaped(disk),
        total <= disk.len(),
        can_format(total),
    ensures
        ({
            let free = bits_of(bytes_at(formatted(disk, total), 1, bytes_for(total)));
            forall|b: int| 0 <= b < total ==> (#[trigger] free[b] <==> b != new_data_start(total))
        }),
{
    let d = formatted(disk, total);
    let bytes = bytes_at(d, 1, bytes_for(total));
    let start = new_data_start(total);
    assert forall|j: int| 0 <= j < bytes.len() implies #[trigger] bytes[j] == new_bitmap_byte(
        total,
        j,
    ) by {
        let b = 1 + j / 512;
        assert(b < new_table_start(total));
        assert(d[b] == blank_block(total, b));
        assert(512 * (j / 512) + j % 512 == j);
    }
    let free = bits_of(bytes);
    assert forall|b: int| 0 <= b < total implies (#[trigger] free[b] <==> b != start) by {
        lemma_full_byte((b % 8) as u8, (start % 8) as u8);
        assert(bytes[b / 8] == new_bitmap_byte(total, b / 8));
    }
}

proof fn lemma_dot_names()
    ensures
        good_name("."@),
        good_name(".."@),
{
    reveal_strlit(".");
    reveal_strlit("..");
    assert(is_ascii_chars("."@));
    assert(is_ascii_chars(".."@));
    is_ascii_chars_encode_utf8("."@);
    is_ascii_chars_encode_utf8(".."@);
    let a = encode_utf8("."@);
    let b = encode_utf8(".."@);
    assert forall|k: int| 0 <= k < a.len() implies #[trigger] a[k] != 0 by {}
    assert forall|k: int| 0 <= k < b.len() implies #[trigger] b[k] != 0 by {}
}

/// The block of a new directory: `.`, `..` and six empty slots.
pub proof fn lemma_dir_block(own: u32, parent: u32)
    ensures
        ({
            let b = dir_block(own, parent);
            &&& b.len() == 512
            &&& dirent_of(b.subrange(0, 64)) == new_dirent(own, "."@)
            &&& dirent_of(b.subrange(64, 128)) == new_dirent(parent, ".."@)
            &&& forall|k: int|
                2 <= k < 8 ==> (#[trigger] dirent_of(b.subrange(64 * k, 64 * k + 64))).inode == 0
            &&& field_name(new_dirent(own, "."@).name) == "."@
            &&& field_name(new_dirent(parent, ".."@).name) == ".."@
        }),
{
    lemma_dot_names();
    law_name_round_trip("."@);
    law_name_round_trip(".."@);
    let e = new_dirent(own, "."@);
    let f = new_dirent(parent, ".."@);
    law_dirent_round_trip(e);
    law_dirent_round_trip(f);
    let a = patch(zeros(512), 0, dirent_bytes(e));
    let b = dir_block(own, parent);
    lemma_patch(zeros(512), 0, dirent_bytes(e));
    lemma_patch(a, 64, dirent_bytes(f));
    assert(b.subrange(0, 64) =~= dirent_bytes(e));
    assert forall|k: int| 2 <= k < 8 implies (#[trigger] dirent_of(
        b.subrange(64 * k, 64 * k + 64),
    )).inode == 0 by {
        let s = b.subrange(64 * k, 64 * k + 64);
        assert(s[0] == 0 && s[1] == 0 && s[2] == 0 && s[3] == 0);
    }
}

/// A formatted device can be mounted. The new volume is in good order; the root
/// directory holds `.` and `..`, both of which lead to itself; no other inode is
/// in use; and every data block but that of the root directory is free.
pub proof fn law_format_then_mount(disk: Seq<Seq<u8>>, total: u32)
    requires
        disk_shaped(disk),
        total <= disk.len(),
        can_format(total),
    ensures
        ({
            let v = mount_s(formatted(disk, total))->Ok_0;
            let root = dir_inode(new_data_start(total) as u32, 0);
            &&& mount_s(formatted(disk, total)) is Ok
            &&& v.sb == new_superblock(total)
            &&& volume_ok(v)
            &&& used_agrees(v)
            &&& read_inode_s(v, 1) == Ok::<InodeView, FsError>(root)
            &&& dir_ok(v, root)
            &&& field_name(slot_entry(v.disk, root, 0).name) != field_name(
                slot_entry(v.disk, root, 1).name,
            )
            &&& dir_list_s(v, 1) == Ok::<Seq<(Seq<char>, u32)>, FsError>(
                seq![("."@, 1u32), (".."@, 1u32)],
            )
            &&& forall|n: int| 0 <= n < v.sb.inode_count ==> (#[trigger] v.used[n] <==> n == 1)
            &&& forall|b: int|
                v.sb.data_start < b < v.sb.total_blocks ==> #[trigger] v.free[b]
        }),
{
    lemma_new_layout(disk, total);
    lemma_new_used(disk, total);
    lemma_new_bitmap(disk, total);
    let d = formatted(disk, total);
    let v = mount_s(d)->Ok_0;
    let start = new_data_start(total);
    let root = dir_inode(start as u32, 0);
    lemma_new_root(disk, total);
    assert(v.disk == d && v.sb == new_superblock(total));
    assert(read_inode_s(v, 1) == Ok::<InodeView, FsError>(root));
    assert(v.free == bits_of(bytes_at(d, 1, bytes_for(total))));
    lemma_fresh_dir(v, root, start as u32, 1, 1, 0);
    lemma_fresh_names(v.disk, root, start as u32, 1, 1);
    lemma_root_list(v, root, start);
}

/// A formatted device mounts, with everything in its place.
proof fn lemma_new_layout(disk: Seq<Seq<u8>>, total: u32)
    requires
        disk_shaped(disk),
        total <= disk.len(),
        can_format(total),
    ensures
        ({
            let d = formatted(disk, total);
            let v = mount_s(d)->Ok_0;
            &&& mount_s(d) is Ok
            &&& v.disk == d
            &&& v.sb == new_superblock(total)
            &&& volume_ok(v)
            &&& used_agrees(v)
            &&& v.free == bits_of(bytes_at(d, 1, bytes_for(total)))
            &&& v.used == used_in_table(d, new_table_start(total), new_inode_count(total))
        }),
{
    let d = formatted(disk, total);
    let sb = new_superblock(total);
    let start = new_data_start(total);
    let table = new_table_start(total);
    law_superblock_round_trip(sb);
    assert(d[0] == blank_block(total, 0));
    law_inode_round_trip(dir_inode(start as u32, 0));
    lemma_patch(zeros(512), 64, inode_bytes(dir_inode(start as u32, 0)));
    lemma_dir_block(1, 1);
    assert(disk_shaped(d)) by {
        assert forall|b: int| 0 <= b < d.len() implies (#[trigger] d[b]).len() == 512 by {
            if b != start && b != table {
                if b < start {
                    assert(d[b] == blank_block(total, b));
                } else {
                    assert(d[b] == disk[b]);
                }
            }
        }
    }
}

/// The root inode and the root directory's block on a formatted device.
proof fn lemma_new_root(disk: Seq<Seq<u8>>, total: u32)
    requires
        total <= disk.len(),
        can_format(total),
    ensures
        ({
            let d = formatted(disk, total);
            let root = dir_inode(new_data_start(total) as u32, 0);
            &&& inode_of(d[new_table_start(total)].subrange(64, 128)) == root
            &&& d[new_data_start(total)] == dir_block(1, 1)
        }),
{
    let root = dir_inode(new_data_start(total) as u32, 0);
    law_inode_round_trip(root);
    lemma_patch(zeros(512), 64, inode_bytes(root));
}

/// Of a new inode table, only the root inode is in use.
proof fn lemma_new_used(disk: Seq<Seq<u8>>, total: u32)
    requires
        total <= disk.len(),
        can_format(total),
    ensures
        ({
            let d = formatted(disk, total);
            let used = used_in_table(d, new_table_start(total), new_inode_count(total));
            forall|n: int|
                0 <= n < new_inode_count(total) ==> (#[trigger] used[n] <==> n == 1)
        }),
{
    let d = formatted(disk, total);
    let table = new_table_start(total);
    let root = dir_inode(new_data_start(total) as u32, 0);
    let tblock = patch(zeros(512), 64, inode_bytes(root));
    law_inode_round_trip(root);
    lemma_patch(zeros(512), 64, inode_bytes(root));
    assert(d[table] == tblock);
    let used = used_in_table(d, table, new_inode_count(total));
    assert forall|n: int| 0 <= n < new_inode_count(total) implies (#[trigger] used[n] <==> n == 1) by {
        let b = table + n / 8;
        if n / 8 == 0 {
            if n == 1 {
                assert(tblock[64] == inode_bytes(root)[0]);
            } else {
                assert(tblock[64 * n] == 0);
            }
        } else {
            assert(d[b] == blank_block(total, b));
        }
    }
}

/// A directory whose single block is a fresh one.
pub proof fn lemma_fresh_dir(v: FsView, i: InodeView, b: u32, own: u32, parent: u32, now: u32)
    requires
        volume_ok(v),
        i == dir_inode(b, now),
        v.sb.data_start <= b < v.sb.total_blocks,
        !v.free[b as int],
        v.disk[b as int] == dir_block(own, parent),
    ensures
        dir_ok(v, i),
        slots(i) == 2,
        ptr(v.disk, i, 0) == b,
        forall|a: int| 0 < a < max_blocks() ==> #[trigger] ptr(v.disk, i, a) == 0,
{
    let disk = v.disk;
    lemma_fresh_ptrs(v, i, b, now);
    let block = disk[b as int];
    assert forall|k: int| 2 <= k < 8 implies (#[trigger] slot_entry(disk, i, k)).inode == 0 by {
        assert(ptr(disk, i, 0) == b);
        assert(k / 8 == 0 && k % 8 == k);
        assert(dirent_of(block.subrange(64 * k, 64 * k + 64)).inode == 0) by {
            lemma_dir_block(own, parent);
        }
    }
}

/// The two names in a fresh directory differ.
pub proof fn lemma_fresh_names(disk: Seq<Seq<u8>>, i: InodeView, b: u32, own: u32, parent: u32)
    requires
        ptr(disk, i, 0) == b,
        b != 0,
        disk[b as int] == dir_block(own, parent),
    ensures
        field_name(slot_entry(disk, i, 0).name) != field_name(slot_entry(disk, i, 1).name),
{
    let block = dir_block(own, parent);
    assert(field_name(dirent_of(block.subrange(0, 64)).name) == "."@ && field_name(
        dirent_of(block.subrange(64, 128)).name,
    ) == ".."@) by {
        lemma_dir_block(own, parent);
    }
    assert(content(disk, i, 0) == block);
    assert(slot_entry(disk, i, 0) == dirent_of(block.subrange(0, 64)));
    assert(slot_entry(disk, i, 1) == dirent_of(block.subrange(64, 128)));
    reveal_strlit(".");
    reveal_strlit("..");
    assert("."@.len() != ".."@.len());
}

/// The blocks of a directory with a single block.
proof fn lemma_fresh_ptrs(v: FsView, i: InodeView, b: u32, now: u32)
    requires
        i == dir_inode(b, now),
        v.sb.data_start <= b < v.sb.total_blocks,
        !v.free[b as int],
        b != 0,
    ensures
        file_sound(v, i),
        ptr(v.disk, i, 0) == b,
        forall|a: int| 0 < a < max_blocks() ==> #[trigger] ptr(v.disk, i, a) == 0,
{
    assert forall|a: int| 0 <= a < max_blocks() implies #[trigger] ptr(v.disk, i, a) == (if a
        == 0 {
        b
    } else {
        0
    }) by {}
}

/// The first two entries of a directory whose first block is `b`.
pub proof fn lemma_first_entries(
    disk: Seq<Seq<u8>>,
    i: InodeView,
    b: Seq<u8>,
    e: DirEntryView,
    f: DirEntryView,
)
    requires
        i.direct.len() == 9,
        0 < i.direct[0] < disk.len(),
        disk[i.direct[0] as int] == b,
        dirent_of(b.subrange(0, 64)) == e,
        dirent_of(b.subrange(64, 128)) == f,
    ensures
        entry_at(disk, i, 0) == Ok::<Option<DirEntryView>, FsError>(Some(e)),
        entry_at(disk, i, 1) == Ok::<Option<DirEntryView>, FsError>(Some(f)),
{
    assert(block_ptr(disk, i, 0) == Ok::<u32, FsError>(i.direct[0]));
}

/// The listing of a directory whose single block is a fresh one.
proof fn lemma_root_list(v: FsView, root: InodeView, start: int)
    requires
        root == dir_inode(start as u32, 0),
        0 < start < v.disk.len(),
        start <= u32::MAX,
        v.disk[start] == dir_block(1, 1),
        read_inode_s(v, 1) == Ok::<InodeView, FsError>(root),
    ensures
        dir_list_s(v, 1) == Ok::<Seq<(Seq<char>, u32)>, FsError>(
            seq![("."@, 1u32), (".."@, 1u32)],
        ),
{
    let e = new_dirent(1, "."@);
    let f = new_dirent(1, ".."@);
    let b = dir_block(1, 1);
    assert(dirent_of(b.subrange(0, 64)) == e && dirent_of(b.subrange(64, 128)) == f && field_name(
        e.name,
    ) == "."@ && field_name(f.name) == ".."@ && e.inode == 1 && f.inode == 1) by {
        lemma_dir_block(1, 1);
    }
    lemma_first_entries(v.disk, root, b, e, f);
    lemma_list_two(v.disk, root, e, f);
    assert(root.size as int / 64 == 2);
    assert(open_dir_s(v, 1) == Ok::<InodeView, FsError>(root));
}

/// The listing of a directory of two slots, both in use.
proof fn lemma_list_two(disk: Seq<Seq<u8>>, i: InodeView, e: DirEntryView, f: DirEntryView)
    requires
        entry_at(disk, i, 0) == Ok::<Option<DirEntryView>, FsError>(Some(e)),
        entry_at(disk, i, 1) == Ok::<Option<DirEntryView>, FsError>(Some(f)),
        e.inode != 0,
        f.inode != 0,
    ensures
        list_from(disk, i, 0, 2) == Ok::<Seq<(Seq<char>, u32)>, FsError>(
            seq![(field_name(e.name), e.inode), (field_name(f.name), f.inode)],
        ),
{
    let l2 = list_from(disk, i, 2, 2);
    let l1 = list_from(disk, i, 1, 2);
    let l0 = list_from(disk, i, 0, 2);
    assert(l2->Ok_0 =~= Seq::<(Seq<char>, u32)>::empty());
    assert(l1->Ok_0 =~= seq![(field_name(f.name), f.inode)]);
    assert(l0->Ok_0 =~= seq![(field_name(e.name), e.inode), (field_name(f.name), f.inode)]);
}

} // verus!
