//! What holds of NextFS across operations.

use crate::bytes::patch;
use crate::fs::metadata::{chmod_s, live_inode_s, stat_s, FileStat};
use crate::fs::nextfs::{
    alloc_block_s, alloc_inode_s, bits_of, bytes_for, free_block_s, free_inode_s, inode_block,
    inode_slot, next_clear, next_set, put_block, read_inode_s, write_inode_s, FsError, FsView,
};
use crate::fs::ondisk::{
    inode_bytes, inode_shaped, law_inode_round_trip, law_superblock_round_trip, permitted, sb_bytes,
    sb_valid, InodeView,
};
use crate::fs::volume::{
    bitmap_block, bitmap_blocks, bytes_at, mount_s, packed, padded_block, save_bitmap_s, sync_s,
    table_blocks, tables_fit, type_in_table, used_in_table,
};
use vstd::prelude::*;

verus! {

/// Every block of the disk has 512 bytes.
pub open spec fn disk_shaped(disk: Seq<Seq<u8>>) -> bool {
    forall|b: int| 0 <= b < disk.len() ==> (#[trigger] disk[b]).len() == 512
}

/// What was patched in is there, and the rest is as before.
pub proof fn lemma_patch(s: Seq<u8>, off: int, d: Seq<u8>)
    requires
        0 <= off,
        off + d.len() <= s.len(),
    ensures
        patch(s, off, d).len() == s.len(),
        forall|k: int|
            0 <= k < s.len() ==> #[trigger] patch(s, off, d)[k] == if off <= k < off + d.len() {
                d[k - off]
            } else {
                s[k]
            },
        patch(s, off, d).subrange(off, off + d.len()) == d,
{
    assert(patch(s, off, d).subrange(off, off + d.len()) =~= d);
}

/// An inode that was stored is read back, and no other inode changes.
pub proof fn law_inode_reads_back(v: FsView, n: u32, i: InodeView, m: u32)
    requires
        disk_shaped(v.disk),
        inode_shaped(i),
        write_inode_s(v, n, i).0 is Ok,
    ensures
        read_inode_s(write_inode_s(v, n, i).1, n) == Ok::<InodeView, FsError>(i),
        m != n ==> read_inode_s(write_inode_s(v, n, i).1, m) == read_inode_s(v, m),
        disk_shaped(write_inode_s(v, n, i).1.disk),
{
    let v1 = write_inode_s(v, n, i).1;
    let b = inode_block(v.sb.inode_table_start, n);
    law_inode_round_trip(i);
    lemma_patch(v.disk[b], inode_slot(n), inode_bytes(i));
    if m != n && m != 0 && m < v.sb.inode_count {
        let c = inode_block(v.sb.inode_table_start, m);
        if c == b {
            assert(inode_slot(m) + 64 <= inode_slot(n) || inode_slot(n) + 64 <= inode_slot(m));
            assert(v1.disk[c].subrange(inode_slot(m), inode_slot(m) + 64) =~= v.disk[c].subrange(
                inode_slot(m),
                inode_slot(m) + 64,
            ));
        }
    }
}

pub proof fn lemma_next_set(bits: Seq<bool>, from: int, to: int)
    requires
        0 <= from,
    ensures
        from <= to ==> from <= next_set(bits, from, to) <= to,
        from < to && next_set(bits, from, to) < to ==> bits[next_set(bits, from, to)],
        forall|b: int| from <= b < next_set(bits, from, to) && b < to ==> !#[trigger] bits[b],
    decreases to - from,
{
    if from < to && !bits[from] {
        lemma_next_set(bits, from + 1, to);
    }
}

pub proof fn lemma_next_clear(bits: Seq<bool>, from: int, to: int)
    requires
        0 <= from,
    ensures
        from <= to ==> from <= next_clear(bits, from, to) <= to,
        from < to && next_clear(bits, from, to) < to ==> !bits[next_clear(bits, from, to)],
        forall|b: int| from <= b < next_clear(bits, from, to) && b < to ==> #[trigger] bits[b],
    decreases to - from,
{
    if from < to && bits[from] {
        lemma_next_clear(bits, from + 1, to);
    }
}

/// A block that was handed out was free, is a data block, is no longer free,
/// and is the first such block. Nothing else changes but the counter.
pub proof fn law_alloc_block(v: FsView)
    requires
        v.sb.total_blocks <= v.free.len(),
    ensures
        ({
            let (r, v1) = alloc_block_s(v);
            match r {
                Ok(b) => {
                    &&& v.sb.data_start <= b < v.sb.total_blocks
                    &&& v.free[b as int]
                    &&& forall|c: int| v.sb.data_start <= c < b ==> !#[trigger] v.free[c]
                    &&& v1.free == v.free.update(b as int, false)
                    &&& v1.sb.free_blocks + 1 == v.sb.free_blocks
                    &&& v1.disk == v.disk && v1.used == v.used
                },
                Err(e) => e == FsError::NoSpace && v1 == v && (v.sb.free_blocks == 0 || forall|
                    c: int,
                |
                    v.sb.data_start <= c < v.sb.total_blocks ==> !#[trigger] v.free[c]),
            }
        }),
{
    lemma_next_set(v.free, v.sb.data_start as int, v.sb.total_blocks as int);
}

/// A block in use is never handed out.
pub proof fn law_alloc_skips_used(v: FsView, b: int)
    requires
        v.sb.total_blocks <= v.free.len(),
        0 <= b < v.free.len(),
        !v.free[b],
    ensures
        alloc_block_s(v).0 matches Ok(c) ==> c != b,
        !alloc_block_s(v).1.free[b],
{
    law_alloc_block(v);
}

/// Giving back the block just taken restores the state.
pub proof fn law_free_undoes_alloc(v: FsView)
    requires
        v.sb.total_blocks <= v.free.len(),
    ensures
        alloc_block_s(v).0 matches Ok(b) ==> free_block_s(alloc_block_s(v).1, b) == v,
{
    law_alloc_block(v);
    if let Ok(b) = alloc_block_s(v).0 {
        let v1 = alloc_block_s(v).1;
        assert(v1.free.update(b as int, true) =~= v.free);
        assert(free_block_s(v1, b) =~= v);
    }
}

/// An inode that was handed out was unused and is not inode 0; giving it back
/// restores the state.
pub proof fn law_alloc_inode(v: FsView)
    requires
        v.sb.inode_count <= v.used.len(),
    ensures
        ({
            let (r, v1) = alloc_inode_s(v);
            match r {
                Ok(n) => {
                    &&& 0 < n < v.sb.inode_count
                    &&& !v.used[n as int]
                    &&& v1.used == v.used.update(n as int, true)
                    &&& v1.disk == v.disk && v1.free == v.free
                    &&& free_inode_s(v1, n) == v
                },
                Err(e) => e == FsError::NoSpace && v1 == v && (v.sb.free_inodes == 0 || forall|
                    m: int,
                |
                    1 <= m < v.sb.inode_count ==> #[trigger] v.used[m]),
            }
        }),
{
    lemma_next_clear(v.used, 1, v.sb.inode_count as int);
    if let Ok(n) = alloc_inode_s(v).0 {
        let v1 = alloc_inode_s(v).1;
        assert(v1.used.update(n as int, false) =~= v.used);
        assert(free_inode_s(v1, n) =~= v);
    }
}

/// The state of a mounted volume in which bitmap and tables have their proper
/// places: superblock, bitmap, inode table and data, in this order.
pub open spec fn volume_ok(v: FsView) -> bool {
    &&& disk_shaped(v.disk)
    &&& sb_valid(v.sb)
    &&& v.sb.reserved.len() == 472
    &&& v.free.len() == 8 * bytes_for(v.sb.total_blocks)
    &&& v.used.len() == 8 * bytes_for(v.sb.inode_count)
    &&& 1 <= v.sb.bitmap_start
    &&& v.sb.bitmap_start + bitmap_blocks(v.sb.total_blocks) <= v.sb.inode_table_start
    &&& v.sb.inode_table_start + (v.sb.inode_count + 7) / 8 <= v.sb.data_start
    &&& v.sb.data_start <= v.sb.total_blocks <= v.disk.len()
}

/// The state of a mounted volume of which superblock, bitmap and inode table lie on the
/// disk and share no block, in whatever order.
pub open spec fn regions_apart(v: FsView) -> bool {
    let bitmap = bitmap_blocks(v.sb.total_blocks);
    let table = table_blocks(v.sb.inode_count);
    &&& v.disk.len() > 0
    &&& disk_shaped(v.disk)
    &&& sb_valid(v.sb)
    &&& v.sb.reserved.len() == 472
    &&& v.free.len() == 8 * bytes_for(v.sb.total_blocks)
    &&& v.used.len() == 8 * bytes_for(v.sb.inode_count)
    &&& tables_fit(v.sb, v.disk.len() as int)
    &&& bitmap > 0 ==> 1 <= v.sb.bitmap_start
    &&& table > 0 ==> 1 <= v.sb.inode_table_start
    &&& bitmap > 0 && table > 0 ==> v.sb.bitmap_start + bitmap <= v.sb.inode_table_start
        || v.sb.inode_table_start + table <= v.sb.bitmap_start
}

/// The inode bitmap agrees with the inode table.
pub open spec fn used_agrees(v: FsView) -> bool {
    v.used == used_in_table(v.disk, v.sb.inode_table_start as int, v.sb.inode_count)
}

proof fn lemma_save_bitmap(v: FsView, i: int, n: int)
    requires
        0 <= i <= n,
        i < n ==> v.sb.bitmap_start + n <= v.disk.len(),
    ensures
        ({
            let (r, v1) = save_bitmap_s(v, i, n);
            &&& r is Ok
            &&& v1.sb == v.sb && v1.free == v.free && v1.used == v.used
            &&& v1.disk.len() == v.disk.len()
            &&& forall|b: int|
                0 <= b < v.disk.len() ==> #[trigger] v1.disk[b] == if v.sb.bitmap_start + i <= b
                    < v.sb.bitmap_start + n {
                    bitmap_block(v.free, b - v.sb.bitmap_start)
                } else {
                    v.disk[b]
                }
        }),
    decreases n - i,
{
    if i < n {
        let v1 = put_block(v, v.sb.bitmap_start + i, bitmap_block(v.free, i)).1;
        lemma_save_bitmap(v1, i + 1, n);
    }
}

proof fn lemma_bits_of_packed(bits: Seq<bool>)
    requires
        bits.len() % 8 == 0,
    ensures
        bits_of(packed(bits)) == bits,
{
    let bytes = packed(bits);
    assert forall|i: int| 0 <= i < bits.len() implies #[trigger] bits_of(bytes)[i] == bits[i] by {
        let j = i / 8;
        let k = i % 8;
        let b = bytes[j];
        let (b0, b1, b2, b3) = (bits[8 * j], bits[8 * j + 1], bits[8 * j + 2], bits[8 * j + 3]);
        let (b4, b5, b6, b7) = (bits[8 * j + 4], bits[8 * j + 5], bits[8 * j + 6], bits[8 * j + 7]);
        lemma_bits_of_sum(b, b0, b1, b2, b3, b4, b5, b6, b7);
        assert(i == 8 * j + k);
    }
    assert(bits_of(bytes) =~= bits);
}

proof fn lemma_bits_of_sum(
    b: u8,
    b0: bool,
    b1: bool,
    b2: bool,
    b3: bool,
    b4: bool,
    b5: bool,
    b6: bool,
    b7: bool,
)
    by (bit_vector)
    requires
        b == (if b0 {
            1u8
        } else {
            0u8
        }) + (if b1 {
            2u8
        } else {
            0u8
        }) + (if b2 {
            4u8
        } else {
            0u8
        }) + (if b3 {
            8u8
        } else {
            0u8
        }) + (if b4 {
            16u8
        } else {
            0u8
        }) + (if b5 {
            32u8
        } else {
            0u8
        }) + (if b6 {
            64u8
        } else {
            0u8
        }) + (if b7 {
            128u8
        } else {
            0u8
        }),
    ensures
        b & (1u8 << 0u8) != 0 <==> b0,
        b & (1u8 << 1u8) != 0 <==> b1,
        b & (1u8 << 2u8) != 0 <==> b2,
        b & (1u8 << 3u8) != 0 <==> b3,
        b & (1u8 << 4u8) != 0 <==> b4,
        b & (1u8 << 5u8) != 0 <==> b5,
        b & (1u8 << 6u8) != 0 <==> b6,
        b & (1u8 << 7u8) != 0 <==> b7,
{
}

/// What saving leaves on the disk.
pub proof fn lemma_sync(v: FsView)
    requires
        regions_apart(v),
    ensures
        ({
            let (r, v2) = sync_s(v);
            &&& r is Ok
            &&& v2.sb == v.sb && v2.free == v.free && v2.used == v.used
            &&& v2.disk.len() == v.disk.len()
            &&& disk_shaped(v2.disk)
            &&& v2.disk[0] == sb_bytes(v.sb)
            &&& forall|b: int|
                v.sb.bitmap_start <= b < v.sb.bitmap_start + bitmap_blocks(v.sb.total_blocks)
                    ==> #[trigger] v2.disk[b] == bitmap_block(v.free, b - v.sb.bitmap_start)
            &&& forall|b: int|
                0 < b < v.disk.len() && !(v.sb.bitmap_start <= b < v.sb.bitmap_start
                    + bitmap_blocks(v.sb.total_blocks)) ==> #[trigger] v2.disk[b] == v.disk[b]
        }),
{
    let n = bitmap_blocks(v.sb.total_blocks);
    let v1 = put_block(v, 0, sb_bytes(v.sb)).1;
    lemma_save_bitmap(v1, 0, n);
    law_superblock_round_trip(v.sb);
    let v2 = sync_s(v).1;
    assert forall|b: int| 0 <= b < v2.disk.len() implies (#[trigger] v2.disk[b]).len() == 512 by {
        assert(v1.disk[b].len() == 512);
    }
}

/// The bitmap that a saved disk holds.
proof fn lemma_saved_bitmap(disk: Seq<Seq<u8>>, start: int, free: Seq<bool>, total: u32)
    requires
        free.len() == 8 * bytes_for(total),
        forall|b: int|
            start <= b < start + bitmap_blocks(total) ==> #[trigger] disk[b] == bitmap_block(
                free,
                b - start,
            ),
    ensures
        bits_of(bytes_at(disk, start, bytes_for(total))) == free,
{
    lemma_bits_of_packed(free);
    lemma_padded(disk, start, packed(free), bitmap_blocks(total));
}

/// A byte string spread over blocks is read back from them.
proof fn lemma_padded(disk: Seq<Seq<u8>>, start: int, bytes: Seq<u8>, n: int)
    requires
        n == (bytes.len() + 511) / 512,
        forall|b: int|
            start <= b < start + n ==> #[trigger] disk[b] == padded_block(bytes, b - start),
    ensures
        bytes_at(disk, start, bytes.len() as int) == bytes,
{
    let got = bytes_at(disk, start, bytes.len() as int);
    assert forall|k: int| 0 <= k < bytes.len() implies #[trigger] got[k] == bytes[k] by {
        assert(disk[start + k / 512] == padded_block(bytes, k / 512));
        assert(512 * (k / 512) + k % 512 == k);
    }
    assert(got =~= bytes);
}

/// Mounting a saved volume gives back the state that was saved, with the inode bitmap
/// that the inode table gives.
pub proof fn lemma_remount(v: FsView)
    requires
        regions_apart(v),
    ensures
        ({
            let v2 = sync_s(v).1;
            mount_s(v2.disk) == Ok::<FsView, FsError>(
                FsView {
                    used: used_in_table(
                        v2.disk,
                        v.sb.inode_table_start as int,
                        v.sb.inode_count,
                    ),
                    ..v2
                },
            )
        }),
{
    lemma_sync(v);
    let v2 = sync_s(v).1;
    law_superblock_round_trip(v.sb);
    lemma_saved_bitmap(v2.disk, v.sb.bitmap_start as int, v.free, v.sb.total_blocks);
    let want = FsView {
        used: used_in_table(v2.disk, v.sb.inode_table_start as int, v.sb.inode_count),
        ..v2
    };
    assert(mount_s(v2.disk)->Ok_0 =~= want);
}

/// Saving a volume succeeds wherever its regions share no block, and mounting the saved
/// volume gives back the state that was saved. Nothing but the superblock and the
/// bitmap is touched.
pub proof fn law_sync_then_mount(v: FsView)
    requires
        regions_apart(v),
        used_agrees(v),
    ensures
        sync_s(v).0 is Ok,
        mount_s(sync_s(v).1.disk) == Ok::<FsView, FsError>(sync_s(v).1),
        sync_s(v).1 == (FsView { disk: sync_s(v).1.disk, ..v }),
        forall|b: int|
            0 < b < v.disk.len() && !(v.sb.bitmap_start <= b < v.sb.bitmap_start + bitmap_blocks(
                v.sb.total_blocks,
            )) ==> #[trigger] sync_s(v).1.disk[b] == v.disk[b],
{
    lemma_sync(v);
    lemma_remount(v);
    let v2 = sync_s(v).1;
    let table = v.sb.inode_table_start as int;
    assert(used_in_table(v2.disk, table, v.sb.inode_count) =~= v.used) by {
        assert forall|m: int| 0 <= m < v.sb.inode_count implies #[trigger] type_in_table(
            v2.disk,
            table,
            m,
        ) == type_in_table(v.disk, table, m) by {
            assert(v2.disk[table + m / 8] == v.disk[table + m / 8]);
        }
    }
}

/// The superuser is never refused.
pub proof fn law_superuser_permitted(i: InodeView, gid: u16, want: u16)
    ensures
        permitted(i, 0, gid, want),
{
}

/// After a change of permissions, the new bits are what a status query shows and
/// what access is checked against; owner, group and size stay.
pub proof fn law_chmod_then_stat(v: FsView, n: u32, mode: u16, now: u32)
    requires
        disk_shaped(v.disk),
        chmod_s(v, n, mode, now).0 is Ok,
        live_inode_s(v, n) matches Ok(i) ==> inode_shaped(i),
    ensures
        stat_s(v, n) matches Ok(s) && stat_s(chmod_s(v, n, mode, now).1, n) == Ok::<
            FileStat,
            FsError,
        >(FileStat { mode: mode & 0o777, mtime: now, ..s }),
{
    let i = live_inode_s(v, n)->Ok_0;
    law_inode_reads_back(v, n, InodeView { mode: mode & 0o777, mtime: now, ..i }, n);
}

} // verus!
