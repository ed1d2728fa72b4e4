//! Where a volume keeps what, and what is noted of its files.

use crate::bytes::{le16, le32, le64, lemma_number32, lemma_number64, lemma_numbers, number};
use crate::fs::data_laws::{file_sound, lemma_write_span, lemma_write_span_fits};
use crate::fs::dir_laws::{dir_ok, good_name, law_create_then_lookup};
use crate::fs::directory::{create_file_s, dir_block, dir_inode, open_dir_s};
use crate::fs::file_laws::lemma_truncate;
use crate::fs::laws::{law_inode_reads_back, volume_ok};
use crate::fs::metadata::{stat_s, FileStat};
use crate::fs::nextfs::{
    block_ptr, file_block, inode_block, inode_slot, read_inode_s, truncate_inode_s, write_file_s, write_inode_data_s,
    write_span_s, FsError, FsView,
};
use crate::fs::ondisk::{
    dirent_bytes, inode_bytes, inode_shaped, name_field, new_dirent, sb_bytes, sb_valid,
    InodeView, SuperblockView,
};
use crate::fs::volume::{bit_value, can_format, new_superblock, packed, packed_byte};
use vstd::prelude::*;
use vstd::utf8::encode_utf8;

verus! {

/// Two bytes stand for the number that they were made of.
proof fn lemma_number16(s: Seq<u8>, at: int, x: u16)
    requires
        0 <= at,
        at + 2 <= s.len(),
        s.subrange(at, at + 2) == le16(x),
    ensures
        number(s, at, 2) == x,
{
    reveal_with_fuel(number, 3);
    let t = s.subrange(at, at + 2);
    assert(s[at] == t[0] && s[at + 1] == t[1]);
}

/// A superblock is nine words of four bytes, low byte first: the letters NXFS, the size of
/// a block, the number of blocks and of inodes, those of them that are free, and where the
/// bitmap, the inodes and the data begin.
pub proof fn law_superblock_layout(sb: SuperblockView)
    requires
        sb.reserved.len() == 472,
    ensures
        ({
            let s = sb_bytes(sb);
            &&& s.len() == 512
            &&& number(s, 0, 4) == sb.magic
            &&& number(s, 4, 4) == sb.block_size
            &&& number(s, 8, 4) == sb.total_blocks
            &&& number(s, 12, 4) == sb.inode_count
            &&& number(s, 16, 4) == sb.free_blocks
            &&& number(s, 20, 4) == sb.free_inodes
            &&& number(s, 24, 4) == sb.bitmap_start
            &&& number(s, 28, 4) == sb.inode_table_start
            &&& number(s, 32, 4) == sb.data_start
            &&& sb_valid(sb) <==> s[0] == 'N' as int && s[1] == 'X' as int && s[2] == 'F' as int
                && s[3] == 'S' as int && sb.block_size == 512
        }),
{
    let s = sb_bytes(sb);
    assert(s.subrange(0, 4) =~= le32(sb.magic));
    assert(s.subrange(4, 8) =~= le32(sb.block_size));
    assert(s.subrange(8, 12) =~= le32(sb.total_blocks));
    assert(s.subrange(12, 16) =~= le32(sb.inode_count));
    assert(s.subrange(16, 20) =~= le32(sb.free_blocks));
    assert(s.subrange(20, 24) =~= le32(sb.free_inodes));
    assert(s.subrange(24, 28) =~= le32(sb.bitmap_start));
    assert(s.subrange(28, 32) =~= le32(sb.inode_table_start));
    assert(s.subrange(32, 36) =~= le32(sb.data_start));
    lemma_number32(s, 0, sb.magic);
    lemma_number32(s, 4, sb.block_size);
    lemma_number32(s, 8, sb.total_blocks);
    lemma_number32(s, 12, sb.inode_count);
    lemma_number32(s, 16, sb.free_blocks);
    lemma_number32(s, 20, sb.free_inodes);
    lemma_number32(s, 24, sb.bitmap_start);
    lemma_number32(s, 28, sb.inode_table_start);
    lemma_number32(s, 32, sb.data_start);
    assert(number(s, 0, 4) == s[0] + 0x100 * s[1] + 0x1_0000 * s[2] + 0x100_0000 * s[3]) by {
        reveal_with_fuel(number, 5);
    }
}

/// An inode takes 64 bytes: its type, and from byte 2 on its mode, its size, its owner, its
/// group and the time of its last change; from byte 20 on the nine blocks it begins with,
/// and from byte 56 on the block with the others.
pub proof fn law_inode_layout(i: InodeView, k: int)
    requires
        inode_shaped(i),
        0 <= k < 9,
    ensures
        ({
            let s = inode_bytes(i);
            &&& s.len() == 64
            &&& s[0] == i.inode_type
            &&& number(s, 2, 2) == i.mode
            &&& number(s, 4, 8) == i.size
            &&& number(s, 12, 2) == i.uid
            &&& number(s, 14, 2) == i.gid
            &&& number(s, 16, 4) == i.mtime
            &&& number(s, 20 + 4 * k, 4) == i.direct[k]
            &&& number(s, 56, 4) == i.indirect
        }),
{
    let s = inode_bytes(i);
    assert(s.subrange(2, 4) =~= le16(i.mode));
    assert(s.subrange(4, 12) =~= le64(i.size));
    assert(s.subrange(12, 14) =~= le16(i.uid));
    assert(s.subrange(14, 16) =~= le16(i.gid));
    assert(s.subrange(16, 20) =~= le32(i.mtime));
    assert(s.subrange(20 + 4 * k, 24 + 4 * k) =~= le32(i.direct[k]));
    assert(s.subrange(56, 60) =~= le32(i.indirect));
    lemma_number16(s, 2, i.mode);
    lemma_number64(s, 4, i.size);
    lemma_number16(s, 12, i.uid);
    lemma_number16(s, 14, i.gid);
    lemma_number32(s, 16, i.mtime);
    lemma_number32(s, 20 + 4 * k, i.direct[k]);
    lemma_number32(s, 56, i.indirect);
}

/// Inodes lie one behind the other, 64 bytes each, from the start of their table on.
pub proof fn law_inodes_have_their_place(table_start: u32, n: u32)
    ensures
        512 * inode_block(table_start, n) + inode_slot(n) == 512 * table_start + 64 * n,
        0 <= inode_slot(n) <= 512 - 64,
{
}

/// An entry of a directory takes 64 bytes: the inode in four, and then the name, of which
/// 59 bytes at most are kept, with zeros behind it.
pub proof fn law_entry_layout(n: u32, name: Seq<char>, k: int)
    requires
        0 <= k < 60,
    ensures
        ({
            let s = dirent_bytes(new_dirent(n, name));
            let b = encode_utf8(name);
            &&& s.len() == 64
            &&& number(s, 0, 4) == n
            &&& s[4 + k] == (if k < 59 && k < b.len() {
                b[k]
            } else {
                0u8
            })
        }),
{
    let s = dirent_bytes(new_dirent(n, name));
    assert(s.subrange(0, 4) =~= le32(n));
    lemma_number32(s, 0, n);
    assert(s[4 + k] == name_field(name)[k]);
}

/// A new volume has its superblock in block 0; the bitmap follows it with a bit for every
/// block, the inodes follow the bitmap with room for a hundredth of the blocks and for 64
/// at least, and the data follows the inodes. Nothing overlaps, none is left out, and only
/// the root directory is taken of the inodes and of the data.
pub proof fn law_new_volume_layout(total: u32)
    requires
        can_format(total),
    ensures
        ({
            let sb = new_superblock(total);
            &&& sb.total_blocks == total
            &&& sb.bitmap_start == 1
            &&& 4096 * (sb.inode_table_start - 1) >= total > 4096 * (sb.inode_table_start - 2)
            &&& 8 * (sb.data_start - sb.inode_table_start) >= sb.inode_count > 8 * (sb.data_start
                - sb.inode_table_start - 1)
            &&& sb.inode_count >= 64
            &&& 100 * sb.inode_count <= total || sb.inode_count == 64
            &&& 100 * (sb.inode_count + 1) > total
            &&& sb.data_start < total
            &&& sb.data_start + 1 + sb.free_blocks == total
            &&& sb.free_inodes + 1 == sb.inode_count
            &&& sb_valid(sb)
        }),
{
}

/// A device too small to hold the tables of a volume and a block of data cannot be made
/// into one, and any other of ten blocks or more can.
pub proof fn law_what_can_be_formatted(total: u32)
    ensures
        total < 10 ==> !can_format(total),
        10 <= total < 4096 ==> (can_format(total) <==> total > 10),
        total >= 4096 ==> can_format(total),
{
}

/// A new directory lists itself and the directory it is in, and nothing else: its first
/// two entries are for a dot and for two dots, and the rest of its block is zero.
pub proof fn law_new_directory_lists_itself(own: u32, parent: u32, k: int)
    requires
        0 <= k < 512,
    ensures
        ({
            let s = dir_block(own, parent);
            &&& s.len() == 512
            &&& number(s, 0, 4) == own
            &&& number(s, 64, 4) == parent
            &&& s[4] == '.' as int
            &&& s[68] == '.' as int && s[69] == '.' as int
            &&& (5 <= k < 64 || 70 <= k) ==> s[k] == 0
        }),
{
    reveal_strlit(".");
    reveal_strlit("..");
    let dot = encode_utf8("."@);
    let dots = encode_utf8(".."@);
    lemma_ascii_bytes("."@);
    lemma_ascii_bytes(".."@);
    assert("."@[0] == '.' && ".."@[0] == '.' && ".."@[1] == '.');
    assert(dot.len() == 1 && dot[0] == 0x2e);
    assert(dots.len() == 2 && dots[0] == 0x2e && dots[1] == 0x2e);
    let a = dirent_bytes(new_dirent(own, "."@));
    let b = dirent_bytes(new_dirent(parent, ".."@));
    assert(a.len() == 64 && b.len() == 64);
    let s = dir_block(own, parent);
    assert(s.len() == 512);
    assert forall|j: int| 0 <= j < 64 implies s[j] == a[j] by {}
    assert forall|j: int| 64 <= j < 128 implies s[j] == b[j - 64] by {}
    assert forall|j: int| 128 <= j < 512 implies s[j] == 0 by {}
    assert(s.subrange(0, 4) =~= le32(own));
    assert(s.subrange(64, 68) =~= le32(parent));
    lemma_number32(s, 0, own);
    lemma_number32(s, 64, parent);
}

/// Text of characters below 80h is stored one byte for each.
proof fn lemma_ascii_bytes(t: Seq<char>)
    requires
        vstd::utf8::is_ascii_chars(t),
    ensures
        encode_utf8(t).len() == t.len(),
        forall|i: int| 0 <= i < t.len() ==> encode_utf8(t)[i] == t[i] as int,
{
    vstd::utf8::is_ascii_chars_encode_utf8(t);
}

/// A new directory belongs to the superuser, may be read and entered by everyone but
/// changed only by its owner, and is dated when it was made.
pub proof fn law_new_directory(b: u32, now: u32)
    ensures
        ({
            let i = dir_inode(b, now);
            &&& i.inode_type == 2
            &&& i.mode == 7 * 64 + 5 * 8 + 5
            &&& i.size == 2 * 64
            &&& i.uid == 0 && i.gid == 0
            &&& i.mtime == now
            &&& i.direct[0] == b
            &&& forall|k: int| 1 <= k < 9 ==> #[trigger] i.direct[k] == 0
            &&& i.indirect == 0
        }),
{
}

/// A new file is empty, belongs to the superuser, may be read by everyone but written only
/// by its owner, and is dated when it was made.
pub proof fn law_new_file(v: FsView, d: u32, name: Seq<char>, now: u32)
    requires
        volume_ok(v),
        open_dir_s(v, d) matches Ok(i) ==> dir_ok(v, i),
        d < v.used.len() && v.used[d as int],
        good_name(name),
        create_file_s(v, d, name, now).0 is Ok,
    ensures
        ({
            let (r, v1) = create_file_s(v, d, name, now);
            stat_s(v1, r->Ok_0) == Ok::<FileStat, FsError>(
                FileStat {
                    inode: r->Ok_0,
                    inode_type: 1,
                    mode: (6 * 64 + 4 * 8 + 4) as u16,
                    uid: 0,
                    gid: 0,
                    size: 0,
                    mtime: now,
                },
            )
        }),
{
    law_create_then_lookup(v, d, name, now, name);
}

/// A file that was written is as long as what was written and, unless that was nothing,
/// dated when it was written; its mode and its owner stay.
pub proof fn law_writing_dates_the_file(v: FsView, n: u32, data: Seq<u8>, now: u32)
    requires
        volume_ok(v),
        read_inode_s(v, n) matches Ok(i) ==> inode_shaped(i) && file_sound(v, i),
        write_file_s(v, n, data, now).0 is Ok,
    ensures
        ({
            let before = read_inode_s(v, n);
            let after = read_inode_s(write_file_s(v, n, data, now).1, n);
            &&& before matches Ok(i)
            &&& after matches Ok(j)
            &&& after->Ok_0.size == data.len()
            &&& data.len() > 0 ==> after->Ok_0.mtime == now
            &&& after->Ok_0.inode_type == before->Ok_0.inode_type
            &&& after->Ok_0.mode == before->Ok_0.mode
            &&& after->Ok_0.uid == before->Ok_0.uid
            &&& after->Ok_0.gid == before->Ok_0.gid
        }),
{
    let i = read_inode_s(v, n)->Ok_0;
    lemma_truncate(v, i, 0);
    let (rt, vt, it) = truncate_inode_s(v, i, 0);
    let (rs, vs, is_) = write_span_s(vt, it, 0, data);
    lemma_write_span_fits(vt, it, 0, data);
    lemma_write_span(vt, it, 0, data);
    let (rw, vw, iw) = write_inode_data_s(vt, it, 0, data, now);
    law_inode_reads_back(vw, n, iw, n);
}

/// What bit `k` of a byte counts.
pub open spec fn weight(k: int) -> int {
    if k == 0 {
        1
    } else if k == 1 {
        2
    } else if k == 2 {
        4
    } else if k == 3 {
        8
    } else if k == 4 {
        16
    } else if k == 5 {
        32
    } else if k == 6 {
        64
    } else {
        128
    }
}

/// The bitmap of a volume has eight bits to a byte, the lowest first: the bit of block `i`
/// is bit `i % 8` of byte `i / 8`, and it is set while the block is free.
#[verifier::spinoff_prover]
#[verifier::rlimit(40)]
pub proof fn law_bitmap_layout(free: Seq<bool>, i: int)
    requires
        0 <= i < free.len(),
        free.len() % 8 == 0,
    ensures
        packed(free).len() == free.len() / 8,
        free[i] <==> packed(free)[i / 8] as int / weight(i % 8) % 2 == 1,
{
    let j = i / 8;
    let k = i % 8;
    assert(i == 8 * j + k);
    let p = packed_byte(free, j) as int;
    assert(packed(free)[j] == p);
    let v0 = bit_value(free[8 * j], 1);
    let v1 = bit_value(free[8 * j + 1], 1);
    let v2 = bit_value(free[8 * j + 2], 1);
    let v3 = bit_value(free[8 * j + 3], 1);
    let v4 = bit_value(free[8 * j + 4], 1);
    let v5 = bit_value(free[8 * j + 5], 1);
    let v6 = bit_value(free[8 * j + 6], 1);
    let v7 = bit_value(free[8 * j + 7], 1);
    assert(p == v0 + 2 * v1 + 4 * v2 + 8 * v3 + 16 * v4 + 32 * v5 + 64 * v6 + 128 * v7);
    if k == 0 {
        lemma_middle(p, 0, 1, v0, v1 + 2 * v2 + 4 * v3 + 8 * v4 + 16 * v5 + 32 * v6 + 64 * v7);
    } else if k == 1 {
        lemma_middle(p, v0, 2, v1, v2 + 2 * v3 + 4 * v4 + 8 * v5 + 16 * v6 + 32 * v7);
    } else if k == 2 {
        lemma_middle(p, v0 + 2 * v1, 4, v2, v3 + 2 * v4 + 4 * v5 + 8 * v6 + 16 * v7);
    } else if k == 3 {
        lemma_middle(p, v0 + 2 * v1 + 4 * v2, 8, v3, v4 + 2 * v5 + 4 * v6 + 8 * v7);
    } else if k == 4 {
        lemma_middle(p, v0 + 2 * v1 + 4 * v2 + 8 * v3, 16, v4, v5 + 2 * v6 + 4 * v7);
    } else if k == 5 {
        lemma_middle(p, v0 + 2 * v1 + 4 * v2 + 8 * v3 + 16 * v4, 32, v5, v6 + 2 * v7);
    } else if k == 6 {
        lemma_middle(p, v0 + 2 * v1 + 4 * v2 + 8 * v3 + 16 * v4 + 32 * v5, 64, v6, v7);
    } else {
        lemma_middle(
            p,
            v0 + 2 * v1 + 4 * v2 + 8 * v3 + 16 * v4 + 32 * v5 + 64 * v6,
            128,
            v7,
            0,
        );
    }
}

/// A digit between a lower and a higher part of a number is read by dividing.
proof fn lemma_middle(p: int, low: int, w: int, x: int, high: int)
    requires
        w > 0,
        p == low + w * x + 2 * w * high,
        0 <= low < w,
        x == 0 || x == 1,
        high >= 0,
    ensures
        p / w % 2 == x,
{
    assert(p == (x + 2 * high) * w + low) by (nonlinear_arith)
        requires
            p == low + w * x + 2 * w * high,
    ;
    vstd::arithmetic::div_mod::lemma_fundamental_div_mod_converse(p, w, x + 2 * high, low);
}

/// The first nine blocks of a file are named in its inode, and the next 128 in its further
/// block, four bytes each; behind those there is none.
pub proof fn law_block_pointers_layout(disk: Seq<Seq<u8>>, i: InodeView, k: int)
    requires
        inode_shaped(i),
        0 <= k,
        i.indirect != 0,
        i.indirect < disk.len(),
        disk[i.indirect as int].len() == 512,
    ensures
        k < 9 ==> block_ptr(disk, i, k) == Ok::<u32, FsError>(i.direct[k]),
        9 <= k < 137 ==> (block_ptr(disk, i, k) matches Ok(b) && b == number(
            disk[i.indirect as int],
            4 * (k - 9),
            4,
        )),
        k >= 137 ==> block_ptr(disk, i, k) == Err::<u32, FsError>(FsError::NoSpace),
        k < 137 ==> file_block(512 * k) == k && file_block(512 * k + 511) == k,
{
    lemma_numbers(disk[i.indirect as int], 4 * (k - 9));
}

} // verus!
