//! Making, mounting and saving a NextFS volume.

use crate::bytes::{patch, push_fill, push_range, splice, zeroed, zeros};
use crate::driver::block::{
    device_count, device_ok, only_device_changed, read_one, write_one, BlockDevice, BlockError,
    BlockRegistry,
};
use crate::fs::directory::{dir_block, dir_inode, new_dir_block};
use crate::fs::nextfs::{
    bits_of, bytes_for, device_failed, did, fs_frame, fs_ok, fs_view, got, put_block, set_bit,
    FsError, FsView, NextFS,
};
use crate::fs::ondisk::{
    inode_bytes, sb_bytes, sb_of, sb_valid, Inode, Superblock, SuperblockView, MAGIC,
};
use vstd::prelude::*;

verus! {

/// Blocks that a bitmap of `total` bits takes.
pub open spec fn bitmap_blocks(total: u32) -> int {
    (bytes_for(total) + 511) / 512
}

/// Blocks that a table of `count` inodes takes.
pub open spec fn table_blocks(count: u32) -> int {
    (count + 7) / 8
}

/// `n` bytes from the start of block `start` on.
pub open spec fn bytes_at(disk: Seq<Seq<u8>>, start: int, n: int) -> Seq<u8> {
    Seq::new(n as nat, |k: int| disk[start + k / 512][k % 512])
}

/// The type byte of inode `n` in a table that starts at block `start`.
pub open spec fn type_in_table(disk: Seq<Seq<u8>>, start: int, n: int) -> u8 {
    disk[start + n / 8][64 * (n % 8)]
}

/// Which inodes of a table are in use.
pub open spec fn used_in_table(disk: Seq<Seq<u8>>, start: int, count: u32) -> Seq<bool> {
    Seq::new(
        (8 * bytes_for(count)) as nat,
        |n: int| n < count && type_in_table(disk, start, n) != 0,
    )
}

/// Whether bitmap and inode table lie within the device.
pub open spec fn tables_fit(sb: SuperblockView, len: int) -> bool {
    &&& bitmap_blocks(sb.total_blocks) > 0 ==> sb.bitmap_start + bitmap_blocks(sb.total_blocks)
        <= len
    &&& table_blocks(sb.inode_count) > 0 ==> sb.inode_table_start + table_blocks(sb.inode_count)
        <= len
}

/// The file system that a disk holds.
pub open spec fn mount_s(disk: Seq<Seq<u8>>) -> Result<FsView, FsError> {
    if disk.len() == 0 {
        Err(FsError::BlockError(BlockError::OutOfRange))
    } else {
        let sb = sb_of(disk[0]);
        if !sb_valid(sb) {
            Err(FsError::InvalidMagic)
        } else if !tables_fit(sb, disk.len() as int) {
            Err(FsError::BlockError(BlockError::OutOfRange))
        } else {
            Ok(
                FsView {
                    disk,
                    sb,
                    free: bits_of(
                        bytes_at(disk, sb.bitmap_start as int, bytes_for(sb.total_blocks)),
                    ),
                    used: used_in_table(disk, sb.inode_table_start as int, sb.inode_count),
                },
            )
        }
    }
}

/// One bit as a number.
pub open spec fn bit_value(b: bool, weight: int) -> int {
    if b {
        weight
    } else {
        0
    }
}

/// Byte `j` of the byte string that holds `bits`, eight to a byte.
pub open spec fn packed_byte(bits: Seq<bool>, j: int) -> u8 {
    (bit_value(bits[8 * j], 1) + bit_value(bits[8 * j + 1], 2) + bit_value(bits[8 * j + 2], 4)
        + bit_value(bits[8 * j + 3], 8) + bit_value(bits[8 * j + 4], 16) + bit_value(
        bits[8 * j + 5],
        32,
    ) + bit_value(bits[8 * j + 6], 64) + bit_value(bits[8 * j + 7], 128)) as u8
}

/// The byte string that holds `bits`, eight to a byte.
pub open spec fn packed(bits: Seq<bool>) -> Seq<u8> {
    Seq::new(bits.len() / 8, |j: int| packed_byte(bits, j))
}

proof fn lemma_byte_bits(b: u8)
    by (bit_vector)
    ensures
        b == (if b & (1u8 << 0u8) != 0 {
            1u8
        } else {
            0u8
        }) + (if b & (1u8 << 1u8) != 0 {
            2u8
        } else {
            0u8
        }) + (if b & (1u8 << 2u8) != 0 {
            4u8
        } else {
            0u8
        }) + (if b & (1u8 << 3u8) != 0 {
            8u8
        } else {
            0u8
        }) + (if b & (1u8 << 4u8) != 0 {
            16u8
        } else {
            0u8
        }) + (if b & (1u8 << 5u8) != 0 {
            32u8
        } else {
            0u8
        }) + (if b & (1u8 << 6u8) != 0 {
            64u8
        } else {
            0u8
        }) + (if b & (1u8 << 7u8) != 0 {
            128u8
        } else {
            0u8
        }),
{
}

/// Packing the bits of a byte string gives the byte string.
pub proof fn lemma_packed(bytes: Seq<u8>)
    ensures
        packed(bits_of(bytes)) == bytes,
{
    let bits = bits_of(bytes);
    assert forall|j: int| 0 <= j < bytes.len() implies #[trigger] packed_byte(bits, j)
        == bytes[j] by {
        let b = bytes[j];
        assert((8 * j) / 8 == j && (8 * j) % 8 == 0);
        assert((8 * j + 1) / 8 == j && (8 * j + 1) % 8 == 1);
        assert((8 * j + 2) / 8 == j && (8 * j + 2) % 8 == 2);
        assert((8 * j + 3) / 8 == j && (8 * j + 3) % 8 == 3);
        assert((8 * j + 4) / 8 == j && (8 * j + 4) % 8 == 4);
        assert((8 * j + 5) / 8 == j && (8 * j + 5) % 8 == 5);
        assert((8 * j + 6) / 8 == j && (8 * j + 6) % 8 == 6);
        assert((8 * j + 7) / 8 == j && (8 * j + 7) % 8 == 7);
        lemma_byte_bits(b);
    }
    assert(packed(bits) =~= bytes);
}

/// Block `i` of a byte string that is spread over blocks, padded with zeros.
pub open spec fn padded_block(bytes: Seq<u8>, i: int) -> Seq<u8> {
    Seq::new(
        512,
        |k: int|
            if 512 * i + k < bytes.len() {
                bytes[512 * i + k]
            } else {
                0
            },
    )
}

/// Block `i` of the bitmap on disk.
pub open spec fn bitmap_block(free: Seq<bool>, i: int) -> Seq<u8> {
    padded_block(packed(free), i)
}

/// Writing blocks `[i, n)` of the bitmap.
pub open spec fn save_bitmap_s(v: FsView, i: int, n: int) -> (Result<(), FsError>, FsView)
    decreases n - i,
{
    if i >= n {
        (Ok(()), v)
    } else {
        match put_block(v, v.sb.bitmap_start + i, bitmap_block(v.free, i)) {
            (Err(e), v1) => (Err(e), v1),
            (Ok(_), v1) => save_bitmap_s(v1, i + 1, n),
        }
    }
}

/// Writing superblock and bitmap to disk.
pub open spec fn sync_s(v: FsView) -> (Result<(), FsError>, FsView) {
    match put_block(v, 0, sb_bytes(v.sb)) {
        (Err(e), v1) => (Err(e), v1),
        (Ok(_), v1) => save_bitmap_s(v1, 0, bitmap_blocks(v.sb.total_blocks)),
    }
}

/// Number of inodes of a new volume: one for every hundred blocks, at least 64.
pub open spec fn new_inode_count(total: u32) -> u32 {
    if total / 100 > 64 {
        total / 100
    } else {
        64
    }
}

/// First block of the inode table of a new volume.
pub open spec fn new_table_start(total: u32) -> int {
    1 + bitmap_blocks(total)
}

/// First data block of a new volume.
pub open spec fn new_data_start(total: u32) -> int {
    new_table_start(total) + table_blocks(new_inode_count(total))
}

/// A device of `total` blocks is large enough for a volume.
pub open spec fn can_format(total: u32) -> bool {
    total >= 10 && new_data_start(total) < total
}

/// The superblock of a new volume: the root directory takes one block and one
/// inode.
pub open spec fn new_superblock(total: u32) -> SuperblockView {
    SuperblockView {
        magic: MAGIC,
        block_size: 512,
        total_blocks: total,
        inode_count: new_inode_count(total),
        free_blocks: (total - new_data_start(total) - 1) as u32,
        free_inodes: (new_inode_count(total) - 1) as u32,
        bitmap_start: 1,
        inode_table_start: new_table_start(total) as u32,
        data_start: new_data_start(total) as u32,
        reserved: zeros(472),
    }
}

/// Byte `j` of the bitmap of a new volume: all blocks free but that of the root
/// directory.
pub open spec fn new_bitmap_byte(total: u32, j: int) -> u8 {
    if j == new_data_start(total) / 8 {
        0xFFu8 & !(1u8 << ((new_data_start(total) % 8) as u8))
    } else {
        0xFF
    }
}

/// Block `b` of a new volume, before the root directory is stored.
pub open spec fn blank_block(total: u32, b: int) -> Seq<u8> {
    if b == 0 {
        sb_bytes(new_superblock(total))
    } else if b < new_table_start(total) {
        Seq::new(512, |k: int| new_bitmap_byte(total, 512 * (b - 1) + k))
    } else {
        zeros(512)
    }
}

/// The disk after blocks `[0, n)` were written.
pub open spec fn blanked(disk: Seq<Seq<u8>>, total: u32, n: int) -> Seq<Seq<u8>> {
    Seq::new(
        disk.len(),
        |b: int|
            if b < n {
                blank_block(total, b)
            } else {
                disk[b]
            },
    )
}

/// A freshly formatted disk. Blocks that hold no metadata and no root directory
/// are left as they were.
pub open spec fn formatted(disk: Seq<Seq<u8>>, total: u32) -> Seq<Seq<u8>> {
    let start = new_data_start(total);
    blanked(disk, total, start).update(
        new_table_start(total),
        patch(zeros(512), 64, inode_bytes(dir_inode(start as u32, 0))),
    ).update(start, dir_block(1, 1))
}

/// Writes one block of a device.
fn store<D: BlockDevice>(devs: &mut BlockRegistry<D>, idx: usize, n: u64, buf: &Vec<u8>) -> (r:
    Result<(), FsError>)
    requires
        idx < old(devs)@.len(),
        device_ok(&old(devs)@[idx as int]),
        old(devs)@[idx as int].unit() == 512,
        buf@.len() == 512,
        n < old(devs)@[idx as int].blocks().len(),
    ensures
        only_device_changed(old(devs)@, final(devs)@, idx as int),
        device_ok(&final(devs)@[idx as int]),
        match r {
            Ok(_) => final(devs)@[idx as int].blocks() == old(devs)@[idx as int].blocks().update(
                n as int,
                buf@,
            ),
            Err(e) => device_failed(e) && !old(devs)@[idx as int].reliable(),
        },
{
    match write_one(devs, idx, n, buf.as_slice()) {
        Ok(_) => Ok(()),
        Err(e) => Err(FsError::BlockError(e)),
    }
}

impl NextFS {
    /// Formats a block device with a fresh, empty volume: superblock, bitmap,
    /// inode table and a root directory with `.` and `..`.
    pub fn format<D: BlockDevice>(devs: &mut BlockRegistry<D>, dev_idx: usize) -> (r: Result<
        (),
        FsError,
    >)
        requires
            dev_idx < old(devs)@.len() ==> device_ok(&old(devs)@[dev_idx as int]),
        ensures
            dev_idx >= old(devs)@.len() ==> r == Err::<(), FsError>(FsError::DeviceNotFound)
                && final(devs)@ == old(devs)@,
            dev_idx < old(devs)@.len() ==> {
                let d = old(devs)@[dev_idx as int];
                let total = d.blocks().len() as u32;
                if d.unit() != 512 {
                    r == Err::<(), FsError>(FsError::UnsupportedBlockSize) && final(devs)@ == old(
                        devs,
                    )@
                } else if !can_format(total) {
                    r == Err::<(), FsError>(FsError::DeviceTooSmall) && final(devs)@ == old(devs)@
                } else {
                    &&& only_device_changed(old(devs)@, final(devs)@, dev_idx as int)
                    &&& device_ok(&final(devs)@[dev_idx as int])
                    &&& match r {
                        Ok(_) => final(devs)@[dev_idx as int].blocks() == formatted(
                            d.blocks(),
                            total,
                        ),
                        Err(e) => device_failed(e) && !d.reliable(),
                    }
                }
            },
    {
        if dev_idx >= device_count(devs) {
            return Err(FsError::DeviceNotFound);
        }
        let infos = crate::driver::block::list(devs);
        let info = &infos[dev_idx];
        let total: u32 = info.block_count as u32;
        let ghost d = devs@[dev_idx as int];
        let ghost disk = d.blocks();
        assert(crate::driver::block::describes(infos@[dev_idx as int], dev_idx as int, d));
        assert(total <= info.block_count) by {
            let c = info.block_count;
            assert(c as u32 <= c) by (bit_vector);
        }
        if info.block_size != 512 {
            return Err(FsError::UnsupportedBlockSize);
        }
        if total < 10 {
            return Err(FsError::DeviceTooSmall);
        }
        let inode_count: u32 = if total / 100 > 64 {
            total / 100
        } else {
            64
        };
        let tb: u32 = (inode_count + 7) / 8;
        let bb: u32 = ((((total as u64 + 7) / 8) + 511) / 512) as u32;
        let table_start: u32 = 1 + bb;
        let data_start: u32 = table_start + tb;
        if data_start >= total {
            return Err(FsError::DeviceTooSmall);
        }
        let sb = Superblock {
            magic: MAGIC,
            block_size: 512,
            total_blocks: total,
            inode_count,
            free_blocks: total - data_start - 1,
            free_inodes: inode_count - 1,
            bitmap_start: 1,
            inode_table_start: table_start,
            data_start,
            reserved: [0;472],
        };
        assert(sb@.reserved =~= zeros(472));
        assert(sb@ == new_superblock(total));
        let sb_block = sb.to_bytes();
        match store(devs, dev_idx, 0, &sb_block) {
            Ok(_) => {},
            Err(e) => return Err(e),
        }
        assert(devs@[dev_idx as int].blocks() =~= blanked(disk, total, 1));
        let mut i: u32 = 0;
        while i < bb
            invariant
                only_device_changed(old(devs)@, devs@, dev_idx as int),
                device_ok(&devs@[dev_idx as int]),
                dev_idx < devs@.len(),
                d == old(devs)@[dev_idx as int],
                disk == d.blocks(),
                d.unit() == 512,
                can_format(total),
                total == disk.len() as u32 <= disk.len(),
                bb == bitmap_blocks(total),
                i <= bb,
                table_start == 1 + bb,
                data_start == new_data_start(total) < total,
                devs@[dev_idx as int].blocks() == blanked(disk, total, 1 + i),
            decreases bb - i,
        {
            let block = new_bitmap_block(i, data_start);
            assert(block@ =~= blank_block(total, 1 + i));
            match store(devs, dev_idx, 1 + i as u64, &block) {
                Ok(_) => {},
                Err(e) => return Err(e),
            }
            i += 1;
            assert(devs@[dev_idx as int].blocks() =~= blanked(disk, total, 1 + i));
        }
        let zero = zeroed(512);
        i = 0;
        while i < tb
            invariant
                only_device_changed(old(devs)@, devs@, dev_idx as int),
                device_ok(&devs@[dev_idx as int]),
                dev_idx < devs@.len(),
                d == old(devs)@[dev_idx as int],
                disk == d.blocks(),
                d.unit() == 512,
                can_format(total),
                total == disk.len() as u32 <= disk.len(),
                i <= tb,
                zero@ == zeros(512),
                table_start == new_table_start(total),
                table_start + tb == data_start == new_data_start(total) < total,
                devs@[dev_idx as int].blocks() == blanked(disk, total, table_start + i),
            decreases tb - i,
        {
            match store(devs, dev_idx, table_start as u64 + i as u64, &zero) {
                Ok(_) => {},
                Err(e) => return Err(e),
            }
            i += 1;
            assert(devs@[dev_idx as int].blocks() =~= blanked(disk, total, table_start + i));
        }
        let mut root = Inode::new_dir();
        root.size = 128;
        root.direct[0] = data_start;
        assert(root@ =~= dir_inode(data_start, 0));
        match NextFS::write_inode_raw(devs, dev_idx, table_start, 1, &root) {
            Ok(_) => {},
            Err(e) => return Err(e),
        }
        let block = new_dir_block(1, 1);
        store(devs, dev_idx, data_start as u64, &block)
    }

    /// Writes an inode to a table that starts at block `table_start`.
    fn write_inode_raw<D: BlockDevice>(
        devs: &mut BlockRegistry<D>,
        dev_idx: usize,
        table_start: u32,
        inode_num: u32,
        inode: &Inode,
    ) -> (r: Result<(), FsError>)
        requires
            dev_idx < old(devs)@.len(),
            device_ok(&old(devs)@[dev_idx as int]),
            old(devs)@[dev_idx as int].unit() == 512,
            table_start + inode_num / 8 < old(devs)@[dev_idx as int].blocks().len(),
        ensures
            only_device_changed(old(devs)@, final(devs)@, dev_idx as int),
            device_ok(&final(devs)@[dev_idx as int]),
            ({
                let disk = old(devs)@[dev_idx as int].blocks();
                let b = table_start + inode_num / 8;
                match r {
                    Ok(_) => final(devs)@[dev_idx as int].blocks() == disk.update(
                        b,
                        patch(disk[b], 64 * (inode_num % 8), inode_bytes(inode@)),
                    ),
                    Err(e) => device_failed(e) && !old(devs)@[dev_idx as int].reliable(),
                }
            }),
    {
        let b: u64 = table_start as u64 + (inode_num / 8) as u64;
        let mut buf = match read_one(devs, dev_idx, b) {
            Ok(x) => x,
            Err(e) => return Err(FsError::BlockError(e)),
        };
        let bytes = inode.to_bytes();
        splice(&mut buf, 64 * ((inode_num % 8) as usize), bytes.as_slice());
        store(devs, dev_idx, b, &buf)
    }
}

/// Block `i` of the bitmap of a new volume.
fn new_bitmap_block(i: u32, data_start: u32) -> (block: Vec<u8>)
    ensures
        block@ == Seq::new(
            512,
            |k: int|
                if 512 * i + k == data_start / 8 {
                    0xFFu8 & !(1u8 << ((data_start % 8) as u8))
                } else {
                    0xFF
                },
        ),
{
    let mut block: Vec<u8> = Vec::new();
    push_fill(&mut block, 0xFF, 512);
    let byte: u64 = (data_start / 8) as u64;
    let first: u64 = 512 * (i as u64);
    if first <= byte && byte < first + 512 {
        let k: u8 = (data_start % 8) as u8;
        block.set((byte - first) as usize, 0xFFu8 & !(1u8 << k));
    }
    assert(block@ =~= Seq::new(
        512,
        |k: int|
            if 512 * i + k == data_start / 8 {
                0xFFu8 & !(1u8 << ((data_start % 8) as u8))
            } else {
                0xFF
            },
    ));
    block
}

impl NextFS {
    /// Loads `n` bytes of the bitmap, from block `start` on.
    fn load_bitmap<D: BlockDevice>(
        devs: &BlockRegistry<D>,
        dev_idx: usize,
        start: u32,
        n: usize,
    ) -> (r: Result<Vec<u8>, FsError>)
        requires
            dev_idx < devs@.len(),
            device_ok(&devs@[dev_idx as int]),
            devs@[dev_idx as int].unit() == 512,
            n <= 0x2000_0000,
        ensures
            ({
                let disk = devs@[dev_idx as int].blocks();
                let blocks = (n + 511) / 512;
                let fits = blocks > 0 ==> start + blocks <= disk.len();
                match r {
                    Ok(v) => fits && v@ == bytes_at(disk, start as int, n as int),
                    Err(e) => (device_failed(e) && !devs@[dev_idx as int].reliable()) || (!fits && e
                        == FsError::BlockError(BlockError::OutOfRange)),
                }
            }),
    {
        let blocks: usize = (n + 511) / 512;
        let ghost disk = devs@[dev_idx as int].blocks();
        let mut v: Vec<u8> = Vec::new();
        let mut i: usize = 0;
        while i < blocks
            invariant
                dev_idx < devs@.len(),
                device_ok(&devs@[dev_idx as int]),
                devs@[dev_idx as int].unit() == 512,
                disk == devs@[dev_idx as int].blocks(),
                i <= blocks <= 0x100_0000,
                blocks == (n + 511) / 512,
                i > 0 ==> start + i <= disk.len(),
                v@ == bytes_at(disk, start as int, 512 * i),
            decreases blocks - i,
        {
            let buf = match read_one(devs, dev_idx, start as u64 + i as u64) {
                Ok(x) => x,
                Err(e) => return Err(FsError::BlockError(e)),
            };
            push_range(&mut v, buf.as_slice(), 0, 512);
            i += 1;
            assert(v@ =~= bytes_at(disk, start as int, 512 * i));
        }
        v.truncate(n);
        assert(v@ =~= bytes_at(disk, start as int, n as int));
        Ok(v)
    }

    /// Finds out which inodes of the table are in use.
    fn scan_table<D: BlockDevice>(
        devs: &BlockRegistry<D>,
        dev_idx: usize,
        start: u32,
        count: u32,
    ) -> (r: Result<Vec<u8>, FsError>)
        requires
            dev_idx < devs@.len(),
            device_ok(&devs@[dev_idx as int]),
            devs@[dev_idx as int].unit() == 512,
        ensures
            ({
                let disk = devs@[dev_idx as int].blocks();
                let fits = table_blocks(count) > 0 ==> start + table_blocks(count) <= disk.len();
                match r {
                    Ok(v) => fits && v@.len() == bytes_for(count) && bits_of(v@) == used_in_table(
                        disk,
                        start as int,
                        count,
                    ),
                    Err(e) => (device_failed(e) && !devs@[dev_idx as int].reliable()) || (!fits && e
                        == FsError::BlockError(BlockError::OutOfRange)),
                }
            }),
    {
        let ghost disk = devs@[dev_idx as int].blocks();
        let blocks: u64 = (count as u64 + 7) / 8;
        let mut bitmap = zeroed(blocks as usize);
        let mut i: u64 = 0;
        proof {
            assert(bits_of(bitmap@) =~= used_upto(disk, start as int, count, 0)) by {
                assert(forall|k: u8| 0u8 & (1u8 << k) == 0) by (bit_vector);
            }
        }
        while i < blocks
            invariant
                dev_idx < devs@.len(),
                device_ok(&devs@[dev_idx as int]),
                devs@[dev_idx as int].unit() == 512,
                disk == devs@[dev_idx as int].blocks(),
                i <= blocks == bytes_for(count) == table_blocks(count),
                i > 0 ==> start + i <= disk.len(),
                bitmap@.len() == blocks,
                bits_of(bitmap@) == used_upto(disk, start as int, count, 8 * i),
            decreases blocks - i,
        {
            let buf = match read_one(devs, dev_idx, start as u64 + i) {
                Ok(x) => x,
                Err(e) => return Err(FsError::BlockError(e)),
            };
            let mut slot: usize = 0;
            while slot < 8 && 8 * i + (slot as u64) < count as u64
                invariant
                    slot <= 8,
                    i < blocks == bytes_for(count),
                    start + i < disk.len(),
                    buf@ == disk[start + i],
                    buf@.len() == 512,
                    bitmap@.len() == blocks,
                    bits_of(bitmap@) == used_upto(disk, start as int, count, 8 * i + slot),
                decreases 8 - slot,
            {
                let n: usize = (8 * i) as usize + slot;
                let inode = Inode::from_bytes(buf.as_slice(), 64 * slot);
                assert(type_in_table(disk, start as int, n as int) == inode@.inode_type) by {
                    assert(n as int / 8 == i && n as int % 8 == slot);
                }
                let ghost before = bits_of(bitmap@);
                if !inode.is_free() {
                    set_bit(&mut bitmap, n, true);
                }
                slot += 1;
                assert(bits_of(bitmap@) =~= used_upto(disk, start as int, count, 8 * i + slot));
            }
            i += 1;
            assert(bits_of(bitmap@) =~= used_upto(disk, start as int, count, 8 * i));
        }
        assert(bits_of(bitmap@) =~= used_in_table(disk, start as int, count));
        Ok(bitmap)
    }

    /// Mounts an existing NextFS from a block device.
    pub fn mount<D: BlockDevice>(devs: &BlockRegistry<D>, dev_idx: usize) -> (r: Result<
        NextFS,
        FsError,
    >)
        requires
            dev_idx < devs@.len() ==> device_ok(&devs@[dev_idx as int])
                && devs@[dev_idx as int].unit() == 512,
        ensures
            dev_idx >= devs@.len() ==> r == Err::<NextFS, FsError>(
                FsError::BlockError(BlockError::OutOfRange),
            ),
            dev_idx < devs@.len() ==> match r {
                Ok(fs) => fs.dev_idx == dev_idx && fs_ok(fs, devs@) && mount_s(
                    devs@[dev_idx as int].blocks(),
                ) == Ok::<FsView, FsError>(fs_view(fs, devs@)),
                Err(e) => got(
                    devs@[dev_idx as int].reliable(),
                    Err::<FsView, FsError>(e),
                    mount_s(devs@[dev_idx as int].blocks()),
                ),
            },
    {
        if dev_idx >= device_count(devs) {
            return Err(FsError::BlockError(BlockError::OutOfRange));
        }
        let buf = match read_one(devs, dev_idx, 0) {
            Ok(x) => x,
            Err(e) => return Err(FsError::BlockError(e)),
        };
        let sb = Superblock::from_bytes(buf.as_slice());
        if !sb.is_valid() {
            return Err(FsError::InvalidMagic);
        }
        let n: usize = ((sb.total_blocks as u64 + 7) / 8) as usize;
        let block_bitmap = match NextFS::load_bitmap(devs, dev_idx, sb.bitmap_start, n) {
            Ok(v) => v,
            Err(e) => return Err(e),
        };
        let inode_bitmap = match NextFS::scan_table(
            devs,
            dev_idx,
            sb.inode_table_start,
            sb.inode_count,
        ) {
            Ok(v) => v,
            Err(e) => return Err(e),
        };
        let fs = NextFS { dev_idx, sb, block_bitmap, inode_bitmap };
        assert(fs_view(fs, devs@) =~= mount_s(devs@[dev_idx as int].blocks())->Ok_0);
        Ok(fs)
    }

    /// Flushes cached superblock and bitmap to disk.
    pub fn sync<D: BlockDevice>(&self, devs: &mut BlockRegistry<D>) -> (r: Result<(), FsError>)
        requires
            fs_ok(*self, old(devs)@),
        ensures
            fs_frame(*self, old(devs)@, *self, final(devs)@),
            did(
                old(devs)@[self.dev_idx as int].reliable(),
                r,
                fs_view(*self, final(devs)@),
                sync_s(fs_view(*self, old(devs)@)),
            ),
    {
        let ghost want = sync_s(fs_view(*self, old(devs)@));
        let sb_block = self.sb.to_bytes();
        match self.write_block(devs, 0, &sb_block) {
            Ok(_) => {},
            Err(e) => return Err(e),
        }
        let len: usize = self.block_bitmap.len();
        let blocks: usize = (len + 511) / 512;
        proof {
            lemma_packed(self.block_bitmap@);
        }
        let mut i: usize = 0;
        while i < blocks
            invariant
                fs_frame(*self, old(devs)@, *self, devs@),
                len == self.block_bitmap@.len() <= 0x2000_0000,
                i <= blocks == (len + 511) / 512,
                blocks == bitmap_blocks(self.sb.total_blocks),
                packed(bits_of(self.block_bitmap@)) == self.block_bitmap@,
                want == sync_s(fs_view(*self, old(devs)@)),
                want == save_bitmap_s(fs_view(*self, devs@), i as int, blocks as int),
            decreases blocks - i,
        {
            let off: usize = 512 * i;
            let end: usize = if off + 512 < len {
                off + 512
            } else {
                len
            };
            let mut buf: Vec<u8> = Vec::new();
            push_range(&mut buf, self.block_bitmap.as_slice(), off, end);
            push_fill(&mut buf, 0, 512 - (end - off));
            assert(buf@ =~= bitmap_block(bits_of(self.block_bitmap@), i as int));
            match self.write_block(devs, self.sb.bitmap_start as u64 + i as u64, &buf) {
                Ok(_) => {},
                Err(e) => return Err(e),
            }
            i += 1;
        }
        Ok(())
    }
}

/// Which of the first `done` inodes of a table are in use.
spec fn used_upto(disk: Seq<Seq<u8>>, start: int, count: u32, done: int) -> Seq<bool> {
    Seq::new(
        (8 * bytes_for(count)) as nat,
        |n: int| n < count && n < done && type_in_table(disk, start, n) != 0,
    )
}

} // verus!
