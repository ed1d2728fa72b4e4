//! NextFS: a small Unix-style file system with inodes, directories and data
//! blocks on top of a block device.
//!
//! ```text
//! Block 0:        superblock
//! Block 1..N:     free block bitmap (1 bit per block, 1 = free)
//! Block N..M:     inode table
//! Block M..:      data blocks
//! ```
//!
//! The contracts speak of a [`FsView`]: the blocks of the device together with
//! what the mounted file system keeps in memory. Each operation is a function
//! on that view. A device that reports hardware errors can make an operation
//! fail with that error; a reliable device never does.

use crate::bytes::{get32, le32, patch, read_u32, splice, zeroed, zeros};
use crate::driver::block::{
    device_ok, only_device_changed, read_one, write_one, BlockDevice, BlockError, BlockRegistry,
};
use crate::fs::ondisk::{
    inode_bytes, inode_of, inode_shaped, Inode, InodeView, Superblock, SuperblockView,
};
use vstd::prelude::*;

verus! {

/// File system errors.
#[derive(Debug, Clone, Copy, PartialEq, Eq)]
pub enum FsError {
    DeviceNotFound,
    DeviceTooSmall,
    UnsupportedBlockSize,
    InvalidMagic,
    InvalidInode,
    NoSpace,
    NotFound,
    NotDirectory,
    NotFile,
    AlreadyExists,
    NameTooLong,
    NotMounted,
    InvalidOperation,
    DirectoryNotEmpty,
    PermissionDenied,
    BlockError(BlockError),
}

/// The error is a hardware error that the device reported.
pub open spec fn device_failed(e: FsError) -> bool {
    e matches FsError::BlockError(b) && b is DeviceError
}

/// Bit `k` of a byte.
pub open spec fn bit(b: u8, k: int) -> bool {
    b & (1u8 << (k as u8)) != 0
}

/// The bits of a byte string, least significant first in each byte.
pub open spec fn bits_of(bytes: Seq<u8>) -> Seq<bool> {
    Seq::new(8 * bytes.len(), |i: int| bit(bytes[i / 8], i % 8))
}

/// A mounted NextFS instance.
pub struct NextFS {
    /// Index of the device in the block device registry.
    pub dev_idx: usize,
    /// Cached superblock.
    pub sb: Superblock,
    /// In-memory free-block bitmap (bit set = free).
    pub block_bitmap: Vec<u8>,
    /// In-memory inode bitmap (bit set = in use).
    pub inode_bitmap: Vec<u8>,
}

/// The state of a file system.
#[verifier::ext_equal]
pub struct FsView {
    /// The blocks of the device.
    pub disk: Seq<Seq<u8>>,
    /// The cached superblock.
    pub sb: SuperblockView,
    /// `free[b]`: block `b` is free.
    pub free: Seq<bool>,
    /// `used[n]`: inode `n` is in use.
    pub used: Seq<bool>,
}

/// The state of the file system `fs` on the registered devices.
pub open spec fn fs_view<D: BlockDevice>(fs: NextFS, devs: Seq<D>) -> FsView {
    FsView {
        disk: devs[fs.dev_idx as int].blocks(),
        sb: fs.sb@,
        free: bits_of(fs.block_bitmap@),
        used: bits_of(fs.inode_bitmap@),
    }
}

/// Bytes needed for `n` bits.
pub open spec fn bytes_for(n: u32) -> int {
    (n + 7) / 8
}

/// The file system is mounted on a registered device of 512-byte blocks, and
/// its bitmaps have the sizes that the superblock calls for.
pub open spec fn fs_ok<D: BlockDevice>(fs: NextFS, devs: Seq<D>) -> bool {
    &&& fs.dev_idx < devs.len()
    &&& device_ok(&devs[fs.dev_idx as int])
    &&& devs[fs.dev_idx as int].unit() == 512
    &&& fs.block_bitmap@.len() == bytes_for(fs.sb.total_blocks)
    &&& fs.inode_bitmap@.len() == bytes_for(fs.sb.inode_count)
}

/// What a change of a file system leaves alone: the other devices, and which
/// device it is on.
pub open spec fn fs_frame<D: BlockDevice>(
    fs0: NextFS,
    devs0: Seq<D>,
    fs1: NextFS,
    devs1: Seq<D>,
) -> bool {
    &&& fs1.dev_idx == fs0.dev_idx
    &&& fs_ok(fs1, devs1)
    &&& only_device_changed(devs0, devs1, fs0.dev_idx as int)
}

/// An operation ended as `want` says, unless the device failed.
pub open spec fn did<T>(
    reliable: bool,
    r: Result<T, FsError>,
    post: FsView,
    want: (Result<T, FsError>, FsView),
) -> bool {
    ||| r == want.0 && post == want.1
    ||| r matches Err(e) && device_failed(e) && !reliable
}

/// A query answered as `want` says, unless the device failed.
pub open spec fn got<T>(reliable: bool, r: Result<T, FsError>, want: Result<T, FsError>) -> bool {
    ||| r == want
    ||| r matches Err(e) && device_failed(e) && !reliable
}

/// Block `n` of the disk; outside the device there is none.
pub open spec fn disk_block(disk: Seq<Seq<u8>>, n: int) -> Result<Seq<u8>, FsError> {
    if 0 <= n < disk.len() {
        Ok(disk[n])
    } else {
        Err(FsError::BlockError(BlockError::OutOfRange))
    }
}

/// The state after block `n` was overwritten.
pub open spec fn put_block(v: FsView, n: int, data: Seq<u8>) -> (Result<(), FsError>, FsView) {
    if 0 <= n < v.disk.len() {
        (Ok(()), FsView { disk: v.disk.update(n, data), ..v })
    } else {
        (Err(FsError::BlockError(BlockError::OutOfRange)), v)
    }
}

/// The first set bit in `[from, to)`, or `to` if there is none.
pub open spec fn next_set(bits: Seq<bool>, from: int, to: int) -> int
    decreases to - from,
{
    if from >= to {
        to
    } else if bits[from] {
        from
    } else {
        next_set(bits, from + 1, to)
    }
}

/// The first clear bit in `[from, to)`, or `to` if there is none.
pub open spec fn next_clear(bits: Seq<bool>, from: int, to: int) -> int
    decreases to - from,
{
    if from >= to {
        to
    } else if !bits[from] {
        from
    } else {
        next_clear(bits, from + 1, to)
    }
}

/// Taking the first free data block.
pub open spec fn alloc_block_s(v: FsView) -> (Result<u32, FsError>, FsView) {
    let b = next_set(v.free, v.sb.data_start as int, v.sb.total_blocks as int);
    if v.sb.free_blocks == 0 || b >= v.sb.total_blocks {
        (Err(FsError::NoSpace), v)
    } else {
        (
            Ok(b as u32),
            FsView {
                sb: SuperblockView { free_blocks: (v.sb.free_blocks - 1) as u32, ..v.sb },
                free: v.free.update(b, false),
                ..v
            },
        )
    }
}

/// A counter after one more; it wraps around at the end of its range.
pub open spec fn bump(n: u32) -> u32 {
    if n == u32::MAX {
        0
    } else {
        (n + 1) as u32
    }
}

/// Giving a block back. A number beyond the bitmap names no block.
pub open spec fn free_block_s(v: FsView, b: u32) -> FsView {
    if b < v.free.len() {
        FsView {
            sb: SuperblockView { free_blocks: bump(v.sb.free_blocks), ..v.sb },
            free: v.free.update(b as int, true),
            ..v
        }
    } else {
        v
    }
}

/// Taking the first unused inode; inode 0 is never given out.
pub open spec fn alloc_inode_s(v: FsView) -> (Result<u32, FsError>, FsView) {
    let n = next_clear(v.used, 1, v.sb.inode_count as int);
    if v.sb.free_inodes == 0 || n >= v.sb.inode_count {
        (Err(FsError::NoSpace), v)
    } else {
        (
            Ok(n as u32),
            FsView {
                sb: SuperblockView { free_inodes: (v.sb.free_inodes - 1) as u32, ..v.sb },
                used: v.used.update(n, true),
                ..v
            },
        )
    }
}

/// Giving an inode back. A number beyond the bitmap names no inode.
pub open spec fn free_inode_s(v: FsView, n: u32) -> FsView {
    if n < v.used.len() {
        FsView {
            sb: SuperblockView { free_inodes: bump(v.sb.free_inodes), ..v.sb },
            used: v.used.update(n as int, false),
            ..v
        }
    } else {
        v
    }
}

/// The block of the inode table that holds inode `n`.
pub open spec fn inode_block(table_start: u32, n: u32) -> int {
    table_start + n / 8
}

/// Where in its block inode `n` starts.
pub open spec fn inode_slot(n: u32) -> int {
    64 * (n % 8)
}

/// Inode `n` as it is on disk.
pub open spec fn read_inode_s(v: FsView, n: u32) -> Result<InodeView, FsError> {
    if n == 0 || n >= v.sb.inode_count {
        Err(FsError::InvalidInode)
    } else {
        match disk_block(v.disk, inode_block(v.sb.inode_table_start, n)) {
            Ok(b) => Ok(inode_of(b.subrange(inode_slot(n), inode_slot(n) + 64))),
            Err(e) => Err(e),
        }
    }
}

/// The block of the inode table with inode `n` replaced.
pub open spec fn with_inode(block: Seq<u8>, n: u32, inode: InodeView) -> Seq<u8> {
    patch(block, inode_slot(n), inode_bytes(inode))
}

/// Storing inode `n`.
pub open spec fn write_inode_s(v: FsView, n: u32, inode: InodeView) -> (
    Result<(), FsError>,
    FsView,
) {
    if n == 0 || n >= v.sb.inode_count {
        (Err(FsError::InvalidInode), v)
    } else {
        let b = inode_block(v.sb.inode_table_start, n);
        match disk_block(v.disk, b) {
            Ok(block) => put_block(v, b, with_inode(block, n, inode)),
            Err(e) => (Err(e), v),
        }
    }
}

proof fn lemma_bit_ops(b: u8, k: u8, j: u8)
    by (bit_vector)
    requires
        k < 8,
        j < 8,
    ensures
        (b | (1u8 << k)) & (1u8 << j) != 0 <==> (j == k || b & (1u8 << j) != 0),
        (b & !(1u8 << k)) & (1u8 << j) != 0 <==> (j != k && b & (1u8 << j) != 0),
{
}

/// Whether bit `i` is set.
pub(crate) fn get_bit(bytes: &Vec<u8>, i: usize) -> (r: bool)
    requires
        i < 8 * bytes@.len(),
    ensures
        r == bits_of(bytes@)[i as int],
{
    let k: u8 = (i % 8) as u8;
    (bytes[i / 8] & (1u8 << k)) != 0
}

/// Sets or clears bit `i`.
pub(crate) fn set_bit(bytes: &mut Vec<u8>, i: usize, on: bool)
    requires
        i < 8 * old(bytes)@.len(),
    ensures
        final(bytes)@.len() == old(bytes)@.len(),
        bits_of(final(bytes)@) == bits_of(old(bytes)@).update(i as int, on),
{
    let k: u8 = (i % 8) as u8;
    let b: u8 = bytes[i / 8];
    let c: u8 = if on {
        b | (1u8 << k)
    } else {
        b & !(1u8 << k)
    };
    bytes.set(i / 8, c);
    proof {
        let before = bits_of(old(bytes)@).update(i as int, on);
        let after = bits_of(bytes@);
        assert forall|j: int| 0 <= j < after.len() implies #[trigger] after[j] == before[j] by {
            let m = (j % 8) as u8;
            if j / 8 == i / 8 {
                assert(j == i <==> m == k);
                lemma_bit_ops(b, k, m);
            }
        }
        assert(after =~= before);
    }
}

impl NextFS {
    /// Allocates the first free data block.
    pub(crate) fn alloc_block<D: BlockDevice>(&mut self, devs: &BlockRegistry<D>) -> (r: Result<u32, FsError>)
        requires
            fs_ok(*old(self), devs@),
        ensures
            fs_frame(*old(self), devs@, *final(self), devs@),
            (r, fs_view(*final(self), devs@)) == alloc_block_s(fs_view(*old(self), devs@)),
    {
        if self.sb.free_blocks == 0 {
            return Err(FsError::NoSpace);
        }
        let ghost v0 = fs_view(*self, devs@);
        let start: u32 = self.sb.data_start;
        let end: u32 = self.sb.total_blocks;
        let mut b: u32 = start;
        while b < end
            invariant
                *self == *old(self),
                start == self.sb.data_start,
                end == self.sb.total_blocks,
                start <= b,
                v0 == fs_view(*self, devs@),
                fs_ok(*self, devs@),
                self.sb.free_blocks != 0,
                next_set(v0.free, start as int, end as int) == next_set(
                    v0.free,
                    b as int,
                    end as int,
                ),
            decreases end - b,
        {
            if get_bit(&self.block_bitmap, b as usize) {
                set_bit(&mut self.block_bitmap, b as usize, false);
                self.sb.free_blocks = self.sb.free_blocks - 1;
                assert(fs_view(*self, devs@) =~= alloc_block_s(v0).1);
                return Ok(b);
            }
            b += 1;
        }
        Err(FsError::NoSpace)
    }

    /// Frees a data block.
    pub(crate) fn free_block<D: BlockDevice>(&mut self, devs: &BlockRegistry<D>, block_num: u32)
        requires
            fs_ok(*old(self), devs@),
        ensures
            fs_frame(*old(self), devs@, *final(self), devs@),
            fs_view(*final(self), devs@) == free_block_s(fs_view(*old(self), devs@), block_num),
    {
        if (block_num as usize) / 8 < self.block_bitmap.len() {
            set_bit(&mut self.block_bitmap, block_num as usize, true);
            self.sb.free_blocks = self.sb.free_blocks.wrapping_add(1);
        }
        assert(fs_view(*self, devs@) =~= free_block_s(fs_view(*old(self), devs@), block_num));
    }

    /// Allocates the first unused inode.
    pub(crate) fn alloc_inode<D: BlockDevice>(&mut self, devs: &BlockRegistry<D>) -> (r: Result<u32, FsError>)
        requires
            fs_ok(*old(self), devs@),
        ensures
            fs_frame(*old(self), devs@, *final(self), devs@),
            (r, fs_view(*final(self), devs@)) == alloc_inode_s(fs_view(*old(self), devs@)),
    {
        if self.sb.free_inodes == 0 {
            return Err(FsError::NoSpace);
        }
        let ghost v0 = fs_view(*self, devs@);
        let end: u32 = self.sb.inode_count;
        let mut n: u32 = 1;
        while n < end
            invariant
                *self == *old(self),
                end == self.sb.inode_count,
                1 <= n,
                v0 == fs_view(*self, devs@),
                fs_ok(*self, devs@),
                self.sb.free_inodes != 0,
                next_clear(v0.used, 1, end as int) == next_clear(v0.used, n as int, end as int),
            decreases end - n,
        {
            if !get_bit(&self.inode_bitmap, n as usize) {
                set_bit(&mut self.inode_bitmap, n as usize, true);
                self.sb.free_inodes = self.sb.free_inodes - 1;
                assert(fs_view(*self, devs@) =~= alloc_inode_s(v0).1);
                return Ok(n);
            }
            n += 1;
        }
        Err(FsError::NoSpace)
    }

    /// Frees an inode.
    pub(crate) fn free_inode<D: BlockDevice>(&mut self, devs: &BlockRegistry<D>, inode_num: u32)
        requires
            fs_ok(*old(self), devs@),
        ensures
            fs_frame(*old(self), devs@, *final(self), devs@),
            fs_view(*final(self), devs@) == free_inode_s(fs_view(*old(self), devs@), inode_num),
    {
        if (inode_num as usize) / 8 < self.inode_bitmap.len() {
            set_bit(&mut self.inode_bitmap, inode_num as usize, false);
            self.sb.free_inodes = self.sb.free_inodes.wrapping_add(1);
        }
        assert(fs_view(*self, devs@) =~= free_inode_s(fs_view(*old(self), devs@), inode_num));
    }

    /// Reads block `n` of the device.
    pub(crate) fn read_block<D: BlockDevice>(&self, devs: &BlockRegistry<D>, n: u64) -> (r: Result<
        Vec<u8>,
        FsError,
    >)
        requires
            fs_ok(*self, devs@),
        ensures
            match r {
                Ok(b) => b@.len() == 512 && disk_block(fs_view(*self, devs@).disk, n as int) == Ok::<
                    Seq<u8>,
                    FsError,
                >(b@),
                Err(e) => got(
                    devs@[self.dev_idx as int].reliable(),
                    Err::<Seq<u8>, FsError>(e),
                    disk_block(fs_view(*self, devs@).disk, n as int),
                ),
            },
    {
        match read_one(devs, self.dev_idx, n) {
            Ok(b) => Ok(b),
            Err(e) => Err(FsError::BlockError(e)),
        }
    }

    /// Writes block `n` of the device.
    pub(crate) fn write_block<D: BlockDevice>(&self, devs: &mut BlockRegistry<D>, n: u64, buf: &Vec<u8>) -> (r:
        Result<(), FsError>)
        requires
            fs_ok(*self, old(devs)@),
            buf@.len() == 512,
        ensures
            fs_frame(*self, old(devs)@, *self, final(devs)@),
            did(
                old(devs)@[self.dev_idx as int].reliable(),
                r,
                fs_view(*self, final(devs)@),
                put_block(fs_view(*self, old(devs)@), n as int, buf@),
            ),
    {
        match write_one(devs, self.dev_idx, n, buf.as_slice()) {
            Ok(_) => Ok(()),
            Err(e) => Err(FsError::BlockError(e)),
        }
    }

    /// Reads an inode from disk.
    pub fn read_inode<D: BlockDevice>(&self, devs: &BlockRegistry<D>, inode_num: u32) -> (r: Result<
        Inode,
        FsError,
    >)
        requires
            fs_ok(*self, devs@),
        ensures
            match r {
                Ok(i) => inode_shaped(i@) && read_inode_s(fs_view(*self, devs@), inode_num) == Ok::<
                    InodeView,
                    FsError,
                >(i@),
                Err(e) => got(
                    devs@[self.dev_idx as int].reliable(),
                    Err::<InodeView, FsError>(e),
                    read_inode_s(fs_view(*self, devs@), inode_num),
                ),
            },
    {
        if inode_num == 0 || inode_num >= self.sb.inode_count {
            return Err(FsError::InvalidInode);
        }
        let block: u64 = self.sb.inode_table_start as u64 + (inode_num / 8) as u64;
        match self.read_block(devs, block) {
            Ok(buf) => {
                let off: usize = 64 * ((inode_num % 8) as usize);
                Ok(Inode::from_bytes(buf.as_slice(), off))
            },
            Err(e) => Err(e),
        }
    }

    /// Writes an inode to disk.
    pub fn write_inode<D: BlockDevice>(
        &self,
        devs: &mut BlockRegistry<D>,
        inode_num: u32,
        inode: &Inode,
    ) -> (r: Result<(), FsError>)
        requires
            fs_ok(*self, old(devs)@),
        ensures
            fs_frame(*self, old(devs)@, *self, final(devs)@),
            did(
                old(devs)@[self.dev_idx as int].reliable(),
                r,
                fs_view(*self, final(devs)@),
                write_inode_s(fs_view(*self, old(devs)@), inode_num, inode@),
            ),
    {
        if inode_num == 0 || inode_num >= self.sb.inode_count {
            return Err(FsError::InvalidInode);
        }
        let block: u64 = self.sb.inode_table_start as u64 + (inode_num / 8) as u64;
        let mut buf = match self.read_block(devs, block) {
            Ok(buf) => buf,
            Err(e) => return Err(e),
        };
        let bytes = inode.to_bytes();
        splice(&mut buf, 64 * ((inode_num % 8) as usize), bytes.as_slice());
        self.write_block(devs, block, &buf)
    }
}

/// The block number stored for block `idx` of an inode's data; 0 if none is
/// allocated.
pub open spec fn block_ptr(disk: Seq<Seq<u8>>, i: InodeView, idx: int) -> Result<u32, FsError> {
    if idx < 9 {
        Ok(i.direct[idx])
    } else if i.indirect == 0 {
        Ok(0)
    } else {
        match disk_block(disk, i.indirect as int) {
            Err(e) => Err(e),
            Ok(b) => if idx - 9 >= 128 {
                Err(FsError::NoSpace)
            } else {
                Ok(get32(b, 4 * (idx - 9)))
            },
        }
    }
}

/// The block of a file that holds byte `pos`; block numbers within a file have
/// 32 bits.
pub open spec fn file_block(pos: int) -> int {
    pos / 512 % 0x1_0000_0000
}

/// Byte `pos` of an inode's data; bytes of unallocated blocks are zero.
pub open spec fn byte_at(disk: Seq<Seq<u8>>, i: InodeView, pos: int) -> Result<u8, FsError> {
    match block_ptr(disk, i, file_block(pos)) {
        Err(e) => Err(e),
        Ok(p) => if p == 0 {
            Ok(0)
        } else {
            match disk_block(disk, p as int) {
                Err(e) => Err(e),
                Ok(b) => Ok(b[pos % 512]),
            }
        },
    }
}

/// The first of `m` bytes from `pos` on that cannot be read; `m` if all can.
pub open spec fn first_bad(disk: Seq<Seq<u8>>, i: InodeView, pos: int, m: int) -> int
    decreases m,
{
    if m <= 0 || byte_at(disk, i, pos) is Err {
        0
    } else {
        1 + first_bad(disk, i, pos + 1, m - 1)
    }
}

/// The `m` bytes from `pos` on.
pub open spec fn read_span(disk: Seq<Seq<u8>>, i: InodeView, pos: int, m: int) -> Result<
    Seq<u8>,
    FsError,
> {
    let bad = first_bad(disk, i, pos, m);
    if bad < m {
        Err(byte_at(disk, i, pos + bad)->Err_0)
    } else {
        Ok(Seq::new(m as nat, |k: int| byte_at(disk, i, pos + k)->Ok_0))
    }
}

pub proof fn lemma_first_bad(disk: Seq<Seq<u8>>, i: InodeView, pos: int, m: int, n: int)
    requires
        0 <= n <= m,
        forall|k: int| 0 <= k < n ==> (#[trigger] byte_at(disk, i, pos + k)) is Ok,
        n < m ==> byte_at(disk, i, pos + n) is Err,
    ensures
        first_bad(disk, i, pos, m) == n,
    decreases m,
{
    if n > 0 {
        assert(byte_at(disk, i, pos + 0) is Ok);
        assert forall|k: int| 0 <= k < n - 1 implies (#[trigger] byte_at(disk, i, pos + 1 + k)) is Ok by {
            assert(byte_at(disk, i, pos + (k + 1)) is Ok);
        }
        lemma_first_bad(disk, i, pos + 1, m - 1, n - 1);
    }
}

/// What reading `len` bytes at `offset` from inode `n` gives: what is there, up
/// to the end of the file.
pub open spec fn read_inode_data_s(v: FsView, n: u32, offset: u64, len: nat) -> Result<
    Seq<u8>,
    FsError,
> {
    match read_inode_s(v, n) {
        Err(e) => Err(e),
        Ok(i) => if i.inode_type != 1 {
            Err(FsError::NotFile)
        } else if offset >= i.size {
            Ok(Seq::empty())
        } else {
            read_span(
                v.disk,
                i,
                offset as int,
                if len < i.size - offset {
                    len as int
                } else {
                    i.size - offset
                },
            )
        },
    }
}

/// Taking a block for block `idx` of a file.
pub open spec fn alloc_inode_block_s(v: FsView, i: InodeView, idx: int) -> (
    Result<u32, FsError>,
    FsView,
    InodeView,
) {
    if idx < 9 {
        match alloc_block_s(v) {
            (Err(e), v1) => (Err(e), v1, i),
            (Ok(b), v1) => (Ok(b), v1, InodeView { direct: i.direct.update(idx, b), ..i }),
        }
    } else if idx - 9 >= 128 {
        (Err(FsError::NoSpace), v, i)
    } else {
        match ensure_indirect_s(v, i) {
            (Err(e), v1, i1) => (Err(e), v1, i1),
            (Ok(_), v1, i1) => match alloc_block_s(v1) {
                (Err(e), v2) => (Err(e), v2, i1),
                (Ok(d), v2) => match disk_block(v2.disk, i1.indirect as int) {
                    Err(e) => (Err(e), v2, i1),
                    Ok(b) => match put_block(
                        v2,
                        i1.indirect as int,
                        patch(b, 4 * (idx - 9), le32(d)),
                    ) {
                        (Err(e), v3) => (Err(e), v3, i1),
                        (Ok(_), v3) => (Ok(d), v3, i1),
                    },
                },
            },
        }
    }
}

/// Giving an inode a zeroed indirect block, if it has none.
pub open spec fn ensure_indirect_s(v: FsView, i: InodeView) -> (
    Result<(), FsError>,
    FsView,
    InodeView,
) {
    if i.indirect != 0 {
        (Ok(()), v, i)
    } else {
        match alloc_block_s(v) {
            (Err(e), v1) => (Err(e), v1, i),
            (Ok(b), v1) => {
                let (r, v2) = put_block(v1, b as int, zeros(512));
                (r, v2, InodeView { indirect: b, ..i })
            },
        }
    }
}

/// The block for block `idx` of a file, zeroed if it is new.
pub open spec fn obtain_block_s(v: FsView, i: InodeView, idx: int) -> (
    Result<u32, FsError>,
    FsView,
    InodeView,
) {
    match block_ptr(v.disk, i, idx) {
        Err(e) => (Err(e), v, i),
        Ok(p) => if p != 0 {
            (Ok(p), v, i)
        } else {
            match alloc_inode_block_s(v, i, idx) {
                (Err(e), v1, i1) => (Err(e), v1, i1),
                (Ok(b), v1, i1) => match put_block(v1, b as int, zeros(512)) {
                    (Err(e), v2) => (Err(e), v2, i1),
                    (Ok(_), v2) => (Ok(b), v2, i1),
                },
            }
        },
    }
}

/// Storing bytes at `pos`, all within one block of the file.
pub open spec fn write_step_s(v: FsView, i: InodeView, pos: int, chunk: Seq<u8>) -> (
    Result<(), FsError>,
    FsView,
    InodeView,
) {
    match obtain_block_s(v, i, file_block(pos)) {
        (Err(e), v1, i1) => (Err(e), v1, i1),
        (Ok(b), v1, i1) => match disk_block(v1.disk, b as int) {
            Err(e) => (Err(e), v1, i1),
            Ok(old_bytes) => {
                let (r, v2) = put_block(v1, b as int, patch(old_bytes, pos % 512, chunk));
                (r, v2, i1)
            },
        },
    }
}

/// How many of `len` bytes at `pos` fit into the block that `pos` is in.
pub open spec fn step_len(pos: int, len: int) -> int {
    if len < 512 - pos % 512 {
        len
    } else {
        512 - pos % 512
    }
}

/// Storing `data` at `pos`, block by block, until one fails.
pub open spec fn write_span_s(v: FsView, i: InodeView, pos: int, data: Seq<u8>) -> (
    Result<(), FsError>,
    FsView,
    InodeView,
)
    decreases data.len(),
{
    if data.len() == 0 {
        (Ok(()), v, i)
    } else {
        let n = step_len(pos, data.len() as int);
        match write_step_s(v, i, pos, data.subrange(0, n)) {
            (Err(e), v1, i1) => (Err(e), v1, i1),
            (Ok(_), v1, i1) => write_span_s(v1, i1, pos + n, data.skip(n)),
        }
    }
}

/// Storing data changes no more of an inode than its block pointers.
pub open spec fn same_but_ptrs(a: InodeView, b: InodeView) -> bool {
    &&& b.inode_type == a.inode_type
    &&& b.pad == a.pad
    &&& b.mode == a.mode
    &&& b.size == a.size
    &&& b.uid == a.uid
    &&& b.gid == a.gid
    &&& b.mtime == a.mtime
    &&& b.reserved == a.reserved
    &&& b.direct.len() == a.direct.len()
}

pub proof fn lemma_write_span_inode(v: FsView, i: InodeView, pos: int, data: Seq<u8>)
    requires
        i.direct.len() == 9,
        pos >= 0,
    ensures
        same_but_ptrs(i, write_span_s(v, i, pos, data).2),
    decreases data.len(),
{
    if data.len() > 0 {
        let n = step_len(pos, data.len() as int);
        let (r, v1, i1) = write_step_s(v, i, pos, data.subrange(0, n));
        assert(same_but_ptrs(i, i1));
        if r is Ok {
            lemma_write_span_inode(v1, i1, pos + n, data.skip(n));
        }
    }
}

/// Storing `data` at `offset` of an inode: the file grows if need be, and a
/// write of at least one byte sets the modification time.
pub open spec fn write_inode_data_s(
    v: FsView,
    i: InodeView,
    offset: u64,
    data: Seq<u8>,
    now: u32,
) -> (Result<usize, FsError>, FsView, InodeView) {
    if i.inode_type != 1 && i.inode_type != 2 {
        (Err(FsError::NotFile), v, i)
    } else if offset + data.len() > u64::MAX {
        (Err(FsError::NoSpace), v, i)
    } else {
        match write_span_s(v, i, offset as int, data) {
            (Err(e), v1, i1) => (Err(e), v1, i1),
            (Ok(_), v1, i1) => (
                Ok(data.len() as usize),
                v1,
                InodeView {
                    size: if offset + data.len() > i1.size {
                        (offset + data.len()) as u64
                    } else {
                        i1.size
                    },
                    mtime: if data.len() > 0 {
                        now
                    } else {
                        i1.mtime
                    },
                    ..i1
                },
            ),
        }
    }
}

/// An operation on an inode in memory ended as `want` says, unless the device
/// failed.
pub open spec fn did_inode<T>(
    reliable: bool,
    r: Result<T, FsError>,
    post: FsView,
    inode: InodeView,
    want: (Result<T, FsError>, FsView, InodeView),
) -> bool {
    ||| r == want.0 && post == want.1 && inode == want.2
    ||| r matches Err(e) && device_failed(e) && !reliable
}

impl NextFS {
    /// The block number for a logical block index in an inode's data; 0 if the
    /// block is not allocated.
    pub(crate) fn get_inode_block<D: BlockDevice>(
        &self,
        devs: &BlockRegistry<D>,
        inode: &Inode,
        block_idx: u32,
    ) -> (r: Result<u32, FsError>)
        requires
            fs_ok(*self, devs@),
        ensures
            got(
                devs@[self.dev_idx as int].reliable(),
                r,
                block_ptr(fs_view(*self, devs@).disk, inode@, block_idx as int),
            ),
    {
        if block_idx < 9 {
            return Ok(inode.direct[block_idx as usize]);
        }
        if inode.indirect == 0 {
            return Ok(0);
        }
        let buf = match self.read_block(devs, inode.indirect as u64) {
            Ok(b) => b,
            Err(e) => return Err(e),
        };
        let k: u32 = block_idx - 9;
        if k >= 128 {
            return Err(FsError::NoSpace);
        }
        Ok(read_u32(buf.as_slice(), 4 * (k as usize)))
    }

    /// Allocates a block and assigns it to a logical block index of an inode.
    pub(crate) fn alloc_inode_block<D: BlockDevice>(
        &mut self,
        devs: &mut BlockRegistry<D>,
        inode: &mut Inode,
        block_idx: u32,
    ) -> (r: Result<u32, FsError>)
        requires
            fs_ok(*old(self), old(devs)@),
        ensures
            fs_frame(*old(self), old(devs)@, *final(self), final(devs)@),
            did_inode(
                old(devs)@[old(self).dev_idx as int].reliable(),
                r,
                fs_view(*final(self), final(devs)@),
                final(inode)@,
                alloc_inode_block_s(
                    fs_view(*old(self), old(devs)@),
                    old(inode)@,
                    block_idx as int,
                ),
            ),
    {
        if block_idx < 9 {
            let b: u32 = match self.alloc_block(devs) {
                Ok(b) => b,
                Err(e) => return Err(e),
            };
            inode.direct[block_idx as usize] = b;
            return Ok(b);
        }
        let k: u32 = block_idx - 9;
        if k >= 128 {
            return Err(FsError::NoSpace);
        }
        if inode.indirect == 0 {
            let b: u32 = match self.alloc_block(devs) {
                Ok(b) => b,
                Err(e) => return Err(e),
            };
            inode.indirect = b;
            let zero = zeroed(512);
            match self.write_block(devs, b as u64, &zero) {
                Ok(_) => {},
                Err(e) => return Err(e),
            }
        }
        let d: u32 = match self.alloc_block(devs) {
            Ok(b) => b,
            Err(e) => return Err(e),
        };
        let mut buf = match self.read_block(devs, inode.indirect as u64) {
            Ok(b) => b,
            Err(e) => return Err(e),
        };
        let mut bytes: Vec<u8> = Vec::new();
        crate::bytes::push_u32(&mut bytes, d);
        assert(bytes@ =~= le32(d));
        splice(&mut buf, 4 * (k as usize), bytes.as_slice());
        match self.write_block(devs, inode.indirect as u64, &buf) {
            Ok(_) => Ok(d),
            Err(e) => Err(e),
        }
    }

    /// Reads `n` bytes at `pos`, all within one block of the file.
    fn read_step<D: BlockDevice>(
        &self,
        devs: &BlockRegistry<D>,
        inode: &Inode,
        pos: u64,
        n: usize,
    ) -> (r: Result<Vec<u8>, FsError>)
        requires
            fs_ok(*self, devs@),
            0 < n,
            pos % 512 + n <= 512,
        ensures
            match r {
                Ok(b) => b@.len() == n && forall|k: int|
                    0 <= k < n ==> #[trigger] byte_at(
                        fs_view(*self, devs@).disk,
                        inode@,
                        pos + k,
                    ) == Ok::<u8, FsError>(b@[k]),
                Err(e) => got(
                    devs@[self.dev_idx as int].reliable(),
                    Err::<u8, FsError>(e),
                    byte_at(fs_view(*self, devs@).disk, inode@, pos as int),
                ),
            },
    {
        let idx: u32 = (pos / 512 % 0x1_0000_0000) as u32;
        let off: usize = (pos % 512) as usize;
        assert forall|k: int| 0 <= k < n implies #[trigger] file_block(pos + k) == idx && (pos + k)
            % 512 == off + k by {}
        assert(file_block(pos + 0) == idx);
        let p: u32 = match self.get_inode_block(devs, inode, idx) {
            Ok(p) => p,
            Err(e) => return Err(e),
        };
        if p == 0 {
            return Ok(zeroed(n));
        }
        match self.read_block(devs, p as u64) {
            Ok(block) => Ok(crate::bytes::copy_range(block.as_slice(), off, off + n)),
            Err(e) => Err(e),
        }
    }

    /// Reads the first `to_read` bytes of `buf` from an inode's data.
    fn read_range<D: BlockDevice>(
        &self,
        devs: &BlockRegistry<D>,
        inode: &Inode,
        offset: u64,
        buf: &mut [u8],
        to_read: usize,
    ) -> (r: Result<(), FsError>)
        requires
            fs_ok(*self, devs@),
            to_read <= old(buf)@.len(),
            offset + to_read <= u64::MAX,
        ensures
            final(buf)@.len() == old(buf)@.len(),
            ({
                let want = read_span(
                    fs_view(*self, devs@).disk,
                    inode@,
                    offset as int,
                    to_read as int,
                );
                match r {
                    Ok(_) => want matches Ok(data) && data.len() == to_read && final(buf)@ == patch(
                        old(buf)@,
                        0,
                        data,
                    ),
                    Err(e) => got(
                        devs@[self.dev_idx as int].reliable(),
                        Err::<Seq<u8>, FsError>(e),
                        want,
                    ),
                }
            }),
    {
        let ghost disk = fs_view(*self, devs@).disk;
        let ghost i = inode@;
        let ghost before = buf@;
        let mut done: usize = 0;
        while done < to_read
            invariant
                fs_ok(*self, devs@),
                disk == fs_view(*self, devs@).disk,
                i == inode@,
                done <= to_read <= before.len(),
                buf@.len() == before.len() == old(buf)@.len(),
                offset + to_read <= u64::MAX,
                forall|k: int|
                    0 <= k < done ==> (#[trigger] byte_at(disk, i, offset + k)) == Ok::<
                        u8,
                        FsError,
                    >(buf@[k]),
                forall|k: int| done <= k < before.len() ==> #[trigger] buf@[k] == before[k],
            decreases to_read - done,
        {
            let pos: u64 = offset + done as u64;
            let room: usize = 512 - (pos % 512) as usize;
            let chunk: usize = if to_read - done < room {
                to_read - done
            } else {
                room
            };
            let ghost here = buf@;
            let bytes = match self.read_step(devs, inode, pos, chunk) {
                Ok(b) => b,
                Err(e) => {
                    proof {
                        if byte_at(disk, i, offset + done) is Err {
                            lemma_first_bad(
                                disk,
                                i,
                                offset as int,
                                to_read as int,
                                done as int,
                            );
                        }
                    }
                    return Err(e);
                },
            };
            crate::bytes::splice_into(buf, done, bytes.as_slice(), 0, chunk);
            assert forall|k: int| 0 <= k < done + chunk implies (#[trigger] byte_at(
                disk,
                i,
                offset + k,
            )) == Ok::<u8, FsError>(buf@[k]) by {
                if k >= done {
                    let j = k - done;
                    assert(byte_at(disk, i, pos + j) == Ok::<u8, FsError>(bytes@[j]));
                    assert(offset + k == pos + j);
                } else {
                    assert(buf@[k] == here[k]);
                }
            }
            done = done + chunk;
        }
        proof {
            lemma_first_bad(disk, i, offset as int, to_read as int, to_read as int);
            let data = read_span(disk, i, offset as int, to_read as int)->Ok_0;
            assert(buf@ =~= patch(before, 0, data));
        }
        Ok(())
    }

    /// Reads data from a file starting at `offset`. Returns the number of bytes
    /// read, which is smaller than the buffer at the end of the file.
    pub fn read_inode_data<D: BlockDevice>(
        &self,
        devs: &BlockRegistry<D>,
        inode_num: u32,
        offset: u64,
        buf: &mut [u8],
    ) -> (r: Result<usize, FsError>)
        requires
            fs_ok(*self, devs@),
        ensures
            final(buf)@.len() == old(buf)@.len(),
            ({
                let want = read_inode_data_s(
                    fs_view(*self, devs@),
                    inode_num,
                    offset,
                    old(buf)@.len(),
                );
                match r {
                    Ok(n) => want matches Ok(data) && n == data.len() && final(buf)@ == patch(
                        old(buf)@,
                        0,
                        data,
                    ),
                    Err(e) => got(
                        devs@[self.dev_idx as int].reliable(),
                        Err::<Seq<u8>, FsError>(e),
                        want,
                    ),
                }
            }),
    {
        let inode = match self.read_inode(devs, inode_num) {
            Ok(i) => i,
            Err(e) => return Err(e),
        };
        if !inode.is_file() {
            return Err(FsError::NotFile);
        }
        if offset >= inode.size {
            assert(buf@ =~= patch(buf@, 0, Seq::<u8>::empty()));
            return Ok(0);
        }
        let left: u64 = inode.size - offset;
        let len: usize = buf.len();
        let to_read: usize = if (len as u64) < left {
            len
        } else {
            left as usize
        };
        match self.read_range(devs, &inode, offset, buf, to_read) {
            Ok(_) => Ok(to_read),
            Err(e) => Err(e),
        }
    }

    /// Stores bytes at `pos`, all within one block of the file.
    fn write_step<D: BlockDevice>(
        &mut self,
        devs: &mut BlockRegistry<D>,
        inode: &mut Inode,
        pos: u64,
        chunk: &Vec<u8>,
    ) -> (r: Result<(), FsError>)
        requires
            fs_ok(*old(self), old(devs)@),
            pos % 512 + chunk@.len() <= 512,
        ensures
            fs_frame(*old(self), old(devs)@, *final(self), final(devs)@),
            did_inode(
                old(devs)@[old(self).dev_idx as int].reliable(),
                r,
                fs_view(*final(self), final(devs)@),
                final(inode)@,
                write_step_s(
                    fs_view(*old(self), old(devs)@),
                    old(inode)@,
                    pos as int,
                    chunk@,
                ),
            ),
    {
        let idx: u32 = (pos / 512 % 0x1_0000_0000) as u32;
        let mut b: u32 = match self.get_inode_block(devs, inode, idx) {
            Ok(p) => p,
            Err(e) => return Err(e),
        };
        if b == 0 {
            b = match self.alloc_inode_block(devs, inode, idx) {
                Ok(p) => p,
                Err(e) => return Err(e),
            };
            let zero = zeroed(512);
            match self.write_block(devs, b as u64, &zero) {
                Ok(_) => {},
                Err(e) => return Err(e),
            }
        }
        let mut block = match self.read_block(devs, b as u64) {
            Ok(x) => x,
            Err(e) => return Err(e),
        };
        splice(&mut block, (pos % 512) as usize, chunk.as_slice());
        self.write_block(devs, b as u64, &block)
    }

    /// Writes data to an inode starting at `offset`. Grows the file if needed.
    /// A range that would end beyond the largest offset is refused.
    pub fn write_inode_data<D: BlockDevice>(
        &mut self,
        devs: &mut BlockRegistry<D>,
        inode: &mut Inode,
        offset: u64,
        data: &[u8],
        now: u32,
    ) -> (r: Result<usize, FsError>)
        requires
            fs_ok(*old(self), old(devs)@),
        ensures
            fs_frame(*old(self), old(devs)@, *final(self), final(devs)@),
            did_inode(
                old(devs)@[old(self).dev_idx as int].reliable(),
                r,
                fs_view(*final(self), final(devs)@),
                final(inode)@,
                write_inode_data_s(
                    fs_view(*old(self), old(devs)@),
                    old(inode)@,
                    offset,
                    data@,
                    now,
                ),
            ),
    {
        if !inode.is_file() && !inode.is_dir() {
            return Err(FsError::NotFile);
        }
        let len: usize = data.len();
        if offset > 0xFFFF_FFFF_FFFF_FFFF - len as u64 {
            return Err(FsError::NoSpace);
        }
        let ghost v0 = fs_view(*self, devs@);
        let ghost i0 = inode@;
        let ghost want = write_span_s(v0, i0, offset as int, data@);
        let mut written: usize = 0;
        assert(data@.skip(0) =~= data@);
        while written < len
            invariant
                fs_frame(*old(self), old(devs)@, *self, devs@),
                len == data@.len(),
                written <= len,
                offset + len <= u64::MAX,
                v0 == fs_view(*old(self), old(devs)@),
                i0 == old(inode)@,
                i0.inode_type == 1 || i0.inode_type == 2,
                want == write_span_s(v0, i0, offset as int, data@),
                want == write_span_s(
                    fs_view(*self, devs@),
                    inode@,
                    offset + written,
                    data@.skip(written as int),
                ),
            decreases len - written,
        {
            let pos: u64 = offset + written as u64;
            let room: usize = 512 - (pos % 512) as usize;
            let n: usize = if len - written < room {
                len - written
            } else {
                room
            };
            let chunk = crate::bytes::copy_range(data, written, written + n);
            let ghost rest = data@.skip(written as int);
            assert(rest.subrange(0, n as int) =~= chunk@);
            assert(rest.skip(n as int) =~= data@.skip(written + n));
            match self.write_step(devs, inode, pos, &chunk) {
                Ok(_) => {},
                Err(e) => return Err(e),
            }
            written += n;
        }
        if offset + written as u64 > inode.size {
            inode.size = offset + written as u64;
        }
        if written > 0 {
            inode.mtime = now;
        }
        Ok(written)
    }
}

/// Giving back every block that a list of pointers names; 0 names none.
pub open spec fn free_all(v: FsView, ptrs: Seq<u32>) -> FsView
    decreases ptrs.len(),
{
    if ptrs.len() == 0 {
        v
    } else {
        let v1 = free_all(v, ptrs.drop_last());
        if ptrs.last() != 0 {
            free_block_s(v1, ptrs.last())
        } else {
            v1
        }
    }
}

/// The pointers in an indirect block.
pub open spec fn ptrs_of(block: Seq<u8>) -> Seq<u32> {
    Seq::new(128, |k: int| get32(block, 4 * k))
}

/// A list of pointers with those in `[from, to)` cleared.
pub open spec fn cleared(ptrs: Seq<u32>, from: int, to: int) -> Seq<u32> {
    Seq::new(
        ptrs.len(),
        |k: int|
            if from <= k < to {
                0u32
            } else {
                ptrs[k]
            },
    )
}

/// Giving back the direct blocks `[from, to)` of an inode.
pub open spec fn free_direct_s(v: FsView, i: InodeView, from: int, to: int) -> (FsView, InodeView) {
    if from < to {
        (
            free_all(v, i.direct.subrange(from, to)),
            InodeView { direct: cleared(i.direct, from, to), ..i },
        )
    } else {
        (v, i)
    }
}

/// Giving back all blocks of an inode, the indirect block included.
pub open spec fn free_inode_blocks_s(v: FsView, i: InodeView) -> (
    Result<(), FsError>,
    FsView,
    InodeView,
) {
    let (v1, i1) = free_direct_s(v, i, 0, 9);
    if i.indirect == 0 {
        (Ok(()), v1, i1)
    } else {
        match disk_block(v1.disk, i.indirect as int) {
            Err(e) => (Err(e), v1, i1),
            Ok(b) => (
                Ok(()),
                free_block_s(free_all(v1, ptrs_of(b)), i.indirect),
                InodeView { indirect: 0, ..i1 },
            ),
        }
    }
}

/// How many blocks `size` bytes take.
pub open spec fn blocks_for(size: u64) -> int {
    (size + 511) / 512
}

/// The smaller of two numbers.
pub open spec fn min_of(a: int, b: int) -> int {
    if a < b {
        a
    } else {
        b
    }
}

/// One past the last pointer of the indirect block that a file of `had` blocks
/// uses. A file that has an indirect block without being large enough to need
/// it gives back all that the block names.
pub open spec fn indirect_end(had: int) -> int {
    if had < 9 {
        128
    } else {
        min_of(128, had - 9)
    }
}

/// An indirect block with the pointers in `[from, to)` cleared.
pub open spec fn without_ptrs(block: Seq<u8>, from: int, to: int) -> Seq<u8> {
    patch(block, 4 * from, zeros((4 * (to - from)) as nat))
}

/// Setting the size of a file. Blocks beyond the new size are given back, and the
/// pointers to them cleared.
pub open spec fn truncate_inode_s(v: FsView, i: InodeView, new_size: u64) -> (
    Result<(), FsError>,
    FsView,
    InodeView,
) {
    if new_size >= i.size {
        (Ok(()), v, InodeView { size: new_size, ..i })
    } else {
        let keep = blocks_for(new_size);
        let had = blocks_for(i.size);
        let (v1, i1) = free_direct_s(v, i, keep, min_of(9, had));
        if i.indirect == 0 || (keep > 9 && had <= 9) {
            (Ok(()), v1, InodeView { size: new_size, ..i1 })
        } else {
            match disk_block(v1.disk, i.indirect as int) {
                Err(e) => (Err(e), v1, i1),
                Ok(b) => if keep <= 9 {
                    (
                        Ok(()),
                        free_block_s(
                            free_all(v1, ptrs_of(b).subrange(0, indirect_end(had))),
                            i.indirect,
                        ),
                        InodeView { indirect: 0, size: new_size, ..i1 },
                    )
                } else if keep - 9 < min_of(128, had - 9) {
                    let (from, to) = (keep - 9, min_of(128, had - 9));
                    match put_block(v1, i.indirect as int, without_ptrs(b, from, to)) {
                        (Err(e), v2) => (Err(e), v2, i1),
                        (Ok(_), v2) => (
                            Ok(()),
                            free_all(v2, ptrs_of(b).subrange(from, to)),
                            InodeView { size: new_size, ..i1 },
                        ),
                    }
                } else {
                    (Ok(()), v1, InodeView { size: new_size, ..i1 })
                },
            }
        }
    }
}

/// Setting the size of file `n`.
pub open spec fn truncate_s(v: FsView, n: u32, new_size: u64) -> (Result<(), FsError>, FsView) {
    match read_inode_s(v, n) {
        Err(e) => (Err(e), v),
        Ok(i) => if i.inode_type != 1 {
            (Err(FsError::NotFile), v)
        } else {
            match truncate_inode_s(v, i, new_size) {
                (Err(e), v1, i1) => (Err(e), v1),
                (Ok(_), v1, i1) => write_inode_s(v1, n, i1),
            }
        },
    }
}

/// The whole contents of file `n`, if they fit in memory.
pub open spec fn read_file_s(v: FsView, n: u32) -> Result<Seq<u8>, FsError> {
    match read_inode_s(v, n) {
        Err(e) => Err(e),
        Ok(i) => if i.inode_type != 1 {
            Err(FsError::NotFile)
        } else if i.size > usize::MAX {
            Err(FsError::NoSpace)
        } else {
            read_span(v.disk, i, 0, i.size as int)
        },
    }
}

/// Replacing the contents of file `n`.
pub open spec fn write_file_s(v: FsView, n: u32, data: Seq<u8>, now: u32) -> (
    Result<(), FsError>,
    FsView,
) {
    match read_inode_s(v, n) {
        Err(e) => (Err(e), v),
        Ok(i) => if i.inode_type != 1 {
            (Err(FsError::NotFile), v)
        } else {
            match truncate_inode_s(v, i, 0) {
                (Err(e), v1, i1) => (Err(e), v1),
                (Ok(_), v1, i1) => match write_inode_data_s(v1, i1, 0, data, now) {
                    (Err(e), v2, i2) => (Err(e), v2),
                    (Ok(_), v2, i2) => write_inode_s(v2, n, i2),
                },
            }
        },
    }
}

impl NextFS {
    /// Frees the direct blocks `[from, to)` of an inode.
    fn free_direct<D: BlockDevice>(
        &mut self,
        devs: &BlockRegistry<D>,
        inode: &mut Inode,
        from: usize,
        to: usize,
    )
        requires
            fs_ok(*old(self), devs@),
            to <= 9,
        ensures
            fs_frame(*old(self), devs@, *final(self), devs@),
            (fs_view(*final(self), devs@), final(inode)@) == free_direct_s(
                fs_view(*old(self), devs@),
                old(inode)@,
                from as int,
                to as int,
            ),
    {
        if from >= to {
            return;
        }
        let ghost v0 = fs_view(*self, devs@);
        let ghost i0 = inode@;
        let mut k: usize = from;
        assert(i0.direct.subrange(from as int, from as int) =~= Seq::<u32>::empty());
        assert(cleared(i0.direct, from as int, from as int) =~= i0.direct);
        assert(inode@ =~= InodeView {
            direct: cleared(i0.direct, from as int, from as int),
            ..i0
        });
        while k < to
            invariant
                fs_frame(*old(self), devs@, *self, devs@),
                from <= k <= to <= 9,
                i0.direct.len() == 9,
                fs_view(*self, devs@) == free_all(v0, i0.direct.subrange(from as int, k as int)),
                inode@ == (InodeView { direct: cleared(i0.direct, from as int, k as int), ..i0 }),
            decreases to - k,
        {
            let p: u32 = inode.direct[k];
            assert(p == i0.direct[k as int]);
            proof {
                let s = i0.direct.subrange(from as int, k + 1);
                assert(s.drop_last() =~= i0.direct.subrange(from as int, k as int));
                assert(s.last() == p);
            }
            if p != 0 {
                self.free_block(devs, p);
            }
            inode.direct[k] = 0;
            assert(inode@.direct =~= cleared(i0.direct, from as int, k + 1));
            k += 1;
        }
    }

    /// Frees the blocks that the pointers `[from, to)` of an indirect block name.
    fn free_ptrs<D: BlockDevice>(
        &mut self,
        devs: &BlockRegistry<D>,
        block: &Vec<u8>,
        from: usize,
        to: usize,
    )
        requires
            fs_ok(*old(self), devs@),
            block@.len() == 512,
            from <= to <= 128,
        ensures
            fs_frame(*old(self), devs@, *final(self), devs@),
            fs_view(*final(self), devs@) == free_all(
                fs_view(*old(self), devs@),
                ptrs_of(block@).subrange(from as int, to as int),
            ),
    {
        let ghost v0 = fs_view(*self, devs@);
        let ghost ptrs = ptrs_of(block@);
        let mut k: usize = from;
        assert(ptrs.subrange(from as int, from as int) =~= Seq::<u32>::empty());
        while k < to
            invariant
                fs_frame(*old(self), devs@, *self, devs@),
                from <= k <= to <= 128,
                block@.len() == 512,
                ptrs == ptrs_of(block@),
                fs_view(*self, devs@) == free_all(v0, ptrs.subrange(from as int, k as int)),
            decreases to - k,
        {
            let p: u32 = read_u32(block.as_slice(), 4 * k);
            proof {
                let s = ptrs.subrange(from as int, k + 1);
                assert(s.drop_last() =~= ptrs.subrange(from as int, k as int));
                assert(s.last() == p);
            }
            if p != 0 {
                self.free_block(devs, p);
            }
            k += 1;
        }
    }

    /// Frees all data blocks of an inode, including the indirect block.
    pub(crate) fn free_inode_blocks<D: BlockDevice>(
        &mut self,
        devs: &BlockRegistry<D>,
        inode: &mut Inode,
    ) -> (r: Result<(), FsError>)
        requires
            fs_ok(*old(self), devs@),
        ensures
            fs_frame(*old(self), devs@, *final(self), devs@),
            did_inode(
                devs@[old(self).dev_idx as int].reliable(),
                r,
                fs_view(*final(self), devs@),
                final(inode)@,
                free_inode_blocks_s(fs_view(*old(self), devs@), old(inode)@),
            ),
    {
        self.free_direct(devs, inode, 0, 9);
        if inode.indirect != 0 {
            let block = match self.read_block(devs, inode.indirect as u64) {
                Ok(b) => b,
                Err(e) => return Err(e),
            };
            self.free_ptrs(devs, &block, 0, 128);
            assert(ptrs_of(block@).subrange(0, 128) =~= ptrs_of(block@));
            self.free_block(devs, inode.indirect);
            inode.indirect = 0;
        }
        Ok(())
    }

    /// Truncates or extends an in-memory inode.
    pub(crate) fn truncate_inode<D: BlockDevice>(
        &mut self,
        devs: &mut BlockRegistry<D>,
        inode: &mut Inode,
        new_size: u64,
    ) -> (r: Result<(), FsError>)
        requires
            fs_ok(*old(self), old(devs)@),
        ensures
            fs_frame(*old(self), old(devs)@, *final(self), final(devs)@),
            did_inode(
                old(devs)@[old(self).dev_idx as int].reliable(),
                r,
                fs_view(*final(self), final(devs)@),
                final(inode)@,
                truncate_inode_s(fs_view(*old(self), old(devs)@), old(inode)@, new_size),
            ),
    {
        if new_size >= inode.size {
            inode.size = new_size;
            return Ok(());
        }
        let had: u64 = (inode.size - 1) / 512 + 1;
        let keep: u64 = if new_size == 0 {
            0
        } else {
            (new_size - 1) / 512 + 1
        };
        assert(had == blocks_for(inode.size));
        assert(keep == blocks_for(new_size));
        let from: usize = if keep < 9 {
            keep as usize
        } else {
            9
        };
        let to: usize = if had < 9 {
            had as usize
        } else {
            9
        };
        self.free_direct(devs, inode, from, to);
        if inode.indirect != 0 && (keep <= 9 || had > 9) {
            let block = match self.read_block(devs, inode.indirect as u64) {
                Ok(b) => b,
                Err(e) => return Err(e),
            };
            let end: usize = if had < 9 {
                128
            } else if had - 9 < 128 {
                (had - 9) as usize
            } else {
                128
            };
            if keep <= 9 {
                self.free_ptrs(devs, &block, 0, end);
                self.free_block(devs, inode.indirect);
                inode.indirect = 0;
            } else if keep - 9 < end as u64 {
                let start: usize = (keep - 9) as usize;
                let mut rest = crate::bytes::copy_range(block.as_slice(), 0, block.len());
                assert(rest@ =~= block@);
                let gone = zeroed(4 * (end - start));
                splice(&mut rest, 4 * start, gone.as_slice());
                assert(rest@ =~= without_ptrs(block@, start as int, end as int));
                match self.write_block(devs, inode.indirect as u64, &rest) {
                    Ok(_) => {},
                    Err(e) => return Err(e),
                }
                self.free_ptrs(devs, &block, start, end);
            }
        }
        inode.size = new_size;
        Ok(())
    }

    /// Truncates a file to a specific size, freeing blocks beyond the new size.
    pub fn truncate<D: BlockDevice>(
        &mut self,
        devs: &mut BlockRegistry<D>,
        inode_num: u32,
        new_size: u64,
    ) -> (r: Result<(), FsError>)
        requires
            fs_ok(*old(self), old(devs)@),
        ensures
            fs_frame(*old(self), old(devs)@, *final(self), final(devs)@),
            did(
                old(devs)@[old(self).dev_idx as int].reliable(),
                r,
                fs_view(*final(self), final(devs)@),
                truncate_s(fs_view(*old(self), old(devs)@), inode_num, new_size),
            ),
    {
        let mut inode = match self.read_inode(devs, inode_num) {
            Ok(i) => i,
            Err(e) => return Err(e),
        };
        if !inode.is_file() {
            return Err(FsError::NotFile);
        }
        match self.truncate_inode(devs, &mut inode, new_size) {
            Ok(_) => {},
            Err(e) => return Err(e),
        }
        self.write_inode(devs, inode_num, &inode)
    }

    /// Reads entire file contents.
    pub fn read_file<D: BlockDevice>(&self, devs: &BlockRegistry<D>, inode_num: u32) -> (r: Result<
        Vec<u8>,
        FsError,
    >)
        requires
            fs_ok(*self, devs@),
        ensures
            match r {
                Ok(data) => read_file_s(fs_view(*self, devs@), inode_num) == Ok::<
                    Seq<u8>,
                    FsError,
                >(data@),
                Err(e) => got(
                    devs@[self.dev_idx as int].reliable(),
                    Err::<Seq<u8>, FsError>(e),
                    read_file_s(fs_view(*self, devs@), inode_num),
                ),
            },
    {
        let inode = match self.read_inode(devs, inode_num) {
            Ok(i) => i,
            Err(e) => return Err(e),
        };
        if !inode.is_file() {
            return Err(FsError::NotFile);
        }
        if inode.size > usize::MAX as u64 {
            return Err(FsError::NoSpace);
        }
        let mut buf = zeroed(inode.size as usize);
        let ghost disk = fs_view(*self, devs@).disk;
        assert(read_span(disk, inode@, 0, 0)->Ok_0 =~= Seq::<u8>::empty());
        match self.read_inode_data(devs, inode_num, 0, buf.as_mut_slice()) {
            Ok(_) => {
                proof {
                    let data = read_inode_data_s(
                        fs_view(*self, devs@),
                        inode_num,
                        0,
                        inode.size as nat,
                    )->Ok_0;
                    assert(buf@ =~= data);
                }
                Ok(buf)
            },
            Err(e) => Err(e),
        }
    }

    /// Writes/replaces entire file contents.
    pub fn write_file<D: BlockDevice>(
        &mut self,
        devs: &mut BlockRegistry<D>,
        inode_num: u32,
        data: &[u8],
        now: u32,
    ) -> (r: Result<(), FsError>)
        requires
            fs_ok(*old(self), old(devs)@),
        ensures
            fs_frame(*old(self), old(devs)@, *final(self), final(devs)@),
            did(
                old(devs)@[old(self).dev_idx as int].reliable(),
                r,
                fs_view(*final(self), final(devs)@),
                write_file_s(fs_view(*old(self), old(devs)@), inode_num, data@, now),
            ),
    {
        let mut inode = match self.read_inode(devs, inode_num) {
            Ok(i) => i,
            Err(e) => return Err(e),
        };
        if !inode.is_file() {
            return Err(FsError::NotFile);
        }
        match self.truncate_inode(devs, &mut inode, 0) {
            Ok(_) => {},
            Err(e) => return Err(e),
        }
        match self.write_inode_data(devs, &mut inode, 0, data, now) {
            Ok(_) => {},
            Err(e) => return Err(e),
        }
        self.write_inode(devs, inode_num, &inode)
    }
}

} // verus!
