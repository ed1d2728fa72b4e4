//! On-disk structures of NextFS: superblock, inode and directory entry, with
//! their byte encodings.

use crate::bytes::{
    get16, get32, get64, le16, le32, le64, push_fill, push_range, push_u16, push_u32, push_u64,
    read_u16, read_u32, read_u64, str_eq, utf8_text, zeros,
};
use vstd::prelude::*;
use vstd::utf8::{decode_utf8, encode_utf8, valid_utf8};

verus! {

/// NextFS magic number (ASCII "NXFS" in little-endian).
pub const MAGIC: u32 = 0x5346584E;

/// Block size in bytes.
pub const BLOCK_SIZE: usize = 512;

/// Number of direct block pointers in each inode.
pub const DIRECT_PTRS: usize = 9;

/// Number of block pointers in an indirect block.
pub const PTRS_PER_BLOCK: usize = 128;

/// Size of an encoded inode.
pub const INODE_SIZE: usize = 64;

/// Number of inodes in a block.
pub const INODES_PER_BLOCK: u32 = 8;

/// Size of an encoded directory entry.
pub const DIRENT_SIZE: usize = 64;

/// Number of directory entries in a block.
pub const ENTRIES_PER_BLOCK: u64 = 8;

/// Default permission bits for newly created files (`rw-r--r--`).
pub const DEFAULT_FILE_MODE: u16 = 0o644;

/// Default permission bits for newly created directories (`rwxr-xr-x`).
pub const DEFAULT_DIR_MODE: u16 = 0o755;

/// Permission bit masks.
pub const S_IRUSR: u16 = 0o400;

pub const S_IWUSR: u16 = 0o200;

pub const S_IXUSR: u16 = 0o100;

pub const S_IRGRP: u16 = 0o040;

pub const S_IWGRP: u16 = 0o020;

pub const S_IXGRP: u16 = 0o010;

pub const S_IROTH: u16 = 0o004;

pub const S_IWOTH: u16 = 0o002;

pub const S_IXOTH: u16 = 0o001;

/// Access-check request bits.
pub const MAY_READ: u16 = 0o4;

pub const MAY_WRITE: u16 = 0o2;

pub const MAY_EXEC: u16 = 0o1;

/// Root directory is always inode 1.
pub const ROOT_INODE: u32 = 1;

/// Length of the name field of a directory entry (59 usable bytes).
pub const MAX_NAME_LEN: usize = 60;

/// The superblock, always at block 0.
#[derive(Clone, Copy)]
pub struct Superblock {
    pub magic: u32,
    pub block_size: u32,
    pub total_blocks: u32,
    pub inode_count: u32,
    pub free_blocks: u32,
    pub free_inodes: u32,
    pub bitmap_start: u32,
    pub inode_table_start: u32,
    pub data_start: u32,
    pub reserved: [u8; 472],
}

/// The contents of a superblock.
#[verifier::ext_equal]
pub struct SuperblockView {
    pub magic: u32,
    pub block_size: u32,
    pub total_blocks: u32,
    pub inode_count: u32,
    pub free_blocks: u32,
    pub free_inodes: u32,
    pub bitmap_start: u32,
    pub inode_table_start: u32,
    pub data_start: u32,
    pub reserved: Seq<u8>,
}

/// The block that encodes a superblock; its last four bytes are zero.
pub open spec fn sb_bytes(sb: SuperblockView) -> Seq<u8> {
    le32(sb.magic) + le32(sb.block_size) + le32(sb.total_blocks) + le32(sb.inode_count) + le32(
        sb.free_blocks,
    ) + le32(sb.free_inodes) + le32(sb.bitmap_start) + le32(sb.inode_table_start) + le32(
        sb.data_start,
    ) + sb.reserved + zeros(4)
}

/// The superblock that a block encodes.
pub open spec fn sb_of(s: Seq<u8>) -> SuperblockView {
    SuperblockView {
        magic: get32(s, 0),
        block_size: get32(s, 4),
        total_blocks: get32(s, 8),
        inode_count: get32(s, 12),
        free_blocks: get32(s, 16),
        free_inodes: get32(s, 20),
        bitmap_start: get32(s, 24),
        inode_table_start: get32(s, 28),
        data_start: get32(s, 32),
        reserved: s.subrange(36, 508),
    }
}

/// A superblock read back from its encoding is the same superblock.
pub proof fn law_superblock_round_trip(sb: SuperblockView)
    requires
        sb.reserved.len() == 472,
    ensures
        sb_bytes(sb).len() == 512,
        sb_of(sb_bytes(sb)) == sb,
{
    let s = sb_bytes(sb);
    assert(s.subrange(0, 4) =~= le32(sb.magic));
    assert(s.subrange(4, 8) =~= le32(sb.block_size));
    assert(s.subrange(8, 12) =~= le32(sb.total_blocks));
    assert(s.subrange(12, 16) =~= le32(sb.inode_count));
    assert(s.subrange(16, 20) =~= le32(sb.free_blocks));
    assert(s.subrange(20, 24) =~= le32(sb.free_inodes));
    assert(s.subrange(24, 28) =~= le32(sb.bitmap_start));
    assert(s.subrange(28, 32) =~= le32(sb.inode_table_start));
    assert(s.subrange(32, 36) =~= le32(sb.data_start));
    assert(s.subrange(36, 508) =~= sb.reserved);
    crate::bytes::lemma_get32(s, 0, sb.magic);
    crate::bytes::lemma_get32(s, 4, sb.block_size);
    crate::bytes::lemma_get32(s, 8, sb.total_blocks);
    crate::bytes::lemma_get32(s, 12, sb.inode_count);
    crate::bytes::lemma_get32(s, 16, sb.free_blocks);
    crate::bytes::lemma_get32(s, 20, sb.free_inodes);
    crate::bytes::lemma_get32(s, 24, sb.bitmap_start);
    crate::bytes::lemma_get32(s, 28, sb.inode_table_start);
    crate::bytes::lemma_get32(s, 32, sb.data_start);
}

impl Superblock {
    pub open spec fn view(&self) -> SuperblockView {
        SuperblockView {
            magic: self.magic,
            block_size: self.block_size,
            total_blocks: self.total_blocks,
            inode_count: self.inode_count,
            free_blocks: self.free_blocks,
            free_inodes: self.free_inodes,
            bitmap_start: self.bitmap_start,
            inode_table_start: self.inode_table_start,
            data_start: self.data_start,
            reserved: self.reserved@,
        }
    }

    /// Serializes the superblock to a block.
    pub fn to_bytes(&self) -> (v: Vec<u8>)
        ensures
            v@ == sb_bytes(self@),
            v@.len() == 512,
    {
        let mut v: Vec<u8> = Vec::new();
        push_u32(&mut v, self.magic);
        push_u32(&mut v, self.block_size);
        push_u32(&mut v, self.total_blocks);
        push_u32(&mut v, self.inode_count);
        push_u32(&mut v, self.free_blocks);
        push_u32(&mut v, self.free_inodes);
        push_u32(&mut v, self.bitmap_start);
        push_u32(&mut v, self.inode_table_start);
        push_u32(&mut v, self.data_start);
        push_range(&mut v, &self.reserved, 0, 472);
        push_fill(&mut v, 0, 4);
        assert(self.reserved@.subrange(0, 472) =~= self.reserved@);
        assert(Seq::new(4, |i: int| 0u8) =~= zeros(4));
        assert(v@ =~= sb_bytes(self@));
        v
    }

    /// Deserializes a superblock from a block.
    pub fn from_bytes(buf: &[u8]) -> (sb: Superblock)
        requires
            buf@.len() == 512,
        ensures
            sb@ == sb_of(buf@),
    {
        let mut reserved: [u8; 472] = [0;472];
        let mut i: usize = 0;
        while i < 472
            invariant
                i <= 472,
                buf@.len() == 512,
                forall|j: int| 0 <= j < i ==> #[trigger] reserved@[j] == buf@[36 + j],
            decreases 472 - i,
        {
            reserved[i] = buf[36 + i];
            i += 1;
        }
        let sb = Superblock {
            magic: read_u32(buf, 0),
            block_size: read_u32(buf, 4),
            total_blocks: read_u32(buf, 8),
            inode_count: read_u32(buf, 12),
            free_blocks: read_u32(buf, 16),
            free_inodes: read_u32(buf, 20),
            bitmap_start: read_u32(buf, 24),
            inode_table_start: read_u32(buf, 28),
            data_start: read_u32(buf, 32),
            reserved,
        };
        assert(sb.reserved@ =~= buf@.subrange(36, 508));
        sb
    }

    /// Whether the magic number and the block size are those of NextFS.
    pub fn is_valid(&self) -> (r: bool)
        ensures
            r == sb_valid(self@),
    {
        self.magic == MAGIC && self.block_size == BLOCK_SIZE as u32
    }
}

/// The superblock is one of NextFS.
pub open spec fn sb_valid(sb: SuperblockView) -> bool {
    sb.magic == MAGIC && sb.block_size == 512
}

/// Inode: a fixed 64-byte structure.
#[derive(Clone, Copy)]
pub struct Inode {
    /// 0 = free, 1 = file, 2 = directory.
    pub inode_type: u8,
    pub _pad: u8,
    /// Permission bits.
    pub mode: u16,
    /// File size in bytes.
    pub size: u64,
    pub uid: u16,
    pub gid: u16,
    /// Modification time in timer ticks.
    pub mtime: u32,
    pub direct: [u32; 9],
    /// Block that holds further block pointers.
    pub indirect: u32,
    pub _reserved: [u8; 4],
}

/// The contents of an inode.
#[verifier::ext_equal]
pub struct InodeView {
    pub inode_type: u8,
    pub pad: u8,
    pub mode: u16,
    pub size: u64,
    pub uid: u16,
    pub gid: u16,
    pub mtime: u32,
    pub direct: Seq<u32>,
    pub indirect: u32,
    pub reserved: Seq<u8>,
}

/// A run of block pointers, four bytes each.
pub open spec fn ptrs_bytes(s: Seq<u32>) -> Seq<u8> {
    Seq::new(4 * s.len(), |k: int| le32(s[k / 4])[k % 4])
}

/// The 64 bytes that encode an inode.
pub open spec fn inode_bytes(i: InodeView) -> Seq<u8> {
    seq![i.inode_type, i.pad] + le16(i.mode) + le64(i.size) + le16(i.uid) + le16(i.gid) + le32(
        i.mtime,
    ) + ptrs_bytes(i.direct) + le32(i.indirect) + i.reserved
}

/// The inode that 64 bytes encode.
pub open spec fn inode_of(s: Seq<u8>) -> InodeView {
    InodeView {
        inode_type: s[0],
        pad: s[1],
        mode: get16(s, 2),
        size: get64(s, 4),
        uid: get16(s, 12),
        gid: get16(s, 14),
        mtime: get32(s, 16),
        direct: Seq::new(9, |k: int| get32(s, 20 + 4 * k)),
        indirect: get32(s, 56),
        reserved: s.subrange(60, 64),
    }
}

/// The shape of every inode: nine direct pointers and four reserved bytes.
pub open spec fn inode_shaped(i: InodeView) -> bool {
    i.direct.len() == 9 && i.reserved.len() == 4
}

/// An inode read back from its encoding is the same inode.
pub proof fn law_inode_round_trip(i: InodeView)
    requires
        inode_shaped(i),
    ensures
        inode_bytes(i).len() == 64,
        inode_of(inode_bytes(i)) == i,
{
    let s = inode_bytes(i);
    assert(s.subrange(2, 4) =~= le16(i.mode));
    assert(s.subrange(4, 12) =~= le64(i.size));
    assert(s.subrange(12, 14) =~= le16(i.uid));
    assert(s.subrange(14, 16) =~= le16(i.gid));
    assert(s.subrange(16, 20) =~= le32(i.mtime));
    assert(s.subrange(56, 60) =~= le32(i.indirect));
    assert(s.subrange(60, 64) =~= i.reserved);
    crate::bytes::lemma_get16(s, 2, i.mode);
    crate::bytes::lemma_get64(s, 4, i.size);
    crate::bytes::lemma_get16(s, 12, i.uid);
    crate::bytes::lemma_get16(s, 14, i.gid);
    crate::bytes::lemma_get32(s, 16, i.mtime);
    crate::bytes::lemma_get32(s, 56, i.indirect);
    assert forall|k: int| 0 <= k < 9 implies #[trigger] get32(s, 20 + 4 * k) == i.direct[k] by {
        assert(s.subrange(20 + 4 * k, 24 + 4 * k) =~= le32(i.direct[k])) by {
            assert forall|m: int| 0 <= m < 4 implies s[20 + 4 * k + m] == le32(i.direct[k])[m] by {
                assert(s[20 + (4 * k + m)] == ptrs_bytes(i.direct)[4 * k + m]);
                assert((4 * k + m) / 4 == k && (4 * k + m) % 4 == m);
            }
        }
        crate::bytes::lemma_get32(s, 20 + 4 * k, i.direct[k]);
    }
    assert(inode_of(s).direct =~= i.direct);
}

/// An inode without any data, of the given type and permissions.
pub open spec fn blank_inode(inode_type: u8, mode: u16) -> InodeView {
    InodeView {
        inode_type,
        pad: 0,
        mode,
        size: 0,
        uid: 0,
        gid: 0,
        mtime: 0,
        direct: Seq::new(9, |k: int| 0u32),
        indirect: 0,
        reserved: zeros(4),
    }
}

/// The permission bits that apply to a user: those of the owner, of the group
/// or of everyone else, whichever is the most specific.
pub open spec fn class_bits(i: InodeView, uid: u16, gid: u16) -> u16 {
    if i.uid == uid {
        i.mode / 64 % 8
    } else if i.gid == gid {
        i.mode / 8 % 8
    } else {
        i.mode % 8
    }
}

/// Whether a user may do what `want` asks: the superuser always, anyone else
/// when every bit asked for is among the bits that apply.
pub open spec fn permitted(i: InodeView, uid: u16, gid: u16, want: u16) -> bool {
    uid == 0 || class_bits(i, uid, gid) & want == want
}

impl Inode {
    pub open spec fn view(&self) -> InodeView {
        InodeView {
            inode_type: self.inode_type,
            pad: self._pad,
            mode: self.mode,
            size: self.size,
            uid: self.uid,
            gid: self.gid,
            mtime: self.mtime,
            direct: self.direct@,
            indirect: self.indirect,
            reserved: self._reserved@,
        }
    }

    fn blank(inode_type: u8, mode: u16) -> (r: Inode)
        ensures
            r@ == blank_inode(inode_type, mode),
            inode_shaped(r@),
    {
        let r = Inode {
            inode_type,
            _pad: 0,
            mode,
            size: 0,
            uid: 0,
            gid: 0,
            mtime: 0,
            direct: [0;9],
            indirect: 0,
            _reserved: [0;4],
        };
        assert(r@.direct =~= blank_inode(inode_type, mode).direct);
        assert(r@.reserved =~= zeros(4));
        r
    }

    /// An unused inode.
    pub fn empty() -> (r: Inode)
        ensures
            r@ == blank_inode(0, 0),
            inode_shaped(r@),
    {
        Inode::blank(0, 0)
    }

    /// An empty file with the default permissions.
    pub fn new_file() -> (r: Inode)
        ensures
            r@ == blank_inode(1, DEFAULT_FILE_MODE),
            inode_shaped(r@),
    {
        Inode::blank(1, DEFAULT_FILE_MODE)
    }

    /// An empty directory with the default permissions.
    pub fn new_dir() -> (r: Inode)
        ensures
            r@ == blank_inode(2, DEFAULT_DIR_MODE),
            inode_shaped(r@),
    {
        Inode::blank(2, DEFAULT_DIR_MODE)
    }

    pub fn is_free(&self) -> (r: bool)
        ensures
            r == (self@.inode_type == 0),
    {
        self.inode_type == 0
    }

    pub fn is_file(&self) -> (r: bool)
        ensures
            r == (self@.inode_type == 1),
    {
        self.inode_type == 1
    }

    pub fn is_dir(&self) -> (r: bool)
        ensures
            r == (self@.inode_type == 2),
    {
        self.inode_type == 2
    }

    /// Whether the given access bits are permitted for the user. User 0
    /// bypasses all checks.
    pub fn permits(&self, uid: u16, gid: u16, want: u16) -> (r: bool)
        ensures
            r == permitted(self@, uid, gid, want),
    {
        if uid == 0 {
            return true;
        }
        let granted: u16 = if self.uid == uid {
            self.mode / 64 % 8
        } else if self.gid == gid {
            self.mode / 8 % 8
        } else {
            self.mode % 8
        };
        (granted & want) == want
    }

    /// Serializes the inode.
    pub fn to_bytes(&self) -> (v: Vec<u8>)
        ensures
            v@ == inode_bytes(self@),
            v@.len() == 64,
    {
        let mut v: Vec<u8> = Vec::new();
        v.push(self.inode_type);
        v.push(self._pad);
        push_u16(&mut v, self.mode);
        push_u64(&mut v, self.size);
        push_u16(&mut v, self.uid);
        push_u16(&mut v, self.gid);
        push_u32(&mut v, self.mtime);
        let ghost head = v@;
        let mut i: usize = 0;
        while i < 9
            invariant
                i <= 9,
                v@ == head + ptrs_bytes(self.direct@.subrange(0, i as int)),
            decreases 9 - i,
        {
            push_u32(&mut v, self.direct[i]);
            i += 1;
            proof {
                lemma_ptrs_push(self.direct@.subrange(0, i - 1), self.direct@[i - 1]);
                assert(self.direct@.subrange(0, i - 1).push(self.direct@[i - 1])
                    =~= self.direct@.subrange(0, i as int));
                assert(v@ =~= head + ptrs_bytes(self.direct@.subrange(0, i as int)));
            }
        }
        assert(self.direct@.subrange(0, 9) =~= self.direct@);
        push_u32(&mut v, self.indirect);
        push_range(&mut v, &self._reserved, 0, 4);
        assert(self._reserved@.subrange(0, 4) =~= self._reserved@);
        assert(v@ =~= inode_bytes(self@));
        v
    }

    /// Deserializes the inode at `off`.
    pub fn from_bytes(buf: &[u8], off: usize) -> (r: Inode)
        requires
            off + 64 <= buf@.len(),
        ensures
            r@ == inode_of(buf@.subrange(off as int, off + 64)),
            inode_shaped(r@),
    {
        assert(buf@.len() == buf.len());
        let ghost s = buf@.subrange(off as int, off + 64);
        let mut direct: [u32; 9] = [0;9];
        let mut i: usize = 0;
        while i < 9
            invariant
                i <= 9,
                off + 64 <= buf@.len() <= usize::MAX,
                s == buf@.subrange(off as int, off + 64),
                forall|j: int| 0 <= j < i ==> #[trigger] direct@[j] == get32(s, 20 + 4 * j),
            decreases 9 - i,
        {
            direct[i] = read_u32(buf, off + 20 + 4 * i);
            i += 1;
        }
        let r = Inode {
            inode_type: buf[off],
            _pad: buf[off + 1],
            mode: read_u16(buf, off + 2),
            size: read_u64(buf, off + 4),
            uid: read_u16(buf, off + 12),
            gid: read_u16(buf, off + 14),
            mtime: read_u32(buf, off + 16),
            direct,
            indirect: read_u32(buf, off + 56),
            _reserved: [buf[off + 60], buf[off + 61], buf[off + 62], buf[off + 63]],
        };
        assert(r@.direct =~= inode_of(s).direct);
        assert(r@.reserved =~= inode_of(s).reserved);
        r
    }
}

proof fn lemma_ptrs_push(s: Seq<u32>, x: u32)
    ensures
        ptrs_bytes(s.push(x)) == ptrs_bytes(s) + le32(x),
{
    assert forall|k: int| 0 <= k < 4 * s.len() + 4 implies #[trigger] ptrs_bytes(s.push(x))[k] == (
    ptrs_bytes(s) + le32(x))[k] by {
        if k >= 4 * s.len() {
            assert(k / 4 == s.len() && k % 4 == k - 4 * s.len());
        }
    }
    assert(ptrs_bytes(s.push(x)) =~= ptrs_bytes(s) + le32(x));
}

/// Directory entry: a fixed 64-byte record.
#[derive(Clone, Copy)]
pub struct DirEntry {
    /// Inode number (0 = unused entry).
    pub inode: u32,
    /// Null-terminated file name.
    pub name: [u8; 60],
}

/// The contents of a directory entry.
#[verifier::ext_equal]
pub struct DirEntryView {
    pub inode: u32,
    pub name: Seq<u8>,
}

/// The 64 bytes that encode a directory entry.
pub open spec fn dirent_bytes(e: DirEntryView) -> Seq<u8> {
    le32(e.inode) + e.name
}

/// The directory entry that 64 bytes encode.
pub open spec fn dirent_of(s: Seq<u8>) -> DirEntryView {
    DirEntryView { inode: get32(s, 0), name: s.subrange(4, 64) }
}

/// A directory entry read back from its encoding is the same entry.
pub proof fn law_dirent_round_trip(e: DirEntryView)
    requires
        e.name.len() == 60,
    ensures
        dirent_bytes(e).len() == 64,
        dirent_of(dirent_bytes(e)) == e,
{
    let s = dirent_bytes(e);
    assert(s.subrange(0, 4) =~= le32(e.inode));
    crate::bytes::lemma_get32(s, 0, e.inode);
    assert(s.subrange(4, 64) =~= e.name);
}

/// The name field for `name`: its first 59 bytes, then zeros.
pub open spec fn name_field(name: Seq<char>) -> Seq<u8> {
    let b = encode_utf8(name);
    let n = if b.len() < 59 {
        b.len() as int
    } else {
        59
    };
    b.subrange(0, n) + zeros((60 - n) as nat)
}

/// The bytes of a name field before the first zero byte.
pub open spec fn before_nul(s: Seq<u8>) -> Seq<u8>
    decreases s.len(),
{
    if s.len() == 0 || s[0] == 0 {
        Seq::empty()
    } else {
        seq![s[0]] + before_nul(s.drop_first())
    }
}

/// The name that a name field holds; the empty name if it is not valid text.
pub open spec fn field_name(s: Seq<u8>) -> Seq<char> {
    if valid_utf8(before_nul(s)) {
        decode_utf8(before_nul(s))
    } else {
        Seq::empty()
    }
}

/// The entry that gives `name` to an inode.
pub open spec fn new_dirent(inode: u32, name: Seq<char>) -> DirEntryView {
    DirEntryView { inode, name: name_field(name) }
}

proof fn lemma_before_nul(s: Seq<u8>, n: int)
    requires
        0 <= n <= s.len(),
        forall|j: int| 0 <= j < n ==> #[trigger] s[j] != 0,
        n < s.len() ==> s[n] == 0,
    ensures
        before_nul(s) == s.subrange(0, n),
    decreases s.len(),
{
    if n > 0 {
        let t = s.drop_first();
        assert forall|j: int| 0 <= j < n - 1 implies #[trigger] t[j] != 0 by {
            assert(s[j + 1] != 0);
        }
        lemma_before_nul(t, n - 1);
        assert(seq![s[0]] + t.subrange(0, n - 1) =~= s.subrange(0, n));
    } else {
        assert(s.subrange(0, 0) =~= Seq::<u8>::empty());
    }
}

/// A name of fewer than 60 bytes, without a zero byte, is read back from the
/// entry that was made for it.
pub proof fn law_name_round_trip(name: Seq<char>)
    requires
        encode_utf8(name).len() < 60,
        !encode_utf8(name).contains(0u8),
    ensures
        field_name(name_field(name)) == name,
{
    let b = encode_utf8(name);
    let f = name_field(name);
    assert(b.subrange(0, b.len() as int) =~= b);
    assert forall|j: int| 0 <= j < b.len() implies #[trigger] f[j] != 0 by {
        assert(f[j] == b[j]);
        assert(b.contains(b[j]));
    }
    lemma_before_nul(f, b.len() as int);
    assert(f.subrange(0, b.len() as int) =~= b);
    vstd::utf8::encode_utf8_valid_utf8(name);
    vstd::utf8::encode_utf8_decode_utf8(name);
}

impl DirEntry {
    pub open spec fn view(&self) -> DirEntryView {
        DirEntryView { inode: self.inode, name: self.name@ }
    }

    /// The entry that gives `name` (cut to 59 bytes) to an inode.
    pub fn new(inode: u32, name: &str) -> (r: DirEntry)
        ensures
            r@ == new_dirent(inode, name@),
    {
        let bytes = name.as_bytes();
        let n: usize = if bytes.len() < 59 {
            bytes.len()
        } else {
            59
        };
        let mut buf: [u8; 60] = [0;60];
        let mut i: usize = 0;
        while i < n
            invariant
                i <= n <= 59,
                n <= bytes@.len(),
                forall|j: int|
                    0 <= j < 60 ==> #[trigger] buf@[j] == (if j < i {
                        bytes@[j]
                    } else {
                        0
                    }),
            decreases n - i,
        {
            buf[i] = bytes[i];
            i += 1;
        }
        assert(buf@ =~= name_field(name@));
        DirEntry { inode, name: buf }
    }

    pub fn is_used(&self) -> (r: bool)
        ensures
            r == (self.inode != 0),
    {
        self.inode != 0
    }

    /// The name of the entry.
    pub fn name_str(&self) -> (r: String)
        ensures
            r@ == field_name(self@.name),
    {
        let mut len: usize = 0;
        while len < 60 && self.name[len] != 0
            invariant
                len <= 60,
                forall|j: int| 0 <= j < len ==> #[trigger] self.name@[j] != 0,
            decreases 60 - len,
        {
            len += 1;
        }
        proof {
            lemma_before_nul(self.name@, len as int);
        }
        let mut prefix: Vec<u8> = Vec::new();
        push_range(&mut prefix, &self.name, 0, len);
        assert(prefix@ =~= before_nul(self.name@));
        match utf8_text(prefix.as_slice()) {
            Some(s) => s.to_owned(),
            None => String::new(),
        }
    }

    /// Whether the entry bears `name`.
    pub fn name_matches(&self, name: &str) -> (r: bool)
        ensures
            r == (field_name(self@.name) == name@),
    {
        let own = self.name_str();
        str_eq(own.as_str(), name)
    }

    /// Serializes the entry.
    pub fn to_bytes(&self) -> (v: Vec<u8>)
        ensures
            v@ == dirent_bytes(self@),
            v@.len() == 64,
    {
        let mut v: Vec<u8> = Vec::new();
        push_u32(&mut v, self.inode);
        push_range(&mut v, &self.name, 0, 60);
        assert(self.name@.subrange(0, 60) =~= self.name@);
        assert(v@ =~= dirent_bytes(self@));
        v
    }

    /// Deserializes the entry at `off`.
    pub fn from_bytes(buf: &[u8], off: usize) -> (r: DirEntry)
        requires
            off + 64 <= buf@.len(),
        ensures
            r@ == dirent_of(buf@.subrange(off as int, off + 64)),
    {
        assert(buf@.len() == buf.len());
        let mut name: [u8; 60] = [0;60];
        let mut i: usize = 0;
        while i < 60
            invariant
                i <= 60,
                off + 64 <= buf@.len() <= usize::MAX,
                forall|j: int| 0 <= j < i ==> #[trigger] name@[j] == buf@[off + 4 + j],
            decreases 60 - i,
        {
            name[i] = buf[off + 4 + i];
            i += 1;
        }
        let r = DirEntry { inode: read_u32(buf, off), name };
        assert(r@.name =~= dirent_of(buf@.subrange(off as int, off + 64)).name);
        r
    }
}

} // verus!
