//! Metadata of NextFS files: status, permissions and ownership.

use crate::driver::block::{BlockDevice, BlockError, BlockRegistry};
use crate::fs::nextfs::{
    did, fs_frame, fs_ok, fs_view, got, read_inode_s, write_inode_s, FsError, FsView, NextFS,
};
use crate::fs::ondisk::{
    inode_shaped, permitted, Inode, InodeView, S_IRGRP, S_IROTH, S_IRUSR, S_IWGRP, S_IWOTH,
    S_IWUSR, S_IXGRP, S_IXOTH, S_IXUSR,
};
use vstd::prelude::*;
use vstd::string::StringExecFns;

verus! {

/// Metadata snapshot of an inode.
#[derive(Debug, Clone, Copy, PartialEq, Eq, Structural)]
pub struct FileStat {
    pub inode: u32,
    /// 1 = file, 2 = directory.
    pub inode_type: u8,
    pub mode: u16,
    pub uid: u16,
    pub gid: u16,
    pub size: u64,
    /// Timer ticks at last modification.
    pub mtime: u32,
}

/// File open mode.
#[derive(Debug, Clone, Copy, PartialEq, Eq, Structural)]
pub enum OpenMode {
    Read,
    Write,
    ReadWrite,
}

/// `letter` if the permission bit is set, a dash otherwise.
pub open spec fn mode_letter(mode: u16, mask: u16, letter: u8) -> u8 {
    if mode & mask != 0 {
        letter
    } else {
        0x2d
    }
}

/// The `drwxr-xr-x` form of a type and a permission word.
pub open spec fn mode_text(dir: bool, mode: u16) -> Seq<u8> {
    seq![
        if dir {
            0x64
        } else {
            0x2d
        },
        mode_letter(mode, S_IRUSR, 0x72),
        mode_letter(mode, S_IWUSR, 0x77),
        mode_letter(mode, S_IXUSR, 0x78),
        mode_letter(mode, S_IRGRP, 0x72),
        mode_letter(mode, S_IWGRP, 0x77),
        mode_letter(mode, S_IXGRP, 0x78),
        mode_letter(mode, S_IROTH, 0x72),
        mode_letter(mode, S_IWOTH, 0x77),
        mode_letter(mode, S_IXOTH, 0x78),
    ]
}

fn letter_for(mode: u16, mask: u16, letter: u8) -> (r: u8)
    ensures
        r == mode_letter(mode, mask, letter),
{
    if mode & mask != 0 {
        letter
    } else {
        0x2d
    }
}

impl FileStat {
    /// True if this is a directory.
    pub fn is_dir(&self) -> (r: bool)
        ensures
            r == (self.inode_type == 2),
    {
        self.inode_type == 2
    }

    /// Renders the type and the permission bits as a `drwxr-xr-x`-style string.
    pub fn mode_string(&self) -> (r: [u8; 10])
        ensures
            r@ == mode_text(self.inode_type == 2, self.mode),
    {
        let m: u16 = self.mode;
        let r = [
            if self.is_dir() {
                0x64
            } else {
                0x2d
            },
            letter_for(m, S_IRUSR, 0x72),
            letter_for(m, S_IWUSR, 0x77),
            letter_for(m, S_IXUSR, 0x78),
            letter_for(m, S_IRGRP, 0x72),
            letter_for(m, S_IWGRP, 0x77),
            letter_for(m, S_IXGRP, 0x78),
            letter_for(m, S_IROTH, 0x72),
            letter_for(m, S_IWOTH, 0x77),
            letter_for(m, S_IXOTH, 0x78),
        ];
        assert(r@ =~= mode_text(self.inode_type == 2, self.mode));
        r
    }
}

/// Inode `n`, if it is in use.
pub open spec fn live_inode_s(v: FsView, n: u32) -> Result<InodeView, FsError> {
    match read_inode_s(v, n) {
        Err(e) => Err(e),
        Ok(i) => if i.inode_type == 0 {
            Err(FsError::NotFound)
        } else {
            Ok(i)
        },
    }
}

/// The metadata of inode `n`.
pub open spec fn stat_s(v: FsView, n: u32) -> Result<FileStat, FsError> {
    match live_inode_s(v, n) {
        Err(e) => Err(e),
        Ok(i) => Ok(
            FileStat {
                inode: n,
                inode_type: i.inode_type,
                mode: i.mode,
                uid: i.uid,
                gid: i.gid,
                size: i.size,
                mtime: i.mtime,
            },
        ),
    }
}

/// Changing the permission bits of inode `n`; only the lower nine are kept.
pub open spec fn chmod_s(v: FsView, n: u32, mode: u16, now: u32) -> (Result<(), FsError>, FsView) {
    match live_inode_s(v, n) {
        Err(e) => (Err(e), v),
        Ok(i) => write_inode_s(v, n, InodeView { mode: mode & 0o777, mtime: now, ..i }),
    }
}

/// Changing the owner and the group of inode `n`.
pub open spec fn chown_s(v: FsView, n: u32, uid: u16, gid: u16, now: u32) -> (
    Result<(), FsError>,
    FsView,
) {
    match live_inode_s(v, n) {
        Err(e) => (Err(e), v),
        Ok(i) => write_inode_s(v, n, InodeView { uid, gid, mtime: now, ..i }),
    }
}

/// Setting owner, group and permission bits of inode `n`.
pub open spec fn set_owner_mode_s(v: FsView, n: u32, uid: u16, gid: u16, mode: u16) -> (
    Result<(), FsError>,
    FsView,
) {
    match live_inode_s(v, n) {
        Err(e) => (Err(e), v),
        Ok(i) => write_inode_s(v, n, InodeView { uid, gid, mode: mode & 0o777, ..i }),
    }
}

/// Whether a user may do what `want` asks with inode `n`.
pub open spec fn check_permission_s(v: FsView, n: u32, uid: u16, gid: u16, want: u16) -> Result<
    (),
    FsError,
> {
    match live_inode_s(v, n) {
        Err(e) => Err(e),
        Ok(i) => if permitted(i, uid, gid, want) {
            Ok(())
        } else {
            Err(FsError::PermissionDenied)
        },
    }
}

impl NextFS {
    /// Reads an inode that is in use.
    fn live_inode<D: BlockDevice>(&self, devs: &BlockRegistry<D>, inode_num: u32) -> (r: Result<
        Inode,
        FsError,
    >)
        requires
            fs_ok(*self, devs@),
        ensures
            match r {
                Ok(i) => inode_shaped(i@) && live_inode_s(fs_view(*self, devs@), inode_num) == Ok::<
                    InodeView,
                    FsError,
                >(i@),
                Err(e) => got(
                    devs@[self.dev_idx as int].reliable(),
                    Err::<InodeView, FsError>(e),
                    live_inode_s(fs_view(*self, devs@), inode_num),
                ),
            },
    {
        let inode = match self.read_inode(devs, inode_num) {
            Ok(i) => i,
            Err(e) => return Err(e),
        };
        if inode.is_free() {
            return Err(FsError::NotFound);
        }
        Ok(inode)
    }

    /// Returns a metadata snapshot for an inode.
    pub fn stat<D: BlockDevice>(&self, devs: &BlockRegistry<D>, inode_num: u32) -> (r: Result<
        FileStat,
        FsError,
    >)
        requires
            fs_ok(*self, devs@),
        ensures
            got(
                devs@[self.dev_idx as int].reliable(),
                r,
                stat_s(fs_view(*self, devs@), inode_num),
            ),
    {
        match self.live_inode(devs, inode_num) {
            Err(e) => Err(e),
            Ok(i) => Ok(
                FileStat {
                    inode: inode_num,
                    inode_type: i.inode_type,
                    mode: i.mode,
                    uid: i.uid,
                    gid: i.gid,
                    size: i.size,
                    mtime: i.mtime,
                },
            ),
        }
    }

    /// Changes the permission bits of an inode.
    pub fn chmod<D: BlockDevice>(
        &mut self,
        devs: &mut BlockRegistry<D>,
        inode_num: u32,
        mode: u16,
        now: u32,
    ) -> (r: Result<(), FsError>)
        requires
            fs_ok(*old(self), old(devs)@),
        ensures
            fs_frame(*old(self), old(devs)@, *final(self), final(devs)@),
            did(
                old(devs)@[old(self).dev_idx as int].reliable(),
                r,
                fs_view(*final(self), final(devs)@),
                chmod_s(fs_view(*old(self), old(devs)@), inode_num, mode, now),
            ),
    {
        let mut inode = match self.live_inode(devs, inode_num) {
            Ok(i) => i,
            Err(e) => return Err(e),
        };
        inode.mode = mode & 0o777;
        inode.mtime = now;
        self.write_inode(devs, inode_num, &inode)
    }

    /// Changes the owner and the group of an inode.
    pub fn chown<D: BlockDevice>(
        &mut self,
        devs: &mut BlockRegistry<D>,
        inode_num: u32,
        uid: u16,
        gid: u16,
        now: u32,
    ) -> (r: Result<(), FsError>)
        requires
            fs_ok(*old(self), old(devs)@),
        ensures
            fs_frame(*old(self), old(devs)@, *final(self), final(devs)@),
            did(
                old(devs)@[old(self).dev_idx as int].reliable(),
                r,
                fs_view(*final(self), final(devs)@),
                chown_s(fs_view(*old(self), old(devs)@), inode_num, uid, gid, now),
            ),
    {
        let mut inode = match self.live_inode(devs, inode_num) {
            Ok(i) => i,
            Err(e) => return Err(e),
        };
        inode.uid = uid;
        inode.gid = gid;
        inode.mtime = now;
        self.write_inode(devs, inode_num, &inode)
    }

    /// Sets owner, group and permission bits of a freshly created inode.
    pub fn set_owner_mode<D: BlockDevice>(
        &mut self,
        devs: &mut BlockRegistry<D>,
        inode_num: u32,
        uid: u16,
        gid: u16,
        mode: u16,
    ) -> (r: Result<(), FsError>)
        requires
            fs_ok(*old(self), old(devs)@),
        ensures
            fs_frame(*old(self), old(devs)@, *final(self), final(devs)@),
            did(
                old(devs)@[old(self).dev_idx as int].reliable(),
                r,
                fs_view(*final(self), final(devs)@),
                set_owner_mode_s(fs_view(*old(self), old(devs)@), inode_num, uid, gid, mode),
            ),
    {
        let mut inode = match self.live_inode(devs, inode_num) {
            Ok(i) => i,
            Err(e) => return Err(e),
        };
        inode.uid = uid;
        inode.gid = gid;
        inode.mode = mode & 0o777;
        self.write_inode(devs, inode_num, &inode)
    }

    /// Verifies that the user may perform `want` on the inode.
    pub fn check_permission<D: BlockDevice>(
        &self,
        devs: &BlockRegistry<D>,
        inode_num: u32,
        uid: u16,
        gid: u16,
        want: u16,
    ) -> (r: Result<(), FsError>)
        requires
            fs_ok(*self, devs@),
        ensures
            got(
                devs@[self.dev_idx as int].reliable(),
                r,
                check_permission_s(fs_view(*self, devs@), inode_num, uid, gid, want),
            ),
    {
        let inode = match self.live_inode(devs, inode_num) {
            Ok(i) => i,
            Err(e) => return Err(e),
        };
        if inode.permits(uid, gid, want) {
            Ok(())
        } else {
            Err(FsError::PermissionDenied)
        }
    }
}

/// The quoted form in which Rust's debug formatting shows a string.
pub uninterp spec fn debug_quoted(s: Seq<char>) -> Seq<char>;

/// Calls `format!` with `{:?}` on a string: the text in quotes, with special
/// characters escaped. The result is a function of the text alone.
#[verifier::external_body]
fn quote_text(s: &str) -> (r: String)
    ensures
        r@ == debug_quoted(s@),
{
    format!("{:?}", s)
}

/// The words for a block error.
pub open spec fn block_error_text(e: BlockError) -> Seq<char> {
    match e {
        BlockError::OutOfRange => "OutOfRange"@,
        BlockError::BadBuffer => "BadBuffer"@,
        BlockError::DeviceError(s) => "DeviceError("@ + debug_quoted(s@) + ")"@,
        BlockError::Unsupported => "Unsupported"@,
    }
}

/// The words for a file system error.
pub open spec fn error_text(e: FsError) -> Seq<char> {
    match e {
        FsError::DeviceNotFound => "device not found"@,
        FsError::DeviceTooSmall => "device too small"@,
        FsError::UnsupportedBlockSize => "unsupported block size"@,
        FsError::InvalidMagic => "invalid magic (not a NextFS)"@,
        FsError::InvalidInode => "invalid inode number"@,
        FsError::NoSpace => "no space left"@,
        FsError::NotFound => "not found"@,
        FsError::NotDirectory => "not a directory"@,
        FsError::NotFile => "not a file"@,
        FsError::AlreadyExists => "already exists"@,
        FsError::NameTooLong => "name too long"@,
        FsError::NotMounted => "no filesystem mounted"@,
        FsError::InvalidOperation => "invalid operation"@,
        FsError::DirectoryNotEmpty => "directory not empty"@,
        FsError::PermissionDenied => "permission denied"@,
        FsError::BlockError(b) => "block error: "@ + block_error_text(b),
    }
}

impl BlockError {
    /// The words for the error.
    pub fn message(&self) -> (r: String)
        ensures
            r@ == block_error_text(*self),
    {
        match self {
            BlockError::OutOfRange => "OutOfRange".to_owned(),
            BlockError::BadBuffer => "BadBuffer".to_owned(),
            BlockError::DeviceError(s) => {
                let q = quote_text(s);
                "DeviceError(".to_owned().concat(q.as_str()).concat(")")
            },
            BlockError::Unsupported => "Unsupported".to_owned(),
        }
    }
}

impl FsError {
    /// The words for the error.
    pub fn message(&self) -> (r: String)
        ensures
            r@ == error_text(*self),
    {
        match self {
            FsError::DeviceNotFound => "device not found".to_owned(),
            FsError::DeviceTooSmall => "device too small".to_owned(),
            FsError::UnsupportedBlockSize => "unsupported block size".to_owned(),
            FsError::InvalidMagic => "invalid magic (not a NextFS)".to_owned(),
            FsError::InvalidInode => "invalid inode number".to_owned(),
            FsError::NoSpace => "no space left".to_owned(),
            FsError::NotFound => "not found".to_owned(),
            FsError::NotDirectory => "not a directory".to_owned(),
            FsError::NotFile => "not a file".to_owned(),
            FsError::AlreadyExists => "already exists".to_owned(),
            FsError::NameTooLong => "name too long".to_owned(),
            FsError::NotMounted => "no filesystem mounted".to_owned(),
            FsError::InvalidOperation => "invalid operation".to_owned(),
            FsError::DirectoryNotEmpty => "directory not empty".to_owned(),
            FsError::PermissionDenied => "permission denied".to_owned(),
            FsError::BlockError(b) => {
                let m = b.message();
                "block error: ".to_owned().concat(m.as_str())
            },
        }
    }
}

/// The name of a file system error.
pub open spec fn debug_text(e: FsError) -> Seq<char> {
    match e {
        FsError::DeviceNotFound => "DeviceNotFound"@,
        FsError::DeviceTooSmall => "DeviceTooSmall"@,
        FsError::UnsupportedBlockSize => "UnsupportedBlockSize"@,
        FsError::InvalidMagic => "InvalidMagic"@,
        FsError::InvalidInode => "InvalidInode"@,
        FsError::NoSpace => "NoSpace"@,
        FsError::NotFound => "NotFound"@,
        FsError::NotDirectory => "NotDirectory"@,
        FsError::NotFile => "NotFile"@,
        FsError::AlreadyExists => "AlreadyExists"@,
        FsError::NameTooLong => "NameTooLong"@,
        FsError::NotMounted => "NotMounted"@,
        FsError::InvalidOperation => "InvalidOperation"@,
        FsError::DirectoryNotEmpty => "DirectoryNotEmpty"@,
        FsError::PermissionDenied => "PermissionDenied"@,
        FsError::BlockError(b) => "BlockError("@ + block_error_text(b) + ")"@,
    }
}

impl FsError {
    /// The name of the error.
    pub fn debug(&self) -> (r: String)
        ensures
            r@ == debug_text(*self),
    {
        match self {
            FsError::DeviceNotFound => "DeviceNotFound".to_owned(),
            FsError::DeviceTooSmall => "DeviceTooSmall".to_owned(),
            FsError::UnsupportedBlockSize => "UnsupportedBlockSize".to_owned(),
            FsError::InvalidMagic => "InvalidMagic".to_owned(),
            FsError::InvalidInode => "InvalidInode".to_owned(),
            FsError::NoSpace => "NoSpace".to_owned(),
            FsError::NotFound => "NotFound".to_owned(),
            FsError::NotDirectory => "NotDirectory".to_owned(),
            FsError::NotFile => "NotFile".to_owned(),
            FsError::AlreadyExists => "AlreadyExists".to_owned(),
            FsError::NameTooLong => "NameTooLong".to_owned(),
            FsError::NotMounted => "NotMounted".to_owned(),
            FsError::InvalidOperation => "InvalidOperation".to_owned(),
            FsError::DirectoryNotEmpty => "DirectoryNotEmpty".to_owned(),
            FsError::PermissionDenied => "PermissionDenied".to_owned(),
            FsError::BlockError(b) => {
                let m = b.message();
                "BlockError(".to_owned().concat(m.as_str()).concat(")")
            },
        }
    }
}

} // verus!
