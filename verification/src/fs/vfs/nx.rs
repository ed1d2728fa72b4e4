//! File operations by path for the kernel's own use: no credentials are checked,
//! and every change is flushed to the disk at once.

use super::{frame, walk_path, walk_s, FileSystem, FilesView};
use crate::driver::block::{
    device_ok, only_device_changed, overwrite, write_error, BlockDevice, BlockError, BlockRegistry,
};
use crate::fs::directory::{
    create_dir_blind_s, create_dir_s, create_file_blind_s, create_file_s, dir_list_s, dir_lookup_s,
    listing, rmdir_s, unlink_s,
};
use crate::fs::metadata::{chmod_s, chown_s, stat_s, FileStat};
use crate::fs::nextfs::{
    device_failed, got, read_file_s, truncate_s, write_file_s, FsError, FsView, NextFS,
};
use crate::fs::ondisk::ROOT_INODE;
use crate::fs::path::{
    components, name_of, parent_of, split_path, trim_slashes, without_slashes,
};
use crate::fs::volume::{can_format, formatted, sync_s};
use vstd::prelude::*;

verus! {

/// A change, flushed to the disk if it succeeded.
pub open spec fn synced(r: (Result<(), FsError>, FsView)) -> (Result<(), FsError>, FsView) {
    match r.0 {
        Ok(_) => sync_s(r.1),
        Err(e) => (Err(e), r.1),
    }
}

/// The inode that a path leads to from the root.
pub open spec fn inode_of_path(v: FsView, path: Seq<char>) -> Result<u32, FsError> {
    walk_s(v, ROOT_INODE, components(path))
}

/// The directory that holds what a path names.
pub open spec fn parent_inode(v: FsView, path: Seq<char>) -> Result<u32, FsError> {
    inode_of_path(v, parent_of(without_slashes(path)))
}

/// The name, in its directory, of what a path names.
pub open spec fn entry_name(path: Seq<char>) -> Seq<char> {
    name_of(without_slashes(path))
}

/// Writing a file: one that exists is overwritten, any other is created.
pub open spec fn write_path_s(v: FsView, path: Seq<char>, data: Seq<u8>, now: u32) -> (
    Result<(), FsError>,
    FsView,
) {
    match parent_inode(v, path) {
        Err(e) => (Err(e), v),
        Ok(p) => match dir_lookup_s(v, p, entry_name(path)) {
            Ok(n) => synced(write_file_s(v, n, data, now)),
            Err(FsError::NotFound) => {
                let (r, v1) = create_file_s(v, p, entry_name(path), now);
                match r {
                    Ok(n) => synced(write_file_s(v1, n, data, now)),
                    Err(e) => (Err(e), v1),
                }
            },
            Err(e) => (Err(e), v),
        },
    }
}

/// As [`write_path_s`], where the file is created whether or not its name is taken.
pub open spec fn write_path_blind_s(v: FsView, path: Seq<char>, data: Seq<u8>, now: u32) -> (
    Result<(), FsError>,
    FsView,
) {
    match parent_inode(v, path) {
        Err(e) => (Err(e), v),
        Ok(p) => match create_file_blind_s(v, p, entry_name(path), now) {
            (Ok(n), v1) => synced(write_file_s(v1, n, data, now)),
            (Err(e), v1) => (Err(e), v1),
        },
    }
}

/// Creating a directory.
pub open spec fn make_dir_s(v: FsView, path: Seq<char>, now: u32) -> (Result<(), FsError>, FsView) {
    match parent_inode(v, path) {
        Err(e) => (Err(e), v),
        Ok(p) => {
            let (r, v1) = create_dir_s(v, p, entry_name(path), now);
            match r {
                Ok(_) => sync_s(v1),
                Err(e) => (Err(e), v1),
            }
        },
    }
}

/// As [`make_dir_s`], whether or not the name is taken.
pub open spec fn make_dir_blind_s(v: FsView, path: Seq<char>, now: u32) -> (
    Result<(), FsError>,
    FsView,
) {
    match parent_inode(v, path) {
        Err(e) => (Err(e), v),
        Ok(p) => match create_dir_blind_s(v, p, entry_name(path), now) {
            (Ok(_), v1) => sync_s(v1),
            (Err(e), v1) => (Err(e), v1),
        },
    }
}

/// Deleting a file.
pub open spec fn unlink_s_path(v: FsView, path: Seq<char>, now: u32) -> (
    Result<(), FsError>,
    FsView,
) {
    match parent_inode(v, path) {
        Err(e) => (Err(e), v),
        Ok(p) => synced(unlink_s(v, p, entry_name(path), now)),
    }
}

/// Deleting a directory.
pub open spec fn rmdir_s_path(v: FsView, path: Seq<char>) -> (Result<(), FsError>, FsView) {
    match parent_inode(v, path) {
        Err(e) => (Err(e), v),
        Ok(p) => synced(rmdir_s(v, p, entry_name(path))),
    }
}

/// Changing the length of a file.
pub open spec fn truncate_s_path(v: FsView, path: Seq<char>, size: u64) -> (
    Result<(), FsError>,
    FsView,
) {
    match inode_of_path(v, path) {
        Err(e) => (Err(e), v),
        Ok(n) => synced(truncate_s(v, n, size)),
    }
}

/// Changing permission bits.
pub open spec fn chmod_s_path(v: FsView, path: Seq<char>, mode: u16, now: u32) -> (
    Result<(), FsError>,
    FsView,
) {
    match inode_of_path(v, path) {
        Err(e) => (Err(e), v),
        Ok(n) => synced(chmod_s(v, n, mode, now)),
    }
}

/// Changing owner and group.
pub open spec fn chown_s_path(v: FsView, path: Seq<char>, uid: u16, gid: u16, now: u32) -> (
    Result<(), FsError>,
    FsView,
) {
    match inode_of_path(v, path) {
        Err(e) => (Err(e), v),
        Ok(n) => synced(chown_s(v, n, uid, gid, now)),
    }
}

/// The entries of a directory.
pub open spec fn list_s_path(fs: Option<FsView>, path: Seq<char>) -> Result<
    Seq<(Seq<char>, u32)>,
    FsError,
> {
    match fs {
        None => Err(FsError::NotMounted),
        Some(v) => match inode_of_path(v, path) {
            Err(e) => Err(e),
            Ok(n) => dir_list_s(v, n),
        },
    }
}

/// The contents of a file.
pub open spec fn read_s_path(fs: Option<FsView>, path: Seq<char>) -> Result<Seq<u8>, FsError> {
    match fs {
        None => Err(FsError::NotMounted),
        Some(v) => match inode_of_path(v, path) {
            Err(e) => Err(e),
            Ok(n) => read_file_s(v, n),
        },
    }
}

/// The metadata of a path.
pub open spec fn stat_s_path(fs: Option<FsView>, path: Seq<char>) -> Result<FileStat, FsError> {
    match fs {
        None => Err(FsError::NotMounted),
        Some(v) => match inode_of_path(v, path) {
            Err(e) => Err(e),
            Ok(n) => stat_s(v, n),
        },
    }
}

/// A change of the file system, made where one is mounted.
pub open spec fn on_mounted(
    f: FilesView,
    change: spec_fn(FsView) -> (Result<(), FsError>, FsView),
) -> (Result<(), FsError>, FilesView) {
    match f.fs {
        None => (Err(FsError::NotMounted), f),
        Some(v) => {
            let (r, v1) = change(v);
            (r, FilesView { fs: Some(v1), ..f })
        },
    }
}

/// A change ended as `want` says, unless the device failed; then at most the file
/// system is not as it was.
pub open spec fn changed(
    reliable: bool,
    r: Result<(), FsError>,
    post: FilesView,
    f0: FilesView,
    want: (Result<(), FsError>, FilesView),
) -> bool {
    ||| r == want.0 && post == want.1
    ||| {
        &&& !reliable
        &&& r matches Err(e) && device_failed(e)
        &&& post == (FilesView { fs: post.fs, ..f0 })
    }
}

/// As [`changed`], for what makes a file or directory: where its name is taken, and the
/// device fails while that is looked up, it ends as `blind` says.
pub open spec fn changed_or_blind(
    reliable: bool,
    r: Result<(), FsError>,
    post: FilesView,
    f0: FilesView,
    want: (Result<(), FsError>, FilesView),
    blind: (Result<(), FsError>, FilesView),
) -> bool {
    ||| changed(reliable, r, post, f0, want)
    ||| !reliable && want.0 == Err::<(), FsError>(FsError::AlreadyExists) && r == blind.0 && post
        == blind.1
}

/// As [`changed`], for a deletion: where the path names something else than a file, a
/// device that fails may keep its name from being put back.
pub open spec fn changed_or_lost(
    reliable: bool,
    r: Result<(), FsError>,
    post: FilesView,
    f0: FilesView,
    want: (Result<(), FsError>, FilesView),
) -> bool {
    ||| changed(reliable, r, post, f0, want)
    ||| !reliable && r == want.0 && r == Err::<(), FsError>(FsError::NotFile) && post == (
    FilesView { fs: post.fs, ..f0 })
}

/// Lists a directory.
pub fn list<D: BlockDevice>(files: &FileSystem<D>, path: &str) -> (r: Result<
    Vec<(String, u32)>,
    FsError,
>)
    requires
        files.wf(),
    ensures
        match r {
            Ok(x) => list_s_path(files@.fs, path@) == Ok::<Seq<(Seq<char>, u32)>, FsError>(
                listing(x@),
            ),
            Err(e) => got(
                files.reliable(),
                Err::<Seq<(Seq<char>, u32)>, FsError>(e),
                list_s_path(files@.fs, path@),
            ),
        },
{
    match &files.mounted {
        None => Err(FsError::NotMounted),
        Some(fs) => match walk_path(fs, &files.devs, path) {
            Ok(n) => fs.dir_list(&files.devs, n),
            Err(e) => Err(e),
        },
    }
}

/// Reads a file.
pub fn read_file<D: BlockDevice>(files: &FileSystem<D>, path: &str) -> (r: Result<
    Vec<u8>,
    FsError,
>)
    requires
        files.wf(),
    ensures
        match r {
            Ok(x) => read_s_path(files@.fs, path@) == Ok::<Seq<u8>, FsError>(x@),
            Err(e) => got(
                files.reliable(),
                Err::<Seq<u8>, FsError>(e),
                read_s_path(files@.fs, path@),
            ),
        },
{
    match &files.mounted {
        None => Err(FsError::NotMounted),
        Some(fs) => match walk_path(fs, &files.devs, path) {
            Ok(n) => fs.read_file(&files.devs, n),
            Err(e) => Err(e),
        },
    }
}

/// Returns metadata for a path.
pub fn stat<D: BlockDevice>(files: &FileSystem<D>, path: &str) -> (r: Result<FileStat, FsError>)
    requires
        files.wf(),
    ensures
        got(files.reliable(), r, stat_s_path(files@.fs, path@)),
{
    match &files.mounted {
        None => Err(FsError::NotMounted),
        Some(fs) => match walk_path(fs, &files.devs, path) {
            Ok(n) => fs.stat(&files.devs, n),
            Err(e) => Err(e),
        },
    }
}

/// Finds the inode that a path leads to.
fn find<D: BlockDevice>(files: &FileSystem<D>, path: &str) -> (r: Result<
    u32,
    FsError,
>)
    requires
        files.wf(),
    ensures
        files@.fs is None ==> r == Err::<u32, FsError>(FsError::NotMounted),
        files@.fs matches Some(v) ==> got(files.reliable(), r, inode_of_path(v, path@)),
{
    match &files.mounted {
        None => Err(FsError::NotMounted),
        Some(fs) => walk_path(fs, &files.devs, path),
    }
}

/// Writes a file: one that exists is overwritten, any other is created.
pub fn write_file<D: BlockDevice>(
    files: &mut FileSystem<D>,
    path: &str,
    data: &[u8],
    now: u32,
) -> (r: Result<(), FsError>)
    requires
        old(files).wf(),
    ensures
        frame(*old(files), *final(files)),
        changed_or_blind(
            old(files).reliable(),
            r,
            final(files)@,
            old(files)@,
            on_mounted(old(files)@, |v: FsView| write_path_s(v, path@, data@, now)),
            on_mounted(old(files)@, |v: FsView| write_path_blind_s(v, path@, data@, now)),
        ),
{
    let (parent_path, name) = split_path(trim_slashes(path));
    let parent: u32 = match find(files, parent_path) {
        Ok(n) => n,
        Err(e) => return Err(e),
    };
    match &mut files.mounted {
        None => Err(FsError::NotMounted),
        Some(fs) => {
            let n: u32 = match fs.dir_lookup(&files.devs, parent, name) {
                Ok(n) => n,
                Err(FsError::NotFound) => match fs.create_file(
                    &mut files.devs,
                    parent,
                    name,
                    now,
                ) {
                    Ok(n) => n,
                    Err(e) => return Err(e),
                },
                Err(e) => return Err(e),
            };
            match fs.write_file(&mut files.devs, n, data, now) {
                Ok(_) => fs.sync(&mut files.devs),
                Err(e) => Err(e),
            }
        },
    }
}

/// Creates a directory.
pub fn mkdir<D: BlockDevice>(files: &mut FileSystem<D>, path: &str, now: u32) -> (r: Result<
    (),
    FsError,
>)
    requires
        old(files).wf(),
    ensures
        frame(*old(files), *final(files)),
        changed_or_blind(
            old(files).reliable(),
            r,
            final(files)@,
            old(files)@,
            on_mounted(old(files)@, |v: FsView| make_dir_s(v, path@, now)),
            on_mounted(old(files)@, |v: FsView| make_dir_blind_s(v, path@, now)),
        ),
{
    let (parent_path, name) = split_path(trim_slashes(path));
    let parent: u32 = match find(files, parent_path) {
        Ok(n) => n,
        Err(e) => return Err(e),
    };
    match &mut files.mounted {
        None => Err(FsError::NotMounted),
        Some(fs) => match fs.create_dir(&mut files.devs, parent, name, now) {
            Ok(_) => fs.sync(&mut files.devs),
            Err(e) => Err(e),
        },
    }
}

/// Deletes a file.
pub fn unlink<D: BlockDevice>(files: &mut FileSystem<D>, path: &str, now: u32) -> (r: Result<
    (),
    FsError,
>)
    requires
        old(files).wf(),
    ensures
        frame(*old(files), *final(files)),
        changed_or_lost(
            old(files).reliable(),
            r,
            final(files)@,
            old(files)@,
            on_mounted(old(files)@, |v: FsView| unlink_s_path(v, path@, now)),
        ),
{
    let (parent_path, name) = split_path(trim_slashes(path));
    let parent: u32 = match find(files, parent_path) {
        Ok(n) => n,
        Err(e) => return Err(e),
    };
    match &mut files.mounted {
        None => Err(FsError::NotMounted),
        Some(fs) => match fs.unlink(&mut files.devs, parent, name, now) {
            Ok(_) => fs.sync(&mut files.devs),
            Err(e) => Err(e),
        },
    }
}

/// Deletes a directory.
pub fn rmdir<D: BlockDevice>(files: &mut FileSystem<D>, path: &str) -> (r: Result<(), FsError>)
    requires
        old(files).wf(),
    ensures
        frame(*old(files), *final(files)),
        changed(
            old(files).reliable(),
            r,
            final(files)@,
            old(files)@,
            on_mounted(old(files)@, |v: FsView| rmdir_s_path(v, path@)),
        ),
{
    let (parent_path, name) = split_path(trim_slashes(path));
    let parent: u32 = match find(files, parent_path) {
        Ok(n) => n,
        Err(e) => return Err(e),
    };
    match &mut files.mounted {
        None => Err(FsError::NotMounted),
        Some(fs) => match fs.rmdir(&mut files.devs, parent, name) {
            Ok(_) => fs.sync(&mut files.devs),
            Err(e) => Err(e),
        },
    }
}

/// Changes the length of a file.
pub fn truncate<D: BlockDevice>(files: &mut FileSystem<D>, path: &str, size: u64) -> (r: Result<
    (),
    FsError,
>)
    requires
        old(files).wf(),
    ensures
        frame(*old(files), *final(files)),
        changed(
            old(files).reliable(),
            r,
            final(files)@,
            old(files)@,
            on_mounted(old(files)@, |v: FsView| truncate_s_path(v, path@, size)),
        ),
{
    let n: u32 = match find(files, path) {
        Ok(n) => n,
        Err(e) => return Err(e),
    };
    match &mut files.mounted {
        None => Err(FsError::NotMounted),
        Some(fs) => match fs.truncate(&mut files.devs, n, size) {
            Ok(_) => fs.sync(&mut files.devs),
            Err(e) => Err(e),
        },
    }
}

/// Changes permission bits.
pub fn chmod<D: BlockDevice>(files: &mut FileSystem<D>, path: &str, mode: u16, now: u32) -> (r:
    Result<(), FsError>)
    requires
        old(files).wf(),
    ensures
        frame(*old(files), *final(files)),
        changed(
            old(files).reliable(),
            r,
            final(files)@,
            old(files)@,
            on_mounted(old(files)@, |v: FsView| chmod_s_path(v, path@, mode, now)),
        ),
{
    let n: u32 = match find(files, path) {
        Ok(n) => n,
        Err(e) => return Err(e),
    };
    match &mut files.mounted {
        None => Err(FsError::NotMounted),
        Some(fs) => match fs.chmod(&mut files.devs, n, mode, now) {
            Ok(_) => fs.sync(&mut files.devs),
            Err(e) => Err(e),
        },
    }
}

/// Changes owner and group.
pub fn chown<D: BlockDevice>(
    files: &mut FileSystem<D>,
    path: &str,
    uid: u16,
    gid: u16,
    now: u32,
) -> (r: Result<(), FsError>)
    requires
        old(files).wf(),
    ensures
        frame(*old(files), *final(files)),
        changed(
            old(files).reliable(),
            r,
            final(files)@,
            old(files)@,
            on_mounted(old(files)@, |v: FsView| chown_s_path(v, path@, uid, gid, now)),
        ),
{
    let n: u32 = match find(files, path) {
        Ok(n) => n,
        Err(e) => return Err(e),
    };
    match &mut files.mounted {
        None => Err(FsError::NotMounted),
        Some(fs) => match fs.chown(&mut files.devs, n, uid, gid, now) {
            Ok(_) => fs.sync(&mut files.devs),
            Err(e) => Err(e),
        },
    }
}

/// The registered devices.
pub fn registry<D: BlockDevice>(files: &FileSystem<D>) -> (r: &BlockRegistry<D>)
    ensures
        r@ == files.devices(),
{
    &files.devs
}

/// The state after the devices changed beneath the mounted file system.
pub open spec fn on_devices<D: BlockDevice>(f: FilesView, on: Option<usize>, devs: Seq<D>) -> FilesView {
    FilesView {
        fs: match (f.fs, on) {
            (Some(v), Some(i)) => Some(FsView { disk: devs[i as int].blocks(), ..v }),
            _ => f.fs,
        },
        ..f
    }
}

/// Writes whole blocks to a device.
pub fn write_blocks<D: BlockDevice>(files: &mut FileSystem<D>, idx: usize, lba: u64, buf: &[u8]) -> (r:
    Result<(), BlockError>)
    requires
        old(files).wf(),
        idx < old(files).devices().len(),
        device_ok(&old(files).devices()[idx as int]),
    ensures
        final(files).wf(),
        final(files).mounted_on() == old(files).mounted_on(),
        final(files)@ == on_devices(
            old(files)@,
            old(files).mounted_on(),
            final(files).devices(),
        ),
        only_device_changed(old(files).devices(), final(files).devices(), idx as int),
        device_ok(&final(files).devices()[idx as int]),
        ({
            let d = old(files).devices()[idx as int];
            let after = final(files).devices()[idx as int].blocks();
            match (r, write_error(d, lba, buf@.len())) {
                (Ok(_), None) => after == overwrite(
                    d.blocks(),
                    d.unit(),
                    lba as int,
                    buf@.len() as int / d.unit() as int,
                    buf@,
                ),
                (Ok(_), Some(_)) => false,
                (Err(e), None) => e is DeviceError && !d.reliable(),
                (Err(e), Some(why)) => e == why && after == d.blocks(),
            }
        }),
{
    let r = crate::driver::block::write(&mut files.devs, idx, lba, buf);
    assert(files@.fs == on_devices(old(files)@, old(files).mounted_on(), files.devices()).fs);
    r
}

/// Formats a device.
pub fn format<D: BlockDevice>(files: &mut FileSystem<D>, idx: usize) -> (r: Result<(), FsError>)
    requires
        old(files).wf(),
        idx < old(files).devices().len(),
        device_ok(&old(files).devices()[idx as int]),
    ensures
        final(files).wf(),
        final(files).mounted_on() == old(files).mounted_on(),
        final(files)@ == on_devices(
            old(files)@,
            old(files).mounted_on(),
            final(files).devices(),
        ),
        only_device_changed(old(files).devices(), final(files).devices(), idx as int),
        device_ok(&final(files).devices()[idx as int]),
        ({
            let d = old(files).devices()[idx as int];
            let after = final(files).devices()[idx as int].blocks();
            match format_s(d) {
                Err(why) => r == Err::<(), FsError>(why) && after == d.blocks(),
                Ok(disk) => match r {
                    Ok(_) => after == disk,
                    Err(e) => device_failed(e) && !d.reliable(),
                },
            }
        }),
{
    let r = NextFS::format(&mut files.devs, idx);
    assert(files@.fs == on_devices(old(files)@, old(files).mounted_on(), files.devices()).fs);
    r
}

/// What formatting makes of a device.
pub open spec fn format_s<D: BlockDevice>(d: D) -> Result<Seq<Seq<u8>>, FsError> {
    let total = d.blocks().len() as u32;
    if d.unit() != 512 {
        Err(FsError::UnsupportedBlockSize)
    } else if !can_format(total) {
        Err(FsError::DeviceTooSmall)
    } else {
        Ok(formatted(d.blocks(), total))
    }
}

} // verus!
