//! The check that a disk gets when it is first used: format it, mount it, and see
//! that files, directories and permissions work, down to the descriptors.

use super::nx::format_s;
use super::{
    close, close_s, frame, init_task_fds, lemma_frame, lemma_frame_trans, mount, on_disk, open,
    open_s, read, read_s, vfs_device_failed, FileSystem, FilesView, ReadStep,
};
use crate::bytes::{bytes_eq, patch, zeroed, zeros};
use crate::driver::block::{device_ok, only_device_changed, BlockDevice, BlockRegistry};
use crate::driver::console::{inject_char, pushed, ConsoleInput, ConsoleView};
use crate::elf::file::read_only;
use crate::fs::directory::{create_dir_s, create_file_s, dir_list_s, rmdir_s, unlink_s};
use crate::fs::fds::{standard_table, OpenFlags, VfsError};
use crate::fs::metadata::{check_permission_s, chmod_s, chown_s, set_owner_mode_s};
use crate::fs::nextfs::{
    device_failed, fs_frame, fs_ok, fs_view, read_file_s, truncate_s, write_file_s, FsError, FsView, NextFS,
};
use crate::fs::ondisk::{MAY_READ, MAY_WRITE, ROOT_INODE};
use crate::fs::volume::{mount_s, sync_s};
use vstd::prelude::*;
use vstd::utf8::encode_utf8;

verus! {

/// The steps of the check.
#[derive(Debug, Clone, Copy, PartialEq, Eq, Structural)]
pub enum Step {
    Format,
    Mount,
    ListRoot,
    CreateDir,
    CreateFile,
    WriteFile,
    ReadFile,
    ListDir,
    Truncate,
    ReadTruncated,
    CreateTemp,
    WriteTemp,
    ListWithTemp,
    Unlink,
    ListWithoutTemp,
    CreateSubdir,
    Rmdir,
    CreatePerm,
    SetOwnerMode,
    OwnerAccess,
    OtherReadDenied,
    Chmod,
    OtherRead,
    OtherWriteDenied,
    Chown,
    NewOwnerWrite,
    Sync,
    Remount,
    Open,
    Read,
    Close,
    Stdin,
}

/// Why a step failed: with an error, with a wrong number of entries or bytes, or with
/// something else than was expected.
#[derive(Debug, Clone, Copy, PartialEq, Eq)]
pub enum Why {
    Fs(FsError),
    Vfs(VfsError),
    Count(usize),
    Unexpected,
}

/// A step that failed.
#[derive(Debug, Clone, Copy, PartialEq, Eq)]
pub struct Failure {
    pub step: Step,
    pub why: Why,
}

/// The text of the file that is written.
pub const HELLO: &'static str = "Hello from NextFS!\nThis is a test file.\n";

/// The text of the file that is deleted.
pub const TEMP: &'static str = "temporary data";

/// A user who is not the superuser.
pub const ALICE: u16 = 1000;

/// A step that failed with an error of the file system.
pub open spec fn broke<T>(step: Step, e: FsError) -> Result<T, Failure> {
    Err(Failure { step, why: Why::Fs(e) })
}

/// A step that came out wrong.
pub open spec fn wrong<T>(step: Step, why: Why) -> Result<T, Failure> {
    Err(Failure { step, why })
}

/// The steps that ask who may use a file.
pub open spec fn asks_access(step: Step) -> bool {
    step is OwnerAccess || step is OtherReadDenied || step is OtherRead || step is OtherWriteDenied
        || step is NewOwnerWrite
}

/// A step that failed because the device did. The steps on permissions only tell that
/// something else came back than was expected.
pub open spec fn hardware(f: Failure) -> bool {
    match f.why {
        Why::Fs(e) => device_failed(e),
        Why::Vfs(e) => vfs_device_failed(e),
        Why::Unexpected => asks_access(f.step),
        Why::Count(_) => false,
    }
}

/// A query answered as `want` says, unless the device failed.
pub open spec fn asked<T>(reliable: bool, r: Result<T, Failure>, want: Result<T, Failure>) -> bool {
    ||| r == want
    ||| {
        &&& !reliable
        &&& r matches Err(f) && hardware(f)
    }
}

/// Steps ended as `want` says, unless the device failed. Where one finds its name taken,
/// a device that fails may keep that from being noticed; and where one finds something
/// else than a file to delete, it may leave it without its name.
pub open spec fn tested<T>(
    reliable: bool,
    r: Result<T, Failure>,
    post: FsView,
    want: (Result<T, Failure>, FsView),
) -> bool {
    ||| r == want.0 && post == want.1
    ||| {
        &&& !reliable
        &&& r matches Err(f) && hardware(f)
    }
    ||| !reliable && taken(want.0)
    ||| !reliable && r == want.0 && misnamed(r)
}

/// Steps that ended because a name was taken.
pub open spec fn taken<T>(r: Result<T, Failure>) -> bool {
    r matches Err(f) && f.why == Why::Fs(FsError::AlreadyExists)
}

/// Steps that ended because what was to be deleted is not a file.
pub open spec fn misnamed<T>(r: Result<T, Failure>) -> bool {
    r matches Err(f) && f.why == Why::Fs(FsError::NotFile)
}

/// A directory is expected to have `want` entries.
pub open spec fn counted_s(v: FsView, dir: u32, want: int, step: Step) -> Result<(), Failure> {
    match dir_list_s(v, dir) {
        Err(e) => broke(step, e),
        Ok(l) => if l.len() == want {
            Ok(())
        } else {
            wrong(step, Why::Count(l.len() as usize))
        },
    }
}

/// Checks how many entries a directory has.
fn count_entries<D: BlockDevice>(
    fs: &NextFS,
    devs: &BlockRegistry<D>,
    dir: u32,
    want: usize,
    step: Step,
) -> (r: Result<(), Failure>)
    requires
        fs_ok(*fs, devs@),
    ensures
        asked(
            devs@[fs.dev_idx as int].reliable(),
            r,
            counted_s(fs_view(*fs, devs@), dir, want as int, step),
        ),
{
    match fs.dir_list(devs, dir) {
        Err(e) => Err(Failure { step, why: Why::Fs(e) }),
        Ok(l) => if l.len() == want {
            Ok(())
        } else {
            Err(Failure { step, why: Why::Count(l.len()) })
        },
    }
}

/// A file is written in a new directory and read back. Gives the directory and
/// the file.
#[verifier::opaque]
pub open spec fn files_s(v: FsView, now: u32) -> (Result<(u32, u32), Failure>, FsView) {
    match counted_s(v, ROOT_INODE, 2, Step::ListRoot) {
        Err(f) => (Err(f), v),
        Ok(_) => match create_dir_s(v, ROOT_INODE, "test"@, now) {
            (Err(e), v1) => (broke(Step::CreateDir, e), v1),
            (Ok(dir), v1) => match create_file_s(v1, dir, "hello.txt"@, now) {
                (Err(e), v2) => (broke(Step::CreateFile, e), v2),
                (Ok(file), v2) => {
                    let (r, v3) = filled_s(v2, dir, file, now);
                    match r {
                        Err(f) => (Err(f), v3),
                        Ok(_) => (Ok((dir, file)), v3),
                    }
                },
            },
        },
    }
}

/// The file is filled and read back, and its directory is listed.
#[verifier::opaque]
pub open spec fn filled_s(v: FsView, dir: u32, file: u32, now: u32) -> (Result<(), Failure>, FsView) {
    match write_file_s(v, file, encode_utf8(HELLO@), now) {
        (Err(e), v1) => (broke(Step::WriteFile, e), v1),
        (Ok(_), v1) => match read_file_s(v1, file) {
            Err(e) => (broke(Step::ReadFile, e), v1),
            Ok(data) => if data != encode_utf8(HELLO@) {
                (wrong(Step::ReadFile, Why::Unexpected), v1)
            } else {
                (counted_s(v1, dir, 3, Step::ListDir), v1)
            },
        },
    }
}

/// Fills the file, reads it back and lists its directory.
fn check_contents<D: BlockDevice>(
    fs: &mut NextFS,
    devs: &mut BlockRegistry<D>,
    dir: u32,
    file: u32,
    now: u32,
) -> (r: Result<(), Failure>)
    requires
        fs_ok(*old(fs), old(devs)@),
    ensures
        fs_frame(*old(fs), old(devs)@, *final(fs), final(devs)@),
        tested(
            old(devs)@[old(fs).dev_idx as int].reliable(),
            r,
            fs_view(*final(fs), final(devs)@),
            filled_s(fs_view(*old(fs), old(devs)@), dir, file, now),
        ),
{
    reveal(filled_s);
    if let Err(e) = fs.write_file(devs, file, HELLO.as_bytes(), now) {
        return Err(Failure { step: Step::WriteFile, why: Why::Fs(e) });
    }
    match fs.read_file(devs, file) {
        Err(e) => Err(Failure { step: Step::ReadFile, why: Why::Fs(e) }),
        Ok(data) => if !bytes_eq(data.as_slice(), HELLO.as_bytes()) {
            Err(Failure { step: Step::ReadFile, why: Why::Unexpected })
        } else {
            count_entries(fs, devs, dir, 3, Step::ListDir)
        },
    }
}

/// Checks that a file in a new directory can be written and read back.
fn check_files<D: BlockDevice>(fs: &mut NextFS, devs: &mut BlockRegistry<D>, now: u32) -> (r: Result<
    (u32, u32),
    Failure,
>)
    requires
        fs_ok(*old(fs), old(devs)@),
    ensures
        fs_frame(*old(fs), old(devs)@, *final(fs), final(devs)@),
        tested(
            old(devs)@[old(fs).dev_idx as int].reliable(),
            r,
            fs_view(*final(fs), final(devs)@),
            files_s(fs_view(*old(fs), old(devs)@), now),
        ),
{
    reveal(files_s);
    if let Err(f) = count_entries(fs, devs, ROOT_INODE, 2, Step::ListRoot) {
        return Err(f);
    }
    let dir: u32 = match fs.create_dir(devs, ROOT_INODE, "test", now) {
        Ok(n) => n,
        Err(e) => return Err(Failure { step: Step::CreateDir, why: Why::Fs(e) }),
    };
    let file: u32 = match fs.create_file(devs, dir, "hello.txt", now) {
        Ok(n) => n,
        Err(e) => return Err(Failure { step: Step::CreateFile, why: Why::Fs(e) }),
    };
    match check_contents(fs, devs, dir, file, now) {
        Ok(_) => Ok((dir, file)),
        Err(f) => Err(f),
    }
}

/// The file is cut to ten bytes.
#[verifier::opaque]
pub open spec fn cut_s(v: FsView, file: u32) -> (Result<(), Failure>, FsView) {
    match truncate_s(v, file, 10) {
        (Err(e), v1) => (broke(Step::Truncate, e), v1),
        (Ok(_), v1) => match read_file_s(v1, file) {
            Err(e) => (broke(Step::ReadTruncated, e), v1),
            Ok(data) => if data.len() != 10 {
                (wrong(Step::ReadTruncated, Why::Count(data.len() as usize)), v1)
            } else {
                (Ok(()), v1)
            },
        },
    }
}

/// Checks that a file can be cut.
fn check_truncate<D: BlockDevice>(fs: &mut NextFS, devs: &mut BlockRegistry<D>, file: u32) -> (r:
    Result<(), Failure>)
    requires
        fs_ok(*old(fs), old(devs)@),
    ensures
        fs_frame(*old(fs), old(devs)@, *final(fs), final(devs)@),
        tested(
            old(devs)@[old(fs).dev_idx as int].reliable(),
            r,
            fs_view(*final(fs), final(devs)@),
            cut_s(fs_view(*old(fs), old(devs)@), file),
        ),
{
    reveal(cut_s);
    if let Err(e) = fs.truncate(devs, file, 10) {
        return Err(Failure { step: Step::Truncate, why: Why::Fs(e) });
    }
    match fs.read_file(devs, file) {
        Err(e) => Err(Failure { step: Step::ReadTruncated, why: Why::Fs(e) }),
        Ok(data) => if data.len() != 10 {
            Err(Failure { step: Step::ReadTruncated, why: Why::Count(data.len()) })
        } else {
            Ok(())
        },
    }
}

/// Another file is created and filled, so that the directory has four entries.
#[verifier::opaque]
pub open spec fn temp_made_s(v: FsView, dir: u32, now: u32) -> (Result<(), Failure>, FsView) {
    match create_file_s(v, dir, "temp.txt"@, now) {
        (Err(e), v1) => (broke(Step::CreateTemp, e), v1),
        (Ok(n), v1) => match write_file_s(v1, n, encode_utf8(TEMP@), now) {
            (Err(e), v2) => (broke(Step::WriteTemp, e), v2),
            (Ok(_), v2) => (counted_s(v2, dir, 4, Step::ListWithTemp), v2),
        },
    }
}

/// The other file is deleted, so that the directory has three entries again.
#[verifier::opaque]
pub open spec fn temp_gone_s(v: FsView, dir: u32, now: u32) -> (Result<(), Failure>, FsView) {
    match unlink_s(v, dir, "temp.txt"@, now) {
        (Err(e), v1) => (broke(Step::Unlink, e), v1),
        (Ok(_), v1) => (counted_s(v1, dir, 3, Step::ListWithoutTemp), v1),
    }
}

/// Creates and fills another file.
fn make_temp<D: BlockDevice>(fs: &mut NextFS, devs: &mut BlockRegistry<D>, dir: u32, now: u32) -> (r:
    Result<(), Failure>)
    requires
        fs_ok(*old(fs), old(devs)@),
    ensures
        fs_frame(*old(fs), old(devs)@, *final(fs), final(devs)@),
        tested(
            old(devs)@[old(fs).dev_idx as int].reliable(),
            r,
            fs_view(*final(fs), final(devs)@),
            temp_made_s(fs_view(*old(fs), old(devs)@), dir, now),
        ),
{
    reveal(temp_made_s);
    let n: u32 = match fs.create_file(devs, dir, "temp.txt", now) {
        Ok(n) => n,
        Err(e) => return Err(Failure { step: Step::CreateTemp, why: Why::Fs(e) }),
    };
    if let Err(e) = fs.write_file(devs, n, TEMP.as_bytes(), now) {
        return Err(Failure { step: Step::WriteTemp, why: Why::Fs(e) });
    }
    count_entries(fs, devs, dir, 4, Step::ListWithTemp)
}

/// Deletes that file again.
fn remove_temp<D: BlockDevice>(fs: &mut NextFS, devs: &mut BlockRegistry<D>, dir: u32, now: u32) -> (r:
    Result<(), Failure>)
    requires
        fs_ok(*old(fs), old(devs)@),
    ensures
        fs_frame(*old(fs), old(devs)@, *final(fs), final(devs)@),
        tested(
            old(devs)@[old(fs).dev_idx as int].reliable(),
            r,
            fs_view(*final(fs), final(devs)@),
            temp_gone_s(fs_view(*old(fs), old(devs)@), dir, now),
        ),
{
    reveal(temp_gone_s);
    if let Err(e) = fs.unlink(devs, dir, "temp.txt", now) {
        return Err(Failure { step: Step::Unlink, why: Why::Fs(e) });
    }
    count_entries(fs, devs, dir, 3, Step::ListWithoutTemp)
}

/// A directory is created and removed.
#[verifier::opaque]
pub open spec fn subdir_s(v: FsView, dir: u32, now: u32) -> (Result<(), Failure>, FsView) {
    match create_dir_s(v, dir, "subdir"@, now) {
        (Err(e), v1) => (broke(Step::CreateSubdir, e), v1),
        (Ok(_), v1) => match rmdir_s(v1, dir, "subdir"@) {
            (Err(e), v2) => (broke(Step::Rmdir, e), v2),
            (Ok(_), v2) => (Ok(()), v2),
        },
    }
}

/// Checks that a directory can be created and removed.
fn check_subdir<D: BlockDevice>(fs: &mut NextFS, devs: &mut BlockRegistry<D>, dir: u32, now: u32) -> (r:
    Result<(), Failure>)
    requires
        fs_ok(*old(fs), old(devs)@),
    ensures
        fs_frame(*old(fs), old(devs)@, *final(fs), final(devs)@),
        tested(
            old(devs)@[old(fs).dev_idx as int].reliable(),
            r,
            fs_view(*final(fs), final(devs)@),
            subdir_s(fs_view(*old(fs), old(devs)@), dir, now),
        ),
{
    reveal(subdir_s);
    if let Err(e) = fs.create_dir(devs, dir, "subdir", now) {
        return Err(Failure { step: Step::CreateSubdir, why: Why::Fs(e) });
    }
    match fs.rmdir(devs, dir, "subdir") {
        Ok(_) => Ok(()),
        Err(e) => Err(Failure { step: Step::Rmdir, why: Why::Fs(e) }),
    }
}

/// A user is expected to be allowed an access.
pub open spec fn allowed_s(v: FsView, file: u32, user: u16, want: u16, step: Step) -> Result<
    (),
    Failure,
> {
    if check_permission_s(v, file, user, user, want) is Ok {
        Ok(())
    } else {
        wrong(step, Why::Unexpected)
    }
}

/// A user is expected to be denied an access.
pub open spec fn denied_s(v: FsView, file: u32, user: u16, want: u16, step: Step) -> Result<
    (),
    Failure,
> {
    if check_permission_s(v, file, user, user, want) == Err::<(), FsError>(
        FsError::PermissionDenied,
    ) {
        Ok(())
    } else {
        wrong(step, Why::Unexpected)
    }
}

/// Checks that a user is allowed an access.
fn expect_allowed<D: BlockDevice>(
    fs: &NextFS,
    devs: &BlockRegistry<D>,
    file: u32,
    user: u16,
    want: u16,
    step: Step,
) -> (r: Result<(), Failure>)
    requires
        fs_ok(*fs, devs@),
        asks_access(step),
    ensures
        asked(
            devs@[fs.dev_idx as int].reliable(),
            r,
            allowed_s(fs_view(*fs, devs@), file, user, want, step),
        ),
{
    match fs.check_permission(devs, file, user, user, want) {
        Ok(_) => Ok(()),
        Err(_) => Err(Failure { step, why: Why::Unexpected }),
    }
}

/// Checks that a user is denied an access.
fn expect_denied<D: BlockDevice>(
    fs: &NextFS,
    devs: &BlockRegistry<D>,
    file: u32,
    user: u16,
    want: u16,
    step: Step,
) -> (r: Result<(), Failure>)
    requires
        fs_ok(*fs, devs@),
        asks_access(step),
    ensures
        asked(
            devs@[fs.dev_idx as int].reliable(),
            r,
            denied_s(fs_view(*fs, devs@), file, user, want, step),
        ),
{
    match fs.check_permission(devs, file, user, user, want) {
        Err(FsError::PermissionDenied) => Ok(()),
        _ => Err(Failure { step, why: Why::Unexpected }),
    }
}

/// A private file of the superuser: its owner may read and write it, others may
/// not read it.
#[verifier::opaque]
pub open spec fn private_s(v: FsView, dir: u32, now: u32) -> (Result<u32, Failure>, FsView) {
    match create_file_s(v, dir, "perm.txt"@, now) {
        (Err(e), v1) => (broke(Step::CreatePerm, e), v1),
        (Ok(n), v1) => match set_owner_mode_s(v1, n, 0, 0, 0o600) {
            (Err(e), v2) => (broke(Step::SetOwnerMode, e), v2),
            (Ok(_), v2) => match allowed_s(v2, n, 0, MAY_READ | MAY_WRITE, Step::OwnerAccess) {
                Err(f) => (Err(f), v2),
                Ok(_) => match denied_s(v2, n, ALICE, MAY_READ, Step::OtherReadDenied) {
                    Err(f) => (Err(f), v2),
                    Ok(_) => (Ok(n), v2),
                },
            },
        },
    }
}

/// Once the file may be read by all, another user may read but not write it, and as
/// its owner may write it too.
#[verifier::opaque]
pub open spec fn shared_s(v: FsView, n: u32, now: u32) -> (Result<(), Failure>, FsView) {
    match chmod_s(v, n, 0o644, now) {
        (Err(e), v1) => (broke(Step::Chmod, e), v1),
        (Ok(_), v1) => match allowed_s(v1, n, ALICE, MAY_READ, Step::OtherRead) {
            Err(f) => (Err(f), v1),
            Ok(_) => match denied_s(v1, n, ALICE, MAY_WRITE, Step::OtherWriteDenied) {
                Err(f) => (Err(f), v1),
                Ok(_) => match chown_s(v1, n, ALICE, ALICE, now) {
                    (Err(e), v2) => (broke(Step::Chown, e), v2),
                    (Ok(_), v2) => (
                        allowed_s(v2, n, ALICE, MAY_WRITE, Step::NewOwnerWrite),
                        v2,
                    ),
                },
            },
        },
    }
}

/// Checks who may use a private file. Gives the file.
fn check_private<D: BlockDevice>(fs: &mut NextFS, devs: &mut BlockRegistry<D>, dir: u32, now: u32) -> (r:
    Result<u32, Failure>)
    requires
        fs_ok(*old(fs), old(devs)@),
    ensures
        fs_frame(*old(fs), old(devs)@, *final(fs), final(devs)@),
        tested(
            old(devs)@[old(fs).dev_idx as int].reliable(),
            r,
            fs_view(*final(fs), final(devs)@),
            private_s(fs_view(*old(fs), old(devs)@), dir, now),
        ),
{
    reveal(private_s);
    let n: u32 = match fs.create_file(devs, dir, "perm.txt", now) {
        Ok(n) => n,
        Err(e) => return Err(Failure { step: Step::CreatePerm, why: Why::Fs(e) }),
    };
    if let Err(e) = fs.set_owner_mode(devs, n, 0, 0, 0o600) {
        return Err(Failure { step: Step::SetOwnerMode, why: Why::Fs(e) });
    }
    if let Err(f) = expect_allowed(fs, devs, n, 0, MAY_READ | MAY_WRITE, Step::OwnerAccess) {
        return Err(f);
    }
    match expect_denied(fs, devs, n, ALICE, MAY_READ, Step::OtherReadDenied) {
        Ok(_) => Ok(n),
        Err(f) => Err(f),
    }
}

/// Checks who may use the file once it is shared and then given away.
fn check_shared<D: BlockDevice>(fs: &mut NextFS, devs: &mut BlockRegistry<D>, n: u32, now: u32) -> (r:
    Result<(), Failure>)
    requires
        fs_ok(*old(fs), old(devs)@),
    ensures
        fs_frame(*old(fs), old(devs)@, *final(fs), final(devs)@),
        tested(
            old(devs)@[old(fs).dev_idx as int].reliable(),
            r,
            fs_view(*final(fs), final(devs)@),
            shared_s(fs_view(*old(fs), old(devs)@), n, now),
        ),
{
    reveal(shared_s);
    if let Err(e) = fs.chmod(devs, n, 0o644, now) {
        return Err(Failure { step: Step::Chmod, why: Why::Fs(e) });
    }
    if let Err(f) = expect_allowed(fs, devs, n, ALICE, MAY_READ, Step::OtherRead) {
        return Err(f);
    }
    if let Err(f) = expect_denied(fs, devs, n, ALICE, MAY_WRITE, Step::OtherWriteDenied) {
        return Err(f);
    }
    if let Err(e) = fs.chown(devs, n, ALICE, ALICE, now) {
        return Err(Failure { step: Step::Chown, why: Why::Fs(e) });
    }
    expect_allowed(fs, devs, n, ALICE, MAY_WRITE, Step::NewOwnerWrite)
}

/// The file is deleted, whether or not that works, and everything is flushed.
#[verifier::opaque]
pub open spec fn flushed_s(v: FsView, dir: u32, now: u32) -> (Result<(), Failure>, FsView) {
    match sync_s(unlink_s(v, dir, "perm.txt"@, now).1) {
        (Err(e), v1) => (broke(Step::Sync, e), v1),
        (Ok(_), v1) => (Ok(()), v1),
    }
}

/// Deletes the file and flushes everything.
fn clean_up<D: BlockDevice>(fs: &mut NextFS, devs: &mut BlockRegistry<D>, dir: u32, now: u32) -> (r:
    Result<(), Failure>)
    requires
        fs_ok(*old(fs), old(devs)@),
    ensures
        fs_frame(*old(fs), old(devs)@, *final(fs), final(devs)@),
        ({
            let reliable = old(devs)@[old(fs).dev_idx as int].reliable();
            let want = flushed_s(fs_view(*old(fs), old(devs)@), dir, now);
            ||| tested(reliable, r, fs_view(*final(fs), final(devs)@), want)
            ||| !reliable && (r matches Err(f) ==> f.step is Sync)
        }),
{
    reveal(flushed_s);
    let _ = fs.unlink(devs, dir, "perm.txt", now);
    match fs.sync(devs) {
        Ok(_) => Ok(()),
        Err(e) => Err(Failure { step: Step::Sync, why: Why::Fs(e) }),
    }
}

/// The steps on a file system before the flush, in order, up to the first that fails.
/// Gives the directory that they are in.
pub open spec fn volume_used_s(v: FsView, now: u32) -> (Result<u32, Failure>, FsView) {
    match files_s(v, now) {
        (Err(f), v1) => (Err(f), v1),
        (Ok((dir, file)), v1) => match cut_s(v1, file) {
            (Err(f), v2) => (Err(f), v2),
            (Ok(_), v2) => match temp_made_s(v2, dir, now) {
                (Err(f), v3) => (Err(f), v3),
                (Ok(_), v3) => match temp_gone_s(v3, dir, now) {
                    (Err(f), v4) => (Err(f), v4),
                    (Ok(_), v4) => match subdir_s(v4, dir, now) {
                        (Err(f), v5) => (Err(f), v5),
                        (Ok(_), v5) => match private_s(v5, dir, now) {
                            (Err(f), v6) => (Err(f), v6),
                            (Ok(n), v6) => match shared_s(v6, n, now) {
                                (Err(f), v7) => (Err(f), v7),
                                (Ok(_), v7) => (Ok(dir), v7),
                            },
                        },
                    },
                },
            },
        },
    }
}

/// All steps on a file system, in order, up to the first that fails.
pub open spec fn volume_checked_s(v: FsView, now: u32) -> (Result<(), Failure>, FsView) {
    match volume_used_s(v, now) {
        (Err(f), v1) => (Err(f), v1),
        (Ok(dir), v1) => flushed_s(v1, dir, now),
    }
}

/// Uses files, directories and permissions of a file system.
fn use_volume<D: BlockDevice>(fs: &mut NextFS, devs: &mut BlockRegistry<D>, now: u32) -> (r: Result<
    u32,
    Failure,
>)
    requires
        fs_ok(*old(fs), old(devs)@),
    ensures
        fs_frame(*old(fs), old(devs)@, *final(fs), final(devs)@),
        tested(
            old(devs)@[old(fs).dev_idx as int].reliable(),
            r,
            fs_view(*final(fs), final(devs)@),
            volume_used_s(fs_view(*old(fs), old(devs)@), now),
        ),
{
    let (dir, file) = check_files(fs, devs, now)?;
    check_truncate(fs, devs, file)?;
    make_temp(fs, devs, dir, now)?;
    remove_temp(fs, devs, dir, now)?;
    check_subdir(fs, devs, dir, now)?;
    let n: u32 = check_private(fs, devs, dir, now)?;
    check_shared(fs, devs, n, now)?;
    Ok(dir)
}

/// Steps on a file system ended as [`volume_checked_s`] says, unless the device failed.
/// That the last file cannot be deleted is passed over: where the steps before the
/// flush go well, the device may then hold anything.
pub open spec fn volume_tested(
    reliable: bool,
    r: Result<(), Failure>,
    post: FsView,
    v: FsView,
    now: u32,
) -> bool {
    ||| tested(reliable, r, post, volume_checked_s(v, now))
    ||| !reliable && volume_used_s(v, now).0 is Ok && (r matches Err(f) ==> f.step is Sync)
}

/// Checks files, directories and permissions of a file system.
pub fn check_volume<D: BlockDevice>(fs: &mut NextFS, devs: &mut BlockRegistry<D>, now: u32) -> (r:
    Result<(), Failure>)
    requires
        fs_ok(*old(fs), old(devs)@),
    ensures
        fs_frame(*old(fs), old(devs)@, *final(fs), final(devs)@),
        volume_tested(
            old(devs)@[old(fs).dev_idx as int].reliable(),
            r,
            fs_view(*final(fs), final(devs)@),
            fs_view(*old(fs), old(devs)@),
            now,
        ),
{
    let dir: u32 = use_volume(fs, devs, now)?;
    clean_up(fs, devs, dir, now)
}

/// A step that failed with an error of the descriptor layer.
pub open spec fn stopped(step: Step, e: VfsError) -> Result<(), Failure> {
    Err(Failure { step, why: Why::Vfs(e) })
}

/// The file is read through a descriptor.
#[verifier::opaque]
pub open spec fn through_fd_s(f: FilesView, con: ConsoleView, now: u32) -> (
    Result<(), Failure>,
    FilesView,
    ConsoleView,
) {
    match open_s(f, 0, "/test/hello.txt"@, read_only(), now) {
        (Err(e), f1) => (stopped(Step::Open, e), f1, con),
        (Ok(fd), f1) => match read_s(f1, con, 0, fd, 20) {
            (Err(e), data, f2, con1) => (stopped(Step::Read, e), f2, con1),
            (Ok(step), data, f2, con1) => match step {
                ReadStep::Bytes(n) => if n != 10 {
                    (wrong(Step::Read, Why::Count(n)), f2, con1)
                } else {
                    match close_s(f2, 0, fd) {
                        (Err(e), f3) => (stopped(Step::Close, e), f3, con1),
                        (Ok(_), f3) => (Ok(()), f3, con1),
                    }
                },
                _ => (wrong(Step::Read, Why::Unexpected), f2, con1),
            },
        },
    }
}

/// Reads the file through a descriptor.
fn check_descriptor<D: BlockDevice>(
    files: &mut FileSystem<D>,
    console: &mut ConsoleInput,
    now: u32,
) -> (r: Result<(), Failure>)
    requires
        old(files).wf(),
        old(console).wf(),
    ensures
        frame(*old(files), *final(files)),
        final(console).wf(),
        ({
            ||| (r, final(files)@, final(console)@) == through_fd_s(
                old(files)@,
                old(console)@,
                now,
            )
            ||| {
                &&& !old(files).reliable()
                &&& r matches Err(f) && hardware(f)
                &&& final(console)@ == old(console)@
            }
        }),
{
    reveal(through_fd_s);
    let ghost f0 = *files;
    let opened = open(files, 0, "/test/hello.txt", OpenFlags::rdonly(), now);
    let ghost f1 = *files;
    proof {
        lemma_frame(f0, f1);
    }
    let fd: u32 = match opened {
        Ok(fd) => fd,
        Err(e) => return Err(Failure { step: Step::Open, why: Why::Vfs(e) }),
    };
    let mut buf = zeroed(20);
    let got = read(files, console, 0, fd, buf.as_mut_slice());
    let ghost f2 = *files;
    proof {
        lemma_frame(f1, f2);
        lemma_frame_trans(f0, f1, f2);
    }
    match got {
        Err(e) => return Err(Failure { step: Step::Read, why: Why::Vfs(e) }),
        Ok(ReadStep::Bytes(n)) => {
            if n != 10 {
                return Err(Failure { step: Step::Read, why: Why::Count(n) });
            }
        },
        Ok(_) => return Err(Failure { step: Step::Read, why: Why::Unexpected }),
    }
    let closed = close(files, 0, fd);
    proof {
        lemma_frame_trans(f0, f2, *files);
    }
    match closed {
        Ok(_) => Ok(()),
        Err(e) => Err(Failure { step: Step::Close, why: Why::Vfs(e) }),
    }
}

/// The console after a character was put into it.
pub open spec fn typed_in(con: ConsoleView, c: char) -> ConsoleView {
    ConsoleView { waiters: Seq::empty(), ..pushed(con, c) }
}

/// Two characters are typed and read from the standard input.
#[verifier::opaque]
pub open spec fn stdin_s(f: FilesView, con: ConsoleView) -> (
    Result<(), Failure>,
    FilesView,
    ConsoleView,
) {
    let con1 = typed_in(typed_in(con, 'P'), 'i');
    match read_s(f, con1, 0, 0, 8) {
        (Err(e), data, f1, con2) => (stopped(Step::Stdin, e), f1, con2),
        (Ok(step), data, f1, con2) => match step {
            ReadStep::Bytes(n) => if n <= 8 && patch(zeros(8), 0, data).take(n as int)
                == encode_utf8("Pi"@) {
                (Ok(()), f1, con2)
            } else {
                (wrong(Step::Stdin, Why::Unexpected), f1, con2)
            },
            _ => (wrong(Step::Stdin, Why::Unexpected), f1, con2),
        },
    }
}

/// Types two characters and reads them from the standard input.
fn check_stdin<D: BlockDevice>(files: &mut FileSystem<D>, console: &mut ConsoleInput) -> (r: Result<
    (),
    Failure,
>)
    requires
        old(files).wf(),
        old(console).wf(),
    ensures
        frame(*old(files), *final(files)),
        final(console).wf(),
        ({
            ||| (r, final(files)@, final(console)@) == stdin_s(old(files)@, old(console)@)
            ||| {
                &&& on_disk(old(files)@, 0, 0) && !old(files).reliable()
                &&& r matches Err(f) && hardware(f)
            }
        }),
{
    reveal(stdin_s);
    let _ = inject_char(console, 'P');
    let _ = inject_char(console, 'i');
    let mut buf = zeroed(8);
    match read(files, console, 0, 0, buf.as_mut_slice()) {
        Err(e) => Err(Failure { step: Step::Stdin, why: Why::Vfs(e) }),
        Ok(ReadStep::Bytes(n)) => {
            if n > 8 {
                return Err(Failure { step: Step::Stdin, why: Why::Unexpected });
            }
            buf.truncate(n);
            if bytes_eq(buf.as_slice(), "Pi".as_bytes()) {
                Ok(())
            } else {
                Err(Failure { step: Step::Stdin, why: Why::Unexpected })
            }
        },
        Ok(_) => Err(Failure { step: Step::Stdin, why: Why::Unexpected }),
    }
}

/// What the check makes of a device: the outcome of the steps up to the flush, and
/// the disk after them.
#[verifier::opaque]
pub open spec fn device_checked_s<D: BlockDevice>(d: D, now: u32) -> (
    Result<(), Failure>,
    Seq<Seq<u8>>,
) {
    match format_s(d) {
        Err(e) => (broke(Step::Format, e), d.blocks()),
        Ok(disk) => match mount_s(disk) {
            Err(e) => (broke(Step::Mount, e), disk),
            Ok(v) => {
                let (r, v1) = volume_checked_s(v, now);
                (r, v1.disk)
            },
        },
    }
}

/// The steps on a device before the flush go well, or end because a name is taken.
pub open spec fn device_usable<D: BlockDevice>(d: D, now: u32) -> bool {
    &&& format_s(d) matches Ok(disk)
    &&& mount_s(disk) matches Ok(v)
    &&& volume_used_s(v, now).0 is Ok || taken(volume_used_s(v, now).0)
}

/// The steps on a device ended as [`device_checked_s`] says, unless the device failed.
/// Even then they only end well where [`device_usable`] holds.
pub open spec fn device_tested<D: BlockDevice>(
    d: D,
    now: u32,
    r: Result<(), Failure>,
    blocks: Seq<Seq<u8>>,
) -> bool {
    let (want, disk) = device_checked_s(d, now);
    ||| r == want && blocks == disk
    ||| !d.reliable() && match r {
        Ok(_) => device_usable(d, now),
        Err(f) => hardware(f) || r == want || device_usable(d, now),
    }
}

/// Formats a device and checks files, directories and permissions on it.
fn check_device<D: BlockDevice>(devs: &mut BlockRegistry<D>, idx: usize, now: u32) -> (r: Result<
    (),
    Failure,
>)
    requires
        idx < old(devs)@.len(),
        device_ok(&old(devs)@[idx as int]),
    ensures
        only_device_changed(old(devs)@, final(devs)@, idx as int),
        device_ok(&final(devs)@[idx as int]),
        r is Ok ==> final(devs)@[idx as int].unit() == 512,
        device_tested(old(devs)@[idx as int], now, r, final(devs)@[idx as int].blocks()),
{
    reveal(device_checked_s);
    if let Err(e) = NextFS::format(devs, idx) {
        return Err(Failure { step: Step::Format, why: Why::Fs(e) });
    }
    let mut fs = match NextFS::mount(devs, idx) {
        Ok(fs) => fs,
        Err(e) => return Err(Failure { step: Step::Mount, why: Why::Fs(e) }),
    };
    check_volume(&mut fs, devs, now)
}

/// The steps after the flush: the file system is mounted for good and used
/// through descriptors.
pub open spec fn mounted_checked_s(f: FilesView, con: ConsoleView, disk: Seq<Seq<u8>>, now: u32) -> (
    Result<(), Failure>,
    FilesView,
    ConsoleView,
) {
    match mount_s(disk) {
        Err(e) => (broke(Step::Remount, e), f, con),
        Ok(v) => {
            let f1 = FilesView {
                fs: Some(v),
                tables: f.tables.insert(0, standard_table()),
                ..f
            };
            match through_fd_s(f1, con, now) {
                (Err(x), f2, con1) => (Err(x), f2, con1),
                (Ok(_), f2, con1) => stdin_s(f2, con1),
            }
        },
    }
}

/// Mounts the file system of a device for good and uses it through descriptors.
fn check_mounted<D: BlockDevice>(
    files: &mut FileSystem<D>,
    console: &mut ConsoleInput,
    idx: usize,
    now: u32,
) -> (r: Result<(), Failure>)
    requires
        old(files).wf(),
        old(console).wf(),
        idx < old(files).devices().len(),
        device_ok(&old(files).devices()[idx as int]),
        old(files).devices()[idx as int].unit() == 512,
    ensures
        final(files).wf(),
        final(console).wf(),
        only_device_changed(old(files).devices(), final(files).devices(), idx as int),
        ({
            let d = old(files).devices()[idx as int];
            ||| (r, final(files)@, final(console)@) == mounted_checked_s(
                old(files)@,
                old(console)@,
                d.blocks(),
                now,
            )
            ||| {
                &&& !d.reliable()
                &&& r matches Err(f) && hardware(f)
            }
        }),
{
    if let Err(e) = mount(files, idx) {
        return Err(Failure { step: Step::Remount, why: Why::Fs(e) });
    }
    let ghost f2 = *files;
    init_task_fds(files, 0);
    let ghost f3 = *files;
    let first = check_descriptor(files, console, now);
    let ghost f4 = *files;
    proof {
        lemma_frame(f3, f4);
        lemma_frame_trans(f2, f3, f4);
    }
    match first {
        Ok(_) => {
            let r = check_stdin(files, console);
            proof {
                lemma_frame_trans(f2, f4, *files);
                lemma_frame(f2, *files);
            }
            r
        },
        Err(f) => Err(f),
    }
}

/// What the whole check does. A device on which a step up to the flush fails is left
/// as that step left it, and nothing is mounted.
pub open spec fn checked_as<D: BlockDevice>(
    f0: FileSystem<D>,
    con0: ConsoleView,
    idx: usize,
    now: u32,
    f1: FileSystem<D>,
    con1: ConsoleView,
    r: Result<(), Failure>,
) -> bool {
    let (first, disk) = device_checked_s(f0.devices()[idx as int], now);
    match first {
        Err(f) => {
            &&& r == first
            &&& f1@ == f0@
            &&& con1 == con0
            &&& f1.devices()[idx as int].blocks() == disk
        },
        Ok(_) => (r, f1@, con1) == mounted_checked_s(f0@, con0, disk, now),
    }
}

/// The whole check ended as [`checked_as`] says, unless the device failed. Even then it
/// only ends well where [`device_usable`] holds.
pub open spec fn checked<D: BlockDevice>(
    f0: FileSystem<D>,
    con0: ConsoleView,
    idx: usize,
    now: u32,
    f1: FileSystem<D>,
    con1: ConsoleView,
    r: Result<(), Failure>,
) -> bool {
    let d = f0.devices()[idx as int];
    ||| checked_as(f0, con0, idx, now, f1, con1, r)
    ||| !d.reliable() && match r {
        Ok(_) => device_usable(d, now),
        Err(f) => hardware(f) || r == device_checked_s(d, now).0 || device_usable(d, now),
    }
}

/// Formats a device and checks everything on it, step by step, up to the first
/// step that fails. When all went well up to the flush, the file system stays
/// mounted.
pub fn nextfs_selftest<D: BlockDevice>(
    files: &mut FileSystem<D>,
    console: &mut ConsoleInput,
    idx: usize,
    now: u32,
) -> (r: Result<(), Failure>)
    requires
        old(files).wf(),
        old(console).wf(),
        old(files)@.fs is None,
        idx < old(files).devices().len(),
        device_ok(&old(files).devices()[idx as int]),
    ensures
        final(files).wf(),
        final(console).wf(),
        only_device_changed(old(files).devices(), final(files).devices(), idx as int),
        checked(*old(files), old(console)@, idx, now, *final(files), final(console)@, r),
{
    let ghost f0 = *files;
    if let Err(f) = check_device(&mut files.devs, idx, now) {
        assert(files@ == f0@);
        return Err(f);
    }
    check_mounted(files, console, idx, now)
}

/// How a disk was brought up: it had a file system, or it was formatted and checked.
#[derive(Debug, Clone, Copy, PartialEq, Eq)]
pub enum BringUp {
    Mounted,
    Checked(Result<(), Failure>),
}

/// Brings up a disk: mounts what is on it, and only if that is no file system
/// formats and checks it.
pub fn bring_up<D: BlockDevice>(
    files: &mut FileSystem<D>,
    console: &mut ConsoleInput,
    idx: usize,
    now: u32,
) -> (r: BringUp)
    requires
        old(files).wf(),
        old(console).wf(),
        old(files)@.fs is None,
        idx < old(files).devices().len(),
        device_ok(&old(files).devices()[idx as int]),
        old(files).devices()[idx as int].unit() == 512,
    ensures
        final(files).wf(),
        final(console).wf(),
        only_device_changed(old(files).devices(), final(files).devices(), idx as int),
        r == BringUp::Mounted ==> final(files).devices() == old(files).devices(),
        ({
            let d = old(files).devices()[idx as int];
            match r {
                BringUp::Mounted => {
                    &&& mount_s(d.blocks()) matches Ok(v)
                    &&& final(files)@ == (FilesView { fs: Some(v), ..old(files)@ })
                    &&& final(console)@ == old(console)@
                },
                BringUp::Checked(x) => {
                    &&& mount_s(d.blocks()) is Err || !d.reliable()
                    &&& checked(
                        *old(files),
                        old(console)@,
                        idx,
                        now,
                        *final(files),
                        final(console)@,
                        x,
                    )
                },
            }
        }),
{
    match mount(files, idx) {
        Ok(_) => BringUp::Mounted,
        Err(_) => BringUp::Checked(nextfs_selftest(files, console, idx, now)),
    }
}

} // verus!
