//! Directories of NextFS: lookup, listing, and adding and removing entries,
//! files and directories.

use crate::bytes::{patch, splice, str_eq, zeroed, zeros};
use crate::driver::block::{BlockDevice, BlockRegistry};
use crate::fs::nextfs::{
    alloc_block_s, alloc_inode_s, block_ptr, did, disk_block, free_block_s, free_inode_blocks_s,
    free_inode_s, fs_frame, fs_ok, fs_view, got, put_block, read_inode_s, write_inode_data_s,
    write_inode_s, FsError, FsView, NextFS,
};
use crate::fs::ondisk::{
    blank_inode, dirent_bytes, dirent_of, field_name, new_dirent, DirEntry, DirEntryView, Inode,
    InodeView, DEFAULT_DIR_MODE, DEFAULT_FILE_MODE,
};
use vstd::prelude::*;
use vstd::utf8::encode_utf8;

verus! {

/// Entry `k` of a directory; `None` where its block is not allocated.
pub open spec fn entry_at(disk: Seq<Seq<u8>>, i: InodeView, k: int) -> Result<
    Option<DirEntryView>,
    FsError,
> {
    match block_ptr(disk, i, k / 8) {
        Err(e) => Err(e),
        Ok(p) => if p == 0 {
            Ok(None)
        } else {
            match disk_block(disk, p as int) {
                Err(e) => Err(e),
                Ok(b) => Ok(Some(dirent_of(b.subrange(64 * (k % 8), 64 * (k % 8) + 64)))),
            }
        },
    }
}

/// The first entry from `k` on that is in use under `name`.
pub open spec fn find_entry(
    disk: Seq<Seq<u8>>,
    i: InodeView,
    name: Seq<char>,
    k: int,
    total: int,
) -> Result<int, FsError>
    decreases total - k,
{
    if k >= total {
        Err(FsError::NotFound)
    } else {
        match entry_at(disk, i, k) {
            Err(e) => Err(e),
            Ok(None) => Err(FsError::NotFound),
            Ok(Some(e)) => if e.inode != 0 && field_name(e.name) == name {
                Ok(k)
            } else {
                find_entry(disk, i, name, k + 1, total)
            },
        }
    }
}

/// The first entry from `k` on that is not in use.
pub open spec fn find_unused(disk: Seq<Seq<u8>>, i: InodeView, k: int, total: int) -> Result<
    Option<int>,
    FsError,
>
    decreases total - k,
{
    if k >= total {
        Ok(None)
    } else {
        match entry_at(disk, i, k) {
            Err(e) => Err(e),
            Ok(None) => Ok(None),
            Ok(Some(e)) => if e.inode == 0 {
                Ok(Some(k))
            } else {
                find_unused(disk, i, k + 1, total)
            },
        }
    }
}

/// Names and inodes of the entries in use from `k` on.
pub open spec fn list_from(disk: Seq<Seq<u8>>, i: InodeView, k: int, total: int) -> Result<
    Seq<(Seq<char>, u32)>,
    FsError,
>
    decreases total - k,
{
    if k >= total {
        Ok(Seq::empty())
    } else {
        match entry_at(disk, i, k) {
            Err(e) => Err(e),
            Ok(None) => Ok(Seq::empty()),
            Ok(Some(e)) => prepend(
                if e.inode != 0 {
                    seq![(field_name(e.name), e.inode)]
                } else {
                    Seq::empty()
                },
                list_from(disk, i, k + 1, total),
            ),
        }
    }
}

/// A listing with more entries in front.
pub open spec fn prepend(
    head: Seq<(Seq<char>, u32)>,
    rest: Result<Seq<(Seq<char>, u32)>, FsError>,
) -> Result<Seq<(Seq<char>, u32)>, FsError> {
    match rest {
        Ok(s) => Ok(head + s),
        Err(e) => Err(e),
    }
}

/// The directory with inode number `d`.
pub open spec fn open_dir_s(v: FsView, d: u32) -> Result<InodeView, FsError> {
    match read_inode_s(v, d) {
        Err(e) => Err(e),
        Ok(i) => if i.inode_type != 2 {
            Err(FsError::NotDirectory)
        } else {
            Ok(i)
        },
    }
}

/// The inode that `name` has in directory `d`.
pub open spec fn dir_lookup_s(v: FsView, d: u32, name: Seq<char>) -> Result<u32, FsError> {
    match open_dir_s(v, d) {
        Err(e) => Err(e),
        Ok(i) => match find_entry(v.disk, i, name, 0, i.size as int / 64) {
            Err(e) => Err(e),
            Ok(k) => Ok(entry_at(v.disk, i, k)->Ok_0->Some_0.inode),
        },
    }
}

/// What directory `d` holds.
pub open spec fn dir_list_s(v: FsView, d: u32) -> Result<Seq<(Seq<char>, u32)>, FsError> {
    match open_dir_s(v, d) {
        Err(e) => Err(e),
        Ok(i) => list_from(v.disk, i, 0, i.size as int / 64),
    }
}

/// Overwriting entry `k` of a directory.
pub open spec fn put_entry_s(v: FsView, i: InodeView, k: int, e: DirEntryView) -> (
    Result<(), FsError>,
    FsView,
) {
    let b = block_ptr(v.disk, i, k / 8)->Ok_0 as int;
    put_block(v, b, patch(v.disk[b], 64 * (k % 8), dirent_bytes(e)))
}

/// Appending an entry to directory `d`. The directory grows by two slots, of
/// which the entry takes the first.
pub open spec fn append_entry_s(
    v: FsView,
    d: u32,
    i: InodeView,
    e: DirEntryView,
    now: u32,
) -> (Result<(), FsError>, FsView) {
    if i.size > u64::MAX - 128 {
        (Err(FsError::NoSpace), v)
    } else {
        match write_inode_data_s(v, i, i.size, dirent_bytes(e), now) {
            (Err(e), v1, i1) => (Err(e), v1),
            (Ok(_), v1, i1) => write_inode_s(
                v1,
                d,
                InodeView { size: (i1.size + 64) as u64, ..i1 },
            ),
        }
    }
}

/// Putting an entry into directory `d`, whether or not the name is taken: the first
/// slot not in use takes it.
pub open spec fn put_name_s(v: FsView, d: u32, name: Seq<char>, target: u32, now: u32) -> (
    Result<(), FsError>,
    FsView,
) {
    match open_dir_s(v, d) {
        Err(e) => (Err(e), v),
        Ok(i) => match find_unused(v.disk, i, 0, i.size as int / 64) {
            Err(e) => (Err(e), v),
            Ok(Some(k)) => put_entry_s(v, i, k, new_dirent(target, name)),
            Ok(None) => append_entry_s(v, d, i, new_dirent(target, name), now),
        },
    }
}

/// An operation that adds a name ended as `want` says, unless the device failed. Where
/// the name is taken and the device fails while that is looked up, this goes
/// unnoticed, and the operation ends as `blind` says.
pub open spec fn did_add<T>(
    reliable: bool,
    r: Result<T, FsError>,
    post: FsView,
    want: (Result<T, FsError>, FsView),
    blind: (Result<T, FsError>, FsView),
) -> bool {
    ||| did(reliable, r, post, want)
    ||| !reliable && want.0 == Err::<T, FsError>(FsError::AlreadyExists) && did(
        false,
        r,
        post,
        blind,
    )
}

/// Adding an entry to directory `d`: the first slot not in use takes it.
pub open spec fn dir_add_entry_s(v: FsView, d: u32, name: Seq<char>, target: u32, now: u32) -> (
    Result<(), FsError>,
    FsView,
) {
    if encode_utf8(name).len() >= 60 {
        (Err(FsError::NameTooLong), v)
    } else if dir_lookup_s(v, d, name) is Ok {
        (Err(FsError::AlreadyExists), v)
    } else {
        put_name_s(v, d, name, target, now)
    }
}

/// Removing the entry `name` from directory `d`.
pub open spec fn dir_remove_entry_s(v: FsView, d: u32, name: Seq<char>) -> (
    Result<u32, FsError>,
    FsView,
) {
    match open_dir_s(v, d) {
        Err(e) => (Err(e), v),
        Ok(i) => match find_entry(v.disk, i, name, 0, i.size as int / 64) {
            Err(e) => (Err(e), v),
            Ok(k) => match put_entry_s(v, i, k, new_dirent(0, Seq::empty())) {
                (Err(e), v1) => (Err(e), v1),
                (Ok(_), v1) => (Ok(entry_at(v.disk, i, k)->Ok_0->Some_0.inode), v1),
            },
        },
    }
}

/// Creating a file in directory `d`.
pub open spec fn create_file_s(v: FsView, d: u32, name: Seq<char>, now: u32) -> (
    Result<u32, FsError>,
    FsView,
) {
    match alloc_inode_s(v) {
        (Err(e), v1) => (Err(e), v1),
        (Ok(n), v1) => match write_inode_s(
            v1,
            n,
            InodeView { mtime: now, ..blank_inode(1, DEFAULT_FILE_MODE) },
        ) {
            (Err(e), v2) => (Err(e), v2),
            (Ok(_), v2) => match dir_add_entry_s(v2, d, name, n, now) {
                (Ok(_), v3) => (Ok(n), v3),
                (Err(e), v3) => (Err(e), free_inode_s(v3, n)),
            },
        },
    }
}

/// As [`create_file_s`], whether or not the name is taken.
pub open spec fn create_file_blind_s(v: FsView, d: u32, name: Seq<char>, now: u32) -> (
    Result<u32, FsError>,
    FsView,
) {
    match alloc_inode_s(v) {
        (Err(e), v1) => (Err(e), v1),
        (Ok(n), v1) => match write_inode_s(
            v1,
            n,
            InodeView { mtime: now, ..blank_inode(1, DEFAULT_FILE_MODE) },
        ) {
            (Err(e), v2) => (Err(e), v2),
            (Ok(_), v2) => match put_name_s(v2, d, name, n, now) {
                (Ok(_), v3) => (Ok(n), v3),
                (Err(e), v3) => (Err(e), free_inode_s(v3, n)),
            },
        },
    }
}

/// The first block of a new directory: `.` and `..`.
pub open spec fn dir_block(own: u32, parent: u32) -> Seq<u8> {
    patch(
        patch(zeros(512), 0, dirent_bytes(new_dirent(own, "."@))),
        64,
        dirent_bytes(new_dirent(parent, ".."@)),
    )
}

/// The inode of a new directory whose first block is `b`.
pub open spec fn dir_inode(b: u32, now: u32) -> InodeView {
    InodeView {
        mtime: now,
        size: 128,
        direct: blank_inode(2, DEFAULT_DIR_MODE).direct.update(0, b),
        ..blank_inode(2, DEFAULT_DIR_MODE)
    }
}

/// Creating a directory in directory `d`.
pub open spec fn create_dir_s(v: FsView, d: u32, name: Seq<char>, now: u32) -> (
    Result<u32, FsError>,
    FsView,
) {
    match alloc_inode_s(v) {
        (Err(e), v1) => (Err(e), v1),
        (Ok(n), v1) => match alloc_block_s(v1) {
            (Err(e), v2) => (Err(e), v2),
            (Ok(b), v2) => match put_block(v2, b as int, dir_block(n, d)) {
                (Err(e), v3) => (Err(e), v3),
                (Ok(_), v3) => match write_inode_s(v3, n, dir_inode(b, now)) {
                    (Err(e), v4) => (Err(e), v4),
                    (Ok(_), v4) => match dir_add_entry_s(v4, d, name, n, now) {
                        (Ok(_), v5) => (Ok(n), v5),
                        (Err(e), v5) => (Err(e), free_inode_s(free_block_s(v5, b), n)),
                    },
                },
            },
        },
    }
}

/// As [`create_dir_s`], whether or not the name is taken.
pub open spec fn create_dir_blind_s(v: FsView, d: u32, name: Seq<char>, now: u32) -> (
    Result<u32, FsError>,
    FsView,
) {
    match alloc_inode_s(v) {
        (Err(e), v1) => (Err(e), v1),
        (Ok(n), v1) => match alloc_block_s(v1) {
            (Err(e), v2) => (Err(e), v2),
            (Ok(b), v2) => match put_block(v2, b as int, dir_block(n, d)) {
                (Err(e), v3) => (Err(e), v3),
                (Ok(_), v3) => match write_inode_s(v3, n, dir_inode(b, now)) {
                    (Err(e), v4) => (Err(e), v4),
                    (Ok(_), v4) => match put_name_s(v4, d, name, n, now) {
                        (Ok(_), v5) => (Ok(n), v5),
                        (Err(e), v5) => (Err(e), free_inode_s(free_block_s(v5, b), n)),
                    },
                },
            },
        },
    }
}

/// Whether a name is one of the two that every directory has.
pub open spec fn is_dot(name: Seq<char>) -> bool {
    name == "."@ || name == ".."@
}

/// Giving back the blocks of inode `n` and the inode itself.
pub open spec fn discard_inode_s(v: FsView, n: u32, i: InodeView) -> (Result<(), FsError>, FsView) {
    match free_inode_blocks_s(v, i) {
        (Err(e), v1, i1) => (Err(e), v1),
        (Ok(_), v1, i1) => match write_inode_s(v1, n, InodeView { inode_type: 0, size: 0, ..i1 }) {
            (Err(e), v2) => (Err(e), v2),
            (Ok(_), v2) => (Ok(()), free_inode_s(v2, n)),
        },
    }
}

/// Deleting a file. What turns out not to be a file keeps its name.
pub open spec fn unlink_s(v: FsView, d: u32, name: Seq<char>, now: u32) -> (
    Result<(), FsError>,
    FsView,
) {
    if is_dot(name) {
        (Err(FsError::InvalidOperation), v)
    } else {
        match dir_remove_entry_s(v, d, name) {
            (Err(e), v1) => (Err(e), v1),
            (Ok(n), v1) => match read_inode_s(v1, n) {
                Err(e) => (Err(e), v1),
                Ok(i) => if i.inode_type != 1 {
                    (Err(FsError::NotFile), dir_add_entry_s(v1, d, name, n, now).1)
                } else {
                    discard_inode_s(v1, n, i)
                },
            },
        }
    }
}

/// A deletion ended as `want` says, unless the device failed. Where what was to be
/// deleted is not a file, a device that fails may keep its name from being put back.
pub open spec fn unlinked(
    reliable: bool,
    r: Result<(), FsError>,
    post: FsView,
    want: (Result<(), FsError>, FsView),
) -> bool {
    ||| did(reliable, r, post, want)
    ||| !reliable && r == want.0 && r == Err::<(), FsError>(FsError::NotFile)
}

/// Removing a directory that holds nothing but `.` and `..`.
pub open spec fn rmdir_s(v: FsView, d: u32, name: Seq<char>) -> (Result<(), FsError>, FsView) {
    if is_dot(name) {
        (Err(FsError::InvalidOperation), v)
    } else {
        match dir_lookup_s(v, d, name) {
            Err(e) => (Err(e), v),
            Ok(n) => match open_dir_s(v, n) {
                Err(e) => (Err(e), v),
                Ok(i) => match dir_list_s(v, n) {
                    Err(e) => (Err(e), v),
                    Ok(s) => if s.len() > 2 {
                        (Err(FsError::DirectoryNotEmpty), v)
                    } else {
                        match dir_remove_entry_s(v, d, name) {
                            (Err(e), v1) => (Err(e), v1),
                            (Ok(_), v1) => discard_inode_s(v1, n, i),
                        }
                    },
                },
            },
        }
    }
}

/// The listing that a vector of names and inodes stands for.
pub open spec fn listing(v: Seq<(String, u32)>) -> Seq<(Seq<char>, u32)> {
    Seq::new(v.len(), |k: int| (v[k].0@, v[k].1))
}

impl NextFS {
    /// Reads entry `k` of a directory, with the number and the contents of the
    /// block it is in.
    fn read_entry<D: BlockDevice>(&self, devs: &BlockRegistry<D>, inode: &Inode, k: u64) -> (r:
        Result<Option<(DirEntry, u32, Vec<u8>)>, FsError>)
        requires
            fs_ok(*self, devs@),
            k <= 1096,
        ensures
            ({
                let disk = fs_view(*self, devs@).disk;
                match r {
                    Ok(None) => entry_at(disk, inode@, k as int) == Ok::<
                        Option<DirEntryView>,
                        FsError,
                    >(None),
                    Ok(Some(x)) => {
                        &&& k < 1096
                        &&& entry_at(disk, inode@, k as int) == Ok::<
                            Option<DirEntryView>,
                            FsError,
                        >(Some(x.0@))
                        &&& block_ptr(disk, inode@, k as int / 8) == Ok::<u32, FsError>(x.1)
                        &&& x.1 < disk.len()
                        &&& disk[x.1 as int] == x.2@
                        &&& x.2@.len() == 512
                    },
                    Err(e) => got(
                        devs@[self.dev_idx as int].reliable(),
                        Err::<Option<DirEntryView>, FsError>(e),
                        entry_at(disk, inode@, k as int),
                    ),
                }
            }),
    {
        let b: u32 = match self.get_inode_block(devs, inode, (k / 8) as u32) {
            Ok(b) => b,
            Err(e) => return Err(e),
        };
        if b == 0 {
            return Ok(None);
        }
        let buf = match self.read_block(devs, b as u64) {
            Ok(x) => x,
            Err(e) => return Err(e),
        };
        let off: usize = 64 * ((k % 8) as usize);
        let e = DirEntry::from_bytes(buf.as_slice(), off);
        Ok(Some((e, b, buf)))
    }

    /// Reads the inode of a directory.
    fn open_dir<D: BlockDevice>(&self, devs: &BlockRegistry<D>, dir_inode: u32) -> (r: Result<
        Inode,
        FsError,
    >)
        requires
            fs_ok(*self, devs@),
        ensures
            match r {
                Ok(i) => open_dir_s(fs_view(*self, devs@), dir_inode) == Ok::<InodeView, FsError>(
                    i@,
                ),
                Err(e) => got(
                    devs@[self.dev_idx as int].reliable(),
                    Err::<InodeView, FsError>(e),
                    open_dir_s(fs_view(*self, devs@), dir_inode),
                ),
            },
    {
        let inode = match self.read_inode(devs, dir_inode) {
            Ok(i) => i,
            Err(e) => return Err(e),
        };
        if !inode.is_dir() {
            return Err(FsError::NotDirectory);
        }
        Ok(inode)
    }

    /// Looks up a name in a directory and returns its inode number.
    pub fn dir_lookup<D: BlockDevice>(
        &self,
        devs: &BlockRegistry<D>,
        dir_inode: u32,
        name: &str,
    ) -> (r: Result<u32, FsError>)
        requires
            fs_ok(*self, devs@),
        ensures
            got(
                devs@[self.dev_idx as int].reliable(),
                r,
                dir_lookup_s(fs_view(*self, devs@), dir_inode, name@),
            ),
    {
        let inode = match self.open_dir(devs, dir_inode) {
            Ok(i) => i,
            Err(e) => return Err(e),
        };
        let total: u64 = inode.size / 64;
        let ghost disk = fs_view(*self, devs@).disk;
        let mut k: u64 = 0;
        while k < total
            invariant
                fs_ok(*self, devs@),
                disk == fs_view(*self, devs@).disk,
                k <= 1096,
                total == inode@.size as int / 64,
                open_dir_s(fs_view(*self, devs@), dir_inode) == Ok::<InodeView, FsError>(inode@),
                find_entry(disk, inode@, name@, 0, total as int) == find_entry(
                    disk,
                    inode@,
                    name@,
                    k as int,
                    total as int,
                ),
            decreases total - k,
        {
            match self.read_entry(devs, &inode, k) {
                Err(e) => return Err(e),
                Ok(None) => return Err(FsError::NotFound),
                Ok(Some(x)) => {
                    if x.0.is_used() && x.0.name_matches(name) {
                        return Ok(x.0.inode);
                    }
                },
            }
            k += 1;
        }
        Err(FsError::NotFound)
    }

    /// Lists all entries in a directory as (name, inode) pairs.
    pub fn dir_list<D: BlockDevice>(&self, devs: &BlockRegistry<D>, dir_inode: u32) -> (r: Result<
        Vec<(String, u32)>,
        FsError,
    >)
        requires
            fs_ok(*self, devs@),
        ensures
            match r {
                Ok(v) => dir_list_s(fs_view(*self, devs@), dir_inode) == Ok::<
                    Seq<(Seq<char>, u32)>,
                    FsError,
                >(listing(v@)),
                Err(e) => got(
                    devs@[self.dev_idx as int].reliable(),
                    Err::<Seq<(Seq<char>, u32)>, FsError>(e),
                    dir_list_s(fs_view(*self, devs@), dir_inode),
                ),
            },
    {
        let inode = match self.open_dir(devs, dir_inode) {
            Ok(i) => i,
            Err(e) => return Err(e),
        };
        let total: u64 = inode.size / 64;
        let ghost disk = fs_view(*self, devs@).disk;
        let mut result: Vec<(String, u32)> = Vec::new();
        let mut k: u64 = 0;
        let ghost want = list_from(disk, inode@, 0, total as int);
        proof {
            assert(listing(result@) =~= Seq::<(Seq<char>, u32)>::empty());
            if want is Ok {
                assert(listing(result@) + want->Ok_0 =~= want->Ok_0);
            }
        }
        while k < total
            invariant
                fs_ok(*self, devs@),
                disk == fs_view(*self, devs@).disk,
                k <= 1096,
                total == inode@.size as int / 64,
                open_dir_s(fs_view(*self, devs@), dir_inode) == Ok::<InodeView, FsError>(inode@),
                want == list_from(disk, inode@, 0, total as int),
                want == prepend(
                    listing(result@),
                    list_from(disk, inode@, k as int, total as int),
                ),
            decreases total - k,
        {
            let ghost rest = list_from(disk, inode@, k + 1, total as int);
            let ghost before = listing(result@);
            match self.read_entry(devs, &inode, k) {
                Err(e) => return Err(e),
                Ok(None) => {
                    assert(before + Seq::<(Seq<char>, u32)>::empty() =~= before);
                    return Ok(result);
                },
                Ok(Some(x)) => {
                    if x.0.is_used() {
                        result.push((x.0.name_str(), x.0.inode));
                        proof {
                            let one = seq![(field_name(x.0@.name), x.0@.inode)];
                            assert(listing(result@) =~= before + one);
                            if rest is Ok {
                                assert(before + (one + rest->Ok_0) =~= (before + one)
                                    + rest->Ok_0);
                            }
                        }
                    } else {
                        proof {
                            if rest is Ok {
                                assert(Seq::<(Seq<char>, u32)>::empty() + rest->Ok_0
                                    =~= rest->Ok_0);
                            }
                        }
                    }
                },
            }
            k += 1;
        }
        assert(listing(result@) + Seq::<(Seq<char>, u32)>::empty() =~= listing(result@));
        Ok(result)
    }

    /// Overwrites the entry `k` of a directory, given the block it is in.
    fn put_entry<D: BlockDevice>(
        &self,
        devs: &mut BlockRegistry<D>,
        inode: &Inode,
        k: u64,
        block_num: u32,
        block: &Vec<u8>,
        entry: &DirEntry,
    ) -> (r: Result<(), FsError>)
        requires
            fs_ok(*self, old(devs)@),
            block_num < fs_view(*self, old(devs)@).disk.len(),
            block@ == fs_view(*self, old(devs)@).disk[block_num as int],
            block_ptr(fs_view(*self, old(devs)@).disk, inode@, k as int / 8) == Ok::<u32, FsError>(
                block_num,
            ),
        ensures
            fs_frame(*self, old(devs)@, *self, final(devs)@),
            did(
                old(devs)@[self.dev_idx as int].reliable(),
                r,
                fs_view(*self, final(devs)@),
                put_entry_s(fs_view(*self, old(devs)@), inode@, k as int, entry@),
            ),
    {
        let mut buf = crate::bytes::copy_range(block.as_slice(), 0, block.len());
        assert(buf@ =~= block@);
        let bytes = entry.to_bytes();
        splice(&mut buf, 64 * ((k % 8) as usize), bytes.as_slice());
        self.write_block(devs, block_num as u64, &buf)
    }

    /// Adds a new entry to a directory. An error while looking for an entry of
    /// the same name counts as not having found one.
    pub fn dir_add_entry<D: BlockDevice>(
        &mut self,
        devs: &mut BlockRegistry<D>,
        dir_inode: u32,
        name: &str,
        target_inode: u32,
        now: u32,
    ) -> (r: Result<(), FsError>)
        requires
            fs_ok(*old(self), old(devs)@),
        ensures
            fs_frame(*old(self), old(devs)@, *final(self), final(devs)@),
            did_add(
                old(devs)@[old(self).dev_idx as int].reliable(),
                r,
                fs_view(*final(self), final(devs)@),
                dir_add_entry_s(
                    fs_view(*old(self), old(devs)@),
                    dir_inode,
                    name@,
                    target_inode,
                    now,
                ),
                put_name_s(fs_view(*old(self), old(devs)@), dir_inode, name@, target_inode, now),
            ),
    {
        if name.as_bytes().len() >= 60 {
            return Err(FsError::NameTooLong);
        }
        if self.dir_lookup(devs, dir_inode, name).is_ok() {
            return Err(FsError::AlreadyExists);
        }
        let mut inode = match self.open_dir(devs, dir_inode) {
            Ok(i) => i,
            Err(e) => return Err(e),
        };
        let entry = DirEntry::new(target_inode, name);
        let total: u64 = inode.size / 64;
        let ghost disk = fs_view(*self, devs@).disk;
        let mut k: u64 = 0;
        let mut open_end: bool = false;
        while k < total && !open_end
            invariant
                fs_ok(*self, devs@),
                *self == *old(self),
                devs@ == old(devs)@,
                disk == fs_view(*self, devs@).disk,
                k <= 1096,
                total == inode@.size as int / 64,
                entry@ == new_dirent(target_inode, name@),
                encode_utf8(name@).len() < 60,
                old(devs)@[old(self).dev_idx as int].reliable() ==> !(dir_lookup_s(
                    fs_view(*self, devs@),
                    dir_inode,
                    name@,
                ) is Ok),
                open_dir_s(fs_view(*self, devs@), dir_inode) == Ok::<InodeView, FsError>(inode@),
                find_unused(disk, inode@, 0, total as int) == (if open_end {
                    Ok::<Option<int>, FsError>(None)
                } else {
                    find_unused(disk, inode@, k as int, total as int)
                }),
            decreases
                total - k,
                if open_end {
                    0int
                } else {
                    1int
                },
        {
            match self.read_entry(devs, &inode, k) {
                Err(e) => return Err(e),
                Ok(None) => {
                    open_end = true;
                },
                Ok(Some(x)) => {
                    if !x.0.is_used() {
                        return self.put_entry(devs, &inode, k, x.1, &x.2, &entry);
                    }
                    k += 1;
                },
            }
        }
        if inode.size > 0xFFFF_FFFF_FFFF_FFFF - 128 {
            return Err(FsError::NoSpace);
        }
        let offset: u64 = inode.size;
        let bytes = entry.to_bytes();
        proof {
            assert(find_unused(disk, inode@, 0, total as int) == Ok::<Option<int>, FsError>(None));
            crate::fs::nextfs::lemma_write_span_inode(
                fs_view(*self, devs@),
                inode@,
                offset as int,
                bytes@,
            );
        }
        match self.write_inode_data(devs, &mut inode, offset, bytes.as_slice(), now) {
            Ok(_) => {},
            Err(e) => return Err(e),
        }
        inode.size = inode.size.wrapping_add(64);
        self.write_inode(devs, dir_inode, &inode)
    }

    /// Removes an entry from a directory by name and returns its inode number.
    pub fn dir_remove_entry<D: BlockDevice>(
        &mut self,
        devs: &mut BlockRegistry<D>,
        dir_inode: u32,
        name: &str,
    ) -> (r: Result<u32, FsError>)
        requires
            fs_ok(*old(self), old(devs)@),
        ensures
            fs_frame(*old(self), old(devs)@, *final(self), final(devs)@),
            did(
                old(devs)@[old(self).dev_idx as int].reliable(),
                r,
                fs_view(*final(self), final(devs)@),
                dir_remove_entry_s(fs_view(*old(self), old(devs)@), dir_inode, name@),
            ),
    {
        let inode = match self.open_dir(devs, dir_inode) {
            Ok(i) => i,
            Err(e) => return Err(e),
        };
        let total: u64 = inode.size / 64;
        let ghost disk = fs_view(*self, devs@).disk;
        let mut k: u64 = 0;
        while k < total
            invariant
                fs_ok(*self, devs@),
                *self == *old(self),
                devs@ == old(devs)@,
                disk == fs_view(*self, devs@).disk,
                k <= 1096,
                total == inode@.size as int / 64,
                open_dir_s(fs_view(*self, devs@), dir_inode) == Ok::<InodeView, FsError>(inode@),
                find_entry(disk, inode@, name@, 0, total as int) == find_entry(
                    disk,
                    inode@,
                    name@,
                    k as int,
                    total as int,
                ),
            decreases total - k,
        {
            match self.read_entry(devs, &inode, k) {
                Err(e) => return Err(e),
                Ok(None) => return Err(FsError::NotFound),
                Ok(Some(x)) => {
                    if x.0.is_used() && x.0.name_matches(name) {
                        let empty = DirEntry::new(0, "");
                        proof {
                            reveal_strlit("");
                            assert(""@ =~= Seq::<char>::empty());
                        }
                        return match self.put_entry(devs, &inode, k, x.1, &x.2, &empty) {
                            Ok(_) => Ok(x.0.inode),
                            Err(e) => Err(e),
                        };
                    }
                },
            }
            k += 1;
        }
        Err(FsError::NotFound)
    }

    /// Creates a new file in a directory.
    pub fn create_file<D: BlockDevice>(
        &mut self,
        devs: &mut BlockRegistry<D>,
        dir_inode: u32,
        name: &str,
        now: u32,
    ) -> (r: Result<u32, FsError>)
        requires
            fs_ok(*old(self), old(devs)@),
        ensures
            fs_frame(*old(self), old(devs)@, *final(self), final(devs)@),
            did_add(
                old(devs)@[old(self).dev_idx as int].reliable(),
                r,
                fs_view(*final(self), final(devs)@),
                create_file_s(fs_view(*old(self), old(devs)@), dir_inode, name@, now),
                create_file_blind_s(fs_view(*old(self), old(devs)@), dir_inode, name@, now),
            ),
    {
        let n: u32 = match self.alloc_inode(devs) {
            Ok(n) => n,
            Err(e) => return Err(e),
        };
        let mut inode = Inode::new_file();
        inode.mtime = now;
        match self.write_inode(devs, n, &inode) {
            Ok(_) => {},
            Err(e) => return Err(e),
        }
        match self.dir_add_entry(devs, dir_inode, name, n, now) {
            Ok(_) => Ok(n),
            Err(e) => {
                self.free_inode(devs, n);
                Err(e)
            },
        }
    }

    /// Creates a new directory in a directory.
    pub fn create_dir<D: BlockDevice>(
        &mut self,
        devs: &mut BlockRegistry<D>,
        parent_inode: u32,
        name: &str,
        now: u32,
    ) -> (r: Result<u32, FsError>)
        requires
            fs_ok(*old(self), old(devs)@),
        ensures
            fs_frame(*old(self), old(devs)@, *final(self), final(devs)@),
            did_add(
                old(devs)@[old(self).dev_idx as int].reliable(),
                r,
                fs_view(*final(self), final(devs)@),
                create_dir_s(fs_view(*old(self), old(devs)@), parent_inode, name@, now),
                create_dir_blind_s(fs_view(*old(self), old(devs)@), parent_inode, name@, now),
            ),
    {
        let n: u32 = match self.alloc_inode(devs) {
            Ok(n) => n,
            Err(e) => return Err(e),
        };
        let b: u32 = match self.alloc_block(devs) {
            Ok(b) => b,
            Err(e) => return Err(e),
        };
        let mut inode = Inode::new_dir();
        inode.mtime = now;
        inode.direct[0] = b;
        inode.size = 128;
        assert(inode@ =~= dir_inode(b, now));
        let block = new_dir_block(n, parent_inode);
        match self.write_block(devs, b as u64, &block) {
            Ok(_) => {},
            Err(e) => return Err(e),
        }
        match self.write_inode(devs, n, &inode) {
            Ok(_) => {},
            Err(e) => return Err(e),
        }
        match self.dir_add_entry(devs, parent_inode, name, n, now) {
            Ok(_) => Ok(n),
            Err(e) => {
                self.free_block(devs, b);
                self.free_inode(devs, n);
                Err(e)
            },
        }
    }

    /// Frees the blocks of an inode and the inode itself.
    fn discard_inode<D: BlockDevice>(
        &mut self,
        devs: &mut BlockRegistry<D>,
        inode_num: u32,
        inode: &mut Inode,
    ) -> (r: Result<(), FsError>)
        requires
            fs_ok(*old(self), old(devs)@),
        ensures
            fs_frame(*old(self), old(devs)@, *final(self), final(devs)@),
            did(
                old(devs)@[old(self).dev_idx as int].reliable(),
                r,
                fs_view(*final(self), final(devs)@),
                discard_inode_s(fs_view(*old(self), old(devs)@), inode_num, old(inode)@),
            ),
    {
        match self.free_inode_blocks(devs, inode) {
            Ok(_) => {},
            Err(e) => return Err(e),
        }
        inode.inode_type = 0;
        inode.size = 0;
        match self.write_inode(devs, inode_num, inode) {
            Ok(_) => {},
            Err(e) => return Err(e),
        }
        self.free_inode(devs, inode_num);
        Ok(())
    }

    /// Unlinks (deletes) a file from a directory.
    pub fn unlink<D: BlockDevice>(
        &mut self,
        devs: &mut BlockRegistry<D>,
        dir_inode: u32,
        name: &str,
        now: u32,
    ) -> (r: Result<(), FsError>)
        requires
            fs_ok(*old(self), old(devs)@),
        ensures
            fs_frame(*old(self), old(devs)@, *final(self), final(devs)@),
            unlinked(
                old(devs)@[old(self).dev_idx as int].reliable(),
                r,
                fs_view(*final(self), final(devs)@),
                unlink_s(fs_view(*old(self), old(devs)@), dir_inode, name@, now),
            ),
    {
        if str_eq(name, ".") || str_eq(name, "..") {
            return Err(FsError::InvalidOperation);
        }
        let target: u32 = match self.dir_remove_entry(devs, dir_inode, name) {
            Ok(n) => n,
            Err(e) => return Err(e),
        };
        let mut inode = match self.read_inode(devs, target) {
            Ok(i) => i,
            Err(e) => return Err(e),
        };
        if !inode.is_file() {
            let _ = self.dir_add_entry(devs, dir_inode, name, target, now);
            return Err(FsError::NotFile);
        }
        self.discard_inode(devs, target, &mut inode)
    }

    /// Removes an empty directory.
    pub fn rmdir<D: BlockDevice>(
        &mut self,
        devs: &mut BlockRegistry<D>,
        parent_inode: u32,
        name: &str,
    ) -> (r: Result<(), FsError>)
        requires
            fs_ok(*old(self), old(devs)@),
        ensures
            fs_frame(*old(self), old(devs)@, *final(self), final(devs)@),
            did(
                old(devs)@[old(self).dev_idx as int].reliable(),
                r,
                fs_view(*final(self), final(devs)@),
                rmdir_s(fs_view(*old(self), old(devs)@), parent_inode, name@),
            ),
    {
        if str_eq(name, ".") || str_eq(name, "..") {
            return Err(FsError::InvalidOperation);
        }
        let target: u32 = match self.dir_lookup(devs, parent_inode, name) {
            Ok(n) => n,
            Err(e) => return Err(e),
        };
        let mut inode = match self.open_dir(devs, target) {
            Ok(i) => i,
            Err(e) => return Err(e),
        };
        let entries = match self.dir_list(devs, target) {
            Ok(v) => v,
            Err(e) => return Err(e),
        };
        if entries.len() > 2 {
            return Err(FsError::DirectoryNotEmpty);
        }
        match self.dir_remove_entry(devs, parent_inode, name) {
            Ok(_) => {},
            Err(e) => return Err(e),
        }
        self.discard_inode(devs, target, &mut inode)
    }
}

/// The first block of a new directory.
pub(crate) fn new_dir_block(own: u32, parent: u32) -> (block: Vec<u8>)
    ensures
        block@ == dir_block(own, parent),
        block@.len() == 512,
{
    let mut block = zeroed(512);
    let dot = DirEntry::new(own, ".").to_bytes();
    let dotdot = DirEntry::new(parent, "..").to_bytes();
    splice(&mut block, 0, dot.as_slice());
    splice(&mut block, 64, dotdot.as_slice());
    block
}

} // verus!
