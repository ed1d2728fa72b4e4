//! The shell's commands on block devices and on the mounted file system.

use crate::bytes::{patch, splice, zeroed, zeros};
use crate::driver::ahci::SECTOR_SIZE;
use crate::driver::block::{
    device_count, device_ok, find_by_name, only_device_changed, overwrite, read_one, write_error,
    BlockDevice, BlockError, BlockRegistry,
};
use crate::fs::directory::listing;
use crate::fs::metadata::{block_error_text, debug_text, error_text, mode_text, FileStat};
use crate::fs::nextfs::{device_failed, FsError, FsView};
use crate::fs::vfs::nx::{
    self, changed, changed_or_blind, changed_or_lost, chmod_s_path, chown_s_path, format_s,
    list_s_path, make_dir_blind_s, make_dir_s, on_devices, on_mounted, read_s_path, rmdir_s_path,
    stat_s_path, truncate_s_path, unlink_s_path, write_path_blind_s, write_path_s,
};
use crate::fs::vfs::{
    frame, lemma_frame_devices, mount, unmount, FileSystem, FilesView,
};
use crate::fs::volume::mount_s;
use crate::shell::parse::{cut, cut_at_space, number_s, parse_number};
use crate::shell::report::{dump_s, hex_dump, names_s, names_text};
use crate::text::{
    contents, decimal, lossy, lossy_text, numeral, push_decimal, push_numeral, split_words, words,
};
use vstd::prelude::*;
use vstd::string::{StrSliceExecFns, StringExecFns};
use vstd::utf8::encode_utf8;

verus! {

/// A device with blocks of one size, whose capacity can be told.
pub open spec fn device_fine<D: BlockDevice>(d: &D) -> bool {
    device_ok(d) && d.unit() * d.blocks().len() <= u64::MAX
}

/// All devices are in order.
pub open spec fn devices_fine<D: BlockDevice>(devs: Seq<D>) -> bool {
    forall|i: int| 0 <= i < devs.len() ==> device_fine(&#[trigger] devs[i])
}

/// The first device from number `i` on that bears a name.
pub open spec fn named_from<D: BlockDevice>(devs: Seq<D>, name: Seq<char>, i: int) -> Option<int>
    decreases devs.len() - i,
{
    if i < 0 || i >= devs.len() {
        None
    } else if devs[i].label() == name {
        Some(i)
    } else {
        named_from(devs, name, i + 1)
    }
}

/// The device that an argument means: its number or its name.
pub open spec fn resolve_s<D: BlockDevice>(devs: Seq<D>, arg: Seq<char>) -> Option<int> {
    match number_s(arg, 10, usize::MAX as nat) {
        Some(i) if i < devs.len() => Some(i as int),
        _ => named_from(devs, arg, 0),
    }
}

proof fn lemma_named<D: BlockDevice>(devs: Seq<D>, name: Seq<char>, i: int, r: Option<usize>)
    requires
        0 <= i <= devs.len(),
        match r {
            Some(k) => i <= k < devs.len() && devs[k as int].label() == name,
            None => true,
        },
        forall|j: int|
            i <= j < (match r {
                Some(k) => k as int,
                None => devs.len() as int,
            }) ==> (#[trigger] devs[j]).label() != name,
    ensures
        match r {
            Some(k) => named_from(devs, name, i) == Some(k as int),
            None => named_from(devs, name, i) is None,
        },
    decreases devs.len() - i,
{
    if i < devs.len() && devs[i].label() != name {
        lemma_named(devs, name, i + 1, r);
    }
}

/// Resolves a block device argument that is either a number or a name.
pub fn resolve_blkdev<D: BlockDevice>(devs: &BlockRegistry<D>, arg: &str) -> (r: Option<usize>)
    ensures
        match r {
            Some(i) => i < devs@.len() && resolve_s(devs@, arg@) == Some(i as int),
            None => resolve_s(devs@, arg@) is None,
        },
{
    if let Some(i) = parse_number(arg, 10, usize::MAX as u64) {
        if i < device_count(devs) as u64 {
            return Some(i as usize);
        }
    }
    let r = find_by_name(devs, arg);
    proof {
        lemma_named(devs@, arg@, 0, r);
    }
    r
}

/// Appends texts and ends the line.
fn sentence(a: &str, b: &str, c: &str) -> (r: String)
    ensures
        r@ == a@ + b@ + c@ + "\n"@,
{
    let mut out = a.to_owned();
    out.append(b);
    out.append(c);
    out.append("\n");
    out
}

/// The answer to a device that is not there.
pub open spec fn unknown_device(arg: Seq<char>) -> Seq<char> {
    "unknown device '"@ + arg + "'"@ + "\n"@
}

/// A block number; the largest number stands for none.
pub open spec fn block_number(s: Seq<char>) -> Option<nat> {
    match number_s(s, 10, u64::MAX as nat) {
        Some(n) if n != u64::MAX => Some(n),
        _ => None,
    }
}

/// Reads a block number.
fn parse_block(s: &str) -> (r: Option<u64>)
    ensures
        match r {
            Some(n) => block_number(s@) == Some(n as nat),
            None => block_number(s@) is None,
        },
{
    match parse_number(s, 10, u64::MAX) {
        Some(n) => if n == u64::MAX {
            None
        } else {
            Some(n)
        },
        None => None,
    }
}

/// The bytes of a block that a dump shows.
pub open spec fn first_part(block: Seq<u8>) -> Seq<u8> {
    if block.len() <= 256 {
        block
    } else {
        block.take(256)
    }
}

/// The dump of a block.
pub open spec fn block_dump(dev: Seq<char>, lba: nat, block: Seq<u8>) -> Seq<char> {
    "device "@ + dev + " LBA "@ + decimal(lba) + " (first 256 of "@ + decimal(block.len())
        + " bytes):\n"@ + dump_s(first_part(block))
}

/// The words for a device that failed to transfer a block.
pub open spec fn block_failed(head: Seq<char>, text: Seq<char>) -> bool {
    exists|e: BlockError|
        e is DeviceError && text == head + #[trigger] block_error_text(e) + ""@ + "\n"@
}

/// What `blkread` prints.
pub open spec fn blkread_s<D: BlockDevice>(devs: Seq<D>, rest: Seq<char>, text: Seq<char>) -> bool {
    let w = words(rest);
    if w.len() < 2 {
        text == "usage: blkread <dev> <lba>\n"@
    } else {
        match (resolve_s(devs, w[0]), block_number(w[1])) {
            (None, _) => text == unknown_device(w[0]),
            (_, None) => text == "invalid LBA '"@ + w[1] + "'"@ + "\n"@,
            (Some(i), Some(lba)) => if lba >= devs[i].blocks().len() {
                text == "read error: "@ + block_error_text(BlockError::OutOfRange) + ""@ + "\n"@
            } else {
                ||| text == block_dump(w[0], lba, devs[i].blocks()[lba as int])
                ||| !devs[i].reliable() && block_failed("read error: "@, text)
            },
        }
    }
}

/// Prints a block of a device.
pub fn blkread<D: BlockDevice>(files: &FileSystem<D>, rest: &str) -> (r: String)
    requires
        devices_fine(files.devices()),
    ensures
        blkread_s(files.devices(), rest@, r@),
{
    let w = split_words(rest);
    if w.len() < 2 {
        return "usage: blkread <dev> <lba>\n".to_owned();
    }
    assert(words(rest@)[0] == w@[0]@ && words(rest@)[1] == w@[1]@);
    let devs = nx::registry(files);
    let dev = w[0].as_str();
    let i: usize = match resolve_blkdev(devs, dev) {
        Some(i) => i,
        None => return sentence("unknown device '", dev, "'"),
    };
    let lba: u64 = match parse_block(w[1].as_str()) {
        Some(n) => n,
        None => return sentence("invalid LBA '", w[1].as_str(), "'"),
    };
    assert(device_fine(&devs@[i as int]));
    match read_one(devs, i, lba) {
        Ok(buf) => {
            let mut out = "device ".to_owned();
            out.append(dev);
            out.append(" LBA ");
            push_decimal(&mut out, lba);
            out.append(" (first 256 of ");
            push_decimal(&mut out, buf.len() as u64);
            out.append(" bytes):\n");
            let dump = if buf.len() <= 256 {
                hex_dump(buf.as_slice())
            } else {
                let part = crate::bytes::copy_range(buf.as_slice(), 0, 256);
                assert(part@ =~= buf@.take(256));
                hex_dump(part.as_slice())
            };
            out.append(dump.as_str());
            out
        },
        Err(e) => {
            let m = e.message();
            sentence("read error: ", m.as_str(), "")
        },
    }
}

/// The first bytes of a text, in a sector of zeros.
pub open spec fn text_sector(t: Seq<char>) -> Seq<u8> {
    let b = encode_utf8(t);
    patch(
        zeros(SECTOR_SIZE as nat),
        0,
        if b.len() <= SECTOR_SIZE {
            b
        } else {
            b.take(SECTOR_SIZE as int)
        },
    )
}

/// How many bytes of a text fit into a sector.
pub open spec fn fitting(t: Seq<char>) -> nat {
    if encode_utf8(t).len() <= SECTOR_SIZE {
        encode_utf8(t).len()
    } else {
        SECTOR_SIZE as nat
    }
}

/// The devices, and what is mounted, but for one device.
pub open spec fn device_rewritten<D: BlockDevice>(f0: FileSystem<D>, f1: FileSystem<D>, i: int) -> bool {
    &&& f1.wf()
    &&& f1.mounted_on() == f0.mounted_on()
    &&& f1@ == on_devices(f0@, f0.mounted_on(), f1.devices())
    &&& only_device_changed(f0.devices(), f1.devices(), i)
    &&& devices_fine(f1.devices())
}

/// What `blkwrite` does and prints.
pub open spec fn blkwrite_s<D: BlockDevice>(
    f0: FileSystem<D>,
    rest: Seq<char>,
    f1: FileSystem<D>,
    text: Seq<char>,
) -> bool {
    let (dev, more) = cut(rest);
    if more is None || cut(more->Some_0).1 is None {
        f1 == f0 && text == "usage: blkwrite <dev> <lba> <string>\n"@
    } else {
        let (lba_text, data) = (cut(more->Some_0).0, cut(more->Some_0).1->Some_0);
        match (resolve_s(f0.devices(), dev), block_number(lba_text)) {
            (None, _) => f1 == f0 && text == unknown_device(dev),
            (_, None) => f1 == f0 && text == "invalid LBA '"@ + lba_text + "'"@ + "\n"@,
            (Some(i), Some(lba)) => {
                let d = f0.devices()[i];
                let after = f1.devices()[i].blocks();
                &&& device_rewritten(f0, f1, i)
                &&& match write_error(d, lba as u64, SECTOR_SIZE as nat) {
                    Some(e) => after == d.blocks() && text == "write error: "@ + block_error_text(e)
                        + ""@ + "\n"@,
                    None => {
                        ||| {
                            &&& after == overwrite(
                                d.blocks(),
                                d.unit(),
                                lba as int,
                                SECTOR_SIZE as int / d.unit() as int,
                                text_sector(data),
                            )
                            &&& text == "wrote "@ + decimal(fitting(data)) + " bytes into "@ + dev
                                + " LBA "@ + decimal(lba) + " (padded to "@ + decimal(
                                SECTOR_SIZE as nat,
                            ) + " byte block)\n"@
                        }
                        ||| !d.reliable() && block_failed("write error: "@, text)
                    },
                }
            },
        }
    }
}

/// Writes a text into a block of a device.
pub fn blkwrite<D: BlockDevice>(files: &mut FileSystem<D>, rest: &str) -> (r: String)
    requires
        old(files).wf(),
        devices_fine(old(files).devices()),
    ensures
        blkwrite_s(*old(files), rest@, *final(files), r@),
{
    let (dev, more) = cut_at_space(rest);
    let more = match more {
        Some(m) => m,
        None => return "usage: blkwrite <dev> <lba> <string>\n".to_owned(),
    };
    let (lba_text, data) = cut_at_space(more);
    let data = match data {
        Some(t) => t,
        None => return "usage: blkwrite <dev> <lba> <string>\n".to_owned(),
    };
    let i: usize = match resolve_blkdev(nx::registry(files), dev) {
        Some(i) => i,
        None => return sentence("unknown device '", dev, "'"),
    };
    let lba: u64 = match parse_block(lba_text) {
        Some(n) => n,
        None => return sentence("invalid LBA '", lba_text, "'"),
    };
    assert(device_fine(&files.devices()[i as int]));
    let bytes = data.as_bytes();
    let n: usize = if bytes.len() <= SECTOR_SIZE {
        bytes.len()
    } else {
        SECTOR_SIZE
    };
    let mut block = zeroed(SECTOR_SIZE);
    let part = crate::bytes::copy_range(bytes, 0, n);
    splice(&mut block, 0, part.as_slice());
    proof {
        let b = encode_utf8(data@);
        assert(part@ =~= (if b.len() <= SECTOR_SIZE {
            b
        } else {
            b.take(SECTOR_SIZE as int)
        }));
    }
    let r = nx::write_blocks(files, i, lba, block.as_slice());
    proof {
        lemma_still_fine(old(files).devices(), files.devices(), i as int);
    }
    match r {
        Ok(_) => {
            let mut out = "wrote ".to_owned();
            push_decimal(&mut out, n as u64);
            out.append(" bytes into ");
            out.append(dev);
            out.append(" LBA ");
            push_decimal(&mut out, lba);
            out.append(" (padded to ");
            push_decimal(&mut out, SECTOR_SIZE as u64);
            out.append(" byte block)\n");
            out
        },
        Err(e) => {
            let m = e.message();
            sentence("write error: ", m.as_str(), "")
        },
    }
}

/// Devices stay in order when one is rewritten.
proof fn lemma_still_fine<D: BlockDevice>(d0: Seq<D>, d1: Seq<D>, i: int)
    requires
        devices_fine(d0),
        0 <= i < d0.len(),
        only_device_changed(d0, d1, i),
        device_ok(&d1[i]),
    ensures
        devices_fine(d1),
{
    assert forall|j: int| 0 <= j < d1.len() implies device_fine(&#[trigger] d1[j]) by {
        assert(device_fine(&d0[j]));
    }
}

/// Devices stay in order when the file system changes.
pub proof fn lemma_frame_fine<D: BlockDevice>(f0: FileSystem<D>, f1: FileSystem<D>)
    requires
        frame(f0, f1),
        devices_fine(f0.devices()),
        f0.wf(),
    ensures
        devices_fine(f1.devices()),
{
    assert forall|i: int| 0 <= i < f0.devices().len() implies device_ok(
        &#[trigger] f0.devices()[i],
    ) by {
        assert(device_fine(&f0.devices()[i]));
    }
    lemma_frame_devices(f0, f1);
    assert forall|j: int| 0 <= j < f1.devices().len() implies device_fine(
        &#[trigger] f1.devices()[j],
    ) by {
        assert(device_fine(&f0.devices()[j]));
        assert(device_ok(&f1.devices()[j]));
    }
}

/// The words for a device that failed while a file system was made or mounted on it.
pub open spec fn volume_failed(head: Seq<char>, what: Seq<char>, text: Seq<char>) -> bool {
    exists|e: FsError|
        device_failed(e) && text == head + (what + #[trigger] error_text(e) + ""@ + "\n"@)
}

/// What `mkfs.nextfs` does and prints.
pub open spec fn mkfs_s<D: BlockDevice>(
    f0: FileSystem<D>,
    rest: Seq<char>,
    f1: FileSystem<D>,
    text: Seq<char>,
) -> bool {
    if rest.len() == 0 {
        f1 == f0 && text == "usage: mkfs.nextfs <dev>\n"@
    } else {
        match resolve_s(f0.devices(), rest) {
            None => f1 == f0 && text == unknown_device(rest),
            Some(i) => {
                let d = f0.devices()[i];
                let head = "Formatting "@ + rest + " as NextFS..."@ + "\n"@;
                let after = f1.devices()[i].blocks();
                &&& device_rewritten(f0, f1, i)
                &&& match format_s(d) {
                    Err(e) => after == d.blocks() && text == head + ("Format failed: "@ + error_text(e)
                        + ""@ + "\n"@),
                    Ok(disk) => {
                        ||| after == disk && text == head + "Format complete\n"@
                        ||| !d.reliable() && volume_failed(head, "Format failed: "@, text)
                    },
                }
            },
        }
    }
}

/// Formats a device.
pub fn mkfs<D: BlockDevice>(files: &mut FileSystem<D>, rest: &str) -> (r: String)
    requires
        old(files).wf(),
        devices_fine(old(files).devices()),
    ensures
        mkfs_s(*old(files), rest@, *final(files), r@),
{
    if rest.unicode_len() == 0 {
        return "usage: mkfs.nextfs <dev>\n".to_owned();
    }
    let i: usize = match resolve_blkdev(nx::registry(files), rest) {
        Some(i) => i,
        None => return sentence("unknown device '", rest, "'"),
    };
    assert(device_fine(&files.devices()[i as int]));
    let mut out = sentence("Formatting ", rest, " as NextFS...");
    let r = nx::format(files, i);
    proof {
        lemma_still_fine(old(files).devices(), files.devices(), i as int);
    }
    match r {
        Ok(_) => {
            out.append("Format complete\n");
        },
        Err(e) => {
            let m = e.message();
            let l = sentence("Format failed: ", m.as_str(), "");
            out.append(l.as_str());
        },
    }
    out
}

/// Mounting a device. NextFS needs blocks of 512 bytes.
pub open spec fn mount_device_s<D: BlockDevice>(d: D) -> Result<FsView, FsError> {
    if d.unit() != 512 {
        Err(FsError::UnsupportedBlockSize)
    } else {
        mount_s(d.blocks())
    }
}

/// What `mount` does and prints.
pub open spec fn mount_cmd_s<D: BlockDevice>(
    f0: FileSystem<D>,
    rest: Seq<char>,
    f1: FileSystem<D>,
    text: Seq<char>,
) -> bool {
    &&& f1.wf()
    &&& f1.devices() == f0.devices()
    &&& if rest.len() == 0 {
        f1@ == f0@ && text == "usage: mount <dev>\n"@
    } else {
        match resolve_s(f0.devices(), rest) {
            None => f1@ == f0@ && text == unknown_device(rest),
            Some(i) => {
                let d = f0.devices()[i];
                ||| match mount_device_s(d) {
                    Ok(v) => f1@ == (FilesView { fs: Some(v), ..f0@ }) && f1.mounted_on() == Some(
                        i as usize,
                    ) && text == "Mounted "@ + rest + " as NextFS"@ + "\n"@,
                    Err(e) => f1@ == f0@ && text == "Mount failed: "@ + error_text(e) + ""@ + "\n"@,
                }
                ||| !d.reliable() && f1@ == f0@ && volume_failed(
                    Seq::empty(),
                    "Mount failed: "@,
                    text,
                )
            },
        }
    }
}

/// Mounts a device.
pub fn mount_cmd<D: BlockDevice>(files: &mut FileSystem<D>, rest: &str) -> (r: String)
    requires
        old(files).wf(),
        devices_fine(old(files).devices()),
    ensures
        mount_cmd_s(*old(files), rest@, *final(files), r@),
{
    if rest.unicode_len() == 0 {
        return "usage: mount <dev>\n".to_owned();
    }
    let i: usize = match resolve_blkdev(nx::registry(files), rest) {
        Some(i) => i,
        None => return sentence("unknown device '", rest, "'"),
    };
    assert(device_fine(&files.devices()[i as int]));
    let infos = crate::driver::block::list(nx::registry(files));
    assert(crate::driver::block::describes(infos@[i as int], i as int, files.devices()[i as int]));
    let r = if infos[i].block_size != 512 {
        Err(FsError::UnsupportedBlockSize)
    } else {
        mount(files, i)
    };
    match r {
        Ok(_) => sentence("Mounted ", rest, " as NextFS"),
        Err(e) => {
            let m = e.message();
            sentence("Mount failed: ", m.as_str(), "")
        },
    }
}

/// The words for how a command ended: what it did, or why it did not.
pub open spec fn outcome(
    done: Seq<char>,
    cmd: Seq<char>,
    path: Seq<char>,
    r: Result<(), FsError>,
) -> Seq<char> {
    match r {
        Ok(_) => done,
        Err(e) => failure(cmd, path, error_text(e)),
    }
}

/// The words for a command that failed.
pub open spec fn failure(cmd: Seq<char>, path: Seq<char>, why: Seq<char>) -> Seq<char> {
    cmd + path + ": "@ + why + "\n"@
}

/// The words for a command that failed.
fn failure_text(cmd: &str, path: &str, why: &str) -> (r: String)
    ensures
        r@ == failure(cmd@, path@, why@),
{
    let mut out = cmd.to_owned();
    out.append(path);
    out.append(": ");
    out.append(why);
    out.append("\n");
    out
}

/// A command on the mounted file system, and what it prints of how it ended.
pub open spec fn nx_done<D: BlockDevice>(
    f0: FileSystem<D>,
    f1: FileSystem<D>,
    change: spec_fn(FsView) -> (Result<(), FsError>, FsView),
    done: Seq<char>,
    cmd: Seq<char>,
    path: Seq<char>,
    text: Seq<char>,
) -> bool {
    &&& frame(f0, f1)
    &&& exists|r: Result<(), FsError>|
        {
            &&& text == #[trigger] outcome(done, cmd, path, r)
            &&& changed(f0.reliable(), r, f1@, f0@, on_mounted(f0@, change))
        }
}

/// As [`nx_done`], for a command that makes a file or directory.
pub open spec fn nx_made<D: BlockDevice>(
    f0: FileSystem<D>,
    f1: FileSystem<D>,
    change: spec_fn(FsView) -> (Result<(), FsError>, FsView),
    blind: spec_fn(FsView) -> (Result<(), FsError>, FsView),
    done: Seq<char>,
    cmd: Seq<char>,
    path: Seq<char>,
    text: Seq<char>,
) -> bool {
    &&& frame(f0, f1)
    &&& exists|r: Result<(), FsError>|
        {
            &&& text == #[trigger] outcome(done, cmd, path, r)
            &&& changed_or_blind(
                f0.reliable(),
                r,
                f1@,
                f0@,
                on_mounted(f0@, change),
                on_mounted(f0@, blind),
            )
        }
}

/// The words for how a command ended, with the error under its name.
pub open spec fn named_outcome(
    done: Seq<char>,
    cmd: Seq<char>,
    path: Seq<char>,
    r: Result<(), FsError>,
) -> Seq<char> {
    match r {
        Ok(_) => done,
        Err(e) => failure(cmd, path, debug_text(e)),
    }
}

/// As [`nx_done`], with the error under its name.
pub open spec fn nx_done_named<D: BlockDevice>(
    f0: FileSystem<D>,
    f1: FileSystem<D>,
    change: spec_fn(FsView) -> (Result<(), FsError>, FsView),
    done: Seq<char>,
    cmd: Seq<char>,
    path: Seq<char>,
    text: Seq<char>,
) -> bool {
    &&& frame(f0, f1)
    &&& exists|r: Result<(), FsError>|
        {
            &&& text == #[trigger] named_outcome(done, cmd, path, r)
            &&& changed(f0.reliable(), r, f1@, f0@, on_mounted(f0@, change))
        }
}

/// The device failed, and a command said so.
pub open spec fn command_failed(cmd: Seq<char>, path: Seq<char>, text: Seq<char>) -> bool {
    exists|e: FsError| device_failed(e) && text == failure(cmd, path, #[trigger] error_text(e))
}

/// The words for how a command ended.
pub(crate) fn outcome_text(done: String, cmd: &str, path: &str, r: Result<(), FsError>) -> (t: String)
    ensures
        t@ == outcome(done@, cmd@, path@, r),
{
    match r {
        Ok(_) => done,
        Err(e) => {
            let m = e.message();
            failure_text(cmd, path, m.as_str())
        },
    }
}

/// The words for how a command ended, with the error under its name.
fn named_outcome_text(done: String, cmd: &str, path: &str, r: Result<(), FsError>) -> (t: String)
    ensures
        t@ == named_outcome(done@, cmd@, path@, r),
{
    match r {
        Ok(_) => done,
        Err(e) => {
            let m = e.debug();
            failure_text(cmd, path, m.as_str())
        },
    }
}

/// The directory that a listing is of.
pub open spec fn or_root(rest: Seq<char>) -> Seq<char> {
    if rest.len() == 0 {
        "/"@
    } else {
        rest
    }
}

/// A listing of names.
pub open spec fn listed(names: Seq<Seq<char>>) -> Seq<char> {
    if names.len() == 0 {
        "(empty)\n"@
    } else {
        names_s(names)
    }
}

/// What `nxls` prints.
pub open spec fn nxls_s(fs: Option<FsView>, path: Seq<char>) -> Seq<char> {
    match list_s_path(fs, path) {
        Ok(entries) => listed(entries.map_values(|e: (Seq<char>, u32)| e.0)),
        Err(e) => failure("nxls: "@, path, error_text(e)),
    }
}

/// What `nxls` prints, on a device that may fail.
pub open spec fn nxls_printed<D: BlockDevice>(f: FileSystem<D>, rest: Seq<char>, text: Seq<char>) -> bool {
    ||| text == nxls_s(f@.fs, or_root(rest))
    ||| !f.reliable() && command_failed("nxls: "@, or_root(rest), text)
}

/// Lists a directory.
pub fn nxls<D: BlockDevice>(files: &FileSystem<D>, rest: &str) -> (r: String)
    requires
        files.wf(),
    ensures
        nxls_printed(*files, rest@, r@),
{
    let path = if rest.unicode_len() == 0 {
        "/"
    } else {
        rest
    };
    match nx::list(files, path) {
        Ok(entries) => {
            if entries.len() == 0 {
                return "(empty)\n".to_owned();
            }
            let mut names: Vec<String> = Vec::new();
            let mut i: usize = 0;
            let ghost all = listing(entries@).map_values(|e: (Seq<char>, u32)| e.0);
            while i < entries.len()
                invariant
                    i <= entries@.len(),
                    all == listing(entries@).map_values(|e: (Seq<char>, u32)| e.0),
                    contents(names@) == all.take(i as int),
                decreases entries@.len() - i,
            {
                let ghost before = contents(names@);
                let name = entries[i].0.as_str().to_owned();
                assert(all[i as int] == name@);
                names.push(name);
                assert(contents(names@) =~= before.push(name@));
                i = i + 1;
                assert(contents(names@) =~= all.take(i as int));
            }
            assert(contents(names@) =~= all);
            names_text(&names)
        },
        Err(e) => {
            let m = e.message();
            failure_text("nxls: ", path, m.as_str())
        },
    }
}

/// What `nxcat` prints.
pub open spec fn nxcat_s(fs: Option<FsView>, rest: Seq<char>) -> Seq<char> {
    if rest.len() == 0 {
        "usage: nxcat <path>\n"@
    } else {
        match read_s_path(fs, rest) {
            Ok(data) => lossy(data),
            Err(e) => failure("nxcat: "@, rest, error_text(e)),
        }
    }
}

/// What `nxcat` prints, on a device that may fail.
pub open spec fn nxcat_printed<D: BlockDevice>(f: FileSystem<D>, rest: Seq<char>, text: Seq<char>) -> bool {
    ||| text == nxcat_s(f@.fs, rest)
    ||| rest.len() > 0 && !f.reliable() && command_failed("nxcat: "@, rest, text)
}

/// Prints a file.
pub fn nxcat<D: BlockDevice>(files: &FileSystem<D>, rest: &str) -> (r: String)
    requires
        files.wf(),
    ensures
        nxcat_printed(*files, rest@, r@),
{
    if rest.unicode_len() == 0 {
        return "usage: nxcat <path>\n".to_owned();
    }
    match nx::read_file(files, rest) {
        Ok(data) => lossy_text(data.as_slice()),
        Err(e) => {
            let m = e.message();
            failure_text("nxcat: ", rest, m.as_str())
        },
    }
}

/// What `nxwrite` does and prints.
pub open spec fn nxwrite_s<D: BlockDevice>(
    f0: FileSystem<D>,
    rest: Seq<char>,
    now: u32,
    f1: FileSystem<D>,
    text: Seq<char>,
) -> bool {
    match cut(rest).1 {
        None => f1 == f0 && text == "usage: nxwrite <path> <text>\n"@,
        Some(t) => nx_made(
            f0,
            f1,
            |v: FsView| write_path_s(v, cut(rest).0, encode_utf8(t), now),
            |v: FsView| write_path_blind_s(v, cut(rest).0, encode_utf8(t), now),
            "Wrote "@ + decimal(encode_utf8(t).len()) + " bytes to "@ + cut(rest).0 + "\n"@,
            "nxwrite: "@,
            cut(rest).0,
            text,
        ),
    }
}

/// Writes a text to a file.
pub fn nxwrite<D: BlockDevice>(files: &mut FileSystem<D>, rest: &str, now: u32) -> (r: String)
    requires
        old(files).wf(),
    ensures
        nxwrite_s(*old(files), rest@, now, *final(files), r@),
{
    let (path, t) = cut_at_space(rest);
    let t = match t {
        Some(t) => t,
        None => return "usage: nxwrite <path> <text>\n".to_owned(),
    };
    let bytes = t.as_bytes();
    let r = nx::write_file(files, path, bytes, now);
    let mut done = "Wrote ".to_owned();
    push_decimal(&mut done, bytes.len() as u64);
    done.append(" bytes to ");
    done.append(path);
    done.append("\n");
    outcome_text(done, "nxwrite: ", path, r)
}

/// What `nxmkdir` does and prints.
pub open spec fn nxmkdir_s<D: BlockDevice>(
    f0: FileSystem<D>,
    rest: Seq<char>,
    now: u32,
    f1: FileSystem<D>,
    text: Seq<char>,
) -> bool {
    if rest.len() == 0 {
        f1 == f0 && text == "usage: nxmkdir <path>\n"@
    } else {
        nx_made(
            f0,
            f1,
            |v: FsView| make_dir_s(v, rest, now),
            |v: FsView| make_dir_blind_s(v, rest, now),
            "Created directory "@ + rest + ""@ + "\n"@,
            "nxmkdir: "@,
            rest,
            text,
        )
    }
}

/// Creates a directory.
pub fn nxmkdir<D: BlockDevice>(files: &mut FileSystem<D>, rest: &str, now: u32) -> (r: String)
    requires
        old(files).wf(),
    ensures
        nxmkdir_s(*old(files), rest@, now, *final(files), r@),
{
    if rest.unicode_len() == 0 {
        return "usage: nxmkdir <path>\n".to_owned();
    }
    let r = nx::mkdir(files, rest, now);
    outcome_text(sentence("Created directory ", rest, ""), "nxmkdir: ", rest, r)
}

/// What `nxrm` does and prints.
pub open spec fn nxrm_s<D: BlockDevice>(
    f0: FileSystem<D>,
    rest: Seq<char>,
    now: u32,
    f1: FileSystem<D>,
    text: Seq<char>,
) -> bool {
    if rest.len() == 0 {
        f1 == f0 && text == "usage: nxrm <path>\n"@
    } else {
        &&& frame(f0, f1)
        &&& exists|r: Result<(), FsError>|
            {
                &&& text == #[trigger] named_outcome(
                    "Removed file "@ + rest + ""@ + "\n"@,
                    "nxrm: "@,
                    rest,
                    r,
                )
                &&& changed_or_lost(
                    f0.reliable(),
                    r,
                    f1@,
                    f0@,
                    on_mounted(f0@, |v: FsView| unlink_s_path(v, rest, now)),
                )
            }
    }
}

/// Removes a file.
pub fn nxrm<D: BlockDevice>(files: &mut FileSystem<D>, rest: &str, now: u32) -> (r: String)
    requires
        old(files).wf(),
    ensures
        nxrm_s(*old(files), rest@, now, *final(files), r@),
{
    if rest.unicode_len() == 0 {
        return "usage: nxrm <path>\n".to_owned();
    }
    let r = nx::unlink(files, rest, now);
    named_outcome_text(sentence("Removed file ", rest, ""), "nxrm: ", rest, r)
}

/// What `nxrmdir` does and prints.
pub open spec fn nxrmdir_s<D: BlockDevice>(
    f0: FileSystem<D>,
    rest: Seq<char>,
    f1: FileSystem<D>,
    text: Seq<char>,
) -> bool {
    if rest.len() == 0 {
        f1 == f0 && text == "usage: nxrmdir <path>\n"@
    } else {
        nx_done_named(
            f0,
            f1,
            |v: FsView| rmdir_s_path(v, rest),
            "Removed directory "@ + rest + ""@ + "\n"@,
            "nxrmdir: "@,
            rest,
            text,
        )
    }
}

/// Removes a directory.
pub fn nxrmdir<D: BlockDevice>(files: &mut FileSystem<D>, rest: &str) -> (r: String)
    requires
        old(files).wf(),
    ensures
        nxrmdir_s(*old(files), rest@, *final(files), r@),
{
    if rest.unicode_len() == 0 {
        return "usage: nxrmdir <path>\n".to_owned();
    }
    let r = nx::rmdir(files, rest);
    named_outcome_text(sentence("Removed directory ", rest, ""), "nxrmdir: ", rest, r)
}

/// What `nxtruncate` does and prints.
pub open spec fn nxtruncate_s<D: BlockDevice>(
    f0: FileSystem<D>,
    rest: Seq<char>,
    f1: FileSystem<D>,
    text: Seq<char>,
) -> bool {
    let path = cut(rest).0;
    match cut(rest).1 {
        None => f1 == f0 && text == "usage: nxtruncate <path> <size>\n"@,
        Some(t) => match number_s(t, 10, u64::MAX as nat) {
            None => f1 == f0 && text == "nxtruncate: invalid size: "@ + t + ""@ + "\n"@,
            Some(size) => nx_done_named(
                f0,
                f1,
                |v: FsView| truncate_s_path(v, path, size as u64),
                "Truncated "@ + path + " to "@ + decimal(size) + " bytes\n"@,
                "nxtruncate: "@,
                path,
                text,
            ),
        },
    }
}

/// Changes the length of a file.
pub fn nxtruncate<D: BlockDevice>(files: &mut FileSystem<D>, rest: &str) -> (r: String)
    requires
        old(files).wf(),
    ensures
        nxtruncate_s(*old(files), rest@, *final(files), r@),
{
    let (path, t) = cut_at_space(rest);
    let t = match t {
        Some(t) => t,
        None => return "usage: nxtruncate <path> <size>\n".to_owned(),
    };
    let size: u64 = match parse_number(t, 10, u64::MAX) {
        Some(n) => n,
        None => return sentence("nxtruncate: invalid size: ", t, ""),
    };
    let r = nx::truncate(files, path, size);
    let mut done = "Truncated ".to_owned();
    done.append(path);
    done.append(" to ");
    push_decimal(&mut done, size);
    done.append(" bytes\n");
    named_outcome_text(done, "nxtruncate: ", path, r)
}

/// The metadata of a path, as `nxstat` prints it.
pub open spec fn stat_lines(path: Seq<char>, st: FileStat) -> Seq<char> {
    "  path:  "@ + path + "\n  type:  "@ + (if st.inode_type == 2 {
        "directory"@
    } else {
        "file"@
    }) + " (inode "@ + decimal(st.inode as nat) + ")\n  mode:  "@ + mode_text(
        st.inode_type == 2,
        st.mode,
    ).map_values(|b: u8| b as char) + " ("@ + numeral(st.mode as nat, 8) + ")\n  owner: uid="@
        + decimal(st.uid as nat) + " gid="@ + decimal(st.gid as nat) + "\n  size:  "@ + decimal(
        st.size as nat,
    ) + " bytes\n  mtime: "@ + decimal(st.mtime as nat) + " ticks\n"@
}

/// What `nxstat` prints.
pub open spec fn nxstat_s(fs: Option<FsView>, rest: Seq<char>) -> Seq<char> {
    if rest.len() == 0 {
        "usage: nxstat <path>\n"@
    } else {
        match stat_s_path(fs, rest) {
            Ok(st) => stat_lines(rest, st),
            Err(e) => failure("nxstat: "@, rest, error_text(e)),
        }
    }
}

/// What `nxstat` prints, on a device that may fail.
pub open spec fn nxstat_printed<D: BlockDevice>(f: FileSystem<D>, rest: Seq<char>, text: Seq<char>) -> bool {
    ||| text == nxstat_s(f@.fs, rest)
    ||| rest.len() > 0 && !f.reliable() && command_failed("nxstat: "@, rest, text)
}

/// Prints the metadata of a path.
pub fn nxstat<D: BlockDevice>(files: &FileSystem<D>, rest: &str) -> (r: String)
    requires
        files.wf(),
    ensures
        nxstat_printed(*files, rest@, r@),
{
    if rest.unicode_len() == 0 {
        return "usage: nxstat <path>\n".to_owned();
    }
    match nx::stat(files, rest) {
        Ok(st) => {
            let mut out = "  path:  ".to_owned();
            out.append(rest);
            out.append("\n  type:  ");
            out.append(
                if st.is_dir() {
                    "directory"
                } else {
                    "file"
                },
            );
            out.append(" (inode ");
            push_decimal(&mut out, st.inode as u64);
            out.append(")\n  mode:  ");
            let letters = st.mode_string();
            let ghost before = out@;
            let ghost all = letters@.map_values(|b: u8| b as char);
            let mut i: usize = 0;
            assert(before + all.take(0) =~= before);
            while i < 10
                invariant
                    i <= 10,
                    all == letters@.map_values(|b: u8| b as char),
                    out@ == before + all.take(i as int),
                decreases 10 - i,
            {
                out.push(letters[i] as char);
                i = i + 1;
                assert(out@ =~= before + all.take(i as int));
            }
            assert(all.take(10) =~= all);
            out.append(" (");
            push_numeral(&mut out, st.mode as u64, 8);
            out.append(")\n  owner: uid=");
            push_decimal(&mut out, st.uid as u64);
            out.append(" gid=");
            push_decimal(&mut out, st.gid as u64);
            out.append("\n  size:  ");
            push_decimal(&mut out, st.size);
            out.append(" bytes\n  mtime: ");
            push_decimal(&mut out, st.mtime as u64);
            out.append(" ticks\n");
            out
        },
        Err(e) => {
            let m = e.message();
            failure_text("nxstat: ", rest, m.as_str())
        },
    }
}

/// What `nxchmod` does and prints.
pub open spec fn nxchmod_s<D: BlockDevice>(
    f0: FileSystem<D>,
    rest: Seq<char>,
    now: u32,
    f1: FileSystem<D>,
    text: Seq<char>,
) -> bool {
    let (mode_word, path) = cut(rest);
    match path {
        None => f1 == f0 && text == "usage: nxchmod <octal-mode> <path>\n"@,
        Some(path) => match number_s(mode_word, 8, 0xffff) {
            None => f1 == f0 && text == "nxchmod: invalid octal mode: "@ + mode_word + ""@ + "\n"@,
            Some(mode) => nx_done(
                f0,
                f1,
                |v: FsView| chmod_s_path(v, path, mode as u16, now),
                "Mode of "@ + path + " set to "@ + numeral((mode as u16 & 0o777) as nat, 8)
                    + "\n"@,
                "nxchmod: "@,
                path,
                text,
            ),
        },
    }
}

/// Changes permission bits.
pub fn nxchmod<D: BlockDevice>(files: &mut FileSystem<D>, rest: &str, now: u32) -> (r: String)
    requires
        old(files).wf(),
    ensures
        nxchmod_s(*old(files), rest@, now, *final(files), r@),
{
    let (mode_word, path) = cut_at_space(rest);
    let path = match path {
        Some(p) => p,
        None => return "usage: nxchmod <octal-mode> <path>\n".to_owned(),
    };
    let mode: u16 = match parse_number(mode_word, 8, 0xffff) {
        Some(n) => n as u16,
        None => return sentence("nxchmod: invalid octal mode: ", mode_word, ""),
    };
    let r = nx::chmod(files, path, mode, now);
    let mut done = "Mode of ".to_owned();
    done.append(path);
    done.append(" set to ");
    push_numeral(&mut done, (mode & 0o777) as u64, 8);
    done.append("\n");
    outcome_text(done, "nxchmod: ", path, r)
}

/// What `nxchown` does and prints.
pub open spec fn nxchown_s<D: BlockDevice>(
    f0: FileSystem<D>,
    rest: Seq<char>,
    now: u32,
    f1: FileSystem<D>,
    text: Seq<char>,
) -> bool {
    let w = words(rest);
    if w.len() < 3 {
        f1 == f0 && text == "usage: nxchown <uid> <gid> <path>\n"@
    } else {
        match (number_s(w[0], 10, 0xffff), number_s(w[1], 10, 0xffff)) {
            (Some(uid), Some(gid)) => nx_done(
                f0,
                f1,
                |v: FsView| chown_s_path(v, w[2], uid as u16, gid as u16, now),
                "Owner of "@ + w[2] + " set to uid="@ + decimal(uid) + " gid="@ + decimal(gid)
                    + "\n"@,
                "nxchown: "@,
                w[2],
                text,
            ),
            _ => f1 == f0 && text == "nxchown: invalid uid/gid\n"@,
        }
    }
}

/// Changes owner and group.
pub fn nxchown<D: BlockDevice>(files: &mut FileSystem<D>, rest: &str, now: u32) -> (r: String)
    requires
        old(files).wf(),
    ensures
        nxchown_s(*old(files), rest@, now, *final(files), r@),
{
    let w = split_words(rest);
    if w.len() < 3 {
        return "usage: nxchown <uid> <gid> <path>\n".to_owned();
    }
    assert(words(rest@)[0] == w@[0]@ && words(rest@)[1] == w@[1]@ && words(rest@)[2] == w@[2]@);
    let uid = parse_number(w[0].as_str(), 10, 0xffff);
    let gid = parse_number(w[1].as_str(), 10, 0xffff);
    match (uid, gid) {
        (Some(uid), Some(gid)) => {
            let path = w[2].as_str();
            let r = nx::chown(files, path, uid as u16, gid as u16, now);
            let mut done = "Owner of ".to_owned();
            done.append(path);
            done.append(" set to uid=");
            push_decimal(&mut done, uid);
            done.append(" gid=");
            push_decimal(&mut done, gid);
            done.append("\n");
            outcome_text(done, "nxchown: ", path, r)
        },
        _ => "nxchown: invalid uid/gid\n".to_owned(),
    }
}

/// Unmounts the file system.
pub fn unmount_cmd<D: BlockDevice>(files: &mut FileSystem<D>) -> (r: String)
    requires
        old(files).wf(),
    ensures
        final(files).wf(),
        final(files).devices() == old(files).devices(),
        final(files).mounted_on() is None,
        final(files)@ == (FilesView { fs: None, ..old(files)@ }),
        r@ == "Filesystem unmounted\n"@,
{
    unmount(files);
    "Filesystem unmounted\n".to_owned()
}

} // verus!
