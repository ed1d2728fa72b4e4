//! Running commands: the shell's dispatcher, pipelines and redirection.

use crate::bytes::str_eq;
use crate::driver::ahci::{AhciPort, DeviceType};
use crate::driver::ahci_cmd::DriveInfo;
use crate::driver::block::BlockDevice;
use crate::fs::vfs::nx::{self};
use crate::fs::vfs::{lemma_frame, FileSystem, FilesView};
use crate::kernel::{Kernel, HEAP_SIZE, HEAP_START};
use crate::names::ordered;
use crate::services::registry::Registry;
use crate::shell::disk::{
    self, blkread_s, blkwrite_s, devices_fine, lemma_frame_fine, mkfs_s, mount_cmd_s,
    nxcat_printed, nxchmod_s, nxchown_s, nxls_printed, nxmkdir_s, nxrm_s, nxrmdir_s, nxstat_printed,
    nxtruncate_s, nxwrite_s,
    or_root,
};
use crate::shell::local::{
    self, cat_s, ls_s, mkdir_s, nodes_of, rm_s, server_ok, stat_cmd_s, touch_s, write_cmd_s,
};
use crate::shell::parse::{number_s, parse_number};
use crate::shell::report::{
    self, caps_s, colors_s, count_s, devices_s, dma_s, drive_s, grep_s, history_s, irqs_s, pci_s,
    ports_s, query_s, services_s, tasks_s, HELP,
};
use crate::text::{
    contents, decimal, flat, hex, lemma_flat_ends, lemma_flat_step, push_decimal, skip_word, trim,
    trimmed, word_len,
};
use vstd::prelude::*;
use vstd::string::{StrSliceExecFns, StringExecFns};

verus! {

/// The shell's commands.
#[derive(Debug, Clone, Copy, PartialEq, Eq, Structural)]
pub enum Verb {
    Help,
    History,
    Tasks,
    Pid,
    Ticks,
    Uptime,
    Echo,
    Count,
    Grep,
    Ipc,
    Caps,
    Heap,
    Irqs,
    Dma,
    Pci,
    Ahci,
    Identify,
    Devices,
    BlkRead,
    BlkWrite,
    Mkfs,
    Mount,
    Unmount,
    NxLs,
    NxCat,
    NxWrite,
    NxMkdir,
    NxRm,
    NxRmdir,
    NxTruncate,
    NxStat,
    NxChmod,
    NxChown,
    Services,
    Ls,
    Cat,
    Write,
    Touch,
    Mkdir,
    Rm,
    Stat,
    Int3,
    Clear,
    Colors,
    Other,
}

/// The command that a word names.
pub open spec fn verb_s(w: Seq<char>) -> Verb {
    if w == "help"@ {
        Verb::Help
    } else if w == "history"@ {
        Verb::History
    } else if w == "ps"@ {
        Verb::Tasks
    } else if w == "pid"@ {
        Verb::Pid
    } else if w == "ticks"@ {
        Verb::Ticks
    } else if w == "uptime"@ {
        Verb::Uptime
    } else if w == "echo"@ {
        Verb::Echo
    } else if w == "wc"@ {
        Verb::Count
    } else if w == "grep"@ {
        Verb::Grep
    } else if w == "ipc"@ {
        Verb::Ipc
    } else if w == "caps"@ {
        Verb::Caps
    } else if w == "mem"@ {
        Verb::Heap
    } else if w == "irqs"@ {
        Verb::Irqs
    } else if w == "dma"@ {
        Verb::Dma
    } else if w == "pci"@ || w == "lspci"@ {
        Verb::Pci
    } else if w == "ahci"@ || w == "disks"@ {
        Verb::Ahci
    } else if w == "identify"@ {
        Verb::Identify
    } else if w == "lsblk"@ || w == "blkdev"@ {
        Verb::Devices
    } else if w == "blkread"@ {
        Verb::BlkRead
    } else if w == "blkwrite"@ {
        Verb::BlkWrite
    } else if w == "mkfs.nextfs"@ {
        Verb::Mkfs
    } else if w == "mount"@ {
        Verb::Mount
    } else if w == "unmount"@ {
        Verb::Unmount
    } else if w == "nxls"@ {
        Verb::NxLs
    } else if w == "nxcat"@ {
        Verb::NxCat
    } else if w == "nxwrite"@ {
        Verb::NxWrite
    } else if w == "nxmkdir"@ {
        Verb::NxMkdir
    } else if w == "nxrm"@ {
        Verb::NxRm
    } else if w == "nxrmdir"@ {
        Verb::NxRmdir
    } else if w == "nxtruncate"@ {
        Verb::NxTruncate
    } else if w == "nxstat"@ {
        Verb::NxStat
    } else if w == "nxchmod"@ {
        Verb::NxChmod
    } else if w == "nxchown"@ {
        Verb::NxChown
    } else if w == "services"@ {
        Verb::Services
    } else if w == "ls"@ {
        Verb::Ls
    } else if w == "cat"@ {
        Verb::Cat
    } else if w == "write"@ {
        Verb::Write
    } else if w == "touch"@ {
        Verb::Touch
    } else if w == "mkdir"@ {
        Verb::Mkdir
    } else if w == "rm"@ {
        Verb::Rm
    } else if w == "stat"@ {
        Verb::Stat
    } else if w == "int3"@ {
        Verb::Int3
    } else if w == "clear"@ {
        Verb::Clear
    } else if w == "colors"@ {
        Verb::Colors
    } else {
        Verb::Other
    }
}

/// Finds the command that a word names.
pub fn verb_of(w: &str) -> (r: Verb)
    ensures
        r == verb_s(w@),
{
    if str_eq(w, "help") {
        Verb::Help
    } else if str_eq(w, "history") {
        Verb::History
    } else if str_eq(w, "ps") {
        Verb::Tasks
    } else if str_eq(w, "pid") {
        Verb::Pid
    } else if str_eq(w, "ticks") {
        Verb::Ticks
    } else if str_eq(w, "uptime") {
        Verb::Uptime
    } else if str_eq(w, "echo") {
        Verb::Echo
    } else if str_eq(w, "wc") {
        Verb::Count
    } else if str_eq(w, "grep") {
        Verb::Grep
    } else if str_eq(w, "ipc") {
        Verb::Ipc
    } else if str_eq(w, "caps") {
        Verb::Caps
    } else if str_eq(w, "mem") {
        Verb::Heap
    } else if str_eq(w, "irqs") {
        Verb::Irqs
    } else if str_eq(w, "dma") {
        Verb::Dma
    } else if str_eq(w, "pci") || str_eq(w, "lspci") {
        Verb::Pci
    } else if str_eq(w, "ahci") || str_eq(w, "disks") {
        Verb::Ahci
    } else if str_eq(w, "identify") {
        Verb::Identify
    } else if str_eq(w, "lsblk") || str_eq(w, "blkdev") {
        Verb::Devices
    } else if str_eq(w, "blkread") {
        Verb::BlkRead
    } else if str_eq(w, "blkwrite") {
        Verb::BlkWrite
    } else if str_eq(w, "mkfs.nextfs") {
        Verb::Mkfs
    } else if str_eq(w, "mount") {
        Verb::Mount
    } else if str_eq(w, "unmount") {
        Verb::Unmount
    } else if str_eq(w, "nxls") {
        Verb::NxLs
    } else if str_eq(w, "nxcat") {
        Verb::NxCat
    } else if str_eq(w, "nxwrite") {
        Verb::NxWrite
    } else if str_eq(w, "nxmkdir") {
        Verb::NxMkdir
    } else if str_eq(w, "nxrm") {
        Verb::NxRm
    } else if str_eq(w, "nxrmdir") {
        Verb::NxRmdir
    } else if str_eq(w, "nxtruncate") {
        Verb::NxTruncate
    } else if str_eq(w, "nxstat") {
        Verb::NxStat
    } else if str_eq(w, "nxchmod") {
        Verb::NxChmod
    } else if str_eq(w, "nxchown") {
        Verb::NxChown
    } else if str_eq(w, "services") {
        Verb::Services
    } else if str_eq(w, "ls") {
        Verb::Ls
    } else if str_eq(w, "cat") {
        Verb::Cat
    } else if str_eq(w, "write") {
        Verb::Write
    } else if str_eq(w, "touch") {
        Verb::Touch
    } else if str_eq(w, "mkdir") {
        Verb::Mkdir
    } else if str_eq(w, "rm") {
        Verb::Rm
    } else if str_eq(w, "stat") {
        Verb::Stat
    } else if str_eq(w, "int3") {
        Verb::Int3
    } else if str_eq(w, "clear") {
        Verb::Clear
    } else if str_eq(w, "colors") {
        Verb::Colors
    } else {
        Verb::Other
    }
}

/// What is left to do outside once a command has printed what it could.
#[derive(Debug, Clone, Copy, PartialEq, Eq, Structural)]
pub enum After {
    /// Nothing.
    Done,
    /// Raise a breakpoint exception; then comes [`survived_text`].
    Breakpoint,
    /// Clear the screen.
    Clear,
    /// Call the demo service with this tag; then comes [`call_text`].
    Call(u64),
    /// Ask the drives who they are; then comes [`identify_text`].
    Identify,
}

/// The word that a command begins with.
pub open spec fn first_word(cmd: Seq<char>) -> Seq<char> {
    cmd.take(word_len(cmd) as int)
}

/// What follows the first word.
pub open spec fn arguments(cmd: Seq<char>) -> Seq<char> {
    trimmed(cmd.skip(word_len(cmd) as int))
}

/// Nothing changed, and nothing is left to do outside.
pub open spec fn printed<D>(k0: Kernel<D>, k1: Kernel<D>, after: After) -> bool {
    k1 == k0 && after == After::Done
}

/// Only the files changed.
pub open spec fn filed<D>(k0: Kernel<D>, k1: Kernel<D>, after: After) -> bool {
    k1 == (Kernel { files: k1.files, ..k0 }) && after == After::Done
}

/// Only the file server changed.
pub open spec fn served<D>(k0: Kernel<D>, k1: Kernel<D>, after: After) -> bool {
    &&& k1 == (Kernel { memfs: k1.memfs, ..k0 })
    &&& server_ok(k1.memfs)
    &&& after == After::Done
}

/// The names of the registered services.
pub open spec fn services_listed(reg: Option<Registry>, text: Seq<char>) -> bool {
    match reg {
        None => text == services_s(Seq::empty()),
        Some(reg) => exists|names: Seq<Seq<char>>|
            #[trigger] ordered(names) && text == services_s(names) && forall|n: Seq<char>|
                reg@.contains_key(n) <==> names.contains(n),
    }
}

/// What a command does to the kernel and prints, and what is left to do outside.
pub open spec fn executed<D: BlockDevice>(
    k0: Kernel<D>,
    me: u64,
    now: u32,
    cmd: Seq<char>,
    input: Option<Seq<char>>,
    k1: Kernel<D>,
    text: Seq<char>,
    after: After,
) -> bool {
    let rest = arguments(cmd);
    if cmd.len() == 0 {
        printed(k0, k1, after) && text == Seq::<char>::empty()
    } else {
        match verb_s(first_word(cmd)) {
            Verb::Help => printed(k0, k1, after) && text == HELP@,
            Verb::History => printed(k0, k1, after) && text == history_s(k0.history@),
            Verb::Tasks => printed(k0, k1, after) && text == tasks_s(k0.tasks@),
            Verb::Pid => printed(k0, k1, after) && text == "shell task id = "@ + decimal(me as nat)
                + "\n"@,
            Verb::Ticks => printed(k0, k1, after) && text == "ticks = "@ + decimal(k0.ticks as nat)
                + "\n"@,
            Verb::Uptime => printed(k0, k1, after) && text == "ticks = "@ + decimal(k0.ticks as nat)
                + " (~"@ + decimal((k0.ticks / 18) as nat) + " s at 18.2 Hz)\n"@,
            Verb::Echo => printed(k0, k1, after) && text == rest + "\n"@,
            Verb::Count => printed(k0, k1, after) && text == count_s(
                match input {
                    Some(t) => t,
                    None => rest,
                },
            ),
            Verb::Grep => printed(k0, k1, after) && text == (if rest.len() == 0 {
                "usage: <cmd> | grep <pattern>\n"@
            } else {
                grep_s(
                    match input {
                        Some(t) => t,
                        None => ""@,
                    },
                    rest,
                )
            }),
            Verb::Ipc => k1 == k0 && text == Seq::<char>::empty() && after == After::Call(
                match number_s(rest, 10, u64::MAX as nat) {
                    Some(n) => n as u64,
                    None => 7,
                },
            ),
            Verb::Caps => printed(k0, k1, after) && text == caps_s(k0.caps@, me),
            Verb::Heap => printed(k0, k1, after) && text == "kernel heap: start=0x"@ + hex(
                HEAP_START as nat,
            ) + " size="@ + decimal((HEAP_SIZE / 1024) as nat) + " KiB\n"@,
            Verb::Irqs => printed(k0, k1, after) && text == irqs_s(k0.irqs@),
            Verb::Dma => printed(k0, k1, after) && text == dma_s(k0.dma.next_offset, k0.dma.size),
            Verb::Pci => printed(k0, k1, after) && text == pci_s(k0.pci@),
            Verb::Ahci => printed(k0, k1, after) && text == ports_s(k0.ports@),
            Verb::Identify => k1 == k0 && if k0.ports@.len() == 0 {
                text == "No AHCI devices to query\n"@ && after == After::Done
            } else {
                text == Seq::<char>::empty() && after == After::Identify
            },
            Verb::Devices => printed(k0, k1, after) && text == devices_s(k0.files.devices()),
            Verb::BlkRead => printed(k0, k1, after) && blkread_s(k0.files.devices(), rest, text),
            Verb::BlkWrite => filed(k0, k1, after) && blkwrite_s(k0.files, rest, k1.files, text),
            Verb::Mkfs => filed(k0, k1, after) && mkfs_s(k0.files, rest, k1.files, text),
            Verb::Mount => filed(k0, k1, after) && mount_cmd_s(k0.files, rest, k1.files, text),
            Verb::Unmount => filed(k0, k1, after) && k1.files.devices() == k0.files.devices()
                && k1.files.mounted_on() is None && k1.files@ == (FilesView {
                fs: None,
                ..k0.files@
            }) && text == "Filesystem unmounted\n"@,
            Verb::NxLs => printed(k0, k1, after) && nxls_printed(k0.files, rest, text),
            Verb::NxCat => printed(k0, k1, after) && nxcat_printed(k0.files, rest, text),
            Verb::NxWrite => filed(k0, k1, after) && nxwrite_s(
                k0.files,
                rest,
                now,
                k1.files,
                text,
            ),
            Verb::NxMkdir => filed(k0, k1, after) && nxmkdir_s(
                k0.files,
                rest,
                now,
                k1.files,
                text,
            ),
            Verb::NxRm => filed(k0, k1, after) && nxrm_s(k0.files, rest, now, k1.files, text),
            Verb::NxRmdir => filed(k0, k1, after) && nxrmdir_s(k0.files, rest, k1.files, text),
            Verb::NxTruncate => filed(k0, k1, after) && nxtruncate_s(
                k0.files,
                rest,
                k1.files,
                text,
            ),
            Verb::NxStat => printed(k0, k1, after) && nxstat_printed(k0.files, rest, text),
            Verb::NxChmod => filed(k0, k1, after) && nxchmod_s(
                k0.files,
                rest,
                now,
                k1.files,
                text,
            ),
            Verb::NxChown => filed(k0, k1, after) && nxchown_s(
                k0.files,
                rest,
                now,
                k1.files,
                text,
            ),
            Verb::Services => printed(k0, k1, after) && services_listed(k0.registry, text),
            Verb::Ls => printed(k0, k1, after) && ls_s(nodes_of(k0.memfs), or_root(rest), text),
            Verb::Cat => printed(k0, k1, after) && text == cat_s(nodes_of(k0.memfs), rest),
            Verb::Write => served(k0, k1, after) && (text, nodes_of(k1.memfs)) == write_cmd_s(
                nodes_of(k0.memfs),
                rest,
            ),
            Verb::Touch => served(k0, k1, after) && (text, nodes_of(k1.memfs)) == touch_s(
                nodes_of(k0.memfs),
                rest,
            ),
            Verb::Mkdir => served(k0, k1, after) && (text, nodes_of(k1.memfs)) == mkdir_s(
                nodes_of(k0.memfs),
                rest,
            ),
            Verb::Rm => served(k0, k1, after) && (text, nodes_of(k1.memfs)) == rm_s(
                nodes_of(k0.memfs),
                rest,
            ),
            Verb::Stat => printed(k0, k1, after) && text == stat_cmd_s(nodes_of(k0.memfs), rest),
            Verb::Int3 => k1 == k0 && text == "triggering breakpoint (int3)...\n"@ && after
                == After::Breakpoint,
            Verb::Clear => k1 == k0 && text == Seq::<char>::empty() && after == After::Clear,
            Verb::Colors => printed(k0, k1, after) && text == colors_s(),
            Verb::Other => printed(k0, k1, after) && text == "unknown command: '"@ + first_word(cmd)
                + "' (try 'help')\n"@,
        }
    }
}

/// What comes after the breakpoint.
pub fn survived_text() -> (r: &'static str)
    ensures
        r@ == "...survived the exception, kernel still running.\n"@,
{
    "...survived the exception, kernel still running.\n"
}

/// What comes after the call of the demo service: the tag of its reply, if the
/// service is there.
pub fn call_text(reply: Option<u64>) -> (r: String)
    ensures
        r@ == (match reply {
            Some(tag) => "demo.pong replied with tag "@ + decimal(tag as nat) + "\n"@,
            None => "demo.pong endpoint not registered yet\n"@,
        }),
{
    match reply {
        Some(tag) => {
            let mut out = "demo.pong replied with tag ".to_owned();
            push_decimal(&mut out, tag);
            out.append("\n");
            out
        },
        None => "demo.pong endpoint not registered yet\n".to_owned(),
    }
}

/// The report on a port: only SATA drives are asked.
pub open spec fn identify_line(p: AhciPort, info: Option<DriveInfo>) -> Seq<char> {
    if p.device_type == DeviceType::Sata {
        query_s(p) + drive_s(info)
    } else {
        query_s(p)
    }
}

/// What the drives said of themselves.
pub fn identify_text(ports: &Vec<AhciPort>, infos: &Vec<Option<DriveInfo>>) -> (r: String)
    requires
        infos@.len() == ports@.len(),
        forall|i: int|
            0 <= i < infos@.len() ==> (#[trigger] infos@[i] matches Some(d) ==> d.sectors
                * d.sector_size <= u64::MAX),
    ensures
        r@ == flat(Seq::new(ports@.len(), |i: int| identify_line(ports@[i], infos@[i]))),
{
    let mut out = String::new();
    let ghost all = Seq::new(ports@.len(), |i: int| identify_line(ports@[i], infos@[i]));
    let ghost head = out@;
    let mut i: usize = 0;
    proof {
        lemma_flat_ends(head, all);
    }
    while i < ports.len()
        invariant
            i <= ports@.len(),
            infos@.len() == ports@.len(),
            forall|i: int|
                0 <= i < infos@.len() ==> (#[trigger] infos@[i] matches Some(d) ==> d.sectors
                    * d.sector_size <= u64::MAX),
            all == Seq::new(ports@.len(), |i: int| identify_line(ports@[i], infos@[i])),
            out@ == head + flat(all.take(i as int)),
        decreases ports@.len() - i,
    {
        let (mut l, ask) = report::query_text(&ports[i]);
        if ask {
            let d = report::drive_text(&infos[i]);
            l.append(d.as_str());
        }
        out.append(l.as_str());
        proof {
            lemma_flat_step(head, all, i as int);
        }
        i = i + 1;
    }
    assert(head + flat(all) =~= flat(all));
    out
}

/// The commands that change the files.
fn execute_on_files<D: BlockDevice>(
    files: &mut FileSystem<D>,
    verb: Verb,
    rest: &str,
    now: u32,
) -> (r: String)
    requires
        old(files).wf(),
        devices_fine(old(files).devices()),
        changes_files(verb),
    ensures
        final(files).wf(),
        devices_fine(final(files).devices()),
        files_executed(*old(files), verb, rest@, now, *final(files), r@),
{
    let r = match verb {
        Verb::BlkWrite => disk::blkwrite(files, rest),
        Verb::Mkfs => disk::mkfs(files, rest),
        Verb::Mount => disk::mount_cmd(files, rest),
        Verb::Unmount => disk::unmount_cmd(files),
        Verb::NxWrite => disk::nxwrite(files, rest, now),
        Verb::NxMkdir => disk::nxmkdir(files, rest, now),
        Verb::NxRm => disk::nxrm(files, rest, now),
        Verb::NxRmdir => disk::nxrmdir(files, rest),
        Verb::NxTruncate => disk::nxtruncate(files, rest),
        Verb::NxChmod => disk::nxchmod(files, rest, now),
        _ => disk::nxchown(files, rest, now),
    };
    proof {
        if crate::fs::vfs::frame(*old(files), *files) {
            lemma_frame(*old(files), *files);
            lemma_frame_fine(*old(files), *files);
        }
    }
    r
}

/// Whether a command changes the files.
pub open spec fn changes_files(verb: Verb) -> bool {
    verb is BlkWrite || verb is Mkfs || verb is Mount || verb is Unmount || verb is NxWrite || verb is NxMkdir
        || verb is NxRm || verb is NxRmdir || verb is NxTruncate || verb is NxChmod || verb is NxChown
}

/// What a command does to the files and prints.
pub open spec fn files_executed<D: BlockDevice>(
    f0: FileSystem<D>,
    verb: Verb,
    rest: Seq<char>,
    now: u32,
    f1: FileSystem<D>,
    text: Seq<char>,
) -> bool {
    match verb {
        Verb::BlkWrite => blkwrite_s(f0, rest, f1, text),
        Verb::Mkfs => mkfs_s(f0, rest, f1, text),
        Verb::Mount => mount_cmd_s(f0, rest, f1, text),
        Verb::Unmount => f1.devices() == f0.devices() && f1.mounted_on() is None && f1@ == (
        FilesView { fs: None, ..f0@ }) && text == "Filesystem unmounted\n"@,
        Verb::NxWrite => nxwrite_s(f0, rest, now, f1, text),
        Verb::NxMkdir => nxmkdir_s(f0, rest, now, f1, text),
        Verb::NxRm => nxrm_s(f0, rest, now, f1, text),
        Verb::NxRmdir => nxrmdir_s(f0, rest, f1, text),
        Verb::NxTruncate => nxtruncate_s(f0, rest, f1, text),
        Verb::NxChmod => nxchmod_s(f0, rest, now, f1, text),
        _ => nxchown_s(f0, rest, now, f1, text),
    }
}

/// The kernel is in order, and so are the devices.
pub open spec fn shell_ok<D: BlockDevice>(k: Kernel<D>) -> bool {
    k.wf() && devices_fine(k.files.devices())
}

/// Executes one command. `input` is what an earlier stage of a pipeline printed;
/// most commands ignore it.
pub fn execute<D: BlockDevice>(
    k: &mut Kernel<D>,
    me: u64,
    now: u32,
    cmd: &str,
    input: Option<&str>,
) -> (r: (String, After))
    requires
        shell_ok(*old(k)),
    ensures
        shell_ok(*final(k)),
        executed(
            *old(k),
            me,
            now,
            trimmed(cmd@),
            match input {
                Some(t) => Some(t@),
                None => None,
            },
            *final(k),
            r.0@,
            r.1,
        ),
{
    let cmd = trim(cmd);
    let n: usize = cmd.unicode_len();
    if n == 0 {
        let s = String::new();
        assert(s@ =~= Seq::<char>::empty());
        return (s, After::Done);
    }
    assert(cmd@.skip(0) =~= cmd@);
    let w: usize = skip_word(cmd, 0);
    let word = cmd.substring_char(0, w);
    assert(word@ =~= first_word(cmd@));
    let tail = cmd.substring_char(w, n);
    assert(tail@ =~= cmd@.skip(w as int));
    let rest = trim(tail);
    let verb = verb_of(word);
    let text = match verb {
        Verb::Help => HELP.to_owned(),
        Verb::History => report::history_text(&k.history),
        Verb::Tasks => report::tasks_text(&k.tasks),
        Verb::Pid => report::pid_text(me),
        Verb::Ticks => report::ticks_text(k.ticks),
        Verb::Uptime => report::uptime_text(k.ticks),
        Verb::Echo => report::echo_text(rest),
        Verb::Count => report::count_text(
            match input {
                Some(t) => t,
                None => rest,
            },
        ),
        Verb::Grep => if rest.unicode_len() == 0 {
            "usage: <cmd> | grep <pattern>\n".to_owned()
        } else {
            report::grep_text(
                match input {
                    Some(t) => t,
                    None => "",
                },
                rest,
            )
        },
        Verb::Ipc => {
            let tag: u64 = match parse_number(rest, 10, u64::MAX) {
                Some(n) => n,
                None => 7,
            };
            let s = String::new();
            assert(s@ =~= Seq::<char>::empty());
            return (s, After::Call(tag));
        },
        Verb::Caps => report::caps_text(&k.caps, me),
        Verb::Heap => report::heap_text(),
        Verb::Irqs => report::irqs_text(&k.irqs),
        Verb::Dma => report::dma_text(&k.dma),
        Verb::Pci => report::pci_text(&k.pci),
        Verb::Ahci => report::ports_text(&k.ports),
        Verb::Identify => {
            if k.ports.len() == 0 {
                "No AHCI devices to query\n".to_owned()
            } else {
                let s = String::new();
                assert(s@ =~= Seq::<char>::empty());
                return (s, After::Identify);
            }
        },
        Verb::Devices => {
            proof {
                assert forall|i: int| 0 <= i < k.files.devices().len() implies
                    #[trigger] k.files.devices()[i].unit() * k.files.devices()[i].blocks().len()
                    <= u64::MAX by {
                    assert(disk::device_fine(&k.files.devices()[i]));
                }
            }
            report::devices_text(nx::registry(&k.files))
        },
        Verb::BlkRead => disk::blkread(&k.files, rest),
        Verb::NxLs => disk::nxls(&k.files, rest),
        Verb::NxCat => disk::nxcat(&k.files, rest),
        Verb::NxStat => disk::nxstat(&k.files, rest),
        Verb::Services => match &k.registry {
            None => {
                let none: Vec<String> = Vec::new();
                assert(contents(none@) =~= Seq::empty());
                report::services_text(&none)
            },
            Some(reg) => {
                let names = reg.list();
                report::services_text(&names)
            },
        },
        Verb::Ls => local::ls(&k.memfs, rest),
        Verb::Cat => local::cat(&k.memfs, rest),
        Verb::Write => local::write_cmd(&mut k.memfs, rest),
        Verb::Touch => local::touch(&mut k.memfs, rest),
        Verb::Mkdir => local::mkdir(&mut k.memfs, rest),
        Verb::Rm => local::rm(&mut k.memfs, rest),
        Verb::Stat => local::stat_cmd(&k.memfs, rest),
        Verb::Int3 => return ("triggering breakpoint (int3)...\n".to_owned(), After::Breakpoint),
        Verb::Clear => {
            let s = String::new();
            assert(s@ =~= Seq::<char>::empty());
            return (s, After::Clear);
        },
        Verb::Colors => report::colors_text(),
        Verb::Other => {
            let mut out = "unknown command: '".to_owned();
            out.append(word);
            out.append("' (try 'help')\n");
            out
        },
        _ => execute_on_files(&mut k.files, verb, rest, now),
    };
    (text, After::Done)
}

} // verus!
