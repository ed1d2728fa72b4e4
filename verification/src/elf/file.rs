//! Loading a binary from the file system.

use crate::bytes::{patch, zeroed, zeros};
use crate::driver::block::BlockDevice;
use crate::driver::console::{ConsoleInput, ConsoleView};
use crate::elf::load::{load_s, Loaded, LoadedView};
use crate::elf::reloc::frames_ok;
use crate::elf::{parse_s, texts, ElfBinary};
use crate::fs::fds::{OpenFlags, SeekWhence};
use crate::fs::vfs::{
    close, close_s, frame, lemma_frame, lemma_frame_trans, open, open_s, read, read_s, seek, seek_s,
    FileSystem, FilesView, ReadStep,
};
use crate::memory::MemoryManager;
use vstd::prelude::*;

verus! {

/// The kernel's own task, on whose behalf programs are read.
pub const KERNEL_TASK: u32 = 0;

/// Read-only access.
pub open spec fn read_only() -> OpenFlags {
    OpenFlags { read: true, write: false, create: false, truncate: false, append: false }
}

/// Reading a whole file on behalf of the kernel: its size is found by seeking
/// to its end. After a failure the descriptor stays open.
pub open spec fn whole_file_s(f: FilesView, con: ConsoleView, path: Seq<char>, now: u32) -> (
    Result<Seq<u8>, Seq<char>>,
    FilesView,
    ConsoleView,
) {
    match open_s(f, KERNEL_TASK, path, read_only(), now) {
        (Err(e), f1) => (Err("failed to open file"@), f1, con),
        (Ok(fd), f1) => match seek_s(f1, KERNEL_TASK, fd, 0, SeekWhence::End) {
            (Err(e), f2) => (Err("failed to seek to end"@), f2, con),
            (Ok(size), f2) => match seek_s(f2, KERNEL_TASK, fd, 0, SeekWhence::Start) {
                (Err(e), f3) => (Err("failed to seek to start"@), f3, con),
                (Ok(_), f3) => if size > usize::MAX {
                    (Err("failed to read file"@), f3, con)
                } else {
                    match read_s(f3, con, KERNEL_TASK, fd, size as nat) {
                        (Err(e), data, f4, con1) => (Err("failed to read file"@), f4, con1),
                        (Ok(step), data, f4, con1) => match close_s(f4, KERNEL_TASK, fd) {
                            (Err(e), f5) => (Err("failed to close file"@), f5, con1),
                            (Ok(_), f5) => if step == ReadStep::Bytes(size as usize) {
                                (Ok(patch(zeros(size as nat), 0, data)), f5, con1)
                            } else {
                                (Err("incomplete read"@), f5, con1)
                            },
                        },
                    }
                },
            },
        },
    }
}

/// The words for a file that cannot be read because the device fails. Descriptors that
/// are open by then stay open.
pub open spec fn unreadable(why: Seq<char>) -> bool {
    ||| why == "failed to open file"@
    ||| why == "failed to seek to end"@
    ||| why == "failed to seek to start"@
    ||| why == "failed to read file"@
}

/// Reads a whole file on behalf of the kernel.
#[verifier::spinoff_prover]
#[verifier::rlimit(60)]
pub fn read_whole_file<D: BlockDevice>(
    files: &mut FileSystem<D>,
    console: &mut ConsoleInput,
    path: &str,
    now: u32,
) -> (r: Result<Vec<u8>, &'static str>)
    requires
        old(files).wf(),
        old(console).wf(),
    ensures
        frame(*old(files), *final(files)),
        final(console).wf(),
        ({
            let (want, f, con) = whole_file_s(old(files)@, old(console)@, path@, now);
            ||| {
                &&& final(files)@ == f
                &&& final(console)@ == con
                &&& match r {
                    Ok(data) => want == Ok::<Seq<u8>, Seq<char>>(data@),
                    Err(e) => want == Err::<Seq<u8>, Seq<char>>(e@),
                }
            }
            ||| {
                &&& !old(files).reliable()
                &&& r matches Err(e) && unreadable(e@)
                &&& final(files)@ == (FilesView {
                    tables: final(files)@.tables,
                    ..old(files)@
                })
                &&& final(console)@ == old(console)@
            }
        }),
{
    let ghost f0 = *files;
    let opened = open(files, KERNEL_TASK, path, OpenFlags::rdonly(), now);
    let ghost f1 = *files;
    proof {
        lemma_frame(f0, f1);
    }
    let fd: u32 = match opened {
        Ok(fd) => fd,
        Err(_) => return Err("failed to open file"),
    };
    let sought = seek(files, KERNEL_TASK, fd, 0, SeekWhence::End);
    let ghost f2 = *files;
    proof {
        lemma_frame(f1, f2);
        lemma_frame_trans(f0, f1, f2);
    }
    let size: u64 = match sought {
        Ok(n) => n,
        Err(_) => return Err("failed to seek to end"),
    };
    let sought = seek(files, KERNEL_TASK, fd, 0, SeekWhence::Start);
    let ghost f3 = *files;
    proof {
        lemma_frame(f2, f3);
        lemma_frame_trans(f0, f2, f3);
    }
    if sought.is_err() {
        return Err("failed to seek to start");
    }
    if size > usize::MAX as u64 {
        return Err("failed to read file");
    }
    let len: usize = size as usize;
    let mut data: Vec<u8> = zeroed(len);
    let got = read(files, console, KERNEL_TASK, fd, data.as_mut_slice());
    let ghost f4 = *files;
    proof {
        lemma_frame(f3, f4);
        lemma_frame_trans(f0, f3, f4);
    }
    let step = match got {
        Ok(step) => step,
        Err(_) => return Err("failed to read file"),
    };
    let closed = close(files, KERNEL_TASK, fd);
    let ghost f5 = *files;
    proof {
        lemma_frame(f4, f5);
        lemma_frame_trans(f0, f4, f5);
    }
    if closed.is_err() {
        return Err("failed to close file");
    }
    match step {
        ReadStep::Bytes(n) => {
            if n == len {
                Ok(data)
            } else {
                Err("incomplete read")
            }
        },
        _ => Err("incomplete read"),
    }
}

/// Loads an ELF binary from the file system: reads the whole file, parses it and
/// loads it into a fresh address space, with `args` and `envs` on its stack.
pub fn load_from_file<D: BlockDevice>(
    files: &mut FileSystem<D>,
    console: &mut ConsoleInput,
    mem: &mut MemoryManager,
    path: &str,
    args: &Vec<String>,
    envs: &Vec<String>,
    now: u32,
) -> (r: Result<Loaded, &'static str>)
    requires
        old(files).wf(),
        old(console).wf(),
        old(mem).wf(),
        frames_ok(old(mem)@.kernel),
    ensures
        frame(*old(files), *final(files)),
        final(console).wf(),
        final(mem).wf(),
        ({
            let (data, f, con) = whole_file_s(old(files)@, old(console)@, path@, now);
            let (want, m) = match data {
                Err(e) => (Err(e), old(mem)@),
                Ok(data) => match parse_s(data) {
                    Err(e) => (Err(e), old(mem)@),
                    Ok(elf) => load_s(elf, data, texts(args@), texts(envs@), old(mem)@),
                },
            };
            ||| {
                &&& final(files)@ == f
                &&& final(console)@ == con
                &&& final(mem)@ == m
                &&& match r {
                    Ok(l) => want == Ok::<LoadedView, Seq<char>>(l@),
                    Err(e) => want == Err::<LoadedView, Seq<char>>(e@),
                }
            }
            ||| {
                &&& !old(files).reliable()
                &&& r matches Err(e) && unreadable(e@)
                &&& final(files)@ == (FilesView {
                    tables: final(files)@.tables,
                    ..old(files)@
                })
                &&& final(console)@ == old(console)@
                &&& final(mem)@ == old(mem)@
            }
        }),
{
    let data = match read_whole_file(files, console, path, now) {
        Ok(d) => d,
        Err(e) => return Err(e),
    };
    let elf = match ElfBinary::parse(data.as_slice()) {
        Ok(e) => e,
        Err(e) => return Err(e),
    };
    elf.load(data.as_slice(), args, envs, mem)
}

} // verus!
