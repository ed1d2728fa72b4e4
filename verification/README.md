# PICKLE OS

The verified core of a small x86-64 microkernel: capabilities, IPC, virtual memory,
an ELF loader, drivers, a disk file system, services, a shell and a desktop. It is
written in Verus: what the functions in `src/` do is stated in contracts and proved.

## Layout

- `src/` is the library. It decides and computes, and never touches hardware.
  - `memory`, `elf`, `interrupts`, `signal`, `syscall`, `kernel`: address spaces with
    copy-on-write, loading programs, faults, system calls.
  - `capability`, `ipc`, `services`: authority, messages, the name directory and the
    in-memory file server.
  - `driver`: PCI, AHCI, E1000, PS/2, DMA, interrupt lines, block devices, the console.
    What a driver does step by step is a state machine that asks for one access at a
    time.
  - `fs`: NextFS on a block device, and descriptors, pipes and paths on top of it.
  - `net`: sockets over `smoltcp`, and the echo service; programs reach them by
    descriptor, through `fs::vfs::net` and `syscall::sockets`.
  - `gui`, `framebuffer`: windows, the compositor, and drawing into pixels.
  - `shell`, `init_user`: the command line, and starting user space.
- `tests/` runs the library on concrete values.
- `app/` is the kernel around it: boot, page tables, ports, interrupts, and the loop
  that carries out what the library asks for.

## What is stated

Contracts are written over mathematical views of the data: a disk is a sequence of
blocks, an address space is a map from pages to frames with the tables that lead to
them, a console is a queue. The functions named `law_..` state what holds across
calls, such as:

- what is written to a path is what is read from it, and no other file changes; what is
  deleted is not found (`fs::volume_laws`, `fs::path_laws`);
- a part of a file that is read is that part of the whole, and a file that was cut
  holds what it held up to its new end (`fs::file_laws`);
- the operations keep a volume in good order, and files survive a remount
  (`fs::order_laws`);
- no capability is amplified by granting it (`capability`);
- messages keep their order, and a call gets its reply (`ipc`);
- a new socket is behind its descriptor and behind no other, and goes when that is
  closed (`syscall::sockets`, `fs::vfs::net`);
- a write after a fork is private (`memory`);
- a loaded program finds every byte of every segment (`elf::load_laws`).

What the library takes from other crates stands behind small functions whose
contracts are believed, each with a comment that says what is claimed.
