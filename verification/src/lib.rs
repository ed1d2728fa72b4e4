//! PICKLE OS kernel logic: capabilities, IPC, signals, filesystems, drivers,
//! loaders and the policies of the system-call layer, written as plain state
//! transitions and verified.
//!
//! Kernel globals are explicit values here: every function that reads or
//! changes a piece of kernel state takes that state as an argument. Hardware
//! access, locking and the scheduler live outside this crate and drive it.

pub mod bytes;
pub mod capability;
pub mod driver;
pub mod elf;
pub mod framebuffer;
pub mod fs;
pub mod gui;
pub mod init_user;
pub mod interrupts;
pub mod ipc;
pub mod kernel;
pub mod memory;
pub mod names;
pub mod net;
pub mod ordered;
pub mod services;
pub mod shell;
pub mod signal;
pub mod syscall;
pub mod text;
pub mod text_laws;
