//! The system-call layer: what a call asks for, which memory of the caller it may
//! touch, and how its result goes back.
//!
//! User memory is read and written outside; a decoded call says where.

use crate::capability::Rights;
use crate::fs::fds::{OpenFlags, SeekWhence};
use vstd::prelude::*;

pub mod args;
pub mod call_laws;
pub mod files;
pub mod memory;
pub mod path_laws;
pub mod serve;
pub mod serve_laws;
pub mod sockets;
pub mod windows;

verus! {

/// `(ptr, len) -> bytes written`
pub const SYS_PRINT: u64 = 1;

/// `() -> current task id`
pub const SYS_GETPID: u64 = 2;

/// `() -> never returns`
pub const SYS_EXIT: u64 = 3;

/// `() -> 0   (voluntarily reschedule)`
pub const SYS_YIELD: u64 = 4;

/// `() -> timer ticks since boot`
pub const SYS_TICKS: u64 = 5;

/// `(ep, tag) -> 0`
pub const SYS_IPC_SEND: u64 = 6;

/// `(ep) -> tag of received message`
pub const SYS_IPC_RECV: u64 = 7;

/// `(slot, rights) -> 1 if held else 0`
pub const SYS_CAP_CHECK: u64 = 8;

/// `(ticks) -> 0 (after wake)`
pub const SYS_SLEEP: u64 = 9;

/// `(binary_ptr, binary_len, name_ptr) -> task_id`
pub const SYS_SPAWN: u64 = 10;

/// `(addr, len, prot) -> mapped_addr`
pub const SYS_MMAP: u64 = 11;

/// `(addr, len) -> 0 or error`
pub const SYS_MUNMAP: u64 = 12;

/// `(path_ptr, path_len, flags) -> fd or error`
pub const SYS_OPEN: u64 = 13;

/// `(fd, buf_ptr, count) -> bytes_read or error`
pub const SYS_READ: u64 = 14;

/// `(fd, buf_ptr, count) -> bytes_written or error`
pub const SYS_WRITE: u64 = 15;

/// `(fd) -> 0 or error`
pub const SYS_CLOSE: u64 = 16;

/// `(fd, offset, whence) -> new_pos or error`
pub const SYS_LSEEK: u64 = 17;

/// `(path_ptr, path_len) -> 0 or error`
pub const SYS_UNLINK: u64 = 18;

/// `(path_ptr, path_len) -> 0 or error`
pub const SYS_RMDIR: u64 = 19;

/// `(path_ptr, path_len) -> 0 or error`
pub const SYS_MKDIR: u64 = 20;

/// `(path_ptr, path_len, size) -> 0 or error`
pub const SYS_TRUNCATE: u64 = 21;

/// `(path_ptr, path_len, mode) -> 0 or error`
pub const SYS_CHMOD: u64 = 22;

/// `(path_ptr, path_len, uid<<16|gid) -> 0 or error`
pub const SYS_CHOWN: u64 = 23;

/// `(path_ptr, path_len, statbuf_ptr) -> 0 or error`
pub const SYS_STAT: u64 = 24;

/// `(status) -> never returns (proper exit + status)`
pub const SYS_EXIT2: u64 = 25;

/// `(status_ptr) -> child pid (or -1 if no children)`
pub const SYS_WAIT: u64 = 26;

/// `(path_ptr, path_len, argv, envp) -> -1 on failure; else no return`
pub const SYS_EXEC: u64 = 27;

/// `() -> child pid in parent, 0 in child, -1 on error`
pub const SYS_FORK: u64 = 28;

/// `(fds_ptr) -> 0; writes [read_fd, write_fd] as two u32`
pub const SYS_PIPE: u64 = 29;

/// `() -> parent process id (0 if none)`
pub const SYS_GETPPID: u64 = 30;

/// `(pid, sig) -> 0 or -1`
pub const SYS_KILL: u64 = 31;

/// `(sig, handler, restorer) -> previous handler or -1`
pub const SYS_SIGNAL: u64 = 32;

/// `() -> resume interrupted context (internal, via trampoline)`
pub const SYS_SIGRETURN: u64 = 33;

/// `(w, h, title_ptr, title_len[r10]) -> win_id or -1`
pub const SYS_WIN_CREATE: u64 = 34;

/// `(win_id, buf_ptr, byte_len) -> 0 or -1`
pub const SYS_WIN_COMMIT: u64 = 35;

/// `(win_id, event_ptr[16]) -> 1 got / 0 none / -1 err`
pub const SYS_WIN_POLL: u64 = 36;

/// `(win_id) -> 0 or -1`
pub const SYS_WIN_DESTROY: u64 = 37;

/// `(win_id, info_ptr[16]) -> 0 or -1`
pub const SYS_WIN_INFO: u64 = 38;

/// `(domain, type, protocol) -> fd or -1`
pub const SYS_SOCKET: u64 = 39;

/// `(sockfd, addr_ptr, addrlen) -> 0 or -1`
pub const SYS_BIND: u64 = 40;

/// `(sockfd, addr_ptr, addrlen) -> 0 or -1`
pub const SYS_CONNECT: u64 = 41;

/// `(sockfd, backlog) -> 0 or -1`
pub const SYS_LISTEN: u64 = 42;

/// `(sockfd, addr_ptr, addrlen_ptr) -> new_fd or -1`
pub const SYS_ACCEPT: u64 = 43;

/// `(sockfd, buf_ptr, len, flags) -> bytes_sent or -1`
pub const SYS_SEND: u64 = 44;

/// `(sockfd, buf_ptr, len, flags) -> bytes_recv or -1`
pub const SYS_RECV: u64 = 45;

/// `(sockfd, how) -> 0 or -1`
pub const SYS_SHUTDOWN: u64 = 46;

/// What a failed call returns.
pub const FAILED: u64 = 0xffff_ffff_ffff_ffff;

/// User space ends here.
pub const USER_SPACE_MAX: u64 = 0x0000_8000_0000_0000;

/// The address family of internet sockets.
pub const AF_INET: u64 = 2;

/// The type of stream sockets.
pub const SOCK_STREAM: u64 = 1;

/// The registers of the caller; the first field is at the lowest address.
#[derive(Debug, Clone, Copy, PartialEq, Eq, Structural)]
pub struct SyscallFrame {
    pub r15: u64,
    pub r14: u64,
    pub r13: u64,
    pub r12: u64,
    pub rbp: u64,
    pub rbx: u64,
    pub r11: u64,
    pub rcx: u64,
    pub r9: u64,
    pub r8: u64,
    pub r10: u64,
    pub rdx: u64,
    pub rsi: u64,
    pub rdi: u64,
    pub rax: u64,
}

/// Bytes in the caller's memory.
#[derive(Debug, Clone, Copy, PartialEq, Eq, Structural)]
pub struct UserSlice {
    pub ptr: u64,
    pub len: u64,
}

/// A system call that was decoded.
#[allow(inconsistent_fields)]
#[derive(Debug, Clone, Copy)]
pub enum Call {
    Print { text: UserSlice },
    GetPid,
    Exit { status: i32 },
    Yield,
    Ticks,
    IpcSend { endpoint: u64, tag: u64 },
    IpcRecv { endpoint: u64 },
    CapCheck { slot: u64, rights: Rights },
    Sleep { ticks: u64 },
    Mmap { len: u64 },
    Munmap { addr: u64, len: u64 },
    Open { path: UserSlice, flags: OpenFlags },
    Read { fd: u32, buf: UserSlice },
    Write { fd: u32, buf: UserSlice },
    Close { fd: u32 },
    Seek { fd: u32, offset: i64, whence: SeekWhence },
    Unlink { path: UserSlice },
    Rmdir { path: UserSlice },
    Mkdir { path: UserSlice },
    Truncate { path: UserSlice, size: u64 },
    Chmod { path: UserSlice, mode: u16 },
    Chown { path: UserSlice, uid: u16, gid: u16 },
    Stat { path: UserSlice, out: u64 },
    Wait { status: u64 },
    Exec { path: UserSlice, argv: u64, envp: u64 },
    Fork,
    Pipe { out: u64 },
    GetParent,
    Kill { pid: u64, sig: u32 },
    Signal { sig: u32, handler: u64, restorer: u64 },
    SigReturn,
    WinCreate { width: u64, height: u64, title: Option<UserSlice> },
    WinCommit { id: u64, pixels: UserSlice },
    WinPoll { id: u64, out: u64 },
    WinDestroy { id: u64 },
    WinInfo { id: u64, out: u64 },
    Socket,
    Bind { fd: u32, addr: UserSlice },
    Connect { fd: u32, addr: UserSlice },
    Listen { fd: u32 },
    Accept { fd: u32, addr: Option<UserSlice> },
    Send { fd: u32, buf: UserSlice },
    Recv { fd: u32, buf: UserSlice },
    Shutdown { fd: u32 },
}

/// Whether a range lies in user space.
pub open spec fn in_user_space(ptr: u64, len: u64) -> bool {
    ptr < USER_SPACE_MAX && ptr + len <= USER_SPACE_MAX
}

/// Whether a caller may name a range: user tasks only ranges in user space.
pub open spec fn may_touch(user: bool, ptr: u64, len: u64) -> bool {
    user ==> in_user_space(ptr, len)
}

/// Checks that a range lies in user space.
pub fn is_user_pointer(ptr: u64, len: u64) -> (r: bool)
    ensures
        r == in_user_space(ptr, len),
{
    ptr < USER_SPACE_MAX && len <= USER_SPACE_MAX - ptr
}

/// Checks that a caller may name a range.
fn may_touch_range(user: bool, ptr: u64, len: u64) -> (r: bool)
    ensures
        r == may_touch(user, ptr, len),
{
    !user || is_user_pointer(ptr, len)
}

/// The flags that a word stands for: the access mode is in the lowest two bits.
pub open spec fn open_flags_s(raw: u64) -> OpenFlags {
    OpenFlags {
        read: raw & 3 == 0 || raw & 3 == 2,
        write: raw & 3 == 1 || raw & 3 == 2,
        create: raw & 0x40 != 0,
        truncate: raw & 0x200 != 0,
        append: raw & 0x400 != 0,
    }
}

/// Takes the flags of an open call apart.
pub fn sys_open_flags_from_raw(raw: u64) -> (r: OpenFlags)
    ensures
        r == open_flags_s(raw),
{
    let access: u64 = raw & 3;
    OpenFlags {
        read: access == 0 || access == 2,
        write: access == 1 || access == 2,
        create: raw & 0x40 != 0,
        truncate: raw & 0x200 != 0,
        append: raw & 0x400 != 0,
    }
}

/// What a caller asks for; nothing if the call fails right away. `owns` says
/// whether the caller owns the window that the first argument names.
pub open spec fn decode_s(f: SyscallFrame, user: bool, owns: bool) -> Option<Call> {
    let num = f.rax;
    let a0 = f.rdi;
    let a1 = f.rsi;
    let a2 = f.rdx;
    let a3 = f.r10;
    if num == SYS_PRINT {
        if may_touch(user, a0, a1) {
            Some(Call::Print { text: UserSlice { ptr: a0, len: a1 } })
        } else {
            None
        }
    } else if num == SYS_GETPID {
        Some(Call::GetPid)
    } else if num == SYS_EXIT || num == SYS_EXIT2 {
        Some(Call::Exit { status: a0 as i32 })
    } else if num == SYS_YIELD {
        Some(Call::Yield)
    } else if num == SYS_TICKS {
        Some(Call::Ticks)
    } else if num == SYS_IPC_SEND {
        Some(Call::IpcSend { endpoint: a0, tag: a1 })
    } else if num == SYS_IPC_RECV {
        Some(Call::IpcRecv { endpoint: a0 })
    } else if num == SYS_CAP_CHECK {
        Some(Call::CapCheck { slot: a0, rights: Rights(a1 as u32) })
    } else if num == SYS_SLEEP {
        Some(Call::Sleep { ticks: a0 })
    } else if num == SYS_MMAP {
        if user {
            Some(Call::Mmap { len: a1 })
        } else {
            None
        }
    } else if num == SYS_MUNMAP {
        if user {
            Some(Call::Munmap { addr: a0, len: a1 })
        } else {
            None
        }
    } else if num == SYS_OPEN {
        if may_touch(user, a0, a1) {
            Some(Call::Open { path: UserSlice { ptr: a0, len: a1 }, flags: open_flags_s(a2) })
        } else {
            None
        }
    } else if num == SYS_READ {
        if may_touch(user, a1, a2) {
            Some(Call::Read { fd: a0 as u32, buf: UserSlice { ptr: a1, len: a2 } })
        } else {
            None
        }
    } else if num == SYS_WRITE {
        if may_touch(user, a1, a2) {
            Some(Call::Write { fd: a0 as u32, buf: UserSlice { ptr: a1, len: a2 } })
        } else {
            None
        }
    } else if num == SYS_CLOSE {
        Some(Call::Close { fd: a0 as u32 })
    } else if num == SYS_LSEEK {
        if a2 == 0 {
            Some(Call::Seek { fd: a0 as u32, offset: a1 as i64, whence: SeekWhence::Start })
        } else if a2 == 1 {
            Some(Call::Seek { fd: a0 as u32, offset: a1 as i64, whence: SeekWhence::Current })
        } else if a2 == 2 {
            Some(Call::Seek { fd: a0 as u32, offset: a1 as i64, whence: SeekWhence::End })
        } else {
            None
        }
    } else if num == SYS_UNLINK {
        if may_touch(user, a0, a1) {
            Some(Call::Unlink { path: UserSlice { ptr: a0, len: a1 } })
        } else {
            None
        }
    } else if num == SYS_RMDIR {
        if may_touch(user, a0, a1) {
            Some(Call::Rmdir { path: UserSlice { ptr: a0, len: a1 } })
        } else {
            None
        }
    } else if num == SYS_MKDIR {
        if may_touch(user, a0, a1) {
            Some(Call::Mkdir { path: UserSlice { ptr: a0, len: a1 } })
        } else {
            None
        }
    } else if num == SYS_TRUNCATE {
        if may_touch(user, a0, a1) {
            Some(Call::Truncate { path: UserSlice { ptr: a0, len: a1 }, size: a2 })
        } else {
            None
        }
    } else if num == SYS_CHMOD {
        if may_touch(user, a0, a1) {
            Some(Call::Chmod { path: UserSlice { ptr: a0, len: a1 }, mode: a2 as u16 })
        } else {
            None
        }
    } else if num == SYS_CHOWN {
        if may_touch(user, a0, a1) {
            Some(Call::Chown {
                path: UserSlice { ptr: a0, len: a1 },
                uid: ((a2 >> 16) & 0xFFFF) as u16,
                gid: (a2 & 0xFFFF) as u16,
            })
        } else {
            None
        }
    } else if num == SYS_STAT {
        if may_touch(user, a0, a1) && may_touch(user, a2, 24) {
            Some(Call::Stat { path: UserSlice { ptr: a0, len: a1 }, out: a2 })
        } else {
            None
        }
    } else if num == SYS_WAIT {
        if a0 == 0 || may_touch(user, a0, 4) {
            Some(Call::Wait { status: a0 })
        } else {
            None
        }
    } else if num == SYS_EXEC {
        if may_touch(user, a0, a1) {
            Some(Call::Exec { path: UserSlice { ptr: a0, len: a1 }, argv: a2, envp: a3 })
        } else {
            None
        }
    } else if num == SYS_FORK {
        Some(Call::Fork)
    } else if num == SYS_PIPE {
        if may_touch(user, a0, 8) && a0 != 0 {
            Some(Call::Pipe { out: a0 })
        } else {
            None
        }
    } else if num == SYS_GETPPID {
        Some(Call::GetParent)
    } else if num == SYS_KILL {
        Some(Call::Kill { pid: a0, sig: a1 as u32 })
    } else if num == SYS_SIGNAL {
        Some(Call::Signal { sig: a0 as u32, handler: a1, restorer: a2 })
    } else if num == SYS_SIGRETURN {
        Some(Call::SigReturn)
    } else if num == SYS_WIN_CREATE {
        if a2 != 0 && !may_touch(user, a2, a3) {
            None
        } else if a2 != 0 && a3 > 0 {
            Some(Call::WinCreate { width: a0, height: a1, title: Some(UserSlice { ptr: a2, len: a3 }) })
        } else {
            Some(Call::WinCreate { width: a0, height: a1, title: None })
        }
    } else if num == SYS_WIN_COMMIT {
        if (!user || owns) && may_touch(user, a1, a2) {
            Some(Call::WinCommit { id: a0, pixels: UserSlice { ptr: a1, len: a2 } })
        } else {
            None
        }
    } else if num == SYS_WIN_POLL {
        if (!user || owns) && may_touch(user, a1, 16) {
            Some(Call::WinPoll { id: a0, out: a1 })
        } else {
            None
        }
    } else if num == SYS_WIN_DESTROY {
        if !user || owns {
            Some(Call::WinDestroy { id: a0 })
        } else {
            None
        }
    } else if num == SYS_WIN_INFO {
        if (!user || owns) && may_touch(user, a1, 16) {
            Some(Call::WinInfo { id: a0, out: a1 })
        } else {
            None
        }
    } else if num == SYS_SOCKET {
        if a0 == AF_INET && a1 == SOCK_STREAM {
            Some(Call::Socket)
        } else {
            None
        }
    } else if num == SYS_BIND {
        if may_touch(user, a1, a2) && a2 >= 8 {
            Some(Call::Bind { fd: a0 as u32, addr: UserSlice { ptr: a1, len: a2 } })
        } else {
            None
        }
    } else if num == SYS_CONNECT {
        if may_touch(user, a1, a2) && a2 >= 8 {
            Some(Call::Connect { fd: a0 as u32, addr: UserSlice { ptr: a1, len: a2 } })
        } else {
            None
        }
    } else if num == SYS_LISTEN {
        Some(Call::Listen { fd: a0 as u32 })
    } else if num == SYS_ACCEPT {
        if a1 == 0 {
            Some(Call::Accept { fd: a0 as u32, addr: None })
        } else if a2 >= 8 && may_touch(user, a1, a2) {
            Some(Call::Accept { fd: a0 as u32, addr: Some(UserSlice { ptr: a1, len: a2 }) })
        } else {
            None
        }
    } else if num == SYS_SEND {
        if may_touch(user, a1, a2) {
            Some(Call::Send { fd: a0 as u32, buf: UserSlice { ptr: a1, len: a2 } })
        } else {
            None
        }
    } else if num == SYS_RECV {
        if may_touch(user, a1, a2) {
            Some(Call::Recv { fd: a0 as u32, buf: UserSlice { ptr: a1, len: a2 } })
        } else {
            None
        }
    } else if num == SYS_SHUTDOWN {
        Some(Call::Shutdown { fd: a0 as u32 })
    } else {
        None
    }
}

/// Decodes a system call from the caller's registers.
pub fn decode(f: &SyscallFrame, user: bool, owns: bool) -> (r: Option<Call>)
    ensures
        r == decode_s(*f, user, owns),
{
    let num: u64 = f.rax;
    let a0: u64 = f.rdi;
    let a1: u64 = f.rsi;
    let a2: u64 = f.rdx;
    let a3: u64 = f.r10;
    if num == SYS_PRINT {
        if may_touch_range(user, a0, a1) {
            Some(Call::Print { text: UserSlice { ptr: a0, len: a1 } })
        } else {
            None
        }
    } else if num == SYS_GETPID {
        Some(Call::GetPid)
    } else if num == SYS_EXIT || num == SYS_EXIT2 {
        Some(Call::Exit { status: a0 as i32 })
    } else if num == SYS_YIELD {
        Some(Call::Yield)
    } else if num == SYS_TICKS {
        Some(Call::Ticks)
    } else if num == SYS_IPC_SEND {
        Some(Call::IpcSend { endpoint: a0, tag: a1 })
    } else if num == SYS_IPC_RECV {
        Some(Call::IpcRecv { endpoint: a0 })
    } else if num == SYS_CAP_CHECK {
        Some(Call::CapCheck { slot: a0, rights: Rights(a1 as u32) })
    } else if num == SYS_SLEEP {
        Some(Call::Sleep { ticks: a0 })
    } else if num == SYS_MMAP {
        if user {
            Some(Call::Mmap { len: a1 })
        } else {
            None
        }
    } else if num == SYS_MUNMAP {
        if user {
            Some(Call::Munmap { addr: a0, len: a1 })
        } else {
            None
        }
    } else if num == SYS_OPEN {
        if may_touch_range(user, a0, a1) {
            Some(Call::Open { path: UserSlice { ptr: a0, len: a1 }, flags: sys_open_flags_from_raw(a2) })
        } else {
            None
        }
    } else if num == SYS_READ {
        if may_touch_range(user, a1, a2) {
            Some(Call::Read { fd: a0 as u32, buf: UserSlice { ptr: a1, len: a2 } })
        } else {
            None
        }
    } else if num == SYS_WRITE {
        if may_touch_range(user, a1, a2) {
            Some(Call::Write { fd: a0 as u32, buf: UserSlice { ptr: a1, len: a2 } })
        } else {
            None
        }
    } else if num == SYS_CLOSE {
        Some(Call::Close { fd: a0 as u32 })
    } else if num == SYS_LSEEK {
        if a2 == 0 {
            Some(Call::Seek { fd: a0 as u32, offset: a1 as i64, whence: SeekWhence::Start })
        } else if a2 == 1 {
            Some(Call::Seek { fd: a0 as u32, offset: a1 as i64, whence: SeekWhence::Current })
        } else if a2 == 2 {
            Some(Call::Seek { fd: a0 as u32, offset: a1 as i64, whence: SeekWhence::End })
        } else {
            None
        }
    } else if num == SYS_UNLINK {
        if may_touch_range(user, a0, a1) {
            Some(Call::Unlink { path: UserSlice { ptr: a0, len: a1 } })
        } else {
            None
        }
    } else if num == SYS_RMDIR {
        if may_touch_range(user, a0, a1) {
            Some(Call::Rmdir { path: UserSlice { ptr: a0, len: a1 } })
        } else {
            None
        }
    } else if num == SYS_MKDIR {
        if may_touch_range(user, a0, a1) {
            Some(Call::Mkdir { path: UserSlice { ptr: a0, len: a1 } })
        } else {
            None
        }
    } else if num == SYS_TRUNCATE {
        if may_touch_range(user, a0, a1) {
            Some(Call::Truncate { path: UserSlice { ptr: a0, len: a1 }, size: a2 })
        } else {
            None
        }
    } else if num == SYS_CHMOD {
        if may_touch_range(user, a0, a1) {
            Some(Call::Chmod { path: UserSlice { ptr: a0, len: a1 }, mode: a2 as u16 })
        } else {
            None
        }
    } else if num == SYS_CHOWN {
        if may_touch_range(user, a0, a1) {
            Some(Call::Chown {
                path: UserSlice { ptr: a0, len: a1 },
                uid: ((a2 >> 16) & 0xFFFF) as u16,
                gid: (a2 & 0xFFFF) as u16,
            })
        } else {
            None
        }
    } else if num == SYS_STAT {
        if may_touch_range(user, a0, a1) && may_touch_range(user, a2, 24) {
            Some(Call::Stat { path: UserSlice { ptr: a0, len: a1 }, out: a2 })
        } else {
            None
        }
    } else if num == SYS_WAIT {
        if a0 == 0 || may_touch_range(user, a0, 4) {
            Some(Call::Wait { status: a0 })
        } else {
            None
        }
    } else if num == SYS_EXEC {
        if may_touch_range(user, a0, a1) {
            Some(Call::Exec { path: UserSlice { ptr: a0, len: a1 }, argv: a2, envp: a3 })
        } else {
            None
        }
    } else if num == SYS_FORK {
        Some(Call::Fork)
    } else if num == SYS_PIPE {
        if may_touch_range(user, a0, 8) && a0 != 0 {
            Some(Call::Pipe { out: a0 })
        } else {
            None
        }
    } else if num == SYS_GETPPID {
        Some(Call::GetParent)
    } else if num == SYS_KILL {
        Some(Call::Kill { pid: a0, sig: a1 as u32 })
    } else if num == SYS_SIGNAL {
        Some(Call::Signal { sig: a0 as u32, handler: a1, restorer: a2 })
    } else if num == SYS_SIGRETURN {
        Some(Call::SigReturn)
    } else if num == SYS_WIN_CREATE {
        if a2 != 0 && !may_touch_range(user, a2, a3) {
            None
        } else if a2 != 0 && a3 > 0 {
            Some(Call::WinCreate { width: a0, height: a1, title: Some(UserSlice { ptr: a2, len: a3 }) })
        } else {
            Some(Call::WinCreate { width: a0, height: a1, title: None })
        }
    } else if num == SYS_WIN_COMMIT {
        if (!user || owns) && may_touch_range(user, a1, a2) {
            Some(Call::WinCommit { id: a0, pixels: UserSlice { ptr: a1, len: a2 } })
        } else {
            None
        }
    } else if num == SYS_WIN_POLL {
        if (!user || owns) && may_touch_range(user, a1, 16) {
            Some(Call::WinPoll { id: a0, out: a1 })
        } else {
            None
        }
    } else if num == SYS_WIN_DESTROY {
        if !user || owns {
            Some(Call::WinDestroy { id: a0 })
        } else {
            None
        }
    } else if num == SYS_WIN_INFO {
        if (!user || owns) && may_touch_range(user, a1, 16) {
            Some(Call::WinInfo { id: a0, out: a1 })
        } else {
            None
        }
    } else if num == SYS_SOCKET {
        if a0 == AF_INET && a1 == SOCK_STREAM {
            Some(Call::Socket)
        } else {
            None
        }
    } else if num == SYS_BIND {
        if may_touch_range(user, a1, a2) && a2 >= 8 {
            Some(Call::Bind { fd: a0 as u32, addr: UserSlice { ptr: a1, len: a2 } })
        } else {
            None
        }
    } else if num == SYS_CONNECT {
        if may_touch_range(user, a1, a2) && a2 >= 8 {
            Some(Call::Connect { fd: a0 as u32, addr: UserSlice { ptr: a1, len: a2 } })
        } else {
            None
        }
    } else if num == SYS_LISTEN {
        Some(Call::Listen { fd: a0 as u32 })
    } else if num == SYS_ACCEPT {
        if a1 == 0 {
            Some(Call::Accept { fd: a0 as u32, addr: None })
        } else if a2 >= 8 && may_touch_range(user, a1, a2) {
            Some(Call::Accept { fd: a0 as u32, addr: Some(UserSlice { ptr: a1, len: a2 }) })
        } else {
            None
        }
    } else if num == SYS_SEND {
        if may_touch_range(user, a1, a2) {
            Some(Call::Send { fd: a0 as u32, buf: UserSlice { ptr: a1, len: a2 } })
        } else {
            None
        }
    } else if num == SYS_RECV {
        if may_touch_range(user, a1, a2) {
            Some(Call::Recv { fd: a0 as u32, buf: UserSlice { ptr: a1, len: a2 } })
        } else {
            None
        }
    } else if num == SYS_SHUTDOWN {
        Some(Call::Shutdown { fd: a0 as u32 })
    } else {
        None
    }
}

/// The ranges of the caller's memory that a call touches by itself. The argument
/// vectors of `Exec` are walked with their own checks.
pub open spec fn ranges(c: Call) -> Seq<UserSlice> {
    match c {
        Call::Print { text } => seq![text],
        Call::Open { path, flags } => seq![path],
        Call::Read { fd, buf } => seq![buf],
        Call::Write { fd, buf } => seq![buf],
        Call::Unlink { path } => seq![path],
        Call::Rmdir { path } => seq![path],
        Call::Mkdir { path } => seq![path],
        Call::Truncate { path, size } => seq![path],
        Call::Chmod { path, mode } => seq![path],
        Call::Chown { path, uid, gid } => seq![path],
        Call::Stat { path, out } => seq![path, UserSlice { ptr: out, len: 24 }],
        Call::Wait { status } => if status == 0 {
            Seq::empty()
        } else {
            seq![UserSlice { ptr: status, len: 4 }]
        },
        Call::Exec { path, argv, envp } => seq![path],
        Call::Pipe { out } => seq![UserSlice { ptr: out, len: 8 }],
        Call::WinCreate { width, height, title } => match title {
            Some(t) => seq![t],
            None => Seq::empty(),
        },
        Call::WinCommit { id, pixels } => seq![pixels],
        Call::WinPoll { id, out } => seq![UserSlice { ptr: out, len: 16 }],
        Call::WinInfo { id, out } => seq![UserSlice { ptr: out, len: 16 }],
        Call::Bind { fd, addr } => seq![addr],
        Call::Connect { fd, addr } => seq![addr],
        Call::Accept { fd, addr } => match addr {
            Some(a) => seq![a],
            None => Seq::empty(),
        },
        Call::Send { fd, buf } => seq![buf],
        Call::Recv { fd, buf } => seq![buf],
        _ => Seq::empty(),
    }
}

/// Whatever a user task puts into its registers, the ranges that its call makes
/// the kernel touch lie in user space.
pub proof fn law_user_calls_stay_in_user_space(f: SyscallFrame, owns: bool, i: int)
    requires
        decode_s(f, true, owns) is Some,
        0 <= i < ranges(decode_s(f, true, owns)->Some_0).len(),
    ensures
        ({
            let s = ranges(decode_s(f, true, owns)->Some_0)[i];
            in_user_space(s.ptr, s.len)
        }),
{
}

/// A user task cannot use a window of another.
pub proof fn law_windows_belong_to_their_owner(f: SyscallFrame)
    requires
        f.rax == SYS_WIN_COMMIT || f.rax == SYS_WIN_POLL || f.rax == SYS_WIN_DESTROY || f.rax
            == SYS_WIN_INFO,
    ensures
        decode_s(f, true, false) is None,
{
}

/// Whether pending signals are delivered on the way back from a call: not from
/// the one that has just restored an interrupted context.
pub fn delivers_signals(f: &SyscallFrame) -> (r: bool)
    ensures
        r == (f.rax != SYS_SIGRETURN),
{
    f.rax != SYS_SIGRETURN
}

} // verus!
