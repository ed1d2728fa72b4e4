//! What callers put into their registers, and that they get what they asked for.

use super::{decode_s, open_flags_s, ranges, Call, SyscallFrame};
use crate::fs::fds::{OpenFlags, SeekWhence};
use vstd::prelude::*;

verus! {

/// The registers that carry a call: its number, and four arguments.
pub struct Registers {
    pub number: u64,
    pub a0: u64,
    pub a1: u64,
    pub a2: u64,
    pub a3: u64,
}

/// The arguments of a call that are in its registers.
pub open spec fn holds(f: SyscallFrame, r: Registers) -> bool {
    f.rax == r.number && f.rdi == r.a0 && f.rsi == r.a1 && f.rdx == r.a2 && f.r10 == r.a3
}

/// A number and up to four arguments.
pub open spec fn regs(number: u64, a0: u64, a1: u64, a2: u64, a3: u64) -> Registers {
    Registers { number, a0, a1, a2, a3 }
}

/// One bit of a word, or none.
pub open spec fn bit(on: bool, weight: int) -> int {
    if on {
        weight
    } else {
        0
    }
}

/// The word for the flags of an open call: the access mode is 0 to read, 1 to write and
/// 2 for both; 0x40 creates, 0x200 truncates, 0x400 appends.
pub open spec fn flag_word(f: OpenFlags) -> u64 {
    let mode: int = if f.read && f.write {
        2
    } else if f.write {
        1
    } else {
        0
    };
    (mode + bit(f.create, 0x40) + bit(f.truncate, 0x200) + bit(f.append, 0x400)) as u64
}

/// The word for a place that a seek counts from.
pub open spec fn whence_word(w: SeekWhence) -> u64 {
    match w {
        SeekWhence::Start => 0,
        SeekWhence::Current => 1,
        SeekWhence::End => 2,
    }
}

/// What a caller puts into its registers to ask for a call: its documented number, and
/// the arguments in their documented order.
pub open spec fn request(c: Call) -> Registers {
    match c {
        Call::Print { text } => regs(1, text.ptr, text.len, 0, 0),
        Call::GetPid => regs(2, 0, 0, 0, 0),
        Call::Exit { status } => regs(25, status as u64, 0, 0, 0),
        Call::Yield => regs(4, 0, 0, 0, 0),
        Call::Ticks => regs(5, 0, 0, 0, 0),
        Call::IpcSend { endpoint, tag } => regs(6, endpoint, tag, 0, 0),
        Call::IpcRecv { endpoint } => regs(7, endpoint, 0, 0, 0),
        Call::CapCheck { slot, rights } => regs(8, slot, rights.0 as u64, 0, 0),
        Call::Sleep { ticks } => regs(9, ticks, 0, 0, 0),
        Call::Mmap { len } => regs(11, 0, len, 0, 0),
        Call::Munmap { addr, len } => regs(12, addr, len, 0, 0),
        Call::Open { path, flags } => regs(13, path.ptr, path.len, flag_word(flags), 0),
        Call::Read { fd, buf } => regs(14, fd as u64, buf.ptr, buf.len, 0),
        Call::Write { fd, buf } => regs(15, fd as u64, buf.ptr, buf.len, 0),
        Call::Close { fd } => regs(16, fd as u64, 0, 0, 0),
        Call::Seek { fd, offset, whence } => regs(
            17,
            fd as u64,
            offset as u64,
            whence_word(whence),
            0,
        ),
        Call::Unlink { path } => regs(18, path.ptr, path.len, 0, 0),
        Call::Rmdir { path } => regs(19, path.ptr, path.len, 0, 0),
        Call::Mkdir { path } => regs(20, path.ptr, path.len, 0, 0),
        Call::Truncate { path, size } => regs(21, path.ptr, path.len, size, 0),
        Call::Chmod { path, mode } => regs(22, path.ptr, path.len, mode as u64, 0),
        Call::Chown { path, uid, gid } => regs(
            23,
            path.ptr,
            path.len,
            (65536 * uid + gid) as u64,
            0,
        ),
        Call::Stat { path, out } => regs(24, path.ptr, path.len, out, 0),
        Call::Wait { status } => regs(26, status, 0, 0, 0),
        Call::Exec { path, argv, envp } => regs(27, path.ptr, path.len, argv, envp),
        Call::Fork => regs(28, 0, 0, 0, 0),
        Call::Pipe { out } => regs(29, out, 0, 0, 0),
        Call::GetParent => regs(30, 0, 0, 0, 0),
        Call::Kill { pid, sig } => regs(31, pid, sig as u64, 0, 0),
        Call::Signal { sig, handler, restorer } => regs(32, sig as u64, handler, restorer, 0),
        Call::SigReturn => regs(33, 0, 0, 0, 0),
        Call::WinCreate { width, height, title } => match title {
            Some(t) => regs(34, width, height, t.ptr, t.len),
            None => regs(34, width, height, 0, 0),
        },
        Call::WinCommit { id, pixels } => regs(35, id, pixels.ptr, pixels.len, 0),
        Call::WinPoll { id, out } => regs(36, id, out, 0, 0),
        Call::WinDestroy { id } => regs(37, id, 0, 0, 0),
        Call::WinInfo { id, out } => regs(38, id, out, 0, 0),
        Call::Socket => regs(39, 2, 1, 0, 0),
        Call::Bind { fd, addr } => regs(40, fd as u64, addr.ptr, addr.len, 0),
        Call::Connect { fd, addr } => regs(41, fd as u64, addr.ptr, addr.len, 0),
        Call::Listen { fd } => regs(42, fd as u64, 0, 0, 0),
        Call::Accept { fd, addr } => match addr {
            Some(a) => regs(43, fd as u64, a.ptr, a.len, 0),
            None => regs(43, fd as u64, 0, 0, 0),
        },
        Call::Send { fd, buf } => regs(44, fd as u64, buf.ptr, buf.len, 0),
        Call::Recv { fd, buf } => regs(45, fd as u64, buf.ptr, buf.len, 0),
        Call::Shutdown { fd } => regs(46, fd as u64, 0, 0, 0),
    }
}

/// A call can be written into registers: a file is opened to read, to write or both, a
/// pipe has a place to go, a title has a place and a length, an address has one and at
/// least eight bytes.
pub open spec fn expressible(c: Call) -> bool {
    match c {
        Call::Open { flags, .. } => flags.read || flags.write,
        Call::Pipe { out } => out != 0,
        Call::WinCreate { title: Some(t), .. } => t.ptr != 0 && t.len > 0,
        Call::Bind { addr, .. } => addr.len >= 8,
        Call::Connect { addr, .. } => addr.len >= 8,
        Call::Accept { addr: Some(a), .. } => a.ptr != 0 && a.len >= 8,
        _ => true,
    }
}

/// A caller may make a call: only programs map memory; of a program the memory that is
/// touched ends with user space, and the window is its own.
pub open spec fn permitted(c: Call, user: bool, owns: bool) -> bool {
    &&& c is Mmap || c is Munmap ==> user
    &&& user && (c is WinCommit || c is WinPoll || c is WinDestroy || c is WinInfo) ==> owns
    &&& user ==> forall|i: int|
        0 <= i < ranges(c).len() ==> {
            let s = #[trigger] ranges(c)[i];
            s.ptr < 0x8000_0000_0000 && s.ptr + s.len <= 0x8000_0000_0000
        }
}

/// Flags survive being put into a word.
pub proof fn law_open_flags_read_back(f: OpenFlags)
    requires
        f.read || f.write,
    ensures
        open_flags_s(flag_word(f)) == f,
{
    let m: u64 = if f.read && f.write {
        2
    } else if f.write {
        1
    } else {
        0
    };
    let (c, t, a) = (f.create, f.truncate, f.append);
    let w = flag_word(f);
    assert(w & 3 == m && (w & 0x40 != 0) == c && (w & 0x200 != 0) == t && (w & 0x400 != 0) == a)
        by (bit_vector)
        requires
            m <= 2,
            w == m + (if c {
                0x40u64
            } else {
                0
            }) + (if t {
                0x200u64
            } else {
                0
            }) + (if a {
                0x400u64
            } else {
                0
            }),
    ;
}

proof fn lemma_words(status: i32, offset: i64, uid: u16, gid: u16)
    ensures
        (status as u64) as i32 == status,
        (offset as u64) as i64 == offset,
        ({
            let w = (65536 * uid + gid) as u64;
            ((w >> 16) & 0xFFFF) as u16 == uid && (w & 0xFFFF) as u16 == gid
        }),
{
    assert((status as u64) as i32 == status) by (bit_vector);
    assert((offset as u64) as i64 == offset) by (bit_vector);
    let w = (65536 * uid + gid) as u64;
    assert(((w >> 16) & 0xFFFF) as u16 == uid && (w & 0xFFFF) as u16 == gid) by (bit_vector)
        requires
            w == 65536 * uid + gid,
    ;
}

/// Every call can be asked for: whoever puts the number and the arguments of a call into
/// its registers, and may make it, makes that call and no other.
#[verifier::spinoff_prover]
#[verifier::rlimit(60)]
pub proof fn law_callers_get_what_they_ask_for(f: SyscallFrame, c: Call, user: bool, owns: bool)
    requires
        holds(f, request(c)),
        expressible(c),
        permitted(c, user, owns),
    ensures
        decode_s(f, user, owns) == Some(c),
{
    match c {
        Call::Exit { status } => lemma_words(status, 0, 0, 0),
        Call::Seek { offset, .. } => lemma_words(0, offset, 0, 0),
        Call::Chown { uid, gid, .. } => lemma_words(0, 0, uid, gid),
        Call::Open { flags, .. } => law_open_flags_read_back(flags),
        _ => {},
    }
    if ranges(c).len() > 0 {
        assert(user ==> ranges(c)[0].ptr + ranges(c)[0].len <= 0x8000_0000_0000);
    }
    if ranges(c).len() > 1 {
        assert(user ==> ranges(c)[1].ptr + ranges(c)[1].len <= 0x8000_0000_0000);
    }
}

/// A process ends by its first number for it as by its second.
pub proof fn law_exit_has_two_numbers(f: SyscallFrame, g: SyscallFrame, user: bool, owns: bool)
    requires
        f.rax == 3,
        g.rax == 25,
        f.rdi == g.rdi,
    ensures
        decode_s(f, user, owns) == decode_s(g, user, owns),
        decode_s(f, user, owns) is Some,
{
}

/// What is no call is refused: numbers that mean nothing, starting a program from
/// memory, mapping memory for the kernel, a seek from nowhere, a pipe to nowhere, other
/// sockets than those of internet streams, and addresses that are too short.
pub proof fn law_other_requests_are_refused(f: SyscallFrame, user: bool, owns: bool)
    requires
        ({
            ||| f.rax == 0 || f.rax == 10 || f.rax > 46
            ||| (f.rax == 11 || f.rax == 12) && !user
            ||| f.rax == 17 && f.rdx > 2
            ||| f.rax == 29 && f.rdi == 0
            ||| f.rax == 39 && !(f.rdi == 2 && f.rsi == 1)
            ||| (f.rax == 40 || f.rax == 41) && f.rdx < 8
            ||| f.rax == 43 && f.rsi != 0 && f.rdx < 8
        }),
    ensures
        decode_s(f, user, owns) is None,
{
}

/// A call that was decoded is one that the caller may make.
#[verifier::spinoff_prover]
#[verifier::rlimit(60)]
pub proof fn law_only_permitted_calls_are_made(f: SyscallFrame, user: bool, owns: bool)
    requires
        decode_s(f, user, owns) is Some,
    ensures
        permitted(decode_s(f, user, owns)->Some_0, user, owns),
{
}

} // verus!
