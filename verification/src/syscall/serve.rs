//! Serving the system calls that need nothing but the kernel's own state.

use super::files::{
    changes_path, close_call, path_call, path_call_done, pipe_call, pipe_reply, position, seek_call,
    stat_call, stat_path_s, stat_reply, status,
};
use super::{Call, FAILED};
use crate::bytes::utf8_text;
use crate::capability::{cap_at, check, CapTables, Rights, Slots};
use crate::driver::block::BlockDevice;
use crate::fs::vfs::net::{close_through_s, tcp_behind};
use crate::fs::vfs::{frame, lemma_frame_refl, on_disk, pipe_s, seek_s, FileSystem};
use crate::ipc::{receive_s, send_s, IpcState, IpcView, Message};
use crate::net::model::{net, NetView};
use crate::net::stack::{stack_ok, NetworkStack};
use smoltcp::iface::SocketSet;
use vstd::prelude::*;
use vstd::string::StringExecFns;
use vstd::utf8::{decode_utf8, valid_utf8};

verus! {

/// How a call was served.
#[derive(Debug)]
pub enum Served {
    /// The call returns a value.
    Value(u64),
    /// The text, if it is one, goes to the console; the call returns a value.
    Printed { text: Option<String>, value: u64 },
    /// A task is to be woken; the call returns zero.
    Sent { wake: Option<u64> },
    /// The caller is to block, and to call again once woken.
    Blocked,
    /// The bytes go to the caller's memory; the call returns a value.
    Stored { at: u64, bytes: Vec<u8>, value: u64 },
    /// The call is one on a socket, reads, writes or maps memory, or needs the scheduler
    /// or the window server.
    Elsewhere,
}

/// Whether a call needs nothing but the kernel's own state.
pub open spec fn served_here(c: Call) -> bool {
    ||| c is Print || c is GetPid || c is Ticks || c is IpcSend || c is IpcRecv || c is CapCheck
    ||| changes_path(c) || c is Stat || c is Pipe || c is Close || c is Seek
}

/// The value of a truth.
pub open spec fn truth(b: bool) -> u64 {
    if b {
        1
    } else {
        0
    }
}

/// Whether a task holds a capability with rights.
pub open spec fn held(caps: Map<u64, Slots>, me: u64, slot: int, rights: Rights) -> bool {
    cap_at(caps, me, slot) matches Some(cap) && cap.rights.includes(rights)
}

/// How a call is served: `input` is what the caller's memory holds at the range
/// that the call names.
pub open spec fn served_as<D: BlockDevice>(
    f0: FileSystem<D>,
    ipc0: IpcView,
    n0: NetView,
    caps: Map<u64, Slots>,
    me: u64,
    ticks: u64,
    now: u32,
    c: Call,
    input: Seq<u8>,
    f1: FileSystem<D>,
    ipc1: IpcView,
    n1: NetView,
    r: Served,
) -> bool {
    let task = me as u32;
    &&& frame(f0, f1)
    &&& !(c is IpcSend || c is IpcRecv) ==> ipc1 == ipc0
    &&& !(c is Close) ==> n1 == n0
    &&& !served_here(c) || c is Print || c is GetPid || c is Ticks || c is IpcSend || c is IpcRecv
        || c is CapCheck || c is Stat ==> f1@ == f0@
    &&& match c {
        Call::Print { text } => r is Printed && r->Printed_value == text.len && match r->text {
            Some(t) => valid_utf8(input) && t@ == decode_utf8(input),
            None => !valid_utf8(input),
        },
        Call::GetPid => r == Served::Value(me),
        Call::Ticks => r == Served::Value(ticks),
        Call::IpcSend { endpoint, tag } => r is Sent && exists|m: Message|
            m.tag == tag && m.words@ == seq![0u64, 0, 0, 0, 0, 0] && (r->wake, ipc1)
                == #[trigger] send_s(ipc0, endpoint, m, me),
        Call::IpcRecv { endpoint } => {
            let (m, after) = receive_s(ipc0, endpoint, me);
            ipc1 == after && r == (match m {
                Some(m) => Served::Value(m.tag),
                None => Served::Blocked,
            })
        },
        Call::CapCheck { slot, rights } => r == Served::Value(
            truth(slot <= usize::MAX && held(caps, me, slot as int, rights)),
        ),
        Call::Stat { out, .. } => {
            &&& r is Stored && r->at == out
            &&& !valid_utf8(input) ==> r->Stored_value == FAILED && r->bytes@.len() == 0
            &&& valid_utf8(input) ==> {
                ||| (r->Stored_value, r->bytes@) == stat_reply(stat_path_s(f0@, decode_utf8(input)))
                ||| !f0.reliable() && r->Stored_value == FAILED && r->bytes@.len() == 0
            }
        },
        Call::Pipe { out } => {
            let (p, f) = pipe_s(f0@, task);
            r is Stored && r->at == out && (r->Stored_value, r->bytes@) == pipe_reply(p) && f1@ == f
        },
        Call::Close { fd } => {
            let (x, f, n) = close_through_s(f0@, n0, task, fd);
            f1@ == f && n1 == n && r == Served::Value(status(x))
        },
        Call::Seek { fd, offset, whence } => {
            let (p, f) = seek_s(f0@, task, fd, offset, whence);
            ||| r == Served::Value(position(p)) && f1@ == f
            ||| on_disk(f0@, task, fd) && !f0.reliable() && r == Served::Value(FAILED) && f1@ == f0@
        },
        _ => if changes_path(c) {
            &&& r is Value
            &&& !valid_utf8(input) ==> r == Served::Value(FAILED) && f1@ == f0@
            &&& valid_utf8(input) ==> path_call_done(
                f0.reliable(),
                r->Value_0,
                f1@,
                f0@,
                task,
                c,
                decode_utf8(input),
                now,
            )
        } else {
            r is Elsewhere
        },
    }
}

/// Serves a decoded call for task `me`.
pub fn serve<D: BlockDevice>(
    files: &mut FileSystem<D>,
    ipc: &mut IpcState,
    stack: &mut NetworkStack,
    s: &mut SocketSet<'static>,
    caps: &CapTables,
    me: u64,
    ticks: u64,
    now: u32,
    c: &Call,
    input: &[u8],
) -> (r: Served)
    requires
        old(files).wf(),
        old(ipc).wf(),
        stack_ok(old(stack)@, *old(s)),
        c matches Call::Close { fd } ==> tcp_behind(
            old(files)@,
            net(old(stack)@, *old(s)),
            me as u32,
            *fd,
        ),
    ensures
        final(ipc).wf(),
        stack_ok(final(stack)@, *final(s)),
        served_as(
            *old(files),
            old(ipc)@,
            net(old(stack)@, *old(s)),
            caps@,
            me,
            ticks,
            now,
            *c,
            input@,
            *final(files),
            final(ipc)@,
            net(final(stack)@, *final(s)),
            r,
        ),
{
    proof {
        lemma_frame_refl(*files);
    }
    let task: u32 = me as u32;
    match *c {
        Call::Print { text } => Served::Printed {
            text: match utf8_text(input) {
                Some(t) => Some(t.to_owned()),
                None => None,
            },
            value: text.len,
        },
        Call::GetPid => Served::Value(me),
        Call::Ticks => Served::Value(ticks),
        Call::IpcSend { endpoint, tag } => {
            let m = Message::new(tag);
            let ghost before = ipc@;
            let wake = ipc.send(endpoint, m, me);
            assert((wake, ipc@) == send_s(before, endpoint, m, me));
            Served::Sent { wake }
        },
        Call::IpcRecv { endpoint } => match ipc.receive(endpoint, me) {
            Some(m) => Served::Value(m.tag),
            None => Served::Blocked,
        },
        Call::CapCheck { slot, rights } => {
            let ok = slot <= usize::MAX as u64 && check(caps, me, slot as usize, rights);
            Served::Value(
                if ok {
                    1
                } else {
                    0
                },
            )
        },
        Call::Stat { out, .. } => {
            let reply = stat_call(files, task, input);
            Served::Stored { at: out, bytes: reply.out, value: reply.value }
        },
        Call::Pipe { out } => {
            let reply = pipe_call(files, task);
            Served::Stored { at: out, bytes: reply.out, value: reply.value }
        },
        Call::Close { fd } => Served::Value(close_call(files, stack, s, task, fd)),
        Call::Seek { fd, offset, whence } => Served::Value(
            seek_call(files, task, fd, offset, whence),
        ),
        Call::Open { .. } => Served::Value(path_call(files, task, c, input, now)),
        Call::Unlink { .. } => Served::Value(path_call(files, task, c, input, now)),
        Call::Rmdir { .. } => Served::Value(path_call(files, task, c, input, now)),
        Call::Mkdir { .. } => Served::Value(path_call(files, task, c, input, now)),
        Call::Truncate { .. } => Served::Value(path_call(files, task, c, input, now)),
        Call::Chmod { .. } => Served::Value(path_call(files, task, c, input, now)),
        Call::Chown { .. } => Served::Value(path_call(files, task, c, input, now)),
        _ => Served::Elsewhere,
    }
}

} // verus!
