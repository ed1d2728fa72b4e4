//! System calls on sockets.

use super::args::{accept_waits, ephemeral_port, peer_bytes, peer_bytes_s, socket_address};
use super::{Call, FAILED};
use crate::bytes::splice_into;
use crate::driver::block::BlockDevice;
use crate::fs::fds::{handle, FileType};
use crate::fs::vfs::net::{descriptors_ok, get_socket_id, socket_behind, tcp_behind};
use crate::fs::vfs::{self, add_file_s, frame, lemma_frame_refl, FileSystem, FilesView};
use crate::net::model::{
    bound_s, connecting_s, listening_s, net, ready_s, received_s, sent_s, shut_s, tcp,
    tcp_if_known, NetView,
};
use crate::net::sockets::{close_s, fresh_tcp, sockets_of, SocketView};
use crate::net::stack::{added_s, stack_ok, NetworkStack, MAX_SOCKETS, TCP_BUFFER};
use smoltcp::iface::{Interface, SocketSet};
use vstd::prelude::*;

verus! {

/// How a call on a socket goes on: it returns a value, or it is to be made again after
/// other tasks had their turn.
#[derive(Debug, Clone, Copy, PartialEq, Eq, Structural)]
pub enum SocketReply {
    Value(u64),
    Wait,
}

/// Whether a call is one on a socket.
pub open spec fn is_socket_call_s(c: Call) -> bool {
    ||| c is Socket || c is Bind || c is Connect || c is Listen || c is Accept
    ||| c is Send || c is Recv || c is Shutdown
}

/// Whether a call is one on a socket.
pub fn is_socket_call(c: &Call) -> (r: bool)
    ensures
        r == is_socket_call_s(*c),
{
    match *c {
        Call::Socket => true,
        Call::Bind { .. } => true,
        Call::Connect { .. } => true,
        Call::Listen { .. } => true,
        Call::Accept { .. } => true,
        Call::Send { .. } => true,
        Call::Recv { .. } => true,
        Call::Shutdown { .. } => true,
        _ => false,
    }
}

/// The descriptor that a call names.
pub open spec fn socket_fd(c: Call) -> u32 {
    match c {
        Call::Bind { fd, .. } => fd,
        Call::Connect { fd, .. } => fd,
        Call::Listen { fd } => fd,
        Call::Accept { fd, .. } => fd,
        Call::Send { fd, .. } => fd,
        Call::Recv { fd, .. } => fd,
        Call::Shutdown { fd } => fd,
        _ => 0,
    }
}

/// The value for an operation that succeeds or fails.
pub open spec fn done_or_failed(ok: bool) -> SocketReply {
    SocketReply::Value(
        if ok {
            0
        } else {
            FAILED
        },
    )
}

/// The value for an operation that counts bytes or fails.
pub open spec fn count_or_failed(k: Option<nat>) -> SocketReply {
    match k {
        Some(k) => SocketReply::Value(k as u64),
        None => SocketReply::Value(FAILED),
    }
}

/// The port of a socket address.
pub open spec fn port_in(addr: Seq<u8>) -> u16 {
    (256 * addr[2] + addr[3]) as u16
}

/// The local port of an outgoing connection.
pub open spec fn local_port(id: u32) -> u16 {
    (49152 + (id as u16) % 10000) as u16
}

/// What a call does on socket `id`, which its descriptor means: `input` is what the
/// caller handed in, `out` is for what it gets, and accept has been tried `spins` times.
pub open spec fn on_socket_s(
    n: NetView,
    id: u32,
    c: Call,
    input: Seq<u8>,
    out: Seq<u8>,
    spins: u64,
) -> (SocketReply, NetView, Seq<u8>) {
    let failed = (SocketReply::Value(FAILED), n, out);
    match c {
        Call::Bind { .. } => if input.len() < 8 {
            failed
        } else {
            let (ok, n1) = bound_s(n, id, port_in(input));
            (done_or_failed(ok), n1, out)
        },
        Call::Listen { .. } => {
            let (ok, n1) = listening_s(n, id);
            (done_or_failed(ok), n1, out)
        },
        Call::Connect { .. } => if input.len() < 8 {
            failed
        } else {
            let (ok, n1) = connecting_s(
                n,
                id,
                input.subrange(4, 8),
                port_in(input),
                local_port(id),
            );
            (done_or_failed(ok), n1, out)
        },
        Call::Accept { fd, addr } => if addr is Some && out.len() < 8 {
            failed
        } else if ready_s(n, id) {
            (
                SocketReply::Value(fd as u64),
                n,
                if addr is Some {
                    peer_bytes_s(tcp(n, id).peer) + out.skip(8)
                } else {
                    out
                },
            )
        } else if spins + 1 >= 50_000_000 {
            failed
        } else {
            (SocketReply::Wait, n, out)
        },
        Call::Send { .. } => {
            let (k, n1) = sent_s(n, id, input);
            (count_or_failed(k), n1, out)
        },
        Call::Recv { .. } => {
            let (k, n1, out1) = received_s(n, id, out);
            (count_or_failed(k), n1, out1)
        },
        Call::Shutdown { .. } => (SocketReply::Value(0), shut_s(n, id), out),
        _ => failed,
    }
}

/// A socket was asked for: there are too many; or there is a new one, not connected,
/// behind a new descriptor; or there is no descriptor for it, and it is closed again.
pub open spec fn socket_made(
    f0: FilesView,
    n0: NetView,
    task: u32,
    f1: FilesView,
    n1: NetView,
    r: SocketReply,
) -> bool {
    if n0.stack.handles.len() >= MAX_SOCKETS {
        r == SocketReply::Value(FAILED) && f1 == f0 && n1 == n0
    } else {
        let id = n0.stack.next;
        let h = n1.stack.handles[id];
        let t = fresh_tcp(TCP_BUFFER as nat);
        let (x, f) = add_file_s(f0, task, handle(FileType::Socket(id), true, true));
        &&& f1 == f
        &&& !n0.sockets.contains_key(h)
        &&& n1.stack == added_s(n0.stack, h)
        &&& match x {
            Ok(fd) => {
                &&& r == SocketReply::Value(fd as u64)
                &&& n1.sockets == n0.sockets.insert(h, SocketView::Tcp(t))
            },
            Err(_) => {
                &&& r == SocketReply::Value(FAILED)
                &&& n1.sockets == n0.sockets.insert(h, SocketView::Tcp(close_s(t)))
            },
        }
    }
}

/// How a call on a socket is served. A descriptor that is none of a socket fails, and
/// then nothing changes.
pub open spec fn socket_served(
    f0: FilesView,
    n0: NetView,
    task: u32,
    c: Call,
    input: Seq<u8>,
    out0: Seq<u8>,
    spins: u64,
    f1: FilesView,
    n1: NetView,
    out1: Seq<u8>,
    r: SocketReply,
) -> bool {
    if c is Socket {
        socket_made(f0, n0, task, f1, n1, r) && out1 == out0
    } else {
        &&& f1 == f0
        &&& (r, n1, out1) == (match socket_behind(f0, task, socket_fd(c)) {
            Some(id) => on_socket_s(n0, id, c, input, out0, spins),
            None => (SocketReply::Value(FAILED), n0, out0),
        })
    }
}

/// Makes a socket behind a new descriptor.
fn make_socket<D: BlockDevice>(
    files: &mut FileSystem<D>,
    stack: &mut NetworkStack,
    s: &mut SocketSet<'static>,
    task: u32,
) -> (r: SocketReply)
    requires
        old(files).wf(),
        stack_ok(old(stack)@, *old(s)),
        old(stack)@.next < u32::MAX,
    ensures
        frame(*old(files), *final(files)),
        stack_ok(final(stack)@, *final(s)),
        socket_made(
            old(files)@,
            net(old(stack)@, *old(s)),
            task,
            final(files)@,
            net(final(stack)@, *final(s)),
            r,
        ),
{
    proof {
        lemma_frame_refl(*files);
    }
    let id: u32 = match stack.create_tcp_socket(s) {
        Ok(id) => id,
        Err(_) => return SocketReply::Value(FAILED),
    };
    let ghost h = stack@.handles[id];
    match vfs::socket(files, task, id) {
        Ok(fd) => SocketReply::Value(fd as u64),
        Err(_) => {
            stack.tcp_close(s, id);
            assert(sockets_of(*s) =~= sockets_of(*old(s)).insert(
                h,
                SocketView::Tcp(close_s(fresh_tcp(TCP_BUFFER as nat))),
            ));
            SocketReply::Value(FAILED)
        },
    }
}

/// Looks whether a connection is there to be accepted, and reports its peer.
fn accept(
    stack: &NetworkStack,
    s: &SocketSet<'static>,
    id: u32,
    fd: u32,
    wants_address: bool,
    out: &mut [u8],
    spins: u64,
) -> (r: SocketReply)
    requires
        tcp_if_known(net(stack@, *s), id),
    ensures
        final(out)@.len() == old(out)@.len(),
        ({
            let n = net(stack@, *s);
            if wants_address && old(out)@.len() < 8 {
                r == SocketReply::Value(FAILED) && final(out)@ == old(out)@
            } else if ready_s(n, id) {
                &&& r == SocketReply::Value(fd as u64)
                &&& final(out)@ == (if wants_address {
                    peer_bytes_s(tcp(n, id).peer) + old(out)@.skip(8)
                } else {
                    old(out)@
                })
            } else if spins + 1 >= 50_000_000 {
                r == SocketReply::Value(FAILED) && final(out)@ == old(out)@
            } else {
                r == SocketReply::Wait && final(out)@ == old(out)@
            }
        }),
{
    if wants_address && out.len() < 8 {
        return SocketReply::Value(FAILED);
    }
    match accept_waits(stack.tcp_accept_ready(s, id), spins) {
        None => SocketReply::Wait,
        Some(false) => SocketReply::Value(FAILED),
        Some(true) => {
            if wants_address {
                let bytes = peer_bytes(stack.tcp_remote_endpoint(s, id));
                assert(bytes@ == peer_bytes_s(tcp(net(stack@, *s), id).peer));
                splice_into(out, 0, bytes.as_slice(), 0, 8);
                assert(bytes@.subrange(0, 8) =~= bytes@);
                assert(out@ =~= bytes@ + old(out)@.skip(8));
            }
            SocketReply::Value(fd as u64)
        },
    }
}

/// The reply of an operation that succeeds or fails.
fn status_of(r: Result<(), &'static str>) -> (v: SocketReply)
    ensures
        v == done_or_failed(r is Ok),
{
    match r {
        Ok(_) => SocketReply::Value(0),
        Err(_) => SocketReply::Value(FAILED),
    }
}

/// Carries out a call on socket `id`.
fn on_socket(
    stack: &mut NetworkStack,
    i: &mut Interface,
    s: &mut SocketSet<'static>,
    id: u32,
    c: &Call,
    input: &[u8],
    out: &mut [u8],
    spins: u64,
) -> (r: SocketReply)
    requires
        stack_ok(old(stack)@, *old(s)),
        tcp_if_known(net(old(stack)@, *old(s)), id),
    ensures
        stack_ok(final(stack)@, *final(s)),
        final(out)@.len() == old(out)@.len(),
        (r, net(final(stack)@, *final(s)), final(out)@) == on_socket_s(
            net(old(stack)@, *old(s)),
            id,
            *c,
            input@,
            old(out)@,
            spins,
        ),
{
    match *c {
        Call::Bind { .. } => {
            if input.len() < 8 {
                return SocketReply::Value(FAILED);
            }
            let (_, port) = socket_address(input);
            assert(port == port_in(input@));
            status_of(stack.tcp_bind(id, port))
        },
        Call::Listen { .. } => status_of(stack.listen_where_bound(s, id)),
        Call::Connect { .. } => {
            if input.len() < 8 {
                return SocketReply::Value(FAILED);
            }
            let (ip, port) = socket_address(input);
            assert(port == port_in(input@));
            let from: u16 = ephemeral_port(id);
            assert(from == local_port(id));
            status_of(stack.tcp_connect(i, s, id, ip, port, from))
        },
        Call::Accept { fd, addr } => accept(stack, s, id, fd, addr.is_some(), out, spins),
        Call::Send { .. } => {
            assert(input@.len() == input.len());
            match stack.tcp_send(s, id, input) {
                Ok(k) => SocketReply::Value(k as u64),
                Err(_) => SocketReply::Value(FAILED),
            }
        },
        Call::Recv { .. } => {
            assert(out@.len() == out.len());
            match stack.tcp_recv(s, id, out) {
                Ok(k) => SocketReply::Value(k as u64),
                Err(_) => SocketReply::Value(FAILED),
            }
        },
        Call::Shutdown { .. } => {
            stack.tcp_close(s, id);
            SocketReply::Value(0)
        },
        _ => SocketReply::Value(FAILED),
    }
}

/// Serves a call on a socket for task `me`. `input` is what the caller's memory holds
/// at the range that the call names, and `out` goes there afterwards; accept has been
/// tried `spins` times.
pub fn serve_socket<D: BlockDevice>(
    files: &mut FileSystem<D>,
    stack: &mut NetworkStack,
    i: &mut Interface,
    s: &mut SocketSet<'static>,
    me: u64,
    c: &Call,
    input: &[u8],
    out: &mut [u8],
    spins: u64,
) -> (r: SocketReply)
    requires
        is_socket_call_s(*c),
        old(files).wf(),
        stack_ok(old(stack)@, *old(s)),
        c is Socket ==> old(stack)@.next < u32::MAX,
        !(c is Socket) ==> tcp_behind(
            old(files)@,
            net(old(stack)@, *old(s)),
            me as u32,
            socket_fd(*c),
        ),
    ensures
        frame(*old(files), *final(files)),
        stack_ok(final(stack)@, *final(s)),
        final(out)@.len() == old(out)@.len(),
        socket_served(
            old(files)@,
            net(old(stack)@, *old(s)),
            me as u32,
            *c,
            input@,
            old(out)@,
            spins,
            final(files)@,
            net(final(stack)@, *final(s)),
            final(out)@,
            r,
        ),
{
    proof {
        lemma_frame_refl(*files);
    }
    let task: u32 = me as u32;
    let fd: u32 = match *c {
        Call::Socket => return make_socket(files, stack, s, task),
        Call::Bind { fd, .. } => fd,
        Call::Connect { fd, .. } => fd,
        Call::Listen { fd } => fd,
        Call::Accept { fd, .. } => fd,
        Call::Send { fd, .. } => fd,
        Call::Recv { fd, .. } => fd,
        Call::Shutdown { fd } => fd,
        _ => return SocketReply::Value(FAILED),
    };
    match get_socket_id(files, task, fd) {
        Some(id) => on_socket(stack, i, s, id, c, input, out, spins),
        None => SocketReply::Value(FAILED),
    }
}

/// A socket that was made is behind the descriptor that the call returned, and behind
/// no other; it is a TCP socket that is not connected.
pub proof fn law_new_socket_is_behind_its_descriptor(
    f0: FilesView,
    n0: NetView,
    task: u32,
    f1: FilesView,
    n1: NetView,
    r: u64,
    other_task: u32,
    other: u32,
)
    requires
        socket_made(f0, n0, task, f1, n1, SocketReply::Value(r)),
        r != FAILED,
        n0.stack.next < u32::MAX,
        descriptors_ok(f0, n0),
    ensures
        r <= u32::MAX,
        socket_behind(f1, task, r as u32) == Some(n0.stack.next),
        tcp(n1, n0.stack.next) == fresh_tcp(TCP_BUFFER as nat),
        (other_task, other) != (task, r as u32) ==> socket_behind(f1, other_task, other)
            == socket_behind(f0, other_task, other) && socket_behind(f1, other_task, other)
            != Some(n0.stack.next),
{
}

/// The calls on sockets keep descriptors in order: each that is one of a socket is one
/// of a TCP socket that was made before.
pub proof fn law_socket_calls_keep_descriptors(
    f0: FilesView,
    n0: NetView,
    task: u32,
    c: Call,
    input: Seq<u8>,
    out0: Seq<u8>,
    spins: u64,
    f1: FilesView,
    n1: NetView,
    out1: Seq<u8>,
    r: SocketReply,
)
    requires
        descriptors_ok(f0, n0),
        n0.stack.next < u32::MAX,
        forall|id: u32| #[trigger] n0.stack.handles.contains_key(id) ==> id < n0.stack.next,
        socket_served(f0, n0, task, c, input, out0, spins, f1, n1, out1, r),
    ensures
        descriptors_ok(f1, n1),
{
}

/// Outgoing connections come from the ten thousand ports from 49152 on, and those of the
/// first ten thousand sockets from ports of their own.
pub proof fn law_connections_come_from_their_own_ports(id: u32, other: u32)
    ensures
        49152 <= local_port(id) < 59152,
        id < 10000 ==> local_port(id) == 49152 + id,
        id < 10000 && other < 10000 && id != other ==> local_port(id) != local_port(other),
{
}

} // verus!
