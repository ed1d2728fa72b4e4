//! What the operations on sockets do, by number.

use super::sockets::{
    close_s, connect_s, is_active_s, least, listen_s, may_recv_s, may_send_s, sockets_of,
    SocketView, TcpView,
};
use super::stack::{local_address_s, stack_ok, StackView};
use smoltcp::iface::{SocketHandle, SocketSet};
use vstd::prelude::*;

verus! {

/// The sockets by number, and the sockets themselves.
#[verifier::ext_equal]
pub struct NetView {
    pub stack: StackView,
    pub sockets: Map<SocketHandle, SocketView>,
}

/// The sockets of a stack.
pub open spec fn net(v: StackView, s: SocketSet<'static>) -> NetView {
    NetView { stack: v, sockets: sockets_of(s) }
}

/// Whether a number means a socket.
pub open spec fn known(n: NetView, id: u32) -> bool {
    n.stack.handles.contains_key(id)
}

/// The TCP socket behind a number.
pub open spec fn tcp(n: NetView, id: u32) -> TcpView {
    n.sockets[n.stack.handles[id]]->Tcp_0
}

/// A number that means a socket means one of TCP.
pub open spec fn tcp_if_known(n: NetView, id: u32) -> bool {
    known(n, id) ==> n.sockets.contains_key(n.stack.handles[id])
        && n.sockets[n.stack.handles[id]] is Tcp
}

/// The sockets with one of them changed.
pub open spec fn put(n: NetView, id: u32, t: TcpView) -> NetView {
    NetView { sockets: n.sockets.insert(n.stack.handles[id], SocketView::Tcp(t)), ..n }
}

/// Noting the port that a socket is to listen on: whether there is such a socket.
pub open spec fn bound_s(n: NetView, id: u32, port: u16) -> (bool, NetView) {
    if known(n, id) {
        let stack = StackView { ports: n.stack.ports.insert(id, port), ..n.stack };
        (true, NetView { stack, ..n })
    } else {
        (false, n)
    }
}

/// Listening on the port that a socket was bound to, or on the echo port.
pub open spec fn listening_s(n: NetView, id: u32) -> (bool, NetView) {
    if known(n, id) {
        let port = if n.stack.ports.contains_key(id) {
            n.stack.ports[id]
        } else {
            7
        };
        let (ok, t) = listen_s(tcp(n, id), port);
        (ok, put(n, id, t))
    } else {
        (false, n)
    }
}

/// Connecting to a peer from a local port.
pub open spec fn connecting_s(n: NetView, id: u32, ip: Seq<u8>, port: u16, local_port: u16) -> (
    bool,
    NetView,
) {
    if known(n, id) {
        let (ok, t) = connect_s(tcp(n, id), ip, port, local_address_s(), local_port);
        (ok, put(n, id, t))
    } else {
        (false, n)
    }
}

/// Reading what was received into a buffer: how many bytes there were, none from a
/// socket that cannot receive; and the buffer after.
pub open spec fn received_s(n: NetView, id: u32, buf: Seq<u8>) -> (Option<nat>, NetView, Seq<u8>) {
    let t = tcp(n, id);
    if !known(n, id) {
        (None, n, buf)
    } else if !may_recv_s(t) {
        (Some(0), n, buf)
    } else {
        let k = least(buf.len() as int, t.received.len() as int);
        (
            Some(k as nat),
            put(n, id, TcpView { received: t.received.skip(k), ..t }),
            t.received.take(k) + buf.skip(k),
        )
    }
}

/// Queueing data to be sent: how many bytes there was room for, none on a socket that
/// cannot send.
pub open spec fn sent_s(n: NetView, id: u32, data: Seq<u8>) -> (Option<nat>, NetView) {
    let t = tcp(n, id);
    if !known(n, id) {
        (None, n)
    } else if !may_send_s(t) {
        (Some(0), n)
    } else {
        let k = least(data.len() as int, t.room as int);
        let t1 = TcpView { queued: t.queued + data.take(k), room: (t.room - k) as nat, ..t };
        (Some(k as nat), put(n, id, t1))
    }
}

/// Whether a socket that listened has a connection that data can go through.
pub open spec fn ready_s(n: NetView, id: u32) -> bool {
    &&& known(n, id)
    &&& is_active_s(tcp(n, id))
    &&& may_recv_s(tcp(n, id)) || may_send_s(tcp(n, id))
}

/// Closing a socket.
pub open spec fn shut_s(n: NetView, id: u32) -> NetView {
    if known(n, id) {
        put(n, id, close_s(tcp(n, id)))
    } else {
        n
    }
}

/// Closing a socket and giving up its number.
pub open spec fn destroyed_s(n: NetView, id: u32) -> NetView {
    NetView {
        stack: StackView {
            handles: n.stack.handles.remove(id),
            ports: n.stack.ports.remove(id),
            ..n.stack
        },
        sockets: if known(n, id) {
            n.sockets.remove(n.stack.handles[id])
        } else {
            n.sockets
        },
    }
}

/// Destroying sockets in turn.
pub open spec fn destroyed_all_s(n: NetView, ids: Seq<u32>) -> NetView
    decreases ids.len(),
{
    if ids.len() == 0 {
        n
    } else {
        destroyed_s(destroyed_all_s(n, ids.drop_last()), ids.last())
    }
}

/// What is destroyed is gone, and other sockets stay what they are.
pub proof fn lemma_destroyed_keeps(v: StackView, s: SocketSet<'static>, id: u32, other: u32)
    requires
        stack_ok(v, s),
    ensures
        ({
            let n = net(v, s);
            let n1 = destroyed_s(n, id);
            &&& !known(n1, id)
            &&& other != id ==> known(n1, other) == known(n, other)
            &&& other != id && known(n, other) ==> n1.sockets.contains_key(n1.stack.handles[other])
                && n1.stack.handles[other] == n.stack.handles[other] && tcp(n1, other) == tcp(
                n,
                other,
            )
            &&& tcp_if_known(n, other) ==> tcp_if_known(n1, other)
        }),
{
    if known(net(v, s), other) && known(net(v, s), id) && other != id {
        assert(v.handles[other] != v.handles[id]);
    }
}

/// Sending in two calls is sending at once, as far as there is room.
pub proof fn law_send_in_parts(n: NetView, id: u32, a: Seq<u8>, b: Seq<u8>)
    requires
        a.len() + b.len() <= tcp(n, id).room,
    ensures
        sent_s(sent_s(n, id, a).1, id, b).1 == sent_s(n, id, a + b).1,
{
    let t = tcp(n, id);
    assert(a.take(a.len() as int) =~= a);
    assert(b.take(b.len() as int) =~= b);
    assert((a + b).take((a + b).len() as int) =~= a + b);
    assert(t.queued + a + b =~= t.queued + (a + b));
    assert(sent_s(sent_s(n, id, a).1, id, b).1.sockets =~= sent_s(n, id, a + b).1.sockets);
}

/// Reading into two buffers is reading into one that is as long as both.
pub proof fn law_receive_in_parts(n: NetView, id: u32, a: Seq<u8>, b: Seq<u8>)
    requires
        known(n, id),
    ensures
        ({
            let (ka, na, ba) = received_s(n, id, a);
            let (kb, nb, bb) = received_s(na, id, b);
            let (k, nk, bk) = received_s(n, id, a + b);
            &&& k->Some_0 == ka->Some_0 + kb->Some_0
            &&& nb == nk
            &&& bk.take(k->Some_0 as int) == ba.take(ka->Some_0 as int) + bb.take(
                kb->Some_0 as int,
            )
        }),
{
    let t = tcp(n, id);
    let (ka, na, ba) = received_s(n, id, a);
    let (kb, nb, bb) = received_s(na, id, b);
    let (k, nk, bk) = received_s(n, id, a + b);
    let x = ka->Some_0 as int;
    let y = kb->Some_0 as int;
    if may_recv_s(t) {
        assert(t.received.skip(x).skip(y) =~= t.received.skip(x + y));
        assert(t.received.skip(x).skip(0) =~= t.received.skip(x));
    }
    assert(nb.sockets =~= nk.sockets);
    assert(bk.take(k->Some_0 as int) =~= ba.take(x) + bb.take(y));
}

} // verus!
