//! What programs can rely on of their sockets.

use super::model::{
    bound_s, connecting_s, known, listening_s, received_s, sent_s, shut_s, tcp, NetView,
};
use vstd::prelude::*;

verus! {

/// A socket that is not in use listens on the port that it was last bound to, and on the
/// echo port, 7, if it was bound to none; it has no peer and nothing waits in it. A port
/// that is zero cannot be listened on.
pub proof fn law_sockets_listen_where_bound(n: NetView, id: u32, port: u16)
    requires
        known(n, id),
        tcp(n, id).state is Closed,
    ensures
        ({
            let (ok, bound) = bound_s(n, id, port);
            let (listens, n1) = listening_s(bound, id);
            let t = tcp(n1, id);
            &&& ok
            &&& listens <==> port != 0
            &&& listens ==> t.state is Listen && t.port == port && t.peer is None && t.local is None
                && t.received.len() == 0 && t.queued.len() == 0
            &&& !listens ==> t == tcp(n, id)
        }),
        !n.stack.ports.contains_key(id) ==> ({
            let (listens, n1) = listening_s(n, id);
            listens && tcp(n1, id).state is Listen && tcp(n1, id).port == 7
        }),
{
}

/// A socket that is not in use connects to the peer that it is asked for, from the address
/// 10.0.2.15 and the port that is given. It cannot connect from or to port zero, nor to an
/// address that begins with zero, nor twice.
pub proof fn law_sockets_connect_to_their_peer(
    n: NetView,
    id: u32,
    ip: Seq<u8>,
    port: u16,
    local: u16,
)
    requires
        known(n, id),
        tcp(n, id).state is Closed,
        ip.len() == 4,
    ensures
        ({
            let (ok, n1) = connecting_s(n, id, ip, port, local);
            let t = tcp(n1, id);
            &&& ok <==> ip[0] != 0 && port != 0 && local != 0
            &&& ok ==> t.state is SynSent && t.peer == Some((ip, port)) && t.local == Some(
                (seq![10u8, 0, 2, 15], local),
            )
            &&& ok ==> !connecting_s(n1, id, ip, port, local).0 && !listening_s(n1, id).0
            &&& !ok ==> t == tcp(n, id)
        }),
{
}

/// What a connected socket receives comes out from the front, as much as the buffer holds;
/// the rest stays, and so does the rest of the buffer. Nothing comes out twice.
pub proof fn law_bytes_come_out_in_order(n: NetView, id: u32, buf: Seq<u8>)
    requires
        known(n, id),
        tcp(n, id).state is Established,
    ensures
        ({
            let (k, n1, after) = received_s(n, id, buf);
            let waiting = tcp(n, id).received;
            &&& k matches Some(k) && after.len() == buf.len() && after.take(k as int) + tcp(
                n1,
                id,
            ).received == waiting && after.skip(k as int) == buf.skip(k as int) && (k == buf.len() || k
                == waiting.len())
            &&& tcp(n1, id).queued == tcp(n, id).queued
            &&& tcp(n1, id).state == tcp(n, id).state
        }),
{
    let (k, n1, after) = received_s(n, id, buf);
    let waiting = tcp(n, id).received;
    let j = k->Some_0 as int;
    assert(after.take(j) =~= waiting.take(j));
    assert(after.take(j) + tcp(n1, id).received =~= waiting);
    assert(after.skip(j) =~= buf.skip(j));
}

/// What is sent goes behind what was sent before, as much as there is room for.
pub proof fn law_bytes_go_out_in_order(n: NetView, id: u32, data: Seq<u8>)
    requires
        known(n, id),
        tcp(n, id).state is Established,
    ensures
        ({
            let (k, n1) = sent_s(n, id, data);
            let t = tcp(n, id);
            let t1 = tcp(n1, id);
            &&& k matches Some(k) && k <= data.len() && t1.queued == t.queued + data.take(k as int)
                && t1.room + k == t.room && (k == data.len() || t1.room == 0)
            &&& t1.received == t.received
            &&& t1.state == t.state
        }),
{
}

/// Closing a connection winds it up: it still hands out what was received, but takes
/// nothing more to send. A socket that waits for a peer is closed at once.
pub proof fn law_closed_sockets_send_nothing(n: NetView, id: u32, data: Seq<u8>)
    requires
        known(n, id),
    ensures
        ({
            let n1 = shut_s(n, id);
            let t = tcp(n, id);
            let t1 = tcp(n1, id);
            &&& sent_s(n1, id, data) == (Some(0nat), n1)
            &&& t1.received == t.received
            &&& t1.queued == t.queued
            &&& (t.state is Established || t.state is SynReceived) ==> t1.state is FinWait1
            &&& t.state is CloseWait ==> t1.state is LastAck
            &&& (t.state is Listen || t.state is SynSent) ==> t1.state is Closed
        }),
{
}

/// No call on one socket changes another.
pub proof fn law_sockets_are_apart(
    n: NetView,
    id: u32,
    other: u32,
    port: u16,
    ip: Seq<u8>,
    local: u16,
    data: Seq<u8>,
)
    requires
        known(n, id),
        known(n, other),
        n.stack.handles[id] != n.stack.handles[other],
    ensures
        tcp(bound_s(n, id, port).1, other) == tcp(n, other),
        tcp(listening_s(n, id).1, other) == tcp(n, other),
        tcp(connecting_s(n, id, ip, port, local).1, other) == tcp(n, other),
        tcp(received_s(n, id, data).1, other) == tcp(n, other),
        tcp(sent_s(n, id, data).1, other) == tcp(n, other),
        tcp(shut_s(n, id), other) == tcp(n, other),
        listening_s(bound_s(n, id, port).1, other).1.sockets == listening_s(n, other).1.sockets,
{
}

} // verus!
