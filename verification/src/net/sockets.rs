//! The socket set of the TCP/IP stack.
//!
//! The stack itself is the crate smoltcp. Between the calls here its interface is
//! polled outside, which moves packets and so changes the states and buffers of the
//! sockets, but neither adds nor removes any.

use smoltcp::iface::{Interface, SocketHandle, SocketSet};
use smoltcp::socket::{tcp, udp};
use smoltcp::wire::{IpAddress, IpEndpoint, Ipv4Address};
use vstd::prelude::*;

verus! {

/// A set of sockets of smoltcp.
#[verifier::external_type_specification]
#[verifier::external_body]
pub struct ExSocketSet<'a>(smoltcp::iface::SocketSet<'a>);

/// Which socket of a set is meant.
#[verifier::external_type_specification]
#[verifier::external_body]
pub struct ExSocketHandle(smoltcp::iface::SocketHandle);

/// A network interface of smoltcp.
#[verifier::external_type_specification]
#[verifier::external_body]
pub struct ExInterface(smoltcp::iface::Interface);

/// The states of a TCP connection.
pub enum TcpState {
    Closed,
    Listen,
    SynSent,
    SynReceived,
    Established,
    FinWait1,
    FinWait2,
    CloseWait,
    Closing,
    LastAck,
    TimeWait,
}

/// A TCP socket: its state, the port that it listens on, both ends of its connection,
/// the bytes that were received and not read yet, those that are to be sent, and for
/// how many more there is room.
pub struct TcpView {
    pub state: TcpState,
    pub port: u16,
    pub local: Option<(Seq<u8>, u16)>,
    pub peer: Option<(Seq<u8>, u16)>,
    pub received: Seq<u8>,
    pub queued: Seq<u8>,
    pub room: nat,
}

/// A socket; of a UDP socket, how many packets and bytes it holds in each direction.
pub enum SocketView {
    Tcp(TcpView),
    Udp { packets: nat, bytes: nat },
}

/// The sockets of a set.
pub uninterp spec fn sockets_of(s: SocketSet<'static>) -> Map<SocketHandle, SocketView>;

/// The TCP socket behind a handle.
pub open spec fn tcp_of(s: SocketSet<'static>, h: SocketHandle) -> TcpView {
    sockets_of(s)[h]->Tcp_0
}

/// Whether a handle means a TCP socket of the set.
pub open spec fn has_tcp(s: SocketSet<'static>, h: SocketHandle) -> bool {
    sockets_of(s).contains_key(h) && sockets_of(s)[h] is Tcp
}

/// A TCP socket that was just made, with buffers of a size.
pub open spec fn fresh_tcp(size: nat) -> TcpView {
    TcpView {
        state: TcpState::Closed,
        port: 0,
        local: None,
        peer: None,
        received: Seq::empty(),
        queued: Seq::empty(),
        room: size,
    }
}

/// Whether a socket is in use.
pub open spec fn is_open_s(t: TcpView) -> bool {
    !(t.state is Closed || t.state is TimeWait)
}

/// Whether a socket exchanges packets with a peer.
pub open spec fn is_active_s(t: TcpView) -> bool {
    !(t.state is Closed || t.state is TimeWait || t.state is Listen)
}

/// Whether there may be something to send to.
pub open spec fn may_send_s(t: TcpView) -> bool {
    t.state is Established || t.state is CloseWait
}

/// Whether there may be something to receive.
pub open spec fn may_recv_s(t: TcpView) -> bool {
    t.state is Established || t.state is FinWait1 || t.state is FinWait2 || t.received.len() > 0
}

/// A socket that starts over, in a state.
pub open spec fn restarted(
    t: TcpView,
    state: TcpState,
    port: u16,
    local: Option<(Seq<u8>, u16)>,
    peer: Option<(Seq<u8>, u16)>,
) -> TcpView {
    TcpView {
        state,
        port,
        local,
        peer,
        received: Seq::empty(),
        queued: Seq::empty(),
        room: t.queued.len() + t.room,
    }
}

/// Listening on a port: not on port zero, and not with a socket that is in use,
/// unless it listens on that port already.
pub open spec fn listen_s(t: TcpView, port: u16) -> (bool, TcpView) {
    if port == 0 {
        (false, t)
    } else if is_open_s(t) {
        (t.state is Listen && t.port == port, t)
    } else {
        (true, restarted(t, TcpState::Listen, port, None, None))
    }
}

/// Connecting: not with a socket that is in use, not from or to port zero, and not
/// from or to an unspecified address.
pub open spec fn connect_s(
    t: TcpView,
    ip: Seq<u8>,
    port: u16,
    local_ip: Seq<u8>,
    local_port: u16,
) -> (bool, TcpView) {
    if is_open_s(t) || port == 0 || ip[0] == 0 || local_port == 0 || local_ip[0] == 0 {
        (false, t)
    } else {
        (true, restarted(t, TcpState::SynSent, 0, Some((local_ip, local_port)), Some((ip, port))))
    }
}

/// Closing: what was not connected is closed at once, a connection is wound up.
pub open spec fn close_s(t: TcpView) -> TcpView {
    TcpView {
        state: match t.state {
            TcpState::Listen => TcpState::Closed,
            TcpState::SynSent => TcpState::Closed,
            TcpState::SynReceived => TcpState::FinWait1,
            TcpState::Established => TcpState::FinWait1,
            TcpState::CloseWait => TcpState::LastAck,
            other => other,
        },
        ..t
    }
}

/// The smaller of two numbers.
pub open spec fn least(a: int, b: int) -> int {
    if a <= b {
        a
    } else {
        b
    }
}

/// The sockets with one of them changed.
pub open spec fn with_tcp(s: SocketSet<'static>, h: SocketHandle, t: TcpView) -> Map<
    SocketHandle,
    SocketView,
> {
    sockets_of(s).insert(h, SocketView::Tcp(t))
}

/// No sockets.
pub open spec fn no_sockets() -> Map<SocketHandle, SocketView> {
    Map::empty()
}

/// Calls `SocketSet::new` with an empty vector: the set has no sockets.
#[verifier::external_body]
pub(crate) fn empty_set() -> (r: SocketSet<'static>)
    ensures
        sockets_of(r) == no_sockets(),
{
    SocketSet::new(Vec::new())
}

/// Calls `SocketSet::add` with a socket of `tcp::Socket::new` whose buffers are of the
/// size; it panics above one gigabyte. The handle meant no socket before, and means a
/// closed TCP socket with empty buffers now.
#[verifier::external_body]
pub(crate) fn add_tcp(s: &mut SocketSet<'static>, size: usize) -> (h: SocketHandle)
    requires
        size <= 0x4000_0000,
    ensures
        !sockets_of(*old(s)).contains_key(h),
        sockets_of(*final(s)) == with_tcp(*old(s), h, fresh_tcp(size as nat)),
{
    let rx = tcp::SocketBuffer::new(vec![0; size]);
    let tx = tcp::SocketBuffer::new(vec![0; size]);
    s.add(tcp::Socket::new(rx, tx))
}

/// Calls `SocketSet::add` with a socket of `udp::Socket::new` whose buffers hold so
/// many packets and bytes each: the handle meant no socket before, and means a UDP
/// socket now. The sizes are bounded so that the vectors can be made.
#[verifier::external_body]
pub(crate) fn add_udp(s: &mut SocketSet<'static>, packets: usize, bytes: usize) -> (h: SocketHandle)
    requires
        packets <= 0x1_0000,
        bytes <= 0x4000_0000,
    ensures
        !sockets_of(*old(s)).contains_key(h),
        sockets_of(*final(s)) == sockets_of(*old(s)).insert(
            h,
            (SocketView::Udp { packets: packets as nat, bytes: bytes as nat }),
        ),
{
    let rx = udp::PacketBuffer::new(vec![udp::PacketMetadata::EMPTY; packets], vec![0; bytes]);
    let tx = udp::PacketBuffer::new(vec![udp::PacketMetadata::EMPTY; packets], vec![0; bytes]);
    s.add(udp::Socket::new(rx, tx))
}

/// Calls `SocketSet::remove`, which panics if the handle means no socket: the
/// handle means none afterwards.
#[verifier::external_body]
pub(crate) fn remove_socket(s: &mut SocketSet<'static>, h: SocketHandle)
    requires
        sockets_of(*old(s)).contains_key(h),
    ensures
        sockets_of(*final(s)) == sockets_of(*old(s)).remove(h),
{
    s.remove(h);
}

/// Calls `tcp::Socket::listen` on the socket behind the handle; `SocketSet::get_mut`
/// panics if that is not a TCP socket.
#[verifier::external_body]
pub(crate) fn listen(s: &mut SocketSet<'static>, h: SocketHandle, port: u16) -> (r: bool)
    requires
        has_tcp(*old(s), h),
    ensures
        ({
            let (ok, t) = listen_s(tcp_of(*old(s), h), port);
            r == ok && sockets_of(*final(s)) == with_tcp(*old(s), h, t)
        }),
{
    s.get_mut::<tcp::Socket>(h).listen(port).is_ok()
}

/// Calls `tcp::Socket::connect` on the socket behind the handle. The initial sequence
/// number comes from the interface's generator; it is not part of what is said of the
/// socket.
#[verifier::external_body]
pub(crate) fn connect(
    i: &mut Interface,
    s: &mut SocketSet<'static>,
    h: SocketHandle,
    ip: [u8; 4],
    port: u16,
    local_ip: [u8; 4],
    local_port: u16,
) -> (r: bool)
    requires
        has_tcp(*old(s), h),
    ensures
        ({
            let (ok, t) = connect_s(tcp_of(*old(s), h), ip@, port, local_ip@, local_port);
            r == ok && sockets_of(*final(s)) == with_tcp(*old(s), h, t)
        }),
{
    let remote = IpEndpoint::new(IpAddress::Ipv4(Ipv4Address(ip)), port);
    let local = IpEndpoint::new(IpAddress::Ipv4(Ipv4Address(local_ip)), local_port);
    s.get_mut::<tcp::Socket>(h).connect(i.context(), remote, local).is_ok()
}

/// Calls `tcp::Socket::is_active` on the socket behind the handle: true in every
/// state but the closed, the listening and the waiting one.
#[verifier::external_body]
pub(crate) fn is_active(s: &SocketSet<'static>, h: SocketHandle) -> (r: bool)
    requires
        has_tcp(*s, h),
    ensures
        r == is_active_s(tcp_of(*s, h)),
{
    s.get::<tcp::Socket>(h).is_active()
}

/// Calls `tcp::Socket::may_send` on the socket behind the handle: true while its
/// side of the connection is open.
#[verifier::external_body]
pub(crate) fn may_send(s: &SocketSet<'static>, h: SocketHandle) -> (r: bool)
    requires
        has_tcp(*s, h),
    ensures
        r == may_send_s(tcp_of(*s, h)),
{
    s.get::<tcp::Socket>(h).may_send()
}

/// Calls `tcp::Socket::may_recv` on the socket behind the handle: true while the
/// peer's side of the connection is open or there is something left to read.
#[verifier::external_body]
pub(crate) fn may_recv(s: &SocketSet<'static>, h: SocketHandle) -> (r: bool)
    requires
        has_tcp(*s, h),
    ensures
        r == may_recv_s(tcp_of(*s, h)),
{
    s.get::<tcp::Socket>(h).may_recv()
}

/// Calls `tcp::Socket::recv_slice` on the socket behind the handle: it takes what
/// was received first, as much as the buffer holds, and fails exactly if the
/// socket may not receive.
#[verifier::external_body]
pub(crate) fn recv_slice(s: &mut SocketSet<'static>, h: SocketHandle, buf: &mut [u8]) -> (r: Option<
    usize,
>)
    requires
        has_tcp(*old(s), h),
    ensures
        ({
            let t = tcp_of(*old(s), h);
            let n = least(old(buf)@.len() as int, t.received.len() as int);
            if may_recv_s(t) {
                &&& r == Some(n as usize)
                &&& final(buf)@ == t.received.take(n) + old(buf)@.skip(n)
                &&& sockets_of(*final(s)) == with_tcp(
                    *old(s),
                    h,
                    TcpView { received: t.received.skip(n), ..t },
                )
            } else {
                &&& r is None
                &&& final(buf)@ == old(buf)@
                &&& sockets_of(*final(s)) == sockets_of(*old(s))
            }
        }),
{
    s.get_mut::<tcp::Socket>(h).recv_slice(buf).ok()
}

/// Calls `tcp::Socket::send_slice` on the socket behind the handle: it queues as
/// much as there is room for, and fails exactly if the socket may not send.
#[verifier::external_body]
pub(crate) fn send_slice(s: &mut SocketSet<'static>, h: SocketHandle, data: &[u8]) -> (r: Option<
    usize,
>)
    requires
        has_tcp(*old(s), h),
    ensures
        ({
            let t = tcp_of(*old(s), h);
            let n = least(data@.len() as int, t.room as int);
            if may_send_s(t) {
                &&& r == Some(n as usize)
                &&& sockets_of(*final(s)) == with_tcp(
                    *old(s),
                    h,
                    TcpView {
                        queued: t.queued + data@.take(n),
                        room: (t.room - n) as nat,
                        ..t
                    },
                )
            } else {
                r is None && sockets_of(*final(s)) == sockets_of(*old(s))
            }
        }),
{
    s.get_mut::<tcp::Socket>(h).send_slice(data).ok()
}

/// Calls `tcp::Socket::remote_endpoint` on the socket behind the handle: address
/// and port of its peer.
#[verifier::external_body]
pub(crate) fn peer(s: &SocketSet<'static>, h: SocketHandle) -> (r: Option<([u8; 4], u16)>)
    requires
        has_tcp(*s, h),
    ensures
        match r {
            Some((ip, port)) => tcp_of(*s, h).peer == Some((ip@, port)),
            None => tcp_of(*s, h).peer is None,
        },
{
    s.get::<tcp::Socket>(h).remote_endpoint().map(
        |e|
            match e.addr {
                IpAddress::Ipv4(a) => (a.0, e.port),
            },
    )
}

/// Calls `tcp::Socket::close` on the socket behind the handle.
#[verifier::external_body]
pub(crate) fn close(s: &mut SocketSet<'static>, h: SocketHandle)
    requires
        has_tcp(*old(s), h),
    ensures
        sockets_of(*final(s)) == with_tcp(*old(s), h, close_s(tcp_of(*old(s), h))),
{
    s.get_mut::<tcp::Socket>(h).close();
}

} // verus!
