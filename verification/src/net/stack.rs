//! Sockets by number: what programs hold in place of the stack's own handles.

use super::sockets::{
    self, close_s, connect_s, fresh_tcp, has_tcp, is_active_s, least, listen_s, may_recv_s,
    may_send_s, sockets_of, tcp_of, with_tcp, SocketView, TcpView,
};
use smoltcp::iface::{Interface, SocketHandle, SocketSet};
use std::collections::BTreeMap;
use vstd::prelude::*;

verus! {

broadcast use vstd::std_specs::btree::group_btree_axioms;

/// How many sockets there may be.
pub const MAX_SOCKETS: usize = 64;

/// The size of each buffer of a TCP socket.
pub const TCP_BUFFER: usize = 8192;

/// How many packets a UDP socket holds in each direction.
pub const UDP_PACKETS: usize = 16;

/// How many bytes a UDP socket holds in each direction.
pub const UDP_BUFFER: usize = 4096;

/// The address of this machine.
pub open spec fn local_address_s() -> Seq<u8> {
    seq![10u8, 0u8, 2u8, 15u8]
}

/// The number of a socket.
pub type SocketId = u32;

/// The sockets by number, with the ports that they were bound to.
pub struct NetworkStack {
    socket_map: BTreeMap<u32, SocketHandle>,
    bound_ports: BTreeMap<u32, u16>,
    next_socket_id: u32,
}

/// The sockets by number, with the ports that they were bound to.
#[verifier::ext_equal]
pub struct StackView {
    pub handles: Map<u32, SocketHandle>,
    pub ports: Map<u32, u16>,
    pub next: u32,
}

/// Every number means a socket of the set, no two the same, and later numbers are
/// free.
pub open spec fn stack_ok(v: StackView, s: SocketSet<'static>) -> bool {
    &&& forall|id: u32| #[trigger]
        v.handles.contains_key(id) ==> sockets_of(s).contains_key(v.handles[id]) && id < v.next
    &&& forall|a: u32, b: u32| #[trigger]
        v.handles.contains_key(a) && #[trigger] v.handles.contains_key(b) && a != b
            ==> v.handles[a] != v.handles[b]
}

/// Whether a number means a TCP socket.
pub open spec fn is_tcp(v: StackView, s: SocketSet<'static>, id: u32) -> bool {
    v.handles.contains_key(id) && has_tcp(s, v.handles[id])
}

/// The TCP socket behind a number.
pub open spec fn socket_s(v: StackView, s: SocketSet<'static>, id: u32) -> TcpView {
    tcp_of(s, v.handles[id])
}

/// The call is not one of TCP on a socket of UDP.
pub open spec fn not_udp(v: StackView, s: SocketSet<'static>, id: u32) -> bool {
    v.handles.contains_key(id) ==> has_tcp(s, v.handles[id])
}

/// Only one socket changed.
pub open spec fn socket_changed(
    v: StackView,
    s0: SocketSet<'static>,
    id: u32,
    t: TcpView,
    s1: SocketSet<'static>,
) -> bool {
    sockets_of(s1) == with_tcp(s0, v.handles[id], t)
}

/// The numbers with one more socket.
pub open spec fn added_s(v: StackView, h: SocketHandle) -> StackView {
    StackView { handles: v.handles.insert(v.next, h), next: (v.next + 1) as u32, ..v }
}

impl NetworkStack {
    pub closed spec fn view(&self) -> StackView {
        StackView {
            handles: self.socket_map@,
            ports: self.bound_ports@,
            next: self.next_socket_id,
        }
    }

    /// No sockets, and the set that they will be in.
    pub fn new() -> (r: (NetworkStack, SocketSet<'static>))
        ensures
            stack_ok(r.0@, r.1),
            r.0@ == (StackView { handles: Map::empty(), ports: Map::empty(), next: 1 }),
            sockets_of(r.1) == Map::<SocketHandle, SocketView>::empty(),
    {
        let r = NetworkStack {
            socket_map: BTreeMap::new(),
            bound_ports: BTreeMap::new(),
            next_socket_id: 1,
        };
        (r, sockets::empty_set())
    }

    /// Whether there is a number for one more socket.
    pub fn has_numbers(&self) -> (r: bool)
        ensures
            r == (self@.next < u32::MAX),
    {
        self.next_socket_id < u32::MAX
    }

    /// Gives a socket the next number.
    fn number(&mut self, h: SocketHandle) -> (id: u32)
        requires
            old(self)@.next < u32::MAX,
        ensures
            id == old(self)@.next,
            final(self)@ == added_s(old(self)@, h),
    {
        let id: u32 = self.next_socket_id;
        self.next_socket_id = id + 1;
        self.socket_map.insert(id, h);
        id
    }

    /// Creates a TCP socket, unless there are too many.
    pub fn create_tcp_socket(&mut self, s: &mut SocketSet<'static>) -> (r: Result<u32, &'static str>)
        requires
            stack_ok(old(self)@, *old(s)),
            old(self)@.next < u32::MAX,
        ensures
            stack_ok(final(self)@, *final(s)),
            if old(self)@.handles.len() >= MAX_SOCKETS {
                &&& r is Err && r->Err_0@ == "max sockets limit reached"@
                &&& final(self)@ == old(self)@
                &&& sockets_of(*final(s)) == sockets_of(*old(s))
            } else {
                let id = old(self)@.next;
                let h = final(self)@.handles[id];
                &&& r == Ok::<u32, &'static str>(id)
                &&& final(self)@ == added_s(old(self)@, h)
                &&& !sockets_of(*old(s)).contains_key(h)
                &&& sockets_of(*final(s)) == with_tcp(*old(s), h, fresh_tcp(TCP_BUFFER as nat))
            },
    {
        if self.socket_map.len() >= MAX_SOCKETS {
            return Err("max sockets limit reached");
        }
        let h = sockets::add_tcp(s, TCP_BUFFER);
        Ok(self.number(h))
    }

    /// Creates a UDP socket, unless there are too many.
    pub fn create_udp_socket(&mut self, s: &mut SocketSet<'static>) -> (r: Result<u32, &'static str>)
        requires
            stack_ok(old(self)@, *old(s)),
            old(self)@.next < u32::MAX,
        ensures
            stack_ok(final(self)@, *final(s)),
            if old(self)@.handles.len() >= MAX_SOCKETS {
                &&& r is Err && r->Err_0@ == "max sockets limit reached"@
                &&& final(self)@ == old(self)@
                &&& sockets_of(*final(s)) == sockets_of(*old(s))
            } else {
                let id = old(self)@.next;
                let h = final(self)@.handles[id];
                &&& r == Ok::<u32, &'static str>(id)
                &&& final(self)@ == added_s(old(self)@, h)
                &&& !sockets_of(*old(s)).contains_key(h)
                &&& sockets_of(*final(s)) == sockets_of(*old(s)).insert(
                    h,
                    (SocketView::Udp { packets: UDP_PACKETS as nat, bytes: UDP_BUFFER as nat }),
                )
            },
    {
        if self.socket_map.len() >= MAX_SOCKETS {
            return Err("max sockets limit reached");
        }
        let h = sockets::add_udp(s, UDP_PACKETS, UDP_BUFFER);
        Ok(self.number(h))
    }

    /// The handle behind a number.
    fn handle(&self, id: u32) -> (r: Option<SocketHandle>)
        ensures
            r == (if self@.handles.contains_key(id) {
                Some(self@.handles[id])
            } else {
                None
            }),
    {
        match self.socket_map.get(&id) {
            Some(h) => Some(*h),
            None => None,
        }
    }

    /// Notes the port that a socket is to listen on.
    pub fn tcp_bind(&mut self, id: u32, port: u16) -> (r: Result<(), &'static str>)
        ensures
            if old(self)@.handles.contains_key(id) {
                &&& r is Ok
                &&& final(self)@ == (StackView {
                    ports: old(self)@.ports.insert(id, port),
                    ..old(self)@
                })
            } else {
                r is Err && r->Err_0@ == "invalid socket ID"@ && final(self)@ == old(self)@
            },
    {
        if self.handle(id).is_none() {
            return Err("invalid socket ID");
        }
        self.bound_ports.insert(id, port);
        Ok(())
    }

    /// The port that a socket was bound to.
    pub fn bound_port(&self, id: u32) -> (r: Option<u16>)
        ensures
            r == (if self@.ports.contains_key(id) {
                Some(self@.ports[id])
            } else {
                None
            }),
    {
        match self.bound_ports.get(&id) {
            Some(p) => Some(*p),
            None => None,
        }
    }

    /// Makes a socket listen on a port.
    pub fn tcp_listen(&self, s: &mut SocketSet<'static>, id: u32, port: u16) -> (r: Result<
        (),
        &'static str,
    >)
        requires
            stack_ok(self@, *old(s)),
            not_udp(self@, *old(s), id),
        ensures
            stack_ok(self@, *final(s)),
            if !self@.handles.contains_key(id) {
                &&& r is Err && r->Err_0@ == "invalid socket ID"@
                &&& sockets_of(*final(s)) == sockets_of(*old(s))
            } else {
                let (ok, t) = listen_s(socket_s(self@, *old(s), id), port);
                &&& socket_changed(self@, *old(s), id, t, *final(s))
                &&& r is Ok == ok
                &&& r is Err ==> r->Err_0@ == "failed to listen"@
            },
    {
        match self.handle(id) {
            None => Err("invalid socket ID"),
            Some(h) => if sockets::listen(s, h, port) {
                Ok(())
            } else {
                Err("failed to listen")
            },
        }
    }

    /// Makes a socket listen on the port that it was bound to, or on the echo port.
    pub fn listen_where_bound(&self, s: &mut SocketSet<'static>, id: u32) -> (r: Result<
        (),
        &'static str,
    >)
        requires
            stack_ok(self@, *old(s)),
            not_udp(self@, *old(s), id),
        ensures
            stack_ok(self@, *final(s)),
            if !self@.handles.contains_key(id) {
                &&& r is Err && r->Err_0@ == "invalid socket ID"@
                &&& sockets_of(*final(s)) == sockets_of(*old(s))
            } else {
                let port = if self@.ports.contains_key(id) {
                    self@.ports[id]
                } else {
                    7
                };
                let (ok, t) = listen_s(socket_s(self@, *old(s), id), port);
                &&& socket_changed(self@, *old(s), id, t, *final(s))
                &&& r is Ok == ok
                &&& r is Err ==> r->Err_0@ == "failed to listen"@
            },
    {
        let port: u16 = match self.bound_port(id) {
            Some(p) => p,
            None => 7,
        };
        self.tcp_listen(s, id, port)
    }

    /// Connects a socket to a peer.
    pub fn tcp_connect(
        &self,
        i: &mut Interface,
        s: &mut SocketSet<'static>,
        id: u32,
        ip: [u8; 4],
        port: u16,
        local_port: u16,
    ) -> (r: Result<(), &'static str>)
        requires
            stack_ok(self@, *old(s)),
            not_udp(self@, *old(s), id),
        ensures
            stack_ok(self@, *final(s)),
            if !self@.handles.contains_key(id) {
                &&& r is Err && r->Err_0@ == "invalid socket ID"@
                &&& sockets_of(*final(s)) == sockets_of(*old(s))
            } else {
                let (ok, t) = connect_s(
                    socket_s(self@, *old(s), id),
                    ip@,
                    port,
                    local_address_s(),
                    local_port,
                );
                &&& socket_changed(self@, *old(s), id, t, *final(s))
                &&& r is Ok == ok
                &&& r is Err ==> r->Err_0@ == "connect failed"@
            },
    {
        let local_ip: [u8; 4] = [10, 0, 2, 15];
        assert(local_ip@ =~= local_address_s());
        match self.handle(id) {
            None => Err("invalid socket ID"),
            Some(h) => if sockets::connect(i, s, h, ip, port, local_ip, local_port) {
                Ok(())
            } else {
                Err("connect failed")
            },
        }
    }

    /// Whether a socket exchanges packets with a peer.
    pub fn tcp_can_accept(&self, s: &SocketSet<'static>, id: u32) -> (r: bool)
        requires
            not_udp(self@, *s, id),
        ensures
            r == (self@.handles.contains_key(id) && is_active_s(socket_s(self@, *s, id))),
    {
        match self.handle(id) {
            None => false,
            Some(h) => sockets::is_active(s, h),
        }
    }

    /// Whether a socket is connected.
    pub fn tcp_is_connected(&self, s: &SocketSet<'static>, id: u32) -> (r: bool)
        requires
            not_udp(self@, *s, id),
        ensures
            r == (self@.handles.contains_key(id) && is_active_s(socket_s(self@, *s, id))),
    {
        match self.handle(id) {
            None => false,
            Some(h) => sockets::is_active(s, h),
        }
    }

    /// Whether a socket that listened has a connection that data can go through.
    pub fn tcp_accept_ready(&self, s: &SocketSet<'static>, id: u32) -> (r: bool)
        requires
            not_udp(self@, *s, id),
        ensures
            r == (self@.handles.contains_key(id) && {
                let t = socket_s(self@, *s, id);
                is_active_s(t) && (may_recv_s(t) || may_send_s(t))
            }),
    {
        match self.handle(id) {
            None => false,
            Some(h) => sockets::is_active(s, h) && (sockets::may_recv(s, h) || sockets::may_send(
                s,
                h,
            )),
        }
    }

    /// Reads what was received; nothing from a socket that cannot receive.
    pub fn tcp_recv(&self, s: &mut SocketSet<'static>, id: u32, buf: &mut [u8]) -> (r: Result<
        usize,
        &'static str,
    >)
        requires
            stack_ok(self@, *old(s)),
            not_udp(self@, *old(s), id),
        ensures
            stack_ok(self@, *final(s)),
            if !self@.handles.contains_key(id) {
                &&& r is Err && r->Err_0@ == "invalid socket ID"@
                &&& final(buf)@ == old(buf)@
                &&& sockets_of(*final(s)) == sockets_of(*old(s))
            } else {
                let t = socket_s(self@, *old(s), id);
                if !may_recv_s(t) {
                    &&& r == Ok::<usize, &'static str>(0)
                    &&& final(buf)@ == old(buf)@
                    &&& sockets_of(*final(s)) == sockets_of(*old(s))
                } else {
                    let n = least(old(buf)@.len() as int, t.received.len() as int);
                    &&& r == Ok::<usize, &'static str>(n as usize)
                    &&& final(buf)@ == t.received.take(n) + old(buf)@.skip(n)
                    &&& socket_changed(
                        self@,
                        *old(s),
                        id,
                        TcpView { received: t.received.skip(n), ..t },
                        *final(s),
                    )
                }
            },
    {
        match self.handle(id) {
            None => Err("invalid socket ID"),
            Some(h) => {
                if !sockets::may_recv(s, h) {
                    return Ok(0);
                }
                match sockets::recv_slice(s, h, buf) {
                    Some(n) => Ok(n),
                    None => Err("recv error"),
                }
            },
        }
    }

    /// Queues data to be sent; nothing on a socket that cannot send.
    pub fn tcp_send(&self, s: &mut SocketSet<'static>, id: u32, data: &[u8]) -> (r: Result<
        usize,
        &'static str,
    >)
        requires
            stack_ok(self@, *old(s)),
            not_udp(self@, *old(s), id),
        ensures
            stack_ok(self@, *final(s)),
            if !self@.handles.contains_key(id) {
                &&& r is Err && r->Err_0@ == "invalid socket ID"@
                &&& sockets_of(*final(s)) == sockets_of(*old(s))
            } else {
                let t = socket_s(self@, *old(s), id);
                if !may_send_s(t) {
                    &&& r == Ok::<usize, &'static str>(0)
                    &&& sockets_of(*final(s)) == sockets_of(*old(s))
                } else {
                    let n = least(data@.len() as int, t.room as int);
                    &&& r == Ok::<usize, &'static str>(n as usize)
                    &&& socket_changed(
                        self@,
                        *old(s),
                        id,
                        TcpView {
                            queued: t.queued + data@.take(n),
                            room: (t.room - n) as nat,
                            ..t
                        },
                        *final(s),
                    )
                }
            },
    {
        match self.handle(id) {
            None => Err("invalid socket ID"),
            Some(h) => {
                if !sockets::may_send(s, h) {
                    return Ok(0);
                }
                match sockets::send_slice(s, h, data) {
                    Some(n) => Ok(n),
                    None => Err("send error"),
                }
            },
        }
    }

    /// Address and port of a socket's peer.
    pub fn tcp_remote_endpoint(&self, s: &SocketSet<'static>, id: u32) -> (r: Option<([u8; 4], u16)>)
        requires
            not_udp(self@, *s, id),
        ensures
            match r {
                Some((ip, port)) => self@.handles.contains_key(id) && socket_s(self@, *s, id).peer
                    == Some((ip@, port)),
                None => self@.handles.contains_key(id) ==> socket_s(self@, *s, id).peer is None,
            },
    {
        match self.handle(id) {
            None => None,
            Some(h) => sockets::peer(s, h),
        }
    }

    /// Closes a socket.
    pub fn tcp_close(&self, s: &mut SocketSet<'static>, id: u32)
        requires
            stack_ok(self@, *old(s)),
            not_udp(self@, *old(s), id),
        ensures
            stack_ok(self@, *final(s)),
            if self@.handles.contains_key(id) {
                socket_changed(
                    self@,
                    *old(s),
                    id,
                    close_s(socket_s(self@, *old(s), id)),
                    *final(s),
                )
            } else {
                sockets_of(*final(s)) == sockets_of(*old(s))
            },
    {
        if let Some(h) = self.handle(id) {
            sockets::close(s, h);
        }
    }

    /// Closes a socket and gives up its number.
    pub fn tcp_destroy(&mut self, s: &mut SocketSet<'static>, id: u32)
        requires
            stack_ok(old(self)@, *old(s)),
            not_udp(old(self)@, *old(s), id),
        ensures
            stack_ok(final(self)@, *final(s)),
            final(self)@ == (StackView {
                handles: old(self)@.handles.remove(id),
                ports: old(self)@.ports.remove(id),
                ..old(self)@
            }),
            sockets_of(*final(s)) == (if old(self)@.handles.contains_key(id) {
                sockets_of(*old(s)).remove(old(self)@.handles[id])
            } else {
                sockets_of(*old(s))
            }),
    {
        let ghost v0 = self@;
        let ghost s0 = *s;
        if let Some(h) = self.handle(id) {
            self.socket_map.remove(&id);
            sockets::close(s, h);
            sockets::remove_socket(s, h);
            assert(sockets_of(*s) =~= sockets_of(s0).remove(h));
        }
        self.bound_ports.remove(&id);
        assert(self@ =~= (StackView {
            handles: v0.handles.remove(id),
            ports: v0.ports.remove(id),
            ..v0
        }));
    }
}

/// A socket that was closed can listen again, unless a connection is still being
/// wound up.
pub proof fn law_closed_socket_listens_again(t: TcpView, port: u16)
    requires
        port != 0,
        t.state is Listen || t.state is SynSent || t.state is Closed || t.state is TimeWait,
    ensures
        listen_s(close_s(t), port).0,
        listen_s(close_s(t), port).1.state is Listen,
{
}

} // verus!
