//! The echo service: what a peer sends to port 7 goes back to it.

use super::sockets::{
    close_s, fresh_tcp, is_active_s, least, listen_s, may_send_s, sockets_of, with_tcp, TcpView,
};
use super::stack::{
    added_s, is_tcp, socket_changed, socket_s, stack_ok, NetworkStack, MAX_SOCKETS, TCP_BUFFER,
};
use crate::bytes::zeroed;
use smoltcp::iface::SocketSet;
use vstd::prelude::*;

verus! {

/// The port of the echo service.
pub const ECHO_PORT: u16 = 7;

/// How much is read at a time.
pub const ECHO_BUFFER: usize = 1024;

/// The echo service: its socket, whether a peer was connected when it last looked,
/// how many there were, and what it has read of which a part has been sent back.
pub struct Echo {
    pub socket: u32,
    pub connected: bool,
    pub connections: u32,
    pub data: Vec<u8>,
    pub sent: usize,
}

/// The echo service, mathematically.
#[verifier::ext_equal]
pub struct EchoView {
    pub socket: u32,
    pub connected: bool,
    pub connections: int,
    pub data: Seq<u8>,
    pub sent: int,
}

/// What happened to the connection.
#[derive(Debug, Clone, Copy, PartialEq, Eq, Structural)]
pub enum Change {
    Same,
    Opened,
    Closed,
}

/// What a round of the service did: what happened to the connection, how many
/// bytes it read, and whether it has now sent everything back.
#[derive(Debug, Clone, Copy, PartialEq, Eq, Structural)]
pub struct Round {
    pub change: Change,
    pub read: usize,
    pub done: bool,
}

/// What was read and is not sent back yet.
pub open spec fn pending(e: EchoView) -> Seq<u8> {
    e.data.skip(e.sent)
}

/// The service notices that a peer came or went; when one went it listens again.
pub open spec fn noticed_s(e: EchoView, t: TcpView) -> (EchoView, TcpView, Change) {
    if is_active_s(t) && !e.connected {
        (EchoView { connected: true, connections: e.connections + 1, ..e }, t, Change::Opened)
    } else if !is_active_s(t) && e.connected {
        (EchoView { connected: false, ..e }, listen_s(close_s(t), ECHO_PORT).1, Change::Closed)
    } else {
        (e, t, Change::Same)
    }
}

/// The service reads what there is, up to the size of its buffer.
pub open spec fn taken_s(e: EchoView, t: TcpView) -> (EchoView, TcpView, int) {
    if is_active_s(t) && t.received.len() > 0 {
        let n = least(ECHO_BUFFER as int, t.received.len() as int);
        (
            EchoView { data: t.received.take(n), sent: 0, ..e },
            TcpView { received: t.received.skip(n), ..t },
            n,
        )
    } else {
        (e, t, 0)
    }
}

/// The service sends back what there is room for.
pub open spec fn returned_s(e: EchoView, t: TcpView) -> (EchoView, TcpView) {
    if e.sent < e.data.len() && may_send_s(t) {
        let n = least(e.data.len() - e.sent, t.room as int);
        (
            EchoView { sent: e.sent + n, ..e },
            TcpView {
                queued: t.queued + pending(e).take(n),
                room: (t.room - n) as nat,
                ..t
            },
        )
    } else {
        (e, t)
    }
}

/// One round: it first sends the rest of what it read before, and only when
/// nothing is left looks at the connection and reads on.
pub open spec fn round_s(e: EchoView, t: TcpView) -> (EchoView, TcpView, Change, int) {
    if e.sent < e.data.len() {
        let (e1, t1) = returned_s(e, t);
        (e1, t1, Change::Same, 0)
    } else {
        let (e1, t1, change) = noticed_s(e, t);
        let (e2, t2, n) = taken_s(e1, t1);
        let (e3, t3) = returned_s(e2, t2);
        (e3, t3, change, n)
    }
}

impl Echo {
    pub open spec fn view(&self) -> EchoView {
        EchoView {
            socket: self.socket,
            connected: self.connected,
            connections: self.connections as int,
            data: self.data@,
            sent: self.sent as int,
        }
    }

    /// No more was sent back than was read.
    pub open spec fn wf(&self) -> bool {
        self.sent <= self.data@.len()
    }

    /// Opens a socket for the service and listens on its port.
    pub fn start(stack: &mut NetworkStack, s: &mut SocketSet<'static>) -> (r: Result<
        Echo,
        &'static str,
    >)
        requires
            stack_ok(old(stack)@, *old(s)),
            old(stack)@.next < u32::MAX,
        ensures
            stack_ok(final(stack)@, *final(s)),
            if old(stack)@.handles.len() >= MAX_SOCKETS {
                &&& r is Err && r->Err_0@ == "max sockets limit reached"@
                &&& final(stack)@ == old(stack)@
                &&& sockets_of(*final(s)) == sockets_of(*old(s))
            } else {
                let h = final(stack)@.handles[old(stack)@.next];
                &&& final(stack)@ == added_s(old(stack)@, h)
                &&& !sockets_of(*old(s)).contains_key(h)
                &&& sockets_of(*final(s)) == with_tcp(
                    *old(s),
                    h,
                    listen_s(fresh_tcp(TCP_BUFFER as nat), ECHO_PORT).1,
                )
                &&& r matches Ok(e)
                &&& e.wf()
                &&& e@ == (EchoView {
                    socket: old(stack)@.next,
                    connected: false,
                    connections: 0,
                    data: Seq::empty(),
                    sent: 0,
                })
                &&& is_tcp(final(stack)@, *final(s), e.socket)
                &&& socket_s(final(stack)@, *final(s), e.socket).state is Listen
                &&& socket_s(final(stack)@, *final(s), e.socket).port == ECHO_PORT
            },
    {
        let id: u32 = stack.create_tcp_socket(s)?;
        let ghost h = stack@.handles[id];
        stack.tcp_listen(s, id, ECHO_PORT)?;
        assert(sockets_of(*s) =~= with_tcp(
            *old(s),
            h,
            listen_s(fresh_tcp(TCP_BUFFER as nat), ECHO_PORT).1,
        ));
        Ok(Echo { socket: id, connected: false, connections: 0, data: Vec::new(), sent: 0 })
    }

    /// Sends back what there is room for.
    fn give_back(&mut self, stack: &NetworkStack, s: &mut SocketSet<'static>)
        requires
            old(self).wf(),
            stack_ok(stack@, *old(s)),
            is_tcp(stack@, *old(s), old(self).socket),
        ensures
            final(self).wf(),
            stack_ok(stack@, *final(s)),
            is_tcp(stack@, *final(s), old(self).socket),
            ({
                let (e, t) = returned_s(old(self)@, socket_s(stack@, *old(s), old(self).socket));
                &&& final(self)@ == e
                &&& socket_changed(stack@, *old(s), old(self).socket, t, *final(s))
            }),
    {
        let ghost s0 = *s;
        let ghost h = stack@.handles[self.socket];
        if self.sent < self.data.len() {
            let rest = vstd::slice::slice_subrange(self.data.as_slice(), self.sent, self.data.len());
            match stack.tcp_send(s, self.socket, rest) {
                Ok(n) => {
                    self.sent = self.sent + n;
                },
                Err(_) => {},
            }
        }
        assert(sockets_of(*s)[h] == with_tcp(s0, h, socket_s(stack@, *s, self.socket))[h]);
        assert(sockets_of(*s) =~= with_tcp(s0, h, socket_s(stack@, *s, self.socket)));
    }

    /// One round of the service, after the interface was polled.
    pub fn round(&mut self, stack: &NetworkStack, s: &mut SocketSet<'static>) -> (r: Round)
        requires
            old(self).wf(),
            old(self).connections < u32::MAX,
            stack_ok(stack@, *old(s)),
            is_tcp(stack@, *old(s), old(self).socket),
        ensures
            final(self).wf(),
            stack_ok(stack@, *final(s)),
            is_tcp(stack@, *final(s), final(self).socket),
            ({
                let (e, t, change, n) = round_s(
                    old(self)@,
                    socket_s(stack@, *old(s), old(self).socket),
                );
                &&& final(self)@ == e
                &&& socket_changed(stack@, *old(s), old(self).socket, t, *final(s))
                &&& r.change == change
                &&& r.read == n
                &&& r.done == (e.sent == e.data.len())
            }),
    {
        let ghost e0 = self@;
        let ghost s0 = *s;
        let ghost h = stack@.handles[self.socket];
        let ghost t0 = socket_s(stack@, *s, self.socket);
        if self.sent < self.data.len() {
            self.give_back(stack, s);
            return Round {
                change: Change::Same,
                read: 0,
                done: self.sent == self.data.len(),
            };
        }
        let active = stack.tcp_is_connected(s, self.socket);
        let mut change = Change::Same;
        if active && !self.connected {
            self.connections = self.connections + 1;
            self.connected = true;
            change = Change::Opened;
        } else if !active && self.connected {
            self.connected = false;
            change = Change::Closed;
            stack.tcp_close(s, self.socket);
            let _ = stack.tcp_listen(s, self.socket, ECHO_PORT);
        }
        let ghost t1 = noticed_s(e0, t0).1;
        assert(sockets_of(*s) =~= with_tcp(s0, h, t1));
        let mut read: usize = 0;
        if active {
            let mut buf = zeroed(ECHO_BUFFER);
            match stack.tcp_recv(s, self.socket, buf.as_mut_slice()) {
                Ok(n) => {
                    if n > 0 {
                        buf.truncate(n);
                        self.data = buf;
                        self.sent = 0;
                    }
                    read = n;
                },
                Err(_) => {},
            }
        }
        let ghost t2 = taken_s(noticed_s(e0, t0).0, t1).1;
        let ghost e2 = taken_s(noticed_s(e0, t0).0, t1).0;
        assert(t1.received.skip(0) =~= t1.received);
        assert(self@ =~= e2);
        assert(sockets_of(*s) =~= with_tcp(s0, h, t2));
        self.give_back(stack, s);
        assert(sockets_of(*s) =~= with_tcp(s0, h, round_s(e0, t0).1));
        Round { change, read, done: self.sent == self.data.len() }
    }
}

/// Nothing that a peer sends is lost or reordered on its way back: what is queued for
/// it, what the service still holds and what it has not read make up the same
/// bytes before and after a round.
pub proof fn law_echo_returns_everything(e: EchoView, t: TcpView)
    requires
        0 <= e.sent <= e.data.len(),
        is_active_s(t),
    ensures
        ({
            let (e1, t1, change, n) = round_s(e, t);
            t1.queued + pending(e1) + t1.received == t.queued + pending(e) + t.received
        }),
{
    let (e1, t1, change, n) = round_s(e, t);
    assert(t1.queued + pending(e1) + t1.received =~= t.queued + pending(e) + t.received);
}

/// When a peer has gone the service listens again.
pub proof fn law_echo_listens_again(e: EchoView, t: TcpView)
    requires
        e.sent == e.data.len(),
        e.connected,
        !is_active_s(t),
    ensures
        round_s(e, t).1.state is Listen,
        round_s(e, t).1.port == ECHO_PORT,
        round_s(e, t).2 == Change::Closed,
{
}

} // verus!
