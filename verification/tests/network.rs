use pickleos::driver::block::{BlockRegistry, RamDisk};
use pickleos::driver::console::ConsoleInput;
use pickleos::fs::fds::VfsError;
use pickleos::fs::vfs::net::{cleanup_task_fds, close, get_socket_id, read, Reading, Writing};
use pickleos::fs::vfs::{self, FileSystem};
use pickleos::net::echo::{Change, Echo, ECHO_PORT};
use pickleos::net::stack::{NetworkStack, MAX_SOCKETS};
use pickleos::syscall::sockets::{is_socket_call, serve_socket, SocketReply};
use pickleos::syscall::{Call, UserSlice, FAILED};
use smoltcp::iface::{Config, Interface, SocketSet};
use smoltcp::phy::{Device, DeviceCapabilities, Medium, RxToken, TxToken};
use smoltcp::time::Instant;
use smoltcp::wire::{EthernetAddress, HardwareAddress, IpAddress, IpCidr};
use std::cell::RefCell;
use std::collections::VecDeque;
use std::rc::Rc;

type Wire = Rc<RefCell<VecDeque<Vec<u8>>>>;

struct Card {
    rx: Wire,
    tx: Wire,
}

struct Rx(Vec<u8>);

struct Tx(Wire);

impl RxToken for Rx {
    fn consume<R, F: FnOnce(&mut [u8]) -> R>(mut self, f: F) -> R {
        f(&mut self.0)
    }
}

impl TxToken for Tx {
    fn consume<R, F: FnOnce(&mut [u8]) -> R>(self, len: usize, f: F) -> R {
        let mut b = vec![0; len];
        let r = f(&mut b);
        self.0.borrow_mut().push_back(b);
        r
    }
}

impl Device for Card {
    type RxToken<'a> = Rx;
    type TxToken<'a> = Tx;

    fn receive(&mut self, _t: Instant) -> Option<(Rx, Tx)> {
        let p = self.rx.borrow_mut().pop_front()?;
        Some((Rx(p), Tx(self.tx.clone())))
    }

    fn transmit(&mut self, _t: Instant) -> Option<Tx> {
        Some(Tx(self.tx.clone()))
    }

    fn capabilities(&self) -> DeviceCapabilities {
        let mut c = DeviceCapabilities::default();
        c.max_transmission_unit = 1500;
        c.medium = Medium::Ethernet;
        c
    }
}

struct Host {
    card: Card,
    interface: Interface,
    stack: NetworkStack,
    sockets: SocketSet<'static>,
}

fn host(n: u8, rx: Wire, tx: Wire) -> Host {
    let mut card = Card { rx, tx };
    let mac = EthernetAddress([2, 0, 0, 0, 0, n]);
    let config = Config::new(HardwareAddress::Ethernet(mac));
    let mut interface = Interface::new(config, &mut card, Instant::from_millis(0));
    interface.update_ip_addrs(|a| a.push(IpCidr::new(IpAddress::v4(10, 0, 2, n), 24)).unwrap());
    let (stack, sockets) = NetworkStack::new();
    Host { card, interface, stack, sockets }
}

/// Two hosts on one wire: the one that connects is at the address of this system.
fn hosts() -> (Host, Host) {
    let a: Wire = Wire::default();
    let b: Wire = Wire::default();
    (host(15, a.clone(), b.clone()), host(2, b, a))
}

fn poll(a: &mut Host, b: &mut Host, t: &mut i64) {
    for _ in 0..20 {
        *t += 10;
        for h in [&mut *a, &mut *b] {
            h.interface.poll(Instant::from_millis(*t), &mut h.card, &mut h.sockets);
        }
    }
}

#[test]
fn sockets_have_numbers() {
    let (mut n, mut s) = NetworkStack::new();
    assert_eq!(n.create_tcp_socket(&mut s), Ok(1));
    assert_eq!(n.create_udp_socket(&mut s), Ok(2));
    assert_eq!(n.tcp_bind(9, 80), Err("invalid socket ID"));
    assert_eq!(n.tcp_bind(1, 80), Ok(()));
    assert_eq!(n.bound_port(1), Some(80));
    assert_eq!(n.bound_port(2), None);
    assert_eq!(n.listen_where_bound(&mut s, 1), Ok(()));
    // Listening again on the same port is no error, on another it is.
    assert_eq!(n.tcp_listen(&mut s, 1, 80), Ok(()));
    assert_eq!(n.tcp_listen(&mut s, 1, 81), Err("failed to listen"));
    n.tcp_close(&mut s, 1);
    assert_eq!(n.tcp_listen(&mut s, 1, 81), Ok(()));
    assert_eq!(n.tcp_listen(&mut s, 5, 81), Err("invalid socket ID"));
    n.tcp_destroy(&mut s, 1);
    assert_eq!(n.bound_port(1), None);
    assert_eq!(n.tcp_listen(&mut s, 1, 81), Err("invalid socket ID"));
    assert_eq!(n.create_tcp_socket(&mut s), Ok(3));
    assert_eq!(n.tcp_listen(&mut s, 3, 0), Err("failed to listen"));
}

#[test]
fn sockets_are_limited() {
    let (mut n, mut s) = NetworkStack::new();
    for _ in 0..MAX_SOCKETS {
        assert!(n.create_tcp_socket(&mut s).is_ok());
    }
    assert_eq!(n.create_tcp_socket(&mut s), Err("max sockets limit reached"));
    assert_eq!(n.create_udp_socket(&mut s), Err("max sockets limit reached"));
    assert!(Echo::start(&mut n, &mut s).is_err());
    n.tcp_destroy(&mut s, 1);
    assert!(n.create_tcp_socket(&mut s).is_ok());
}

#[test]
fn a_closed_socket_moves_nothing() {
    let (mut n, mut s) = NetworkStack::new();
    let id = n.create_tcp_socket(&mut s).unwrap();
    let mut b = [7u8; 4];
    assert_eq!(n.tcp_recv(&mut s, id, &mut b), Ok(0));
    assert_eq!(b, [7; 4]);
    assert_eq!(n.tcp_send(&mut s, id, b"x"), Ok(0));
    assert_eq!(n.tcp_recv(&mut s, 8, &mut b), Err("invalid socket ID"));
    assert_eq!(n.tcp_send(&mut s, 8, b"x"), Err("invalid socket ID"));
    assert!(!n.tcp_is_connected(&s, id) && !n.tcp_can_accept(&s, id) && !n.tcp_accept_ready(&s, id));
    assert_eq!(n.tcp_remote_endpoint(&s, id), None);
}

#[test]
fn connections_carry_bytes_both_ways() {
    let (mut a, mut b) = hosts();
    let mut t = 0;
    let server = b.stack.create_tcp_socket(&mut b.sockets).unwrap();
    b.stack.tcp_listen(&mut b.sockets, server, 80).unwrap();
    let client = a.stack.create_tcp_socket(&mut a.sockets).unwrap();
    let stack = &a.stack;
    assert_eq!(
        stack.tcp_connect(&mut a.interface, &mut a.sockets, client, [0, 0, 0, 0], 80, 50000),
        Err("connect failed")
    );
    assert_eq!(
        stack.tcp_connect(&mut a.interface, &mut a.sockets, client, [10, 0, 2, 2], 0, 50000),
        Err("connect failed")
    );
    assert_eq!(
        stack.tcp_connect(&mut a.interface, &mut a.sockets, client, [10, 0, 2, 2], 80, 50000),
        Ok(())
    );
    assert_eq!(
        stack.tcp_connect(&mut a.interface, &mut a.sockets, client, [10, 0, 2, 2], 80, 50001),
        Err("connect failed")
    );
    assert_eq!(stack.tcp_remote_endpoint(&a.sockets, client), Some(([10, 0, 2, 2], 80)));
    assert!(stack.tcp_is_connected(&a.sockets, client));
    poll(&mut a, &mut b, &mut t);
    assert!(b.stack.tcp_accept_ready(&b.sockets, server));
    assert_eq!(b.stack.tcp_remote_endpoint(&b.sockets, server), Some(([10, 0, 2, 15], 50000)));
    assert_eq!(a.stack.tcp_send(&mut a.sockets, client, b"hello "), Ok(6));
    assert_eq!(a.stack.tcp_send(&mut a.sockets, client, b"there"), Ok(5));
    poll(&mut a, &mut b, &mut t);
    let mut buf = [0u8; 8];
    assert_eq!(b.stack.tcp_recv(&mut b.sockets, server, &mut buf), Ok(8));
    assert_eq!(&buf, b"hello th");
    assert_eq!(b.stack.tcp_recv(&mut b.sockets, server, &mut buf), Ok(3));
    assert_eq!(&buf, b"erelo th");
    // The buffer takes 8192 bytes and no more.
    assert_eq!(b.stack.tcp_send(&mut b.sockets, server, &[1; 9000]), Ok(8192));
    assert_eq!(b.stack.tcp_send(&mut b.sockets, server, &[1]), Ok(0));
    b.stack.tcp_close(&mut b.sockets, server);
    assert_eq!(b.stack.tcp_send(&mut b.sockets, server, b"late"), Ok(0));
    assert!(b.stack.tcp_is_connected(&b.sockets, server));
}

#[test]
fn the_echo_service_returns_everything() {
    let (mut a, mut b) = hosts();
    let mut t = 0;
    let mut echo = Echo::start(&mut b.stack, &mut b.sockets).ok().unwrap();
    let first = echo.round(&b.stack, &mut b.sockets);
    assert_eq!((first.change, first.read, first.done), (Change::Same, 0, true));
    let client = a.stack.create_tcp_socket(&mut a.sockets).unwrap();
    a.stack
        .tcp_connect(&mut a.interface, &mut a.sockets, client, [10, 0, 2, 2], ECHO_PORT, 50000)
        .unwrap();
    poll(&mut a, &mut b, &mut t);
    assert_eq!(echo.round(&b.stack, &mut b.sockets).change, Change::Opened);
    assert_eq!(echo.connections, 1);
    let data: Vec<u8> = (0..5000u32).map(|i| (i % 253) as u8).collect();
    let mut sent = 0;
    let mut back = Vec::new();
    let mut buf = [0u8; 700];
    for _ in 0..200 {
        if sent < data.len() {
            sent += a.stack.tcp_send(&mut a.sockets, client, &data[sent..]).unwrap();
        }
        poll(&mut a, &mut b, &mut t);
        let r = echo.round(&b.stack, &mut b.sockets);
        assert!(r.read <= 1024);
        poll(&mut a, &mut b, &mut t);
        let n = a.stack.tcp_recv(&mut a.sockets, client, &mut buf).unwrap();
        back.extend_from_slice(&buf[..n]);
    }
    assert_eq!(back, data);
    // When the peer is gone, the service listens again.
    a.stack.tcp_destroy(&mut a.sockets, client);
    b.stack.tcp_close(&mut b.sockets, echo.socket);
    let mut closed = false;
    for _ in 0..5000 {
        t += 1000;
        poll(&mut a, &mut b, &mut t);
        if echo.round(&b.stack, &mut b.sockets).change == Change::Closed {
            closed = true;
            break;
        }
    }
    assert!(closed);
    assert!(!b.stack.tcp_is_connected(&b.sockets, echo.socket));
    assert_eq!(b.stack.tcp_listen(&mut b.sockets, echo.socket, ECHO_PORT), Ok(()));
}

const DONE: SocketReply = SocketReply::Value(0);

const FAIL: SocketReply = SocketReply::Value(FAILED);

fn files() -> FileSystem<RamDisk> {
    let mut f = FileSystem::new(BlockRegistry::new());
    vfs::init_task_fds(&mut f, 3);
    f
}

/// Makes a call of task 3 on a host.
fn ask(h: &mut Host, f: &mut FileSystem<RamDisk>, c: Call, input: &[u8], out: &mut [u8]) -> SocketReply {
    assert!(is_socket_call(&c));
    serve_socket(f, &mut h.stack, &mut h.interface, &mut h.sockets, 3, &c, input, out, 0)
}

fn range(len: u64) -> UserSlice {
    UserSlice { ptr: 0x1000, len }
}

/// A socket address.
fn address(ip: [u8; 4], port: u16) -> [u8; 8] {
    let p = port.to_be_bytes();
    [2, 0, p[0], p[1], ip[0], ip[1], ip[2], ip[3]]
}

fn new_socket(h: &mut Host, f: &mut FileSystem<RamDisk>) -> u32 {
    match ask(h, f, Call::Socket, &[], &mut []) {
        SocketReply::Value(fd) if fd != FAILED => fd as u32,
        other => panic!("{:?}", other),
    }
}

#[test]
fn socket_calls_connect_two_programs() {
    let (mut a, mut b) = hosts();
    let (mut fa, mut fb) = (files(), files());
    let mut t = 0;
    let server = new_socket(&mut b, &mut fb);
    assert_eq!(server, 3);
    assert_eq!(get_socket_id(&fb, 3, server), Some(1));
    let bind = Call::Bind { fd: server, addr: range(8) };
    assert_eq!(ask(&mut b, &mut fb, bind, &address([0; 4], 80), &mut []), DONE);
    assert_eq!(b.stack.bound_port(1), Some(80));
    assert_eq!(ask(&mut b, &mut fb, Call::Listen { fd: server }, &[], &mut []), DONE);
    let mut peer = [9u8; 10];
    let accept = Call::Accept { fd: server, addr: Some(range(10)) };
    assert_eq!(ask(&mut b, &mut fb, accept, &[], &mut peer), SocketReply::Wait);
    assert_eq!(peer, [9; 10]);

    let client = new_socket(&mut a, &mut fa);
    let connect = Call::Connect { fd: client, addr: range(8) };
    assert_eq!(ask(&mut a, &mut fa, connect, &address([10, 0, 2, 2], 80), &mut []), DONE);
    assert_eq!(ask(&mut a, &mut fa, connect, &address([10, 0, 2, 2], 80), &mut []), FAIL);
    poll(&mut a, &mut b, &mut t);
    // The connection is accepted on the descriptor that listened.
    assert_eq!(ask(&mut b, &mut fb, accept, &[], &mut peer), SocketReply::Value(server as u64));
    assert_eq!(peer, [2, 0, 0xc0, 1, 10, 0, 2, 15, 9, 9]);
    let bare = Call::Accept { fd: server, addr: None };
    assert_eq!(ask(&mut b, &mut fb, bare, &[], &mut []), SocketReply::Value(server as u64));

    let send = Call::Send { fd: client, buf: range(5) };
    assert_eq!(ask(&mut a, &mut fa, send, b"hello", &mut []), SocketReply::Value(5));
    poll(&mut a, &mut b, &mut t);
    let mut buf = [0u8; 3];
    let recv = Call::Recv { fd: server, buf: range(3) };
    assert_eq!(ask(&mut b, &mut fb, recv, &[], &mut buf), SocketReply::Value(3));
    assert_eq!(&buf, b"hel");
    // What is left is read through the descriptor as from a file.
    let mut con = ConsoleInput::new();
    assert_eq!(
        read(&mut fb, &mut con, &b.stack, &mut b.sockets, 3, server, &mut buf),
        Ok(Reading::Bytes(2))
    );
    assert_eq!(&buf, b"lol");
    assert_eq!(
        pickleos::fs::vfs::net::write(&mut fb, &b.stack, &mut b.sockets, 3, server, &[1; 9000], 0, 0),
        Ok(Writing::Bytes(8192))
    );
    poll(&mut a, &mut b, &mut t);
    let recv = Call::Recv { fd: client, buf: range(3) };
    assert_eq!(ask(&mut a, &mut fa, recv, &[], &mut buf), SocketReply::Value(3));
    assert_eq!(buf, [1; 3]);
    assert_eq!(ask(&mut a, &mut fa, Call::Shutdown { fd: client }, &[], &mut []), DONE);
    assert_eq!(ask(&mut a, &mut fa, send, b"late", &mut []), SocketReply::Value(0));
    assert_eq!(get_socket_id(&fa, 3, client), Some(1));
}

#[test]
fn socket_calls_fail_where_there_is_no_socket() {
    let (mut h, _) = hosts();
    let mut f = files();
    let mut out = [7u8; 8];
    let calls = [
        Call::Bind { fd: 1, addr: range(8) },
        Call::Listen { fd: 1 },
        Call::Accept { fd: 1, addr: None },
        Call::Connect { fd: 1, addr: range(8) },
        Call::Send { fd: 1, buf: range(8) },
        Call::Recv { fd: 60, buf: range(8) },
        Call::Shutdown { fd: 60 },
    ];
    for c in calls {
        assert_eq!(ask(&mut h, &mut f, c, &address([10, 0, 2, 2], 80), &mut out), FAIL);
    }
    assert_eq!(out, [7; 8]);
    assert!(!is_socket_call(&Call::Close { fd: 1 }));
    // A descriptor of a socket that was given up.
    let fd = new_socket(&mut h, &mut f);
    h.stack.tcp_destroy(&mut h.sockets, 1);
    let send = Call::Send { fd, buf: range(1) };
    assert_eq!(ask(&mut h, &mut f, send, b"x", &mut []), FAIL);
    let mut con = ConsoleInput::new();
    assert_eq!(
        read(&mut f, &mut con, &h.stack, &mut h.sockets, 3, fd, &mut out),
        Err(VfsError::InvalidOperation)
    );
    assert_eq!(
        pickleos::fs::vfs::net::write(&mut f, &h.stack, &mut h.sockets, 3, fd, b"x", 0, 0),
        Err(VfsError::InvalidOperation)
    );
    assert_eq!(ask(&mut h, &mut f, Call::Shutdown { fd }, &[], &mut []), DONE);
    // Addresses that are too short.
    let fd = new_socket(&mut h, &mut f);
    let short = Call::Bind { fd, addr: range(7) };
    assert_eq!(ask(&mut h, &mut f, short, &[0; 7], &mut []), FAIL);
    let short = Call::Connect { fd, addr: range(7) };
    assert_eq!(ask(&mut h, &mut f, short, &[0; 7], &mut []), FAIL);
    let short = Call::Accept { fd, addr: Some(range(7)) };
    assert_eq!(ask(&mut h, &mut f, short, &[], &mut [0; 7]), FAIL);
}

#[test]
fn accepting_is_given_up_in_the_end() {
    let (mut h, _) = hosts();
    let mut f = files();
    let fd = new_socket(&mut h, &mut f);
    // A socket that was never bound listens on the echo port.
    assert_eq!(ask(&mut h, &mut f, Call::Listen { fd }, &[], &mut []), DONE);
    assert_eq!(h.stack.tcp_listen(&mut h.sockets, 1, ECHO_PORT), Ok(()));
    assert!(h.stack.tcp_listen(&mut h.sockets, 1, ECHO_PORT + 1).is_err());
    let c = Call::Accept { fd, addr: None };
    let mut after = |spins: u64| {
        serve_socket(&mut f, &mut h.stack, &mut h.interface, &mut h.sockets, 3, &c, &[], &mut [], spins)
    };
    assert_eq!(after(0), SocketReply::Wait);
    assert_eq!(after(49_999_998), SocketReply::Wait);
    assert_eq!(after(49_999_999), FAIL);
}

#[test]
fn closing_a_descriptor_destroys_its_socket() {
    let (mut h, _) = hosts();
    let mut f = files();
    let a = new_socket(&mut h, &mut f);
    let b = new_socket(&mut h, &mut f);
    assert_eq!(close(&mut f, &mut h.stack, &mut h.sockets, 3, a), Ok(()));
    assert_eq!(h.stack.tcp_bind(1, 80), Err("invalid socket ID"));
    assert_eq!(h.stack.tcp_bind(2, 80), Ok(()));
    assert_eq!(get_socket_id(&f, 3, a), None);
    assert_eq!(close(&mut f, &mut h.stack, &mut h.sockets, 3, a), Err(VfsError::BadFileDescriptor));
    assert_eq!(close(&mut f, &mut h.stack, &mut h.sockets, 3, 0), Ok(()));
    // A task that ends takes its sockets along.
    assert_eq!(get_socket_id(&f, 3, b), Some(2));
    cleanup_task_fds(&mut f, &mut h.stack, &mut h.sockets, 3);
    assert_eq!(h.stack.tcp_bind(2, 80), Err("invalid socket ID"));
    assert_eq!(get_socket_id(&f, 3, b), None);
}

#[test]
fn sockets_end_with_numbers_and_descriptors() {
    let (mut h, _) = hosts();
    // Without a table there is no descriptor; the socket is closed and keeps its number.
    let mut bare: FileSystem<RamDisk> = FileSystem::new(BlockRegistry::new());
    assert_eq!(ask(&mut h, &mut bare, Call::Socket, &[], &mut []), FAIL);
    assert_eq!(h.stack.tcp_bind(1, 80), Ok(()));
    // A task has 61 descriptors beside the standard ones.
    let mut f = files();
    for i in 0..61 {
        assert_eq!(new_socket(&mut h, &mut f), 3 + i);
    }
    assert_eq!(ask(&mut h, &mut f, Call::Socket, &[], &mut []), FAIL);
    assert_eq!(h.stack.tcp_bind(63, 80), Ok(()));
    // There is one number left, and then none, whatever descriptors there are.
    vfs::init_task_fds(&mut f, 3);
    assert_eq!(MAX_SOCKETS, 64);
    let last = new_socket(&mut h, &mut f);
    assert_eq!(ask(&mut h, &mut f, Call::Socket, &[], &mut []), FAIL);
    assert_eq!(h.stack.tcp_bind(65, 80), Err("invalid socket ID"));
    assert_eq!(close(&mut f, &mut h.stack, &mut h.sockets, 3, last), Ok(()));
    assert_eq!(ask(&mut h, &mut f, Call::Socket, &[], &mut []), SocketReply::Value(4));
}
