use pickleos::capability::{self, mint, Object, Rights};
use pickleos::driver::block::{register, BlockRegistry, RamDisk};
use pickleos::driver::console::ConsoleInput;
use pickleos::fs::fds::SeekWhence;
use pickleos::fs::vfs::net::get_socket_id;
use pickleos::fs::vfs::{self, nx, FileSystem};
use pickleos::ipc::IpcState;
use pickleos::memory::{
    AddressSpace, BootInfoFrameAllocator, MemoryManager, MemoryRegion, PageEntry,
    USER_HEAP_START,
};
use pickleos::syscall::args::{
    accept_waits, ephemeral_port, peer_bytes, socket_address, window_bytes, window_title,
    StringWalk, Want,
};
use pickleos::net::stack::NetworkStack;
use pickleos::syscall::files::{read_call, write_call, Transfer};
use pickleos::syscall::memory::{sys_mmap_impl, sys_munmap_impl};
use pickleos::syscall::serve::{serve, Served};
use pickleos::syscall::windows::{pixels_in, window_reply, WindowAnswer};
use pickleos::syscall::{
    decode, delivers_signals, is_user_pointer, sys_open_flags_from_raw, Call, SyscallFrame,
    UserSlice, FAILED, SYS_CHOWN, SYS_EXIT, SYS_LSEEK, SYS_MMAP, SYS_OPEN, SYS_PRINT, SYS_READ,
    SYS_SIGRETURN, SYS_SPAWN, SYS_WIN_COMMIT, SYS_WIN_CREATE, USER_SPACE_MAX,
};

fn frame(rax: u64, rdi: u64, rsi: u64, rdx: u64, r10: u64) -> SyscallFrame {
    SyscallFrame {
        r15: 0,
        r14: 0,
        r13: 0,
        r12: 0,
        rbp: 0,
        rbx: 0,
        r11: 0,
        rcx: 0,
        r9: 0,
        r8: 0,
        r10,
        rdx,
        rsi,
        rdi,
        rax,
    }
}

#[test]
fn user_pointers_end_with_user_space() {
    assert!(is_user_pointer(0x40_0000, 16));
    assert!(is_user_pointer(USER_SPACE_MAX - 4, 4));
    assert!(!is_user_pointer(USER_SPACE_MAX - 4, 5));
    assert!(!is_user_pointer(USER_SPACE_MAX, 0));
    assert!(!is_user_pointer(8, u64::MAX));
}

#[test]
fn open_flags_are_taken_apart() {
    let f = sys_open_flags_from_raw(0x241);
    assert_eq!((f.read, f.write, f.create, f.truncate, f.append), (false, true, true, true, false));
    let g = sys_open_flags_from_raw(0x402);
    assert_eq!((g.read, g.write, g.create, g.truncate, g.append), (true, true, false, false, true));
    assert!(sys_open_flags_from_raw(0).read);
}

#[test]
fn calls_are_decoded() {
    let kernel_addr = 0xffff_8000_0000_0000;
    assert!(decode(&frame(SYS_PRINT, kernel_addr, 4, 0, 0), true, true).is_none());
    assert!(decode(&frame(SYS_PRINT, kernel_addr, 4, 0, 0), false, true).is_some());
    assert!(matches!(
        decode(&frame(SYS_READ, 3, 0x1000, 16, 0), true, true),
        Some(Call::Read { fd: 3, buf: UserSlice { ptr: 0x1000, len: 16 } })
    ));
    assert!(matches!(
        decode(&frame(SYS_LSEEK, 3, (-2i64) as u64, 2, 0), true, true),
        Some(Call::Seek { fd: 3, offset: -2, whence: SeekWhence::End })
    ));
    assert!(decode(&frame(SYS_LSEEK, 3, 0, 9, 0), true, true).is_none());
    assert!(matches!(
        decode(&frame(SYS_EXIT, 5, 0, 0, 0), true, true),
        Some(Call::Exit { status: 5 })
    ));
    assert!(matches!(
        decode(&frame(SYS_CHOWN, 0x1000, 4, (7 << 16) | 8, 0), true, true),
        Some(Call::Chown { uid: 7, gid: 8, .. })
    ));
    assert!(matches!(
        decode(&frame(SYS_OPEN, 0x1000, 4, 0, 0), true, true),
        Some(Call::Open { flags, .. }) if flags.read && !flags.write
    ));
    assert!(decode(&frame(SYS_MMAP, 0, 4096, 0, 0), false, true).is_none());
    assert!(decode(&frame(999, 0, 0, 0, 0), true, true).is_none());
    assert!(decode(&frame(SYS_SPAWN, 0x1000, 8, 0x2000, 0), true, true).is_none());
}

#[test]
fn windows_belong_to_their_owner() {
    assert!(decode(&frame(SYS_WIN_COMMIT, 1, 0x1000, 64, 0), true, true).is_some());
    assert!(decode(&frame(SYS_WIN_COMMIT, 1, 0x1000, 64, 0), true, false).is_none());
    assert!(matches!(
        decode(&frame(SYS_WIN_CREATE, 320, 200, 0, 0), true, false),
        Some(Call::WinCreate { width: 320, height: 200, title: None })
    ));
}

#[test]
fn signals_come_after_most_calls() {
    assert!(delivers_signals(&frame(SYS_PRINT, 0, 0, 0, 0)));
    assert!(!delivers_signals(&frame(SYS_SIGRETURN, 0, 0, 0, 0)));
}

#[test]
fn argument_vectors_are_walked() {
    // Two strings behind a table of pointers that ends in zero.
    let word = |a: u64| match a {
        0x100 => 0x200,
        0x108 => 0x300,
        _ => 0,
    };
    let byte = |a: u64| {
        let (s, at) = if a >= 0x300 { ("-l", a - 0x300) } else { ("ls", a - 0x200) };
        *s.as_bytes().get(at as usize).unwrap_or(&0)
    };
    let mut w = StringWalk::begin(0x100, true);
    let mut n = 0;
    loop {
        match w.want() {
            Want::Word(a) => w.word(word(a)),
            Want::Byte(a) => w.byte(byte(a)),
            Want::Done => break,
        }
        n += 1;
        assert!(n < 100);
    }
    assert_eq!(w.strings(), vec!["ls", "-l"]);
    assert!(StringWalk::begin(0, true).strings().is_empty());
}

#[test]
fn endless_argument_vectors_end() {
    let mut w = StringWalk::begin(0x100, true);
    let mut n = 0u64;
    loop {
        match w.want() {
            Want::Word(_) => w.word(0x5000),
            Want::Byte(_) => w.byte(b'x'),
            Want::Done => break,
        }
        n += 1;
        assert!(n < 100_000);
    }
    let s = w.strings();
    assert!(s.len() <= 64);
    assert!(s.iter().all(|t| t.len() <= 256));
}

#[test]
fn addresses_read_back() {
    let b = peer_bytes(Some(([10, 0, 2, 2], 5555)));
    assert_eq!(b, vec![2, 0, 0x15, 0xb3, 10, 0, 2, 2]);
    assert_eq!(socket_address(&b), ([10, 0, 2, 2], 5555));
    assert_eq!(peer_bytes(None), vec![2, 0, 0, 0, 0, 0, 0, 0]);
    assert_eq!(ephemeral_port(10_003), 49155);
    assert_eq!(accept_waits(true, 0), Some(true));
    assert_eq!(accept_waits(false, 0), None);
    assert_eq!(accept_waits(false, 49_999_999), Some(false));
    assert_eq!(window_bytes(1, 2, 3, 4), vec![1, 0, 0, 0, 2, 0, 0, 0, 3, 0, 0, 0, 4, 0, 0, 0]);
    assert_eq!(window_title(Some(b"Clock")), "Clock");
    assert_eq!(window_title(Some(&[0xff])), "window");
    assert_eq!(window_title(None), "window");
}

#[test]
fn memory_is_mapped_and_given_back() {
    let map = vec![MemoryRegion { start: 0x10_0000, end: 0x11_0000, usable: true }];
    let mut m = MemoryManager::install_global(AddressSpace::new(), BootInfoFrameAllocator::init(map), 0);
    let (cr3, space) = m.create_user_mapper().unwrap();
    m.store_user_mapper(cr3, space);
    let (at, next) = sys_mmap_impl(&mut m, Some(cr3), USER_HEAP_START, 5000);
    assert_eq!((at, next), (Some(USER_HEAP_START), USER_HEAP_START + 8192));
    assert_eq!(sys_munmap_impl(&mut m, Some(cr3), USER_HEAP_START, 5000), Ok(()));
    assert_eq!(sys_munmap_impl(&mut m, Some(cr3), USER_HEAP_START, 1), Err(()));
    assert_eq!(sys_munmap_impl(&mut m, None, 0, 0), Ok(()));
    assert_eq!(sys_mmap_impl(&mut m, None, next, 1), (None, next));
    assert_eq!(sys_mmap_impl(&mut m, Some(cr3), next, 0), (None, next));
    let far = sys_mmap_impl(&mut m, Some(cr3), next, 100 * 4096);
    assert_eq!(far.0, None);
    // Lengths that no address space has are refused, and so is what lies between the
    // halves of the addresses.
    assert_eq!(sys_mmap_impl(&mut m, Some(cr3), next, u64::MAX), (None, next));
    assert_eq!(sys_mmap_impl(&mut m, Some(cr3), 1 << 47, 1), (None, 1 << 47));
    assert_eq!(sys_munmap_impl(&mut m, Some(cr3), u64::MAX, u64::MAX), Err(()));
    assert_eq!(sys_munmap_impl(&mut m, Some(cr3), 1 << 47, 1), Err(()));
}

#[test]
fn pages_are_unmapped_in_both_halves() {
    let map = vec![MemoryRegion { start: 0x10_0000, end: 0x11_0000, usable: true }];
    let mut kernel = AddressSpace::new();
    let upper = 0xffff_8000_0000_0000u64;
    let entry = PageEntry { frame: 0x5000, flags: 3 };
    assert!(kernel.map(upper / 4096 % (1 << 36), entry));
    assert!(kernel.map((1 << 36) - 1, entry));
    let mut m = MemoryManager::install_global(kernel, BootInfoFrameAllocator::init(map), 0);
    let (cr3, space) = m.create_user_mapper().unwrap();
    m.store_user_mapper(cr3, space);
    assert_eq!(sys_munmap_impl(&mut m, Some(cr3), upper, 1), Ok(()));
    assert_eq!(sys_munmap_impl(&mut m, Some(cr3), upper, 1), Err(()));
    // The last page is unmapped, and behind it there is none.
    assert_eq!(sys_munmap_impl(&mut m, Some(cr3), u64::MAX - 4095, 4097), Err(()));
    assert_eq!(sys_munmap_impl(&mut m, Some(cr3), u64::MAX, 1), Err(()));
    // The pages before one that is not mapped stay unmapped.
    sys_mmap_impl(&mut m, Some(cr3), USER_HEAP_START, 8192);
    assert_eq!(sys_munmap_impl(&mut m, Some(cr3), USER_HEAP_START, u64::MAX), Err(()));
    assert_eq!(sys_munmap_impl(&mut m, Some(cr3), USER_HEAP_START, 1), Err(()));
    // A mapping goes up to the end of the half.
    let last = (1u64 << 47) - 4096;
    assert_eq!(sys_mmap_impl(&mut m, Some(cr3), last, 4096), (Some(last), 1 << 47));
    assert_eq!(sys_munmap_impl(&mut m, Some(cr3), last, 4096), Ok(()));
    assert_eq!(sys_mmap_impl(&mut m, Some(cr3), last, 4097), (None, (1 << 47) + 4096));
}

fn files() -> FileSystem<RamDisk> {
    let mut devs = BlockRegistry::new();
    register(&mut devs, RamDisk::new("sata0", 512, 512));
    let mut f = FileSystem::new(devs);
    nx::format(&mut f, 0).unwrap();
    vfs::mount(&mut f, 0).unwrap();
    vfs::init_task_fds(&mut f, 3);
    f
}

#[test]
fn calls_are_served() {
    let mut f = files();
    let mut ipc = IpcState::init();
    let mut caps = capability::init();
    mint(&mut caps, 3, Object::Irq(1), Rights(Rights::READ));
    let (mut n, mut s) = NetworkStack::new();
    let path = UserSlice { ptr: 0x1000, len: 2 };
    let mut ask = |f: &mut FileSystem<RamDisk>, c: Call, input: &[u8]| {
        serve(f, &mut ipc, &mut n, &mut s, &caps, 3, 99, 7, &c, input)
    };
    assert!(matches!(ask(&mut f, Call::GetPid, &[]), Served::Value(3)));
    assert!(matches!(ask(&mut f, Call::Ticks, &[]), Served::Value(99)));
    let text = UserSlice { ptr: 0, len: 3 };
    assert!(matches!(
        ask(&mut f, Call::Print { text }, b"abc"),
        Served::Printed { text: Some(t), value: 3 } if t == "abc"
    ));
    assert!(matches!(
        ask(&mut f, Call::Print { text }, &[0xff, 0, 0]),
        Served::Printed { text: None, value: 3 }
    ));
    let read = Rights(Rights::READ);
    assert!(matches!(ask(&mut f, Call::CapCheck { slot: 0, rights: read }, &[]), Served::Value(1)));
    assert!(matches!(ask(&mut f, Call::CapCheck { slot: 9, rights: read }, &[]), Served::Value(0)));
    assert!(matches!(ask(&mut f, Call::Mkdir { path }, b"/d"), Served::Value(0)));
    assert!(matches!(ask(&mut f, Call::Mkdir { path }, b"/d"), Served::Value(FAILED)));
    assert!(matches!(ask(&mut f, Call::Rmdir { path }, b"/d"), Served::Value(0)));
    match ask(&mut f, Call::Stat { path, out: 0x2000 }, b"/") {
        Served::Stored { at, bytes, value } => {
            assert_eq!((at, value), (0x2000, 0));
            assert!(!bytes.is_empty());
        },
        other => panic!("{:?}", other),
    }
    match ask(&mut f, Call::Pipe { out: 0x3000 }, &[]) {
        Served::Stored { bytes, value, .. } => {
            assert_eq!(value, 0);
            assert_eq!(bytes, vec![3, 0, 0, 0, 4, 0, 0, 0]);
        },
        other => panic!("{:?}", other),
    }
    assert!(matches!(ask(&mut f, Call::Close { fd: 4 }, &[]), Served::Value(0)));
    assert!(matches!(ask(&mut f, Call::Close { fd: 40 }, &[]), Served::Value(FAILED)));
    assert!(matches!(ask(&mut f, Call::Fork, &[]), Served::Elsewhere));
    assert!(matches!(ask(&mut f, Call::IpcRecv { endpoint: 77 }, &[]), Served::Blocked));
}

#[test]
fn reads_and_writes_by_descriptor() {
    let mut f = files();
    let mut c = ConsoleInput::new();
    let (mut n, mut ss) = NetworkStack::new();
    let mut b = [0u8; 4];
    assert_eq!(read_call(&mut f, &mut c, &n, &mut ss, 3, 0, &mut b), Transfer::WaitInput);
    assert_eq!(write_call(&mut f, &n, &mut ss, 3, 1, b"x", 0, 1), Transfer::Console);
    assert_eq!(read_call(&mut f, &mut c, &n, &mut ss, 3, 33, &mut b), Transfer::Value(FAILED));
    let (r, w) = vfs::pipe(&mut f, 3).unwrap();
    assert_eq!(read_call(&mut f, &mut c, &n, &mut ss, 3, r, &mut b), Transfer::WaitPipe { done: 0 });
    assert_eq!(write_call(&mut f, &n, &mut ss, 3, w, b"wxyz", 0, 1), Transfer::Value(4));
    assert_eq!(read_call(&mut f, &mut c, &n, &mut ss, 3, r, &mut b), Transfer::Value(4));
    assert_eq!(&b, b"wxyz");
    let s = vfs::socket(&mut f, 3, 5).unwrap();
    assert_eq!(get_socket_id(&f, 3, s), Some(5));
    assert_eq!(get_socket_id(&f, 3, r), None);
    // There is no socket 5: that is an error of the call.
    assert_eq!(read_call(&mut f, &mut c, &n, &mut ss, 3, s, &mut b), Transfer::Value(FAILED));
    assert_eq!(write_call(&mut f, &n, &mut ss, 3, s, b"x", 0, 1), Transfer::Value(FAILED));
    // One that is not connected moves nothing.
    let id = n.create_tcp_socket(&mut ss).unwrap();
    let t = vfs::socket(&mut f, 3, id).unwrap();
    assert_eq!(read_call(&mut f, &mut c, &n, &mut ss, 3, t, &mut b), Transfer::Value(0));
    assert_eq!(write_call(&mut f, &n, &mut ss, 3, t, b"x", 0, 1), Transfer::Value(0));
    assert_eq!(&b, b"wxyz");
}

#[test]
fn window_answers_become_values() {
    let reply = |a: WindowAnswer| {
        let r = window_reply(a);
        (r.value, r.out)
    };
    assert_eq!(reply(WindowAnswer::Created(Some(4))), (4, vec![]));
    assert_eq!(reply(WindowAnswer::Created(None)), (FAILED, vec![]));
    assert_eq!(reply(WindowAnswer::Done(true)), (0, vec![]));
    assert_eq!(reply(WindowAnswer::Done(false)), (FAILED, vec![]));
    assert_eq!(reply(WindowAnswer::Event(Some([3; 16]))), (1, vec![3; 16]));
    assert_eq!(reply(WindowAnswer::Event(None)), (0, vec![]));
    assert_eq!(
        reply(WindowAnswer::Place(Some((1, 2, 3, u32::MAX)))),
        (0, vec![1, 0, 0, 0, 2, 0, 0, 0, 3, 0, 0, 0, 255, 255, 255, 255])
    );
    assert_eq!(reply(WindowAnswer::Place(None)), (FAILED, vec![]));
    assert_eq!(pixels_in(&[1, 2, 3, 0, 9, 0, 0, 0, 7]), vec![0x0003_0201, 9]);
    assert!(pixels_in(&[1, 2, 3]).is_empty());
}
