use pickleos::bytes::{
    bytes_eq, copy_range, push_u16, push_u32, push_u64, read_u16, read_u32, read_u64, splice,
    str_eq, zeroed,
};
use pickleos::capability::{
    self, check, check_role, create_table, find_object, grant, lookup, mint, revoke, Capability,
    Object, Rights, ROLE_KILL,
};
use pickleos::interrupts::{
    faulted_in_user_mode, general_protection_fault, invalid_opcode, mask_port, unmask_irq,
    FaultAction, InterruptIndex,
};
use pickleos::ipc::{IpcState, Message};
use pickleos::kernel::Backtrace;
use pickleos::names::{text_before, NameMap};
use pickleos::signal::{
    default_terminates, SignalState, SIGCHLD, SIGINT, SIGKILL, SIGTERM, SIGUSR1, SIG_IGN,
};
use pickleos::text::{
    decimal_text, push_hex, push_left, push_number, push_right, push_signed, split_words, trim,
    trim_end,
};

#[test]
fn bytes_are_little_endian() {
    let mut v = Vec::new();
    push_u16(&mut v, 0x1234);
    push_u32(&mut v, 0xdead_beef);
    push_u64(&mut v, 0x0102_0304_0506_0708);
    assert_eq!(v, vec![0x34, 0x12, 0xef, 0xbe, 0xad, 0xde, 8, 7, 6, 5, 4, 3, 2, 1]);
    assert_eq!(read_u16(&v, 0), 0x1234);
    assert_eq!(read_u32(&v, 2), 0xdead_beef);
    assert_eq!(read_u64(&v, 6), 0x0102_0304_0506_0708);
    assert_eq!(copy_range(&v, 1, 3), vec![0x12, 0xef]);
}

#[test]
fn bytes_are_spliced_and_compared() {
    let mut v = zeroed(5);
    splice(&mut v, 1, &[7, 8]);
    assert_eq!(v, vec![0, 7, 8, 0, 0]);
    assert!(bytes_eq(&v, &[0, 7, 8, 0, 0]));
    assert!(!bytes_eq(&v, &[0, 7, 8, 0]));
    assert!(str_eq("pickle", "pickle"));
    assert!(!str_eq("pickle", "pickles"));
}

#[test]
fn numbers_are_written_out() {
    assert_eq!(decimal_text(0), "0");
    assert_eq!(decimal_text(u64::MAX), "18446744073709551615");
    let mut s = String::new();
    push_hex(&mut s, 0xbeef);
    push_signed(&mut s, -42);
    push_signed(&mut s, i64::MIN);
    assert_eq!(s, "beef-42-9223372036854775808");
    let mut t = String::new();
    push_right(&mut t, "7", '0', 3);
    push_left(&mut t, "ab", 4);
    push_number(&mut t, 0x1f, 16, ' ', 4);
    assert_eq!(t, "007ab    1f");
}

#[test]
fn white_space_is_trimmed_and_splits() {
    assert_eq!(trim("  a b\t\n"), "a b");
    assert_eq!(trim(""), "");
    assert_eq!(trim("   "), "");
    assert_eq!(trim_end("  x  "), "  x");
    // The no-break space is white space too.
    assert_eq!(trim("\u{a0}x\u{a0}"), "x");
    assert_eq!(split_words(" ls  -l /bin "), vec!["ls", "-l", "/bin"]);
    assert!(split_words(" \t ").is_empty());
}

#[test]
fn names_are_kept_in_order() {
    let mut m: NameMap<u32> = NameMap::new();
    m.insert("vfs", 2);
    m.insert("registry", 1);
    m.insert("vfs", 3);
    assert_eq!(m.names(), vec!["registry", "vfs"]);
    assert_eq!(m.get("vfs"), Some(&3));
    assert!(!m.contains("net"));
    assert_eq!(m.remove("vfs"), Some(3));
    assert_eq!(m.remove("vfs"), None);
    assert!(text_before("a", "b"));
    assert!(text_before("a", "ab"));
    assert!(!text_before("b", "a"));
    assert!(!text_before("a", "a"));
}

#[test]
fn rights_are_sets() {
    let rw = Rights(Rights::READ).union(Rights(Rights::WRITE));
    assert_eq!(rw, Rights(Rights::READ | Rights::WRITE));
    assert!(rw.contains(Rights(Rights::READ)));
    assert!(!rw.contains(Rights(Rights::GRANT)));
    assert_eq!(rw.intersect(Rights(Rights::WRITE | Rights::GRANT)), Rights(Rights::WRITE));
    assert!(Rights(Rights::ALL).contains(rw));
    assert!(rw.contains(Rights(Rights::NONE)));
}

#[test]
fn minted_capabilities_are_found() {
    let mut t = capability::init();
    create_table(&mut t, 7);
    let a = mint(&mut t, 7, Object::Irq(1), Rights(Rights::ALL));
    let b = mint(&mut t, 7, Object::Port { base: 0x60, count: 5 }, Rights(Rights::READ));
    assert_eq!((a, b), (0, 1));
    assert_eq!(
        lookup(&t, 7, a),
        Some(Capability { object: Object::Irq(1), rights: Rights(Rights::ALL) })
    );
    assert!(check(&t, 7, b, Rights(Rights::READ)));
    assert!(!check(&t, 7, b, Rights(Rights::WRITE)));
    assert!(!check(&t, 7, 9, Rights(Rights::NONE)));
    assert_eq!(lookup(&t, 8, 0), None);
    let found = find_object(&t, 7, Rights(Rights::READ), |o: &Object| matches!(o, Object::Port { .. }));
    assert_eq!(found.map(|c| c.object), Some(Object::Port { base: 0x60, count: 5 }));
    let none = find_object(&t, 7, Rights(Rights::WRITE), |o: &Object| matches!(o, Object::Port { .. }));
    assert_eq!(none, None);
}

#[test]
fn granting_never_amplifies() {
    let mut t = capability::init();
    let s = mint(
        &mut t,
        1,
        Object::Endpoint(4),
        Rights(Rights::SEND | Rights::GRANT),
    );
    let d = grant(&mut t, 1, s, 2, Rights(Rights::SEND | Rights::RECV)).unwrap();
    assert_eq!(lookup(&t, 2, d).unwrap().rights, Rights(Rights::SEND));
    // What was granted without the right to grant cannot be passed on.
    assert_eq!(grant(&mut t, 2, d, 3, Rights(Rights::SEND)), None);
    assert_eq!(grant(&mut t, 1, 5, 3, Rights(Rights::SEND)), None);
}

#[test]
fn revoked_slots_are_used_again() {
    let mut t = capability::init();
    mint(&mut t, 1, Object::Irq(0), Rights(Rights::ALL));
    mint(&mut t, 1, Object::Irq(1), Rights(Rights::ALL));
    assert_eq!(revoke(&mut t, 1, 0).unwrap().object, Object::Irq(0));
    assert_eq!(revoke(&mut t, 1, 0), None);
    assert_eq!(mint(&mut t, 1, Object::Irq(2), Rights(Rights::ALL)), 0);
}

#[test]
fn roles_are_checked() {
    let mut t = capability::init();
    assert!(!check_role(&t, 5, ROLE_KILL, Rights(Rights::NONE)));
    mint(&mut t, 5, Object::Role(ROLE_KILL), Rights(Rights::WRITE));
    assert!(check_role(&t, 5, ROLE_KILL, Rights(Rights::WRITE)));
    assert!(!check_role(&t, 5, ROLE_KILL, Rights(Rights::READ)));
}

#[test]
fn messages_arrive_in_order() {
    let mut ipc = IpcState::init();
    let ep = ipc.create_named_endpoint("demo.pong");
    assert_eq!(ipc.create_named_endpoint("demo.pong"), ep);
    assert_ne!(ipc.create_named_endpoint("demo.other"), ep);
    assert_eq!(ipc.lookup("demo.pong"), Some(ep));
    assert_eq!(ipc.lookup("nobody"), None);
    assert_eq!(ipc.send(ep, Message::new(1), 10), None);
    assert_eq!(ipc.send(ep, Message::with_words(2, [1, 2, 3, 4, 5, 6]), 11), None);
    let first = ipc.receive(ep, 20).unwrap();
    assert_eq!((first.tag, first.sender), (1, 10));
    let second = ipc.receive(ep, 20).unwrap();
    assert_eq!((second.tag, second.sender, second.words[5]), (2, 11, 6));
    assert!(ipc.receive(ep, 20).is_none());
    // The receiver waits now, and the next message wakes it.
    assert_eq!(ipc.send(ep, Message::new(3), 10), Some(20));
    assert_eq!(ipc.receive(ep, 20).unwrap().tag, 3);
}

#[test]
fn a_call_gets_its_reply() {
    let mut ipc = IpcState::init();
    let ep = ipc.create_endpoint();
    ipc.call(ep, Message::new(100), 1);
    assert!(ipc.poll_reply(1).is_none());
    let m = ipc.receive(ep, 2).unwrap();
    assert_eq!(ipc.reply(&m, Message::new(m.tag + 1), 2), Some(1));
    let r = ipc.poll_reply(1).unwrap();
    assert_eq!((r.tag, r.sender), (101, 2));
    assert!(ipc.poll_reply(1).is_none());
}

#[test]
fn a_reply_without_a_call_is_lost() {
    let mut ipc = IpcState::init();
    let ep = ipc.create_endpoint();
    ipc.send(ep, Message::new(5), 1);
    let m = ipc.receive(ep, 2).unwrap();
    assert_eq!(ipc.reply(&m, Message::new(6), 2), None);
    assert!(ipc.poll_reply(1).is_none());
    ipc.call(ep, Message::new(7), 1);
    ipc.cleanup_reply_slot(1);
    let c = ipc.receive(ep, 2).unwrap();
    assert_eq!(ipc.reply(&c, Message::new(8), 2), None);
}

#[test]
fn signals_are_delivered_lowest_first() {
    let mut s = SignalState::new();
    s.handlers[SIGINT as usize] = 0x1000;
    s.handlers[SIGTERM as usize] = 0x2000;
    assert_eq!(s.next_deliverable(), None);
    s.set_pending(SIGTERM);
    s.set_pending(SIGINT);
    s.set_pending(SIGINT);
    assert_eq!(s.next_deliverable(), Some((SIGINT, 0x1000)));
    s.clear_pending(SIGINT);
    assert_eq!(s.next_deliverable(), Some((SIGTERM, 0x2000)));
    s.clear_pending(SIGTERM);
    assert_eq!(s.next_deliverable(), None);
}

#[test]
fn only_handled_signals_are_delivered() {
    let mut s = SignalState::default();
    s.handlers[SIGINT as usize] = SIG_IGN;
    s.set_pending(SIGINT);
    s.set_pending(SIGTERM);
    assert_eq!(s.next_deliverable(), None);
    // Numbers beyond the last signal do nothing.
    let before = s.pending;
    s.set_pending(32);
    s.clear_pending(40);
    assert_eq!(s.pending, before);
}

#[test]
fn exec_forgets_handlers() {
    let mut s = SignalState::new();
    s.handlers[SIGINT as usize] = SIG_IGN;
    s.handlers[SIGUSR1 as usize] = 0x40_1000;
    s.restorer = 5;
    s.set_pending(SIGUSR1);
    assert_eq!(s.next_deliverable(), Some((SIGUSR1, 0x40_1000)));
    s.reset_for_exec();
    assert_eq!(s.handlers[SIGUSR1 as usize], 0);
    assert_eq!(s.handlers[SIGINT as usize], SIG_IGN);
    assert_eq!((s.pending, s.restorer), (0, 0));
    assert!(default_terminates(SIGKILL));
    assert!(default_terminates(SIGTERM));
    assert!(!default_terminates(SIGCHLD));
}

#[test]
fn interrupt_vectors() {
    assert_eq!(InterruptIndex::Timer.as_u8(), 32);
    assert_eq!(InterruptIndex::Keyboard.as_usize(), 33);
    assert_eq!(InterruptIndex::Ahci.as_u8(), 43);
    assert_eq!(InterruptIndex::Mouse.as_u8(), 44);
    assert_eq!(mask_port(1), Some(0x21));
    assert_eq!(mask_port(12), Some(0xA1));
    assert_eq!(mask_port(16), None);
    assert_eq!(unmask_irq(1, 0xff), 0xfd);
    assert_eq!(unmask_irq(12, 0xff), 0xef);
}

#[test]
fn faults_of_tasks_do_not_stop_the_kernel() {
    assert!(faulted_in_user_mode(0x2b));
    assert!(!faulted_in_user_mode(0x08));
    assert_eq!(invalid_opcode(0x08), FaultAction::Panic);
    assert!(matches!(invalid_opcode(0x2b), FaultAction::ExitTask(_)));
    assert_eq!(general_protection_fault(0x2b), FaultAction::ExitTask(139));
    assert_eq!(general_protection_fault(0x08), FaultAction::Panic);
}

#[test]
fn backtraces_end() {
    let mut b = Backtrace::start(0x1000);
    assert_eq!(b.wanted(), Some(0x1000));
    assert_eq!(b.take(0x2000, 0xabc), Some((0, 0xabc)));
    assert_eq!(b.wanted(), Some(0x2000));
    assert_eq!(b.take(0x3000, 0), None);
    assert_eq!(b.wanted(), None);
    let mut c = Backtrace::start(8);
    let mut n = 0;
    while c.wanted().is_some() {
        c.take(8, 1);
        n += 1;
    }
    assert_eq!(n, 32);
}
