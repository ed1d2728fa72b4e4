use pickleos::capability::{self, mint, Object, Rights};
use pickleos::driver::ahci::{AhciPort, DeviceType};
use pickleos::driver::ahci_cmd::DriveInfo;
use pickleos::driver::block::{register, BlockRegistry, RamDisk};
use pickleos::driver::console::{ARROW_DOWN, ARROW_LEFT, ARROW_UP, DELETE, HOME, PAGE_UP};
use pickleos::driver::dma::DmaAllocator;
use pickleos::driver::irq::IrqLines;
use pickleos::fs::vfs::{self, FileSystem};
use pickleos::ipc::IpcState;
use pickleos::kernel::{Kernel, TaskInfo};
use pickleos::services::memfs::MemFs;
use pickleos::services::registry::{RegRequest, Registry};
use pickleos::shell::line::{
    handle_key, key_action, round, History, KeyAction, KeyThen, LineEditor, Round, HISTORY_LIMIT,
};
use pickleos::shell::parse::{
    cut_at_space, parse_line, parse_number, split_lines, text_contains, CommandLine,
};
use pickleos::shell::pipeline::{pipe_redirect_selftest, run_command_line};
use pickleos::shell::report::{hex_dump, HELP};
use pickleos::shell::start::begin;
use pickleos::shell::run::{call_text, execute, identify_text, survived_text, verb_of, After, Verb};

fn kernel() -> Kernel<RamDisk> {
    let mut devs = BlockRegistry::new();
    register(&mut devs, RamDisk::new("sata0", 512, 64));
    register(&mut devs, RamDisk::new("sata1", 512, 512));
    let mut registry = Registry::new();
    registry.handle(RegRequest::Register { name: "vfs".to_string(), endpoint: 2 });
    Kernel {
        tasks: vec![
            TaskInfo { id: 0, name: "idle".to_string(), state: "Ready".to_string() },
            TaskInfo { id: 12, name: "shell".to_string(), state: "Running".to_string() },
        ],
        ticks: 182,
        history: History::new(),
        caps: capability::init(),
        irqs: IrqLines::new(),
        dma: DmaAllocator::init(),
        pci: Vec::new(),
        ports: Vec::new(),
        files: FileSystem::new(devs),
        memfs: Some(MemFs::init()),
        registry: Some(registry),
    }
}

fn shown(k: &mut Kernel<RamDisk>, line: &str) -> String {
    let end = run_command_line(k, 12, 5, line);
    assert!(end.waiting.is_none());
    end.shown
}

#[test]
fn lines_are_parsed() {
    assert!(matches!(parse_line(""), CommandLine::Empty));
    assert!(matches!(parse_line("  "), CommandLine::EmptyStage));
    assert!(matches!(parse_line("ls >"), CommandLine::NoTarget));
    assert!(matches!(parse_line("ls | | wc"), CommandLine::EmptyStage));
    match parse_line("ps | grep idle > /out") {
        CommandLine::Run { stages, redirect } => {
            assert_eq!(stages.iter().map(|s| s.trim()).collect::<Vec<_>>(), vec!["ps", "grep idle"]);
            assert_eq!(redirect.as_deref(), Some("/out"));
        },
        other => panic!("{:?}", other),
    }
}

#[test]
fn numbers_and_texts_are_parsed() {
    assert_eq!(parse_number("644", 8, 0xffff), Some(0o644));
    assert_eq!(parse_number("8", 8, 0xffff), None);
    assert_eq!(parse_number("", 10, 10), None);
    assert_eq!(parse_number("11", 10, 10), None);
    assert_eq!(parse_number("+7", 10, 10), Some(7));
    assert_eq!(split_lines("a\nb\r\n\nc"), vec!["a", "b", "", "c"]);
    assert!(text_contains("pickle", "ckl"));
    assert!(text_contains("pickle", ""));
    assert!(!text_contains("pickle", "pickles"));
    assert_eq!(cut_at_space("a b c"), ("a", Some("b c")));
    assert_eq!(cut_at_space("abc"), ("abc", None));
    assert_eq!(verb_of("lspci"), Verb::Pci);
    assert_eq!(verb_of("nothing"), Verb::Other);
}

#[test]
fn histories_are_bounded_and_survive() {
    let mut h = History::new();
    for i in 0..HISTORY_LIMIT + 10 {
        assert!(h.push(&format!("cmd {}", i)));
    }
    assert!(!h.push("cmd 73"));
    assert_eq!(h.len(), HISTORY_LIMIT);
    assert_eq!(h.get(0), "cmd 10");
    let mut again = History::new();
    again.load(h.save().as_bytes());
    assert_eq!(again.len(), HISTORY_LIMIT);
    assert!((0..HISTORY_LIMIT).all(|i| again.get(i) == h.get(i)));
}

#[test]
fn keys_edit_the_line() {
    let mut h = History::new();
    h.push("old");
    let mut e = LineEditor::new("> ");
    for c in ['l', 's', 'x'] {
        handle_key(&mut e, &mut h, c);
    }
    handle_key(&mut e, &mut h, '\u{8}');
    handle_key(&mut e, &mut h, HOME);
    handle_key(&mut e, &mut h, 'a');
    handle_key(&mut e, &mut h, DELETE);
    assert_eq!(key_action(ARROW_LEFT), KeyAction::Left);
    // Up to the history and back again keeps the draft.
    handle_key(&mut e, &mut h, ARROW_UP);
    handle_key(&mut e, &mut h, ARROW_DOWN);
    assert!(matches!(handle_key(&mut e, &mut h, PAGE_UP).1, KeyThen::Scroll { back: true }));
    match handle_key(&mut e, &mut h, '\n').1 {
        KeyThen::Run { line, save } => {
            assert_eq!(line, "as");
            assert!(save);
        },
        other => panic!("{:?}", other),
    }
    assert_eq!(h.get(1), "as");
    handle_key(&mut e, &mut h, ARROW_UP);
    handle_key(&mut e, &mut h, ARROW_UP);
    match handle_key(&mut e, &mut h, '\n').1 {
        KeyThen::Run { line, .. } => assert_eq!(line, "old"),
        other => panic!("{:?}", other),
    }
}

#[test]
fn shells_wait_for_the_focus() {
    assert_eq!(round(false, true, true, true), (true, Round::Typing));
    assert_eq!(round(true, true, false, true), (false, Round::Parked(5)));
    assert_eq!(round(true, true, true, false), (false, Round::Unfocused(2)));
}

#[test]
fn reports() {
    let mut k = kernel();
    assert_eq!(shown(&mut k, "help"), HELP);
    assert!(HELP.contains("  caps          show this"));
    assert_eq!(shown(&mut k, "ps"), "  ID  STATE     NAME\n   0  Ready     idle\n  12  Running   shell\n");
    assert_eq!(shown(&mut k, "pid"), "shell task id = 12\n");
    assert_eq!(shown(&mut k, "ticks"), "ticks = 182\n");
    assert_eq!(shown(&mut k, "uptime"), "ticks = 182 (~10 s at 18.2 Hz)\n");
    assert_eq!(shown(&mut k, "mem"), "kernel heap: start=0x444444440000 size=8192 KiB\n");
    mint(&mut k.caps, 12, Object::Irq(3), Rights(Rights::ALL));
    assert!(shown(&mut k, "caps").contains("Irq(3)"));
    assert!(shown(&mut k, "services").contains("vfs"));
    assert!(shown(&mut k, "lsblk").contains("sata1"));
    assert!(shown(&mut k, "nonsense").contains("nonsense"));
    assert_eq!(shown(&mut k, ""), "");
}

#[test]
fn pipes_and_redirections() {
    let mut k = kernel();
    assert_eq!(shown(&mut k, "echo one two"), "one two\n");
    assert_eq!(shown(&mut k, "ps | grep idle"), "   0  Ready     idle\n");
    assert_eq!(shown(&mut k, "ps | wc"), "       3      9     64\n");
    assert_eq!(shown(&mut k, "ls >"), "syntax error: expected filename after '>'\n");
    assert_eq!(shown(&mut k, "ls | | wc"), "syntax error: empty command in pipeline\n");
    assert!(shown(&mut k, "echo x > /f").starts_with("redirect: /f: "));
    assert!(shown(&mut k, "mkfs.nextfs sata1").contains("sata1"));
    shown(&mut k, "mount sata1");
    assert!(vfs::is_mounted(&k.files));
    assert_eq!(shown(&mut k, "echo hi > /f"), "[3 bytes written to /f]\n");
    assert_eq!(shown(&mut k, "nxcat /f"), "hi\n");
}

#[test]
fn disk_commands() {
    let mut k = kernel();
    shown(&mut k, "mkfs.nextfs 1");
    shown(&mut k, "mount 1");
    shown(&mut k, "nxmkdir /d");
    shown(&mut k, "nxwrite /d/f hello");
    assert!(shown(&mut k, "nxls /d").contains("f"));
    assert!(shown(&mut k, "nxcat /d/f").contains("hello"));
    shown(&mut k, "nxchmod 600 /d/f");
    shown(&mut k, "nxchown 7 8 /d/f");
    let s = vfs::stat(&k.files, 0, "/d/f").unwrap();
    assert_eq!((s.mode, s.uid, s.gid, s.size), (0o600, 7, 8, 5));
    shown(&mut k, "nxtruncate /d/f 2");
    assert_eq!(vfs::stat(&k.files, 0, "/d/f").unwrap().size, 2);
    shown(&mut k, "nxrm /d/f");
    shown(&mut k, "nxrmdir /d");
    assert!(vfs::stat(&k.files, 0, "/d").is_err());
    assert_eq!(shown(&mut k, "unmount"), "Filesystem unmounted\n");
    shown(&mut k, "blkwrite 0 3 pickles");
    assert!(shown(&mut k, "blkread 0 3").contains("pickles"));
}

#[test]
fn file_server_commands() {
    let mut k = kernel();
    shown(&mut k, "mkdir /tmp");
    shown(&mut k, "write /tmp/a some text");
    assert!(shown(&mut k, "cat /tmp/a").contains("some text"));
    assert!(shown(&mut k, "ls /tmp").contains("a"));
    shown(&mut k, "touch /tmp/b");
    assert!(shown(&mut k, "stat /tmp/b").contains("0"));
    shown(&mut k, "rm /tmp/a");
    assert!(shown(&mut k, "cat /tmp/a").contains("NotFound"));
    k.memfs = None;
    assert!(shown(&mut k, "cat /tmp/b").contains("InvalidPath"));
}

#[test]
fn some_commands_end_outside() {
    let mut k = kernel();
    assert_eq!(execute(&mut k, 12, 1, "clear", None).1, After::Clear);
    assert_eq!(execute(&mut k, 12, 1, "int3", None).1, After::Breakpoint);
    assert_eq!(execute(&mut k, 12, 1, "ipc 41", None).1, After::Call(41));
    assert_eq!(execute(&mut k, 12, 1, "ipc x", None).1, After::Call(7));
    assert_eq!(execute(&mut k, 12, 1, "identify", None).0, "No AHCI devices to query\n");
    let port = AhciPort {
        index: 0,
        signature: 0x101,
        device_type: DeviceType::Sata,
        clb_phys: 0,
        fb_phys: 0,
    };
    k.ports.push(port);
    let end = run_command_line(&mut k, 12, 1, "identify | wc");
    let (mut pipeline, printed, after) = end.waiting.unwrap();
    assert_eq!(after, After::Identify);
    let info = DriveInfo { model: "M".to_string(), serial: "S".to_string(), sectors: 2048, sector_size: 512 };
    let text = identify_text(&k.ports, &vec![Some(info)]);
    assert!(text.contains("2048"));
    let held = pipeline.finish(printed + &text);
    assert_eq!(held, "");
    let rest = pipeline.run(&mut k, 12, 1);
    assert!(rest.waiting.is_none());
    assert_eq!(rest.shown.split_whitespace().count(), 3);
    assert!(call_text(Some(42)).contains("42"));
    assert!(!survived_text().is_empty());
}

#[test]
fn the_shell_checks_itself() {
    let mut k = kernel();
    let r = pipe_redirect_selftest(&mut k, 12, 1);
    assert!(r.redirect.is_err());
    shown(&mut k, "mkfs.nextfs 1");
    shown(&mut k, "mount 1");
    let r = pipe_redirect_selftest(&mut k, 12, 1);
    assert!(matches!(r.redirect, Ok(true)));
    assert!(r.pipe);
}

#[test]
fn bytes_are_dumped() {
    let d = hex_dump(b"Pickle\0\x7f0123456789abcdef");
    assert!(d.contains("50 69 63 6b"));
    assert!(d.contains("Pickle.."));
}

#[test]
fn a_shell_begins_with_the_demo_service() {
    let mut ipc = IpcState::init();
    let mut caps = capability::init();
    begin(&mut caps, &ipc, 12);
    assert!(!capability::check(&caps, 12, 0, Rights(Rights::NONE)));
    ipc.create_named_endpoint("registry");
    let ep = ipc.create_named_endpoint("demo.pong");
    begin(&mut caps, &ipc, 12);
    let rights = Rights(Rights::SEND | Rights::RECV | Rights::GRANT);
    assert!(capability::check(&caps, 12, 0, rights));
    assert!(!capability::check(&caps, 12, 0, Rights(Rights::READ)));
    assert!(!capability::check(&caps, 12, 1, Rights(Rights::NONE)));
    let found = capability::find_object(&caps, 12, rights, |o| *o == Object::Endpoint(ep));
    assert!(found.is_some());
}
