use pickleos::capability::{self, mint, Object, Rights};
use pickleos::driver::ahci::{
    claim_registers, find_controller, implemented_ports, port_base, BringUp, DeviceType, Probe,
    RegAction,
};
use pickleos::driver::ahci_cmd::{
    command_header, command_table, flush_command, identify_command, parse_identify, plan_transfer,
    port_context, sata_device, CommandEnd, Run, WaitIdle,
};
use pickleos::driver::ahci_job::{DiskJob, JobAction, JobEnd, Phase};
use pickleos::driver::block::{
    self, device_count, find_by_name, list, register, AhciBlockDevice, BlockDevice, BlockError,
    BlockRegistry, RamDisk,
};
use pickleos::driver::console::{
    self, deliver_key, feed_scancode, has_input, inject_char, raw_key_to_sentinel, read_char,
    read_char_blocking, ConsoleInput, Key, RawKey, ARROW_UP,
};
use pickleos::driver::dma::{phys_to_virt, DmaAllocator, DMA_POOL_PHYS_BASE, DMA_POOL_VIRT_BASE};
use pickleos::driver::e1000::{
    find_card, link_up, mac_from_words, reset_card, CardOp, E1000, EepromRead,
};
use pickleos::driver::irq::IrqLines;
use pickleos::driver::keyboard::PortOp::{Drain, In, Out, WaitRead, WaitWrite};
use pickleos::driver::keyboard::{
    grant_ps2, keyboard_config, keyboard_finish, keyboard_start, may_read, may_write, PortAsk, PortRun,
};
use pickleos::driver::mmio::{
    check_mmio_cap, read_access, write_access, AccessError, KernelIoDepth, MMIO_VIRT_BASE,
};
use pickleos::driver::mouse::{mouse_config, mouse_finish, mouse_start, Mouse};
use pickleos::driver::pci::{
    config_address, find_device, interrupt_line, probe_function, FunctionRegs, PciDevice, PciScan,
};
use pickleos::driver::portio::{port_access, task_owns_port};
use pickleos::driver::timer::TimerMonitor;
use pickleos::memory::{AddressSpace, BootInfoFrameAllocator, MemoryManager, MemoryRegion};

fn device(vendor_id: u16, device_id: u16, class_code: u8, subclass: u8, prog_if: u8, bars: [u32; 6]) -> PciDevice {
    PciDevice {
        bus: 0,
        device: 1,
        function: 0,
        vendor_id,
        device_id,
        class_code,
        subclass,
        prog_if,
        revision: 0,
        bars,
    }
}

#[test]
fn pci_addresses_and_classes() {
    assert_eq!(config_address(0, 3, 1, 0x10), 0x8000_1910);
    assert_eq!(config_address(1, 0, 0, 0x3e), 0x8001_003c);
    assert_eq!(device(1, 2, 1, 6, 1, [0; 6]).class_name(), "AHCI SATA controller");
    assert_eq!(interrupt_line(0x0000_010b), 11);
}

#[test]
fn pci_functions_are_probed() {
    let regs = FunctionRegs { id: 0x100e_8086, class: 0x0200_0003, header: 0, bars: [0xfebc_0000, 0, 0, 0, 0, 0] };
    let d = probe_function(0, 3, 0, &regs).unwrap();
    assert_eq!((d.vendor_id, d.device_id, d.class_code, d.revision), (0x8086, 0x100e, 2, 3));
    let none = FunctionRegs { id: 0xffff_ffff, class: 0, header: 0, bars: [0; 6] };
    assert!(probe_function(0, 3, 0, &none).is_none());
}

#[test]
fn pci_scan_visits_every_function() {
    let mut scan = PciScan::init();
    let mut asked = 0;
    while let Some((dev, func)) = scan.wanted() {
        asked += 1;
        // One device with two functions.
        let present = dev == 2 && func < 2;
        let regs = FunctionRegs {
            id: if present { 0x2922_8086 } else { 0xffff_ffff },
            class: 0x0106_0100,
            header: 0x0080_0000,
            bars: [0, 0, 0, 0, 0, 0xfebf_1000],
        };
        scan.take(&regs);
    }
    assert!(asked >= 32);
    assert_eq!(scan.devices.len(), 2);
    let found = find_device(&scan.devices, |d: &PciDevice| d.function == 1);
    assert_eq!(found.map(|d| d.device), Some(2));
    assert_eq!(find_controller(&scan.devices), Some(0xfebf_1000));
    assert_eq!(find_controller(&Vec::new()), None);
}

fn registers(action: RegAction, value: u32, log: &mut Vec<(u64, u32)>) -> u32 {
    match action {
        RegAction::Write(at, v) => {
            log.push((at, v));
            0
        },
        _ => value,
    }
}

#[test]
fn controllers_are_brought_up() {
    let abar = 0xfebf_1000;
    let mut st = BringUp::ReadCap;
    let mut writes = Vec::new();
    let mut steps = 0;
    loop {
        let a = st.action(abar);
        if a == RegAction::Finished {
            break;
        }
        let v = match a {
            RegAction::Read(r) if r == abar => 5,
            RegAction::Read(r) if r == abar + 0x0c => 0x3f,
            RegAction::Read(_) => 0x8000_0000,
            _ => registers(a, 0, &mut writes),
        };
        st = st.step(abar, v);
        steps += 1;
    }
    assert!(steps < 20);
    assert_eq!(writes, vec![(abar + 4, 0x8000_0001), (abar + 4, 0x8000_0000)]);
    match st {
        BringUp::Done(c) => {
            assert_eq!((c.num_ports, c.ports_implemented), (6, 0x3f));
            assert_eq!(implemented_ports(c.ports_implemented), vec![0, 1, 2, 3, 4, 5]);
        },
        other => panic!("{:?}", other),
    }
    assert_eq!(port_base(abar, 2), abar + 0x100 + 0x100);
}

#[test]
fn ports_are_probed() {
    let mut dma = DmaAllocator::init();
    let base = 0x1100;
    let mut st = Probe::ReadLink;
    let mut n = 0;
    while st.action(base) != RegAction::Finished {
        st = match st {
            Probe::Allocate => Probe::allocate(&mut dma),
            _ => {
                let v = match st.action(base) {
                    RegAction::Read(r) if r == base + 0x28 => 0x113,
                    RegAction::Read(r) if r == base + 0x24 => 0x101,
                    // The port stops at once, and starts receiving at once.
                    RegAction::Read(r) if r == base + 0x18 => match st {
                        Probe::PollReceive { .. } => 0x4000,
                        _ => 0,
                    },
                    _ => 0,
                };
                st.step(4, v)
            },
        };
        n += 1;
        assert!(n < 2000);
    }
    match st {
        Probe::Done(p) => {
            assert_eq!((p.index, p.device_type), (4, DeviceType::Sata));
            assert_eq!(p.clb_phys, DMA_POOL_PHYS_BASE);
            assert_ne!(p.fb_phys, p.clb_phys);
        },
        other => panic!("{:?}", other),
    }
    assert_eq!(Probe::ReadLink.step(0, 0), Probe::Absent);
    assert_eq!(DeviceType::from_signature(0xEB14_0101), DeviceType::Atapi);
    assert_eq!(DeviceType::from_signature(7), DeviceType::Unknown);
}

#[test]
fn probing_without_a_device_ends() {
    // The link says that something is there, but it never gets ready.
    let mut st = Probe::WriteLinkNormal { clb: 1, fb: 2, sctl: 0 };
    let mut n = 0;
    while st.action(0) != RegAction::Finished {
        st = st.step(0, 1);
        n += 1;
    }
    assert_eq!(st, Probe::Absent);
    assert!(n < 500);
}

#[test]
fn commands_are_laid_out() {
    let mut dma = DmaAllocator::init();
    let t = plan_transfer(&mut dma, Some((0, 0)), 0x1234_5678_9abc, 2, 1024, true).unwrap().unwrap();
    assert_eq!(t.command.byte_count, 1024);
    assert_eq!(t.command.data_phys, t.buffer.phys);
    let header = command_header(&t.command, 0xabcd_0000);
    assert_eq!(header, vec![69, 0, 1, 0, 0, 0, 0, 0, 0, 0, 0xcd, 0xab, 0, 0, 0, 0]);
    let table = command_table(&t.command);
    assert_eq!(table.len(), 256);
    assert_eq!(
        &table[..14],
        &[0x27, 0x80, 0x35, 0, 0xbc, 0x9a, 0x78, 0x40, 0x56, 0x34, 0x12, 0, 2, 0]
    );
    assert_eq!(&table[128..136], &t.buffer.phys.to_le_bytes());
    assert_eq!(&table[140..144], &1023u32.to_le_bytes());
    dma.reset_to(t.mark);
    assert_eq!(dma.stats().0, 0);
    assert_eq!(command_table(&flush_command())[2], 0xea);
    assert_eq!(command_table(&identify_command(4096))[7], 0);
}

#[test]
fn transfers_are_refused() {
    let mut dma = DmaAllocator::init();
    assert_eq!(plan_transfer(&mut dma, None, 0, 0, 0, false), Ok(None));
    assert_eq!(
        plan_transfer(&mut dma, Some((0, 0)), 0, 2, 1000, false),
        Err("buffer too small for requested sector count")
    );
    assert_eq!(plan_transfer(&mut dma, None, 0, 1, 512, false), Err("unknown AHCI port"));
    assert_eq!(
        plan_transfer(&mut dma, Some((0, 0)), 0, 65535, 65535 * 512, true),
        Err("dma alloc (write buffer) failed")
    );
    assert_eq!(
        plan_transfer(&mut dma, Some((0, 0)), 0, 65535, 65535 * 512, false),
        Err("dma alloc (read buffer) failed")
    );
    assert_eq!(dma, DmaAllocator::init());
    assert_eq!(port_context(&None, &Vec::new(), 0), None);
}

#[test]
fn commands_run_to_their_end() {
    let run = |ci: u32, is: u32, tfd: u32| {
        let mut st = Run::ReadStatus;
        let mut n = 0u64;
        loop {
            st = match st.action(0) {
                RegAction::Finished => break,
                RegAction::Read(0x38) => st.step(Ok(ci)),
                RegAction::Read(0x10) => st.step(Ok(is)),
                RegAction::Read(0x20) => st.step(Ok(tfd)),
                _ => st.step(Ok(0)),
            };
            n += 1;
            assert!(n < 10_000_000);
        }
        match st {
            Run::Ended(e) => e,
            _ => unreachable!(),
        }
    };
    assert_eq!(run(0, 0, 0), CommandEnd::Completed);
    assert_eq!(run(0, 0, 1), CommandEnd::Failed);
    assert_eq!(run(1, 0, 0), CommandEnd::Timeout);
    assert_eq!(CommandEnd::Completed.result(), Ok(()));
    let denied = |e: AccessError| CommandEnd::Denied(e).result();
    assert_eq!(denied(AccessError::NotReadable), Err("no MMIO read capability"));
    assert_eq!(denied(AccessError::NotWritable), Err("no MMIO write capability"));
    assert_eq!(denied(AccessError::NotMapped), Err("failed to map MMIO"));
    assert_eq!(CommandEnd::Timeout.result(), Err("command timeout"));
    assert_eq!(CommandEnd::Failed.result(), Err("command failed (TFD error bit set)"));
    assert_eq!(WaitIdle::start(0), WaitIdle::Busy);
    assert_eq!(WaitIdle::start(2).step(Some(0)), WaitIdle::Idle);
    assert_eq!(WaitIdle::start(2).step(Some(0x80)), WaitIdle::Pause { left: 1 });
    assert_eq!(WaitIdle::start(2).step(None), WaitIdle::Busy);
}

#[test]
fn drives_are_identified() {
    let mut id = vec![0u8; 512];
    // Text has the bytes of each word swapped.
    for (i, b) in b"EQUMH RADDSI K".iter().enumerate() {
        id[54 + i] = *b;
    }
    for i in 14..40 {
        id[54 + i] = b' ';
    }
    for i in 0..20 {
        id[20 + i] = b' ';
    }
    id[20] = b'1';
    id[21] = b'Q';
    id[200..208].copy_from_slice(&131072u64.to_le_bytes());
    let d = parse_identify(&id);
    assert_eq!(d.model, "QEMU HARDDISK");
    assert_eq!(d.serial, "Q1");
    assert_eq!((d.sectors, d.sector_size), (131072, 512));
    id[212..214].copy_from_slice(&0x1000u16.to_le_bytes());
    id[234..236].copy_from_slice(&2048u16.to_le_bytes());
    assert_eq!(parse_identify(&id).sector_size, 4096);
    let b = sata_device(1, 3, &d);
    assert_eq!((b.name.as_str(), b.port, b.block_size, b.block_count), ("sata1", 3, 512, 131072));
}

fn sata() -> AhciBlockDevice {
    AhciBlockDevice { name: "sata0".to_string(), port: 0, block_size: 512, block_count: 200_000 }
}

#[test]
fn long_transfers_are_cut_into_chunks() {
    let d = sata();
    let c = d.chunks(10, 70_000, 70_000 * 512).unwrap();
    assert_eq!(c.len(), 2);
    assert_eq!((c[0].lba, c[0].count, c[0].offset, c[0].len), (10, 65535, 0, 65535 * 512));
    assert_eq!((c[1].lba, c[1].count, c[1].offset), (65545, 4465, 65535 * 512));
    assert_eq!(d.validate(199_999, 2, 1024), Err(BlockError::OutOfRange));
    assert_eq!(d.validate(0, 2, 512), Err(BlockError::BadBuffer));
    assert_eq!(d.validate(0, 2, 1024), Ok(()));
}

#[test]
fn block_devices_are_registered_and_used() {
    let mut devs: BlockRegistry<RamDisk> = BlockRegistry::new();
    assert_eq!(register(&mut devs, RamDisk::new("ram0", 512, 8)), 0);
    assert_eq!(register(&mut devs, RamDisk::new("ram1", 512, 4)), 1);
    assert_eq!(device_count(&devs), 2);
    assert_eq!(find_by_name(&devs, "ram1"), Some(1));
    assert_eq!(find_by_name(&devs, "ram2"), None);
    let info = list(&devs);
    assert_eq!((info[1].name.as_str(), info[1].block_count, info[1].block_size), ("ram1", 4, 512));
    let data = vec![0xa5; 1024];
    assert_eq!(block::write(&mut devs, 0, 3, &data), Ok(()));
    assert_eq!(block::read(&devs, 0, 3, 2).unwrap(), data);
    assert_eq!(block::read(&devs, 0, 2, 1).unwrap(), vec![0; 512]);
    assert_eq!(block::read(&devs, 0, 7, 2), Err(BlockError::OutOfRange));
    assert_eq!(block::read(&devs, 5, 0, 1), Err(BlockError::OutOfRange));
    assert_eq!(block::write(&mut devs, 0, 0, &[1, 2, 3]), Err(BlockError::BadBuffer));
}

#[test]
fn block_selftest_changes_nothing() {
    let mut devs: BlockRegistry<RamDisk> = BlockRegistry::new();
    register(&mut devs, RamDisk::new("ram0", 512, 4));
    block::write(&mut devs, 0, 2, &[9; 512]).unwrap();
    assert_eq!(block::selftest(&mut devs, 0, 2), Ok(()));
    assert_eq!(block::read(&devs, 0, 2, 1).unwrap(), vec![9; 512]);
    assert_eq!(block::selftest(&mut devs, 0, 4), Err(BlockError::OutOfRange));
    assert_eq!(block::selftest(&mut devs, 1, 0), Err(BlockError::OutOfRange));
    assert_eq!(RamDisk::new("x", 512, 1).name(), "x");
}

#[test]
fn scancodes_become_characters() {
    let mut c = ConsoleInput::new();
    assert_eq!(read_char_blocking(&mut c, 9), None);
    // Pressing and releasing A, then shift and A.
    assert_eq!(feed_scancode(&mut c, 0x1e), vec![9]);
    feed_scancode(&mut c, 0x9e);
    feed_scancode(&mut c, 0x2a);
    feed_scancode(&mut c, 0x1e);
    assert!(has_input(&c));
    assert_eq!(read_char(&mut c), Some('a'));
    assert_eq!(read_char(&mut c), Some('A'));
    assert_eq!(read_char(&mut c), None);
    // The up arrow comes as two codes.
    feed_scancode(&mut c, 0xe0);
    feed_scancode(&mut c, 0x48);
    assert_eq!(read_char(&mut c), Some(ARROW_UP));
}

#[test]
fn keys_without_a_character() {
    assert_eq!(raw_key_to_sentinel(RawKey::ArrowUp), Some(ARROW_UP));
    assert_eq!(raw_key_to_sentinel(RawKey::Other), None);
    let mut c = ConsoleInput::new();
    assert!(deliver_key(&mut c, None).is_empty());
    assert!(deliver_key(&mut c, Some(Key::Raw(RawKey::Other))).is_empty());
    assert!(!has_input(&c));
    deliver_key(&mut c, Some(Key::Unicode('z')));
    assert_eq!(read_char(&mut c), Some('z'));
}

#[test]
fn console_input_is_bounded() {
    let mut c = ConsoleInput::new();
    for i in 0..300u32 {
        inject_char(&mut c, char::from_u32(0x100 + i).unwrap());
    }
    let mut n = 0u32;
    while let Some(ch) = read_char(&mut c) {
        assert_eq!(ch as u32, 0x100 + n);
        n += 1;
    }
    assert_eq!(n, 255);
    inject_char(&mut c, 'q');
    console::flush(&mut c);
    assert!(!has_input(&c));
}

#[test]
fn dma_buffers_do_not_overlap() {
    let mut d = DmaAllocator::init();
    let a = d.alloc_dma(100).unwrap();
    let b = d.alloc_dma(5000).unwrap();
    assert_eq!((a.phys, a.virt), (DMA_POOL_PHYS_BASE, DMA_POOL_VIRT_BASE));
    assert!(b.phys >= a.phys + 4096);
    let m = d.mark();
    let c = d.alloc_dma(4096).unwrap();
    d.reset_to(m);
    assert_eq!(d.alloc_dma(4096).unwrap().phys, c.phys);
    assert!(d.alloc_dma(0x80_0000).is_none());
    assert_eq!(phys_to_virt(DMA_POOL_PHYS_BASE + 5), DMA_POOL_VIRT_BASE + 5);
}

#[test]
fn interrupts_coalesce_and_wake() {
    let mut l = IrqLines::new();
    assert!(l.register(1, 7));
    assert!(!l.register(1, 8));
    assert!(!l.register(16, 8));
    // Two interrupts before the driver looks are one answer of two.
    assert_eq!(l.notify_from_isr(1), None);
    assert_eq!(l.notify_from_isr(1), None);
    assert_eq!(l.wait(1, 7), Some(2));
    // Nothing there: the driver waits, and the next interrupt wakes it.
    assert_eq!(l.wait(1, 7), None);
    assert_eq!(l.notify_from_isr(1), Some(7));
    l.resumed(1);
    assert_eq!(l.wait(1, 7), Some(1));
    assert_eq!(l.stats(1), Some((7, 3)));
    assert_eq!(l.notify_from_isr(200), None);
    assert_eq!(l.stats(16), None);
}

#[test]
fn the_timer_reports_each_hundred() {
    let mut t = TimerMonitor::new();
    assert!(!t.served(99));
    assert!(t.served(1));
    assert!(!t.served(50));
    assert!(t.served(250));
    assert_eq!((t.received, t.milestones), (400, 4));
}

#[test]
fn ports_need_a_capability() {
    let mut caps = capability::init();
    assert!(!task_owns_port(&caps, 3, 0x60, 1));
    grant_ps2(&mut caps, 3, 1);
    assert!(task_owns_port(&caps, 3, 0x60, 5));
    assert!(!task_owns_port(&caps, 3, 0x60, 6));
    assert_eq!(port_access(&caps, 3, 0x64), Ok(()));
    assert_eq!(port_access(&caps, 3, 0x65), Err("port-io: missing Port capability"));
    assert!(may_write(0xfd));
    assert!(!may_write(2));
    assert!(may_read(1));
    assert!(!may_read(0xfe));
    assert_eq!(keyboard_config(0x30), 0x21);
    assert_eq!(mouse_config(0x21), 0x03);
}

#[test]
fn registers_need_a_capability() {
    let mut caps = capability::init();
    let io = KernelIoDepth::new();
    let mut mem = MemoryManager::install_global(
        AddressSpace::new(),
        BootInfoFrameAllocator::init(vec![MemoryRegion { start: 0x5000, end: 0x8000, usable: true }]),
        0,
    );
    mint(&mut caps, 2, Object::Mmio { phys_base: 0xfebf_1000, len: 0x1100 }, Rights(Rights::READ));
    assert!(check_mmio_cap(&caps, io, 2, 0xfebf_1000, 0x1100, Rights(Rights::READ)));
    assert!(!check_mmio_cap(&caps, io, 2, 0xfebf_1000, 0x1101, Rights(Rights::READ)));
    assert_eq!(
        read_access(&caps, io, &mut mem, 2, 0xfebf_1004, 4),
        Ok(MMIO_VIRT_BASE + 0xfebf_1004)
    );
    assert!(matches!(
        write_access(&caps, io, &mut mem, 2, 0xfebf_1004, 4),
        Err(AccessError::NotWritable)
    ));
    assert_eq!(read_access(&caps, io, &mut mem, 9, 0xfebf_1004, 4), Err(AccessError::NotReadable));
    // What is not allowed is refused wherever it is.
    assert_eq!(read_access(&caps, io, &mut mem, 9, u64::MAX, 8), Err(AccessError::NotReadable));
    assert_eq!(write_access(&caps, io, &mut mem, 9, u64::MAX, 8), Err(AccessError::NotWritable));
    // The kernel's own authority needs none.
    let mut k = KernelIoDepth::new();
    k.enter();
    assert!(write_access(&caps, k, &mut mem, 9, 0xfebf_1004, 4).is_ok());
    // There is no frame for the tables of a register further away.
    assert_eq!(write_access(&caps, k, &mut mem, 9, 0x1000_0000, 4), Err(AccessError::NotMapped));
    k.leave();
    assert_eq!(k, KernelIoDepth::new());
}

#[test]
fn the_pointer_stays_on_the_screen() {
    let mut m = Mouse::new();
    m.set_bounds_and_center(100, 80);
    assert_eq!((m.state().x, m.state().y), (50, 40));
    let packet = |m: &mut Mouse, b: [u8; 3]| {
        for x in b {
            m.receive(0x21, x);
        }
    };
    // Right and up, with the left button.
    packet(&mut m, [0x09, 5, 7]);
    assert_eq!((m.state().x, m.state().y, m.state().left), (55, 33, true));
    // Far left.
    packet(&mut m, [0x18, 0, 0]);
    assert_eq!((m.state().x, m.state().left), (0, false));
    // An overflowing packet is dropped.
    packet(&mut m, [0x48, 9, 9]);
    assert_eq!(m.state().x, 0);
    // A byte of the keyboard, and one that begins no packet, are ignored.
    m.receive(0x01, 0x08);
    m.receive(0x21, 0x00);
    packet(&mut m, [0x28, 255, 0]);
    assert_eq!((m.state().x, m.state().y), (99, 79));
}

#[test]
fn network_cards_are_found() {
    let card = device(0x8086, 0x100e, 2, 0, 0, [0xfebc_0000, 0, 0, 0, 0, 0]);
    assert_eq!(find_card(&vec![card]), Ok(0xfebc_0000));
    assert!(find_card(&Vec::new()).is_err());
    assert_eq!(mac_from_words(0x5452, 0x1200, 0x5634), [0x52, 0x54, 0x00, 0x12, 0x34, 0x56]);
    assert_eq!(EepromRead::request(1) & 1, 1);
    assert!(!matches!(EepromRead::Poll { left: 3 }.step(0xabcd_0010), EepromRead::Poll { .. }));
}

#[test]
fn packets_go_round_the_rings() {
    let mut dma = DmaAllocator::init();
    let mut e = E1000::new(&mut dma, 0xfebc_0000, [2, 0, 0, 0, 0, 1]).unwrap();
    assert_eq!(e.mac_address(), [2, 0, 0, 0, 0, 1]);
    let writes = e.hw_init(0);
    assert!(writes.contains(&(0x2808, 32 * 16)));
    assert!(writes.contains(&(0x3808, 16 * 16)));
    let t = e.transmit(60, 1).unwrap();
    assert_eq!((t.slot, t.length, t.tail), (0, 60, 1));
    assert!(e.transmit(3000, 1).is_err());
    assert!(e.transmit(60, 0).is_err());
    let first = e.rx_slot();
    assert!(e.receive(0, 60).is_none());
    let r = e.receive(1, 60).unwrap();
    assert_eq!((r.slot, r.len, r.tail as usize), (first, 60, first));
    assert_eq!(e.rx_slot(), (first + 1) % 32);
}

#[test]
fn the_card_is_reset_before_it_is_set_up() {
    assert_eq!(
        reset_card(),
        vec![
            CardOp::Write(0, 0x0400_0000),
            CardOp::Spin(100_000),
            CardOp::Write(0xd8, 0xffff_ffff),
            CardOp::Read(0xc0),
            CardOp::Read(0),
        ],
    );
    assert!(link_up(2) && !link_up(0xfffd));
    assert_eq!(EepromRead::begin(), EepromRead::Poll { left: 1000 });
}

/// Runs an operation with a controller that always gives the same; gives the accesses
/// and what was read.
fn run_port(op: pickleos::driver::keyboard::PortOp, answer: Option<u8>) -> (Vec<PortAsk>, Option<u8>) {
    let mut r = PortRun::begin(op);
    let mut asked = Vec::new();
    loop {
        match r.ask() {
            PortAsk::Nothing => break,
            a => asked.push(a),
        }
        r = r.step(answer);
    }
    match r {
        PortRun::Done { read } => (asked, read),
        _ => panic!("not done"),
    }
}

#[test]
fn the_controller_is_not_waited_for_without_end() {
    let (asked, _) = run_port(Drain, Some(1));
    assert_eq!(asked.len(), 32);
    assert_eq!(asked[..2], [PortAsk::Read(0x64), PortAsk::Read(0x60)]);
    assert_eq!(run_port(Drain, None).0.len(), 1);
    assert_eq!(run_port(WaitWrite, Some(0)), (vec![PortAsk::Read(0x64)], None));
    assert_eq!(run_port(WaitWrite, Some(2)).0.len(), 100_000);
    assert_eq!(run_port(WaitWrite, None).0.len(), 100_000);
    assert_eq!(run_port(WaitRead, Some(1)).0.len(), 1);
    assert_eq!(run_port(WaitRead, None).0.len(), 100_000);
    assert_eq!(run_port(Out(0x64, 7), None), (vec![PortAsk::Write(0x64, 7)], None));
    assert_eq!(run_port(In(0x60), Some(9)), (vec![PortAsk::Read(0x60)], Some(9)));
    assert_eq!(run_port(In(0x60), None).1, Some(0));
}

#[test]
fn the_keyboard_is_set_up_over_its_ports() {
    assert_eq!(keyboard_start(), vec![Drain, WaitWrite, Out(0x64, 0x20), WaitRead, In(0x60)]);
    assert_eq!(
        keyboard_finish(0x34),
        vec![
            WaitWrite,
            Out(0x64, 0x60),
            WaitWrite,
            Out(0x60, 0x25),
            WaitWrite,
            Out(0x60, 0xf4),
            WaitRead,
            In(0x60),
        ],
    );
}

#[test]
fn the_mouse_is_set_up_over_its_ports() {
    assert_eq!(
        mouse_start(),
        vec![WaitWrite, Out(0x64, 0xa8), WaitWrite, Out(0x64, 0x20), WaitRead, In(0x60)],
    );
    let command = |c: u8| vec![WaitWrite, Out(0x64, 0xd4), WaitWrite, Out(0x60, c), WaitRead, In(0x60)];
    let mut expected = vec![WaitWrite, Out(0x64, 0x60), WaitWrite, Out(0x60, 0x47)];
    expected.extend(command(0xf6));
    expected.extend(command(0xf4));
    assert_eq!(mouse_finish(0x65), expected);
}

/// Answers every access of a job as a healthy drive does, and notes the commands.
fn drive(mut job: DiskJob, dma: &mut DmaAllocator, issued: &mut Vec<u8>) -> Result<(), &'static str> {
    loop {
        match job.action() {
            JobAction::Ended => return job.finish(dma),
            JobAction::LayOut => {
                let l = job.lay_out(dma).unwrap();
                assert_eq!((l.header.len(), l.body.len()), (16, 256));
                issued.push(l.body[2]);
            },
            JobAction::Reg(_) => job = job.step(Ok(0)),
        }
    }
}

#[test]
fn writes_are_flushed_and_memory_comes_back() {
    let mut dma = DmaAllocator::init();
    let before = dma;
    let mut issued = Vec::new();
    let job = DiskJob::start(&mut dma, Some((0x1000, 0x2000)), 1, 7, 2, 1024, true).unwrap().unwrap();
    assert_eq!(job.base, 0x1000 + 0x100 + 0x80);
    assert_eq!(job.command.byte_count, 1024);
    assert_eq!(drive(job, &mut dma, &mut issued), Ok(()));
    assert_eq!(issued, vec![0x35, 0xea]);
    assert_eq!(dma, before);
    issued.clear();
    let job = DiskJob::start(&mut dma, Some((0x1000, 0x2000)), 1, 7, 2, 1024, false).unwrap().unwrap();
    assert_eq!(drive(job, &mut dma, &mut issued), Ok(()));
    assert_eq!(issued, vec![0x25]);
    issued.clear();
    let job = DiskJob::start_identify(&mut dma, Some((0x1000, 0x2000)), 0).unwrap();
    assert_eq!(drive(job, &mut dma, &mut issued), Ok(()));
    assert_eq!(issued, vec![0xec]);
    assert_eq!(dma, before);
}

#[test]
fn jobs_end_whatever_the_registers_read() {
    let mut dma = DmaAllocator::init();
    let context = Some((0x1000, 0x2000));
    assert!(matches!(DiskJob::start(&mut dma, context, 0, 0, 0, 0, false), Ok(None)));
    assert!(matches!(DiskJob::start(&mut dma, None, 0, 0, 1, 512, false), Err("unknown AHCI port")));
    assert!(DiskJob::start_identify(&mut dma, None, 0).is_none());
    let first = DiskJob::start(&mut dma, context, 0, 0, 1, 512, true).unwrap().unwrap();
    let mut job = first;
    let mut steps = 0;
    while job.action() != JobAction::Ended {
        job = job.step(Ok(0x80));
        steps += 1;
    }
    assert_eq!(steps, 2000);
    assert_eq!(job.phase, Phase::Ended(JobEnd::Busy));
    assert_eq!(job.finish(&mut dma), Err("port busy before command"));
    dma.mark();
    let mut full = DmaAllocator { next_offset: dma.size, ..dma };
    let mut job = first.step(Ok(0));
    assert_eq!(job.action(), JobAction::LayOut);
    assert!(job.lay_out(&mut full).is_none());
    assert_eq!(job.finish(&mut full), Err("dma alloc (command table) failed"));
    let mut job = first.step(Ok(0));
    job.lay_out(&mut dma).unwrap();
    let mut other = DmaAllocator { in_mark: true, ..dma };
    let unread = job.step(Err(AccessError::NotReadable));
    assert_eq!(unread.finish(&mut dma), Err("no MMIO read capability"));
    // The write that follows the first read is denied for a reason of its own.
    let unwritten = job.step(Ok(0)).step(Err(AccessError::NotWritable));
    assert_eq!(unwritten.finish(&mut other), Err("no MMIO write capability"));
    assert_eq!(first.step(Err(AccessError::NotMapped)).phase, Phase::Ended(JobEnd::Busy));
}

#[test]
fn interrupt_lines_can_be_reported() {
    let mut lines = IrqLines::new();
    assert!(lines.register(3, 9));
    lines.notify_from_isr(3);
    let then = lines.snapshot();
    lines.notify_from_isr(3);
    assert_eq!(then.stats(3), Some((9, 1)));
    assert_eq!(lines.stats(3), Some((9, 2)));
    assert_eq!(then.stats(16), None);
}

#[test]
fn every_failed_look_is_followed_by_a_wait() {
    // A reset that never ends: a hundred looks, and a wait after each.
    let mut st = BringUp::PollReset { num_ports: 1, left: 100 };
    let (mut looks, mut waits) = (0, 0);
    while !matches!(st, BringUp::ReadAgain { .. }) {
        match st.action(0x1000) {
            RegAction::Yield => waits += 1,
            _ => looks += 1,
        }
        st = st.step(0x1000, 1);
    }
    assert_eq!((looks, waits), (100, 100));
}

#[test]
fn drivers_claim_their_registers() {
    let mut caps = capability::init();
    claim_registers(&mut caps, 3, 0xfeb0_0000);
    let cap = capability::lookup(&caps, 3, 0).unwrap();
    assert_eq!(cap.object, Object::Mmio { phys_base: 0xfeb0_0000, len: 0x2000 });
    assert_eq!(cap.rights, Rights(12));
}
