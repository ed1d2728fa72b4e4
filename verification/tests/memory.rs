use pickleos::driver::dma::{map_pool, DMA_POOL_PHYS_BASE, DMA_POOL_VIRT_BASE};
use pickleos::elf::stack::setup_user_stack;
use pickleos::elf::ElfBinary;
use pickleos::interrupts::{page_fault, FaultAction};
use pickleos::kernel::{init_heap, HEAP_SIZE, HEAP_START};
use pickleos::memory::{
    kernel_rw_flags, user_rw_flags, AddressSpace, BootInfoFrameAllocator, MemoryManager,
    MemoryRegion, PageEntry, TableEntry, COW_FLAG, WRITABLE,
};

fn region(start: u64, end: u64, usable: bool) -> MemoryRegion {
    MemoryRegion { start, end, usable }
}

fn manager(frames: u64) -> MemoryManager {
    let map = vec![region(0x10_0000, 0x10_0000 + 4096 * frames, true)];
    MemoryManager::install_global(AddressSpace::new(), BootInfoFrameAllocator::init(map), 0x1000_0000_0000)
}

#[test]
fn frames_come_from_usable_regions_in_order() {
    let map = vec![
        region(0x1000, 0x3000, true),
        region(0x3000, 0x9000, false),
        region(0x9000, 0xa001, true),
    ];
    let mut f = BootInfoFrameAllocator::init(map);
    assert_eq!(f.allocate_frame(), Some(0x1000));
    assert_eq!(f.allocate_frame(), Some(0x2000));
    assert_eq!(f.allocate_frame(), Some(0x9000));
    assert_eq!(f.allocate_frame(), Some(0xa000));
    assert_eq!(f.allocate_frame(), None);
}

#[test]
fn frames_keep_off_the_dma_pool() {
    let base = pickleos::driver::dma::DMA_POOL_PHYS_BASE;
    let size = pickleos::driver::dma::DMA_POOL_SIZE as u64;
    let map = vec![region(base - 4096, base + size + 4096, true)];
    let mut f = BootInfoFrameAllocator::init(map);
    assert_eq!(f.allocate_frame(), Some(base - 4096));
    assert_eq!(f.allocate_frame(), Some(base + size));
    assert_eq!(f.allocate_frame(), None);
}

#[test]
fn address_spaces_map_pages_once() {
    let mut a = AddressSpace::new();
    let e = PageEntry { frame: 0x5000, flags: kernel_rw_flags() };
    assert!(a.map(3, e));
    assert!(!a.map(3, PageEntry { frame: 0x6000, flags: 1 }));
    assert_eq!(a.entry(3), Some(e));
    a.remap(3, PageEntry { frame: 0x6000, flags: 1 });
    assert_eq!(a.entry(3), Some(PageEntry { frame: 0x6000, flags: 1 }));
    assert_eq!(a.pages(), vec![3]);
    assert!(a.unmap(3));
    assert!(!a.unmap(3));
    assert_eq!(a.entry(3), None);
}

#[test]
fn the_heap_gets_its_pages() {
    let pages = HEAP_SIZE / 4096;
    assert_eq!(pages, 2048);
    // Besides its pages it needs frames for seven tables.
    assert_eq!(init_heap(&mut manager(pages + 6)), Err(()));
    let mut m = manager(pages + 7);
    assert_eq!(init_heap(&mut m), Ok(()));
    // No frame is left for a second one, and the pages are taken.
    assert_eq!(init_heap(&mut m), Err(()));
    assert_eq!(m.map_region(HEAP_START, 1, kernel_rw_flags()), None);
    assert_eq!(m.phys_to_virt(0x1234), 0x1000_0000_1234);
}

#[test]
fn user_regions_are_mapped_and_unmapped() {
    let mut m = manager(16);
    let (cr3, space) = m.create_user_mapper().unwrap();
    assert_eq!(m.store_user_mapper(cr3, space), cr3);
    assert_eq!(m.map_user_region(cr3, 0x1_0000_0000, 3, true), Ok(()));
    assert_eq!(m.user_pages(cr3), vec![0x10_0000, 0x10_0001, 0x10_0002]);
    // The frame of the first page comes before those of the tables on the way to it.
    assert_eq!(cr3, 0x10_0000);
    let frame = |p: u64| m.user_entry(cr3, p).unwrap().frame;
    assert_eq!((frame(0x10_0000), frame(0x10_0001), frame(0x10_0002)), (0x10_1000, 0x10_5000, 0x10_6000));
    assert_eq!(m.user_table_keys(cr3), vec![0, 0x40_0001, 0x40_0002]);
    assert_eq!(m.user_table(cr3, 0), Some(TableEntry { frame: 0x10_2000, huge: false }));
    assert_eq!(m.user_table(cr3, 0x40_0002), Some(TableEntry { frame: 0x10_4000, huge: false }));
    assert_eq!(m.user_table(cr3, 1), None);
    assert_eq!(m.kernel_table(0), None);
    assert!(m.user_pages(1).is_empty());
    assert_eq!(m.map_user_region(cr3, 0x1_0000_2000, 3, true), Err(()));
    assert_eq!(m.unmap_user_region(cr3, 0x1_0000_0000, 3), Ok(()));
    assert_eq!(m.unmap_user_region(cr3, 0x1_0000_0000, 1), Err(()));
    assert_eq!(m.map_user_region(cr3, 0x1_0000_0000, 3, false), Ok(()));
}

#[test]
fn running_out_of_frames() {
    let mut m = manager(2);
    let (cr3, space) = m.create_user_mapper().unwrap();
    m.store_user_mapper(cr3, space);
    assert_eq!(m.map_user_region(cr3, 0x40_0000, 2, true), Err(()));
    assert!(m.allocate_frame().is_none());
    assert!(m.create_user_mapper().is_none());
}

#[test]
fn tables_take_frames() {
    // A root table, a page and two of three tables.
    let mut m = manager(4);
    let (cr3, space) = m.create_user_mapper().unwrap();
    m.store_user_mapper(cr3, space);
    assert_eq!(m.map_user_region(cr3, 0x40_0000, 1, true), Err(()));
    assert_eq!(m.user_entry(cr3, 0x400), None);
    assert_eq!(m.user_table_keys(cr3).len(), 2);
    // An address space has its own copies of the tables that lead to user memory.
    let mut m = manager(7);
    let e = PageEntry { frame: 0xb8000, flags: kernel_rw_flags() };
    assert!(m.map_kernel_page(9, e));
    let (cr3, space) = m.create_user_mapper().unwrap();
    m.store_user_mapper(cr3, space);
    assert_eq!(m.kernel_table(0), Some(TableEntry { frame: 0x10_0000, huge: false }));
    assert_eq!(m.user_table(cr3, 0), Some(TableEntry { frame: 0x10_4000, huge: false }));
    assert_eq!(m.user_table(cr3, 2), Some(TableEntry { frame: 0x10_6000, huge: false }));
    assert!(m.create_user_mapper().is_none());
}

#[test]
fn large_pages_are_in_the_way() {
    let mut kernel = AddressSpace::new();
    kernel.add_table(0, 0, TableEntry { frame: 0x9000, huge: false });
    kernel.add_table(0, 1, TableEntry { frame: 0x4000_0000, huge: true });
    assert_eq!(kernel.table_keys(), vec![0, 1]);
    assert_eq!(kernel.table(1), Some(TableEntry { frame: 0x4000_0000, huge: true }));
    let map = vec![region(0x10_0000, 0x11_0000, true)];
    let mut m = MemoryManager::install_global(kernel, BootInfoFrameAllocator::init(map), 0);
    let (cr3, space) = m.create_user_mapper().unwrap();
    m.store_user_mapper(cr3, space);
    assert_eq!(m.map_user_region(cr3, 0x40_0000, 1, true), Err(()));
    assert_eq!(m.map_user_region(cr3, 0x4000_0000, 1, true), Ok(()));
    // The large page is the kernel's; the table that leads to it is not.
    assert_eq!(m.user_table(cr3, 1), m.kernel_table(1));
    assert_ne!(m.user_table(cr3, 0), m.kernel_table(0));
}

#[test]
fn a_fork_without_frames_for_tables_misses_pages() {
    // A root table, a page and three tables; then a root table and two tables.
    let mut m = manager(8);
    let (cr3, space) = m.create_user_mapper().unwrap();
    m.store_user_mapper(cr3, space);
    m.map_user_region(cr3, 0x40_0000, 1, true).unwrap();
    let (child, entries) = m.cow_fork_address_space(cr3).unwrap();
    assert_eq!(entries.len(), 1);
    assert_eq!(m.user_entry(cr3, 0x400), Some(entries[0].1));
    assert_eq!(m.user_entry(child, 0x400), None);
}

#[test]
fn the_pool_for_devices_is_mapped() {
    let mut m = manager(6);
    assert!(map_pool(&mut m));
    let page = DMA_POOL_VIRT_BASE / 4096 % (1 << 36);
    let last = PageEntry { frame: DMA_POOL_PHYS_BASE + 4096 * 2047, flags: kernel_rw_flags() };
    assert_eq!(m.kernel_entry(page + 2047), Some(last));
    assert_eq!(m.kernel_entry(page + 2048), None);
    // It is mapped once, and needs frames for six tables.
    assert!(!map_pool(&mut m));
    assert!(!map_pool(&mut manager(5)));
}

#[test]
fn forks_share_until_written_to() {
    let mut m = manager(32);
    let (cr3, space) = m.create_user_mapper().unwrap();
    m.store_user_mapper(cr3, space);
    m.map_user_region(cr3, 0x40_0000, 1, true).unwrap();
    let (child, entries) = m.cow_fork_address_space(cr3).unwrap();
    assert_ne!(child, cr3);
    assert_eq!(entries.len(), 1);
    assert_eq!(entries[0].1.flags & WRITABLE, 0);
    assert_eq!(entries[0].1.flags & COW_FLAG, COW_FLAG);
    // A write from user mode to the shared page gets the child its own frame.
    let r = page_fault(&mut m, Some(child), 0x40_0123, 7, 0x2b);
    match r {
        FaultAction::Retry(copy) => {
            assert_eq!(copy.from, entries[0].1.frame);
            assert_ne!(copy.to, copy.from);
        },
        other => panic!("{:?}", other),
    }
    // The next write is no fault of that kind any more.
    assert_eq!(page_fault(&mut m, Some(child), 0x40_0123, 7, 0x2b), FaultAction::ExitTask(139));
    assert_eq!(page_fault(&mut m, Some(child), 0x99_0000, 6, 0x2b), FaultAction::ExitTask(139));
    assert_eq!(page_fault(&mut m, None, 0x99_0000, 2, 0x08), FaultAction::Panic);
}

#[test]
fn copies_get_frames_of_their_own() {
    let mut m = manager(32);
    let (cr3, space) = m.create_user_mapper().unwrap();
    m.store_user_mapper(cr3, space);
    m.map_user_region(cr3, 0x40_0000, 2, true).unwrap();
    let (child, copies) = m.duplicate_user_address_space(cr3).unwrap();
    assert_ne!(child, cr3);
    assert_eq!(copies.len(), 2);
    assert!(copies.iter().all(|c| c.from != c.to));
    assert_eq!(user_rw_flags(), 7);
}

fn put16(v: &mut Vec<u8>, at: usize, x: u16) {
    v[at..at + 2].copy_from_slice(&x.to_le_bytes());
}

fn put32(v: &mut Vec<u8>, at: usize, x: u32) {
    v[at..at + 4].copy_from_slice(&x.to_le_bytes());
}

fn put64(v: &mut Vec<u8>, at: usize, x: u64) {
    v[at..at + 8].copy_from_slice(&x.to_le_bytes());
}

/// A file of `len` bytes with one program header for a loadable segment.
fn image(kind: u16, len: usize) -> Vec<u8> {
    let mut v = vec![0u8; len];
    v[..6].copy_from_slice(&[0x7f, b'E', b'L', b'F', 2, 1]);
    put16(&mut v, 16, kind);
    put16(&mut v, 18, 62);
    put64(&mut v, 24, 0x40_0010);
    put64(&mut v, 32, 64);
    put16(&mut v, 54, 56);
    put16(&mut v, 56, 1);
    put32(&mut v, 64, 1);
    put32(&mut v, 68, 5);
    put64(&mut v, 72, 0x100);
    put64(&mut v, 80, 0x40_0000);
    put64(&mut v, 96, 0x20);
    put64(&mut v, 104, 0x30);
    v
}

#[test]
fn executables_are_parsed() {
    let v = image(2, 0x200);
    let e = ElfBinary::parse(&v).unwrap();
    assert_eq!(e.entry, 0x40_0010);
    assert!(!e.is_dynamic);
    assert_eq!(e.segments.len(), 1);
    let s = &e.segments[0];
    assert_eq!((s.vaddr, s.memsz, s.filesz, s.offset, s.flags), (0x40_0000, 0x30, 0x20, 0x100, 5));
    assert!(ElfBinary::parse(&image(3, 0x200)).unwrap().is_dynamic);
}

fn why(v: &[u8]) -> &'static str {
    match ElfBinary::parse(v) {
        Ok(_) => "parsed",
        Err(e) => e,
    }
}

#[test]
fn other_files_are_refused() {
    assert_eq!(why(&[0; 10]), "ELF file too small");
    assert_eq!(why(&[0; 64]), "Invalid ELF magic");
    let mut v = image(2, 0x200);
    v[4] = 1;
    assert_eq!(why(&v), "Not a 64-bit ELF");
    v[4] = 2;
    v[5] = 2;
    assert_eq!(why(&v), "Not little-endian");
    let w = image(1, 0x200);
    assert_eq!(why(&w), "Not an executable or shared object ELF");
    let mut x = image(2, 0x200);
    put16(&mut x, 18, 3);
    assert_eq!(why(&x), "Not x86-64");
    let mut y = image(2, 0x200);
    put64(&mut y, 32, 0x1f0);
    assert_eq!(why(&y), "Program header out of bounds");
}

#[test]
fn dynamic_sections_are_read() {
    let mut v = image(3, 0x300);
    put16(&mut v, 56, 2);
    put32(&mut v, 120, 2);
    put64(&mut v, 128, 0x180);
    put64(&mut v, 152, 0x60);
    for (i, (tag, val)) in [(7u64, 0x500u64), (8, 48), (6, 0x600), (1, 12), (0, 0)].iter().enumerate() {
        put64(&mut v, 0x180 + 16 * i, *tag);
        put64(&mut v, 0x188 + 16 * i, *val);
    }
    let e = ElfBinary::parse(&v).unwrap();
    assert_eq!(e.dynamic_info.rela_addr, Some(0x500));
    assert_eq!(e.dynamic_info.rela_size, 48);
    assert_eq!(e.dynamic_info.symtab_addr, Some(0x600));
    assert_eq!(e.dynamic_info.strtab_addr, None);
    assert_eq!(e.dynamic_info.needed_libs, vec!["lib12"]);
}

#[test]
fn binaries_are_loaded() {
    let mut v = image(2, 0x200);
    for i in 0..0x20 {
        v[0x100 + i] = i as u8;
    }
    let e = ElfBinary::parse(&v).unwrap();
    let mut m = manager(64);
    let kernel = PageEntry { frame: 0xb8000, flags: kernel_rw_flags() };
    assert!(m.map_kernel_page(9, kernel));
    let args = vec!["hello".to_string(), "world".to_string()];
    let l = e.load(&v, &args, &Vec::new(), &mut m).unwrap();
    assert_eq!(l.entry, 0x40_0010);
    assert_eq!(l.stack_pointer % 16, 0);
    let text = l.images.iter().find(|i| i.bytes.len() > 0x1f && i.bytes[0x1f] == 0x1f).unwrap();
    assert_eq!(text.bytes.len(), 4096);
    assert_eq!(&text.bytes[..4], &[0, 1, 2, 3]);
    assert_eq!(text.bytes[0x20], 0);
    let page = m.user_entry(l.cr3, 0x400).unwrap();
    assert_eq!((page.frame, page.flags), (text.frame, 5));
    assert_eq!(m.user_entry(l.cr3, 9), Some(kernel));
    let stack = m.user_entry(l.cr3, 0x7_ffff_fffe).unwrap();
    assert_eq!((stack.flags >> 63, stack.flags & 7), (1, 7));
    // Without frames there is no address space.
    let mut none = manager(0);
    assert!(matches!(
        e.load(&v, &args, &Vec::new(), &mut none),
        Err("out of memory for user page table")
    ));
}

#[test]
fn stacks_hold_the_arguments() {
    let args = vec!["prog".to_string(), "x".to_string()];
    let envs = vec!["A=1".to_string()];
    let (sp, page) = setup_user_stack(0x7000_0000, 4096, &args, &envs).unwrap();
    assert_eq!(sp % 16, 0);
    let at = (sp - 0x7000_0000) as usize;
    let word = |k: usize| {
        let mut b = [0u8; 8];
        b.copy_from_slice(&page[at + 8 * k..at + 8 * k + 8]);
        u64::from_le_bytes(b)
    };
    assert_eq!(word(0), 2);
    let text = |p: u64| {
        let from = (p - 0x7000_0000) as usize;
        let end = page[from..].iter().position(|b| *b == 0).unwrap();
        String::from_utf8(page[from..from + end].to_vec()).unwrap()
    };
    assert_eq!(text(word(1)), "prog");
    assert_eq!(text(word(2)), "x");
    assert_eq!(word(3), 0);
    assert_eq!(text(word(4)), "A=1");
    assert_eq!(word(5), 0);
    assert_eq!((word(6), word(7)), (0, 0));
}

#[test]
fn stacks_can_be_too_small() {
    let long = vec!["y".repeat(4000)];
    assert!(matches!(
        setup_user_stack(0x7000_0000, 4096, &long, &Vec::new()),
        Err("argv/envp too large for initial stack page")
    ));
    let many: Vec<String> = (0..300).map(|_| "ab".to_string()).collect();
    assert!(matches!(
        setup_user_stack(0x7000_0000, 4096, &many, &many),
        Err("argv/envp table too large for initial stack page")
    ));
}

#[test]
fn entries_are_found_where_they_were_mapped() {
    let mut m = manager(16);
    let e = PageEntry { frame: 0xb8000, flags: kernel_rw_flags() };
    assert_eq!(m.kernel_entry(7), None);
    assert!(m.map_kernel_page(7, e));
    assert!(!m.map_kernel_page(7, e));
    assert_eq!(m.kernel_entry(7), Some(e));
    let (cr3, space) = m.create_user_mapper().unwrap();
    m.store_user_mapper(cr3, space);
    assert_eq!(m.user_entry(cr3, 0x40), None);
    m.map_user_region(cr3, 0x40_000, 1, true).unwrap();
    assert_eq!(m.user_entry(cr3, 0x40).unwrap().flags, user_rw_flags());
    assert_eq!(m.user_entry(cr3 + 4096, 0x40), None);
}
