use pickleos::driver::block::{
    self, pattern_block, register, selftest_verdict, BlockDevice, BlockError, BlockRegistry,
    DeviceAnswer, DeviceBlocks, DeviceLabel, DeviceRecord, DeviceUnit, RamDisk,
};
use pickleos::driver::console::{inject_char, ConsoleInput};
use pickleos::fs::fds::{OpenFlags, VfsError};
use pickleos::fs::nextfs::FsError;
use pickleos::fs::vfs::{self, nx, FileSystem, ReadStep, WriteStep};
use std::cell::Cell;
use std::rc::Rc;

/// A disk that fails once it has served a number of requests, and may read back
/// something else than what was stored.
struct Flaky {
    disk: RamDisk,
    left: Rc<Cell<u32>>,
    wrong: bool,
}

impl Flaky {
    fn served(&self) -> Result<(), BlockError> {
        match self.left.get() {
            0 => Err(BlockError::DeviceError("worn out")),
            n => {
                self.left.set(n - 1);
                Ok(())
            },
        }
    }
}

fn ghost<T>() -> T {
    unreachable!()
}

impl BlockDevice for Flaky {
    fn blocks(&self) -> DeviceBlocks {
        ghost()
    }

    fn unit(&self) -> DeviceUnit {
        ghost()
    }

    fn label(&self) -> DeviceLabel {
        ghost()
    }

    fn reliable(&self) -> bool {
        ghost()
    }

    fn handed(&self) -> DeviceRecord {
        ghost()
    }

    fn answers(&self, _: u64, _: u32, _: DeviceAnswer) -> bool {
        ghost()
    }

    fn name(&self) -> &str {
        self.disk.name()
    }

    fn block_size(&self) -> usize {
        self.disk.block_size()
    }

    fn block_count(&self) -> u64 {
        self.disk.block_count()
    }

    fn read_blocks(&self, lba: u64, count: u32, buf: &mut [u8]) -> Result<(), BlockError> {
        self.served()?;
        self.disk.read_blocks(lba, count, buf)?;
        if self.wrong {
            buf[7] ^= 1;
        }
        Ok(())
    }

    fn write_blocks(&mut self, lba: u64, count: u32, buf: &[u8]) -> Result<(), BlockError> {
        self.served()?;
        self.disk.write_blocks(lba, count, buf)
    }
}

fn mounted() -> (FileSystem<Flaky>, Rc<Cell<u32>>) {
    let left = Rc::new(Cell::new(u32::MAX));
    let mut devs: BlockRegistry<Flaky> = BlockRegistry::new();
    register(&mut devs, Flaky { disk: RamDisk::new("sata0", 512, 512), left: left.clone(), wrong: false });
    let mut f = FileSystem::new(devs);
    assert_eq!(nx::format(&mut f, 0), Ok(()));
    assert_eq!(vfs::mount(&mut f, 0), Ok(()));
    vfs::init_task_fds(&mut f, 1);
    assert_eq!(nx::write_file(&mut f, "/kept", b"twelve bytes", 1), Ok(()));
    (f, left)
}

const WORN: FsError = FsError::BlockError(BlockError::DeviceError("worn out"));

#[test]
fn pipes_and_the_keyboard_need_no_device() {
    let (mut f, left) = mounted();
    let mut con = ConsoleInput::new();
    let (r, w) = vfs::pipe(&mut f, 1).unwrap();
    left.set(0);
    assert_eq!(vfs::write(&mut f, 1, w, b"abc", 0, 2), Ok(WriteStep::Bytes(3)));
    let mut buf = [0u8; 2];
    assert_eq!(vfs::read(&mut f, &mut con, 1, r, &mut buf), Ok(ReadStep::Bytes(2)));
    assert_eq!(&buf, b"ab");
    assert_eq!(vfs::close(&mut f, 1, r), Ok(None));
    assert_eq!(vfs::write(&mut f, 1, w, b"d", 0, 2), Err(VfsError::InvalidOperation));
    let _ = inject_char(&mut con, 'P');
    let _ = inject_char(&mut con, 'i');
    let mut typed = [0u8; 8];
    assert_eq!(vfs::read(&mut f, &mut con, 1, 0, &mut typed), Ok(ReadStep::Bytes(2)));
    assert_eq!(&typed, b"Pi\0\0\0\0\0\0");
}

#[test]
fn a_device_that_fails_is_reported() {
    let (mut f, left) = mounted();
    let mut con = ConsoleInput::new();
    let fd = vfs::open(&mut f, 1, "/kept", OpenFlags::rdwr(), 2).unwrap();
    left.set(0);
    let failed = VfsError::FsError(WORN);
    let mut buf = [0u8; 4];
    assert_eq!(vfs::read(&mut f, &mut con, 1, fd, &mut buf), Err(failed));
    assert_eq!(vfs::write(&mut f, 1, fd, b"x", 0, 2), Err(failed));
    assert_eq!(vfs::truncate(&mut f, 1, "/kept", 3), Err(failed));
    assert_eq!(vfs::chmod(&mut f, 1, "/kept", 0o600, 2), Err(failed));
    assert_eq!(vfs::unlink(&mut f, 1, "/kept", 2), Err(failed));
    assert_eq!(vfs::mkdir(&mut f, 1, "/d", 2), Err(failed));
    assert_eq!(vfs::open(&mut f, 1, "/new", OpenFlags::create(), 2), Err(failed));
    assert_eq!(nx::write_file(&mut f, "/kept", b"y", 2), Err(WORN));
    left.set(u32::MAX);
    assert_eq!(nx::read_file(&f, "/kept").unwrap(), b"twelve bytes");
    assert_eq!(vfs::read(&mut f, &mut con, 1, fd, &mut buf), Ok(ReadStep::Bytes(4)));
    assert_eq!(&buf, b"twel");
}

#[test]
fn a_cut_never_succeeds_unless_it_was_made() {
    for n in 0..12 {
        let (mut f, left) = mounted();
        left.set(n);
        let r = vfs::truncate(&mut f, 1, "/kept", 3);
        left.set(u32::MAX);
        let data = nx::read_file(&f, "/kept").unwrap();
        match r {
            Ok(()) => assert_eq!(data, b"twe"),
            Err(e) => assert_eq!(e, VfsError::FsError(WORN)),
        }
    }
}

const BAD: BlockError = BlockError::DeviceError("worn out");

const MISMATCH: BlockError = BlockError::DeviceError("selftest readback mismatch");

fn one_disk(wrong: bool) -> (BlockRegistry<Flaky>, Rc<Cell<u32>>) {
    let left = Rc::new(Cell::new(u32::MAX));
    let mut devs: BlockRegistry<Flaky> = BlockRegistry::new();
    register(&mut devs, Flaky { disk: RamDisk::new("sata0", 512, 4), left: left.clone(), wrong });
    block::write(&mut devs, 0, 2, &[9; 512]).unwrap();
    (devs, left)
}

#[test]
fn a_block_test_reports_each_failure() {
    // The block, the pattern, the readback and the restored block are four requests.
    for n in 0..4 {
        let (mut devs, left) = one_disk(false);
        left.set(n);
        assert_eq!(block::selftest(&mut devs, 0, 2), Err(BAD));
        left.set(u32::MAX);
        let expected = if n < 2 { vec![9; 512] } else { pattern_block(512, 2) };
        assert_eq!(block::read(&devs, 0, 2, 1).unwrap(), expected);
        assert_eq!(block::read(&devs, 0, 1, 1).unwrap(), vec![0; 512]);
    }
    let (mut devs, left) = one_disk(false);
    left.set(4);
    assert_eq!(block::selftest(&mut devs, 0, 2), Ok(()));
    assert_eq!(left.get(), 0);
}

#[test]
fn a_block_test_compares_what_it_reads_back() {
    let (mut devs, left) = one_disk(true);
    assert_eq!(block::selftest(&mut devs, 0, 2), Err(MISMATCH));
    // A mismatch is reported even where the block could not be restored.
    left.set(3);
    assert_eq!(block::selftest(&mut devs, 0, 2), Err(MISMATCH));
}

#[test]
fn block_test_verdicts() {
    assert_eq!(pattern_block(4, 0x1fe), vec![0xfe, 0xff, 0, 1]);
    assert_eq!(pattern_block(2, u64::MAX), vec![0xff, 0]);
    assert_eq!(selftest_verdict(b"ab", b"ab", Ok(())), Ok(()));
    assert_eq!(selftest_verdict(b"ab", b"ab", Err(BAD)), Err(BAD));
    assert_eq!(selftest_verdict(b"ab", b"aa", Ok(())), Err(MISMATCH));
    assert_eq!(selftest_verdict(b"ab", b"a", Err(BAD)), Err(MISMATCH));
}
