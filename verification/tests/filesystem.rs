use pickleos::driver::block::{register, BlockError, BlockRegistry, RamDisk};
use pickleos::driver::console::{inject_char, ConsoleInput};
use pickleos::elf::file::read_whole_file;
use pickleos::fs::fds::{
    FdTable, FileType, OpenFile, OpenFlags, Pipe, SeekWhence, VfsError, STDIN, STDOUT,
};
use pickleos::fs::nextfs::{FsError, NextFS};
use pickleos::fs::ondisk::{DirEntry, Inode, Superblock, MAGIC, MAY_READ, MAY_WRITE, ROOT_INODE};
use pickleos::fs::path::{split_path, trim_slashes};
use pickleos::fs::vfs::selftest::{bring_up, check_volume, nextfs_selftest, BringUp, Step, Why};
use pickleos::fs::vfs::{self, nx, FileSystem, ReadStep, WriteStep};
use pickleos::init_user::{
    parse_inittab, read_inittab, seed_filesystem, write_file, InitLine, InittabError, SeedFile,
    DEFAULT_INITTAB, INITTAB_PATH,
};

fn disks(blocks: usize) -> BlockRegistry<RamDisk> {
    let mut d = BlockRegistry::new();
    register(&mut d, RamDisk::new("sata0", 512, blocks));
    d
}

fn volume(blocks: usize) -> (NextFS, BlockRegistry<RamDisk>) {
    let mut d = disks(blocks);
    assert_eq!(NextFS::format(&mut d, 0), Ok(()));
    let fs = NextFS::mount(&d, 0).ok().unwrap();
    (fs, d)
}

fn mounted(blocks: usize) -> FileSystem<RamDisk> {
    let mut f = FileSystem::new(disks(blocks));
    assert_eq!(nx::format(&mut f, 0), Ok(()));
    assert_eq!(vfs::mount(&mut f, 0), Ok(()));
    vfs::init_task_fds(&mut f, 1);
    f
}

#[test]
fn superblocks_read_back() {
    let (fs, d) = volume(256);
    let raw = pickleos::driver::block::read(&d, 0, 0, 1).unwrap();
    let sb = Superblock::from_bytes(&raw);
    assert!(sb.is_valid());
    assert_eq!(sb.magic, MAGIC);
    assert_eq!(sb.total_blocks, 256);
    assert_eq!(sb.to_bytes(), raw);
    assert_eq!(fs.sb.data_start, sb.data_start);
    assert!(!Superblock::from_bytes(&[0; 512]).is_valid());
}

#[test]
fn inodes_and_entries_read_back() {
    let mut i = Inode::new_file();
    i.size = 0x1_2345_6789;
    i.uid = 1000;
    i.direct[8] = 77;
    i.indirect = 99;
    let b = i.to_bytes();
    assert_eq!(b.len(), 64);
    let j = Inode::from_bytes(&b, 0);
    assert_eq!((j.size, j.uid, j.direct[8], j.indirect, j.mode), (0x1_2345_6789, 1000, 77, 99, 0o644));
    assert!(j.is_file() && !j.is_dir() && !j.is_free());
    assert!(Inode::new_dir().is_dir());
    assert!(Inode::empty().is_free());
    let e = DirEntry::new(7, "hello.txt");
    let f = DirEntry::from_bytes(&e.to_bytes(), 0);
    assert_eq!((f.inode, f.name_str().as_str()), (7, "hello.txt"));
    assert!(f.is_used() && f.name_matches("hello.txt") && !f.name_matches("hello"));
}

#[test]
fn permissions_follow_owner_group_and_others() {
    let mut i = Inode::new_file();
    i.uid = 10;
    i.gid = 20;
    i.mode = 0o640;
    assert!(i.permits(10, 1, MAY_READ | MAY_WRITE));
    assert!(i.permits(11, 20, MAY_READ));
    assert!(!i.permits(11, 20, MAY_WRITE));
    assert!(!i.permits(11, 21, MAY_READ));
    assert!(i.permits(0, 0, MAY_READ | MAY_WRITE));
}

#[test]
fn formatting_needs_a_fitting_device() {
    let mut small = disks(4);
    assert_eq!(NextFS::format(&mut small, 0), Err(FsError::DeviceTooSmall));
    assert_eq!(NextFS::format(&mut small, 1), Err(FsError::DeviceNotFound));
    let mut wide = BlockRegistry::new();
    register(&mut wide, RamDisk::new("wide", 4096, 64));
    assert_eq!(NextFS::format(&mut wide, 0), Err(FsError::UnsupportedBlockSize));
    let blank = disks(256);
    assert!(matches!(NextFS::mount(&blank, 0), Err(FsError::InvalidMagic)));
    assert!(matches!(
        NextFS::mount(&blank, 3),
        Err(FsError::BlockError(BlockError::OutOfRange))
    ));
}

#[test]
fn a_new_volume_has_an_empty_root() {
    let (fs, d) = volume(256);
    let l = fs.dir_list(&d, ROOT_INODE).unwrap();
    assert_eq!(l, vec![(".".to_string(), 1), ("..".to_string(), 1)]);
    assert_eq!(fs.dir_lookup(&d, ROOT_INODE, "x"), Err(FsError::NotFound));
    assert_eq!(fs.stat(&d, 5), Err(FsError::NotFound));
}

#[test]
fn files_are_written_and_read_back() {
    let (mut fs, mut d) = volume(512);
    let n = fs.create_file(&mut d, ROOT_INODE, "a", 5).unwrap();
    assert_eq!(fs.dir_lookup(&d, ROOT_INODE, "a"), Ok(n));
    // Long enough for the indirect block.
    let data: Vec<u8> = (0..7000u32).map(|i| (i % 251) as u8).collect();
    assert_eq!(fs.write_file(&mut d, n, &data, 6), Ok(()));
    assert_eq!(fs.read_file(&d, n).unwrap(), data);
    let mut part = vec![0; 10];
    assert_eq!(fs.read_inode_data(&d, n, 6995, &mut part), Ok(5));
    assert_eq!(&part[..5], &data[6995..]);
    assert_eq!(fs.stat(&d, n).unwrap().size, 7000);
    // Another file does not disturb it.
    let m = fs.create_file(&mut d, ROOT_INODE, "b", 7).unwrap();
    assert_eq!(fs.write_file(&mut d, m, b"short", 8), Ok(()));
    assert_eq!(fs.read_file(&d, n).unwrap(), data);
    assert_eq!(fs.truncate(&mut d, n, 10), Ok(()));
    assert_eq!(fs.read_file(&d, n).unwrap(), &data[..10]);
    assert_eq!(fs.read_file(&d, ROOT_INODE), Err(FsError::NotFile));
}

#[test]
fn volumes_survive_a_remount() {
    let (mut fs, mut d) = volume(512);
    let n = fs.create_file(&mut d, ROOT_INODE, "kept", 1).unwrap();
    fs.write_file(&mut d, n, b"still here", 2).unwrap();
    assert_eq!(fs.sync(&mut d), Ok(()));
    let again = NextFS::mount(&d, 0).ok().unwrap();
    assert_eq!(again.dir_lookup(&d, ROOT_INODE, "kept"), Ok(n));
    assert_eq!(again.read_file(&d, n).unwrap(), b"still here");
    assert_eq!(again.block_bitmap, fs.block_bitmap);
    assert_eq!(again.inode_bitmap, fs.inode_bitmap);
}

#[test]
fn directories_are_made_and_removed() {
    let (mut fs, mut d) = volume(512);
    let dir = fs.create_dir(&mut d, ROOT_INODE, "test", 1).unwrap();
    assert_eq!(fs.create_dir(&mut d, ROOT_INODE, "test", 1), Err(FsError::AlreadyExists));
    let f = fs.create_file(&mut d, dir, "x", 1).unwrap();
    assert_eq!(fs.rmdir(&mut d, ROOT_INODE, "test"), Err(FsError::DirectoryNotEmpty));
    assert_eq!(fs.rmdir(&mut d, dir, "x"), Err(FsError::NotDirectory));
    assert_eq!(fs.unlink(&mut d, ROOT_INODE, "test", 1), Err(FsError::NotFile));
    assert_eq!(fs.unlink(&mut d, dir, "."  , 1), Err(FsError::InvalidOperation));
    assert_eq!(fs.unlink(&mut d, dir, "x", 1), Ok(()));
    assert_eq!(fs.read_file(&d, f), Err(FsError::NotFile));
    assert_eq!(fs.dir_lookup(&d, dir, "x"), Err(FsError::NotFound));
    assert_eq!(fs.rmdir(&mut d, ROOT_INODE, "test"), Ok(()));
    assert_eq!(fs.dir_lookup(&d, ROOT_INODE, "test"), Err(FsError::NotFound));
    let long = "n".repeat(61);
    assert_eq!(fs.create_file(&mut d, ROOT_INODE, &long, 1), Err(FsError::NameTooLong));
}

#[test]
fn entries_are_added_and_taken_out() {
    let (mut fs, mut d) = volume(512);
    let n = fs.create_file(&mut d, ROOT_INODE, "one", 1).unwrap();
    assert_eq!(fs.dir_add_entry(&mut d, ROOT_INODE, "two", n, 1), Ok(()));
    assert_eq!(fs.dir_lookup(&d, ROOT_INODE, "two"), Ok(n));
    assert_eq!(fs.dir_remove_entry(&mut d, ROOT_INODE, "two"), Ok(n));
    assert_eq!(fs.dir_remove_entry(&mut d, ROOT_INODE, "two"), Err(FsError::NotFound));
    for i in 0..20 {
        fs.create_file(&mut d, ROOT_INODE, &format!("f{}", i), 1).unwrap();
    }
    assert_eq!(fs.dir_list(&d, ROOT_INODE).unwrap().len(), 23);
}

#[test]
fn volumes_fill_up() {
    let (mut fs, mut d) = volume(64);
    let n = fs.create_file(&mut d, ROOT_INODE, "big", 1).unwrap();
    let data = vec![1u8; 64 * 512];
    assert_eq!(fs.write_file(&mut d, n, &data, 1), Err(FsError::NoSpace));
}

#[test]
fn owners_and_modes_are_enforced() {
    let (mut fs, mut d) = volume(512);
    let n = fs.create_file(&mut d, ROOT_INODE, "perm", 1).unwrap();
    fs.set_owner_mode(&mut d, n, 0, 0, 0o600).unwrap();
    assert_eq!(fs.check_permission(&d, n, 1000, 1000, MAY_READ), Err(FsError::PermissionDenied));
    fs.chmod(&mut d, n, 0o644, 9).unwrap();
    assert_eq!(fs.check_permission(&d, n, 1000, 1000, MAY_READ), Ok(()));
    assert_eq!(fs.check_permission(&d, n, 1000, 1000, MAY_WRITE), Err(FsError::PermissionDenied));
    fs.chown(&mut d, n, 1000, 1000, 10).unwrap();
    assert_eq!(fs.check_permission(&d, n, 1000, 1000, MAY_WRITE), Ok(()));
    let s = fs.stat(&d, n).unwrap();
    assert_eq!((s.mode, s.uid, s.gid, s.mtime), (0o644, 1000, 1000, 10));
    assert_eq!(&s.mode_string(), b"-rw-r--r--");
    assert_eq!(&fs.stat(&d, ROOT_INODE).unwrap().mode_string(), b"drwxr-xr-x");
}

#[test]
fn errors_have_words() {
    assert_eq!(FsError::NoSpace.message(), "no space left");
    assert_eq!(
        FsError::BlockError(BlockError::DeviceError("dead \"disk\"")).debug(),
        "BlockError(DeviceError(\"dead \\\"disk\\\"\"))"
    );
    assert_eq!(FsError::InvalidMagic.message(), "invalid magic (not a NextFS)");
    assert_eq!(VfsError::from(FsError::NotFound), VfsError::NotFound);
    assert_eq!(VfsError::from(FsError::InvalidMagic), VfsError::FsError(FsError::InvalidMagic));
}

#[test]
fn paths_are_split() {
    assert_eq!(split_path("/a/b/c"), ("/a/b", "c"));
    assert_eq!(split_path("/a"), ("/", "a"));
    assert_eq!(split_path("a"), ("/", "a"));
    assert_eq!(trim_slashes("/a/b//"), "/a/b");
}

#[test]
fn descriptors_are_given_out_in_order() {
    let mut t = FdTable::standard();
    assert_eq!(t.fds(), vec![0, 1, 2]);
    let f = OpenFile::new(9, OpenFlags::rdonly());
    assert_eq!(t.alloc_fd(f), Ok(3));
    assert_eq!(t.get(3).unwrap().file_type, FileType::Regular(9));
    assert_eq!(t.set_pos(3, 44), Ok(()));
    assert_eq!(t.duplicate().get(3).unwrap().pos, 44);
    assert!(t.close(3).is_ok());
    assert_eq!(t.close(3), Err(VfsError::BadFileDescriptor));
    t.close_all();
    assert!(t.fds().is_empty());
    let mut full = FdTable::new();
    for _ in 0..64 {
        full.alloc_fd(f).unwrap();
    }
    assert_eq!(full.alloc_fd(f), Err(VfsError::TooManyFiles));
}

#[test]
fn pipes_are_first_in_first_out() {
    let mut p = Pipe::new();
    assert_eq!(p.write(b"xabc", 1), 3);
    let mut b = [0u8; 2];
    assert_eq!(p.read(&mut b), 2);
    assert_eq!(&b, b"ab");
    let many = vec![7u8; 5000];
    assert_eq!(p.write(&many, 0), 4095);
    p.dup_end(true);
    p.close_end(true);
    assert!(p.has_writers());
    p.close_end(true);
    assert!(!p.has_writers() && p.has_readers() && !p.is_empty());
}

#[test]
fn writing_seeking_and_reading_back() {
    let mut f = mounted(512);
    let mut c = ConsoleInput::new();
    let flags = OpenFlags { read: true, write: true, create: true, truncate: false, append: false };
    let fd = vfs::open(&mut f, 1, "/notes", flags, 3).unwrap();
    assert_eq!(vfs::write(&mut f, 1, fd, b"hello world", 0, 4), Ok(WriteStep::Bytes(11)));
    assert_eq!(vfs::seek(&mut f, 1, fd, 6, SeekWhence::Start), Ok(6));
    let mut b = [0u8; 16];
    assert_eq!(vfs::read(&mut f, &mut c, 1, fd, &mut b), Ok(ReadStep::Bytes(5)));
    assert_eq!(&b[..5], b"world");
    assert_eq!(vfs::read(&mut f, &mut c, 1, fd, &mut b), Ok(ReadStep::Bytes(0)));
    assert_eq!(vfs::seek(&mut f, 1, fd, -1, SeekWhence::Start), Err(VfsError::InvalidOperation));
    assert_eq!(vfs::seek(&mut f, 1, fd, -2, SeekWhence::End), Ok(9));
    assert_eq!(vfs::seek(&mut f, 1, fd, 1, SeekWhence::Current), Ok(10));
    assert_eq!(vfs::close(&mut f, 1, fd), Ok(None));
    assert_eq!(vfs::read(&mut f, &mut c, 1, fd, &mut b), Err(VfsError::BadFileDescriptor));
    assert_eq!(vfs::stat(&f, 1, "/notes").unwrap().size, 11);
    assert_eq!(read_whole_file(&mut f, &mut c, "/nothing", 1), Err("failed to open file"));
    vfs::init_task_fds(&mut f, 0);
    assert_eq!(read_whole_file(&mut f, &mut c, "/notes", 1).unwrap(), b"hello world");
}

#[test]
fn opening_is_checked() {
    let mut f = mounted(512);
    let mut c = ConsoleInput::new();
    assert_eq!(vfs::open(&mut f, 1, "/none", OpenFlags::rdonly(), 1), Err(VfsError::NotFound));
    let fd = vfs::open(&mut f, 1, "/own", OpenFlags::create(), 1).unwrap();
    let mut b = [0u8; 4];
    assert_eq!(vfs::read(&mut f, &mut c, 1, fd, &mut b), Err(VfsError::WriteOnlyFile));
    assert_eq!(vfs::chmod(&mut f, 1, "/own", 0o600, 2), Ok(()));
    vfs::init_task_fds(&mut f, 2);
    vfs::set_credentials(&mut f, 2, 1000, 1000);
    assert_eq!(vfs::credentials(&f, 2).uid, 1000);
    assert_eq!(vfs::open(&mut f, 2, "/own", OpenFlags::rdonly(), 1), Err(VfsError::PermissionDenied));
    assert_eq!(vfs::open(&mut f, 2, "/new", OpenFlags::create(), 1), Err(VfsError::PermissionDenied));
    assert_eq!(vfs::mkdir(&mut f, 2, "/d", 1), Err(VfsError::PermissionDenied));
    assert_eq!(vfs::unlink(&mut f, 2, "/own", 1), Err(VfsError::PermissionDenied));
    assert_eq!(vfs::chown(&mut f, 2, "/own", 1000, 1000, 1), Err(VfsError::PermissionDenied));
    assert_eq!(vfs::truncate(&mut f, 2, "/own", 0), Err(VfsError::PermissionDenied));
    assert_eq!(vfs::chown(&mut f, 1, "/own", 1000, 1000, 1), Ok(()));
    let r = vfs::open(&mut f, 2, "/own", OpenFlags::rdonly(), 1).unwrap();
    assert_eq!(vfs::write(&mut f, 2, r, b"x", 0, 1), Err(VfsError::ReadOnlyFile));
    vfs::unmount(&mut f);
    assert!(!vfs::is_mounted(&f));
    assert_eq!(vfs::open(&mut f, 1, "/own", OpenFlags::rdonly(), 1), Err(VfsError::NotMounted));
}

#[test]
fn directories_by_path() {
    let mut f = mounted(512);
    assert_eq!(vfs::mkdir(&mut f, 1, "/a", 1), Ok(()));
    assert_eq!(vfs::mkdir(&mut f, 1, "/a/b", 1), Ok(()));
    assert_eq!(vfs::mkdir(&mut f, 1, "/a/b", 1), Err(VfsError::AlreadyExists));
    let names: Vec<String> = vfs::readdir(&f, 1, "/a").unwrap().into_iter().map(|e| e.0).collect();
    assert_eq!(names, vec![".", "..", "b"]);
    assert!(vfs::rmdir(&mut f, 1, "/a").is_err());
    assert_eq!(vfs::rmdir(&mut f, 1, "/a/b"), Ok(()));
    assert_eq!(vfs::rmdir(&mut f, 1, "/a"), Ok(()));
    assert_eq!(vfs::stat(&f, 1, "/a"), Err(VfsError::NotFound));
}

#[test]
fn pipes_between_descriptors() {
    let mut f = mounted(256);
    let mut c = ConsoleInput::new();
    let (r, w) = vfs::pipe(&mut f, 1).unwrap();
    let mut b = [0u8; 8];
    assert_eq!(vfs::read(&mut f, &mut c, 1, r, &mut b), Ok(ReadStep::WaitPipe));
    assert_eq!(vfs::write(&mut f, 1, w, b"piped", 0, 1), Ok(WriteStep::Bytes(5)));
    assert_eq!(vfs::write(&mut f, 1, w, &[0; 5000], 0, 1), Ok(WriteStep::WaitPipe(4091)));
    assert_eq!(vfs::read(&mut f, &mut c, 1, r, &mut b[..5]), Ok(ReadStep::Bytes(5)));
    assert_eq!(&b[..5], b"piped");
    // A child shares the ends; the end of file comes when all writers are gone.
    vfs::clone_task_fds(&mut f, 1, 2);
    assert_eq!(vfs::close(&mut f, 1, w), Ok(None));
    assert!(vfs::cleanup_task_fds(&mut f, 2).is_empty());
    let mut big = vec![0u8; 5000];
    assert_eq!(vfs::read(&mut f, &mut c, 1, r, &mut big), Ok(ReadStep::Bytes(4091)));
    assert_eq!(vfs::read(&mut f, &mut c, 1, r, &mut big), Ok(ReadStep::Bytes(0)));
}

#[test]
fn standard_streams() {
    let mut f = mounted(256);
    let mut c = ConsoleInput::new();
    let mut b = [0u8; 8];
    assert_eq!(vfs::write(&mut f, 1, STDOUT, b"hi", 0, 1), Ok(WriteStep::Console));
    assert_eq!(vfs::read(&mut f, &mut c, 1, STDIN, &mut b), Ok(ReadStep::WaitInput));
    for ch in "Pi\u{e9}".chars() {
        inject_char(&mut c, ch);
    }
    assert_eq!(vfs::read(&mut f, &mut c, 1, STDIN, &mut b), Ok(ReadStep::Bytes(4)));
    assert_eq!(&b[..4], "Pi\u{e9}".as_bytes());
    let s = vfs::socket(&mut f, 1, 42).unwrap();
    assert_eq!(vfs::read(&mut f, &mut c, 1, s, &mut b), Ok(ReadStep::Socket(42)));
    assert_eq!(vfs::write(&mut f, 1, s, b"x", 0, 1), Ok(WriteStep::Socket(42)));
    assert_eq!(vfs::get_file(&f, 1, s).unwrap().file_type, FileType::Socket(42));
    assert_eq!(vfs::close(&mut f, 1, s), Ok(Some(42)));
}

#[test]
fn a_new_disk_passes_its_check() {
    let mut f = FileSystem::new(disks(512));
    let mut c = ConsoleInput::new();
    assert_eq!(nextfs_selftest(&mut f, &mut c, 0, 7), Ok(()));
    assert!(vfs::is_mounted(&f));
    assert_eq!(vfs::stat(&f, 0, "/test/hello.txt").unwrap().size, 10);
    assert_eq!(vfs::stat(&f, 0, "/test/temp.txt"), Err(VfsError::NotFound));
}

#[test]
fn a_disk_is_formatted_only_once() {
    let mut f = FileSystem::new(disks(512));
    let mut c = ConsoleInput::new();
    assert_eq!(bring_up(&mut f, &mut c, 0, 1), BringUp::Checked(Ok(())));
    vfs::unmount(&mut f);
    assert_eq!(bring_up(&mut f, &mut c, 0, 2), BringUp::Mounted);
    assert_eq!(vfs::stat(&f, 0, "/test/hello.txt").unwrap().size, 10);
}

#[test]
fn the_check_names_the_step_that_failed() {
    let mut tiny = FileSystem::new(disks(4));
    let mut c = ConsoleInput::new();
    let e = nextfs_selftest(&mut tiny, &mut c, 0, 1).unwrap_err();
    assert_eq!((e.step, e.why), (Step::Format, Why::Fs(FsError::DeviceTooSmall)));
    // A volume that is in use already has too many entries.
    let (mut fs, mut d) = volume(512);
    fs.create_file(&mut d, ROOT_INODE, "x", 1).unwrap();
    let e = check_volume(&mut fs, &mut d, 1).unwrap_err();
    assert_eq!((e.step, e.why), (Step::ListRoot, Why::Count(3)));
    // Text typed before the check comes out first.
    let mut f = FileSystem::new(disks(512));
    inject_char(&mut c, 'x');
    let e = nextfs_selftest(&mut f, &mut c, 0, 1).unwrap_err();
    assert_eq!((e.step, e.why), (Step::Stdin, Why::Unexpected));
}

#[test]
fn inittabs_are_parsed() {
    let l = parse_inittab("# comment\n\n  a : /bin/a \r\nnonsense\n:x\nb:/b:c");
    assert_eq!(l.len(), 4);
    assert!(matches!(&l[0], InitLine::Launch { name, path } if name == "a" && path == "/bin/a"));
    assert!(matches!(&l[1], InitLine::Malformed(t) if t == "nonsense"));
    assert!(matches!(&l[2], InitLine::Malformed(t) if t == ":x"));
    assert!(matches!(&l[3], InitLine::Launch { name, path } if name == "b" && path == "/b:c"));
    let d = parse_inittab(DEFAULT_INITTAB);
    assert_eq!(d.len(), 9);
    assert!(matches!(&d[0], InitLine::Launch { name, path } if name == "taskbar" && path == "/bin/taskbar"));
    assert!(matches!(&d[8], InitLine::Launch { name, path } if name == "pie_test" && path == "/bin/pie_test"));
    assert!(parse_inittab("").is_empty());
}

#[test]
fn new_disks_are_seeded() {
    let mut f = mounted(1024);
    let mut c = ConsoleInput::new();
    vfs::init_task_fds(&mut f, 0);
    assert!(matches!(
        read_inittab(&mut f, &mut c, 1),
        Err(InittabError::Unreadable(VfsError::NotFound))
    ));
    let programs = vec![
        SeedFile { path: "/bin/hello".to_string(), image: vec![1; 600] },
        SeedFile { path: "/nowhere/x".to_string(), image: vec![2] },
        SeedFile { path: "/bin/empty".to_string(), image: Vec::new() },
    ];
    let s = seed_filesystem(&mut f, &programs, 5);
    assert_eq!((s.bin, s.etc), (Ok(()), Ok(())));
    assert_eq!(s.programs, vec![Ok(600), Err(VfsError::NotFound), Ok(0)]);
    assert_eq!(s.inittab, Ok(DEFAULT_INITTAB.len()));
    assert_eq!(read_inittab(&mut f, &mut c, 1).unwrap().len(), 9);
    // A second time the directories are there, and the files are replaced.
    let t = seed_filesystem(&mut f, &programs, 6);
    assert_eq!(t.bin, Err(VfsError::AlreadyExists));
    assert_eq!(t.programs[0], Ok(600));
    assert_eq!(write_file(&mut f, INITTAB_PATH, &[0xff, 0xfe], 7), Ok(2));
    assert!(matches!(read_inittab(&mut f, &mut c, 1), Err(InittabError::NotText)));
}

#[test]
fn paths_keep_what_is_written_to_them() {
    let mut f = mounted(400);
    assert_eq!(nx::mkdir(&mut f, "/a", 1), Ok(()));
    assert_eq!(nx::mkdir(&mut f, "/a/b/", 1), Ok(()));
    let long: Vec<u8> = (0..6000u32).map(|k| (k % 251) as u8).collect();
    assert_eq!(nx::write_file(&mut f, "/a/b/one", &long, 2), Ok(()));
    assert_eq!(nx::write_file(&mut f, "/a/two/", b"two", 3), Ok(()));
    assert_eq!(nx::read_file(&f, "/a/b/one"), Ok(long.clone()));
    assert_eq!(nx::read_file(&f, "//a//two"), Ok(b"two".to_vec()));
    assert_eq!(nx::write_file(&mut f, "/a/two", &long, 4), Ok(()));
    assert_eq!(nx::write_file(&mut f, "/a/b/one", b"short", 5), Ok(()));
    assert_eq!(nx::read_file(&f, "/a/two"), Ok(long.clone()));
    assert_eq!(nx::read_file(&f, "/a/b/../two"), Ok(long.clone()));
    assert_eq!(nx::read_file(&f, "/a/b/./one"), Ok(b"short".to_vec()));
    assert_eq!(nx::chmod(&mut f, "/a/b", 0o700, 6), Ok(()));
    assert_eq!(nx::truncate(&mut f, "/a/two", 4), Ok(()));
    assert_eq!(nx::read_file(&f, "/a/two"), Ok(long[..4].to_vec()));
    assert_eq!(nx::unlink(&mut f, "/a/two", 7), Ok(()));
    assert_eq!(nx::read_file(&f, "/a/two"), Err(FsError::NotFound));
    assert_eq!(nx::read_file(&f, "/a/b/one"), Ok(b"short".to_vec()));
    assert_eq!(nx::rmdir(&mut f, "/a/b"), Err(FsError::DirectoryNotEmpty));
    assert_eq!(nx::unlink(&mut f, "/a/b/one", 8), Ok(()));
    assert_eq!(nx::rmdir(&mut f, "/a/b"), Ok(()));
    let names: Vec<String> = nx::list(&f, "/a").unwrap().into_iter().map(|e| e.0).collect();
    assert_eq!(names, vec![".", ".."]);
    assert_eq!(nx::write_file(&mut f, "/a", b"x", 9), Err(FsError::NotFile));
}

#[test]
fn giving_back_makes_room() {
    let mut f = mounted(120);
    let big = vec![7u8; 512 * 60];
    for round in 0..5 {
        assert_eq!(nx::write_file(&mut f, "/big", &big, round), Ok(()));
        assert_eq!(nx::read_file(&f, "/big"), Ok(big.clone()));
        assert_eq!(nx::unlink(&mut f, "/big", round), Ok(()));
    }
}

#[test]
fn names_occur_once_and_go_for_good() {
    let mut f = mounted(200);
    assert_eq!(nx::mkdir(&mut f, "/d", 1), Ok(()));
    assert_eq!(nx::mkdir(&mut f, "/d", 1), Err(FsError::AlreadyExists));
    assert_eq!(nx::write_file(&mut f, "/d/f", b"0123456789", 1), Ok(()));
    assert_eq!(nx::write_file(&mut f, "/d/f", b"9876543210", 1), Ok(()));
    assert_eq!(nx::truncate(&mut f, "/d/f", 3), Ok(()));
    assert_eq!(nx::read_file(&f, "/d/f"), Ok(b"987".to_vec()));
    assert_eq!(nx::list(&f, "/d").unwrap().len(), 3);
    assert_eq!(nx::unlink(&mut f, "/d/f", 2), Ok(()));
    assert_eq!(nx::read_file(&f, "/d/f"), Err(FsError::NotFound));
    assert_eq!(nx::unlink(&mut f, "/d/f", 2), Err(FsError::NotFound));
    assert_eq!(nx::unlink(&mut f, "/d/.", 2), Err(FsError::InvalidOperation));
}

#[test]
fn files_are_cut_within_their_pointers() {
    let mut f = mounted(256);
    let data: Vec<u8> = (0..12 * 512).map(|k: usize| (k / 512) as u8 + 1).collect();
    assert_eq!(nx::write_file(&mut f, "/long", &data, 1), Ok(()));
    assert_eq!(nx::truncate(&mut f, "/long", 10 * 512), Ok(()));
    assert_eq!(nx::read_file(&f, "/long").unwrap(), &data[..10 * 512]);
    // What was given back goes to another file, and does not come back.
    assert_eq!(nx::write_file(&mut f, "/other", &[0xee; 4 * 512], 2), Ok(()));
    assert_eq!(nx::truncate(&mut f, "/long", 12 * 512), Ok(()));
    let long = nx::read_file(&f, "/long").unwrap();
    assert_eq!(&long[..10 * 512], &data[..10 * 512]);
    assert!(long[10 * 512..].iter().all(|b| *b == 0));
    assert_eq!(nx::read_file(&f, "/other").unwrap(), vec![0xee; 4 * 512]);
}

#[test]
fn lookups_agree_with_listings() {
    let (mut fs, mut d) = volume(256);
    let a = fs.create_file(&mut d, ROOT_INODE, "a", 1).unwrap();
    let b = fs.create_dir(&mut d, ROOT_INODE, "b", 1).unwrap();
    let list = fs.dir_list(&d, ROOT_INODE).unwrap();
    for (name, inode) in &list {
        assert_eq!(fs.dir_lookup(&d, ROOT_INODE, name), Ok(*inode));
    }
    assert!(list.contains(&("a".to_string(), a)) && list.contains(&("b".to_string(), b)));
    assert_eq!(fs.dir_lookup(&d, ROOT_INODE, "c"), Err(FsError::NotFound));
    assert_eq!(fs.dir_lookup(&d, a, "c"), Err(FsError::NotDirectory));
    assert!(fs.dir_list(&d, a).is_err());
}
