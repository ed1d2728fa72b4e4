use pickleos::ipc::{IpcState, Message};
use pickleos::services::memfs::{normalize, FsError, MemFs};
use pickleos::services::pong::{answer, PONG_SERVICE};
use pickleos::services::registry::{listed, registered, resolved, RegRequest, RegResponse, Registry};
use pickleos::services::selftest::vfs_selftest;
use pickleos::services::server::{carrier, next_request, Incoming};
use pickleos::services::vfs::{self, handle, VfsRequest, VfsResponse, TAG_VFS};

#[test]
fn paths_are_normalized() {
    assert_eq!(normalize("/a/b/"), Ok("/a/b"));
    assert_eq!(normalize("/"), Ok("/"));
    assert_eq!(normalize("//"), Ok("/"));
    assert_eq!(normalize("///"), Ok("/"));
    assert_eq!(normalize("a"), Err(FsError::InvalidPath));
    assert_eq!(normalize(""), Err(FsError::InvalidPath));
}

#[test]
fn files_in_memory() {
    let mut fs = MemFs::init();
    assert!(fs.read("/welcome.txt").is_ok());
    assert_eq!(fs.mkdir("/tmp"), Ok(()));
    assert_eq!(fs.mkdir("/tmp"), Err(FsError::AlreadyExists));
    let text = b"hello from the VFS self-test\n";
    assert_eq!(fs.write("/tmp/hello.txt", text), Ok(29));
    assert_eq!(fs.read("/tmp/hello.txt").unwrap(), text);
    let s = fs.stat("/tmp/hello.txt").unwrap();
    assert_eq!((s.size, s.is_dir), (29, false));
    assert!(fs.stat("/tmp").unwrap().is_dir);
    assert_eq!(fs.readdir("/tmp").unwrap(), vec!["hello.txt"]);
    assert_eq!(fs.write("/tmp", b"x"), Err(FsError::IsADirectory));
    assert_eq!(fs.read("/tmp"), Err(FsError::IsADirectory));
    assert_eq!(fs.readdir("/tmp/hello.txt"), Err(FsError::NotADirectory));
    assert_eq!(fs.remove("/tmp/hello.txt"), Ok(()));
    assert_eq!(fs.read("/tmp/hello.txt"), Err(FsError::NotFound));
    assert_eq!(fs.remove("/tmp/hello.txt"), Err(FsError::NotFound));
    assert_eq!(fs.create("/nowhere/x"), Err(FsError::NotFound));
    assert!(fs.stat("//").unwrap().is_dir);
    assert_eq!(fs.readdir("//"), fs.readdir("/"));
    assert_eq!(fs.mkdir("//"), Err(FsError::AlreadyExists));
}

#[test]
fn writing_one_file_keeps_the_others() {
    let mut fs = MemFs::init();
    fs.write("/a", b"1").unwrap();
    fs.write("/b", b"2").unwrap();
    fs.write("/a", b"3").unwrap();
    assert_eq!(fs.read("/b").unwrap(), b"2");
    assert_eq!(fs.read("/a").unwrap(), b"3");
    let names = fs.readdir("/").unwrap();
    assert!(names.contains(&"a".to_string()) && names.contains(&"b".to_string()));
}

#[test]
fn the_file_server_answers() {
    let mut fs = MemFs::init();
    let r = handle(&mut fs, VfsRequest::Write { path: "/x".to_string(), data: vec![5, 6] });
    assert_eq!(vfs::write(Some(r)), Ok(2));
    let r = handle(&mut fs, VfsRequest::Read { path: "/x".to_string() });
    assert_eq!(vfs::read(Some(r)), Ok(vec![5, 6]));
    let r = handle(&mut fs, VfsRequest::Read { path: "/y".to_string() });
    assert_eq!(vfs::read(Some(r)), Err(FsError::NotFound));
    let r = handle(&mut fs, VfsRequest::Remove { path: "/x".to_string() });
    assert_eq!(vfs::acknowledged(Some(r)), Ok(()));
    // No answer, and an answer of the wrong kind, are errors too.
    assert_eq!(vfs::read(None), Err(FsError::InvalidPath));
    assert_eq!(vfs::readdir(Some(VfsResponse::Done)), Err(FsError::InvalidPath));
    assert_eq!(vfs::stat(None), Err(FsError::InvalidPath));
}

#[test]
fn services_are_registered() {
    let mut r = Registry::new();
    let a = r.handle(RegRequest::Register { name: "vfs".to_string(), endpoint: 4 });
    assert!(registered(&Some(a)));
    r.handle(RegRequest::Register { name: "net".to_string(), endpoint: 5 });
    let b = r.handle(RegRequest::Lookup { name: "vfs".to_string() });
    assert_eq!(resolved(&Some(b)), Some(4));
    let c = r.handle(RegRequest::Lookup { name: "x".to_string() });
    assert_eq!(resolved(&Some(c)), None);
    assert_eq!(r.list(), vec!["net", "vfs"]);
    assert_eq!(listed(Some(r.handle(RegRequest::List))), vec!["net", "vfs"]);
    assert!(!registered(&None));
    assert_eq!(resolved(&Some(RegResponse::Done)), None);
    assert!(listed(None).is_empty());
}

#[test]
fn a_client_checks_the_services() {
    let mut files = MemFs::init();
    let mut directory = Registry::new();
    assert_eq!(vfs_selftest(&mut MemFs::init(), &mut directory).endpoint, None);
    directory.handle(RegRequest::Register { name: "vfs".to_string(), endpoint: 3 });
    let c = vfs_selftest(&mut files, &mut directory);
    assert_eq!(c.endpoint, Some(3));
    assert_eq!(c.root.unwrap(), vec!["etc", "welcome.txt"]);
    assert!(c.welcome.unwrap().starts_with(b"Welcome to PICKLE OS"));
    assert_eq!(c.written, Ok(29));
    assert_eq!(c.read_back.unwrap(), b"hello from the VFS self-test\n".to_vec());
    let info = c.info.unwrap();
    assert_eq!((info.size, info.is_dir), (29, false));
    assert_eq!(c.listed.unwrap(), vec!["hello.txt"]);
    assert!(c.removed.is_ok());
    assert_eq!(c.gone, Err(FsError::NotFound));
    assert_eq!(files.readdir("/tmp"), Ok(vec![]));
}

#[test]
fn the_demo_service_answers_with_the_next_number() {
    let mut ipc = IpcState::init();
    assert_eq!(PONG_SERVICE, "demo.pong");
    assert_eq!(answer(&mut ipc, 1, 4), None);
    let ep = ipc.create_named_endpoint(PONG_SERVICE);
    // With nothing to answer the service waits, and a call wakes it.
    assert_eq!(answer(&mut ipc, ep, 4), None);
    assert_eq!(ipc.call(ep, Message::new(41), 7), Some(4));
    assert_eq!(answer(&mut ipc, ep, 4), Some(7));
    assert_eq!(ipc.poll_reply(7), Some(Message { sender: 4, ..Message::new(42) }));
    assert_eq!(ipc.poll_reply(7), None);
}

#[test]
fn servers_take_only_their_own_requests() {
    let mut ipc = IpcState::init();
    let ep = ipc.create_named_endpoint("vfs");
    assert_eq!(next_request(&mut ipc, ep, TAG_VFS, 2), Incoming::Waiting);
    ipc.call(ep, carrier(TAG_VFS, 0x4000), 7);
    ipc.send(ep, carrier(TAG_VFS + 1, 0x5000), 8);
    ipc.send(ep, carrier(TAG_VFS, 0), 9);
    match next_request(&mut ipc, ep, TAG_VFS, 2) {
        Incoming::Request { message, at } => {
            assert_eq!((at, message.sender, message.words), (0x4000, 7, [0x4000, 0, 0, 0, 0, 0]));
            assert_eq!(ipc.reply(&message, carrier(TAG_VFS, 0x6000), 2), Some(7));
        },
        other => panic!("{:?}", other),
    }
    assert_eq!(ipc.poll_reply(7).unwrap().words[0], 0x6000);
    assert_eq!(next_request(&mut ipc, ep, TAG_VFS, 2), Incoming::Dropped);
    assert_eq!(next_request(&mut ipc, ep, TAG_VFS, 2), Incoming::Dropped);
    assert_eq!(next_request(&mut ipc, ep, TAG_VFS, 2), Incoming::Waiting);
}
