//! A check of the services from a client's side: find the file server, and then list,
//! read, write and remove through it.

use crate::names::ordered;
use crate::services::memfs::{
    create_s, has_entry, normalize_s, read_s, remove_s, write_s, FsError, MemFs, NodeView, Nodes,
    StatInfo,
};
use crate::services::registry::{resolved, RegRequest, Registry};
use crate::services::vfs::{
    acknowledged, handle, read, readdir, stat, VfsRequest,
};
use crate::text::contents;
use vstd::prelude::*;
use vstd::utf8::encode_utf8;

verus! {

/// The name under which the file server registers.
pub const VFS_SERVICE: &'static str = "vfs";

/// The directory that the check makes.
pub const CHECK_DIR: &'static str = "/tmp";

/// The file that the check writes.
pub const CHECK_FILE: &'static str = "/tmp/hello.txt";

/// What the check writes to it.
pub const CHECK_TEXT: &'static str = "hello from the VFS self-test\n";

/// What a client saw.
#[derive(Debug)]
pub struct VfsCheck {
    /// The endpoint of the file server.
    pub endpoint: Option<u64>,
    /// The root directory.
    pub root: Result<Vec<String>, FsError>,
    /// The file that every system begins with.
    pub welcome: Result<Vec<u8>, FsError>,
    /// Writing a file.
    pub written: Result<usize, FsError>,
    /// Reading it back.
    pub read_back: Result<Vec<u8>, FsError>,
    /// Its metadata.
    pub info: Result<StatInfo, FsError>,
    /// The directory that it is in.
    pub listed: Result<Vec<String>, FsError>,
    /// Removing it.
    pub removed: Result<(), FsError>,
    /// Reading it after that.
    pub gone: Result<Vec<u8>, FsError>,
}

/// A client made `r` of the answer to reading a path.
pub open spec fn read_as(m: Nodes, path: Seq<char>, r: Result<Vec<u8>, FsError>) -> bool {
    match read_s(m, path) {
        Ok(data) => r is Ok && r->Ok_0@ == data,
        Err(e) => r == Err::<Vec<u8>, FsError>(e),
    }
}

/// A client made `r` of the answer to listing a directory.
pub open spec fn listed_as(m: Nodes, path: Seq<char>, r: Result<Vec<String>, FsError>) -> bool {
    match normalize_s(path) {
        Err(e) => r == Err::<Vec<String>, FsError>(e),
        Ok(p) => if !m.contains_key(p) {
            r == Err::<Vec<String>, FsError>(FsError::NotFound)
        } else if m[p] !is Dir {
            r == Err::<Vec<String>, FsError>(FsError::NotADirectory)
        } else {
            &&& r is Ok
            &&& ordered(contents(r->Ok_0@))
            &&& forall|name: Seq<char>|
                #[trigger] contents(r->Ok_0@).contains(name) <==> has_entry(m, p, name)
        },
    }
}

/// A client made `r` of the answer to asking for metadata.
pub open spec fn info_as(m: Nodes, path: Seq<char>, r: Result<StatInfo, FsError>) -> bool {
    match normalize_s(path) {
        Err(e) => r == Err::<StatInfo, FsError>(e),
        Ok(p) => if !m.contains_key(p) {
            r == Err::<StatInfo, FsError>(FsError::NotFound)
        } else {
            r == Ok::<StatInfo, FsError>(
                match m[p] {
                    NodeView::File(data) => StatInfo { size: data.len() as usize, is_dir: false },
                    NodeView::Dir => StatInfo { size: 0, is_dir: true },
                },
            )
        },
    }
}

/// The files once the check has made its directory.
pub open spec fn with_dir(m: Nodes) -> Nodes {
    create_s(m, CHECK_DIR@, NodeView::Dir).1
}

/// The files once the check has written its file.
pub open spec fn with_file(m: Nodes) -> Nodes {
    write_s(with_dir(m), CHECK_FILE@, encode_utf8(CHECK_TEXT@)).1
}

/// The files once the check has removed its file.
pub open spec fn checked(m: Nodes) -> Nodes {
    remove_s(with_file(m), CHECK_FILE@).1
}

/// Asks the file server for the contents of a file.
fn ask_read(fs: &mut MemFs, path: &str) -> (r: Result<Vec<u8>, FsError>)
    requires
        old(fs).wf(),
    ensures
        final(fs).wf(),
        final(fs)@ == old(fs)@,
        read_as(old(fs)@, path@, r),
{
    read(Some(handle(fs, VfsRequest::Read { path: path.to_owned() })))
}

/// Asks the file server for the names in a directory.
fn ask_readdir(fs: &mut MemFs, path: &str) -> (r: Result<Vec<String>, FsError>)
    requires
        old(fs).wf(),
    ensures
        final(fs).wf(),
        final(fs)@ == old(fs)@,
        listed_as(old(fs)@, path@, r),
{
    readdir(Some(handle(fs, VfsRequest::ReadDir { path: path.to_owned() })))
}

/// Runs the check.
pub fn vfs_selftest(fs: &mut MemFs, registry: &mut Registry) -> (r: VfsCheck)
    requires
        old(fs).wf(),
        old(registry).wf(),
    ensures
        final(fs).wf(),
        final(registry).wf(),
        final(registry)@ == old(registry)@,
        final(fs)@ == checked(old(fs)@),
        r.endpoint == (if old(registry)@.contains_key(VFS_SERVICE@) {
            Some(old(registry)@[VFS_SERVICE@])
        } else {
            None
        }),
        listed_as(old(fs)@, "/"@, r.root),
        read_as(old(fs)@, "/welcome.txt"@, r.welcome),
        r.written == write_s(with_dir(old(fs)@), CHECK_FILE@, encode_utf8(CHECK_TEXT@)).0,
        read_as(with_file(old(fs)@), CHECK_FILE@, r.read_back),
        info_as(with_file(old(fs)@), CHECK_FILE@, r.info),
        listed_as(with_file(old(fs)@), CHECK_DIR@, r.listed),
        match remove_s(with_file(old(fs)@), CHECK_FILE@).0 {
            Ok(_) => r.removed is Ok,
            Err(e) => r.removed == Err::<(), FsError>(e),
        },
        read_as(checked(old(fs)@), CHECK_FILE@, r.gone),
{
    let endpoint = resolved(
        &Some(registry.handle(RegRequest::Lookup { name: VFS_SERVICE.to_owned() })),
    );
    let root = ask_readdir(fs, "/");
    let welcome = ask_read(fs, "/welcome.txt");
    handle(fs, VfsRequest::Mkdir { path: CHECK_DIR.to_owned() });
    let data = vstd::slice::slice_to_vec(CHECK_TEXT.as_bytes());
    assert(data@ =~= encode_utf8(CHECK_TEXT@));
    let written = crate::services::vfs::write(
        Some(handle(fs, VfsRequest::Write { path: CHECK_FILE.to_owned(), data })),
    );
    let read_back = ask_read(fs, CHECK_FILE);
    let info = stat(Some(handle(fs, VfsRequest::Stat { path: CHECK_FILE.to_owned() })));
    let listed = ask_readdir(fs, CHECK_DIR);
    let removed = acknowledged(
        Some(handle(fs, VfsRequest::Remove { path: CHECK_FILE.to_owned() })),
    );
    let gone = ask_read(fs, CHECK_FILE);
    VfsCheck { endpoint, root, welcome, written, read_back, info, listed, removed, gone }
}

/// Whatever files there are: if the check could write its file, it reads back what it
/// wrote, can remove it, and then finds it no more.
pub proof fn law_check_sees_its_file(m: Nodes)
    requires
        write_s(with_dir(m), CHECK_FILE@, encode_utf8(CHECK_TEXT@)).0 is Ok,
    ensures
        read_s(with_file(m), CHECK_FILE@) == Ok::<Seq<u8>, FsError>(encode_utf8(CHECK_TEXT@)),
        remove_s(with_file(m), CHECK_FILE@).0 is Ok,
        read_s(checked(m), CHECK_FILE@) == Err::<Seq<u8>, FsError>(FsError::NotFound),
{
    reveal_strlit("/tmp/hello.txt");
    assert(CHECK_FILE@.last() == 't');
}

} // verus!
