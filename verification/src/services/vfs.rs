//! The file server: requests to the in-memory file system and their answers.

use crate::names::ordered;
use crate::services::memfs::{
    create_s, has_entry, normalize_s, read_s, remove_s, write_s, FsError, MemFs, NodeView, Nodes,
    StatInfo,
};
use crate::text::contents;
use vstd::prelude::*;

verus! {

/// Message tag of a request to the file server.
pub const TAG_VFS: u64 = 0x5646_5300;

/// What a client asks.
#[derive(Debug)]
pub enum VfsRequest {
    Create { path: String },
    Mkdir { path: String },
    Write { path: String, data: Vec<u8> },
    Read { path: String },
    ReadDir { path: String },
    Stat { path: String },
    Remove { path: String },
}

/// What it is answered.
#[derive(Debug)]
pub enum VfsResponse {
    Done,
    Data(Vec<u8>),
    Entries(Vec<String>),
    Stat { size: usize, is_dir: bool },
    Written(usize),
    Error(FsError),
}

/// The answer to an operation that returns nothing.
pub open spec fn done_s(r: Result<(), FsError>) -> VfsResponse {
    match r {
        Ok(_) => VfsResponse::Done,
        Err(e) => VfsResponse::Error(e),
    }
}

/// What holds of the answer to a request, and of the files after it.
pub open spec fn handled(req: VfsRequest, m: Nodes, resp: VfsResponse, m1: Nodes) -> bool {
    match req {
        VfsRequest::Create { path } => {
            let (r, after) = create_s(m, path@, NodeView::File(Seq::empty()));
            resp == done_s(r) && m1 == after
        },
        VfsRequest::Mkdir { path } => {
            let (r, after) = create_s(m, path@, NodeView::Dir);
            resp == done_s(r) && m1 == after
        },
        VfsRequest::Write { path, data } => {
            let (r, after) = write_s(m, path@, data@);
            m1 == after && resp == (match r {
                Ok(n) => VfsResponse::Written(n),
                Err(e) => VfsResponse::Error(e),
            })
        },
        VfsRequest::Read { path } => m1 == m && match read_s(m, path@) {
            Ok(data) => resp is Data && resp->Data_0@ == data,
            Err(e) => resp == VfsResponse::Error(e),
        },
        VfsRequest::ReadDir { path } => m1 == m && match normalize_s(path@) {
            Err(e) => resp == VfsResponse::Error(e),
            Ok(p) => if !m.contains_key(p) {
                resp == VfsResponse::Error(FsError::NotFound)
            } else if m[p] !is Dir {
                resp == VfsResponse::Error(FsError::NotADirectory)
            } else {
                &&& resp is Entries
                &&& ordered(contents(resp->Entries_0@))
                &&& forall|name: Seq<char>|
                    contents(resp->Entries_0@).contains(name) <==> has_entry(m, p, name)
            },
        },
        VfsRequest::Stat { path } => m1 == m && match normalize_s(path@) {
            Err(e) => resp == VfsResponse::Error(e),
            Ok(p) => if !m.contains_key(p) {
                resp == VfsResponse::Error(FsError::NotFound)
            } else {
                match m[p] {
                    NodeView::File(data) => resp == VfsResponse::Stat {
                        size: data.len() as usize,
                        is_dir: false,
                    },
                    NodeView::Dir => resp == VfsResponse::Stat { size: 0, is_dir: true },
                }
            },
        },
        VfsRequest::Remove { path } => {
            let (r, after) = remove_s(m, path@);
            resp == done_s(r) && m1 == after
        },
    }
}

/// Answers an operation that returns nothing.
fn done(r: Result<(), FsError>) -> (resp: VfsResponse)
    ensures
        resp == done_s(r),
{
    match r {
        Ok(_) => VfsResponse::Done,
        Err(e) => VfsResponse::Error(e),
    }
}

/// Carries out a request.
pub fn handle(fs: &mut MemFs, req: VfsRequest) -> (resp: VfsResponse)
    requires
        old(fs).wf(),
    ensures
        final(fs).wf(),
        handled(req, old(fs)@, resp, final(fs)@),
{
    match req {
        VfsRequest::Create { path } => done(fs.create(path.as_str())),
        VfsRequest::Mkdir { path } => done(fs.mkdir(path.as_str())),
        VfsRequest::Write { path, data } => match fs.write(path.as_str(), data.as_slice()) {
            Ok(n) => VfsResponse::Written(n),
            Err(e) => VfsResponse::Error(e),
        },
        VfsRequest::Read { path } => match fs.read(path.as_str()) {
            Ok(data) => VfsResponse::Data(data),
            Err(e) => VfsResponse::Error(e),
        },
        VfsRequest::ReadDir { path } => match fs.readdir(path.as_str()) {
            Ok(entries) => VfsResponse::Entries(entries),
            Err(e) => VfsResponse::Error(e),
        },
        VfsRequest::Stat { path } => match fs.stat(path.as_str()) {
            Ok(info) => VfsResponse::Stat { size: info.size, is_dir: info.is_dir },
            Err(e) => VfsResponse::Error(e),
        },
        VfsRequest::Remove { path } => done(fs.remove(path.as_str())),
    }
}

/// What a client makes of the answer to a read. Without a server, or with an
/// answer of another kind, the path counts as invalid.
pub fn read(resp: Option<VfsResponse>) -> (r: Result<Vec<u8>, FsError>)
    ensures
        match resp {
            Some(VfsResponse::Data(d)) => r == Ok::<Vec<u8>, FsError>(d),
            Some(VfsResponse::Error(e)) => r == Err::<Vec<u8>, FsError>(e),
            _ => r == Err::<Vec<u8>, FsError>(FsError::InvalidPath),
        },
{
    match resp {
        Some(VfsResponse::Data(d)) => Ok(d),
        Some(VfsResponse::Error(e)) => Err(e),
        _ => Err(FsError::InvalidPath),
    }
}

/// What a client makes of the answer to a write.
pub fn write(resp: Option<VfsResponse>) -> (r: Result<usize, FsError>)
    ensures
        match resp {
            Some(VfsResponse::Written(n)) => r == Ok::<usize, FsError>(n),
            Some(VfsResponse::Error(e)) => r == Err::<usize, FsError>(e),
            _ => r == Err::<usize, FsError>(FsError::InvalidPath),
        },
{
    match resp {
        Some(VfsResponse::Written(n)) => Ok(n),
        Some(VfsResponse::Error(e)) => Err(e),
        _ => Err(FsError::InvalidPath),
    }
}

/// What a client makes of the answer to a listing.
pub fn readdir(resp: Option<VfsResponse>) -> (r: Result<Vec<String>, FsError>)
    ensures
        match resp {
            Some(VfsResponse::Entries(v)) => r == Ok::<Vec<String>, FsError>(v),
            Some(VfsResponse::Error(e)) => r == Err::<Vec<String>, FsError>(e),
            _ => r == Err::<Vec<String>, FsError>(FsError::InvalidPath),
        },
{
    match resp {
        Some(VfsResponse::Entries(v)) => Ok(v),
        Some(VfsResponse::Error(e)) => Err(e),
        _ => Err(FsError::InvalidPath),
    }
}

/// What a client makes of the answer to a stat.
pub fn stat(resp: Option<VfsResponse>) -> (r: Result<StatInfo, FsError>)
    ensures
        match resp {
            Some(VfsResponse::Stat { size, is_dir }) => r == Ok::<StatInfo, FsError>(
                StatInfo { size, is_dir },
            ),
            Some(VfsResponse::Error(e)) => r == Err::<StatInfo, FsError>(e),
            _ => r == Err::<StatInfo, FsError>(FsError::InvalidPath),
        },
{
    match resp {
        Some(VfsResponse::Stat { size, is_dir }) => Ok(StatInfo { size, is_dir }),
        Some(VfsResponse::Error(e)) => Err(e),
        _ => Err(FsError::InvalidPath),
    }
}

/// What a client makes of the answer to creating or removing something.
pub fn acknowledged(resp: Option<VfsResponse>) -> (r: Result<(), FsError>)
    ensures
        match resp {
            Some(VfsResponse::Done) => r is Ok,
            Some(VfsResponse::Error(e)) => r == Err::<(), FsError>(e),
            _ => r == Err::<(), FsError>(FsError::InvalidPath),
        },
{
    match resp {
        Some(VfsResponse::Done) => Ok(()),
        Some(VfsResponse::Error(e)) => Err(e),
        _ => Err(FsError::InvalidPath),
    }
}

/// What a client writes to a file is what it then reads from it and how long it is; a
/// directory that it makes is one; and what it removes is gone. Reading and asking change
/// nothing.
pub proof fn law_requests_are_carried_out(
    path: String,
    data: Vec<u8>,
    m: Nodes,
    m1: Nodes,
    m2: Nodes,
    r1: VfsResponse,
    r2: VfsResponse,
)
    ensures
        handled(VfsRequest::Write { path, data }, m, r1, m1) && !(r1 is Error) && handled(
            VfsRequest::Read { path },
            m1,
            r2,
            m2,
        ) ==> m2 == m1 && r1 == VfsResponse::Written(data@.len() as usize) && r2 is Data
            && r2->Data_0@ == data@,
        handled(VfsRequest::Write { path, data }, m, r1, m1) && !(r1 is Error) && handled(
            VfsRequest::Stat { path },
            m1,
            r2,
            m2,
        ) ==> m2 == m1 && r2 == (VfsResponse::Stat { size: data@.len() as usize, is_dir: false }),
        handled(VfsRequest::Create { path }, m, r1, m1) && !(r1 is Error) && handled(
            VfsRequest::Read { path },
            m1,
            r2,
            m2,
        ) ==> r1 is Done && r2 is Data && r2->Data_0@.len() == 0,
        handled(VfsRequest::Mkdir { path }, m, r1, m1) && !(r1 is Error) && handled(
            VfsRequest::Stat { path },
            m1,
            r2,
            m2,
        ) ==> r1 is Done && r2 == (VfsResponse::Stat { size: 0, is_dir: true }),
        handled(VfsRequest::Remove { path }, m, r1, m1) && !(r1 is Error) && handled(
            VfsRequest::Stat { path },
            m1,
            r2,
            m2,
        ) ==> r1 is Done && r2 == VfsResponse::Error(FsError::NotFound),
{
}

} // verus!
