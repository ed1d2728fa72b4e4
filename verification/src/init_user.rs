//! Bringing up user space: the directories and programs that the disk starts with,
//! and the list of those to launch at boot.

use crate::bytes::{patch, utf8_text, zeroed, zeros};
use crate::driver::block::BlockDevice;
use crate::driver::console::{ConsoleInput, ConsoleView};
use crate::elf::file::read_only;
use crate::fs::fds::{OpenFlags, VfsError};
use crate::fs::vfs::{
    self, close_s, frame, lemma_frame, lemma_frame_refl, lemma_frame_trans, makes_file,
    mkdir_path_s, open_s, read_s, vfs_device_failed, write_s, FileSystem, FilesView, ReadStep,
    WriteStep,
};
use crate::shell::parse::{find_char, find_from, lines, split_lines};
use crate::shell::shell_laws::{lemma_find_first, lemma_find_nowhere};
use crate::text::{contents, trim, trimmed, white_space};
use crate::text_laws::{blank, lemma_trimmed_between, tight};
use vstd::prelude::*;
use vstd::string::StrSliceExecFns;
use vstd::utf8::{decode_utf8, encode_utf8, valid_utf8};

verus! {

/// The task on whose behalf all of this is done.
pub const INIT_TASK: u32 = 0;

/// Where the list of programs to launch is.
pub const INITTAB_PATH: &'static str = "/etc/inittab";

/// How much of the list is read.
pub const INITTAB_MAX: usize = 1024;

/// The list that a new disk gets: one `name:path` per line; `#` begins a comment.
pub const DEFAULT_INITTAB: &'static str = "# PICKLE OS inittab - programs launched by init at boot\n# format: <name>:<absolute-path>\n# GUI shell first so the desktop (taskbar + launcher) is up immediately.\ntaskbar:/bin/taskbar\nlauncher:/bin/launcher\nhello:/bin/hello\ntest_lib:/bin/test_lib\npid_test:/bin/pid_test\nsignal_test:/bin/signal_test\npipe_test:/bin/pipe_test\nnet_test:/bin/net_test\npie_test:/bin/pie_test\n";

/// A line of the list that is neither empty nor a comment.
pub enum InitLine {
    Launch { name: String, path: String },
    Malformed(String),
}

/// A line of the list.
pub enum InitLineView {
    Launch { name: Seq<char>, path: Seq<char> },
    Malformed(Seq<char>),
}

impl InitLine {
    pub open spec fn view(&self) -> InitLineView {
        match self {
            InitLine::Launch { name, path } => InitLineView::Launch { name: name@, path: path@ },
            InitLine::Malformed(t) => InitLineView::Malformed(t@),
        }
    }
}

/// What a line says: nothing if it is empty or a comment, else what to launch.
pub open spec fn entry_s(line: Seq<char>) -> Seq<InitLineView> {
    let t = trimmed(line);
    let n = find_char(t, ':');
    if t.len() == 0 || t[0] == '#' {
        Seq::empty()
    } else if n >= t.len() || trimmed(t.take(n)).len() == 0 || trimmed(t.skip(n + 1)).len() == 0 {
        seq![InitLineView::Malformed(t)]
    } else {
        seq![InitLineView::Launch { name: trimmed(t.take(n)), path: trimmed(t.skip(n + 1)) }]
    }
}

/// What a number of lines say, in order.
pub open spec fn entries_s(l: Seq<Seq<char>>) -> Seq<InitLineView>
    decreases l.len(),
{
    if l.len() == 0 {
        Seq::empty()
    } else {
        entry_s(l[0]) + entries_s(l.drop_first())
    }
}

/// The views of a list.
pub open spec fn views(v: Seq<InitLine>) -> Seq<InitLineView> {
    v.map_values(|e: InitLine| e@)
}

/// What a line says.
fn parse_entry(line: &str, out: &mut Vec<InitLine>)
    ensures
        views(final(out)@) == views(old(out)@) + entry_s(line@),
{
    let t = trim(line);
    let n: usize = t.unicode_len();
    assert(t@.skip(0) =~= t@);
    if n == 0 || t.get_char(0) == '#' {
        assert(views(out@) =~= views(out@) + entry_s(line@));
        return;
    }
    let at: usize = find_from(t, ':', 0);
    if at < n {
        let name = trim(t.substring_char(0, at));
        let path = trim(t.substring_char(at + 1, n));
        assert(t@.subrange(0, at as int) =~= t@.take(at as int));
        assert(t@.subrange(at + 1, n as int) =~= t@.skip(at + 1));
        if name.unicode_len() > 0 && path.unicode_len() > 0 {
            out.push(InitLine::Launch { name: name.to_owned(), path: path.to_owned() });
            assert(views(out@) =~= views(old(out)@) + entry_s(line@));
            return;
        }
    }
    out.push(InitLine::Malformed(t.to_owned()));
    assert(views(out@) =~= views(old(out)@) + entry_s(line@));
}

/// Parses the list of programs to launch.
pub fn parse_inittab(text: &str) -> (r: Vec<InitLine>)
    ensures
        views(r@) == entries_s(lines(text@)),
{
    let ls = split_lines(text);
    let ghost all = lines(text@);
    let mut out: Vec<InitLine> = Vec::new();
    let mut i: usize = 0;
    assert(all.skip(0) =~= all);
    assert(views(out@) + entries_s(all) =~= entries_s(all));
    while i < ls.len()
        invariant
            i <= ls@.len(),
            contents(ls@) == all,
            views(out@) + entries_s(all.skip(i as int)) == entries_s(all),
        decreases ls@.len() - i,
    {
        let ghost done = views(out@);
        let ghost rest = all.skip(i as int);
        assert(all[i as int] == ls@[i as int]@);
        parse_entry(ls[i].as_str(), &mut out);
        proof {
            assert(rest[0] == ls@[i as int]@);
            assert(rest.drop_first() =~= all.skip(i + 1));
            let later = entries_s(all.skip(i + 1));
            assert(done + (entry_s(rest[0]) + later) =~= done + entry_s(rest[0]) + later);
        }
        i += 1;
    }
    assert(all.skip(ls@.len() as int) =~= Seq::<Seq<char>>::empty());
    assert(views(out@) + entries_s(all.skip(ls@.len() as int)) =~= views(out@));
    out
}

/// Write access to a file that is made if there is none and emptied if there is.
pub open spec fn create_anew() -> OpenFlags {
    OpenFlags { read: false, write: true, create: true, truncate: true, append: false }
}

/// Making or emptying a file and filling it.
#[verifier::opaque]
pub open spec fn write_file_s(f: FilesView, path: Seq<char>, data: Seq<u8>, now: u32) -> (
    Result<usize, VfsError>,
    FilesView,
) {
    match open_s(f, INIT_TASK, path, create_anew(), now) {
        (Err(e), f1) => (Err(e), f1),
        (Ok(fd), f1) => if data.len() == 0 {
            match close_s(f1, INIT_TASK, fd) {
                (Err(e), f2) => (Err(e), f2),
                (Ok(_), f2) => (Ok(0), f2),
            }
        } else {
            match write_s(f1, INIT_TASK, fd, data, 0, now) {
                (Err(e), f2) => (Err(e), close_s(f2, INIT_TASK, fd).1),
                (Ok(step), f2) => match close_s(f2, INIT_TASK, fd) {
                    (Err(e), f3) => (Err(e), f3),
                    (Ok(_), f3) => (
                        Ok(
                            match step {
                                WriteStep::Bytes(n) => n,
                                _ => 0,
                            },
                        ),
                        f3,
                    ),
                },
            }
        },
    }
}

/// A file was filled as [`write_file_s`] says, unless the device failed. Where the file
/// had to be made, the device may fail to give it to its owner, or to tell that its name
/// is taken, without that being noticed; the file is filled all the same, whole or not
/// at all.
pub open spec fn file_written(
    reliable: bool,
    r: Result<usize, VfsError>,
    post: FilesView,
    f0: FilesView,
    path: Seq<char>,
    data: Seq<u8>,
    now: u32,
) -> bool {
    ||| (r, post) == write_file_s(f0, path, data, now)
    ||| {
        &&& !reliable
        &&& match r {
            Ok(n) => n == data.len() && makes_file(f0, path, create_anew()),
            Err(e) => vfs_device_failed(e) || makes_file(f0, path, create_anew()),
        }
        &&& post == (FilesView { fs: post.fs, tables: post.tables, ..f0 })
    }
}

/// Creates or empties a file and fills it.
#[verifier::spinoff_prover]
#[verifier::rlimit(60)]
pub fn write_file<D: BlockDevice>(files: &mut FileSystem<D>, path: &str, data: &[u8], now: u32) -> (r:
    Result<usize, VfsError>)
    requires
        old(files).wf(),
    ensures
        frame(*old(files), *final(files)),
        file_written(old(files).reliable(), r, final(files)@, old(files)@, path@, data@, now),
        r matches Ok(n) ==> n == data@.len(),
        final(files)@ == (FilesView {
            fs: final(files)@.fs,
            tables: final(files)@.tables,
            ..old(files)@
        }),
{
    reveal(write_file_s);
    assert(data@.len() == data.len());
    proof {
        law_files_are_written_whole(files@, path@, data@, now);
        lemma_write_file_frame(files@, path@, data@, now);
    }
    let ghost f0 = *files;
    let opened = vfs::open(files, INIT_TASK, path, OpenFlags::create().with_truncate(), now);
    let ghost f1 = *files;
    proof {
        lemma_frame(f0, f1);
    }
    let fd: u32 = match opened {
        Ok(fd) => fd,
        Err(e) => return Err(e),
    };
    let mut total: usize = 0;
    if data.len() > 0 {
        let wrote = vfs::write(files, INIT_TASK, fd, data, 0, now);
        let ghost f2 = *files;
        proof {
            lemma_frame(f1, f2);
            lemma_frame_trans(f0, f1, f2);
        }
        match wrote {
            Ok(WriteStep::Bytes(n)) => {
                total = n;
            },
            Ok(_) => {},
            Err(e) => {
                let _ = vfs::close(files, INIT_TASK, fd);
                proof {
                    lemma_frame_trans(f0, f2, *files);
                }
                return Err(e);
            },
        }
    }
    let ghost f3 = *files;
    proof {
        lemma_frame(f0, f3);
    }
    let closed = vfs::close(files, INIT_TASK, fd);
    proof {
        lemma_frame_trans(f0, f3, *files);
    }
    match closed {
        Ok(_) => Ok(total),
        Err(e) => Err(e),
    }
}

/// A file that was written was written whole.
pub proof fn law_files_are_written_whole(f: FilesView, path: Seq<char>, data: Seq<u8>, now: u32)
    requires
        data.len() <= usize::MAX,
    ensures
        write_file_s(f, path, data, now).0 matches Ok(n) ==> n == data.len(),
{
    reveal(write_file_s);
}

proof fn lemma_write_file_frame(f: FilesView, path: Seq<char>, data: Seq<u8>, now: u32)
    ensures
        ({
            let post = write_file_s(f, path, data, now).1;
            post == (FilesView { fs: post.fs, tables: post.tables, ..f })
        }),
{
    reveal(write_file_s);
}

/// A file of the disk: its path and what is in it.
pub struct SeedFile {
    pub path: String,
    pub image: Vec<u8>,
}

/// Filling a number of files in order; what cannot be written is passed over.
pub open spec fn write_all_s(f: FilesView, files: Seq<SeedFile>, now: u32) -> (
    Seq<Result<usize, VfsError>>,
    FilesView,
)
    decreases files.len(),
{
    if files.len() == 0 {
        (Seq::empty(), f)
    } else {
        let (rs, f1) = write_all_s(f, files.drop_last(), now);
        let (r, f2) = write_file_s(f1, files.last().path@, files.last().image@, now);
        (rs.push(r), f2)
    }
}

/// Fills a number of files in order; what cannot be written is passed over.
fn write_all<D: BlockDevice>(files: &mut FileSystem<D>, programs: &Vec<SeedFile>, now: u32) -> (out:
    Vec<Result<usize, VfsError>>)
    requires
        old(files).wf(),
    ensures
        frame(*old(files), *final(files)),
        out@.len() == programs@.len(),
        old(files).reliable() ==> (out@, final(files)@) == write_all_s(
            old(files)@,
            programs@,
            now,
        ),
        forall|i: int|
            0 <= i < programs@.len() ==> (#[trigger] out@[i] matches Ok(n) ==> n
                == programs@[i].image@.len()),
        final(files)@ == (FilesView {
            fs: final(files)@.fs,
            tables: final(files)@.tables,
            ..old(files)@
        }),
{
    let ghost f2 = *files;
    let mut out: Vec<Result<usize, VfsError>> = Vec::new();
    let mut i: usize = 0;
    proof {
        lemma_frame_refl(f2);
        assert(programs@.take(0) =~= Seq::<SeedFile>::empty());
    }
    while i < programs.len()
        invariant
            i <= programs@.len(),
            frame(f2, *files),
            out@.len() == i,
            f2.reliable() ==> (out@, files@) == write_all_s(f2@, programs@.take(i as int), now),
            files@ == (FilesView { fs: files@.fs, tables: files@.tables, ..f2@ }),
            forall|j: int|
                0 <= j < i ==> (#[trigger] out@[j] matches Ok(n) ==> n
                    == programs@[j].image@.len()),
        decreases programs@.len() - i,
    {
        let ghost f = *files;
        proof {
            lemma_frame(f2, f);
        }
        let r = write_file(files, programs[i].path.as_str(), programs[i].image.as_slice(), now);
        proof {
            lemma_frame_trans(f2, f, *files);
            assert(programs@.take(i + 1).drop_last() =~= programs@.take(i as int));
        }
        out.push(r);
        i += 1;
    }
    proof {
        assert(programs@.take(programs@.len() as int) =~= programs@);
    }
    out
}

/// What seeding the disk came to: the two directories, each program, the list.
pub struct Seeded {
    pub bin: Result<(), VfsError>,
    pub etc: Result<(), VfsError>,
    pub programs: Vec<Result<usize, VfsError>>,
    pub inittab: Result<usize, VfsError>,
}

/// Seeding the disk.
pub open spec fn seeded_s(f: FilesView, programs: Seq<SeedFile>, now: u32) -> (
    (Result<(), VfsError>, Result<(), VfsError>),
    (Seq<Result<usize, VfsError>>, Result<usize, VfsError>),
    FilesView,
) {
    let (bin, f1) = mkdir_path_s(f, INIT_TASK, "/bin"@, now);
    let (etc, f2) = mkdir_path_s(f1, INIT_TASK, "/etc"@, now);
    let (rs, f3) = write_all_s(f2, programs, now);
    let (tab, f4) = write_file_s(f3, INITTAB_PATH@, encode_utf8(DEFAULT_INITTAB@), now);
    ((bin, etc), (rs, tab), f4)
}

/// Makes the directories of a new disk and writes the programs and the list of those
/// to launch to it. That something cannot be made keeps nothing else from being
/// made.
pub fn seed_filesystem<D: BlockDevice>(
    files: &mut FileSystem<D>,
    programs: &Vec<SeedFile>,
    now: u32,
) -> (r: Seeded)
    requires
        old(files).wf(),
    ensures
        frame(*old(files), *final(files)),
        r.programs@.len() == programs@.len(),
        old(files).reliable() ==> ({
            let (dirs, wrote, f) = seeded_s(old(files)@, programs@, now);
            &&& (r.bin, r.etc) == dirs
            &&& (r.programs@, r.inittab) == wrote
            &&& final(files)@ == f
        }),
        ({
            let want = mkdir_path_s(old(files)@, INIT_TASK, "/bin"@, now).0;
            ||| r.bin == want
            ||| !old(files).reliable() && (want == Err::<(), VfsError>(VfsError::AlreadyExists) || (
            r.bin matches Err(e) && vfs_device_failed(e)))
        }),
        forall|i: int|
            0 <= i < programs@.len() ==> (#[trigger] r.programs@[i] matches Ok(n) ==> n
                == programs@[i].image@.len()),
        r.inittab matches Ok(n) ==> n == encode_utf8(DEFAULT_INITTAB@).len(),
        final(files)@ == (FilesView {
            fs: final(files)@.fs,
            tables: final(files)@.tables,
            ..old(files)@
        }),
{
    let ghost f0 = *files;
    let bin = vfs::mkdir(files, INIT_TASK, "/bin", now);
    let ghost f1 = *files;
    proof {
        lemma_frame(f0, f1);
    }
    let etc = vfs::mkdir(files, INIT_TASK, "/etc", now);
    let ghost f2 = *files;
    proof {
        lemma_frame(f1, f2);
        lemma_frame_trans(f0, f1, f2);
    }
    let out = write_all(files, programs, now);
    let ghost f3 = *files;
    proof {
        lemma_frame(f2, f3);
        lemma_frame_trans(f0, f2, f3);
    }
    let inittab = write_file(files, INITTAB_PATH, DEFAULT_INITTAB.as_bytes(), now);
    proof {
        lemma_frame_trans(f0, f3, *files);
    }
    Seeded { bin, etc, programs: out, inittab }
}

/// Reading the first bytes of a file, up to `len`.
pub open spec fn read_file_s(f: FilesView, con: ConsoleView, path: Seq<char>, len: nat, now: u32) -> (
    Result<Seq<u8>, VfsError>,
    FilesView,
    ConsoleView,
) {
    match open_s(f, INIT_TASK, path, read_only(), now) {
        (Err(e), f1) => (Err(e), f1, con),
        (Ok(fd), f1) => match read_s(f1, con, INIT_TASK, fd, len) {
            (Err(e), data, f2, con1) => (Err(e), close_s(f2, INIT_TASK, fd).1, con1),
            (Ok(step), data, f2, con1) => match close_s(f2, INIT_TASK, fd) {
                (Err(e), f3) => (Err(e), f3, con1),
                (Ok(_), f3) => (
                    Ok(
                        match step {
                            ReadStep::Bytes(n) => patch(zeros(len), 0, data).take(n as int),
                            _ => Seq::empty(),
                        },
                    ),
                    f3,
                    con1,
                ),
            },
        },
    }
}

/// Reads the first bytes of a file, up to `len`.
#[verifier::spinoff_prover]
#[verifier::rlimit(60)]
pub fn read_file<D: BlockDevice>(
    files: &mut FileSystem<D>,
    console: &mut ConsoleInput,
    path: &str,
    len: usize,
    now: u32,
) -> (r: Result<Vec<u8>, VfsError>)
    requires
        old(files).wf(),
        old(console).wf(),
    ensures
        frame(*old(files), *final(files)),
        final(console).wf(),
        ({
            let (want, f, con) = read_file_s(
                old(files)@,
                old(console)@,
                path@,
                len as nat,
                now,
            );
            ||| {
                &&& final(files)@ == f
                &&& final(console)@ == con
                &&& match r {
                    Ok(data) => want == Ok::<Seq<u8>, VfsError>(data@),
                    Err(e) => want == Err::<Seq<u8>, VfsError>(e),
                }
            }
            ||| {
                &&& !old(files).reliable()
                &&& r matches Err(e) && vfs_device_failed(e)
                &&& final(files)@ == (FilesView { tables: final(files)@.tables, ..old(files)@ })
                &&& final(console)@ == old(console)@
            }
        }),
{
    let ghost f0 = *files;
    let opened = vfs::open(files, INIT_TASK, path, OpenFlags::rdonly(), now);
    let ghost f1 = *files;
    proof {
        lemma_frame(f0, f1);
    }
    let fd: u32 = match opened {
        Ok(fd) => fd,
        Err(e) => return Err(e),
    };
    let mut buf = zeroed(len);
    let got = vfs::read(files, console, INIT_TASK, fd, buf.as_mut_slice());
    let ghost f2 = *files;
    proof {
        lemma_frame(f1, f2);
        lemma_frame_trans(f0, f1, f2);
    }
    let closed = vfs::close(files, INIT_TASK, fd);
    proof {
        lemma_frame_trans(f0, f2, *files);
    }
    let step = match got {
        Ok(s) => s,
        Err(e) => return Err(e),
    };
    if let Err(e) = closed {
        return Err(e);
    }
    let n: usize = match step {
        ReadStep::Bytes(n) => n,
        _ => 0,
    };
    buf.truncate(n);
    Ok(buf)
}

/// Why the list of programs to launch could not be read.
#[derive(Debug)]
pub enum InittabError {
    Unreadable(VfsError),
    NotText,
}

/// The list of programs to launch, as it is on the disk.
pub open spec fn inittab_s(f: FilesView, con: ConsoleView, now: u32) -> Result<
    Seq<InitLineView>,
    InittabError,
> {
    match read_file_s(f, con, INITTAB_PATH@, INITTAB_MAX as nat, now).0 {
        Err(e) => Err(InittabError::Unreadable(e)),
        Ok(data) => if valid_utf8(data) {
            Ok(entries_s(lines(decode_utf8(data))))
        } else {
            Err(InittabError::NotText)
        },
    }
}

/// Reads the list of programs to launch.
pub fn read_inittab<D: BlockDevice>(
    files: &mut FileSystem<D>,
    console: &mut ConsoleInput,
    now: u32,
) -> (r: Result<Vec<InitLine>, InittabError>)
    requires
        old(files).wf(),
        old(console).wf(),
    ensures
        frame(*old(files), *final(files)),
        final(console).wf(),
        ({
            let (_, f, con) = read_file_s(
                old(files)@,
                old(console)@,
                INITTAB_PATH@,
                INITTAB_MAX as nat,
                now,
            );
            ||| {
                &&& final(files)@ == f
                &&& final(console)@ == con
                &&& match r {
                    Ok(l) => inittab_s(old(files)@, old(console)@, now) == Ok::<
                        Seq<InitLineView>,
                        InittabError,
                    >(views(l@)),
                    Err(e) => inittab_s(old(files)@, old(console)@, now) == Err::<
                        Seq<InitLineView>,
                        InittabError,
                    >(e),
                }
            }
            ||| {
                &&& !old(files).reliable()
                &&& r matches Err(InittabError::Unreadable(e)) && vfs_device_failed(e)
                &&& final(files)@ == (FilesView { tables: final(files)@.tables, ..old(files)@ })
                &&& final(console)@ == old(console)@
            }
        }),
{
    let data = match read_file(files, console, INITTAB_PATH, INITTAB_MAX, now) {
        Ok(d) => d,
        Err(e) => return Err(InittabError::Unreadable(e)),
    };
    match utf8_text(data.as_slice()) {
        None => Err(InittabError::NotText),
        Some(text) => Ok(parse_inittab(text)),
    }
}

/// A line that names a program and its file with a colon between them launches that
/// program from that file, whatever white space stands around either; only the first
/// colon separates them.
pub proof fn law_inittab_names_programs(
    name: Seq<char>,
    path: Seq<char>,
    a: Seq<char>,
    b: Seq<char>,
    c: Seq<char>,
    d: Seq<char>,
)
    requires
        tight(name),
        !name.contains(':'),
        name[0] != '#',
        tight(path),
        blank(a),
        blank(b),
        blank(c),
        blank(d),
    ensures
        entry_s(a + (name + b + seq![':'] + c + path) + d) == seq![
            InitLineView::Launch { name, path },
        ],
        entry_s(a + (name + b + seq![':']) + d) == seq![
            InitLineView::Malformed(name + b + seq![':']),
        ],
        entry_s(a + name + d) == seq![InitLineView::Malformed(name)],
{
    let none = Seq::<char>::empty();
    let t = name + b + seq![':'] + c + path;
    let k = (name.len() + b.len()) as int;
    assert(t[0] == name[0] && t.last() == path.last());
    lemma_trimmed_between(a, t, d);
    lemma_no_colon(name, b, t);
    lemma_find_first(t, ':', k);
    assert(t.take(k) =~= none + name + b);
    lemma_trimmed_between(none, name, b);
    assert(t.skip(k + 1) =~= c + path + none);
    lemma_trimmed_between(c, path, none);
    let u = name + b + seq![':'];
    assert(u[0] == name[0] && u.last() == ':');
    lemma_trimmed_between(a, u, d);
    lemma_no_colon(name, b, u);
    lemma_find_first(u, ':', k);
    assert(u.skip(k + 1) =~= none);
    assert(trimmed(none).len() == 0);
    lemma_trimmed_between(a, name, d);
    lemma_find_nowhere(name, ':');
}

proof fn lemma_no_colon(name: Seq<char>, b: Seq<char>, t: Seq<char>)
    requires
        !name.contains(':'),
        blank(b),
        t.len() >= name.len() + b.len(),
        t.take((name.len() + b.len()) as int) =~= name + b,
    ensures
        forall|i: int| 0 <= i < name.len() + b.len() ==> t[i] != ':',
{
    let h = t.take((name.len() + b.len()) as int);
    assert forall|i: int| 0 <= i < name.len() + b.len() implies t[i] != ':' by {
        assert(t[i] == h[i]);
        if i < name.len() {
            assert(name.contains(name[i]));
        } else {
            assert(white_space(b[i - name.len()]));
        }
    }
}

/// Lines that are blank and lines that begin with a `#` launch nothing.
pub proof fn law_inittab_skips_comments(a: Seq<char>, t: Seq<char>, d: Seq<char>)
    requires
        blank(a),
        blank(d),
        tight(t),
        t[0] == '#',
    ensures
        entry_s(a + t + d) == Seq::<InitLineView>::empty(),
        entry_s(Seq::empty()) == Seq::<InitLineView>::empty(),
{
    lemma_trimmed_between(a, t, d);
    assert(trimmed(Seq::empty()).len() == 0);
}

} // verus!
