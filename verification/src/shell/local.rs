//! The shell's commands on the in-memory file server.

use crate::bytes::utf8_text;
use crate::names::ordered;
use crate::services::memfs::{
    create_s, has_entry, normalize_s, read_s, remove_s, write_s, FsError, MemFs, NodeView, Nodes,
    StatInfo,
};
use crate::shell::disk::{failure, or_root};
use crate::shell::parse::{cut, cut_at_space};
use crate::text::{
    contents, decimal, flat, lemma_flat_ends, lemma_flat_step, push_decimal,
};
use vstd::prelude::*;
use vstd::string::{StrSliceExecFns, StringExecFns};
use vstd::utf8::{decode_utf8, encode_utf8, valid_utf8};

verus! {

/// What the file server holds; nothing while it does not run.
pub open spec fn nodes_of(fs: Option<MemFs>) -> Option<Nodes> {
    match fs {
        Some(fs) => Some(fs@),
        None => None,
    }
}

/// The file server is in order.
pub open spec fn server_ok(fs: Option<MemFs>) -> bool {
    fs matches Some(fs) ==> fs.wf()
}

/// The name of an error.
pub open spec fn error_word(e: FsError) -> Seq<char> {
    match e {
        FsError::NotFound => "NotFound"@,
        FsError::AlreadyExists => "AlreadyExists"@,
        FsError::NotADirectory => "NotADirectory"@,
        FsError::IsADirectory => "IsADirectory"@,
        FsError::InvalidPath => "InvalidPath"@,
    }
}

impl FsError {
    /// The name of the error.
    pub fn word(&self) -> (r: &'static str)
        ensures
            r@ == error_word(*self),
    {
        match self {
            FsError::NotFound => "NotFound",
            FsError::AlreadyExists => "AlreadyExists",
            FsError::NotADirectory => "NotADirectory",
            FsError::IsADirectory => "IsADirectory",
            FsError::InvalidPath => "InvalidPath",
        }
    }
}

/// The words for a command that failed.
fn failure_text(cmd: &str, path: &str, e: FsError) -> (r: String)
    ensures
        r@ == failure(cmd@, path@, error_word(e)),
{
    let mut out = cmd.to_owned();
    out.append(path);
    out.append(": ");
    out.append(e.word());
    out.append("\n");
    out
}

/// A change of what the file server holds. Without a server the path counts as
/// invalid.
pub open spec fn served<T>(
    fs: Option<Nodes>,
    change: spec_fn(Nodes) -> (Result<T, FsError>, Nodes),
) -> (Result<T, FsError>, Option<Nodes>) {
    match fs {
        None => (Err(FsError::InvalidPath), fs),
        Some(m) => {
            let (r, m1) = change(m);
            (r, Some(m1))
        },
    }
}

/// What a stat of a path says.
pub open spec fn stat_s(m: Nodes, path: Seq<char>) -> Result<StatInfo, FsError> {
    match normalize_s(path) {
        Err(e) => Err(e),
        Ok(p) => if !m.contains_key(p) {
            Err(FsError::NotFound)
        } else {
            match m[p] {
                NodeView::File(data) => Ok(StatInfo { size: data.len() as usize, is_dir: false }),
                NodeView::Dir => Ok(StatInfo { size: 0, is_dir: true }),
            }
        },
    }
}

/// The names are those of a directory's entries, in order.
pub open spec fn is_listing(m: Nodes, p: Seq<char>, names: Seq<Seq<char>>) -> bool {
    &&& ordered(names)
    &&& forall|name: Seq<char>| names.contains(name) <==> has_entry(m, p, name)
}

/// The path of a directory's entry.
pub open spec fn entry_path(dir: Seq<char>, name: Seq<char>) -> Seq<char> {
    if dir == "/"@ {
        "/"@ + name
    } else {
        dir + "/"@ + name
    }
}

/// An entry as `ls` shows it: directories have a slash behind them.
pub open spec fn entry_line(m: Nodes, dir: Seq<char>, name: Seq<char>) -> Seq<char> {
    if stat_s(m, entry_path(dir, name)) is Ok && stat_s(m, entry_path(dir, name))->Ok_0.is_dir {
        "  "@ + name + "/\n"@
    } else {
        "  "@ + name + "\n"@
    }
}

/// The entries as `ls` shows them.
pub open spec fn ls_lines(m: Nodes, dir: Seq<char>, names: Seq<Seq<char>>) -> Seq<char> {
    if names.len() == 0 {
        "(empty)\n"@
    } else {
        flat(Seq::new(names.len(), |i: int| entry_line(m, dir, names[i])))
    }
}

/// What `ls` prints.
pub open spec fn ls_s(fs: Option<Nodes>, dir: Seq<char>, text: Seq<char>) -> bool {
    match fs {
        None => text == failure("ls: "@, dir, error_word(FsError::InvalidPath)),
        Some(m) => match normalize_s(dir) {
            Err(e) => text == failure("ls: "@, dir, error_word(e)),
            Ok(p) => if !m.contains_key(p) {
                text == failure("ls: "@, dir, error_word(FsError::NotFound))
            } else if m[p] !is Dir {
                text == failure("ls: "@, dir, error_word(FsError::NotADirectory))
            } else {
                exists|names: Seq<Seq<char>>|
                    #[trigger] is_listing(m, p, names) && text == ls_lines(m, dir, names)
            },
        },
    }
}

/// The entries as `ls` shows them.
fn ls_lines_text(fs: &MemFs, dir: &str, names: &Vec<String>) -> (r: String)
    requires
        fs.wf(),
    ensures
        r@ == ls_lines(fs@, dir@, contents(names@)),
{
    if names.len() == 0 {
        return "(empty)\n".to_owned();
    }
    let root = crate::bytes::str_eq(dir, "/");
    let mut out = String::new();
    let ghost all = Seq::new(
        contents(names@).len(),
        |i: int| entry_line(fs@, dir@, contents(names@)[i]),
    );
    let ghost head = out@;
    let mut i: usize = 0;
    proof {
        lemma_flat_ends(head, all);
    }
    while i < names.len()
        invariant
            fs.wf(),
            root == (dir@ == "/"@),
            i <= names@.len(),
            all == Seq::new(
                contents(names@).len(),
                |i: int| entry_line(fs@, dir@, contents(names@)[i]),
            ),
            out@ == head + flat(all.take(i as int)),
        decreases names@.len() - i,
    {
        let name = names[i].as_str();
        assert(contents(names@)[i as int] == name@);
        let full = if root {
            "/".to_owned().concat(name)
        } else {
            dir.to_owned().concat("/").concat(name)
        };
        let is_dir = match fs.stat(full.as_str()) {
            Ok(info) => info.is_dir,
            Err(_) => false,
        };
        let mut l = "  ".to_owned();
        l.append(name);
        if is_dir {
            l.append("/\n");
        } else {
            l.append("\n");
        }
        out.append(l.as_str());
        proof {
            lemma_flat_step(head, all, i as int);
        }
        i = i + 1;
    }
    assert(head + flat(all) =~= flat(all));
    out
}

/// Lists a directory.
pub fn ls(fs: &Option<MemFs>, rest: &str) -> (r: String)
    requires
        server_ok(*fs),
    ensures
        ls_s(nodes_of(*fs), or_root(rest@), r@),
{
    let dir = if rest.unicode_len() == 0 {
        "/"
    } else {
        rest
    };
    match fs {
        None => failure_text("ls: ", dir, FsError::InvalidPath),
        Some(fs) => match fs.readdir(dir) {
            Ok(names) => {
                let text = ls_lines_text(fs, dir, &names);
                assert(is_listing(fs@, normalize_s(dir@)->Ok_0, contents(names@)));
                text
            },
            Err(e) => failure_text("ls: ", dir, e),
        },
    }
}

/// What `cat` prints.
pub open spec fn cat_s(fs: Option<Nodes>, rest: Seq<char>) -> Seq<char> {
    if rest.len() == 0 {
        "usage: cat <path>\n"@
    } else {
        match fs {
            None => failure("cat: "@, rest, error_word(FsError::InvalidPath)),
            Some(m) => match read_s(m, rest) {
                Ok(data) => if valid_utf8(data) {
                    decode_utf8(data)
                } else {
                    "cat: "@ + rest + ": not valid UTF-8 ("@ + decimal(data.len()) + " bytes)\n"@
                },
                Err(e) => failure("cat: "@, rest, error_word(e)),
            },
        }
    }
}

/// Prints a file.
pub fn cat(fs: &Option<MemFs>, rest: &str) -> (r: String)
    requires
        server_ok(*fs),
    ensures
        r@ == cat_s(nodes_of(*fs), rest@),
{
    if rest.unicode_len() == 0 {
        return "usage: cat <path>\n".to_owned();
    }
    match fs {
        None => failure_text("cat: ", rest, FsError::InvalidPath),
        Some(fs) => match fs.read(rest) {
            Ok(data) => match utf8_text(data.as_slice()) {
                Some(t) => t.to_owned(),
                None => {
                    let mut out = "cat: ".to_owned();
                    out.append(rest);
                    out.append(": not valid UTF-8 (");
                    push_decimal(&mut out, data.len() as u64);
                    out.append(" bytes)\n");
                    out
                },
            },
            Err(e) => failure_text("cat: ", rest, e),
        },
    }
}

/// What `write` does and prints.
pub open spec fn write_cmd_s(fs: Option<Nodes>, rest: Seq<char>) -> (Seq<char>, Option<Nodes>) {
    let path = cut(rest).0;
    if cut(rest).1 is None || path.len() == 0 {
        ("usage: write <path> <text>\n"@, fs)
    } else {
        let data = encode_utf8(cut(rest).1->Some_0);
        let (r, fs1) = served(fs, |m: Nodes| write_s(m, path, data));
        (
            match r {
                Ok(n) => "wrote "@ + decimal(n as nat) + " bytes to "@ + path + "\n"@,
                Err(e) => failure("write: "@, path, error_word(e)),
            },
            fs1,
        )
    }
}

/// Writes a text to a file.
pub fn write_cmd(fs: &mut Option<MemFs>, rest: &str) -> (r: String)
    requires
        server_ok(*old(fs)),
    ensures
        server_ok(*final(fs)),
        (r@, nodes_of(*final(fs))) == write_cmd_s(nodes_of(*old(fs)), rest@),
{
    let (path, t) = cut_at_space(rest);
    let t = match t {
        Some(t) => t,
        None => return "usage: write <path> <text>\n".to_owned(),
    };
    if path.unicode_len() == 0 {
        return "usage: write <path> <text>\n".to_owned();
    }
    match fs {
        None => failure_text("write: ", path, FsError::InvalidPath),
        Some(server) => match server.write(path, t.as_bytes()) {
            Ok(n) => {
                let mut out = "wrote ".to_owned();
                push_decimal(&mut out, n as u64);
                out.append(" bytes to ");
                out.append(path);
                out.append("\n");
                out
            },
            Err(e) => failure_text("write: ", path, e),
        },
    }
}

/// What `touch` does and prints.
pub open spec fn touch_s(fs: Option<Nodes>, rest: Seq<char>) -> (Seq<char>, Option<Nodes>) {
    if rest.len() == 0 {
        ("usage: touch <path>\n"@, fs)
    } else {
        let (r, fs1) = served(fs, |m: Nodes| create_s(m, rest, NodeView::File(Seq::empty())));
        (
            match r {
                Ok(_) => "created "@ + rest + "\n"@,
                Err(e) => failure("touch: "@, rest, error_word(e)),
            },
            fs1,
        )
    }
}

/// Creates an empty file.
pub fn touch(fs: &mut Option<MemFs>, rest: &str) -> (r: String)
    requires
        server_ok(*old(fs)),
    ensures
        server_ok(*final(fs)),
        (r@, nodes_of(*final(fs))) == touch_s(nodes_of(*old(fs)), rest@),
{
    if rest.unicode_len() == 0 {
        return "usage: touch <path>\n".to_owned();
    }
    match fs {
        None => failure_text("touch: ", rest, FsError::InvalidPath),
        Some(server) => match server.create(rest) {
            Ok(_) => "created ".to_owned().concat(rest).concat("\n"),
            Err(e) => failure_text("touch: ", rest, e),
        },
    }
}

/// What `mkdir` does and prints.
pub open spec fn mkdir_s(fs: Option<Nodes>, rest: Seq<char>) -> (Seq<char>, Option<Nodes>) {
    if rest.len() == 0 {
        ("usage: mkdir <path>\n"@, fs)
    } else {
        let (r, fs1) = served(fs, |m: Nodes| create_s(m, rest, NodeView::Dir));
        (
            match r {
                Ok(_) => "created directory "@ + rest + "\n"@,
                Err(e) => failure("mkdir: "@, rest, error_word(e)),
            },
            fs1,
        )
    }
}

/// Creates a directory.
pub fn mkdir(fs: &mut Option<MemFs>, rest: &str) -> (r: String)
    requires
        server_ok(*old(fs)),
    ensures
        server_ok(*final(fs)),
        (r@, nodes_of(*final(fs))) == mkdir_s(nodes_of(*old(fs)), rest@),
{
    if rest.unicode_len() == 0 {
        return "usage: mkdir <path>\n".to_owned();
    }
    match fs {
        None => failure_text("mkdir: ", rest, FsError::InvalidPath),
        Some(server) => match server.mkdir(rest) {
            Ok(_) => "created directory ".to_owned().concat(rest).concat("\n"),
            Err(e) => failure_text("mkdir: ", rest, e),
        },
    }
}

/// What `rm` does and prints.
pub open spec fn rm_s(fs: Option<Nodes>, rest: Seq<char>) -> (Seq<char>, Option<Nodes>) {
    if rest.len() == 0 {
        ("usage: rm <path>\n"@, fs)
    } else {
        let (r, fs1) = served(fs, |m: Nodes| remove_s(m, rest));
        (
            match r {
                Ok(_) => "removed "@ + rest + "\n"@,
                Err(e) => failure("rm: "@, rest, error_word(e)),
            },
            fs1,
        )
    }
}

/// Removes a file or an empty directory.
pub fn rm(fs: &mut Option<MemFs>, rest: &str) -> (r: String)
    requires
        server_ok(*old(fs)),
    ensures
        server_ok(*final(fs)),
        (r@, nodes_of(*final(fs))) == rm_s(nodes_of(*old(fs)), rest@),
{
    if rest.unicode_len() == 0 {
        return "usage: rm <path>\n".to_owned();
    }
    match fs {
        None => failure_text("rm: ", rest, FsError::InvalidPath),
        Some(server) => match server.remove(rest) {
            Ok(_) => "removed ".to_owned().concat(rest).concat("\n"),
            Err(e) => failure_text("rm: ", rest, e),
        },
    }
}

/// What `stat` prints.
pub open spec fn stat_cmd_s(fs: Option<Nodes>, rest: Seq<char>) -> Seq<char> {
    if rest.len() == 0 {
        "usage: stat <path>\n"@
    } else {
        match fs {
            None => failure("stat: "@, rest, error_word(FsError::InvalidPath)),
            Some(m) => match stat_s(m, rest) {
                Ok(info) => "  "@ + rest + ": "@ + (if info.is_dir {
                    "directory"@
                } else {
                    "file"@
                }) + " size="@ + decimal(info.size as nat) + " bytes\n"@,
                Err(e) => failure("stat: "@, rest, error_word(e)),
            },
        }
    }
}

/// Prints what there is to know of a path.
pub fn stat_cmd(fs: &Option<MemFs>, rest: &str) -> (r: String)
    requires
        server_ok(*fs),
    ensures
        r@ == stat_cmd_s(nodes_of(*fs), rest@),
{
    if rest.unicode_len() == 0 {
        return "usage: stat <path>\n".to_owned();
    }
    match fs {
        None => failure_text("stat: ", rest, FsError::InvalidPath),
        Some(fs) => match fs.stat(rest) {
            Ok(info) => {
                let mut out = "  ".to_owned();
                out.append(rest);
                out.append(": ");
                out.append(
                    if info.is_dir {
                        "directory"
                    } else {
                        "file"
                    },
                );
                out.append(" size=");
                push_decimal(&mut out, info.size as u64);
                out.append(" bytes\n");
                out
            },
            Err(e) => failure_text("stat: ", rest, e),
        },
    }
}

} // verus!
