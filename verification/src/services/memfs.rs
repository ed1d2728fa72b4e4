//! A small in-memory file system: a flat map from absolute paths to files and
//! directories.

use crate::bytes::copy_range;
use crate::fs::path::{parent_of, split_path, trim_slashes, without_slashes};
use crate::names::{ordered, NameMap};
use crate::text::contents;
use vstd::prelude::*;

verus! {

/// A file with its bytes, or a directory.
#[derive(Debug)]
pub enum Node {
    File(Vec<u8>),
    Dir,
}

#[verifier::ext_equal]
pub enum NodeView {
    File(Seq<u8>),
    Dir,
}

impl Node {
    pub open spec fn view(&self) -> NodeView {
        match *self {
            Node::File(data) => NodeView::File(data@),
            Node::Dir => NodeView::Dir,
        }
    }
}

/// Why an operation failed.
#[derive(Debug, Clone, Copy, PartialEq, Eq, Structural)]
pub enum FsError {
    NotFound,
    AlreadyExists,
    NotADirectory,
    IsADirectory,
    InvalidPath,
}

/// What there is to know of a path.
#[derive(Debug, Clone, Copy, PartialEq, Eq, Structural)]
pub struct StatInfo {
    pub size: usize,
    pub is_dir: bool,
}

/// What a file system holds, by path.
pub type Nodes = Map<Seq<char>, NodeView>;

/// The file system.
pub struct MemFs {
    nodes: NameMap<Node>,
}

/// The path under which a node is kept: paths are absolute, and have no slash at
/// their end but for the root.
pub open spec fn normalize_s(path: Seq<char>) -> Result<Seq<char>, FsError> {
    if path.len() == 0 || path[0] != '/' {
        Err(FsError::InvalidPath)
    } else if without_slashes(path).len() == 0 {
        Ok(seq!['/'])
    } else {
        Ok(without_slashes(path))
    }
}

/// Brings a path into the form in which it is kept.
pub fn normalize(path: &str) -> (r: Result<&str, FsError>)
    ensures
        match r {
            Ok(p) => normalize_s(path@) == Ok::<Seq<char>, FsError>(p@),
            Err(e) => normalize_s(path@) == Err::<Seq<char>, FsError>(e),
        },
{
    let n: usize = path.unicode_len();
    if n == 0 || path.get_char(0) != '/' {
        return Err(FsError::InvalidPath);
    }
    let p = trim_slashes(path);
    if p.unicode_len() == 0 {
        proof {
            reveal_strlit("/");
            assert("/"@ =~= seq!['/']);
        }
        return Ok("/");
    }
    Ok(p)
}

/// Nodes are kept under absolute paths that do not end in a slash, but for the root;
/// a path of that form is kept as it is, and slashes at its end make no difference.
pub proof fn law_normal_paths(path: Seq<char>)
    ensures
        normalize_s(path) is Err <==> path.len() == 0 || path[0] != '/',
        normalize_s(path) matches Ok(p) ==> {
            &&& p.len() > 0 && p[0] == '/'
            &&& p == seq!['/'] || p.last() != '/'
            &&& normalize_s(p) == Ok::<Seq<char>, FsError>(p)
            &&& normalize_s(path.push('/')) == Ok::<Seq<char>, FsError>(p)
        },
{
    if path.len() > 0 && path[0] == '/' {
        lemma_without_slashes(path);
        assert(seq!['/'].drop_last() =~= Seq::<char>::empty());
        assert(seq!['/'].last() == '/');
        assert(without_slashes(seq!['/']) == without_slashes(Seq::<char>::empty()));
        assert(path.push('/').drop_last() =~= path);
        assert(path.push('/').last() == '/');
    }
}

/// Whether a new node can be put at a path: its parent is to be a directory.
pub open spec fn parent_ok(m: Nodes, path: Seq<char>) -> Result<(), FsError> {
    let p = parent_of(path);
    if !m.contains_key(p) {
        Err(FsError::NotFound)
    } else if m[p] is Dir {
        Ok(())
    } else {
        Err(FsError::NotADirectory)
    }
}

/// Putting a new node at a path.
pub open spec fn create_s(m: Nodes, path: Seq<char>, node: NodeView) -> (
    Result<(), FsError>,
    Nodes,
) {
    match normalize_s(path) {
        Err(e) => (Err(e), m),
        Ok(p) => if m.contains_key(p) {
            (Err(FsError::AlreadyExists), m)
        } else {
            match parent_ok(m, p) {
                Err(e) => (Err(e), m),
                Ok(_) => (Ok(()), m.insert(p, node)),
            }
        },
    }
}

/// Writing a whole file, which is created if there is none.
pub open spec fn write_s(m: Nodes, path: Seq<char>, data: Seq<u8>) -> (
    Result<usize, FsError>,
    Nodes,
) {
    match normalize_s(path) {
        Err(e) => (Err(e), m),
        Ok(p) => if m.contains_key(p) && m[p] is Dir {
            (Err(FsError::IsADirectory), m)
        } else if !m.contains_key(p) && parent_ok(m, p) is Err {
            (Err(parent_ok(m, p)->Err_0), m)
        } else {
            (Ok(data.len() as usize), m.insert(p, NodeView::File(data)))
        },
    }
}

/// Reading a whole file.
pub open spec fn read_s(m: Nodes, path: Seq<char>) -> Result<Seq<u8>, FsError> {
    match normalize_s(path) {
        Err(e) => Err(e),
        Ok(p) => if !m.contains_key(p) {
            Err(FsError::NotFound)
        } else {
            match m[p] {
                NodeView::File(data) => Ok(data),
                NodeView::Dir => Err(FsError::IsADirectory),
            }
        },
    }
}

/// What the paths below a directory begin with.
pub open spec fn prefix_of(p: Seq<char>) -> Seq<char> {
    if p == seq!['/'] {
        p
    } else {
        p.push('/')
    }
}

/// Whether a directory has an entry of a name.
pub open spec fn has_entry(m: Nodes, p: Seq<char>, name: Seq<char>) -> bool {
    name.len() > 0 && !name.contains('/') && m.contains_key(prefix_of(p) + name)
}

/// Whether some path is below a directory.
pub open spec fn has_children(m: Nodes, p: Seq<char>) -> bool {
    exists|k: Seq<char>| #[trigger] m.contains_key(k) && p.push('/').is_prefix_of(k)
}

/// Removing a file or an empty directory. The root stays.
pub open spec fn remove_s(m: Nodes, path: Seq<char>) -> (Result<(), FsError>, Nodes) {
    match normalize_s(path) {
        Err(e) => (Err(e), m),
        Ok(p) => if p == seq!['/'] {
            (Err(FsError::InvalidPath), m)
        } else if !m.contains_key(p) {
            (Err(FsError::NotFound), m)
        } else if m[p] is Dir && has_children(m, p) {
            (Err(FsError::NotADirectory), m)
        } else {
            (Ok(()), m.remove(p))
        },
    }
}

/// What a fresh file system holds.
pub open spec fn seeded() -> Nodes {
    Map::empty().insert("/"@, NodeView::Dir).insert("/etc"@, NodeView::Dir).insert(
        "/welcome.txt"@,
        NodeView::File(
            vstd::utf8::encode_utf8(
                "Welcome to PICKLE OS Phase 2!\nFiles are served over IPC by the VFS server.\n"@,
            ),
        ),
    ).insert(
        "/etc/motd"@,
        NodeView::File(
            vstd::utf8::encode_utf8("PICKLE OS :: capability-secured microkernel\n"@),
        ),
    )
}

/// The bytes of a text.
fn text_bytes(s: &str) -> (r: Vec<u8>)
    ensures
        r@ == vstd::utf8::encode_utf8(s@),
{
    let b = s.as_bytes();
    let n: usize = b.len();
    let v = copy_range(b, 0, n);
    assert(v@ =~= b@);
    v
}

impl MemFs {
    pub closed spec fn view(&self) -> Nodes {
        self.nodes@.map_values(|n: Node| n@)
    }

    pub closed spec fn wf(&self) -> bool {
        self.nodes.wf()
    }

    /// A file system with a root directory and some files in it.
    pub fn init() -> (r: MemFs)
        ensures
            r.wf(),
            r@ == seeded(),
    {
        let mut r = MemFs { nodes: NameMap::new() };
        assert(r@ =~= Map::empty());
        r.put("/", Node::Dir);
        r.put("/etc", Node::Dir);
        r.put(
            "/welcome.txt",
            Node::File(
                text_bytes(
                    "Welcome to PICKLE OS Phase 2!\nFiles are served over IPC by the VFS server.\n",
                ),
            ),
        );
        r.put(
            "/etc/motd",
            Node::File(text_bytes("PICKLE OS :: capability-secured microkernel\n")),
        );
        r
    }

    /// Puts a node at a path.
    fn put(&mut self, path: &str, node: Node)
        requires
            old(self).wf(),
        ensures
            final(self).wf(),
            final(self)@ == old(self)@.insert(path@, node@),
    {
        let ghost n = node@;
        self.nodes.insert(path, node);
        assert(self@ =~= old(self)@.insert(path@, n));
    }

    /// Checks that the parent of a path is a directory.
    fn check_parent(&self, path: &str) -> (r: Result<(), FsError>)
        requires
            self.wf(),
        ensures
            r == parent_ok(self@, path@),
    {
        let (parent, _) = split_path(path);
        match self.nodes.get(parent) {
            None => Err(FsError::NotFound),
            Some(Node::Dir) => Ok(()),
            Some(Node::File(_)) => Err(FsError::NotADirectory),
        }
    }

    /// Puts a new node at a path.
    fn add(&mut self, path: &str, node: Node) -> (r: Result<(), FsError>)
        requires
            old(self).wf(),
        ensures
            final(self).wf(),
            (r, final(self)@) == create_s(old(self)@, path@, node@),
    {
        let p = match normalize(path) {
            Ok(p) => p,
            Err(e) => return Err(e),
        };
        if self.nodes.contains(p) {
            return Err(FsError::AlreadyExists);
        }
        match self.check_parent(p) {
            Ok(_) => {},
            Err(e) => return Err(e),
        }
        self.put(p, node);
        Ok(())
    }

    /// Creates an empty file. The path is to be new, and its parent a directory.
    pub fn create(&mut self, path: &str) -> (r: Result<(), FsError>)
        requires
            old(self).wf(),
        ensures
            final(self).wf(),
            (r, final(self)@) == create_s(old(self)@, path@, NodeView::File(Seq::empty())),
    {
        let node = Node::File(Vec::new());
        assert(node@ == NodeView::File(Seq::empty()));
        self.add(path, node)
    }

    /// Creates a directory.
    pub fn mkdir(&mut self, path: &str) -> (r: Result<(), FsError>)
        requires
            old(self).wf(),
        ensures
            final(self).wf(),
            (r, final(self)@) == create_s(old(self)@, path@, NodeView::Dir),
    {
        self.add(path, Node::Dir)
    }

    /// Writes a whole file, creating it if there is none.
    pub fn write(&mut self, path: &str, data: &[u8]) -> (r: Result<usize, FsError>)
        requires
            old(self).wf(),
        ensures
            final(self).wf(),
            (r, final(self)@) == write_s(old(self)@, path@, data@),
    {
        let p = match normalize(path) {
            Ok(p) => p,
            Err(e) => return Err(e),
        };
        match self.nodes.get(p) {
            Some(Node::Dir) => return Err(FsError::IsADirectory),
            Some(Node::File(_)) => {},
            None => match self.check_parent(p) {
                Ok(_) => {},
                Err(e) => return Err(e),
            },
        }
        let n: usize = data.len();
        let copy = copy_range(data, 0, n);
        assert(copy@ =~= data@);
        self.put(p, Node::File(copy));
        Ok(n)
    }

    /// Reads a whole file.
    pub fn read(&self, path: &str) -> (r: Result<Vec<u8>, FsError>)
        requires
            self.wf(),
        ensures
            match r {
                Ok(data) => read_s(self@, path@) == Ok::<Seq<u8>, FsError>(data@),
                Err(e) => read_s(self@, path@) == Err::<Seq<u8>, FsError>(e),
            },
    {
        let p = match normalize(path) {
            Ok(p) => p,
            Err(e) => return Err(e),
        };
        match self.nodes.get(p) {
            Some(Node::File(data)) => {
                let n: usize = data.len();
                let copy = copy_range(data.as_slice(), 0, n);
                assert(copy@ =~= data@);
                assert(self@[p@] == NodeView::File(data@));
                Ok(copy)
            },
            Some(Node::Dir) => Err(FsError::IsADirectory),
            None => Err(FsError::NotFound),
        }
    }

    /// Lists the entries of a directory by name, in order.
    pub fn readdir(&self, path: &str) -> (r: Result<Vec<String>, FsError>)
        requires
            self.wf(),
        ensures
            match normalize_s(path@) {
                Err(e) => r is Err && r->Err_0 == e,
                Ok(p) => if !self@.contains_key(p) {
                    r is Err && r->Err_0 == FsError::NotFound
                } else if self@[p] !is Dir {
                    r is Err && r->Err_0 == FsError::NotADirectory
                } else {
                    &&& r is Ok
                    &&& ordered(contents(r->Ok_0@))
                    &&& forall|name: Seq<char>|
                        contents(r->Ok_0@).contains(name) <==> has_entry(self@, p, name)
                },
            },
    {
        let p = match normalize(path) {
            Ok(p) => p,
            Err(e) => return Err(e),
        };
        match self.nodes.get(p) {
            None => return Err(FsError::NotFound),
            Some(Node::File(_)) => return Err(FsError::NotADirectory),
            Some(Node::Dir) => {},
        }
        let names = self.nodes.names();
        let ghost all = contents(names@);
        let ghost pre = prefix_of(p@);
        let root = p.unicode_len() == 1 && p.get_char(0) == '/';
        let m: usize = p.unicode_len();
        proof {
            assert(root == (p@ == seq!['/'])) by {
                if root {
                    assert(p@ =~= seq!['/']);
                }
            }
        }
        let mut r: Vec<String> = Vec::new();
        let mut i: usize = 0;
        while i < names.len()
            invariant
                i <= names@.len(),
                all == contents(names@),
                ordered(all),
                pre == prefix_of(p@),
                root == (p@ == seq!['/']),
                m == p@.len(),
                entries_upto(contents(r@), all, pre, i as int),
            decreases names@.len() - i,
        {
            let key = names[i].as_str();
            assert(all[i as int] == key@);
            let n: usize = key.unicode_len();
            let ghost before = contents(r@);
            proof {
                lemma_entry(key@, pre);
            }
            if starts_with(key, p, root) {
                let pn: usize = if root {
                    m
                } else {
                    m + 1
                };
                let mut is_entry = n > pn;
                let mut k: usize = pn;
                while k < n
                    invariant
                        n == key@.len(),
                        pn <= k <= n,
                        is_entry == (n > pn && forall|j: int| pn <= j < k ==> key@[j] != '/'),
                    decreases n - k,
                {
                    if key.get_char(k) == '/' {
                        is_entry = false;
                    }
                    k = k + 1;
                }
                if is_entry {
                    let name = key.substring_char(pn, n).to_owned();
                    assert(name@ =~= key@.skip(pn as int));
                    r.push(name);
                    assert(contents(r@) =~= before.push(key@.skip(pn as int)));
                }
            }
            proof {
                lemma_entries_step(before, all, pre, i as int, contents(r@));
            }
            i = i + 1;
        }
        proof {
            lemma_entries_done(contents(r@), all, pre, self@, p@);
        }
        Ok(r)
    }

    /// Returns what there is to know of a path.
    pub fn stat(&self, path: &str) -> (r: Result<StatInfo, FsError>)
        requires
            self.wf(),
        ensures
            r == (match normalize_s(path@) {
                Err(e) => Err(e),
                Ok(p) => if !self@.contains_key(p) {
                    Err(FsError::NotFound)
                } else {
                    match self@[p] {
                        NodeView::File(data) => Ok(
                            StatInfo { size: data.len() as usize, is_dir: false },
                        ),
                        NodeView::Dir => Ok(StatInfo { size: 0, is_dir: true }),
                    }
                },
            }),
    {
        let p = match normalize(path) {
            Ok(p) => p,
            Err(e) => return Err(e),
        };
        match self.nodes.get(p) {
            Some(Node::File(data)) => {
                assert(self@[p@] == NodeView::File(data@));
                Ok(StatInfo { size: data.len(), is_dir: false })
            },
            Some(Node::Dir) => Ok(StatInfo { size: 0, is_dir: true }),
            None => Err(FsError::NotFound),
        }
    }

    /// Removes a file or an empty directory.
    pub fn remove(&mut self, path: &str) -> (r: Result<(), FsError>)
        requires
            old(self).wf(),
        ensures
            final(self).wf(),
            (r, final(self)@) == remove_s(old(self)@, path@),
    {
        let p = match normalize(path) {
            Ok(p) => p,
            Err(e) => return Err(e),
        };
        if p.unicode_len() == 1 && p.get_char(0) == '/' {
            assert(p@ =~= seq!['/']);
            return Err(FsError::InvalidPath);
        }
        match self.nodes.get(p) {
            None => return Err(FsError::NotFound),
            Some(Node::File(_)) => {},
            Some(Node::Dir) => {
                if self.any_below(p) {
                    return Err(FsError::NotADirectory);
                }
            },
        }
        self.nodes.remove(p);
        assert(self@ =~= old(self)@.remove(p@));
        Ok(())
    }

    /// Whether some path is below a directory.
    fn any_below(&self, p: &str) -> (r: bool)
        requires
            self.wf(),
        ensures
            r == has_children(self@, p@),
    {
        let names = self.nodes.names();
        let ghost all = contents(names@);
        let mut i: usize = 0;
        while i < names.len()
            invariant
                i <= names@.len(),
                all == contents(names@),
                forall|k: Seq<char>| self.nodes@.contains_key(k) <==> #[trigger] all.contains(k),
                forall|j: int| 0 <= j < i ==> !p@.push('/').is_prefix_of(#[trigger] all[j]),
            decreases names@.len() - i,
        {
            assert(all[i as int] == names@[i as int]@);
            if starts_with(names[i].as_str(), p, false) {
                assert(all.contains(all[i as int]));
                assert(self@.contains_key(all[i as int]));
                return true;
            }
            i = i + 1;
        }
        proof {
            if has_children(self@, p@) {
                let k = choose|k: Seq<char>| #[trigger]
                    self@.contains_key(k) && p@.push('/').is_prefix_of(k);
                assert(all.contains(k));
                let j = choose|j: int| 0 <= j < all.len() && all[j] == k;
                assert(!p@.push('/').is_prefix_of(all[j]));
            }
        }
        false
    }
}

/// Whether a path begins with that of a directory and, unless it is the root, a
/// slash.
fn starts_with(key: &str, p: &str, root: bool) -> (r: bool)
    ensures
        r == (if root {
            p@
        } else {
            p@.push('/')
        }).is_prefix_of(key@),
{
    let n: usize = key.unicode_len();
    let m: usize = p.unicode_len();
    let ghost pre = if root {
        p@
    } else {
        p@.push('/')
    };
    let mut i: usize = 0;
    while i < m
        invariant
            n == key@.len(),
            m == p@.len(),
            i <= m,
            i <= n,
            forall|j: int| 0 <= j < i ==> key@[j] == p@[j],
            pre == (if root {
                p@
            } else {
                p@.push('/')
            }),
        decreases m - i,
    {
        if i >= n || key.get_char(i) != p.get_char(i) {
            proof {
                if pre.is_prefix_of(key@) {
                    assert(key@.take(pre.len() as int)[i as int] == pre[i as int]);
                }
            }
            return false;
        }
        i = i + 1;
    }
    if root {
        assert(key@.take(m as int) =~= p@);
        return true;
    }
    if m >= n || key.get_char(m) != '/' {
        proof {
            if pre.is_prefix_of(key@) {
                assert(key@.take(pre.len() as int)[m as int] == pre[m as int]);
            }
        }
        return false;
    }
    assert(key@.take(m + 1) =~= pre);
    true
}

/// Whether a path is that of an entry of the directory whose paths begin with
/// `pre`.
spec fn is_entry_of(key: Seq<char>, pre: Seq<char>) -> bool {
    pre.is_prefix_of(key) && key.len() > pre.len() && !key.skip(pre.len() as int).contains('/')
}

/// The names of the entries among the first `n` of some paths.
spec fn entries_upto(r: Seq<Seq<char>>, all: Seq<Seq<char>>, pre: Seq<char>, n: int) -> bool {
    &&& ordered(r)
    &&& forall|name: Seq<char>| #[trigger]
        r.contains(name) <==> exists|j: int|
            0 <= j < n && #[trigger] all[j] == pre + name && is_entry_of(all[j], pre)
}

proof fn lemma_entry(key: Seq<char>, pre: Seq<char>)
    ensures
        is_entry_of(key, pre) <==> {
            &&& key.len() > pre.len()
            &&& pre.is_prefix_of(key)
            &&& forall|j: int| pre.len() <= j < key.len() ==> key[j] != '/'
        },
        pre.is_prefix_of(key) ==> key == pre + key.skip(pre.len() as int),
{
    let t = key.skip(pre.len() as int);
    if pre.is_prefix_of(key) {
        assert(key.take(pre.len() as int) == pre);
        assert(key =~= pre + t);
        if forall|j: int| pre.len() <= j < key.len() ==> key[j] != '/' {
            assert forall|j: int| 0 <= j < t.len() implies t[j] != '/' by {
                assert(t[j] == key[pre.len() + j]);
            }
        }
        if !t.contains('/') {
            assert forall|j: int| pre.len() <= j < key.len() implies key[j] != '/' by {
                assert(t[j - pre.len()] == key[j]);
                assert(t.contains(t[j - pre.len()]));
            }
        }
    }
}

proof fn lemma_append_less(pre: Seq<char>, a: Seq<char>, b: Seq<char>)
    requires
        crate::names::text_less(pre + a, pre + b),
    ensures
        crate::names::text_less(a, b),
    decreases pre.len(),
{
    if pre.len() == 0 {
        assert(pre + a =~= a);
        assert(pre + b =~= b);
    } else {
        assert((pre + a).skip(1) =~= pre.skip(1) + a);
        assert((pre + b).skip(1) =~= pre.skip(1) + b);
        lemma_append_less(pre.skip(1), a, b);
    }
}

proof fn lemma_entries_step(
    before: Seq<Seq<char>>,
    all: Seq<Seq<char>>,
    pre: Seq<char>,
    n: int,
    after: Seq<Seq<char>>,
)
    requires
        entries_upto(before, all, pre, n),
        ordered(all),
        0 <= n < all.len(),
        is_entry_of(all[n], pre) ==> after == before.push(all[n].skip(pre.len() as int)),
        !is_entry_of(all[n], pre) ==> after == before,
    ensures
        entries_upto(after, all, pre, n + 1),
{
    let last = all[n].skip(pre.len() as int);
    lemma_entry(all[n], pre);
    assert(ordered(after)) by {
        assert forall|i: int, j: int| 0 <= i < j < after.len() implies crate::names::text_less(
            #[trigger] after[i],
            #[trigger] after[j],
        ) by {
            if j < before.len() {
                assert(crate::names::text_less(before[i], before[j]));
            } else {
                assert(before.contains(before[i]));
                let q = choose|q: int|
                    0 <= q < n && #[trigger] all[q] == pre + before[i] && is_entry_of(all[q], pre);
                assert(crate::names::text_less(all[q], all[n]));
                lemma_append_less(pre, before[i], last);
            }
        }
    }
    assert forall|name: Seq<char>| #[trigger] after.contains(name) <==> exists|j: int|
        0 <= j < n + 1 && #[trigger] all[j] == pre + name && is_entry_of(all[j], pre) by {
        if after.contains(name) {
            let i = choose|i: int| 0 <= i < after.len() && after[i] == name;
            if i < before.len() {
                assert(before.contains(before[i]));
                let q = choose|q: int|
                    0 <= q < n && #[trigger] all[q] == pre + name && is_entry_of(all[q], pre);
                assert(0 <= q < n + 1);
            } else {
                assert(all[n] == pre + name);
            }
        }
        if exists|j: int|
            0 <= j < n + 1 && #[trigger] all[j] == pre + name && is_entry_of(all[j], pre) {
            let j = choose|j: int|
                0 <= j < n + 1 && #[trigger] all[j] == pre + name && is_entry_of(all[j], pre);
            if j < n {
                assert(before.contains(name));
                let i = choose|i: int| 0 <= i < before.len() && before[i] == name;
                assert(after[i] == name);
            } else {
                assert((pre + name).skip(pre.len() as int) =~= name);
                assert(after[before.len() as int] == name);
            }
        }
    }
}

proof fn lemma_entries_done(
    r: Seq<Seq<char>>,
    all: Seq<Seq<char>>,
    pre: Seq<char>,
    m: Nodes,
    p: Seq<char>,
)
    requires
        entries_upto(r, all, pre, all.len() as int),
        pre == prefix_of(p),
        forall|k: Seq<char>| m.contains_key(k) <==> #[trigger] all.contains(k),
    ensures
        forall|name: Seq<char>| r.contains(name) <==> has_entry(m, p, name),
{
    assert forall|name: Seq<char>| r.contains(name) <==> has_entry(m, p, name) by {
        let key = pre + name;
        assert(key.skip(pre.len() as int) =~= name);
        assert(key.take(pre.len() as int) =~= pre);
        if r.contains(name) {
            let j = choose|j: int|
                0 <= j < all.len() && #[trigger] all[j] == pre + name && is_entry_of(all[j], pre);
            assert(all.contains(all[j]));
        }
        if has_entry(m, p, name) {
            assert(all.contains(key));
            let j = choose|j: int| 0 <= j < all.len() && all[j] == key;
            assert(is_entry_of(all[j], pre));
        }
    }
}

/// What was written to a file is read from it.
pub proof fn law_write_then_read(m: Nodes, path: Seq<char>, data: Seq<u8>)
    requires
        write_s(m, path, data).0 is Ok,
    ensures
        read_s(write_s(m, path, data).1, path) == Ok::<Seq<u8>, FsError>(data),
{
}

/// Writing a file leaves all other files as they are.
pub proof fn law_write_keeps_others(m: Nodes, path: Seq<char>, data: Seq<u8>, other: Seq<char>)
    requires
        normalize_s(other) != normalize_s(path),
    ensures
        read_s(write_s(m, path, data).1, other) == read_s(m, other),
{
}

/// What was removed is not found.
pub proof fn law_remove_then_read(m: Nodes, path: Seq<char>)
    requires
        remove_s(m, path).0 is Ok,
    ensures
        read_s(remove_s(m, path).1, path) == Err::<Seq<u8>, FsError>(FsError::NotFound),
{
}

/// A file or directory that was created is an entry of its parent, unless its
/// path begins with two slashes and has no other.
pub proof fn law_created_is_listed(m: Nodes, path: Seq<char>, node: NodeView)
    requires
        create_s(m, path, node).0 is Ok,
        crate::fs::path::name_of(normalize_s(path)->Ok_0).len() > 0,
        crate::fs::path::last_slash(normalize_s(path)->Ok_0) != 1,
    ensures
        ({
            let p = normalize_s(path)->Ok_0;
            let m1 = create_s(m, path, node).1;
            has_entry(m1, parent_of(p), crate::fs::path::name_of(p))
        }),
{
    let p = normalize_s(path)->Ok_0;
    lemma_without_slashes(path);
    assert(p[0] == '/');
    lemma_parent_and_name(p);
}

proof fn lemma_parent_and_name(p: Seq<char>)
    requires
        p.len() > 0,
        p[0] == '/',
        crate::fs::path::last_slash(p) != 1,
    ensures
        prefix_of(parent_of(p)) + crate::fs::path::name_of(p) == p,
        !crate::fs::path::name_of(p).contains('/'),
{
    crate::fs::path::law_split_path(p);
    crate::fs::path::lemma_last_slash(p);
    let d = parent_of(p);
    let n = crate::fs::path::name_of(p);
    let at = crate::fs::path::last_slash(p);
    if at > 0 {
        assert(d.len() == at);
        assert(seq!['/'].len() == 1);
        assert(d.push('/') =~= d + seq!['/']);
    } else {
        assert(at == 0) by {
            if at < 0 {
                assert(p[0] != '/');
            }
        }
        assert(prefix_of(d) == d);
    }
}

proof fn lemma_without_slashes(s: Seq<char>)
    ensures
        without_slashes(s).len() <= s.len(),
        without_slashes(s).len() > 0 ==> without_slashes(s).last() != '/',
        forall|i: int|
            0 <= i < without_slashes(s).len() ==> #[trigger] without_slashes(s)[i] == s[i],
    decreases s.len(),
{
    if s.len() > 0 && s.last() == '/' {
        let t = s.drop_last();
        lemma_without_slashes(t);
        assert forall|i: int| 0 <= i < without_slashes(s).len() implies #[trigger] without_slashes(
            s,
        )[i] == s[i] by {
            assert(without_slashes(t)[i] == t[i]);
        }
    }
}

} // verus!
