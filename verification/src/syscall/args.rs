//! Arguments that lie in the caller's memory: string vectors, socket addresses
//! and window descriptions.

use super::{in_user_space, is_user_pointer, AF_INET};
use crate::bytes::{le32, push_u32, utf8_text};
use vstd::prelude::*;
use vstd::utf8::{decode_utf8, valid_utf8};

verus! {

/// How many strings of a vector are read at most.
pub const MAX_ENTRIES: usize = 64;

/// How many bytes of a string are read at most.
pub const MAX_STR_LEN: usize = 256;

/// Whether `len` bytes `off` behind an address can be read: they are within the
/// address space, and for user tasks within user space.
pub open spec fn reach(user: bool, ptr: u64, off: int, len: int) -> bool {
    &&& ptr + off + len <= u64::MAX
    &&& user ==> in_user_space((ptr + off) as u64, len as u64)
}

/// Whether `len` bytes `off` behind an address can be read.
fn can_reach(user: bool, ptr: u64, off: u64, len: u64) -> (r: bool)
    requires
        off <= 0x1000,
        len <= 8,
    ensures
        r == reach(user, ptr, off as int, len as int),
{
    ptr <= u64::MAX - off - len && (!user || is_user_pointer(ptr + off, len))
}

/// The text of a string; one that is not valid UTF-8 counts as empty.
pub open spec fn text_s(t: Seq<u8>) -> Seq<char> {
    if valid_utf8(t) {
        decode_utf8(t)
    } else {
        Seq::empty()
    }
}

/// A string in memory of which `t` was read: it ends at a zero byte, where it
/// gets too long, and where memory cannot be read.
pub open spec fn string_at(bytes: spec_fn(u64) -> u8, user: bool, ptr: u64, t: Seq<u8>) -> Seq<u8>
    decreases MAX_STR_LEN - t.len(),
{
    if t.len() >= MAX_STR_LEN || !reach(user, ptr, t.len() as int, 1) {
        t
    } else {
        let b = bytes((ptr + t.len()) as u64);
        if b == 0 {
            t
        } else {
            string_at(bytes, user, ptr, t.push(b))
        }
    }
}

/// The strings of a vector in memory from entry `i` on: it ends at a null
/// pointer, where there are too many, and where memory cannot be read.
pub open spec fn strings_at(
    words: spec_fn(u64) -> u64,
    bytes: spec_fn(u64) -> u8,
    user: bool,
    base: u64,
    i: int,
) -> Seq<Seq<char>>
    decreases MAX_ENTRIES - i,
{
    if i >= MAX_ENTRIES || !reach(user, base, 8 * i, 8) {
        Seq::empty()
    } else {
        let ptr = words((base + 8 * i) as u64);
        if ptr == 0 || !reach(user, ptr, 0, 1) {
            Seq::empty()
        } else {
            seq![text_s(string_at(bytes, user, ptr, Seq::empty()))] + strings_at(
                words,
                bytes,
                user,
                base,
                i + 1,
            )
        }
    }
}

/// What the walk through a vector reads next.
#[derive(Debug, Clone, Copy, PartialEq, Eq, Structural)]
pub enum Want {
    /// The eight bytes at this address.
    Word(u64),
    /// The byte at this address.
    Byte(u64),
    /// Nothing more.
    Done,
}

/// A walk through a vector of strings.
pub struct StringWalk {
    base: u64,
    user: bool,
    i: usize,
    ptr: u64,
    text: Option<Vec<u8>>,
    out: Vec<String>,
    done: bool,
}

/// A walk through a vector of strings: at which entry it is, the string that it
/// is reading with where it begins, and what it has read.
#[verifier::ext_equal]
pub struct WalkView {
    pub base: u64,
    pub user: bool,
    pub i: int,
    pub string: Option<(u64, Seq<u8>)>,
    pub out: Seq<Seq<char>>,
    pub done: bool,
}

/// What the walk reads next.
pub open spec fn want_s(v: WalkView) -> Want {
    if v.done {
        Want::Done
    } else {
        match v.string {
            None => Want::Word((v.base + 8 * v.i) as u64),
            Some((ptr, t)) => Want::Byte((ptr + t.len()) as u64),
        }
    }
}

/// The walk at its next entry; it ends where there is none.
pub open spec fn at_entry(v: WalkView) -> WalkView {
    WalkView { done: v.i >= MAX_ENTRIES || !reach(v.user, v.base, 8 * v.i, 8), ..v }
}

/// The beginning of a walk.
pub open spec fn walk_s(base: u64, user: bool) -> WalkView {
    let v = WalkView {
        base,
        user,
        i: 0,
        string: None,
        out: Seq::empty(),
        done: true,
    };
    if base == 0 {
        v
    } else {
        at_entry(v)
    }
}

/// The walk after a string was read.
pub open spec fn string_done(v: WalkView, t: Seq<u8>) -> WalkView {
    at_entry(WalkView { i: v.i + 1, string: None, out: v.out.push(text_s(t)), ..v })
}

/// The walk after an entry was read.
pub open spec fn word_s(v: WalkView, ptr: u64) -> WalkView {
    if ptr == 0 || !reach(v.user, ptr, 0, 1) {
        WalkView { done: true, ..v }
    } else {
        WalkView { string: Some((ptr, Seq::empty())), ..v }
    }
}

/// The walk after a byte was read.
pub open spec fn byte_s(v: WalkView, b: u8) -> WalkView {
    let (ptr, t) = v.string->Some_0;
    if b == 0 {
        string_done(v, t)
    } else {
        let u = t.push(b);
        if u.len() >= MAX_STR_LEN || !reach(v.user, ptr, u.len() as int, 1) {
            string_done(v, u)
        } else {
            WalkView { string: Some((ptr, u)), ..v }
        }
    }
}

/// The walk reads only what it may.
pub open spec fn walk_ok(v: WalkView) -> bool {
    &&& 0 <= v.i <= MAX_ENTRIES
    &&& !v.done ==> v.i < MAX_ENTRIES && match v.string {
        None => reach(v.user, v.base, 8 * v.i, 8),
        Some((ptr, t)) => t.len() < MAX_STR_LEN && reach(v.user, ptr, t.len() as int, 1),
    }
}

impl StringWalk {
    pub closed spec fn view(&self) -> WalkView {
        WalkView {
            base: self.base,
            user: self.user,
            i: self.i as int,
            string: match self.text {
                Some(t) => Some((self.ptr, t@)),
                None => None,
            },
            out: crate::text::contents(self.out@),
            done: self.done,
        }
    }

    /// Begins to walk through the vector at `base`; a null vector is empty.
    pub fn begin(base: u64, user: bool) -> (r: StringWalk)
        ensures
            r@ == walk_s(base, user),
            walk_ok(r@),
    {
        let done = base == 0 || !can_reach(user, base, 0, 8);
        let r = StringWalk { base, user, i: 0, ptr: 0, text: None, out: Vec::new(), done };
        assert(r@ =~= walk_s(base, user));
        r
    }

    /// What to read next.
    pub fn want(&self) -> (r: Want)
        requires
            walk_ok(self@),
        ensures
            r == want_s(self@),
    {
        if self.done {
            Want::Done
        } else {
            match &self.text {
                None => Want::Word(self.base + 8 * self.i as u64),
                Some(t) => Want::Byte(self.ptr + t.len() as u64),
            }
        }
    }

    /// Goes on with the next entry.
    fn next_entry(&mut self)
        requires
            0 <= old(self)@.i <= MAX_ENTRIES,
            old(self)@.string is None,
        ensures
            final(self)@ == at_entry(old(self)@),
            walk_ok(final(self)@),
    {
        self.done = self.i >= MAX_ENTRIES || !can_reach(
            self.user,
            self.base,
            8 * self.i as u64,
            8,
        );
        assert(self@ =~= at_entry(old(self)@));
    }

    /// Takes the entry that was read.
    pub fn word(&mut self, ptr: u64)
        requires
            walk_ok(old(self)@),
            want_s(old(self)@) is Word,
        ensures
            final(self)@ == word_s(old(self)@, ptr),
            walk_ok(final(self)@),
    {
        if ptr == 0 || !can_reach(self.user, ptr, 0, 1) {
            self.done = true;
        } else {
            self.ptr = ptr;
            let t: Vec<u8> = Vec::new();
            assert(t@ =~= Seq::<u8>::empty());
            self.text = Some(t);
        }
        assert(self@ =~= word_s(old(self)@, ptr));
    }

    /// Takes the byte that was read.
    pub fn byte(&mut self, b: u8)
        requires
            walk_ok(old(self)@),
            want_s(old(self)@) is Byte,
        ensures
            final(self)@ == byte_s(old(self)@, b),
            walk_ok(final(self)@),
    {
        let mut t: Vec<u8> = match self.text.take() {
            Some(t) => t,
            None => Vec::new(),
        };
        let ghost v = old(self)@;
        let mut over = b == 0;
        if b != 0 {
            t.push(b);
            over = t.len() >= MAX_STR_LEN || !can_reach(self.user, self.ptr, t.len() as u64, 1);
        }
        if over {
            let s: String = match utf8_text(t.as_slice()) {
                Some(s) => s.to_owned(),
                None => {
                    let e = String::new();
                    assert(e@ =~= Seq::<char>::empty());
                    e
                },
            };
            let ghost before = self.out@;
            self.out.push(s);
            assert(crate::text::contents(self.out@) =~= v.out.push(text_s(t@)));
            self.i = self.i + 1;
            self.next_entry();
            assert(self@ =~= byte_s(v, b));
        } else {
            self.text = Some(t);
            assert(self@ =~= byte_s(v, b));
        }
    }

    /// The strings that were read.
    pub fn strings(self) -> (r: Vec<String>)
        ensures
            crate::text::contents(r@) == self@.out,
    {
        self.out
    }
}

/// What a walk will have read when it is done, if memory answers as it does.
pub open spec fn outlook(
    v: WalkView,
    words: spec_fn(u64) -> u64,
    bytes: spec_fn(u64) -> u8,
) -> Seq<Seq<char>> {
    if v.done {
        v.out
    } else {
        match v.string {
            None => v.out + strings_at(words, bytes, v.user, v.base, v.i),
            Some((ptr, t)) => v.out.push(text_s(string_at(bytes, v.user, ptr, t))) + strings_at(
                words,
                bytes,
                v.user,
                v.base,
                v.i + 1,
            ),
        }
    }
}

/// How much a walk may still read.
pub open spec fn walk_rank(v: WalkView) -> int {
    if v.done {
        0
    } else {
        (MAX_ENTRIES - v.i) * (MAX_STR_LEN + 2) - match v.string {
            None => 0,
            Some((_, t)) => t.len() + 1,
        }
    }
}

/// A walk ends up with the strings of the vector: at its beginning they are what
/// it will have read, and no step changes that.
pub proof fn law_walk_reads_the_strings(
    v: WalkView,
    words: spec_fn(u64) -> u64,
    bytes: spec_fn(u64) -> u8,
)
    requires
        walk_ok(v),
    ensures
        v == walk_s(v.base, v.user) && v.base != 0 ==> outlook(v, words, bytes) == strings_at(
            words,
            bytes,
            v.user,
            v.base,
            0,
        ),
        want_s(v) matches Want::Word(a) ==> outlook(word_s(v, words(a)), words, bytes) == outlook(
            v,
            words,
            bytes,
        ),
        want_s(v) matches Want::Byte(a) ==> outlook(byte_s(v, bytes(a)), words, bytes) == outlook(
            v,
            words,
            bytes,
        ),
{
    assert(Seq::<Seq<char>>::empty() + strings_at(words, bytes, v.user, v.base, 0) =~= strings_at(
        words,
        bytes,
        v.user,
        v.base,
        0,
    ));
    if !v.done {
        match v.string {
            None => {
                let a = (v.base + 8 * v.i) as u64;
                let p = words(a);
                assert(outlook(word_s(v, p), words, bytes) =~= outlook(v, words, bytes));
            },
            Some((ptr, t)) => {
                reveal_with_fuel(string_at, 2);
                let a = (ptr + t.len()) as u64;
                let b = bytes(a);
                assert(outlook(byte_s(v, b), words, bytes) =~= outlook(v, words, bytes));
            },
        }
    }
}

/// A walk ends, whatever memory holds, and reads only what the caller may read.
pub proof fn law_walk_is_bounded(v: WalkView, w: u64, b: u8)
    requires
        walk_ok(v),
    ensures
        0 <= walk_rank(v) <= MAX_ENTRIES * (MAX_STR_LEN + 2),
        want_s(v) matches Want::Word(a) ==> walk_rank(word_s(v, w)) < walk_rank(v) && (v.user
            ==> in_user_space(a, 8)),
        want_s(v) matches Want::Byte(a) ==> walk_rank(byte_s(v, b)) < walk_rank(v) && (v.user
            ==> in_user_space(a, 1)),
{
}

/// A socket address: port and internet address, both in network order behind the
/// family.
pub fn socket_address(addr: &[u8]) -> (r: ([u8; 4], u16))
    requires
        addr@.len() >= 8,
    ensures
        r.0@ == addr@.subrange(4, 8),
        r.1 == 256 * addr@[2] + addr@[3],
{
    let ip = [addr[4], addr[5], addr[6], addr[7]];
    assert(ip@ =~= addr@.subrange(4, 8));
    (ip, 256 * addr[2] as u16 + addr[3] as u16)
}

/// The first bytes of a peer's address, as accept writes them: they are zero but
/// for the family where the peer is not known.
pub open spec fn peer_bytes_s(peer: Option<(Seq<u8>, u16)>) -> Seq<u8> {
    match peer {
        Some((ip, port)) => seq![AF_INET as u8, 0, (port / 256) as u8, (port % 256) as u8] + ip,
        None => seq![AF_INET as u8, 0, 0, 0, 0, 0, 0, 0],
    }
}

/// The first bytes of a peer's address.
pub fn peer_bytes(peer: Option<([u8; 4], u16)>) -> (r: Vec<u8>)
    ensures
        r@ == peer_bytes_s(
            match peer {
                Some((ip, port)) => Some((ip@, port)),
                None => None,
            },
        ),
        r@.len() == 8,
{
    let mut out: Vec<u8> = Vec::new();
    out.push(AF_INET as u8);
    out.push(0);
    match peer {
        Some((ip, port)) => {
            out.push((port / 256) as u8);
            out.push((port % 256) as u8);
            let mut i: usize = 0;
            assert(out@ =~= seq![AF_INET as u8, 0, (port / 256) as u8, (port % 256) as u8]
                + ip@.take(0));
            while i < 4
                invariant
                    i <= 4,
                    out@ == seq![AF_INET as u8, 0, (port / 256) as u8, (port % 256) as u8]
                        + ip@.take(i as int),
                decreases 4 - i,
            {
                out.push(ip[i]);
                i = i + 1;
                assert(out@ =~= seq![AF_INET as u8, 0, (port / 256) as u8, (port % 256) as u8]
                    + ip@.take(i as int));
            }
            assert(ip@.take(4) =~= ip@);
        },
        None => {
            crate::bytes::push_fill(&mut out, 0, 6);
            assert(out@ =~= seq![AF_INET as u8, 0, 0, 0, 0, 0, 0, 0]);
        },
    }
    out
}

/// An address that accept reports is read back by connect.
pub proof fn law_peer_address_reads_back(ip: Seq<u8>, port: u16)
    requires
        ip.len() == 4,
    ensures
        ({
            let b = peer_bytes_s(Some((ip, port)));
            b.subrange(4, 8) == ip && port == 256 * b[2] + b[3]
        }),
{
    let b = peer_bytes_s(Some((ip, port)));
    assert(b.subrange(4, 8) =~= ip);
}

/// The local port of an outgoing connection.
pub fn ephemeral_port(socket_id: u32) -> (r: u16)
    ensures
        r == 49152 + (socket_id as u16) % 10000,
        49152 <= r <= 59151,
{
    49152 + (socket_id as u16) % 10000
}

/// How accept waits for a connection: it looks again until it gives up.
pub fn accept_waits(ready: bool, spins: u64) -> (r: Option<bool>)
    ensures
        r == (if ready {
            Some(true)
        } else if spins + 1 >= 50_000_000 {
            Some(false)
        } else {
            None
        }),
{
    if ready {
        Some(true)
    } else if spins >= 49_999_999 {
        Some(false)
    } else {
        None
    }
}

/// Size and position of a window, as the caller's memory gets them.
pub fn window_bytes(w: u32, h: u32, x: u32, y: u32) -> (r: Vec<u8>)
    ensures
        r@ == le32(w) + le32(h) + le32(x) + le32(y),
{
    let mut out: Vec<u8> = Vec::new();
    push_u32(&mut out, w);
    assert(out@ =~= le32(w));
    push_u32(&mut out, h);
    push_u32(&mut out, x);
    push_u32(&mut out, y);
    out
}

/// The title of a window; without a readable one it is called a window.
pub fn window_title(title: Option<&[u8]>) -> (r: &str)
    ensures
        r@ == (match title {
            Some(t) => if valid_utf8(t@) {
                decode_utf8(t@)
            } else {
                "window"@
            },
            None => "window"@,
        }),
{
    match title {
        Some(t) => match utf8_text(t) {
            Some(s) => s,
            None => "window",
        },
        None => "window",
    }
}

} // verus!
