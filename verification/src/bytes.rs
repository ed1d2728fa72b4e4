//! Little-endian encodings, byte-string splicing and text helpers.

use vstd::prelude::*;
use vstd::utf8::{decode_utf8, encode_utf8, valid_utf8};

verus! {

/// The two bytes of `x`, least significant first.
pub open spec fn le16(x: u16) -> Seq<u8> {
    seq![(x % 256) as u8, (x / 256) as u8]
}

/// The four bytes of `x`, least significant first.
pub open spec fn le32(x: u32) -> Seq<u8> {
    seq![
        (x % 256) as u8,
        (x / 256 % 256) as u8,
        (x / 65536 % 256) as u8,
        (x / 16777216) as u8,
    ]
}

/// The eight bytes of `x`, least significant first.
pub open spec fn le64(x: u64) -> Seq<u8> {
    le32((x % 0x1_0000_0000) as u32) + le32((x / 0x1_0000_0000) as u32)
}

/// The 16-bit number stored at `off`.
pub open spec fn get16(s: Seq<u8>, off: int) -> u16 {
    (s[off] + 256 * s[off + 1]) as u16
}

/// The 32-bit number stored at `off`.
pub open spec fn get32(s: Seq<u8>, off: int) -> u32 {
    (s[off] + 256 * s[off + 1] + 65536 * s[off + 2] + 16777216 * s[off + 3]) as u32
}

/// The 64-bit number stored at `off`.
pub open spec fn get64(s: Seq<u8>, off: int) -> u64 {
    (get32(s, off) + 0x1_0000_0000 * get32(s, off + 4)) as u64
}

/// `s` with the bytes from `off` on replaced by `d`.
pub open spec fn patch(s: Seq<u8>, off: int, d: Seq<u8>) -> Seq<u8> {
    s.subrange(0, off) + d + s.subrange(off + d.len(), s.len() as int)
}

/// `n` zero bytes.
pub open spec fn zeros(n: nat) -> Seq<u8> {
    Seq::new(n, |i: int| 0u8)
}

/// A 16-bit number reads back from where it was written.
pub proof fn lemma_get16(s: Seq<u8>, off: int, x: u16)
    requires
        0 <= off,
        off + 2 <= s.len(),
        s.subrange(off, off + 2) == le16(x),
    ensures
        get16(s, off) == x,
{
    assert(s[off] == s.subrange(off, off + 2)[0]);
    assert(s[off + 1] == s.subrange(off, off + 2)[1]);
}

/// A 32-bit number reads back from where it was written.
pub proof fn lemma_get32(s: Seq<u8>, off: int, x: u32)
    requires
        0 <= off,
        off + 4 <= s.len(),
        s.subrange(off, off + 4) == le32(x),
    ensures
        get32(s, off) == x,
{
    let t = s.subrange(off, off + 4);
    assert(s[off] == t[0] && s[off + 1] == t[1] && s[off + 2] == t[2] && s[off + 3] == t[3]);
}

/// A 64-bit number reads back from where it was written.
pub proof fn lemma_get64(s: Seq<u8>, off: int, x: u64)
    requires
        0 <= off,
        off + 8 <= s.len(),
        s.subrange(off, off + 8) == le64(x),
    ensures
        get64(s, off) == x,
{
    let lo = (x % 0x1_0000_0000) as u32;
    let hi = (x / 0x1_0000_0000) as u32;
    let t = s.subrange(off, off + 8);
    assert(s.subrange(off, off + 4) =~= t.subrange(0, 4));
    assert(t.subrange(0, 4) =~= le32(lo));
    assert(s.subrange(off + 4, off + 8) =~= t.subrange(4, 8));
    assert(t.subrange(4, 8) =~= le32(hi));
    lemma_get32(s, off, lo);
    lemma_get32(s, off + 4, hi);
}

/// A 32-bit number is made of its digits.
pub proof fn lemma_parts32(x: u32)
    ensures
        x == x % 256 + 256 * (x / 256 % 256) + 65536 * (x / 65536 % 256) + 16777216 * (x
            / 16777216),
{
}

/// The number that `n` bytes from `at` on stand for, least significant first.
pub open spec fn number(s: Seq<u8>, at: int, n: nat) -> int
    decreases n,
{
    if n == 0 {
        0
    } else {
        s[at] + 0x100 * number(s, at + 1, (n - 1) as nat)
    }
}

/// Eight bytes stand for the number that they were made of.
pub proof fn lemma_number64(s: Seq<u8>, at: int, x: u64)
    requires
        0 <= at,
        at + 8 <= s.len(),
        s.subrange(at, at + 8) == le64(x),
    ensures
        number(s, at, 8) == x,
{
    reveal_with_fuel(number, 9);
    let t = s.subrange(at, at + 8);
    assert(s[at] == t[0] && s[at + 1] == t[1] && s[at + 2] == t[2] && s[at + 3] == t[3]);
    assert(s[at + 4] == t[4] && s[at + 5] == t[5] && s[at + 6] == t[6] && s[at + 7] == t[7]);
    let lo = (x % 0x1_0000_0000) as u32;
    let hi = (x / 0x1_0000_0000) as u32;
    lemma_parts32(lo);
    lemma_parts32(hi);
}

/// Four bytes stand for the number that they were made of.
pub proof fn lemma_number32(s: Seq<u8>, at: int, x: u32)
    requires
        0 <= at,
        at + 4 <= s.len(),
        s.subrange(at, at + 4) == le32(x),
    ensures
        number(s, at, 4) == x,
{
    reveal_with_fuel(number, 5);
    let t = s.subrange(at, at + 4);
    assert(s[at] == t[0] && s[at + 1] == t[1] && s[at + 2] == t[2] && s[at + 3] == t[3]);
    lemma_parts32(x);
}

/// The same bytes stand for the same number.
pub proof fn lemma_number_same(s: Seq<u8>, t: Seq<u8>, at: int, n: nat)
    requires
        0 <= at,
        at + n <= s.len(),
        at + n <= t.len(),
        forall|k: int| 0 <= k < t.len() ==> s[k] == t[k],
    ensures
        number(s, at, n) == number(t, at, n),
    decreases n,
{
    if n > 0 {
        lemma_number_same(s, t, at + 1, (n - 1) as nat);
    }
}

/// Reading numbers of two, four and eight bytes gives what they stand for.
pub proof fn lemma_numbers(s: Seq<u8>, at: int)
    ensures
        get16(s, at) == number(s, at, 2),
        get32(s, at) == number(s, at, 4),
        get64(s, at) == number(s, at, 8),
{
    reveal_with_fuel(number, 9);
}

/// Reads the 16-bit number at `off`.
pub fn read_u16(s: &[u8], off: usize) -> (x: u16)
    requires
        off + 2 <= s@.len(),
    ensures
        x == get16(s@, off as int),
{
    s[off] as u16 + 256 * (s[off + 1] as u16)
}

/// Reads the 32-bit number at `off`.
pub fn read_u32(s: &[u8], off: usize) -> (x: u32)
    requires
        off + 4 <= s@.len(),
    ensures
        x == get32(s@, off as int),
{
    s[off] as u32 + 256 * (s[off + 1] as u32) + 65536 * (s[off + 2] as u32) + 16777216 * (
    s[off + 3] as u32)
}

/// Reads the 64-bit number at `off`.
pub fn read_u64(s: &[u8], off: usize) -> (x: u64)
    requires
        off + 8 <= s@.len(),
    ensures
        x == get64(s@, off as int),
{
    assert(s@.len() == s.len());
    read_u32(s, off) as u64 + 0x1_0000_0000 * (read_u32(s, off + 4) as u64)
}

/// Appends the bytes of a 16-bit number.
pub fn push_u16(v: &mut Vec<u8>, x: u16)
    ensures
        final(v)@ == old(v)@ + le16(x),
{
    v.push((x % 256) as u8);
    v.push((x / 256) as u8);
    assert(v@ =~= old(v)@ + le16(x));
}

/// Appends the bytes of a 32-bit number.
pub fn push_u32(v: &mut Vec<u8>, x: u32)
    ensures
        final(v)@ == old(v)@ + le32(x),
{
    v.push((x % 256) as u8);
    v.push((x / 256 % 256) as u8);
    v.push((x / 65536 % 256) as u8);
    v.push((x / 16777216) as u8);
    assert(v@ =~= old(v)@ + le32(x));
}

/// Appends the bytes of a 64-bit number.
pub fn push_u64(v: &mut Vec<u8>, x: u64)
    ensures
        final(v)@ == old(v)@ + le64(x),
{
    push_u32(v, (x % 0x1_0000_0000) as u32);
    push_u32(v, (x / 0x1_0000_0000) as u32);
    assert(v@ =~= old(v)@ + le64(x));
}

/// Appends `src[from..to]`.
pub fn push_range(v: &mut Vec<u8>, src: &[u8], from: usize, to: usize)
    requires
        from <= to <= src@.len(),
    ensures
        final(v)@ == old(v)@ + src@.subrange(from as int, to as int),
{
    let mut i: usize = from;
    while i < to
        invariant
            from <= i <= to <= src@.len(),
            v@ == old(v)@ + src@.subrange(from as int, i as int),
        decreases to - i,
    {
        v.push(src[i]);
        i += 1;
        assert(v@ =~= old(v)@ + src@.subrange(from as int, i as int));
    }
}

/// Appends `n` copies of `b`.
pub fn push_fill(v: &mut Vec<u8>, b: u8, n: usize)
    ensures
        final(v)@ == old(v)@ + Seq::new(n as nat, |i: int| b),
{
    let mut i: usize = 0;
    while i < n
        invariant
            i <= n,
            v@ == old(v)@ + Seq::new(i as nat, |k: int| b),
        decreases n - i,
    {
        v.push(b);
        i += 1;
        assert(v@ =~= old(v)@ + Seq::new(i as nat, |k: int| b));
    }
}

/// A buffer of `n` zero bytes.
pub fn zeroed(n: usize) -> (v: Vec<u8>)
    ensures
        v@ == zeros(n as nat),
{
    let mut v: Vec<u8> = Vec::new();
    push_fill(&mut v, 0, n);
    assert(v@ =~= zeros(n as nat));
    v
}

/// Copies `src[from..to]` into a new buffer.
pub fn copy_range(src: &[u8], from: usize, to: usize) -> (v: Vec<u8>)
    requires
        from <= to <= src@.len(),
    ensures
        v@ == src@.subrange(from as int, to as int),
{
    let mut v: Vec<u8> = Vec::new();
    push_range(&mut v, src, from, to);
    assert(v@ =~= src@.subrange(from as int, to as int));
    v
}

/// Overwrites the bytes of `buf` from `off` on with `src`.
pub fn splice(buf: &mut Vec<u8>, off: usize, src: &[u8])
    requires
        off + src@.len() <= old(buf)@.len(),
    ensures
        final(buf)@ == patch(old(buf)@, off as int, src@),
{
    let mut i: usize = 0;
    let ghost before = buf@;
    assert(buf@.len() == buf.len());
    while i < src.len()
        invariant
            i <= src@.len(),
            off + src@.len() <= before.len(),
            buf@ == patch(before, off as int, src@.subrange(0, i as int)),
            buf@.len() == before.len() <= usize::MAX,
        decreases src@.len() - i,
    {
        buf[off + i] = src[i];
        i += 1;
        assert(buf@ =~= patch(before, off as int, src@.subrange(0, i as int)));
    }
    assert(src@.subrange(0, i as int) =~= src@);
}

/// Overwrites the bytes of a slice from `off` on with `src[from..to]`.
pub fn splice_into(buf: &mut [u8], off: usize, src: &[u8], from: usize, to: usize)
    requires
        from <= to <= src@.len(),
        off + (to - from) <= old(buf)@.len(),
    ensures
        final(buf)@ == patch(old(buf)@, off as int, src@.subrange(from as int, to as int)),
{
    let mut i: usize = 0;
    let ghost before = buf@;
    assert(buf@.len() == buf.len());
    while i < to - from
        invariant
            from <= to <= src@.len(),
            i <= to - from,
            off + (to - from) <= before.len(),
            buf@ == patch(before, off as int, src@.subrange(from as int, from + i)),
            buf@.len() == before.len() <= usize::MAX,
        decreases to - from - i,
    {
        buf[off + i] = src[from + i];
        i += 1;
        assert(buf@ =~= patch(before, off as int, src@.subrange(from as int, from + i)));
    }
}

/// Whether two byte strings are equal.
pub fn bytes_eq(a: &[u8], b: &[u8]) -> (r: bool)
    ensures
        r == (a@ == b@),
{
    if a.len() != b.len() {
        return false;
    }
    let mut i: usize = 0;
    while i < a.len()
        invariant
            i <= a@.len(),
            a@.len() == b@.len(),
            forall|j: int| 0 <= j < i ==> a@[j] == b@[j],
        decreases a@.len() - i,
    {
        if a[i] != b[i] {
            return false;
        }
        i += 1;
    }
    assert(a@ =~= b@);
    true
}

/// Two texts are equal exactly when their encodings are.
pub proof fn lemma_encode_injective(a: Seq<char>, b: Seq<char>)
    ensures
        (a == b) <==> (encode_utf8(a) == encode_utf8(b)),
{
    vstd::utf8::encode_utf8_decode_utf8(a);
    vstd::utf8::encode_utf8_decode_utf8(b);
}

/// Whether two strings are equal.
pub fn str_eq(a: &str, b: &str) -> (r: bool)
    ensures
        r == (a@ == b@),
{
    proof {
        lemma_encode_injective(a@, b@);
    }
    bytes_eq(a.as_bytes(), b.as_bytes())
}

/// The text that `v` encodes, or `None` if it is not valid UTF-8.
///
/// Calls `core::str::from_utf8`, which succeeds exactly on valid UTF-8 and
/// then returns the string slice with the same bytes.
#[verifier::external_body]
pub(crate) fn utf8_text(v: &[u8]) -> (r: Option<&str>)
    ensures
        match r {
            Some(s) => valid_utf8(v@) && s@ == decode_utf8(v@),
            None => !valid_utf8(v@),
        },
{
    core::str::from_utf8(v).ok()
}

/// The UTF-8 bytes of a character.
///
/// Calls `char::encode_utf8`, which encodes the character into a buffer of four
/// bytes and returns the encoded part.
#[verifier::external_body]
pub(crate) fn char_bytes(c: char) -> (r: Vec<u8>)
    ensures
        r@ == encode_utf8(seq![c]),
{
    c.encode_utf8(&mut [0u8; 4]).as_bytes().to_vec()
}

} // verus!
