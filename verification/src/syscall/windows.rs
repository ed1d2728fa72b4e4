//! What the calls on windows hand to the window server and return of its answers.

use super::args::window_bytes;
use super::files::Reply;
use super::FAILED;
use crate::bytes::{get32, le32, read_u32};
use vstd::prelude::*;

verus! {

/// An answer of the window server: the number of a new window, whether something was
/// done, the next event of a window, or its width, height and position.
#[derive(Debug, Clone, Copy, PartialEq, Eq)]
pub enum WindowAnswer {
    Created(Option<u64>),
    Done(bool),
    Event(Option<[u8; 16]>),
    Place(Option<(u32, u32, u32, u32)>),
}

/// What a call returns and what goes to the caller's memory. That there is no event is
/// no failure.
pub open spec fn window_reply_s(a: WindowAnswer) -> (u64, Seq<u8>) {
    let none = Seq::<u8>::empty();
    match a {
        WindowAnswer::Created(Some(id)) => (id, none),
        WindowAnswer::Created(None) => (FAILED, none),
        WindowAnswer::Done(ok) => (
            if ok {
                0
            } else {
                FAILED
            },
            none,
        ),
        WindowAnswer::Event(Some(e)) => (1, e@),
        WindowAnswer::Event(None) => (0, none),
        WindowAnswer::Place(Some((w, h, x, y))) => (0, le32(w) + le32(h) + le32(x) + le32(y)),
        WindowAnswer::Place(None) => (FAILED, none),
    }
}

/// What a call on a window returns.
pub fn window_reply(a: WindowAnswer) -> (r: Reply)
    ensures
        (r.value, r.out@) == window_reply_s(a),
{
    match a {
        WindowAnswer::Created(Some(id)) => Reply { value: id, out: Vec::new() },
        WindowAnswer::Done(true) => Reply { value: 0, out: Vec::new() },
        WindowAnswer::Event(Some(e)) => {
            let mut out: Vec<u8> = Vec::new();
            let mut i: usize = 0;
            while i < 16
                invariant
                    i <= 16,
                    out@ == e@.take(i as int),
                decreases 16 - i,
            {
                out.push(e[i]);
                i = i + 1;
                assert(out@ =~= e@.take(i as int));
            }
            assert(e@.take(16) =~= e@);
            Reply { value: 1, out }
        },
        WindowAnswer::Event(None) => Reply { value: 0, out: Vec::new() },
        WindowAnswer::Place(Some((w, h, x, y))) => {
            Reply { value: 0, out: window_bytes(w, h, x, y) }
        },
        _ => Reply { value: FAILED, out: Vec::new() },
    }
}

/// The pixels that bytes hold, four bytes each; what is left over is dropped.
pub open spec fn pixels_s(bytes: Seq<u8>) -> Seq<u32> {
    Seq::new((bytes.len() / 4) as nat, |k: int| get32(bytes, 4 * k))
}

/// The pixels that the bytes of a caller hold.
pub fn pixels_in(bytes: &[u8]) -> (r: Vec<u32>)
    ensures
        r@ == pixels_s(bytes@),
{
    let n: usize = bytes.len() / 4;
    let mut r: Vec<u32> = Vec::new();
    let mut k: usize = 0;
    while k < n
        invariant
            n == bytes@.len() / 4,
            bytes@.len() == bytes.len(),
            k <= n,
            r@ == pixels_s(bytes@).take(k as int),
        decreases n - k,
    {
        r.push(read_u32(bytes, 4 * k));
        k = k + 1;
        assert(r@ =~= pixels_s(bytes@).take(k as int));
    }
    assert(pixels_s(bytes@).take(n as int) =~= pixels_s(bytes@));
    r
}

} // verus!
