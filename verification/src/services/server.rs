//! What the servers have in common: a request and its answer are kept in memory, and
//! messages carry where.

use crate::ipc::{receive_s, IpcState, IpcView, Message};
use vstd::prelude::*;

verus! {

/// What a server finds at its endpoint: nothing, a message that is no request, or a
/// request and where it is kept.
#[derive(Debug, Clone, Copy, PartialEq, Eq)]
pub enum Incoming {
    Waiting,
    Dropped,
    Request { message: Message, at: u64 },
}

/// A message with a tag that carries where something is kept.
pub open spec fn carrier_s(tag: u64, at: u64) -> Message {
    Message { tag, words: [at, 0u64, 0, 0, 0, 0], sender: 0 }
}

/// What a message means to a server that knows its requests by `tag`: others are
/// dropped, and so are those that carry nothing.
pub open spec fn incoming_s(m: Option<Message>, tag: u64) -> Incoming {
    match m {
        None => Incoming::Waiting,
        Some(m) => if m.tag == tag && m.words@[0] != 0 {
            Incoming::Request { message: m, at: m.words@[0] }
        } else {
            Incoming::Dropped
        },
    }
}

/// A message with a tag that carries where something is kept.
pub fn carrier(tag: u64, at: u64) -> (r: Message)
    ensures
        r == carrier_s(tag, at),
{
    let words: [u64; 6] = [at, 0, 0, 0, 0, 0];
    assert(words@ =~= carrier_s(tag, at).words@);
    assert(words == carrier_s(tag, at).words);
    Message::with_words(tag, words)
}

/// Takes the next message of a server that task `me` runs.
pub fn next_request(ipc: &mut IpcState, ep: u64, tag: u64, me: u64) -> (r: Incoming)
    requires
        old(ipc).wf(),
    ensures
        final(ipc).wf(),
        final(ipc)@ == receive_s(old(ipc)@, ep, me).1,
        r == incoming_s(receive_s(old(ipc)@, ep, me).0, tag),
{
    match ipc.receive(ep, me) {
        None => Incoming::Waiting,
        Some(m) => {
            let at: u64 = m.words[0];
            if m.tag == tag && at != 0 {
                Incoming::Request { message: m, at }
            } else {
                Incoming::Dropped
            }
        },
    }
}

/// A server finds what a client sent it, and knows whom to answer.
pub proof fn law_request_arrives(s: IpcView, ep: u64, tag: u64, at: u64, client: u64, me: u64)
    requires
        s.endpoints.contains_key(ep),
        s.endpoints[ep].queue.len() == 0,
        at != 0,
    ensures
        ({
            let s1 = crate::ipc::call_s(s, ep, carrier_s(tag, at), client).1;
            incoming_s(receive_s(s1, ep, me).0, tag) == (Incoming::Request {
                message: Message { sender: client, ..carrier_s(tag, at) },
                at,
            })
        }),
{
}

} // verus!
