//! The demo service: it answers every number with the next one.

use crate::ipc::{call_s, poll_s, receive_s, reply_s, IpcState, IpcView, Message};
use vstd::prelude::*;

verus! {

/// The name of the service.
pub const PONG_SERVICE: &'static str = "demo.pong";

/// The number that waits longest at an endpoint, if one does.
pub open spec fn next_number(s: IpcView, ep: u64) -> Option<u64> {
    if s.endpoints.contains_key(ep) && s.endpoints[ep].queue.len() > 0 {
        Some(s.endpoints[ep].queue[0].tag)
    } else {
        None
    }
}

/// A message that is a number and nothing more.
pub open spec fn number(tag: u64) -> Message {
    Message { tag, words: [0u64, 0, 0, 0, 0, 0], sender: 0 }
}

/// One round of the service: the oldest message is answered with the next number; with
/// none, the service waits for one. The task that is to be woken, and the state after.
pub open spec fn answer_s(s: IpcView, ep: u64, me: u64) -> (Option<u64>, IpcView) {
    match receive_s(s, ep, me) {
        (None, s1) => (None, s1),
        (Some(m), s1) => reply_s(s1, m, number((m.tag + 1) as u64), me),
    }
}

/// One round of the service, run by task `me`. Returns the task that is to be woken.
pub fn answer(ipc: &mut IpcState, ep: u64, me: u64) -> (r: Option<u64>)
    requires
        old(ipc).wf(),
        next_number(old(ipc)@, ep) != Some(u64::MAX),
    ensures
        final(ipc).wf(),
        (r, final(ipc)@) == answer_s(old(ipc)@, ep, me),
{
    match ipc.receive(ep, me) {
        None => None,
        Some(m) => {
            let next: u64 = m.tag + 1;
            let reply = Message::new(next);
            assert(reply.words@ =~= number(next).words@);
            assert(reply.words == number(next).words);
            ipc.reply(&m, reply, me)
        },
    }
}

/// Whoever calls the service with a number gets the next one, from the service, unless
/// others called before.
pub proof fn law_call_is_answered(s: IpcView, ep: u64, tag: u64, me: u64, service: u64)
    requires
        s.endpoints.contains_key(ep),
        s.endpoints[ep].queue.len() == 0,
        tag < u64::MAX,
    ensures
        ({
            let s1 = call_s(s, ep, number(tag), me).1;
            let (woken, s2) = answer_s(s1, ep, service);
            &&& woken == Some(me)
            &&& poll_s(s2, me).0 == Some(
                Message { sender: service, ..number((tag + 1) as u64) },
            )
        }),
{
}

} // verus!
