//! Message passing between tasks.
//!
//! An endpoint has a queue of messages and the tasks that wait for one. Nothing
//! here blocks: an operation that has to wait says so, and the task repeats it
//! once woken.

use crate::names::NameMap;
use std::collections::{BTreeMap, VecDeque};
use vstd::prelude::*;

verus! {

broadcast use vstd::std_specs::btree::group_btree_axioms;

/// Handle to an endpoint.
pub type EndpointId = u64;

/// A message: a type, six words, and the task that sent it.
#[derive(Debug, Clone, Copy, PartialEq, Eq)]
pub struct Message {
    pub tag: u64,
    pub words: [u64; 6],
    pub sender: u64,
}

impl Message {
    /// A message of a type, with words that are zero.
    pub fn new(tag: u64) -> (r: Message)
        ensures
            r.tag == tag,
            r.words@ == seq![0u64, 0, 0, 0, 0, 0],
            r.sender == 0,
    {
        let words: [u64; 6] = [0, 0, 0, 0, 0, 0];
        assert(words@ =~= seq![0u64, 0, 0, 0, 0, 0]);
        Message { tag, words, sender: 0 }
    }

    /// A message of a type with its words.
    pub fn with_words(tag: u64, words: [u64; 6]) -> (r: Message)
        ensures
            r == (Message { tag, words, sender: 0 }),
    {
        Message { tag, words, sender: 0 }
    }
}

/// An endpoint.
pub struct Endpoint {
    queue: VecDeque<Message>,
    waiters: VecDeque<u64>,
}

#[verifier::ext_equal]
pub struct EndpointView {
    pub queue: Seq<Message>,
    pub waiters: Seq<u64>,
}

impl Endpoint {
    pub closed spec fn view(&self) -> EndpointView {
        EndpointView { queue: self.queue@, waiters: self.waiters@ }
    }
}

/// All endpoints, their names, and the replies that callers wait for.
pub struct IpcState {
    endpoints: BTreeMap<u64, Endpoint>,
    names: NameMap<u64>,
    replies: BTreeMap<u64, Option<Message>>,
    next_ep: u64,
}

#[verifier::ext_equal]
pub struct IpcView {
    pub endpoints: Map<u64, EndpointView>,
    pub names: Map<Seq<char>, u64>,
    pub replies: Map<u64, Option<Message>>,
    pub next_ep: u64,
}

/// An endpoint without messages or waiters.
pub open spec fn empty_endpoint() -> EndpointView {
    EndpointView { queue: Seq::empty(), waiters: Seq::empty() }
}

/// The identifier after `id`.
pub open spec fn id_after(id: u64) -> u64 {
    if id == u64::MAX {
        0
    } else {
        (id + 1) as u64
    }
}

/// A queue of tasks without one of them.
pub open spec fn without(q: Seq<u64>, task: u64) -> Seq<u64>
    decreases q.len(),
{
    if q.len() == 0 {
        q
    } else if q.last() == task {
        without(q.drop_last(), task)
    } else {
        without(q.drop_last(), task).push(q.last())
    }
}

/// Creating an endpoint.
pub open spec fn create_s(s: IpcView) -> IpcView {
    IpcView {
        endpoints: s.endpoints.insert(s.next_ep, empty_endpoint()),
        next_ep: id_after(s.next_ep),
        ..s
    }
}

/// The endpoint of a name, which is created if there is none.
pub open spec fn create_named_s(s: IpcView, name: Seq<char>) -> (u64, IpcView) {
    if s.names.contains_key(name) {
        (s.names[name], s)
    } else {
        (s.next_ep, IpcView { names: s.names.insert(name, s.next_ep), ..create_s(s) })
    }
}

/// No identifier from the next one on is in use, and names mean endpoints that exist.
/// This holds until the identifiers have run through all numbers.
pub open spec fn ids_ok(s: IpcView) -> bool {
    &&& forall|id: u64| #[trigger] s.endpoints.contains_key(id) ==> id < s.next_ep
    &&& forall|name: Seq<char>| #[trigger]
        s.names.contains_key(name) ==> s.endpoints.contains_key(s.names[name])
}

/// Sending a message: the task that is to be woken, and the state after. A
/// message to an endpoint that does not exist is dropped.
pub open spec fn send_s(s: IpcView, ep: u64, msg: Message, me: u64) -> (Option<u64>, IpcView) {
    if !s.endpoints.contains_key(ep) {
        (None, s)
    } else {
        let e = s.endpoints[ep];
        let queue = e.queue.push(Message { sender: me, ..msg });
        if e.waiters.len() > 0 {
            (
                Some(e.waiters[0]),
                IpcView {
                    endpoints: s.endpoints.insert(
                        ep,
                        EndpointView { queue, waiters: e.waiters.skip(1) },
                    ),
                    ..s
                },
            )
        } else {
            (
                None,
                IpcView { endpoints: s.endpoints.insert(ep, EndpointView { queue, ..e }), ..s },
            )
        }
    }
}

/// Receiving a message: the oldest one; or, if there is none, the task becomes
/// the last of the waiters, once.
pub open spec fn receive_s(s: IpcView, ep: u64, me: u64) -> (Option<Message>, IpcView) {
    if !s.endpoints.contains_key(ep) {
        (None, s)
    } else {
        let e = s.endpoints[ep];
        if e.queue.len() > 0 {
            (
                Some(e.queue[0]),
                IpcView {
                    endpoints: s.endpoints.insert(
                        ep,
                        EndpointView { queue: e.queue.skip(1), ..e },
                    ),
                    ..s
                },
            )
        } else {
            (
                None,
                IpcView {
                    endpoints: s.endpoints.insert(
                        ep,
                        EndpointView { waiters: without(e.waiters, me).push(me), ..e },
                    ),
                    ..s
                },
            )
        }
    }
}

/// Beginning a call: a message is sent, and the caller waits for a reply.
pub open spec fn call_s(s: IpcView, ep: u64, msg: Message, me: u64) -> (Option<u64>, IpcView) {
    send_s(IpcView { replies: s.replies.insert(me, None), ..s }, ep, msg, me)
}

/// The reply that a caller waits for, if it has come.
pub open spec fn poll_s(s: IpcView, me: u64) -> (Option<Message>, IpcView) {
    if s.replies.contains_key(me) && s.replies[me] is Some {
        (s.replies[me], IpcView { replies: s.replies.remove(me), ..s })
    } else {
        (None, s)
    }
}

/// Replying to a message: the task that is to be woken. Nothing happens unless
/// the sender waits for a reply.
pub open spec fn reply_s(s: IpcView, original: Message, msg: Message, me: u64) -> (
    Option<u64>,
    IpcView,
) {
    if s.replies.contains_key(original.sender) {
        (
            Some(original.sender),
            IpcView {
                replies: s.replies.insert(original.sender, Some(Message { sender: me, ..msg })),
                ..s
            },
        )
    } else {
        (None, s)
    }
}

impl IpcState {
    pub closed spec fn view(&self) -> IpcView {
        IpcView {
            endpoints: self.endpoints@.map_values(|e: Endpoint| e@),
            names: self.names@,
            replies: self.replies@,
            next_ep: self.next_ep,
        }
    }

    pub closed spec fn wf(&self) -> bool {
        self.names.wf()
    }

    /// No endpoints and no calls.
    pub fn init() -> (r: IpcState)
        ensures
            r.wf(),
            r@ == (IpcView {
                endpoints: Map::empty(),
                names: Map::empty(),
                replies: Map::empty(),
                next_ep: 1,
            }),
            ids_ok(r@),
    {
        let r = IpcState {
            endpoints: BTreeMap::new(),
            names: NameMap::new(),
            replies: BTreeMap::new(),
            next_ep: 1,
        };
        assert(r@.endpoints =~= Map::empty());
        r
    }

    /// Creates an endpoint and returns its identifier.
    pub fn create_endpoint(&mut self) -> (r: u64)
        requires
            old(self).wf(),
        ensures
            final(self).wf(),
            r == old(self)@.next_ep,
            final(self)@ == create_s(old(self)@),
            ids_ok(old(self)@) ==> !old(self)@.endpoints.contains_key(r),
            ids_ok(old(self)@) && r < u64::MAX ==> ids_ok(final(self)@),
    {
        let id: u64 = self.next_ep;
        self.next_ep = id.wrapping_add(1);
        self.endpoints.insert(id, Endpoint { queue: VecDeque::new(), waiters: VecDeque::new() });
        assert(self@.endpoints =~= old(self)@.endpoints.insert(id, empty_endpoint()));
        id
    }

    /// Returns the endpoint of a name, creating it if there is none.
    pub fn create_named_endpoint(&mut self, name: &str) -> (r: u64)
        requires
            old(self).wf(),
        ensures
            final(self).wf(),
            (r, final(self)@) == create_named_s(old(self)@, name@),
            ids_ok(old(self)@) && !old(self)@.names.contains_key(name@)
                ==> !old(self)@.endpoints.contains_key(r),
            final(self)@.names.contains_key(name@) && final(self)@.names[name@] == r,
            ids_ok(old(self)@) && old(self)@.next_ep < u64::MAX ==> ids_ok(final(self)@),
    {
        if let Some(id) = self.names.get(name) {
            return *id;
        }
        let id: u64 = self.create_endpoint();
        self.names.insert(name, id);
        id
    }

    /// Looks up an endpoint by name.
    pub fn lookup(&self, name: &str) -> (r: Option<u64>)
        requires
            self.wf(),
        ensures
            r == (if self@.names.contains_key(name@) {
                Some(self@.names[name@])
            } else {
                None
            }),
    {
        match self.names.get(name) {
            Some(id) => Some(*id),
            None => None,
        }
    }

    /// Sends a message on behalf of task `me`. Returns the task that is to be
    /// woken.
    pub fn send(&mut self, ep: u64, msg: Message, me: u64) -> (r: Option<u64>)
        requires
            old(self).wf(),
        ensures
            final(self).wf(),
            (r, final(self)@) == send_s(old(self)@, ep, msg, me),
    {
        match self.endpoints.remove(&ep) {
            None => {
                assert(self.endpoints@ =~= old(self).endpoints@);
                None
            },
            Some(mut e) => {
                assert(e@ == old(self)@.endpoints[ep]);
                let ghost before = e@;
                e.queue.push_back(Message { sender: me, ..msg });
                let woken = e.waiters.pop_front();
                let ghost after = e@;
                self.endpoints.insert(ep, e);
                proof {
                    assert(self@.endpoints =~= old(self)@.endpoints.insert(ep, after));
                    if before.waiters.len() > 0 {
                        assert(after.waiters =~= before.waiters.skip(1));
                    } else {
                        assert(after.waiters =~= before.waiters);
                    }
                }
                woken
            },
        }
    }

    /// Receives the oldest message of an endpoint for task `me`. If there is
    /// none, the task is to block, and to try again once woken.
    pub fn receive(&mut self, ep: u64, me: u64) -> (r: Option<Message>)
        requires
            old(self).wf(),
        ensures
            final(self).wf(),
            (r, final(self)@) == receive_s(old(self)@, ep, me),
    {
        match self.endpoints.remove(&ep) {
            None => {
                assert(self.endpoints@ =~= old(self).endpoints@);
                None
            },
            Some(mut e) => {
                assert(e@ == old(self)@.endpoints[ep]);
                let ghost before = e@;
                let popped = e.queue.pop_front();
                if popped.is_none() {
                    let mut waiters = others(&e.waiters, me);
                    waiters.push_back(me);
                    e.waiters = waiters;
                }
                let ghost after = e@;
                self.endpoints.insert(ep, e);
                proof {
                    assert(self@.endpoints =~= old(self)@.endpoints.insert(ep, after));
                    if before.queue.len() > 0 {
                        assert(after.queue =~= before.queue.skip(1));
                    } else {
                        assert(after.queue =~= before.queue);
                    }
                }
                popped
            },
        }
    }

    /// Sends a request on behalf of task `me`, which then waits for the reply.
    /// Returns the task that is to be woken.
    pub fn call(&mut self, ep: u64, msg: Message, me: u64) -> (r: Option<u64>)
        requires
            old(self).wf(),
        ensures
            final(self).wf(),
            (r, final(self)@) == call_s(old(self)@, ep, msg, me),
    {
        self.replies.insert(me, None);
        assert(self@.endpoints =~= old(self)@.endpoints);
        self.send(ep, msg, me)
    }

    /// Takes the reply that task `me` waits for. If there is none, the task is
    /// to block, and to try again once woken.
    pub fn poll_reply(&mut self, me: u64) -> (r: Option<Message>)
        requires
            old(self).wf(),
        ensures
            final(self).wf(),
            (r, final(self)@) == poll_s(old(self)@, me),
    {
        let found: Option<Message> = match self.replies.get(&me) {
            Some(r) => *r,
            None => None,
        };
        if found.is_some() {
            self.replies.remove(&me);
        }
        assert(self@.endpoints =~= old(self)@.endpoints);
        found
    }

    /// Forgets the reply slot of a task that has ended.
    pub fn cleanup_reply_slot(&mut self, task_id: u64)
        requires
            old(self).wf(),
        ensures
            final(self).wf(),
            final(self)@ == (IpcView {
                replies: old(self)@.replies.remove(task_id),
                ..old(self)@
            }),
    {
        self.replies.remove(&task_id);
        assert(self@.endpoints =~= old(self)@.endpoints);
    }

    /// Replies to a message that was received. Returns the task that is to be
    /// woken.
    pub fn reply(&mut self, original: &Message, msg: Message, me: u64) -> (r: Option<u64>)
        requires
            old(self).wf(),
        ensures
            final(self).wf(),
            (r, final(self)@) == reply_s(old(self)@, *original, msg, me),
    {
        let sender: u64 = original.sender;
        if self.replies.contains_key(&sender) {
            self.replies.insert(sender, Some(Message { sender: me, ..msg }));
            assert(self@.endpoints =~= old(self)@.endpoints);
            Some(sender)
        } else {
            None
        }
    }
}

/// The waiters but one.
fn others(q: &VecDeque<u64>, task: u64) -> (r: VecDeque<u64>)
    ensures
        r@ == without(q@, task),
{
    let mut r: VecDeque<u64> = VecDeque::new();
    let mut i: usize = 0;
    assert(q@.take(0) =~= Seq::empty());
    while i < q.len()
        invariant
            i <= q@.len(),
            r@ == without(q@.take(i as int), task),
        decreases q@.len() - i,
    {
        let w: u64 = q[i];
        assert(q@.take(i + 1).drop_last() =~= q@.take(i as int));
        if w != task {
            r.push_back(w);
        }
        i = i + 1;
    }
    assert(q@.take(q@.len() as int) =~= q@);
    r
}

/// Messages, calls and replies leave identifiers and names in order.
pub proof fn law_messages_keep_ids(s: IpcView, ep: u64, msg: Message, to: Message, me: u64)
    requires
        ids_ok(s),
    ensures
        ids_ok(send_s(s, ep, msg, me).1),
        ids_ok(receive_s(s, ep, me).1),
        ids_ok(call_s(s, ep, msg, me).1),
        ids_ok(poll_s(s, me).1),
        ids_ok(reply_s(s, to, msg, me).1),
        ids_ok(IpcView { replies: s.replies.remove(me), ..s }),
{
    let c = IpcView { replies: s.replies.insert(me, None), ..s };
    assert(ids_ok(c));
    lemma_send_keeps_ids(s, ep, msg, me);
    lemma_send_keeps_ids(c, ep, msg, me);
}

proof fn lemma_send_keeps_ids(s: IpcView, ep: u64, msg: Message, me: u64)
    requires
        ids_ok(s),
    ensures
        ids_ok(send_s(s, ep, msg, me).1),
{
}

/// A name means one endpoint from the time it is first asked for. One that is new gets
/// an identifier that no other endpoint has, and an empty queue; all other names and
/// endpoints stay as they are.
pub proof fn law_names_get_fresh_endpoints(s: IpcView, name: Seq<char>, other: Seq<char>)
    requires
        if s.names.contains_key(name) {
            s.endpoints.contains_key(s.names[name])
        } else {
            !s.endpoints.contains_key(s.next_ep)
        },
    ensures
        ({
            let (id, s1) = create_named_s(s, name);
            &&& s1.names.contains_key(name) && s1.names[name] == id
            &&& s1.endpoints.contains_key(id)
            &&& create_named_s(s1, name) == (id, s1)
            &&& s.names.contains_key(name) ==> s1 == s
            &&& !s.names.contains_key(name) ==> !s.endpoints.contains_key(id) && s1.endpoints[id]
                == empty_endpoint()
            &&& other != name ==> (s1.names.contains_key(other) <==> s.names.contains_key(other))
            &&& other != name && s.names.contains_key(other) ==> s1.names[other] == s.names[other]
            &&& forall|e: u64| #[trigger]
                s.endpoints.contains_key(e) ==> s1.endpoints.contains_key(e) && s1.endpoints[e]
                    == s.endpoints[e]
        }),
{
}

/// Messages come in the order they were sent: what is sent to an endpoint is
/// received after everything that was in its queue.
pub proof fn law_messages_keep_their_order(s: IpcView, ep: u64, msg: Message, from: u64, to: u64)
    requires
        s.endpoints.contains_key(ep),
    ensures
        ({
            let s1 = send_s(s, ep, msg, from).1;
            let q = s.endpoints[ep].queue;
            let r = receive_s(s1, ep, to).0;
            &&& s1.endpoints[ep].queue == q.push(Message { sender: from, ..msg })
            &&& r == Some(
                if q.len() > 0 {
                    q[0]
                } else {
                    Message { sender: from, ..msg }
                },
            )
        }),
{
}

/// A task that found no message is woken by a message: it is among the waiters,
/// once, and a message wakes the one that waits longest.
pub proof fn law_receiver_is_woken(s: IpcView, ep: u64, me: u64, msg: Message, from: u64)
    requires
        s.endpoints.contains_key(ep),
        s.endpoints[ep].queue.len() == 0,
    ensures
        ({
            let s1 = receive_s(s, ep, me).1;
            let w = s1.endpoints[ep].waiters;
            &&& w.last() == me
            &&& forall|i: int| 0 <= i < w.len() - 1 ==> w[i] != me
            &&& send_s(s1, ep, msg, from).0 == Some(w[0])
        }),
{
    lemma_without(s.endpoints[ep].waiters, me);
}

proof fn lemma_without(q: Seq<u64>, task: u64)
    ensures
        forall|i: int| 0 <= i < without(q, task).len() ==> #[trigger] without(q, task)[i] != task,
    decreases q.len(),
{
    if q.len() > 0 {
        let before = without(q.drop_last(), task);
        lemma_without(q.drop_last(), task);
        assert forall|i: int| 0 <= i < without(q, task).len() implies #[trigger] without(
            q,
            task,
        )[i] != task by {
            if i < before.len() {
                assert(before[i] != task);
            }
        }
    }
}

/// A call gets its reply: the server receives the request with the caller as its
/// sender, and what it replies is what the caller then finds, once.
pub proof fn law_call_gets_its_reply(
    s: IpcView,
    ep: u64,
    request: Message,
    client: u64,
    server: u64,
    answer: Message,
)
    requires
        s.endpoints.contains_key(ep),
        s.endpoints[ep].queue.len() == 0,
    ensures
        ({
            let s1 = call_s(s, ep, request, client).1;
            let (got, s2) = receive_s(s1, ep, server);
            let (woken, s3) = reply_s(s2, got->Some_0, answer, server);
            let (reply, s4) = poll_s(s3, client);
            &&& poll_s(s1, client).0 is None
            &&& got == Some(Message { sender: client, ..request })
            &&& woken == Some(client)
            &&& reply == Some(Message { sender: server, ..answer })
            &&& poll_s(s4, client).0 is None
        }),
{
}

/// A reply to a message that was only sent, not called, goes nowhere.
pub proof fn law_reply_without_call(s: IpcView, original: Message, msg: Message, me: u64)
    requires
        !s.replies.contains_key(original.sender),
    ensures
        reply_s(s, original, msg, me) == (None::<u64>, s),
{
}

} // verus!
