//! What a shell begins with.

use crate::capability::{
    after_mint, create_table, mint, slots_of, CapTables, Capability, Object, Rights, Slots,
};
use crate::ipc::{IpcState, IpcView};
use crate::services::pong::PONG_SERVICE;
use vstd::prelude::*;

verus! {

/// The capabilities after task `me` began as a shell: it has a table, and in it, where
/// the demo service is there, all rights to use its endpoint.
pub open spec fn began_s(tables: Map<u64, Slots>, s: IpcView, me: u64) -> Map<u64, Slots> {
    let own = tables.insert(me, slots_of(tables, me));
    if s.names.contains_key(PONG_SERVICE@) {
        after_mint(
            own,
            me,
            Capability {
                object: Object::Endpoint(s.names[PONG_SERVICE@]),
                rights: Rights(Rights::SEND | Rights::RECV | Rights::GRANT),
            },
        )
    } else {
        own
    }
}

/// Gives a shell its capability table and, as something to show, the endpoint of the
/// demo service.
pub fn begin(caps: &mut CapTables, ipc: &IpcState, me: u64)
    requires
        ipc.wf(),
    ensures
        final(caps)@ == began_s(old(caps)@, ipc@, me),
{
    create_table(caps, me);
    if let Some(ep) = ipc.lookup(PONG_SERVICE) {
        let rights = Rights(Rights::SEND).union(Rights(Rights::RECV)).union(Rights(Rights::GRANT));
        mint(caps, me, Object::Endpoint(ep), rights);
    }
}

} // verus!
