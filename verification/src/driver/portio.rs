//! Capability checks for port I/O: a driver touches a port only if it holds a
//! capability for a range of ports that covers it.

use crate::capability::{
    decides, find_object, lemma_first_match, slots_of, CapTables, Object, Rights, Slots,
};
use vstd::prelude::*;

verus! {

/// Whether an object is a range of ports that covers `[port, port + width)`.
pub open spec fn covers_port(o: Object, port: u16, width: u16) -> bool {
    match o {
        Object::Port { base, count } => base <= port && port + width <= base + count,
        _ => false,
    }
}

/// Whether a task may read and write `[port, port + width)`.
pub open spec fn owns_port(slots: Slots, port: u16, width: u16) -> bool {
    exists|i: int|
        0 <= i < slots.len() && (#[trigger] slots[i]) is Some && slots[i]->0.rights.includes(
            Rights(12),
        ) && covers_port(slots[i]->0.object, port, width)
}

/// Whether a task holds a capability that covers `[port, port + width)`.
pub fn task_owns_port(caps: &CapTables, task_id: u64, port: u16, width: u16) -> (r: bool)
    ensures
        r == owns_port(slots_of(caps@, task_id), port, width),
{
    let pred = |o: &Object| -> (b: bool)
        ensures
            b == covers_port(*o, port, width),
        {
            match *o {
                Object::Port { base, count } => port >= base && port as u32 + width as u32
                    <= base as u32 + count as u32,
                _ => false,
            }
        };
    assert(Rights::READ | Rights::WRITE == 12) by (bit_vector);
    let found = find_object(caps, task_id, Rights(Rights::READ | Rights::WRITE), pred);
    proof {
        let p = |o: Object| covers_port(o, port, width);
        assert(decides(pred, p));
        lemma_first_match(slots_of(caps@, task_id), Rights(12), p);
    }
    found.is_some()
}

/// Whether a task may access one port: the access is to be made if this
/// succeeds.
pub fn port_access(caps: &CapTables, task_id: u64, port: u16) -> (r: Result<(), &'static str>)
    ensures
        match r {
            Ok(_) => owns_port(slots_of(caps@, task_id), port, 1),
            Err(e) => !owns_port(slots_of(caps@, task_id), port, 1) && e@
                == "port-io: missing Port capability"@,
        },
{
    if task_owns_port(caps, task_id, port, 1) {
        Ok(())
    } else {
        Err("port-io: missing Port capability")
    }
}

} // verus!
