//! Capability system.
//!
//! A task can act on a kernel object only if it holds an unforgeable
//! **capability** to it: a reference to the object together with a set of
//! **rights**. Capabilities live in a per-task table and are named by a slot
//! index. Authority is transferred by *granting*: copying a capability into
//! another table, possibly with reduced rights. Rights never grow on
//! derivation.

use std::collections::BTreeMap;
use vstd::prelude::*;

verus! {

broadcast use vstd::std_specs::btree::group_btree_axioms;

/// The kinds of kernel objects a capability can point at.
#[allow(inconsistent_fields)]
#[derive(Debug, Clone, Copy, PartialEq, Eq, Structural)]
pub enum Object {
    /// An IPC endpoint.
    Endpoint(u64),
    /// A region of memory `[base, base + len)`.
    Memory { base: u64, len: u64 },
    /// A hardware IRQ line.
    Irq(u8),
    /// A range of I/O ports `[base, base + count)`.
    Port { base: u16, count: u16 },
    /// A memory-mapped I/O region `[phys_base, phys_base + len)`.
    Mmio { phys_base: u64, len: u64 },
    /// A named role for authority that maps to no concrete kernel object.
    Role(u64),
}

/// Access rights carried by a capability: a bit set.
#[derive(Debug, Clone, Copy, PartialEq, Eq, Structural)]
pub struct Rights(pub u32);

impl Rights {
    pub const NONE: u32 = 0;

    /// May send on an endpoint.
    pub const SEND: u32 = 1;

    /// May receive on an endpoint.
    pub const RECV: u32 = 2;

    /// May read a memory region.
    pub const READ: u32 = 4;

    /// May write a memory region.
    pub const WRITE: u32 = 8;

    /// May grant this capability to others.
    pub const GRANT: u32 = 16;

    /// All rights.
    pub const ALL: u32 = 31;

    /// Whether right number `i` is in the set.
    pub open spec fn has(self, i: u32) -> bool {
        self.0 & (1u32 << i) != 0
    }

    /// Every right of `other` is a right of `self`.
    pub open spec fn includes(self, other: Rights) -> bool {
        forall|i: u32| i < 32 ==> other.has(i) ==> #[trigger] self.has(i)
    }

    /// Union of two right sets.
    pub fn union(self, other: Rights) -> (r: Rights)
        ensures
            forall|i: u32| i < 32 ==> (#[trigger] r.has(i) <==> self.has(i) || other.has(i)),
            r.0 == self.0 | other.0,
    {
        let (a, b): (u32, u32) = (self.0, other.0);
        assert forall|i: u32| i < 32 implies ((a | b) & (1u32 << i) != 0 <==> a & (1u32 << i) != 0
            || b & (1u32 << i) != 0) by {
            assert((a | b) & (1u32 << i) != 0 <==> a & (1u32 << i) != 0 || b & (1u32 << i) != 0)
                by (bit_vector);
        }
        Rights(a | b)
    }

    /// Intersection, used to clamp derived rights to a subset.
    pub fn intersect(self, other: Rights) -> (r: Rights)
        ensures
            forall|i: u32| i < 32 ==> (#[trigger] r.has(i) <==> self.has(i) && other.has(i)),
            r.0 == self.0 & other.0,
    {
        let (a, b): (u32, u32) = (self.0, other.0);
        assert forall|i: u32| i < 32 implies ((a & b) & (1u32 << i) != 0 <==> a & (1u32 << i) != 0
            && b & (1u32 << i) != 0) by {
            assert((a & b) & (1u32 << i) != 0 <==> a & (1u32 << i) != 0 && b & (1u32 << i) != 0)
                by (bit_vector)
                requires
                    i < 32,
            ;
        }
        Rights(a & b)
    }

    /// True if `self` contains all the rights in `needed`.
    pub fn contains(self, needed: Rights) -> (r: bool)
        ensures
            r == self.includes(needed),
    {
        proof {
            lemma_includes_mask(self, needed);
        }
        (self.0 & needed.0) == needed.0
    }
}

/// Inclusion of right sets is equality of the masked word.
proof fn lemma_includes_mask(a: Rights, b: Rights)
    ensures
        a.includes(b) <==> a.0 & b.0 == b.0,
{
    let (x, y) = (a.0, b.0);
    if x & y == y {
        assert forall|i: u32| i < 32 && b.has(i) implies #[trigger] a.has(i) by {
            assert(x & (1u32 << i) != 0) by (bit_vector)
                requires
                    x & y == y,
                    y & (1u32 << i) != 0,
            ;
        }
    } else {
        let d = y & !x;
        assert(d != 0) by (bit_vector)
            requires
                x & y != y,
                d == y & !x,
        ;
        assert(d >> 0u32 == d) by (bit_vector);
        let i = lemma_some_bit_from(d, 0);
        assert(y & (1u32 << i) != 0 && x & (1u32 << i) == 0) by (bit_vector)
            requires
                d == y & !x,
                d & (1u32 << i) != 0,
        ;
        assert(b.has(i) && !a.has(i));
    }
}

/// A word with a bit set at or above `k` has such a bit.
proof fn lemma_some_bit_from(d: u32, k: u32) -> (i: u32)
    requires
        k < 32,
        d >> k != 0,
    ensures
        i < 32,
        d & (1u32 << i) != 0,
    decreases 32 - k,
{
    if d & (1u32 << k) != 0 {
        k
    } else {
        assert(k < 31 && d >> ((k + 1) as u32) != 0) by (bit_vector)
            requires
                k < 32,
                d >> k != 0,
                d & (1u32 << k) == 0,
        ;
        lemma_some_bit_from(d, (k + 1) as u32)
    }
}

/// Role identifiers used with [`Object::Role`].
pub const ROLE_SPAWN: u64 = 1;

pub const ROLE_FILE_SYSTEM: u64 = 2;

pub const ROLE_KILL: u64 = 3;

pub const ROLE_NETWORK: u64 = 4;

pub const ROLE_WINDOW_SERVER: u64 = 5;

/// A single capability: an object and the rights the holder has over it.
#[derive(Debug, Clone, Copy, PartialEq, Eq, Structural)]
pub struct Capability {
    pub object: Object,
    pub rights: Rights,
}

/// The contents of one capability table, slot by slot.
pub type Slots = Seq<Option<Capability>>;

/// The first free slot of a table; one past the end when every slot is taken.
pub open spec fn first_free(slots: Slots) -> int
    decreases slots.len(),
{
    if slots.len() == 0 || slots[0] is None {
        0
    } else {
        1 + first_free(slots.drop_first())
    }
}

/// The table after `cap` was put into its first free slot.
pub open spec fn with_cap(slots: Slots, cap: Capability) -> Slots {
    if first_free(slots) < slots.len() {
        slots.update(first_free(slots), Some(cap))
    } else {
        slots.push(Some(cap))
    }
}

/// The first free slot is free, and nothing below it is.
proof fn lemma_first_free(slots: Slots, i: int)
    requires
        0 <= i <= slots.len(),
        forall|j: int| 0 <= j < i ==> (#[trigger] slots[j]) is Some,
        i < slots.len() ==> slots[i] is None,
    ensures
        first_free(slots) == i,
    decreases slots.len(),
{
    if i > 0 {
        assert forall|j: int| 0 <= j < i - 1 implies (#[trigger] slots.drop_first()[j]) is Some by {
            assert(slots[j + 1] is Some);
        }
        lemma_first_free(slots.drop_first(), i - 1);
    }
}

/// A per-task table of capabilities, indexed by slot.
#[derive(Clone)]
pub struct CapTable {
    slots: Vec<Option<Capability>>,
}

impl CapTable {
    pub closed spec fn view(&self) -> Slots {
        self.slots@
    }

    fn new() -> (r: CapTable)
        ensures
            r@ == Slots::empty(),
    {
        CapTable { slots: Vec::new() }
    }

    /// Inserts a capability into the first free slot and returns that slot.
    fn insert(&mut self, cap: Capability) -> (slot: usize)
        ensures
            slot == first_free(old(self)@),
            final(self)@ == with_cap(old(self)@, cap),
    {
        let mut i: usize = 0;
        while i < self.slots.len() && self.slots[i].is_some()
            invariant
                i <= self.slots.len(),
                forall|j: int| 0 <= j < i ==> (#[trigger] self.slots@[j]) is Some,
            decreases self.slots.len() - i,
        {
            i += 1;
        }
        proof {
            lemma_first_free(self.slots@, i as int);
        }
        if i < self.slots.len() {
            self.slots.set(i, Some(cap));
        } else {
            self.slots.push(Some(cap));
        }
        i
    }
}

/// The capability tables of all tasks, by task id.
#[derive(Clone)]
pub struct CapTables {
    tables: BTreeMap<u64, CapTable>,
}

impl View for CapTables {
    type V = Map<u64, Slots>;

    closed spec fn view(&self) -> Map<u64, Slots> {
        self.tables@.map_values(|t: CapTable| t@)
    }
}

/// The slots of a task; a task without a table has none.
pub open spec fn slots_of(tables: Map<u64, Slots>, task: u64) -> Slots {
    if tables.contains_key(task) {
        tables[task]
    } else {
        Slots::empty()
    }
}

/// What `slot` of a task's table holds.
pub open spec fn cap_at(tables: Map<u64, Slots>, task: u64, slot: int) -> Option<Capability> {
    if 0 <= slot < slots_of(tables, task).len() {
        slots_of(tables, task)[slot]
    } else {
        None
    }
}

/// The tables after `cap` was put into the first free slot of `task`.
pub open spec fn after_mint(tables: Map<u64, Slots>, task: u64, cap: Capability) -> Map<
    u64,
    Slots,
> {
    tables.insert(task, with_cap(slots_of(tables, task), cap))
}

/// Whether `slot` is the first of `slots` whose capability carries `needed`
/// and whose object `pred` accepts.
pub open spec fn first_match(slots: Slots, needed: Rights, pred: spec_fn(Object) -> bool) -> Option<
    Capability,
>
    decreases slots.len(),
{
    if slots.len() == 0 {
        None
    } else if slots[0] is Some && slots[0]->0.rights.includes(needed) && pred(slots[0]->0.object) {
        slots[0]
    } else {
        first_match(slots.drop_first(), needed, pred)
    }
}

/// A fresh capability subsystem: no task has a table.
pub fn init() -> (r: CapTables)
    ensures
        r@ == Map::<u64, Slots>::empty(),
{
    let r = CapTables { tables: BTreeMap::new() };
    assert(r@ =~= Map::<u64, Slots>::empty());
    r
}

/// Ensures a task has a (possibly empty) capability table.
pub fn create_table(tables: &mut CapTables, task_id: u64)
    ensures
        final(tables)@ == old(tables)@.insert(task_id, slots_of(old(tables)@, task_id)),
{
    if !tables.tables.contains_key(&task_id) {
        tables.tables.insert(task_id, CapTable::new());
    }
    assert(tables@ =~= old(tables)@.insert(task_id, slots_of(old(tables)@, task_id)));
}

/// Mints a root capability directly into a task's table and returns its slot.
pub fn mint(tables: &mut CapTables, task_id: u64, object: Object, rights: Rights) -> (slot: usize)
    ensures
        slot == first_free(slots_of(old(tables)@, task_id)),
        final(tables)@ == after_mint(old(tables)@, task_id, Capability { object, rights }),
{
    let mut table = match tables.tables.remove(&task_id) {
        Some(t) => t,
        None => CapTable::new(),
    };
    assert(table@ == slots_of(old(tables)@, task_id));
    let slot: usize = table.insert(Capability { object, rights });
    tables.tables.insert(task_id, table);
    assert(tables@ =~= after_mint(old(tables)@, task_id, Capability { object, rights }));
    slot
}

/// `test` decides exactly the objects that `p` holds of.
pub open spec fn decides<F: Fn(&Object) -> bool>(test: F, p: spec_fn(Object) -> bool) -> bool {
    forall|o: Object, b: bool| #[trigger] call_ensures(test, (&o,), b) ==> b == p(o)
}

/// Finds the first capability of a task whose object satisfies `pred` and
/// which carries at least the `needed` rights.
pub fn find_object<F: Fn(&Object) -> bool>(
    tables: &CapTables,
    task_id: u64,
    needed: Rights,
    pred: F,
) -> (r: Option<Capability>)
    requires
        forall|o: &Object| #[trigger] call_requires(pred, (o,)),
    ensures
        forall|p: spec_fn(Object) -> bool| #[trigger]
            decides(pred, p) ==> r == first_match(slots_of(tables@, task_id), needed, p),
{
    let ghost all = slots_of(tables@, task_id);
    match tables.tables.get(&task_id) {
        None => None,
        Some(table) => {
            assert(table@ == all);
            let mut i: usize = 0;
            assert(table.slots@.skip(0) =~= table.slots@);
            while i < table.slots.len()
                invariant
                    i <= table.slots.len(),
                    table@ == all,
                    all == slots_of(tables@, task_id),
                    forall|o: &Object| #[trigger] call_requires(pred, (o,)),
                    forall|p: spec_fn(Object) -> bool| #[trigger]
                        decides(pred, p) ==> first_match(
                            table.slots@.skip(i as int),
                            needed,
                            p,
                        ) == first_match(all, needed, p),
                decreases table.slots.len() - i,
            {
                assert(table.slots@.skip(i as int)[0] == table.slots@[i as int]);
                assert(table.slots@.skip(i as int).drop_first() =~= table.slots@.skip(i + 1));
                if let Some(cap) = table.slots[i] {
                    if cap.rights.contains(needed) {
                        if pred(&cap.object) {
                            return Some(cap);
                        }
                    }
                }
                i += 1;
            }
            None
        },
    }
}

/// Looks up the capability in `slot` of a task's table.
pub fn lookup(tables: &CapTables, task_id: u64, slot: usize) -> (r: Option<Capability>)
    ensures
        r == cap_at(tables@, task_id, slot as int),
{
    match tables.tables.get(&task_id) {
        Some(table) => {
            assert(table@ == tables@[task_id]);
            if slot < table.slots.len() {
                table.slots[slot]
            } else {
                None
            }
        },
        None => None,
    }
}

/// Whether the task holds a capability in `slot` with at least the `needed`
/// rights.
pub fn check(tables: &CapTables, task_id: u64, slot: usize, needed: Rights) -> (r: bool)
    ensures
        r == (cap_at(tables@, task_id, slot as int) matches Some(cap) && cap.rights.includes(
            needed,
        )),
{
    match lookup(tables, task_id, slot) {
        Some(cap) => cap.rights.contains(needed),
        None => false,
    }
}

/// Whether a task holds a capability for `role` with at least the `needed`
/// rights, in any slot.
pub open spec fn holds_role(slots: Slots, role: u64, needed: Rights) -> bool {
    exists|i: int|
        0 <= i < slots.len() && (#[trigger] slots[i]) is Some && slots[i]->0.object == Object::Role(
            role,
        ) && slots[i]->0.rights.includes(needed)
}

/// `first_match` finds something exactly when some slot matches.
pub proof fn lemma_first_match(slots: Slots, needed: Rights, pred: spec_fn(Object) -> bool)
    ensures
        first_match(slots, needed, pred) is Some <==> exists|i: int|
            0 <= i < slots.len() && (#[trigger] slots[i]) is Some && slots[i]->0.rights.includes(
                needed,
            ) && pred(slots[i]->0.object),
    decreases slots.len(),
{
    if slots.len() > 0 {
        lemma_first_match(slots.drop_first(), needed, pred);
        let rest = slots.drop_first();
        if first_match(rest, needed, pred) is Some {
            let i = choose|i: int|
                0 <= i < rest.len() && (#[trigger] rest[i]) is Some && rest[i]->0.rights.includes(
                    needed,
                ) && pred(rest[i]->0.object);
            assert(slots[i + 1] == rest[i]);
        }
        if exists|i: int|
            0 <= i < slots.len() && (#[trigger] slots[i]) is Some && slots[i]->0.rights.includes(
                needed,
            ) && pred(slots[i]->0.object) {
            let i = choose|i: int|
                0 <= i < slots.len() && (#[trigger] slots[i]) is Some
                    && slots[i]->0.rights.includes(needed) && pred(slots[i]->0.object);
            if i > 0 {
                assert(rest[i - 1] == slots[i]);
            }
        }
    }
}

/// Checks that a task holds a capability for a given role with at least the
/// `needed` rights.
pub fn check_role(tables: &CapTables, task_id: u64, role: u64, needed: Rights) -> (r: bool)
    ensures
        r == holds_role(slots_of(tables@, task_id), role, needed),
{
    let pred = |obj: &Object| -> (b: bool)
        ensures
            b == (*obj == Object::Role(role)),
        { *obj == Object::Role(role) };
    let found = find_object(tables, task_id, needed, pred);
    proof {
        let p = |o: Object| o == Object::Role(role);
        assert(decides(pred, p));
        lemma_first_match(slots_of(tables@, task_id), needed, p);
    }
    found.is_some()
}

/// The capability a grant derives from `source`.
pub open spec fn derived(source: Capability, new_rights: Rights) -> Capability {
    Capability { object: source.object, rights: Rights(source.rights.0 & new_rights.0) }
}

/// Copies the capability in `from_slot` of `from_task` into the table of
/// `to_task`, clamping its rights to `new_rights`. The source must carry the
/// grant right. Returns the new slot, or `None` if the grant is not permitted.
pub fn grant(
    tables: &mut CapTables,
    from_task: u64,
    from_slot: usize,
    to_task: u64,
    new_rights: Rights,
) -> (r: Option<usize>)
    ensures
        match cap_at(old(tables)@, from_task, from_slot as int) {
            Some(source) if source.rights.includes(Rights(Rights::GRANT)) => r is Some
                && r->Some_0 == first_free(slots_of(old(tables)@, to_task)) && final(tables)@ == after_mint(
                old(tables)@,
                to_task,
                derived(source, new_rights),
            ),
            _ => r is None && final(tables)@ == old(tables)@,
        },
{
    match lookup(tables, from_task, from_slot) {
        None => None,
        Some(source) => {
            if !source.rights.contains(Rights(Rights::GRANT)) {
                return None;
            }
            let clamped = source.rights.intersect(new_rights);
            Some(mint(tables, to_task, source.object, clamped))
        },
    }
}

/// Removes the capability in `slot` of a task's table and returns it.
pub fn revoke(tables: &mut CapTables, task_id: u64, slot: usize) -> (r: Option<Capability>)
    ensures
        r == cap_at(old(tables)@, task_id, slot as int),
        final(tables)@ == (if 0 <= slot < slots_of(old(tables)@, task_id).len() {
            old(tables)@.insert(
                task_id,
                slots_of(old(tables)@, task_id).update(slot as int, None),
            )
        } else {
            old(tables)@
        }),
{
    match tables.tables.remove(&task_id) {
        None => {
            assert(tables@ =~= old(tables)@);
            None
        },
        Some(mut table) => {
            assert(table@ == old(tables)@[task_id]);
            let r = if slot < table.slots.len() {
                let cap = table.slots[slot];
                table.slots.set(slot, None);
                cap
            } else {
                None
            };
            tables.tables.insert(task_id, table);
            proof {
                if slot < slots_of(old(tables)@, task_id).len() {
                    assert(tables@ =~= old(tables)@.insert(
                        task_id,
                        slots_of(old(tables)@, task_id).update(slot as int, None),
                    ));
                } else {
                    assert(tables@ =~= old(tables)@);
                }
            }
            r
        },
    }
}

/// Rights never grow on derivation: a granted capability carries no right its
/// source lacks, and none that was not asked for.
pub proof fn law_grant_never_amplifies(source: Capability, new_rights: Rights)
    ensures
        source.rights.includes(derived(source, new_rights).rights),
        new_rights.includes(derived(source, new_rights).rights),
        derived(source, new_rights).object == source.object,
{
    let (x, y) = (source.rights.0, new_rights.0);
    assert(x & (x & y) == x & y && y & (x & y) == x & y) by (bit_vector);
    lemma_includes_mask(source.rights, derived(source, new_rights).rights);
    lemma_includes_mask(new_rights, derived(source, new_rights).rights);
}

/// A minted capability is found in the slot that minting returned, and no
/// other slot of any task changes.
pub proof fn law_mint_then_lookup(
    tables: Map<u64, Slots>,
    task: u64,
    cap: Capability,
    other: u64,
    slot: int,
)
    ensures
        cap_at(after_mint(tables, task, cap), task, first_free(slots_of(tables, task))) == Some(
            cap,
        ),
        (other != task || slot != first_free(slots_of(tables, task))) ==> cap_at(
            after_mint(tables, task, cap),
            other,
            slot,
        ) == cap_at(tables, other, slot),
{
    lemma_first_free_bound(slots_of(tables, task));
}

proof fn lemma_first_free_bound(slots: Slots)
    ensures
        0 <= first_free(slots) <= slots.len(),
        first_free(slots) < slots.len() ==> slots[first_free(slots)] is None,
    decreases slots.len(),
{
    if slots.len() > 0 && slots[0] is Some {
        lemma_first_free_bound(slots.drop_first());
    }
}

/// Minting overwrites no capability: the slot it uses was free.
pub proof fn law_mint_uses_a_free_slot(tables: Map<u64, Slots>, task: u64)
    ensures
        cap_at(tables, task, first_free(slots_of(tables, task))) is None,
{
    lemma_first_free_bound(slots_of(tables, task));
}

} // verus!
