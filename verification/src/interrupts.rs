//! Decisions of the interrupt handlers.

use crate::memory::{resolve_cow_s, FrameCopy, MemoryManager, MemoryView};
use vstd::prelude::*;

verus! {

/// First vector of the primary interrupt controller, past the exceptions.
pub const PIC_1_OFFSET: u8 = 32;

/// First vector of the secondary interrupt controller.
pub const PIC_2_OFFSET: u8 = 40;

/// The hardware interrupts that are handled.
#[derive(Debug, Clone, Copy, PartialEq, Eq, Structural)]
pub enum InterruptIndex {
    Timer,
    Keyboard,
    Ahci,
    Mouse,
}

impl InterruptIndex {
    /// The interrupt line.
    pub open spec fn line(self) -> int {
        match self {
            InterruptIndex::Timer => 0,
            InterruptIndex::Keyboard => 1,
            InterruptIndex::Ahci => 11,
            InterruptIndex::Mouse => 12,
        }
    }

    /// The vector of an interrupt.
    pub fn as_u8(self) -> (r: u8)
        ensures
            r == PIC_1_OFFSET + self.line(),
    {
        match self {
            InterruptIndex::Timer => PIC_1_OFFSET,
            InterruptIndex::Keyboard => PIC_1_OFFSET + 1,
            InterruptIndex::Ahci => PIC_1_OFFSET + 11,
            InterruptIndex::Mouse => PIC_1_OFFSET + 12,
        }
    }

    /// The vector of an interrupt.
    pub fn as_usize(self) -> (r: usize)
        ensures
            r == PIC_1_OFFSET + self.line(),
    {
        self.as_u8() as usize
    }
}

/// Whether a trap came from ring 3: the low two bits of the code segment.
pub open spec fn in_user_mode(code_segment: u64) -> bool {
    code_segment % 4 == 3
}

/// Whether a trap came from ring 3.
pub fn faulted_in_user_mode(code_segment: u64) -> (r: bool)
    ensures
        r == in_user_mode(code_segment),
{
    code_segment % 4 == 3
}

/// What is to be done about an exception: the instruction is retried after a
/// frame was copied, the task ends with a status, or the kernel stops.
#[derive(Debug, Clone, Copy, PartialEq, Eq, Structural)]
pub enum FaultAction {
    Retry(FrameCopy),
    ExitTask(i32),
    Panic,
}

/// A task that executes an invalid instruction ends; in the kernel it is fatal.
pub fn invalid_opcode(code_segment: u64) -> (r: FaultAction)
    ensures
        r == (if in_user_mode(code_segment) {
            FaultAction::ExitTask(132)
        } else {
            FaultAction::Panic
        }),
{
    if faulted_in_user_mode(code_segment) {
        FaultAction::ExitTask(132)
    } else {
        FaultAction::Panic
    }
}

/// A task that violates protection ends; in the kernel it is fatal.
pub fn general_protection_fault(code_segment: u64) -> (r: FaultAction)
    ensures
        r == (if in_user_mode(code_segment) {
            FaultAction::ExitTask(139)
        } else {
            FaultAction::Panic
        }),
{
    if faulted_in_user_mode(code_segment) {
        FaultAction::ExitTask(139)
    } else {
        FaultAction::Panic
    }
}

/// Error code of a page fault: the page was there but its permissions forbid the
/// access, the access was a write, it came from user mode.
pub const PROTECTION_VIOLATION: u64 = 1;

pub const CAUSED_BY_WRITE: u64 = 2;

pub const USER_MODE: u64 = 4;

/// Serving a page fault of a task with root table `cr3`. A write from user mode
/// to a page that is shared until written to gets the task a frame of its own;
/// any other fault of a task ends it, and one of the kernel is fatal.
pub open spec fn page_fault_s(
    m: MemoryView,
    cr3: Option<u64>,
    addr: u64,
    error_code: u64,
    code_segment: u64,
) -> (FaultAction, MemoryView) {
    let shared_write = error_code & USER_MODE != 0 && error_code & CAUSED_BY_WRITE != 0
        && error_code & PROTECTION_VIOLATION != 0;
    let end = if error_code & USER_MODE != 0 || in_user_mode(code_segment) {
        FaultAction::ExitTask(139)
    } else {
        FaultAction::Panic
    };
    match cr3 {
        Some(root) => if shared_write {
            match resolve_cow_s(m, root, addr) {
                (Some(copy), m1) => (FaultAction::Retry(copy), m1),
                (None, m1) => (end, m1),
            }
        } else {
            (end, m)
        },
        None => (end, m),
    }
}

/// Serves a page fault.
pub fn page_fault(
    mem: &mut MemoryManager,
    cr3: Option<u64>,
    addr: u64,
    error_code: u64,
    code_segment: u64,
) -> (r: FaultAction)
    requires
        old(mem).wf(),
    ensures
        final(mem).wf(),
        (r, final(mem)@) == page_fault_s(old(mem)@, cr3, addr, error_code, code_segment),
{
    if error_code & USER_MODE != 0 && error_code & CAUSED_BY_WRITE != 0 && error_code
        & PROTECTION_VIOLATION != 0 {
        if let Some(root) = cr3 {
            if let Some(copy) = mem.resolve_cow_fault(root, addr) {
                return FaultAction::Retry(copy);
            }
        }
    }
    if error_code & USER_MODE != 0 || faulted_in_user_mode(code_segment) {
        FaultAction::ExitTask(139)
    } else {
        FaultAction::Panic
    }
}

/// Which mask register an interrupt line is in.
pub fn mask_port(irq: u8) -> (r: Option<u16>)
    ensures
        r == (if irq < 8 {
            Some(0x21u16)
        } else if irq < 16 {
            Some(0xA1u16)
        } else {
            None
        }),
{
    if irq < 8 {
        Some(0x21)
    } else if irq < 16 {
        Some(0xA1)
    } else {
        None
    }
}

/// A mask register with the bit of a line cleared, so that its interrupts reach
/// the processor.
pub fn unmask_irq(irq: u8, mask: u8) -> (r: u8)
    requires
        irq < 16,
    ensures
        r == mask & !(1u8 << (irq % 8)),
{
    mask & !(1u8 << (irq % 8))
}

/// A fault in user mode never stops the kernel.
pub proof fn law_user_faults_do_not_panic(
    m: MemoryView,
    cr3: Option<u64>,
    addr: u64,
    error_code: u64,
    code_segment: u64,
)
    requires
        error_code & USER_MODE != 0 || in_user_mode(code_segment),
    ensures
        page_fault_s(m, cr3, addr, error_code, code_segment).0 !is Panic,
{
}

/// A page fault is the kernel's own only if neither its error code nor the code segment
/// says user mode. A task's fault ends it with the status of a segmentation fault, unless
/// it wrote to a page that is there, and got a frame of its own for it; what else is
/// mapped stays as it is when nothing was copied for a fault.
pub proof fn law_page_faults_are_answered(
    m: MemoryView,
    cr3: Option<u64>,
    addr: u64,
    error_code: u64,
    code_segment: u64,
)
    ensures
        ({
            let (r, m1) = page_fault_s(m, cr3, addr, error_code, code_segment);
            let user = error_code as int / 4 % 2 == 1;
            let wrote = error_code as int / 2 % 2 == 1;
            let there = error_code as int % 2 == 1;
            &&& r is Panic ==> !user && code_segment as int % 4 != 3
            &&& (r matches FaultAction::ExitTask(status) ==> status == 128 + 11 && (user
                || code_segment as int % 4 == 3))
            &&& (r matches FaultAction::Retry(copy) ==> user && wrote && there && (cr3 matches Some(
                root,
            ) && resolve_cow_s(m, root, addr) == (Some(copy), m1)))
            &&& user && wrote && there ==> (cr3 matches Some(root) ==> (resolve_cow_s(
                m,
                root,
                addr,
            ).0 is Some ==> r is Retry))
            &&& !(user && wrote && there) ==> m1 == m
        }),
{
    assert(error_code & 4 != 0 <==> error_code / 4 % 2 == 1) by (bit_vector);
    assert(error_code & 2 != 0 <==> error_code / 2 % 2 == 1) by (bit_vector);
    assert(error_code & 1 != 0 <==> error_code % 2 == 1) by (bit_vector);
}

} // verus!
