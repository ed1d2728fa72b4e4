//! The state of the kernel as the shell and the system calls see it.

use crate::capability::CapTables;
use crate::driver::ahci::AhciPort;
use crate::driver::block::BlockDevice;
use crate::driver::dma::DmaAllocator;
use crate::driver::irq::IrqLines;
use crate::driver::pci::PciDevice;
use crate::fs::vfs::FileSystem;
use crate::memory::{
    kernel_rw_flags, map_pages_s, page_of, usable_frames, MemoryManager, MemoryView, PRESENT,
    WRITABLE,
};
use crate::services::memfs::MemFs;
use crate::services::registry::Registry;
use crate::shell::line::History;
use vstd::prelude::*;

verus! {

/// Where the kernel heap begins.
pub const HEAP_START: u64 = 0x4444_4444_0000;

/// How large the kernel heap is.
pub const HEAP_SIZE: u64 = 8 * 1024 * 1024;

/// A task as a listing shows it.
#[derive(Debug)]
pub struct TaskInfo {
    pub id: u64,
    pub name: String,
    pub state: String,
}

/// The parts of the kernel. The file server and the service registry are absent
/// until their tasks run.
pub struct Kernel<D> {
    pub tasks: Vec<TaskInfo>,
    pub ticks: u64,
    pub history: History,
    pub caps: CapTables,
    pub irqs: IrqLines,
    pub dma: DmaAllocator,
    pub pci: Vec<PciDevice>,
    pub ports: Vec<AhciPort>,
    pub files: FileSystem<D>,
    pub memfs: Option<MemFs>,
    pub registry: Option<Registry>,
}

impl<D: BlockDevice> Kernel<D> {
    /// Each part is in order.
    pub open spec fn wf(&self) -> bool {
        &&& self.history.wf()
        &&& self.irqs.wf()
        &&& self.dma.wf()
        &&& self.files.wf()
        &&& self.memfs matches Some(fs) ==> fs.wf()
        &&& self.registry matches Some(r) ==> r.wf()
    }
}

/// Maps the pages of the kernel heap to fresh frames. Fails if frames ran out or a
/// page was mapped already.
pub fn init_heap(mem: &mut MemoryManager) -> (r: Result<(), ()>)
    requires
        old(mem).wf(),
    ensures
        final(mem).wf(),
        ({
            let (ok, m, t, next) = map_pages_s(
                usable_frames(old(mem)@.regions),
                old(mem)@.next,
                old(mem)@.kernel,
                old(mem)@.kernel_tables,
                page_of(HEAP_START),
                (HEAP_SIZE / 4096) as nat,
                PRESENT | WRITABLE,
            );
            &&& r is Ok == ok
            &&& final(mem)@ == (MemoryView { kernel: m, kernel_tables: t, next, ..old(mem)@ })
        }),
{
    match mem.map_region(HEAP_START, HEAP_SIZE / 4096, kernel_rw_flags()) {
        Some(_) => Ok(()),
        None => Err(()),
    }
}

/// A walk over the frames of a stack: where the next one is, and how many there
/// were.
#[derive(Debug, Clone, Copy, PartialEq, Eq, Structural)]
pub struct Backtrace {
    pub fp: u64,
    pub depth: u64,
}

impl Backtrace {
    /// Starts at a frame pointer.
    pub fn start(fp: u64) -> (r: Backtrace)
        ensures
            r == (Backtrace { fp, depth: 0 }),
    {
        Backtrace { fp, depth: 0 }
    }

    /// The address of the saved frame pointer to read next, behind which the
    /// return address stands. None at the end of the chain and after 32 frames.
    pub fn wanted(&self) -> (r: Option<u64>)
        ensures
            r == (if self.fp != 0 && self.depth < 32 {
                Some(self.fp)
            } else {
                None
            }),
    {
        if self.fp != 0 && self.depth < 32 {
            Some(self.fp)
        } else {
            None
        }
    }

    /// Takes what stands in a frame. Gives the number of the frame with its return
    /// address; a return address of zero ends the walk.
    pub fn take(&mut self, saved_fp: u64, return_address: u64) -> (r: Option<(u64, u64)>)
        requires
            old(self).depth < 32,
        ensures
            if return_address == 0 {
                r is None && final(self).fp == 0 && final(self).depth == old(self).depth
            } else {
                &&& r == Some((old(self).depth, return_address))
                &&& *final(self) == (Backtrace { fp: saved_fp, depth: (old(self).depth + 1) as u64 })
            },
    {
        if return_address == 0 {
            self.fp = 0;
            return None;
        }
        let at: u64 = self.depth;
        self.fp = saved_fp;
        self.depth = at + 1;
        Some((at, return_address))
    }
}

} // verus!
