//! A transfer from beginning to end: wait until the port is idle, lay the command
//! out in memory, run it, flush what was written, and give the memory back.

use crate::driver::ahci::{
    port_base, port_base_s, RegAction, ATA_CMD_FLUSH_CACHE_EXT, ATA_CMD_IDENTIFY, PORT_TFD,
};
use crate::driver::ahci_cmd::{
    command_header, command_table, flush_command, header_s, identify_command, plan_transfer,
    run_action_s, run_rank, run_step_s, table_s, transfer_s, wait_idle_s, CommandEnd, Direction,
    DiskCommand, Run, Transfer, WaitIdle,
};
use crate::driver::dma::{alloc_dma_s, DmaAllocator, DmaBuffer};
use crate::driver::mmio::AccessError;
use vstd::prelude::*;

verus! {

/// How often a port that is busy is looked at before a command.
pub const IDLE_TRIES: u32 = 1000;

/// How a job ended.
#[derive(Debug, Clone, Copy, PartialEq, Eq, Structural)]
pub enum JobEnd {
    Done,
    Busy,
    NoTable,
    Broken(CommandEnd),
}

/// Where a job is.
#[derive(Debug, Clone, Copy, PartialEq, Eq, Structural)]
pub enum Phase {
    Wait(WaitIdle),
    LayOut,
    Execute(Run),
    Ended(JobEnd),
}

/// A transfer under way: the registers of the port, its command list, the mark that
/// the pool goes back to, the bounce buffer, the command, and whether what it writes
/// is still to be flushed.
#[derive(Debug, Clone, Copy, PartialEq, Eq, Structural)]
pub struct DiskJob {
    pub base: u64,
    pub list: u64,
    pub mark: u64,
    pub buffer: DmaBuffer,
    pub command: DiskCommand,
    pub flush: bool,
    pub phase: Phase,
}

/// What a job wants next: an access to a register, its command laid out in memory, or
/// nothing more.
#[derive(Debug, Clone, Copy, PartialEq, Eq, Structural)]
pub enum JobAction {
    Reg(RegAction),
    LayOut,
    Ended,
}

/// The parts of a command as they go into memory.
#[derive(Debug)]
pub struct Layout {
    pub list: u64,
    pub header: Vec<u8>,
    pub table: u64,
    pub body: Vec<u8>,
}

/// The command that makes written data durable.
pub open spec fn flush_s() -> DiskCommand {
    DiskCommand {
        command: ATA_CMD_FLUSH_CACHE_EXT,
        lba: 0,
        sectors: 0,
        data_phys: 0,
        byte_count: 0,
        dir: Direction::NoData,
    }
}

/// The phase that every command begins with.
pub open spec fn first_phase() -> Phase {
    Phase::Wait(WaitIdle::Poll { left: IDLE_TRIES })
}

/// A job for a transfer that was prepared.
pub open spec fn job_s(context: (u64, u64), index: u8, t: Transfer, write: bool) -> DiskJob {
    DiskJob {
        base: port_base_s(context.0, index),
        list: context.1,
        mark: t.mark,
        buffer: t.buffer,
        command: t.command,
        flush: write,
        phase: first_phase(),
    }
}

/// Beginning to identify a drive. None if the port is unknown or the pool is
/// exhausted, and then the pool is as it was.
pub open spec fn identify_s(dma: DmaAllocator, context: Option<(u64, u64)>, index: u8) -> (
    Option<DiskJob>,
    DmaAllocator,
) {
    match context {
        None => (None, dma),
        Some(c) => match alloc_dma_s(DmaAllocator { in_mark: true, ..dma }, 512) {
            (None, _) => (None, dma),
            (Some(b), dma1) => (
                Some(
                    job_s(
                        c,
                        index,
                        Transfer {
                            mark: dma.next_offset,
                            buffer: b,
                            command: DiskCommand {
                                command: ATA_CMD_IDENTIFY,
                                lba: 0,
                                sectors: 1,
                                data_phys: b.phys,
                                byte_count: 512,
                                dir: Direction::Read,
                            },
                        },
                        false,
                    ),
                ),
                dma1,
            ),
        },
    }
}

/// What follows when an access answered `read`.
pub open spec fn job_step_s(j: DiskJob, read: Result<u32, AccessError>) -> DiskJob {
    match j.phase {
        Phase::Wait(w) => DiskJob {
            phase: match wait_idle_s(
                w,
                match read {
                    Ok(v) => Some(v),
                    Err(_) => None,
                },
            ) {
                WaitIdle::Idle => Phase::LayOut,
                WaitIdle::Busy => Phase::Ended(JobEnd::Busy),
                w1 => Phase::Wait(w1),
            },
            ..j
        },
        Phase::Execute(r) => match run_step_s(r, read) {
            Run::Ended(CommandEnd::Completed) => if j.flush {
                DiskJob { command: flush_s(), flush: false, phase: first_phase(), ..j }
            } else {
                DiskJob { phase: Phase::Ended(JobEnd::Done), ..j }
            },
            Run::Ended(e) => DiskJob { phase: Phase::Ended(JobEnd::Broken(e)), ..j },
            r1 => DiskJob { phase: Phase::Execute(r1), ..j },
        },
        _ => j,
    }
}

/// Laying out the command: a table is allocated for it.
pub open spec fn laid_out_s(j: DiskJob, dma: DmaAllocator) -> (Option<u64>, DiskJob, DmaAllocator) {
    match alloc_dma_s(dma, 256) {
        (None, _) => (None, DiskJob { phase: Phase::Ended(JobEnd::NoTable), ..j }, dma),
        (Some(b), dma1) => (
            Some(b.phys),
            DiskJob { phase: Phase::Execute(Run::ReadStatus), ..j },
            dma1,
        ),
    }
}

/// The pool once a job has given its memory back.
pub open spec fn given_back(j: DiskJob, dma: DmaAllocator) -> DmaAllocator {
    DmaAllocator {
        in_mark: false,
        next_offset: if j.mark <= dma.next_offset {
            j.mark
        } else {
            dma.next_offset
        },
        ..dma
    }
}

/// The error of a job that did not end well.
pub open spec fn job_error(e: JobEnd) -> Option<Seq<char>> {
    match e {
        JobEnd::Done => None,
        JobEnd::Busy => Some("port busy before command"@),
        JobEnd::NoTable => Some("dma alloc (command table) failed"@),
        JobEnd::Broken(CommandEnd::Completed) => None,
        JobEnd::Broken(CommandEnd::Denied(d)) => Some(d.text_s()),
        JobEnd::Broken(CommandEnd::Timeout) => Some("command timeout"@),
        JobEnd::Broken(CommandEnd::Failed) => Some("command failed (TFD error bit set)"@),
    }
}

impl DiskJob {
    /// Begins to read or write sectors. None if there is nothing to do.
    pub fn start(
        dma: &mut DmaAllocator,
        context: Option<(u64, u64)>,
        index: u8,
        lba: u64,
        count: u16,
        buf_len: usize,
        write: bool,
    ) -> (r: Result<Option<DiskJob>, &'static str>)
        requires
            old(dma).wf(),
            !old(dma).in_mark,
            context matches Some(c) ==> c.0 <= u32::MAX,
        ensures
            final(dma).wf(),
            ({
                let (want, d) = transfer_s(*old(dma), context, lba, count, buf_len as nat, write);
                &&& *final(dma) == d
                &&& match want {
                    Err(e) => r matches Err(x) && x@ == e,
                    Ok(None) => r == Ok::<Option<DiskJob>, &'static str>(None),
                    Ok(Some(t)) => r == Ok::<Option<DiskJob>, &'static str>(
                        Some(job_s(context->Some_0, index, t, write)),
                    ),
                }
            }),
    {
        match plan_transfer(dma, context, lba, count, buf_len, write) {
            Err(e) => Err(e),
            Ok(None) => Ok(None),
            Ok(Some(t)) => match context {
                None => Ok(None),
                Some(c) => Ok(
                    Some(
                        DiskJob {
                            base: port_base(c.0, index),
                            list: c.1,
                            mark: t.mark,
                            buffer: t.buffer,
                            command: t.command,
                            flush: write,
                            phase: Phase::Wait(WaitIdle::start(IDLE_TRIES)),
                        },
                    ),
                ),
            },
        }
    }

    /// Begins to ask a drive what it is.
    pub fn start_identify(dma: &mut DmaAllocator, context: Option<(u64, u64)>, index: u8) -> (r:
        Option<DiskJob>)
        requires
            old(dma).wf(),
            !old(dma).in_mark,
            context matches Some(c) ==> c.0 <= u32::MAX,
        ensures
            final(dma).wf(),
            (r, *final(dma)) == identify_s(*old(dma), context, index),
    {
        match context {
            None => None,
            Some(c) => {
                let mark: u64 = dma.mark();
                match dma.alloc_dma(512) {
                    None => {
                        dma.reset_to(mark);
                        None
                    },
                    Some(buffer) => Some(
                        DiskJob {
                            base: port_base(c.0, index),
                            list: c.1,
                            mark,
                            buffer,
                            command: identify_command(buffer.phys),
                            flush: false,
                            phase: Phase::Wait(WaitIdle::start(IDLE_TRIES)),
                        },
                    ),
                }
            },
        }
    }

    /// What is needed next.
    pub fn action(&self) -> (r: JobAction)
        requires
            self.base <= 0x1_0000_0000_0000,
        ensures
            r == (match self.phase {
                Phase::Wait(WaitIdle::Poll { .. }) => JobAction::Reg(
                    RegAction::Read((self.base + PORT_TFD) as u64),
                ),
                Phase::Wait(WaitIdle::Pause { .. }) => JobAction::Reg(RegAction::Yield),
                Phase::Wait(_) => JobAction::Reg(RegAction::Finished),
                Phase::LayOut => JobAction::LayOut,
                Phase::Execute(x) => JobAction::Reg(run_action_s(self.base, x)),
                Phase::Ended(_) => JobAction::Ended,
            }),
    {
        match self.phase {
            Phase::Wait(w) => JobAction::Reg(w.action(self.base)),
            Phase::LayOut => JobAction::LayOut,
            Phase::Execute(x) => JobAction::Reg(x.action(self.base)),
            Phase::Ended(_) => JobAction::Ended,
        }
    }

    /// Takes what the access answered.
    pub fn step(self, read: Result<u32, AccessError>) -> (r: DiskJob)
        ensures
            r == job_step_s(self, read),
    {
        match self.phase {
            Phase::Wait(w) => {
                let phase = match w.step(read.ok()) {
                    WaitIdle::Idle => Phase::LayOut,
                    WaitIdle::Busy => Phase::Ended(JobEnd::Busy),
                    w1 => Phase::Wait(w1),
                };
                DiskJob { phase, ..self }
            },
            Phase::Execute(x) => match x.step(read) {
                Run::Ended(CommandEnd::Completed) => {
                    if self.flush {
                        DiskJob {
                            command: flush_command(),
                            flush: false,
                            phase: Phase::Wait(WaitIdle::start(IDLE_TRIES)),
                            ..self
                        }
                    } else {
                        DiskJob { phase: Phase::Ended(JobEnd::Done), ..self }
                    }
                },
                Run::Ended(e) => DiskJob { phase: Phase::Ended(JobEnd::Broken(e)), ..self },
                x1 => DiskJob { phase: Phase::Execute(x1), ..self },
            },
            _ => self,
        }
    }

    /// Takes memory for the command and gives what goes there; None if there is none.
    pub fn lay_out(&mut self, dma: &mut DmaAllocator) -> (r: Option<Layout>)
        requires
            old(dma).wf(),
        ensures
            final(dma).wf(),
            ({
                let (table, j, d) = laid_out_s(*old(self), *old(dma));
                &&& *final(self) == j
                &&& *final(dma) == d
                &&& match table {
                    None => r is None,
                    Some(t) => {
                        &&& r is Some
                        &&& r->Some_0.list == j.list
                        &&& r->Some_0.header@ == header_s(j.command, t)
                        &&& r->Some_0.table == t
                        &&& r->Some_0.body@ == table_s(j.command)
                    },
                }
            }),
    {
        match dma.alloc_dma(256) {
            None => {
                self.phase = Phase::Ended(JobEnd::NoTable);
                None
            },
            Some(b) => {
                self.phase = Phase::Execute(Run::ReadStatus);
                Some(
                    Layout {
                        list: self.list,
                        header: command_header(&self.command, b.phys),
                        table: b.phys,
                        body: command_table(&self.command),
                    },
                )
            },
        }
    }

    /// Gives the memory back and says how the job ended; a job that did not end is
    /// given up as one that took too long.
    pub fn finish(self, dma: &mut DmaAllocator) -> (r: Result<(), &'static str>)
        requires
            old(dma).in_mark,
        ensures
            *final(dma) == given_back(self, *old(dma)),
            match job_error(
                match self.phase {
                    Phase::Ended(e) => e,
                    _ => JobEnd::Broken(CommandEnd::Timeout),
                },
            ) {
                None => r is Ok,
                Some(e) => r matches Err(x) && x@ == e,
            },
    {
        dma.reset_to(self.mark);
        match self.phase {
            Phase::Ended(JobEnd::Done) => Ok(()),
            Phase::Ended(JobEnd::Busy) => Err("port busy before command"),
            Phase::Ended(JobEnd::NoTable) => Err("dma alloc (command table) failed"),
            Phase::Ended(JobEnd::Broken(e)) => e.result(),
            _ => Err("command timeout"),
        }
    }
}

/// How many accesses and layouts are left at most.
pub open spec fn job_rank(j: DiskJob) -> int {
    let rest: int = if j.flush {
        20000
    } else {
        0
    };
    match j.phase {
        Phase::Wait(WaitIdle::Poll { left }) => rest + 11000 + 2 * left,
        Phase::Wait(WaitIdle::Pause { left }) => rest + 11000 + 2 * left + 1,
        Phase::Wait(_) => rest + 10999,
        Phase::LayOut => rest + 10002,
        Phase::Execute(r) => rest + 1 + run_rank(r),
        Phase::Ended(_) => 0,
    }
}

/// The counters of a job are within their limits.
pub open spec fn job_ok(j: DiskJob) -> bool {
    &&& j.phase matches Phase::Wait(w) ==> match w {
        WaitIdle::Poll { left } => 0 < left <= IDLE_TRIES,
        WaitIdle::Pause { left } => left < IDLE_TRIES,
        _ => false,
    }
    &&& j.phase matches Phase::Execute(r) ==> match r {
        Run::PollIssue { left } => 0 < left <= 2000,
        Run::PollError { left } => 0 < left <= 2000,
        Run::Pause { left } => 0 < left <= 2000,
        Run::Ended(_) => false,
        _ => true,
    }
}

/// A job comes to an end whatever the registers read and whether or not there is
/// memory for its commands.
pub proof fn law_job_ends(j: DiskJob, read: Result<u32, AccessError>, dma: DmaAllocator)
    requires
        job_ok(j),
    ensures
        job_rank(j) >= 0,
        j.phase is Wait || j.phase is Execute ==> {
            &&& job_ok(job_step_s(j, read))
            &&& job_rank(job_step_s(j, read)) < job_rank(j)
        },
        j.phase is LayOut ==> {
            &&& job_ok(laid_out_s(j, dma).1)
            &&& job_rank(laid_out_s(j, dma).1) < job_rank(j)
        },
{
}

/// A job that writes ends well only after what it wrote was flushed: as long as the
/// flush is owed it cannot end well, and what removes the debt is a command that
/// completed and makes room for the flush.
pub proof fn law_writes_are_flushed(j: DiskJob, read: Result<u32, AccessError>, dma: DmaAllocator)
    requires
        j.flush,
        j.phase != Phase::Ended(JobEnd::Done),
    ensures
        job_step_s(j, read).phase != Phase::Ended(JobEnd::Done),
        laid_out_s(j, dma).1.phase != Phase::Ended(JobEnd::Done),
        laid_out_s(j, dma).1.flush,
        !job_step_s(j, read).flush ==> {
            &&& job_step_s(j, read).command == flush_s()
            &&& job_step_s(j, read).phase == first_phase()
            &&& j.phase is Execute
            &&& run_step_s(j.phase->Execute_0, read) == Run::Ended(CommandEnd::Completed)
        },
{
}

/// However many commands a job lays out, the pool is afterwards as it was before.
pub proof fn law_job_gives_its_memory_back(
    dma: DmaAllocator,
    context: (u64, u64),
    index: u8,
    lba: u64,
    count: u16,
    buf_len: nat,
    write: bool,
)
    requires
        dma.wf(),
        !dma.in_mark,
        transfer_s(dma, Some(context), lba, count, buf_len, write).0 matches Ok(Some(_)),
    ensures
        ({
            let (r, d) = transfer_s(dma, Some(context), lba, count, buf_len, write);
            let j = job_s(context, index, r->Ok_0->Some_0, write);
            let d1 = laid_out_s(j, d).2;
            let d2 = laid_out_s(j, d1).2;
            &&& given_back(j, d) == dma
            &&& given_back(j, d1) == dma
            &&& given_back(j, d2) == dma
        }),
{
    let (r, d) = transfer_s(dma, Some(context), lba, count, buf_len, write);
    let j = job_s(context, index, r->Ok_0->Some_0, write);
    assert(dma.next_offset <= d.next_offset);
    let d1 = laid_out_s(j, d).2;
    assert(d.next_offset <= d1.next_offset);
}

} // verus!
