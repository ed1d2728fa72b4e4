//! Commands to AHCI devices: building them, running them, and what an IDENTIFY
//! response says.

use crate::bytes::{
    get16, get64, le16, le32, le64, push_fill, push_u16, push_u32, push_u64, read_u16, read_u64,
    zeros,
};
use crate::driver::ahci::{
    AhciController, AhciPort, RegAction, ATA_CMD_FLUSH_CACHE_EXT, ATA_CMD_IDENTIFY,
    ATA_CMD_READ_DMA_EXT, ATA_CMD_WRITE_DMA_EXT, PORT_CI, PORT_IS, PORT_TFD, SECTOR_SIZE, TFD_BSY,
    TFD_DRQ, TFD_ERR,
};
use crate::driver::block::AhciBlockDevice;
use crate::driver::dma::{alloc_dma_s, DmaAllocator, DmaBuffer};
use crate::driver::mmio::AccessError;
use crate::text::{decimal, lossy, lossy_text, push_decimal, trim, trimmed};
use vstd::prelude::*;

verus! {

/// Which way the data of a command goes.
#[derive(Debug, Clone, Copy, PartialEq, Eq, Structural)]
pub enum Direction {
    NoData,
    Read,
    Write,
}

/// A command to a device: what it is, the first sector, how many, where the data
/// is, how much, and which way it goes.
#[derive(Debug, Clone, Copy, PartialEq, Eq, Structural)]
pub struct DiskCommand {
    pub command: u8,
    pub lba: u64,
    pub sectors: u16,
    pub data_phys: u64,
    pub byte_count: u32,
    pub dir: Direction,
}

/// The first 16 bytes of a command header: a frame of five words, whether data
/// goes to the device, how many data descriptors there are, and where the
/// command table is.
pub open spec fn header_s(c: DiskCommand, table_phys: u64) -> Seq<u8> {
    le16(
        if c.dir == Direction::Write {
            69u16
        } else {
            5u16
        },
    ) + le16(
        if c.byte_count > 0 {
            1u16
        } else {
            0u16
        },
    ) + le32(0) + le64(table_phys)
}

/// The frame that is sent to the device. The 48-bit sector number is split over
/// two banks of registers.
pub open spec fn frame_s(c: DiskCommand) -> Seq<u8> {
    let l = le64(c.lba);
    let n = le16(c.sectors);
    seq![
        0x27u8,
        0x80u8,
        c.command,
        0u8,
        l[0],
        l[1],
        l[2],
        if c.command == ATA_CMD_IDENTIFY {
            0u8
        } else {
            0x40u8
        },
        l[3],
        l[4],
        l[5],
        0u8,
        n[0],
        n[1],
        0u8,
        0u8,
        0u8,
        0u8,
        0u8,
        0u8,
    ]
}

/// The descriptor of the data: its address, and its length less one, which is
/// odd.
pub open spec fn descriptor_s(c: DiskCommand) -> Seq<u8> {
    if c.byte_count > 0 {
        le64(c.data_phys) + le32(0) + le32(((c.byte_count - 1) as u32) | 1)
    } else {
        zeros(16)
    }
}

/// The 256 bytes of a command table.
pub open spec fn table_s(c: DiskCommand) -> Seq<u8> {
    frame_s(c) + zeros(108) + descriptor_s(c) + zeros(112)
}

/// Builds the header of a command.
pub fn command_header(c: &DiskCommand, table_phys: u64) -> (r: Vec<u8>)
    ensures
        r@ == header_s(*c, table_phys),
{
    let mut v: Vec<u8> = Vec::new();
    push_u16(
        &mut v,
        if c.dir == Direction::Write {
            69
        } else {
            5
        },
    );
    push_u16(
        &mut v,
        if c.byte_count > 0 {
            1
        } else {
            0
        },
    );
    push_u32(&mut v, 0);
    push_u64(&mut v, table_phys);
    assert(v@ =~= header_s(*c, table_phys));
    v
}

/// Builds the table of a command.
pub fn command_table(c: &DiskCommand) -> (r: Vec<u8>)
    ensures
        r@ == table_s(*c),
        r@.len() == 256,
{
    let mut lba: Vec<u8> = Vec::new();
    push_u64(&mut lba, c.lba);
    let mut n: Vec<u8> = Vec::new();
    push_u16(&mut n, c.sectors);
    assert(lba@ =~= le64(c.lba));
    assert(n@ =~= le16(c.sectors));
    let mut v: Vec<u8> = Vec::new();
    v.push(0x27);
    v.push(0x80);
    v.push(c.command);
    v.push(0);
    v.push(lba[0]);
    v.push(lba[1]);
    v.push(lba[2]);
    v.push(
        if c.command == ATA_CMD_IDENTIFY {
            0
        } else {
            0x40
        },
    );
    v.push(lba[3]);
    v.push(lba[4]);
    v.push(lba[5]);
    v.push(0);
    v.push(n[0]);
    v.push(n[1]);
    push_fill(&mut v, 0, 6);
    assert(v@ =~= frame_s(*c));
    push_fill(&mut v, 0, 108);
    assert(v@ =~= frame_s(*c) + zeros(108));
    let ghost before = v@;
    if c.byte_count > 0 {
        push_u64(&mut v, c.data_phys);
        push_u32(&mut v, 0);
        push_u32(&mut v, (c.byte_count - 1) | 1);
    } else {
        push_fill(&mut v, 0, 16);
    }
    assert(v@ =~= before + descriptor_s(*c));
    push_fill(&mut v, 0, 112);
    assert(v@ =~= table_s(*c));
    v
}

/// Waiting until a port is neither busy nor waiting for data.
#[derive(Debug, Clone, Copy, PartialEq, Eq, Structural)]
pub enum WaitIdle {
    Poll { left: u32 },
    Pause { left: u32 },
    Idle,
    Busy,
}

/// What follows when the task file register read `tfd`; None where it could not
/// be read.
pub open spec fn wait_idle_s(st: WaitIdle, tfd: Option<u32>) -> WaitIdle {
    match st {
        WaitIdle::Poll { left } => match tfd {
            None => WaitIdle::Busy,
            Some(v) => if left == 0 {
                WaitIdle::Busy
            } else if v & (TFD_BSY | TFD_DRQ) == 0 {
                WaitIdle::Idle
            } else {
                WaitIdle::Pause { left: (left - 1) as u32 }
            },
        },
        WaitIdle::Pause { left } => if left == 0 {
            WaitIdle::Busy
        } else {
            WaitIdle::Poll { left }
        },
        _ => st,
    }
}

impl WaitIdle {
    /// Looks at most `tries` times.
    pub fn start(tries: u32) -> (r: WaitIdle)
        ensures
            r == (if tries == 0 {
                WaitIdle::Busy
            } else {
                WaitIdle::Poll { left: tries }
            }),
    {
        if tries == 0 {
            WaitIdle::Busy
        } else {
            WaitIdle::Poll { left: tries }
        }
    }

    /// The access that is needed next.
    pub fn action(&self, base: u64) -> (r: RegAction)
        requires
            base <= 0x1_0000_0000_0000,
        ensures
            r == (match *self {
                WaitIdle::Poll { .. } => RegAction::Read((base + PORT_TFD) as u64),
                WaitIdle::Pause { .. } => RegAction::Yield,
                _ => RegAction::Finished,
            }),
    {
        match *self {
            WaitIdle::Poll { .. } => RegAction::Read(base + PORT_TFD),
            WaitIdle::Pause { .. } => RegAction::Yield,
            _ => RegAction::Finished,
        }
    }

    /// Takes what was read.
    pub fn step(self, tfd: Option<u32>) -> (r: WaitIdle)
        ensures
            r == wait_idle_s(self, tfd),
    {
        match self {
            WaitIdle::Poll { left } => match tfd {
                None => WaitIdle::Busy,
                Some(v) => {
                    if left == 0 {
                        WaitIdle::Busy
                    } else if v & (TFD_BSY | TFD_DRQ) == 0 {
                        WaitIdle::Idle
                    } else {
                        WaitIdle::Pause { left: left - 1 }
                    }
                },
            },
            WaitIdle::Pause { left } => {
                if left == 0 {
                    WaitIdle::Busy
                } else {
                    WaitIdle::Poll { left }
                }
            },
            other => other,
        }
    }
}

/// How a command ended.
#[derive(Debug, Clone, Copy, PartialEq, Eq, Structural)]
pub enum CommandEnd {
    Completed,
    Denied(AccessError),
    Timeout,
    Failed,
}

impl CommandEnd {
    /// The error of a command that did not complete.
    pub fn result(&self) -> (r: Result<(), &'static str>)
        ensures
            match *self {
                CommandEnd::Completed => r is Ok,
                CommandEnd::Denied(d) => r matches Err(e) && e@ == d.text_s(),
                CommandEnd::Timeout => r matches Err(e) && e@ == "command timeout"@,
                CommandEnd::Failed => r matches Err(e) && e@
                    == "command failed (TFD error bit set)"@,
            },
    {
        match *self {
            CommandEnd::Completed => Ok(()),
            CommandEnd::Denied(d) => Err(d.text()),
            CommandEnd::Timeout => Err("command timeout"),
            CommandEnd::Failed => Err("command failed (TFD error bit set)"),
        }
    }
}

/// Running a command that was built in slot 0: clear old interrupts, issue the
/// command, wait until it retires or fails, and look at the result.
#[derive(Debug, Clone, Copy, PartialEq, Eq, Structural)]
pub enum Run {
    ReadStatus,
    WriteStatus { v: u32 },
    Issue,
    PollIssue { left: u32 },
    PollError { left: u32 },
    Pause { left: u32 },
    ReadResult,
    Ended(CommandEnd),
}

/// The access that a running command needs next.
pub open spec fn run_action_s(base: u64, st: Run) -> RegAction {
    match st {
        Run::ReadStatus => RegAction::Read((base + PORT_IS) as u64),
        Run::WriteStatus { v } => RegAction::Write((base + PORT_IS) as u64, v),
        Run::Issue => RegAction::Write((base + PORT_CI) as u64, 1),
        Run::PollIssue { .. } => RegAction::Read((base + PORT_CI) as u64),
        Run::PollError { .. } => RegAction::Read((base + PORT_TFD) as u64),
        Run::Pause { .. } => RegAction::Yield,
        Run::ReadResult => RegAction::Read((base + PORT_TFD) as u64),
        Run::Ended(_) => RegAction::Finished,
    }
}

/// What follows when an access answered `v`; an access that fails ends the command with
/// its error. The command is looked at 2000 times at most.
pub open spec fn run_step_s(st: Run, v: Result<u32, AccessError>) -> Run {
    if v is Err && !(st is Pause || st is Ended) {
        Run::Ended(CommandEnd::Denied(v->Err_0))
    } else {
        let v = v->Ok_0;
        match st {
            Run::ReadStatus => Run::WriteStatus { v },
            Run::WriteStatus { .. } => Run::Issue,
            Run::Issue => Run::PollIssue { left: 2000 },
            Run::PollIssue { left } => if v & 1 == 0 {
                Run::ReadResult
            } else {
                Run::PollError { left }
            },
            Run::PollError { left } => if v & TFD_ERR != 0 {
                Run::Ended(CommandEnd::Timeout)
            } else {
                Run::Pause { left }
            },
            Run::Pause { left } => if left <= 1 {
                Run::Ended(CommandEnd::Timeout)
            } else {
                Run::PollIssue { left: (left - 1) as u32 }
            },
            Run::ReadResult => if v & TFD_ERR != 0 {
                Run::Ended(CommandEnd::Failed)
            } else {
                Run::Ended(CommandEnd::Completed)
            },
            Run::Ended(e) => Run::Ended(e),
        }
    }
}

/// How many steps are left at most.
pub open spec fn run_rank(st: Run) -> int {
    match st {
        Run::ReadStatus => 10000,
        Run::WriteStatus { .. } => 9999,
        Run::Issue => 9998,
        Run::PollIssue { left } => 3 * left + 3,
        Run::PollError { left } => 3 * left + 2,
        Run::Pause { left } => 3 * left + 1,
        Run::ReadResult => 1,
        Run::Ended(_) => 0,
    }
}

impl Run {
    /// The access that is needed next.
    pub fn action(&self, base: u64) -> (r: RegAction)
        requires
            base <= 0x1_0000_0000_0000,
        ensures
            r == run_action_s(base, *self),
    {
        match *self {
            Run::ReadStatus => RegAction::Read(base + PORT_IS),
            Run::WriteStatus { v } => RegAction::Write(base + PORT_IS, v),
            Run::Issue => RegAction::Write(base + PORT_CI, 1),
            Run::PollIssue { .. } => RegAction::Read(base + PORT_CI),
            Run::PollError { .. } => RegAction::Read(base + PORT_TFD),
            Run::Pause { .. } => RegAction::Yield,
            Run::ReadResult => RegAction::Read(base + PORT_TFD),
            Run::Ended(_) => RegAction::Finished,
        }
    }

    /// Takes what the access answered.
    pub fn step(self, read: Result<u32, AccessError>) -> (r: Run)
        ensures
            r == run_step_s(self, read),
    {
        match self {
            Run::Pause { left } => {
                return if left <= 1 {
                    Run::Ended(CommandEnd::Timeout)
                } else {
                    Run::PollIssue { left: left - 1 }
                };
            },
            Run::Ended(e) => return Run::Ended(e),
            _ => {},
        }
        let v: u32 = match read {
            Err(e) => return Run::Ended(CommandEnd::Denied(e)),
            Ok(v) => v,
        };
        match self {
            Run::ReadStatus => Run::WriteStatus { v },
            Run::WriteStatus { .. } => Run::Issue,
            Run::Issue => Run::PollIssue { left: 2000 },
            Run::PollIssue { left } => {
                if v & 1 == 0 {
                    Run::ReadResult
                } else {
                    Run::PollError { left }
                }
            },
            Run::PollError { left } => {
                if v & TFD_ERR != 0 {
                    Run::Ended(CommandEnd::Timeout)
                } else {
                    Run::Pause { left }
                }
            },
            Run::ReadResult => {
                if v & TFD_ERR != 0 {
                    Run::Ended(CommandEnd::Failed)
                } else {
                    Run::Ended(CommandEnd::Completed)
                }
            },
            other => other,
        }
    }
}

/// A command ends whatever the registers read, and it completes only if it
/// retired and left no error.
pub proof fn law_command_ends(st: Run, v: Result<u32, AccessError>)
    requires
        st matches Run::PollIssue { left } ==> 0 < left <= 2000,
        st matches Run::PollError { left } ==> 0 < left <= 2000,
        st matches Run::Pause { left } ==> 0 < left <= 2000,
    ensures
        st !is Ended ==> run_rank(run_step_s(st, v)) < run_rank(st),
        run_rank(st) >= 0,
        st !is Ended && run_step_s(st, v) == Run::Ended(CommandEnd::Completed) ==> st is ReadResult
            && v is Ok && v->Ok_0 & TFD_ERR == 0,
        run_step_s(st, v) is ReadResult && st !is ReadResult ==> st is PollIssue && v is Ok
            && v->Ok_0 & 1 == 0,
{
}

/// The frame carries the whole 48-bit sector number and the sector count.
pub proof fn law_frame_carries_the_sector(c: DiskCommand)
    requires
        c.lba < 0x1_0000_0000_0000,
    ensures
        ({
            let f = frame_s(c);
            &&& c.lba == f[4] + 0x100 * f[5] + 0x1_0000 * f[6] + 0x100_0000 * f[8] + 0x1_0000_0000
                * f[9] + 0x100_0000_0000 * f[10]
            &&& c.sectors == f[12] + 0x100 * f[13]
            &&& f[2] == c.command
        }),
{
    let x = c.lba;
    let lo = (x % 0x1_0000_0000) as u32;
    let hi = (x / 0x1_0000_0000) as u32;
    assert(hi < 0x1_0000);
    assert(x == lo + 0x1_0000_0000 * hi);
    let l = le64(x);
    assert(l[0] == lo % 256 && l[1] == lo / 256 % 256 && l[2] == lo / 65536 % 256 && l[3] == lo
        / 16777216);
    assert(l[4] == hi % 256 && l[5] == hi / 256 % 256);
    assert(lo == l[0] + 0x100 * l[1] + 0x1_0000 * l[2] + 0x100_0000 * l[3]) by {
        crate::bytes::lemma_parts32(lo);
    }
    assert(hi == l[4] + 0x100 * l[5]);
}

/// Where a port's registers and command list are; None if there is no such port.
pub open spec fn port_context_s(
    controller: Option<AhciController>,
    ports: Seq<AhciPort>,
    index: u8,
) -> Option<(u64, u64)>
    decreases ports.len(),
{
    match controller {
        None => None,
        Some(c) => if ports.len() == 0 {
            None
        } else if ports[0].index == index {
            Some((c.abar_phys, ports[0].clb_phys))
        } else {
            port_context_s(controller, ports.skip(1), index)
        },
    }
}

/// Finds where a port's registers and command list are.
pub fn port_context(controller: &Option<AhciController>, ports: &Vec<AhciPort>, index: u8) -> (r:
    Option<(u64, u64)>)
    ensures
        r == port_context_s(*controller, ports@, index),
{
    match *controller {
        None => None,
        Some(c) => {
            let mut i: usize = 0;
            assert(ports@.skip(0) =~= ports@);
            while i < ports.len()
                invariant
                    i <= ports@.len(),
                    *controller == Some(c),
                    port_context_s(*controller, ports@, index) == port_context_s(
                        *controller,
                        ports@.skip(i as int),
                        index,
                    ),
                decreases ports@.len() - i,
            {
                assert(ports@.skip(i as int).skip(1) =~= ports@.skip(i + 1));
                if ports[i].index == index {
                    return Some((c.abar_phys, ports[i].clb_phys));
                }
                i = i + 1;
            }
            None
        },
    }
}

/// A transfer that was prepared: the mark to go back to, the bounce buffer, and
/// the command.
#[derive(Debug, Clone, Copy, PartialEq, Eq, Structural)]
pub struct Transfer {
    pub mark: u64,
    pub buffer: DmaBuffer,
    pub command: DiskCommand,
}

/// Preparing a transfer of sectors. No sectors is nothing to do. If there is no
/// room for the bounce buffer, the pool is as it was.
pub open spec fn transfer_s(
    dma: DmaAllocator,
    context: Option<(u64, u64)>,
    lba: u64,
    count: u16,
    buf_len: nat,
    write: bool,
) -> (Result<Option<Transfer>, Seq<char>>, DmaAllocator) {
    let bytes = 512 * count;
    if count == 0 {
        (Ok(None), dma)
    } else if buf_len < bytes {
        (Err("buffer too small for requested sector count"@), dma)
    } else if context is None {
        (Err("unknown AHCI port"@), dma)
    } else {
        let marked = DmaAllocator { in_mark: true, ..dma };
        match alloc_dma_s(marked, bytes) {
            (None, _) => (
                Err(
                    if write {
                        "dma alloc (write buffer) failed"@
                    } else {
                        "dma alloc (read buffer) failed"@
                    },
                ),
                dma,
            ),
            (Some(b), dma1) => (
                Ok(
                    Some(
                        Transfer {
                            mark: dma.next_offset,
                            buffer: b,
                            command: DiskCommand {
                                command: if write {
                                    ATA_CMD_WRITE_DMA_EXT
                                } else {
                                    ATA_CMD_READ_DMA_EXT
                                },
                                lba,
                                sectors: count,
                                data_phys: b.phys,
                                byte_count: bytes as u32,
                                dir: if write {
                                    Direction::Write
                                } else {
                                    Direction::Read
                                },
                            },
                        },
                    ),
                ),
                dma1,
            ),
        }
    }
}

/// Prepares reading or writing `count` sectors from `lba` on, through a bounce
/// buffer. After the transfer the pool goes back to its mark.
pub fn plan_transfer(
    dma: &mut DmaAllocator,
    context: Option<(u64, u64)>,
    lba: u64,
    count: u16,
    buf_len: usize,
    write: bool,
) -> (r: Result<Option<Transfer>, &'static str>)
    requires
        old(dma).wf(),
        !old(dma).in_mark,
    ensures
        final(dma).wf(),
        ({
            let (want, d) = transfer_s(*old(dma), context, lba, count, buf_len as nat, write);
            &&& *final(dma) == d
            &&& match r {
                Ok(t) => want == Ok::<Option<Transfer>, Seq<char>>(t),
                Err(e) => want == Err::<Option<Transfer>, Seq<char>>(e@),
            }
        }),
{
    if count == 0 {
        return Ok(None);
    }
    let bytes: usize = count as usize * SECTOR_SIZE;
    if buf_len < bytes {
        return Err("buffer too small for requested sector count");
    }
    if context.is_none() {
        return Err("unknown AHCI port");
    }
    let mark: u64 = dma.mark();
    match dma.alloc_dma(bytes) {
        None => {
            dma.reset_to(mark);
            if write {
                Err("dma alloc (write buffer) failed")
            } else {
                Err("dma alloc (read buffer) failed")
            }
        },
        Some(buffer) => Ok(
            Some(
                Transfer {
                    mark,
                    buffer,
                    command: DiskCommand {
                        command: if write {
                            ATA_CMD_WRITE_DMA_EXT
                        } else {
                            ATA_CMD_READ_DMA_EXT
                        },
                        lba,
                        sectors: count,
                        data_phys: buffer.phys,
                        byte_count: bytes as u32,
                        dir: if write {
                            Direction::Write
                        } else {
                            Direction::Read
                        },
                    },
                },
            ),
        ),
    }
}

/// The command that makes written data durable.
pub fn flush_command() -> (r: DiskCommand)
    ensures
        r == (DiskCommand {
            command: ATA_CMD_FLUSH_CACHE_EXT,
            lba: 0,
            sectors: 0,
            data_phys: 0,
            byte_count: 0,
            dir: Direction::NoData,
        }),
{
    DiskCommand {
        command: ATA_CMD_FLUSH_CACHE_EXT,
        lba: 0,
        sectors: 0,
        data_phys: 0,
        byte_count: 0,
        dir: Direction::NoData,
    }
}

/// The command that asks a device what it is.
pub fn identify_command(data_phys: u64) -> (r: DiskCommand)
    ensures
        r == (DiskCommand {
            command: ATA_CMD_IDENTIFY,
            lba: 0,
            sectors: 1,
            data_phys,
            byte_count: 512,
            dir: Direction::Read,
        }),
{
    DiskCommand {
        command: ATA_CMD_IDENTIFY,
        lba: 0,
        sectors: 1,
        data_phys,
        byte_count: 512,
        dir: Direction::Read,
    }
}

/// What a device says it is.
#[derive(Debug)]
pub struct DriveInfo {
    pub model: String,
    pub serial: String,
    pub sectors: u64,
    pub sector_size: u32,
}

/// The bytes of `n` words from word `from` on, each with its bytes swapped.
pub open spec fn swapped(id: Seq<u8>, from: int, n: int) -> Seq<u8> {
    Seq::new(
        (2 * n) as nat,
        |i: int|
            if i % 2 == 0 {
                id[2 * from + i + 1]
            } else {
                id[2 * from + i - 1]
            },
    )
}

/// The bytes of a sector: twice the words that the device names if it names
/// them, modulo 2^32, and 512 otherwise.
pub open spec fn sector_size_s(id: Seq<u8>) -> u32 {
    if get16(id, 212) & 0x1000 != 0 {
        let words = get16(id, 234) + 0x1_0000 * get16(id, 236);
        ((2 * words) % 0x1_0000_0000) as u32
    } else {
        512
    }
}

/// A text in an IDENTIFY response, whose words have their bytes swapped.
fn identify_text(id: &[u8], from: usize, n: usize) -> (r: String)
    requires
        id@.len() == 512,
        from + n <= 256,
    ensures
        r@ == trimmed(lossy(swapped(id@, from as int, n as int))),
{
    let mut b: Vec<u8> = Vec::new();
    let mut i: usize = 0;
    while i < n
        invariant
            id@.len() == 512,
            from + n <= 256,
            i <= n,
            b@ == swapped(id@, from as int, i as int),
        decreases n - i,
    {
        b.push(id[2 * (from + i) + 1]);
        b.push(id[2 * (from + i)]);
        i = i + 1;
        assert(b@ =~= swapped(id@, from as int, i as int));
    }
    let text = lossy_text(b.as_slice());
    trim(text.as_str()).to_owned()
}

/// Reads an IDENTIFY response.
pub fn parse_identify(identity: &[u8]) -> (r: DriveInfo)
    requires
        identity@.len() == 512,
    ensures
        r.model@ == trimmed(lossy(swapped(identity@, 27, 20))),
        r.serial@ == trimmed(lossy(swapped(identity@, 10, 10))),
        r.sectors == get64(identity@, 200),
        r.sector_size == sector_size_s(identity@),
{
    let model = identify_text(identity, 27, 20);
    let serial = identify_text(identity, 10, 10);
    let sectors: u64 = read_u64(identity, 200);
    let sector_size: u32 = if read_u16(identity, 212) & 0x1000 != 0 {
        let words: u64 = read_u16(identity, 234) as u64 + 0x1_0000 * (read_u16(identity, 236)
            as u64);
        ((2 * words) % 0x1_0000_0000) as u32
    } else {
        512
    };
    DriveInfo { model, serial, sectors, sector_size }
}

/// The block device of a SATA port: the `n`th is called `sata` and its number.
pub fn sata_device(n: usize, port: u8, info: &DriveInfo) -> (r: AhciBlockDevice)
    ensures
        r.name@ == "sata"@ + decimal(n as nat),
        r.port == port,
        r.block_size == info.sector_size,
        r.block_count == info.sectors,
{
    let mut name = "sata".to_owned();
    push_decimal(&mut name, n as u64);
    AhciBlockDevice {
        name,
        port,
        block_size: info.sector_size as usize,
        block_count: info.sectors,
    }
}

} // verus!
