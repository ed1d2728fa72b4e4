//! The decisions of the keyboard driver.

use crate::capability::{after_mint, mint, CapTables, Capability, Object, Rights};
use vstd::prelude::*;

verus! {

/// Interrupt line of the keyboard.
pub const KEYBOARD_IRQ: u8 = 1;

/// Data register of the controller.
pub const PS2_DATA_PORT: u16 = 0x60;

/// Status and command register of the controller.
pub const PS2_CMD_PORT: u16 = 0x64;

/// Whether the controller takes a byte.
pub fn may_write(status: u8) -> (r: bool)
    ensures
        r == (status & 2 == 0),
{
    status & 2 == 0
}

/// Whether the controller has a byte.
pub fn may_read(status: u8) -> (r: bool)
    ensures
        r == (status & 1 != 0),
{
    status & 1 != 0
}

/// The controller configuration with the keyboard's interrupt and clock on.
pub fn keyboard_config(config: u8) -> (r: u8)
    ensures
        r == (config | 1) & !0x10,
{
    (config | 1) & !0x10
}

/// What is done with the ports of the controller.
#[derive(Debug, Clone, Copy, PartialEq, Eq, Structural)]
pub enum PortOp {
    /// Read the data register while there is something in it, 16 times at most.
    Drain,
    /// Wait until the controller takes a byte, for 100000 looks at most.
    WaitWrite,
    /// Wait until the controller has a byte, for 100000 looks at most.
    WaitRead,
    /// Write a byte to a port.
    Out(u16, u8),
    /// Read a byte from a port.
    In(u16),
}

/// How often old bytes are looked for.
pub const DRAIN_LOOKS: u32 = 16;

/// How often the controller is looked at while waiting for it.
pub const WAIT_LOOKS: u32 = 100_000;

/// The access to a port that comes next.
#[derive(Debug, Clone, Copy, PartialEq, Eq, Structural)]
pub enum PortAsk {
    Read(u16),
    Write(u16, u8),
    Nothing,
}

/// How far an operation is: looking at the status register, a number of times yet,
/// taking an old byte, making its one access, or done, with what was read.
#[derive(Debug, Clone, Copy, PartialEq, Eq, Structural)]
pub enum PortRun {
    Look { op: PortOp, left: u32 },
    Take { left: u32 },
    Access { op: PortOp },
    Done { read: Option<u8> },
}

/// Looking once more, if that is still allowed.
pub open spec fn look_again(op: PortOp, left: u32) -> PortRun {
    if left <= 1 {
        PortRun::Done { read: None }
    } else {
        PortRun::Look { op, left: (left - 1) as u32 }
    }
}

/// What comes after an access that gave `answer`. A status that cannot be read means
/// that the controller neither has a byte nor takes one, and a byte that cannot be read
/// is 0.
pub open spec fn port_step_s(r: PortRun, answer: Option<u8>) -> PortRun {
    match r {
        PortRun::Look { op: PortOp::Drain, left } => if answer is Some && answer->Some_0 & 1 != 0 {
            PortRun::Take { left }
        } else {
            PortRun::Done { read: None }
        },
        PortRun::Look { op: PortOp::WaitWrite, left } => if answer is Some && answer->Some_0 & 2
            == 0 {
            PortRun::Done { read: None }
        } else {
            look_again(PortOp::WaitWrite, left)
        },
        PortRun::Look { op, left } => if answer is Some && answer->Some_0 & 1 != 0 {
            PortRun::Done { read: None }
        } else {
            look_again(op, left)
        },
        PortRun::Take { left } => look_again(PortOp::Drain, left),
        PortRun::Access { op: PortOp::In(_) } => PortRun::Done {
            read: Some(
                match answer {
                    Some(v) => v,
                    None => 0,
                },
            ),
        },
        PortRun::Access { .. } => PortRun::Done { read: None },
        PortRun::Done { read } => PortRun::Done { read },
    }
}

/// How many accesses an operation makes at most from here on.
pub open spec fn accesses_left(r: PortRun) -> nat {
    match r {
        PortRun::Look { op: PortOp::Drain, left } => 2 * left as nat + 1,
        PortRun::Look { op: _, left } => left as nat + 1,
        PortRun::Take { left } => 2 * left as nat,
        PortRun::Access { .. } => 1,
        PortRun::Done { .. } => 0,
    }
}

/// Every access brings an operation nearer to its end, whatever it gave, so that a
/// controller that hangs holds nobody up.
pub proof fn law_port_runs_end(r: PortRun, answer: Option<u8>)
    requires
        !(r is Done),
        r matches PortRun::Take { left } ==> left > 0,
        r matches PortRun::Look { left, .. } ==> left > 0,
    ensures
        accesses_left(port_step_s(r, answer)) < accesses_left(r),
        port_step_s(r, answer) matches PortRun::Take { left } ==> left > 0,
        port_step_s(r, answer) matches PortRun::Look { left, .. } ==> left > 0,
{
}

impl PortRun {
    /// How an operation begins.
    pub fn begin(op: PortOp) -> (r: PortRun)
        ensures
            r == (match op {
                PortOp::Drain => PortRun::Look { op, left: DRAIN_LOOKS },
                PortOp::WaitWrite => PortRun::Look { op, left: WAIT_LOOKS },
                PortOp::WaitRead => PortRun::Look { op, left: WAIT_LOOKS },
                _ => PortRun::Access { op },
            }),
    {
        match op {
            PortOp::Drain => PortRun::Look { op, left: DRAIN_LOOKS },
            PortOp::WaitWrite => PortRun::Look { op, left: WAIT_LOOKS },
            PortOp::WaitRead => PortRun::Look { op, left: WAIT_LOOKS },
            _ => PortRun::Access { op },
        }
    }

    /// The access that comes next.
    pub fn ask(&self) -> (r: PortAsk)
        ensures
            r == (match *self {
                PortRun::Look { .. } => PortAsk::Read(PS2_CMD_PORT),
                PortRun::Take { .. } => PortAsk::Read(PS2_DATA_PORT),
                PortRun::Access { op: PortOp::Out(port, v) } => PortAsk::Write(port, v),
                PortRun::Access { op: PortOp::In(port) } => PortAsk::Read(port),
                _ => PortAsk::Nothing,
            }),
    {
        match *self {
            PortRun::Look { .. } => PortAsk::Read(PS2_CMD_PORT),
            PortRun::Take { .. } => PortAsk::Read(PS2_DATA_PORT),
            PortRun::Access { op: PortOp::Out(port, v) } => PortAsk::Write(port, v),
            PortRun::Access { op: PortOp::In(port) } => PortAsk::Read(port),
            _ => PortAsk::Nothing,
        }
    }

    /// Takes what an access gave; of a write, nothing.
    pub fn step(self, answer: Option<u8>) -> (r: PortRun)
        ensures
            r == port_step_s(self, answer),
    {
        match self {
            PortRun::Look { op, left } => {
                let ends: bool = match (op, answer) {
                    (PortOp::Drain, Some(status)) => {
                        if may_read(status) {
                            return PortRun::Take { left };
                        }
                        true
                    },
                    (PortOp::Drain, None) => true,
                    (PortOp::WaitWrite, Some(status)) => may_write(status),
                    (_, Some(status)) => may_read(status),
                    (_, None) => false,
                };
                if ends || left <= 1 {
                    PortRun::Done { read: None }
                } else {
                    PortRun::Look { op, left: left - 1 }
                }
            },
            PortRun::Take { left } => if left <= 1 {
                PortRun::Done { read: None }
            } else {
                PortRun::Look { op: PortOp::Drain, left: left - 1 }
            },
            PortRun::Access { op: PortOp::In(_) } => PortRun::Done {
                read: Some(
                    match answer {
                        Some(v) => v,
                        None => 0,
                    },
                ),
            },
            PortRun::Access { .. } => PortRun::Done { read: None },
            PortRun::Done { read } => PortRun::Done { read },
        }
    }
}

/// Asking for the controller configuration, which is what is read last.
pub open spec fn ask_config_s() -> Seq<PortOp> {
    seq![
        PortOp::WaitWrite,
        PortOp::Out(PS2_CMD_PORT, 0x20),
        PortOp::WaitRead,
        PortOp::In(PS2_DATA_PORT),
    ]
}

/// Storing a controller configuration.
pub open spec fn store_config_s(config: u8) -> Seq<PortOp> {
    seq![
        PortOp::WaitWrite,
        PortOp::Out(PS2_CMD_PORT, 0x60),
        PortOp::WaitWrite,
        PortOp::Out(PS2_DATA_PORT, config),
    ]
}

/// Asks for the controller configuration.
pub(crate) fn push_ask_config(v: &mut Vec<PortOp>)
    ensures
        final(v)@ == old(v)@ + ask_config_s(),
{
    v.push(PortOp::WaitWrite);
    v.push(PortOp::Out(PS2_CMD_PORT, 0x20));
    v.push(PortOp::WaitRead);
    v.push(PortOp::In(PS2_DATA_PORT));
    assert(v@ =~= old(v)@ + ask_config_s());
}

/// Stores a controller configuration.
pub(crate) fn push_store_config(v: &mut Vec<PortOp>, config: u8)
    ensures
        final(v)@ == old(v)@ + store_config_s(config),
{
    v.push(PortOp::WaitWrite);
    v.push(PortOp::Out(PS2_CMD_PORT, 0x60));
    v.push(PortOp::WaitWrite);
    v.push(PortOp::Out(PS2_DATA_PORT, config));
    assert(v@ =~= old(v)@ + store_config_s(config));
}

/// How setting up the keyboard begins: old bytes are dropped, and the configuration
/// is asked for.
pub fn keyboard_start() -> (r: Vec<PortOp>)
    ensures
        r@ == seq![PortOp::Drain] + ask_config_s(),
{
    let mut v: Vec<PortOp> = Vec::new();
    v.push(PortOp::Drain);
    assert(v@ =~= seq![PortOp::Drain]);
    push_ask_config(&mut v);
    v
}

/// How setting up the keyboard ends: the configuration is stored with the keyboard's
/// interrupt and clock on, and the keyboard is told to scan.
pub fn keyboard_finish(config: u8) -> (r: Vec<PortOp>)
    ensures
        r@ == store_config_s((config | 1) & !0x10) + seq![
            PortOp::WaitWrite,
            PortOp::Out(PS2_DATA_PORT, 0xF4),
            PortOp::WaitRead,
            PortOp::In(PS2_DATA_PORT),
        ],
{
    let mut v: Vec<PortOp> = Vec::new();
    push_store_config(&mut v, keyboard_config(config));
    assert(v@ =~= store_config_s((config | 1) & !0x10));
    v.push(PortOp::WaitWrite);
    v.push(PortOp::Out(PS2_DATA_PORT, 0xF4));
    v.push(PortOp::WaitRead);
    v.push(PortOp::In(PS2_DATA_PORT));
    assert(v@ =~= store_config_s((config | 1) & !0x10) + seq![
        PortOp::WaitWrite,
        PortOp::Out(PS2_DATA_PORT, 0xF4),
        PortOp::WaitRead,
        PortOp::In(PS2_DATA_PORT),
    ]);
    v
}

/// The capabilities of a driver that owns an interrupt line and the ports of the
/// controller.
pub open spec fn ps2_caps(tables: Map<u64, crate::capability::Slots>, me: u64, irq: u8) -> Map<
    u64,
    crate::capability::Slots,
> {
    after_mint(
        after_mint(
            tables,
            me,
            Capability { object: Object::Irq(irq), rights: Rights(Rights::ALL) },
        ),
        me,
        Capability {
            object: Object::Port { base: PS2_DATA_PORT, count: 5 },
            rights: Rights(Rights::READ | Rights::WRITE),
        },
    )
}

/// Gives a driver of the controller what it needs: its interrupt line, and the
/// ports from the data to the command register.
pub fn grant_ps2(caps: &mut CapTables, me: u64, irq: u8)
    ensures
        final(caps)@ == ps2_caps(old(caps)@, me, irq),
{
    mint(caps, me, Object::Irq(irq), Rights(Rights::ALL));
    mint(
        caps,
        me,
        Object::Port { base: PS2_DATA_PORT, count: 5 },
        Rights(Rights::READ | Rights::WRITE),
    );
}

} // verus!
