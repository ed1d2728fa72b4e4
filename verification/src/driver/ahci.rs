//! The AHCI SATA driver.
//!
//! The register accesses themselves are made outside: each procedure here is a
//! state whose next access is asked for, and which is then told what was read.

use crate::capability::{after_mint, mint, CapTables, Capability, Object, Rights};
use crate::driver::dma::{alloc_dma_s, DmaAllocator};
use crate::driver::pci::{decides_device, find_device, first_device, PciDevice};
use vstd::prelude::*;

verus! {

/// Global host control.
pub const HBA_GHC: u64 = 0x04;

/// Ports implemented.
pub const HBA_PI: u64 = 0x0C;

/// Version.
pub const HBA_VS: u64 = 0x10;

/// Command list base address of a port, low and high half.
pub const PORT_CLB: u64 = 0x00;

pub const PORT_CLBU: u64 = 0x04;

/// Receive area of a port, low and high half.
pub const PORT_FB: u64 = 0x08;

pub const PORT_FBU: u64 = 0x0C;

/// Interrupt status of a port.
pub const PORT_IS: u64 = 0x10;

/// Command and status of a port.
pub const PORT_CMD: u64 = 0x18;

/// Task file data of a port.
pub const PORT_TFD: u64 = 0x20;

/// Signature of the device at a port.
pub const PORT_SIG: u64 = 0x24;

/// Link status of a port.
pub const PORT_SSTS: u64 = 0x28;

/// Link control of a port.
pub const PORT_SCTL: u64 = 0x2C;

/// Link errors of a port.
pub const PORT_SERR: u64 = 0x30;

/// Command issue register of a port.
pub const PORT_CI: u64 = 0x38;

/// Signatures of device types.
pub const SIG_ATA: u32 = 0x0000_0101;

pub const SIG_ATAPI: u32 = 0xEB14_0101;

pub const SIG_SEMB: u32 = 0xC33C_0101;

pub const SIG_PM: u32 = 0x9669_0101;

/// Controller reset.
pub const GHC_HBA_RESET: u32 = 1;

/// AHCI enable.
pub const GHC_AHCI_ENABLE: u32 = 0x8000_0000;

/// Command processing is on, or receiving is.
pub const PORT_CMD_ST: u32 = 1;

pub const PORT_CMD_FRE: u32 = 0x10;

/// Receiving or command processing still runs.
pub const PORT_CMD_FR: u32 = 0x4000;

pub const PORT_CMD_CR: u32 = 0x8000;

/// Device detection bits, and their value when a device is ready.
pub const SSTS_DET_MASK: u32 = 0xF;

pub const SSTS_DET_PRESENT: u32 = 3;

/// The device is busy, wants data, or failed.
pub const TFD_BSY: u32 = 0x80;

pub const TFD_DRQ: u32 = 8;

pub const TFD_ERR: u32 = 1;

/// Commands of the device.
pub const ATA_CMD_IDENTIFY: u8 = 0xEC;

pub const ATA_CMD_READ_DMA_EXT: u8 = 0x25;

pub const ATA_CMD_WRITE_DMA_EXT: u8 = 0x35;

pub const ATA_CMD_FLUSH_CACHE_EXT: u8 = 0xEA;

/// Default logical sector size.
pub const SECTOR_SIZE: usize = 512;

/// What kind of device is at a port.
#[derive(Debug, Clone, Copy, PartialEq, Eq, Structural)]
pub enum DeviceType {
    Unknown,
    Sata,
    Atapi,
    Semb,
    PortMultiplier,
}

/// The device type of a signature.
pub open spec fn device_type_s(sig: u32) -> DeviceType {
    if sig == SIG_ATA {
        DeviceType::Sata
    } else if sig == SIG_ATAPI {
        DeviceType::Atapi
    } else if sig == SIG_SEMB {
        DeviceType::Semb
    } else if sig == SIG_PM {
        DeviceType::PortMultiplier
    } else {
        DeviceType::Unknown
    }
}

impl DeviceType {
    /// The device type of a signature.
    pub fn from_signature(sig: u32) -> (r: DeviceType)
        ensures
            r == device_type_s(sig),
    {
        if sig == SIG_ATA {
            DeviceType::Sata
        } else if sig == SIG_ATAPI {
            DeviceType::Atapi
        } else if sig == SIG_SEMB {
            DeviceType::Semb
        } else if sig == SIG_PM {
            DeviceType::PortMultiplier
        } else {
            DeviceType::Unknown
        }
    }

    /// The name of a device type.
    pub fn name(&self) -> (r: &'static str)
        ensures
            r@ == (match *self {
                DeviceType::Unknown => "None/Unknown"@,
                DeviceType::Sata => "SATA"@,
                DeviceType::Atapi => "ATAPI"@,
                DeviceType::Semb => "SEMB"@,
                DeviceType::PortMultiplier => "Port Multiplier"@,
            }),
    {
        match *self {
            DeviceType::Unknown => "None/Unknown",
            DeviceType::Sata => "SATA",
            DeviceType::Atapi => "ATAPI",
            DeviceType::Semb => "SEMB",
            DeviceType::PortMultiplier => "Port Multiplier",
        }
    }
}

/// A controller: where its registers are, and which ports it has.
#[derive(Debug, Clone, Copy, PartialEq, Eq, Structural)]
pub struct AhciController {
    pub abar_phys: u64,
    pub ports_implemented: u32,
    pub num_ports: u8,
}

/// A port with a device.
#[derive(Debug, Clone, Copy, PartialEq, Eq, Structural)]
pub struct AhciPort {
    pub index: u8,
    pub signature: u32,
    pub device_type: DeviceType,
    pub clb_phys: u64,
    pub fb_phys: u64,
}

/// What a procedure wants next: read a register, write one, wait a little, or
/// nothing more.
#[derive(Debug, Clone, Copy, PartialEq, Eq, Structural)]
pub enum RegAction {
    Read(u64),
    Write(u64, u32),
    Yield,
    Finished,
}

/// Whether a device is an AHCI controller.
pub open spec fn is_ahci(d: PciDevice) -> bool {
    d.class_code == 0x01 && d.subclass == 0x06 && d.prog_if == 0x01
}

/// Finds the registers of the first AHCI controller: the address of its register
/// region. None if there is none, or it has no address.
pub fn find_controller(devices: &Vec<PciDevice>) -> (r: Option<u64>)
    ensures
        r == (match first_device(devices@, |d: PciDevice| is_ahci(d)) {
            None => None,
            Some(d) => if d.bars[5] == 0 {
                None
            } else {
                Some((d.bars[5] & !0xFu32) as u64)
            },
        }),
{
    let pred = |d: &PciDevice| -> (b: bool)
        ensures
            b == is_ahci(*d),
        { d.class_code == 0x01 && d.subclass == 0x06 && d.prog_if == 0x01 };
    let found = find_device(devices, pred);
    assert(decides_device(pred, |d: PciDevice| is_ahci(d)));
    match found {
        None => None,
        Some(dev) => {
            let bar5: u32 = dev.bars[5];
            if bar5 == 0 {
                None
            } else {
                Some((bar5 & !0xFu32) as u64)
            }
        },
    }
}

/// Bringing up the controller: read its capabilities, reset it, enable AHCI, and
/// read which ports it has.
#[derive(Debug, Clone, Copy, PartialEq, Eq, Structural)]
pub enum BringUp {
    ReadCap,
    ReadVersion { num_ports: u8 },
    ReadControl { num_ports: u8 },
    WriteReset { num_ports: u8, ghc: u32 },
    PollReset { num_ports: u8, left: u32 },
    WaitReset { num_ports: u8, left: u32 },
    ReadAgain { num_ports: u8 },
    WriteEnable { num_ports: u8, ghc: u32 },
    ReadPorts { num_ports: u8 },
    Done(AhciController),
}

/// The access that a controller being brought up needs next.
pub open spec fn bring_up_action_s(abar: u64, st: BringUp) -> RegAction {
    let ghc = (abar + HBA_GHC) as u64;
    match st {
        BringUp::ReadCap => RegAction::Read(abar),
        BringUp::ReadVersion { .. } => RegAction::Read((abar + HBA_VS) as u64),
        BringUp::ReadControl { .. } => RegAction::Read(ghc),
        BringUp::WriteReset { ghc: v, .. } => RegAction::Write(ghc, v),
        BringUp::PollReset { .. } => RegAction::Read(ghc),
        BringUp::WaitReset { .. } => RegAction::Yield,
        BringUp::ReadAgain { .. } => RegAction::Read(ghc),
        BringUp::WriteEnable { ghc: v, .. } => RegAction::Write(ghc, v),
        BringUp::ReadPorts { .. } => RegAction::Read((abar + HBA_PI) as u64),
        BringUp::Done(_) => RegAction::Finished,
    }
}

/// One look less.
pub open spec fn one_less(left: u32) -> u32 {
    if left == 0 {
        0
    } else {
        (left - 1) as u32
    }
}

/// What follows when a register read `v`. A reset that does not end is given up
/// on after 100 looks and as many waits.
pub open spec fn bring_up_step_s(abar: u64, st: BringUp, v: u32) -> BringUp {
    match st {
        BringUp::ReadCap => BringUp::ReadVersion { num_ports: ((v & 0x1F) + 1) as u8 },
        BringUp::ReadVersion { num_ports } => BringUp::ReadControl { num_ports },
        BringUp::ReadControl { num_ports } => BringUp::WriteReset {
            num_ports,
            ghc: v | GHC_HBA_RESET,
        },
        BringUp::WriteReset { num_ports, ghc } => BringUp::PollReset { num_ports, left: 100 },
        BringUp::PollReset { num_ports, left } => if v & GHC_HBA_RESET == 0 {
            BringUp::ReadAgain { num_ports }
        } else {
            BringUp::WaitReset { num_ports, left: one_less(left) }
        },
        BringUp::WaitReset { num_ports, left } => if left == 0 {
            BringUp::ReadAgain { num_ports }
        } else {
            BringUp::PollReset { num_ports, left }
        },
        BringUp::ReadAgain { num_ports } => BringUp::WriteEnable {
            num_ports,
            ghc: v | GHC_AHCI_ENABLE,
        },
        BringUp::WriteEnable { num_ports, ghc } => BringUp::ReadPorts { num_ports },
        BringUp::ReadPorts { num_ports } => BringUp::Done(
            AhciController { abar_phys: abar, ports_implemented: v, num_ports },
        ),
        BringUp::Done(c) => BringUp::Done(c),
    }
}

/// How many steps are left at most.
pub open spec fn bring_up_rank(st: BringUp) -> int {
    match st {
        BringUp::ReadCap => 1000,
        BringUp::ReadVersion { .. } => 999,
        BringUp::ReadControl { .. } => 998,
        BringUp::WriteReset { .. } => 997,
        BringUp::PollReset { left, .. } => 10 + 2 * left,
        BringUp::WaitReset { left, .. } => 11 + 2 * left,
        BringUp::ReadAgain { .. } => 3,
        BringUp::WriteEnable { .. } => 2,
        BringUp::ReadPorts { .. } => 1,
        BringUp::Done(_) => 0,
    }
}

impl BringUp {
    /// The access that is needed next.
    pub fn action(&self, abar: u64) -> (r: RegAction)
        requires
            abar <= u32::MAX,
        ensures
            r == bring_up_action_s(abar, *self),
    {
        let ghc: u64 = abar + HBA_GHC;
        match *self {
            BringUp::ReadCap => RegAction::Read(abar),
            BringUp::ReadVersion { .. } => RegAction::Read(abar + HBA_VS),
            BringUp::ReadControl { .. } => RegAction::Read(ghc),
            BringUp::WriteReset { ghc: v, .. } => RegAction::Write(ghc, v),
            BringUp::PollReset { .. } => RegAction::Read(ghc),
            BringUp::WaitReset { .. } => RegAction::Yield,
            BringUp::ReadAgain { .. } => RegAction::Read(ghc),
            BringUp::WriteEnable { ghc: v, .. } => RegAction::Write(ghc, v),
            BringUp::ReadPorts { .. } => RegAction::Read(abar + HBA_PI),
            BringUp::Done(_) => RegAction::Finished,
        }
    }

    /// Takes what was read.
    pub fn step(self, abar: u64, v: u32) -> (r: BringUp)
        ensures
            r == bring_up_step_s(abar, self, v),
    {
        match self {
            BringUp::ReadCap => {
                assert((v & 0x1F) <= 31) by (bit_vector);
                BringUp::ReadVersion { num_ports: ((v & 0x1F) + 1) as u8 }
            },
            BringUp::ReadVersion { num_ports } => BringUp::ReadControl { num_ports },
            BringUp::ReadControl { num_ports } => BringUp::WriteReset {
                num_ports,
                ghc: v | GHC_HBA_RESET,
            },
            BringUp::WriteReset { num_ports, .. } => BringUp::PollReset { num_ports, left: 100 },
            BringUp::PollReset { num_ports, left } => {
                if v & GHC_HBA_RESET == 0 {
                    BringUp::ReadAgain { num_ports }
                } else {
                    BringUp::WaitReset { num_ports, left: left.saturating_sub(1) }
                }
            },
            BringUp::WaitReset { num_ports, left } => {
                if left == 0 {
                    BringUp::ReadAgain { num_ports }
                } else {
                    BringUp::PollReset { num_ports, left }
                }
            },
            BringUp::ReadAgain { num_ports } => BringUp::WriteEnable {
                num_ports,
                ghc: v | GHC_AHCI_ENABLE,
            },
            BringUp::WriteEnable { num_ports, .. } => BringUp::ReadPorts { num_ports },
            BringUp::ReadPorts { num_ports } => BringUp::Done(
                AhciController { abar_phys: abar, ports_implemented: v, num_ports },
            ),
            BringUp::Done(c) => BringUp::Done(c),
        }
    }
}

/// Size of the register region of a controller.
pub const ABAR_SIZE: u64 = 0x2000;

/// Gives a driver the registers of a controller.
pub fn claim_registers(caps: &mut CapTables, me: u64, abar: u64)
    ensures
        final(caps)@ == after_mint(
            old(caps)@,
            me,
            Capability {
                object: Object::Mmio { phys_base: abar, len: ABAR_SIZE },
                rights: Rights(Rights::READ | Rights::WRITE),
            },
        ),
{
    mint(
        caps,
        me,
        Object::Mmio { phys_base: abar, len: ABAR_SIZE },
        Rights(Rights::READ | Rights::WRITE),
    );
}

/// The ports that a bitmap names, in increasing order.
pub open spec fn implemented_s(pi: u32, n: nat) -> Seq<u8>
    decreases n,
{
    if n == 0 {
        Seq::empty()
    } else {
        let before = implemented_s(pi, (n - 1) as nat);
        if pi & (1u32 << ((n - 1) as u32)) != 0 {
            before.push((n - 1) as u8)
        } else {
            before
        }
    }
}

/// The ports that a controller has.
pub fn implemented_ports(pi: u32) -> (r: Vec<u8>)
    ensures
        r@ == implemented_s(pi, 32),
{
    let mut r: Vec<u8> = Vec::new();
    let mut i: u32 = 0;
    while i < 32
        invariant
            i <= 32,
            r@ == implemented_s(pi, i as nat),
        decreases 32 - i,
    {
        if pi & (1u32 << i) != 0 {
            r.push(i as u8);
        }
        i = i + 1;
    }
    r
}

/// The ports at which a device was found.
pub fn list_devices(ports: &Vec<AhciPort>) -> (r: Vec<AhciPort>)
    ensures
        r@ == ports@,
{
    let mut r: Vec<AhciPort> = Vec::new();
    let mut i: usize = 0;
    while i < ports.len()
        invariant
            i <= ports@.len(),
            r@ == ports@.take(i as int),
        decreases ports@.len() - i,
    {
        r.push(ports[i]);
        i = i + 1;
        assert(r@ =~= ports@.take(i as int));
    }
    assert(r@ =~= ports@);
    r
}

/// Where the registers of a port begin.
pub open spec fn port_base_s(abar: u64, index: u8) -> u64 {
    (abar + 0x100 + 0x80 * index) as u64
}

/// Where the registers of a port begin.
pub fn port_base(abar: u64, index: u8) -> (r: u64)
    requires
        abar <= u32::MAX,
    ensures
        r == port_base_s(abar, index),
{
    abar + 0x100 + 0x80 * (index as u64)
}

/// Initializing a port: see whether a device is there, stop the port, give it
/// its memory, reset the link, wait for the device, start the port again, and
/// read the signature.
#[derive(Debug, Clone, Copy, PartialEq, Eq, Structural)]
pub enum Probe {
    ReadLink,
    ReadCommand,
    WriteStop { cmd: u32 },
    PollStop { left: u32 },
    WaitStop { left: u32 },
    Allocate,
    WriteListLow { clb: u64, fb: u64 },
    WriteListHigh { clb: u64, fb: u64 },
    WriteAreaLow { clb: u64, fb: u64 },
    WriteAreaHigh { clb: u64, fb: u64 },
    ReadErrors { clb: u64, fb: u64 },
    WriteErrors { clb: u64, fb: u64, v: u32 },
    ReadStatus { clb: u64, fb: u64 },
    WriteStatus { clb: u64, fb: u64, v: u32 },
    ReadLinkControl { clb: u64, fb: u64 },
    WriteLinkReset { clb: u64, fb: u64, sctl: u32 },
    WaitLink { clb: u64, fb: u64, sctl: u32, left: u32 },
    WriteLinkNormal { clb: u64, fb: u64, sctl: u32 },
    PollReady { clb: u64, fb: u64, left: u32 },
    WaitReady { clb: u64, fb: u64, left: u32 },
    ReadForReceive { clb: u64, fb: u64 },
    WriteReceive { clb: u64, fb: u64, cmd: u32 },
    PollReceive { clb: u64, fb: u64, left: u32 },
    WaitReceive { clb: u64, fb: u64, left: u32 },
    ReadForStart { clb: u64, fb: u64 },
    WriteStart { clb: u64, fb: u64, cmd: u32 },
    ReadSignature { clb: u64, fb: u64 },
    Done(AhciPort),
    Absent,
}

/// The access that a port being initialized needs next. At `Allocate` the caller
/// hands in memory instead.
pub open spec fn probe_action_s(base: u64, st: Probe) -> RegAction {
    match st {
        Probe::ReadLink => RegAction::Read((base + PORT_SSTS) as u64),
        Probe::ReadCommand => RegAction::Read((base + PORT_CMD) as u64),
        Probe::WriteStop { cmd } => RegAction::Write((base + PORT_CMD) as u64, cmd),
        Probe::PollStop { .. } => RegAction::Read((base + PORT_CMD) as u64),
        Probe::WaitStop { .. } => RegAction::Yield,
        Probe::Allocate => RegAction::Yield,
        Probe::WriteListLow { clb, .. } => RegAction::Write(
            (base + PORT_CLB) as u64,
            (clb % 0x1_0000_0000) as u32,
        ),
        Probe::WriteListHigh { clb, .. } => RegAction::Write(
            (base + PORT_CLBU) as u64,
            (clb / 0x1_0000_0000) as u32,
        ),
        Probe::WriteAreaLow { fb, .. } => RegAction::Write(
            (base + PORT_FB) as u64,
            (fb % 0x1_0000_0000) as u32,
        ),
        Probe::WriteAreaHigh { fb, .. } => RegAction::Write(
            (base + PORT_FBU) as u64,
            (fb / 0x1_0000_0000) as u32,
        ),
        Probe::ReadErrors { .. } => RegAction::Read((base + PORT_SERR) as u64),
        Probe::WriteErrors { v, .. } => RegAction::Write((base + PORT_SERR) as u64, v),
        Probe::ReadStatus { .. } => RegAction::Read((base + PORT_IS) as u64),
        Probe::WriteStatus { v, .. } => RegAction::Write((base + PORT_IS) as u64, v),
        Probe::ReadLinkControl { .. } => RegAction::Read((base + PORT_SCTL) as u64),
        Probe::WriteLinkReset { sctl, .. } => RegAction::Write((base + PORT_SCTL) as u64, sctl),
        Probe::WaitLink { .. } => RegAction::Yield,
        Probe::WriteLinkNormal { sctl, .. } => RegAction::Write((base + PORT_SCTL) as u64, sctl),
        Probe::PollReady { .. } => RegAction::Read((base + PORT_SSTS) as u64),
        Probe::WaitReady { .. } => RegAction::Yield,
        Probe::ReadForReceive { .. } => RegAction::Read((base + PORT_CMD) as u64),
        Probe::WriteReceive { cmd, .. } => RegAction::Write((base + PORT_CMD) as u64, cmd),
        Probe::PollReceive { .. } => RegAction::Read((base + PORT_CMD) as u64),
        Probe::WaitReceive { .. } => RegAction::Yield,
        Probe::ReadForStart { .. } => RegAction::Read((base + PORT_CMD) as u64),
        Probe::WriteStart { cmd, .. } => RegAction::Write((base + PORT_CMD) as u64, cmd),
        Probe::ReadSignature { .. } => RegAction::Read((base + PORT_SIG) as u64),
        Probe::Done(_) => RegAction::Finished,
        Probe::Absent => RegAction::Finished,
    }
}

/// What follows when a register read `v`.
pub open spec fn probe_step_s(index: u8, st: Probe, v: u32) -> Probe {
    match st {
        Probe::ReadLink => if v & SSTS_DET_MASK == 0 {
            Probe::Absent
        } else {
            Probe::ReadCommand
        },
        Probe::ReadCommand => Probe::WriteStop { cmd: v & !(PORT_CMD_ST | PORT_CMD_FRE) },
        Probe::WriteStop { .. } => Probe::PollStop { left: 100 },
        Probe::PollStop { left } => if v & (PORT_CMD_CR | PORT_CMD_FR) == 0 {
            Probe::Allocate
        } else {
            Probe::WaitStop { left: one_less(left) }
        },
        Probe::WaitStop { left } => if left == 0 {
            Probe::Allocate
        } else {
            Probe::PollStop { left }
        },
        Probe::Allocate => Probe::Absent,
        Probe::WriteListLow { clb, fb } => Probe::WriteListHigh { clb, fb },
        Probe::WriteListHigh { clb, fb } => Probe::WriteAreaLow { clb, fb },
        Probe::WriteAreaLow { clb, fb } => Probe::WriteAreaHigh { clb, fb },
        Probe::WriteAreaHigh { clb, fb } => Probe::ReadErrors { clb, fb },
        Probe::ReadErrors { clb, fb } => Probe::WriteErrors { clb, fb, v },
        Probe::WriteErrors { clb, fb, .. } => Probe::ReadStatus { clb, fb },
        Probe::ReadStatus { clb, fb } => Probe::WriteStatus { clb, fb, v },
        Probe::WriteStatus { clb, fb, .. } => Probe::ReadLinkControl { clb, fb },
        Probe::ReadLinkControl { clb, fb } => Probe::WriteLinkReset {
            clb,
            fb,
            sctl: (v & !0xFu32) | 1,
        },
        Probe::WriteLinkReset { clb, fb, sctl } => Probe::WaitLink { clb, fb, sctl, left: 10 },
        Probe::WaitLink { clb, fb, sctl, left } => if left <= 1 {
            Probe::WriteLinkNormal { clb, fb, sctl: sctl & !0xFu32 }
        } else {
            Probe::WaitLink { clb, fb, sctl, left: (left - 1) as u32 }
        },
        Probe::WriteLinkNormal { clb, fb, .. } => Probe::PollReady { clb, fb, left: 200 },
        Probe::PollReady { clb, fb, left } => if v & SSTS_DET_MASK == SSTS_DET_PRESENT {
            Probe::ReadForReceive { clb, fb }
        } else {
            Probe::WaitReady { clb, fb, left: one_less(left) }
        },
        Probe::WaitReady { clb, fb, left } => if left == 0 {
            Probe::Absent
        } else {
            Probe::PollReady { clb, fb, left }
        },
        Probe::ReadForReceive { clb, fb } => Probe::WriteReceive {
            clb,
            fb,
            cmd: v | PORT_CMD_FRE,
        },
        Probe::WriteReceive { clb, fb, .. } => Probe::PollReceive { clb, fb, left: 100 },
        Probe::PollReceive { clb, fb, left } => if v & PORT_CMD_FR != 0 {
            Probe::ReadForStart { clb, fb }
        } else {
            Probe::WaitReceive { clb, fb, left: one_less(left) }
        },
        Probe::WaitReceive { clb, fb, left } => if left == 0 {
            Probe::ReadForStart { clb, fb }
        } else {
            Probe::PollReceive { clb, fb, left }
        },
        Probe::ReadForStart { clb, fb } => Probe::WriteStart { clb, fb, cmd: v | PORT_CMD_ST },
        Probe::WriteStart { clb, fb, .. } => Probe::ReadSignature { clb, fb },
        Probe::ReadSignature { clb, fb } => Probe::Done(
            AhciPort {
                index,
                signature: v,
                device_type: device_type_s(v),
                clb_phys: clb,
                fb_phys: fb,
            },
        ),
        Probe::Done(p) => Probe::Done(p),
        Probe::Absent => Probe::Absent,
    }
}

/// Giving a port its memory: a command list and a receive area.
pub open spec fn probe_allocate_s(dma: DmaAllocator) -> (Probe, DmaAllocator) {
    let (list, dma1) = alloc_dma_s(dma, 1024);
    match list {
        None => (Probe::Absent, dma1),
        Some(l) => {
            let (area, dma2) = alloc_dma_s(dma1, 256);
            match area {
                None => (Probe::Absent, dma2),
                Some(a) => (Probe::WriteListLow { clb: l.phys, fb: a.phys }, dma2),
            }
        },
    }
}

/// How many steps are left at most.
pub open spec fn probe_rank(st: Probe) -> int {
    match st {
        Probe::ReadLink => 2000,
        Probe::ReadCommand => 1999,
        Probe::WriteStop { .. } => 1998,
        Probe::PollStop { left } => 1700 + 2 * left,
        Probe::WaitStop { left } => 1701 + 2 * left,
        Probe::Allocate => 1600,
        Probe::WriteListLow { .. } => 1599,
        Probe::WriteListHigh { .. } => 1598,
        Probe::WriteAreaLow { .. } => 1597,
        Probe::WriteAreaHigh { .. } => 1596,
        Probe::ReadErrors { .. } => 1595,
        Probe::WriteErrors { .. } => 1594,
        Probe::ReadStatus { .. } => 1593,
        Probe::WriteStatus { .. } => 1592,
        Probe::ReadLinkControl { .. } => 1591,
        Probe::WriteLinkReset { .. } => 1590,
        Probe::WaitLink { left, .. } => 1500 + left,
        Probe::WriteLinkNormal { .. } => 1499,
        Probe::PollReady { left, .. } => 1000 + 2 * left,
        Probe::WaitReady { left, .. } => 1001 + 2 * left,
        Probe::ReadForReceive { .. } => 900,
        Probe::WriteReceive { .. } => 899,
        Probe::PollReceive { left, .. } => 600 + 2 * left,
        Probe::WaitReceive { left, .. } => 601 + 2 * left,
        Probe::ReadForStart { .. } => 3,
        Probe::WriteStart { .. } => 2,
        Probe::ReadSignature { .. } => 1,
        Probe::Done(_) => 0,
        Probe::Absent => 0,
    }
}

impl Probe {
    /// The access that is needed next.
    pub fn action(&self, base: u64) -> (r: RegAction)
        requires
            base <= 0x1_0000_0000_0000,
        ensures
            r == probe_action_s(base, *self),
    {
        match *self {
            Probe::ReadLink => RegAction::Read(base + PORT_SSTS),
            Probe::ReadCommand => RegAction::Read(base + PORT_CMD),
            Probe::WriteStop { cmd } => RegAction::Write(base + PORT_CMD, cmd),
            Probe::PollStop { .. } => RegAction::Read(base + PORT_CMD),
            Probe::WaitStop { .. } => RegAction::Yield,
            Probe::Allocate => RegAction::Yield,
            Probe::WriteListLow { clb, .. } => RegAction::Write(
                base + PORT_CLB,
                (clb % 0x1_0000_0000) as u32,
            ),
            Probe::WriteListHigh { clb, .. } => RegAction::Write(
                base + PORT_CLBU,
                (clb / 0x1_0000_0000) as u32,
            ),
            Probe::WriteAreaLow { fb, .. } => RegAction::Write(
                base + PORT_FB,
                (fb % 0x1_0000_0000) as u32,
            ),
            Probe::WriteAreaHigh { fb, .. } => RegAction::Write(
                base + PORT_FBU,
                (fb / 0x1_0000_0000) as u32,
            ),
            Probe::ReadErrors { .. } => RegAction::Read(base + PORT_SERR),
            Probe::WriteErrors { v, .. } => RegAction::Write(base + PORT_SERR, v),
            Probe::ReadStatus { .. } => RegAction::Read(base + PORT_IS),
            Probe::WriteStatus { v, .. } => RegAction::Write(base + PORT_IS, v),
            Probe::ReadLinkControl { .. } => RegAction::Read(base + PORT_SCTL),
            Probe::WriteLinkReset { sctl, .. } => RegAction::Write(base + PORT_SCTL, sctl),
            Probe::WaitLink { .. } => RegAction::Yield,
            Probe::WriteLinkNormal { sctl, .. } => RegAction::Write(base + PORT_SCTL, sctl),
            Probe::PollReady { .. } => RegAction::Read(base + PORT_SSTS),
            Probe::WaitReady { .. } => RegAction::Yield,
            Probe::ReadForReceive { .. } => RegAction::Read(base + PORT_CMD),
            Probe::WriteReceive { cmd, .. } => RegAction::Write(base + PORT_CMD, cmd),
            Probe::PollReceive { .. } => RegAction::Read(base + PORT_CMD),
            Probe::WaitReceive { .. } => RegAction::Yield,
            Probe::ReadForStart { .. } => RegAction::Read(base + PORT_CMD),
            Probe::WriteStart { cmd, .. } => RegAction::Write(base + PORT_CMD, cmd),
            Probe::ReadSignature { .. } => RegAction::Read(base + PORT_SIG),
            Probe::Done(_) => RegAction::Finished,
            Probe::Absent => RegAction::Finished,
        }
    }

    /// Takes what was read. A port whose registers may not be accessed counts as
    /// having no device; so does one that is stepped where memory is due.
    pub fn step(self, index: u8, v: u32) -> (r: Probe)
        ensures
            r == probe_step_s(index, self, v),
    {
        match self {
            Probe::ReadLink => {
                if v & SSTS_DET_MASK == 0 {
                    Probe::Absent
                } else {
                    Probe::ReadCommand
                }
            },
            Probe::ReadCommand => Probe::WriteStop { cmd: v & !(PORT_CMD_ST | PORT_CMD_FRE) },
            Probe::WriteStop { .. } => Probe::PollStop { left: 100 },
            Probe::PollStop { left } => {
                if v & (PORT_CMD_CR | PORT_CMD_FR) == 0 {
                    Probe::Allocate
                } else {
                    Probe::WaitStop { left: left.saturating_sub(1) }
                }
            },
            Probe::WaitStop { left } => {
                if left == 0 {
                    Probe::Allocate
                } else {
                    Probe::PollStop { left }
                }
            },
            Probe::Allocate => Probe::Absent,
            Probe::WriteListLow { clb, fb } => Probe::WriteListHigh { clb, fb },
            Probe::WriteListHigh { clb, fb } => Probe::WriteAreaLow { clb, fb },
            Probe::WriteAreaLow { clb, fb } => Probe::WriteAreaHigh { clb, fb },
            Probe::WriteAreaHigh { clb, fb } => Probe::ReadErrors { clb, fb },
            Probe::ReadErrors { clb, fb } => Probe::WriteErrors { clb, fb, v },
            Probe::WriteErrors { clb, fb, .. } => Probe::ReadStatus { clb, fb },
            Probe::ReadStatus { clb, fb } => Probe::WriteStatus { clb, fb, v },
            Probe::WriteStatus { clb, fb, .. } => Probe::ReadLinkControl { clb, fb },
            Probe::ReadLinkControl { clb, fb } => Probe::WriteLinkReset {
                clb,
                fb,
                sctl: (v & !0xFu32) | 1,
            },
            Probe::WriteLinkReset { clb, fb, sctl } => Probe::WaitLink { clb, fb, sctl, left: 10 },
            Probe::WaitLink { clb, fb, sctl, left } => {
                if left <= 1 {
                    Probe::WriteLinkNormal { clb, fb, sctl: sctl & !0xFu32 }
                } else {
                    Probe::WaitLink { clb, fb, sctl, left: left - 1 }
                }
            },
            Probe::WriteLinkNormal { clb, fb, .. } => Probe::PollReady { clb, fb, left: 200 },
            Probe::PollReady { clb, fb, left } => {
                if v & SSTS_DET_MASK == SSTS_DET_PRESENT {
                    Probe::ReadForReceive { clb, fb }
                } else {
                    Probe::WaitReady { clb, fb, left: left.saturating_sub(1) }
                }
            },
            Probe::WaitReady { clb, fb, left } => {
                if left == 0 {
                    Probe::Absent
                } else {
                    Probe::PollReady { clb, fb, left }
                }
            },
            Probe::ReadForReceive { clb, fb } => Probe::WriteReceive {
                clb,
                fb,
                cmd: v | PORT_CMD_FRE,
            },
            Probe::WriteReceive { clb, fb, .. } => Probe::PollReceive { clb, fb, left: 100 },
            Probe::PollReceive { clb, fb, left } => {
                if v & PORT_CMD_FR != 0 {
                    Probe::ReadForStart { clb, fb }
                } else {
                    Probe::WaitReceive { clb, fb, left: left.saturating_sub(1) }
                }
            },
            Probe::WaitReceive { clb, fb, left } => {
                if left == 0 {
                    Probe::ReadForStart { clb, fb }
                } else {
                    Probe::PollReceive { clb, fb, left }
                }
            },
            Probe::ReadForStart { clb, fb } => Probe::WriteStart { clb, fb, cmd: v | PORT_CMD_ST },
            Probe::WriteStart { clb, fb, .. } => Probe::ReadSignature { clb, fb },
            Probe::ReadSignature { clb, fb } => Probe::Done(
                AhciPort {
                    index,
                    signature: v,
                    device_type: DeviceType::from_signature(v),
                    clb_phys: clb,
                    fb_phys: fb,
                },
            ),
            Probe::Done(p) => Probe::Done(p),
            Probe::Absent => Probe::Absent,
        }
    }

    /// Gives a stopped port its memory.
    pub fn allocate(dma: &mut DmaAllocator) -> (r: Probe)
        requires
            old(dma).wf(),
        ensures
            final(dma).wf(),
            (r, *final(dma)) == probe_allocate_s(*old(dma)),
    {
        match dma.alloc_dma(1024) {
            None => Probe::Absent,
            Some(list) => match dma.alloc_dma(256) {
                None => Probe::Absent,
                Some(area) => Probe::WriteListLow { clb: list.phys, fb: area.phys },
            },
        }
    }
}

/// Bringing up a controller and initializing a port both end, whatever the
/// registers read: every step that is not the last brings the end nearer.
pub proof fn law_procedures_end(abar: u64, up: BringUp, index: u8, probe: Probe, v: u32)
    requires
        up matches BringUp::PollReset { left, .. } ==> 0 < left <= 100,
        up matches BringUp::WaitReset { left, .. } ==> left < 100,
        probe matches Probe::PollStop { left } ==> 0 < left <= 100,
        probe matches Probe::WaitStop { left } ==> left < 100,
        probe matches Probe::WaitLink { left, .. } ==> 0 < left <= 10,
        probe matches Probe::PollReady { left, .. } ==> 0 < left <= 200,
        probe matches Probe::WaitReady { left, .. } ==> left < 200,
        probe matches Probe::PollReceive { left, .. } ==> 0 < left <= 100,
        probe matches Probe::WaitReceive { left, .. } ==> left < 100,
    ensures
        up !is Done ==> bring_up_rank(bring_up_step_s(abar, up, v)) < bring_up_rank(up),
        !(probe is Done || probe is Absent) ==> probe_rank(probe_step_s(index, probe, v))
            < probe_rank(probe),
        bring_up_rank(up) >= 0,
        probe_rank(probe) >= 0,
{
}

/// A port is given its memory only while it is stopped: the base addresses are
/// written only after the port was told to stop, and it is started only after.
pub proof fn law_memory_is_set_while_stopped(base: u64, index: u8, st: Probe, v: u32)
    requires
        base <= 0x1_0000_0000_0000,
    ensures
        probe_step_s(index, st, v) is WriteStart ==> st is ReadForStart,
        probe_step_s(index, st, v) is Allocate ==> st is PollStop || st is WaitStop,
        probe_step_s(index, st, v) !is WriteListLow,
        st is ReadCommand ==> ({
            let next = probe_step_s(index, st, v);
            next is WriteStop && next->WriteStop_cmd & (PORT_CMD_ST | PORT_CMD_FRE) == 0
        }),
{
    assert((v & !(1u32 | 0x10u32)) & (1u32 | 0x10u32) == 0) by (bit_vector);
}

} // verus!
