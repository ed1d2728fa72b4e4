//! The Intel E1000 network card: its descriptor rings and register set-up.

use crate::bytes::{le64, push_fill, push_u64, zeros};
use crate::driver::dma::{alloc_dma_s, DmaAllocator};
use crate::driver::pci::{decides_device, find_device, first_device, PciDevice};
use vstd::prelude::*;

verus! {

/// Vendor and model of the card.
pub const E1000_VENDOR: u16 = 0x8086;

pub const E1000_DEVICE_82540EM: u16 = 0x100E;

/// Register offsets.
pub const REG_CTRL: u32 = 0x0000;

pub const REG_STATUS: u32 = 0x0008;

pub const REG_EEPROM: u32 = 0x0014;

pub const REG_ICR: u32 = 0x00C0;

pub const REG_IMC: u32 = 0x00D8;

pub const REG_RCTL: u32 = 0x0100;

pub const REG_TCTL: u32 = 0x0400;

pub const REG_TIPG: u32 = 0x0410;

pub const REG_RDBAL: u32 = 0x2800;

pub const REG_RDBAH: u32 = 0x2804;

pub const REG_RDLEN: u32 = 0x2808;

pub const REG_RDH: u32 = 0x2810;

pub const REG_RDT: u32 = 0x2818;

pub const REG_TDBAL: u32 = 0x3800;

pub const REG_TDBAH: u32 = 0x3804;

pub const REG_TDLEN: u32 = 0x3808;

pub const REG_TDH: u32 = 0x3810;

pub const REG_TDT: u32 = 0x3818;

pub const REG_MTA: u32 = 0x5200;

/// Reset.
pub const CTRL_RST: u32 = 0x0400_0000;

/// Link up.
pub const CTRL_SLU: u32 = 0x40;

/// Receiver settings: enabled, all packets, without checksum, 2048 byte buffers.
pub const RCTL_SETTINGS: u32 = 0x0400_801E;

/// Transmitter settings: enabled, short packets padded, usual collision limits.
pub const TCTL_SETTINGS: u32 = 0x0004_00FA;

/// A descriptor is done.
pub const DESC_DONE: u8 = 1;

/// End of packet, and report the status.
pub const TX_COMMAND: u8 = 9;

/// Number of receive and transmit descriptors.
pub const NUM_RX_DESC: usize = 32;

pub const NUM_TX_DESC: usize = 16;

/// Size of a packet buffer.
pub const RX_BUFFER_SIZE: usize = 2048;

/// The card: where its registers are, its address, the rings with their buffers,
/// and the descriptors that were last handed to the hardware.
#[derive(Debug)]
pub struct E1000 {
    pub bar0: u64,
    pub mac: [u8; 6],
    pub rx_descs: u64,
    pub rx_buffers: Vec<u64>,
    pub rx_tail: usize,
    pub tx_descs: u64,
    pub tx_buffers: Vec<u64>,
    pub tx_tail: usize,
}

/// Whether a device is the card.
pub open spec fn is_e1000(d: PciDevice) -> bool {
    d.vendor_id == E1000_VENDOR && d.device_id == E1000_DEVICE_82540EM
}

/// Where the registers of the card are.
pub fn find_card(devices: &Vec<PciDevice>) -> (r: Result<u64, &'static str>)
    ensures
        match first_device(devices@, |d: PciDevice| is_e1000(d)) {
            None => r matches Err(e) && e@ == "E1000 device not found"@,
            Some(d) => if d.bars[0] & !0xFu32 == 0 {
                r matches Err(e) && e@ == "E1000 BAR0 not configured"@
            } else {
                r == Ok::<u64, &'static str>((d.bars[0] & !0xFu32) as u64)
            },
        },
{
    let pred = |d: &PciDevice| -> (b: bool)
        ensures
            b == is_e1000(*d),
        { d.vendor_id == E1000_VENDOR && d.device_id == E1000_DEVICE_82540EM };
    let found = find_device(devices, pred);
    assert(decides_device(pred, |d: PciDevice| is_e1000(d)));
    match found {
        None => Err("E1000 device not found"),
        Some(dev) => {
            let bar0: u32 = dev.bars[0] & !0xFu32;
            if bar0 == 0 {
                Err("E1000 BAR0 not configured")
            } else {
                Ok(bar0 as u64)
            }
        },
    }
}

/// Reading a word of the card's memory: its register is looked at 1000 times at
/// most, and a word that does not come is 0.
#[derive(Debug, Clone, Copy, PartialEq, Eq, Structural)]
pub enum EepromRead {
    Poll { left: u32 },
    Done(u16),
}

/// What follows when the register read `v`: bit 4 says that the word is there, in the upper
/// half.
pub open spec fn eeprom_step_s(e: EepromRead, v: u32) -> EepromRead {
    match e {
        EepromRead::Done(w) => EepromRead::Done(w),
        EepromRead::Poll { left } => if left == 0 {
            EepromRead::Done(0)
        } else if v & 0x10 != 0 {
            EepromRead::Done((v / 0x1_0000) as u16)
        } else if left == 1 {
            EepromRead::Done(0)
        } else {
            EepromRead::Poll { left: (left - 1) as u32 }
        },
    }
}

impl EepromRead {
    /// Before the register is looked at.
    pub fn begin() -> (r: EepromRead)
        ensures
            r == (EepromRead::Poll { left: 1000 }),
    {
        EepromRead::Poll { left: 1000 }
    }

    /// What is written to the register to ask for a word.
    pub fn request(offset: u8) -> (r: u32)
        ensures
            r == 0x100 * offset + 1,
    {
        0x100 * (offset as u32) + 1
    }

    /// Takes what the register read.
    pub fn step(self, v: u32) -> (r: EepromRead)
        ensures
            r == (match self {
                EepromRead::Done(w) => EepromRead::Done(w),
                EepromRead::Poll { left } => if left == 0 {
                    EepromRead::Done(0)
                } else if v & 0x10 != 0 {
                    EepromRead::Done((v / 0x1_0000) as u16)
                } else if left == 1 {
                    EepromRead::Done(0)
                } else {
                    EepromRead::Poll { left: (left - 1) as u32 }
                },
            }),
            r == eeprom_step_s(self, v),
    {
        match self {
            EepromRead::Done(w) => EepromRead::Done(w),
            EepromRead::Poll { left } => {
                if left == 0 {
                    EepromRead::Done(0)
                } else if v & 0x10 != 0 {
                    EepromRead::Done((v / 0x1_0000) as u16)
                } else if left == 1 {
                    EepromRead::Done(0)
                } else {
                    EepromRead::Poll { left: left - 1 }
                }
            },
        }
    }
}

/// The address of the card from the three words that hold it.
pub fn mac_from_words(low: u16, mid: u16, high: u16) -> (r: [u8; 6])
    ensures
        r@ == seq![
            (low % 0x100) as u8,
            (low / 0x100) as u8,
            (mid % 0x100) as u8,
            (mid / 0x100) as u8,
            (high % 0x100) as u8,
            (high / 0x100) as u8,
        ],
{
    let r: [u8; 6] = [
        (low % 0x100) as u8,
        (low / 0x100) as u8,
        (mid % 0x100) as u8,
        (mid / 0x100) as u8,
        (high % 0x100) as u8,
        (high / 0x100) as u8,
    ];
    assert(r@ =~= seq![
        (low % 0x100) as u8,
        (low / 0x100) as u8,
        (mid % 0x100) as u8,
        (mid / 0x100) as u8,
        (high % 0x100) as u8,
        (high / 0x100) as u8,
    ]);
    r
}

/// Allocating `n` packet buffers behind those in `done`.
pub open spec fn buffers_s(dma: DmaAllocator, n: nat, done: Seq<u64>) -> (
    Option<Seq<u64>>,
    DmaAllocator,
)
    decreases n,
{
    if n == 0 {
        (Some(done), dma)
    } else {
        match alloc_dma_s(dma, 2048) {
            (None, d) => (None, d),
            (Some(b), d) => buffers_s(d, (n - 1) as nat, done.push(b.phys)),
        }
    }
}

/// Allocates packet buffers.
fn alloc_buffers(dma: &mut DmaAllocator, n: usize) -> (r: Option<Vec<u64>>)
    requires
        old(dma).wf(),
    ensures
        final(dma).wf(),
        ({
            let (want, d) = buffers_s(*old(dma), n as nat, Seq::empty());
            &&& *final(dma) == d
            &&& match r {
                Some(v) => want == Some(v@) && v@.len() == n,
                None => want is None,
            }
        }),
{
    let mut v: Vec<u64> = Vec::new();
    let ghost want = buffers_s(*old(dma), n as nat, Seq::empty());
    let mut i: usize = 0;
    while i < n
        invariant
            dma.wf(),
            i <= n,
            v@.len() == i,
            want == buffers_s(*old(dma), n as nat, Seq::empty()),
            want == buffers_s(*dma, (n - i) as nat, v@),
        decreases n - i,
    {
        match dma.alloc_dma(RX_BUFFER_SIZE) {
            None => return None,
            Some(b) => v.push(b.phys),
        }
        i = i + 1;
    }
    Some(v)
}

/// The rings and buffers of the card: both rings with the addresses of their
/// buffers, or why there is no room.
pub open spec fn rings_s(dma: DmaAllocator) -> (
    Result<(u64, Seq<u64>, u64, Seq<u64>), Seq<char>>,
    DmaAllocator,
) {
    match alloc_dma_s(dma, 512) {
        (None, d) => (Err("Failed to allocate RX descriptor ring"@), d),
        (Some(rx), d) => match buffers_s(d, 32, Seq::empty()) {
            (None, d) => (Err("Failed to allocate RX buffer"@), d),
            (Some(rxb), d) => match alloc_dma_s(d, 256) {
                (None, d) => (Err("Failed to allocate TX descriptor ring"@), d),
                (Some(tx), d) => match buffers_s(d, 16, Seq::empty()) {
                    (None, d) => (Err("Failed to allocate TX buffer"@), d),
                    (Some(txb), d) => (Ok((rx.phys, rxb, tx.phys, txb)), d),
                },
            },
        },
    }
}

/// The bytes of a ring: descriptors of 16 bytes, each with the address of its
/// buffer and a status.
pub open spec fn ring_s(buffers: Seq<u64>, status: u8) -> Seq<u8>
    decreases buffers.len(),
{
    if buffers.len() == 0 {
        Seq::empty()
    } else {
        ring_s(buffers.drop_last(), status) + le64(buffers.last()) + zeros(4) + seq![
            status,
            0u8,
            0u8,
            0u8,
        ]
    }
}

/// The bytes of a ring whose descriptors have a status.
pub fn ring_bytes(buffers: &Vec<u64>, status: u8) -> (r: Vec<u8>)
    ensures
        r@ == ring_s(buffers@, status),
{
    let mut v: Vec<u8> = Vec::new();
    let mut i: usize = 0;
    assert(buffers@.take(0) =~= Seq::empty());
    while i < buffers.len()
        invariant
            i <= buffers@.len(),
            v@ == ring_s(buffers@.take(i as int), status),
        decreases buffers@.len() - i,
    {
        push_u64(&mut v, buffers[i]);
        push_fill(&mut v, 0, 4);
        v.push(status);
        push_fill(&mut v, 0, 3);
        proof {
            assert(buffers@.take(i + 1).drop_last() =~= buffers@.take(i as int));
            assert(buffers@.take(i + 1).last() == buffers@[i as int]);
            assert(v@ =~= ring_s(buffers@.take(i as int), status) + le64(buffers@[i as int])
                + zeros(4) + seq![status, 0u8, 0u8, 0u8]);
        }
        i = i + 1;
    }
    assert(buffers@.take(buffers@.len() as int) =~= buffers@);
    v
}

/// A packet that is to be put into a descriptor: which one, where its buffer is,
/// and the register value that hands it over.
#[derive(Debug, Clone, Copy, PartialEq, Eq, Structural)]
pub struct TxSlot {
    pub slot: usize,
    pub buffer: u64,
    pub length: u16,
    pub command: u8,
    pub tail: u32,
}

/// A packet that has come: which descriptor holds it, where its buffer is, and
/// how long it is.
#[derive(Debug, Clone, Copy, PartialEq, Eq, Structural)]
pub struct RxSlot {
    pub slot: usize,
    pub buffer: u64,
    pub len: usize,
    pub tail: u32,
}

impl E1000 {
    /// The rings have all their buffers, and the positions are within them.
    pub open spec fn wf(&self) -> bool {
        &&& self.rx_buffers@.len() == NUM_RX_DESC
        &&& self.tx_buffers@.len() == NUM_TX_DESC
        &&& self.rx_tail < NUM_RX_DESC
        &&& self.tx_tail < NUM_TX_DESC
    }

    /// A card with rings and buffers of its own.
    pub fn new(dma: &mut DmaAllocator, bar0: u64, mac: [u8; 6]) -> (r: Result<E1000, &'static str>)
        requires
            old(dma).wf(),
        ensures
            final(dma).wf(),
            ({
                let (want, d) = rings_s(*old(dma));
                &&& *final(dma) == d
                &&& match r {
                    Ok(dev) => {
                        &&& dev.wf()
                        &&& want == Ok::<(u64, Seq<u64>, u64, Seq<u64>), Seq<char>>(
                            (dev.rx_descs, dev.rx_buffers@, dev.tx_descs, dev.tx_buffers@),
                        )
                        &&& dev.bar0 == bar0
                        &&& dev.mac == mac
                        &&& dev.rx_tail == 0
                        &&& dev.tx_tail == 0
                    },
                    Err(e) => want == Err::<(u64, Seq<u64>, u64, Seq<u64>), Seq<char>>(e@),
                }
            }),
    {
        let rx = match dma.alloc_dma(512) {
            None => return Err("Failed to allocate RX descriptor ring"),
            Some(b) => b,
        };
        let rx_buffers = match alloc_buffers(dma, NUM_RX_DESC) {
            None => return Err("Failed to allocate RX buffer"),
            Some(v) => v,
        };
        let tx = match dma.alloc_dma(256) {
            None => return Err("Failed to allocate TX descriptor ring"),
            Some(b) => b,
        };
        let tx_buffers = match alloc_buffers(dma, NUM_TX_DESC) {
            None => return Err("Failed to allocate TX buffer"),
            Some(v) => v,
        };
        Ok(
            E1000 {
                bar0,
                mac,
                rx_descs: rx.phys,
                rx_buffers,
                rx_tail: 0,
                tx_descs: tx.phys,
                tx_buffers,
                tx_tail: 0,
            },
        )
    }

    /// The address of the card.
    pub fn mac_address(&self) -> (r: [u8; 6])
        ensures
            r == self.mac,
    {
        self.mac
    }

    /// The register writes that set the card up after its reset, given what its
    /// control register then reads.
    pub fn hw_init(&self, ctrl: u32) -> (r: Vec<(u32, u32)>)
        ensures
            r@ == setup_s(self.rx_descs, self.tx_descs, ctrl),
    {
        let mut v: Vec<(u32, u32)> = Vec::new();
        v.push((REG_CTRL, ctrl | CTRL_SLU));
        let mut i: u32 = 0;
        while i < 128
            invariant
                i <= 128,
                v@ == seq![(REG_CTRL, ctrl | CTRL_SLU)] + multicast_s(i as nat),
            decreases 128 - i,
        {
            v.push((REG_MTA + 4 * i, 0));
            i = i + 1;
            assert(v@ =~= seq![(REG_CTRL, ctrl | CTRL_SLU)] + multicast_s(i as nat));
        }
        v.push((REG_RDBAH, (self.rx_descs / 0x1_0000_0000) as u32));
        v.push((REG_RDBAL, (self.rx_descs % 0x1_0000_0000) as u32));
        v.push((REG_RDLEN, 512));
        v.push((REG_RDH, 0));
        v.push((REG_RDT, 31));
        v.push((REG_RCTL, RCTL_SETTINGS));
        v.push((REG_TDBAH, (self.tx_descs / 0x1_0000_0000) as u32));
        v.push((REG_TDBAL, (self.tx_descs % 0x1_0000_0000) as u32));
        v.push((REG_TDLEN, 256));
        v.push((REG_TDH, 0));
        v.push((REG_TDT, 0));
        v.push((REG_TIPG, 0x0070_2008));
        v.push((REG_TCTL, TCTL_SETTINGS));
        assert(v@ =~= setup_s(self.rx_descs, self.tx_descs, ctrl));
        v
    }

    /// Prepares sending a packet. `status` is that of the descriptor at the
    /// transmit position.
    pub fn transmit(&mut self, len: usize, status: u8) -> (r: Result<TxSlot, &'static str>)
        requires
            old(self).wf(),
        ensures
            final(self).wf(),
            final(self).bar0 == old(self).bar0,
            final(self).mac == old(self).mac,
            final(self).rx_descs == old(self).rx_descs,
            final(self).rx_buffers@ == old(self).rx_buffers@,
            final(self).rx_tail == old(self).rx_tail,
            final(self).tx_descs == old(self).tx_descs,
            final(self).tx_buffers@ == old(self).tx_buffers@,
            ({
                let tail = old(self).tx_tail;
                let next = (tail + 1) % 16;
                if len > RX_BUFFER_SIZE {
                    r matches Err(e) && e@ == "Packet too large"@ && final(self).tx_tail == tail
                } else if status & DESC_DONE == 0 {
                    r matches Err(e) && e@ == "TX ring full"@ && final(self).tx_tail == tail
                } else {
                    r == Ok::<TxSlot, &'static str>(
                        TxSlot {
                            slot: tail,
                            buffer: old(self).tx_buffers@[tail as int],
                            length: len as u16,
                            command: TX_COMMAND,
                            tail: next as u32,
                        },
                    ) && final(self).tx_tail == next
                }
            }),
    {
        if len > RX_BUFFER_SIZE {
            return Err("Packet too large");
        }
        if status & DESC_DONE == 0 {
            return Err("TX ring full");
        }
        let slot: usize = self.tx_tail;
        let next: usize = (slot + 1) % NUM_TX_DESC;
        self.tx_tail = next;
        Ok(
            TxSlot {
                slot,
                buffer: self.tx_buffers[slot],
                length: len as u16,
                command: TX_COMMAND,
                tail: next as u32,
            },
        )
    }

    /// The descriptor that the next packet comes in.
    pub fn rx_slot(&self) -> (r: usize)
        requires
            self.wf(),
        ensures
            r == (self.rx_tail + 1) % 32,
    {
        (self.rx_tail + 1) % NUM_RX_DESC
    }

    /// Takes the next packet. `status` and `length` are those of the descriptor
    /// that it comes in; a length beyond the buffer is cut off.
    pub fn receive(&mut self, status: u8, length: u16) -> (r: Option<RxSlot>)
        requires
            old(self).wf(),
        ensures
            final(self).wf(),
            final(self).bar0 == old(self).bar0,
            final(self).mac == old(self).mac,
            final(self).rx_descs == old(self).rx_descs,
            final(self).rx_buffers@ == old(self).rx_buffers@,
            final(self).tx_descs == old(self).tx_descs,
            final(self).tx_buffers@ == old(self).tx_buffers@,
            final(self).tx_tail == old(self).tx_tail,
            ({
                let next = (old(self).rx_tail + 1) % 32;
                if status & DESC_DONE == 0 {
                    r is None && final(self).rx_tail == old(self).rx_tail
                } else {
                    r == Some(
                        RxSlot {
                            slot: next as usize,
                            buffer: old(self).rx_buffers@[next],
                            len: if length > 2048 {
                                2048
                            } else {
                                length as usize
                            },
                            tail: next as u32,
                        },
                    ) && final(self).rx_tail == next
                }
            }),
    {
        let next: usize = (self.rx_tail + 1) % NUM_RX_DESC;
        if status & DESC_DONE == 0 {
            return None;
        }
        let len: usize = if length as usize > RX_BUFFER_SIZE {
            RX_BUFFER_SIZE
        } else {
            length as usize
        };
        self.rx_tail = next;
        Some(RxSlot { slot: next, buffer: self.rx_buffers[next], len, tail: next as u32 })
    }
}

/// Clearing the first `n` words of the multicast table.
pub open spec fn multicast_s(n: nat) -> Seq<(u32, u32)> {
    Seq::new(n, |i: int| ((REG_MTA + 4 * i) as u32, 0u32))
}

/// The register writes that set the card up: link up, an empty multicast table,
/// the receive ring with all but one of its descriptors, and the transmit ring
/// with none.
pub open spec fn setup_s(rx: u64, tx: u64, ctrl: u32) -> Seq<(u32, u32)> {
    seq![(REG_CTRL, ctrl | CTRL_SLU)] + multicast_s(128) + seq![
        (REG_RDBAH, (rx / 0x1_0000_0000) as u32),
        (REG_RDBAL, (rx % 0x1_0000_0000) as u32),
        (REG_RDLEN, 512u32),
        (REG_RDH, 0u32),
        (REG_RDT, 31u32),
        (REG_RCTL, RCTL_SETTINGS),
        (REG_TDBAH, (tx / 0x1_0000_0000) as u32),
        (REG_TDBAL, (tx % 0x1_0000_0000) as u32),
        (REG_TDLEN, 256u32),
        (REG_TDH, 0u32),
        (REG_TDT, 0u32),
        (REG_TIPG, 0x0070_2008u32),
        (REG_TCTL, TCTL_SETTINGS),
    ]
}

/// What is done with the registers of the card.
#[derive(Debug, Clone, Copy, PartialEq, Eq, Structural)]
pub enum CardOp {
    /// Write a value to a register.
    Write(u32, u32),
    /// Read a register.
    Read(u32),
    /// Wait for a number of turns.
    Spin(u32),
}

/// How setting the card up begins: it is reset and given time, its interrupts are
/// masked and cleared, and the control register is read.
pub fn reset_card() -> (r: Vec<CardOp>)
    ensures
        r@ == seq![
            CardOp::Write(REG_CTRL, CTRL_RST),
            CardOp::Spin(100_000),
            CardOp::Write(REG_IMC, 0xffff_ffff),
            CardOp::Read(REG_ICR),
            CardOp::Read(REG_CTRL),
        ],
{
    let mut v: Vec<CardOp> = Vec::new();
    v.push(CardOp::Write(REG_CTRL, CTRL_RST));
    v.push(CardOp::Spin(100_000));
    v.push(CardOp::Write(REG_IMC, 0xffff_ffff));
    v.push(CardOp::Read(REG_ICR));
    v.push(CardOp::Read(REG_CTRL));
    assert(v@ =~= seq![
        CardOp::Write(REG_CTRL, CTRL_RST),
        CardOp::Spin(100_000),
        CardOp::Write(REG_IMC, 0xffff_ffff),
        CardOp::Read(REG_ICR),
        CardOp::Read(REG_CTRL),
    ]);
    v
}

/// Whether the link is up, from what the status register reads.
pub fn link_up(status: u32) -> (r: bool)
    ensures
        r == (status & 2 != 0),
{
    status & 2 != 0
}

/// The settings of receiver and transmitter are made of their parts.
pub proof fn law_settings()
    ensures
        RCTL_SETTINGS == 1u32 << 1 | 1u32 << 2 | 1u32 << 3 | 1u32 << 4 | 1u32 << 15 | 1u32 << 26,
        TCTL_SETTINGS == 1u32 << 1 | 1u32 << 3 | 0x0Fu32 << 4 | 0x40u32 << 12,
{
    assert(0x0400_801Eu32 == 1u32 << 1 | 1u32 << 2 | 1u32 << 3 | 1u32 << 4 | 1u32 << 15 | 1u32
        << 26) by (bit_vector);
    assert(0x0004_00FAu32 == 1u32 << 1 | 1u32 << 3 | 0x0Fu32 << 4 | 0x40u32 << 12) by (bit_vector);
}

} // verus!
