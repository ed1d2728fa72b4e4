//! What devices see of the drivers, and what drivers see of devices.

use crate::bytes::{
    le32, le64, lemma_number32, lemma_number64, lemma_number_same, number,
};
use crate::driver::ahci::{
    implemented_s, probe_action_s, probe_step_s, DeviceType, Probe, RegAction,
};
use crate::driver::ahci_cmd::{
    descriptor_s, frame_s, header_s, run_action_s, run_step_s, sector_size_s, swapped, table_s,
    transfer_s, CommandEnd, Direction, DiskCommand, Run,
};
use crate::driver::console::{sentinel, RawKey};
use crate::driver::dma::DmaAllocator;
use crate::driver::e1000::{eeprom_step_s, ring_s, setup_s, EepromRead};
use crate::driver::pci::{device_s, first_device, FunctionRegs, PciDevice};
use vstd::prelude::*;

verus! {

/// A command tells the controller where its table is, which way the data goes, and
/// where the data is and how long: in the header bit 6 is set for a command that
/// writes, bytes 2 and 3 count the pieces of data, and bytes 8 to 15 are the address of
/// the table; in the table the piece of data stands from byte 128 on.
#[verifier::rlimit(40)]
pub proof fn law_command_describes_its_data(c: DiskCommand, table: u64)
    ensures
        ({
            let h = header_s(c, table);
            &&& h.len() == 16
            &&& h[0] % 0x20 == 5
            &&& (h[0] / 0x40 == 1 <==> c.dir == Direction::Write)
            &&& h[1] == 0
            &&& number(h, 2, 2) == (if c.byte_count == 0 {
                0int
            } else {
                1
            })
            &&& number(h, 8, 8) == table
        }),
        ({
            let t = table_s(c);
            &&& t.len() == 256
            &&& t[0] == 0x27 && t[1] == 0x80 && t[2] == c.command
            &&& c.byte_count > 0 ==> number(t, 128, 8) == c.data_phys
            &&& c.byte_count > 0 && c.byte_count % 2 == 0 ==> number(t, 140, 4) == c.byte_count - 1
        }),
{
    let h = header_s(c, table);
    let n: u16 = if c.byte_count > 0 {
        1
    } else {
        0
    };
    assert(h.subrange(8, 16) =~= le64(table));
    lemma_number64(h, 8, table);
    reveal_with_fuel(number, 3);
    let t = table_s(c);
    assert(frame_s(c).len() == 20);
    assert(descriptor_s(c).len() == 16);
    if c.byte_count > 0 {
        assert(t.subrange(128, 136) =~= le64(c.data_phys));
        lemma_number64(t, 128, c.data_phys);
        if c.byte_count % 2 == 0 {
            let m = (c.byte_count - 1) as u32;
            assert(m % 2 == 1 ==> m | 1 == m) by (bit_vector);
            assert(m | 1 == m);
            assert(t.subrange(140, 144) =~= le32(m));
            lemma_number32(t, 140, m);
        }
    }
}

/// A transfer asks the device for exactly the sectors that it is about, of 512 bytes
/// each: command 25h reads them and 35h writes them.
pub proof fn law_transfer_asks_for_its_sectors(
    dma: DmaAllocator,
    context: Option<(u64, u64)>,
    lba: u64,
    count: u16,
    buf_len: nat,
    write: bool,
)
    requires
        dma.wf(),
    ensures
        ({
            let (r, after) = transfer_s(dma, context, lba, count, buf_len, write);
            &&& (r matches Ok(None)) <==> count == 0
            &&& (r matches Ok(Some(t)) ==> {
                &&& t.command.command == (if write {
                    0x35u8
                } else {
                    0x25u8
                })
                &&& (t.command.dir == Direction::Write <==> write)
                &&& (t.command.dir == Direction::Read <==> !write)
                &&& t.command.lba == lba
                &&& t.command.sectors == count
                &&& t.command.byte_count == 512 * count
                &&& t.command.data_phys == t.buffer.phys
                &&& t.buffer.len >= 512 * count
                &&& t.mark == dma.next_offset
                &&& buf_len >= 512 * count
            })
            &&& r is Err ==> after == dma && (buf_len < 512 * count || context is None
                || dma.next_offset + 512 * count + 8192 > dma.size)
        }),
{
}

/// The ports that a controller has are those whose bit is set, in order.
pub proof fn law_ports_are_those_with_a_bit(pi: u32, n: nat)
    requires
        n <= 32,
    ensures
        forall|p: u8|
            #[trigger] implemented_s(pi, n).contains(p) <==> p < n && pi & (1u32 << (p as u32)) != 0,
        forall|i: int, j: int|
            0 <= i < j < implemented_s(pi, n).len() ==> implemented_s(pi, n)[i] < implemented_s(
                pi,
                n,
            )[j],
    decreases n,
{
    if n > 0 {
        let m = (n - 1) as nat;
        law_ports_are_those_with_a_bit(pi, m);
        let before = implemented_s(pi, m);
        let now = implemented_s(pi, n);
        assert forall|p: u8| #[trigger] now.contains(p) <==> p < n && pi & (1u32 << (p as u32))
            != 0 by {
            if pi & (1u32 << (m as u32)) != 0 {
                assert(now == before.push(m as u8));
                assert(now[before.len() as int] == m as u8);
                if before.contains(p) {
                    let i = before.index_of(p);
                    assert(now[i] == p);
                }
                if now.contains(p) && p != m as u8 {
                    let i = now.index_of(p);
                    assert(before[i] == p);
                }
            }
        }
        assert forall|i: int, j: int| 0 <= i < j < now.len() implies now[i] < now[j] by {
            if j == before.len() {
                assert(before.contains(before[i]));
            }
        }
    }
}

/// Looking for a device gives the first that was meant, and none only if there is none.
pub proof fn law_first_device_is_found(devices: Seq<PciDevice>, p: spec_fn(PciDevice) -> bool)
    ensures
        match first_device(devices, p) {
            None => forall|i: int| 0 <= i < devices.len() ==> !p(#[trigger] devices[i]),
            Some(d) => exists|i: int|
                0 <= i < devices.len() && #[trigger] devices[i] == d && p(d) && forall|j: int|
                    0 <= j < i ==> !p(#[trigger] devices[j]),
        },
    decreases devices.len(),
{
    if devices.len() > 0 {
        if p(devices[0]) {
            assert(devices[0] == first_device(devices, p)->0);
        } else {
            let rest = devices.skip(1);
            law_first_device_is_found(rest, p);
            match first_device(rest, p) {
                None => {
                    assert forall|i: int| 0 <= i < devices.len() implies !p(#[trigger] devices[i]) by {
                        if i > 0 {
                            assert(rest[i - 1] == devices[i]);
                        }
                    }
                },
                Some(d) => {
                    let i = choose|i: int|
                        0 <= i < rest.len() && #[trigger] rest[i] == d && p(d) && forall|j: int|
                            0 <= j < i ==> !p(#[trigger] rest[j]);
                    assert(devices[i + 1] == d);
                    assert forall|j: int| 0 <= j < i + 1 implies !p(#[trigger] devices[j]) by {
                        if j > 0 {
                            assert(rest[j - 1] == devices[j]);
                        }
                    }
                },
            }
        }
    }
}

/// What a function says of itself is all that its registers hold: the low half of the
/// first is the vendor and the high half the device; class, subclass, interface and
/// revision are the bytes of the third, from the highest down.
pub proof fn law_functions_name_themselves(bus: u8, device: u8, function: u8, regs: FunctionRegs)
    ensures
        ({
            let d = device_s(bus, device, function, regs);
            &&& regs.id == d.vendor_id + 0x1_0000 * d.device_id
            &&& regs.class == d.revision + 0x100 * d.prog_if + 0x1_0000 * d.subclass + 0x100_0000
                * d.class_code
            &&& d.bars == regs.bars
            &&& (d.bus, d.device, d.function) == (bus, device, function)
        }),
{
    crate::bytes::lemma_parts32(regs.class);
}

/// Each descriptor of a ring takes 16 bytes: the address of its buffer in the first
/// eight, and its status in byte 12.
pub proof fn law_ring_names_its_buffers(buffers: Seq<u64>, status: u8, i: int)
    requires
        0 <= i < buffers.len(),
    ensures
        ring_s(buffers, status).len() == 16 * buffers.len(),
        number(ring_s(buffers, status), 16 * i, 8) == buffers[i],
        forall|k: int| 8 <= k < 16 && k != 12 ==> #[trigger] ring_s(buffers, status)[16 * i + k] == 0,
        ring_s(buffers, status)[16 * i + 12] == status,
    decreases buffers.len(),
{
    let before = buffers.drop_last();
    let r = ring_s(buffers, status);
    lemma_ring_len(buffers, status);
    lemma_ring_len(before, status);
    if i == buffers.len() - 1 {
        assert(r.subrange(16 * i, 16 * i + 8) =~= le64(buffers[i]));
        lemma_number64(r, 16 * i, buffers[i]);
    } else {
        law_ring_names_its_buffers(before, status, i);
        let b = ring_s(before, status);
        assert(forall|k: int| 0 <= k < b.len() ==> r[k] == b[k]);
        lemma_number_same(r, b, 16 * i, 8);
        assert forall|k: int| 8 <= k < 16 && k != 12 implies #[trigger] r[16 * i + k] == 0 by {
            assert(r[16 * i + k] == b[16 * i + k]);
        }
    }
}

proof fn lemma_ring_len(buffers: Seq<u64>, status: u8)
    ensures
        ring_s(buffers, status).len() == 16 * buffers.len(),
    decreases buffers.len(),
{
    if buffers.len() > 0 {
        lemma_ring_len(buffers.drop_last(), status);
    }
}

/// The value that is written last to a register.
pub open spec fn left_in(writes: Seq<(u32, u32)>, reg: u32) -> Option<u32>
    decreases writes.len(),
{
    if writes.len() == 0 {
        None
    } else if writes.last().0 == reg {
        Some(writes.last().1)
    } else {
        left_in(writes.drop_last(), reg)
    }
}

/// A set of writes to other registers leaves a register alone.
proof fn lemma_left_alone(writes: Seq<(u32, u32)>, reg: u32, i: int)
    requires
        0 <= i < writes.len(),
        writes[i].0 == reg,
        forall|j: int| i < j < writes.len() ==> (#[trigger] writes[j]).0 != reg,
    ensures
        left_in(writes, reg) == Some(writes[i].1),
    decreases writes.len(),
{
    if i < writes.len() - 1 {
        let w = writes.drop_last();
        assert forall|j: int| i < j < w.len() implies (#[trigger] w[j]).0 != reg by {
            assert(w[j] == writes[j]);
        }
        lemma_left_alone(w, reg, i);
    }
}

/// When the card is set up, it knows where its rings are and how long they are, has all
/// receive descriptors but one and no transmit descriptor, has an empty multicast table,
/// and both receiver and transmitter are switched on.
#[verifier::rlimit(60)]
#[verifier::spinoff_prover]
pub proof fn law_card_knows_its_rings(rx: u64, tx: u64, ctrl: u32)
    ensures
        ({
            let w = setup_s(rx, tx, ctrl);
            &&& left_in(w, 0x2800) matches Some(lo) && left_in(w, 0x2804) matches Some(hi) && rx
                == lo + 0x1_0000_0000 * hi
            &&& left_in(w, 0x3800) matches Some(lo) && left_in(w, 0x3804) matches Some(hi) && tx
                == lo + 0x1_0000_0000 * hi
            &&& left_in(w, 0x2808) == Some((16u32 * 32) as u32)
            &&& left_in(w, 0x2810) == Some(0u32)
            &&& left_in(w, 0x2818) == Some(31u32)
            &&& left_in(w, 0x3808) == Some((16u32 * 16) as u32)
            &&& left_in(w, 0x3810) == Some(0u32)
            &&& left_in(w, 0x3818) == Some(0u32)
            &&& left_in(w, 0x0100) matches Some(v) && v / 2 % 2 == 1
            &&& left_in(w, 0x0400) matches Some(v) && v / 2 % 2 == 1
            &&& left_in(w, 0) matches Some(v) && v == ctrl | 0x40
        }),
        forall|i: int|
            0 <= i < 128 ==> #[trigger] left_in(setup_s(rx, tx, ctrl), (0x5200 + 4 * i) as u32)
                == Some(0u32),
{
    let w = setup_s(rx, tx, ctrl);
    assert(w.len() == 142);
    assert(forall|i: int| 1 <= i < 129 ==> (#[trigger] w[i]) == ((0x5200 + 4 * (i - 1)) as u32, 0u32));
    lemma_left_alone(w, 0x2804, 129);
    lemma_left_alone(w, 0x2800, 130);
    lemma_left_alone(w, 0x2808, 131);
    lemma_left_alone(w, 0x2810, 132);
    lemma_left_alone(w, 0x2818, 133);
    lemma_left_alone(w, 0x0100, 134);
    lemma_left_alone(w, 0x3804, 135);
    lemma_left_alone(w, 0x3800, 136);
    lemma_left_alone(w, 0x3808, 137);
    lemma_left_alone(w, 0x3810, 138);
    lemma_left_alone(w, 0x3818, 139);
    lemma_left_alone(w, 0x0400, 141);
    lemma_left_alone(w, 0, 0);
    assert forall|i: int| 0 <= i < 128 implies #[trigger] left_in(w, (0x5200 + 4 * i) as u32)
        == Some(0u32) by {
        lemma_left_alone(w, (0x5200 + 4 * i) as u32, i + 1);
    }
}

/// The text of a drive is stored with the bytes of each word swapped: taking the bytes
/// from `2 * from` on and swapping every pair gives it back.
pub proof fn law_drive_text_is_swapped(id: Seq<u8>, from: int, n: int, k: int)
    requires
        0 <= k < n,
    ensures
        swapped(id, from, n).len() == 2 * n,
        swapped(id, from, n)[2 * k] == id[2 * (from + k) + 1],
        swapped(id, from, n)[2 * k + 1] == id[2 * (from + k)],
{
}

/// A drive whose word 106 has bit 12 set has sectors of as many words as it says in
/// words 117 and 118, and any other has sectors of 512 bytes.
pub proof fn law_sectors_have_the_size_that_is_named(id: Seq<u8>)
    requires
        id.len() == 512,
        number(id, 234, 4) < 0x8000_0000,
    ensures
        sector_size_s(id) == (if number(id, 212, 2) / 0x1000 % 2 == 1 {
            2 * number(id, 234, 4)
        } else {
            512
        }),
{
    reveal_with_fuel(number, 5);
    let w = crate::bytes::get16(id, 212);
    assert(w & 0x1000 != 0 <==> w / 0x1000 % 2 == 1) by (bit_vector);
}

/// Every editing key has a character of its own: the arrows up, down, left and right are
/// the characters 11h to 14h, home and end 15h and 16h, the page keys 17h and 18h, and
/// delete is 7Fh.
pub proof fn law_editing_keys_have_their_characters(k: RawKey)
    ensures
        match sentinel(k) {
            None => k == RawKey::Other,
            Some(c) => k == (match c as u32 {
                0x11 => RawKey::ArrowUp,
                0x12 => RawKey::ArrowDown,
                0x13 => RawKey::ArrowLeft,
                0x14 => RawKey::ArrowRight,
                0x15 => RawKey::Home,
                0x16 => RawKey::End,
                0x17 => RawKey::PageUp,
                0x18 => RawKey::PageDown,
                0x7f => RawKey::Delete,
                _ => RawKey::Other,
            }) && k != RawKey::Other,
        },
{
}

/// A port is given its memory in four writes: the address of its command list goes to the
/// registers at 00h and 04h, and that of its receive area to those at 08h and 0Ch, the low
/// half first.
pub proof fn law_ports_are_given_their_memory(base: u64, index: u8, clb: u64, fb: u64, v: u32)
    requires
        base <= 0x1_0000_0000_0000,
    ensures
        ({
            let s1 = Probe::WriteListLow { clb, fb };
            let s2 = probe_step_s(index, s1, v);
            let s3 = probe_step_s(index, s2, v);
            let s4 = probe_step_s(index, s3, v);
            &&& probe_action_s(base, s1) matches RegAction::Write(a1, x1) && probe_action_s(
                base,
                s2,
            ) matches RegAction::Write(a2, x2) && a1 == base && a2 == base + 4 && x1
                + 0x1_0000_0000 * x2 == clb
            &&& probe_action_s(base, s3) matches RegAction::Write(a3, x3) && probe_action_s(
                base,
                s4,
            ) matches RegAction::Write(a4, x4) && a3 == base + 8 && a4 == base + 0x0C && x3
                + 0x1_0000_0000 * x4 == fb
            &&& probe_step_s(index, s4, v) == (Probe::ReadErrors { clb, fb })
        }),
{
}

/// Before a port is used, the errors (30h) and the interrupts (10h) that it had are cleared
/// by writing them back, and its link is reset (2Ch): the low four bits of its control are
/// set to one and then to zero, and the others stay.
pub proof fn law_ports_begin_afresh(base: u64, index: u8, clb: u64, fb: u64, v: u32)
    requires
        base <= 0x1_0000_0000_0000,
    ensures
        probe_action_s(base, probe_step_s(index, Probe::ReadErrors { clb, fb }, v))
            == RegAction::Write((base + 0x30) as u64, v),
        probe_action_s(base, probe_step_s(index, Probe::ReadStatus { clb, fb }, v))
            == RegAction::Write((base + 0x10) as u64, v),
        probe_action_s(base, probe_step_s(index, Probe::ReadLinkControl { clb, fb }, v)) matches
            RegAction::Write(a, w) && a == base + 0x2C && w % 16 == 1 && w / 16 == v / 16,
        probe_action_s(
            base,
            probe_step_s(index, Probe::WaitLink { clb, fb, sctl: v, left: 1 }, 0),
        ) matches RegAction::Write(a, w) && a == base + 0x2C && w % 16 == 0 && w / 16 == v / 16,
{
    assert(((v & !0xFu32) | 1) % 16 == 1 && ((v & !0xFu32) | 1) / 16 == v / 16 && (v & !0xFu32) % 16
        == 0 && (v & !0xFu32) / 16 == v / 16) by (bit_vector);
}

/// A port is stopped by clearing bits 0 and 4 of its command register (18h). It is started
/// again in the other order: first bit 4 is set, so that it receives, and then bit 0.
pub proof fn law_ports_are_stopped_and_started(base: u64, index: u8, clb: u64, fb: u64, v: u32)
    requires
        base <= 0x1_0000_0000_0000,
    ensures
        probe_action_s(base, probe_step_s(index, Probe::ReadCommand, v)) matches RegAction::Write(
            a,
            w,
        ) && a == base + 0x18 && w % 2 == 0 && w / 16 % 2 == 0 && v - w == v % 2 + 16 * (v / 16 % 2),
        probe_action_s(base, probe_step_s(index, Probe::ReadForReceive { clb, fb }, v)) matches
            RegAction::Write(a, w) && a == base + 0x18 && w / 16 % 2 == 1 && w - v == 16 - 16 * (v
            / 16 % 2),
        probe_action_s(base, probe_step_s(index, Probe::ReadForStart { clb, fb }, v)) matches
            RegAction::Write(a, w) && a == base + 0x18 && w % 2 == 1 && w - v == 1 - v % 2,
{
    assert({
        &&& (v & !(1u32 | 0x10u32)) % 2 == 0
        &&& (v & !(1u32 | 0x10u32)) / 16 % 2 == 0
        &&& v - (v & !(1u32 | 0x10u32)) == v % 2 + 16 * (v / 16 % 2)
        &&& (v | 0x10u32) / 16 % 2 == 1
        &&& (v | 0x10u32) - v == 16 - 16 * (v / 16 % 2)
        &&& (v | 1u32) % 2 == 1
        &&& (v | 1u32) - v == 1 - v % 2
    }) by (bit_vector);
}

/// What answers at a port is told by its signature: 101h is a disk, EB140101h a drive for
/// removable media, C33C0101h an enclosure and 96690101h a multiplier. The port that was
/// found has the memory that it was given.
pub proof fn law_signatures_name_devices(index: u8, clb: u64, fb: u64, v: u32)
    ensures
        probe_step_s(index, Probe::ReadSignature { clb, fb }, v) matches Probe::Done(p) && p.index
            == index && p.clb_phys == clb && p.fb_phys == fb && p.signature == v && (p.device_type
            == DeviceType::Sata <==> v == 0x101) && (p.device_type == DeviceType::Atapi <==> v
            == 0xEB14_0101) && (p.device_type == DeviceType::Semb <==> v == 0xC33C_0101) && (
        p.device_type == DeviceType::PortMultiplier <==> v == 0x9669_0101),
{
}

/// A command is issued by setting bit 0 of the register at 38h, once the interrupts of the
/// port were cleared; it is over when that bit reads zero, and failed if bit 0 of the status
/// (20h) is then set.
pub proof fn law_commands_are_issued(base: u64, v: u32)
    requires
        base <= 0x1_0000_0000_0000,
    ensures
        run_action_s(base, Run::ReadStatus) == RegAction::Read((base + 0x10) as u64),
        run_action_s(base, run_step_s(Run::ReadStatus, Ok(v))) == RegAction::Write(
            (base + 0x10) as u64,
            v,
        ),
        run_step_s(Run::WriteStatus { v }, Ok(0)) == Run::Issue,
        run_action_s(base, Run::Issue) == RegAction::Write((base + 0x38) as u64, 1),
        run_step_s(Run::Issue, Ok(0)) matches Run::PollIssue { left } && run_action_s(
            base,
            Run::PollIssue { left },
        ) == RegAction::Read((base + 0x38) as u64) && (run_step_s(Run::PollIssue { left }, Ok(v))
            == Run::ReadResult <==> v % 2 == 0),
        run_action_s(base, Run::ReadResult) == RegAction::Read((base + 0x20) as u64),
        run_step_s(Run::ReadResult, Ok(v)) == Run::Ended(
            if v % 2 == 1 {
                CommandEnd::Failed
            } else {
                CommandEnd::Completed
            },
        ),
{
    assert(v & 1 != 0 <==> v % 2 == 1) by (bit_vector);
}

/// A word of the card's memory is read by looking until bit 4 of the register is set: the
/// upper half of the register is the word then. A word that does not come is zero.
pub proof fn law_words_are_in_the_upper_half(left: u32, v: u32)
    requires
        left > 0,
    ensures
        v & 0x10 != 0 ==> (eeprom_step_s(EepromRead::Poll { left }, v) matches EepromRead::Done(w)
            && v == 0x1_0000 * w + v % 0x1_0000),
        v & 0x10 == 0 ==> eeprom_step_s(EepromRead::Poll { left }, v) == (if left > 1 {
            EepromRead::Poll { left: (left - 1) as u32 }
        } else {
            EepromRead::Done(0)
        }),
{
}

} // verus!
