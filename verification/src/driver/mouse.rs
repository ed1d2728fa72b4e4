//! The mouse: assembling its packets and tracking the pointer.

use crate::driver::keyboard::{
    ask_config_s, push_ask_config, push_store_config, store_config_s, PortOp, PS2_CMD_PORT,
    PS2_DATA_PORT,
};
use vstd::prelude::*;

verus! {

/// Interrupt line of the mouse.
pub const MOUSE_IRQ: u8 = 12;

/// The pointer: its position, the buttons, and a counter of packets.
#[derive(Debug, Clone, Copy, PartialEq, Eq, Structural)]
pub struct MouseState {
    pub x: i32,
    pub y: i32,
    pub left: bool,
    pub right: bool,
    pub middle: bool,
    pub seq: u64,
}

/// The mouse: the pointer, the size of the screen that it stays on, and the
/// bytes of a packet that is not complete yet.
#[derive(Debug)]
pub struct Mouse {
    state: MouseState,
    width: i32,
    height: i32,
    packet: Vec<u8>,
}

#[verifier::ext_equal]
pub struct MouseView {
    pub state: MouseState,
    pub width: i32,
    pub height: i32,
    pub packet: Seq<u8>,
}

/// `v` limited to `0..limit`.
pub open spec fn limited(v: int, limit: int) -> int {
    if v < 0 {
        0
    } else if v >= limit {
        limit - 1
    } else {
        v
    }
}

/// A movement: nine bits, of which the sign is in the flags.
pub open spec fn delta(byte: u8, negative: bool) -> int {
    if negative {
        byte - 256
    } else {
        byte as int
    }
}

/// The pointer after a packet. A packet that says its movement overflowed is
/// dropped. Upwards is positive in a packet and negative on the screen.
pub open spec fn moved_s(
    s: MouseState,
    width: int,
    height: int,
    b0: u8,
    b1: u8,
    b2: u8,
) -> MouseState {
    if b0 & 0xC0 != 0 {
        s
    } else {
        MouseState {
            x: limited(s.x + delta(b1, b0 & 0x10 != 0), width) as i32,
            y: limited(s.y - delta(b2, b0 & 0x20 != 0), height) as i32,
            left: b0 & 1 != 0,
            right: b0 & 2 != 0,
            middle: b0 & 4 != 0,
            seq: if s.seq == u64::MAX {
                0
            } else {
                (s.seq + 1) as u64
            },
        }
    }
}

/// The mouse after a byte from the controller, which came with a status. Bytes
/// of the keyboard are ignored, and so are bytes that cannot begin a packet
/// where one should begin.
pub open spec fn received_s(m: MouseView, status: u8, byte: u8) -> MouseView {
    if status & 0x20 == 0 || (m.packet.len() == 0 && byte & 8 == 0) {
        m
    } else if m.packet.len() < 2 {
        MouseView { packet: m.packet.push(byte), ..m }
    } else {
        MouseView {
            state: moved_s(
                m.state,
                m.width as int,
                m.height as int,
                m.packet[0],
                m.packet[1],
                byte,
            ),
            packet: Seq::empty(),
            ..m
        }
    }
}

impl Mouse {
    pub closed spec fn view(&self) -> MouseView {
        MouseView {
            state: self.state,
            width: self.width,
            height: self.height,
            packet: self.packet@,
        }
    }

    /// The pointer is on the screen, or at its corner before the size of the
    /// screen is known.
    pub closed spec fn wf(&self) -> bool {
        &&& 1 <= self.width <= 0x7fff_ff01
        &&& 1 <= self.height <= 0x7fff_ff00
        &&& 0 <= self.state.x < self.width
        &&& 0 <= self.state.y < self.height
        &&& self.packet@.len() < 3
    }

    /// A pointer in the corner of a screen of the usual size.
    pub fn new() -> (r: Mouse)
        ensures
            r.wf(),
            r@ == (MouseView {
                state: MouseState {
                    x: 0,
                    y: 0,
                    left: false,
                    right: false,
                    middle: false,
                    seq: 0,
                },
                width: 1024,
                height: 768,
                packet: Seq::empty(),
            }),
    {
        Mouse {
            state: MouseState { x: 0, y: 0, left: false, right: false, middle: false, seq: 0 },
            width: 1024,
            height: 768,
            packet: Vec::new(),
        }
    }

    /// The pointer.
    pub fn state(&self) -> (r: MouseState)
        ensures
            r == self@.state,
    {
        self.state
    }

    /// Sets the size of the screen and puts the pointer in its centre.
    pub fn set_bounds_and_center(&mut self, width: i32, height: i32)
        requires
            old(self).wf(),
            1 <= width <= 0x7fff_ff01,
            1 <= height <= 0x7fff_ff00,
        ensures
            final(self).wf(),
            final(self)@ == (MouseView {
                state: MouseState {
                    x: (width as int / 2) as i32,
                    y: (height as int / 2) as i32,
                    ..old(self)@.state
                },
                width,
                height,
                ..old(self)@
            }),
    {
        self.width = width;
        self.height = height;
        self.state.x = width / 2;
        self.state.y = height / 2;
    }

    /// Takes a complete packet.
    fn apply_packet(&mut self, b0: u8, b1: u8, b2: u8)
        requires
            old(self).wf(),
        ensures
            final(self).wf(),
            final(self)@ == (MouseView {
                state: moved_s(
                    old(self)@.state,
                    old(self)@.width as int,
                    old(self)@.height as int,
                    b0,
                    b1,
                    b2,
                ),
                ..old(self)@
            }),
    {
        if b0 & 0xC0 != 0 {
            return;
        }
        let mut dx: i32 = b1 as i32;
        let mut dy: i32 = b2 as i32;
        if b0 & 0x10 != 0 {
            dx = dx - 256;
        }
        if b0 & 0x20 != 0 {
            dy = dy - 256;
        }
        self.state = MouseState {
            x: limit(self.state.x + dx, self.width),
            y: limit(self.state.y - dy, self.height),
            left: b0 & 1 != 0,
            right: b0 & 2 != 0,
            middle: b0 & 4 != 0,
            seq: self.state.seq.wrapping_add(1),
        };
    }

    /// Takes a byte that the controller had, with the status that came with it.
    pub fn receive(&mut self, status: u8, byte: u8)
        requires
            old(self).wf(),
        ensures
            final(self).wf(),
            final(self)@ == received_s(old(self)@, status, byte),
    {
        if status & 0x20 == 0 {
            return;
        }
        if self.packet.len() == 0 && byte & 8 == 0 {
            return;
        }
        if self.packet.len() < 2 {
            self.packet.push(byte);
            return;
        }
        let b0: u8 = self.packet[0];
        let b1: u8 = self.packet[1];
        self.packet = Vec::new();
        self.apply_packet(b0, b1, byte);
    }
}

/// Limits a coordinate to the screen.
fn limit(v: i32, size: i32) -> (r: i32)
    requires
        size >= 1,
    ensures
        r == limited(v as int, size as int),
{
    if v < 0 {
        0
    } else if v >= size {
        size - 1
    } else {
        v
    }
}

/// The controller configuration with the mouse's interrupt and clock on.
pub fn mouse_config(config: u8) -> (r: u8)
    ensures
        r == (config | 2) & !0x20,
{
    (config | 2) & !0x20
}

/// Sending a byte to the mouse, which answers with one.
pub open spec fn mouse_command_s(cmd: u8) -> Seq<PortOp> {
    seq![
        PortOp::WaitWrite,
        PortOp::Out(PS2_CMD_PORT, 0xD4),
        PortOp::WaitWrite,
        PortOp::Out(PS2_DATA_PORT, cmd),
        PortOp::WaitRead,
        PortOp::In(PS2_DATA_PORT),
    ]
}

/// Sends a byte to the mouse.
fn push_mouse_command(v: &mut Vec<PortOp>, cmd: u8)
    ensures
        final(v)@ == old(v)@ + mouse_command_s(cmd),
{
    v.push(PortOp::WaitWrite);
    v.push(PortOp::Out(PS2_CMD_PORT, 0xD4));
    v.push(PortOp::WaitWrite);
    v.push(PortOp::Out(PS2_DATA_PORT, cmd));
    v.push(PortOp::WaitRead);
    v.push(PortOp::In(PS2_DATA_PORT));
    assert(v@ =~= old(v)@ + mouse_command_s(cmd));
}

/// How setting up the mouse begins: its port is enabled, and the configuration is
/// asked for.
pub fn mouse_start() -> (r: Vec<PortOp>)
    ensures
        r@ == seq![PortOp::WaitWrite, PortOp::Out(PS2_CMD_PORT, 0xA8)] + ask_config_s(),
{
    let mut v: Vec<PortOp> = Vec::new();
    v.push(PortOp::WaitWrite);
    v.push(PortOp::Out(PS2_CMD_PORT, 0xA8));
    assert(v@ =~= seq![PortOp::WaitWrite, PortOp::Out(PS2_CMD_PORT, 0xA8)]);
    push_ask_config(&mut v);
    v
}

/// How setting up the mouse ends: the configuration is stored with the mouse's
/// interrupt and clock on, and the mouse gets its defaults and is told to report.
pub fn mouse_finish(config: u8) -> (r: Vec<PortOp>)
    ensures
        r@ == store_config_s((config | 2) & !0x20) + mouse_command_s(0xF6) + mouse_command_s(0xF4),
{
    let mut v: Vec<PortOp> = Vec::new();
    push_store_config(&mut v, mouse_config(config));
    assert(v@ =~= store_config_s((config | 2) & !0x20));
    push_mouse_command(&mut v, 0xF6);
    push_mouse_command(&mut v, 0xF4);
    v
}

/// The pointer never leaves the screen.
pub proof fn law_pointer_stays_on_screen(
    s: MouseState,
    width: int,
    height: int,
    b0: u8,
    b1: u8,
    b2: u8,
)
    requires
        1 <= width <= i32::MAX,
        1 <= height <= i32::MAX,
        0 <= s.x < width,
        0 <= s.y < height,
    ensures
        0 <= moved_s(s, width, height, b0, b1, b2).x < width,
        0 <= moved_s(s, width, height, b0, b1, b2).y < height,
{
}

/// A number is the one that nine bits mean in two's complement: eight of a byte, and a
/// sign.
pub open spec fn nine_bits(d: int, byte: u8, negative: bool) -> bool {
    &&& -256 <= d < 256
    &&& d % 256 == byte
    &&& (d < 0) == negative
}

/// The pointer moves by what the nine bits of each direction mean, upwards and to the
/// right, as far as the screen goes; the buttons are as the packet says, and every
/// packet counts.
pub proof fn law_packet_moves_the_pointer(
    s: MouseState,
    width: int,
    height: int,
    b0: u8,
    b1: u8,
    b2: u8,
    dx: int,
    dy: int,
)
    requires
        1 <= width <= i32::MAX,
        1 <= height <= i32::MAX,
        b0 & 0xC0 == 0,
        nine_bits(dx, b1, b0 & 0x10 != 0),
        nine_bits(dy, b2, b0 & 0x20 != 0),
    ensures
        ({
            let m = moved_s(s, width, height, b0, b1, b2);
            &&& 0 <= s.x + dx < width ==> m.x == s.x + dx
            &&& s.x + dx < 0 ==> m.x == 0
            &&& s.x + dx >= width ==> m.x == width - 1
            &&& 0 <= s.y - dy < height ==> m.y == s.y - dy
            &&& s.y - dy < 0 ==> m.y == 0
            &&& s.y - dy >= height ==> m.y == height - 1
            &&& m.left == (b0 & 1 != 0)
            &&& m.right == (b0 & 2 != 0)
            &&& m.middle == (b0 & 4 != 0)
            &&& (m.seq - s.seq - 1) % 0x1_0000_0000_0000_0000 == 0
        }),
{
}

/// A movement by `k` in both directions, and one by as much against them: a byte of
/// `256 - k` with the sign undoes a byte of `k` without.
pub proof fn law_movements_can_be_undone(
    s: MouseState,
    width: int,
    height: int,
    forth: u8,
    back: u8,
    kx: int,
    ky: int,
)
    requires
        1 <= width <= i32::MAX,
        1 <= height <= i32::MAX,
        forth & 0xF0 == 0,
        back & 0xF0 == 0x30,
        1 <= kx <= 255,
        1 <= ky <= 255,
        0 <= s.x && s.x + kx < width,
        0 <= s.y - ky && s.y < height,
    ensures
        ({
            let m = moved_s(s, width, height, forth, kx as u8, ky as u8);
            let n = moved_s(m, width, height, back, (256 - kx) as u8, (256 - ky) as u8);
            &&& m.x - s.x == kx && s.y - m.y == ky
            &&& n.x == s.x && n.y == s.y
        }),
{
    assert(forth & 0xC0 == 0 && forth & 0x10 == 0 && forth & 0x20 == 0) by (bit_vector)
        requires
            forth & 0xF0 == 0,
    ;
    assert(back & 0xC0 == 0 && back & 0x10 != 0 && back & 0x20 != 0) by (bit_vector)
        requires
            back & 0xF0 == 0x30,
    ;
    let m = moved_s(s, width, height, forth, kx as u8, ky as u8);
    law_packet_moves_the_pointer(s, width, height, forth, kx as u8, ky as u8, kx, ky);
    law_packet_moves_the_pointer(
        m,
        width,
        height,
        back,
        (256 - kx) as u8,
        (256 - ky) as u8,
        -kx,
        -ky,
    );
}

/// A packet whose movement overflowed moves nothing.
pub proof fn law_overflow_is_dropped(
    s: MouseState,
    width: int,
    height: int,
    b0: u8,
    b1: u8,
    b2: u8,
)
    requires
        b0 & 0x40 != 0 || b0 & 0x80 != 0,
    ensures
        moved_s(s, width, height, b0, b1, b2) == s,
{
    assert(b0 & 0xC0 != 0) by (bit_vector)
        requires
            b0 & 0x40 != 0 || b0 & 0x80 != 0,
    ;
}

/// Three bytes of the mouse are a packet: the flags, the movement to the right, and the
/// one upwards. The pointer stays where it is until the third.
pub proof fn law_three_bytes_are_a_packet(
    m: MouseView,
    t0: u8,
    t1: u8,
    t2: u8,
    b0: u8,
    b1: u8,
    b2: u8,
)
    requires
        m.packet.len() == 0,
        t0 & 0x20 != 0 && t1 & 0x20 != 0 && t2 & 0x20 != 0,
        b0 & 8 != 0,
    ensures
        ({
            let m1 = received_s(m, t0, b0);
            let m2 = received_s(m1, t1, b1);
            let m3 = received_s(m2, t2, b2);
            &&& m1.state == m.state && m2.state == m.state
            &&& m3.packet.len() == 0
            &&& m3.width == m.width && m3.height == m.height
            &&& m3.state == moved_s(m.state, m.width as int, m.height as int, b0, b1, b2)
        }),
{
}

/// Bytes of the keyboard, and bytes that cannot begin a packet, change nothing.
pub proof fn law_other_bytes_are_ignored(m: MouseView, status: u8, byte: u8)
    requires
        status & 0x20 == 0 || (m.packet.len() == 0 && byte & 8 == 0),
    ensures
        received_s(m, status, byte) == m,
{
}

} // verus!
