//! Console input line discipline: the single keyboard decode point.
//!
//! Raw scancodes go in through [`feed_scancode`]; decoded characters land in a
//! small ring buffer that the shell and the `stdin` path drain through
//! [`read_char`]. Editing keys travel in the same stream as otherwise unused
//! control characters.

use pc_keyboard::{layouts, DecodedKey, HandleControl, KeyCode, Keyboard, ScancodeSet1};
use vstd::prelude::*;

verus! {

/// Characters that stand for editing keys.
pub const ARROW_UP: char = '\u{11}';

pub const ARROW_DOWN: char = '\u{12}';

pub const ARROW_LEFT: char = '\u{13}';

pub const ARROW_RIGHT: char = '\u{14}';

pub const HOME: char = '\u{15}';

pub const END: char = '\u{16}';

pub const PAGE_UP: char = '\u{17}';

pub const PAGE_DOWN: char = '\u{18}';

pub const DELETE: char = '\u{7f}';

/// Capacity of the ring buffer; it holds one character less.
pub const CAP: usize = 256;

/// Keys that produce no character of their own.
#[derive(Debug, Clone, Copy, PartialEq, Eq, Structural)]
pub enum RawKey {
    ArrowUp,
    ArrowDown,
    ArrowLeft,
    ArrowRight,
    Home,
    End,
    PageUp,
    PageDown,
    Delete,
    Other,
}

/// A decoded key press.
#[derive(Debug, Clone, Copy, PartialEq, Eq, Structural)]
pub enum Key {
    Unicode(char),
    Raw(RawKey),
}

/// The scancode decoder of the `pc_keyboard` crate, for a US layout and scan
/// code set 1.
#[verifier::external_body]
pub struct KeyDecoder {
    inner: Keyboard<layouts::Us104Key, ScancodeSet1>,
}

/// The scancodes that a decoder has been fed since it was made.
pub uninterp spec fn fed(d: KeyDecoder) -> Seq<u8>;

/// The key press that a fresh decoder reports on the last of these scancodes,
/// when every key event is processed as soon as it occurs.
pub uninterp spec fn decoded_key(codes: Seq<u8>) -> Option<Key>;

/// Calls `pc_keyboard::Keyboard::new` with scan code set 1, the US layout and
/// no special treatment of the control key: a decoder that has seen nothing.
#[verifier::external_body]
fn new_decoder() -> (r: KeyDecoder)
    ensures
        fed(r) == Seq::<u8>::empty(),
{
    let set = ScancodeSet1::new();
    KeyDecoder { inner: Keyboard::new(set, layouts::Us104Key, HandleControl::Ignore) }
}

/// Feeds one scancode to `pc_keyboard::Keyboard::add_byte` and hands the key
/// event that it may complete to `Keyboard::process_keyevent`. What comes out is
/// a function of all scancodes fed so far; decoding errors report no key.
#[verifier::external_body]
fn decode(d: &mut KeyDecoder, code: u8) -> (r: Option<Key>)
    ensures
        fed(*final(d)) == fed(*old(d)).push(code),
        r == decoded_key(fed(*old(d)).push(code)),
{
    let event = d.inner.add_byte(code).ok()??;
    match d.inner.process_keyevent(event)? {
        DecodedKey::Unicode(c) => Some(Key::Unicode(c)),
        DecodedKey::RawKey(k) => Some(Key::Raw(match k {
            KeyCode::ArrowUp => RawKey::ArrowUp, KeyCode::ArrowDown => RawKey::ArrowDown,
            KeyCode::ArrowLeft => RawKey::ArrowLeft, KeyCode::ArrowRight => RawKey::ArrowRight,
            KeyCode::Home => RawKey::Home, KeyCode::End => RawKey::End,
            KeyCode::PageUp => RawKey::PageUp, KeyCode::PageDown => RawKey::PageDown,
            KeyCode::Delete => RawKey::Delete, _ => RawKey::Other,
        })),
    }
}

/// Decoded-character ring buffer, with the decoder that fills it and the tasks
/// that wait for input.
pub struct ConsoleInput {
    decoder: KeyDecoder,
    buf: Vec<char>,
    head: usize,
    tail: usize,
    waiters: Vec<u32>,
    dropped: u64,
}

/// The contents of the console input.
#[verifier::ext_equal]
pub struct ConsoleView {
    /// Scancodes fed so far.
    pub codes: Seq<u8>,
    /// Characters waiting to be read, the oldest first.
    pub queue: Seq<char>,
    /// Tasks blocked until there is input.
    pub waiters: Seq<u32>,
    /// Number of characters lost because the buffer was full.
    pub dropped: u64,
}

/// Number of characters between two positions of the ring.
spec fn ring_len(head: int, tail: int) -> int {
    if head >= tail {
        head - tail
    } else {
        head + 256 - tail
    }
}

impl ConsoleInput {
    /// Ring positions are within the buffer.
    pub closed spec fn wf(&self) -> bool {
        self.buf@.len() == 256 && self.head < 256 && self.tail < 256
    }

    pub closed spec fn view(&self) -> ConsoleView {
        ConsoleView {
            codes: fed(self.decoder),
            queue: Seq::new(
                ring_len(self.head as int, self.tail as int) as nat,
                |k: int| self.buf@[(self.tail + k) % 256],
            ),
            waiters: self.waiters@,
            dropped: self.dropped,
        }
    }

    /// A console without any input.
    pub fn new() -> (r: ConsoleInput)
        ensures
            r.wf(),
            r@ == (ConsoleView {
                codes: Seq::empty(),
                queue: Seq::empty(),
                waiters: Seq::empty(),
                dropped: 0,
            }),
    {
        let mut buf: Vec<char> = Vec::new();
        let mut i: usize = 0;
        while i < 256
            invariant
                i <= 256,
                buf@.len() == i,
            decreases 256 - i,
        {
            buf.push('\0');
            i += 1;
        }
        let r = ConsoleInput {
            decoder: new_decoder(),
            buf,
            head: 0,
            tail: 0,
            waiters: Vec::new(),
            dropped: 0,
        };
        assert(r@.queue =~= Seq::<char>::empty());
        r
    }
}

/// The console after a character arrived: it is queued unless the buffer is
/// full, in which case it is counted as lost.
pub open spec fn pushed(v: ConsoleView, c: char) -> ConsoleView {
    if v.queue.len() == 255 {
        ConsoleView {
            dropped: if v.dropped == u64::MAX {
                0
            } else {
                (v.dropped + 1) as u64
            },
            ..v
        }
    } else {
        ConsoleView { queue: v.queue.push(c), ..v }
    }
}

/// The character that stands for an editing key.
pub open spec fn sentinel(k: RawKey) -> Option<char> {
    match k {
        RawKey::ArrowUp => Some(ARROW_UP),
        RawKey::ArrowDown => Some(ARROW_DOWN),
        RawKey::ArrowLeft => Some(ARROW_LEFT),
        RawKey::ArrowRight => Some(ARROW_RIGHT),
        RawKey::Home => Some(HOME),
        RawKey::End => Some(END),
        RawKey::PageUp => Some(PAGE_UP),
        RawKey::PageDown => Some(PAGE_DOWN),
        RawKey::Delete => Some(DELETE),
        RawKey::Other => None,
    }
}

/// The character that a key press delivers, if any.
pub open spec fn key_char(k: Option<Key>) -> Option<char> {
    match k {
        Some(Key::Unicode(c)) => Some(c),
        Some(Key::Raw(r)) => sentinel(r),
        None => None,
    }
}

/// The console after a key press: its character is queued and everyone who
/// waits for input is woken.
pub open spec fn delivered(v: ConsoleView, k: Option<Key>) -> (ConsoleView, Seq<u32>) {
    match key_char(k) {
        Some(c) => (ConsoleView { waiters: Seq::empty(), ..pushed(v, c) }, v.waiters),
        None => (v, Seq::empty()),
    }
}

/// Translates editing keys into the characters that stand for them.
pub fn raw_key_to_sentinel(code: RawKey) -> (r: Option<char>)
    ensures
        r == sentinel(code),
{
    match code {
        RawKey::ArrowUp => Some(ARROW_UP),
        RawKey::ArrowDown => Some(ARROW_DOWN),
        RawKey::ArrowLeft => Some(ARROW_LEFT),
        RawKey::ArrowRight => Some(ARROW_RIGHT),
        RawKey::Home => Some(HOME),
        RawKey::End => Some(END),
        RawKey::PageUp => Some(PAGE_UP),
        RawKey::PageDown => Some(PAGE_DOWN),
        RawKey::Delete => Some(DELETE),
        RawKey::Other => None,
    }
}

/// Pushes a character into the ring buffer.
fn push_char(input: &mut ConsoleInput, c: char)
    requires
        old(input).wf(),
    ensures
        final(input).wf(),
        final(input)@ == pushed(old(input)@, c),
{
    let next: usize = (input.head + 1) % 256;
    if next == input.tail {
        input.dropped = input.dropped.wrapping_add(1);
        assert(input@ =~= pushed(old(input)@, c));
        return;
    }
    let h: usize = input.head;
    input.buf.set(h, c);
    input.head = next;
    assert(input@.queue =~= old(input)@.queue.push(c)) by {
        let n = old(input)@.queue.len();
        assert((old(input).tail + n) % 256 == h as int);
        assert forall|k: int| 0 <= k < n implies #[trigger] input@.queue[k] == old(
            input,
        )@.queue[k] by {
            assert((input.tail + k) % 256 != h as int);
        }
    }
}

/// Wakes all tasks that wait for input: returns them and forgets them.
fn wake_waiters(input: &mut ConsoleInput) -> (woken: Vec<u32>)
    requires
        old(input).wf(),
    ensures
        final(input).wf(),
        woken@ == old(input)@.waiters,
        final(input)@ == (ConsoleView { waiters: Seq::empty(), ..old(input)@ }),
{
    let mut woken: Vec<u32> = Vec::new();
    woken.append(&mut input.waiters);
    assert(woken@ =~= old(input)@.waiters);
    assert(input@ =~= (ConsoleView { waiters: Seq::empty(), ..old(input)@ }));
    woken
}

/// Handles one decoded key press. Returns the tasks to wake.
pub fn deliver_key(input: &mut ConsoleInput, key: Option<Key>) -> (woken: Vec<u32>)
    requires
        old(input).wf(),
    ensures
        final(input).wf(),
        (final(input)@, woken@) == delivered(old(input)@, key),
{
    let c: Option<char> = match key {
        Some(Key::Unicode(c)) => Some(c),
        Some(Key::Raw(r)) => raw_key_to_sentinel(r),
        None => None,
    };
    match c {
        Some(c) => {
            push_char(input, c);
            wake_waiters(input)
        },
        None => {
            let none: Vec<u32> = Vec::new();
            assert(none@ =~= Seq::<u32>::empty());
            none
        },
    }
}

/// Feeds one raw PS/2 scancode. Decodes it and, if a key that matters resulted,
/// queues its character. Returns the tasks to wake.
pub fn feed_scancode(input: &mut ConsoleInput, code: u8) -> (woken: Vec<u32>)
    requires
        old(input).wf(),
    ensures
        final(input).wf(),
        (final(input)@, woken@) == delivered(
            ConsoleView { codes: old(input)@.codes.push(code), ..old(input)@ },
            decoded_key(old(input)@.codes.push(code)),
        ),
{
    let key = decode(&mut input.decoder, code);
    assert(input@ =~= (ConsoleView { codes: old(input)@.codes.push(code), ..old(input)@ }));
    deliver_key(input, key)
}

/// The console after its oldest character was taken.
pub open spec fn popped(v: ConsoleView) -> (Option<char>, ConsoleView) {
    if v.queue.len() == 0 {
        (None, v)
    } else {
        (Some(v.queue[0]), ConsoleView { queue: v.queue.drop_first(), ..v })
    }
}

/// Pops the next decoded character, or `None` if the buffer is empty.
pub fn read_char(input: &mut ConsoleInput) -> (r: Option<char>)
    requires
        old(input).wf(),
    ensures
        final(input).wf(),
        (r, final(input)@) == popped(old(input)@),
{
    if input.head == input.tail {
        return None;
    }
    let t: usize = input.tail;
    let c: char = input.buf[t];
    input.tail = (t + 1) % 256;
    proof {
        assert(old(input)@.queue[0] == c);
        let q = old(input)@.queue;
        assert(input@.queue.len() == q.len() - 1);
        assert forall|k: int| 0 <= k < q.len() - 1 implies #[trigger] input@.queue[k] == q[k
            + 1] by {
            assert((input.tail + k) % 256 == (old(input).tail + (k + 1)) % 256);
        }
        assert(input@.queue =~= q.drop_first());
        assert(input@ =~= popped(old(input)@).1);
    }
    Some(c)
}

/// True if at least one decoded character is buffered.
pub fn has_input(input: &ConsoleInput) -> (r: bool)
    requires
        input.wf(),
    ensures
        r == (input@.queue.len() > 0),
{
    input.head != input.tail
}

/// Discards any buffered input.
pub fn flush(input: &mut ConsoleInput)
    requires
        old(input).wf(),
    ensures
        final(input).wf(),
        final(input)@ == (ConsoleView { queue: Seq::empty(), ..old(input)@ }),
{
    input.tail = input.head;
    assert(input@ =~= (ConsoleView { queue: Seq::empty(), ..old(input)@ }));
}

/// Injects a character directly into the input buffer. Returns the tasks to
/// wake.
pub fn inject_char(input: &mut ConsoleInput, c: char) -> (woken: Vec<u32>)
    requires
        old(input).wf(),
    ensures
        final(input).wf(),
        woken@ == old(input)@.waiters,
        final(input)@ == (ConsoleView { waiters: Seq::empty(), ..pushed(old(input)@, c) }),
{
    push_char(input, c);
    wake_waiters(input)
}

/// The console after a task asked for a character: it gets the oldest one, or
/// is put on the waiting list, where it stands only once.
pub open spec fn asked(v: ConsoleView, task: u32) -> (Option<char>, ConsoleView) {
    if v.queue.len() > 0 {
        popped(v)
    } else if v.waiters.contains(task) {
        (None, v)
    } else {
        (None, ConsoleView { waiters: v.waiters.push(task), ..v })
    }
}

/// One round of a blocking read: returns a character if there is one; otherwise
/// registers the task as waiting, and the caller blocks it and asks again once
/// it is woken.
pub fn read_char_blocking(input: &mut ConsoleInput, task_id: u32) -> (r: Option<char>)
    requires
        old(input).wf(),
    ensures
        final(input).wf(),
        (r, final(input)@) == asked(old(input)@, task_id),
{
    if has_input(input) {
        return read_char(input);
    }
    let mut i: usize = 0;
    while i < input.waiters.len()
        invariant
            *input == *old(input),
            input.wf(),
            input@.queue.len() == 0,
            i <= input.waiters@.len(),
            forall|j: int| 0 <= j < i ==> input.waiters@[j] != task_id,
        decreases input.waiters@.len() - i,
    {
        if input.waiters[i] == task_id {
            assert(input@.waiters.contains(task_id)) by {
                assert(input@.waiters[i as int] == task_id);
            }
            return None;
        }
        i += 1;
    }
    assert(!input@.waiters.contains(task_id));
    input.waiters.push(task_id);
    assert(input@ =~= (ConsoleView {
        waiters: old(input)@.waiters.push(task_id),
        ..old(input)@
    }));
    None
}

/// Characters come out in the order in which they went in: after `c` was queued
/// behind others, the others come first and then `c`.
pub proof fn law_input_is_first_in_first_out(v: ConsoleView, c: char)
    requires
        v.queue.len() < 255,
    ensures
        v.queue.len() == 0 ==> popped(pushed(v, c)) == (Some(c), v),
        v.queue.len() > 0 ==> popped(pushed(v, c)) == (popped(v).0, pushed(popped(v).1, c)),
{
    if v.queue.len() == 0 {
        assert(pushed(v, c).queue.drop_first() =~= v.queue);
    } else {
        assert(v.queue.push(c).drop_first() =~= v.queue.drop_first().push(c));
    }
}

} // verus!
