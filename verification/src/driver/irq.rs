//! The bridge from interrupts to driver tasks: a driver claims an interrupt line
//! and waits for notifications; the first-level handler records them and wakes
//! the driver.

use vstd::prelude::*;

verus! {

/// Number of interrupt lines.
pub const NUM_IRQS: usize = 16;

/// The state of a line: interrupts that were not served yet, the task that is
/// blocked on the line and the one that owns it (0 for none), and how many
/// interrupts there were at all.
#[derive(Debug, Clone, Copy, PartialEq, Eq, Structural)]
pub struct IrqLine {
    pub pending: u64,
    pub waiter: u64,
    pub owner: u64,
    pub count: u64,
}

/// All interrupt lines.
pub struct IrqLines {
    lines: Vec<IrqLine>,
}

/// One more, wrapping around.
pub open spec fn wrap_inc(n: u64) -> u64 {
    if n == u64::MAX {
        0
    } else {
        (n + 1) as u64
    }
}

/// A line after an interrupt.
pub open spec fn notified(l: IrqLine) -> IrqLine {
    IrqLine { pending: wrap_inc(l.pending), count: wrap_inc(l.count), ..l }
}

/// Waiting on a line: the interrupts that have accumulated, if any; otherwise
/// the task becomes the waiter.
pub open spec fn wait_s(l: IrqLine, me: u64) -> (Option<u64>, IrqLine) {
    if l.pending > 0 {
        (Some(l.pending), IrqLine { pending: 0, ..l })
    } else {
        (None, IrqLine { waiter: me, ..l })
    }
}

impl IrqLines {
    pub closed spec fn view(&self) -> Seq<IrqLine> {
        self.lines@
    }

    pub closed spec fn wf(&self) -> bool {
        self.lines@.len() == NUM_IRQS
    }

    /// Lines that nobody owns, with nothing pending.
    pub fn new() -> (r: IrqLines)
        ensures
            r.wf(),
            r@.len() == NUM_IRQS,
            forall|i: int|
                0 <= i < NUM_IRQS ==> #[trigger] r@[i] == (IrqLine {
                    pending: 0,
                    waiter: 0,
                    owner: 0,
                    count: 0,
                }),
    {
        let mut lines: Vec<IrqLine> = Vec::new();
        while lines.len() < NUM_IRQS
            invariant
                lines@.len() <= NUM_IRQS,
                forall|i: int|
                    0 <= i < lines@.len() ==> #[trigger] lines@[i] == (IrqLine {
                        pending: 0,
                        waiter: 0,
                        owner: 0,
                        count: 0,
                    }),
            decreases NUM_IRQS - lines@.len(),
        {
            lines.push(IrqLine { pending: 0, waiter: 0, owner: 0, count: 0 });
        }
        IrqLines { lines }
    }

    /// Claims a line for a task. Fails if there is no such line or another task
    /// owns it.
    pub fn register(&mut self, irq: u8, task_id: u64) -> (r: bool)
        requires
            old(self).wf(),
        ensures
            final(self).wf(),
            r == (irq < NUM_IRQS && (old(self)@[irq as int].owner == 0 || old(self)@[irq as int].owner
                == task_id)),
            final(self)@ == (if r {
                old(self)@.update(
                    irq as int,
                    IrqLine { owner: task_id, ..old(self)@[irq as int] },
                )
            } else {
                old(self)@
            }),
    {
        if irq as usize >= NUM_IRQS {
            return false;
        }
        let line = self.lines[irq as usize];
        if line.owner != 0 && line.owner != task_id {
            return false;
        }
        self.lines.set(irq as usize, IrqLine { owner: task_id, ..line });
        true
    }

    /// Takes all interrupts that are pending on a line. If there are none, the
    /// task becomes the waiter and is to block; once woken it calls `resumed`
    /// and waits again.
    pub fn wait(&mut self, irq: u8, me: u64) -> (r: Option<u64>)
        requires
            old(self).wf(),
            irq < NUM_IRQS,
        ensures
            final(self).wf(),
            ({
                let (want, l) = wait_s(old(self)@[irq as int], me);
                r == want && final(self)@ == old(self)@.update(irq as int, l)
            }),
    {
        let line = self.lines[irq as usize];
        if line.pending > 0 {
            self.lines.set(irq as usize, IrqLine { pending: 0, ..line });
            Some(line.pending)
        } else {
            self.lines.set(irq as usize, IrqLine { waiter: me, ..line });
            None
        }
    }

    /// The waiter of a line runs again.
    pub fn resumed(&mut self, irq: u8)
        requires
            old(self).wf(),
            irq < NUM_IRQS,
        ensures
            final(self).wf(),
            final(self)@ == old(self)@.update(
                irq as int,
                IrqLine { waiter: 0, ..old(self)@[irq as int] },
            ),
    {
        let line = self.lines[irq as usize];
        self.lines.set(irq as usize, IrqLine { waiter: 0, ..line });
    }

    /// Records an interrupt. Returns the task that is to be woken.
    pub fn notify_from_isr(&mut self, irq: u8) -> (r: Option<u64>)
        requires
            old(self).wf(),
        ensures
            final(self).wf(),
            irq >= NUM_IRQS ==> r is None && final(self)@ == old(self)@,
            irq < NUM_IRQS ==> final(self)@ == old(self)@.update(
                irq as int,
                notified(old(self)@[irq as int]),
            ) && r == (if old(self)@[irq as int].waiter != 0 {
                Some(old(self)@[irq as int].waiter)
            } else {
                None
            }),
    {
        if irq as usize >= NUM_IRQS {
            return None;
        }
        let line = self.lines[irq as usize];
        self.lines.set(
            irq as usize,
            IrqLine {
                pending: line.pending.wrapping_add(1),
                count: line.count.wrapping_add(1),
                ..line
            },
        );
        if line.waiter != 0 {
            Some(line.waiter)
        } else {
            None
        }
    }

    /// The lines as they are now, for a report.
    pub fn snapshot(&self) -> (r: IrqLines)
        requires
            self.wf(),
        ensures
            r.wf(),
            r@ == self@,
    {
        let mut lines: Vec<IrqLine> = Vec::new();
        let mut i: usize = 0;
        while i < self.lines.len()
            invariant
                i <= self.lines@.len(),
                lines@ == self.lines@.take(i as int),
            decreases self.lines@.len() - i,
        {
            lines.push(self.lines[i]);
            i = i + 1;
            assert(lines@ =~= self.lines@.take(i as int));
        }
        assert(lines@ =~= self.lines@);
        IrqLines { lines }
    }

    /// The owner of a line and how many interrupts there were on it.
    pub fn stats(&self, irq: u8) -> (r: Option<(u64, u64)>)
        requires
            self.wf(),
        ensures
            r == (if irq < NUM_IRQS {
                Some((self@[irq as int].owner, self@[irq as int].count))
            } else {
                None
            }),
    {
        if irq as usize >= NUM_IRQS {
            return None;
        }
        let line = self.lines[irq as usize];
        Some((line.owner, line.count))
    }
}

/// No wake-up is lost: a task that found nothing pending is woken by the next
/// interrupt, and then finds it.
pub proof fn law_no_lost_wakeup(l: IrqLine, me: u64)
    requires
        me != 0,
        wait_s(l, me).0 is None,
    ensures
        ({
            let l1 = wait_s(l, me).1;
            let l2 = notified(l1);
            let l3 = IrqLine { waiter: 0, ..l2 };
            l1.waiter == me && wait_s(l3, me).0 == Some(1u64)
        }),
{
}

/// Interrupts that come between two waits are counted together.
pub proof fn law_interrupts_coalesce(l: IrqLine, me: u64)
    requires
        l.pending < u64::MAX,
    ensures
        wait_s(notified(l), me).0 == Some((l.pending + 1) as u64),
        wait_s(notified(l), me).1.pending == 0,
{
}

} // verus!
