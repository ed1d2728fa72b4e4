//! Signals: their numbers, default actions, and the signal state of a task.

use vstd::prelude::*;

verus! {

/// Number of signal numbers.
pub const NSIG: usize = 32;

pub const SIGHUP: u32 = 1;

pub const SIGINT: u32 = 2;

pub const SIGQUIT: u32 = 3;

pub const SIGILL: u32 = 4;

pub const SIGTRAP: u32 = 5;

pub const SIGABRT: u32 = 6;

pub const SIGBUS: u32 = 7;

pub const SIGFPE: u32 = 8;

/// Cannot be caught or ignored.
pub const SIGKILL: u32 = 9;

pub const SIGUSR1: u32 = 10;

pub const SIGSEGV: u32 = 11;

pub const SIGUSR2: u32 = 12;

pub const SIGPIPE: u32 = 13;

pub const SIGALRM: u32 = 14;

pub const SIGTERM: u32 = 15;

pub const SIGSTKFLT: u32 = 16;

pub const SIGCHLD: u32 = 17;

pub const SIGCONT: u32 = 18;

/// Cannot be caught or ignored.
pub const SIGSTOP: u32 = 19;

pub const SIGTSTP: u32 = 20;

pub const SIGTTIN: u32 = 21;

pub const SIGTTOU: u32 = 22;

pub const SIGURG: u32 = 23;

pub const SIGXCPU: u32 = 24;

pub const SIGXFSZ: u32 = 25;

pub const SIGVTALRM: u32 = 26;

pub const SIGPROF: u32 = 27;

pub const SIGWINCH: u32 = 28;

pub const SIGIO: u32 = 29;

pub const SIGPWR: u32 = 30;

pub const SIGSYS: u32 = 31;

/// Handler value for the default action.
pub const SIG_DFL: u64 = 0;

/// Handler value for a signal that is ignored.
pub const SIG_IGN: u64 = 1;

/// Whether the default action of a signal ends the task. Others are ignored or
/// stop the task.
pub open spec fn default_terminates_s(sig: u32) -> bool {
    !(17 <= sig <= 23 || sig == 28 || sig == 29)
}

/// Whether the default action of a signal ends the task.
pub fn default_terminates(sig: u32) -> (r: bool)
    ensures
        r == default_terminates_s(sig),
{
    !(sig == SIGCHLD || sig == SIGCONT || sig == SIGURG || sig == SIGWINCH || sig == SIGIO || sig
        == SIGSTOP || sig == SIGTSTP || sig == SIGTTIN || sig == SIGTTOU)
}

/// What a task was doing when a handler was called.
#[derive(Debug, Clone, Copy, PartialEq, Eq, Structural)]
pub struct SavedSigContext {
    pub rip: u64,
    pub rflags: u64,
    pub rsp: u64,
    pub rax: u64,
}

/// The signal state of a task: the signals that wait to be delivered, what is to
/// be done with each, the code that a handler returns to, and what the task was
/// doing while a handler runs.
#[derive(Debug)]
pub struct SignalState {
    pub pending: u32,
    pub handlers: Vec<u64>,
    pub restorer: u64,
    pub saved: Option<SavedSigContext>,
}

#[verifier::ext_equal]
pub struct SignalView {
    pub pending: u32,
    pub handlers: Seq<u64>,
    pub restorer: u64,
    pub saved: Option<SavedSigContext>,
}

/// Whether a signal is in a set.
pub open spec fn is_pending(set: u32, sig: u32) -> bool {
    set & (1u32 << sig) != 0
}

/// Whether a disposition is a function of the task.
pub open spec fn is_handler(h: u64) -> bool {
    h != SIG_DFL && h != SIG_IGN
}

/// The first signal from `sig` on that waits and has a handler.
pub open spec fn deliverable_s(s: SignalView, sig: int) -> Option<(u32, u64)>
    decreases NSIG - sig,
{
    if sig >= NSIG {
        None
    } else if is_pending(s.pending, sig as u32) && is_handler(s.handlers[sig]) {
        Some((sig as u32, s.handlers[sig]))
    } else {
        deliverable_s(s, sig + 1)
    }
}

/// No signals, and the default for all.
pub open spec fn fresh() -> SignalView {
    SignalView {
        pending: 0,
        handlers: Seq::new(NSIG as nat, |i: int| SIG_DFL),
        restorer: 0,
        saved: None,
    }
}

/// The state of a task that starts another program: handlers are gone, and only
/// what was ignored stays so.
pub open spec fn after_exec(s: SignalView) -> SignalView {
    SignalView {
        pending: 0,
        handlers: s.handlers.map_values(
            |h: u64|
                if h == SIG_IGN {
                    SIG_IGN
                } else {
                    SIG_DFL
                },
        ),
        restorer: 0,
        saved: None,
    }
}

impl SignalState {
    pub open spec fn view(&self) -> SignalView {
        SignalView {
            pending: self.pending,
            handlers: self.handlers@,
            restorer: self.restorer,
            saved: self.saved,
        }
    }

    /// There is a disposition for each signal.
    pub open spec fn wf(&self) -> bool {
        self.handlers@.len() == NSIG
    }

    /// Nothing pending, and the default for all.
    pub fn new() -> (r: SignalState)
        ensures
            r.wf(),
            r@ == fresh(),
    {
        let mut handlers: Vec<u64> = Vec::new();
        while handlers.len() < NSIG
            invariant
                handlers@.len() <= NSIG,
                forall|i: int| 0 <= i < handlers@.len() ==> handlers@[i] == SIG_DFL,
            decreases NSIG - handlers@.len(),
        {
            handlers.push(SIG_DFL);
        }
        assert(handlers@ =~= fresh().handlers);
        SignalState { pending: 0, handlers, restorer: 0, saved: None }
    }

    /// Prepares the state for another program.
    pub fn reset_for_exec(&mut self)
        requires
            old(self).wf(),
        ensures
            final(self).wf(),
            final(self)@ == after_exec(old(self)@),
    {
        let mut i: usize = 0;
        while i < self.handlers.len()
            invariant
                i <= self.handlers@.len(),
                self.handlers@.len() == old(self).handlers@.len() == NSIG,
                forall|j: int|
                    0 <= j < i ==> self.handlers@[j] == (if old(self).handlers@[j] == SIG_IGN {
                        SIG_IGN
                    } else {
                        SIG_DFL
                    }),
                forall|j: int| i <= j < NSIG ==> self.handlers@[j] == old(self).handlers@[j],
            decreases self.handlers@.len() - i,
        {
            if self.handlers[i] != SIG_IGN {
                self.handlers.set(i, SIG_DFL);
            }
            i = i + 1;
        }
        self.pending = 0;
        self.restorer = 0;
        self.saved = None;
        assert(self.handlers@ =~= after_exec(old(self)@).handlers);
    }

    /// Marks a signal as waiting.
    pub fn set_pending(&mut self, sig: u32)
        ensures
            final(self)@ == (SignalView {
                pending: if sig < NSIG {
                    old(self).pending | (1u32 << sig)
                } else {
                    old(self).pending
                },
                ..old(self)@
            }),
    {
        if (sig as usize) < NSIG {
            self.pending = self.pending | (1u32 << sig);
        }
    }

    /// Marks a signal as not waiting.
    pub fn clear_pending(&mut self, sig: u32)
        ensures
            final(self)@ == (SignalView {
                pending: if sig < NSIG {
                    old(self).pending & !(1u32 << sig)
                } else {
                    old(self).pending
                },
                ..old(self)@
            }),
    {
        if (sig as usize) < NSIG {
            self.pending = self.pending & !(1u32 << sig);
        }
    }

    /// The lowest signal that waits and has a handler, with the handler.
    pub fn next_deliverable(&self) -> (r: Option<(u32, u64)>)
        requires
            self.wf(),
        ensures
            r == deliverable_s(self@, 1),
    {
        let mut sig: u32 = 1;
        while sig < NSIG as u32
            invariant
                self.wf(),
                1 <= sig <= NSIG,
                deliverable_s(self@, 1) == deliverable_s(self@, sig as int),
            decreases NSIG - sig,
        {
            if self.pending & (1u32 << sig) != 0 {
                let h: u64 = self.handlers[sig as usize];
                if h != SIG_DFL && h != SIG_IGN {
                    return Some((sig, h));
                }
            }
            sig = sig + 1;
        }
        None
    }
}

impl Default for SignalState {
    fn default() -> (r: SignalState)
        ensures
            r.wf(),
            r@ == fresh(),
    {
        SignalState::new()
    }
}

/// Marking a signal as waiting or not does that, and changes no other signal.
pub proof fn law_pending_is_a_set(set: u32, sig: u32, other: u32)
    requires
        sig < 32,
        other < 32,
    ensures
        is_pending(set | (1u32 << sig), sig),
        !is_pending(set & !(1u32 << sig), sig),
        other != sig ==> is_pending(set | (1u32 << sig), other) == is_pending(set, other),
        other != sig ==> is_pending(set & !(1u32 << sig), other) == is_pending(set, other),
{
    assert((set | (1u32 << sig)) & (1u32 << sig) != 0 && (set & !(1u32 << sig)) & (1u32 << sig)
        == 0 && (other != sig ==> (set | (1u32 << sig)) & (1u32 << other) == set & (1u32
        << other)) && (other != sig ==> (set & !(1u32 << sig)) & (1u32 << other) == set & (1u32
        << other))) by (bit_vector)
        requires
            sig < 32,
            other < 32,
    ;
}

/// The signal that is delivered waits and has a handler, and none below it does.
pub proof fn law_lowest_signal_first(s: SignalView, from: int, lower: int)
    requires
        1 <= from <= lower < NSIG,
        deliverable_s(s, from) matches Some((sig, h)) ==> lower < sig,
    ensures
        deliverable_s(s, from) matches Some((sig, h)) ==> is_pending(s.pending, sig) && h
            == s.handlers[sig as int] && is_handler(h),
        !(is_pending(s.pending, lower as u32) && is_handler(s.handlers[lower])),
    decreases NSIG - from,
{
    if is_pending(s.pending, from as u32) && is_handler(s.handlers[from]) {
    } else if from < lower {
        law_lowest_signal_first(s, from + 1, lower);
    } else {
        lemma_deliverable(s, from);
    }
}

proof fn lemma_deliverable(s: SignalView, from: int)
    requires
        1 <= from <= NSIG,
    ensures
        deliverable_s(s, from) matches Some((sig, h)) ==> from <= sig < NSIG && is_pending(
            s.pending,
            sig,
        ) && h == s.handlers[sig as int] && is_handler(h),
    decreases NSIG - from,
{
    if from < NSIG && !(is_pending(s.pending, from as u32) && is_handler(s.handlers[from])) {
        lemma_deliverable(s, from + 1);
    }
}

/// No handler survives the start of another program.
pub proof fn law_exec_forgets_handlers(s: SignalView)
    requires
        s.handlers.len() == NSIG,
    ensures
        deliverable_s(after_exec(s), 1) is None,
{
    lemma_deliverable(after_exec(s), 1);
}

/// By default a task outlives news of its children, urgent data, its window and its input
/// and output, and being stopped and continued; every other signal ends it.
pub proof fn law_what_tasks_outlive(sig: u32)
    ensures
        default_terminates_s(sig) <==> !seq![
            17u32,
            18,
            19,
            20,
            21,
            22,
            23,
            28,
            29,
        ].contains(sig),
{
    let s = seq![17u32, 18, 19, 20, 21, 22, 23, 28, 29];
    assert(s[0] == 17 && s[1] == 18 && s[2] == 19 && s[3] == 20 && s[4] == 21 && s[5] == 22 && s[6]
        == 23 && s[7] == 28 && s[8] == 29);
}

} // verus!
