//! Signals: their numbers, pending sets, masks and actions.
use vstd::prelude::*;

verus! {

/// Signals are numbered from 1 to this number.
pub const SIGNAL_MAX: usize = 64;

/// How many real-time signals there are.
pub const REAL_TIME_SIGNAL_NUM: usize = 33;

/// A signal, by its number.
#[derive(Clone, Copy, Debug, PartialEq, Eq, Structural)]
pub struct SignalFlags {
    pub number: usize,
}

pub const SIGHUP: usize = 1;

pub const SIGINT: usize = 2;

pub const SIGQUIT: usize = 3;

pub const SIGILL: usize = 4;

pub const SIGTRAP: usize = 5;

pub const SIGABRT: usize = 6;

pub const SIGBUS: usize = 7;

pub const SIGFPE: usize = 8;

pub const SIGKILL: usize = 9;

pub const SIGUSR1: usize = 10;

pub const SIGSEGV: usize = 11;

pub const SIGUSR2: usize = 12;

pub const SIGPIPE: usize = 13;

pub const SIGALRM: usize = 14;

pub const SIGTERM: usize = 15;

pub const SIGSTKFLT: usize = 16;

pub const SIGCHLD: usize = 17;

pub const SIGCONT: usize = 18;

pub const SIGSTOP: usize = 19;

pub const SIGTSTP: usize = 20;

pub const SIGTTIN: usize = 21;

pub const SIGTTOU: usize = 22;

pub const SIGURG: usize = 23;

pub const SIGXCPU: usize = 24;

pub const SIGXFSZ: usize = 25;

pub const SIGVTALRM: usize = 26;

pub const SIGPROF: usize = 27;

pub const SIGWINCH: usize = 28;

pub const SIGIO: usize = 29;

pub const SIGPWR: usize = 30;

pub const SIGSYS: usize = 31;

pub const SIGTIMER: usize = 32;

pub const SIGCANCEL: usize = 33;

pub const SIGSYNCCALL: usize = 34;

impl SignalFlags {
    /// The number is that of a signal.
    pub open spec fn valid(self) -> bool {
        1 <= self.number <= SIGNAL_MAX
    }

    /// The signal with the number.
    pub fn from_num(number: usize) -> (r: SignalFlags)
        ensures
            r.number == number,
    {
        SignalFlags { number }
    }

    /// The number of the signal.
    pub fn num(self) -> (r: usize)
        ensures
            r == self.number,
    {
        self.number
    }
}

/// The signals that wait to be handled.
pub struct SignalList {
    /// Whether the signal with the number is waiting.
    pub pending: Vec<bool>,
}

impl View for SignalList {
    type V = Seq<bool>;

    open spec fn view(&self) -> Seq<bool> {
        self.pending@
    }
}

impl SignalList {
    /// There is a place for every signal.
    pub open spec fn wf(&self) -> bool {
        self.pending@.len() == SIGNAL_MAX + 1
    }

    /// The signal is waiting.
    pub open spec fn has(&self, signal: int) -> bool {
        self@[signal]
    }

    /// Nothing waits.
    pub fn new() -> (r: SignalList)
        ensures
            r.wf(),
            r@ == Seq::new((SIGNAL_MAX + 1) as nat, |i: int| false),
    {
        let mut pending: Vec<bool> = Vec::new();
        let mut i: usize = 0;
        while i < SIGNAL_MAX + 1
            invariant
                i <= SIGNAL_MAX + 1,
                pending@ == Seq::new(i as nat, |j: int| false),
            decreases SIGNAL_MAX + 1 - i,
        {
            pending.push(false);
            i = i + 1;
            assert(pending@ =~= Seq::new(i as nat, |j: int| false));
        }
        SignalList { pending }
    }

    /// Lets a signal wait. One that waits already is not counted twice.
    pub fn add_signal(&mut self, signal: SignalFlags)
        requires
            old(self).wf(),
            signal.valid(),
        ensures
            final(self).wf(),
            final(self)@ == old(self)@.update(signal.number as int, true),
    {
        self.pending[signal.number] = true;
        assert(self@ =~= old(self)@.update(signal.number as int, true));
    }

    /// Whether the signal is waiting.
    pub fn has_sig(&self, signal: SignalFlags) -> (r: bool)
        requires
            self.wf(),
            signal.valid(),
        ensures
            r == self.has(signal.number as int),
    {
        self.pending[signal.number]
    }
}

/// The signals that a thread does not take, one bit for each.
#[derive(Clone, Copy, Debug, PartialEq, Eq, Structural)]
pub struct SigProcMask {
    pub mask: usize,
}

/// What a process wants done on a signal: 0 stands for the default, 1 for nothing, any other
/// value is the address of a handler.
#[derive(Clone, Copy, Debug, PartialEq, Eq, Structural)]
pub struct SigAction {
    pub handler: usize,
    pub flags: usize,
    pub restorer: usize,
    pub mask: SigProcMask,
}

impl SigAction {
    /// The default action.
    pub open spec fn default_action() -> SigAction {
        SigAction { handler: 0, flags: 0, restorer: 0, mask: SigProcMask { mask: 0 } }
    }

    /// The default action.
    pub fn new() -> (r: SigAction)
        ensures
            r == SigAction::default_action(),
    {
        SigAction { handler: 0, flags: 0, restorer: 0, mask: SigProcMask { mask: 0 } }
    }
}

/// Signals have the numbers of Linux, from 1 to 64.
pub proof fn law_numbers_of_signals()
    ensures
        SIGHUP == 1 && SIGINT == 2 && SIGQUIT == 3 && SIGILL == 4 && SIGTRAP == 5 && SIGABRT == 6
            && SIGBUS == 7 && SIGFPE == 8 && SIGKILL == 9 && SIGUSR1 == 10 && SIGSEGV == 11
            && SIGUSR2 == 12 && SIGPIPE == 13 && SIGALRM == 14 && SIGTERM == 15 && SIGSTKFLT == 16
            && SIGCHLD == 17 && SIGCONT == 18 && SIGSTOP == 19 && SIGTSTP == 20 && SIGTTIN == 21
            && SIGTTOU == 22 && SIGURG == 23 && SIGXCPU == 24 && SIGXFSZ == 25 && SIGVTALRM == 26
            && SIGPROF == 27 && SIGWINCH == 28 && SIGIO == 29 && SIGPWR == 30 && SIGSYS == 31
            && SIGTIMER == 32 && SIGCANCEL == 33 && SIGSYNCCALL == 34,
        SIGNAL_MAX == 64,
        REAL_TIME_SIGNAL_NUM == 33,
        forall|s: SignalFlags| #[trigger] s.valid() <==> 1 <= s.number <= 64,
{
}

/// A list knows of each signal whether it waits.
pub proof fn law_waiting_signals(list: SignalList, n: int)
    ensures
        list.wf() <==> list.pending@.len() == 65,
        list.has(n) == list.pending@[n],
{
}

/// By default there is no handler, nothing is masked and nothing else is asked for.
pub proof fn law_default_action()
    ensures
        SigAction::default_action().handler == 0,
        SigAction::default_action().flags == 0,
        SigAction::default_action().restorer == 0,
        SigAction::default_action().mask.mask == 0,
{
}

} // verus!
