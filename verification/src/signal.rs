//! Signals: the pending and blocked sets, per-signal actions, and the
//! decisions of delivering a pending signal, masking, and returning from a
//! handler.
use vstd::prelude::*;
use crate::error::{SysError, SysResult};

verus! {

pub const SIGHUP: u64 = 0x1;
pub const SIGINT: u64 = 0x2;
pub const SIGQUIT: u64 = 0x4;
pub const SIGILL: u64 = 0x8;
pub const SIGTRAP: u64 = 0x10;
pub const SIGABRT: u64 = 0x20;
pub const SIGBUS: u64 = 0x40;
pub const SIGFPE: u64 = 0x80;
pub const SIGKILL: u64 = 0x100;
pub const SIGUSR1: u64 = 0x200;
pub const SIGSEGV: u64 = 0x400;
pub const SIGUSR2: u64 = 0x800;
pub const SIGPIPE: u64 = 0x1000;
pub const SIGALRM: u64 = 0x2000;
pub const SIGTERM: u64 = 0x4000;
pub const SIGSTKFLT: u64 = 0x8000;
pub const SIGCHLD: u64 = 0x10000;
pub const SIGCONT: u64 = 0x20000;
pub const SIGSTOP: u64 = 0x40000;
pub const SIGTSTP: u64 = 0x80000;
pub const SIGTTIN: u64 = 0x100000;
pub const SIGTTOU: u64 = 0x200000;
pub const SIGURG: u64 = 0x400000;
pub const SIGXCPU: u64 = 0x800000;
pub const SIGXFSZ: u64 = 0x1000000;
pub const SIGVTALRM: u64 = 0x2000000;
pub const SIGPROF: u64 = 0x4000000;
pub const SIGWINCH: u64 = 0x8000000;
pub const SIGIO: u64 = 0x10000000;
pub const SIGPWR: u64 = 0x20000000;
pub const SIGSYS: u64 = 0x40000000;
pub const SIGRTMIN: u64 = 0x80000000;
pub const SIGRT1: u64 = 0x100000000;

/// Every signal bit that is defined.
pub const SIG_ALL: u64 = 0x1_ffff_ffff;

/// The largest signal number that has an action slot.
pub const MAX_SIG: usize = 31;

/// A set of signals, signal `n` at bit `n - 1`.
#[derive(Clone, Copy, Debug, PartialEq, Eq, Structural)]
pub struct SignalFlags {
    pub bits: u64,
}

impl SignalFlags {
    pub open spec fn has(self, mask: u64) -> bool {
        self.bits & mask == mask
    }

    pub fn empty() -> (r: Self)
        ensures
            r.bits == 0,
    {
        SignalFlags { bits: 0 }
    }

    /// The set with exactly `bits`, if they are all defined signals.
    pub fn from_bits(bits: u64) -> (r: Option<Self>)
        ensures
            r is Some <==> bits & !SIG_ALL == 0,
            r matches Some(f) ==> f.bits == bits,
    {
        if bits & !SIG_ALL == 0 {
            Some(SignalFlags { bits })
        } else {
            None
        }
    }

    pub fn bits(&self) -> (r: u64)
        ensures
            r == self.bits,
    {
        self.bits
    }

    pub fn is_empty(&self) -> (r: bool)
        ensures
            r == (self.bits == 0),
    {
        self.bits == 0
    }

    /// Whether all signals of `other` are in `self`.
    pub fn contains(&self, other: Self) -> (r: bool)
        ensures
            r == self.has(other.bits),
    {
        self.bits & other.bits == other.bits
    }

    /// Adds the signals of `other`.
    pub fn insert(&mut self, other: Self)
        ensures
            final(self).bits == old(self).bits | other.bits,
    {
        self.bits = self.bits | other.bits;
    }

    /// Removes the signals of `other`.
    pub fn remove(&mut self, other: Self)
        ensures
            final(self).bits == old(self).bits & !other.bits,
    {
        self.bits = self.bits & !other.bits;
    }

    /// The first fatal error signal that is set, as an exit code and a message:
    /// SIGINT, SIGILL, SIGABRT, SIGFPE and SIGSEGV, in that order.
    pub fn check_error(&self) -> (r: Option<(i32, &'static str)>)
        ensures
            match r {
                Some(p) => error_of(*self) == Some((p.0, p.1@)),
                None => error_of(*self) is None,
            },
    {
        if self.contains(SignalFlags { bits: SIGINT }) {
            Some((-2, "Killed, SIGINT=2"))
        } else if self.contains(SignalFlags { bits: SIGILL }) {
            Some((-4, "Illegal Instruction, SIGILL=4"))
        } else if self.contains(SignalFlags { bits: SIGABRT }) {
            Some((-6, "Aborted, SIGABRT=6"))
        } else if self.contains(SignalFlags { bits: SIGFPE }) {
            Some((-8, "Erroneous Arithmetic Operation, SIGFPE=8"))
        } else if self.contains(SignalFlags { bits: SIGSEGV }) {
            Some((-11, "Segmentation Fault, SIGSEGV=11"))
        } else {
            None
        }
    }
}

/// The exit code and message of the first fatal error signal in `f`.
pub open spec fn error_of(f: SignalFlags) -> Option<(i32, Seq<char>)> {
    if f.has(SIGINT) {
        Some((-2i32, "Killed, SIGINT=2"@))
    } else if f.has(SIGILL) {
        Some((-4i32, "Illegal Instruction, SIGILL=4"@))
    } else if f.has(SIGABRT) {
        Some((-6i32, "Aborted, SIGABRT=6"@))
    } else if f.has(SIGFPE) {
        Some((-8i32, "Erroneous Arithmetic Operation, SIGFPE=8"@))
    } else if f.has(SIGSEGV) {
        Some((-11i32, "Segmentation Fault, SIGSEGV=11"@))
    } else {
        None
    }
}

/// Flags of a signal action (`sa_flags`).
#[derive(Clone, Copy, Debug, PartialEq, Eq, Structural)]
pub struct SigActionFlags {
    pub bits: usize,
}

impl SigActionFlags {
    pub fn empty() -> (r: Self)
        ensures
            r.bits == 0,
    {
        SigActionFlags { bits: 0 }
    }
}

/// Handler value that ignores the signal.
pub const SIG_IGN: usize = 1;

/// What to do on a signal: the handler address (0 for none, 1 to ignore),
/// flags, restorer, and the signals blocked while the handler runs.
#[derive(Clone, Copy, Debug)]
pub struct SigAction {
    pub handler: usize,
    pub flags: SigActionFlags,
    pub restore: usize,
    pub mask: SignalFlags,
}

/// Signals whose default is to be ignored: continue, child status, urgent
/// data, window size; and the stop signals, which this kernel also ignores.
pub open spec fn ignored_by_default(signo: usize) -> bool {
    signo == 18 || signo == 17 || signo == 23 || signo == 28 || signo == 19 || signo == 20
        || signo == 21 || signo == 22
}

impl SigAction {
    /// The default action of signal `signo`: ignore for signal 0 and the
    /// ignored-by-default signals, otherwise `terminate` (the address of the
    /// routine that ends the current task).
    pub fn new(signo: usize, terminate: usize) -> (r: Self)
        requires
            signo <= MAX_SIG,
        ensures
            r.handler == (if signo == 0 || ignored_by_default(signo) { SIG_IGN } else { terminate }),
            r.flags.bits == 0,
            r.restore == 0,
            r.mask.bits == 0,
    {
        let handler: usize;
        if signo == 0 {
            handler = 1;
        } else {
            handler = match signo {
                18 | 17 | 23 | 28 => 1,
                19 | 20 | 21 | 22 => 1,
                _ => terminate,
            };
        }
        SigAction { handler, flags: SigActionFlags::empty(), restore: 0, mask: SignalFlags::empty() }
    }

    /// The action that ignores the signal.
    pub fn ignore() -> (r: Self)
        ensures
            r.handler == SIG_IGN,
            r.flags.bits == 0,
            r.restore == 0,
            r.mask.bits == 0,
    {
        SigAction { handler: 1, flags: SigActionFlags::empty(), restore: 0, mask: SignalFlags::empty() }
    }
}

/// The action of each signal `0 ..= MAX_SIG`.
#[derive(Clone, Copy)]
pub struct SignalActions {
    pub table: [SigAction; 32],
}

impl SignalActions {
    /// No handler and nothing blocked, for every signal.
    pub fn new() -> (r: Self)
        ensures
            forall|i: int|
                0 <= i <= MAX_SIG ==> #[trigger] r.table@[i].handler == 0 && r.table@[i].flags.bits == 0
                    && r.table@[i].restore == 0 && r.table@[i].mask.bits == 0,
    {
        let default_action = SigAction {
            handler: 0,
            flags: SigActionFlags::empty(),
            restore: 0,
            mask: SignalFlags::empty(),
        };
        SignalActions { table: [default_action; 32] }
    }
}

pub const SS_ONSTACK: u32 = 1;

pub const SS_DISABLE: u32 = 2;

/// An alternate signal stack.
#[derive(Copy, Clone, Debug)]
pub struct SignalStack {
    pub sp: usize,
    pub flags: u32,
    pub size: usize,
}

impl SignalStack {
    /// A disabled stack at `sp` of `size` bytes.
    pub fn new(sp: usize, size: usize) -> (r: Self)
        ensures
            r.sp == sp,
            r.size == size,
            r.flags == SS_DISABLE,
    {
        SignalStack { sp, flags: SS_DISABLE, size }
    }
}

/// What checking the pending signals decided.
#[derive(Clone, Copy, Debug, PartialEq, Eq, Structural)]
pub enum PendingAction {
    /// No signal is queued.
    Nothing,
    /// A handler is running, or the first queued signal is blocked: it stays.
    Deferred,
    /// The first queued signal is unknown or no longer pending: it is dropped.
    Dropped,
    /// The first queued signal leaves the queue for the kernel's own handling
    /// (SIGKILL, SIGSTOP, SIGCONT).
    Kernel(usize, SignalFlags),
    /// The first queued signal leaves the queue for a user handler.
    User(usize, SignalFlags),
}

/// What signal delivery does to the trap context of the task.
#[derive(Clone, Copy, Debug, PartialEq, Eq, Structural)]
pub enum TrapChange {
    /// It stays as it is.
    Keep,
    /// It is saved (for `sigreturn`), then set to resume at `pc` with
    /// `arg0` as the first argument.
    EnterHandler { pc: usize, arg0: usize },
}

pub const SIG_BLOCK: i32 = 0;

pub const SIG_UNBLOCK: i32 = 1;

pub const SIG_SETMASK: i32 = 2;

/// The signal state of a task.
pub struct SignalState {
    /// Pending signals.
    pub signals: SignalFlags,
    /// Queued signal numbers, oldest first.
    pub signal_queue: Vec<usize>,
    pub killed: bool,
    pub frozen: bool,
    /// Blocked signals.
    pub signal_mask: SignalFlags,
    /// The mask to restore when the running handler returns.
    pub signal_mask_backup: SignalFlags,
    pub signal_actions: SignalActions,
    /// The signal whose handler is running, or -1.
    pub handling_sig: isize,
}

/// The flag of signal number `sig` (1 to 64): bit `sig - 1`.
pub open spec fn sig_bit(sig: usize) -> u64 {
    (1u64 << (sig - 1) as u64) as u64
}

/// The decision `check_pending_signals` takes in state `s`.
pub open spec fn pending_decision(s: SignalState) -> PendingAction {
    if s.handling_sig != -1 {
        PendingAction::Deferred
    } else if s.signal_queue@.len() == 0 {
        PendingAction::Nothing
    } else {
        let sig = s.signal_queue@[0];
        let bit = sig_bit(sig);
        if sig < 1 || sig > 64 || bit & !SIG_ALL != 0 {
            PendingAction::Dropped
        } else if !s.signals.has(bit) {
            PendingAction::Dropped
        } else if s.signal_mask.has(bit) {
            PendingAction::Deferred
        } else if bit == SIGKILL || bit == SIGSTOP || bit == SIGCONT {
            PendingAction::Kernel(sig, SignalFlags { bits: bit })
        } else {
            PendingAction::User(sig, SignalFlags { bits: bit })
        }
    }
}

impl SignalState {
    /// A task with nothing pending, blocked or running, and default actions.
    pub fn new() -> (r: Self)
        ensures
            r.signals.bits == 0,
            r.signal_queue@ == Seq::<usize>::empty(),
            !r.killed,
            !r.frozen,
            r.signal_mask.bits == 0,
            r.signal_mask_backup.bits == 0,
            r.handling_sig == -1,
    {
        SignalState {
            signals: SignalFlags::empty(),
            signal_queue: Vec::new(),
            killed: false,
            frozen: false,
            signal_mask: SignalFlags::empty(),
            signal_mask_backup: SignalFlags::empty(),
            signal_actions: SignalActions::new(),
            handling_sig: -1,
        }
    }

    /// Looks at the oldest queued signal (number `n`, from 1, stands for the
    /// flag at bit `n - 1`) and decides what happens to it; it leaves the
    /// queue when dropped or handed to a handler, and stays when deferred.
    pub fn take_pending_signal(&mut self) -> (r: PendingAction)
        ensures
            r == pending_decision(*old(self)),
            final(self).signals == old(self).signals,
            final(self).signal_mask == old(self).signal_mask,
            final(self).signal_mask_backup == old(self).signal_mask_backup,
            final(self).handling_sig == old(self).handling_sig,
            final(self).killed == old(self).killed,
            final(self).frozen == old(self).frozen,
            final(self).signal_actions == old(self).signal_actions,
            final(self).signal_queue@ == (match r {
                PendingAction::Nothing | PendingAction::Deferred => old(self).signal_queue@,
                _ => old(self).signal_queue@.remove(0),
            }),
    {
        let r = self.peek_pending_signal();
        match r {
            PendingAction::Nothing | PendingAction::Deferred => {},
            _ => {
                self.signal_queue.remove(0);
            },
        }
        r
    }

    /// What checking the pending signals would decide now (see
    /// `pending_decision`), without changing anything.
    pub fn peek_pending_signal(&self) -> (r: PendingAction)
        ensures
            r == pending_decision(*self),
            (r is Nothing || r is Deferred) || self.signal_queue@.len() > 0,
            r matches PendingAction::Kernel(_, f) ==> (f.bits == SIGKILL || f.bits == SIGSTOP || f.bits == SIGCONT),
            r matches PendingAction::User(_, f) ==> (f.bits != SIGKILL && f.bits != SIGSTOP && f.bits != SIGCONT),
    {
        proof {
            lemma_kernel_handles_only_kill_stop_cont(*self);
        }
        if self.handling_sig != -1 {
            return PendingAction::Deferred;
        }
        if self.signal_queue.len() == 0 {
            return PendingAction::Nothing;
        }
        let sig = self.signal_queue[0];
        if sig < 1 || sig > 64 {
            return PendingAction::Dropped;
        }
        let signal = match SignalFlags::from_bits(1u64 << (sig - 1) as u64) {
            Some(signal) => signal,
            None => {
                return PendingAction::Dropped;
            },
        };
        if !self.signals.contains(signal) {
            return PendingAction::Dropped;
        }
        if self.signal_mask.contains(signal) {
            return PendingAction::Deferred;
        }
        if signal.bits == SIGKILL || signal.bits == SIGSTOP || signal.bits == SIGCONT {
            PendingAction::Kernel(sig, signal)
        } else {
            PendingAction::User(sig, signal)
        }
    }

    /// Checks the pending signals and delivers the oldest one that can be
    /// delivered: the kernel's own handling (SIGKILL kills the task, SIGSTOP
    /// freezes it and SIGCONT thaws it, each clearing itself from the pending
    /// set), or entering its user handler, if it has one (the mask is saved
    /// and the handler's mask blocked, and the signal is marked as being
    /// handled). What it returns says what happens to the task's trap
    /// context: for a user handler, it is saved and then set to resume at
    /// the handler with the signal number as first argument.
    pub fn check_pending_signals(&mut self) -> (r: TrapChange)
        requires
            pending_decision(*old(self)) matches PendingAction::User(sig, _) ==> sig <= MAX_SIG,
        ensures
            final(self).signal_queue@ == (match pending_decision(*old(self)) {
                PendingAction::Nothing | PendingAction::Deferred => old(self).signal_queue@,
                _ => old(self).signal_queue@.remove(0),
            }),
            final(self).signal_actions == old(self).signal_actions,
            match pending_decision(*old(self)) {
                PendingAction::Kernel(_, f) => {
                    &&& r == TrapChange::Keep
                    &&& f.bits == SIGSTOP ==> final(self).frozen && final(self).signals.bits == old(
                        self,
                    ).signals.bits & !SIGSTOP && final(self).killed == old(self).killed
                    &&& f.bits == SIGCONT ==> !final(self).frozen && final(self).signals.bits == old(
                        self,
                    ).signals.bits & !SIGCONT && final(self).killed == old(self).killed
                    &&& f.bits != SIGSTOP && f.bits != SIGCONT ==> final(self).killed && final(self).frozen
                        == old(self).frozen && final(self).signals == old(self).signals
                    &&& final(self).signal_mask == old(self).signal_mask
                    &&& final(self).signal_mask_backup == old(self).signal_mask_backup
                    &&& final(self).handling_sig == old(self).handling_sig
                },
                PendingAction::User(sig, _) => {
                    let h = old(self).signal_actions.table@[sig as int].handler;
                    &&& final(self).signals == old(self).signals
                    &&& final(self).killed == old(self).killed
                    &&& final(self).frozen == old(self).frozen
                    &&& h == 0 ==> r == TrapChange::Keep && final(self).signal_mask == old(self).signal_mask
                        && final(self).signal_mask_backup == old(self).signal_mask_backup
                        && final(self).handling_sig == old(self).handling_sig
                    &&& h != 0 ==> r == (TrapChange::EnterHandler { pc: h, arg0: sig })
                        && final(self).signal_mask_backup == old(self).signal_mask && final(self).signal_mask
                        == old(self).signal_actions.table@[sig as int].mask && final(self).handling_sig
                        == sig as isize
                },
                _ => {
                    &&& r == TrapChange::Keep
                    &&& final(self).signals == old(self).signals
                    &&& final(self).killed == old(self).killed
                    &&& final(self).frozen == old(self).frozen
                    &&& final(self).signal_mask == old(self).signal_mask
                    &&& final(self).signal_mask_backup == old(self).signal_mask_backup
                    &&& final(self).handling_sig == old(self).handling_sig
                },
            },
    {
        match self.take_pending_signal() {
            PendingAction::Kernel(sig, signal) => {
                self.call_kernel_signal_handler(sig, signal);
                TrapChange::Keep
            },
            PendingAction::User(sig, _) => {
                match self.call_user_signal_handler(sig) {
                    Some(handler) => TrapChange::EnterHandler { pc: handler, arg0: sig },
                    None => TrapChange::Keep,
                }
            },
            _ => TrapChange::Keep,
        }
    }

    /// The kernel's own handling of a signal: SIGSTOP freezes the task,
    /// SIGCONT thaws it (each clearing itself from the pending set); SIGKILL
    /// and any other signal kill it.
    pub fn call_kernel_signal_handler(&mut self, sig: usize, signal: SignalFlags)
        ensures
            signal.bits == SIGSTOP ==> final(self).frozen && final(self).signals.bits == old(
                self,
            ).signals.bits & !SIGSTOP && final(self).killed == old(self).killed,
            signal.bits == SIGCONT ==> !final(self).frozen && final(self).signals.bits == old(
                self,
            ).signals.bits & !SIGCONT && final(self).killed == old(self).killed,
            signal.bits != SIGSTOP && signal.bits != SIGCONT ==> final(self).killed
                && final(self).frozen == old(self).frozen && final(self).signals == old(self).signals,
            final(self).signal_queue@ == old(self).signal_queue@,
            final(self).signal_mask == old(self).signal_mask,
            final(self).signal_mask_backup == old(self).signal_mask_backup,
            final(self).handling_sig == old(self).handling_sig,
            final(self).signal_actions == old(self).signal_actions,
    {
        if signal.bits == SIGSTOP {
            self.frozen = true;
            self.signals.remove(SignalFlags { bits: SIGSTOP });
        } else if signal.bits == SIGCONT {
            self.frozen = false;
            self.signals.remove(SignalFlags { bits: SIGCONT });
        } else {
            self.killed = true;
        }
    }

    /// Enters the user handler of `sig`, if it has one: saves the mask, blocks
    /// the handler's mask, marks `sig` as being handled, and returns the
    /// handler's address (where the task resumes, with `sig` as argument).
    pub fn call_user_signal_handler(&mut self, sig: usize) -> (r: Option<usize>)
        requires
            sig <= MAX_SIG,
        ensures
            final(self).signals == old(self).signals,
            final(self).signal_queue@ == old(self).signal_queue@,
            final(self).killed == old(self).killed,
            final(self).frozen == old(self).frozen,
            final(self).signal_actions == old(self).signal_actions,
            old(self).signal_actions.table@[sig as int].handler == 0 ==> r is None && *final(self)
                == *old(self),
            old(self).signal_actions.table@[sig as int].handler != 0 ==> r == Some(
                old(self).signal_actions.table@[sig as int].handler,
            ) && final(self).signal_mask_backup == old(self).signal_mask && final(self).signal_mask
                == old(self).signal_actions.table@[sig as int].mask && final(self).handling_sig
                == sig as isize,
    {
        let handler = self.signal_actions.table[sig].handler;
        if handler == 0 {
            return None;
        }
        self.signal_mask_backup = self.signal_mask;
        self.signal_mask = self.signal_actions.table[sig].mask;
        self.handling_sig = sig as isize;
        Some(handler)
    }

    /// Returning from a handler: the mask saved on entry comes back and no
    /// signal is being handled.
    pub fn sigreturn(&mut self)
        ensures
            final(self).signal_mask == old(self).signal_mask_backup,
            final(self).handling_sig == -1,
            final(self).signals == old(self).signals,
            final(self).signal_queue@ == old(self).signal_queue@,
            final(self).signal_mask_backup == old(self).signal_mask_backup,
            final(self).killed == old(self).killed,
            final(self).frozen == old(self).frozen,
            final(self).signal_actions == old(self).signal_actions,
    {
        self.signal_mask = self.signal_mask_backup;
        self.handling_sig = -1;
    }

    /// `sigreturn` given whether a trap context was saved when the handler
    /// was entered (`saved`): `EINVAL` with nothing changed when none was;
    /// else, as `sigreturn`, the mask saved on entry comes back and no signal
    /// is being handled (the caller puts the saved context back).
    pub fn sigreturn_checked(&mut self, saved: bool) -> (r: SysResult<isize>)
        ensures
            !saved ==> r == Err::<isize, SysError>(SysError::EINVAL) && *final(self) == *old(self),
            saved ==> r == Ok::<isize, SysError>(0) && final(self).signal_mask == old(self).signal_mask_backup
                && final(self).handling_sig == -1 && final(self).signals == old(self).signals
                && final(self).signal_queue@ == old(self).signal_queue@ && final(self).signal_mask_backup
                == old(self).signal_mask_backup && final(self).killed == old(self).killed
                && final(self).frozen == old(self).frozen && final(self).signal_actions == old(
                self,
            ).signal_actions,
    {
        if !saved {
            return Err(SysError::EINVAL);
        }
        self.sigreturn();
        Ok(0)
    }

    /// `sigprocmask`: with a set, blocks it (SIG_BLOCK), unblocks it
    /// (SIG_UNBLOCK) or makes it the mask (SIG_SETMASK); any other `how` is
    /// invalid. Without a set the mask stays.
    pub fn sigprocmask(&mut self, how: i32, set: Option<SignalFlags>) -> (r: Result<isize, crate::error::SysError>)
        ensures
            final(self).signals == old(self).signals,
            final(self).signal_queue@ == old(self).signal_queue@,
            final(self).signal_mask_backup == old(self).signal_mask_backup,
            final(self).handling_sig == old(self).handling_sig,
            final(self).killed == old(self).killed,
            final(self).frozen == old(self).frozen,
            final(self).signal_actions == old(self).signal_actions,
            match set {
                None => r == Ok::<isize, crate::error::SysError>(0) && final(self).signal_mask == old(self).signal_mask,
                Some(s) => if how == SIG_BLOCK {
                    r == Ok::<isize, crate::error::SysError>(0) && final(self).signal_mask.bits == old(self).signal_mask.bits | s.bits
                } else if how == SIG_UNBLOCK {
                    r == Ok::<isize, crate::error::SysError>(0) && final(self).signal_mask.bits == old(self).signal_mask.bits & !s.bits
                } else if how == SIG_SETMASK {
                    r == Ok::<isize, crate::error::SysError>(0) && final(self).signal_mask == s
                } else {
                    r == Err::<isize, crate::error::SysError>(crate::error::SysError::EINVAL) && final(self).signal_mask == old(self).signal_mask
                },
            },
    {
        if let Some(new_set) = set {
            if how == SIG_BLOCK {
                self.signal_mask.insert(new_set);
            } else if how == SIG_UNBLOCK {
                self.signal_mask.remove(new_set);
            } else if how == SIG_SETMASK {
                self.signal_mask = new_set;
            } else {
                return Err(crate::error::SysError::EINVAL);
            }
        }
        Ok(0)
    }

    /// `kill`: marks signal `signal` (bit `signal - 1`) pending, or fails with
    /// EINVAL when there is no such signal.
    pub fn kill(&mut self, signal: usize) -> (r: Result<isize, crate::error::SysError>)
        requires
            1 <= signal <= 64,
        ensures
            ((1u64 << (signal - 1) as u64) as u64) & !SIG_ALL == 0 ==> r == Ok::<isize, crate::error::SysError>(0)
                && final(self).signals.bits == old(self).signals.bits | ((1u64 << (signal - 1) as u64) as u64),
            ((1u64 << (signal - 1) as u64) as u64) & !SIG_ALL != 0 ==> r == Err::<isize, crate::error::SysError>(
                crate::error::SysError::EINVAL,
            ) && final(self).signals == old(self).signals,
            final(self).signal_queue@ == old(self).signal_queue@,
            final(self).signal_mask == old(self).signal_mask,
            final(self).handling_sig == old(self).handling_sig,
    {
        match SignalFlags::from_bits(1u64 << (signal - 1) as u64) {
            Some(flag) => {
                self.signals.insert(flag);
                Ok(0)
            },
            None => Err(crate::error::SysError::EINVAL),
        }
    }

    /// `sigaction` for signal `signum`: fails with EINVAL beyond the last
    /// signal and for SIGKILL and SIGSTOP; otherwise returns the old action
    /// and, when `action` is given, installs it (handler 0 means the default
    /// action, whose terminating handler is `terminate`; 1 means ignore).
    pub fn sigaction(&mut self, signum: usize, action: Option<SigAction>, terminate: usize) -> (r: Result<SigAction, crate::error::SysError>)
        requires
            signum >= 1,
        ensures
            final(self).signals == old(self).signals,
            final(self).signal_queue@ == old(self).signal_queue@,
            final(self).signal_mask == old(self).signal_mask,
            final(self).handling_sig == old(self).handling_sig,
            (signum > MAX_SIG || signum == 9 || signum == 19) ==> r == Err::<SigAction, crate::error::SysError>(
                crate::error::SysError::EINVAL,
            ) && final(self).signal_actions == old(self).signal_actions,
            !(signum > MAX_SIG || signum == 9 || signum == 19) ==> r == Ok::<SigAction, crate::error::SysError>(
                old(self).signal_actions.table@[signum as int],
            ) && match action {
                None => final(self).signal_actions == old(self).signal_actions,
                Some(a) => final(self).signal_actions.table@ == old(self).signal_actions.table@.update(
                    signum as int,
                    if a.handler == 0 {
                        SigAction {
                            handler: if ignored_by_default(signum) { SIG_IGN } else { terminate },
                            flags: SigActionFlags { bits: 0 },
                            restore: 0,
                            mask: SignalFlags { bits: 0 },
                        }
                    } else if a.handler == 1 {
                        SigAction {
                            handler: SIG_IGN,
                            flags: SigActionFlags { bits: 0 },
                            restore: 0,
                            mask: SignalFlags { bits: 0 },
                        }
                    } else {
                        a
                    },
                ),
            },
    {
        if signum > MAX_SIG {
            return Err(crate::error::SysError::EINVAL);
        }
        let flag = match SignalFlags::from_bits(1u64 << (signum - 1) as u64) {
            Some(flag) => flag,
            None => SignalFlags::empty(),
        };
        proof {
            let k = (signum - 1) as u64;
            assert(k <= 30 ==> ((1u64 << k) & !SIG_ALL == 0)) by (bit_vector);
            assert(k <= 30 ==> (((1u64 << k) == SIGKILL) <==> k == 8)) by (bit_vector);
            assert(k <= 30 ==> (((1u64 << k) == SIGSTOP) <==> k == 18)) by (bit_vector);
        }
        if check_sigaction_error(flag) {
            return Err(crate::error::SysError::EINVAL);
        }
        let prev_action = self.signal_actions.table[signum];
        if let Some(a) = action {
            let new_sig = if a.handler == 0 {
                SigAction::new(signum, terminate)
            } else if a.handler == 1 {
                SigAction::ignore()
            } else {
                a
            };
            self.signal_actions.table[signum] = new_sig;
        }
        Ok(prev_action)
    }

    /// The exit code and message of a task that a signal has killed.
    pub fn check_signals_error(&self) -> (r: Option<(isize, &'static str)>)
        ensures
            self.killed ==> (r matches Some(p) && p.0 == -1 && p.1@ == "Killed"@),
            !self.killed ==> r is None,
    {
        if self.killed {
            return Some((-1, "Killed"));
        }
        None
    }
}

/// SIGKILL and SIGSTOP cannot be caught.
pub fn check_sigaction_error(signal: SignalFlags) -> (r: bool)
    ensures
        r == (signal.bits == SIGKILL || signal.bits == SIGSTOP),
{
    signal.bits == SIGKILL || signal.bits == SIGSTOP
}

/// Only SIGKILL, SIGSTOP and SIGCONT go to the kernel's own handling; every
/// other signal that can be delivered goes to the user handler. For a task
/// handling no signal whose oldest queued number `n` (1 to 64) stands for a
/// defined flag `1 << (n - 1)` that is pending and not blocked, the
/// decision takes that signal, to the kernel for those three and to the
/// user handler for any other.
pub proof fn lemma_kernel_handles_only_kill_stop_cont(s: SignalState)
    ensures
        pending_decision(s) matches PendingAction::Kernel(_, f) ==> (f.bits == SIGKILL || f.bits == SIGSTOP
            || f.bits == SIGCONT),
        pending_decision(s) matches PendingAction::User(_, f) ==> (f.bits != SIGKILL && f.bits != SIGSTOP
            && f.bits != SIGCONT),
        ({
            let n = s.signal_queue@[0];
            let f = (1u64 << (n - 1) as u64) as u64;
            (s.handling_sig == -1 && s.signal_queue@.len() > 0 && 1 <= n <= 64 && f & !SIG_ALL == 0
                && s.signals.bits & f == f && s.signal_mask.bits & f != f) ==> pending_decision(s) == (if f == SIGKILL
                || f == SIGSTOP || f == SIGCONT {
                PendingAction::Kernel(n, SignalFlags { bits: f })
            } else {
                PendingAction::User(n, SignalFlags { bits: f })
            })
        }),
{
}

/// A blocked signal is never delivered: when the oldest queued signal is in
/// the mask, checking leaves it queued.
pub proof fn lemma_blocked_not_delivered(s: SignalState)
    requires
        s.signal_queue@.len() > 0,
        1 <= s.signal_queue@[0] <= 64,
        s.signal_mask.has(sig_bit(s.signal_queue@[0])),
    ensures
        !(pending_decision(s) is Kernel),
        !(pending_decision(s) is User),
{
}

/// While a handler runs no other signal is delivered.
pub proof fn lemma_one_handler_at_a_time(s: SignalState)
    requires
        s.handling_sig != -1,
    ensures
        pending_decision(s) == PendingAction::Deferred,
{
}

/// Blocking a set and then unblocking it gives the old mask back when the
/// set held no blocked signal.
pub proof fn lemma_block_unblock(mask: u64, set: u64)
    requires
        mask & set == 0,
    ensures
        (mask | set) & !set == mask,
{
    assert((mask | set) & !set == mask) by (bit_vector)
        requires
            mask & set == 0,
    ;
}

} // verus!
