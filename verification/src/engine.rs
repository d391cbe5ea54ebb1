//! Process-control engine: the set of traced processes and the tracing
//! syscalls that drive them.
//!
//! The engine records every tracee by its process id, in insertion order,
//! and separately records which of those ids it owns (processes it spawned
//! and must terminate and reap on teardown).  The two lists are only ever
//! extended together, so every owned id always names a tracee.
//!
//! Tracing primitives bind the tracer to the operating-system thread that
//! issued the attach request: all calls on one `Debugger` value must be made
//! from that same thread.  The engine is plain owned data, not shared state,
//! so keeping it on one thread is the caller's only obligation.

use vstd::prelude::*;

verus! {

/// Errors of the engine and of command execution.
///
/// `IoError` carries the raw OS error code of a failed process launch
/// (zero when none is known); `OsError` carries the errno of a failed
/// tracing syscall; `ConversionError` reports a process id outside the
/// native signed range; `ProtocolError` reports malformed command text;
/// `Unknown` is the unclassified rest.
#[derive(Debug, Clone, Copy, PartialEq, Eq, Structural)]
pub enum DebuggerError {
    IoError(i32),
    OsError(i32),
    ProtocolError,
    ConversionError,
    Unknown,
}

/// The engine's state as the contracts speak of it: all tracee ids in
/// insertion order, the owned (spawned) ids, and two histories that only
/// ghost code sees: how many resume batches were issued, and which ids
/// were terminated and reaped.
pub struct DebuggerView {
    pub pids: Seq<int>,
    pub owned: Seq<int>,
    pub resume_batches: nat,
    pub terminated: Seq<int>,
}

impl DebuggerView {
    /// Every owned id names a tracee: the two lists never desynchronize.
    pub open spec fn wf(self) -> bool {
        forall|i: int| 0 <= i < self.owned.len() ==> self.pids.contains(#[trigger] self.owned[i])
    }
}

/// The process-control engine.
pub struct Debugger {
    pids: Vec<i32>,
    owned: Vec<i32>,
    resume_batches: Ghost<nat>,
    terminated: Ghost<Seq<int>>,
}

impl View for Debugger {
    type V = DebuggerView;

    closed spec fn view(&self) -> DebuggerView {
        DebuggerView {
            pids: self.pids@.map(|i: int, p: i32| p as int),
            owned: self.owned@.map(|i: int, p: i32| p as int),
            resume_batches: self.resume_batches@,
            terminated: self.terminated@,
        }
    }
}

/// Relies on nix::sys::ptrace::attach: issues PTRACE_ATTACH for `pid`,
/// making it a tracee of the calling process; whether that succeeds is the
/// operating system's decision.  On failure returns the raw errno.
#[verifier::external_body]
fn ptrace_attach(pid: i32) -> (r: Result<(), i32>) {
    match nix::sys::ptrace::attach(nix::unistd::Pid::from_raw(pid)) {
        Ok(()) => Ok(()),
        Err(e) => Err(e as i32),
    }
}

/// Relies on nix::sys::ptrace::cont: issues PTRACE_CONT for `pid` with no
/// signal, letting a stopped tracee run on.  On failure returns the raw
/// errno.
#[verifier::external_body]
fn ptrace_cont(pid: i32) -> (r: Result<(), i32>) {
    match nix::sys::ptrace::cont(nix::unistd::Pid::from_raw(pid), None) {
        Ok(()) => Ok(()),
        Err(e) => Err(e as i32),
    }
}

/// Relies on nix::sys::wait::waitpid: blocks until the OS reports a state
/// change (stop, signal, exit) for `pid`; the reported status itself is
/// not interpreted here.  On failure returns the raw errno.
#[verifier::external_body]
fn wait_for(pid: i32) -> (r: Result<(), i32>) {
    match nix::sys::wait::waitpid(nix::unistd::Pid::from_raw(pid), None) {
        Ok(_status) => Ok(()),
        Err(e) => Err(e as i32),
    }
}

/// Relies on nix::sys::signal::kill: sends SIGKILL to `pid`.  On failure
/// returns the raw errno.
#[verifier::external_body]
fn force_kill(pid: i32) -> (r: Result<(), i32>) {
    match nix::sys::signal::kill(nix::unistd::Pid::from_raw(pid), Some(nix::sys::signal::Signal::SIGKILL)) {
        Ok(()) => Ok(()),
        Err(e) => Err(e as i32),
    }
}

impl Debugger {
    /// A fresh engine: no tracees, nothing owned, no history.
    pub fn new() -> (d: Self)
        ensures
            d@.pids =~= Seq::<int>::empty(),
            d@.owned =~= Seq::<int>::empty(),
            d@.resume_batches == 0,
            d@.terminated =~= Seq::<int>::empty(),
    {
        Debugger {
            pids: Vec::new(),
            owned: Vec::new(),
            resume_batches: Ghost(0),
            terminated: Ghost(Seq::empty()),
        }
    }

    /// Attach a pre-existing process by its id.
    ///
    /// The id is range-checked against the native signed representation:
    /// an id that does not fit fails with `ConversionError` and changes
    /// nothing.  Otherwise a tracing attach request is issued; if the OS
    /// refuses (no such process, insufficient privilege, already traced)
    /// the call fails with `OsError` and changes nothing.  On success the
    /// process is recorded as a tracee the engine does not own.
    pub fn add_proc(&mut self, pid: u64) -> (r: Result<(), DebuggerError>)
        ensures
            r == Err::<(), DebuggerError>(DebuggerError::ConversionError) <==> pid > i32::MAX as u64,
            match r {
                Ok(()) => {
                    &&& pid <= i32::MAX as u64
                    &&& final(self)@.pids =~= old(self)@.pids.push(pid as int)
                    &&& final(self)@.owned == old(self)@.owned
                    &&& final(self)@.resume_batches == old(self)@.resume_batches
                    &&& final(self)@.terminated == old(self)@.terminated
                },
                Err(e) => {
                    &&& e is OsError || e is ConversionError
                    &&& final(self)@ == old(self)@
                },
            },
            old(self)@.wf() ==> final(self)@.wf(),
    {
        if pid > i32::MAX as u64 {
            return Err(DebuggerError::ConversionError);
        }
        let raw: i32 = pid as i32;
        match ptrace_attach(raw) {
            Ok(()) => {
                self.pids.push(raw);
                proof {
                    assert(self@.pids =~= old(self)@.pids.push(pid as int));
                    assert(self@.owned =~= old(self)@.owned);
                    if old(self)@.wf() {
                        assert forall|i: int| 0 <= i < self@.owned.len()
                            implies self@.pids.contains(#[trigger] self@.owned[i]) by {
                            assert(old(self)@.pids.contains(old(self)@.owned[i]));
                            let j = choose|j: int|
                                0 <= j < old(self)@.pids.len()
                                    && old(self)@.pids[j] == old(self)@.owned[i];
                            assert(self@.pids[j] == self@.owned[i]);
                        }
                    }
                }
                Ok(())
            }
            Err(e) => {
                proof {
                    assert(self@.pids =~= old(self)@.pids);
                    assert(self@.owned =~= old(self)@.owned);
                }
                Err(DebuggerError::OsError(e))
            }
        }
    }

    /// Record a process this engine spawned and therefore owns.
    ///
    /// The launch itself (with its trace-me hook) happens at the process
    /// boundary outside this crate; this call registers the new child's id.
    /// The tracee list and the owned list are extended together, so no
    /// partial registration is possible.  An id outside the native signed
    /// range fails with `ConversionError` and changes nothing.
    pub fn record_spawned(&mut self, pid: u64) -> (r: Result<(), DebuggerError>)
        ensures
            r == Err::<(), DebuggerError>(DebuggerError::ConversionError) <==> pid > i32::MAX as u64,
            r is Err ==> final(self)@ == old(self)@ && r == Err::<(), DebuggerError>(DebuggerError::ConversionError),
            match r {
                Ok(()) => {
                    &&& pid <= i32::MAX as u64
                    &&& final(self)@.pids =~= old(self)@.pids.push(pid as int)
                    &&& final(self)@.owned =~= old(self)@.owned.push(pid as int)
                    &&& final(self)@.resume_batches == old(self)@.resume_batches
                    &&& final(self)@.terminated == old(self)@.terminated
                },
                Err(_) => true,
            },
            old(self)@.wf() ==> final(self)@.wf(),
    {
        if pid > i32::MAX as u64 {
            return Err(DebuggerError::ConversionError);
        }
        let raw: i32 = pid as i32;
        self.pids.push(raw);
        self.owned.push(raw);
        proof {
            assert(self@.pids =~= old(self)@.pids.push(pid as int));
            assert(self@.owned =~= old(self)@.owned.push(pid as int));
            if old(self)@.wf() {
                assert forall|i: int| 0 <= i < self@.owned.len()
                    implies self@.pids.contains(#[trigger] self@.owned[i]) by {
                    if i < old(self)@.owned.len() {
                        assert(old(self)@.pids.contains(old(self)@.owned[i]));
                        let j = choose|j: int|
                            0 <= j < old(self)@.pids.len() && old(self)@.pids[j] == old(self)@.owned[i];
                        assert(self@.pids[j] == self@.owned[i]);
                    } else {
                        assert(self@.pids[self@.pids.len() - 1] == pid as int);
                    }
                }
            }
        }
        Ok(())
    }

    /// Wait, in insertion order, for every tracee to report a state change.
    ///
    /// Each wait blocks until the OS reports a stop, signal, or exit for
    /// that tracee.  The first failing wait (for instance on an id that no
    /// longer exists) aborts the remainder and is surfaced as `OsError`.
    /// With no tracees there is nothing to wait on and the call succeeds.
    pub fn wait(&self) -> (r: Result<(), DebuggerError>)
        ensures
            self@.pids.len() == 0 ==> r is Ok,
            r is Err ==> (r matches Err(e) && e is OsError),
    {
        let n = self.pids.len();
        let mut i: usize = 0;
        while i < n
            invariant
                n == self.pids.len(),
                i <= n,
            decreases n - i,
        {
            match wait_for(self.pids[i]) {
                Ok(()) => {}
                Err(e) => {
                    return Err(DebuggerError::OsError(e));
                }
            }
            i = i + 1;
        }
        Ok(())
    }

    /// Resume every tracee, then wait for the resumed set to stop again.
    ///
    /// Issues one resume request per tracee in insertion order, then an
    /// internal `wait`, so the call returns only once the resumed processes
    /// have stopped again or exited.  The first refused resume (already
    /// running, already exited, gone) aborts the remainder with `OsError`.
    /// One call is one resume batch; the tracee sets are untouched.  With
    /// no tracees there is nothing to resume and the call succeeds.
    pub fn continue_execution(&mut self) -> (r: Result<(), DebuggerError>)
        ensures
            final(self)@.pids == old(self)@.pids,
            final(self)@.owned == old(self)@.owned,
            final(self)@.terminated == old(self)@.terminated,
            final(self)@.resume_batches == old(self)@.resume_batches + 1,
            old(self)@.pids.len() == 0 ==> r is Ok,
            r is Err ==> (r matches Err(e) && e is OsError),
    {
        self.resume_batches = Ghost(self.resume_batches@ + 1);
        let n = self.pids.len();
        let mut i: usize = 0;
        while i < n
            invariant
                n == self.pids.len(),
                i <= n,
                self.pids@ == old(self).pids@,
                self.owned@ == old(self).owned@,
                self.terminated@ == old(self).terminated@,
                self.resume_batches@ == old(self).resume_batches@ + 1,
            decreases n - i,
        {
            match ptrace_cont(self.pids[i]) {
                Ok(()) => {}
                Err(e) => {
                    return Err(DebuggerError::OsError(e));
                }
            }
            i = i + 1;
        }
        match self.wait() {
            Ok(()) => Ok(()),
            Err(e) => Err(e),
        }
    }

    /// Tear the engine down: terminate and reap every owned process.
    ///
    /// Each owned (spawned) tracee is sent a kill signal and then reaped
    /// with a wait, best effort: failures are ignored, teardown never
    /// raises.  Attached tracees are not touched — the engine does not own
    /// them.  Afterwards the engine is empty.
    pub fn teardown(&mut self)
        ensures
            final(self)@.pids =~= Seq::<int>::empty(),
            final(self)@.owned =~= Seq::<int>::empty(),
            final(self)@.resume_batches == old(self)@.resume_batches,
            final(self)@.terminated =~= old(self)@.terminated + old(self)@.owned,
    {
        let n = self.owned.len();
        let mut i: usize = 0;
        while i < n
            invariant
                n == self.owned.len(),
                i <= n,
                self.owned@ == old(self).owned@,
                self.pids@ == old(self).pids@,
                self.resume_batches@ == old(self).resume_batches@,
                self.terminated@ =~= old(self).terminated@ + old(self)@.owned.take(i as int),
            decreases n - i,
        {
            let p = self.owned[i];
            let _ = force_kill(p);
            let _ = wait_for(p);
            proof {
                assert(old(self)@.owned.take(i + 1) =~= old(self)@.owned.take(i as int).push(p as int));
            }
            self.terminated = Ghost(self.terminated@.push(p as int));
            i = i + 1;
        }
        proof {
            assert(old(self)@.owned.take(n as int) =~= old(self)@.owned);
        }
        self.pids = Vec::new();
        self.owned = Vec::new();
    }

    /// The tracee ids, in insertion order.
    pub fn tracee_pids(&self) -> (r: &Vec<i32>)
        ensures
            r@.len() == self@.pids.len(),
            forall|i: int| 0 <= i < r@.len() ==> r@[i] as int == self@.pids[i],
    {
        &self.pids
    }

    /// The owned (spawned) tracee ids, in insertion order.
    pub fn owned_pids(&self) -> (r: &Vec<i32>)
        ensures
            r@.len() == self@.owned.len(),
            forall|i: int| 0 <= i < r@.len() ==> r@[i] as int == self@.owned[i],
    {
        &self.owned
    }
}

impl Default for Debugger {
    /// Same as `Debugger::new`.
    fn default() -> (d: Self)
        ensures
            d@.pids =~= Seq::<int>::empty(),
            d@.owned =~= Seq::<int>::empty(),
            d@.resume_batches == 0,
            d@.terminated =~= Seq::<int>::empty(),
    {
        Debugger::new()
    }
}

} // verus!
