//! The tracer engine: it owns the process state table, absorbs kernel
//! notifications one at a time, invokes the argument decoder at exec
//! entries, pairs each buffered decode with its syscall-exit return value,
//! and emits completed events on the event channel.
//!
//! The engine's driving loop is thread-affine (process-tracing attachment is
//! bound to the OS thread that performed it) and blocks indefinitely on
//! kernel notifications, so the unverified shell owns the loop: it spawns
//! the root child, waits for each notification, translates it, and hands it
//! to [`Tracer::handle_notification`], stopping when the directive says the
//! root exited. Everything the engine decides — table transitions, decode,
//! what to emit, how to resume — happens here, against the kernel-facing
//! calls' trusted wrappers.
//!
//! The engine models everything it ever sent as a ghost sequence of event
//! views: the session laws (the root-exit event comes exactly once, and
//! last) are proved over that model.

use vstd::prelude::*;

use crate::arch::{is_exec_syscall, Arch};
use crate::decode::{decode_exec_call, DecodeLimits};
use crate::event::{TracerEvent, TracerEventView};
use crate::memory::MemSource;
use crate::state::{ProcessTable, TableAction, TableEvent};

verus! {

/// A kernel notification, as the unverified shell translates it from a wait
/// status.
#[derive(Clone, Copy, Debug, PartialEq, Eq, Structural)]
pub enum Notification {
    /// A syscall-entry or syscall-exit trace-stop; the table's per-process
    /// toggle tells which.
    SyscallStop { pid: i32 },
    /// A fast-path filter trap: the entry of an exec-family syscall.
    SeccompStop { pid: i32 },
    /// A fork/vfork/clone notification naming the new child.
    NewChild { pid: i32, child: i32 },
    /// A signal-delivery-stop with the pending signal.
    SignalStop { pid: i32, signal: i32 },
    /// The process exited with the given status.
    Exited { pid: i32, status: i32 },
}

/// What the driving loop must do after a notification was absorbed.
#[derive(Clone, Copy, Debug, PartialEq, Eq, Structural)]
pub enum Directive {
    /// Wait for the next notification.
    Continue,
    /// The root process exited: the session is over, no event follows.
    RootExited { exit_code: i32 },
}

/// Session configuration, fixed before the root process is spawned.
#[derive(Clone, Copy, Debug)]
pub struct TracingConfig {
    /// Follow forked/cloned children (otherwise only the root is tracked).
    pub follow_forks: bool,
    /// Whether the fast-path filter is installed: trace-stops then happen
    /// only at exec entries, and resumes need not trap every syscall.
    pub seccomp: bool,
    /// The architecture whose syscall numbering identifies exec calls.
    pub arch: Arch,
    /// Caps on the remote argument decode.
    pub limits: DecodeLimits,
}

/// Syscall-entry register state, read from the stopped tracee: the syscall
/// number, its first three arguments, and the return-value register.
#[derive(Clone, Copy, Debug, PartialEq, Eq, Structural)]
pub struct SyscallRegs {
    pub syscall_nr: u64,
    pub arg0: u64,
    pub arg1: u64,
    pub arg2: u64,
    pub retval: i64,
}

/// How many of `s` are root-exit events.
pub open spec fn count_root_exits(s: Seq<TracerEventView>) -> nat
    decreases s.len(),
{
    if s.len() == 0 {
        0
    } else {
        count_root_exits(s.drop_last()) + (if s.last() is RootChildExit {
            1nat
        } else {
            0nat
        })
    }
}

/// Appending an event raises the root-exit count exactly when it is one.
pub proof fn lemma_count_push(s: Seq<TracerEventView>, e: TracerEventView)
    ensures
        count_root_exits(s.push(e)) == count_root_exits(s) + (if e is RootChildExit {
            1nat
        } else {
            0nat
        }),
{
    assert(s.push(e).drop_last() =~= s);
    assert(s.push(e).last() == e);
}

/// Declares tokio's `mpsc::UnboundedSender` — the sending half of the
/// unbounded, ordered event channel — so the engine can hold one.
#[verifier::external_type_specification]
#[verifier::external_body]
#[verifier::reject_recursive_types(T)]
pub struct ExUnboundedSender<T>(tokio::sync::mpsc::UnboundedSender<T>);

/// Relies on tokio's `UnboundedSender::send`: never blocks, delivers the
/// event to the receiver if it still exists, and reports failure when the
/// receiver was dropped — in which case emission is a no-op by design.
#[verifier::external_body]
fn send_event(tx: &tokio::sync::mpsc::UnboundedSender<TracerEvent>, ev: TracerEvent) -> (ok: bool) {
    tx.send(ev).is_ok()
}

/// Relies on nix's `ptrace::syscall`: restarts the stopped tracee until its
/// next syscall entry or exit, delivering `signal` (0 for none). Fails with
/// the errno when the process raced to exit — its exit notification then
/// arrives through the wait loop on its own — or when nix does not know the
/// signal number.
#[verifier::external_body]
fn resume_until_syscall(pid: i32, signal: i32) -> (r: Result<(), i32>) {
    let sig = if signal == 0 {
        None
    } else {
        match nix::sys::signal::Signal::try_from(signal) {
            Ok(s) => Some(s),
            Err(e) => return Err(e as i32),
        }
    };
    match nix::sys::ptrace::syscall(nix::unistd::Pid::from_raw(pid), sig) {
        Ok(()) => Ok(()),
        Err(e) => Err(e as i32),
    }
}

/// Relies on nix's `ptrace::cont`: restarts the stopped tracee without
/// trapping syscalls (the fast-path filter reports exec entries instead),
/// delivering `signal` (0 for none). Fails with the errno when the process
/// raced to exit, or when nix does not know the signal number.
#[verifier::external_body]
fn resume_plain(pid: i32, signal: i32) -> (r: Result<(), i32>) {
    let sig = if signal == 0 {
        None
    } else {
        match nix::sys::signal::Signal::try_from(signal) {
            Ok(s) => Some(s),
            Err(e) => return Err(e as i32),
        }
    };
    match nix::sys::ptrace::cont(nix::unistd::Pid::from_raw(pid), sig) {
        Ok(()) => Ok(()),
        Err(e) => Err(e as i32),
    }
}

/// Relies on nix's `ptrace::getregs`: reads the stopped tracee's user
/// registers; the fields are the syscall number and argument registers of
/// the x86-64 syscall ABI. Fails with the errno when the process raced to
/// exit.
#[verifier::external_body]
fn get_syscall_regs(pid: i32) -> (r: Result<SyscallRegs, i32>) {
    match nix::sys::ptrace::getregs(nix::unistd::Pid::from_raw(pid)) {
        Ok(regs) => Ok(
            SyscallRegs {
                syscall_nr: regs.orig_rax,
                arg0: regs.rdi,
                arg1: regs.rsi,
                arg2: regs.rdx,
                retval: regs.rax as i64,
            },
        ),
        Err(e) => Err(e as i32),
    }
}

/// The tracer engine. Exclusively owns the process state table; only
/// fully-formed, immutable events cross to consumers, through the channel.
pub struct Tracer {
    config: TracingConfig,
    table: ProcessTable,
    root_pid: i32,
    root_exited: bool,
    tx: tokio::sync::mpsc::UnboundedSender<TracerEvent>,
    emitted: Ghost<Seq<TracerEventView>>,
    resumes: Ghost<Seq<(i32, i32, bool)>>,
}

impl Tracer {
    /// Everything this session has emitted, in order.
    pub closed spec fn emitted(&self) -> Seq<TracerEventView> {
        self.emitted@
    }

    /// Whether the root process has exited: then the session is over.
    pub closed spec fn done(&self) -> bool {
        self.root_exited
    }

    /// The root process's pid.
    pub closed spec fn root(&self) -> i32 {
        self.root_pid
    }

    /// Every resume handed to the kernel-facing calls, in order: the pid,
    /// the signal delivered with it (0 for none), and whether the resume
    /// traps at the next syscall boundary (true) or runs plain under the
    /// fast-path filter (false).
    pub closed spec fn resumes(&self) -> Seq<(i32, i32, bool)> {
        self.resumes@
    }

    /// Whether the fast-path filter mode is on: resumes then run plain
    /// except when a syscall-exit stop is still owed.
    pub closed spec fn seccomp_mode(&self) -> bool {
        self.config.seccomp
    }

    /// Whether the generation counter can still grow (a machine limit; one
    /// notification consumes at most one generation).
    pub closed spec fn gen_headroom(&self) -> bool {
        self.table.gen_counter() < 0xffff_ffff_ffff_ffffu64
    }

    /// Session invariant: the table is well-formed, and the root-exit event
    /// was emitted exactly once and last if and only if the session is over.
    pub closed spec fn wf(&self) -> bool {
        &&& self.table.wf()
        &&& !self.root_exited ==> count_root_exits(self.emitted@) == 0
        &&& self.root_exited ==> self.emitted@.len() > 0 && self.emitted@.last() is RootChildExit
            && count_root_exits(self.emitted@) == 1
    }

    /// Whether the session is over: the driving loop must hand in no
    /// further notification once it is.
    pub fn is_done(&self) -> (r: bool)
        ensures
            r == self.done(),
    {
        self.root_exited
    }

    /// Whether another notification can be absorbed (the generation counter
    /// has headroom, a machine limit): the driving loop tests this before
    /// each call.
    pub fn can_absorb(&self) -> (r: bool)
        ensures
            r == self.gen_headroom(),
    {
        self.table.has_gen_headroom()
    }

    /// Configures the session around an already-spawned, already-attached
    /// root process and emits the root-spawned event.
    pub fn new(
        config: TracingConfig,
        tx: tokio::sync::mpsc::UnboundedSender<TracerEvent>,
        root_pid: i32,
    ) -> (r: Tracer)
        ensures
            r.wf(),
            !r.done(),
            r.root() == root_pid,
            r.emitted() == seq![TracerEventView::RootChildSpawn { pid: root_pid }],
            r.resumes() == Seq::<(i32, i32, bool)>::empty(),
            r.seccomp_mode() == config.seccomp,
    {
        let mut t = Tracer {
            config,
            table: ProcessTable::new(),
            root_pid,
            root_exited: false,
            tx,
            emitted: Ghost(Seq::empty()),
            resumes: Ghost(Seq::empty()),
        };
        t.emit(TracerEvent::RootChildSpawn { pid: root_pid });
        proof {
            lemma_count_push(Seq::empty(), TracerEventView::RootChildSpawn { pid: root_pid });
            assert(t.emitted@ =~= seq![TracerEventView::RootChildSpawn { pid: root_pid }]);
        }
        t
    }

    /// Sends one event and records it in the session's model.
    fn emit(&mut self, ev: TracerEvent)
        ensures
            final(self).emitted@ == old(self).emitted@.push(ev@),
            final(self).table == old(self).table,
            final(self).root_pid == old(self).root_pid,
            final(self).root_exited == old(self).root_exited,
            final(self).config == old(self).config,
            final(self).tx == old(self).tx,
            final(self).resumes@ == old(self).resumes@,
    {
        let ghost evv = ev@;
        let _receiver_alive = send_event(&self.tx, ev);
        proof {
            self.emitted@ = self.emitted@.push(evv);
        }
    }

    /// Restarts a stopped tracee, delivering `signal` (0 for none). With the
    /// fast-path filter installed only exec entries need trapping, so the
    /// resume is plain unless the tracee sits inside an exec call whose exit
    /// stop is still owed. The model of resumes grows by exactly this one.
    fn resume(&mut self, pid: i32, signal: i32, expect_syscall_exit: bool)
        ensures
            final(self).resumes@ == old(self).resumes@.push(
                (pid, signal, !old(self).config.seccomp || expect_syscall_exit),
            ),
            final(self).table == old(self).table,
            final(self).root_pid == old(self).root_pid,
            final(self).root_exited == old(self).root_exited,
            final(self).config == old(self).config,
            final(self).tx == old(self).tx,
            final(self).emitted@ == old(self).emitted@,
    {
        let traps = !self.config.seccomp || expect_syscall_exit;
        if traps {
            let _raced_to_exit = resume_until_syscall(pid, signal);
        } else {
            let _raced_to_exit = resume_plain(pid, signal);
        }
        proof {
            self.resumes@ = self.resumes@.push((pid, signal, traps));
        }
    }

    /// Absorbs one kernel notification: advances the state table, decodes
    /// exec arguments at entries, pairs buffered decodes with return values
    /// at exits, emits the owed events, resumes the stopped process, and
    /// says whether the session is over.
    ///
    /// A decode failure for one process never aborts tracing of the others:
    /// it is recorded in that event's payload. A failure to read registers
    /// or to resume (the process raced to exit) is absorbed; the process's
    /// exit notification follows through the wait loop on its own.
    pub fn handle_notification(&mut self, n: Notification) -> (r: Directive)
        requires
            old(self).wf(),
            !old(self).done(),
            old(self).gen_headroom(),
        ensures
            final(self).wf(),
            final(self).root() == old(self).root(),
            r is RootExited <==> final(self).done(),
            final(self).emitted().len() >= old(self).emitted().len(),
            final(self).emitted().subrange(0, old(self).emitted().len() as int) == old(
                self,
            ).emitted(),
            n matches Notification::Exited { pid, status } ==> {
                &&& (final(self).done() <==> pid == old(self).root())
                &&& (pid == old(self).root() ==> final(self).emitted() == old(
                    self,
                ).emitted().push(TracerEventView::ProcessExit { pid, status }).push(
                    TracerEventView::RootChildExit { exit_code: status },
                ) && r == Directive::RootExited { exit_code: status })
                &&& (pid != old(self).root() ==> final(self).emitted() == old(
                    self,
                ).emitted().push(TracerEventView::ProcessExit { pid, status }))
            },
            n matches Notification::NewChild { .. } ==> final(self).emitted() == old(
                self,
            ).emitted(),
            n matches Notification::SignalStop { .. } ==> final(self).emitted() == old(
                self,
            ).emitted(),
            final(self).seccomp_mode() == old(self).seccomp_mode(),
            n matches Notification::Exited { .. } ==> final(self).resumes() == old(self).resumes(),
            n matches Notification::NewChild { pid, child } ==> final(self).resumes() == old(
                self).resumes().push((pid, 0, !old(self).seccomp_mode())).push(
                (child, 0, !old(self).seccomp_mode()),
            ),
            n matches Notification::SignalStop { pid, signal } ==> final(self).resumes() == old(
                self).resumes().push((pid, signal, !old(self).seccomp_mode())),
            n matches Notification::SeccompStop { pid } ==> final(self).resumes() == old(
                self).resumes().push((pid, 0, true)),
            n matches Notification::SyscallStop { pid } ==> (final(self).resumes() == old(
                self).resumes().push((pid, 0, true)) || final(self).resumes() == old(
                self).resumes().push((pid, 0, !old(self).seccomp_mode()))),
            n is SeccompStop ==> final(self).emitted() == old(self).emitted(),
            n matches Notification::SyscallStop { pid } ==> {
                ||| final(self).emitted() == old(self).emitted()
                ||| (final(self).emitted().len() == old(self).emitted().len() + 1
                    && final(self).emitted().last() is ExecCompleted && final(
                    self).emitted().last()->ExecCompleted_pid == pid)
            },
    {
        let ghost em0 = self.emitted@;
        match n {
            Notification::Exited { pid, status } => {
                let _action = self.table.on_notification(pid, TableEvent::Exit { status });
                self.emit(TracerEvent::ProcessExit { pid, status });
                proof {
                    lemma_count_push(em0, TracerEventView::ProcessExit { pid, status });
                }
                if pid == self.root_pid {
                    let ghost em1 = self.emitted@;
                    self.emit(TracerEvent::RootChildExit { exit_code: status });
                    self.root_exited = true;
                    proof {
                        lemma_count_push(em1, TracerEventView::RootChildExit { exit_code: status });
                        assert(self.emitted@.subrange(0, em0.len() as int) =~= em0);
                    }
                    Directive::RootExited { exit_code: status }
                } else {
                    proof {
                        assert(self.emitted@.subrange(0, em0.len() as int) =~= em0);
                    }
                    Directive::Continue
                }
            },
            Notification::NewChild { pid, child } => {
                if self.config.follow_forks {
                    let _action = self.table.on_notification(pid, TableEvent::Fork { child });
                }
                self.resume(pid, 0, false);
                // the new child starts in its own trace-stop
                self.resume(child, 0, false);
                proof {
                    assert(self.emitted@.subrange(0, em0.len() as int) =~= em0);
                }
                Directive::Continue
            },
            Notification::SignalStop { pid, signal } => {
                // forward the pending signal with the resume
                self.resume(pid, signal, false);
                proof {
                    assert(self.emitted@.subrange(0, em0.len() as int) =~= em0);
                }
                Directive::Continue
            },
            Notification::SeccompStop { pid } => {
                self.handle_exec_entry(pid);
                self.resume(pid, 0, true);
                proof {
                    assert(self.emitted@.subrange(0, em0.len() as int) =~= em0);
                }
                Directive::Continue
            },
            Notification::SyscallStop { pid } => {
                let entering = !self.table.in_syscall(pid);
                if entering {
                    self.handle_exec_entry(pid);
                    self.resume(pid, 0, true);
                    proof {
                        assert(self.emitted@.subrange(0, em0.len() as int) =~= em0);
                    }
                    Directive::Continue
                } else {
                    match get_syscall_regs(pid) {
                        Ok(regs) => {
                            let action = self.table.on_notification(
                                pid,
                                TableEvent::SyscallExit { result: regs.retval },
                            );
                            match action {
                                TableAction::EmitExec { data, result } => {
                                    self.emit(TracerEvent::ExecCompleted { pid, data, result });
                                    proof {
                                        lemma_count_push(em0, self.emitted@.last());
                                    }
                                },
                                _ => {},
                            }
                        },
                        Err(_raced_to_exit) => {
                            // the registers are gone with the process; its exit
                            // notification follows on its own
                        },
                    }
                    self.resume(pid, 0, false);
                    proof {
                        assert(self.emitted@.subrange(0, em0.len() as int) =~= em0);
                    }
                    Directive::Continue
                }
            },
        }
    }

    /// At a syscall-entry stop: reads the registers, decodes the arguments
    /// when the syscall is exec-family, and advances the table. A register
    /// read failure leaves the table as it is (the process raced to exit).
    fn handle_exec_entry(&mut self, pid: i32)
        requires
            old(self).wf(),
            old(self).gen_headroom(),
        ensures
            final(self).wf(),
            final(self).emitted@ == old(self).emitted@,
            final(self).root_pid == old(self).root_pid,
            final(self).root_exited == old(self).root_exited,
            final(self).config == old(self).config,
            final(self).tx == old(self).tx,
            final(self).resumes@ == old(self).resumes@,
    {
        match get_syscall_regs(pid) {
            Ok(regs) => {
                let is_exec = is_exec_syscall(self.config.arch, regs.syscall_nr);
                let data = if is_exec {
                    Some(
                        decode_exec_call(
                            &MemSource::Remote(pid),
                            regs.arg0,
                            regs.arg1,
                            regs.arg2,
                            &self.config.limits,
                        ),
                    )
                } else {
                    None
                };
                let _action = self.table.on_notification(
                    pid,
                    TableEvent::SyscallEntry { is_exec, data },
                );
            },
            Err(_raced_to_exit) => {},
        }
    }
}

/// For every session, the root-exit event is the last event emitted and
/// occurs exactly once; before the session is over it was never emitted.
pub proof fn lemma_root_exit_last(t: &Tracer)
    requires
        t.wf(),
    ensures
        t.done() ==> t.emitted().len() > 0 && t.emitted().last() is RootChildExit
            && count_root_exits(t.emitted()) == 1,
        !t.done() ==> count_root_exits(t.emitted()) == 0,
{
}

} // verus!
