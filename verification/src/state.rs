//! The per-process state table: one entry per currently-tracked pid, advanced
//! by kernel notifications according to the lifecycle state machine.
//!
//! The table is exclusively owned and mutated by the tracer engine's single
//! driving loop. Every mutation is pinned to the spec-level transition
//! function [`table_step`], over which the lifecycle laws are proved.

use vstd::prelude::*;

use crate::event::{clone_bytes, ExecData, ExecDataView};

verus! {

/// Lifecycle stage of a traced process.
///
/// `Exited` has no variant here: an exit notification removes the entry from
/// the table, so exited, fully-reaped processes occupy no memory.
#[derive(Clone, Copy, Debug, PartialEq, Eq, Structural)]
pub enum Lifecycle {
    /// Spawned (or first sighted) and not yet stopped in an exec call.
    SpawnedNotExeced,
    /// Stopped at the entry of an exec-family syscall; the decoded arguments
    /// are buffered in `exec_data` until the matching syscall-exit.
    SyscallEntered,
    /// The exec call completed; the process runs until its exit (or until it
    /// execs again, which loops back to `SyscallEntered`).
    AwaitingExit,
}

/// A kernel notification as the table sees it, with any decoded payload.
#[derive(Debug, Clone, PartialEq, Eq)]
pub enum TableEvent {
    /// A syscall-entry trace-stop. `is_exec` says whether the syscall is
    /// exec-family; `data` carries the entry-time decode of its arguments.
    SyscallEntry { is_exec: bool, data: Option<ExecData> },
    /// A syscall-exit trace-stop with the syscall's return value.
    SyscallExit { result: i64 },
    /// A fork/vfork/clone notification naming the new child.
    Fork { child: i32 },
    /// An exit notification with the process's wait status.
    Exit { status: i32 },
}

/// Mathematical model of a `TableEvent`.
pub enum TableEventView {
    SyscallEntry { is_exec: bool, data: Option<ExecDataView> },
    SyscallExit { result: i64 },
    Fork { child: i32 },
    Exit { status: i32 },
}

impl View for TableEvent {
    type V = TableEventView;

    open spec fn view(&self) -> TableEventView {
        match self {
            TableEvent::SyscallEntry { is_exec, data } => TableEventView::SyscallEntry {
                is_exec: *is_exec,
                data: match data {
                    Some(d) => Some(d@),
                    None => None,
                },
            },
            TableEvent::SyscallExit { result } => TableEventView::SyscallExit { result: *result },
            TableEvent::Fork { child } => TableEventView::Fork { child: *child },
            TableEvent::Exit { status } => TableEventView::Exit { status: *status },
        }
    }
}

/// What the engine must do after the table absorbed a notification.
#[derive(Debug, Clone, PartialEq, Eq)]
pub enum TableAction {
    /// Nothing to emit.
    Idle,
    /// An exec call completed: emit a completed-exec event with the buffered
    /// entry-time decode paired with the exit-time return value.
    EmitExec { data: ExecData, result: i64 },
    /// The process exited: emit a process-exit event.
    EmitExit { status: i32 },
}

/// Mathematical model of a `TableAction`.
pub enum TableActionView {
    Idle,
    EmitExec { data: ExecDataView, result: i64 },
    EmitExit { status: i32 },
}

impl View for TableAction {
    type V = TableActionView;

    open spec fn view(&self) -> TableActionView {
        match self {
            TableAction::Idle => TableActionView::Idle,
            TableAction::EmitExec { data, result } => TableActionView::EmitExec {
                data: data@,
                result: *result,
            },
            TableAction::EmitExit { status } => TableActionView::EmitExit { status: *status },
        }
    }
}

/// One entry of the table: the tracking state of a live process.
#[derive(Debug, Clone)]
pub struct ProcessState {
    /// OS process identifier. Reused by the kernel after exit, so it must not
    /// be trusted across a reap boundary: see `gen`.
    pub pid: i32,
    /// Table-wide monotonic generation number, so that an exited process is
    /// never conflated with a later, unrelated process reusing its pid.
    pub gen: u64,
    /// Short process name, inherited from the parent at fork and refreshed on
    /// every successful exec.
    pub comm: Vec<u8>,
    /// Lifecycle stage.
    pub stage: Lifecycle,
    /// Whether the process is currently inside a syscall (between an entry
    /// stop and the matching exit stop).
    pub in_syscall: bool,
    /// Decoded exec payload, present only between a successful exec-entry
    /// decode and the matching syscall-exit.
    pub exec_data: Option<ExecData>,
}

/// Mathematical model of a `ProcessState`.
pub struct ProcessStateView {
    pub pid: i32,
    pub gen: u64,
    pub comm: Seq<u8>,
    pub stage: Lifecycle,
    pub in_syscall: bool,
    pub exec_data: Option<ExecDataView>,
}

impl View for ProcessState {
    type V = ProcessStateView;

    open spec fn view(&self) -> ProcessStateView {
        ProcessStateView {
            pid: self.pid,
            gen: self.gen,
            comm: self.comm@,
            stage: self.stage,
            in_syscall: self.in_syscall,
            exec_data: match self.exec_data {
                Some(ref d) => Some(d@),
                None => None,
            },
        }
    }
}

/// Mathematical model of the whole table.
pub struct TableModel {
    pub procs: Seq<ProcessStateView>,
    pub next_gen: u64,
}

/// Whether some entry tracks `pid`.
pub open spec fn model_has_pid(procs: Seq<ProcessStateView>, pid: i32) -> bool {
    exists|i: int| 0 <= i < procs.len() && procs[i].pid == pid
}

/// The index of the entry tracking `pid` (meaningful under `model_wf`, which
/// makes it unique).
pub open spec fn model_idx(procs: Seq<ProcessStateView>, pid: i32) -> int {
    choose|i: int| 0 <= i < procs.len() && procs[i].pid == pid
}

/// Table well-formedness: exactly one entry per tracked pid, generations
/// distinct and below the counter, and the decoded exec payload present
/// exactly while the entry sits between exec entry and exec exit.
pub open spec fn model_wf(m: TableModel) -> bool {
    &&& forall|i: int, j: int|
        0 <= i < m.procs.len() && 0 <= j < m.procs.len() && i != j ==> #[trigger] m.procs[i].pid
            != #[trigger] m.procs[j].pid
    &&& forall|i: int, j: int|
        0 <= i < m.procs.len() && 0 <= j < m.procs.len() && i != j ==> #[trigger] m.procs[i].gen
            != #[trigger] m.procs[j].gen
    &&& forall|i: int| 0 <= i < m.procs.len() ==> #[trigger] m.procs[i].gen < m.next_gen
    &&& forall|i: int|
        0 <= i < m.procs.len() ==> (#[trigger] m.procs[i].exec_data is Some <==> m.procs[i].stage
            == Lifecycle::SyscallEntered)
}

/// A fresh entry, as created at a fork notification or a first sighting.
pub open spec fn fresh_entry(pid: i32, gen: u64, comm: Seq<u8>) -> ProcessStateView {
    ProcessStateView {
        pid: pid,
        gen: gen,
        comm: comm,
        stage: Lifecycle::SpawnedNotExeced,
        in_syscall: false,
        exec_data: None,
    }
}

/// Position of the last `/` in `s` (meaningful only when one exists, which
/// makes it unique).
pub open spec fn last_slash(s: Seq<u8>) -> int {
    choose|k: int| 0 <= k < s.len() && s[k] == 47u8 && (forall|j: int|
        k < j < s.len() ==> s[j] != 47u8)
}

/// Whether `s` holds a `/` byte.
pub open spec fn has_slash(s: Seq<u8>) -> bool {
    exists|k: int| 0 <= k < s.len() && s[k] == 47u8
}

/// The short process name taken from an executable path: everything after
/// the last `/`, or the whole path when it has none.
pub open spec fn spec_basename(s: Seq<u8>) -> Seq<u8> {
    if has_slash(s) {
        s.subrange(last_slash(s) + 1, s.len() as int)
    } else {
        s
    }
}

/// The lifecycle state machine, over the whole table: the model after a
/// notification for `pid` of kind `e`, paired with the action owed to the
/// engine.
///
/// - A fork creates a fresh entry for the child, inheriting the parent's
///   `comm`; a first sighting of `pid` by any stop likewise creates one.
/// - A syscall-entry for an exec-family call moves the entry to
///   `SyscallEntered` (also from `AwaitingExit`: a re-exec) and buffers the
///   decoded arguments; any other syscall-entry leaves the stage unchanged.
/// - A syscall-exit while `SyscallEntered` hands the buffered decode out as
///   a completed-exec action, clears it, refreshes `comm` on success, and
///   moves to `AwaitingExit`.
/// - An exit notification removes the entry, from any stage.
pub open spec fn table_step(m: TableModel, pid: i32, e: TableEventView) -> (TableModel,
    TableActionView) {
    match e {
        TableEventView::Fork { child } => {
            let comm = if model_has_pid(m.procs, pid) {
                m.procs[model_idx(m.procs, pid)].comm
            } else {
                Seq::empty()
            };
            let cleared = if model_has_pid(m.procs, child) {
                m.procs.remove(model_idx(m.procs, child))
            } else {
                m.procs
            };
            (
                TableModel {
                    procs: cleared.push(fresh_entry(child, m.next_gen, comm)),
                    next_gen: (m.next_gen + 1) as u64,
                },
                TableActionView::Idle,
            )
        },
        TableEventView::Exit { status } => {
            let procs = if model_has_pid(m.procs, pid) {
                m.procs.remove(model_idx(m.procs, pid))
            } else {
                m.procs
            };
            (
                TableModel { procs: procs, next_gen: m.next_gen },
                TableActionView::EmitExit { status },
            )
        },
        _ => {
            let (procs, next_gen) = if model_has_pid(m.procs, pid) {
                (m.procs, m.next_gen)
            } else {
                (
                    m.procs.push(fresh_entry(pid, m.next_gen, Seq::empty())),
                    (m.next_gen + 1) as u64,
                )
            };
            let i = model_idx(procs, pid);
            let p = procs[i];
            match e {
                TableEventView::SyscallEntry { is_exec, data } => {
                    let p2 = if is_exec {
                        ProcessStateView {
                            stage: Lifecycle::SyscallEntered,
                            in_syscall: true,
                            exec_data: data,
                            ..p
                        }
                    } else {
                        ProcessStateView { in_syscall: true, ..p }
                    };
                    (
                        TableModel { procs: procs.update(i, p2), next_gen },
                        TableActionView::Idle,
                    )
                },
                TableEventView::SyscallExit { result } => {
                    if p.stage == Lifecycle::SyscallEntered {
                        let d = p.exec_data.unwrap();
                        let p2 = ProcessStateView {
                            stage: Lifecycle::AwaitingExit,
                            in_syscall: false,
                            exec_data: None,
                            comm: if result == 0 {
                                spec_basename(d.filename)
                            } else {
                                p.comm
                            },
                            ..p
                        };
                        (
                            TableModel { procs: procs.update(i, p2), next_gen },
                            TableActionView::EmitExec { data: d, result },
                        )
                    } else {
                        (
                            TableModel {
                                procs: procs.update(i, ProcessStateView { in_syscall: false, ..p }),
                                next_gen,
                            },
                            TableActionView::Idle,
                        )
                    }
                },
                _ => (TableModel { procs, next_gen }, TableActionView::Idle),
            }
        },
    }
}

/// The mapping from process id to per-process tracking state: the source of
/// truth for what each traced process is doing right now.
pub struct ProcessTable {
    entries: Vec<ProcessState>,
    next_gen: u64,
}

impl View for ProcessTable {
    type V = TableModel;

    closed spec fn view(&self) -> TableModel {
        TableModel {
            procs: self.entries@.map_values(|p: ProcessState| p@),
            next_gen: self.next_gen,
        }
    }
}

impl ProcessTable {
    /// Table well-formedness; established by `new` and preserved by
    /// `on_notification`.
    pub open spec fn wf(&self) -> bool {
        model_wf(self@)
    }

    /// Generation counter, for stating freshness of new entries.
    pub open spec fn gen_counter(&self) -> u64 {
        self@.next_gen
    }

    /// An empty table.
    pub fn new() -> (r: Self)
        ensures
            r.wf(),
            r@.procs.len() == 0,
            r@.next_gen == 0,
    {
        ProcessTable { entries: Vec::new(), next_gen: 0 }
    }

    /// Whether the generation counter can still grow: `on_notification`'s
    /// machine-limit precondition, testable by callers.
    pub fn has_gen_headroom(&self) -> (r: bool)
        ensures
            r == (self.gen_counter() < 0xffff_ffff_ffff_ffffu64),
    {
        self.next_gen < 0xffff_ffff_ffff_ffffu64
    }

    /// Number of live entries.
    pub fn len(&self) -> (r: usize)
        ensures
            r == self@.procs.len(),
    {
        self.entries.len()
    }

    /// The index of the entry tracking `pid`, if one does.
    fn find(&self, pid: i32) -> (r: Option<usize>)
        requires
            self.wf(),
        ensures
            match r {
                Some(i) => i < self@.procs.len() && self@.procs[i as int].pid == pid && i as int
                    == model_idx(self@.procs, pid),
                None => !model_has_pid(self@.procs, pid),
            },
    {
        let ghost procs = self@.procs;
        let mut i: usize = 0;
        while i < self.entries.len()
            invariant
                self.wf(),
                procs == self@.procs,
                0 <= i <= procs.len(),
                forall|k: int| 0 <= k < i ==> procs[k].pid != pid,
            decreases self.entries.len() - i,
        {
            if self.entries[i].pid == pid {
                proof {
                    lemma_idx_unique(procs, pid, i as int);
                }
                return Some(i);
            }
            i += 1;
        }
        None
    }

    /// Whether the entry for `pid` is currently inside a syscall; false when
    /// `pid` is not tracked. The engine uses this to tell a syscall-entry
    /// stop from a syscall-exit stop.
    pub fn in_syscall(&self, pid: i32) -> (r: bool)
        requires
            self.wf(),
        ensures
            r == (model_has_pid(self@.procs, pid) && self@.procs[model_idx(
                self@.procs,
                pid,
            )].in_syscall),
    {
        match self.find(pid) {
            Some(i) => self.entries[i].in_syscall,
            None => false,
        }
    }

    /// The lifecycle stage of `pid`'s entry, if tracked.
    pub fn stage_of(&self, pid: i32) -> (r: Option<Lifecycle>)
        requires
            self.wf(),
        ensures
            match r {
                Some(s) => model_has_pid(self@.procs, pid) && s == self@.procs[model_idx(
                    self@.procs,
                    pid,
                )].stage,
                None => !model_has_pid(self@.procs, pid),
            },
    {
        match self.find(pid) {
            Some(i) => Some(self.entries[i].stage),
            None => None,
        }
    }

    /// The short process name of `pid`'s entry, if tracked.
    pub fn comm_of(&self, pid: i32) -> (r: Option<Vec<u8>>)
        requires
            self.wf(),
        ensures
            match r {
                Some(c) => model_has_pid(self@.procs, pid) && c@ == self@.procs[model_idx(
                    self@.procs,
                    pid,
                )].comm,
                None => !model_has_pid(self@.procs, pid),
            },
    {
        match self.find(pid) {
            Some(i) => Some(clone_bytes(&self.entries[i].comm)),
            None => None,
        }
    }

    /// Creates an entry for `pid` if none exists (a first sighting), with the
    /// given `comm`. Returns the entry's index.
    fn ensure_entry(&mut self, pid: i32, comm: Vec<u8>) -> (r: usize)
        requires
            old(self).wf(),
            old(self).gen_counter() < 0xffff_ffff_ffff_ffffu64,
        ensures
            final(self).wf(),
            model_has_pid(final(self)@.procs, pid),
            r as int == model_idx(final(self)@.procs, pid),
            r < final(self)@.procs.len(),
            final(self)@.procs[r as int].pid == pid,
            if model_has_pid(old(self)@.procs, pid) {
                final(self)@ == old(self)@
            } else {
                final(self)@ == (TableModel {
                    procs: old(self)@.procs.push(fresh_entry(pid, old(self)@.next_gen, comm@)),
                    next_gen: (old(self)@.next_gen + 1) as u64,
                })
            },
    {
        let ghost procs0 = self@.procs;
        match self.find(pid) {
            Some(i) => i,
            None => {
                let i = self.entries.len();
                let gen = self.next_gen;
                self.entries.push(
                    ProcessState {
                        pid,
                        gen,
                        comm,
                        stage: Lifecycle::SpawnedNotExeced,
                        in_syscall: false,
                        exec_data: None,
                    },
                );
                self.next_gen = self.next_gen + 1;
                proof {
                    assert(self@.procs =~= procs0.push(
                        fresh_entry(pid, (self.next_gen - 1) as u64, self@.procs[i as int].comm),
                    ));
                    lemma_idx_unique(self@.procs, pid, i as int);
                }
                i
            },
        }
    }

    /// Advances `pid`'s entry for one kernel notification, exactly as the
    /// lifecycle state machine [`table_step`] says, and returns the action
    /// owed to the engine.
    pub fn on_notification(&mut self, pid: i32, event: TableEvent) -> (r: TableAction)
        requires
            old(self).wf(),
            old(self).gen_counter() < 0xffff_ffff_ffff_ffffu64,
            event matches TableEvent::SyscallEntry { is_exec, data } ==> (is_exec <==> data
                is Some),
        ensures
            final(self).wf(),
            (final(self)@, r@) == table_step(old(self)@, pid, event@),
    {
        proof {
            lemma_step_preserves_wf(old(self)@, pid, event@);
        }
        match event {
            TableEvent::Fork { child } => {
                let comm = match self.comm_of(pid) {
                    Some(c) => c,
                    None => Vec::new(),
                };
                // a live entry under the child's pid would now be stale; drop it
                match self.find(child) {
                    Some(i) => {
                        self.entries.remove(i);
                        proof {
                            assert(self@.procs =~= old(self)@.procs.remove(
                                model_idx(old(self)@.procs, child),
                            ));
                        }
                    },
                    None => (),
                }
                let gen = self.next_gen;
                let ghost before = self@.procs;
                self.entries.push(
                    ProcessState {
                        pid: child,
                        gen,
                        comm,
                        stage: Lifecycle::SpawnedNotExeced,
                        in_syscall: false,
                        exec_data: None,
                    },
                );
                self.next_gen = self.next_gen + 1;
                proof {
                    assert(self@.procs =~= before.push(
                        fresh_entry(child, old(self)@.next_gen, self@.procs.last().comm),
                    ));
                }
                TableAction::Idle
            },
            TableEvent::Exit { status } => {
                match self.find(pid) {
                    Some(i) => {
                        self.entries.remove(i);
                        proof {
                            assert(self@.procs =~= old(self)@.procs.remove(
                                model_idx(old(self)@.procs, pid),
                            ));
                        }
                    },
                    None => (),
                }
                TableAction::EmitExit { status }
            },
            TableEvent::SyscallEntry { is_exec, data } => {
                let i = self.ensure_entry(pid, Vec::new());
                let entry = &mut self.entries[i];
                entry.in_syscall = true;
                if is_exec {
                    entry.stage = Lifecycle::SyscallEntered;
                    entry.exec_data = data;
                }
                proof {
                    let (m2, _) = table_step(old(self)@, pid, event@);
                    assert(self@.procs =~= m2.procs);
                }
                TableAction::Idle
            },
            TableEvent::SyscallExit { result } => {
                let i = self.ensure_entry(pid, Vec::new());
                let entry = &mut self.entries[i];
                entry.in_syscall = false;
                if entry.stage == Lifecycle::SyscallEntered {
                    entry.stage = Lifecycle::AwaitingExit;
                    let data = match entry.exec_data.take() {
                        Some(d) => d,
                        None => {
                            // unreachable: wf couples the stage to a present payload
                            proof {
                                assert(false);
                            }
                            ExecData {
                                filename: Vec::new(),
                                argv: Vec::new(),
                                envp: Vec::new(),
                                complete: false,
                            }
                        },
                    };
                    if result == 0 {
                        entry.comm = basename(&data.filename);
                    }
                    proof {
                        let (m2, _) = table_step(old(self)@, pid, event@);
                        assert(self@.procs =~= m2.procs);
                    }
                    TableAction::EmitExec { data, result }
                } else {
                    proof {
                        let (m2, _) = table_step(old(self)@, pid, event@);
                        assert(self@.procs =~= m2.procs);
                    }
                    TableAction::Idle
                }
            },
        }
    }
}

/// Everything after the last `/` of a path, or the path itself when it has
/// none: the short process name an exec refreshes `comm` with.
pub fn basename(path: &Vec<u8>) -> (r: Vec<u8>)
    ensures
        r@ == spec_basename(path@),
{
    let mut start: usize = 0;
    let mut i: usize = 0;
    while i < path.len()
        invariant
            0 <= start <= i <= path.len(),
            start == 0 ==> forall|j: int| 0 <= j < i ==> path@[j] != 47u8,
            start > 0 ==> path@[start - 1] == 47u8 && (forall|j: int|
                start <= j < i ==> path@[j] != 47u8),
        decreases path.len() - i,
    {
        if path[i] == 47u8 {
            start = i + 1;
        }
        i += 1;
    }
    let mut r: Vec<u8> = Vec::new();
    let mut k: usize = start;
    while k < path.len()
        invariant
            start <= k <= path.len(),
            r@ == path@.subrange(start as int, k as int),
        decreases path.len() - k,
    {
        r.push(path[k]);
        proof {
            assert(r@ =~= path@.subrange(start as int, k + 1 as int));
        }
        k += 1;
    }
    proof {
        if start == 0 {
            if has_slash(path@) {
                let w = choose|j: int| 0 <= j < path@.len() && path@[j] == 47u8;
                assert(false);
            }
            assert(r@ =~= path@);
        } else {
            assert(has_slash(path@));
            lemma_last_slash_unique(path@, start - 1);
            assert(r@ =~= spec_basename(path@));
        }
    }
    r
}

/// With unique pids, `model_idx` picks exactly the index whose entry holds
/// `pid`.
pub proof fn lemma_idx_unique(procs: Seq<ProcessStateView>, pid: i32, i: int)
    requires
        forall|a: int, b: int|
            0 <= a < procs.len() && 0 <= b < procs.len() && a != b ==> #[trigger] procs[a].pid
                != #[trigger] procs[b].pid,
        0 <= i < procs.len(),
        procs[i].pid == pid,
    ensures
        model_idx(procs, pid) == i,
{
    let c = model_idx(procs, pid);
    assert(0 <= c < procs.len() && procs[c].pid == pid);
    if c != i {
        assert(procs[c].pid != procs[i].pid);
        assert(false);
    }
}

/// The position of the last `/` is unique, so `last_slash` picks the witness.
proof fn lemma_last_slash_unique(s: Seq<u8>, k: int)
    requires
        0 <= k < s.len(),
        s[k] == 47u8,
        forall|j: int| k < j < s.len() ==> s[j] != 47u8,
    ensures
        last_slash(s) == k,
{
    assert(has_slash(s));
    let c = last_slash(s);
    assert(0 <= c < s.len() && s[c] == 47u8 && (forall|j: int| c < j < s.len() ==> s[j] != 47u8));
    if c < k {
        assert(s[k] != 47u8);
        assert(false);
    }
    if k < c {
        assert(s[c] != 47u8);
        assert(false);
    }
}

/// The lifecycle stage of every tracked pid moves exactly along the state
/// machine's edges, and an event is owed to the engine only at the machine's
/// legal emission points: a completed-exec action exactly at a syscall-exit
/// taken in stage `SyscallEntered`, a process-exit action exactly at an exit
/// notification.
pub proof fn lemma_lifecycle_machine(m: TableModel, pid: i32, e: TableEventView)
    requires
        model_wf(m),
        m.next_gen < 0xffff_ffff_ffff_ffffu64,
        e matches TableEventView::SyscallEntry { is_exec, data } ==> (is_exec <==> data is Some),
    ensures
        ({
            let (m2, a) = table_step(m, pid, e);
            let was_tracked = model_has_pid(m.procs, pid);
            let s0 = if was_tracked {
                m.procs[model_idx(m.procs, pid)].stage
            } else {
                Lifecycle::SpawnedNotExeced
            };
            &&& (e matches TableEventView::SyscallEntry { is_exec: true, .. } ==> model_has_pid(
                m2.procs,
                pid,
            ) && m2.procs[model_idx(m2.procs, pid)].stage == Lifecycle::SyscallEntered
                && m2.procs[model_idx(m2.procs, pid)].exec_data == e->SyscallEntry_data)
            &&& (e matches TableEventView::SyscallEntry { is_exec: false, .. } ==> model_has_pid(
                m2.procs,
                pid,
            ) && m2.procs[model_idx(m2.procs, pid)].stage == s0)
            &&& (e is SyscallExit ==> model_has_pid(m2.procs, pid) && m2.procs[model_idx(
                m2.procs,
                pid,
            )].stage == (if s0 == Lifecycle::SyscallEntered {
                Lifecycle::AwaitingExit
            } else {
                s0
            }))
            &&& (e is Exit ==> !model_has_pid(m2.procs, pid))
            &&& (e matches TableEventView::Fork { child } ==> model_has_pid(m2.procs, child)
                && m2.procs[model_idx(m2.procs, child)].stage == Lifecycle::SpawnedNotExeced
                && m2.procs[model_idx(m2.procs, child)].exec_data is None)
            &&& (a is EmitExec <==> e is SyscallExit && was_tracked && s0 == Lifecycle::SyscallEntered)
            &&& (e is SyscallExit && was_tracked && s0 == Lifecycle::SyscallEntered ==> a
                == TableActionView::EmitExec {
                data: m.procs[model_idx(m.procs, pid)].exec_data.unwrap(),
                result: e->SyscallExit_result,
            })
            &&& (a is EmitExit <==> e is Exit)
        }),
{
    lemma_step_preserves_wf(m, pid, e);
    let (m2, a) = table_step(m, pid, e);
    match e {
        TableEventView::Fork { child } => {
            assert(m2.procs[m2.procs.len() - 1].pid == child);
            lemma_idx_unique(m2.procs, child, m2.procs.len() - 1);
        },
        TableEventView::Exit { .. } => {
            if model_has_pid(m.procs, pid) {
                let ci = model_idx(m.procs, pid);
                assert(0 <= ci < m.procs.len() && m.procs[ci].pid == pid);
                if model_has_pid(m2.procs, pid) {
                    let k = model_idx(m2.procs, pid);
                    assert(0 <= k < m2.procs.len() && m2.procs[k].pid == pid);
                    // the removed sequence draws its entries from distinct old indices
                    let orig = if k < ci {
                        k
                    } else {
                        k + 1
                    };
                    assert(m.procs[orig] == m2.procs[k]);
                    assert(orig != ci);
                    assert(false);
                }
            }
        },
        _ => {
            let procs1 = if model_has_pid(m.procs, pid) {
                m.procs
            } else {
                m.procs.push(fresh_entry(pid, m.next_gen, Seq::empty()))
            };
            if !model_has_pid(m.procs, pid) {
                assert(procs1[procs1.len() - 1].pid == pid);
                assert(forall|a0: int, b: int|
                    0 <= a0 < procs1.len() && 0 <= b < procs1.len() && a0 != b
                        ==> #[trigger] procs1[a0].pid != #[trigger] procs1[b].pid);
                lemma_idx_unique(procs1, pid, procs1.len() - 1);
            }
            let i = model_idx(procs1, pid);
            assert(0 <= i < procs1.len() && procs1[i].pid == pid);
            assert(forall|a0: int, b: int|
                0 <= a0 < procs1.len() && 0 <= b < procs1.len() && a0 != b
                    ==> #[trigger] procs1[a0].pid != #[trigger] procs1[b].pid);
            assert(m2.procs[i].pid == pid);
            assert(forall|a0: int, b: int|
                0 <= a0 < m2.procs.len() && 0 <= b < m2.procs.len() && a0 != b
                    ==> #[trigger] m2.procs[a0].pid != #[trigger] m2.procs[b].pid);
            lemma_idx_unique(m2.procs, pid, i);
        },
    }
}

/// Re-exec: a process that execs twice yields two distinct completed-exec
/// actions, each carrying that call's own decoded payload and return value.
pub proof fn lemma_re_exec(
    m0: TableModel,
    pid: i32,
    d1: ExecDataView,
    r1: i64,
    d2: ExecDataView,
    r2: i64,
)
    requires
        model_wf(m0),
        m0.next_gen + 1 < 0xffff_ffff_ffff_ffffu64,
    ensures
        ({
            let (m1, a1) = table_step(
                m0,
                pid,
                TableEventView::SyscallEntry { is_exec: true, data: Some(d1) },
            );
            let (m2, a2) = table_step(m1, pid, TableEventView::SyscallExit { result: r1 });
            let (m3, a3) = table_step(
                m2,
                pid,
                TableEventView::SyscallEntry { is_exec: true, data: Some(d2) },
            );
            let (m4, a4) = table_step(m3, pid, TableEventView::SyscallExit { result: r2 });
            &&& a2 == TableActionView::EmitExec { data: d1, result: r1 }
            &&& a4 == TableActionView::EmitExec { data: d2, result: r2 }
        }),
{
    let e1 = TableEventView::SyscallEntry { is_exec: true, data: Some(d1) };
    let x1 = TableEventView::SyscallExit { result: r1 };
    let e2 = TableEventView::SyscallEntry { is_exec: true, data: Some(d2) };
    let x2 = TableEventView::SyscallExit { result: r2 };
    lemma_step_preserves_wf(m0, pid, e1);
    let (m1, a1) = table_step(m0, pid, e1);
    lemma_lifecycle_machine(m0, pid, e1);
    let i1 = model_idx(m1.procs, pid);
    assert(m1.procs[i1].exec_data == Some(d1));
    lemma_step_preserves_wf(m1, pid, x1);
    let (m2, a2) = table_step(m1, pid, x1);
    lemma_lifecycle_machine(m1, pid, x1);
    lemma_step_preserves_wf(m2, pid, e2);
    let (m3, a3) = table_step(m2, pid, e2);
    lemma_lifecycle_machine(m2, pid, e2);
    let i3 = model_idx(m3.procs, pid);
    assert(m3.procs[i3].exec_data == Some(d2));
    lemma_step_preserves_wf(m3, pid, x2);
    lemma_lifecycle_machine(m3, pid, x2);
}

/// Concurrent forks: two children forked in succession get independent,
/// non-colliding entries — distinct generations and each its own fresh
/// state — even when the second child reuses the first one's pid after it
/// exited.
pub proof fn lemma_fork_entries_independent(m0: TableModel, parent: i32, c1: i32, c2: i32)
    requires
        model_wf(m0),
        m0.next_gen + 1 < 0xffff_ffff_ffff_ffffu64,
        c1 != c2,
    ensures
        ({
            let (m1, _) = table_step(m0, parent, TableEventView::Fork { child: c1 });
            let (m2, _) = table_step(m1, parent, TableEventView::Fork { child: c2 });
            &&& model_has_pid(m2.procs, c1)
            &&& model_has_pid(m2.procs, c2)
            &&& model_idx(m2.procs, c1) != model_idx(m2.procs, c2)
            &&& m2.procs[model_idx(m2.procs, c1)].gen != m2.procs[model_idx(m2.procs, c2)].gen
        }),
{
    let f1 = TableEventView::Fork { child: c1 };
    let f2 = TableEventView::Fork { child: c2 };
    lemma_step_preserves_wf(m0, parent, f1);
    let (m1, _) = table_step(m0, parent, f1);
    lemma_lifecycle_machine(m0, parent, f1);
    lemma_step_preserves_wf(m1, parent, f2);
    let (m2, _) = table_step(m1, parent, f2);
    lemma_lifecycle_machine(m1, parent, f2);
    let j1 = model_idx(m1.procs, c1);
    assert(m1.procs[j1].pid == c1);
    assert(m2.procs[m2.procs.len() - 1].pid == c2);
    lemma_idx_unique(m2.procs, c2, m2.procs.len() - 1);
    // c1's entry survives the second fork: c2 != c1, so no removal touches it
    assert(model_has_pid(m2.procs, c1)) by {
        if model_has_pid(m1.procs, c2) {
            let ci = model_idx(m1.procs, c2);
            assert(0 <= ci < m1.procs.len() && m1.procs[ci].pid == c2);
            let cleared = m1.procs.remove(ci);
            let orig = if j1 < ci {
                j1
            } else {
                j1 - 1
            };
            assert(ci != j1);
            if j1 < ci {
                assert(cleared[j1] == m1.procs[j1]);
                assert(m2.procs[j1].pid == c1);
            } else {
                assert(cleared[j1 - 1] == m1.procs[j1]);
                assert(m2.procs[j1 - 1].pid == c1);
            }
        } else {
            assert(m2.procs[j1].pid == c1);
        }
    }
    let k1 = model_idx(m2.procs, c1);
    assert(0 <= k1 < m2.procs.len() && m2.procs[k1].pid == c1);
    let k2 = model_idx(m2.procs, c2);
    assert(m2.procs[k2].pid == c2);
    assert(k1 != k2);
}

/// Pid reuse across a reap boundary: fork a child, see it exit, then see a
/// new child under the same pid. The new entry carries a strictly newer
/// generation than the old one did and starts in a fresh state, so the two
/// processes are never conflated.
pub proof fn lemma_pid_reuse_fresh(m0: TableModel, parent: i32, c: i32, status: i32)
    requires
        model_wf(m0),
        m0.next_gen + 1 < 0xffff_ffff_ffff_ffffu64,
    ensures
        ({
            let (m1, _) = table_step(m0, parent, TableEventView::Fork { child: c });
            let (m2, _) = table_step(m1, c, TableEventView::Exit { status });
            let (m3, _) = table_step(m2, parent, TableEventView::Fork { child: c });
            let g_old = m1.procs[model_idx(m1.procs, c)].gen;
            let fresh = m3.procs[model_idx(m3.procs, c)];
            &&& model_has_pid(m3.procs, c)
            &&& fresh.gen != g_old
            &&& fresh.gen > g_old
            &&& fresh.stage == Lifecycle::SpawnedNotExeced
            &&& fresh.exec_data is None
        }),
{
    let f = TableEventView::Fork { child: c };
    lemma_step_preserves_wf(m0, parent, f);
    let (m1, _) = table_step(m0, parent, f);
    lemma_lifecycle_machine(m0, parent, f);
    assert(m1.procs[m1.procs.len() - 1].pid == c);
    lemma_idx_unique(m1.procs, c, m1.procs.len() - 1);
    assert(m1.procs[model_idx(m1.procs, c)].gen == m0.next_gen);
    lemma_step_preserves_wf(m1, c, TableEventView::Exit { status });
    let (m2, _) = table_step(m1, c, TableEventView::Exit { status });
    lemma_step_preserves_wf(m2, parent, f);
    let (m3, _) = table_step(m2, parent, f);
    assert(m3.procs[m3.procs.len() - 1].pid == c);
    lemma_idx_unique(m3.procs, c, m3.procs.len() - 1);
    assert(m3.procs[model_idx(m3.procs, c)].gen == m2.next_gen);
    assert(m2.next_gen == m1.next_gen);
    assert(m1.next_gen == m0.next_gen + 1);
}

/// The lifecycle state machine preserves table well-formedness.
pub proof fn lemma_step_preserves_wf(m: TableModel, pid: i32, e: TableEventView)
    requires
        model_wf(m),
        m.next_gen < 0xffff_ffff_ffff_ffffu64,
        e matches TableEventView::SyscallEntry { is_exec, data } ==> (is_exec <==> data is Some),
    ensures
        model_wf(table_step(m, pid, e).0),
{
    let (m2, _) = table_step(m, pid, e);
    match e {
        TableEventView::Fork { child } => {
            if model_has_pid(m.procs, child) {
                let ci = model_idx(m.procs, child);
                assert(0 <= ci < m.procs.len() && m.procs[ci].pid == child);
            }
        },
        TableEventView::Exit { .. } => {
            if model_has_pid(m.procs, pid) {
                let ci = model_idx(m.procs, pid);
                assert(0 <= ci < m.procs.len() && m.procs[ci].pid == pid);
            }
        },
        _ => {
            if !model_has_pid(m.procs, pid) {
                let procs1 = m.procs.push(fresh_entry(pid, m.next_gen, Seq::empty()));
                assert(procs1[procs1.len() - 1].pid == pid);
                assert(model_has_pid(procs1, pid));
            }
        },
    }
}

} // verus!
