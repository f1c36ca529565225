//! Event types emitted by the tracer engine, and the decoded payload of a
//! single exec call.

use vstd::prelude::*;

verus! {

/// Immutable snapshot of a single exec-family call: the executable path as
/// passed to the syscall (not resolved), the argument vector and the raw
/// `KEY=VALUE` environment entries, in decode order. `complete` is false
/// when any part of the decode was cut short by a read failure or by the
/// configured maximum count; the fields then hold whatever was decoded
/// before the cut.
#[derive(Debug, Clone, PartialEq, Eq)]
pub struct ExecData {
    pub filename: Vec<u8>,
    pub argv: Vec<Vec<u8>>,
    pub envp: Vec<Vec<u8>>,
    pub complete: bool,
}

/// The views of a sequence of byte strings.
pub open spec fn bytes_views(s: Seq<Vec<u8>>) -> Seq<Seq<u8>> {
    s.map_values(|a: Vec<u8>| a@)
}

/// Mathematical model of an `ExecData`.
pub struct ExecDataView {
    pub filename: Seq<u8>,
    pub argv: Seq<Seq<u8>>,
    pub envp: Seq<Seq<u8>>,
    pub complete: bool,
}

impl View for ExecData {
    type V = ExecDataView;

    open spec fn view(&self) -> ExecDataView {
        ExecDataView {
            filename: self.filename@,
            argv: bytes_views(self.argv@),
            envp: bytes_views(self.envp@),
            complete: self.complete,
        }
    }
}

/// The sum type carried on the event channel from the tracer engine to its
/// consumers. A session's stream ends with exactly one `RootChildExit`.
#[derive(Debug, Clone, PartialEq, Eq)]
pub enum TracerEvent {
    /// The root child was spawned; carries the root pid.
    RootChildSpawn { pid: i32 },
    /// An exec call completed; carries the decoded payload and the
    /// syscall's return value (0 on success, a negated errno otherwise).
    ExecCompleted { pid: i32, data: ExecData, result: i64 },
    /// A traced process exited; carries its wait status.
    ProcessExit { pid: i32, status: i32 },
    /// The root process exited: the terminal event of a session.
    RootChildExit { exit_code: i32 },
}

/// Mathematical model of a `TracerEvent`.
pub enum TracerEventView {
    RootChildSpawn { pid: i32 },
    ExecCompleted { pid: i32, data: ExecDataView, result: i64 },
    ProcessExit { pid: i32, status: i32 },
    RootChildExit { exit_code: i32 },
}

impl View for TracerEvent {
    type V = TracerEventView;

    open spec fn view(&self) -> TracerEventView {
        match self {
            TracerEvent::RootChildSpawn { pid } => TracerEventView::RootChildSpawn { pid: *pid },
            TracerEvent::ExecCompleted { pid, data, result } => TracerEventView::ExecCompleted {
                pid: *pid,
                data: data@,
                result: *result,
            },
            TracerEvent::ProcessExit { pid, status } => TracerEventView::ProcessExit {
                pid: *pid,
                status: *status,
            },
            TracerEvent::RootChildExit { exit_code } => TracerEventView::RootChildExit {
                exit_code: *exit_code,
            },
        }
    }
}

/// Clones a byte string.
pub fn clone_bytes(v: &Vec<u8>) -> (r: Vec<u8>)
    ensures
        r@ == v@,
{
    let mut r: Vec<u8> = Vec::new();
    let mut i: usize = 0;
    while i < v.len()
        invariant
            0 <= i <= v.len(),
            r@ == v@.subrange(0, i as int),
        decreases v.len() - i,
    {
        r.push(v[i]);
        proof {
            assert(r@ =~= v@.subrange(0, i + 1 as int));
        }
        i += 1;
    }
    proof {
        assert(r@ =~= v@);
    }
    r
}

/// Compares two byte strings for equality.
pub fn bytes_eq(a: &Vec<u8>, b: &Vec<u8>) -> (r: bool)
    ensures
        r == (a@ == b@),
{
    if a.len() != b.len() {
        assert(a@.len() != b@.len());
        return false;
    }
    let mut i: usize = 0;
    while i < a.len()
        invariant
            0 <= i <= a.len(),
            a@.len() == b@.len(),
            forall|k: int| 0 <= k < i ==> a@[k] == b@[k],
        decreases a.len() - i,
    {
        if a[i] != b[i] {
            return false;
        }
        i += 1;
    }
    proof {
        assert(a@ =~= b@);
    }
    true
}

} // verus!
