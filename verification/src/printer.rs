//! The line printer's decision core: which parts of a completed exec event
//! are reported, and with what content. The unverified shell renders the
//! report (colors, quoting, errno names) and writes it out.

use vstd::prelude::*;

use crate::envdiff::{
    contains_key, diff_env, lookup, pairs_views, traced_lookup, BaselineInfo, EnvDiff,
};
use crate::event::{bytes_views, clone_bytes};
use crate::state::ProcessState;

verus! {

/// The command-line tracing toggles, as the unverified shell parsed them.
#[derive(Clone, Copy, Debug, PartialEq, Eq, Structural)]
pub struct TracingArgs {
    pub no_trace_comm: bool,
    pub no_trace_argv: bool,
    pub trace_env: bool,
    pub no_diff_env: bool,
    pub no_trace_filename: bool,
    pub no_decode_errno: bool,
}

/// What the printer reports, derived from the toggles: the full environment
/// wins over the diff when both are requested.
#[derive(Clone, Copy, Debug, PartialEq, Eq, Structural)]
pub struct PrinterArgs {
    pub trace_comm: bool,
    pub trace_argv: bool,
    pub trace_env: bool,
    pub diff_env: bool,
    pub trace_filename: bool,
    pub decode_errno: bool,
}

impl PrinterArgs {
    /// Derives the report selection from the command-line toggles.
    pub fn from_cli(args: &TracingArgs) -> (r: PrinterArgs)
        ensures
            r.trace_comm == !args.no_trace_comm,
            r.trace_argv == !args.no_trace_argv,
            r.trace_env == args.trace_env,
            r.diff_env == (!args.no_diff_env && !args.trace_env),
            r.trace_filename == !args.no_trace_filename,
            r.decode_errno == !args.no_decode_errno,
    {
        PrinterArgs {
            trace_comm: !args.no_trace_comm,
            trace_argv: !args.no_trace_argv,
            trace_env: args.trace_env,
            diff_env: !args.no_diff_env && !args.trace_env,
            trace_filename: !args.no_trace_filename,
            decode_errno: !args.no_decode_errno,
        }
    }
}

/// How the environment appears in a report.
#[derive(Debug, Clone, PartialEq, Eq)]
pub enum EnvReport {
    /// Not reported.
    Omitted,
    /// The diff against the baseline.
    Diff(EnvDiff),
    /// The raw entries, verbatim.
    Full(Vec<Vec<u8>>),
}

/// One reported exec event: each field present exactly when its toggle asks
/// for it. `decode_complete` carries the decode-failure marker through to
/// the user: false means the filename, argv or envp below is a partial
/// result, cut short by a read failure or by the configured maximum count.
/// The shell renders and writes this.
#[derive(Debug, Clone, PartialEq, Eq)]
pub struct TraceReport {
    pub pid: i32,
    pub comm: Option<Vec<u8>>,
    pub filename: Option<Vec<u8>>,
    pub argv: Option<Vec<Vec<u8>>>,
    pub env: EnvReport,
    pub result: i64,
    pub decode_errno: bool,
    pub decode_complete: bool,
}

/// Clones a sequence of byte strings.
fn clone_bytes_vec(v: &Vec<Vec<u8>>) -> (r: Vec<Vec<u8>>)
    ensures
        bytes_views(r@) == bytes_views(v@),
{
    let mut r: Vec<Vec<u8>> = Vec::new();
    let mut i: usize = 0;
    while i < v.len()
        invariant
            0 <= i <= v@.len(),
            r@.len() == i,
            forall|k: int| 0 <= k < i ==> (#[trigger] r@[k])@ == v@[k]@,
        decreases v.len() - i,
    {
        r.push(clone_bytes(&v[i]));
        i += 1;
    }
    proof {
        assert(bytes_views(r@) =~= bytes_views(v@));
    }
    r
}

/// Builds the report of one completed exec call: the traced process's pid
/// always; its comm, the filename and argv when their toggles ask; the
/// environment in full, as a diff against the baseline, or not at all; the
/// syscall's return value with the errno-decoding choice; and the decode's
/// own failure marker, always, so a degraded payload stays user-visible.
///
/// The call is owed only at an exec syscall-exit, when the entry-time decode
/// is still buffered.
pub fn print_execve_trace(
    state: &ProcessState,
    result: i64,
    args: &TracingArgs,
    baseline: &BaselineInfo,
) -> (r: TraceReport)
    requires
        state.exec_data is Some,
        baseline.wf(),
    ensures
        r.pid == state.pid,
        r.comm matches Some(c) ==> !args.no_trace_comm && c@ == state.comm@,
        r.comm is None <==> args.no_trace_comm,
        r.filename matches Some(f) ==> !args.no_trace_filename && f@ == state.exec_data.unwrap()
            .filename@,
        r.filename is None <==> args.no_trace_filename,
        r.argv matches Some(a) ==> !args.no_trace_argv && bytes_views(a@) == bytes_views(
            state.exec_data.unwrap().argv@,
        ),
        r.argv is None <==> args.no_trace_argv,
        args.trace_env ==> (r.env matches EnvReport::Full(e) && bytes_views(e@) == bytes_views(
            state.exec_data.unwrap().envp@,
        )),
        !args.trace_env && !args.no_diff_env ==> (r.env matches EnvReport::Diff(d) && {
            let base = baseline@;
            let tr = bytes_views(state.exec_data.unwrap().envp@);
            &&& forall|k: Seq<u8>| #[trigger] lookup(pairs_views(d.added@), k) == (match
                traced_lookup(tr, k) {
                Some(v) => if lookup(base, k) is None {
                    Some(v)
                } else {
                    Option::None
                },
                Option::None => Option::None,
            })
            &&& forall|k: Seq<u8>| #[trigger] lookup(pairs_views(d.modified@), k) == (match (
                traced_lookup(tr, k),
                lookup(base, k),
            ) {
                (Some(v), Some(b)) => if v != b {
                    Some(v)
                } else {
                    Option::None
                },
                _ => Option::None,
            })
            &&& forall|k: Seq<u8>|
                #[trigger] contains_key(bytes_views(d.unchanged@), k) <==> (traced_lookup(tr, k)
                    is Some && lookup(base, k) == traced_lookup(tr, k))
            &&& forall|k: Seq<u8>| #[trigger] lookup(pairs_views(d.removed@), k) == (match lookup(
                base,
                k,
            ) {
                Some(b) => if traced_lookup(tr, k) is None {
                    Some(b)
                } else {
                    Option::None
                },
                Option::None => Option::None,
            })
        }),
        !args.trace_env && args.no_diff_env ==> r.env is Omitted,
        r.result == result,
        r.decode_errno == !args.no_decode_errno,
        r.decode_complete == state.exec_data.unwrap().complete,
{
    let pargs = PrinterArgs::from_cli(args);
    let exec_data = match &state.exec_data {
        Some(d) => d,
        None => {
            // unreachable: the caller owes a buffered decode
            proof {
                assert(false);
            }
            return TraceReport {
                pid: state.pid,
                comm: None,
                filename: None,
                argv: None,
                env: EnvReport::Omitted,
                result,
                decode_errno: pargs.decode_errno,
                decode_complete: false,
            };
        },
    };
    let comm = if pargs.trace_comm {
        Some(clone_bytes(&state.comm))
    } else {
        None
    };
    let filename = if pargs.trace_filename {
        Some(clone_bytes(&exec_data.filename))
    } else {
        None
    };
    let argv = if pargs.trace_argv {
        Some(clone_bytes_vec(&exec_data.argv))
    } else {
        None
    };
    let env = if pargs.trace_env {
        EnvReport::Full(clone_bytes_vec(&exec_data.envp))
    } else if pargs.diff_env {
        EnvReport::Diff(diff_env(baseline, &exec_data.envp))
    } else {
        EnvReport::Omitted
    };
    TraceReport {
        pid: state.pid,
        comm,
        filename,
        argv,
        env,
        result,
        decode_errno: pargs.decode_errno,
        decode_complete: exec_data.complete,
    }
}

} // verus!
