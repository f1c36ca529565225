//! Error taxonomy. Anything that prevents establishing or maintaining the
//! tracing session is fatal and surfaces to the caller; anything scoped to a
//! single process or a single event is absorbed and reflected as a degraded
//! event payload.

use vstd::prelude::*;

verus! {

/// A fatal failure of the tracing session. Carried errno values are raw OS
/// codes as the kernel-facing calls returned them.
#[derive(Clone, Copy, Debug, PartialEq, Eq, Structural)]
pub enum TraceError {
    /// Attaching to the target failed (fatal, surfaced at start).
    Attach(i32),
    /// Spawning the root child failed (fatal, surfaced at start).
    Spawn(i32),
    /// The target instruction-set architecture has no fast-path filter:
    /// a hard startup failure, never a silent no-op.
    UnsupportedArchitecture,
}

impl TraceError {
    /// A short description, for the unverified shell to print.
    pub fn describe(&self) -> (r: &'static str)
        ensures
            r@ == (match self {
                TraceError::Attach(_) => "failed to attach to the root process"@,
                TraceError::Spawn(_) => "failed to spawn the root process"@,
                TraceError::UnsupportedArchitecture => "unsupported architecture for syscall filtering"@,
            }),
    {
        match self {
            TraceError::Attach(_) => "failed to attach to the root process",
            TraceError::Spawn(_) => "failed to spawn the root process",
            TraceError::UnsupportedArchitecture => "unsupported architecture for syscall filtering",
        }
    }
}

} // verus!
