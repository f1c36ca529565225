//! A syscall tracing engine: it follows a dynamically forking and exec'ing
//! process tree, decodes the filename, argument vector and environment of
//! every exec-family call from the traced process's address space, and
//! streams structured events to consumers.
//!
//! The tracer's decision logic — the per-process lifecycle state machine,
//! the remote-memory argument decoder, the seccomp fast-path filter
//! programs, and the environment diffing — is verified. The kernel-facing
//! calls (process memory transfer, resume, signalling, the event channel)
//! are thin trusted wrappers around `nix` and `tokio`.

pub mod arch;
pub mod decode;
pub mod envdiff;
pub mod errors;
pub mod event;
pub mod kernel;
pub mod memory;
pub mod printer;
pub mod state;
pub mod tracer;
pub mod ui;
