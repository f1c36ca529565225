//! The fast-path syscall filter: a capability lookup keyed by the target
//! instruction-set architecture, returning a classic BPF program that traps
//! only the exec-family syscalls and lets every other syscall run natively.
//! An unknown architecture fails closed at setup, not at runtime.
//!
//! The filter checks the audit architecture word first and traps (rather
//! than allows) on a mismatch, so a process that switched instruction sets
//! is never silently left untraced.

use vstd::prelude::*;

use crate::errors::TraceError;

verus! {

/// Classic BPF: load a 32-bit word at an absolute offset.
pub const BPF_LD_W_ABS: u16 = 0x20;

/// Classic BPF: jump if the accumulator equals the constant.
pub const BPF_JMP_JEQ_K: u16 = 0x15;

/// Classic BPF: return the constant.
pub const BPF_RET_K: u16 = 0x06;

/// Seccomp action: let the syscall proceed.
pub const SECCOMP_RET_ALLOW: u32 = 0x7fff_0000;

/// Seccomp action: notify the tracer with a trace-stop.
pub const SECCOMP_RET_TRACE: u32 = 0x7ff0_0000;

/// Offset of the syscall number in `seccomp_data`.
pub const SECCOMP_DATA_NR: u32 = 0;

/// Offset of the audit architecture word in `seccomp_data`.
pub const SECCOMP_DATA_ARCH: u32 = 4;

/// The instruction-set architectures the filter supports.
#[derive(Clone, Copy, Debug, PartialEq, Eq, Structural)]
pub enum Arch {
    X86_64,
    Aarch64,
    RiscV64,
}

/// One classic BPF instruction.
#[derive(Clone, Copy, Debug, PartialEq, Eq, Structural)]
pub struct SockFilter {
    pub code: u16,
    pub jt: u8,
    pub jf: u8,
    pub k: u32,
}

/// The audit architecture word the kernel reports for each architecture.
pub open spec fn spec_audit_arch(a: Arch) -> u32 {
    match a {
        Arch::X86_64 => 0xc000_003e,
        Arch::Aarch64 => 0xc000_00b7,
        Arch::RiscV64 => 0xc000_00f3,
    }
}

/// The two exec-family syscall numbers (execve, execveat) per architecture.
pub open spec fn spec_exec_syscalls(a: Arch) -> (u64, u64) {
    match a {
        Arch::X86_64 => (59, 322),
        Arch::Aarch64 => (221, 281),
        Arch::RiscV64 => (221, 281),
    }
}

/// The audit architecture word, as `spec_audit_arch` says.
pub fn audit_arch(a: Arch) -> (r: u32)
    ensures
        r == spec_audit_arch(a),
{
    match a {
        Arch::X86_64 => 0xc000_003e,
        Arch::Aarch64 => 0xc000_00b7,
        Arch::RiscV64 => 0xc000_00f3,
    }
}

/// The two exec-family syscall numbers, as `spec_exec_syscalls` says.
pub fn exec_syscalls(a: Arch) -> (r: (u64, u64))
    ensures
        r == spec_exec_syscalls(a),
{
    match a {
        Arch::X86_64 => (59, 322),
        Arch::Aarch64 => (221, 281),
        Arch::RiscV64 => (221, 281),
    }
}

/// Whether syscall number `nr` is exec-family on architecture `a`.
pub fn is_exec_syscall(a: Arch, nr: u64) -> (r: bool)
    ensures
        r == (nr == spec_exec_syscalls(a).0 || nr == spec_exec_syscalls(a).1),
{
    let (a0, a1) = exec_syscalls(a);
    nr == a0 || nr == a1
}

/// The filter program for architecture `a`:
/// check the audit architecture word (trap on mismatch, fail-safe), then
/// trap the two exec-family syscall numbers and allow everything else.
pub open spec fn spec_filter_program(a: Arch) -> Seq<SockFilter> {
    seq![
        SockFilter { code: BPF_LD_W_ABS, jt: 0, jf: 0, k: SECCOMP_DATA_ARCH },
        SockFilter { code: BPF_JMP_JEQ_K, jt: 0, jf: 3, k: spec_audit_arch(a) },
        SockFilter { code: BPF_LD_W_ABS, jt: 0, jf: 0, k: SECCOMP_DATA_NR },
        SockFilter { code: BPF_JMP_JEQ_K, jt: 1, jf: 0, k: spec_exec_syscalls(a).0 as u32 },
        SockFilter { code: BPF_JMP_JEQ_K, jt: 0, jf: 1, k: spec_exec_syscalls(a).1 as u32 },
        SockFilter { code: BPF_RET_K, jt: 0, jf: 0, k: SECCOMP_RET_TRACE },
        SockFilter { code: BPF_RET_K, jt: 0, jf: 0, k: SECCOMP_RET_ALLOW },
    ]
}

/// Builds the filter program for architecture `a`, exactly as
/// `spec_filter_program` lays it out.
pub fn filter_program(a: Arch) -> (r: Vec<SockFilter>)
    ensures
        r@ == spec_filter_program(a),
{
    let aud = audit_arch(a);
    let (nr0, nr1) = exec_syscalls(a);
    let mut prog: Vec<SockFilter> = Vec::new();
    prog.push(SockFilter { code: BPF_LD_W_ABS, jt: 0, jf: 0, k: SECCOMP_DATA_ARCH });
    prog.push(SockFilter { code: BPF_JMP_JEQ_K, jt: 0, jf: 3, k: aud });
    prog.push(SockFilter { code: BPF_LD_W_ABS, jt: 0, jf: 0, k: SECCOMP_DATA_NR });
    prog.push(SockFilter { code: BPF_JMP_JEQ_K, jt: 1, jf: 0, k: nr0 as u32 });
    prog.push(SockFilter { code: BPF_JMP_JEQ_K, jt: 0, jf: 1, k: nr1 as u32 });
    prog.push(SockFilter { code: BPF_RET_K, jt: 0, jf: 0, k: SECCOMP_RET_TRACE });
    prog.push(SockFilter { code: BPF_RET_K, jt: 0, jf: 0, k: SECCOMP_RET_ALLOW });
    proof {
        assert(prog@ =~= spec_filter_program(a));
    }
    prog
}

/// The machine name `uname` reports for the x86-64 architecture.
pub open spec fn x86_64_name() -> Seq<u8> {
    seq![120u8, 56u8, 54u8, 95u8, 54u8, 52u8]
}

/// The machine name `uname` reports for the AArch64 architecture.
pub open spec fn aarch64_name() -> Seq<u8> {
    seq![97u8, 97u8, 114u8, 99u8, 104u8, 54u8, 52u8]
}

/// The machine name `uname` reports for the 64-bit RISC-V architecture.
pub open spec fn riscv64_name() -> Seq<u8> {
    seq![114u8, 105u8, 115u8, 99u8, 118u8, 54u8, 52u8]
}

/// The capability lookup from a machine name (as `uname` reports it) to a
/// supported architecture. An unknown name fails closed: the caller must
/// treat it as a hard startup failure when the fast path is requested.
pub fn arch_from_machine(name: &Vec<u8>) -> (r: Result<Arch, TraceError>)
    ensures
        name@ == x86_64_name() ==> r == Ok::<Arch, TraceError>(Arch::X86_64),
        name@ == aarch64_name() ==> r == Ok::<Arch, TraceError>(Arch::Aarch64),
        name@ == riscv64_name() ==> r == Ok::<Arch, TraceError>(Arch::RiscV64),
        name@ != x86_64_name() && name@ != aarch64_name() && name@ != riscv64_name() ==> r
            == Err::<Arch, TraceError>(TraceError::UnsupportedArchitecture),
{
    if name.len() == 6 && name[0] == 120 && name[1] == 56 && name[2] == 54 && name[3] == 95
        && name[4] == 54 && name[5] == 52 {
        proof {
            assert(name@ =~= x86_64_name());
        }
        Ok(Arch::X86_64)
    } else if name.len() == 7 && name[0] == 97 && name[1] == 97 && name[2] == 114 && name[3] == 99
        && name[4] == 104 && name[5] == 54 && name[6] == 52 {
        proof {
            assert(name@ =~= aarch64_name());
        }
        Ok(Arch::Aarch64)
    } else if name.len() == 7 && name[0] == 114 && name[1] == 105 && name[2] == 115 && name[3]
        == 99 && name[4] == 118 && name[5] == 54 && name[6] == 52 {
        proof {
            assert(name@ =~= riscv64_name());
        }
        Ok(Arch::RiscV64)
    } else {
        Err(TraceError::UnsupportedArchitecture)
    }
}

} // verus!
