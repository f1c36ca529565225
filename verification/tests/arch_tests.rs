use tracexec::arch::{
    arch_from_machine, audit_arch, exec_syscalls, filter_program, is_exec_syscall, Arch,
    SockFilter, BPF_JMP_JEQ_K, BPF_LD_W_ABS, BPF_RET_K, SECCOMP_RET_ALLOW, SECCOMP_RET_TRACE,
};
use tracexec::errors::TraceError;

#[test]
fn exec_syscall_numbers_per_architecture() {
    assert_eq!(exec_syscalls(Arch::X86_64), (59, 322));
    assert_eq!(exec_syscalls(Arch::Aarch64), (221, 281));
    assert_eq!(exec_syscalls(Arch::RiscV64), (221, 281));
    assert!(is_exec_syscall(Arch::X86_64, 59));
    assert!(is_exec_syscall(Arch::X86_64, 322));
    assert!(!is_exec_syscall(Arch::X86_64, 221));
    assert!(is_exec_syscall(Arch::Aarch64, 221));
    assert!(!is_exec_syscall(Arch::Aarch64, 59));
}

#[test]
fn audit_arch_words() {
    assert_eq!(audit_arch(Arch::X86_64), 0xc000_003e);
    assert_eq!(audit_arch(Arch::Aarch64), 0xc000_00b7);
    assert_eq!(audit_arch(Arch::RiscV64), 0xc000_00f3);
}

#[test]
fn filter_program_for_x86_64_is_exactly_laid_out() {
    let p = filter_program(Arch::X86_64);
    assert_eq!(
        p,
        vec![
            SockFilter { code: BPF_LD_W_ABS, jt: 0, jf: 0, k: 4 },
            SockFilter { code: BPF_JMP_JEQ_K, jt: 0, jf: 3, k: 0xc000_003e },
            SockFilter { code: BPF_LD_W_ABS, jt: 0, jf: 0, k: 0 },
            SockFilter { code: BPF_JMP_JEQ_K, jt: 1, jf: 0, k: 59 },
            SockFilter { code: BPF_JMP_JEQ_K, jt: 0, jf: 1, k: 322 },
            SockFilter { code: BPF_RET_K, jt: 0, jf: 0, k: SECCOMP_RET_TRACE },
            SockFilter { code: BPF_RET_K, jt: 0, jf: 0, k: SECCOMP_RET_ALLOW },
        ]
    );
}

#[test]
fn filter_program_traps_exec_numbers_of_its_architecture() {
    let p = filter_program(Arch::Aarch64);
    assert_eq!(p.len(), 7);
    assert_eq!(p[1].k, 0xc000_00b7);
    assert_eq!(p[3].k, 221);
    assert_eq!(p[4].k, 281);
}

#[test]
fn machine_name_lookup_fails_closed() {
    assert_eq!(arch_from_machine(&b"x86_64".to_vec()), Ok(Arch::X86_64));
    assert_eq!(arch_from_machine(&b"aarch64".to_vec()), Ok(Arch::Aarch64));
    assert_eq!(arch_from_machine(&b"riscv64".to_vec()), Ok(Arch::RiscV64));
    assert_eq!(
        arch_from_machine(&b"sparc64".to_vec()),
        Err(TraceError::UnsupportedArchitecture)
    );
    assert_eq!(
        arch_from_machine(&b"".to_vec()),
        Err(TraceError::UnsupportedArchitecture)
    );
}
