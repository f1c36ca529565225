use tracexec::envdiff::BaselineInfo;
use tracexec::event::ExecData;
use tracexec::printer::{print_execve_trace, EnvReport, PrinterArgs, TracingArgs};
use tracexec::state::{Lifecycle, ProcessState};

fn args_all_on() -> TracingArgs {
    TracingArgs {
        no_trace_comm: false,
        no_trace_argv: false,
        trace_env: false,
        no_diff_env: false,
        no_trace_filename: false,
        no_decode_errno: false,
    }
}

fn sample_state() -> ProcessState {
    ProcessState {
        pid: 77,
        gen: 0,
        comm: b"sh".to_vec(),
        stage: Lifecycle::SyscallEntered,
        in_syscall: true,
        exec_data: Some(ExecData {
            filename: b"/bin/ls".to_vec(),
            argv: vec![b"ls".to_vec(), b"-l".to_vec()],
            envp: vec![b"A=1".to_vec(), b"C=3".to_vec()],
            complete: true,
        }),
    }
}

fn sample_baseline() -> BaselineInfo {
    BaselineInfo::new(vec![(b"A".to_vec(), b"1".to_vec()), (b"B".to_vec(), b"2".to_vec())])
}

#[test]
fn printer_args_invert_the_cli_toggles() {
    let p = PrinterArgs::from_cli(&args_all_on());
    assert!(p.trace_comm && p.trace_argv && p.diff_env && p.trace_filename && p.decode_errno);
    assert!(!p.trace_env);
    // a full environment dump wins over the diff
    let mut a = args_all_on();
    a.trace_env = true;
    let p = PrinterArgs::from_cli(&a);
    assert!(p.trace_env && !p.diff_env);
    let mut a = args_all_on();
    a.no_diff_env = true;
    let p = PrinterArgs::from_cli(&a);
    assert!(!p.trace_env && !p.diff_env);
}

#[test]
fn report_carries_the_selected_parts() {
    let r = print_execve_trace(&sample_state(), 0, &args_all_on(), &sample_baseline());
    assert_eq!(r.pid, 77);
    assert_eq!(r.comm, Some(b"sh".to_vec()));
    assert_eq!(r.filename, Some(b"/bin/ls".to_vec()));
    assert_eq!(r.argv, Some(vec![b"ls".to_vec(), b"-l".to_vec()]));
    assert_eq!(r.result, 0);
    assert!(r.decode_errno);
    assert!(r.decode_complete);
    match r.env {
        EnvReport::Diff(d) => {
            assert_eq!(d.added, vec![(b"C".to_vec(), b"3".to_vec())]);
            assert_eq!(d.removed, vec![(b"B".to_vec(), b"2".to_vec())]);
            assert_eq!(d.unchanged, vec![b"A".to_vec()]);
            assert_eq!(d.modified, Vec::new());
        },
        other => panic!("expected a diff, got {:?}", other),
    }
}

#[test]
fn report_omits_the_deselected_parts() {
    let mut a = args_all_on();
    a.no_trace_comm = true;
    a.no_trace_argv = true;
    a.no_trace_filename = true;
    a.no_diff_env = true;
    a.no_decode_errno = true;
    let r = print_execve_trace(&sample_state(), -2, &a, &sample_baseline());
    assert_eq!(r.comm, None);
    assert_eq!(r.filename, None);
    assert_eq!(r.argv, None);
    assert_eq!(r.env, EnvReport::Omitted);
    assert_eq!(r.result, -2);
    assert!(!r.decode_errno);
}

#[test]
fn report_keeps_the_decode_failure_marker_visible() {
    // a capped decode: argv cut at the maximum count, marker cleared
    let mut state = sample_state();
    if let Some(d) = state.exec_data.as_mut() {
        d.complete = false;
    }
    let r = print_execve_trace(&state, 0, &args_all_on(), &sample_baseline());
    assert!(!r.decode_complete);
    // the partial argv is still reported byte-for-byte, in decode order
    assert_eq!(r.argv, Some(vec![b"ls".to_vec(), b"-l".to_vec()]));
    // and the marker survives even with argv reporting switched off
    let mut a = args_all_on();
    a.no_trace_argv = true;
    let r = print_execve_trace(&state, 0, &a, &sample_baseline());
    assert!(!r.decode_complete);
}

#[test]
fn report_can_carry_the_full_environment() {
    let mut a = args_all_on();
    a.trace_env = true;
    let r = print_execve_trace(&sample_state(), 0, &a, &sample_baseline());
    assert_eq!(
        r.env,
        EnvReport::Full(vec![b"A=1".to_vec(), b"C=3".to_vec()])
    );
}
