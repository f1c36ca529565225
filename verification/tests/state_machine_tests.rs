use tracexec::event::ExecData;
use tracexec::state::{basename, Lifecycle, ProcessTable, TableAction, TableEvent};

fn sample_exec(filename: &[u8], argv: &[&[u8]], envp: &[&[u8]]) -> ExecData {
    ExecData {
        filename: filename.to_vec(),
        argv: argv.iter().map(|a| a.to_vec()).collect(),
        envp: envp.iter().map(|e| e.to_vec()).collect(),
        complete: true,
    }
}

#[test]
fn lifecycle_follows_the_state_machine() {
    let mut table = ProcessTable::new();
    // first sighting via a non-exec syscall entry: stage stays SpawnedNotExeced
    let a = table.on_notification(
        7,
        TableEvent::SyscallEntry { is_exec: false, data: None },
    );
    assert_eq!(a, TableAction::Idle);
    assert_eq!(table.stage_of(7), Some(Lifecycle::SpawnedNotExeced));
    assert!(table.in_syscall(7));
    let a = table.on_notification(7, TableEvent::SyscallExit { result: 0 });
    assert_eq!(a, TableAction::Idle);
    assert!(!table.in_syscall(7));
    // exec entry moves to SyscallEntered
    let data = sample_exec(b"/bin/true", &[b"true"], &[]);
    let a = table.on_notification(
        7,
        TableEvent::SyscallEntry { is_exec: true, data: Some(data.clone()) },
    );
    assert_eq!(a, TableAction::Idle);
    assert_eq!(table.stage_of(7), Some(Lifecycle::SyscallEntered));
    // the matching exit emits the completed exec and moves to AwaitingExit
    let a = table.on_notification(7, TableEvent::SyscallExit { result: 0 });
    assert_eq!(a, TableAction::EmitExec { data, result: 0 });
    assert_eq!(table.stage_of(7), Some(Lifecycle::AwaitingExit));
    // the exit notification removes the entry
    let a = table.on_notification(7, TableEvent::Exit { status: 0 });
    assert_eq!(a, TableAction::EmitExit { status: 0 });
    assert_eq!(table.stage_of(7), None);
    assert_eq!(table.len(), 0);
}

#[test]
fn comm_refreshed_on_successful_exec() {
    let mut table = ProcessTable::new();
    let data = sample_exec(b"/usr/bin/cat", &[b"cat"], &[]);
    table.on_notification(3, TableEvent::SyscallEntry { is_exec: true, data: Some(data) });
    table.on_notification(3, TableEvent::SyscallExit { result: 0 });
    assert_eq!(table.comm_of(3), Some(b"cat".to_vec()));
}

#[test]
fn comm_not_refreshed_on_failed_exec() {
    let mut table = ProcessTable::new();
    table.on_notification(1, TableEvent::Fork { child: 3 });
    let data = sample_exec(b"/usr/bin/missing", &[], &[]);
    table.on_notification(3, TableEvent::SyscallEntry { is_exec: true, data: Some(data) });
    table.on_notification(3, TableEvent::SyscallExit { result: -2 });
    assert_eq!(table.comm_of(3), Some(Vec::new()));
}

#[test]
fn re_exec_gives_two_events_with_their_own_payloads() {
    let mut table = ProcessTable::new();
    let d1 = sample_exec(b"/bin/sh", &[b"sh", b"-c", b"x"], &[b"A=1"]);
    let d2 = sample_exec(b"/bin/ls", &[b"ls"], &[b"B=2"]);
    table.on_notification(9, TableEvent::SyscallEntry { is_exec: true, data: Some(d1.clone()) });
    let a1 = table.on_notification(9, TableEvent::SyscallExit { result: 0 });
    assert_eq!(a1, TableAction::EmitExec { data: d1, result: 0 });
    // the same process execs again: AwaitingExit loops back to SyscallEntered
    table.on_notification(9, TableEvent::SyscallEntry { is_exec: true, data: Some(d2.clone()) });
    assert_eq!(table.stage_of(9), Some(Lifecycle::SyscallEntered));
    let a2 = table.on_notification(9, TableEvent::SyscallExit { result: 0 });
    assert_eq!(a2, TableAction::EmitExec { data: d2, result: 0 });
}

#[test]
fn forked_children_get_independent_entries() {
    let mut table = ProcessTable::new();
    let data = sample_exec(b"/bin/parent", &[], &[]);
    table.on_notification(2, TableEvent::SyscallEntry { is_exec: true, data: Some(data) });
    table.on_notification(2, TableEvent::SyscallExit { result: 0 });
    // two children forked in quick succession
    table.on_notification(2, TableEvent::Fork { child: 10 });
    table.on_notification(2, TableEvent::Fork { child: 11 });
    assert_eq!(table.len(), 3);
    assert_eq!(table.stage_of(10), Some(Lifecycle::SpawnedNotExeced));
    assert_eq!(table.stage_of(11), Some(Lifecycle::SpawnedNotExeced));
    // both inherit the parent's comm until their own exec
    assert_eq!(table.comm_of(10), Some(b"parent".to_vec()));
    assert_eq!(table.comm_of(11), Some(b"parent".to_vec()));
    // an exec by one child does not touch the other
    let d = sample_exec(b"/bin/child", &[], &[]);
    table.on_notification(10, TableEvent::SyscallEntry { is_exec: true, data: Some(d) });
    table.on_notification(10, TableEvent::SyscallExit { result: 0 });
    assert_eq!(table.comm_of(10), Some(b"child".to_vec()));
    assert_eq!(table.comm_of(11), Some(b"parent".to_vec()));
}

#[test]
fn pid_reuse_after_exit_gets_a_fresh_entry() {
    let mut table = ProcessTable::new();
    table.on_notification(2, TableEvent::Fork { child: 10 });
    let d = sample_exec(b"/bin/first", &[], &[]);
    table.on_notification(10, TableEvent::SyscallEntry { is_exec: true, data: Some(d) });
    table.on_notification(10, TableEvent::SyscallExit { result: 0 });
    assert_eq!(table.comm_of(10), Some(b"first".to_vec()));
    // the child exits and the kernel reuses its pid for a new child
    table.on_notification(10, TableEvent::Exit { status: 0 });
    table.on_notification(2, TableEvent::Fork { child: 10 });
    // the new entry carries none of the old process's state
    assert_eq!(table.stage_of(10), Some(Lifecycle::SpawnedNotExeced));
    assert_eq!(table.comm_of(10), Some(Vec::new()));
    assert!(!table.in_syscall(10));
}

#[test]
fn basename_takes_the_last_path_component() {
    assert_eq!(basename(&b"/usr/bin/cat".to_vec()), b"cat".to_vec());
    assert_eq!(basename(&b"cat".to_vec()), b"cat".to_vec());
    assert_eq!(basename(&b"/cat".to_vec()), b"cat".to_vec());
    assert_eq!(basename(&b"dir/".to_vec()), b"".to_vec());
    assert_eq!(basename(&b"".to_vec()), b"".to_vec());
}
