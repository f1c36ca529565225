use tracexec::arch::Arch;
use tracexec::decode::DecodeLimits;
use tracexec::event::TracerEvent;
use tracexec::tracer::{Directive, Notification, Tracer, TracingConfig};

// pids far above any live process: kernel-facing calls fail and are absorbed
const ROOT: i32 = 41_000_000;
const OTHER: i32 = 42_000_000;

fn config() -> TracingConfig {
    TracingConfig {
        follow_forks: true,
        seccomp: false,
        arch: Arch::X86_64,
        limits: DecodeLimits { max_args: 32, max_str_len: 256 },
    }
}

#[test]
fn session_starts_with_the_root_spawn_event() {
    let (tx, mut rx) = tokio::sync::mpsc::unbounded_channel::<TracerEvent>();
    let _tracer = Tracer::new(config(), tx, ROOT);
    assert_eq!(rx.try_recv(), Ok(TracerEvent::RootChildSpawn { pid: ROOT }));
    assert!(rx.try_recv().is_err());
}

#[test]
fn root_exit_is_the_last_event_and_occurs_once() {
    let (tx, mut rx) = tokio::sync::mpsc::unbounded_channel::<TracerEvent>();
    let mut tracer = Tracer::new(config(), tx, ROOT);
    // a descendant exits: one process-exit event, the session goes on
    let d = tracer.handle_notification(Notification::Exited { pid: OTHER, status: 3 });
    assert_eq!(d, Directive::Continue);
    // the root exits: a process-exit event, then the terminal event
    let d = tracer.handle_notification(Notification::Exited { pid: ROOT, status: 7 });
    assert_eq!(d, Directive::RootExited { exit_code: 7 });
    // drain the channel and check the stream's shape
    let mut events: Vec<TracerEvent> = Vec::new();
    while let Ok(ev) = rx.try_recv() {
        events.push(ev);
    }
    let root_exits = events
        .iter()
        .filter(|e| matches!(e, TracerEvent::RootChildExit { .. }))
        .count();
    assert_eq!(root_exits, 1);
    assert_eq!(events.last(), Some(&TracerEvent::RootChildExit { exit_code: 7 }));
    assert_eq!(
        events,
        vec![
            TracerEvent::RootChildSpawn { pid: ROOT },
            TracerEvent::ProcessExit { pid: OTHER, status: 3 },
            TracerEvent::ProcessExit { pid: ROOT, status: 7 },
            TracerEvent::RootChildExit { exit_code: 7 },
        ]
    );
}

#[test]
fn fork_and_signal_notifications_emit_nothing() {
    let (tx, mut rx) = tokio::sync::mpsc::unbounded_channel::<TracerEvent>();
    let mut tracer = Tracer::new(config(), tx, ROOT);
    let _spawn = rx.try_recv().unwrap();
    let d = tracer.handle_notification(Notification::NewChild { pid: ROOT, child: OTHER });
    assert_eq!(d, Directive::Continue);
    let d = tracer.handle_notification(Notification::SignalStop { pid: ROOT, signal: 2 });
    assert_eq!(d, Directive::Continue);
    assert!(rx.try_recv().is_err());
}

#[test]
fn syscall_stop_for_a_vanished_process_is_absorbed() {
    let (tx, mut rx) = tokio::sync::mpsc::unbounded_channel::<TracerEvent>();
    let mut tracer = Tracer::new(config(), tx, ROOT);
    let _spawn = rx.try_recv().unwrap();
    // the register read fails (no such process); the stop is absorbed
    let d = tracer.handle_notification(Notification::SyscallStop { pid: OTHER });
    assert_eq!(d, Directive::Continue);
    let d = tracer.handle_notification(Notification::SeccompStop { pid: OTHER });
    assert_eq!(d, Directive::Continue);
    assert!(rx.try_recv().is_err());
}
