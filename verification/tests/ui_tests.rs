use tracexec::ui::{
    key_to_action, Action, ActivePane, App, AppDirective, AppLayout, UiKey, UiMods,
};

#[test]
fn new_without_pty_forces_events_pane_and_full_split() {
    let app = App::new(false, ActivePane::Terminal, AppLayout::Vertical);
    assert_eq!(app.active_pane, ActivePane::Events);
    assert_eq!(app.split_percentage, 100);
    assert_eq!(app.layout, AppLayout::Vertical);
    assert!(!app.has_term);
    assert_eq!(app.root_pid, None);
}

#[test]
fn new_with_pty_splits_evenly() {
    let app = App::new(true, ActivePane::Terminal, AppLayout::Horizontal);
    assert_eq!(app.active_pane, ActivePane::Terminal);
    assert_eq!(app.split_percentage, 50);
    assert!(app.has_term);
}

#[test]
fn shrink_and_grow_clamp_between_10_and_90() {
    let mut app = App::new(true, ActivePane::Events, AppLayout::Horizontal);
    app.shrink_pane();
    assert_eq!(app.split_percentage, 49);
    for _ in 0..100 {
        app.shrink_pane();
    }
    assert_eq!(app.split_percentage, 10);
    for _ in 0..100 {
        app.grow_pane();
    }
    assert_eq!(app.split_percentage, 90);
}

#[test]
fn shrink_and_grow_do_nothing_without_a_terminal_pane() {
    let mut app = App::new(false, ActivePane::Events, AppLayout::Horizontal);
    app.shrink_pane();
    app.grow_pane();
    assert_eq!(app.split_percentage, 100);
}

#[test]
fn keymap_samples() {
    let ev = ActivePane::Events;
    let term = ActivePane::Terminal;
    // Ctrl+S switches panes from anywhere
    assert_eq!(
        key_to_action(ev, UiKey::Char('s'), UiMods::Ctrl),
        Some(Action::SwitchActivePane)
    );
    assert_eq!(
        key_to_action(term, UiKey::Char('s'), UiMods::Ctrl),
        Some(Action::SwitchActivePane)
    );
    // with the terminal pane active, other keys are forwarded
    assert_eq!(
        key_to_action(term, UiKey::Char('q'), UiMods::Plain),
        Some(Action::HandleTerminalKeyPress)
    );
    // events pane bindings
    assert_eq!(key_to_action(ev, UiKey::Char('q'), UiMods::Plain), Some(Action::Quit));
    assert_eq!(key_to_action(ev, UiKey::Down, UiMods::Plain), Some(Action::NextItem));
    assert_eq!(key_to_action(ev, UiKey::Down, UiMods::Ctrl), Some(Action::PageDown));
    assert_eq!(key_to_action(ev, UiKey::Char('j'), UiMods::Plain), Some(Action::NextItem));
    assert_eq!(key_to_action(ev, UiKey::Up, UiMods::Ctrl), Some(Action::PageUp));
    assert_eq!(key_to_action(ev, UiKey::Left, UiMods::Plain), Some(Action::ScrollLeft));
    assert_eq!(key_to_action(ev, UiKey::Right, UiMods::Ctrl), Some(Action::PageRight));
    assert_eq!(key_to_action(ev, UiKey::Right, UiMods::Alt), None);
    assert_eq!(key_to_action(ev, UiKey::Char('l'), UiMods::Alt), Some(Action::SwitchLayout));
    assert_eq!(key_to_action(ev, UiKey::Char('g'), UiMods::Plain), Some(Action::GrowPane));
    assert_eq!(key_to_action(ev, UiKey::Char('s'), UiMods::Plain), Some(Action::ShrinkPane));
    assert_eq!(
        key_to_action(ev, UiKey::Char('c'), UiMods::Plain),
        Some(Action::CopyToClipboard)
    );
    assert_eq!(key_to_action(ev, UiKey::PageUp, UiMods::Plain), Some(Action::PageUp));
    assert_eq!(key_to_action(ev, UiKey::Char('z'), UiMods::Plain), None);
    assert_eq!(key_to_action(ev, UiKey::Char('q'), UiMods::OtherCombo), None);
}

#[test]
fn apply_action_switches_layout_and_pane() {
    let mut app = App::new(true, ActivePane::Events, AppLayout::Horizontal);
    let d = app.apply_action(Action::SwitchLayout);
    assert_eq!(d, AppDirective::Nothing);
    assert_eq!(app.layout, AppLayout::Vertical);
    assert!(app.should_handle_internal_resize);
    let d = app.apply_action(Action::SwitchActivePane);
    assert_eq!(d, AppDirective::Nothing);
    assert_eq!(app.active_pane, ActivePane::Terminal);
    let d = app.apply_action(Action::Quit);
    assert_eq!(d, AppDirective::Quit);
    let d = app.apply_action(Action::NextItem);
    assert_eq!(d, AppDirective::ListNext);
    let d = app.apply_action(Action::CopyToClipboard);
    assert_eq!(d, AppDirective::CopyCommandline);
}

#[test]
fn exit_without_root_pid_is_a_no_op() {
    let mut app = App::new(false, ActivePane::Events, AppLayout::Horizontal);
    assert_eq!(app.exit(true, false), Ok(()));
    assert_eq!(app.exit(false, true), Ok(()));
    assert_eq!(app.exit(false, false), Ok(()));
    assert_eq!(app.signal_root_process(15), Ok(()));
}

#[test]
fn exit_issues_the_owed_signal_to_the_root() {
    // a pid far above any live process: the kill is really issued and the
    // kernel answers ESRCH (3) — a body that signalled nothing would return Ok
    let mut app = App::new(false, ActivePane::Events, AppLayout::Horizontal);
    app.set_root_pid(41_000_000);
    assert_eq!(app.exit(true, false), Err(3));
    assert_eq!(app.exit(true, true), Err(3)); // termination wins over kill
    assert_eq!(app.exit(false, true), Err(3));
    assert_eq!(app.exit(false, false), Ok(()));
    assert_eq!(app.signal_root_process(15), Err(3));
}

#[test]
fn default_layout_is_horizontal() {
    assert_eq!(AppLayout::default(), AppLayout::Horizontal);
}
