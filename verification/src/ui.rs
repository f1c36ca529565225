//! The interactive consumer's decision core: which action a key press maps
//! to, and how each action changes the UI state (pane split, layout, active
//! pane). Rendering, clipboard and terminal emulation are outside
//! collaborators: the unverified shell runs the event loop, performs the
//! directives this module returns, and owns the widgets.

use vstd::prelude::*;

verus! {

/// Which pane of the interactive view receives key presses.
#[derive(Clone, Copy, Debug, PartialEq, Eq, Structural)]
pub enum ActivePane {
    Events,
    Terminal,
}

/// How the event list and the terminal pane are laid out.
#[derive(Clone, Copy, Debug, PartialEq, Eq, Structural)]
pub enum AppLayout {
    Horizontal,
    Vertical,
}

impl Default for AppLayout {
    /// The default layout is horizontal.
    fn default() -> (r: Self)
        ensures
            r == AppLayout::Horizontal,
    {
        AppLayout::Horizontal
    }
}

/// A key press, reduced to what the keymap distinguishes.
#[derive(Clone, Copy, Debug, PartialEq, Eq, Structural)]
pub enum UiKey {
    Char(char),
    Up,
    Down,
    Left,
    Right,
    PageUp,
    PageDown,
    Other,
}

/// The modifier state of a key press, reduced to what the keymap
/// distinguishes.
#[derive(Clone, Copy, Debug, PartialEq, Eq, Structural)]
pub enum UiMods {
    Plain,
    Ctrl,
    Alt,
    OtherCombo,
}

/// What a key press asks for.
#[derive(Clone, Copy, Debug, PartialEq, Eq, Structural)]
pub enum Action {
    Quit,
    SwitchActivePane,
    NextItem,
    PrevItem,
    PageDown,
    PageUp,
    PageLeft,
    PageRight,
    ScrollLeft,
    ScrollRight,
    GrowPane,
    ShrinkPane,
    SwitchLayout,
    CopyToClipboard,
    HandleTerminalKeyPress,
}

/// The keymap. `Ctrl+S` switches panes from anywhere; with the events pane
/// active the navigation, scroll, pane-size, layout, copy and quit keys
/// apply; with the terminal pane active every other key is forwarded to it.
pub open spec fn spec_key_action(pane: ActivePane, key: UiKey, mods: UiMods) -> Option<Action> {
    if key == UiKey::Char('s') && mods == UiMods::Ctrl {
        Some(Action::SwitchActivePane)
    } else if pane == ActivePane::Terminal {
        Some(Action::HandleTerminalKeyPress)
    } else {
        match key {
            UiKey::Char('q') => if mods == UiMods::Plain {
                Some(Action::Quit)
            } else {
                Option::None
            },
            UiKey::Down | UiKey::Char('j') => if mods == UiMods::Ctrl {
                Some(Action::PageDown)
            } else if mods == UiMods::Plain {
                Some(Action::NextItem)
            } else {
                Option::None
            },
            UiKey::Up | UiKey::Char('k') => if mods == UiMods::Ctrl {
                Some(Action::PageUp)
            } else if mods == UiMods::Plain {
                Some(Action::PrevItem)
            } else {
                Option::None
            },
            UiKey::Left | UiKey::Char('h') => if mods == UiMods::Ctrl {
                Some(Action::PageLeft)
            } else if mods == UiMods::Plain {
                Some(Action::ScrollLeft)
            } else {
                Option::None
            },
            UiKey::Char('l') => if mods == UiMods::Alt {
                Some(Action::SwitchLayout)
            } else if mods == UiMods::Ctrl {
                Some(Action::PageRight)
            } else if mods == UiMods::Plain {
                Some(Action::ScrollRight)
            } else {
                Option::None
            },
            UiKey::Right => if mods == UiMods::Alt {
                Option::None
            } else if mods == UiMods::Ctrl {
                Some(Action::PageRight)
            } else if mods == UiMods::Plain {
                Some(Action::ScrollRight)
            } else {
                Option::None
            },
            UiKey::PageDown => Some(Action::PageDown),
            UiKey::PageUp => Some(Action::PageUp),
            UiKey::Char('g') => if mods == UiMods::Plain {
                Some(Action::GrowPane)
            } else {
                Option::None
            },
            UiKey::Char('s') => if mods == UiMods::Plain {
                Some(Action::ShrinkPane)
            } else {
                Option::None
            },
            UiKey::Char('c') => if mods == UiMods::Plain {
                Some(Action::CopyToClipboard)
            } else {
                Option::None
            },
            _ => Option::None,
        }
    }
}

/// Maps a key press to an action, exactly as the keymap
/// `spec_key_action` lays it out.
pub fn key_to_action(pane: ActivePane, key: UiKey, mods: UiMods) -> (r: Option<Action>)
    ensures
        r == spec_key_action(pane, key, mods),
{
    if matches!(key, UiKey::Char(c) if c == 's') && mods == UiMods::Ctrl {
        return Some(Action::SwitchActivePane);
    }
    if pane == ActivePane::Terminal {
        return Some(Action::HandleTerminalKeyPress);
    }
    match key {
        UiKey::Char(c) => {
            if c == 'q' && mods == UiMods::Plain {
                Some(Action::Quit)
            } else if c == 'j' {
                if mods == UiMods::Ctrl {
                    Some(Action::PageDown)
                } else if mods == UiMods::Plain {
                    Some(Action::NextItem)
                } else {
                    Option::None
                }
            } else if c == 'k' {
                if mods == UiMods::Ctrl {
                    Some(Action::PageUp)
                } else if mods == UiMods::Plain {
                    Some(Action::PrevItem)
                } else {
                    Option::None
                }
            } else if c == 'h' {
                if mods == UiMods::Ctrl {
                    Some(Action::PageLeft)
                } else if mods == UiMods::Plain {
                    Some(Action::ScrollLeft)
                } else {
                    Option::None
                }
            } else if c == 'l' {
                if mods == UiMods::Alt {
                    Some(Action::SwitchLayout)
                } else if mods == UiMods::Ctrl {
                    Some(Action::PageRight)
                } else if mods == UiMods::Plain {
                    Some(Action::ScrollRight)
                } else {
                    Option::None
                }
            } else if c == 'g' && mods == UiMods::Plain {
                Some(Action::GrowPane)
            } else if c == 's' && mods == UiMods::Plain {
                Some(Action::ShrinkPane)
            } else if c == 'c' && mods == UiMods::Plain {
                Some(Action::CopyToClipboard)
            } else {
                Option::None
            }
        },
        UiKey::Down => {
            if mods == UiMods::Ctrl {
                Some(Action::PageDown)
            } else if mods == UiMods::Plain {
                Some(Action::NextItem)
            } else {
                Option::None
            }
        },
        UiKey::Up => {
            if mods == UiMods::Ctrl {
                Some(Action::PageUp)
            } else if mods == UiMods::Plain {
                Some(Action::PrevItem)
            } else {
                Option::None
            }
        },
        UiKey::Left => {
            if mods == UiMods::Ctrl {
                Some(Action::PageLeft)
            } else if mods == UiMods::Plain {
                Some(Action::ScrollLeft)
            } else {
                Option::None
            }
        },
        UiKey::Right => {
            if mods == UiMods::Alt {
                Option::None
            } else if mods == UiMods::Ctrl {
                Some(Action::PageRight)
            } else if mods == UiMods::Plain {
                Some(Action::ScrollRight)
            } else {
                Option::None
            }
        },
        UiKey::PageDown => Some(Action::PageDown),
        UiKey::PageUp => Some(Action::PageUp),
        UiKey::Other => Option::None,
    }
}

/// What the unverified shell must do after an action was applied: drive the
/// widgets it owns.
#[derive(Clone, Copy, Debug, PartialEq, Eq, Structural)]
pub enum AppDirective {
    Nothing,
    Quit,
    ListNext,
    ListPrev,
    ListPageUp,
    ListPageDown,
    ListPageLeft,
    ListPageRight,
    ListScrollLeft,
    ListScrollRight,
    ForwardKeyToTerminal,
    CopyCommandline,
}

/// Relies on nix's `kill`: sends the signal to the process; fails with the
/// errno (or with EINVAL for a signal number nix does not know).
#[verifier::external_body]
fn send_signal(pid: i32, signal: i32) -> (r: Result<(), i32>) {
    match nix::sys::signal::Signal::try_from(signal) {
        Ok(sig) => match nix::sys::signal::kill(nix::unistd::Pid::from_raw(pid), sig) {
            Ok(()) => Ok(()),
            Err(e) => Err(e as i32),
        },
        Err(e) => Err(e as i32),
    }
}

/// The termination signal.
pub const SIGTERM: i32 = 15;

/// The kill signal.
pub const SIGKILL: i32 = 9;

/// Which signal leaving the interactive view owes the root process:
/// termination wins over kill; with neither flag, none.
pub open spec fn spec_exit_signal(terminate_on_exit: bool, kill_on_exit: bool) -> Option<i32> {
    if terminate_on_exit {
        Some(SIGTERM)
    } else if kill_on_exit {
        Some(SIGKILL)
    } else {
        Option::None
    }
}

/// The interactive consumer's state, less the widgets the unverified shell
/// owns (event list, terminal pane, clipboard).
pub struct App {
    /// The root pid, once the root-spawned event arrived.
    pub root_pid: Option<i32>,
    /// Which pane receives key presses.
    pub active_pane: ActivePane,
    /// Percentage of the split given to the event list.
    pub split_percentage: u16,
    /// Current layout.
    pub layout: AppLayout,
    /// Whether the widget sizes must be recomputed at the next render.
    pub should_handle_internal_resize: bool,
    /// Whether a terminal pane exists (a pty was allocated).
    pub has_term: bool,
    /// Model of every `(pid, signal)` pair handed to the kill call, in
    /// order: what the signalling methods' contracts are stated over.
    pub signals_sent: Ghost<Seq<(i32, i32)>>,
}

impl App {
    /// Sets the state up: without a pty the events pane is forced active and
    /// takes the whole split.
    pub fn new(has_pty: bool, active_pane: ActivePane, layout: AppLayout) -> (r: App)
        ensures
            r.active_pane == (if has_pty {
                active_pane
            } else {
                ActivePane::Events
            }),
            r.split_percentage == (if has_pty {
                50u16
            } else {
                100u16
            }),
            r.layout == layout,
            r.has_term == has_pty,
            r.root_pid is None,
            r.should_handle_internal_resize,
            r.signals_sent@ == Seq::<(i32, i32)>::empty(),
    {
        App {
            root_pid: None,
            active_pane: if has_pty {
                active_pane
            } else {
                ActivePane::Events
            },
            split_percentage: if has_pty {
                50
            } else {
                100
            },
            layout,
            should_handle_internal_resize: true,
            has_term: has_pty,
            signals_sent: Ghost(Seq::empty()),
        }
    }

    /// Records the root pid from the root-spawned event.
    pub fn set_root_pid(&mut self, pid: i32)
        ensures
            *final(self) == (App { root_pid: Some(pid), ..*old(self) }),
    {
        self.root_pid = Some(pid);
    }

    /// Shrinks the event pane by one percentage point, never below 10, and
    /// only when a terminal pane exists.
    pub fn shrink_pane(&mut self)
        ensures
            old(self).has_term ==> *final(self) == (App {
                split_percentage: if old(self).split_percentage <= 10 {
                    10u16
                } else {
                    (old(self).split_percentage - 1) as u16
                },
                ..*old(self)
            }),
            !old(self).has_term ==> *final(self) == *old(self),
    {
        if self.has_term {
            let shrunk = if self.split_percentage >= 1 {
                self.split_percentage - 1
            } else {
                0
            };
            self.split_percentage = if shrunk <= 10 {
                10
            } else {
                shrunk
            };
        }
    }

    /// Grows the event pane by one percentage point, never above 90, and
    /// only when a terminal pane exists.
    pub fn grow_pane(&mut self)
        ensures
            old(self).has_term ==> *final(self) == (App {
                split_percentage: if old(self).split_percentage >= 90 {
                    90u16
                } else {
                    (old(self).split_percentage + 1) as u16
                },
                ..*old(self)
            }),
            !old(self).has_term ==> *final(self) == *old(self),
    {
        if self.has_term {
            let grown = if self.split_percentage <= 0xfffe {
                self.split_percentage + 1
            } else {
                0xffff
            };
            self.split_percentage = if grown >= 90 {
                90
            } else {
                grown
            };
        }
    }

    /// Applies one action to the state and says what the shell must do with
    /// the widgets it owns.
    pub fn apply_action(&mut self, a: Action) -> (r: AppDirective)
        ensures
            a == Action::Quit ==> *final(self) == *old(self) && r == AppDirective::Quit,
            a == Action::NextItem ==> *final(self) == *old(self) && r == AppDirective::ListNext,
            a == Action::PrevItem ==> *final(self) == *old(self) && r == AppDirective::ListPrev,
            a == Action::PageUp ==> *final(self) == *old(self) && r == AppDirective::ListPageUp,
            a == Action::PageDown ==> *final(self) == *old(self) && r == AppDirective::ListPageDown,
            a == Action::PageLeft ==> *final(self) == *old(self) && r == AppDirective::ListPageLeft,
            a == Action::PageRight ==> *final(self) == *old(self) && r
                == AppDirective::ListPageRight,
            a == Action::ScrollLeft ==> *final(self) == *old(self) && r
                == AppDirective::ListScrollLeft,
            a == Action::ScrollRight ==> *final(self) == *old(self) && r
                == AppDirective::ListScrollRight,
            a == Action::HandleTerminalKeyPress ==> *final(self) == *old(self) && r
                == AppDirective::ForwardKeyToTerminal,
            a == Action::CopyToClipboard ==> *final(self) == *old(self) && r
                == AppDirective::CopyCommandline,
            a == Action::SwitchActivePane ==> *final(self) == (App {
                active_pane: if old(self).active_pane == ActivePane::Events {
                    ActivePane::Terminal
                } else {
                    ActivePane::Events
                },
                ..*old(self)
            }) && r == AppDirective::Nothing,
            a == Action::SwitchLayout ==> *final(self) == (App {
                layout: if old(self).layout == AppLayout::Horizontal {
                    AppLayout::Vertical
                } else {
                    AppLayout::Horizontal
                },
                should_handle_internal_resize: true,
                ..*old(self)
            }) && r == AppDirective::Nothing,
            a == Action::ShrinkPane || a == Action::GrowPane ==> final(
                self).should_handle_internal_resize && r == AppDirective::Nothing && final(
                self).layout == old(self).layout && final(self).active_pane == old(
                self).active_pane,
    {
        match a {
            Action::Quit => AppDirective::Quit,
            Action::NextItem => AppDirective::ListNext,
            Action::PrevItem => AppDirective::ListPrev,
            Action::PageUp => AppDirective::ListPageUp,
            Action::PageDown => AppDirective::ListPageDown,
            Action::PageLeft => AppDirective::ListPageLeft,
            Action::PageRight => AppDirective::ListPageRight,
            Action::ScrollLeft => AppDirective::ListScrollLeft,
            Action::ScrollRight => AppDirective::ListScrollRight,
            Action::HandleTerminalKeyPress => AppDirective::ForwardKeyToTerminal,
            Action::CopyToClipboard => AppDirective::CopyCommandline,
            Action::SwitchActivePane => {
                self.active_pane = if self.active_pane == ActivePane::Events {
                    ActivePane::Terminal
                } else {
                    ActivePane::Events
                };
                AppDirective::Nothing
            },
            Action::SwitchLayout => {
                self.layout = if self.layout == AppLayout::Horizontal {
                    AppLayout::Vertical
                } else {
                    AppLayout::Horizontal
                };
                self.should_handle_internal_resize = true;
                AppDirective::Nothing
            },
            Action::ShrinkPane => {
                self.shrink_pane();
                self.should_handle_internal_resize = true;
                AppDirective::Nothing
            },
            Action::GrowPane => {
                self.grow_pane();
                self.should_handle_internal_resize = true;
                AppDirective::Nothing
            },
        }
    }

    /// Marks the widget sizes for recomputation (the terminal was resized).
    pub fn handle_resize(&mut self)
        ensures
            *final(self) == (App { should_handle_internal_resize: true, ..*old(self) }),
    {
        self.should_handle_internal_resize = true;
    }

    /// On leaving the interactive view: terminate (SIGTERM) or kill
    /// (SIGKILL) the root process when asked to, termination winning when
    /// both flags are set, as `spec_exit_signal` lays it out. Exactly that
    /// one signal is handed to the kill call — the model of sent signals
    /// grows by it alone — and none when no flag is set or no root pid was
    /// recorded. The shell closes the terminal pane itself.
    pub fn exit(&mut self, terminate_on_exit: bool, kill_on_exit: bool) -> (r: Result<(), i32>)
        ensures
            *final(self) == (App { signals_sent: final(self).signals_sent, ..*old(self) }),
            ({
                let sig = spec_exit_signal(terminate_on_exit, kill_on_exit);
                match (sig, old(self).root_pid) {
                    (Some(s), Some(p)) => final(self).signals_sent@ == old(
                        self,
                    ).signals_sent@.push((p, s)),
                    _ => final(self).signals_sent@ == old(self).signals_sent@ && r == Ok::<
                        (),
                        i32,
                    >(()),
                }
            }),
    {
        if terminate_on_exit {
            self.signal_root_process(SIGTERM)
        } else if kill_on_exit {
            self.signal_root_process(SIGKILL)
        } else {
            Ok(())
        }
    }

    /// Sends `signal` to the root process: with a root pid recorded, hands
    /// exactly one `(pid, signal)` pair to the kill call — the model of
    /// sent signals grows by it and nothing else, so no other process is
    /// ever signalled — and propagates the call's error; with none, does
    /// nothing and succeeds.
    pub fn signal_root_process(&mut self, signal: i32) -> (r: Result<(), i32>)
        ensures
            *final(self) == (App { signals_sent: final(self).signals_sent, ..*old(self) }),
            old(self).root_pid is None ==> r == Ok::<(), i32>(()) && final(self).signals_sent@
                == old(self).signals_sent@,
            old(self).root_pid matches Some(p) ==> final(self).signals_sent@ == old(
                self,
            ).signals_sent@.push((p, signal)),
    {
        match self.root_pid {
            Some(pid) => {
                let r = send_signal(pid, signal);
                proof {
                    self.signals_sent@ = self.signals_sent@.push((pid, signal));
                }
                r
            },
            None => Ok(()),
        }
    }
}

} // verus!
