//! Tray-driven window-visibility controller.
//!
//! The controller owns one decision: what the host runtime should do to the
//! single main window when a tray-menu entry is selected, the tray icon is
//! clicked, or the window asks to close. It is a pure transition function
//! from a [`WindowState`] and a [`UiEvent`] to the next state and a
//! [`UiAction`]; the host performs the action and keeps the state.

use vstd::prelude::*;

verus! {

/// Where the single main window stands. A close request only ever hides the
/// window; `Destroyed` is reached exclusively through the quit menu entry,
/// which ends the whole process.
#[derive(Clone, Copy, PartialEq, Eq, Structural, Debug)]
pub enum WindowState {
    /// The window is shown on screen.
    Visible,
    /// The window is hidden to the tray but still instantiated, so showing it
    /// again needs no re-initialization.
    Hidden,
    /// The process is exiting and the window is gone. Lookups in the host's
    /// window registry now fail, and every visibility action is a no-op.
    Destroyed,
}

/// Identifier of a tray-menu entry.
#[derive(Clone, Copy, PartialEq, Eq, Structural, Debug)]
pub enum MenuId {
    /// "Open": show the main window and focus it.
    Open,
    /// "Check for updates": start a detached update flow.
    Update,
    /// "Quit": terminate the process for good.
    Quit,
    /// Any other identifier; such entries are ignored.
    Other,
}

/// Mouse button of a tray-icon click.
#[derive(Clone, Copy, PartialEq, Eq, Structural, Debug)]
pub enum TrayButton {
    /// The primary button.
    Left,
    /// The secondary button.
    Right,
    /// The middle button.
    Middle,
}

/// Whether the button of a tray-icon click was pressed or released.
#[derive(Clone, Copy, PartialEq, Eq, Structural, Debug)]
pub enum TrayButtonState {
    /// The button was released.
    Up,
    /// The button was pressed.
    Down,
}

/// The discrete events the host runtime dispatches to the controller.
#[derive(Clone, Copy, PartialEq, Eq, Structural, Debug)]
pub enum UiEvent {
    /// A tray-menu entry was selected.
    Menu {
        /// The selected entry.
        id: MenuId,
    },
    /// The tray icon itself was clicked.
    TrayClick {
        /// The mouse button involved.
        button: TrayButton,
        /// Whether the button went down or came up.
        state: TrayButtonState,
    },
    /// The window asked to close (its close button was used).
    CloseRequested,
}

/// What the host runtime is asked to do in response to one event.
#[derive(Clone, Copy, PartialEq, Eq, Structural, Debug)]
pub enum UiAction {
    /// Show the main window and give it focus. Both calls are fire-and-forget:
    /// a failure is silently ignored, the tray remains the recovery path.
    ShowAndFocus,
    /// Suppress the default close and hide the window instead, keeping the
    /// process alive and reachable through the tray.
    HideToTray,
    /// Spawn a detached update flow; the dispatcher does not wait for it.
    StartUpdateCheck,
    /// Terminate the process with this exit code.
    Exit {
        /// The process exit code.
        code: i32,
    },
    /// Do nothing.
    Ignore,
}

/// The two user gestures that mean "bring the window up": the "open" menu
/// entry, and a primary-button release on the tray icon. Every other click
/// or button combination is ignored.
pub open spec fn is_open_request(e: UiEvent) -> bool {
    ||| e == (UiEvent::Menu { id: MenuId::Open })
    ||| e == (UiEvent::TrayClick { button: TrayButton::Left, state: TrayButtonState::Up })
}

/// The controller's transition function.
///
/// - An open request shows and focuses the window; if the window is already
///   gone it is a no-op, not an error.
/// - A close request hides the window instead of closing it; the window is
///   never destroyed by it.
/// - The quit entry always exits the process with code 0, whatever the
///   window's visibility.
/// - The update entry starts a detached update flow and leaves the window
///   alone; unknown entries and other clicks are ignored.
pub open spec fn spec_dispatch(s: WindowState, e: UiEvent) -> (WindowState, UiAction) {
    if is_open_request(e) {
        if s is Destroyed {
            (s, UiAction::Ignore)
        } else {
            (WindowState::Visible, UiAction::ShowAndFocus)
        }
    } else if e == (UiEvent::Menu { id: MenuId::Update }) {
        (s, UiAction::StartUpdateCheck)
    } else if e == (UiEvent::Menu { id: MenuId::Quit }) {
        (WindowState::Destroyed, UiAction::Exit { code: 0 })
    } else if e is CloseRequested {
        if s is Destroyed {
            (s, UiAction::Ignore)
        } else {
            (WindowState::Hidden, UiAction::HideToTray)
        }
    } else {
        (s, UiAction::Ignore)
    }
}

/// Decide what to do about one event: the next window state and the action
/// the host runtime must perform.
pub fn dispatch(s: WindowState, e: UiEvent) -> (r: (WindowState, UiAction))
    ensures
        r == spec_dispatch(s, e),
{
    match e {
        UiEvent::Menu { id: MenuId::Open } => match s {
            WindowState::Destroyed => (s, UiAction::Ignore),
            _ => (WindowState::Visible, UiAction::ShowAndFocus),
        },
        UiEvent::Menu { id: MenuId::Update } => (s, UiAction::StartUpdateCheck),
        UiEvent::Menu { id: MenuId::Quit } => (WindowState::Destroyed, UiAction::Exit { code: 0 }),
        UiEvent::Menu { id: MenuId::Other } => (s, UiAction::Ignore),
        UiEvent::TrayClick { button: TrayButton::Left, state: TrayButtonState::Up } => match s {
            WindowState::Destroyed => (s, UiAction::Ignore),
            _ => (WindowState::Visible, UiAction::ShowAndFocus),
        },
        UiEvent::TrayClick { .. } => (s, UiAction::Ignore),
        UiEvent::CloseRequested => match s {
            WindowState::Destroyed => (s, UiAction::Ignore),
            _ => (WindowState::Hidden, UiAction::HideToTray),
        },
    }
}

/// The window state the controller starts from. The host may have been
/// launched with a flag that keeps the window hidden (as an at-login start
/// does); otherwise the window comes up visible.
pub fn initial_window_state(start_hidden: bool) -> (s: WindowState)
    ensures
        s == if start_hidden {
            WindowState::Hidden
        } else {
            WindowState::Visible
        },
{
    if start_hidden {
        WindowState::Hidden
    } else {
        WindowState::Visible
    }
}

/// The window state after a whole sequence of events, oldest first.
pub open spec fn run(s: WindowState, events: Seq<UiEvent>) -> WindowState
    decreases events.len(),
{
    if events.len() == 0 {
        s
    } else {
        run(spec_dispatch(s, events[0]).0, events.drop_first())
    }
}

/// A single step destroys the window only on the quit entry: any event that
/// leaves an existing window destroyed must have been "quit".
pub proof fn lemma_destroy_requires_quit(s: WindowState, e: UiEvent)
    requires
        !(s is Destroyed),
        spec_dispatch(s, e).0 is Destroyed,
    ensures
        e == (UiEvent::Menu { id: MenuId::Quit }),
{
}

/// The window is destroyed only by an explicit quit action: under any
/// sequence of events that selects no quit entry — open requests, close
/// requests, clicks, update checks, in any number and order — the window
/// survives.
pub proof fn lemma_only_quit_destroys(s: WindowState, events: Seq<UiEvent>)
    requires
        !(s is Destroyed),
        forall|i: int| 0 <= i < events.len() ==> events[i] != (UiEvent::Menu { id: MenuId::Quit }),
    ensures
        !(run(s, events) is Destroyed),
    decreases events.len(),
{
    if events.len() > 0 {
        let s1 = spec_dispatch(s, events[0]).0;
        assert(events[0] != (UiEvent::Menu { id: MenuId::Quit }));
        assert forall|i: int|
            0 <= i < events.drop_first().len() implies events.drop_first()[i] != (UiEvent::Menu {
            id: MenuId::Quit,
        }) by {
            assert(events.drop_first()[i] == events[i + 1]);
        }
        lemma_only_quit_destroys(s1, events.drop_first());
    }
}

/// Idempotence of the two visibility moves: an open request on a visible
/// window keeps it visible (and still answers with the fire-and-forget
/// show-and-focus action, never an error), and a close request on a hidden
/// window keeps it hidden.
pub proof fn lemma_visibility_idempotent(e: UiEvent)
    ensures
        is_open_request(e) ==> spec_dispatch(WindowState::Visible, e) == (
            WindowState::Visible,
            UiAction::ShowAndFocus,
        ),
        spec_dispatch(WindowState::Hidden, UiEvent::CloseRequested) == (
            WindowState::Hidden,
            UiAction::HideToTray,
        ),
{
}

/// Quit always terminates the process with exit code 0, from every prior
/// state of the window.
pub proof fn lemma_quit_always_exits_zero(s: WindowState)
    ensures
        spec_dispatch(s, UiEvent::Menu { id: MenuId::Quit }) == (
            WindowState::Destroyed,
            UiAction::Exit { code: 0 },
        ),
{
}

} // verus!
