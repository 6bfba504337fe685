use tray_shell::visibility::{
    dispatch, initial_window_state, MenuId, TrayButton, TrayButtonState, UiAction, UiEvent,
    WindowState,
};

#[test]
fn open_shows_hidden_window() {
    let (s, a) = dispatch(WindowState::Hidden, UiEvent::Menu { id: MenuId::Open });
    assert_eq!(s, WindowState::Visible);
    assert_eq!(a, UiAction::ShowAndFocus);
}

#[test]
fn open_on_visible_window_is_idempotent() {
    let (s, a) = dispatch(WindowState::Visible, UiEvent::Menu { id: MenuId::Open });
    assert_eq!(s, WindowState::Visible);
    assert_eq!(a, UiAction::ShowAndFocus);
}

#[test]
fn open_when_window_is_gone_is_a_noop() {
    let (s, a) = dispatch(WindowState::Destroyed, UiEvent::Menu { id: MenuId::Open });
    assert_eq!(s, WindowState::Destroyed);
    assert_eq!(a, UiAction::Ignore);
}

#[test]
fn tray_left_release_acts_like_open() {
    let click = UiEvent::TrayClick {
        button: TrayButton::Left,
        state: TrayButtonState::Up,
    };
    assert_eq!(
        dispatch(WindowState::Hidden, click),
        (WindowState::Visible, UiAction::ShowAndFocus)
    );
    assert_eq!(
        dispatch(WindowState::Visible, click),
        (WindowState::Visible, UiAction::ShowAndFocus)
    );
}

#[test]
fn other_tray_clicks_are_ignored() {
    let cases = vec![
        UiEvent::TrayClick {
            button: TrayButton::Left,
            state: TrayButtonState::Down,
        },
        UiEvent::TrayClick {
            button: TrayButton::Right,
            state: TrayButtonState::Up,
        },
        UiEvent::TrayClick {
            button: TrayButton::Right,
            state: TrayButtonState::Down,
        },
        UiEvent::TrayClick {
            button: TrayButton::Middle,
            state: TrayButtonState::Up,
        },
    ];
    for e in cases {
        assert_eq!(dispatch(WindowState::Hidden, e), (WindowState::Hidden, UiAction::Ignore));
        assert_eq!(dispatch(WindowState::Visible, e), (WindowState::Visible, UiAction::Ignore));
    }
}

#[test]
fn close_request_hides_instead_of_closing() {
    let (s, a) = dispatch(WindowState::Visible, UiEvent::CloseRequested);
    assert_eq!(s, WindowState::Hidden);
    assert_eq!(a, UiAction::HideToTray);
}

#[test]
fn close_request_on_hidden_window_keeps_it_hidden() {
    let (s, a) = dispatch(WindowState::Hidden, UiEvent::CloseRequested);
    assert_eq!(s, WindowState::Hidden);
    assert_eq!(a, UiAction::HideToTray);
}

#[test]
fn quit_exits_with_code_zero_from_any_state() {
    for s in [WindowState::Visible, WindowState::Hidden, WindowState::Destroyed] {
        let (next, a) = dispatch(s, UiEvent::Menu { id: MenuId::Quit });
        assert_eq!(next, WindowState::Destroyed);
        assert_eq!(a, UiAction::Exit { code: 0 });
    }
}

#[test]
fn update_menu_starts_a_check_and_leaves_the_window_alone() {
    for s in [WindowState::Visible, WindowState::Hidden] {
        let (next, a) = dispatch(s, UiEvent::Menu { id: MenuId::Update });
        assert_eq!(next, s);
        assert_eq!(a, UiAction::StartUpdateCheck);
    }
}

#[test]
fn unknown_menu_entries_are_ignored() {
    let (s, a) = dispatch(WindowState::Visible, UiEvent::Menu { id: MenuId::Other });
    assert_eq!(s, WindowState::Visible);
    assert_eq!(a, UiAction::Ignore);
}

#[test]
fn no_number_of_opens_and_closes_destroys_the_window() {
    let events = vec![
        UiEvent::CloseRequested,
        UiEvent::CloseRequested,
        UiEvent::Menu { id: MenuId::Open },
        UiEvent::TrayClick {
            button: TrayButton::Left,
            state: TrayButtonState::Up,
        },
        UiEvent::CloseRequested,
        UiEvent::Menu { id: MenuId::Update },
        UiEvent::Menu { id: MenuId::Open },
        UiEvent::CloseRequested,
        UiEvent::Menu { id: MenuId::Other },
    ];
    let mut s = initial_window_state(false);
    for e in events {
        let (next, _) = dispatch(s, e);
        s = next;
        assert_ne!(s, WindowState::Destroyed);
    }
}

#[test]
fn initial_state_honors_the_start_hidden_flag() {
    assert_eq!(initial_window_state(false), WindowState::Visible);
    assert_eq!(initial_window_state(true), WindowState::Hidden);
}
