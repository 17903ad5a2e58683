use syntec::session::{setup_sequence, ModeChange, TerminalSession};

#[test]
fn restoration_runs_once() {
    let mut s = TerminalSession::open();
    let first = s.finish();
    assert_eq!(first, vec![
        ModeChange::ResetColor,
        ModeChange::ShowCursor,
        ModeChange::LeaveAlternateScreen,
        ModeChange::DisableRawMode,
    ]);
    assert!(s.finish().is_empty());
}

#[test]
fn setup_enters_raw_alternate_screen() {
    assert_eq!(setup_sequence(), vec![
        ModeChange::EnableRawMode,
        ModeChange::EnterAlternateScreen,
        ModeChange::ClearScreen,
        ModeChange::HideCursor,
    ]);
}
