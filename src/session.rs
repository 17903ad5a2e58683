//! The terminal session: the mode changes made on entry and undone on exit.

use vstd::prelude::*;

verus! {

/// A change of terminal mode.
#[derive(Clone, Copy, Debug, PartialEq, Eq, Structural)]
pub enum ModeChange {
    EnableRawMode,
    EnterAlternateScreen,
    ClearScreen,
    HideCursor,
    ResetColor,
    ShowCursor,
    LeaveAlternateScreen,
    DisableRawMode,
}

/// The mode changes that start a session: raw input, the alternate screen,
/// cleared, with the cursor hidden.
pub fn setup_sequence() -> (r: Vec<ModeChange>)
    ensures
        r@ == seq![
            ModeChange::EnableRawMode,
            ModeChange::EnterAlternateScreen,
            ModeChange::ClearScreen,
            ModeChange::HideCursor,
        ],
{
    vec![
        ModeChange::EnableRawMode,
        ModeChange::EnterAlternateScreen,
        ModeChange::ClearScreen,
        ModeChange::HideCursor,
    ]
}

/// The mode changes that end a session: colour reset, cursor shown, the
/// alternate screen left, normal input restored.
pub open spec fn restore_spec() -> Seq<ModeChange> {
    seq![
        ModeChange::ResetColor,
        ModeChange::ShowCursor,
        ModeChange::LeaveAlternateScreen,
        ModeChange::DisableRawMode,
    ]
}

/// Whether a terminal session still has its modes to restore.
pub struct TerminalSession {
    pub active: bool,
}

impl TerminalSession {
    /// A session whose modes have just been set up.
    pub fn open() -> (r: TerminalSession)
        ensures
            r.active,
    {
        TerminalSession { active: true }
    }

    /// Ends the session, on the normal path or after an error: the
    /// restoration sequence to run, which is empty when it already ran.
    pub fn finish(&mut self) -> (r: Vec<ModeChange>)
        ensures
            (r@, *final(self)) == finish_spec(*old(self)),
    {
        if self.active {
            self.active = false;
            let r = vec![
                ModeChange::ResetColor,
                ModeChange::ShowCursor,
                ModeChange::LeaveAlternateScreen,
                ModeChange::DisableRawMode,
            ];
            assert(r@ =~= restore_spec());
            r
        } else {
            Vec::new()
        }
    }
}

/// Finishing a session: the restoration sequence and an inactive session
/// when it was active; nothing to run when it was not.
pub open spec fn finish_spec(s: TerminalSession) -> (Seq<ModeChange>, TerminalSession) {
    if s.active {
        (restore_spec(), TerminalSession { active: false })
    } else {
        (seq![], s)
    }
}

/// The restoration of an opened session runs exactly once: when it is
/// finished twice (first on an error path, then again on the way out), the
/// first finish yields the whole sequence and the second yields nothing.
pub proof fn lemma_restore_once(s: TerminalSession)
    requires
        s.active,
    ensures
        finish_spec(s).0 == restore_spec(),
        finish_spec(finish_spec(s).1).0.len() == 0,
        !finish_spec(finish_spec(s).1).1.active,
{
}

} // verus!
