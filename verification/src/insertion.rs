//! Focus-safe desktop insertion rules.

use crate::desktop::{ClipboardInserter, InsertionResult};
use crate::error::{ErrorCategory, VoxError};
use crate::ports::{InsertionArm, InsertionMode, InsertionOutcome};
use crate::session::SessionId;
use crate::text::same_text;
use vstd::prelude::*;
use vstd::string::*;

verus! {

#[derive(Clone, Copy, Debug, Eq, PartialEq, Structural)]
pub struct DesktopInsertionAdapter {
    clipboard: ClipboardInserter,
}

/// Only a bridge that cannot be reached may be gone round: a focus or security rejection stands.
pub open spec fn may_go_round(error: VoxError) -> bool {
    ||| error.code_text() == "fcitx.transport_failed"@
    ||| error.code_text() == "fcitx.runtime_unavailable"@
}

pub fn may_auto_fallback_from_fcitx(error: &VoxError) -> (r: bool)
    ensures
        r == may_go_round(*error),
{
    same_text(error.code(), "fcitx.transport_failed") || same_text(
        error.code(),
        "fcitx.runtime_unavailable",
    )
}

/// Whether the bridge is to be armed in this mode.
pub fn arms_fcitx(mode: InsertionMode) -> (r: bool)
    ensures
        r == (mode == InsertionMode::Auto || mode == InsertionMode::Fcitx),
{
    match mode {
        InsertionMode::Auto => true,
        InsertionMode::Fcitx => true,
        InsertionMode::Clipboard => false,
        InsertionMode::Copy => false,
    }
}

/// The backend that a mode leads to; `armed` is what arming the bridge brought, where it was
/// armed.
pub open spec fn backend_for(mode: InsertionMode, armed: Result<(), VoxError>) -> Result<
    Seq<char>,
    VoxError,
> {
    match mode {
        InsertionMode::Auto => match armed {
            Ok(_) => Ok("fcitx5"@),
            Err(error) => if may_go_round(error) {
                Ok("copy-only"@)
            } else {
                Err(error)
            },
        },
        InsertionMode::Fcitx => match armed {
            Ok(_) => Ok("fcitx5"@),
            Err(error) => Err(error),
        },
        InsertionMode::Clipboard => Ok("wl-copy+ydotool"@),
        InsertionMode::Copy => Ok("copy-only"@),
    }
}

/// How an armed text is inserted.
#[derive(Clone, Copy, Debug, Eq, PartialEq, Structural)]
pub enum CommitRoute {
    Fcitx,
    Paste,
    Copy,
}

impl DesktopInsertionAdapter {
    pub closed spec fn inserter(self) -> ClipboardInserter {
        self.clipboard
    }

    pub fn new(restore_clipboard: bool) -> (adapter: Self)
        ensures
            adapter.inserter().restores() == restore_clipboard,
            adapter.inserter().delay() == 250,
    {
        DesktopInsertionAdapter {
            clipboard: ClipboardInserter::default().with_restore(restore_clipboard),
        }
    }

    pub fn clipboard(&self) -> (r: ClipboardInserter)
        ensures
            r == self.inserter(),
    {
        self.clipboard
    }

    /// Arms a session, from what arming the bridge brought.
    pub fn arm(&self, mode: InsertionMode, session: &SessionId, armed: Result<(), VoxError>) -> (r:
        Result<InsertionArm, VoxError>)
        ensures
            match backend_for(mode, armed) {
                Ok(backend) => {
                    &&& r matches Ok(arm)
                    &&& arm.session == *session
                    &&& arm.backend@ == backend
                },
                Err(error) => r matches Err(refused) && refused == error,
            },
    {
        let backend = match mode {
            InsertionMode::Auto => match armed {
                Ok(_) => "fcitx5",
                Err(error) => {
                    if !may_auto_fallback_from_fcitx(&error) {
                        return Err(error);
                    }
                    "copy-only"
                },
            },
            InsertionMode::Fcitx => match armed {
                Ok(_) => "fcitx5",
                Err(error) => {
                    return Err(error);
                },
            },
            InsertionMode::Clipboard => "wl-copy+ydotool",
            InsertionMode::Copy => "copy-only",
        };
        Ok(InsertionArm { session: session.clone(), backend })
    }

    /// How the text of an armed session is inserted.
    pub fn commit(&self, arm: &InsertionArm) -> (r: Result<CommitRoute, VoxError>)
        ensures
            match r {
                Ok(CommitRoute::Fcitx) => arm.backend@ == "fcitx5"@,
                Ok(CommitRoute::Paste) => arm.backend@ == "wl-copy+ydotool"@,
                Ok(CommitRoute::Copy) => arm.backend@ == "copy-only"@,
                Err(error) => {
                    &&& arm.backend@ != "fcitx5"@
                    &&& arm.backend@ != "wl-copy+ydotool"@
                    &&& arm.backend@ != "copy-only"@
                    &&& error.says(
                        ErrorCategory::InvalidState,
                        "desktop.invalid_arm"@,
                        "insertion arm selected an unknown backend"@,
                        false,
                    )
                },
            },
    {
        if same_text(arm.backend, "fcitx5") {
            Ok(CommitRoute::Fcitx)
        } else if same_text(arm.backend, "wl-copy+ydotool") {
            Ok(CommitRoute::Paste)
        } else if same_text(arm.backend, "copy-only") {
            Ok(CommitRoute::Copy)
        } else {
            Err(
                VoxError::new(
                    ErrorCategory::InvalidState,
                    "desktop.invalid_arm",
                    "insertion arm selected an unknown backend",
                ),
            )
        }
    }

    /// Whether the bridge is to be told that a session was cancelled.
    pub fn cancel(&self, arm: &InsertionArm) -> (r: bool)
        ensures
            r == (arm.backend@ == "fcitx5"@),
    {
        same_text(arm.backend, "fcitx5")
    }
}

/// A text was committed through the bridge.
pub fn fcitx_outcome() -> (outcome: InsertionOutcome)
    ensures
        outcome.backend@ == "fcitx5"@,
        outcome.clipboard_restored,
{
    InsertionOutcome { backend: "fcitx5", clipboard_restored: true }
}

/// What the clipboard did with a text; a failure of a route has a code of its own.
pub fn clipboard_outcome(route: CommitRoute, outcome: Result<InsertionResult, &str>) -> (r: Result<
    InsertionOutcome,
    VoxError,
>)
    ensures
        match outcome {
            Ok(result) => {
                &&& r matches Ok(inserted)
                &&& inserted.backend@ == result.backend@
                &&& inserted.clipboard_restored == result.clipboard_restored
            },
            Err(reason) => r matches Err(error) && error.says(
                ErrorCategory::Unavailable,
                if route == CommitRoute::Copy {
                    "desktop.copy_failed"@
                } else {
                    "desktop.insertion_failed"@
                },
                reason@,
                false,
            ),
        },
{
    match outcome {
        Ok(result) => Ok(
            InsertionOutcome {
                backend: result.backend,
                clipboard_restored: result.clipboard_restored,
            },
        ),
        Err(reason) => {
            let code = match route {
                CommitRoute::Copy => "desktop.copy_failed",
                _ => "desktop.insertion_failed",
            };
            Err(VoxError::new(ErrorCategory::Unavailable, code, reason))
        },
    }
}

/// Text never goes round a focus or security rejection: whatever the mode, an armed session uses
/// the bridge, or the rejection is handed on, or the mode was chosen to do without the bridge.
pub proof fn law_rejection_is_never_bypassed(mode: InsertionMode, error: VoxError)
    requires
        !may_go_round(error),
        mode == InsertionMode::Auto || mode == InsertionMode::Fcitx,
    ensures
        backend_for(mode, Err::<(), VoxError>(error)) == Err::<Seq<char>, VoxError>(error),
{
}

/// Without the bridge, the automatic mode only copies: it never presses keys in a window whose
/// focus nobody checked.
pub proof fn law_auto_never_pastes(armed: Result<(), VoxError>)
    ensures
        backend_for(InsertionMode::Auto, armed) != Ok::<Seq<char>, VoxError>("wl-copy+ydotool"@),
{
    reveal_strlit("wl-copy+ydotool");
    reveal_strlit("copy-only");
    reveal_strlit("fcitx5");
    assert("wl-copy+ydotool"@.len() == 15 && "copy-only"@.len() == 9 && "fcitx5"@.len() == 6);
}

/// Text goes through the bridge where the bridge took the target; where the choice is free and the
/// bridge cannot be reached at all, it is copied; where the bridge was chosen, its error stands.
pub proof fn law_bridge_comes_first(armed: Result<(), VoxError>)
    ensures
        armed is Ok ==> backend_for(InsertionMode::Auto, armed) == Ok::<Seq<char>, VoxError>(
            "fcitx5"@,
        ) && backend_for(InsertionMode::Fcitx, armed) == Ok::<Seq<char>, VoxError>("fcitx5"@),
        armed is Err && (armed->Err_0.code_text() == "fcitx.transport_failed"@
            || armed->Err_0.code_text() == "fcitx.runtime_unavailable"@) ==> backend_for(
            InsertionMode::Auto,
            armed,
        ) == Ok::<Seq<char>, VoxError>("copy-only"@),
        armed is Err && armed->Err_0.code_text() != "fcitx.transport_failed"@
            && armed->Err_0.code_text() != "fcitx.runtime_unavailable"@ ==> backend_for(
            InsertionMode::Auto,
            armed,
        ) == Err::<Seq<char>, VoxError>(armed->Err_0),
        armed is Err ==> backend_for(InsertionMode::Fcitx, armed) == Err::<Seq<char>, VoxError>(
            armed->Err_0,
        ),
        backend_for(InsertionMode::Clipboard, armed) == Ok::<Seq<char>, VoxError>(
            "wl-copy+ydotool"@,
        ),
        backend_for(InsertionMode::Copy, armed) == Ok::<Seq<char>, VoxError>("copy-only"@),
{
}

} // verus!
