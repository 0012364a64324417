//! Runtime-neutral ports implemented by capture and desktop adapters.

use crate::error::VoxError;
use crate::session::SessionId;
use vstd::prelude::*;

verus! {

/// Content-free metrics for one captured PCM frame.
#[derive(Clone, Copy, Debug, Eq, PartialEq, Structural)]
pub struct CaptureFrameMetrics {
    pub frame: u64,
    pub rms: u16,
    pub peak: u16,
    pub clipped_samples: u16,
    pub samples: u16,
}

/// Completed recording passed to voice detection and provider orchestration.
#[derive(Clone, Debug, Eq, PartialEq)]
pub struct CapturedAudio {
    pub path: String,
    pub bytes: u64,
    pub duration_millis: u64,
    pub backend: &'static str,
}

/// One active capture owned by the single-session application flow.
pub trait CaptureSession: Send + Sync {
    /// The capture may end like this when it is stopped. Which ends those are is each capture's
    /// own; one that does not say may end in any way.
    open spec fn may_finish(&self, r: Result<CapturedAudio, VoxError>) -> bool {
        true
    }

    /// Stops capture and transfers ownership of its completed PCM spool.
    fn stop(self: Box<Self>) -> (r: Result<CapturedAudio, VoxError>)
        ensures
            self.may_finish(r),
    ;

    /// Cancels capture and removes partial audio.
    fn cancel(self: Box<Self>);

    /// The capture may have these frames ready. One that does not say may have any.
    open spec fn may_drain(&self, frames: Seq<CaptureFrameMetrics>) -> bool {
        true
    }

    /// Drains currently available content-free frame metrics.
    fn drain_metrics(&mut self) -> (frames: Vec<CaptureFrameMetrics>)
        ensures
            old(self).may_drain(frames@),
    ;
}

/// Starts capture without exposing a concrete process type to the application controller.
pub trait CaptureAdapter: Send + Sync {
    /// The adapter may answer `r` to the wish for a capture from the device. One that does not
    /// say may answer anything.
    open spec fn may_open(
        &self,
        device: Option<Seq<char>>,
        r: Result<Box<dyn CaptureSession>, VoxError>,
    ) -> bool {
        true
    }

    /// Starts one capture from the configured device or system default.
    fn start(&self, device: Option<&str>) -> (r: Result<Box<dyn CaptureSession>, VoxError>)
        ensures
            self.may_open(
                match device {
                    Some(name) => Some(name@),
                    None => None,
                },
                r,
            ),
    ;
}

/// User-configured insertion mode without desktop-specific target data.
#[derive(Clone, Copy, Debug, Eq, PartialEq, Structural)]
pub enum InsertionMode {
    Auto,
    Fcitx,
    Clipboard,
    Copy,
}

/// Opaque-enough insertion lease retained for one session.
#[derive(Clone, Debug, Eq, PartialEq)]
pub struct InsertionArm {
    pub session: SessionId,
    pub backend: &'static str,
}

/// Transcript-free result of a completed desktop insertion.
#[derive(Clone, Copy, Debug, Eq, PartialEq)]
pub struct InsertionOutcome {
    pub backend: &'static str,
    pub clipboard_restored: bool,
}

/// Focus-safe insertion lifecycle implemented at the desktop boundary.
pub trait InsertionAdapter: Send + Sync {
    /// The desktop may answer `r` to the wish for a target in this mode for this session. A
    /// desktop that does not say may answer anything, here and below.
    open spec fn may_arm(
        &self,
        mode: InsertionMode,
        session: SessionId,
        r: Result<InsertionArm, VoxError>,
    ) -> bool {
        true
    }

    /// Arms the intended target before microphone capture begins.
    fn arm(&self, mode: InsertionMode, session: &SessionId) -> (r: Result<InsertionArm, VoxError>)
        ensures
            self.may_arm(mode, *session, r),
    ;

    /// The desktop may answer `r` to the wish to insert this text at this target.
    open spec fn may_commit(
        &self,
        arm: InsertionArm,
        text: Seq<char>,
        r: Result<InsertionOutcome, VoxError>,
    ) -> bool {
        true
    }

    /// Commits final text through the previously armed path.
    fn commit(&self, arm: &InsertionArm, text: &str) -> (r: Result<InsertionOutcome, VoxError>)
        ensures
            self.may_commit(*arm, text@, r),
    ;

    /// Cancels any desktop-side target retained for this session.
    fn cancel(&self, arm: &InsertionArm);

    /// The desktop may answer `r` to a test with this text.
    open spec fn may_insert(&self, text: Seq<char>, r: Result<InsertionOutcome, VoxError>) -> bool {
        true
    }

    /// Exercises the explicit compatibility inserter for diagnostics.
    fn insert_diagnostic(&self, text: &str) -> (r: Result<InsertionOutcome, VoxError>)
        ensures
            self.may_insert(text@, r),
    ;
}

} // verus!
