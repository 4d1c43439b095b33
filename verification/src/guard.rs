//! Process-wide capture exclusion.
//!
//! Only one active capture session — of either kind — is permitted at a
//! time per process.  The two engines each refuse a second `start` of
//! their own kind; this guard is the shared flag that refuses a session of
//! the other kind as well.  The shell consults it before starting either
//! engine and releases it when the session ends.

use vstd::prelude::*;
use crate::errors::RecorderError;

verus! {

/// Which capture path owns the process-wide slot.
#[derive(Debug, Clone, Copy, PartialEq, Eq, Structural)]
pub enum CaptureKind {
    /// The single-device loopback engine.
    Device,
    /// The multi-speaker voice-session receiver.
    VoiceSession,
}

/// The process-wide slot: free, or held by exactly one capture kind.
pub struct CaptureGuard {
    active: Option<CaptureKind>,
}

impl CaptureGuard {
    /// The kind currently holding the slot, if any.  At most one session
    /// of either kind can hold it — the slot is a single `Option`.
    pub closed spec fn spec_active(&self) -> Option<CaptureKind> {
        self.active
    }

    /// A fresh guard: no session of either kind is active.
    pub fn new() -> (r: CaptureGuard)
        ensures
            r.spec_active() is None,
    {
        CaptureGuard { active: None }
    }

    /// Whether any capture session holds the slot.
    pub fn is_busy(&self) -> (r: bool)
        ensures
            r == (self.spec_active() is Some),
    {
        self.active.is_some()
    }

    /// Claim the slot for one capture kind.  Refused with
    /// `AlreadyRecording` — the slot untouched — while any session of
    /// either kind holds it.
    pub fn acquire(&mut self, kind: CaptureKind) -> (r: Result<(), RecorderError>)
        ensures
            r is Ok <==> old(self).spec_active() is None,
            r is Ok ==> final(self).spec_active() == Some(kind),
            r is Err ==> *final(self) == *old(self) && r == Result::<(), RecorderError>::Err(
                RecorderError::AlreadyRecording,
            ),
    {
        if self.active.is_some() {
            return Err(RecorderError::AlreadyRecording);
        }
        self.active = Some(kind);
        Ok(())
    }

    /// Free the slot when the session ends.  Releasing an already-free
    /// slot is a no-op, so a stop that races a failed start cannot free
    /// someone else's session.
    pub fn release(&mut self)
        ensures
            final(self).spec_active() is None,
    {
        self.active = None;
    }
}

/// The exclusion law: whichever kind holds the slot, the other kind does
/// not — there is one slot, so two capture sessions can never be active at
/// once.
pub proof fn lemma_exclusive(g: &CaptureGuard)
    ensures
        g.spec_active() == Some(CaptureKind::Device) ==> g.spec_active() != Some(
            CaptureKind::VoiceSession,
        ),
        g.spec_active() == Some(CaptureKind::VoiceSession) ==> g.spec_active() != Some(
            CaptureKind::Device,
        ),
{
}

} // verus!
