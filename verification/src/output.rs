//! The audience stage and the clock, owned by the core. Surfaces only
//! render snapshots.

use vstd::prelude::*;

use crate::clock::{AssignmentClock, ClockSnapshot, MeetingClock};
use crate::platform::SpeakerMode;
use crate::week::opt_view;

verus! {

/// What the audience is showing: black, a picture, or a video.
#[derive(Debug, Clone, Copy, PartialEq, Eq, Structural)]
pub enum StageKind {
    Black,
    Image,
    Video,
}

/// Versioned stage snapshot. `rev` never goes back, so late events can be ignored.
#[derive(Debug)]
pub struct StageSnapshot {
    pub rev: u64,
    pub kind: StageKind,
    pub title: Option<String>,
    pub mime: Option<String>,
    pub path: Option<String>,
}

/// A [`StageSnapshot`] with its strings as characters.
pub struct StageV {
    pub rev: u64,
    pub kind: StageKind,
    pub title: Option<Seq<char>>,
    pub mime: Option<Seq<char>>,
    pub path: Option<Seq<char>>,
}

impl View for StageSnapshot {
    type V = StageV;

    open spec fn view(&self) -> StageV {
        StageV {
            rev: self.rev,
            kind: self.kind,
            title: opt_view(self.title),
            mime: opt_view(self.mime),
            path: opt_view(self.path),
        }
    }
}

impl StageSnapshot {
    /// A copy with the same contents.
    pub fn copy(&self) -> (r: StageSnapshot)
        ensures
            r@ == self@,
    {
        StageSnapshot {
            rev: self.rev,
            kind: self.kind,
            title: crate::week::copy_opt(&self.title),
            mime: crate::week::copy_opt(&self.mime),
            path: crate::week::copy_opt(&self.path),
        }
    }
}

/// The next revision: one more, held at the maximum.
pub open spec fn next_rev(rev: u64) -> u64 {
    if rev < u64::MAX {
        (rev + 1) as u64
    } else {
        rev
    }
}

/// The stage after opening a medium.
pub open spec fn open_spec(s: StageV, kind: StageKind, title: Seq<char>, mime: Seq<char>, path: Seq<char>) -> StageV {
    StageV { rev: next_rev(s.rev), kind, title: Some(title), mime: Some(mime), path: Some(path) }
}

/// The stage after going back to black.
pub open spec fn close_spec(s: StageV) -> StageV {
    StageV { rev: next_rev(s.rev), kind: StageKind::Black, title: None, mime: None, path: None }
}

/// In-memory stage owned by the core.
pub trait OutputPort {
    /// The stage the port holds.
    spec fn stage_view(&self) -> StageV;

    /// Current stage without changing it.
    fn snapshot(&self) -> (s: StageSnapshot)
        ensures
            s@ == self.stage_view(),
    ;
}

/// Stage, clock and speaker mode held together.
#[derive(Debug)]
pub struct OutputState {
    pub stage: StageSnapshot,
    pub clock: AssignmentClock,
    pub speaker_mode: SpeakerMode,
}

impl OutputState {
    /// Black stage and idle clock at rev 0.
    pub fn idle() -> (r: OutputState)
        ensures
            r.stage@ == (StageV { rev: 0, kind: StageKind::Black, title: None, mime: None, path: None }),
            r.clock@.rev == 0,
            r.clock@.phase is Idle,
            r.speaker_mode == SpeakerMode::Hidden,
    {
        OutputState {
            stage: StageSnapshot { rev: 0, kind: StageKind::Black, title: None, mime: None, path: None },
            clock: AssignmentClock::idle(),
            speaker_mode: SpeakerMode::Hidden,
        }
    }

    /// Shows a medium on the stage and returns the new snapshot.
    pub fn open_media(&mut self, kind: StageKind, title: String, mime: String, path: String) -> (r: StageSnapshot)
        ensures
            final(self).stage@ == open_spec(old(self).stage@, kind, title@, mime@, path@),
            r@ == final(self).stage@,
            final(self).clock == old(self).clock,
            final(self).speaker_mode == old(self).speaker_mode,
    {
        let rev = self.stage.rev.saturating_add(1);
        self.stage = StageSnapshot { rev, kind, title: Some(title), mime: Some(mime), path: Some(path) };
        self.stage.copy()
    }

    /// Goes back to a black stage and returns the new snapshot.
    pub fn close_media(&mut self) -> (r: StageSnapshot)
        ensures
            final(self).stage@ == close_spec(old(self).stage@),
            r@ == final(self).stage@,
            final(self).clock == old(self).clock,
            final(self).speaker_mode == old(self).speaker_mode,
    {
        let rev = self.stage.rev.saturating_add(1);
        self.stage = StageSnapshot { rev, kind: StageKind::Black, title: None, mime: None, path: None };
        self.stage.copy()
    }
}

impl OutputPort for OutputState {
    open spec fn stage_view(&self) -> StageV {
        self.stage@
    }

    fn snapshot(&self) -> StageSnapshot {
        self.stage.copy()
    }
}

impl MeetingClock for OutputState {
    open spec fn clock_view(&self) -> crate::clock::ClockModel {
        self.clock@
    }

    fn snapshot(&self) -> ClockSnapshot {
        let s = self.clock.snapshot();
        proof {
            let now = choose|now: u64| s.model() == crate::clock::model_snapshot(self.clock@, now);
            assert(s.model() == crate::clock::model_snapshot(self.clock_view(), now));
        }
        s
    }
}

/// Read model a reloaded console uses to resync without touching the stage.
#[derive(Debug)]
pub struct OutputBundleDto {
    pub stage: StageSnapshot,
    pub clock: ClockSnapshot,
    pub speaker_mode: SpeakerMode,
}

/// Speaker HUD flags published when surfaces change.
#[derive(Debug)]
pub struct SpeakerUiDto {
    pub mode: SpeakerMode,
    pub message: String,
}

/// Every stage change moves the revision forward (it only stays put once
/// it has reached the maximum), so a late snapshot can always be told apart.
pub proof fn law_stage_rev_advances(s: StageV, kind: StageKind, title: Seq<char>, mime: Seq<char>, path: Seq<char>)
    ensures
        open_spec(s, kind, title, mime, path).rev >= s.rev,
        close_spec(s).rev >= s.rev,
        s.rev < u64::MAX ==> open_spec(s, kind, title, mime, path).rev == s.rev + 1,
        s.rev < u64::MAX ==> close_spec(s).rev == s.rev + 1,
{
}

} // verus!
