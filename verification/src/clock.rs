//! The assignment clock: one meeting part at a time, armed, running or idle.
//!
//! Time is read as milliseconds on a caller-chosen axis; the `*_at` methods
//! take that reading explicitly so every behaviour is a function of it.

use vstd::prelude::*;

use crate::error::AppError;
use crate::text::{chars_of, trim, trim_seq, utf8_len, utf8_len_within};

verus! {

/// `idle` has no part; `armed` is ready (or paused); `running` counts.
#[derive(Debug, Clone, Copy, PartialEq, Eq, Structural)]
pub enum ClockState {
    Idle,
    Armed,
    Running,
}

/// HUD / panel colour.
#[derive(Debug, Clone, Copy, PartialEq, Eq, Structural)]
pub enum ClockHue {
    Green,
    Amber,
    Red,
}

/// Versioned clock snapshot for the speaker HUD and the operator timer block.
#[derive(Debug, Clone)]
pub struct ClockSnapshot {
    pub rev: u64,
    pub state: ClockState,
    pub title: Option<String>,
    pub assigned_ms: u64,
    pub elapsed_ms: u64,
    pub remaining_ms: i64,
    pub overtime_ms: u64,
    pub progress_pct: u8,
    pub hue: ClockHue,
}

/// Payload for arming: title 1–80 bytes after trimming, minutes 1–180.
#[derive(Debug, Clone)]
pub struct ClockArmDto {
    pub title: String,
    pub minutes: u32,
}

/// Read access to the meeting assignment clock.
pub trait MeetingClock {
    /// The clock the port reads.
    spec fn clock_view(&self) -> ClockModel;

    /// Current clock without mutating it, as read at some moment.
    fn snapshot(&self) -> (s: ClockSnapshot)
        ensures
            exists|now: u64| s.model() == model_snapshot(self.clock_view(), now),
    ;
}

pub const MIN_TITLE: usize = 1;

pub const MAX_TITLE: usize = 80;

pub const MIN_MINUTES: u32 = 1;

pub const MAX_MINUTES: u32 = 180;

pub const WARN_FLOOR_MS: u64 = 60_000;

/// Abstract state of the clock.
pub enum ClockPhase {
    Idle,
    Armed { title: Seq<char>, assigned_ms: u64, elapsed_ms: u64 },
    Running { title: Seq<char>, assigned_ms: u64, elapsed_at_start: u64, started_at: u64 },
}

/// Abstract clock: a revision counter and a phase.
pub struct ClockModel {
    pub rev: u64,
    pub phase: ClockPhase,
}

/// Abstract snapshot (a [`ClockSnapshot`] with the title as characters).
pub struct SnapshotModel {
    pub rev: u64,
    pub state: ClockState,
    pub title: Option<Seq<char>>,
    pub assigned_ms: u64,
    pub elapsed_ms: u64,
    pub remaining_ms: int,
    pub overtime_ms: u64,
    pub progress_pct: u8,
    pub hue: ClockHue,
}

impl ClockSnapshot {
    /// The snapshot with its title as characters.
    pub open spec fn model(&self) -> SnapshotModel {
        SnapshotModel {
            rev: self.rev,
            state: self.state,
            title: match self.title {
                Some(t) => Some(t@),
                None => None,
            },
            assigned_ms: self.assigned_ms,
            elapsed_ms: self.elapsed_ms,
            remaining_ms: self.remaining_ms as int,
            overtime_ms: self.overtime_ms,
            progress_pct: self.progress_pct,
            hue: self.hue,
        }
    }
}

/// `x.saturating_add(1)`.
pub open spec fn bump(x: u64) -> u64 {
    if x < u64::MAX {
        (x + 1) as u64
    } else {
        x
    }
}

/// `a.saturating_add(b)` on `u64`.
pub open spec fn sat_add(a: u64, b: u64) -> u64 {
    if a + b <= u64::MAX {
        (a + b) as u64
    } else {
        u64::MAX
    }
}

/// Milliseconds counted while running: the elapsed time at the start plus
/// the time since `started_at` (none if the reading is earlier).
pub open spec fn elapsed_since_spec(elapsed_at_start: u64, started_at: u64, now: u64) -> u64 {
    sat_add(elapsed_at_start, if now >= started_at { (now - started_at) as u64 } else { 0 })
}

/// `assigned as i64 - elapsed as i64` with two's-complement wrap-around.
pub open spec fn remaining_spec(assigned_ms: u64, elapsed_ms: u64) -> int {
    let v = assigned_ms - elapsed_ms;
    if v < i64::MIN {
        v + 0x1_0000_0000_0000_0000
    } else if v > i64::MAX {
        v - 0x1_0000_0000_0000_0000
    } else {
        v
    }
}

/// Last-stretch threshold: max(assigned / 5, one minute).
pub open spec fn warn_threshold_spec(assigned_ms: u64) -> u64 {
    if assigned_ms / 5 >= WARN_FLOOR_MS {
        (assigned_ms / 5) as u64
    } else {
        WARN_FLOOR_MS
    }
}

/// Colour for the remaining time.
pub open spec fn hue_spec(assigned_ms: u64, remaining_ms: int) -> ClockHue {
    if remaining_ms <= 0 {
        ClockHue::Red
    } else if remaining_ms <= warn_threshold_spec(assigned_ms) {
        ClockHue::Amber
    } else {
        ClockHue::Green
    }
}

/// Overtime: how far below zero the remaining time is.
pub open spec fn overtime_spec(remaining_ms: int) -> u64 {
    if remaining_ms < 0 {
        (-remaining_ms) as u64
    } else {
        0
    }
}

/// Percentage of the assigned time used, capped at 100.
pub open spec fn progress_spec(assigned_ms: u64, elapsed_ms: u64) -> u8 {
    if assigned_ms == 0 {
        0
    } else {
        let scaled: int = if elapsed_ms * 100 <= u64::MAX {
            elapsed_ms * 100
        } else {
            u64::MAX as int
        };
        let pct = scaled / (assigned_ms as int);
        if pct > 100 {
            100
        } else {
            pct as u8
        }
    }
}

/// The snapshot of a part in `state` with the given times.
pub open spec fn snapshot_of_spec(
    rev: u64,
    state: ClockState,
    title: Seq<char>,
    assigned_ms: u64,
    elapsed_ms: u64,
) -> SnapshotModel {
    let remaining = remaining_spec(assigned_ms, elapsed_ms);
    SnapshotModel {
        rev,
        state,
        title: Some(title),
        assigned_ms,
        elapsed_ms,
        remaining_ms: remaining,
        overtime_ms: overtime_spec(remaining),
        progress_pct: progress_spec(assigned_ms, elapsed_ms),
        hue: hue_spec(assigned_ms, remaining),
    }
}

/// What the clock shows at time `now`.
pub open spec fn model_snapshot(m: ClockModel, now: u64) -> SnapshotModel {
    match m.phase {
        ClockPhase::Idle => SnapshotModel {
            rev: m.rev,
            state: ClockState::Idle,
            title: None,
            assigned_ms: 0,
            elapsed_ms: 0,
            remaining_ms: 0,
            overtime_ms: 0,
            progress_pct: 0,
            hue: ClockHue::Green,
        },
        ClockPhase::Armed { title, assigned_ms, elapsed_ms } => snapshot_of_spec(
            m.rev,
            ClockState::Armed,
            title,
            assigned_ms,
            elapsed_ms,
        ),
        ClockPhase::Running { title, assigned_ms, elapsed_at_start, started_at } => {
            snapshot_of_spec(
                m.rev,
                ClockState::Running,
                title,
                assigned_ms,
                elapsed_since_spec(elapsed_at_start, started_at, now),
            )
        },
    }
}

/// A title is accepted when its trimmed form is 1–80 bytes long.
pub open spec fn title_ok(title: Seq<char>) -> bool {
    MIN_TITLE <= utf8_len(trim_seq(title)) && utf8_len(trim_seq(title)) <= MAX_TITLE
}

/// Minutes are accepted in 1–180.
pub open spec fn minutes_ok(minutes: u32) -> bool {
    MIN_MINUTES <= minutes && minutes <= MAX_MINUTES
}

/// The clock after arming a part (whatever it was doing before).
pub open spec fn model_arm(m: ClockModel, title: Seq<char>, minutes: u32) -> ClockModel {
    ClockModel {
        rev: bump(m.rev),
        phase: ClockPhase::Armed {
            title: trim_seq(title),
            assigned_ms: (minutes * 60_000) as u64,
            elapsed_ms: 0,
        },
    }
}

/// The clock after a successful start at `now` (`None` when idle).
pub open spec fn model_start(m: ClockModel, now: u64) -> Option<ClockModel> {
    match m.phase {
        ClockPhase::Idle => None,
        ClockPhase::Running { .. } => Some(m),
        ClockPhase::Armed { title, assigned_ms, elapsed_ms } => Some(
            ClockModel {
                rev: bump(m.rev),
                phase: ClockPhase::Running {
                    title,
                    assigned_ms,
                    elapsed_at_start: elapsed_ms,
                    started_at: now,
                },
            },
        ),
    }
}

/// The clock after a successful pause at `now` (`None` unless running).
pub open spec fn model_pause(m: ClockModel, now: u64) -> Option<ClockModel> {
    match m.phase {
        ClockPhase::Running { title, assigned_ms, elapsed_at_start, started_at } => Some(
            ClockModel {
                rev: bump(m.rev),
                phase: ClockPhase::Armed {
                    title,
                    assigned_ms,
                    elapsed_ms: elapsed_since_spec(elapsed_at_start, started_at, now),
                },
            },
        ),
        _ => None,
    }
}

/// `std::time::Instant`, a reading of the monotonic clock.
#[verifier::external_type_specification]
#[verifier::external_body]
pub struct ExInstant(std::time::Instant);

/// In-memory assignment clock. The shell never owns the tick. Times are
/// milliseconds on the monotonic clock since `epoch`, when the clock was made.
#[derive(Debug, Clone)]
pub struct AssignmentClock {
    rev: u64,
    inner: Inner,
    epoch: std::time::Instant,
}

#[derive(Debug, Clone)]
enum Inner {
    Idle,
    Armed { title: String, assigned_ms: u64, elapsed_ms: u64 },
    Running { title: String, assigned_ms: u64, elapsed_at_start: u64, started_at: u64 },
}

impl View for AssignmentClock {
    type V = ClockModel;

    closed spec fn view(&self) -> ClockModel {
        ClockModel {
            rev: self.rev,
            phase: match self.inner {
                Inner::Idle => ClockPhase::Idle,
                Inner::Armed { title, assigned_ms, elapsed_ms } => ClockPhase::Armed {
                    title: title@,
                    assigned_ms,
                    elapsed_ms,
                },
                Inner::Running { title, assigned_ms, elapsed_at_start, started_at } => {
                    ClockPhase::Running { title: title@, assigned_ms, elapsed_at_start, started_at }
                },
            },
        }
    }
}

/// `Instant` is `Copy`; its `clone` gives the same reading.
pub assume_specification[ <std::time::Instant as Clone>::clone ](instant: &std::time::Instant) -> (r: std::time::Instant)
    ensures
        r == *instant,
;

/// `Instant::now()`. Nothing is promised of the reading.
#[verifier::external_body]
fn instant_now() -> std::time::Instant {
    std::time::Instant::now()
}

/// `anchor.elapsed()` in whole milliseconds (`Instant::elapsed` saturates
/// at zero and never goes back). Nothing is promised of the value.
#[verifier::external_body]
fn millis_since(anchor: &std::time::Instant) -> u64 {
    anchor.elapsed().as_millis() as u64
}

fn bump_exec(x: u64) -> (r: u64)
    ensures
        r == bump(x),
{
    x.saturating_add(1)
}

impl AssignmentClock {
    /// Idle clock at rev 0.
    pub fn idle() -> (c: Self)
        ensures
            c@.rev == 0,
            c@.phase is Idle,
    {
        Self { rev: 0, inner: Inner::Idle, epoch: instant_now() }
    }

    /// Arms (or replaces) a single part. Does not start counting.
    pub fn arm(&mut self, title: &str, minutes: u32) -> (r: Result<(), AppError>)
        ensures
            r is Ok <==> title_ok(title@) && minutes_ok(minutes),
            r is Ok ==> final(self)@ == model_arm(old(self)@, title@, minutes),
            r is Err ==> final(self)@ == old(self)@ && r->Err_0 is Invariant,
    {
        let title = match validate_title(title) {
            Ok(t) => t,
            Err(e) => return Err(e),
        };
        let assigned_ms = match validate_minutes(minutes) {
            Ok(m) => m,
            Err(e) => return Err(e),
        };
        self.rev = bump_exec(self.rev);
        self.inner = Inner::Armed { title, assigned_ms, elapsed_ms: 0 };
        Ok(())
    }

    /// Starts or resumes at the current time. Idempotent if already running.
    pub fn start(&mut self) -> (r: Result<(), AppError>)
        ensures
            r is Ok <==> !(old(self)@.phase is Idle),
            r is Err ==> final(self)@ == old(self)@ && r->Err_0 is ClockNotArmed,
            r is Ok ==> exists|now: u64| model_start(old(self)@, now) == Some(final(self)@),
    {
        self.start_at(millis_since(&self.epoch))
    }

    /// Starts or resumes as of `now`.
    pub fn start_at(&mut self, now: u64) -> (r: Result<(), AppError>)
        ensures
            r is Ok <==> model_start(old(self)@, now) is Some,
            r is Ok ==> Some(final(self)@) == model_start(old(self)@, now),
            r is Err ==> final(self)@ == old(self)@ && r->Err_0 is ClockNotArmed,
    {
        let next = match &self.inner {
            Inner::Idle => return Err(AppError::ClockNotArmed),
            Inner::Running { .. } => return Ok(()),
            Inner::Armed { title, assigned_ms, elapsed_ms } => Inner::Running {
                title: title.clone(),
                assigned_ms: *assigned_ms,
                elapsed_at_start: *elapsed_ms,
                started_at: now,
            },
        };
        self.rev = bump_exec(self.rev);
        self.inner = next;
        Ok(())
    }

    /// Freezes elapsed at the current time and returns to `armed`.
    pub fn pause(&mut self) -> (r: Result<(), AppError>)
        ensures
            r is Ok <==> old(self)@.phase is Running,
            r is Err ==> final(self)@ == old(self)@ && r->Err_0 is ClockNotRunning,
            r is Ok ==> exists|now: u64| model_pause(old(self)@, now) == Some(final(self)@),
    {
        self.pause_at(millis_since(&self.epoch))
    }

    /// Freezes elapsed as of `now` and returns to `armed`.
    pub fn pause_at(&mut self, now: u64) -> (r: Result<(), AppError>)
        ensures
            r is Ok <==> model_pause(old(self)@, now) is Some,
            r is Ok ==> Some(final(self)@) == model_pause(old(self)@, now),
            r is Err ==> final(self)@ == old(self)@ && r->Err_0 is ClockNotRunning,
    {
        let next = match &self.inner {
            Inner::Running { title, assigned_ms, elapsed_at_start, started_at } => {
                let elapsed_ms = elapsed_since(*elapsed_at_start, *started_at, now);
                Inner::Armed { title: title.clone(), assigned_ms: *assigned_ms, elapsed_ms }
            },
            _ => return Err(AppError::ClockNotRunning),
        };
        self.rev = bump_exec(self.rev);
        self.inner = next;
        Ok(())
    }

    /// Clears the part. Clearing an idle clock is an error so the console can toast.
    pub fn finish(&mut self) -> (r: Result<(), AppError>)
        ensures
            r is Ok <==> !(old(self)@.phase is Idle),
            r is Ok ==> final(self)@.rev == bump(old(self)@.rev) && final(self)@.phase is Idle,
            r is Err ==> final(self)@ == old(self)@ && r->Err_0 is ClockNotArmed,
    {
        if let Inner::Idle = self.inner {
            return Err(AppError::ClockNotArmed);
        }
        self.rev = bump_exec(self.rev);
        self.inner = Inner::Idle;
        Ok(())
    }

    /// Returns true when running (the host then emits a timer event); bumps the revision.
    pub fn tick(&mut self) -> (b: bool)
        ensures
            b == old(self)@.phase is Running,
            b ==> final(self)@.rev == bump(old(self)@.rev) && final(self)@.phase == old(
                self,
            )@.phase,
            !b ==> final(self)@ == old(self)@,
    {
        if let Inner::Running { .. } = self.inner {
            self.rev = bump_exec(self.rev);
            true
        } else {
            false
        }
    }

    /// Snapshot at the current time.
    pub fn snapshot(&self) -> (s: ClockSnapshot)
        ensures
            exists|now: u64| s.model() == model_snapshot(self@, now),
    {
        self.snapshot_at(millis_since(&self.epoch))
    }

    /// Snapshot as of `now`.
    pub fn snapshot_at(&self, now: u64) -> (s: ClockSnapshot)
        ensures
            s.model() == model_snapshot(self@, now),
    {
        match &self.inner {
            Inner::Idle => ClockSnapshot {
                rev: self.rev,
                state: ClockState::Idle,
                title: None,
                assigned_ms: 0,
                elapsed_ms: 0,
                remaining_ms: 0,
                overtime_ms: 0,
                progress_pct: 0,
                hue: ClockHue::Green,
            },
            Inner::Armed { title, assigned_ms, elapsed_ms } => snapshot_of(
                self.rev,
                ClockState::Armed,
                title,
                *assigned_ms,
                *elapsed_ms,
            ),
            Inner::Running { title, assigned_ms, elapsed_at_start, started_at } => {
                let elapsed_ms = elapsed_since(*elapsed_at_start, *started_at, now);
                snapshot_of(self.rev, ClockState::Running, title, *assigned_ms, elapsed_ms)
            },
        }
    }
}

impl MeetingClock for AssignmentClock {
    open spec fn clock_view(&self) -> ClockModel {
        self@
    }

    fn snapshot(&self) -> (s: ClockSnapshot)
        ensures
            exists|now: u64| s.model() == model_snapshot(self@, now),
    {
        let s = AssignmentClock::snapshot(self);
        proof {
            let now = choose|now: u64| s.model() == model_snapshot(self@, now);
            assert(s.model() == model_snapshot(self.clock_view(), now));
        }
        s
    }
}

/// Elapsed milliseconds at `now` of a part that started at `started_at`.
pub fn elapsed_since(elapsed_at_start: u64, started_at: u64, now: u64) -> (r: u64)
    ensures
        r == elapsed_since_spec(elapsed_at_start, started_at, now),
{
    let extra = now.saturating_sub(started_at);
    elapsed_at_start.saturating_add(extra)
}

/// Builds the snapshot of an armed or running part.
pub fn snapshot_of(rev: u64, state: ClockState, title: &String, assigned_ms: u64, elapsed_ms: u64) -> (s:
    ClockSnapshot)
    ensures
        s.model() == snapshot_of_spec(rev, state, title@, assigned_ms, elapsed_ms),
{
    let remaining_ms = remaining(assigned_ms, elapsed_ms);
    ClockSnapshot {
        rev,
        state,
        title: Some(title.clone()),
        assigned_ms,
        elapsed_ms,
        remaining_ms,
        overtime_ms: overtime_ms(remaining_ms),
        progress_pct: progress_pct(assigned_ms, elapsed_ms),
        hue: clock_hue(assigned_ms, remaining_ms),
    }
}

/// `assigned_ms as i64 - elapsed_ms as i64`, wrapping as release builds do.
pub fn remaining(assigned_ms: u64, elapsed_ms: u64) -> (r: i64)
    ensures
        r as int == remaining_spec(assigned_ms, elapsed_ms),
{
    let v: i128 = (assigned_ms as i128) - (elapsed_ms as i128);
    if v < -9223372036854775808i128 {
        (v + 18446744073709551616i128) as i64
    } else if v > 9223372036854775807i128 {
        (v - 18446744073709551616i128) as i64
    } else {
        v as i64
    }
}

/// Last-stretch threshold: max(20 % of assigned, 1 minute).
pub fn warn_threshold_ms(assigned_ms: u64) -> (r: u64)
    ensures
        r == warn_threshold_spec(assigned_ms),
{
    let fifth = assigned_ms / 5;
    if fifth >= WARN_FLOOR_MS {
        fifth
    } else {
        WARN_FLOOR_MS
    }
}

/// Maps remaining time to HUD colour.
pub fn clock_hue(assigned_ms: u64, remaining_ms: i64) -> (h: ClockHue)
    ensures
        h == hue_spec(assigned_ms, remaining_ms as int),
{
    if remaining_ms <= 0 {
        ClockHue::Red
    } else if (remaining_ms as u64) <= warn_threshold_ms(assigned_ms) {
        ClockHue::Amber
    } else {
        ClockHue::Green
    }
}

/// How far past the assigned time the part is.
pub fn overtime_ms(remaining_ms: i64) -> (r: u64)
    ensures
        r == overtime_spec(remaining_ms as int),
{
    if remaining_ms < 0 {
        (-(remaining_ms as i128)) as u64
    } else {
        0
    }
}

/// Percentage of the assigned time used, capped at 100.
pub fn progress_pct(assigned_ms: u64, elapsed_ms: u64) -> (r: u8)
    ensures
        r == progress_spec(assigned_ms, elapsed_ms),
        r <= 100,
{
    if assigned_ms == 0 {
        return 0;
    }
    let scaled = if elapsed_ms > u64::MAX / 100 {
        u64::MAX
    } else {
        elapsed_ms * 100
    };
    let pct = scaled / assigned_ms;
    if pct > 100 {
        100
    } else {
        pct as u8
    }
}

/// Trims a title and accepts it when it is 1–80 bytes long.
pub fn validate_title(title: &str) -> (r: Result<String, AppError>)
    ensures
        r is Ok <==> title_ok(title@),
        r is Ok ==> r->Ok_0@ == trim_seq(title@),
        r is Err ==> r->Err_0 is Invariant,
{
    let trimmed = trim(title);
    let ok = match utf8_len_within(&chars_of(trimmed.as_str()), MAX_TITLE) {
        Some(n) => n >= MIN_TITLE,
        None => false,
    };
    if !ok {
        return Err(AppError::rule("title must be 1–80 characters"));
    }
    Ok(trimmed)
}

/// Accepts 1–180 minutes and returns the length in milliseconds.
pub fn validate_minutes(minutes: u32) -> (r: Result<u64, AppError>)
    ensures
        r is Ok <==> minutes_ok(minutes),
        r is Ok ==> r->Ok_0 == minutes * 60_000,
        r is Err ==> r->Err_0 is Invariant,
{
    if minutes < MIN_MINUTES || minutes > MAX_MINUTES {
        return Err(AppError::rule("minutes must be between 1 and 180"));
    }
    Ok((minutes as u64) * 60_000)
}

/// Pausing freezes exactly the time shown at the moment of the pause: the
/// paused clock shows, at any later reading, the elapsed time the running
/// clock showed at `now`.
pub proof fn law_pause_keeps_elapsed(m: ClockModel, now: u64, later: u64)
    requires
        m.phase is Running,
    ensures
        model_pause(m, now) is Some,
        model_snapshot(model_pause(m, now)->0, later).elapsed_ms == model_snapshot(
            m,
            now,
        ).elapsed_ms,
        model_snapshot(model_pause(m, now)->0, later).state == ClockState::Armed,
{
}

/// Resuming continues from the paused elapsed time: after a start at `t1`
/// the clock shows the paused time plus the time since `t1`.
pub proof fn law_resume_continues(m: ClockModel, t1: u64, t2: u64)
    requires
        m.phase is Armed,
        t1 <= t2,
        m.phase->Armed_elapsed_ms + (t2 - t1) <= u64::MAX,
    ensures
        model_start(m, t1) is Some,
        model_snapshot(model_start(m, t1)->0, t2).elapsed_ms == m.phase->Armed_elapsed_ms + (t2
            - t1),
        model_snapshot(model_start(m, t1)->0, t2).state == ClockState::Running,
{
}

/// Starting a running clock changes nothing.
pub proof fn law_start_is_idempotent(m: ClockModel, now: u64)
    requires
        m.phase is Running,
    ensures
        model_start(m, now) == Some(m),
{
}

/// Arming replaces whatever part was there with a fresh one at zero elapsed.
pub proof fn law_arm_resets(m: ClockModel, title: Seq<char>, minutes: u32, now: u64)
    ensures
        model_snapshot(model_arm(m, title, minutes), now).state == ClockState::Armed,
        model_snapshot(model_arm(m, title, minutes), now).elapsed_ms == 0,
        model_snapshot(model_arm(m, title, minutes), now).title == Some(trim_seq(title)),
{
}

/// Every transition moves the revision forward by one (saturating), so a
/// late snapshot can be told from a newer one.
pub proof fn law_revision_advances(m: ClockModel, title: Seq<char>, minutes: u32, now: u64)
    ensures
        model_arm(m, title, minutes).rev == bump(m.rev),
        m.phase is Armed ==> model_start(m, now)->0.rev == bump(m.rev),
        m.phase is Running ==> model_pause(m, now)->0.rev == bump(m.rev),
        m.rev < u64::MAX ==> bump(m.rev) > m.rev,
{
}

/// The colour is red exactly when no time is left, amber in the last
/// stretch, and green before it; the last stretch is at least one minute
/// and at least a fifth of the assigned time.
pub proof fn law_hue_thresholds(assigned_ms: u64, remaining_ms: int)
    ensures
        (hue_spec(assigned_ms, remaining_ms) == ClockHue::Red) <==> remaining_ms <= 0,
        (hue_spec(assigned_ms, remaining_ms) == ClockHue::Amber) <==> (0 < remaining_ms
            <= warn_threshold_spec(assigned_ms)),
        warn_threshold_spec(assigned_ms) >= WARN_FLOOR_MS,
        warn_threshold_spec(assigned_ms) >= assigned_ms / 5,
{
}

/// While time remains, remaining plus elapsed is the assigned time and
/// there is no overtime; past the assigned time the overtime is the excess.
pub proof fn law_time_accounting(assigned_ms: u64, elapsed_ms: u64)
    requires
        assigned_ms <= i64::MAX,
        elapsed_ms <= i64::MAX,
    ensures
        remaining_spec(assigned_ms, elapsed_ms) + elapsed_ms == assigned_ms,
        overtime_spec(remaining_spec(assigned_ms, elapsed_ms)) == (if elapsed_ms > assigned_ms {
            elapsed_ms - assigned_ms
        } else {
            0
        }),
{
}

/// The progress bar never passes 100 % and is full once the assigned time
/// is used (for any assigned time whose hundredfold fits in 64 bits).
pub proof fn law_progress_bounds(assigned_ms: u64, elapsed_ms: u64)
    requires
        assigned_ms <= u64::MAX / 100,
    ensures
        progress_spec(assigned_ms, elapsed_ms) <= 100,
        assigned_ms > 0 && elapsed_ms >= assigned_ms ==> progress_spec(assigned_ms, elapsed_ms)
            == 100,
{
    if assigned_ms > 0 && elapsed_ms >= assigned_ms {
        let scaled: int = if elapsed_ms * 100 <= u64::MAX {
            elapsed_ms * 100
        } else {
            u64::MAX as int
        };
        assert(scaled >= assigned_ms * 100) by (nonlinear_arith)
            requires
                elapsed_ms >= assigned_ms,
                scaled == elapsed_ms * 100 || (scaled == u64::MAX && elapsed_ms * 100
                    > u64::MAX),
                assigned_ms <= u64::MAX / 100,
        ;
        assert(scaled / (assigned_ms as int) >= 100) by (nonlinear_arith)
            requires
                scaled >= assigned_ms * 100,
                assigned_ms > 0,
        ;
    }
}

} // verus!
