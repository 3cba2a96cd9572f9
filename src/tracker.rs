//! The polling state machine that follows the game through idle, play and
//! result phases, and the recovery decisions taken when a read fails.
//!
//! The caller owns the loop: it reads the values that the current phase asks
//! for, hands them to the tracker, and performs the action it returns.
use vstd::prelude::*;

use crate::state::GameState;

verus! {

/// Two consecutive in-game times closer than this (in ms) mark a pause.
pub const PAUSE_THRESHOLD_MS: i64 = 20;

/// Which loop the tracker is in.
#[derive(Debug, PartialEq, Eq, Structural, Clone, Copy)]
pub enum Phase {
    /// Waiting for a play; watching the loaded beatmap.
    Idle,
    /// A play is running; in-game time and the retry counter are watched.
    Playing,
    /// The play left the playing state on its own; waiting for the result screen.
    AwaitingResult,
}

/// What to do once the result wait has seen a status.
#[derive(Debug, PartialEq, Eq, Structural, Clone, Copy)]
pub enum ResultStep {
    /// Still playing: wait a little and read the status again.
    Wait,
    /// The result screen was reached: read and submit the result record.
    Submit,
    /// The play ended elsewhere: no result is produced.
    NoResult,
}

/// Why a read of the observed process failed.
#[derive(Debug, PartialEq, Eq, Structural, Clone, Copy)]
pub enum Fault {
    /// The process is gone.
    ProcessNotFound,
    /// The operating system refused access to the process's memory.
    PlatformReadError,
    /// A signature was found nowhere in the scanned memory.
    SignatureNotFound,
    /// A read at an address failed for another reason.
    MemoryReadError,
}

/// Where control goes after a failure.
#[derive(Debug, PartialEq, Eq, Structural, Clone, Copy)]
pub enum Recovery {
    /// Back off, then attach to the process again and re-resolve addresses.
    Reattach,
    /// Back off, then start over in the idle phase with the same attachment.
    ResumeIdle,
}

/// The stage of an attach cycle in which a failure happened.
#[derive(Debug, PartialEq, Eq, Structural, Clone, Copy)]
pub enum Stage {
    Attach,
    Resolve,
    Track,
}

/// Where control goes after `fault` in `stage`: only a failure while tracking
/// that is not a loss of the process keeps the attachment.
pub open spec fn recovery_of(stage: Stage, fault: Fault) -> Recovery {
    if stage == Stage::Track && (fault == Fault::SignatureNotFound || fault
        == Fault::MemoryReadError) {
        Recovery::ResumeIdle
    } else {
        Recovery::Reattach
    }
}

pub fn recovery_for(stage: Stage, fault: Fault) -> (r: Recovery)
    ensures
        r == recovery_of(stage, fault),
{
    match stage {
        Stage::Track => match fault {
            Fault::ProcessNotFound | Fault::PlatformReadError => Recovery::Reattach,
            Fault::SignatureNotFound | Fault::MemoryReadError => Recovery::ResumeIdle,
        },
        Stage::Attach | Stage::Resolve => Recovery::Reattach,
    }
}

/// The session state of the tracking loop.
pub struct Tracker {
    pub phase: Phase,
    /// Checksum of the last beatmap harvested; the key that avoids harvesting twice.
    pub last_checksum: String,
    /// Retry counter as last read during the current play.
    pub last_retries: i32,
    /// In-game time of the previous sample of the current play.
    pub last_time: i32,
    /// In-game time at which the last pause was recorded.
    pub last_paused: i32,
}

/// Whether the sample `cur` after `last` is a pause not yet recorded at `paused`.
pub open spec fn is_pause(last: i32, cur: i32, paused: i32) -> bool {
    cur - last < PAUSE_THRESHOLD_MS && cur > 0 && last > 0 && paused != cur
}

/// The tracker after a play sample, and whether the play was abandoned.
pub open spec fn play_sample_next(t: Tracker, time: i32, retries: i32) -> (Tracker, bool) {
    let paused = if is_pause(t.last_time, time, t.last_paused) {
        time
    } else {
        t.last_paused
    };
    let abandoned = t.last_retries < retries;
    (
        Tracker {
            phase: if abandoned {
                Phase::Idle
            } else {
                Phase::Playing
            },
            last_retries: retries,
            last_time: time,
            last_paused: paused,
            ..t
        },
        abandoned,
    )
}

/// The tracker after the status seen while waiting for the result, and the step.
pub open spec fn result_next(t: Tracker, status: GameState) -> (Tracker, ResultStep) {
    if status == GameState::Playing {
        (t, ResultStep::Wait)
    } else if status == GameState::ResultScreen {
        (Tracker { phase: Phase::Idle, ..t }, ResultStep::Submit)
    } else {
        (Tracker { phase: Phase::Idle, ..t }, ResultStep::NoResult)
    }
}

impl Tracker {
    pub fn new() -> (r: Tracker)
        ensures
            r.phase == Phase::Idle,
            r.last_checksum@ == Seq::<char>::empty(),
            r.last_retries == 0,
            r.last_time == 0,
            r.last_paused == 0,
    {
        Tracker {
            phase: Phase::Idle,
            last_checksum: String::new(),
            last_retries: 0,
            last_time: 0,
            last_paused: 0,
        }
    }

    /// Idle phase: whether the status read starts a play.
    pub fn play_started(&self, status: GameState) -> (r: bool)
        ensures
            r == (status == GameState::Playing),
    {
        status.is_playing()
    }

    /// Idle phase: records the checksum of the loaded beatmap and says whether
    /// it is new, in which case the beatmap is to be harvested.
    pub fn beatmap_changed(&mut self, checksum: &String) -> (r: bool)
        ensures
            (final(self).last_checksum@, r) == harvest_next(old(self).last_checksum@, checksum@),
            final(self).phase == old(self).phase,
            final(self).last_retries == old(self).last_retries,
            final(self).last_time == old(self).last_time,
            final(self).last_paused == old(self).last_paused,
    {
        let changed = !(*checksum == self.last_checksum);
        if changed {
            self.last_checksum = checksum.clone();
        }
        changed
    }

    /// Starts tracking a play whose retry counter reads `retries` now.
    pub fn begin_play(&mut self, retries: i32)
        requires
            old(self).phase == Phase::Idle,
        ensures
            final(self).phase == Phase::Playing,
            final(self).last_retries == retries,
            final(self).last_time == 0,
            final(self).last_paused == 0,
            final(self).last_checksum == old(self).last_checksum,
    {
        self.phase = Phase::Playing;
        self.last_retries = retries;
        self.last_time = 0;
        self.last_paused = 0;
    }

    /// Playing phase: takes the status read at the top of a tick. Returns
    /// whether the play goes on; if not, the result wait begins.
    pub fn play_status(&mut self, status: GameState) -> (r: bool)
        requires
            old(self).phase == Phase::Playing,
        ensures
            r == (status == GameState::Playing),
            final(self).phase == (if r {
                Phase::Playing
            } else {
                Phase::AwaitingResult
            }),
            final(self).last_checksum == old(self).last_checksum,
            final(self).last_retries == old(self).last_retries,
            final(self).last_time == old(self).last_time,
            final(self).last_paused == old(self).last_paused,
    {
        if status.is_playing() {
            true
        } else {
            self.phase = Phase::AwaitingResult;
            false
        }
    }

    /// Playing phase: takes the in-game time and retry counter of a tick.
    /// Returns true when the counter rose since it was last read: the attempt
    /// is abandoned and the tracker is idle again, with no result to produce.
    pub fn play_sample(&mut self, time: i32, retries: i32) -> (r: bool)
        requires
            old(self).phase == Phase::Playing,
        ensures
            (*final(self), r) == play_sample_next(*old(self), time, retries),
    {
        let delta: i64 = time as i64 - self.last_time as i64;
        if delta < PAUSE_THRESHOLD_MS && time > 0 && self.last_time > 0 && self.last_paused
            != time {
            self.last_paused = time;
        }
        self.last_time = time;
        let abandoned = self.last_retries < retries;
        self.last_retries = retries;
        if abandoned {
            self.phase = Phase::Idle;
        }
        abandoned
    }

    /// Result wait: takes a status read after the play ended.
    pub fn result_status(&mut self, status: GameState) -> (r: ResultStep)
        requires
            old(self).phase == Phase::AwaitingResult,
        ensures
            (*final(self), r) == result_next(*old(self), status),
    {
        match status {
            GameState::Playing => ResultStep::Wait,
            GameState::ResultScreen => {
                self.phase = Phase::Idle;
                ResultStep::Submit
            },
            _ => {
                self.phase = Phase::Idle;
                ResultStep::NoResult
            },
        }
    }

    /// Takes a failure seen while tracking and says where control goes. The
    /// tracker is idle again either way.
    pub fn fault(&mut self, fault: Fault) -> (r: Recovery)
        ensures
            r == recovery_of(Stage::Track, fault),
            final(self).phase == Phase::Idle,
            final(self).last_checksum == old(self).last_checksum,
            final(self).last_retries == old(self).last_retries,
            final(self).last_time == old(self).last_time,
            final(self).last_paused == old(self).last_paused,
    {
        self.phase = Phase::Idle;
        recovery_for(Stage::Track, fault)
    }
}

/// A rise of the retry counter during a play abandons it: the tracker leaves
/// the playing phase for idle, not for the result wait, so no result record
/// can follow for that attempt.
pub proof fn lemma_retry_abandons_play(t: Tracker, time: i32, retries: i32)
    requires
        t.phase == Phase::Playing,
        t.last_retries < retries,
    ensures
        play_sample_next(t, time, retries).1,
        play_sample_next(t, time, retries).0.phase == Phase::Idle,
        play_sample_next(t, time, retries).0.phase != Phase::AwaitingResult,
{
}

/// Two polls within a play whose retry counters read `first` and then a
/// larger `second`: the second poll abandons the play, whatever the counter
/// read when the play began.
pub proof fn lemma_retry_between_polls(
    t: Tracker,
    time1: i32,
    first: i32,
    time2: i32,
    second: i32,
)
    requires
        t.phase == Phase::Playing,
        !play_sample_next(t, time1, first).1,
        first < second,
    ensures
        play_sample_next(play_sample_next(t, time1, first).0, time2, second).1,
        play_sample_next(play_sample_next(t, time1, first).0, time2, second).0.phase
            == Phase::Idle,
{
}

/// A result is submitted only from the result wait, and only on the result screen.
pub proof fn lemma_submit_only_on_result_screen(t: Tracker, status: GameState)
    ensures
        result_next(t, status).1 == ResultStep::Submit <==> status == GameState::ResultScreen,
        result_next(t, status).1 != ResultStep::Wait ==> result_next(t, status).0.phase
            == Phase::Idle,
{
}

/// The checksum kept after seeing `seen` with `last` kept, and whether a harvest fires.
pub open spec fn harvest_next(last: Seq<char>, seen: Seq<char>) -> (Seq<char>, bool) {
    (seen, seen != last)
}

/// The same checksum seen twice in a row fires one harvest at most: never on
/// the second sighting.
pub proof fn lemma_one_harvest_per_checksum(last: Seq<char>, seen: Seq<char>)
    ensures
        !harvest_next(harvest_next(last, seen).0, seen).1,
{
}

} // verus!
