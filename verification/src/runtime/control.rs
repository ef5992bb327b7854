//! Cooperative run control and one pause-aware execution clock.
//!
//! A run may be paused for two independent reasons, a manual request and a
//! disk-space guard. The shared active clock freezes while either reason
//! holds. Manual resume cannot bypass the disk reason before the sampled disk
//! usage has recovered.
use vstd::prelude::*;
use crate::clock::{elapsed_nanos, instant_now};

verus! {

/// Abstract state of a run control.
pub struct ControlState {
    pub manual_pause: bool,
    pub disk_pause: bool,
    pub disk_ready: bool,
    /// Monotonic reading (nanoseconds since the origin) at which the clock froze.
    pub paused_since: Option<u128>,
    /// Accumulated frozen nanoseconds of completed pauses.
    pub paused_total: u128,
    /// The latest monotonic reading the control has taken.
    pub clock: u128,
    pub cancelled: bool,
    pub active: nat,
    pub parked: nat,
}

impl ControlState {
    /// The clock is frozen exactly when a pause reason holds, except that a
    /// cancelled run does not start a new freeze; a freeze began at a reading
    /// already taken, and no more time was frozen than had passed.
    pub open spec fn wf(self) -> bool {
        &&& self.paused_since is Some ==> self.manual_pause || self.disk_pause
        &&& (self.manual_pause || self.disk_pause) && !self.cancelled ==> self.paused_since is Some
        &&& self.disk_ready ==> self.disk_pause
        &&& self.paused_since matches Some(p) ==> p <= self.clock
        &&& self.paused_total <= self.frozen_base()
    }

    /// The monotonic reading the active clock is measured at: the start of
    /// the current freeze, or else the latest reading.
    pub open spec fn frozen_base(self) -> u128 {
        match self.paused_since {
            Some(since) => since,
            None => self.clock,
        }
    }

    /// The state after taking monotonic reading `now`; a reading earlier
    /// than one already taken changes nothing.
    pub open spec fn at(self, now: u128) -> ControlState {
        ControlState { clock: if now > self.clock { now } else { self.clock }, ..self }
    }

    /// Clock bookkeeping after the pause reasons changed, at the latest reading.
    pub open spec fn clocked(self) -> ControlState {
        let paused = self.manual_pause || self.disk_pause;
        if paused && !self.cancelled && self.paused_since is None {
            ControlState { paused_since: Some(self.clock), ..self }
        } else if !paused && self.paused_since is Some {
            ControlState {
                paused_since: None,
                paused_total: sat_add(self.paused_total, sat_sub(self.clock, self.paused_since->0)),
                ..self
            }
        } else {
            self
        }
    }

    /// The state with the manual reason set to `paused`.
    pub open spec fn with_manual(self, paused: bool) -> ControlState {
        ControlState { manual_pause: paused, ..self }
    }

    /// The state with the disk reason set to `paused` and its recovery cleared.
    pub open spec fn with_disk(self, paused: bool) -> ControlState {
        ControlState { disk_pause: paused, disk_ready: false, ..self }
    }

    /// The state after one disk sample at monotonic reading `now`: `reached`
    /// sets the disk reason when it is not held; while it is held,
    /// `recovered` only records whether usage is back below the recovery
    /// margin.
    pub open spec fn sampled(self, reached: bool, recovered: bool, now: u128) -> ControlState {
        if !self.disk_pause && reached {
            ControlState { disk_pause: true, disk_ready: false, ..self }.at(now).clocked()
        } else if self.disk_pause {
            ControlState { disk_ready: recovered, ..self }.at(now).clocked()
        } else {
            self.at(now).clocked()
        }
    }

    /// Whether a resume command is obeyed: not while a disk pause has yet to
    /// recover.
    pub open spec fn resume_allowed(self) -> bool {
        !(self.disk_pause && !self.disk_ready)
    }

    /// The state after an obeyed resume at monotonic reading `now`: both
    /// reasons clear.
    pub open spec fn resumed(self, now: u128) -> ControlState {
        ControlState { manual_pause: false, disk_pause: false, disk_ready: false, ..self }.at(now).clocked()
    }

    /// The active-clock reading at monotonic reading `now`.
    pub open spec fn active_time(self, now: u128) -> u128 {
        match self.paused_since {
            Some(since) => sat_sub(since, self.paused_total),
            None => sat_sub(now, self.paused_total),
        }
    }

    /// The active-clock reading at the latest monotonic reading.
    pub open spec fn reading(self) -> u128 {
        self.active_time(self.clock)
    }

    /// Whether `u` keeps the clock bookkeeping of `self`: only pause
    /// reasons, recovery, cancellation or activity counts differ.
    pub open spec fn same_clock(self, u: ControlState) -> bool {
        &&& u.paused_since == self.paused_since
        &&& u.paused_total == self.paused_total
        &&& u.clock == self.clock
    }
}

/// `a + b`, saturating at `u128::MAX`.
pub open spec fn sat_add(a: u128, b: u128) -> u128 {
    if a + b > u128::MAX { u128::MAX } else { (a + b) as u128 }
}

/// `a - b`, saturating at zero.
pub open spec fn sat_sub(a: u128, b: u128) -> u128 {
    if a >= b { (a - b) as u128 } else { 0 }
}

/// The active clock stands still while a pause reason holds: every later
/// monotonic reading gives the same active time, and setting either reason
/// again leaves that reading unchanged.
pub proof fn law_clock_freezes_while_paused(s: ControlState, t1: u128, t2: u128, disk: bool)
    requires
        s.wf(),
        s.manual_pause || s.disk_pause,
        !s.cancelled,
    ensures
        s.at(t1).reading() == s.reading(),
        s.at(t1).at(t2).reading() == s.reading(),
        (if disk { s.with_disk(true) } else { s.with_manual(true) }).at(t1).clocked().reading()
            == s.reading(),
{
}

/// The active clock never runs backward. Whatever pause reasons, recovery,
/// cancellation or activity counts a call sets (any state `u` that keeps the
/// clock bookkeeping of `s`), bringing it up to date at any monotonic
/// reading gives a well-formed state whose active time is no smaller.
pub proof fn law_active_clock_never_decreases(s: ControlState, u: ControlState, now: u128)
    requires
        s.wf(),
        s.same_clock(u),
        u.disk_ready ==> u.disk_pause,
    ensures
        s.reading() <= u.at(now).clocked().reading(),
        u.at(now).clocked().wf(),
        u.at(now).clocked().clock >= s.clock,
{
}

/// The two pause reasons are independent: withdrawing one leaves the clock
/// frozen exactly when the other still holds.
pub proof fn law_pause_reasons_are_independent(s: ControlState, now: u128)
    requires
        s.wf(),
        !s.cancelled,
    ensures
        s.with_manual(false).at(now).clocked().paused_since is Some <==> s.disk_pause,
        s.with_disk(false).at(now).clocked().paused_since is Some <==> s.manual_pause,
{
}

/// A manual resume cannot bypass a disk pause: it is refused, and manual
/// pause changes or samples still above the recovery margin keep it refused,
/// until a sample reports recovery; then it clears both reasons and the
/// clock runs again.
pub proof fn law_resume_waits_for_disk_recovery(
    s: ControlState,
    paused: bool,
    reached: bool,
    now: u128,
)
    requires
        s.wf(),
        s.disk_pause,
        !s.disk_ready,
    ensures
        !s.resume_allowed(),
        !s.with_manual(paused).at(now).clocked().resume_allowed(),
        !s.sampled(reached, false, now).resume_allowed(),
        s.sampled(reached, true, now).resume_allowed(),
        s.sampled(reached, true, now).resumed(now).paused_since is None,
        !s.sampled(reached, true, now).resumed(now).manual_pause,
        !s.sampled(reached, true, now).resumed(now).disk_pause,
{
}

/// What a disk sample changed in the guard; the caller words the reminder.
#[derive(Clone, Copy, Debug, PartialEq, Eq, Structural)]
pub enum DiskTransition {
    /// Usage reached the threshold; work is paused.
    Paused,
    /// Usage recovered; still paused until resumed.
    Ready,
    /// Usage rose above the recovery margin again; resume is blocked.
    Blocked,
}

/// Run-wide pause, cancellation, and active-clock state.
pub struct RunControl {
    origin: std::time::Instant,
    manual_pause: bool,
    disk_pause: bool,
    disk_ready: bool,
    paused_since: Option<u128>,
    paused_total: u128,
    clock: u128,
    cancelled: bool,
    active: usize,
    parked: usize,
}

impl View for RunControl {
    type V = ControlState;

    closed spec fn view(&self) -> ControlState {
        ControlState {
            manual_pause: self.manual_pause,
            disk_pause: self.disk_pause,
            disk_ready: self.disk_ready,
            paused_since: self.paused_since,
            paused_total: self.paused_total,
            clock: self.clock,
            cancelled: self.cancelled,
            active: self.active as nat,
            parked: self.parked as nat,
        }
    }
}

impl RunControl {
    /// Creates a running, uncancelled control whose clock starts now.
    pub fn new() -> (r: Self)
        ensures
            r@.wf(),
            !r@.manual_pause && !r@.disk_pause && !r@.disk_ready && !r@.cancelled,
            r@.paused_since is None && r@.paused_total == 0 && r@.clock == 0,
            r@.active == 0 && r@.parked == 0,
    {
        RunControl {
            origin: instant_now(),
            manual_pause: false,
            disk_pause: false,
            disk_ready: false,
            paused_since: None,
            paused_total: 0,
            clock: 0,
            cancelled: false,
            active: 0,
            parked: 0,
        }
    }

    fn update_clock(&mut self, now: u128)
        ensures
            final(self)@ == old(self)@.at(now).clocked(),
            final(self).origin == old(self).origin,
    {
        if now > self.clock {
            self.clock = now;
        }
        let now = self.clock;
        let paused = self.disk_pause || self.manual_pause;
        if paused && !self.cancelled && self.paused_since.is_none() {
            self.paused_since = Some(now);
        } else if !paused && self.paused_since.is_some() {
            let since = self.paused_since.unwrap();
            self.paused_since = None;
            let frozen = now.saturating_sub(since);
            self.paused_total = self.paused_total.saturating_add(frozen);
        }
    }

    /// Sets one pause reason at clock reading `now`, leaving the other
    /// reason untouched. Setting the disk reason also clears its recovery.
    pub fn set_pause_at(&mut self, paused: bool, disk: bool, now: u128)
        requires
            old(self)@.wf(),
        ensures
            final(self)@.wf(),
            final(self)@ == (if disk {
                old(self)@.with_disk(paused)
            } else {
                old(self)@.with_manual(paused)
            }).at(now).clocked(),
            final(self)@.reading() >= old(self)@.reading(),
    {
        if disk {
            self.disk_pause = paused;
            self.disk_ready = false;
        } else {
            self.manual_pause = paused;
        }
        self.update_clock(now);
    }

    /// Requests or withdraws a manual pause.
    pub fn pause(&mut self, paused: bool)
        requires
            old(self)@.wf(),
        ensures
            final(self)@.wf(),
            final(self)@.manual_pause == paused,
            final(self)@.disk_pause == old(self)@.disk_pause,
            final(self)@.disk_ready == old(self)@.disk_ready,
            final(self)@.cancelled == old(self)@.cancelled,
            exists|now: u128| final(self)@ == #[trigger] old(self)@.with_manual(paused).at(now).clocked(),
            final(self)@.reading() >= old(self)@.reading(),
    {
        let now = elapsed_nanos(&self.origin);
        self.set_pause_at(paused, false, now);
    }

    /// Requests or withdraws a disk pause.
    pub fn pause_for_disk(&mut self, paused: bool)
        requires
            old(self)@.wf(),
        ensures
            final(self)@.wf(),
            final(self)@.disk_pause == paused,
            !final(self)@.disk_ready,
            final(self)@.manual_pause == old(self)@.manual_pause,
            final(self)@.cancelled == old(self)@.cancelled,
            exists|now: u128| final(self)@ == #[trigger] old(self)@.with_disk(paused).at(now).clocked(),
            final(self)@.reading() >= old(self)@.reading(),
    {
        let now = elapsed_nanos(&self.origin);
        self.set_pause_at(paused, true, now);
    }

    /// Reports whether the disk reason holds.
    pub fn disk_paused(&self) -> (r: bool)
        ensures
            r == self@.disk_pause,
    {
        self.disk_pause
    }

    /// Applies one sampled disk reading at clock reading `now`: `reached`
    /// means usage is at or above the threshold, `recovered` that it is at or
    /// below the recovery margin. A disk pause is never released here.
    pub fn sample_disk_at(&mut self, reached: bool, recovered: bool, now: u128) -> (r: Option<DiskTransition>)
        requires
            old(self)@.wf(),
        ensures
            final(self)@.wf(),
            final(self)@ == old(self)@.sampled(reached, recovered, now),
            !old(self)@.disk_pause && reached ==> r == Some(DiskTransition::Paused),
            !old(self)@.disk_pause && !reached ==> r is None,
            old(self)@.disk_pause ==> r == (if recovered == old(self)@.disk_ready { None }
                    else if recovered { Some(DiskTransition::Ready) }
                    else { Some(DiskTransition::Blocked) }),
            final(self)@.reading() >= old(self)@.reading(),
    {
        let transition = if !self.disk_pause && reached {
            self.disk_pause = true;
            self.disk_ready = false;
            Some(DiskTransition::Paused)
        } else if self.disk_pause {
            let changed = recovered != self.disk_ready;
            self.disk_ready = recovered;
            if !changed {
                None
            } else if recovered {
                Some(DiskTransition::Ready)
            } else {
                Some(DiskTransition::Blocked)
            }
        } else {
            None
        };
        self.update_clock(now);
        transition
    }

    /// Applies one sampled disk reading now.
    pub fn sample_disk(&mut self, reached: bool, recovered: bool) -> (r: Option<DiskTransition>)
        requires
            old(self)@.wf(),
        ensures
            final(self)@.wf(),
            final(self)@.manual_pause == old(self)@.manual_pause,
            final(self)@.cancelled == old(self)@.cancelled,
            !old(self)@.disk_pause && reached ==> r == Some(DiskTransition::Paused) && final(self)@.disk_pause,
            !old(self)@.disk_pause && !reached ==> r is None && !final(self)@.disk_pause,
            old(self)@.disk_pause ==> final(self)@.disk_pause && final(self)@.disk_ready == recovered,
            exists|now: u128| final(self)@ == #[trigger] old(self)@.sampled(reached, recovered, now),
            final(self)@.reading() >= old(self)@.reading(),
    {
        let now = elapsed_nanos(&self.origin);
        self.sample_disk_at(reached, recovered, now)
    }

    /// One explicit command releases both reasons, but only once any disk
    /// pause has recovered; returns whether it did.
    pub fn resume_at(&mut self, now: u128) -> (r: bool)
        requires
            old(self)@.wf(),
        ensures
            final(self)@.wf(),
            r == old(self)@.resume_allowed(),
            !r ==> final(self)@ == old(self)@,
            r ==> final(self)@ == old(self)@.resumed(now),
            final(self)@.reading() >= old(self)@.reading(),
    {
        if self.disk_pause && !self.disk_ready {
            return false;
        }
        self.manual_pause = false;
        self.disk_pause = false;
        self.disk_ready = false;
        self.update_clock(now);
        true
    }

    /// Releases both pause reasons now, unless the disk has not recovered.
    pub fn resume(&mut self) -> (r: bool)
        requires
            old(self)@.wf(),
        ensures
            final(self)@.wf(),
            r == old(self)@.resume_allowed(),
            !r ==> final(self)@ == old(self)@,
            r ==> exists|now: u128| final(self)@ == #[trigger] old(self)@.resumed(now),
            r ==> !final(self)@.manual_pause && !final(self)@.disk_pause
                && final(self)@.paused_since is None,
            final(self)@.reading() >= old(self)@.reading(),
    {
        let now = elapsed_nanos(&self.origin);
        self.resume_at(now)
    }

    /// Reports whether the active clock is frozen.
    pub fn paused(&self) -> (r: bool)
        ensures
            r == self@.paused_since is Some,
    {
        self.paused_since.is_some()
    }

    /// Cancels the run; a cancelled run never starts a new freeze.
    pub fn cancel(&mut self)
        requires
            old(self)@.wf(),
        ensures
            final(self)@.wf(),
            final(self)@ == (ControlState { cancelled: true, ..old(self)@ }),
            final(self)@.reading() == old(self)@.reading(),
    {
        self.cancelled = true;
    }

    /// Reports whether the run was cancelled.
    pub fn cancelled(&self) -> (r: bool)
        ensures
            r == self@.cancelled,
    {
        self.cancelled
    }

    /// Active-clock reading, in nanoseconds, at monotonic reading `now`
    /// (or at the latest reading already taken, if that is later).
    pub fn now_at(&self, now: u128) -> (r: u128)
        ensures
            r == self@.at(now).reading(),
    {
        let base = match self.paused_since {
            Some(since) => since,
            None => if now > self.clock { now } else { self.clock },
        };
        base.saturating_sub(self.paused_total)
    }

    /// Takes a monotonic reading and returns the active-clock reading in
    /// nanoseconds: constant while paused, and never smaller than an earlier
    /// reading of this control.
    pub fn now(&mut self) -> (r: u128)
        requires
            old(self)@.wf(),
        ensures
            final(self)@.wf(),
            exists|now: u128| final(self)@ == #[trigger] old(self)@.at(now),
            r == final(self)@.reading(),
            r >= old(self)@.reading(),
            old(self)@.paused_since is Some ==> r == old(self)@.reading(),
    {
        let now = elapsed_nanos(&self.origin);
        if now > self.clock {
            self.clock = now;
        }
        self.now_at(now)
    }

    /// Human-facing status line of the run.
    pub fn status(&self) -> (r: &'static str)
        ensures
            r@ == status_text(self@),
    {
        if self.cancelled {
            "cancelling"
        } else if self.disk_pause {
            if self.disk_ready {
                "disk ready; type resume and Enter"
            } else {
                "disk pause; free space, then type resume"
            }
        } else if self.paused_since.is_none() {
            "running"
        } else if self.parked >= self.active {
            "paused"
        } else {
            "pausing; waiting for active calls/programs"
        }
    }

    /// Registers one active call or program that must park before the run
    /// counts as paused.
    pub fn begin_activity(&mut self)
        requires
            old(self)@.active < usize::MAX,
        ensures
            final(self)@ == (ControlState { active: old(self)@.active + 1, ..old(self)@ }),
    {
        self.active = self.active + 1;
    }

    /// Ends one active call or program.
    pub fn end_activity(&mut self)
        requires
            old(self)@.active > 0,
        ensures
            final(self)@ == (ControlState { active: (old(self)@.active - 1) as nat, ..old(self)@ }),
    {
        self.active = self.active - 1;
    }

    /// The number of registered active calls or programs.
    pub fn active_count(&self) -> (r: usize)
        ensures
            r == self@.active,
    {
        self.active
    }

    /// The number of workers parked at a checkpoint.
    pub fn parked_count(&self) -> (r: usize)
        ensures
            r == self@.parked,
    {
        self.parked
    }

    /// Registers one worker parked at a checkpoint.
    pub fn begin_parked(&mut self)
        requires
            old(self)@.parked < usize::MAX,
        ensures
            final(self)@ == (ControlState { parked: old(self)@.parked + 1, ..old(self)@ }),
    {
        self.parked = self.parked + 1;
    }

    /// Releases one parked worker.
    pub fn end_parked(&mut self)
        requires
            old(self)@.parked > 0,
        ensures
            final(self)@ == (ControlState { parked: (old(self)@.parked - 1) as nat, ..old(self)@ }),
    {
        self.parked = self.parked - 1;
    }

    /// Whether a worker at a checkpoint must keep waiting: the clock is
    /// frozen and neither the run nor the worker's own task was cancelled.
    pub fn must_wait(&self, task_cancelled: bool) -> (r: bool)
        ensures
            r == (self@.paused_since is Some && !self@.cancelled && !task_cancelled),
    {
        self.paused_since.is_some() && !self.cancelled && !task_cancelled
    }
}

impl Default for RunControl {
    /// A running, uncancelled control whose clock starts now.
    fn default() -> (r: Self)
        ensures
            r@.wf(),
            !r@.manual_pause && !r@.disk_pause && !r@.disk_ready && !r@.cancelled,
            r@.paused_since is None && r@.paused_total == 0 && r@.clock == 0,
            r@.active == 0 && r@.parked == 0,
    {
        RunControl::new()
    }
}

/// The status line for a control state.
pub open spec fn status_text(s: ControlState) -> Seq<char> {
    if s.cancelled {
        "cancelling"@
    } else if s.disk_pause {
        if s.disk_ready { "disk ready; type resume and Enter"@ } else { "disk pause; free space, then type resume"@ }
    } else if s.paused_since is None {
        "running"@
    } else if s.parked >= s.active {
        "paused"@
    } else {
        "pausing; waiting for active calls/programs"@
    }
}

} // verus!
