//! Hard-capped permits for monitor decoder sessions.
use crate::arith::{larger, max_usize};
use vstd::prelude::*;

verus! {

/// An exact, coherent snapshot of one shared monitor-session pool.
#[derive(Clone, Copy, Debug, PartialEq, Eq, Structural)]
pub struct MonitorSessionPoolDiagnostics {
    pub active_sticky_sessions: usize,
    pub peak_sticky_sessions: usize,
    pub session_cap: usize,
    pub active_foreground_sessions: usize,
    pub foreground_session_cap: usize,
    pub active_background_sessions: usize,
    pub background_session_cap: usize,
}

impl Default for MonitorSessionPoolDiagnostics {
    fn default() -> (empty: Self)
        ensures
            empty == (MonitorSessionPoolDiagnostics {
                active_sticky_sessions: 0,
                peak_sticky_sessions: 0,
                session_cap: 0,
                active_foreground_sessions: 0,
                foreground_session_cap: 0,
                active_background_sessions: 0,
                background_session_cap: 0,
            }),
    {
        MonitorSessionPoolDiagnostics {
            active_sticky_sessions: 0,
            peak_sticky_sessions: 0,
            session_cap: 0,
            active_foreground_sessions: 0,
            foreground_session_cap: 0,
            active_background_sessions: 0,
            background_session_cap: 0,
        }
    }
}

/// Which of the two budgets a session draws from.
#[derive(Clone, Copy, Debug, PartialEq, Eq, Structural)]
pub enum MonitorSessionLane {
    Foreground,
    Background,
}

/// The right to hold one session. It goes back with [`MonitorSessionPool::release`].
#[derive(Debug)]
pub struct MonitorSessionPermit {
    lane: MonitorSessionLane,
}

impl MonitorSessionPermit {
    /// The budget that the permit was drawn from.
    pub closed spec fn drawn_from(&self) -> MonitorSessionLane {
        self.lane
    }

    pub fn lane(&self) -> (lane: MonitorSessionLane)
        ensures
            lane == self.drawn_from(),
    {
        self.lane
    }
}

/// The state of a [`MonitorSessionPool`].
#[verifier::ext_equal]
pub struct PoolModel {
    pub foreground: nat,
    pub background: nat,
    pub peak: nat,
    pub foreground_cap: nat,
    pub background_cap: nat,
}

impl PoolModel {
    /// The sessions that draw from a budget.
    pub open spec fn active(self, lane: MonitorSessionLane) -> nat {
        match lane {
            MonitorSessionLane::Foreground => self.foreground,
            MonitorSessionLane::Background => self.background,
        }
    }

    /// The size of a budget.
    pub open spec fn cap(self, lane: MonitorSessionLane) -> nat {
        match lane {
            MonitorSessionLane::Foreground => self.foreground_cap,
            MonitorSessionLane::Background => self.background_cap,
        }
    }

    /// Both budgets are kept, and the peak covers what is active.
    pub open spec fn valid(self) -> bool {
        &&& self.foreground <= self.foreground_cap
        &&& self.background <= self.background_cap
        &&& self.foreground + self.background <= self.peak
        &&& self.peak <= self.foreground_cap + self.background_cap
        &&& self.foreground_cap + self.background_cap <= usize::MAX
    }

    /// Whether a budget has room.
    pub open spec fn has_room(self, lane: MonitorSessionLane) -> bool {
        self.active(lane) < self.cap(lane)
    }

    /// The pool after one more session drew from a budget.
    pub open spec fn acquired(self, lane: MonitorSessionLane) -> PoolModel {
        let next = match lane {
            MonitorSessionLane::Foreground => PoolModel { foreground: self.foreground + 1, ..self },
            MonitorSessionLane::Background => PoolModel { background: self.background + 1, ..self },
        };
        PoolModel {
            peak: larger(self.peak as int, (next.foreground + next.background) as int) as nat,
            ..next
        }
    }

    /// The pool after one session gave its permit back.
    pub open spec fn released(self, lane: MonitorSessionLane) -> PoolModel {
        match lane {
            MonitorSessionLane::Foreground => PoolModel {
                foreground: larger(self.foreground - 1, 0) as nat,
                ..self
            },
            MonitorSessionLane::Background => PoolModel {
                background: larger(self.background - 1, 0) as nat,
                ..self
            },
        }
    }
}

/// A hard-capped permit pool for monitor decoder sessions.
///
/// Foreground permits are reserved for each decoder's sequential lane. Background permits are
/// used only for paused prewarm and reverse-scrub lanes, so speculative work cannot consume the
/// foreground budget.
#[derive(Debug)]
pub struct MonitorSessionPool {
    active_foreground: usize,
    active_background: usize,
    peak_sticky_sessions: usize,
    foreground_cap: usize,
    background_cap: usize,
}

impl View for MonitorSessionPool {
    type V = PoolModel;

    closed spec fn view(&self) -> PoolModel {
        PoolModel {
            foreground: self.active_foreground as nat,
            background: self.active_background as nat,
            peak: self.peak_sticky_sessions as nat,
            foreground_cap: self.foreground_cap as nat,
            background_cap: self.background_cap as nat,
        }
    }
}

impl MonitorSessionPool {
    /// Creates a pool with separate hard caps for foreground and speculative background work.
    pub fn new(foreground_session_cap: usize, background_session_cap: usize) -> (pool: Self)
        requires
            foreground_session_cap + background_session_cap <= usize::MAX,
        ensures
            pool@.valid(),
            pool@ == (PoolModel {
                foreground: 0,
                background: 0,
                peak: 0,
                foreground_cap: foreground_session_cap as nat,
                background_cap: background_session_cap as nat,
            }),
    {
        MonitorSessionPool {
            active_foreground: 0,
            active_background: 0,
            peak_sticky_sessions: 0,
            foreground_cap: foreground_session_cap,
            background_cap: background_session_cap,
        }
    }

    /// Returns an exact coherent snapshot; no fields are independently sampled.
    pub fn diagnostics(&self) -> (seen: MonitorSessionPoolDiagnostics)
        requires
            self@.valid(),
        ensures
            seen == (MonitorSessionPoolDiagnostics {
                active_sticky_sessions: (self@.foreground + self@.background) as usize,
                peak_sticky_sessions: self@.peak as usize,
                session_cap: (self@.foreground_cap + self@.background_cap) as usize,
                active_foreground_sessions: self@.foreground as usize,
                foreground_session_cap: self@.foreground_cap as usize,
                active_background_sessions: self@.background as usize,
                background_session_cap: self@.background_cap as usize,
            }),
    {
        let active_sticky_sessions: usize = self.active_foreground + self.active_background;
        MonitorSessionPoolDiagnostics {
            active_sticky_sessions,
            peak_sticky_sessions: max_usize(self.peak_sticky_sessions, active_sticky_sessions),
            session_cap: self.foreground_cap + self.background_cap,
            active_foreground_sessions: self.active_foreground,
            foreground_session_cap: self.foreground_cap,
            active_background_sessions: self.active_background,
            background_session_cap: self.background_cap,
        }
    }

    /// Draws a permit, if the lane's own budget has room.
    pub fn try_acquire(&mut self, lane: MonitorSessionLane) -> (permit: Option<
        MonitorSessionPermit,
    >)
        requires
            old(self)@.valid(),
        ensures
            final(self)@.valid(),
            permit is Some == old(self)@.has_room(lane),
            permit matches Some(permit) ==> permit.drawn_from() == lane,
            final(self)@ == (if old(self)@.has_room(lane) {
                old(self)@.acquired(lane)
            } else {
                old(self)@
            }),
    {
        match lane {
            MonitorSessionLane::Foreground => {
                if self.active_foreground >= self.foreground_cap {
                    return None;
                }
                self.active_foreground += 1;
            },
            MonitorSessionLane::Background => {
                if self.active_background >= self.background_cap {
                    return None;
                }
                self.active_background += 1;
            },
        }
        self.peak_sticky_sessions =
        max_usize(self.peak_sticky_sessions, self.active_foreground + self.active_background);
        Some(MonitorSessionPermit { lane })
    }

    /// Gives a permit back.
    pub fn release(&mut self, permit: MonitorSessionPermit)
        requires
            old(self)@.valid(),
        ensures
            final(self)@.valid(),
            final(self)@ == old(self)@.released(permit.drawn_from()),
    {
        match permit.lane {
            MonitorSessionLane::Foreground => {
                self.active_foreground = self.active_foreground.saturating_sub(1);
            },
            MonitorSessionLane::Background => {
                self.active_background = self.active_background.saturating_sub(1);
            },
        }
    }
}

/// The budget that a monitor lane draws from: only the first lane is in the foreground.
pub open spec fn lane_of_worker(worker_index: int) -> MonitorSessionLane {
    if worker_index == 0 {
        MonitorSessionLane::Foreground
    } else {
        MonitorSessionLane::Background
    }
}

pub fn worker_lane(worker_index: usize) -> (lane: MonitorSessionLane)
    ensures
        lane == lane_of_worker(worker_index as int),
{
    if worker_index == 0 {
        MonitorSessionLane::Foreground
    } else {
        MonitorSessionLane::Background
    }
}

/// How the opening of a session starts.
#[derive(Debug)]
pub enum SessionAdmission {
    /// The session may be opened with this permit.
    Granted(MonitorSessionPermit),
    /// Capacity is short for now; the request is retried later.
    Deferred,
    /// The foreground budget is exhausted where it never should be.
    Refused(&'static str),
}

/// Draws the permit for a session before anything is allocated for it. Background capacity
/// exhaustion is a normal defer outcome. Foreground exhaustion is also transient where a source
/// coordinator owns the sessions: an asynchronously retiring predecessor may still own the
/// permit. Independent schedulers keep treating it as an invariant violation.
pub fn admit_session(
    session_pool: &mut MonitorSessionPool,
    worker_index: usize,
    coordinator_owned_sessions: bool,
) -> (admission: SessionAdmission)
    requires
        old(session_pool)@.valid(),
    ensures
        final(session_pool)@.valid(),
        ({
            let lane = lane_of_worker(worker_index as int);
            if old(session_pool)@.has_room(lane) {
                &&& admission matches SessionAdmission::Granted(permit) && permit.drawn_from()
                    == lane
                &&& final(session_pool)@ == old(session_pool)@.acquired(lane)
            } else {
                &&& final(session_pool)@ == old(session_pool)@
                &&& if worker_index != 0 || coordinator_owned_sessions {
                    admission is Deferred
                } else {
                    admission matches SessionAdmission::Refused(message) && message@
                        == "monitor foreground session pool is exhausted; a foreground permit was not released"@
                }
            }
        }),
{
    let lane = worker_lane(worker_index);
    match session_pool.try_acquire(lane) {
        Some(permit) => SessionAdmission::Granted(permit),
        None => if worker_index != 0 || coordinator_owned_sessions {
            SessionAdmission::Deferred
        } else {
            SessionAdmission::Refused(
                "monitor foreground session pool is exhausted; a foreground permit was not released",
            )
        },
    }
}

/// A permit that goes back leaves its budget as it was before it was drawn.
pub proof fn law_release_undoes_acquire(pool: PoolModel, lane: MonitorSessionLane)
    requires
        pool.valid(),
        pool.has_room(lane),
    ensures
        pool.acquired(lane).released(lane) == (PoolModel {
            peak: pool.acquired(lane).peak,
            ..pool
        }),
        pool.acquired(lane).released(lane).has_room(lane),
        pool.acquired(lane).valid(),
        pool.acquired(lane).released(lane).valid(),
{
    assert(pool.acquired(lane).released(lane) =~= PoolModel {
        peak: pool.acquired(lane).peak,
        ..pool
    });
}

/// Work on one lane never consumes the budget of the other one.
pub proof fn law_lanes_do_not_share_a_budget(
    pool: PoolModel,
    lane: MonitorSessionLane,
    other: MonitorSessionLane,
)
    requires
        lane != other,
    ensures
        pool.acquired(lane).has_room(other) == pool.has_room(other),
        pool.released(lane).has_room(other) == pool.has_room(other),
{
}

/// The peak never falls.
pub proof fn law_peak_never_falls(pool: PoolModel, lane: MonitorSessionLane)
    ensures
        pool.acquired(lane).peak >= pool.peak,
        pool.released(lane).peak == pool.peak,
{
}

/// A permit is drawn one at a time from the budget of its lane, which has room exactly while fewer
/// are drawn than it has; the budgets themselves never change, and the peak is the most that were
/// ever drawn at once.
pub proof fn law_permits_are_counted_by_lane(pool: PoolModel)
    requires
        pool.valid(),
    ensures
        ({
            let front = MonitorSessionLane::Foreground;
            let back = MonitorSessionLane::Background;
            &&& pool.has_room(front) <==> pool.foreground < pool.foreground_cap
            &&& pool.has_room(back) <==> pool.background < pool.background_cap
            &&& pool.acquired(front).foreground == pool.foreground + 1
            &&& pool.acquired(front).background == pool.background
            &&& pool.acquired(back).background == pool.background + 1
            &&& pool.acquired(back).foreground == pool.foreground
            &&& pool.released(front).background == pool.background
            &&& pool.released(back).foreground == pool.foreground
            &&& pool.foreground > 0 ==> pool.released(front).foreground == pool.foreground - 1
            &&& pool.background > 0 ==> pool.released(back).background == pool.background - 1
            &&& pool.foreground == 0 ==> pool.released(front).foreground == 0
            &&& pool.background == 0 ==> pool.released(back).background == 0
            &&& forall|lane: MonitorSessionLane|
                #![trigger pool.acquired(lane)]
                {
                    let next = pool.acquired(lane);
                    let drawn = pool.foreground + pool.background + 1;
                    &&& next.foreground_cap == pool.foreground_cap
                    &&& next.background_cap == pool.background_cap
                    &&& drawn > pool.peak ==> next.peak == drawn
                    &&& drawn <= pool.peak ==> next.peak == pool.peak
                }
            &&& forall|lane: MonitorSessionLane|
                #![trigger pool.released(lane)]
                pool.released(lane).foreground_cap == pool.foreground_cap && pool.released(
                    lane,
                ).background_cap == pool.background_cap
        }),
{
}

/// Exactly the first lane is in the foreground.
pub proof fn law_only_the_first_lane_is_in_the_foreground(worker_index: int)
    ensures
        lane_of_worker(worker_index) == MonitorSessionLane::Foreground <==> worker_index == 0,
        lane_of_worker(worker_index) == MonitorSessionLane::Background <==> worker_index != 0,
{
}

/// A permit is granted exactly while the budget of its lane has room, and is drawn from that budget; a
/// refused one changes nothing. One that goes back goes back to where it was drawn from.
pub proof fn law_permits_go_back_where_they_came_from(
    pool: &mut MonitorSessionPool,
    lane: MonitorSessionLane,
    permit: Option<MonitorSessionPermit>,
)
    requires
        call_ensures(MonitorSessionPool::try_acquire, (pool, lane), permit),
        old(pool)@.valid(),
    ensures
        lane == MonitorSessionLane::Foreground ==> (permit is Some <==> old(pool)@.foreground < old(pool)@.foreground_cap),
        lane == MonitorSessionLane::Background ==> (permit is Some <==> old(pool)@.background < old(pool)@.background_cap),
        permit matches Some(drawn) ==> drawn.drawn_from() == lane,
        permit is None ==> final(pool)@ == old(pool)@,
        permit is Some && lane == MonitorSessionLane::Foreground ==> final(pool)@.foreground == old(pool)@.foreground + 1 && final(pool)@.background == old(pool)@.background,
        permit is Some && lane == MonitorSessionLane::Background ==> final(pool)@.background == old(pool)@.background + 1 && final(pool)@.foreground == old(pool)@.foreground,
{
    law_permits_are_counted_by_lane(old(pool)@);
}

/// A session is admitted exactly where its lane's budget has room. Without room it waits, but for a
/// foreground session of a lane that owns its sessions, which is refused.
pub proof fn law_short_capacity_is_no_error_in_the_background(
    pool: &mut MonitorSessionPool,
    worker_index: usize,
    coordinator_owned_sessions: bool,
    admission: SessionAdmission,
)
    requires
        call_ensures(admit_session, (pool, worker_index, coordinator_owned_sessions), admission),
    ensures
        worker_index == 0 ==> (admission is Granted <==> old(pool)@.foreground < old(pool)@.foreground_cap),
        worker_index != 0 ==> (admission is Granted <==> old(pool)@.background < old(pool)@.background_cap),
        admission is Refused ==> worker_index == 0 && !coordinator_owned_sessions,
        admission is Deferred ==> worker_index != 0 || coordinator_owned_sessions,
        !(admission is Granted) ==> final(pool)@ == old(pool)@,
{
}

/// What a pool reports is what was drawn and what may be.
pub proof fn law_pool_reports_what_was_drawn(
    pool: &MonitorSessionPool,
    seen: MonitorSessionPoolDiagnostics,
)
    requires
        call_ensures(MonitorSessionPool::diagnostics, (pool,), seen),
        pool@.valid(),
    ensures
        seen.active_foreground_sessions == pool@.foreground,
        seen.active_background_sessions == pool@.background,
        seen.active_sticky_sessions == pool@.foreground + pool@.background,
        seen.peak_sticky_sessions == pool@.peak,
        seen.foreground_session_cap == pool@.foreground_cap,
        seen.background_session_cap == pool@.background_cap,
        seen.session_cap == pool@.foreground_cap + pool@.background_cap,
{
}

/// A permit that goes back makes room for the next one of its lane.
pub proof fn law_returned_permit_makes_room(
    drawing: &mut MonitorSessionPool,
    lane: MonitorSessionLane,
    permit: MonitorSessionPermit,
    returning: &mut MonitorSessionPool,
)
    requires
        call_ensures(MonitorSessionPool::try_acquire, (drawing, lane), Some(permit)),
        call_ensures(MonitorSessionPool::release, (returning, permit), ()),
        *final(drawing) == *old(returning),
        old(drawing)@.valid(),
    ensures
        final(returning)@.foreground == old(drawing)@.foreground,
        final(returning)@.background == old(drawing)@.background,
        final(returning)@.foreground_cap == old(drawing)@.foreground_cap,
        final(returning)@.background_cap == old(drawing)@.background_cap,
        final(returning)@.peak >= old(drawing)@.peak,
{
    law_permits_are_counted_by_lane(old(drawing)@);
}

} // verus!
