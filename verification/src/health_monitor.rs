//! Watching over the chat client: what each scan decides, and what is worth a line in the log.
//! A process that is running is never killed; only a missing one is started again.

use crate::clock::{Duration, Instant, NANOS_END, secs, span, whole_secs};
use crate::session::{Session, is_running_session};
use vstd::prelude::*;

verus! {

/// Seconds between two scans.
pub const SCAN_INTERVAL_SECS: u64 = 1;

/// Seconds between the disappearance of the process and its restart.
pub const RESTART_DELAY_SECS: u64 = 3;

/// Restarts within one window after which the restarts back off.
pub const MAX_RAPID_RESTARTS: u32 = 5;

/// Seconds that a window of rapid restarts lasts.
pub const RAPID_WINDOW_SECS: u64 = 60;

/// Seconds between the disappearance of the process and its restart once restarts back off.
pub const BACKOFF_DELAY_SECS: u64 = 30;

/// What a scan has seen of the chat client.
#[derive(Debug, Clone, Copy, PartialEq, Eq, Structural)]
pub enum HealthObservation {
    ProcessMissing,
    A11yUnavailable,
    Identified,
    Unidentified,
}

/// What may be done about it. To kill a running process is not among it.
#[derive(Debug, Clone, Copy, PartialEq, Eq, Structural)]
pub enum HealthAction {
    RestartMissingProcess,
    Healthy,
    ObserveDegraded,
}

/// Why the observation is degraded.
#[derive(Debug, Clone, Copy, PartialEq, Eq, Structural)]
pub enum DegradedReason {
    A11yUnavailable,
    Unidentified,
}

/// What the observations so far amount to.
#[derive(Debug, Clone, Copy, PartialEq, Eq, Structural)]
pub enum TrackedHealthState {
    Unknown,
    Healthy,
    Degraded(DegradedReason),
}

/// What to log after an observation.
#[derive(Debug, Clone, PartialEq, Eq, Structural)]
pub enum LogDecision {
    /// The observation has become degraded: warn at once.
    WarnTransition { reason: DegradedReason },
    /// The observation is still degraded, and the last warning is long enough ago.
    WarnPeriodicReminder { reason: DegradedReason, elapsed_secs: u64, occurrences: u64 },
    /// The observation is no longer degraded.
    InfoRecovered { previous_reason: DegradedReason },
    /// Nothing to log.
    Suppress,
}

/// Decides which observations are logged: transitions at once, reminders at intervals.
#[derive(Debug, Clone)]
pub struct HealthLogTracker {
    state: TrackedHealthState,
    degraded_since: Option<Instant>,
    last_warn_at: Option<Instant>,
    degraded_count: u64,
    periodic_interval: Duration,
}

/// What a [`HealthLogTracker`] holds.
pub struct Tracker {
    pub state: TrackedHealthState,
    pub degraded_since: Option<int>,
    pub last_warn_at: Option<int>,
    pub degraded_count: int,
    pub interval: int,
}

/// The instant in nanoseconds, if there is one.
pub open spec fn opt_instant(t: Option<Instant>) -> Option<int> {
    match t {
        Some(i) => Some(i@),
        None => None,
    }
}

impl View for HealthLogTracker {
    type V = Tracker;

    closed spec fn view(&self) -> Tracker {
        Tracker {
            state: self.state,
            degraded_since: opt_instant(self.degraded_since),
            last_warn_at: opt_instant(self.last_warn_at),
            degraded_count: self.degraded_count as int,
            interval: self.periodic_interval@,
        }
    }
}

// ---------------------------------------------------------------------------
// What is logged
// ---------------------------------------------------------------------------

/// A tracker that has seen nothing.
pub open spec fn fresh_tracker(interval: int) -> Tracker {
    Tracker {
        state: TrackedHealthState::Unknown,
        degraded_since: None,
        last_warn_at: None,
        degraded_count: 0,
        interval,
    }
}

/// Why an observation counts as degraded, if it does.
pub open spec fn degraded_reason(obs: HealthObservation) -> Option<DegradedReason> {
    match obs {
        HealthObservation::A11yUnavailable => Some(DegradedReason::A11yUnavailable),
        HealthObservation::Unidentified => Some(DegradedReason::Unidentified),
        _ => None,
    }
}

/// The instant of the last warning, or `now` where there was none.
pub open spec fn warned_at(t: Tracker, now: int) -> int {
    match t.last_warn_at {
        Some(w) => w,
        None => now,
    }
}

/// Whether a reminder is due.
pub open spec fn reminder_due(t: Tracker, now: int) -> bool {
    span(warned_at(t, now), now) >= t.interval
}

/// The tracker and the decision after a degraded observation.
pub open spec fn degraded(t: Tracker, reason: DegradedReason, now: int) -> (Tracker, LogDecision) {
    let counted = Tracker {
        state: TrackedHealthState::Degraded(reason),
        degraded_count: t.degraded_count + 1,
        ..t
    };
    if !(t.state is Degraded) {
        (
            Tracker { degraded_since: Some(now), last_warn_at: Some(now), ..counted },
            LogDecision::WarnTransition { reason },
        )
    } else if reminder_due(t, now) {
        (
            Tracker { last_warn_at: Some(now), ..counted },
            LogDecision::WarnPeriodicReminder {
                reason,
                elapsed_secs: match t.degraded_since {
                    Some(s) => whole_secs(span(s, now)) as u64,
                    None => 0,
                },
                occurrences: (t.degraded_count + 1) as u64,
            },
        )
    } else {
        (counted, LogDecision::Suppress)
    }
}

/// The tracker and the decision after an observation.
pub open spec fn stepped(t: Tracker, obs: HealthObservation, now: int) -> (Tracker, LogDecision) {
    match degraded_reason(obs) {
        Some(reason) => degraded(t, reason, now),
        None => if obs == HealthObservation::ProcessMissing {
            (fresh_tracker(t.interval), LogDecision::Suppress)
        } else if t.state is Degraded {
            (
                Tracker {
                    state: TrackedHealthState::Healthy,
                    ..fresh_tracker(t.interval)
                },
                LogDecision::InfoRecovered { previous_reason: t.state->Degraded_0 },
            )
        } else {
            (Tracker { state: TrackedHealthState::Healthy, ..t }, LogDecision::Suppress)
        },
    }
}

impl HealthLogTracker {
    /// A tracker that reminds of a degraded observation once per interval.
    pub fn new(periodic_interval: Duration) -> (r: HealthLogTracker)
        ensures
            r@ == fresh_tracker(periodic_interval@),
    {
        HealthLogTracker {
            state: TrackedHealthState::Unknown,
            degraded_since: None,
            last_warn_at: None,
            degraded_count: 0,
            periodic_interval,
        }
    }

    /// Forgets what was observed.
    pub fn reset(&mut self)
        ensures
            final(self)@ == fresh_tracker(old(self)@.interval),
    {
        self.state = TrackedHealthState::Unknown;
        self.degraded_since = None;
        self.last_warn_at = None;
        self.degraded_count = 0;
    }

    /// How many degraded observations in a row there were.
    pub fn degraded_count(&self) -> (r: u64)
        ensures
            r == self@.degraded_count,
    {
        self.degraded_count
    }

    /// Takes in an observation and decides what to log.
    pub fn step(&mut self, obs: HealthObservation, now: Instant) -> (r: LogDecision)
        requires
            degraded_reason(obs) is Some ==> old(self)@.degraded_count < u64::MAX,
        ensures
            (final(self)@, r) == stepped(old(self)@, obs, now@),
    {
        match obs {
            HealthObservation::A11yUnavailable | HealthObservation::Unidentified => {
                let reason = match obs {
                    HealthObservation::A11yUnavailable => DegradedReason::A11yUnavailable,
                    _ => DegradedReason::Unidentified,
                };
                self.degraded_count = self.degraded_count + 1;
                match self.state {
                    TrackedHealthState::Degraded(_) => {
                        self.state = TrackedHealthState::Degraded(reason);
                        let last = match self.last_warn_at {
                            Some(w) => w,
                            None => now,
                        };
                        if now.duration_since(last).at_least(&self.periodic_interval) {
                            self.last_warn_at = Some(now);
                            let elapsed_secs: u64 = match self.degraded_since {
                                Some(s) => now.duration_since(s).as_secs(),
                                None => 0,
                            };
                            LogDecision::WarnPeriodicReminder {
                                reason,
                                elapsed_secs,
                                occurrences: self.degraded_count,
                            }
                        } else {
                            LogDecision::Suppress
                        }
                    },
                    _ => {
                        self.state = TrackedHealthState::Degraded(reason);
                        self.degraded_since = Some(now);
                        self.last_warn_at = Some(now);
                        LogDecision::WarnTransition { reason }
                    },
                }
            },
            HealthObservation::Identified => match self.state {
                TrackedHealthState::Degraded(previous_reason) => {
                    self.state = TrackedHealthState::Healthy;
                    self.degraded_since = None;
                    self.last_warn_at = None;
                    self.degraded_count = 0;
                    LogDecision::InfoRecovered { previous_reason }
                },
                _ => {
                    self.state = TrackedHealthState::Healthy;
                    LogDecision::Suppress
                },
            },
            HealthObservation::ProcessMissing => {
                self.reset();
                LogDecision::Suppress
            },
        }
    }
}

impl Default for HealthLogTracker {
    fn default() -> (r: HealthLogTracker)
        ensures
            r@ == fresh_tracker(secs(60)),
    {
        HealthLogTracker::new(Duration::from_secs(60))
    }
}

// ---------------------------------------------------------------------------
// What is done
// ---------------------------------------------------------------------------

/// What is done about an observation.
pub open spec fn health_action(obs: HealthObservation) -> HealthAction {
    match obs {
        HealthObservation::ProcessMissing => HealthAction::RestartMissingProcess,
        HealthObservation::Identified => HealthAction::Healthy,
        _ => HealthAction::ObserveDegraded,
    }
}

/// Decides what to do about an observation.
pub fn evaluate_health_action(obs: HealthObservation) -> (r: HealthAction)
    ensures
        r == health_action(obs),
{
    match obs {
        HealthObservation::ProcessMissing => HealthAction::RestartMissingProcess,
        HealthObservation::Identified => HealthAction::Healthy,
        HealthObservation::A11yUnavailable | HealthObservation::Unidentified => {
            HealthAction::ObserveDegraded
        },
    }
}

/// Whether the scans are held up while a plan is being carried out.
#[derive(Debug, Clone, Copy)]
pub struct MonitoringGate {
    pub paused: bool,
}

/// Holds up the scans.
pub fn pause_monitoring(gate: &mut MonitoringGate)
    ensures
        final(gate).paused,
{
    gate.paused = true;
}

/// Lets the scans go on.
pub fn resume_monitoring(gate: &mut MonitoringGate)
    ensures
        !final(gate).paused,
{
    gate.paused = false;
}

impl MonitoringGate {
    /// Whether a scan looks at the session: it is not held up, and the session is running.
    pub fn admits(&self, session: &Option<Session>) -> (r: bool)
        ensures
            r == (!self.paused && is_running_session(*session)),
    {
        match session {
            Some(s) => !self.paused && s.is_running(),
            None => false,
        }
    }
}

/// What the scans remember.
#[derive(Debug, Clone)]
pub struct MonitorState {
    pub was_running: bool,
    pub restart_count: u32,
    pub window_start: Instant,
    pub waiting_restart_since: Option<Instant>,
    pub log_tracker: HealthLogTracker,
}

/// What a [`MonitorState`] holds.
pub struct Monitor {
    pub was_running: bool,
    pub restart_count: int,
    pub window_start: int,
    pub waiting_since: Option<int>,
    pub tracker: Tracker,
}

impl View for MonitorState {
    type V = Monitor;

    open spec fn view(&self) -> Monitor {
        Monitor {
            was_running: self.was_running,
            restart_count: self.restart_count as int,
            window_start: self.window_start@,
            waiting_since: opt_instant(self.waiting_restart_since),
            tracker: self.log_tracker@,
        }
    }
}

/// What a scan that finds no process does.
#[derive(Debug, Clone, Copy, PartialEq, Eq, Structural)]
pub struct MissingReport {
    /// The process was there at the scan before.
    pub disappeared: bool,
    /// The restarts back off, and this is the moment to say so.
    pub backing_off: bool,
    /// The process is to be started.
    pub restart: bool,
}

/// The state in which the scans begin.
pub open spec fn initial_monitor(now: int) -> Monitor {
    Monitor {
        was_running: false,
        restart_count: 0,
        window_start: now,
        waiting_since: None,
        tracker: fresh_tracker(secs(60)),
    }
}

/// After a scan that found the process. A pending restart is dropped when the process is back.
pub open spec fn found(m: Monitor) -> Monitor {
    if m.was_running {
        m
    } else {
        Monitor { was_running: true, waiting_since: None, ..m }
    }
}

/// After it was noted that the process is missing.
pub open spec fn noted_missing(m: Monitor, now: int) -> Monitor {
    let forgotten = Monitor { tracker: fresh_tracker(m.tracker.interval), ..m };
    if m.was_running {
        Monitor { was_running: false, waiting_since: Some(now), ..forgotten }
    } else {
        forgotten
    }
}

/// After the window of rapid restarts was begun anew, if it had run out.
pub open spec fn windowed(m: Monitor, now: int) -> Monitor {
    if m.waiting_since is Some && whole_secs(span(m.window_start, now)) > RAPID_WINDOW_SECS {
        Monitor { restart_count: 0, window_start: now, ..m }
    } else {
        m
    }
}

/// How long the process must have been missing before it is started again.
pub open spec fn restart_delay(m: Monitor) -> int {
    if m.restart_count >= MAX_RAPID_RESTARTS {
        BACKOFF_DELAY_SECS as int
    } else {
        RESTART_DELAY_SECS as int
    }
}

/// Whether the process is started again.
pub open spec fn restart_due(m: Monitor, now: int) -> bool {
    m.waiting_since is Some && whole_secs(span(m.waiting_since->Some_0, now)) >= restart_delay(m)
}

/// The state and the report after a scan that found no process.
pub open spec fn missing(m: Monitor, now: int) -> (Monitor, MissingReport) {
    let w = windowed(noted_missing(m, now), now);
    let restart = restart_due(w, now);
    (
        if restart {
            Monitor { restart_count: w.restart_count + 1, waiting_since: None, ..w }
        } else {
            w
        },
        MissingReport {
            disappeared: m.was_running,
            backing_off: w.waiting_since is Some && w.restart_count >= MAX_RAPID_RESTARTS
                && whole_secs(span(w.waiting_since->Some_0, now)) == RESTART_DELAY_SECS,
            restart,
        },
    )
}

/// What a scan that found the process has observed.
pub open spec fn observed(a11y_read: bool, main_window_identified: bool) -> HealthObservation {
    if !a11y_read {
        HealthObservation::A11yUnavailable
    } else if main_window_identified {
        HealthObservation::Identified
    } else {
        HealthObservation::Unidentified
    }
}

/// What one tick of the watch has before it: whether the scans are held up, whether the session is
/// running, the process if there is one, with what was seen of it, and the time.
pub struct Tick {
    pub paused: bool,
    pub session_running: bool,
    pub process: Option<HealthObservation>,
    pub now: int,
}

/// Whether a tick is acted on.
pub open spec fn is_acted_on(tick: Tick) -> bool {
    !tick.paused && tick.session_running
}

/// The state after a tick, and whether the process was launched. There is nothing else that a tick
/// does to the process.
pub open spec fn ticked(m: Monitor, tick: Tick) -> (Monitor, bool) {
    if !is_acted_on(tick) {
        (m, false)
    } else {
        match tick.process {
            Some(obs) => {
                let up = found(m);
                (Monitor { tracker: stepped(up.tracker, obs, tick.now).0, ..up }, false)
            },
            None => (missing(m, tick.now).0, missing(m, tick.now).1.restart),
        }
    }
}

/// What a tick comes to: nothing, as it was held up; a process that is there, whether it has just
/// appeared and what to log of it; or a process that is missing, and what is done about it.
#[derive(Debug, Clone, PartialEq, Eq, Structural)]
pub enum TickReport {
    HeldUp,
    Seen { appeared: bool, log: LogDecision },
    Missed(MissingReport),
}

/// What a tick comes to.
pub open spec fn tick_report(m: Monitor, tick: Tick) -> TickReport {
    if !is_acted_on(tick) {
        TickReport::HeldUp
    } else {
        match tick.process {
            Some(obs) => TickReport::Seen {
                appeared: !m.was_running,
                log: stepped(found(m).tracker, obs, tick.now).1,
            },
            None => TickReport::Missed(missing(m, tick.now).1),
        }
    }
}

/// What a tick has before it, from whether monitoring is paused, the session, and what was seen of
/// the process: whether the tree was read, and whether the main window was identified.
pub open spec fn tick_of(
    gate: MonitoringGate,
    session: Option<Session>,
    seen: Option<(bool, bool)>,
    now: Instant,
) -> Tick {
    Tick {
        paused: gate.paused,
        session_running: is_running_session(session),
        process: match seen {
            Some((a11y_read, main_window_identified)) => Some(
                observed(a11y_read, main_window_identified),
            ),
            None => None,
        },
        now: now@,
    }
}

impl MonitorState {
    /// The state in which the scans begin.
    pub fn new(now: Instant) -> (r: MonitorState)
        ensures
            r@ == initial_monitor(now@),
    {
        MonitorState {
            was_running: false,
            restart_count: 0,
            window_start: now,
            waiting_restart_since: None,
            log_tracker: HealthLogTracker::default(),
        }
    }

    /// Notes that the process was found; says whether it was not there before.
    pub fn process_found(&mut self) -> (r: bool)
        ensures
            final(self)@ == found(old(self)@),
            r == !old(self)@.was_running,
    {
        if !self.was_running {
            self.was_running = true;
            self.waiting_restart_since = None;
            true
        } else {
            false
        }
    }

    /// Notes that no process was found, and decides whether to start one.
    pub fn process_missing(&mut self, now: Instant) -> (r: MissingReport)
        requires
            missing(old(self)@, now@).0.restart_count <= u32::MAX,
        ensures
            (final(self)@, r) == missing(old(self)@, now@),
    {
        let disappeared = self.was_running;
        let mut backing_off = false;
        let mut restart = false;
        self.log_tracker.reset();
        if self.was_running {
            self.was_running = false;
            self.waiting_restart_since = Some(now);
        }
        if let Some(since) = self.waiting_restart_since {
            if now.duration_since(self.window_start).as_secs() > RAPID_WINDOW_SECS {
                self.restart_count = 0;
                self.window_start = now;
            }
            let gone_for: u64 = now.duration_since(since).as_secs();
            let delay: u64 = if self.restart_count >= MAX_RAPID_RESTARTS {
                backing_off = gone_for == RESTART_DELAY_SECS;
                BACKOFF_DELAY_SECS
            } else {
                RESTART_DELAY_SECS
            };
            if gone_for >= delay {
                restart = true;
                self.restart_count = self.restart_count + 1;
                self.waiting_restart_since = None;
            }
        }
        MissingReport { disappeared, backing_off, restart }
    }

    /// Takes in what was seen of a process that is there, and decides what to log.
    pub fn observe(
        &mut self,
        a11y_read: bool,
        main_window_identified: bool,
        now: Instant,
    ) -> (r: LogDecision)
        requires
            degraded_reason(observed(a11y_read, main_window_identified)) is Some ==> old(
                self,
            )@.tracker.degraded_count < u64::MAX,
        ensures
            final(self)@ == (Monitor {
                tracker: stepped(
                    old(self)@.tracker,
                    observed(a11y_read, main_window_identified),
                    now@,
                ).0,
                ..old(self)@
            }),
            r == stepped(
                old(self)@.tracker,
                observed(a11y_read, main_window_identified),
                now@,
            ).1,
    {
        let obs = if !a11y_read {
            HealthObservation::A11yUnavailable
        } else if main_window_identified {
            HealthObservation::Identified
        } else {
            HealthObservation::Unidentified
        };
        self.log_tracker.step(obs, now)
    }

    /// One tick of the watch: nothing while it is held up, else the process is noted as found and
    /// observed, or as missing. The process is to be launched where the report says so.
    pub fn tick(
        &mut self,
        gate: &MonitoringGate,
        session: &Option<Session>,
        seen: Option<(bool, bool)>,
        now: Instant,
    ) -> (r: TickReport)
        requires
            ticked(old(self)@, tick_of(*gate, *session, seen, now)).0.restart_count <= u32::MAX,
            ticked(old(self)@, tick_of(*gate, *session, seen, now)).0.tracker.degraded_count
                <= u64::MAX,
        ensures
            final(self)@ == ticked(old(self)@, tick_of(*gate, *session, seen, now)).0,
            r == tick_report(old(self)@, tick_of(*gate, *session, seen, now)),
            (r is Missed && r->Missed_0.restart) == ticked(
                old(self)@,
                tick_of(*gate, *session, seen, now),
            ).1,
    {
        if !gate.admits(session) {
            return TickReport::HeldUp;
        }
        match seen {
            Some((a11y_read, main_window_identified)) => {
                let appeared = self.process_found();
                let log = self.observe(a11y_read, main_window_identified, now);
                TickReport::Seen { appeared, log }
            },
            None => TickReport::Missed(self.process_missing(now)),
        }
    }
}

// ---------------------------------------------------------------------------
// Laws
// ---------------------------------------------------------------------------

/// Only a missing process is restarted: whatever else is seen, the process is left alone.
pub proof fn law_only_missing_is_restarted(obs: HealthObservation)
    ensures
        health_action(obs) == HealthAction::RestartMissingProcess <==> obs
            == HealthObservation::ProcessMissing,
{
}

/// Whether a tracker is as its operations leave it: it knows since when it is degraded and when
/// it warned exactly while it is degraded.
pub open spec fn well_tracked(t: Tracker) -> bool {
    if t.state is Degraded {
        t.degraded_since is Some && t.last_warn_at is Some && t.degraded_count > 0
    } else {
        t.degraded_since is None && t.last_warn_at is None && t.degraded_count == 0
    }
}

/// A fresh tracker is well-formed, and every observation keeps it so.
pub proof fn law_tracker_stays_well_formed(t: Tracker, obs: HealthObservation, now: int)
    ensures
        well_tracked(fresh_tracker(t.interval)),
        well_tracked(t) ==> well_tracked(stepped(t, obs, now).0),
        stepped(t, obs, now).0.interval == t.interval,
{
}

/// Whether a decision is a warning.
pub open spec fn is_warning(d: LogDecision) -> bool {
    d is WarnTransition || d is WarnPeriodicReminder
}

/// Only a degraded observation warns, and it warns when it is the first of its kind in a row or
/// when the last warning is an interval ago. A change of the reason alone does not warn.
pub proof fn law_warnings_are_rationed(t: Tracker, obs: HealthObservation, now: int)
    requires
        well_tracked(t),
    ensures
        is_warning(stepped(t, obs, now).1) <==> degraded_reason(obs) is Some && (
        !(t.state is Degraded) || span(t.last_warn_at->Some_0, now) >= t.interval),
        is_warning(stepped(t, obs, now).1) ==> stepped(t, obs, now).0.last_warn_at == Some(now),
{
}

/// The tracker after the first `n` observations at the given instants.
pub open spec fn after_observations(
    t: Tracker,
    seen: Seq<(HealthObservation, int)>,
    n: nat,
) -> Tracker
    decreases n,
{
    if n == 0 {
        t
    } else {
        let (obs, now) = seen[n - 1];
        stepped(after_observations(t, seen, (n - 1) as nat), obs, now).0
    }
}

/// How many of the first `n` observations warn.
pub open spec fn warnings(t: Tracker, seen: Seq<(HealthObservation, int)>, n: nat) -> nat
    decreases n,
{
    if n == 0 {
        0
    } else {
        let (obs, now) = seen[n - 1];
        let d = stepped(after_observations(t, seen, (n - 1) as nat), obs, now).1;
        warnings(t, seen, (n - 1) as nat) + if is_warning(d) {
            1nat
        } else {
            0nat
        }
    }
}

/// Whether all observations are degraded and the clock does not run backwards.
pub open spec fn degraded_run(seen: Seq<(HealthObservation, int)>) -> bool {
    &&& forall|i: int| 0 <= i < seen.len() ==> degraded_reason((#[trigger] seen[i]).0) is Some
    &&& forall|i: int, j: int|
        0 <= i <= j < seen.len() ==> (#[trigger] seen[i]).1 <= (#[trigger] seen[j]).1
}

/// While the observation stays degraded, for whatever reasons, the warnings are bounded by the
/// time that has passed: one at the start, and one more for each interval.
pub proof fn law_warnings_are_bounded(
    interval: int,
    seen: Seq<(HealthObservation, int)>,
    n: nat,
)
    requires
        0 <= interval,
        0 < n <= seen.len(),
        degraded_run(seen),
    ensures
        warnings(fresh_tracker(interval), seen, n) >= 1,
        (warnings(fresh_tracker(interval), seen, n) - 1) * interval <= seen[n - 1].1 - seen[0].1,
{
    lemma_warnings(interval, seen, n);
    assert(seen[0].1 <= seen[n - 1].1);
}

proof fn lemma_warnings(interval: int, seen: Seq<(HealthObservation, int)>, n: nat)
    requires
        0 <= interval,
        0 < n <= seen.len(),
        degraded_run(seen),
    ensures
        ({
            let t = after_observations(fresh_tracker(interval), seen, n);
            let w = warnings(fresh_tracker(interval), seen, n);
            &&& t.state is Degraded
            &&& t.interval == interval
            &&& t.last_warn_at is Some
            &&& t.last_warn_at->Some_0 <= seen[n - 1].1
            &&& w >= 1
            &&& (w - 1) * interval <= t.last_warn_at->Some_0 - seen[0].1
        }),
    decreases n,
{
    let fresh = fresh_tracker(interval);
    assert(degraded_reason(seen[n - 1].0) is Some);
    if n == 1 {
        reveal_with_fuel(after_observations, 2);
        reveal_with_fuel(warnings, 2);
        assert((1 - 1) * interval == 0) by (nonlinear_arith);
    } else {
        let m = (n - 1) as nat;
        lemma_warnings(interval, seen, m);
        assert(seen[m - 1].1 <= seen[n - 1].1);
        let w = warnings(fresh, seen, m);
        assert((w + 1 - 1) * interval == (w - 1) * interval + interval) by (nonlinear_arith);
    }
}

/// A recovery is logged once, with the reason that it recovers from; while the observation stays
/// healthy nothing more is logged.
pub proof fn law_recovery_is_logged_once(t: Tracker, now: int, later: int)
    requires
        t.state is Degraded,
    ensures
        stepped(t, HealthObservation::Identified, now).1 == (LogDecision::InfoRecovered {
            previous_reason: t.state->Degraded_0,
        }),
        stepped(
            stepped(t, HealthObservation::Identified, now).0,
            HealthObservation::Identified,
            later,
        ).1 == LogDecision::Suppress,
{
}

/// After the process was missing, the next degraded observation warns at once, whatever was
/// observed before.
pub proof fn law_missing_process_starts_afresh(
    t: Tracker,
    obs: HealthObservation,
    now: int,
    later: int,
)
    requires
        degraded_reason(obs) is Some,
    ensures
        stepped(t, HealthObservation::ProcessMissing, now).1 == LogDecision::Suppress,
        stepped(stepped(t, HealthObservation::ProcessMissing, now).0, obs, later).1 == (
        LogDecision::WarnTransition { reason: degraded_reason(obs)->Some_0 }),
{
}

/// A restart waits for its delay: three seconds after the process went missing, or thirty once
/// five restarts fell into one window. A process that never ran is not started.
pub proof fn law_restart_waits(m: Monitor, now: int)
    requires
        missing(m, now).1.restart,
    ensures
        ({
            let w = windowed(noted_missing(m, now), now);
            &&& w.waiting_since is Some
            &&& m.was_running || m.waiting_since is Some
            &&& span(w.waiting_since->Some_0, now) >= secs(RESTART_DELAY_SECS as int)
            &&& w.restart_count >= MAX_RAPID_RESTARTS ==> span(w.waiting_since->Some_0, now)
                >= secs(BACKOFF_DELAY_SECS as int)
        }),
{
}

/// What a scan can see of the process.
pub enum Scan {
    Found,
    Missing,
}

/// The state after one scan.
pub open spec fn scanned(m: Monitor, scan: Scan, now: int) -> Monitor {
    match scan {
        Scan::Found => found(m),
        Scan::Missing => missing(m, now).0,
    }
}

/// The state after the first `n` scans.
pub open spec fn monitored(start: int, scans: Seq<(Scan, int)>, n: nat) -> Monitor
    decreases n,
{
    if n == 0 {
        initial_monitor(start)
    } else {
        scanned(monitored(start, scans, (n - 1) as nat), scans[n - 1].0, scans[n - 1].1)
    }
}

/// Whether the clock does not run backwards from `start` on.
pub open spec fn in_order(start: int, scans: Seq<(Scan, int)>) -> bool {
    &&& forall|i: int| 0 <= i < scans.len() ==> start <= (#[trigger] scans[i]).1
    &&& forall|i: int, j: int|
        0 <= i <= j < scans.len() ==> (#[trigger] scans[i]).1 <= (#[trigger] scans[j]).1
}

/// What holds of a monitor whose last restart was at `last`, up to the instant `clock`: restarts
/// beyond the rapid ones lie a back-off apart, within the window.
spec fn paced(m: Monitor, last: int, clock: int) -> bool {
    &&& 0 <= m.restart_count
    &&& m.window_start <= clock
    &&& m.restart_count > 0 ==> m.window_start <= last <= clock
    &&& m.restart_count > 0 ==> last - m.window_start < secs(RAPID_WINDOW_SECS + 1)
    &&& m.restart_count > MAX_RAPID_RESTARTS ==> last - m.window_start >= secs(
        (m.restart_count - MAX_RAPID_RESTARTS) * BACKOFF_DELAY_SECS,
    )
    &&& m.restart_count > 0 && m.waiting_since is Some ==> last <= m.waiting_since->Some_0
    &&& m.waiting_since is Some ==> m.waiting_since->Some_0 <= clock
}

proof fn lemma_paced(m: Monitor, last: int, clock: int, scan: Scan, now: int) -> (next: int)
    requires
        paced(m, last, clock),
        clock <= now,
    ensures
        paced(scanned(m, scan, now), next, now),
{
    let w = windowed(noted_missing(m, now), now);
    if scan is Missing && restart_due(w, now) {
        now
    } else {
        last
    }
}

proof fn lemma_monitored(start: int, scans: Seq<(Scan, int)>, n: nat) -> (last: int)
    requires
        n <= scans.len(),
        in_order(start, scans),
    ensures
        paced(
            monitored(start, scans, n),
            last,
            if n == 0 {
                start
            } else {
                scans[n - 1].1
            },
        ),
    decreases n,
{
    if n == 0 {
        start
    } else {
        let last = lemma_monitored(start, scans, (n - 1) as nat);
        let clock = if n == 1 {
            start
        } else {
            scans[n - 2].1
        };
        lemma_paced(
            monitored(start, scans, (n - 1) as nat),
            last,
            clock,
            scans[n - 1].0,
            scans[n - 1].1,
        )
    }
}

/// The crash loop is damped: whatever the scans see, at most seven restarts fall into one
/// window, five rapid ones and two after a back-off.
pub proof fn law_restarts_are_damped(start: int, scans: Seq<(Scan, int)>, n: nat)
    requires
        n <= scans.len(),
        in_order(start, scans),
    ensures
        0 <= monitored(start, scans, n).restart_count <= MAX_RAPID_RESTARTS + 2,
{
    let last = lemma_monitored(start, scans, n);
}

/// The place of the last of the first `n` observations that warned, if one did.
pub open spec fn last_warning(t: Tracker, seen: Seq<(HealthObservation, int)>, n: nat) -> Option<int>
    decreases n,
{
    if n == 0 {
        None
    } else {
        let (obs, now) = seen[n - 1];
        if is_warning(stepped(after_observations(t, seen, (n - 1) as nat), obs, now).1) {
            Some(n - 1)
        } else {
            last_warning(t, seen, (n - 1) as nat)
        }
    }
}

proof fn lemma_degraded_run(t: Tracker, seen: Seq<(HealthObservation, int)>, n: nat)
    requires
        well_tracked(t),
        !(t.state is Degraded),
        degraded_run(seen),
        0 < n <= seen.len(),
    ensures
        ({
            let after = after_observations(t, seen, n);
            let last = last_warning(t, seen, n);
            &&& after.state is Degraded
            &&& after.interval == t.interval
            &&& after.degraded_count == n
            &&& after.degraded_since == Some(seen[0].1)
            &&& last is Some
            &&& 0 <= last->Some_0 < n
            &&& after.last_warn_at == Some(seen[last->Some_0].1)
        }),
    decreases n,
{
    assert(degraded_reason(seen[n - 1].0) is Some);
    if n == 1 {
        reveal_with_fuel(after_observations, 2);
        reveal_with_fuel(last_warning, 2);
    } else {
        lemma_degraded_run(t, seen, (n - 1) as nat);
    }
}

/// Over a run of degraded observations the first warns. A later one reminds exactly where the
/// interval since the last warning has passed, and else nothing is logged. A reminder tells the
/// whole seconds since the first observation of the run, and how many there were up to it: neither
/// begins anew with a reminder or with another reason.
pub proof fn law_reminders_tell_the_whole_run(
    t: Tracker,
    seen: Seq<(HealthObservation, int)>,
    k: int,
)
    requires
        well_tracked(t),
        !(t.state is Degraded),
        degraded_run(seen),
        0 <= k < seen.len() <= u64::MAX,
        forall|i: int| 0 <= i < seen.len() ==> 0 <= (#[trigger] seen[i]).1 < NANOS_END,
    ensures
        ({
            let (obs, now) = seen[k];
            let reason = degraded_reason(obs)->Some_0;
            let decision = stepped(after_observations(t, seen, k as nat), obs, now).1;
            let last = last_warning(t, seen, k as nat);
            if k == 0 {
                decision == (LogDecision::WarnTransition { reason })
            } else {
                &&& last is Some
                &&& 0 <= last->Some_0 < k
                &&& now - seen[last->Some_0].1 < t.interval ==> decision == LogDecision::Suppress
                &&& now - seen[last->Some_0].1 >= t.interval ==> {
                    &&& decision is WarnPeriodicReminder
                    &&& decision->WarnPeriodicReminder_reason == reason
                    &&& decision->elapsed_secs == whole_secs(now - seen[0].1)
                    &&& decision->occurrences == k + 1
                }
            }
        }),
{
    assert(degraded_reason(seen[k].0) is Some);
    if k > 0 {
        lemma_degraded_run(t, seen, k as nat);
        let last = last_warning(t, seen, k as nat)->Some_0;
        assert(seen[last].1 <= seen[k].1);
        assert(seen[0].1 <= seen[k].1);
        assert(0 <= seen[0].1 && seen[k].1 < NANOS_END);
    }
}

/// Whether a tick is acted on and sees the process.
pub open spec fn sees(tick: Tick) -> bool {
    is_acted_on(tick) && tick.process is Some
}

/// Whether a tick is acted on and misses the process.
pub open spec fn misses(tick: Tick) -> bool {
    is_acted_on(tick) && tick.process is None
}

/// The state after the first `n` ticks.
pub open spec fn watched(start: int, ticks: Seq<Tick>, n: nat) -> Monitor
    decreases n,
{
    if n == 0 {
        initial_monitor(start)
    } else {
        ticked(watched(start, ticks, (n - 1) as nat), ticks[n - 1]).0
    }
}

/// Whether the process is launched at the tick at `n`.
pub open spec fn launches(start: int, ticks: Seq<Tick>, n: int) -> bool {
    ticked(watched(start, ticks, n as nat), ticks[n]).1
}

/// Whether, before the tick at `n`, the process was last seen at `seen`, first missed after that at
/// `missed`, and not launched since it was seen.
pub open spec fn is_gone(start: int, ticks: Seq<Tick>, n: int, seen: int, missed: int) -> bool {
    &&& 0 <= seen < missed < n
    &&& sees(ticks[seen])
    &&& misses(ticks[missed])
    &&& forall|j: int| seen < j < missed ==> !is_acted_on(#[trigger] ticks[j])
    &&& forall|j: int| seen < j < n ==> !sees(#[trigger] ticks[j]) && !launches(start, ticks, j)
}

/// Whether, before the tick at `n`, the process was seen at `seen` and no tick was acted on since.
spec fn is_up(ticks: Seq<Tick>, n: int, seen: int) -> bool {
    &&& 0 <= seen < n
    &&& sees(ticks[seen])
    &&& forall|j: int| seen < j < n ==> !is_acted_on(#[trigger] ticks[j])
}

spec fn is_watch(start: int, ticks: Seq<Tick>, n: nat) -> bool {
    let m = watched(start, ticks, n);
    &&& m.was_running ==> exists|seen: int| is_up(ticks, n as int, seen)
    &&& m.waiting_since is Some ==> !m.was_running && exists|seen: int, missed: int|
        #[trigger] is_gone(start, ticks, n as int, seen, missed) && m.waiting_since == Some(
            ticks[missed].now,
        )
}

proof fn lemma_watch(start: int, ticks: Seq<Tick>, n: nat)
    requires
        n <= ticks.len(),
    ensures
        is_watch(start, ticks, n),
    decreases n,
{
    if n > 0 {
        let k = n - 1;
        lemma_watch(start, ticks, k as nat);
        let before = watched(start, ticks, k as nat);
        let tick = ticks[k];
        let m = watched(start, ticks, n);
        if m.was_running {
            if sees(tick) {
                assert(is_up(ticks, n as int, k));
            } else {
                let seen = choose|seen: int| is_up(ticks, k, seen);
                assert(is_up(ticks, n as int, seen));
            }
        }
        if m.waiting_since is Some {
            if misses(tick) && before.was_running {
                let seen = choose|seen: int| is_up(ticks, k, seen);
                assert(!launches(start, ticks, k));
                assert forall|j: int| seen < j < n implies !sees(#[trigger] ticks[j])
                    && !launches(start, ticks, j) by {
                    if j < k {
                        assert(!is_acted_on(ticks[j]));
                    }
                }
                assert(is_gone(start, ticks, n as int, seen, k));
            } else {
                let (seen, missed) = choose|seen: int, missed: int|
                    #[trigger] is_gone(start, ticks, k, seen, missed) && before.waiting_since
                        == Some(ticks[missed].now);
                assert(!launches(start, ticks, k));
                assert(is_gone(start, ticks, n as int, seen, missed));
            }
        }
    }
}

/// The process is launched only at a tick that is acted on and misses it, after an earlier one that
/// was acted on had seen it, and no sooner than three whole seconds after the first tick that was
/// acted on and missed it. Since it was last seen it was not launched: each disappearance brings
/// one launch at most.
pub proof fn law_launch_follows_a_disappearance(start: int, ticks: Seq<Tick>, n: int)
    requires
        0 <= n < ticks.len(),
        launches(start, ticks, n),
    ensures
        misses(ticks[n]),
        exists|seen: int, missed: int|
            #[trigger] is_gone(start, ticks, n, seen, missed) && whole_secs(
                span(ticks[missed].now, ticks[n].now),
            ) >= RESTART_DELAY_SECS,
{
    lemma_watch(start, ticks, n as nat);
    let m = watched(start, ticks, n as nat);
    if m.was_running {
        assert(whole_secs(span(ticks[n].now, ticks[n].now)) == 0);
    }
    let (seen, missed) = choose|seen: int, missed: int|
        #[trigger] is_gone(start, ticks, n, seen, missed) && m.waiting_since == Some(
            ticks[missed].now,
        );
    assert(is_gone(start, ticks, n, seen, missed));
}

/// Between two launches the process was seen.
pub proof fn law_one_launch_per_disappearance(start: int, ticks: Seq<Tick>, a: int, b: int) -> (seen:
    int)
    requires
        0 <= a < b < ticks.len(),
        launches(start, ticks, a),
        launches(start, ticks, b),
    ensures
        a < seen < b,
        sees(ticks[seen]),
{
    law_launch_follows_a_disappearance(start, ticks, a);
    law_launch_follows_a_disappearance(start, ticks, b);
    let (seen, missed) = choose|seen: int, missed: int|
        #[trigger] is_gone(start, ticks, b, seen, missed) && whole_secs(
            span(ticks[missed].now, ticks[b].now),
        ) >= RESTART_DELAY_SECS;
    if seen < a {
        assert(!launches(start, ticks, a)) by {
            assert(!sees(ticks[a]) && !launches(start, ticks, a));
        }
    }
    seen
}

/// A tick while the scans are held up, or while the session is not running, changes nothing.
pub proof fn law_paused_tick_changes_nothing(m: Monitor, tick: Tick)
    requires
        tick.paused || !tick.session_running,
    ensures
        ticked(m, tick) == (m, false),
{
}

/// Whether the clock of the ticks does not run backwards from `start` on.
pub open spec fn ticks_in_order(start: int, ticks: Seq<Tick>) -> bool {
    &&& forall|i: int| 0 <= i < ticks.len() ==> start <= (#[trigger] ticks[i]).now
    &&& forall|i: int, j: int|
        0 <= i <= j < ticks.len() ==> (#[trigger] ticks[i]).now <= (#[trigger] ticks[j]).now
}

proof fn lemma_watch_is_paced(start: int, ticks: Seq<Tick>, n: nat) -> (last: int)
    requires
        n <= ticks.len(),
        ticks_in_order(start, ticks),
    ensures
        paced(
            watched(start, ticks, n),
            last,
            if n == 0 {
                start
            } else {
                ticks[n - 1].now
            },
        ),
    decreases n,
{
    if n == 0 {
        start
    } else {
        let last = lemma_watch_is_paced(start, ticks, (n - 1) as nat);
        let clock = if n == 1 {
            start
        } else {
            ticks[n - 2].now
        };
        let before = watched(start, ticks, (n - 1) as nat);
        let tick = ticks[n - 1];
        if misses(tick) {
            lemma_paced(before, last, clock, Scan::Missing, tick.now)
        } else {
            last
        }
    }
}

/// The crash loop is damped over any watch: whatever the ticks see, and whether or not some are held
/// up, at most seven launches fall into one window, five rapid ones and two after a back-off.
pub proof fn law_launches_are_damped(start: int, ticks: Seq<Tick>, n: nat)
    requires
        n <= ticks.len(),
        ticks_in_order(start, ticks),
    ensures
        0 <= watched(start, ticks, n).restart_count <= MAX_RAPID_RESTARTS + 2,
{
    let last = lemma_watch_is_paced(start, ticks, n);
}

/// A launch adds one to the restarts of its window, which may be a new one, and nothing else adds to
/// them; a tick that is held up or sees the process leaves them as they are.
pub proof fn law_launches_are_counted(m: Monitor, tick: Tick)
    ensures
        ticked(m, tick).1 ==> ticked(m, tick).0.restart_count == windowed(
            noted_missing(m, tick.now),
            tick.now,
        ).restart_count + 1,
        !ticked(m, tick).1 ==> ticked(m, tick).0.restart_count == m.restart_count || ticked(
            m,
            tick,
        ).0.restart_count == 0,
        !misses(tick) ==> ticked(m, tick).0.restart_count == m.restart_count,
{
}

/// The counters of a watch stay small: after `n` ticks no more than `n` degraded observations are
/// counted, and so few restarts that a further tick keeps both counters within their types, as long
/// as the watch has had fewer ticks than the larger one can count.
pub proof fn law_watch_counts_fit(start: int, ticks: Seq<Tick>, n: nat)
    requires
        n <= ticks.len(),
        ticks_in_order(start, ticks),
    ensures
        0 <= watched(start, ticks, n).tracker.degraded_count <= n,
        n < ticks.len() && n < u64::MAX ==> {
            let next = ticked(watched(start, ticks, n), ticks[n as int]).0;
            &&& 0 <= next.restart_count <= u32::MAX
            &&& 0 <= next.tracker.degraded_count <= u64::MAX
        },
    decreases n,
{
    if n > 0 {
        law_watch_counts_fit(start, ticks, (n - 1) as nat);
    }
    if n < ticks.len() {
        law_launches_are_damped(start, ticks, n + 1);
        assert(watched(start, ticks, n + 1) == ticked(
            watched(start, ticks, n),
            ticks[n as int],
        ).0);
    }
}

// ---------------------------------------------------------------------------
// Laws: what each scan and each observation comes to
// ---------------------------------------------------------------------------

/// A missing process is restarted, an identified one is healthy, and anything else is only watched.
pub proof fn law_actions_go_by_observation()
    ensures
        health_action(HealthObservation::ProcessMissing) == HealthAction::RestartMissingProcess,
        health_action(HealthObservation::Identified) == HealthAction::Healthy,
        health_action(HealthObservation::A11yUnavailable) == HealthAction::ObserveDegraded,
        health_action(HealthObservation::Unidentified) == HealthAction::ObserveDegraded,
{
}

/// A tree that cannot be read tells nothing of the window; one that can be read tells whether the
/// main window is identified.
pub proof fn law_observations_go_by_what_was_seen(identified: bool)
    ensures
        observed(false, identified) == HealthObservation::A11yUnavailable,
        observed(true, true) == HealthObservation::Identified,
        observed(true, false) == HealthObservation::Unidentified,
        degraded_reason(HealthObservation::A11yUnavailable) == Some(
            DegradedReason::A11yUnavailable,
        ),
        degraded_reason(HealthObservation::Unidentified) == Some(DegradedReason::Unidentified),
        degraded_reason(HealthObservation::Identified) is None,
        degraded_reason(HealthObservation::ProcessMissing) is None,
{
}

/// Whether a tracker has seen nothing, or only what is healthy.
pub open spec fn has_nothing_to_tell(t: Tracker) -> bool {
    t.degraded_since is None && t.last_warn_at is None && t.degraded_count == 0
}

/// A fresh tracker has seen nothing, and keeps the interval that it was given.
pub proof fn law_fresh_tracker(interval: int)
    ensures
        fresh_tracker(interval).state == TrackedHealthState::Unknown,
        has_nothing_to_tell(fresh_tracker(interval)),
        fresh_tracker(interval).interval == interval,
{
}

/// The first degraded observation warns with its reason, and the run begins with it. A later one
/// counts on; it reminds, with its own reason, the whole seconds since the run began and the count,
/// where the last warning is an interval ago, and else says nothing.
pub proof fn law_degraded_observation(t: Tracker, obs: HealthObservation, now: int)
    requires
        obs == HealthObservation::A11yUnavailable || obs == HealthObservation::Unidentified,
    ensures
        ({
            let reason = if obs == HealthObservation::A11yUnavailable {
                DegradedReason::A11yUnavailable
            } else {
                DegradedReason::Unidentified
            };
            let (after, decision) = stepped(t, obs, now);
            let first = !(t.state is Degraded);
            let last = if t.last_warn_at is Some {
                t.last_warn_at->Some_0
            } else {
                now
            };
            let idle = if last <= now {
                now - last
            } else {
                0
            };
            &&& after.state == TrackedHealthState::Degraded(reason)
            &&& after.degraded_count == t.degraded_count + 1
            &&& after.interval == t.interval
            &&& first ==> {
                &&& decision == (LogDecision::WarnTransition { reason })
                &&& after.degraded_since == Some(now)
                &&& after.last_warn_at == Some(now)
            }
            &&& !first ==> after.degraded_since == t.degraded_since
            &&& !first && idle >= t.interval ==> {
                &&& decision is WarnPeriodicReminder
                &&& decision->WarnPeriodicReminder_reason == reason
                &&& decision->occurrences == (t.degraded_count + 1) as u64
                &&& t.degraded_since is Some && t.degraded_since->Some_0 <= now
                    ==> decision->elapsed_secs == ((now - t.degraded_since->Some_0)
                    / 1_000_000_000) as u64
                &&& t.degraded_since is None || t.degraded_since->Some_0 > now
                    ==> decision->elapsed_secs == 0
                &&& after.last_warn_at == Some(now)
            }
            &&& !first && idle < t.interval ==> decision is Suppress && after.last_warn_at
                == t.last_warn_at
        }),
{
}

/// A healthy observation ends a run, and says so with the reason that it had; without a run it says
/// nothing. A missing process ends a run in silence, and what was seen is forgotten.
pub proof fn law_other_observations(t: Tracker, now: int)
    ensures
        ({
            let (after, decision) = stepped(t, HealthObservation::Identified, now);
            &&& after.state == TrackedHealthState::Healthy
            &&& after.interval == t.interval
            &&& t.state is Degraded ==> has_nothing_to_tell(after) && decision == (
            LogDecision::InfoRecovered { previous_reason: t.state->Degraded_0 })
            &&& !(t.state is Degraded) ==> decision is Suppress && after == (Tracker {
                state: TrackedHealthState::Healthy,
                ..t
            })
        }),
        ({
            let (after, decision) = stepped(t, HealthObservation::ProcessMissing, now);
            &&& decision is Suppress
            &&& after.state == TrackedHealthState::Unknown
            &&& has_nothing_to_tell(after)
            &&& after.interval == t.interval
        }),
{
}

/// The watch begins without a process, a restart or a run, its window at the instant of its
/// beginning; runs are reminded of once a minute.
pub proof fn law_watch_begins(now: int)
    ensures
        ({
            let m = initial_monitor(now);
            &&& !m.was_running
            &&& m.restart_count == 0
            &&& m.window_start == now
            &&& m.waiting_since is None
            &&& m.tracker.state == TrackedHealthState::Unknown
            &&& has_nothing_to_tell(m.tracker)
            &&& m.tracker.interval == 60_000_000_000
        }),
{
}

/// A process that is found is running, and a restart that was pending is dropped when it is back.
/// Nothing else changes.
pub proof fn law_found_process(m: Monitor)
    ensures
        found(m).was_running,
        !m.was_running ==> found(m).waiting_since is None,
        m.was_running ==> found(m).waiting_since == m.waiting_since,
        found(m).restart_count == m.restart_count,
        found(m).window_start == m.window_start,
        found(m).tracker == m.tracker,
{
}

/// A process that has gone is waited for from the scan that first misses it. It is restarted once
/// three whole seconds have passed since then, or thirty where five restarts or more fell into the
/// window; a window that is more than sixty whole seconds old is begun anew before that is looked
/// at. A restart is counted, and nothing is then waited for. What was observed is forgotten.
pub proof fn law_missing_process(m: Monitor, now: int)
    ensures
        ({
            let (after, report) = missing(m, now);
            let since = if m.was_running {
                Some(now)
            } else {
                m.waiting_since
            };
            let gone = if since->Some_0 <= now {
                now - since->Some_0
            } else {
                0
            };
            let over = since is Some && now - m.window_start >= 61_000_000_000;
            let count = if over {
                0
            } else {
                m.restart_count
            };
            let due = since is Some && gone >= (if count >= 5 {
                30_000_000_000int
            } else {
                3_000_000_000int
            });
            &&& report.disappeared == m.was_running
            &&& report.restart <==> due
            &&& report.backing_off <==> since is Some && count >= 5 && 3_000_000_000 <= gone
                < 4_000_000_000
            &&& !after.was_running
            &&& after.restart_count == if due {
                count + 1
            } else {
                count
            }
            &&& after.window_start == if over {
                now
            } else {
                m.window_start
            }
            &&& due ==> after.waiting_since is None
            &&& !due ==> after.waiting_since == since
            &&& after.tracker.state == TrackedHealthState::Unknown
            &&& has_nothing_to_tell(after.tracker)
            &&& after.tracker.interval == m.tracker.interval
        }),
{
}

/// On a clock that has run backwards no time has passed: such a scan restarts nothing.
pub proof fn law_clock_that_runs_backwards(m: Monitor, now: int)
    requires
        m.was_running || m.waiting_since is None || now <= m.waiting_since->Some_0,
    ensures
        !missing(m, now).1.restart,
{
}

/// A tick that is held up, by the pause or for want of a running session, changes nothing and
/// reports nothing. Else a process that is there is found and observed, and one that is not is
/// missed.
pub proof fn law_tick_comes_to(m: Monitor, tick: Tick)
    ensures
        tick.paused || !tick.session_running ==> ticked(m, tick) == (m, false) && tick_report(
            m,
            tick,
        ) is HeldUp,
        !tick.paused && tick.session_running && tick.process is Some ==> {
            let up = found(m);
            let (tracker, decision) = stepped(up.tracker, tick.process->Some_0, tick.now);
            &&& ticked(m, tick) == (Monitor { tracker, ..up }, false)
            &&& tick_report(m, tick) == (TickReport::Seen {
                appeared: !m.was_running,
                log: decision,
            })
        },
        !tick.paused && tick.session_running && tick.process is None ==> {
            let (after, report) = missing(m, tick.now);
            &&& ticked(m, tick) == (after, report.restart)
            &&& tick_report(m, tick) == TickReport::Missed(report)
        },
{
}

/// A tick is made of what it is given: the pause, whether the session is running, what was seen of
/// the process, and the time.
pub proof fn law_ticks_say_all(
    gate: MonitoringGate,
    session: Option<Session>,
    seen: Option<(bool, bool)>,
    now: Instant,
)
    ensures
        ({
            let tick = tick_of(gate, session, seen, now);
            &&& tick.paused == gate.paused
            &&& tick.session_running <==> session is Some && session->Some_0.status@ == "running"@
            &&& tick.process is Some <==> seen is Some
            &&& seen is Some ==> tick.process->Some_0 == observed(
                seen->Some_0.0,
                seen->Some_0.1,
            )
            &&& tick.now == now@
        }),
{
}

/// Nothing of what the scans remember is lost in what it is taken to hold.
pub proof fn law_monitors_say_all(s: MonitorState)
    ensures
        s@.was_running == s.was_running,
        s@.restart_count == s.restart_count,
        s@.window_start == s.window_start@,
        s@.waiting_since is Some <==> s.waiting_restart_since is Some,
        s.waiting_restart_since is Some ==> s@.waiting_since == Some(
            s.waiting_restart_since->Some_0@,
        ),
        s@.tracker == s.log_tracker@,
{
}

/// Nothing of a tracker is lost in what it is taken to hold.
proof fn lemma_trackers_say_all(t: HealthLogTracker)
    ensures
        t@.state == t.state,
        t@.degraded_count == t.degraded_count,
        t@.interval == t.periodic_interval@,
        t@.degraded_since is Some <==> t.degraded_since is Some,
        t.degraded_since is Some ==> t@.degraded_since == Some(t.degraded_since->Some_0@),
        t@.last_warn_at is Some <==> t.last_warn_at is Some,
        t.last_warn_at is Some ==> t@.last_warn_at == Some(t.last_warn_at->Some_0@),
{
}

} // verus!
