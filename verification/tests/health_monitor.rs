//! What the scans decide and log.

use agent_server::clock::{Duration, Instant};
use agent_server::health_monitor::{
    DegradedReason, HealthAction, HealthLogTracker, HealthObservation, LogDecision, MissingReport,
    MonitorState, MonitoringGate, TickReport, evaluate_health_action, pause_monitoring,
    resume_monitoring,
};
use agent_server::session::Session;

fn start() -> Instant {
    Instant::from_start(Duration::from_parts(1_000, 5).unwrap())
}

fn at(start: Instant, secs: u64) -> Instant {
    start.checked_plus(Duration::from_secs(secs)).unwrap()
}

fn session(status: &str) -> Session {
    Session {
        id: "s1".to_string(),
        name: "default".to_string(),
        status: status.to_string(),
        display: ":1".to_string(),
        linux_user: "agent".to_string(),
        logged_in_user: None,
    }
}

#[test]
fn test_health_action_process_missing() {
    assert_eq!(
        evaluate_health_action(HealthObservation::ProcessMissing),
        HealthAction::RestartMissingProcess
    );
}

#[test]
fn test_health_action_a11y_unavailable_never_kills() {
    let action = evaluate_health_action(HealthObservation::A11yUnavailable);
    assert_eq!(action, HealthAction::ObserveDegraded);
    assert_ne!(action, HealthAction::RestartMissingProcess);
}

#[test]
fn test_health_action_unidentified_ui_never_kills() {
    let action = evaluate_health_action(HealthObservation::Unidentified);
    assert_eq!(action, HealthAction::ObserveDegraded);
    assert_ne!(action, HealthAction::RestartMissingProcess);
}

#[test]
fn test_health_action_identified() {
    assert_eq!(evaluate_health_action(HealthObservation::Identified), HealthAction::Healthy);
}

#[test]
fn test_degraded_first_occurrence_logs_warn() {
    let mut tracker = HealthLogTracker::default();
    let now = start();

    let decision = tracker.step(HealthObservation::A11yUnavailable, now);
    assert_eq!(
        decision,
        LogDecision::WarnTransition { reason: DegradedReason::A11yUnavailable }
    );
}

#[test]
fn test_repeated_degraded_observations_rate_limited() {
    let mut tracker = HealthLogTracker::new(Duration::from_secs(60));
    let start = start();

    let d0 = tracker.step(HealthObservation::Unidentified, start);
    assert!(matches!(d0, LogDecision::WarnTransition { .. }));

    for sec in 1..60 {
        let d = tracker.step(HealthObservation::Unidentified, at(start, sec));
        assert_eq!(d, LogDecision::Suppress, "Second {sec} should be suppressed");
    }

    let d60 = tracker.step(HealthObservation::Unidentified, at(start, 60));
    assert_eq!(
        d60,
        LogDecision::WarnPeriodicReminder {
            reason: DegradedReason::Unidentified,
            elapsed_secs: 60,
            occurrences: 61,
        }
    );
}

#[test]
fn test_degraded_to_healthy_recovery_logs_info() {
    let mut tracker = HealthLogTracker::default();
    let start = start();

    let _ = tracker.step(HealthObservation::A11yUnavailable, start);
    let recovery = tracker.step(HealthObservation::Identified, at(start, 5));
    assert_eq!(
        recovery,
        LogDecision::InfoRecovered { previous_reason: DegradedReason::A11yUnavailable }
    );

    let healthy_steady = tracker.step(HealthObservation::Identified, at(start, 6));
    assert_eq!(healthy_steady, LogDecision::Suppress);
}

#[test]
fn test_degraded_ten_minutes_bounded_warnings() {
    let mut tracker = HealthLogTracker::new(Duration::from_secs(60));
    let start = start();
    let mut warn_count = 0;

    for sec in 0..=600 {
        let d = tracker.step(HealthObservation::Unidentified, at(start, sec));
        match d {
            LogDecision::WarnTransition { .. } | LogDecision::WarnPeriodicReminder { .. } => {
                warn_count += 1;
            }
            _ => {}
        }
    }

    assert_eq!(warn_count, 11);
    assert!(warn_count <= 600, "10-minute warnings must be bounded <= 600");
}

#[test]
fn test_alternating_degraded_reasons_stay_rate_limited() {
    let mut tracker = HealthLogTracker::new(Duration::from_secs(60));
    let start = start();

    let d0 = tracker.step(HealthObservation::A11yUnavailable, start);
    assert!(matches!(d0, LogDecision::WarnTransition { .. }));

    let d1 = tracker.step(HealthObservation::Unidentified, at(start, 1));
    assert_eq!(d1, LogDecision::Suppress);
}

#[test]
fn test_process_missing_resets_tracker() {
    let mut tracker = HealthLogTracker::default();
    let start = start();

    let _ = tracker.step(HealthObservation::A11yUnavailable, start);
    let d_missing = tracker.step(HealthObservation::ProcessMissing, at(start, 2));
    assert_eq!(d_missing, LogDecision::Suppress);

    let d_fresh = tracker.step(HealthObservation::Unidentified, at(start, 10));
    assert_eq!(
        d_fresh,
        LogDecision::WarnTransition { reason: DegradedReason::Unidentified }
    );
}

#[test]
fn spans_between_instants() {
    let a = Instant::from_start(Duration::from_parts(5, 900_000_000).unwrap());
    let b = Instant::from_start(Duration::from_parts(7, 100_000_000).unwrap());
    assert_eq!(b.duration_since(a).as_secs(), 1);
    assert_eq!(a.duration_since(b).as_secs(), 0);
    assert!(Duration::from_parts(1, 1_000_000_000).is_none());
    assert!(Duration::from_secs(2).at_least(&Duration::from_secs(2)));
    assert!(Instant::from_start(Duration::from_secs(u64::MAX))
        .checked_plus(Duration::from_secs(1))
        .is_none());
}

#[test]
fn a_missing_process_is_restarted_after_its_delay() {
    let t0 = start();
    let mut m = MonitorState::new(t0);
    // A process that never ran is not started.
    assert!(!m.process_missing(at(t0, 10)).restart);
    assert!(m.process_found());
    assert!(!m.process_found());
    assert_eq!(
        m.process_missing(at(t0, 11)),
        MissingReport { disappeared: true, backing_off: false, restart: false }
    );
    assert!(!m.process_missing(at(t0, 13)).restart);
    assert_eq!(
        m.process_missing(at(t0, 14)),
        MissingReport { disappeared: false, backing_off: false, restart: true }
    );
    assert_eq!(m.restart_count, 1);
    assert!(!m.process_missing(at(t0, 20)).restart);
}

#[test]
fn a_crash_loop_backs_off() {
    let t0 = start();
    let mut m = MonitorState::new(t0);
    let mut now = 0;
    for _ in 0..5 {
        m.process_found();
        m.process_missing(at(t0, now));
        now += 3;
        assert!(m.process_missing(at(t0, now)).restart);
        now += 1;
    }
    assert_eq!(m.restart_count, 5);
    m.process_found();
    m.process_missing(at(t0, now));
    let report = m.process_missing(at(t0, now + 3));
    assert_eq!(
        report,
        MissingReport { disappeared: false, backing_off: true, restart: false }
    );
    assert!(!m.process_missing(at(t0, now + 29)).restart);
    assert!(m.process_missing(at(t0, now + 30)).restart);
    // A window that has run out begins anew.
    m.process_found();
    m.process_missing(at(t0, 100));
    assert_eq!(m.restart_count, 0);
    assert!(m.process_missing(at(t0, 103)).restart);
    assert_eq!(m.restart_count, 1);
}

#[test]
fn restarts_in_one_window_are_few() {
    let t0 = start();
    let mut m = MonitorState::new(t0);
    let mut most = 0;
    // A process that crashes as soon as it is started, seen every second for ten minutes.
    let mut running = true;
    for sec in 0..600 {
        if running {
            m.process_found();
            running = false;
        }
        if m.process_missing(at(t0, sec)).restart {
            running = true;
        }
        most = most.max(m.restart_count);
    }
    assert!(most >= 5 && most <= 7, "{most}");
}

#[test]
fn observations_of_a_running_process() {
    let t0 = start();
    let mut m = MonitorState::new(t0);
    assert_eq!(
        m.observe(false, false, t0),
        LogDecision::WarnTransition { reason: DegradedReason::A11yUnavailable }
    );
    assert_eq!(m.log_tracker.degraded_count(), 1);
    assert_eq!(m.observe(true, false, at(t0, 1)), LogDecision::Suppress);
    assert_eq!(
        m.observe(true, true, at(t0, 2)),
        LogDecision::InfoRecovered { previous_reason: DegradedReason::Unidentified }
    );
    assert_eq!(m.log_tracker.degraded_count(), 0);
}

#[test]
fn scans_are_held_up() {
    let mut gate = MonitoringGate { paused: false };
    assert!(gate.admits(&Some(session("running"))));
    assert!(!gate.admits(&Some(session("stopped"))));
    assert!(!gate.admits(&None));
    pause_monitoring(&mut gate);
    assert!(!gate.admits(&Some(session("running"))));
    resume_monitoring(&mut gate);
    assert!(gate.admits(&Some(session("running"))));
}

#[test]
fn launching_the_client() {
    let command = session("running").launch_command();
    assert_eq!(command.program, "/opt/tools/launch-wechat");
    assert_eq!(
        command.env,
        vec![
            ("DISPLAY".to_string(), ":1".to_string()),
            ("WECHAT_HOME".to_string(), "/home/agent".to_string()),
            ("WECHAT_USER".to_string(), "agent".to_string()),
        ]
    );
}

#[test]
fn reminders_tell_the_whole_run() {
    let t0 = start();
    let mut tracker = HealthLogTracker::new(Duration::from_secs(10));
    let mut reminders = Vec::new();
    for sec in 0..25 {
        let obs = if sec % 2 == 0 {
            HealthObservation::Unidentified
        } else {
            HealthObservation::A11yUnavailable
        };
        if let LogDecision::WarnPeriodicReminder { reason, elapsed_secs, occurrences } =
            tracker.step(obs, at(t0, sec))
        {
            assert_eq!(reason, DegradedReason::Unidentified);
            reminders.push((elapsed_secs, occurrences));
        }
    }
    assert_eq!(reminders, vec![(10, 11), (20, 21)]);
}

#[test]
fn one_launch_per_disappearance() {
    let t0 = start();
    let mut m = MonitorState::new(t0);
    let mut gate = MonitoringGate { paused: false };
    let running = Some(session("running"));
    let mut launches = Vec::new();
    for sec in 0..40 {
        // Held up from the eighth to the twelfth second; the process is there at 5 and at 20.
        if sec == 8 {
            pause_monitoring(&mut gate);
        } else if sec == 13 {
            resume_monitoring(&mut gate);
        }
        if !gate.admits(&running) {
            continue;
        }
        if sec == 5 || sec == 20 {
            m.process_found();
        } else if m.process_missing(at(t0, sec)).restart {
            launches.push(sec);
        }
    }
    // First missed at 6 and at 21; at 9 the scans were held up.
    assert_eq!(launches, vec![13, 24]);
}

#[test]
fn ticks_of_a_watch() {
    let t0 = start();
    let mut m = MonitorState::new(t0);
    let open = MonitoringGate { paused: false };
    let shut = MonitoringGate { paused: true };
    let running = Some(session("running"));
    assert_eq!(m.tick(&shut, &running, Some((true, true)), at(t0, 1)), TickReport::HeldUp);
    assert_eq!(m.tick(&open, &None, None, at(t0, 1)), TickReport::HeldUp);
    assert_eq!(
        m.tick(&open, &Some(session("stopped")), None, at(t0, 1)),
        TickReport::HeldUp
    );
    assert!(!m.was_running);
    let degraded = LogDecision::WarnTransition { reason: DegradedReason::Unidentified };
    assert_eq!(
        m.tick(&open, &running, Some((true, false)), at(t0, 2)),
        TickReport::Seen { appeared: true, log: degraded }
    );
    let recovered = LogDecision::InfoRecovered { previous_reason: DegradedReason::Unidentified };
    assert_eq!(
        m.tick(&open, &running, Some((true, true)), at(t0, 3)),
        TickReport::Seen { appeared: false, log: recovered }
    );
    let missed = |disappeared: bool, restart: bool| {
        TickReport::Missed(MissingReport { disappeared, backing_off: false, restart })
    };
    assert_eq!(m.tick(&open, &running, None, at(t0, 4)), missed(true, false));
    assert_eq!(m.tick(&open, &running, None, at(t0, 6)), missed(false, false));
    assert_eq!(m.tick(&shut, &running, None, at(t0, 7)), TickReport::HeldUp);
    assert_eq!(m.tick(&open, &running, None, at(t0, 8)), missed(false, true));
    assert_eq!(m.restart_count, 1);
}

#[test]
fn launches_in_one_window_are_few() {
    let t0 = start();
    let mut m = MonitorState::new(t0);
    let running = Some(session("running"));
    let mut launches = 0;
    let mut most = 0;
    let mut up = true;
    for sec in 0..600 {
        // The process dies at once; every ninth tick is held up.
        let gate = MonitoringGate { paused: sec % 9 == 8 };
        let seen = if up { Some((true, true)) } else { None };
        match m.tick(&gate, &running, seen, at(t0, sec)) {
            TickReport::HeldUp => {}
            TickReport::Seen { .. } => up = false,
            TickReport::Missed(report) => {
                if report.restart {
                    launches += 1;
                    up = true;
                }
            }
        }
        most = most.max(m.restart_count);
    }
    assert!(launches > 10, "{launches}");
    assert!(most >= 5 && most <= 7, "{most}");
}
