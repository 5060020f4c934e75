//! The plan that sends one message.

use agent_server::a11y::{A11yNode, Bounds};
use agent_server::send_message::{
    Action, AppState, IdentifiedStates, MainWindow, OpenChatResult, PlanStep, SelectedAction,
    SendMessageParams, SendMessagePhase, SendMessagePlan, SendMessagePlanState, Stroke,
};

fn leaf(role: &str, name: &str, x: i32, y: i32, states: &[&str]) -> A11yNode {
    A11yNode {
        role: role.to_string(),
        name: name.to_string(),
        bounds: Some(Bounds::from_pixels(x, y, 100, 20)),
        children: None,
        states: Some(states.iter().map(|s| s.to_string()).collect()),
    }
}

fn tree(title: &str, edit: &[&str], send: &[&str]) -> A11yNode {
    let mut list = leaf("list", "Chats", 60, 60, &[]);
    list.children = Some(vec![leaf("list-item", "someone", 60, 100, &[])]);
    let mut frame = leaf("frame", "WeChat", 0, 0, &["ACTIVE"]);
    frame.children = Some(vec![
        list,
        leaf("label", title, 300, 20, &[]),
        leaf("text", "", 280, 560, edit),
        leaf("push-button", "Send(S)", 880, 600, send),
    ]);
    let mut root = leaf("application", "wechat", 0, 0, &[]);
    root.children = Some(vec![frame]);
    root
}

fn window(state: &str) -> IdentifiedStates {
    IdentifiedStates {
        main_window: Some(MainWindow {
            state_id: state.to_string(),
            frame: Some("WeChat".to_string()),
        }),
        popup: None,
    }
}

fn params(message: Option<&str>) -> SendMessageParams {
    SendMessageParams {
        chat_id: "Bob".to_string(),
        message: message.map(|m| m.to_string()),
        image_path: None,
        image_mime: None,
        file_path: None,
    }
}

fn ask(
    state: &mut SendMessagePlanState,
    params: &SendMessageParams,
    identified: &IdentifiedStates,
    a11y: &A11yNode,
) -> PlanStep {
    SendMessagePlan.select_action(
        &AppState::default(),
        params,
        identified,
        state,
        a11y,
        "session_1",
    )
}

fn strokes(step: PlanStep) -> Vec<String> {
    let selected = match step {
        PlanStep::Act(selected) => selected,
        PlanStep::RunThenAct { selected, .. } => selected,
        other => panic!("no action: {:?}", other),
    };
    match selected {
        SelectedAction { action: Action::Sequence(strokes), frame } => {
            assert_eq!(frame.as_deref(), Some("WeChat"));
            strokes
                .iter()
                .map(|s| match s {
                    Stroke::Wait { ms } => format!("wait {ms}"),
                    Stroke::Key { combo } => format!("key {combo}"),
                    Stroke::Type { text, selector } => format!("type {text} {selector:?}"),
                })
                .collect()
        }
        other => panic!("no sequence: {:?}", other),
    }
}

#[test]
fn test_initial_plan_state_defaults() {
    let plan = SendMessagePlan;
    let state = plan.initial_plan_state();
    assert!(!state.send_action_executed);
    assert!(state.failure_reason.is_none());
    assert_eq!(state.confirm_attempts, 0);
    assert!(matches!(state.phase, SendMessagePhase::Opening));
    assert_eq!(plan.id(), "send_message");
}

#[test]
fn test_failure_reason_propagation() {
    let plan = SendMessagePlan;
    let mut state = plan.initial_plan_state();
    assert_eq!(plan.failure_reason(&state), None);

    state.failure_reason = Some("composer_ambiguous:found_2_candidates".to_string());
    assert_eq!(
        plan.failure_reason(&state),
        Some("composer_ambiguous:found_2_candidates".to_string())
    );
}

#[test]
fn test_send_action_guard_prevents_duplicate() {
    let plan = SendMessagePlan;
    let mut state = plan.initial_plan_state();
    state.phase = SendMessagePhase::Inputting;
    state.send_action_executed = true;

    let app_state = AppState::default();
    let identified = IdentifiedStates { main_window: None, popup: None };
    let dummy_a11y = A11yNode {
        role: "application".to_string(),
        name: "WeChat".to_string(),
        states: None,
        bounds: None,
        children: None,
    };
    let params = SendMessageParams {
        chat_id: "filehelper".to_string(),
        message: Some("hello".to_string()),
        image_path: None,
        image_mime: None,
        file_path: None,
    };

    let action = plan.select_action(
        &app_state,
        &params,
        &identified,
        &mut state,
        &dummy_a11y,
        "session_1",
    );

    assert!(matches!(action, PlanStep::Stop), "Guard must suppress duplicate action");
    assert!(
        matches!(state.phase, SendMessagePhase::Done),
        "State should transition to Done"
    );
    assert!(plan.is_goal_reached(&app_state, &state));
}

#[test]
fn a_text_is_sent_once_and_confirmed() {
    let mut state = SendMessagePlan.initial_plan_state();
    let p = params(Some("hi"));
    let open = window("chat_open");
    let focused = tree("Bob", &["EDITABLE", "FOCUSED"], &["ENABLED"]);

    assert_eq!(
        strokes(ask(&mut state, &p, &open, &focused)),
        vec!["key ctrl+a", "type hi None", "wait 100", "key Return"]
    );
    assert!(state.send_action_executed);
    assert_eq!(state.phase, SendMessagePhase::Confirming);

    let waiting = ask(&mut state, &p, &open, &focused);
    assert!(matches!(
        waiting,
        PlanStep::Act(SelectedAction { action: Action::WaitShort, .. })
    ));
    assert_eq!(state.confirm_attempts, 1);

    let gone = tree("Bob", &["EDITABLE"], &["DISABLED"]);
    let last = ask(&mut state, &p, &open, &gone);
    assert!(matches!(last, PlanStep::Act(SelectedAction { action: Action::WaitShort, .. })));
    assert_eq!(state.phase, SendMessagePhase::Done);
    assert!(matches!(ask(&mut state, &p, &open, &focused), PlanStep::Stop));
    assert!(state.failure_reason.is_none());
}

#[test]
fn the_composer_is_clicked_first() {
    let mut state = SendMessagePlan.initial_plan_state();
    let a11y = tree("Bob", &["EDITABLE"], &[]);
    match ask(&mut state, &params(Some("hi")), &window("chat_open"), &a11y) {
        PlanStep::Act(SelectedAction { action: Action::ClickBounds(b), frame }) => {
            assert_eq!(b.center(), (330, 570));
            assert_eq!(frame.as_deref(), Some("WeChat"));
        }
        other => panic!("{:?}", other),
    }
    assert_eq!(state.phase, SendMessagePhase::Inputting);
}

#[test]
fn a_composer_without_bounds_is_no_target() {
    let mut state = SendMessagePlan.initial_plan_state();
    let mut a11y = tree("Bob", &["EDITABLE"], &[]);
    let frame = &mut a11y.children.as_mut().unwrap()[0];
    frame.children.as_mut().unwrap()[2].bounds = None;
    assert!(matches!(
        ask(&mut state, &params(Some("hi")), &window("chat_open"), &a11y),
        PlanStep::Stop
    ));
    assert_eq!(state.failure_reason.as_deref(), Some("edit_node_missing_bounds"));
}

#[test]
fn another_chat_is_opened_by_force() {
    let mut state = SendMessagePlan.initial_plan_state();
    let a11y = tree("Alice", &["EDITABLE", "FOCUSED"], &[]);
    match ask(&mut state, &params(Some("hi")), &window("chat"), &a11y) {
        PlanStep::OpenChat { chat_id, force, click_xy } => {
            assert_eq!(chat_id, "Bob");
            assert!(force);
            assert_eq!(click_xy, Some((110, 110)));
        }
        other => panic!("{:?}", other),
    }
    assert_eq!(state.phase, SendMessagePhase::Opening);

    let failed = OpenChatResult { ok: false, error: None, skipped: None };
    let mut other = SendMessagePlan.initial_plan_state();
    let step = SendMessagePlan.chat_opened(
        &AppState::default(),
        &params(Some("hi")),
        &window("chat"),
        &mut other,
        &a11y,
        failed,
    );
    assert!(matches!(step, PlanStep::Stop));
    assert_eq!(other.failure_reason.as_deref(), Some("open_chat_failed:open_chat_failed"));
    assert!(!other.open_result.unwrap().ok);

    let opened = OpenChatResult { ok: true, error: None, skipped: Some(false) };
    let step = SendMessagePlan.chat_opened(
        &AppState::default(),
        &params(Some("hi")),
        &window("chat"),
        &mut state,
        &a11y,
        opened,
    );
    assert!(matches!(step, PlanStep::Act(SelectedAction { action: Action::WaitShort, .. })));
    assert_eq!(state.phase, SendMessagePhase::Focusing);
}

#[test]
fn a_chat_that_was_open_already_goes_on_at_once() {
    let mut state = SendMessagePlan.initial_plan_state();
    let a11y = tree("Bob", &["EDITABLE", "FOCUSED"], &[]);
    let step = SendMessagePlan.chat_opened(
        &AppState::default(),
        &params(Some("hi")),
        &window("chat_open"),
        &mut state,
        &a11y,
        OpenChatResult { ok: true, error: None, skipped: Some(true) },
    );
    assert_eq!(strokes(step).len(), 4);
    assert!(state.send_action_executed);
}

#[test]
fn a_chat_that_is_not_verified_gets_nothing() {
    let p = params(Some("hi"));
    let open = window("chat_open");

    let mut state = SendMessagePlan.initial_plan_state();
    state.phase = SendMessagePhase::Inputting;
    let wrong = tree("Alice", &["EDITABLE", "FOCUSED"], &[]);
    assert!(matches!(ask(&mut state, &p, &open, &wrong), PlanStep::Stop));
    assert_eq!(state.failure_reason.as_deref(), Some("target_not_verified"));
    assert!(!state.send_action_executed);

    let mut state = SendMessagePlan.initial_plan_state();
    state.phase = SendMessagePhase::Inputting;
    let none = tree(" ", &["EDITABLE", "FOCUSED"], &[]);
    assert!(matches!(ask(&mut state, &p, &open, &none), PlanStep::Stop));
    assert_eq!(
        state.failure_reason.as_deref(),
        Some("target_not_verified:expected='Bob',actual='none'")
    );
}

#[test]
fn files_come_before_images_before_text() {
    let open = window("chat_open");
    let a11y = tree("Bob", &["EDITABLE", "FOCUSED"], &[]);
    let mut p = params(Some("hi"));
    p.image_path = Some("/tmp/i.png".to_string());
    p.image_mime = Some("image/png".to_string());

    let mut state = SendMessagePlan.initial_plan_state();
    match ask(&mut state, &p, &open, &a11y) {
        PlanStep::RunThenAct { command, args, selected } => {
            assert_eq!(command, "paste-image");
            assert_eq!(args, vec!["/tmp/i.png".to_string(), "image/png".to_string()]);
            assert_eq!(
                strokes(PlanStep::Act(selected)),
                vec!["wait 100", "key Return"]
            );
        }
        other => panic!("{:?}", other),
    }

    p.file_path = Some("/tmp/f.pdf".to_string());
    let mut state = SendMessagePlan.initial_plan_state();
    match ask(&mut state, &p, &open, &a11y) {
        PlanStep::RunThenAct { command, args, .. } => {
            assert_eq!(command, "paste-file");
            assert_eq!(args, vec!["/tmp/f.pdf".to_string()]);
        }
        other => panic!("{:?}", other),
    }

    let mut state = SendMessagePlan.initial_plan_state();
    assert!(matches!(ask(&mut state, &params(None), &open, &a11y), PlanStep::Stop));
    assert_eq!(state.failure_reason.as_deref(), Some("no_payload_specified"));
}

#[test]
fn wrong_states_of_the_main_window() {
    let a11y = tree("Bob", &["EDITABLE"], &[]);
    let p = params(Some("hi"));

    let mut state = SendMessagePlan.initial_plan_state();
    assert!(matches!(ask(&mut state, &p, &window("login"), &a11y), PlanStep::Stop));
    assert_eq!(state.failure_reason.as_deref(), Some("invalid_main_state:login"));

    let mut state = SendMessagePlan.initial_plan_state();
    let nothing = IdentifiedStates { main_window: None, popup: None };
    assert!(matches!(ask(&mut state, &p, &nothing, &a11y), PlanStep::Stop));
    assert_eq!(state.failure_reason.as_deref(), Some("invalid_main_state:none"));

    let mut state = SendMessagePlan.initial_plan_state();
    assert!(matches!(ask(&mut state, &p, &window("chat"), &a11y), PlanStep::Stop));
    assert_eq!(state.failure_reason.as_deref(), Some("focusing_invalid_main_state:chat"));
}

#[test]
fn the_confirmation_runs_out() {
    let mut state = SendMessagePlan.initial_plan_state();
    state.phase = SendMessagePhase::Confirming;
    let a11y = tree("Bob", &["EDITABLE"], &["ENABLED"]);
    for _ in 0..4 {
        assert!(matches!(
            ask(&mut state, &params(None), &window("chat_open"), &a11y),
            PlanStep::Act(_)
        ));
    }
    assert!(matches!(
        ask(&mut state, &params(None), &window("chat_open"), &a11y),
        PlanStep::Stop
    ));
    assert_eq!(
        state.failure_reason.as_deref(),
        Some("confirm_timeout_send_button_still_enabled")
    );
    assert_eq!(state.confirm_attempts, 5);
}

#[test]
fn popups_are_dismissed_first() {
    let mut state = SendMessagePlan.initial_plan_state();
    let a11y = tree("Bob", &["EDITABLE", "FOCUSED"], &[]);
    let mut identified = window("chat_open");
    identified.popup = Some("update".to_string());
    let app = AppState { popup: Some("update".to_string()) };
    let step =
        SendMessagePlan.select_action(
        &app,
        &params(Some("hi")),
        &identified,
        &mut state,
        &a11y,
        "session_1",
    );
    assert!(matches!(step, PlanStep::Act(SelectedAction { action: Action::DismissPopup, .. })));
    assert_eq!(state.phase, SendMessagePhase::Opening);
    assert!(!state.send_action_executed);
}

#[test]
fn a_lost_composer_is_reported() {
    for phase in [SendMessagePhase::Focusing, SendMessagePhase::Confirming] {
        let mut state = SendMessagePlan.initial_plan_state();
        state.phase = phase;
        let a11y = leaf("application", "wechat", 0, 0, &[]);
        assert!(matches!(
            ask(&mut state, &params(Some("hi")), &window("chat_open"), &a11y),
            PlanStep::Stop
        ));
        assert_eq!(state.failure_reason.as_deref(), Some("composer_not_found"));
    }
}

#[test]
fn at_most_one_payload_over_any_run() {
    let trees = [
        tree("Bob", &["EDITABLE", "FOCUSED"], &["ENABLED"]),
        tree("Alice", &["EDITABLE", "FOCUSED"], &["ENABLED"]),
        tree("Bob", &["EDITABLE"], &["DISABLED"]),
    ];
    let windows = [window("chat_open"), window("chat"), window("login")];
    // Every run of four steps over the observations above.
    for run in 0..9usize.pow(4) {
        let mut state = SendMessagePlan.initial_plan_state();
        let mut sent = 0;
        let mut rest = run;
        for _ in 0..4 {
            let (t, w) = (rest % 3, rest / 3 % 3);
            rest /= 9;
            let before = state.phase as u8;
            let step = ask(&mut state, &params(Some("hi")), &windows[w], &trees[t]);
            if let PlanStep::Act(SelectedAction { action: Action::Sequence(_), .. }) = step {
                sent += 1;
                assert_ne!(t, 1);
            }
            assert!(before <= state.phase as u8);
        }
        assert!(sent <= 1, "run {run}");
        assert_eq!(sent == 1, state.send_action_executed);
    }
}

#[test]
fn a_full_counter_matters_only_where_it_counts() {
    let a11y = tree("Bob", &["EDITABLE"], &["ENABLED"]);
    let mut state = SendMessagePlan.initial_plan_state();
    state.phase = SendMessagePhase::Confirming;
    state.confirm_attempts = u32::MAX;
    state.failure_reason = Some("before".to_string());
    let mut identified = window("chat_open");
    identified.popup = Some("update".to_string());
    let app = AppState { popup: Some("update".to_string()) };
    let step = SendMessagePlan.select_action(
        &app,
        &params(None),
        &identified,
        &mut state,
        &a11y,
        "session_1",
    );
    assert!(matches!(step, PlanStep::Act(SelectedAction { action: Action::DismissPopup, .. })));
    assert_eq!(state.phase, SendMessagePhase::Confirming);
    assert_eq!(state.confirm_attempts, u32::MAX);
    assert_eq!(state.failure_reason.as_deref(), Some("before"));

    let gone = tree("Bob", &["EDITABLE"], &["DISABLED"]);
    let step = ask(&mut state, &params(None), &window("chat_open"), &gone);
    assert!(matches!(step, PlanStep::Act(SelectedAction { action: Action::WaitShort, .. })));
    assert_eq!(state.phase, SendMessagePhase::Done);
    assert_eq!(state.confirm_attempts, u32::MAX);
    // An action records no failure.
    assert_eq!(state.failure_reason.as_deref(), Some("before"));
}
