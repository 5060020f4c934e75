//! Resolution of frames, composers, titles, search boxes and rows on trees with several frames.

use agent_server::a11y::{
    A11yNode, Bounds, SUBPIXELS, is_send_button_name, node_has_state, query_chat_list,
    query_first_chat_row,
};
use agent_server::multi_frame::{
    SendPlannerError, collect_composer_pairs, collect_top_level_frames, resolve_active_composer,
    resolve_active_main_wechat_frame,
};
use agent_server::target_chat::{
    collect_descendant_names, collect_labels_recursive, extract_open_chat_title, match_search_row,
    resolve_exact_target_row, resolve_search_box, verify_target_chat,
};
use agent_server::titles::{
    clean_chat_title, is_auxiliary_or_stale_frame, is_denied_system_chat,
    is_main_wechat_frame_name, is_target_chat_name_match,
};

fn node(role: &str, name: &str, bounds: Option<(i32, i32, i32, i32)>, states: &[&str]) -> A11yNode {
    A11yNode {
        role: role.to_string(),
        name: name.to_string(),
        bounds: bounds.map(|(x, y, w, h)| Bounds::from_pixels(x, y, w, h)),
        children: None,
        states: if states.is_empty() {
            None
        } else {
            Some(states.iter().map(|s| s.to_string()).collect())
        },
    }
}

fn with(mut parent: A11yNode, children: Vec<A11yNode>) -> A11yNode {
    parent.children = Some(children);
    parent
}

fn copy_of(n: &A11yNode) -> A11yNode {
    A11yNode {
        role: n.role.clone(),
        name: n.name.clone(),
        bounds: n.bounds,
        children: n.children.as_ref().map(|c| c.iter().map(copy_of).collect()),
        states: n.states.clone(),
    }
}

fn frame(name: &str, active: bool, children: Vec<A11yNode>) -> A11yNode {
    let states: &[&str] = if active { &["ACTIVE", "SHOWING"] } else { &["SHOWING"] };
    with(node("frame", name, Some((0, 0, 1000, 700)), states), children)
}

fn composer(x: i32, send_x: i32, edit_states: &[&str]) -> A11yNode {
    with(
        node("panel", "", None, &[]),
        vec![
            node("text", "", Some((x, 560, 580, 100)), edit_states),
            node("push-button", "Send(S)", Some((send_x, 660, 80, 30)), &["ENABLED"]),
        ],
    )
}

fn header(title: &str) -> A11yNode {
    node("label", title, Some((300, 20, 120, 30)), &[])
}

fn chats(rows: &[&str]) -> A11yNode {
    with(
        node("list", "Chats", Some((62, 60, 210, 600)), &[]),
        rows.iter()
            .enumerate()
            .map(|(i, r)| node("list-item", r, Some((62, 60 + 64 * i as i32, 210, 64)), &[]))
            .collect(),
    )
}

fn desktop(frames: Vec<A11yNode>) -> A11yNode {
    with(
        node("desktop-frame", "main", None, &[]),
        vec![with(node("application", "wechat", None, &[]), frames)],
    )
}

fn clean_single_composer() -> A11yNode {
    desktop(vec![frame("WeChat", true, vec![composer(280, 880, &["EDITABLE"])])])
}

fn live_multi_frame() -> A11yNode {
    desktop(vec![
        frame(
            "WeChat",
            true,
            vec![chats(&["testB", "Alice"]), header("testB"), composer(280, 880, &["EDITABLE"])],
        ),
        frame("Settings", false, vec![node("text", "", Some((140, 90, 200, 24)), &["EDITABLE"])]),
        frame("WeChat Team", false, vec![composer(140, 480, &["EDITABLE"])]),
    ])
}

fn app_of(tree: &mut A11yNode) -> &mut A11yNode {
    tree.children.as_mut().unwrap().first_mut().unwrap()
}

fn main_of(tree: &mut A11yNode) -> &mut A11yNode {
    app_of(tree).children.as_mut().unwrap().first_mut().unwrap()
}

#[test]
fn test_f1_clean_single_composer() {
    let a11y = clean_single_composer();
    let result = resolve_active_composer(&a11y);
    assert!(result.is_ok(), "F1 must select valid pair");
    let (edit, send) = result.unwrap();
    assert_eq!(edit.role, "text");
    assert!(node_has_state(edit, "EDITABLE"));
    assert_eq!(send.name, "Send(S)");
}

#[test]
fn test_f2_active_wechat_stale_settings() {
    let a11y = desktop(vec![
        frame("WeChat", true, vec![composer(280, 880, &["EDITABLE"])]),
        frame("Settings", false, vec![composer(140, 480, &["EDITABLE"])]),
    ]);
    let frames = collect_top_level_frames(&a11y);
    assert_eq!(frames.len(), 2);
    assert!(frames.iter().any(|f| f.name == "WeChat" && f.is_active));
    assert!(frames.iter().any(|f| f.name == "Settings" && !f.is_active));

    let result = resolve_active_composer(&a11y);
    assert!(result.is_ok(), "F2 must select WeChat composer");
    let (edit, send) = result.unwrap();
    assert_eq!(edit.role, "text");
    assert!(edit.bounds.as_ref().unwrap().x > 250 * SUBPIXELS);
    assert_eq!(send.name, "Send(S)");
}

#[test]
fn test_f3_active_wechat_stale_wechat_team() {
    let a11y = desktop(vec![
        frame("WeChat", true, vec![composer(280, 880, &["EDITABLE"])]),
        frame("WeChat Team", false, vec![composer(140, 480, &["EDITABLE"])]),
    ]);
    let mut candidates = Vec::new();
    collect_composer_pairs(&a11y, None, &mut candidates);
    assert_eq!(candidates.len(), 2, "Two candidate pairs exist in tree");

    let result = resolve_active_composer(&a11y);
    assert!(result.is_ok(), "F3 must resolve active WeChat composer");
    let (edit, _) = result.unwrap();
    assert_eq!(edit.bounds.as_ref().unwrap().x, 280 * SUBPIXELS);
}

#[test]
fn test_f4_live_multi_frame_observed() {
    let a11y = live_multi_frame();
    let frames = collect_top_level_frames(&a11y);
    assert!(frames.len() >= 3, "Must model >= 3 frames");

    let mut candidates = Vec::new();
    collect_composer_pairs(&a11y, None, &mut candidates);
    assert!(candidates.len() >= 2, "Must model >= 2 Send buttons");

    let result = resolve_active_composer(&a11y);
    assert!(result.is_ok(), "F4 must deterministically resolve active chat composer");
    let (edit, send) = result.unwrap();
    assert_eq!(edit.bounds.as_ref().unwrap().x, 280 * SUBPIXELS);
    assert_eq!(send.bounds.as_ref().unwrap().x, 880 * SUBPIXELS);
}

#[test]
fn test_f5_two_active_composers_fail_closed() {
    let a11y = desktop(vec![frame(
        "WeChat",
        true,
        vec![composer(280, 880, &["EDITABLE"]), composer(290, 890, &["EDITABLE"])],
    )]);
    let result = resolve_active_composer(&a11y);
    assert!(result.is_err(), "F5 must fail closed when two composers are active");
    match result.unwrap_err() {
        SendPlannerError::ComposerAmbiguous { count } => {
            assert_eq!(count, 2);
        }
        other => panic!("Expected ComposerAmbiguous, got {:?}", other),
    }
}

#[test]
fn test_f6_target_not_verified_fail_closed() {
    let a11y = desktop(vec![frame(
        "WeChat",
        true,
        vec![header("Alice"), composer(280, 880, &["EDITABLE"])],
    )]);
    let verified = verify_target_chat(&a11y, "Bob");
    assert!(verified.is_err(), "F6 must fail closed when target chat does not match");
    match verified.unwrap_err() {
        SendPlannerError::TargetNotVerified { expected, actual } => {
            assert_eq!(expected, "Bob");
            assert_eq!(actual, Some("Alice".to_string()));
        }
        other => panic!("Expected TargetNotVerified, got {:?}", other),
    }
}

#[test]
fn test_f7_target_already_open() {
    let a11y = desktop(vec![frame(
        "WeChat",
        true,
        vec![header("Bob"), composer(280, 880, &["EDITABLE"])],
    )]);
    let verified = verify_target_chat(&a11y, "Bob");
    assert!(verified.is_ok(), "F7 must verify target is already open");
    assert_eq!(verified.unwrap(), true);

    let composer = resolve_active_composer(&a11y);
    assert!(composer.is_ok());
}

#[test]
fn test_f8_search_result_ambiguity() {
    let rows = vec!["File Transfer", "Team Project Alpha", "Team Project Beta"];

    let result_ambig = match_search_row(&rows, "Team Project");
    assert!(result_ambig.is_err());
    match result_ambig.unwrap_err() {
        SendPlannerError::SearchAmbiguous { query, candidates } => {
            assert_eq!(query, "Team Project");
            assert_eq!(candidates.len(), 2);
        }
        other => panic!("Expected SearchAmbiguous, got {:?}", other),
    }

    let filehelper_match = match_search_row(&rows, "filehelper");
    assert_eq!(filehelper_match.unwrap(), "File Transfer");
    assert!(match_search_row(&rows, "Some Other Person").is_err());

    let exact = match_search_row(&rows, "Team Project Alpha");
    assert_eq!(exact.unwrap(), "Team Project Alpha");
}

#[test]
fn test_f9_popup_auxiliary_present_deterministic() {
    let a11y = desktop(vec![
        frame("WeChat", true, vec![composer(280, 880, &["EDITABLE"])]),
        with(
            node("dialog", "Update available", Some((400, 200, 300, 200)), &["ACTIVE"]),
            vec![node("push-button", "Later", Some((420, 360, 80, 30)), &[])],
        ),
    ]);
    let result = resolve_active_composer(&a11y);
    assert!(result.is_ok(), "F9 must remain deterministic with safe auxiliary element");
    let (edit, send) = result.unwrap();
    assert_eq!(edit.role, "text");
    assert_eq!(send.name, "Send(S)");
}

#[test]
fn test_f10_no_composer_fail_closed() {
    let a11y = desktop(vec![frame("WeChat", true, vec![chats(&["Alice"])])]);
    let result = resolve_active_composer(&a11y);
    assert!(result.is_err(), "F10 must fail closed when no composer exists");
    match result.unwrap_err() {
        SendPlannerError::ComposerNotFound => {}
        other => panic!("Expected ComposerNotFound, got {:?}", other),
    }
}

#[test]
fn test_f11_unknown_active_frame_composer_fails_closed() {
    let mut a11y = clean_single_composer();
    main_of(&mut a11y).name = "Mystery Auxiliary".to_string();

    let result = resolve_active_composer(&a11y);
    assert!(matches!(result, Err(SendPlannerError::ActiveMainFrameNotFound)));
}

#[test]
fn test_f12_two_active_main_frames_fail_closed() {
    let mut a11y = clean_single_composer();
    let duplicate = copy_of(main_of(&mut a11y));
    app_of(&mut a11y).children.as_mut().unwrap().push(duplicate);

    let result = resolve_active_main_wechat_frame(&a11y);
    assert!(matches!(result, Err(SendPlannerError::ActiveMainFrameAmbiguous { count: 2 })));
}

#[test]
fn test_f13_ghost_header_label_is_ignored() {
    let mut a11y = live_multi_frame();
    let settings = app_of(&mut a11y).children.as_mut().unwrap().get_mut(1).unwrap();
    settings.children.as_mut().unwrap().push(node(
        "label",
        "Wrong Ghost Target",
        Some((300, 20, 180, 30)),
        &[],
    ));

    assert_eq!(extract_open_chat_title(&a11y).as_deref(), Some("testB"));
    assert_eq!(verify_target_chat(&a11y, "testB"), Ok(true));
}

#[test]
fn test_f14_search_box_beats_composer() {
    let mut a11y = live_multi_frame();
    main_of(&mut a11y).children.as_mut().unwrap().push(node(
        "text",
        "Search",
        Some((80, 20, 170, 32)),
        &["EDITABLE"],
    ));

    let search = resolve_search_box(&a11y).expect("unique Search box must resolve");
    assert_eq!(search.name, "Search");
    assert!(search.bounds.as_ref().unwrap().y < 100 * SUBPIXELS);
}

#[test]
fn test_f15_duplicate_exact_target_rows_fail_closed() {
    let mut a11y = live_multi_frame();
    let chats = main_of(&mut a11y)
        .children
        .as_mut()
        .unwrap()
        .iter_mut()
        .find(|n| n.role == "list" && n.name == "Chats")
        .unwrap();
    let duplicate = copy_of(chats.children.as_ref().unwrap().first().unwrap());
    chats.children.as_mut().unwrap().push(duplicate);

    let result = resolve_exact_target_row(&a11y, "testB");
    assert!(matches!(result, Err(SendPlannerError::SearchAmbiguous { .. })));
}

#[test]
fn test_f16_filehelper_alias_is_explicitly_allowed() {
    assert_eq!(
        match_search_row(&["File Transfer", "Alice"], "filehelper").unwrap(),
        "File Transfer"
    );
    assert_eq!(
        match_search_row(&["文件传输助手", "Alice"], "filehelper").unwrap(),
        "文件传输助手"
    );
    assert!(match_search_row(&["WeChat Team"], "WeChat Team").is_err());
}

#[test]
fn test_f17_message_list_item_is_not_target_row() {
    let mut a11y = live_multi_frame();
    main_of(&mut a11y).children.as_mut().unwrap().push(with(
        node("list", "Messages", Some((300, 100, 600, 400)), &[]),
        vec![node("list-item", "GhostOnlyTarget", Some((320, 200, 500, 40)), &[])],
    ));

    assert!(matches!(
        resolve_exact_target_row(&a11y, "GhostOnlyTarget"),
        Err(SendPlannerError::SearchTargetNotFound { .. })
    ));
}

#[test]
fn test_f18_ambiguous_main_frame_headers_fail_closed() {
    let mut a11y = live_multi_frame();
    main_of(&mut a11y).children.as_mut().unwrap().push(node(
        "label",
        "Another Header",
        Some((320, 25, 160, 30)),
        &[],
    ));

    assert!(extract_open_chat_title(&a11y).is_none());
    assert_eq!(verify_target_chat(&a11y, "testB"), Ok(false));
}

#[test]
fn test_f19_duplicate_same_header_title_is_deduplicated() {
    let mut a11y = live_multi_frame();
    main_of(&mut a11y).children.as_mut().unwrap().push(node(
        "label",
        "testB",
        Some((330, 26, 80, 18)),
        &[],
    ));

    assert_eq!(extract_open_chat_title(&a11y).as_deref(), Some("testB"));
    assert_eq!(verify_target_chat(&a11y, "testB"), Ok(true));
}

#[test]
fn test_filehelper_target_alias() {
    assert!(is_target_chat_name_match("filehelper", "File Transfer"));
    assert!(is_target_chat_name_match("filehelper", "文件传输助手"));
    assert!(is_target_chat_name_match("filehelper", "filehelper"));
    assert!(is_target_chat_name_match("Bob", "Bob"));
    assert!(!is_target_chat_name_match("Bob", "Alice"));
}

#[test]
fn frame_names() {
    for name in ["WeChat", " weixin ", "微信", "WeChat - Bob", "微信 - 小明", "WEIXIN - x"] {
        assert!(is_main_wechat_frame_name(name), "{name}");
    }
    for name in ["", "WeChat Team", "wechat-", "My WeChat"] {
        assert!(!is_main_wechat_frame_name(name), "{name}");
    }
    for name in ["Settings", "WeChat Settings", "设置", "微信团队", "Weixin Team"] {
        assert!(is_auxiliary_or_stale_frame(name), "{name}");
    }
    assert!(!is_auxiliary_or_stale_frame("WeChat"));
}

#[test]
fn chat_names_fold_case_and_space() {
    assert!(is_target_chat_name_match("  ALICE ", "alice"));
    assert!(is_target_chat_name_match("ÉCOLE", "école"));
    assert!(is_target_chat_name_match("FILE TRANSFER", "文件传输助手"));
    assert!(!is_target_chat_name_match("Alice", "Alice B"));
}

#[test]
fn member_counts_are_stripped() {
    assert_eq!(clean_chat_title("Team (42)"), "Team");
    assert_eq!(clean_chat_title("Team(3)"), "Team");
    assert_eq!(clean_chat_title("  家人 (5)  "), "家人");
    assert_eq!(clean_chat_title("Team \t (7)"), "Team");
    assert_eq!(clean_chat_title("Team (1) (2)"), "Team (1)");
    assert_eq!(clean_chat_title("(9)"), "");
    assert_eq!(clean_chat_title("Équipe (12)"), "Équipe");
    assert_eq!(clean_chat_title("équipe (٣)"), "équipe");
}

#[test]
fn titles_without_a_count_are_kept() {
    assert_eq!(clean_chat_title("Team ()"), "Team ()");
    assert_eq!(clean_chat_title("Team (4a)"), "Team (4a)");
    assert_eq!(clean_chat_title("Team (4) x"), "Team (4) x");
    assert_eq!(clean_chat_title(" Bob "), "Bob");
    assert_eq!(clean_chat_title(""), "");
}

#[test]
fn denied_accounts() {
    assert!(is_denied_system_chat(" WeChat Team "));
    assert!(is_denied_system_chat("微信团队"));
    assert!(is_denied_system_chat("weixin team"));
    assert!(!is_denied_system_chat("File Transfer"));
    assert!(!is_denied_system_chat("Team"));
}

#[test]
fn denied_and_unasked_results_are_passed_over() {
    assert!(match_search_row(&["微信团队", "WeChat Team"], "wechat team").is_err());
    assert!(match_search_row(&["File Transfer"], "File").is_err());
    assert_eq!(match_search_row(&["alice ", "File Transfer"], "Alice").unwrap(), "alice ");
    assert_eq!(
        match_search_row(&["Alice", "ALICE"], "alice").unwrap_err(),
        SendPlannerError::SearchAmbiguous {
            query: "alice".to_string(),
            candidates: vec!["Alice".to_string(), "ALICE".to_string()],
        }
    );
    assert_eq!(
        match_search_row(&["Alice"], "  ").unwrap_err(),
        SendPlannerError::SearchTargetNotFound { query: "  ".to_string() }
    );
    assert_eq!(
        match_search_row(&["Alice Smith"], "Alice").unwrap_err(),
        SendPlannerError::SearchTargetNotFound { query: "Alice".to_string() }
    );
}

#[test]
fn codes_of_refusals() {
    let cases = [
        (SendPlannerError::ComposerNotFound, "composer_not_found"),
        (SendPlannerError::ComposerAmbiguous { count: 2 }, "composer_ambiguous:found_2_candidates"),
        (SendPlannerError::ActiveMainFrameNotFound, "active_main_frame_not_found"),
        (
            SendPlannerError::ActiveMainFrameAmbiguous { count: 12 },
            "active_main_frame_ambiguous:found_12_frames",
        ),
        (SendPlannerError::SearchBoxNotFound, "search_box_not_found"),
        (
            SendPlannerError::SearchBoxAmbiguous { count: 3 },
            "search_box_ambiguous:found_3_candidates",
        ),
        (
            SendPlannerError::TargetNotVerified { expected: "a".to_string(), actual: None },
            "target_not_verified",
        ),
        (
            SendPlannerError::SearchAmbiguous { query: "a".to_string(), candidates: Vec::new() },
            "search_ambiguous:found_0_candidates",
        ),
        (
            SendPlannerError::SearchTargetNotFound { query: "a".to_string() },
            "search_target_not_found",
        ),
    ];
    for (e, code) in cases {
        assert_eq!(e.code(), code);
    }
}

#[test]
fn focused_composer_wins_among_several() {
    let a11y = desktop(vec![frame(
        "WeChat",
        true,
        vec![composer(280, 880, &["EDITABLE"]), composer(290, 890, &["editable", "focused"])],
    )]);
    let (edit, send) = resolve_active_composer(&a11y).unwrap();
    assert_eq!(edit.bounds.unwrap().x, 290 * SUBPIXELS);
    assert_eq!(send.bounds.unwrap().x, 890 * SUBPIXELS);
}

#[test]
fn composer_outside_a_frame_is_not_eligible() {
    let a11y = with(node("panel", "", None, &[]), vec![composer(280, 880, &["EDITABLE"])]);
    let mut candidates = Vec::new();
    collect_composer_pairs(&a11y, None, &mut candidates);
    assert_eq!(candidates.len(), 1);
    assert_eq!(candidates[0].frame_name, "unknown");
    assert!(!candidates[0].frame_is_active);
    assert!(candidates[0].send_is_enabled);
    assert_eq!(
        resolve_active_composer(&a11y).unwrap_err(),
        SendPlannerError::ActiveMainFrameNotFound
    );
}

#[test]
fn search_box_falls_back_to_the_topmost() {
    let boxes = |a: (i32, i32, i32, i32), b: (i32, i32, i32, i32)| {
        desktop(vec![frame(
            "WeChat",
            true,
            vec![
                node("text", "", Some(a), &["EDITABLE"]),
                node("text", "", Some(b), &["EDITABLE"]),
                composer(280, 880, &["EDITABLE"]),
            ],
        )])
    };
    let apart = boxes((80, 60, 170, 32), (80, 20, 170, 32));
    assert_eq!(resolve_search_box(&apart).unwrap().bounds.unwrap().y, 20 * SUBPIXELS);
    let level = boxes((80, 20, 170, 32), (280, 20, 170, 32));
    assert_eq!(
        resolve_search_box(&level).unwrap_err(),
        SendPlannerError::SearchBoxAmbiguous { count: 2 }
    );
    assert_eq!(
        resolve_search_box(&clean_single_composer()).unwrap_err(),
        SendPlannerError::SearchBoxNotFound
    );
}

#[test]
fn the_topmost_search_box_stands_a_pixel_above_the_rest() {
    let boxes = |gap: i64| {
        let upper = node("text", "", Some((80, 20, 170, 32)), &["EDITABLE"]);
        let mut lower = node("text", "", Some((280, 20, 170, 32)), &["EDITABLE"]);
        if let Some(bounds) = &mut lower.bounds {
            bounds.y += gap;
        }
        desktop(vec![frame("WeChat", true, vec![lower, upper])])
    };
    assert_eq!(
        resolve_search_box(&boxes(SUBPIXELS)).unwrap().bounds.unwrap().y,
        20 * SUBPIXELS
    );
    assert_eq!(
        resolve_search_box(&boxes(SUBPIXELS - 1)).unwrap_err(),
        SendPlannerError::SearchBoxAmbiguous { count: 2 }
    );
}

#[test]
fn two_named_search_boxes_are_ambiguous() {
    let a11y = desktop(vec![frame(
        "WeChat",
        true,
        vec![
            node("text", "Search", Some((80, 20, 170, 32)), &["EDITABLE"]),
            node("text", "搜索", Some((80, 60, 170, 32)), &["EDITABLE"]),
        ],
    )]);
    assert_eq!(
        resolve_search_box(&a11y).unwrap_err(),
        SendPlannerError::SearchBoxAmbiguous { count: 2 }
    );
}

#[test]
fn target_row_by_a_nested_name() {
    let row = with(
        node("list-item", "", Some((62, 60, 210, 64)), &[]),
        vec![node("label", " testC ", None, &[])],
    );
    let a11y = desktop(vec![frame(
        "WeChat",
        true,
        vec![with(node("list", "Chats", None, &[]), vec![row])],
    )]);
    let found = resolve_exact_target_row(&a11y, "testc").unwrap();
    assert_eq!(found.bounds.unwrap().y, 60 * SUBPIXELS);
    let mut names = Vec::new();
    collect_descendant_names(found, &mut names);
    assert_eq!(names, vec!["testC".to_string()]);
}

#[test]
fn first_row_of_the_chat_list() {
    let a11y = live_multi_frame();
    let list = query_chat_list(&a11y).unwrap();
    assert_eq!(list.name, "Chats");
    let row = query_first_chat_row(&a11y).unwrap();
    assert_eq!(row.name, "testB");
    assert_eq!(row.bounds.unwrap().center(), (167, 92));
    let mut labels = Vec::new();
    collect_labels_recursive(&a11y, &mut labels);
    assert_eq!(labels.len(), 1);
    assert!(query_first_chat_row(&clean_single_composer()).is_none());
}

#[test]
fn centers_round_away_from_zero() {
    let b = Bounds { x: 0, y: -SUBPIXELS, width: SUBPIXELS, height: SUBPIXELS };
    assert_eq!(b.center(), (1, -1));
    assert_eq!(Bounds::from_pixels(10, 20, 30, 40).center(), (25, 40));
}

#[test]
fn labels_left_of_the_surface_are_no_titles() {
    let mut a11y = live_multi_frame();
    main_of(&mut a11y).children.as_mut().unwrap().push(node(
        "label",
        "Elsewhere",
        Some((100, 20, 60, 20)),
        &[],
    ));
    main_of(&mut a11y).children.as_mut().unwrap().push(node(
        "label",
        "A message",
        Some((300, 80, 60, 20)),
        &[],
    ));
    assert_eq!(extract_open_chat_title(&a11y).as_deref(), Some("testB"));
}

#[test]
fn send_labels() {
    assert!(is_send_button_name("Send(S)"));
    assert!(is_send_button_name("发送"));
    assert!(!is_send_button_name("Sender"));
    let disabled = node("push-button", "Send", None, &["disabled"]);
    assert!(node_has_state(&disabled, "DISABLED"));
    assert!(!node_has_state(&disabled, "ENABLED"));
}

#[test]
fn names_of_one_chat_match_each_other() {
    let names = ["filehelper", "File Transfer", "文件传输助手", " FILEHELPER "];
    for a in names {
        assert!(is_target_chat_name_match(a, a));
        for b in names {
            assert!(is_target_chat_name_match(a, b));
            assert_eq!(
                is_target_chat_name_match(a, "Bob"),
                is_target_chat_name_match("Bob", b)
            );
        }
    }
}

#[test]
fn a_chat_is_verified_under_each_of_its_names() {
    let a11y = desktop(vec![frame("微信", true, vec![header("文件传输助手")])]);
    for name in ["filehelper", "File Transfer", "文件传输助手"] {
        assert_eq!(verify_target_chat(&a11y, name), Ok(true));
    }
    assert!(verify_target_chat(&a11y, "Bob").is_err());
}

#[test]
fn a_group_is_verified_without_its_member_count() {
    let a11y = desktop(vec![frame("WeChat", true, vec![header("Team (12)"), header("Team")])]);
    assert_eq!(extract_open_chat_title(&a11y).as_deref(), Some("Team"));
    assert_eq!(verify_target_chat(&a11y, "team"), Ok(true));
}

#[test]
fn without_an_active_window_nothing_is_resolved() {
    let a11y = desktop(vec![frame("WeChat", false, vec![header("Bob"), chats(&["Bob"])])]);
    assert_eq!(extract_open_chat_title(&a11y), None);
    assert_eq!(verify_target_chat(&a11y, "Bob"), Ok(false));
    assert_eq!(
        resolve_search_box(&a11y).unwrap_err(),
        SendPlannerError::ActiveMainFrameNotFound
    );
    assert_eq!(
        resolve_exact_target_row(&a11y, "Bob").unwrap_err(),
        SendPlannerError::ActiveMainFrameNotFound
    );
}

#[test]
fn the_composer_stands_in_the_active_window() {
    let a11y = live_multi_frame();
    let window = resolve_active_main_wechat_frame(&a11y).unwrap();
    let (edit, _) = resolve_active_composer(&a11y).unwrap();
    let mut inside = Vec::new();
    collect_composer_pairs(window, None, &mut inside);
    assert!(inside.iter().any(|c| std::ptr::eq(c.edit_node, edit)));

    // A window inside another one is no window of its own, but its composer counts.
    let nested = desktop(vec![frame(
        "Viewer",
        false,
        vec![frame("WeChat", true, vec![composer(280, 880, &["EDITABLE"])])],
    )]);
    assert!(resolve_active_main_wechat_frame(&nested).is_err());
    assert!(resolve_active_composer(&nested).is_ok());
}

#[test]
fn an_active_window_without_a_composer_is_told_apart() {
    let elsewhere = |active_windows: usize| {
        let mut frames = vec![with(
            node("frame", "Settings", None, &[]),
            vec![
                node("text", "", None, &["EDITABLE"]),
                node("push-button", "Send(S)", None, &[]),
            ],
        )];
        for _ in 0..active_windows {
            frames.insert(0, node("frame", "WeChat", None, &["ACTIVE"]));
        }
        with(node("application", "", None, &[]), frames)
    };
    let one = elsewhere(1);
    assert!(resolve_active_main_wechat_frame(&one).is_ok());
    assert_eq!(resolve_active_composer(&one).unwrap_err(), SendPlannerError::ComposerNotFound);
    let two = elsewhere(2);
    assert_eq!(
        resolve_active_main_wechat_frame(&two).unwrap_err(),
        SendPlannerError::ActiveMainFrameAmbiguous { count: 2 }
    );
    assert_eq!(resolve_active_composer(&two).unwrap_err(), SendPlannerError::ComposerNotFound);
    let none = elsewhere(0);
    assert_eq!(
        resolve_active_composer(&none).unwrap_err(),
        SendPlannerError::ActiveMainFrameNotFound
    );
}

#[test]
fn targets_that_are_blank_and_targets_that_are_not() {
    assert_eq!(match_search_row(&["x", "ÉCOLE "], "école").unwrap(), "ÉCOLE ");
    assert_eq!(match_search_row(&["İ"], "İ").unwrap(), "İ");
    assert_eq!(
        match_search_row(&["", "\u{3000}"], "\u{3000} ").unwrap_err(),
        SendPlannerError::SearchTargetNotFound { query: "\u{3000} ".to_string() }
    );
    assert_eq!(
        match_search_row(&["Bob", "Bob"], "Bob").unwrap_err(),
        SendPlannerError::SearchAmbiguous {
            query: "Bob".to_string(),
            candidates: vec!["Bob".to_string(), "Bob".to_string()],
        }
    );
}
