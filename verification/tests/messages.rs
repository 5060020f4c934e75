//! Listing and sending messages.

use agent_server::keys::KeyRing;
use agent_server::messages::{
    FileInput, ImageInput, ListEvent, ListParams, ListRequest, ListStage, SendEvent, SendParams,
    SendResult, SendStage, default_limit, file_decoded, image_decoded, list_messages,
    send_message,
};
use agent_server::session::Session;

fn session(user: Option<&str>) -> Session {
    Session {
        id: "s1".to_string(),
        name: "default".to_string(),
        status: "running".to_string(),
        display: ":1".to_string(),
        linux_user: "agent".to_string(),
        logged_in_user: user.map(|u| u.to_string()),
    }
}

fn ring(names: &[&str]) -> KeyRing {
    let mut keys = KeyRing::new();
    for name in names {
        keys.insert(name.to_string(), "k".to_string());
    }
    keys
}

fn listing(keys: &[&str], on_disk: &[&str]) -> ListRequest {
    list_messages("chat".to_string(), ListParams { limit: 10, offset: 20 })
        .resume(ListEvent::Session(Some(session(Some("wxid")))))
        .resume(ListEvent::Stored(ring(keys)))
        .resume(ListEvent::OnDisk(on_disk.iter().map(|s| s.to_string()).collect()))
}

fn input(text: Option<&str>, image: Option<(&str, &str)>, file: Option<(&str, &str)>) -> SendParams {
    SendParams {
        chat_id: "Bob".to_string(),
        text: text.map(|t| t.to_string()),
        image: image.map(|(data, mime)| ImageInput {
            data: data.to_string(),
            mime_type: mime.to_string(),
        }),
        file: file.map(|(data, name)| FileInput {
            data: data.to_string(),
            filename: name.to_string(),
        }),
    }
}

fn begun(input: SendParams) -> SendStage {
    send_message(input).resume(SendEvent::Session(Some(session(Some("wxid")))))
}

fn result(stage: SendStage) -> SendResult {
    match stage {
        SendStage::Done(result) => result,
        other => panic!("{:?}", other),
    }
}

fn error_of(stage: SendStage) -> String {
    let r = result(stage);
    assert!(!r.success);
    r.error.unwrap()
}

#[test]
fn lists_with_the_stored_keys() {
    let request = listing(&["message_0.db"], &["message_0.db", "media_0.db"]);
    assert_eq!(request.chat_id, "chat");
    assert_eq!(request.params.limit, 10);
    assert_eq!(request.params.offset, 20);
    match request.stage {
        ListStage::Read { account, keys } => {
            assert_eq!(account.user, "wxid");
            assert!(keys.contains_key("message_0.db"));
        }
        other => panic!("{:?}", other),
    }
    assert_eq!(default_limit(), 50);
    assert_eq!(ListParams::default().limit, 50);
    assert_eq!(ListParams::default().offset, 0);
}

#[test]
fn lists_nothing_without_an_account_or_keys() {
    for s in [None, Some(session(None))] {
        let request = list_messages("chat".to_string(), ListParams::default())
            .resume(ListEvent::Session(s));
        assert!(matches!(request.stage, ListStage::Empty));
    }
    assert!(matches!(listing(&["contact.db"], &["contact.db"]).stage, ListStage::Empty));
}

#[test]
fn missing_message_keys_are_extracted() {
    let request = listing(&[], &["message_0.db"]);
    assert!(matches!(request.stage, ListStage::FindProcess { .. }));
    let request = request.resume(ListEvent::Process(Some(42)));
    assert!(matches!(request.stage, ListStage::Extract { pid: 42, .. }));
    let request = request.resume(ListEvent::Extracted(ring(&["message_0.db"])));
    assert!(matches!(request.stage, ListStage::SaveAndReload { .. }));
    let request = request.resume(ListEvent::Stored(ring(&["message_0.db"])));
    assert!(matches!(request.stage, ListStage::Read { .. }));
}

#[test]
fn lists_what_can_be_read_where_extraction_fails() {
    let request = listing(&["message_0.db"], &["message_1.db"]);
    assert!(matches!(
        request.resume(ListEvent::Process(None)).stage,
        ListStage::Read { .. }
    ));
    let request = listing(&["message_0.db"], &["message_1.db"])
        .resume(ListEvent::Process(Some(1)))
        .resume(ListEvent::Extracted(KeyRing::new()));
    assert!(matches!(request.stage, ListStage::Read { .. }));
    let request = listing(&[], &["message_1.db"]).resume(ListEvent::Process(None));
    assert!(matches!(request.stage, ListStage::Empty));
}

#[test]
fn requests_that_are_refused() {
    assert_eq!(error_of(send_message(input(None, None, None))), "No text, image, or file provided");
    let text = || send_message(input(Some("hi"), None, None));
    assert_eq!(error_of(text().resume(SendEvent::Session(None))), "No session available");
    assert_eq!(
        error_of(text().resume(SendEvent::Session(Some(session(None))))),
        "NOT_LOGGED_IN"
    );
}

#[test]
fn a_text_goes_straight_to_the_plan() {
    match begun(input(Some("hi"), None, None)) {
        SendStage::Run { params, session } => {
            assert_eq!(params.chat_id, "Bob");
            assert_eq!(params.message.as_deref(), Some("hi"));
            assert!(params.image_path.is_none());
            assert!(params.image_mime.is_none());
            assert!(params.file_path.is_none());
            assert_eq!(session.id, "s1");
        }
        other => panic!("{:?}", other),
    }
}

#[test]
fn an_image_and_a_file_are_written_first() {
    let stage = begun(input(None, Some(("aGk=", "image/jpeg")), Some(("Zg==", "遗憾.pdf"))));
    assert!(matches!(stage, SendStage::ImageTime { .. }));
    let stage = stage.resume(SendEvent::Millis(1700000000123));
    match &stage {
        SendStage::WriteImage { path, bytes, .. } => {
            assert_eq!(path, "/tmp/send_image_1700000000123.jpg");
            assert_eq!(bytes, b"hi");
        }
        other => panic!("{:?}", other),
    }
    let stage = stage.resume(SendEvent::Written(Ok(())));
    assert!(matches!(stage, SendStage::FileTime { .. }));
    let stage = stage.resume(SendEvent::Millis(1700000000124));
    match &stage {
        SendStage::WriteFile { path, bytes, .. } => {
            assert_eq!(path, "/tmp/send_file_1700000000124___.pdf");
            assert_eq!(bytes, b"f");
        }
        other => panic!("{:?}", other),
    }
    let stage = stage.resume(SendEvent::Written(Ok(())));
    match &stage {
        SendStage::Run { params, .. } => {
            assert_eq!(params.image_path.as_deref(), Some("/tmp/send_image_1700000000123.jpg"));
            assert_eq!(params.image_mime.as_deref(), Some("image/jpeg"));
            assert_eq!(params.file_path.as_deref(), Some("/tmp/send_file_1700000000124___.pdf"));
        }
        other => panic!("{:?}", other),
    }
    let stage = stage.resume(SendEvent::Ran { success: true, error: None });
    match &stage {
        SendStage::CleanUp { paths, .. } => assert_eq!(
            paths,
            &vec![
                "/tmp/send_image_1700000000123.jpg".to_string(),
                "/tmp/send_file_1700000000124___.pdf".to_string(),
            ]
        ),
        other => panic!("{:?}", other),
    }
    let r = result(stage.resume(SendEvent::CleanedUp));
    assert!(r.success);
    assert!(r.error.is_none());
}

#[test]
fn an_image_that_fails_is_left_out() {
    let stage = begun(input(Some("hi"), Some(("***", "image/png")), None));
    match stage.resume(SendEvent::Millis(1)) {
        SendStage::Run { params, .. } => assert!(params.image_path.is_none()),
        other => panic!("{:?}", other),
    }
    let stage = begun(input(Some("hi"), Some(("aGk=", "image/webp")), None))
        .resume(SendEvent::Millis(5));
    assert!(matches!(&stage, SendStage::WriteImage { path, .. } if path == "/tmp/send_image_5.png"));
    match stage.resume(SendEvent::Written(Err("disk full".to_string()))) {
        SendStage::Run { params, .. } => {
            assert!(params.image_path.is_none());
            assert!(params.image_mime.is_none());
        }
        other => panic!("{:?}", other),
    }
}

#[test]
fn a_file_that_fails_ends_the_request() {
    let stage = begun(input(None, None, Some(("aGk", "a.txt"))));
    assert_eq!(
        error_of(stage.resume(SendEvent::Millis(1))),
        "Failed to decode base64 file data: Invalid padding"
    );
    let stage = begun(input(None, None, Some(("aGk=", "a.txt")))).resume(SendEvent::Millis(1));
    assert_eq!(
        error_of(stage.resume(SendEvent::Written(Err("disk full".to_string())))),
        "Failed to write temp file: disk full"
    );
}

#[test]
fn decoded_payloads() {
    let i = input(None, Some(("", "image/gif")), Some(("", "../../a b.txt")));
    match image_decoded(i, session(Some("u")), 9, Ok(vec![1])) {
        SendStage::WriteImage { path, bytes, .. } => {
            assert_eq!(path, "/tmp/send_image_9.gif");
            assert_eq!(bytes, vec![1]);
        }
        other => panic!("{:?}", other),
    }
    let i = input(None, None, Some(("", "../../a b.txt")));
    match file_decoded(i, session(Some("u")), None, 9, Ok(vec![2])) {
        SendStage::WriteFile { path, .. } => assert_eq!(path, "/tmp/send_file_9_.._.._a_b.txt"),
        other => panic!("{:?}", other),
    }
    let i = input(None, None, Some(("", "a")));
    assert_eq!(
        error_of(file_decoded(i, session(Some("u")), None, 9, Err("bad".to_string()))),
        "Failed to decode base64 file data: bad"
    );
}

#[test]
fn the_result_of_the_plan_is_the_reply() {
    let stage = begun(input(Some("hi"), None, None)).resume(SendEvent::Ran {
        success: false,
        error: Some("composer_not_found".to_string()),
    });
    assert!(matches!(&stage, SendStage::CleanUp { paths, .. } if paths.is_empty()));
    assert_eq!(error_of(stage.resume(SendEvent::CleanedUp)), "composer_not_found");
}
