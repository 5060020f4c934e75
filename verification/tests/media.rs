//! What requests for media are answered with.

use agent_server::keys::{KeyEvent, KeyRing};
use agent_server::media::{
    MediaBody, MediaEvent, MediaParams, MediaReply, MediaRequest, MediaResult, MediaStage,
    get_media, message_base_type, reply_bytes,
};
use agent_server::session::Session;

fn session(user: Option<&str>) -> Session {
    Session {
        id: "s1".to_string(),
        name: "default".to_string(),
        status: "running".to_string(),
        display: ":1".to_string(),
        linux_user: "agent".to_string(),
        logged_in_user: user.map(|u| u.to_string()),
    }
}

fn media(kind: &str, format: &str) -> MediaResult {
    MediaResult {
        media_type: kind.to_string(),
        data: None,
        url: None,
        format: format.to_string(),
        filename: "voice 1.mp3".to_string(),
        role: None,
        file_path: None,
    }
}

fn ask(raw: bool) -> MediaRequest {
    get_media("chat".to_string(), 7, MediaParams { raw })
}

/// A request for a message of the given type, up to its media.
fn fetching(raw: bool, local_type: i64) -> MediaRequest {
    let request = ask(raw)
        .resume(MediaEvent::Session(Some(session(Some("wxid")))))
        .resume(MediaEvent::Stored(KeyRing::new()))
        .resume(MediaEvent::Message(Some(local_type)))
        .resume(MediaEvent::OnDisk(vec!["media_0.db".to_string()]));
    match &request.stage {
        MediaStage::Fetch { account, .. } => {
            assert_eq!(account.session_id, "s1");
            assert_eq!(account.user, "wxid");
        }
        other => panic!("{:?}", other),
    }
    request
}

fn reply(request: MediaRequest) -> MediaReply {
    match request.stage {
        MediaStage::Done(reply) => reply,
        other => panic!("{:?}", other),
    }
}

fn pairs(list: &[(&str, &str)]) -> Vec<(String, String)> {
    list.iter().map(|(a, b)| (a.to_string(), b.to_string())).collect()
}

fn json(reply: MediaReply) -> MediaResult {
    assert_eq!(reply.status, 200);
    assert!(reply.headers.is_empty());
    match reply.body {
        MediaBody::Json(media) => media,
        other => panic!("{:?}", other),
    }
}

#[test]
fn types_of_messages() {
    assert_eq!(message_base_type(34), 34);
    assert_eq!(message_base_type((6 << 32) + 49), 49);
    assert_eq!(message_base_type(0xFFFF_FFFF), -1);
    assert_eq!(message_base_type(-1), -1);
    assert_eq!(message_base_type(i64::MIN), 0);
}

#[test]
fn unsupported_without_session_user_or_message() {
    for session_or_not in [None, Some(session(None))] {
        let r = reply(ask(true).resume(MediaEvent::Session(session_or_not)));
        assert_eq!(r.status, 404);
        assert_eq!(r.headers, pairs(&[("x-media-status", "unsupported")]));
        assert!(matches!(r.body, MediaBody::Text(t) if t == "unsupported"));
    }
    let r = reply(ask(false).resume(MediaEvent::Session(None)));
    assert_eq!(json(r).media_type, "unsupported");
    let r = reply(
        ask(false)
            .resume(MediaEvent::Session(Some(session(Some("wxid")))))
            .resume(MediaEvent::Stored(KeyRing::new()))
            .resume(MediaEvent::Message(None)),
    );
    let m = json(r);
    assert_eq!(m.media_type, "unsupported");
    assert!(m.data.is_none() && m.url.is_none() && m.role.is_none() && m.file_path.is_none());
    assert_eq!(m.format, "");
    assert_eq!(m.filename, "");
}

#[test]
fn images_go_on_without_keys() {
    let r = reply(fetching(false, 3).resume(MediaEvent::Media(media("image", "jpg"))));
    assert_eq!(json(r).media_type, "image");
}

#[test]
fn voice_waits_for_its_keys() {
    let request = ask(true)
        .resume(MediaEvent::Session(Some(session(Some("wxid")))))
        .resume(MediaEvent::Stored(KeyRing::new()))
        .resume(MediaEvent::Message(Some(34)))
        .resume(MediaEvent::OnDisk(vec!["media_0.db".to_string()]));
    assert!(matches!(request.stage, MediaStage::MediaKeys { .. }));
    let r = reply(request.resume(MediaEvent::Key(KeyEvent::LockTimedOut)));
    assert_eq!(r.status, 202);
    assert_eq!(r.headers, pairs(&[("x-media-status", "pending")]));
    assert!(matches!(r.body, MediaBody::Text(t) if t == "pending"));

    let mut found = KeyRing::new();
    found.insert("media_0.db".to_string(), "k".to_string());
    let request = ask(true)
        .resume(MediaEvent::Session(Some(session(Some("wxid")))))
        .resume(MediaEvent::Stored(KeyRing::new()))
        .resume(MediaEvent::Message(Some(34)))
        .resume(MediaEvent::OnDisk(vec!["media_0.db".to_string()]))
        .resume(MediaEvent::Key(KeyEvent::Locked))
        .resume(MediaEvent::Key(KeyEvent::Stored(found)));
    match request.stage {
        MediaStage::Fetch { keys, .. } => assert!(keys.contains_key("media_0.db")),
        other => panic!("{:?}", other),
    }
}

#[test]
fn raw_replies_by_the_kind_of_media() {
    let r = reply(fetching(true, 3).resume(MediaEvent::Media(media("unsupported", ""))));
    assert_eq!(r.status, 404);
    let r = reply(fetching(true, 3).resume(MediaEvent::Media(media("pending", ""))));
    assert_eq!(r.status, 202);
    // Nothing to hand out.
    let r = reply(fetching(true, 3).resume(MediaEvent::Media(media("image", "jpg"))));
    assert_eq!(r.status, 202);
}

#[test]
fn links_are_handed_out() {
    let mut m = media("sticker", "gif");
    m.url = Some("https://example.com/a?b=1".to_string());
    m.role = Some("thumbnail".to_string());
    m.file_path = Some("/tmp/x".to_string());
    let r = reply(fetching(true, 47).resume(MediaEvent::Media(m)));
    assert_eq!(r.status, 200);
    assert!(matches!(r.body, MediaBody::Empty));
    assert_eq!(
        r.headers,
        pairs(&[
            ("x-media-url", "https://example.com/a?b=1"),
            ("x-media-status", "ready"),
            ("x-media-role", "thumbnail"),
            ("x-media-filename", "voice 1.mp3"),
        ])
    );
}

#[test]
fn values_unfit_for_headers_are_left_out() {
    let mut m = media("sticker", "gif");
    m.url = Some("https://example.com/\r\nx: y".to_string());
    m.role = Some("tab\tand 图".to_string());
    m.filename = "del\u{7f}".to_string();
    let r = reply(fetching(true, 47).resume(MediaEvent::Media(m)));
    assert_eq!(
        r.headers,
        pairs(&[("x-media-status", "ready"), ("x-media-role", "tab\tand 图")])
    );
}

#[test]
fn files_are_streamed() {
    let mut m = media("voice", "MP3");
    m.file_path = Some("/data/v.mp3".to_string());
    let request = fetching(true, 3).resume(MediaEvent::Media(m));
    match &request.stage {
        MediaStage::OpenFile { path, .. } => assert_eq!(path, "/data/v.mp3"),
        other => panic!("{:?}", other),
    }
    let r = reply(request.resume(MediaEvent::FileOpened { len: Some(1024) }));
    assert_eq!(r.status, 200);
    assert!(matches!(r.body, MediaBody::File(p) if p == "/data/v.mp3"));
    assert_eq!(
        r.headers,
        pairs(&[
            ("content-type", "audio/mpeg"),
            ("content-length", "1024"),
            ("content-disposition", "inline; filename=\"voice 1.mp3\""),
            ("x-media-status", "ready"),
            ("x-media-role", "original"),
            ("x-media-filename", "voice 1.mp3"),
        ])
    );
}

#[test]
fn a_file_that_cannot_be_opened_gives_way_to_the_data() {
    let mut m = media("image", "png");
    m.file_path = Some("/data/missing.png".to_string());
    m.data = Some("aGVsbG8=".to_string());
    let r = reply(
        fetching(true, 3).resume(MediaEvent::Media(m)).resume(MediaEvent::FileFailed),
    );
    assert_eq!(r.status, 200);
    assert!(matches!(r.body, MediaBody::Bytes(b) if b == b"hello"));
    assert_eq!(r.headers[0], ("content-type".to_string(), "image/png".to_string()));
    assert_eq!(r.headers.len(), 5);
}

#[test]
fn data_that_cannot_be_decoded_is_empty() {
    let mut m = media("image", "jpeg");
    m.data = Some("not base64!".to_string());
    let r = reply(fetching(true, 3).resume(MediaEvent::Media(m)));
    assert_eq!(r.status, 200);
    assert!(matches!(r.body, MediaBody::Bytes(b) if b.is_empty()));
}

#[test]
fn media_types_by_format() {
    for (format, mime) in [
        ("jpg", "image/jpeg"),
        ("JPEG", "image/jpeg"),
        ("Png", "image/png"),
        ("gif", "image/gif"),
        ("mp3", "audio/mpeg"),
        ("mp4", "video/mp4"),
        ("pdf", "application/pdf"),
        ("silk", "application/octet-stream"),
        ("", "application/octet-stream"),
    ] {
        let r = reply_bytes(&media("x", format), Ok(vec![1, 2]));
        assert_eq!(r.headers[0].1, mime, "{format}");
        assert!(matches!(r.body, MediaBody::Bytes(b) if b == vec![1, 2]));
    }
}

#[test]
fn answers_out_of_turn_change_nothing() {
    let request = ask(true).resume(MediaEvent::FileFailed).resume(MediaEvent::Message(Some(3)));
    assert!(matches!(request.stage, MediaStage::Session));
    assert_eq!(request.chat_id, "chat");
    assert_eq!(request.local_id, 7);
    let done = ask(true).resume(MediaEvent::Session(None));
    let r = reply(done.resume(MediaEvent::Session(Some(session(Some("wxid"))))));
    assert_eq!(r.status, 404);
    assert!(!MediaParams::default().raw);
}
