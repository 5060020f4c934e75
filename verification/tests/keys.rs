//! When keys are extracted.

use agent_server::keys::{
    KeyEvent, KeyRing, KeyStage, ensure_media_keys_for_message, is_media_db_name,
    is_message_db_name, media_key_missing, message_key_missing,
};
use agent_server::text_map::TextMap;

fn ring(pairs: &[(&str, &str)]) -> KeyRing {
    let mut keys = KeyRing::new();
    for (name, key) in pairs {
        keys.insert(name.to_string(), key.to_string());
    }
    keys
}

fn names(list: &[&str]) -> Vec<String> {
    list.iter().map(|s| s.to_string()).collect()
}

/// Serves a request to its end; `store` are the stored keys, `extraction` what an extraction
/// brings. Counts the extractions.
fn serve(
    base_type: i32,
    on_disk: &[&str],
    local: KeyRing,
    store: &mut Vec<(String, String)>,
    extraction: &[(&str, &str)],
    count: &mut usize,
) -> Result<bool, ()> {
    let stored = |store: &Vec<(String, String)>| {
        let mut keys = KeyRing::new();
        for (name, key) in store {
            keys.insert(name.clone(), key.clone());
        }
        keys
    };
    let mut request = ensure_media_keys_for_message(base_type, names(on_disk), local);
    loop {
        let event = match &request.stage {
            KeyStage::Lock => KeyEvent::Locked,
            KeyStage::Reload => KeyEvent::Stored(stored(store)),
            KeyStage::Extract => {
                *count += 1;
                KeyEvent::Extracted(ring(extraction))
            }
            KeyStage::SaveAndReload(extracted) => {
                for (name, key) in extracted.keys.entries() {
                    store.push((name.clone(), key.clone()));
                }
                KeyEvent::Stored(stored(store))
            }
            KeyStage::Done(result) => return *result,
        };
        request.resume(event);
    }
}

#[test]
fn test_image_with_missing_unrelated_media_key_does_not_extract() {
    let mut counter = 0;
    let keys = ring(&[("message_1.db", "key1")]);
    let res = serve(3, &["message_1.db", "media_99.db"], keys, &mut Vec::new(), &[], &mut counter);
    assert_eq!(res, Ok(false));
    assert_eq!(
        counter, 0,
        "image with missing unrelated media key must not trigger extraction"
    );
}

#[test]
fn test_sticker_with_missing_unrelated_media_key_does_not_extract() {
    let mut counter = 0;
    let res = serve(47, &["media_1.db"], KeyRing::new(), &mut Vec::new(), &[], &mut counter);
    assert_eq!(res, Ok(false));
    assert_eq!(
        counter, 0,
        "sticker with missing unrelated media key must not trigger extraction"
    );
}

#[test]
fn test_video_does_not_extract() {
    let mut counter = 0;
    let res = serve(43, &["media_1.db"], KeyRing::new(), &mut Vec::new(), &[], &mut counter);
    assert_eq!(res, Ok(false));
    assert_eq!(counter, 0, "video must not trigger extraction");
}

#[test]
fn test_file_does_not_extract() {
    let mut counter = 0;
    let res = serve(49, &["media_1.db"], KeyRing::new(), &mut Vec::new(), &[], &mut counter);
    assert_eq!(res, Ok(false));
    assert_eq!(counter, 0, "file must not trigger extraction");
}

#[test]
fn test_voice_missing_media_key_triggers_exactly_once() {
    let mut counter = 0;
    let res = serve(
        34,
        &["media_0.db"],
        KeyRing::new(),
        &mut Vec::new(),
        &[("media_0.db", "key0")],
        &mut counter,
    );
    assert_eq!(res, Ok(true));
    assert_eq!(counter, 1, "voice missing media key must extract exactly once");
}

#[test]
fn test_concurrent_voice_requests_trigger_exactly_once() {
    let mut counter = 0;
    let mut store = Vec::new();
    // Ten requests that all began with the same keys, and get the right to extract in turn.
    for _ in 0..10 {
        let res = serve(
            34,
            &["media_0.db"],
            KeyRing::new(),
            &mut store,
            &[("media_0.db", "key0")],
            &mut counter,
        );
        assert!(res.is_ok());
    }
    assert_eq!(counter, 1, "concurrent voice requests must extract exactly once");
}

#[test]
fn voice_with_its_keys_does_not_wait() {
    let keys = ring(&[("media_0.db", "key0")]);
    let request = ensure_media_keys_for_message(34, names(&["media_0.db", "contact.db"]), keys);
    assert!(matches!(request.stage, KeyStage::Done(Ok(false))));
}

#[test]
fn waiting_for_keys_times_out() {
    let mut request = ensure_media_keys_for_message(34, names(&["media_0.db"]), KeyRing::new());
    request.resume(KeyEvent::LockTimedOut);
    assert!(matches!(request.stage, KeyStage::Done(Err(()))));

    let mut request = ensure_media_keys_for_message(34, names(&["media_0.db"]), KeyRing::new());
    request.resume(KeyEvent::Locked);
    request.resume(KeyEvent::Stored(KeyRing::new()));
    assert!(matches!(request.stage, KeyStage::Extract));
    request.resume(KeyEvent::ExtractionTimedOut);
    assert!(matches!(request.stage, KeyStage::Done(Err(()))));
    request.resume(KeyEvent::Locked);
    assert!(matches!(request.stage, KeyStage::Done(Err(()))));
}

#[test]
fn an_empty_extraction_is_not_saved() {
    let mut request = ensure_media_keys_for_message(34, names(&["media_0.db"]), KeyRing::new());
    request.resume(KeyEvent::Extracted(ring(&[("media_0.db", "x")])));
    assert!(matches!(request.stage, KeyStage::Lock));
    request.resume(KeyEvent::Locked);
    request.resume(KeyEvent::Stored(KeyRing::new()));
    request.resume(KeyEvent::Extracted(KeyRing::new()));
    assert!(matches!(request.stage, KeyStage::Done(Ok(true))));
}

#[test]
fn names_of_databases() {
    assert!(is_message_db_name("message_0.db"));
    for name in ["message_fts.db", "message_resource.db", "message_0.db-wal", "xmessage_0.db"] {
        assert!(!is_message_db_name(name), "{name}");
    }
    assert!(is_media_db_name("media_12.db"));
    assert!(!is_media_db_name("media_12.sqlite"));
    assert!(!is_media_db_name("hardlink_media_1.db"));
}

#[test]
fn databases_without_a_key() {
    let keys = ring(&[("message_0.db", "a"), ("contact.db", "b")]);
    assert!(!message_key_missing(&names(&["message_0.db", "message_fts.db"]), &keys));
    assert!(message_key_missing(&names(&["message_0.db", "message_1.db"]), &keys));
    assert!(!media_key_missing(&names(&["message_1.db"]), &keys));
    assert!(media_key_missing(&names(&["media_0.db"]), &keys));
    assert!(keys.has_message_db());
    assert!(!ring(&[("contact.db", "b")]).has_message_db());
}

#[test]
fn a_map_from_texts() {
    let mut map: TextMap<i32> = TextMap::new();
    map.insert("a".to_string(), 1);
    map.insert("b".to_string(), 2);
    map.insert("a".to_string(), 3);
    assert_eq!(map.get("a"), Some(&3));
    assert_eq!(map.get("b"), Some(&2));
    assert_eq!(map.get("c"), None);
    assert_eq!(map.entries(), &vec![("a".to_string(), 3), ("b".to_string(), 2)]);
    assert!(KeyRing::new().is_empty());
    assert!(!ring(&[("a", "b")]).is_empty());
    assert!(ring(&[("a", "b")]).contains_key("a"));
}
