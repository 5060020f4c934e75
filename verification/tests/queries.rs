//! Statements, run on a database in memory.

use agent_server::queries::{
    Statement, clear_session_data, get_session_logged_in_user, get_sync_state, logged_in_user,
    set_sync_state, update_session_logged_in_user,
};
use rusqlite::{Connection, params_from_iter};

fn database() -> Connection {
    let conn = Connection::open_in_memory().unwrap();
    conn.execute_batch(
        "CREATE TABLE sessions (id TEXT PRIMARY KEY, logged_in_user TEXT, login_state TEXT, updated_at TEXT);
         CREATE TABLE sync_state (session_id TEXT, key TEXT, value TEXT, updated_at TEXT, UNIQUE(session_id, key));
         CREATE TABLE wechat_keys (session_id TEXT, name TEXT);
         INSERT INTO sessions (id) VALUES ('s1');
         INSERT INTO wechat_keys VALUES ('s1', 'message_0.db'), ('s2', 'message_0.db');",
    )
    .unwrap();
    conn
}

fn run(conn: &Connection, s: &Statement) {
    conn.execute(&s.sql, params_from_iter(s.params.iter())).unwrap();
}

fn value(conn: &Connection, s: &Statement) -> Option<String> {
    conn.query_row(&s.sql, params_from_iter(s.params.iter()), |row| row.get::<_, String>(0)).ok()
}

fn user(conn: &Connection, id: &str) -> Option<String> {
    let s = get_session_logged_in_user(id);
    logged_in_user(
        conn.query_row(&s.sql, params_from_iter(s.params.iter()), |row| {
            row.get::<_, Option<String>>(0)
        })
        .ok(),
    )
}

#[test]
fn what_was_set_is_read() {
    let conn = database();
    assert_eq!(value(&conn, &get_sync_state("cursor", Some("s1"))), None);
    run(&conn, &set_sync_state("cursor", "1", Some("s1"), "t1"));
    run(&conn, &set_sync_state("cursor", "2", Some("s1"), "t2"));
    run(&conn, &set_sync_state("cursor", "3", None, "t3"));
    assert_eq!(value(&conn, &get_sync_state("cursor", Some("s1"))).as_deref(), Some("2"));
    assert_eq!(value(&conn, &get_sync_state("cursor", None)).as_deref(), Some("3"));
    assert_eq!(value(&conn, &get_sync_state("cursor", Some("s2"))), None);
    assert_eq!(value(&conn, &get_sync_state("other", Some("s1"))), None);
}

#[test]
fn users_come_and_go() {
    let conn = database();
    assert_eq!(user(&conn, "s1"), None);
    assert_eq!(user(&conn, "missing"), None);
    run(&conn, &update_session_logged_in_user("s1", Some("wxid"), "t1"));
    assert_eq!(user(&conn, "s1").as_deref(), Some("wxid"));
    let state = |conn: &Connection| -> String {
        conn.query_row("SELECT login_state FROM sessions WHERE id = 's1'", [], |r| r.get(0)).unwrap()
    };
    assert_eq!(state(&conn), "logged_in");
    run(&conn, &update_session_logged_in_user("s1", None, "t2"));
    assert_eq!(user(&conn, "s1"), None);
    assert_eq!(state(&conn), "logged_out");
}

#[test]
fn clearing_leaves_other_sessions_alone() {
    let conn = database();
    run(&conn, &set_sync_state("cursor", "1", Some("s1"), "t"));
    run(&conn, &set_sync_state("cursor", "2", Some("s2"), "t"));
    for s in clear_session_data("s1") {
        run(&conn, &s);
    }
    assert_eq!(value(&conn, &get_sync_state("cursor", Some("s1"))), None);
    assert_eq!(value(&conn, &get_sync_state("cursor", Some("s2"))).as_deref(), Some("2"));
    let keys: i64 =
        conn.query_row("SELECT COUNT(*) FROM wechat_keys", [], |r| r.get(0)).unwrap();
    assert_eq!(keys, 1);
}

#[test]
fn statements_as_data() {
    let s = get_sync_state("k", Some("s"));
    assert_eq!(s.sql, "SELECT value FROM sync_state WHERE key = ?1 AND session_id = ?2");
    assert_eq!(s.params, vec![Some("k".to_string()), Some("s".to_string())]);
    let s = get_sync_state("k", None);
    assert_eq!(s.sql, "SELECT value FROM sync_state WHERE key = ?1 AND session_id IS NULL");
    assert_eq!(s.params, vec![Some("k".to_string())]);
    let s = set_sync_state("k", "v", None, "now");
    assert_eq!(
        s.params,
        vec![None, Some("k".to_string()), Some("v".to_string()), Some("now".to_string())]
    );
    let s = update_session_logged_in_user("s", None, "now");
    assert_eq!(
        s.params,
        vec![
            None,
            Some("logged_out".to_string()),
            Some("now".to_string()),
            Some("s".to_string()),
        ]
    );
}
