//! The statements that keep sessions and synchronisation state, with their parameters.

use crate::text::opt_text;
use vstd::prelude::*;

verus! {

/// A statement and its parameters, in the order of their numbers. A parameter without a text is
/// null.
#[derive(Debug, Clone)]
pub struct Statement {
    pub sql: String,
    pub params: Vec<Option<String>>,
}

/// What a [`Statement`] says.
pub struct Command {
    pub sql: Seq<char>,
    pub params: Seq<Option<Seq<char>>>,
}

impl View for Statement {
    type V = Command;

    open spec fn view(&self) -> Command {
        Command {
            sql: self.sql@,
            params: self.params@.map_values(|p: Option<String>| opt_text(p)),
        }
    }
}

/// The text of an optional slice.
pub open spec fn opt_str(s: Option<&str>) -> Option<Seq<char>> {
    match s {
        Some(t) => Some(t@),
        None => None,
    }
}

fn parameter(s: Option<&str>) -> (r: Option<String>)
    ensures
        opt_text(r) == opt_str(s),
{
    match s {
        Some(t) => Some(t.to_owned()),
        None => None,
    }
}

/// The statement that reads a value of the synchronisation state: that of the session, or the one
/// that belongs to none.
pub fn get_sync_state(key: &str, session_id: Option<&str>) -> (r: Statement)
    ensures
        r@.sql == (if session_id is Some {
            "SELECT value FROM sync_state WHERE key = ?1 AND session_id = ?2"@
        } else {
            "SELECT value FROM sync_state WHERE key = ?1 AND session_id IS NULL"@
        }),
        r@.params == (match session_id {
            Some(sid) => seq![Some(key@), Some(sid@)],
            None => seq![Some(key@)],
        }),
{
    let mut params: Vec<Option<String>> = Vec::new();
    params.push(parameter(Some(key)));
    let sql = match session_id {
        Some(sid) => {
            params.push(parameter(Some(sid)));
            "SELECT value FROM sync_state WHERE key = ?1 AND session_id = ?2".to_owned()
        },
        None => "SELECT value FROM sync_state WHERE key = ?1 AND session_id IS NULL".to_owned(),
    };
    let r = Statement { sql, params };
    assert(r@.params =~= match session_id {
        Some(sid) => seq![Some(key@), Some(sid@)],
        None => seq![Some(key@)],
    });
    r
}

/// The statement that writes a value of the synchronisation state, in place of one that is there.
pub fn set_sync_state(key: &str, value: &str, session_id: Option<&str>, now: &str) -> (r: Statement)
    ensures
        r@.sql == "INSERT INTO sync_state (session_id, key, value, updated_at)
         VALUES (?1, ?2, ?3, ?4)
         ON CONFLICT(session_id, key) DO UPDATE SET
           value = excluded.value,
           updated_at = excluded.updated_at"@,
        r@.params == seq![opt_str(session_id), Some(key@), Some(value@), Some(now@)],
{
    let mut params: Vec<Option<String>> = Vec::new();
    params.push(parameter(session_id));
    params.push(parameter(Some(key)));
    params.push(parameter(Some(value)));
    params.push(parameter(Some(now)));
    let r = Statement {
        sql: "INSERT INTO sync_state (session_id, key, value, updated_at)
         VALUES (?1, ?2, ?3, ?4)
         ON CONFLICT(session_id, key) DO UPDATE SET
           value = excluded.value,
           updated_at = excluded.updated_at".to_owned(),
        params,
    };
    assert(r@.params =~= seq![opt_str(session_id), Some(key@), Some(value@), Some(now@)]);
    r
}

/// The statement that reads the user who is logged in to a session.
pub fn get_session_logged_in_user(session_id: &str) -> (r: Statement)
    ensures
        r@.sql == "SELECT logged_in_user FROM sessions WHERE id = ?1"@,
        r@.params == seq![Some(session_id@)],
{
    let mut params: Vec<Option<String>> = Vec::new();
    params.push(parameter(Some(session_id)));
    let r = Statement {
        sql: "SELECT logged_in_user FROM sessions WHERE id = ?1".to_owned(),
        params,
    };
    assert(r@.params =~= seq![Some(session_id@)]);
    r
}

/// The user of a session, by the row that was read: none where there is no row or no user in it.
pub fn logged_in_user(row: Option<Option<String>>) -> (r: Option<String>)
    ensures
        r == (match row {
            Some(user) => user,
            None => None,
        }),
{
    match row {
        Some(user) => user,
        None => None,
    }
}

/// The state of a session by its user.
pub open spec fn login_state(user: Option<&str>) -> Seq<char> {
    if user is Some {
        "logged_in"@
    } else {
        "logged_out"@
    }
}

/// The statement that notes who is logged in to a session.
pub fn update_session_logged_in_user(
    session_id: &str,
    logged_in_user: Option<&str>,
    now: &str,
) -> (r: Statement)
    ensures
        r@.sql
            == "UPDATE sessions SET logged_in_user = ?1, login_state = ?2, updated_at = ?3 WHERE id = ?4"@,
        r@.params == seq![
            opt_str(logged_in_user),
            Some(login_state(logged_in_user)),
            Some(now@),
            Some(session_id@),
        ],
{
    let state = if logged_in_user.is_some() {
        "logged_in"
    } else {
        "logged_out"
    };
    let mut params: Vec<Option<String>> = Vec::new();
    params.push(parameter(logged_in_user));
    params.push(parameter(Some(state)));
    params.push(parameter(Some(now)));
    params.push(parameter(Some(session_id)));
    let r = Statement {
        sql: "UPDATE sessions SET logged_in_user = ?1, login_state = ?2, updated_at = ?3 WHERE id = ?4".to_owned(),
        params,
    };
    assert(r@.params =~= seq![
        opt_str(logged_in_user),
        Some(login_state(logged_in_user)),
        Some(now@),
        Some(session_id@),
    ]);
    r
}

/// What [`clear_session_data`] runs: the keys of the session go, then its synchronisation state.
pub open spec fn clearing(session_id: Seq<char>) -> Seq<Command> {
    seq![
        Command {
            sql: "DELETE FROM wechat_keys WHERE session_id = ?1"@,
            params: seq![Some(session_id)],
        },
        Command {
            sql: "DELETE FROM sync_state WHERE session_id = ?1"@,
            params: seq![Some(session_id)],
        },
    ]
}

/// The statements that remove the data of a session.
pub fn clear_session_data(session_id: &str) -> (r: Vec<Statement>)
    ensures
        r@.map_values(|s: Statement| s@) == clearing(session_id@),
{
    let mut keys: Vec<Option<String>> = Vec::new();
    keys.push(parameter(Some(session_id)));
    let mut state: Vec<Option<String>> = Vec::new();
    state.push(parameter(Some(session_id)));
    let first = Statement {
        sql: "DELETE FROM wechat_keys WHERE session_id = ?1".to_owned(),
        params: keys,
    };
    let second = Statement {
        sql: "DELETE FROM sync_state WHERE session_id = ?1".to_owned(),
        params: state,
    };
    assert(first@.params =~= seq![Some(session_id@)]);
    assert(second@.params =~= seq![Some(session_id@)]);
    let mut r: Vec<Statement> = Vec::new();
    r.push(first);
    r.push(second);
    assert(r@.map_values(|s: Statement| s@) =~= clearing(session_id@));
    r
}

/// A session with a user is logged in, one without is logged out.
pub proof fn law_login_state(user: Option<&str>)
    ensures
        user is Some ==> login_state(user) == "logged_in"@,
        user is None ==> login_state(user) == "logged_out"@,
{
}

/// To clear a session removes its keys and its synchronisation state, and nothing of any other.
pub proof fn law_clearing(session_id: Seq<char>)
    ensures
        clearing(session_id).len() == 2,
        clearing(session_id)[0].sql == "DELETE FROM wechat_keys WHERE session_id = ?1"@,
        clearing(session_id)[0].params == seq![Some(session_id)],
        clearing(session_id)[1].sql == "DELETE FROM sync_state WHERE session_id = ?1"@,
        clearing(session_id)[1].params == seq![Some(session_id)],
{
}

/// Nothing of a statement or of a parameter is lost in what it is taken to say.
pub proof fn law_statements_say_all(s: Statement, p: Option<&str>, i: int)
    ensures
        s@.sql == s.sql@,
        s@.params.len() == s.params@.len(),
        0 <= i < s.params@.len() ==> s@.params[i] == opt_text(s.params@[i]),
        opt_str(p) is Some <==> p is Some,
        p is Some ==> opt_str(p) == Some(p->Some_0@),
{
}

} // verus!
