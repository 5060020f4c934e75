//! The session that requests are served for.

use crate::text::{pair_texts, same_text};
use vstd::prelude::*;

verus! {

/// A desktop session with the chat client in it.
#[derive(Debug, Clone)]
pub struct Session {
    pub id: String,
    pub name: String,
    pub status: String,
    pub display: String,
    pub linux_user: String,
    pub logged_in_user: Option<String>,
}

/// A program and the variables of its environment.
#[derive(Debug, Clone)]
pub struct LaunchCommand {
    pub program: String,
    pub env: Vec<(String, String)>,
}

/// Whether there is a session and it is running.
pub open spec fn is_running_session(session: Option<Session>) -> bool {
    session is Some && session->Some_0.status@ == "running"@
}

impl Session {
    /// Whether the session is running.
    pub fn is_running(&self) -> (r: bool)
        ensures
            r == (self.status@ == "running"@),
    {
        same_text(self.status.as_str(), "running")
    }

    /// How the chat client is started in the session: on its display, as its user, in the user's
    /// home.
    pub fn launch_command(&self) -> (r: LaunchCommand)
        ensures
            r.program@ == "/opt/tools/launch-wechat"@,
            pair_texts(r.env@) == seq![
                ("DISPLAY"@, self.display@),
                ("WECHAT_HOME"@, "/home/"@ + self.linux_user@),
                ("WECHAT_USER"@, self.linux_user@),
            ],
    {
        let mut home = "/home/".to_owned();
        home.append(self.linux_user.as_str());
        let mut env: Vec<(String, String)> = Vec::new();
        env.push(("DISPLAY".to_owned(), self.display.clone()));
        env.push(("WECHAT_HOME".to_owned(), home));
        env.push(("WECHAT_USER".to_owned(), self.linux_user.clone()));
        assert(pair_texts(env@) =~= seq![
            ("DISPLAY"@, self.display@),
            ("WECHAT_HOME"@, "/home/"@ + self.linux_user@),
            ("WECHAT_USER"@, self.linux_user@),
        ]);
        LaunchCommand { program: "/opt/tools/launch-wechat".to_owned(), env }
    }
}

/// A session is running exactly where there is one and its status says so.
pub proof fn law_running_sessions(session: Option<Session>)
    ensures
        is_running_session(session) <==> session is Some && session->Some_0.status@ == "running"@,
{
}

} // verus!
