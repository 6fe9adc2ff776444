//! `/login`, `/logout` and `/sessions`.

use crate::commands::session::{short, short_id};
use crate::commands::{
    command_info, error_outcome, is_error, is_info, printed, printed_lines, prints, refused_with,
    refuses, CommandInfo, CommandOutcome, Report,
};
use crate::text::{lemma_texts_empty, lemma_texts_push, owned, texts};
use vstd::prelude::*;

verus! {

broadcast use {lemma_texts_push, lemma_texts_empty};

/// `/login`: store an API key.
#[derive(Debug)]
pub struct LoginCommand;

pub const LOGIN_USAGE: &'static str =
    "usage: /login <provider>  (theway will prompt for the API key without echoing it)";

impl LoginCommand {
    pub fn info(&self) -> (r: CommandInfo)
        ensures
            is_info(
                r,
                "login"@,
                "store an API key for a provider in ~/.theway/auth.json"@,
                "<provider>"@,
            ),
    {
        command_info(
            "login",
            "store an API key for a provider in ~/.theway/auth.json",
            "<provider>",
        )
    }

    /// Asks the client for the secret of the one provider named.
    pub fn run(&self, argv: &Vec<String>) -> (r: CommandOutcome)
        ensures
            if argv@.len() == 1 {
                r matches CommandOutcome::LoginSecret { provider, storage_key, recovery_command }
                    && provider@ == argv@[0]@ && storage_key is None && recovery_command is None
            } else {
                is_error(r, LOGIN_USAGE@)
            },
    {
        if argv.len() != 1 {
            return error_outcome(LOGIN_USAGE);
        }
        CommandOutcome::LoginSecret {
            provider: argv[0].clone(),
            storage_key: None,
            recovery_command: None,
        }
    }
}

/// `/logout`: remove a stored credential.
#[derive(Debug)]
pub struct LogoutCommand;

/// How the removal of a credential ended.
#[derive(Debug)]
pub enum LogoutEnd {
    NotLoaded(String),
    /// No credential is stored for the provider.
    Missing,
    NotSaved(String),
    Removed,
}

impl LogoutCommand {
    pub fn info(&self) -> (r: CommandInfo)
        ensures
            is_info(
                r,
                "logout"@,
                "remove a stored credential from ~/.theway/auth.json"@,
                "<provider>"@,
            ),
    {
        command_info("logout", "remove a stored credential from ~/.theway/auth.json", "<provider>")
    }

    /// The provider whose credential is to be removed.
    pub fn provider(&self, argv: &Vec<String>) -> (r: Result<String, CommandOutcome>)
        ensures
            match r {
                Ok(p) => argv@.len() > 0 && p@ == argv@[0]@,
                Err(o) => argv@.len() == 0 && is_error(o, "usage: /logout <provider>"@),
            },
    {
        if argv.len() == 0 {
            return Err(error_outcome("usage: /logout <provider>"));
        }
        Ok(argv[0].clone())
    }

    /// What to print for the removal.
    pub fn report(&self, provider: &str, end: &LogoutEnd) -> (r: Report)
        ensures
            match end {
                LogoutEnd::NotLoaded(e) => refuses(r, "load auth store: "@ + e@),
                LogoutEnd::Missing => prints(
                    r,
                    seq!["no credential stored for `"@ + provider@ + "`"@],
                ),
                LogoutEnd::NotSaved(e) => refuses(r, "save auth store: "@ + e@),
                LogoutEnd::Removed => prints(r, seq!["removed credential for `"@ + provider@ + "`"@]),
            },
    {
        match end {
            LogoutEnd::NotLoaded(e) => refused_with("load auth store: ", e.as_str()),
            LogoutEnd::Missing => {
                let mut line = owned("no credential stored for `");
                line.push_str(provider);
                line.push_str("`");
                printed(line)
            },
            LogoutEnd::NotSaved(e) => refused_with("save auth store: ", e.as_str()),
            LogoutEnd::Removed => {
                let mut line = owned("removed credential for `");
                line.push_str(provider);
                line.push_str("`");
                printed(line)
            },
        }
    }
}

/// `/sessions`: list the sessions of the working directory.
#[derive(Debug)]
pub struct SessionsCommand;

/// A session in the list, which nests each fork under its parent.
#[derive(Debug)]
pub struct SessionRow {
    pub prefix: String,
    pub id: String,
    pub created_at: String,
    pub badge: Option<String>,
    pub preview: Option<String>,
}

/// The line of a session.
pub open spec fn session_line(row: SessionRow) -> Seq<char> {
    "  "@ + row.prefix@ + short(row.id@) + "  "@ + row.created_at@ + (match row.badge {
        Some(b) => "  ["@ + b@ + "]"@,
        None => Seq::empty(),
    }) + "  "@ + (match row.preview {
        Some(p) => p@,
        None => "(empty)"@,
    })
}

fn render_session(row: &SessionRow) -> (r: String)
    ensures
        r@ == session_line(*row),
{
    let badge = match &row.badge {
        Some(b) => {
            let mut s = owned("  [");
            s.push_str(b.as_str());
            s.push_str("]");
            s
        },
        None => String::new(),
    };
    let mut r = owned("  ");
    r.push_str(row.prefix.as_str());
    r.push_str(short_id(row.id.as_str()).as_str());
    r.push_str("  ");
    r.push_str(row.created_at.as_str());
    r.push_str(badge.as_str());
    r.push_str("  ");
    match &row.preview {
        Some(p) => r.push_str(p.as_str()),
        None => r.push_str("(empty)"),
    }
    r
}

/// The list of the first `n` sessions.
pub open spec fn session_lines(rows: Seq<SessionRow>, n: int) -> Seq<Seq<char>>
    decreases n,
{
    if n <= 0 || n > rows.len() {
        seq!["Sessions (tree — forks nested under their parent):"@]
    } else {
        session_lines(rows, n - 1).push(session_line(rows[n - 1]))
    }
}

impl SessionsCommand {
    pub fn info(&self) -> (r: CommandInfo)
        ensures
            is_info(r, "sessions"@, "list sessions for this cwd"@, ""@),
    {
        command_info("sessions", "list sessions for this cwd", "")
    }

    /// The list of the sessions, as they were read.
    pub fn run(&self, listed: &Result<Vec<SessionRow>, String>) -> (r: Report)
        ensures
            match listed {
                Ok(rows) => prints(
                    r,
                    if rows@.len() == 0 {
                        seq!["(no sessions for this cwd)"@]
                    } else {
                        session_lines(rows@, rows@.len() as int)
                    },
                ),
                Err(e) => refuses(r, "list sessions: "@ + e@),
            },
    {
        let rows = match listed {
            Ok(rows) => rows,
            Err(e) => {
                return refused_with("list sessions: ", e.as_str());
            },
        };
        if rows.len() == 0 {
            return printed(owned("(no sessions for this cwd)"));
        }
        let mut lines: Vec<String> = Vec::new();
        lines.push(owned("Sessions (tree — forks nested under their parent):"));
        let mut i: usize = 0;
        while i < rows.len()
            invariant
                i <= rows@.len(),
                texts(lines@) == session_lines(rows@, i as int),
            decreases rows@.len() - i,
        {
            lines.push(render_session(&rows[i]));
            i += 1;
        }
        printed_lines(lines)
    }
}

} // verus!
