//! The commands that a daemon offers.

use crate::commands::auth::{LoginCommand, LogoutCommand, SessionsCommand};
use crate::commands::misc::{
    BugReportCommand, CompactCommand, DiagCommand, FindCommand, HistoryCommand, TemplateCommand,
    WebConnectCommand, WebDisconnectCommand,
};
use crate::commands::session::{
    ForkCommand, NameCommand, SaveCommand, SessionCommand, ShareCommand, UndoCommand,
};
use crate::commands::skills::{SkillsCommand, SKILLS_USAGE};
use crate::commands::{is_info, CommandInfo, Registry};
use crate::file_commands::FileCommand;
use vstd::prelude::*;

verus! {

/// The commands of the daemon's other parts: skills, models, goals and automation.
#[derive(Debug)]
pub struct OtherCommands {
    pub skill: CommandInfo,
    pub model: CommandInfo,
    pub thinking: CommandInfo,
    pub cost: CommandInfo,
    pub goal: CommandInfo,
    pub goal_start: CommandInfo,
    pub triggers: CommandInfo,
    pub new_trigger: CommandInfo,
    pub cron: CommandInfo,
    pub inbox: CommandInfo,
}

/// Whether a list holds the commands of a daemon, in the order in which they are listed.
pub open spec fn is_daemon_set(commands: Seq<CommandInfo>, others: OtherCommands) -> bool {
    &&& commands.len() == 28
    &&& is_info(
        commands[0],
        "login"@,
        "store an API key for a provider in ~/.theway/auth.json"@,
        "<provider>"@,
    )
    &&& is_info(
        commands[1],
        "logout"@,
        "remove a stored credential from ~/.theway/auth.json"@,
        "<provider>"@,
    )
    &&& is_info(
        commands[2],
        "sessions"@,
        "list sessions for this cwd"@,
        ""@,
    )
    &&& is_info(
        commands[3],
        "skills"@,
        "list, install, inspect, reload, enable, disable, or remove skills"@,
        SKILLS_USAGE@,
    )
    &&& commands[4] == others.skill
    &&& commands[5] == others.model
    &&& commands[6] == others.thinking
    &&& commands[7] == others.cost
    &&& is_info(
        commands[8],
        "diag"@,
        "show diagnostic info (model, thinking, cost, log path)"@,
        ""@,
    )
    &&& is_info(
        commands[9],
        "template"@,
        "list templates, or run one with /template <name> [k=v ...]"@,
        "[name] [k=v ...]"@,
    )
    &&& is_info(
        commands[10],
        "save"@,
        "export session transcript to Markdown"@,
        "[path]"@,
    )
    &&& is_info(
        commands[11],
        "compact"@,
        "force a context compaction now (no-op when nothing to summarize)"@,
        "[\"custom instructions\"]"@,
    )
    &&& is_info(
        commands[12],
        "undo"@,
        "remove the most recent user+assistant turn from the active branch"@,
        ""@,
    )
    &&& is_info(
        commands[13],
        "bug-report"@,
        "write a redacted diagnostic dump for issue attachment"@,
        ""@,
    )
    &&& is_info(
        commands[14],
        "name"@,
        "show or set the current session's name"@,
        "[slug]"@,
    )
    &&& is_info(
        commands[15],
        "fork"@,
        "fork a new session from a previous user message (pi-style session tree)"@,
        "[n]"@,
    )
    &&& is_info(
        commands[16],
        "session"@,
        "export/import replayable .theway-session backups"@,
        "export [path] [--exclude-triggers] | import <path>"@,
    )
    &&& is_info(
        commands[17],
        "web-connect"@,
        "mount this session at the public relay (watch + prompt via secret URL)"@,
        "[status]"@,
    )
    &&& is_info(
        commands[18],
        "web-disconnect"@,
        "disconnect the public relay and invalidate the session URL"@,
        ""@,
    )
    &&& is_info(
        commands[19],
        "share"@,
        "upload transcript as a private Gist via gh (requires `gh` on PATH)"@,
        "[--public]"@,
    )
    &&& is_info(
        commands[20],
        "find"@,
        "search every session in this cwd for prompts/replies containing <query>"@,
        "<query>"@,
    )
    &&& is_info(
        commands[21],
        "history"@,
        "show recent submitted prompts from ~/.theway/history"@,
        "[N]"@,
    )
    &&& commands[22] == others.goal
    &&& commands[23] == others.goal_start
    &&& commands[24] == others.triggers
    &&& commands[25] == others.new_trigger
    &&& commands[26] == others.cron
    &&& commands[27] == others.inbox
}

impl Registry {
    /// A registry with the commands of a daemon.
    pub fn with_daemon_commands(others: OtherCommands) -> (r: Registry)
        ensures
            is_daemon_set(r.commands@, others),
            r.file_commands@ == Seq::<FileCommand>::empty(),
            r.user_home@ == Seq::<char>::empty(),
    {
        let mut r = Registry::new();
        r.register(LoginCommand.info());
        r.register(LogoutCommand.info());
        r.register(SessionsCommand.info());
        r.register(SkillsCommand.info());
        r.register(others.skill);
        r.register(others.model);
        r.register(others.thinking);
        r.register(others.cost);
        r.register(DiagCommand.info());
        r.register(TemplateCommand.info());
        r.register(SaveCommand.info());
        r.register(CompactCommand.info());
        r.register(UndoCommand.info());
        r.register(BugReportCommand.info());
        r.register(NameCommand.info());
        r.register(ForkCommand.info());
        r.register(SessionCommand.info());
        r.register(WebConnectCommand.info());
        r.register(WebDisconnectCommand.info());
        r.register(ShareCommand.info());
        r.register(FindCommand.info());
        r.register(HistoryCommand.info());
        r.register(others.goal);
        r.register(others.goal_start);
        r.register(others.triggers);
        r.register(others.new_trigger);
        r.register(others.cron);
        r.register(others.inbox);
        r
    }

    /// A registry with the commands of a daemon.
    pub fn with_builtins(others: OtherCommands) -> (r: Registry)
        ensures
            is_daemon_set(r.commands@, others),
            r.file_commands@ == Seq::<FileCommand>::empty(),
            r.user_home@ == Seq::<char>::empty(),
    {
        Registry::with_daemon_commands(others)
    }
}

} // verus!
