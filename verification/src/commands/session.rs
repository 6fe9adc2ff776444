//! Session lifecycle commands: `/save`, `/undo`, `/name`, `/session`, `/fork`, `/collapse`
//! and `/share`.

use crate::commands::{
    command_info, drop_flag, error_outcome, failed, is_error, is_info, law_flags_are_taken_out,
    printed, printed_lines, prints, refused, refused_with, refuses, reported, without_flag,
    CommandInfo, CommandOutcome, Report,
};
use crate::json::Json;
use crate::order::has_text;
use crate::paths::{join_path, joined_path};
use crate::session_tree::{
    is_user_message, metadata_id, session_id_in, AgentMessage, LlmMessage, SessionTreeEntry,
};
use crate::text::{
    char_count, cut, decimal_signed, decimal_size, digits, is_blank, join, joined,
    law_written_numbers_are_read, lemma_texts_empty, lemma_texts_push, opt_text, owned, parse_size,
    parsed_number, signed_digits, take_chars, texts, trim, trimmed,
};
use crate::user_input::copy_opt;
use vstd::prelude::*;

verus! {

broadcast use {lemma_texts_push, lemma_texts_empty};

/// The first sixteen characters of a session identifier.
pub open spec fn short(id: Seq<char>) -> Seq<char> {
    cut(id, 16)
}

/// The first sixteen characters of a session identifier.
pub fn short_id(id: &str) -> (r: String)
    ensures
        r@ == short(id@),
{
    take_chars(id, 16)
}

pub open spec fn yes_no_text(value: bool) -> Seq<char> {
    if value {
        "yes"@
    } else {
        "no"@
    }
}

pub fn yes_no(value: bool) -> (r: &'static str)
    ensures
        r@ == yes_no_text(value),
{
    if value {
        "yes"
    } else {
        "no"
    }
}

/// `/save`: export the session transcript.
#[derive(Debug)]
pub struct SaveCommand;

impl SaveCommand {
    pub fn info(&self) -> (r: CommandInfo)
        ensures
            is_info(r, "save"@, "export session transcript to Markdown"@, "[path]"@),
    {
        command_info("save", "export session transcript to Markdown", "[path]")
    }

    /// The file that the transcript goes to: the first argument, or a default, taken from
    /// the working directory.
    pub fn destination(&self, argv: &Vec<String>, default_path: &str, cwd: &str) -> (r: String)
        ensures
            r@ == joined_path(
                cwd@,
                if argv@.len() > 0 {
                    argv@[0]@
                } else {
                    default_path@
                },
            ),
    {
        if argv.len() > 0 {
            join_path(cwd, argv[0].as_str())
        } else {
            join_path(cwd, default_path)
        }
    }

    /// What to print once the transcript was saved, or failed to be.
    pub fn report(&self, result: &Result<String, String>) -> (r: Report)
        ensures
            match result {
                Ok(path) => prints(r, seq!["saved transcript: "@ + path@]),
                Err(e) => refuses(r, "save failed: "@ + e@),
            },
    {
        reported(result, "saved transcript: ", "save failed: ")
    }
}

/// The position of the last user message among the first `n` entries.
pub open spec fn last_user_pos(branch: Seq<SessionTreeEntry>, n: int) -> Option<int>
    decreases n,
{
    if n <= 0 || n > branch.len() {
        None
    } else if is_user_message(branch[n - 1]) {
        Some(n - 1)
    } else {
        last_user_pos(branch, n - 1)
    }
}

/// `/undo`: remove the most recent turn from the active branch.
#[derive(Debug)]
pub struct UndoCommand;

impl UndoCommand {
    pub fn info(&self) -> (r: CommandInfo)
        ensures
            is_info(
                r,
                "undo"@,
                "remove the most recent user+assistant turn from the active branch"@,
                ""@,
            ),
    {
        command_info(
            "undo",
            "remove the most recent user+assistant turn from the active branch",
            "",
        )
    }

    /// The entry to move to, given the active branch as it was read: the parent of the last
    /// user message.
    pub fn target(&self, read: &Result<Vec<SessionTreeEntry>, String>) -> (r: Result<
        Option<String>,
        CommandOutcome,
    >)
        ensures
            match read {
                Ok(branch) => match last_user_pos(branch@, branch@.len() as int) {
                    Some(i) => branch@[i] matches SessionTreeEntry::Message { parent_id, .. } && (
                    r matches Ok(p) && p == parent_id),
                    None => r matches Err(o) && is_error(o, "no user message to undo"@),
                },
                Err(e) => r matches Err(o) && is_error(o, "read branch: "@ + e@),
            },
    {
        let branch = match read {
            Ok(branch) => branch,
            Err(e) => {
                return Err(failed("read branch: ", e.as_str()));
            },
        };
        let mut n: usize = branch.len();
        while n > 0
            invariant
                n <= branch@.len(),
                *read matches Ok(b) && b == *branch,
                last_user_pos(branch@, branch@.len() as int) == last_user_pos(branch@, n as int),
            decreases n,
        {
            if let SessionTreeEntry::Message {
                parent_id,
                message: AgentMessage::Llm(LlmMessage::User(_)),
                ..
            } = &branch[n - 1] {
                return Ok(copy_opt(parent_id));
            }
            n -= 1;
        }
        Err(error_outcome("no user message to undo"))
    }

    /// What to print once the session was moved, or failed to be.
    pub fn report(&self, result: &Result<(), String>) -> (r: Report)
        ensures
            match result {
                Ok(_) => prints(r, seq!["undid last turn"@]),
                Err(e) => refuses(r, "undo failed: "@ + e@),
            },
    {
        match result {
            Ok(_) => printed(owned("undid last turn")),
            Err(e) => refused_with("undo failed: ", e.as_str()),
        }
    }
}

/// `/name`: show or set the name of the session.
#[derive(Debug)]
pub struct NameCommand;

/// What `/name` is asked for.
#[derive(Debug)]
pub enum NamePlan {
    Show,
    Assign(String),
    Refused(CommandOutcome),
}

impl NameCommand {
    pub fn info(&self) -> (r: CommandInfo)
        ensures
            is_info(r, "name"@, "show or set the current session's name"@, "[slug]"@),
    {
        command_info("name", "show or set the current session's name", "[slug]")
    }

    /// What `/name` is asked for: the name is all arguments with a space between each two,
    /// without white space around it.
    pub fn plan(&self, argv: &Vec<String>) -> (r: NamePlan)
        ensures
            ({
                let name = trimmed(joined(texts(argv@), " "@));
                if argv@.len() == 0 {
                    r is Show
                } else if name.len() == 0 {
                    r matches NamePlan::Refused(o) && is_error(o, "empty name"@)
                } else {
                    r matches NamePlan::Assign(n) && n@ == name
                }
            }),
    {
        if argv.len() == 0 {
            return NamePlan::Show;
        }
        let name = trim(join(argv, " ").as_str());
        if name.as_str().is_empty() {
            NamePlan::Refused(error_outcome("empty name"))
        } else {
            NamePlan::Assign(name)
        }
    }

    /// What to print for the name that the session has.
    pub fn show_report(&self, result: &Result<Option<String>, String>) -> (r: Report)
        ensures
            match result {
                Ok(Some(n)) => prints(r, seq!["session name: "@ + n@]),
                Ok(None) => prints(r, seq!["(unnamed session)"@]),
                Err(e) => refuses(r, "read name: "@ + e@),
            },
    {
        match result {
            Ok(Some(n)) => {
                let mut line = owned("session name: ");
                line.push_str(n.as_str());
                printed(line)
            },
            Ok(None) => printed(owned("(unnamed session)")),
            Err(e) => refused_with("read name: ", e.as_str()),
        }
    }

    /// What to print once the name was set, or failed to be.
    pub fn set_report(&self, name: &str, result: &Result<(), String>) -> (r: Report)
        ensures
            match result {
                Ok(_) => prints(r, seq!["session name set to: "@ + name@]),
                Err(e) => refuses(r, "set name failed: "@ + e@),
            },
    {
        match result {
            Ok(_) => {
                let mut line = owned("session name set to: ");
                line.push_str(name);
                printed(line)
            },
            Err(e) => refused_with("set name failed: ", e.as_str()),
        }
    }
}

/// `/session`: export and import session archives.
#[derive(Debug)]
pub struct SessionCommand;

/// What `/session` is asked for.
#[allow(inconsistent_fields)]
#[derive(Debug)]
pub enum SessionPlan {
    Export { path: Option<String>, exclude_triggers: bool },
    Import { path: String },
    Refused(CommandOutcome),
}

pub const ARCHIVE_WARNING: &'static str =
    "warning: .theway-session archives include transcript and tool history. They do not include separate auth stores, provider credentials, OAuth tokens, or MCP config.";

/// What an export has written.
#[derive(Debug)]
pub struct ExportSummary {
    pub output_path: String,
    pub session_id: String,
    pub entry_count: usize,
    pub has_triggers: bool,
    pub has_cron: bool,
}

/// What an import has read.
#[derive(Debug)]
pub struct ImportSummary {
    pub session_id: String,
    pub session_path: String,
    pub entry_count: usize,
    pub triggers_imported: usize,
    pub cron_imported: usize,
    pub automation_enabled: bool,
    pub originally_enabled_triggers: Vec<String>,
    pub originally_enabled_cron: Vec<String>,
}

/// How an import ended.
#[derive(Debug)]
pub enum ImportEnd {
    /// The session repository did not open, so that the import never began.
    NoRepo(String),
    Failed(String),
    Imported(ImportSummary),
}

/// What `/session export` is asked for: at most one path, and a flag.
pub open spec fn is_export_plan(r: SessionPlan, argv: Seq<Seq<char>>) -> bool {
    let rest = without_flag(argv, "--exclude-triggers"@);
    if rest.len() > 1 {
        r matches SessionPlan::Refused(o) && is_error(
            o,
            "usage: /session export [path] [--exclude-triggers]"@,
        )
    } else {
        r matches SessionPlan::Export { path, exclude_triggers } && exclude_triggers
            == argv.contains("--exclude-triggers"@) && opt_text(path) == (if rest.len() == 1 {
            Some(rest[0])
        } else {
            None
        })
    }
}

/// The lines of a finished export.
pub open spec fn export_lines(s: ExportSummary) -> Seq<Seq<char>> {
    seq![
        ARCHIVE_WARNING@,
        "exported session archive: "@ + s.output_path@,
        "session "@ + short(s.session_id@) + " entries="@ + digits(s.entry_count as nat)
            + " triggers="@ + yes_no_text(s.has_triggers) + " cron="@ + yes_no_text(s.has_cron),
    ]
}

/// The lines of a finished import.
pub open spec fn import_lines(s: ImportSummary) -> Seq<Seq<char>> {
    seq![
        ARCHIVE_WARNING@,
        "imported session: "@ + short(s.session_id@),
        "path: "@ + s.session_path@,
        "entries="@ + digits(s.entry_count as nat) + " triggers="@ + digits(
            s.triggers_imported as nat,
        ) + " cron="@ + digits(s.cron_imported as nat) + " automation="@ + (if s.automation_enabled {
            "enabled"@
        } else {
            "disabled"@
        }),
        "resume with: theway --resume-id "@ + s.session_id@,
    ]
}

fn tail_of(argv: &Vec<String>) -> (r: Vec<String>)
    requires
        argv@.len() > 0,
    ensures
        texts(r@) == texts(argv@).skip(1),
{
    let mut r = crate::text::copy_texts(argv);
    r.remove(0);
    assert(texts(r@) =~= texts(argv@).skip(1));
    r
}

impl SessionCommand {
    pub fn info(&self) -> (r: CommandInfo)
        ensures
            is_info(
                r,
                "session"@,
                "export/import replayable .theway-session backups"@,
                "export [path] [--exclude-triggers] | import <path>"@,
            ),
    {
        command_info(
            "session",
            "export/import replayable .theway-session backups",
            "export [path] [--exclude-triggers] | import <path>",
        )
    }

    /// What `/session` is asked for.
    pub fn plan(&self, argv: &Vec<String>) -> (r: SessionPlan)
        ensures
            ({
                let args = texts(argv@);
                if args.len() == 0 {
                    r matches SessionPlan::Refused(o) && is_error(
                        o,
                        "usage: /session export [path] [--exclude-triggers] | /session import <path>"@,
                    )
                } else if args[0] == "export"@ {
                    is_export_plan(r, args.skip(1))
                } else if args[0] == "import"@ {
                    if args.len() == 2 {
                        r matches SessionPlan::Import { path } && path@ == args[1]
                    } else {
                        r matches SessionPlan::Refused(o) && is_error(
                            o,
                            "usage: /session import <path>"@,
                        )
                    }
                } else {
                    r matches SessionPlan::Refused(o) && is_error(
                        o,
                        "unknown /session subcommand: "@ + args[0]
                            + "; use /session export [path] or /session import <path>"@,
                    )
                }
            }),
    {
        if argv.len() == 0 {
            return SessionPlan::Refused(
                error_outcome(
                    "usage: /session export [path] [--exclude-triggers] | /session import <path>",
                ),
            );
        }
        assert(texts(argv@)[0] == argv@[0]@);
        let sub = argv[0].as_str();
        if sub.eq("export") {
            let rest = tail_of(argv);
            let paths = drop_flag(&rest, "--exclude-triggers");
            assert(texts(paths@).len() == paths@.len());
            if paths.len() > 1 {
                return SessionPlan::Refused(
                    error_outcome("usage: /session export [path] [--exclude-triggers]"),
                );
            }
            let path = if paths.len() == 1 {
                assert(texts(paths@)[0] == paths@[0]@);
                Some(paths[0].clone())
            } else {
                None
            };
            SessionPlan::Export { path, exclude_triggers: has_text(&rest, "--exclude-triggers") }
        } else if sub.eq("import") {
            if argv.len() != 2 {
                return SessionPlan::Refused(error_outcome("usage: /session import <path>"));
            }
            assert(texts(argv@)[1] == argv@[1]@);
            SessionPlan::Import { path: argv[1].clone() }
        } else {
            let mut e = owned("unknown /session subcommand: ");
            e.push_str(sub);
            e.push_str("; use /session export [path] or /session import <path>");
            SessionPlan::Refused(CommandOutcome::Error(e))
        }
    }

    /// The archive that a path names: taken from the working directory, or a default.
    pub fn archive_path(&self, path: &Option<String>, default_path: &str, cwd: &str) -> (r: String)
        ensures
            r@ == joined_path(
                cwd@,
                match path {
                    Some(p) => p@,
                    None => default_path@,
                },
            ),
    {
        match path {
            Some(p) => join_path(cwd, p.as_str()),
            None => join_path(cwd, default_path),
        }
    }

    /// The archive that an import reads: a relative path is taken from the working directory.
    pub fn import_path(&self, path: &str, cwd: &str) -> (r: String)
        ensures
            r@ == joined_path(cwd@, path@),
    {
        join_path(cwd, path)
    }

    /// What to print for an export. The warning comes before the export begins.
    pub fn export_report(&self, result: &Result<ExportSummary, String>) -> (r: Report)
        ensures
            match result {
                Ok(s) => prints(r, export_lines(*s)),
                Err(e) => texts(r.lines@) == seq![ARCHIVE_WARNING@] && is_error(
                    r.outcome,
                    "session export failed: "@ + e@,
                ),
            },
    {
        let mut lines: Vec<String> = Vec::new();
        lines.push(owned(ARCHIVE_WARNING));
        match result {
            Ok(s) => {
                let mut l1 = owned("exported session archive: ");
                l1.push_str(s.output_path.as_str());
                lines.push(l1);
                let mut l2 = owned("session ");
                l2.push_str(short_id(s.session_id.as_str()).as_str());
                l2.push_str(" entries=");
                l2.push_str(decimal_size(s.entry_count).as_str());
                l2.push_str(" triggers=");
                l2.push_str(yes_no(s.has_triggers));
                l2.push_str(" cron=");
                l2.push_str(yes_no(s.has_cron));
                lines.push(l2);
                assert(texts(lines@) =~= export_lines(*s));
                Report { lines, outcome: CommandOutcome::Handled }
            },
            Err(e) => {
                assert(texts(lines@) =~= seq![ARCHIVE_WARNING@]);
                Report { lines, outcome: failed("session export failed: ", e.as_str()) }
            },
        }
    }

    /// What to print for an import, and whether to offer switching on again what the
    /// archive's session had switched on. The warning comes before the import begins.
    pub fn import_report(&self, end: &ImportEnd) -> (r: Report)
        ensures
            match end {
                ImportEnd::Imported(s) => {
                    &&& texts(r.lines@) == import_lines(*s)
                    &&& if s.originally_enabled_triggers@.len() > 0
                        || s.originally_enabled_cron@.len() > 0 {
                        r.outcome matches CommandOutcome::SessionImportActivation {
                            session_path,
                            trigger_ids,
                            cron_ids,
                        } && session_path@ == s.session_path@ && trigger_ids@
                            == s.originally_enabled_triggers@ && cron_ids@
                            == s.originally_enabled_cron@
                    } else {
                        r.outcome is Handled
                    }
                },
                ImportEnd::NoRepo(e) => refuses(r, "open session repo: "@ + e@),
                ImportEnd::Failed(e) => texts(r.lines@) == seq![ARCHIVE_WARNING@] && is_error(
                    r.outcome,
                    "session import failed: "@ + e@,
                ),
            },
    {
        let mut lines: Vec<String> = Vec::new();
        lines.push(owned(ARCHIVE_WARNING));
        match end {
            ImportEnd::NoRepo(e) => refused_with("open session repo: ", e.as_str()),
            ImportEnd::Imported(s) => {
                let mut l1 = owned("imported session: ");
                l1.push_str(short_id(s.session_id.as_str()).as_str());
                lines.push(l1);
                let mut l2 = owned("path: ");
                l2.push_str(s.session_path.as_str());
                lines.push(l2);
                let mut l3 = owned("entries=");
                l3.push_str(decimal_size(s.entry_count).as_str());
                l3.push_str(" triggers=");
                l3.push_str(decimal_size(s.triggers_imported).as_str());
                l3.push_str(" cron=");
                l3.push_str(decimal_size(s.cron_imported).as_str());
                l3.push_str(" automation=");
                l3.push_str(
                    if s.automation_enabled {
                        "enabled"
                    } else {
                        "disabled"
                    },
                );
                lines.push(l3);
                let mut l4 = owned("resume with: theway --resume-id ");
                l4.push_str(s.session_id.as_str());
                lines.push(l4);
                assert(texts(lines@) =~= import_lines(*s));
                let outcome = if s.originally_enabled_triggers.len() > 0
                    || s.originally_enabled_cron.len() > 0 {
                    CommandOutcome::SessionImportActivation {
                        session_path: s.session_path.clone(),
                        trigger_ids: crate::text::copy_texts(&s.originally_enabled_triggers),
                        cron_ids: crate::text::copy_texts(&s.originally_enabled_cron),
                    }
                } else {
                    CommandOutcome::Handled
                };
                Report { lines, outcome }
            },
            ImportEnd::Failed(e) => {
                assert(texts(lines@) =~= seq![ARCHIVE_WARNING@]);
                Report { lines, outcome: failed("session import failed: ", e.as_str()) }
            },
        }
    }
}

// `/fork`.

/// `/fork`: make a new session from everything before a user message.
#[derive(Debug)]
pub struct ForkCommand;

/// A message entry of the session, with the preview of its text where it is a user message.
#[derive(Debug)]
pub struct ForkEntry {
    pub id: String,
    pub preview: Option<String>,
}

/// A user message that the session can be forked before.
#[derive(Debug)]
pub struct ForkPoint {
    pub id: String,
    pub preview: String,
}

/// The identifier and the preview of the user messages among the first `n` entries, the
/// newest first.
pub open spec fn points_in(entries: Seq<ForkEntry>, n: int) -> Seq<(Seq<char>, Seq<char>)>
    decreases n,
{
    if n <= 0 || n > entries.len() {
        Seq::empty()
    } else {
        match entries[n - 1].preview {
            Some(p) => seq![(entries[n - 1].id@, p@)] + points_in(entries, n - 1),
            None => points_in(entries, n - 1),
        }
    }
}

pub open spec fn point_views(v: Seq<ForkPoint>) -> Seq<(Seq<char>, Seq<char>)> {
    Seq::new(v.len(), |i: int| (v[i].id@, v[i].preview@))
}

/// The preview of a message in the list of fork points.
pub open spec fn fork_preview(preview: Seq<char>) -> Seq<char> {
    if preview.len() > 60 {
        preview.take(60).push('…')
    } else {
        preview
    }
}

/// The list of the first `n` fork points.
pub open spec fn fork_list(points: Seq<(Seq<char>, Seq<char>)>, n: int) -> Seq<Seq<char>>
    decreases n,
{
    if n <= 0 || n > points.len() {
        seq!["user messages (newest first):"@]
    } else {
        fork_list(points, n - 1).push(
            "  "@ + digits(n as nat) + ") "@ + fork_preview(points[n - 1].1),
        )
    }
}

pub const FORK_HINT: &'static str =
    "fork before message N with /fork <N> — the new session replays everything before it";

/// What `/fork` is asked for.
#[derive(Debug)]
pub enum ForkPlan {
    /// Print the fork points.
    List(Report),
    /// Fork before this entry.
    Before { entry_id: String },
    Refused(CommandOutcome),
}

/// What `/fork` is asked for, among the given fork points.
pub open spec fn is_fork_plan(
    r: ForkPlan,
    argv: Seq<Seq<char>>,
    all: Seq<(Seq<char>, Seq<char>)>,
) -> bool {
    if all.len() == 0 {
        r matches ForkPlan::Refused(o) && is_error(o, "no user messages to fork from"@)
    } else if argv.len() == 0 {
        r matches ForkPlan::List(report) && prints(
            report,
            fork_list(all, all.len() as int).push(FORK_HINT@),
        )
    } else {
        match parsed_number(argv[0], usize::MAX as nat) {
            Some(n) => if 1 <= n <= all.len() {
                r matches ForkPlan::Before { entry_id } && entry_id@ == all[n - 1].0
            } else {
                r matches ForkPlan::Refused(o) && is_error(o, fork_range_text(all.len()))
            },
            None => r matches ForkPlan::Refused(o) && is_error(o, fork_range_text(all.len())),
        }
    }
}

/// The steps of a fork, in order.
#[derive(Clone, Copy, Debug, PartialEq, Eq, Structural)]
pub enum ForkStage {
    CollectEntries,
    OpenRepo,
    EncodeEntries,
    AskExtensions,
    CreateSession,
    ReadMetadata,
}

/// What follows a step of a fork.
#[derive(Debug)]
pub enum ForkStep {
    Next(ForkStage),
    /// All steps are done; print the report.
    Finished,
    Failed(CommandOutcome),
}

/// The step after a step.
pub open spec fn next_fork_stage(stage: ForkStage) -> Option<ForkStage> {
    match stage {
        ForkStage::CollectEntries => Some(ForkStage::OpenRepo),
        ForkStage::OpenRepo => Some(ForkStage::EncodeEntries),
        ForkStage::EncodeEntries => Some(ForkStage::AskExtensions),
        ForkStage::AskExtensions => Some(ForkStage::CreateSession),
        ForkStage::CreateSession => Some(ForkStage::ReadMetadata),
        ForkStage::ReadMetadata => None,
    }
}

/// What the failure of a step is reported with.
pub open spec fn fork_failure(stage: ForkStage) -> Seq<char> {
    match stage {
        ForkStage::OpenRepo => "open session repo: "@,
        ForkStage::AskExtensions => "fork cancelled: "@,
        ForkStage::ReadMetadata => "fork created but unreadable: "@,
        _ => "fork failed: "@,
    }
}

/// The line that tells where the new session is.
pub open spec fn fork_success(new_id: Seq<char>) -> Seq<char> {
    "forked session "@ + new_id + " — /session switch "@ + short(new_id) + " to continue there"@
}

/// The line that tells where the new session is: its whole identifier, and a short one to
/// switch with.
pub fn fork_success_line(new_id: &str) -> (r: String)
    ensures
        r@ == fork_success(new_id@),
{
    let mut r = owned("forked session ");
    r.push_str(new_id);
    r.push_str(" — /session switch ");
    r.push_str(short_id(new_id).as_str());
    r.push_str(" to continue there");
    r
}

impl ForkCommand {
    pub fn info(&self) -> (r: CommandInfo)
        ensures
            is_info(
                r,
                "fork"@,
                "fork a new session from a previous user message (pi-style session tree)"@,
                "[n]"@,
            ),
    {
        command_info(
            "fork",
            "fork a new session from a previous user message (pi-style session tree)",
            "[n]",
        )
    }

    /// The user messages of the session, the newest first.
    pub fn points(&self, entries: &Vec<ForkEntry>) -> (r: Vec<ForkPoint>)
        ensures
            point_views(r@) == points_in(entries@, entries@.len() as int),
    {
        let mut r: Vec<ForkPoint> = Vec::new();
        let mut n: usize = entries.len();
        assert(point_views(r@) + points_in(entries@, n as int) =~= points_in(entries@, n as int));
        while n > 0
            invariant
                n <= entries@.len(),
                points_in(entries@, entries@.len() as int) == point_views(r@) + points_in(
                    entries@,
                    n as int,
                ),
            decreases n,
        {
            let ghost before = r@;
            let entry = &entries[n - 1];
            if let Some(preview) = &entry.preview {
                r.push(ForkPoint { id: entry.id.clone(), preview: preview.clone() });
                proof {
                    let rest = points_in(entries@, n - 1);
                    assert(point_views(before) + (seq![(entry.id@, preview@)] + rest)
                        =~= point_views(r@) + rest);
                }
            }
            n -= 1;
        }
        assert(point_views(r@) + Seq::<(Seq<char>, Seq<char>)>::empty() =~= point_views(r@));
        r
    }

    /// What `/fork` is asked for, given the message entries of the session as they were read:
    /// the list of the fork points without an argument, a fork before the n-th newest user
    /// message with one.
    pub fn plan(&self, argv: &Vec<String>, read: &Result<Vec<ForkEntry>, String>) -> (r: ForkPlan)
        ensures
            match read {
                Ok(entries) => is_fork_plan(
                    r,
                    texts(argv@),
                    points_in(entries@, entries@.len() as int),
                ),
                Err(e) => r matches ForkPlan::Refused(o) && is_error(o, "read session: "@ + e@),
            },
    {
        let points = match read {
            Ok(entries) => self.points(entries),
            Err(e) => {
                return ForkPlan::Refused(failed("read session: ", e.as_str()));
            },
        };
        if points.len() == 0 {
            return ForkPlan::Refused(error_outcome("no user messages to fork from"));
        }
        if argv.len() == 0 {
            let mut lines = fork_lines(&points);
            lines.push(owned(FORK_HINT));
            return ForkPlan::List(printed_lines(lines));
        }
        assert(texts(argv@)[0] == argv@[0]@);
        match parse_size(argv[0].as_str()) {
            Some(n) => if 1 <= n && n <= points.len() {
                assert(point_views(points@)[n - 1].0 == points@[n - 1].id@);
                ForkPlan::Before { entry_id: points[n - 1].id.clone() }
            } else {
                ForkPlan::Refused(CommandOutcome::Error(fork_range_message(points.len())))
            },
            None => ForkPlan::Refused(CommandOutcome::Error(fork_range_message(points.len()))),
        }
    }

    /// What follows a step of the fork, given whether it succeeded.
    pub fn advance(&self, stage: ForkStage, result: &Result<(), String>) -> (r: ForkStep)
        ensures
            match result {
                Ok(_) => match next_fork_stage(stage) {
                    Some(next) => r matches ForkStep::Next(s) && s == next,
                    None => r is Finished,
                },
                Err(e) => r matches ForkStep::Failed(o) && is_error(o, fork_failure(stage) + e@),
            },
    {
        match result {
            Ok(_) => match stage {
                ForkStage::CollectEntries => ForkStep::Next(ForkStage::OpenRepo),
                ForkStage::OpenRepo => ForkStep::Next(ForkStage::EncodeEntries),
                ForkStage::EncodeEntries => ForkStep::Next(ForkStage::AskExtensions),
                ForkStage::AskExtensions => ForkStep::Next(ForkStage::CreateSession),
                ForkStage::CreateSession => ForkStep::Next(ForkStage::ReadMetadata),
                ForkStage::ReadMetadata => ForkStep::Finished,
            },
            Err(e) => {
                let prefix = match stage {
                    ForkStage::OpenRepo => "open session repo: ",
                    ForkStage::AskExtensions => "fork cancelled: ",
                    ForkStage::ReadMetadata => "fork created but unreadable: ",
                    _ => "fork failed: ",
                };
                ForkStep::Failed(failed(prefix, e.as_str()))
            },
        }
    }

    /// What to print once the new session is there, from its metadata.
    pub fn report(&self, metadata: &Json) -> (r: Report)
        ensures
            prints(
                r,
                seq![
                    fork_success(metadata_id(metadata@)),
                    "resume with: theway --resume-id "@ + metadata_id(metadata@),
                ],
            ),
    {
        let new_id = session_id_in(metadata);
        let mut lines: Vec<String> = Vec::new();
        lines.push(fork_success_line(new_id.as_str()));
        let mut hint = owned("resume with: theway --resume-id ");
        hint.push_str(new_id.as_str());
        lines.push(hint);
        assert(texts(lines@) =~= seq![fork_success(new_id@), hint@]);
        printed_lines(lines)
    }
}

/// The refusal of an index out of range.
pub open spec fn fork_range_text(count: nat) -> Seq<char> {
    "fork index must be 1..="@ + digits(count) + " (run /fork to list messages)"@
}

fn fork_range_message(count: usize) -> (r: String)
    ensures
        r@ == fork_range_text(count as nat),
{
    let mut e = owned("fork index must be 1..=");
    e.push_str(decimal_size(count).as_str());
    e.push_str(" (run /fork to list messages)");
    e
}

fn fork_lines(points: &Vec<ForkPoint>) -> (r: Vec<String>)
    ensures
        texts(r@) == fork_list(point_views(points@), points@.len() as int),
{
    let mut r: Vec<String> = Vec::new();
    r.push(owned("user messages (newest first):"));
    let ghost all = point_views(points@);
    assert(texts(r@) =~= fork_list(all, 0));
    let mut i: usize = 0;
    while i < points.len()
        invariant
            i <= points@.len(),
            all == point_views(points@),
            texts(r@) == fork_list(all, i as int),
        decreases points@.len() - i,
    {
        let preview = points[i].preview.as_str();
        let mut line = owned("  ");
        line.push_str(decimal_size(i + 1).as_str());
        line.push_str(") ");
        let mut shown = take_chars(preview, 60);
        if char_count(preview) > 60 {
            shown.push('…');
        }
        line.push_str(shown.as_str());
        assert(shown@ == fork_preview(all[i as int].1));
        r.push(line);
        i += 1;
    }
    r
}

/// The first fork point is the newest user message: later entries hold none.
pub proof fn law_first_fork_point_is_the_newest(entries: Seq<ForkEntry>, i: int)
    requires
        0 <= i < entries.len(),
        entries[i].preview is Some,
        forall|j: int| i < j < entries.len() ==> (#[trigger] entries[j]).preview is None,
    ensures
        points_in(entries, entries.len() as int).len() > 0,
        points_in(entries, entries.len() as int)[0].0 == entries[i].id@,
{
    lemma_newest(entries, i, entries.len() as int);
}

proof fn lemma_newest(entries: Seq<ForkEntry>, i: int, n: int)
    requires
        0 <= i < n <= entries.len(),
        entries[i].preview is Some,
        forall|j: int| i < j < n ==> (#[trigger] entries[j]).preview is None,
    ensures
        points_in(entries, n).len() > 0,
        points_in(entries, n)[0].0 == entries[i].id@,
    decreases n,
{
    if i < n - 1 {
        lemma_newest(entries, i, n - 1);
    }
}

/// How many steps of a fork are left from a step on.
pub open spec fn fork_steps_left(stage: ForkStage) -> nat {
    match stage {
        ForkStage::CollectEntries => 6,
        ForkStage::OpenRepo => 5,
        ForkStage::EncodeEntries => 4,
        ForkStage::AskExtensions => 3,
        ForkStage::CreateSession => 2,
        ForkStage::ReadMetadata => 1,
    }
}

/// A fork ends: each step that succeeds leaves one step fewer, and the extensions are asked
/// before a session is created.
pub proof fn law_fork_ends(stage: ForkStage)
    ensures
        match next_fork_stage(stage) {
            Some(next) => fork_steps_left(next) + 1 == fork_steps_left(stage),
            None => fork_steps_left(stage) == 1,
        },
        fork_steps_left(ForkStage::AskExtensions) > fork_steps_left(ForkStage::CreateSession),
{
}

// `/collapse`.

/// `/collapse`: fold the session into a node of the session graph, with a fresh child.
///
/// The summary that the child starts from is the newest one that the session has. Where it
/// has none and is idle, the current model is asked for one; where the session is busy, or
/// the model gives none, the transcript stands in.
#[derive(Debug)]
pub struct CollapseCommand;

/// What the model is asked for: the five labelled sections of a rolling summary.
pub const COLLAPSE_SUMMARY_INSTRUCTION: &'static str =
    "This summary will become the new session's entire memory of this conversation (a session collapse). Output exactly the following five labeled sections, one section per line, each a single concise paragraph, and nothing else:\ngoal: <one sentence — what this session set out to achieve>\ncompleted work: <what was done and what changed>\nkey decisions: <decisions made and why>\nnext steps: <what remains to do>\ncritical context: <facts and constraints the next session must not lose>";

pub const COLLAPSE_BUSY_LINE: &'static str =
    "collapse during a busy turn: LLM summarization skipped; rolling transcript fallback used";

/// What a collapse waits for.
#[derive(Clone, Copy, Debug, PartialEq, Eq, Structural)]
pub enum CollapseStage {
    Repo,
    Session,
    Summary,
    Model,
    Collapse,
    Done,
}

/// A collapse under way.
#[derive(Debug)]
pub struct CollapseRun {
    pub session_id: String,
    pub name: Option<String>,
    pub adopt: bool,
    /// Whether the model gave the summary.
    pub summarized: bool,
    pub stage: CollapseStage,
}

/// The node and the child session that a collapse has made.
#[derive(Debug)]
pub struct CollapseResult {
    pub child_id: Option<String>,
    pub node_id: Option<String>,
}

/// What has come back from outside.
#[derive(Debug)]
pub enum CollapseEvent {
    RepoOpened(Result<(), String>),
    /// Whether the session was found.
    SessionOpened(Result<bool, String>),
    /// The newest summary of the session, and whether a turn is under way.
    SummaryRead { existing: Result<Option<String>, String>, streaming: bool },
    ModelAnswered(Result<Option<String>, String>),
    Collapsed(Result<CollapseResult, String>),
}

/// What is to be done next.
#[derive(Debug)]
pub enum CollapseAction {
    OpenSession,
    ReadSummary,
    AskModel { instruction: String },
    Collapse { summary: Option<String> },
    Finish(CommandOutcome),
    /// The event was not awaited.
    Wait,
}

/// The summary that a session has, where it is not blank.
pub open spec fn existing_summary(existing: Result<Option<String>, String>) -> Option<Seq<char>> {
    match existing {
        Ok(Some(s)) => if trimmed(s@).len() > 0 {
            Some(s@)
        } else {
            None
        },
        _ => None,
    }
}

/// The text of an option, empty where there is none.
pub open spec fn text_or_empty(o: Option<String>) -> Seq<char> {
    match o {
        Some(s) => s@,
        None => Seq::empty(),
    }
}

fn or_empty(o: &Option<String>) -> (r: String)
    ensures
        r@ == text_or_empty(*o),
{
    match o {
        Some(s) => s.clone(),
        None => String::new(),
    }
}

/// The lines of a finished collapse.
pub open spec fn collapse_lines(run: CollapseRun, made: CollapseResult) -> Seq<Seq<char>> {
    let first = seq![
        "collapsed "@ + run.session_id@ + " into node "@ + text_or_empty(made.node_id)
            + " (child session "@ + text_or_empty(made.child_id) + ")"@,
    ];
    let second = if run.summarized {
        first.push("summarized with the current model before collapsing"@)
    } else {
        first
    };
    let third = if run.adopt {
        second.push("--adopt: ownership migration requested"@)
    } else {
        second
    };
    third.push("resume with: theway --resume-id "@ + text_or_empty(made.child_id))
}

/// What a step of a collapse gives: the next action, the lines printed, the stage awaited
/// then, and whether the model gave the summary.
pub open spec fn collapse_step(
    run: CollapseRun,
    event: CollapseEvent,
    action: CollapseAction,
    lines: Seq<Seq<char>>,
    stage: CollapseStage,
    summarized: bool,
) -> bool {
    match (run.stage, event) {
        (CollapseStage::Repo, CollapseEvent::RepoOpened(result)) => lines.len() == 0 && summarized
            == run.summarized && match result {
            Ok(_) => action is OpenSession && stage is Session,
            Err(e) => stage is Done && (action matches CollapseAction::Finish(o) && is_error(
                o,
                "open session repo: "@ + e@,
            )),
        },
        (CollapseStage::Session, CollapseEvent::SessionOpened(result)) => lines.len() == 0
            && summarized == run.summarized && match result {
            Ok(true) => action is ReadSummary && stage is Summary,
            Ok(false) => stage is Done && (action matches CollapseAction::Finish(o) && is_error(
                o,
                "no session matches id "@ + run.session_id@,
            )),
            Err(e) => stage is Done && (action matches CollapseAction::Finish(o) && is_error(
                o,
                "open session: "@ + e@,
            )),
        },
        (CollapseStage::Summary, CollapseEvent::SummaryRead { existing, streaming }) => summarized
            == run.summarized && match existing_summary(existing) {
            Some(s) => lines.len() == 0 && stage is Collapse && (
            action matches CollapseAction::Collapse { summary } && opt_text(summary) == Some(s)),
            None => if streaming {
                lines == seq![COLLAPSE_BUSY_LINE@] && stage is Collapse && (
                action matches CollapseAction::Collapse { summary } && summary is None)
            } else {
                lines.len() == 0 && stage is Model && (
                action matches CollapseAction::AskModel { instruction } && instruction@
                    == COLLAPSE_SUMMARY_INSTRUCTION@)
            },
        },
        (CollapseStage::Model, CollapseEvent::ModelAnswered(result)) => stage is Collapse && (
        action matches CollapseAction::Collapse { summary } && match result {
            Ok(Some(s)) => lines.len() == 0 && summarized && opt_text(summary) == Some(s@),
            Ok(None) => lines.len() == 0 && summarized == run.summarized && summary is None,
            Err(e) => summarized == run.summarized && summary is None && lines == seq![
                "summarize before collapse failed: "@ + e@
                    + "; rolling transcript fallback used"@,
            ],
        }),
        (CollapseStage::Collapse, CollapseEvent::Collapsed(result)) => stage is Done && summarized
            == run.summarized && (action matches CollapseAction::Finish(o) && match result {
            Ok(made) => o is Handled && lines == collapse_lines(run, made),
            Err(e) => lines.len() == 0 && is_error(o, "collapse failed: "@ + e@),
        }),
        _ => action is Wait && lines.len() == 0 && stage == run.stage && summarized
            == run.summarized,
    }
}

impl CollapseCommand {
    pub fn info(&self) -> (r: CommandInfo)
        ensures
            is_info(
                r,
                "collapse"@,
                "collapse the current session into a session-graph node and create a fresh child"@,
                "[name] [--adopt]"@,
            ),
    {
        command_info(
            "collapse",
            "collapse the current session into a session-graph node and create a fresh child",
            "[name] [--adopt]",
        )
    }

    /// A collapse that waits for the session repository, where the arguments hold at most one
    /// name besides the flag.
    pub fn start(&self, argv: &Vec<String>, session_id: &str) -> (r: Result<
        CollapseRun,
        CommandOutcome,
    >)
        ensures
            ({
                let rest = without_flag(texts(argv@), "--adopt"@);
                if rest.len() > 1 {
                    r matches Err(o) && is_error(o, "usage: /collapse [name] [--adopt]"@)
                } else {
                    r matches Ok(run) && run.session_id@ == session_id@ && run.adopt == texts(
                        argv@,
                    ).contains("--adopt"@) && !run.summarized && run.stage is Repo && opt_text(
                        run.name,
                    ) == (if rest.len() == 1 {
                        Some(rest[0])
                    } else {
                        None
                    })
                }
            }),
    {
        let names = drop_flag(argv, "--adopt");
        assert(texts(names@).len() == names@.len());
        if names.len() > 1 {
            return Err(error_outcome("usage: /collapse [name] [--adopt]"));
        }
        let name = if names.len() == 1 {
            assert(texts(names@)[0] == names@[0]@);
            Some(names[0].clone())
        } else {
            None
        };
        Ok(
            CollapseRun {
                session_id: owned(session_id),
                name,
                adopt: has_text(argv, "--adopt"),
                summarized: false,
                stage: CollapseStage::Repo,
            },
        )
    }
}

fn collapse_report(run: &CollapseRun, made: &CollapseResult) -> (lines: Vec<String>)
    ensures
        texts(lines@) == collapse_lines(*run, *made),
{
    let child_id = or_empty(&made.child_id);
    let mut lines: Vec<String> = Vec::new();
    let mut first = owned("collapsed ");
    first.push_str(run.session_id.as_str());
    first.push_str(" into node ");
    first.push_str(or_empty(&made.node_id).as_str());
    first.push_str(" (child session ");
    first.push_str(child_id.as_str());
    first.push_str(")");
    lines.push(first);
    assert(texts(lines@) =~= seq![first@]);
    if run.summarized {
        lines.push(owned("summarized with the current model before collapsing"));
    }
    if run.adopt {
        lines.push(owned("--adopt: ownership migration requested"));
    }
    let mut last = owned("resume with: theway --resume-id ");
    last.push_str(child_id.as_str());
    lines.push(last);
    lines
}

impl CollapseRun {
    /// Takes what has come back from outside, prints, and says what to do next.
    pub fn step(&mut self, event: &CollapseEvent) -> (r: (CollapseAction, Vec<String>))
        ensures
            final(self).session_id == old(self).session_id,
            final(self).name == old(self).name,
            final(self).adopt == old(self).adopt,
            collapse_step(
                *old(self),
                *event,
                r.0,
                texts(r.1@),
                final(self).stage,
                final(self).summarized,
            ),
    {
        let none: Vec<String> = Vec::new();
        match (self.stage, event) {
            (CollapseStage::Repo, CollapseEvent::RepoOpened(result)) => match result {
                Ok(_) => {
                    self.stage = CollapseStage::Session;
                    (CollapseAction::OpenSession, none)
                },
                Err(e) => {
                    self.stage = CollapseStage::Done;
                    (CollapseAction::Finish(failed("open session repo: ", e.as_str())), none)
                },
            },
            (CollapseStage::Session, CollapseEvent::SessionOpened(result)) => match result {
                Ok(found) => if *found {
                    self.stage = CollapseStage::Summary;
                    (CollapseAction::ReadSummary, none)
                } else {
                    let outcome = failed("no session matches id ", self.session_id.as_str());
                    self.stage = CollapseStage::Done;
                    (CollapseAction::Finish(outcome), none)
                },
                Err(e) => {
                    self.stage = CollapseStage::Done;
                    (CollapseAction::Finish(failed("open session: ", e.as_str())), none)
                },
            },
            (CollapseStage::Summary, CollapseEvent::SummaryRead { existing, streaming }) => {
                if let Ok(Some(summary)) = existing {
                    if !is_blank(summary.as_str()) {
                        self.stage = CollapseStage::Collapse;
                        return (CollapseAction::Collapse { summary: Some(summary.clone()) }, none);
                    }
                }
                if *streaming {
                    let mut lines = none;
                    lines.push(owned(COLLAPSE_BUSY_LINE));
                    assert(texts(lines@) =~= seq![COLLAPSE_BUSY_LINE@]);
                    self.stage = CollapseStage::Collapse;
                    (CollapseAction::Collapse { summary: None }, lines)
                } else {
                    self.stage = CollapseStage::Model;
                    let instruction = owned(COLLAPSE_SUMMARY_INSTRUCTION);
                    (CollapseAction::AskModel { instruction }, none)
                }
            },
            (CollapseStage::Model, CollapseEvent::ModelAnswered(result)) => {
                self.stage = CollapseStage::Collapse;
                match result {
                    Ok(Some(summary)) => {
                        self.summarized = true;
                        (CollapseAction::Collapse { summary: Some(summary.clone()) }, none)
                    },
                    Ok(None) => (CollapseAction::Collapse { summary: None }, none),
                    Err(e) => {
                        let mut line = owned("summarize before collapse failed: ");
                        line.push_str(e.as_str());
                        line.push_str("; rolling transcript fallback used");
                        let mut lines = none;
                        lines.push(line);
                        assert(texts(lines@) =~= seq![line@]);
                        (CollapseAction::Collapse { summary: None }, lines)
                    },
                }
            },
            (CollapseStage::Collapse, CollapseEvent::Collapsed(result)) => match result {
                Ok(made) => {
                    let lines = collapse_report(self, made);
                    self.stage = CollapseStage::Done;
                    (CollapseAction::Finish(CommandOutcome::Handled), lines)
                },
                Err(e) => {
                    self.stage = CollapseStage::Done;
                    (CollapseAction::Finish(failed("collapse failed: ", e.as_str())), none)
                },
            },
            _ => (CollapseAction::Wait, none),
        }
    }
}

/// How many awaited events a collapse takes at most from a stage on.
pub open spec fn collapse_steps_left(stage: CollapseStage) -> nat {
    match stage {
        CollapseStage::Repo => 5,
        CollapseStage::Session => 4,
        CollapseStage::Summary => 3,
        CollapseStage::Model => 2,
        CollapseStage::Collapse => 1,
        CollapseStage::Done => 0,
    }
}

/// A collapse ends: each awaited event brings it nearer to its end.
pub proof fn law_collapse_ends(
    run: CollapseRun,
    event: CollapseEvent,
    action: CollapseAction,
    lines: Seq<Seq<char>>,
    stage: CollapseStage,
    summarized: bool,
)
    requires
        collapse_step(run, event, action, lines, stage, summarized),
    ensures
        action is Wait || collapse_steps_left(stage) < collapse_steps_left(run.stage),
        action is Finish ==> stage is Done,
        run.stage is Done ==> action is Wait,
{
}

/// The model is asked for a summary only where the session has none and no turn is under
/// way, so that it never races a live turn.
pub proof fn law_busy_session_is_not_summarized(
    run: CollapseRun,
    event: CollapseEvent,
    action: CollapseAction,
    lines: Seq<Seq<char>>,
    stage: CollapseStage,
    summarized: bool,
)
    requires
        collapse_step(run, event, action, lines, stage, summarized),
        action is AskModel,
    ensures
        event matches CollapseEvent::SummaryRead { existing, streaming } && !streaming
            && existing_summary(existing) is None,
{
}

/// A failed summary does not stop a collapse: whatever the model answers, the session is
/// collapsed next.
pub proof fn law_failed_summary_does_not_stop_a_collapse(
    run: CollapseRun,
    answer: Result<Option<String>, String>,
    action: CollapseAction,
    lines: Seq<Seq<char>>,
    stage: CollapseStage,
    summarized: bool,
)
    requires
        run.stage is Model,
        collapse_step(run, CollapseEvent::ModelAnswered(answer), action, lines, stage, summarized),
    ensures
        action is Collapse,
        stage is Collapse,
{
}

// `/share`.

/// `/share`: upload the transcript as a gist.
#[derive(Debug)]
pub struct ShareCommand;

/// How an upload ended.
#[derive(Debug)]
pub enum ShareEnd {
    NoDirectory(String),
    NotSaved(String),
    NotSpawned(String),
    /// The program ended with this code, where it has one, and wrote this to its error stream.
    Exited { code: Option<i32>, stderr: String },
    /// The program succeeded and wrote this to its output.
    Succeeded { stdout: String },
}

/// The program that uploads: the one given, or `gh`.
pub fn gh_bin(given: &Option<String>) -> (r: String)
    ensures
        r@ == (match given {
            Some(bin) => bin@,
            None => "gh"@,
        }),
{
    match given {
        Some(bin) => bin.clone(),
        None => owned("gh"),
    }
}

impl ShareCommand {
    pub fn info(&self) -> (r: CommandInfo)
        ensures
            is_info(
                r,
                "share"@,
                "upload transcript as a private Gist via gh (requires `gh` on PATH)"@,
                "[--public]"@,
            ),
    {
        command_info(
            "share",
            "upload transcript as a private Gist via gh (requires `gh` on PATH)",
            "[--public]",
        )
    }

    /// The directory that the transcript is written to before it is uploaded.
    pub fn directory(&self, temp_dir: &str, session_id: &str) -> (r: String)
        ensures
            r@ == joined_path(temp_dir@, "theway-share-"@ + session_id@),
    {
        let mut name = owned("theway-share-");
        name.push_str(session_id);
        join_path(temp_dir, name.as_str())
    }

    /// The file that is uploaded.
    pub fn file(&self, directory: &str) -> (r: String)
        ensures
            r@ == joined_path(directory@, "transcript.md"@),
    {
        join_path(directory, "transcript.md")
    }

    /// The arguments of the program that uploads. The gist is public only where the command
    /// says so.
    pub fn gist_args(&self, argv: &Vec<String>, session_id: &str, file: &str) -> (r: Vec<String>)
        ensures
            texts(r@) == seq!["gist"@, "create"@] + (if texts(argv@).contains("--public"@) {
                seq!["--public"@]
            } else {
                Seq::empty()
            }) + seq!["--desc"@, "theway session "@ + session_id@, file@],
    {
        let mut r: Vec<String> = Vec::new();
        r.push(owned("gist"));
        r.push(owned("create"));
        if has_text(argv, "--public") {
            r.push(owned("--public"));
        }
        r.push(owned("--desc"));
        let mut desc = owned("theway session ");
        desc.push_str(session_id);
        r.push(desc);
        r.push(owned(file));
        assert(texts(r@) =~= seq!["gist"@, "create"@] + (if texts(argv@).contains("--public"@) {
            seq!["--public"@]
        } else {
            Seq::empty()
        }) + seq!["--desc"@, "theway session "@ + session_id@, file@]);
        r
    }

    /// What to print for an upload.
    pub fn report(&self, end: &ShareEnd) -> (r: Report)
        ensures
            match end {
                ShareEnd::NoDirectory(e) => refuses(r, "share tmp dir: "@ + e@),
                ShareEnd::NotSaved(e) => refuses(r, "save transcript: "@ + e@),
                ShareEnd::NotSpawned(e) => refuses(
                    r,
                    "gh gist create failed to spawn: "@ + e@ + ". Is gh on PATH?"@,
                ),
                ShareEnd::Exited { code, stderr } => refuses(
                    r,
                    "gh gist create exited "@ + signed_digits(
                        match code {
                            Some(c) => c as int,
                            None => -1,
                        },
                    ) + ": "@ + trimmed(stderr@),
                ),
                ShareEnd::Succeeded { stdout } => prints(r, seq!["shared: "@ + trimmed(stdout@)]),
            },
    {
        match end {
            ShareEnd::NoDirectory(e) => refused_with("share tmp dir: ", e.as_str()),
            ShareEnd::NotSaved(e) => refused_with("save transcript: ", e.as_str()),
            ShareEnd::NotSpawned(e) => {
                let mut m = owned("gh gist create failed to spawn: ");
                m.push_str(e.as_str());
                m.push_str(". Is gh on PATH?");
                refused(m.as_str())
            },
            ShareEnd::Exited { code, stderr } => {
                let c: i64 = match code {
                    Some(c) => *c as i64,
                    None => -1,
                };
                let mut m = owned("gh gist create exited ");
                m.push_str(decimal_signed(c).as_str());
                m.push_str(": ");
                m.push_str(trim(stderr.as_str()).as_str());
                refused(m.as_str())
            },
            ShareEnd::Succeeded { stdout } => {
                let mut line = owned("shared: ");
                line.push_str(trim(stdout.as_str()).as_str());
                printed(line)
            },
        }
    }
}

proof fn lemma_last_user(branch: Seq<SessionTreeEntry>, n: int)
    requires
        0 <= n <= branch.len(),
    ensures
        match last_user_pos(branch, n) {
            Some(i) => 0 <= i < n && is_user_message(branch[i]) && forall|j: int|
                i < j < n ==> !is_user_message(#[trigger] branch[j]),
            None => forall|j: int| 0 <= j < n ==> !is_user_message(#[trigger] branch[j]),
        },
    decreases n,
{
    if n > 0 {
        lemma_last_user(branch, n - 1);
    }
}

/// What is undone begins with the newest message of the user: none stands behind it.
pub proof fn law_newest_turn_is_undone(branch: Seq<SessionTreeEntry>, i: int)
    ensures
        last_user_pos(branch, branch.len() as int) == Some(i) <==> {
            &&& 0 <= i < branch.len()
            &&& branch[i] matches SessionTreeEntry::Message {
                message: AgentMessage::Llm(LlmMessage::User(_)),
                ..
            }
            &&& forall|j: int|
                i < j < branch.len() ==> !((#[trigger] branch[j]) matches SessionTreeEntry::Message {
                    message: AgentMessage::Llm(LlmMessage::User(_)),
                    ..
                })
        },
{
    lemma_last_user(branch, branch.len() as int);
    if let Some(k) = last_user_pos(branch, branch.len() as int) {
        assert(is_user_message(branch[k]));
        if 0 <= i < branch.len() && i < k {
            assert(branch[k] is Message);
        }
        if k < i < branch.len() {
            assert(!is_user_message(branch[i]));
        }
        assert forall|j: int| k < j < branch.len() implies !((
        #[trigger] branch[j]) matches SessionTreeEntry::Message {
            message: AgentMessage::Llm(LlmMessage::User(_)),
            ..
        }) by {
            assert(!is_user_message(branch[j]));
        }
    } else if 0 <= i < branch.len() {
        assert(!is_user_message(branch[i]));
    }
}

proof fn lemma_points_prefix(entries: Seq<ForkEntry>, e: ForkEntry, n: int)
    requires
        n <= entries.len(),
    ensures
        points_in(entries.push(e), n) == points_in(entries, n),
    decreases n,
{
    if n > 0 {
        lemma_points_prefix(entries, e, n - 1);
    }
}

/// A session can be forked before each message that has a preview, the newest first; other
/// entries are no such points.
pub proof fn law_fork_points_are_listed_newest_first(entries: Seq<ForkEntry>, e: ForkEntry)
    ensures
        ({
            let before = points_in(entries, entries.len() as int);
            let after = points_in(entries.push(e), entries.len() as int + 1);
            &&& e.preview is None ==> after == before
            &&& e.preview is Some ==> after == seq![(e.id@, e.preview->0@)] + before
        }),
        points_in(Seq::empty(), 0).len() == 0,
{
    lemma_points_prefix(entries, e, entries.len() as int);
}

/// The number of a fork counts the listed messages from one; a number that is not listed is
/// refused, and nothing but a number forks.
pub proof fn law_forks_go_before_the_numbered_message(
    r: ForkPlan,
    argv: Seq<Seq<char>>,
    all: Seq<(Seq<char>, Seq<char>)>,
    n: nat,
)
    requires
        is_fork_plan(r, argv, all),
        argv.len() > 0,
        argv[0] == digits(n),
        n <= usize::MAX,
    ensures
        1 <= n <= all.len() ==> (r matches ForkPlan::Before { entry_id } && entry_id@ == all[n
            - 1].0),
        !(1 <= n <= all.len()) ==> r is Refused,
{
    law_written_numbers_are_read(n, usize::MAX as nat, argv[0], 0);
}

/// A collapse takes the summary that the session has, else one of the model where the session is
/// idle, else none; and what the model is not asked for is not told as its work.
pub proof fn law_collapses_take_the_best_summary(
    run: CollapseRun,
    event: CollapseEvent,
    action: CollapseAction,
    lines: Seq<Seq<char>>,
    stage: CollapseStage,
    summarized: bool,
)
    requires
        collapse_step(run, event, action, lines, stage, summarized),
    ensures
        run.stage is Summary ==> (event matches CollapseEvent::SummaryRead {
            existing: Ok(Some(s)),
            ..
        } ==> (trimmed(s@).len() > 0 ==> (action matches CollapseAction::Collapse { summary }
            && opt_text(summary) == Some(s@)))),
        run.stage is Summary ==> (event matches CollapseEvent::SummaryRead {
            existing,
            streaming,
        } ==> (existing is Err || existing == Ok::<Option<String>, String>(None) ==> (action
            is AskModel <==> !streaming))),
        run.stage is Model ==> (event matches CollapseEvent::ModelAnswered(Ok(Some(s))) ==> (
        summarized && (action matches CollapseAction::Collapse { summary } && opt_text(summary)
            == Some(s@)))),
        run.stage is Model ==> (event matches CollapseEvent::ModelAnswered(Err(_)) ==> (summarized
            == run.summarized && (action matches CollapseAction::Collapse { summary } && summary
            is None) && lines.len() == 1)),
        summarized != run.summarized ==> run.stage is Model && summarized,
        run.stage is Repo ==> (event matches CollapseEvent::RepoOpened(Ok(_)) ==> action
            is OpenSession),
        run.stage is Session ==> (event matches CollapseEvent::SessionOpened(Ok(true)) ==> action
            is ReadSummary),
        action is Finish <==> stage is Done && !(run.stage is Done),
{
}

/// An export leaves the triggers out exactly where it is asked to, and goes to the one path that
/// is given beside that.
pub proof fn law_exports_take_their_path_and_flag(r: SessionPlan, argv: Seq<Seq<char>>)
    requires
        is_export_plan(r, argv),
    ensures
        ({
            let flag = "--exclude-triggers"@;
            let others = argv.filter(|a: Seq<char>| a != flag);
            &&& r is Refused <==> others.len() > 1
            &&& r is Export <==> others.len() <= 1
            &&& r matches SessionPlan::Export { path, exclude_triggers } ==> {
                &&& exclude_triggers <==> argv.contains("--exclude-triggers"@)
                &&& path is Some <==> others.len() == 1
                &&& path is Some ==> path->0@ == others[0]
            }
        }),
{
    let flag = "--exclude-triggers"@;
    law_flags_are_taken_out(argv, flag);
    assert(without_flag(argv, flag) == argv.filter(|a: Seq<char>| a != flag));
}

/// A fork goes through its stages in order: the extensions are asked before the session is
/// created, and nothing follows once its metadata are read.
pub proof fn law_forks_go_in_order(stage: ForkStage)
    ensures
        next_fork_stage(stage) == Some(ForkStage::CreateSession) <==> stage
            == ForkStage::AskExtensions,
        next_fork_stage(stage) == Some(ForkStage::AskExtensions) <==> stage
            == ForkStage::EncodeEntries,
        next_fork_stage(stage) == Some(ForkStage::EncodeEntries) <==> stage == ForkStage::OpenRepo,
        next_fork_stage(stage) == Some(ForkStage::OpenRepo) <==> stage == ForkStage::CollectEntries,
        next_fork_stage(stage) is None <==> stage == ForkStage::ReadMetadata,
{
}

/// The list of fork points shows each message with its own number, counted from one, and the
/// beginning of its own text.
pub proof fn law_fork_points_are_listed_in_order(
    points: Seq<(Seq<char>, Seq<char>)>,
    n: int,
    i: int,
)
    requires
        0 <= i < n <= points.len(),
    ensures
        fork_list(points, n).len() == n + 1,
        points[i].1.len() <= 60 ==> fork_list(points, n)[i + 1] == "  "@ + digits((i + 1) as nat)
            + ") "@ + points[i].1,
        points[i].1.len() > 60 ==> fork_list(points, n)[i + 1] == "  "@ + digits((i + 1) as nat)
            + ") "@ + points[i].1.take(60).push('…'),
    decreases n,
{
    reveal_with_fuel(fork_list, 2);
    if n > 1 {
        if i < n - 1 {
            law_fork_points_are_listed_in_order(points, n - 1, i);
        } else {
            law_fork_points_are_listed_in_order(points, n - 1, 0);
        }
    }
}

} // verus!
