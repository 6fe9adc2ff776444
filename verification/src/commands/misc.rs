//! `/diag`, `/template`, `/compact`, `/bug-report`, `/web-connect`, `/web-disconnect`,
//! `/find`, `/history`, and the text of `/help`.

use crate::bug_report::DiagInputs;
use crate::commands::{
    add_lines, command_info, command_pos, failed, is_error, is_info, law_first_command_answers,
    preview, preview_text, printed, printed_lines, prints, refused, refused_with, refuses,
    resolve_skill_shortcut, resolved_shortcut, shortcut_views, shortcuts, skill_shortcuts,
    CommandInfo, CommandOutcome, Registry, Report, ShortcutView, SkillShortcut, WebRelayAction,
};
use crate::json::{Json, JsonView};
use crate::order::has_text;
use crate::paths::{file_stem, path_file_stem};
use crate::session_tree::{AgentMessage, LlmMessage, SessionTreeEntry, UserBlock, UserContent};
use crate::skill::{source_label, Skill};
use crate::text::{
    char_count, char_replaced, chars_of, contains, contains_text, cut, decimal_size, digits,
    is_white, join, joined, law_joined_texts_hold_their_parts, law_parts_stand_in_the_whole,
    law_texts_are_cut_at_the_first_separator, law_texts_hold_what_their_parts_hold,
    law_written_numbers_are_read, lemma_texts_empty, lemma_texts_push, lowercase_text, occurs_at,
    opt_text, owned, parse_size, parsed_number, replace_char, split_once, split_once_text,
    starts_with, starts_with_text, strip_leading, take_chars, text_of, texts, to_lowercase, trim,
    trimmed, trimmed_end, trimmed_start, without_leading,
};
use vstd::prelude::*;

verus! {

broadcast use {lemma_texts_push, lemma_texts_empty};

/// `/diag`: show the state of the session.
#[derive(Debug)]
pub struct DiagCommand;

/// The lines of `/diag`.
pub open spec fn diag_lines(diag: DiagInputs) -> Seq<Seq<char>> {
    seq![
        Seq::empty(),
        "Diagnostic snapshot:"@,
        "  session       "@ + diag.session_id@,
        "  model         "@ + (match diag.model {
            Some(m) => m@,
            None => "(none)"@,
        }),
        "  thinking      "@ + diag.thinking@,
        "  tools         "@ + digits(diag.tool_count as nat),
        "  skills        "@ + digits(diag.skill_count as nat),
        "  cost          "@ + diag.cost_summary@,
        "  log file      "@ + (match diag.log_path {
            Some(p) => p@,
            None => "(logging disabled)"@,
        }),
        Seq::empty(),
    ]
}

fn labelled(label: &str, value: &str) -> (r: String)
    ensures
        r@ == label@ + value@,
{
    let mut r = owned(label);
    r.push_str(value);
    r
}

fn shown_or<'a>(o: &'a Option<String>, default: &'a str) -> (r: &'a str)
    ensures
        r@ == (match o {
            Some(s) => s@,
            None => default@,
        }),
{
    match o {
        Some(s) => s.as_str(),
        None => default,
    }
}

/// The level of thinking as it is shown, a question mark where it is not known.
pub fn thinking_label(level: &Option<String>) -> (r: String)
    ensures
        r@ == (match level {
            Some(l) => l@,
            None => "?"@,
        }),
{
    owned(shown_or(level, "?"))
}

impl DiagCommand {
    pub fn info(&self) -> (r: CommandInfo)
        ensures
            is_info(r, "diag"@, "show diagnostic info (model, thinking, cost, log path)"@, ""@),
    {
        command_info("diag", "show diagnostic info (model, thinking, cost, log path)", "")
    }

    pub fn run(&self, diag: &DiagInputs) -> (r: Report)
        ensures
            prints(r, diag_lines(*diag)),
    {
        let mut lines: Vec<String> = Vec::new();
        lines.push(String::new());
        lines.push(owned("Diagnostic snapshot:"));
        lines.push(labelled("  session       ", diag.session_id.as_str()));
        lines.push(labelled("  model         ", shown_or(&diag.model, "(none)")));
        lines.push(labelled("  thinking      ", diag.thinking.as_str()));
        lines.push(labelled("  tools         ", decimal_size(diag.tool_count).as_str()));
        lines.push(labelled("  skills        ", decimal_size(diag.skill_count).as_str()));
        lines.push(labelled("  cost          ", diag.cost_summary.as_str()));
        lines.push(labelled("  log file      ", shown_or(&diag.log_path, "(logging disabled)")));
        lines.push(String::new());
        assert(texts(lines@) =~= diag_lines(*diag));
        printed_lines(lines)
    }
}

/// `/template`: list the prompt templates, or run one.
#[derive(Debug)]
pub struct TemplateCommand;

/// A prompt template, as listings show it.
#[derive(Debug)]
pub struct PromptTemplate {
    pub name: String,
    pub description: Option<String>,
}

pub const NO_TEMPLATES: &'static str =
    "(no templates loaded — drop `.md` files under ~/.theway/templates/ or <cwd>/.theway/templates/)";

/// The list of the first `n` templates.
pub open spec fn template_lines(templates: Seq<PromptTemplate>, n: int) -> Seq<Seq<char>>
    decreases n,
{
    if n <= 0 || n > templates.len() {
        seq!["Loaded templates ("@ + digits(templates.len()) + "):"@]
    } else {
        let t = templates[n - 1];
        template_lines(templates, n - 1).push(
            "  /template "@ + t.name@ + "  "@ + (match t.description {
                Some(d) => d@,
                None => ""@,
            }),
        )
    }
}

/// The variables that the first `n` arguments set, each of the form `k=v`, or the first
/// argument that has another form. Of two arguments that set one variable the later holds.
pub open spec fn template_vars(args: Seq<Seq<char>>, n: int) -> Result<
    Map<Seq<char>, JsonView>,
    Seq<char>,
>
    decreases n,
{
    if n <= 0 || n > args.len() {
        Ok(Map::empty())
    } else {
        match template_vars(args, n - 1) {
            Ok(m) => match split_once_text(args[n - 1], "="@) {
                Some((k, v)) => Ok(m.insert(k, JsonView::Str(v))),
                None => Err(args[n - 1]),
            },
            Err(e) => Err(e),
        }
    }
}

proof fn lemma_template_error(args: Seq<Seq<char>>, n: int, m: int)
    requires
        0 <= n <= m <= args.len(),
        template_vars(args, n) is Err,
    ensures
        template_vars(args, m) == template_vars(args, n),
    decreases m - n,
{
    if n < m {
        lemma_template_error(args, n, m - 1);
    }
}

impl TemplateCommand {
    pub fn info(&self) -> (r: CommandInfo)
        ensures
            is_info(
                r,
                "template"@,
                "list templates, or run one with /template <name> [k=v ...]"@,
                "[name] [k=v ...]"@,
            ),
    {
        command_info(
            "template",
            "list templates, or run one with /template <name> [k=v ...]",
            "[name] [k=v ...]",
        )
    }

    fn list(&self, templates: &Vec<PromptTemplate>) -> (r: Report)
        ensures
            prints(
                r,
                if templates@.len() == 0 {
                    seq![NO_TEMPLATES@]
                } else {
                    template_lines(templates@, templates@.len() as int)
                },
            ),
    {
        if templates.len() == 0 {
            return printed(owned(NO_TEMPLATES));
        }
        let mut lines: Vec<String> = Vec::new();
        let mut head = owned("Loaded templates (");
        head.push_str(decimal_size(templates.len()).as_str());
        head.push_str("):");
        lines.push(head);
        let mut i: usize = 0;
        while i < templates.len()
            invariant
                i <= templates@.len(),
                texts(lines@) == template_lines(templates@, i as int),
            decreases templates@.len() - i,
        {
            let t = &templates[i];
            let mut line = owned("  /template ");
            line.push_str(t.name.as_str());
            line.push_str("  ");
            line.push_str(shown_or(&t.description, ""));
            lines.push(line);
            i += 1;
        }
        printed_lines(lines)
    }

    /// The list of the templates without an argument; with one, the run of the template of
    /// that name with the variables that the other arguments set.
    pub fn run(&self, argv: &Vec<String>, templates: &Vec<PromptTemplate>) -> (r: Report)
        ensures
            if argv@.len() == 0 {
                prints(
                    r,
                    if templates@.len() == 0 {
                        seq![NO_TEMPLATES@]
                    } else {
                        template_lines(templates@, templates@.len() as int)
                    },
                )
            } else {
                match template_vars(texts(argv@).skip(1), argv@.len() - 1) {
                    Ok(m) => r.lines@.len() == 0 && (
                    r.outcome matches CommandOutcome::RunPromptTemplate { name, vars } && name@
                        == argv@[0]@ && vars@ == JsonView::Object(m)),
                    Err(arg) => refuses(r, "expected k=v argument; got: "@ + arg),
                }
            },
    {
        if argv.len() == 0 {
            return self.list(templates);
        }
        let ghost args = texts(argv@).skip(1);
        let mut vars = Json::object();
        let mut i: usize = 1;
        while i < argv.len()
            invariant
                1 <= i <= argv@.len(),
                args == texts(argv@).skip(1),
                template_vars(args, i - 1) matches Ok(m) && vars@ == JsonView::Object(m),
            decreases argv@.len() - i,
        {
            assert(args[i - 1] == argv@[i as int]@);
            match split_once(argv[i].as_str(), "=") {
                Some((k, v)) => {
                    vars = vars.with(k.as_str(), Json::text(v.as_str()));
                },
                None => {
                    assert(template_vars(args, i as int) == Err::<
                        Map<Seq<char>, JsonView>,
                        Seq<char>,
                    >(argv@[i as int]@));
                    proof {
                        lemma_template_error(args, i as int, args.len() as int);
                    }
                    return refused_with("expected k=v argument; got: ", argv[i].as_str());
                },
            }
            i += 1;
        }
        Report {
            lines: Vec::new(),
            outcome: CommandOutcome::RunPromptTemplate { name: argv[0].clone(), vars },
        }
    }
}

/// `/compact`: compact the context now.
#[derive(Debug)]
pub struct CompactCommand;

impl CompactCommand {
    pub fn info(&self) -> (r: CommandInfo)
        ensures
            is_info(
                r,
                "compact"@,
                "force a context compaction now (no-op when nothing to summarize)"@,
                "[\"custom instructions\"]"@,
            ),
    {
        command_info(
            "compact",
            "force a context compaction now (no-op when nothing to summarize)",
            "[\"custom instructions\"]",
        )
    }

    /// A compaction, with the arguments as instructions where there are any.
    pub fn run(&self, argv: &Vec<String>) -> (r: CommandOutcome)
        ensures
            r matches CommandOutcome::RunCompaction { custom } && opt_text(custom) == (
            if argv@.len() == 0 {
                None
            } else {
                Some(joined(texts(argv@), " "@))
            }),
    {
        let custom = if argv.len() == 0 {
            None
        } else {
            Some(join(argv, " "))
        };
        CommandOutcome::RunCompaction { custom }
    }
}

/// `/bug-report`: write a diagnostic dump.
#[derive(Debug)]
pub struct BugReportCommand;

impl BugReportCommand {
    pub fn info(&self) -> (r: CommandInfo)
        ensures
            is_info(
                r,
                "bug-report"@,
                "write a redacted diagnostic dump for issue attachment"@,
                ""@,
            ),
    {
        command_info("bug-report", "write a redacted diagnostic dump for issue attachment", "")
    }
}

/// `/web-connect`: mount the session at the public relay.
#[derive(Debug)]
pub struct WebConnectCommand;

impl WebConnectCommand {
    pub fn info(&self) -> (r: CommandInfo)
        ensures
            is_info(
                r,
                "web-connect"@,
                "mount this session at the public relay (watch + prompt via secret URL)"@,
                "[status]"@,
            ),
    {
        command_info(
            "web-connect",
            "mount this session at the public relay (watch + prompt via secret URL)",
            "[status]",
        )
    }

    pub fn run(&self, argv: &Vec<String>) -> (r: CommandOutcome)
        ensures
            if argv@.len() == 0 {
                r matches CommandOutcome::WebRelay(a) && a is Connect
            } else if argv@[0]@ == "status"@ {
                r matches CommandOutcome::WebRelay(a) && a is Status
            } else {
                is_error(r, "unknown /web-connect argument: "@ + argv@[0]@)
            },
    {
        if argv.len() == 0 {
            CommandOutcome::WebRelay(WebRelayAction::Connect)
        } else if argv[0].as_str().eq("status") {
            CommandOutcome::WebRelay(WebRelayAction::Status)
        } else {
            failed("unknown /web-connect argument: ", argv[0].as_str())
        }
    }
}

/// `/web-disconnect`: leave the public relay.
#[derive(Debug)]
pub struct WebDisconnectCommand;

impl WebDisconnectCommand {
    pub fn info(&self) -> (r: CommandInfo)
        ensures
            is_info(
                r,
                "web-disconnect"@,
                "disconnect the public relay and invalidate the session URL"@,
                ""@,
            ),
    {
        command_info(
            "web-disconnect",
            "disconnect the public relay and invalidate the session URL",
            "",
        )
    }

    pub fn run(&self) -> (r: CommandOutcome)
        ensures
            r matches CommandOutcome::WebRelay(a) && a is Disconnect,
    {
        CommandOutcome::WebRelay(WebRelayAction::Disconnect)
    }
}

// `/find`.

/// `/find`: search the sessions of the working directory.
#[derive(Debug)]
pub struct FindCommand;

/// A session file, with its entries where it could be opened.
#[derive(Debug)]
pub struct SessionFile {
    pub path: String,
    pub entries: Option<Vec<SessionTreeEntry>>,
}

/// The texts of the first `n` blocks of a user message.
pub open spec fn block_texts(blocks: Seq<UserBlock>, n: int) -> Seq<Seq<char>>
    decreases n,
{
    if n <= 0 || n > blocks.len() {
        Seq::empty()
    } else {
        match blocks[n - 1] {
            UserBlock::Text(t) => block_texts(blocks, n - 1).push(t@),
            _ => block_texts(blocks, n - 1),
        }
    }
}

/// The text of a prompt or a reply; other messages have none.
pub open spec fn searched_text(message: AgentMessage) -> Option<Seq<char>> {
    match message {
        AgentMessage::Llm(LlmMessage::User(content)) => match content {
            UserContent::Text(s) => Some(s@),
            UserContent::Blocks(blocks) => Some(
                joined(block_texts(blocks@, blocks@.len() as int), " "@),
            ),
        },
        AgentMessage::Llm(LlmMessage::Assistant(a)) => Some(joined(texts(a.texts@), " "@)),
        _ => None,
    }
}

/// The text of a prompt or a reply; other messages have none.
pub fn message_search_text(message: &AgentMessage) -> (r: Option<String>)
    ensures
        opt_text(r) == searched_text(*message),
{
    match message {
        AgentMessage::Llm(LlmMessage::User(content)) => match content {
            UserContent::Text(s) => Some(s.clone()),
            UserContent::Blocks(blocks) => {
                let mut parts: Vec<String> = Vec::new();
                let mut i: usize = 0;
                while i < blocks.len()
                    invariant
                        i <= blocks@.len(),
                        texts(parts@) == block_texts(blocks@, i as int),
                    decreases blocks@.len() - i,
                {
                    if let UserBlock::Text(t) = &blocks[i] {
                        parts.push(t.clone());
                    }
                    i += 1;
                }
                Some(join(&parts, " "))
            },
        },
        AgentMessage::Llm(LlmMessage::Assistant(a)) => Some(join(&a.texts, " ")),
        _ => None,
    }
}

/// The line of a match: the file's name without its extension, and the beginning of the text
/// on one line.
pub open spec fn hit_text(path: Seq<char>, text: Seq<char>) -> Seq<char> {
    "  "@ + (match file_stem(path) {
        Some(stem) => stem,
        None => "?"@,
    }) + "  "@ + char_replaced(cut(text, 120), '\n', ' ')
}

/// The line of a match, where the text in lower case holds the query in lower case.
pub fn hit_line(path: &str, text: &str, lowered: &str, query: &str) -> (r: Option<String>)
    ensures
        opt_text(r) == (if contains_text(lowered@, query@) {
            Some(hit_text(path@, text@))
        } else {
            None
        }),
{
    if !contains(lowered, query) {
        return None;
    }
    let mut line = owned("  ");
    match path_file_stem(path) {
        Some(stem) => line.push_str(stem.as_str()),
        None => line.push_str("?"),
    }
    line.push_str("  ");
    line.push_str(replace_char(take_chars(text, 120).as_str(), '\n', ' ').as_str());
    Some(line)
}

/// The lines of the matches in the first `n` entries of a file.
pub open spec fn entry_hits(
    path: Seq<char>,
    entries: Seq<SessionTreeEntry>,
    query: Seq<char>,
    n: int,
) -> Seq<Seq<char>>
    decreases n,
{
    if n <= 0 || n > entries.len() {
        Seq::empty()
    } else {
        let before = entry_hits(path, entries, query, n - 1);
        match entries[n - 1] {
            SessionTreeEntry::Message { message, .. } => match searched_text(message) {
                Some(text) => if contains_text(lowercase_text(text), query) {
                    before.push(hit_text(path, text))
                } else {
                    before
                },
                None => before,
            },
            _ => before,
        }
    }
}

/// The lines of the matches in the first `n` files.
pub open spec fn file_hits(files: Seq<SessionFile>, query: Seq<char>, n: int) -> Seq<Seq<char>>
    decreases n,
{
    if n <= 0 || n > files.len() {
        Seq::empty()
    } else {
        let before = file_hits(files, query, n - 1);
        match files[n - 1].entries {
            Some(entries) => before + entry_hits(
                files[n - 1].path@,
                entries@,
                query,
                entries@.len() as int,
            ),
            None => before,
        }
    }
}

fn find_in_entries(path: &str, entries: &Vec<SessionTreeEntry>, query: &str) -> (lines: Vec<String>)
    ensures
        texts(lines@) == entry_hits(path@, entries@, query@, entries@.len() as int),
{
    let mut lines: Vec<String> = Vec::new();
    let mut i: usize = 0;
    while i < entries.len()
        invariant
            i <= entries@.len(),
            texts(lines@) == entry_hits(path@, entries@, query@, i as int),
        decreases entries@.len() - i,
    {
        if let SessionTreeEntry::Message { message, .. } = &entries[i] {
            if let Some(text) = message_search_text(message) {
                let lowered = to_lowercase(text.as_str());
                if let Some(line) = hit_line(path, text.as_str(), lowered.as_str(), query) {
                    lines.push(line);
                }
            }
        }
        i += 1;
    }
    lines
}

/// The lines of a search: the matches, and how many there are.
pub open spec fn find_lines(hits: Seq<Seq<char>>) -> Seq<Seq<char>> {
    if hits.len() == 0 {
        seq!["(no matches)"@]
    } else {
        hits.push("("@ + digits(hits.len()) + " match(es))"@)
    }
}

impl FindCommand {
    pub fn info(&self) -> (r: CommandInfo)
        ensures
            is_info(
                r,
                "find"@,
                "search every session in this cwd for prompts/replies containing <query>"@,
                "<query>"@,
            ),
    {
        command_info(
            "find",
            "search every session in this cwd for prompts/replies containing <query>",
            "<query>",
        )
    }

    /// The matches for the arguments, in upper or lower case, among the session files as
    /// they were listed and opened. Files that could not be opened are passed over.
    pub fn run(&self, argv: &Vec<String>, listed: &Result<Vec<SessionFile>, String>) -> (r: Report)
        ensures
            if argv@.len() == 0 {
                refuses(r, "usage: /find <query>"@)
            } else {
                match listed {
                    Ok(files) => prints(
                        r,
                        find_lines(
                            file_hits(
                                files@,
                                lowercase_text(joined(texts(argv@), " "@)),
                                files@.len() as int,
                            ),
                        ),
                    ),
                    Err(e) => refuses(r, "list sessions: "@ + e@),
                }
            },
    {
        if argv.len() == 0 {
            return refused("usage: /find <query>");
        }
        let query = to_lowercase(join(argv, " ").as_str());
        let files = match listed {
            Ok(files) => files,
            Err(e) => {
                return refused_with("list sessions: ", e.as_str());
            },
        };
        let mut lines: Vec<String> = Vec::new();
        let mut i: usize = 0;
        while i < files.len()
            invariant
                i <= files@.len(),
                texts(lines@) == file_hits(files@, query@, i as int),
            decreases files@.len() - i,
        {
            if let Some(entries) = &files[i].entries {
                add_lines(
                    &mut lines,
                    &find_in_entries(files[i].path.as_str(), entries, query.as_str()),
                );
            }
            i += 1;
        }
        assert(texts(lines@).len() == lines@.len());
        if lines.len() == 0 {
            printed(owned("(no matches)"))
        } else {
            let mut last = owned("(");
            last.push_str(decimal_size(lines.len()).as_str());
            last.push_str(" match(es))");
            lines.push(last);
            printed_lines(lines)
        }
    }
}

// `/history`.

/// `/history`: show the prompts submitted last.
#[derive(Debug)]
pub struct HistoryCommand;

/// The line of the prompt with the number `n`.
pub open spec fn history_line(n: nat, entry: Seq<char>) -> Seq<char> {
    "  "@ + digits(n) + ": "@ + cut(entry, 200) + (if entry.len() > 200 {
        "…"@
    } else {
        ""@
    })
}

/// The lines of the prompts from one up to another.
pub open spec fn history_lines(entries: Seq<Seq<char>>, from: int, to: int) -> Seq<Seq<char>>
    decreases to - from,
{
    if from >= to || from < 0 || to > entries.len() {
        Seq::empty()
    } else {
        history_lines(entries, from, to - 1).push(history_line(to as nat, entries[to - 1]))
    }
}

/// How many prompts are asked for: the first argument, or twenty.
pub open spec fn history_limit(argv: Seq<Seq<char>>) -> nat {
    if argv.len() == 0 {
        20
    } else {
        match parsed_number(argv[0], usize::MAX as nat) {
            Some(n) => n,
            None => 20,
        }
    }
}

impl HistoryCommand {
    pub fn info(&self) -> (r: CommandInfo)
        ensures
            is_info(
                r,
                "history"@,
                "show recent submitted prompts from ~/.theway/history"@,
                "[N]"@,
            ),
    {
        command_info("history", "show recent submitted prompts from ~/.theway/history", "[N]")
    }

    /// The last prompts, numbered from the oldest that is kept.
    pub fn run(&self, argv: &Vec<String>, entries: &Vec<String>) -> (r: Report)
        ensures
            ({
                let all = texts(entries@);
                let limit = history_limit(texts(argv@));
                prints(
                    r,
                    if all.len() == 0 {
                        seq!["(no history yet)"@]
                    } else {
                        history_lines(
                            all,
                            if all.len() > limit {
                                all.len() - limit
                            } else {
                                0
                            },
                            all.len() as int,
                        )
                    },
                )
            }),
    {
        let mut limit: usize = 20;
        if argv.len() > 0 {
            assert(texts(argv@)[0] == argv@[0]@);
            if let Some(n) = parse_size(argv[0].as_str()) {
                limit = n;
            }
        }
        if entries.len() == 0 {
            return printed(owned("(no history yet)"));
        }
        let end: usize = entries.len();
        let start: usize = if end > limit {
            end - limit
        } else {
            0
        };
        let ghost all = texts(entries@);
        let mut lines: Vec<String> = Vec::new();
        let mut i: usize = start;
        while i < end
            invariant
                start <= i <= end,
                end == entries@.len(),
                all == texts(entries@),
                texts(lines@) == history_lines(all, start as int, i as int),
            decreases end - i,
        {
            let entry = entries[i].as_str();
            assert(all[i as int] == entry@);
            let mut line = owned("  ");
            line.push_str(decimal_size(i + 1).as_str());
            line.push_str(": ");
            line.push_str(take_chars(entry, 200).as_str());
            line.push_str(
                if char_count(entry) > 200 {
                    "…"
                } else {
                    ""
                },
            );
            lines.push(line);
            i += 1;
        }
        printed_lines(lines)
    }
}

// `/help`.

/// The line of a command in the general help.
pub open spec fn help_line(c: CommandInfo) -> Seq<char> {
    "  /"@ + c.name@ + (if c.usage@.len() == 0 {
        Seq::empty()
    } else {
        " "@ + c.usage@
    }) + "    "@ + c.description@ + (if c.aliases@.len() == 0 {
        Seq::empty()
    } else {
        " (aliases: "@ + joined(texts(c.aliases@), ", "@) + ")"@
    })
}

fn render_help_line(c: &CommandInfo) -> (r: String)
    ensures
        r@ == help_line(*c),
{
    let usage = if c.usage.as_str().is_empty() {
        String::new()
    } else {
        labelled(" ", c.usage.as_str())
    };
    let aliases = if c.aliases.len() == 0 {
        String::new()
    } else {
        let mut a = owned(" (aliases: ");
        a.push_str(join(&c.aliases, ", ").as_str());
        a.push_str(")");
        a
    };
    let mut r = owned("  /");
    r.push_str(c.name.as_str());
    r.push_str(usage.as_str());
    r.push_str("    ");
    r.push_str(c.description.as_str());
    r.push_str(aliases.as_str());
    r
}

/// The lines of the first `n` commands in the general help.
pub open spec fn help_lines(commands: Seq<CommandInfo>, n: int) -> Seq<Seq<char>>
    decreases n,
{
    if n <= 0 || n > commands.len() {
        seq![Seq::empty(), "Commands:"@]
    } else {
        help_lines(commands, n - 1).push(help_line(commands[n - 1]))
    }
}

/// The line of a shortcut in the general help.
pub open spec fn shortcut_line(s: ShortcutView) -> Seq<char> {
    "  "@ + s.command + " [prompt]    use loaded skill ("@ + source_label(s.source) + ")"@ + (
    if s.description.len() == 0 {
        Seq::empty()
    } else {
        " — "@ + s.description
    })
}

/// The lines of the first `n` shortcuts in the general help.
pub open spec fn shortcut_lines(v: Seq<ShortcutView>, n: int) -> Seq<Seq<char>>
    decreases n,
{
    if n <= 0 || n > v.len() {
        seq![Seq::empty(), "Skill commands:"@]
    } else {
        shortcut_lines(v, n - 1).push(shortcut_line(v[n - 1]))
    }
}

fn render_shortcuts(v: &Vec<SkillShortcut>) -> (lines: Vec<String>)
    ensures
        texts(lines@) == shortcut_lines(shortcut_views(v@), v@.len() as int),
{
    let mut lines: Vec<String> = Vec::new();
    lines.push(String::new());
    lines.push(owned("Skill commands:"));
    let ghost views = shortcut_views(v@);
    assert(texts(lines@) =~= shortcut_lines(views, 0));
    let mut i: usize = 0;
    while i < v.len()
        invariant
            i <= v@.len(),
            views == shortcut_views(v@),
            texts(lines@) == shortcut_lines(views, i as int),
        decreases v@.len() - i,
    {
        let s = &v[i];
        let description = if s.description.as_str().is_empty() {
            String::new()
        } else {
            labelled(" — ", s.description.as_str())
        };
        let mut line = owned("  ");
        line.push_str(s.command.as_str());
        line.push_str(" [prompt]    use loaded skill (");
        line.push_str(s.source.label());
        line.push_str(")");
        line.push_str(description.as_str());
        assert(line@ == shortcut_line(views[i as int]));
        lines.push(line);
        i += 1;
    }
    lines
}

/// The general help: the commands, the skills that can be invoked, and the models.
pub open spec fn general_help(
    commands: Seq<CommandInfo>,
    skills: Seq<Skill>,
    model_lines: Seq<Seq<char>>,
) -> Seq<char> {
    let listed = shortcuts(skills, commands);
    joined(
        ((help_lines(commands, commands.len() as int) + (if listed.len() == 0 {
            Seq::empty()
        } else {
            shortcut_lines(listed, listed.len() as int)
        })).push(Seq::empty()).push("Models:"@) + model_lines).push(Seq::empty()).push(
            "Anything else is sent as a prompt to the agent."@,
        ).push(Seq::empty()),
        "\n"@,
    )
}

fn general_help_text(registry: &Registry, skills: &Vec<Skill>, model_lines: &Vec<String>) -> (r:
    String)
    ensures
        r@ == general_help(registry.commands@, skills@, texts(model_lines@)),
{
    let mut lines: Vec<String> = Vec::new();
    lines.push(String::new());
    lines.push(owned("Commands:"));
    assert(texts(lines@) =~= help_lines(registry.commands@, 0));
    let mut i: usize = 0;
    while i < registry.commands.len()
        invariant
            i <= registry.commands@.len(),
            texts(lines@) == help_lines(registry.commands@, i as int),
        decreases registry.commands@.len() - i,
    {
        lines.push(render_help_line(&registry.commands[i]));
        i += 1;
    }
    let listed = skill_shortcuts(skills, registry);
    assert(shortcut_views(listed@).len() == listed@.len());
    let ghost head = texts(lines@);
    if listed.len() > 0 {
        add_lines(&mut lines, &render_shortcuts(&listed));
    } else {
        assert(head + Seq::<Seq<char>>::empty() =~= head);
    }
    let blank = String::new();
    assert(blank@ =~= Seq::empty());
    lines.push(blank);
    lines.push(owned("Models:"));
    add_lines(&mut lines, model_lines);
    let blank = String::new();
    assert(blank@ =~= Seq::empty());
    lines.push(blank);
    lines.push(owned("Anything else is sent as a prompt to the agent."));
    let blank = String::new();
    assert(blank@ =~= Seq::empty());
    lines.push(blank);
    join(&lines, "\n")
}

/// The names that complete a topic, among the first `n` commands.
pub open spec fn command_suggestions(commands: Seq<CommandInfo>, topic: Seq<char>, n: int) -> Seq<
    Seq<char>,
>
    decreases n,
{
    if n <= 0 || n > commands.len() {
        Seq::empty()
    } else {
        let c = commands[n - 1];
        let before = command_suggestions(commands, topic, n - 1);
        if starts_with_text(c.name@, topic) || texts(c.aliases@).contains(topic) {
            before.push("/"@ + c.name@)
        } else {
            before
        }
    }
}

/// A text without its first character.
pub open spec fn without_first(s: Seq<char>) -> Seq<char> {
    if s.len() > 0 {
        s.skip(1)
    } else {
        s
    }
}

/// The shortcuts that complete a topic, among the first `n`.
pub open spec fn shortcut_suggestions(v: Seq<ShortcutView>, topic: Seq<char>, n: int) -> Seq<
    Seq<char>,
>
    decreases n,
{
    if n <= 0 || n > v.len() {
        Seq::empty()
    } else {
        let before = shortcut_suggestions(v, topic, n - 1);
        if starts_with_text(without_first(v[n - 1].command), topic) {
            before.push(v[n - 1].command)
        } else {
            before
        }
    }
}

/// At most five completions of a topic, commands first.
pub open spec fn suggestions(
    commands: Seq<CommandInfo>,
    skills: Seq<Skill>,
    topic: Seq<char>,
) -> Seq<Seq<char>> {
    let listed = shortcuts(skills, commands);
    let all = command_suggestions(commands, topic, commands.len() as int) + shortcut_suggestions(
        listed,
        topic,
        listed.len() as int,
    );
    if all.len() <= 5 {
        all
    } else {
        all.take(5)
    }
}

fn drop_first(s: &str) -> (r: String)
    ensures
        r@ == without_first(s@),
{
    let v = chars_of(s);
    let end: usize = v.len();
    if end > 0 {
        assert(v@.subrange(1, end as int) =~= v@.skip(1));
        text_of(&v, 1, end)
    } else {
        owned(s)
    }
}

fn suggest(registry: &Registry, skills: &Vec<Skill>, topic: &str) -> (r: Vec<String>)
    ensures
        texts(r@) == suggestions(registry.commands@, skills@, topic@),
{
    let mut r: Vec<String> = Vec::new();
    let mut i: usize = 0;
    while i < registry.commands.len()
        invariant
            i <= registry.commands@.len(),
            texts(r@) == command_suggestions(registry.commands@, topic@, i as int),
        decreases registry.commands@.len() - i,
    {
        let c = &registry.commands[i];
        if starts_with(c.name.as_str(), topic) || has_text(&c.aliases, topic) {
            r.push(labelled("/", c.name.as_str()));
        }
        i += 1;
    }
    let listed = skill_shortcuts(skills, registry);
    let ghost views = shortcut_views(listed@);
    let ghost found = texts(r@);
    let mut k: usize = 0;
    assert(found + shortcut_suggestions(views, topic@, 0) =~= found);
    while k < listed.len()
        invariant
            k <= listed@.len(),
            views == shortcut_views(listed@),
            texts(r@) == found + shortcut_suggestions(views, topic@, k as int),
        decreases listed@.len() - k,
    {
        let command = listed[k].command.as_str();
        let ghost before = shortcut_suggestions(views, topic@, k as int);
        assert(views[k as int].command == command@);
        if starts_with(drop_first(command).as_str(), topic) {
            r.push(owned(command));
            assert(found + before.push(command@) =~= (found + before).push(command@));
        }
        k += 1;
    }
    let ghost all = texts(r@);
    assert(all.len() == r@.len());
    if r.len() > 5 {
        r.truncate(5);
        assert(texts(r@) =~= all.take(5));
    }
    r
}

/// The lines of the help on a skill that a topic invokes.
pub open spec fn skill_help_lines(skill: Skill, topic: Seq<char>) -> Seq<Seq<char>> {
    seq![
        "/"@ + topic + " [prompt]"@,
        "  use loaded skill '"@ + skill.name@ + "' ("@ + source_label(skill.source) + ")"@,
    ] + (if skill.description@.len() == 0 {
        Seq::empty()
    } else {
        seq!["  "@ + preview(skill.description@, 120)]
    }) + seq!["  equivalent: /skill "@ + skill.name@]
}

/// The help on a name that no command answers to: the skill that it invokes, or names that
/// complete it.
pub open spec fn unknown_help(
    commands: Seq<CommandInfo>,
    skills: Seq<Skill>,
    topic: Seq<char>,
) -> Seq<char> {
    match resolved_shortcut(skills, commands, topic) {
        Ok(Some(i)) => {
            joined(skill_help_lines(skills[i], topic), "\n"@)
        },
        _ => {
            let found = suggestions(commands, skills, topic);
            "unknown help topic: "@ + topic + "\n"@ + (if found.len() == 0 {
                "Run /help to list commands or /help models for the model catalog."@
            } else {
                "Did you mean "@ + joined(found, ", "@) + "?"@
            })
        },
    }
}

/// The aliases of a command, each with a slash.
pub open spec fn slashed(aliases: Seq<Seq<char>>, n: int) -> Seq<Seq<char>>
    decreases n,
{
    if n <= 0 || n > aliases.len() {
        Seq::empty()
    } else {
        slashed(aliases, n - 1).push("/"@ + aliases[n - 1])
    }
}

/// The lines of the help on a command.
pub open spec fn command_help_lines(c: CommandInfo) -> Seq<Seq<char>> {
    seq![
        if c.usage@.len() == 0 {
            "/"@ + c.name@
        } else {
            "/"@ + c.name@ + " "@ + c.usage@
        },
        "  "@ + c.description@,
    ] + (if c.aliases@.len() == 0 {
        Seq::empty()
    } else {
        seq![
            "  aliases: "@ + joined(
                slashed(texts(c.aliases@), c.aliases@.len() as int),
                ", "@,
            ),
        ]
    }) + seq![
        if c.name@ == "help"@ {
            "  examples: /help model, /help /quit, /help models"@
        } else {
            "  more: /help "@ + c.name@
        },
    ]
}

/// The help on a command.
pub open spec fn command_help(c: CommandInfo) -> Seq<char> {
    joined(command_help_lines(c), "\n"@)
}

fn slash_all(aliases: &Vec<String>) -> (r: Vec<String>)
    ensures
        texts(r@) == slashed(texts(aliases@), aliases@.len() as int),
{
    let mut r: Vec<String> = Vec::new();
    let mut i: usize = 0;
    let ghost all = texts(aliases@);
    while i < aliases.len()
        invariant
            i <= aliases@.len(),
            all == texts(aliases@),
            texts(r@) == slashed(all, i as int),
        decreases aliases@.len() - i,
    {
        r.push(labelled("/", aliases[i].as_str()));
        assert(all[i as int] == aliases@[i as int]@);
        i += 1;
    }
    r
}

fn known_help_text(c: &CommandInfo) -> (r: String)
    ensures
        r@ == command_help(*c),
{
    let mut lines: Vec<String> = Vec::new();
    let mut usage = labelled("/", c.name.as_str());
    if !c.usage.as_str().is_empty() {
        usage.push_str(" ");
        usage.push_str(c.usage.as_str());
    }
    lines.push(usage);
    lines.push(labelled("  ", c.description.as_str()));
    if c.aliases.len() > 0 {
        lines.push(labelled("  aliases: ", join(&slash_all(&c.aliases), ", ").as_str()));
    }
    if c.name.as_str().eq("help") {
        lines.push(owned("  examples: /help model, /help /quit, /help models"));
    } else {
        lines.push(labelled("  more: /help ", c.name.as_str()));
    }
    assert(texts(lines@) =~= command_help_lines(*c));
    join(&lines, "\n")
}

fn unknown_help_text(registry: &Registry, topic: &str, skills: &Vec<Skill>) -> (r: String)
    ensures
        r@ == unknown_help(registry.commands@, skills@, topic@),
{
    if let Ok(Some(i)) = resolve_skill_shortcut(skills, registry, topic) {
        let skill = &skills[i];
        let mut lines: Vec<String> = Vec::new();
        let mut first = labelled("/", topic);
        first.push_str(" [prompt]");
        lines.push(first);
        let mut second = labelled("  use loaded skill '", skill.name.as_str());
        second.push_str("' (");
        second.push_str(skill.source.label());
        second.push_str(")");
        lines.push(second);
        if !skill.description.as_str().is_empty() {
            lines.push(labelled("  ", preview_text(skill.description.as_str(), 120).as_str()));
        }
        lines.push(labelled("  equivalent: /skill ", skill.name.as_str()));
        assert(texts(lines@) =~= skill_help_lines(*skill, topic@));
        return join(&lines, "\n");
    }
    let found = suggest(registry, skills, topic);
    assert(texts(found@).len() == found@.len());
    let mut r = labelled("unknown help topic: ", topic);
    r.push_str("\n");
    if found.len() == 0 {
        r.push_str("Run /help to list commands or /help models for the model catalog.");
    } else {
        let mut s = labelled("Did you mean ", join(&found, ", ").as_str());
        s.push_str("?");
        r.push_str(s.as_str());
    }
    r
}

/// The help on a topic, a name with or without slashes before it; the general help where
/// there is none.
pub open spec fn help(
    commands: Seq<CommandInfo>,
    topic: Option<Seq<char>>,
    skills: Seq<Skill>,
    model_catalog: Seq<char>,
    model_lines: Seq<Seq<char>>,
) -> Seq<char> {
    if topic is None || trimmed(topic->0).len() == 0 {
        general_help(commands, skills, model_lines)
    } else {
        let name = without_leading(trimmed(topic->0), '/');
        if name == "models"@ {
            model_catalog
        } else {
            match command_pos(commands, name, 0) {
                Some(i) => command_help(commands[i]),
                None => unknown_help(commands, skills, name),
            }
        }
    }
}

/// The text of `/help`, given the catalog of the models and its summary.
pub fn help_text_with_skills(
    registry: &Registry,
    topic: &Option<String>,
    skills: &Vec<Skill>,
    model_catalog: &str,
    model_lines: &Vec<String>,
) -> (r: String)
    ensures
        r@ == help(
            registry.commands@,
            opt_text(*topic),
            skills@,
            model_catalog@,
            texts(model_lines@),
        ),
{
    let name = match topic {
        Some(t) => trim(t.as_str()),
        None => {
            return general_help_text(registry, skills, model_lines);
        },
    };
    if name.as_str().is_empty() {
        return general_help_text(registry, skills, model_lines);
    }
    let name = strip_leading(name.as_str(), '/');
    if name.as_str().eq("models") {
        return owned(model_catalog);
    }
    match registry.find(name.as_str()) {
        Some(i) => known_help_text(&registry.commands[i]),
        None => unknown_help_text(registry, name.as_str(), skills),
    }
}

/// The text of `/help` where no skill is loaded.
pub fn help_text(
    registry: &Registry,
    topic: &Option<String>,
    model_catalog: &str,
    model_lines: &Vec<String>,
) -> (r: String)
    ensures
        r@ == help(
            registry.commands@,
            opt_text(*topic),
            Seq::empty(),
            model_catalog@,
            texts(model_lines@),
        ),
{
    let none: Vec<Skill> = Vec::new();
    help_text_with_skills(registry, topic, &none, model_catalog, model_lines)
}

/// A topic is found with or without a slash before it.
pub proof fn law_help_ignores_a_slash(
    commands: Seq<CommandInfo>,
    topic: Seq<char>,
    skills: Seq<Skill>,
    model_catalog: Seq<char>,
    model_lines: Seq<Seq<char>>,
)
    requires
        trimmed(topic) == topic,
        topic.len() > 0,
    ensures
        help(commands, Some(seq!['/'] + topic), skills, model_catalog, model_lines) == help(
            commands,
            Some(topic),
            skills,
            model_catalog,
            model_lines,
        ),
{
    let slashed_topic = seq!['/'] + topic;
    lemma_trimmed_ends(topic);
    assert(slashed_topic.last() == topic.last());
    assert(trimmed(slashed_topic) == slashed_topic);
    assert(slashed_topic.skip(1) =~= topic);
}

proof fn lemma_trimmed_end_is_no_longer(s: Seq<char>)
    ensures
        trimmed_end(s).len() <= s.len(),
    decreases s.len(),
{
    if s.len() > 0 {
        lemma_trimmed_end_is_no_longer(s.drop_last());
    }
}

proof fn lemma_trimmed_start_is_no_longer(s: Seq<char>)
    ensures
        trimmed_start(s).len() <= s.len(),
    decreases s.len(),
{
    if s.len() > 0 {
        lemma_trimmed_start_is_no_longer(s.skip(1));
    }
}

proof fn lemma_trimmed_ends(s: Seq<char>)
    requires
        trimmed(s) == s,
        s.len() > 0,
    ensures
        !is_white(s.last()),
{
    lemma_trimmed_start_is_no_longer(s);
    let t = trimmed_start(s);
    lemma_trimmed_end_is_no_longer(t);
    if is_white(s[0]) {
        lemma_trimmed_start_is_no_longer(s.skip(1));
    }
    assert(t == s);
    if is_white(s.last()) {
        lemma_trimmed_end_is_no_longer(s.drop_last());
    }
}

proof fn lemma_vars_prefix(args: Seq<Seq<char>>, arg: Seq<char>, n: int)
    requires
        n <= args.len(),
    ensures
        template_vars(args.push(arg), n) == template_vars(args, n),
    decreases n,
{
    if n > 0 {
        lemma_vars_prefix(args, arg, n - 1);
    }
}

/// A variable of a template has the value behind the first equals sign of its argument; a later
/// argument takes the place of an earlier one of the same name.
pub proof fn law_template_variables_are_set(
    args: Seq<Seq<char>>,
    vars: Map<Seq<char>, JsonView>,
    key: Seq<char>,
    value: Seq<char>,
)
    requires
        template_vars(args, args.len() as int) == Ok::<Map<Seq<char>, JsonView>, Seq<char>>(vars),
        !key.contains('='),
    ensures
        template_vars(args.push(key + "="@ + value), args.len() as int + 1) == Ok::<
            Map<Seq<char>, JsonView>,
            Seq<char>,
        >(vars.insert(key, JsonView::Str(value))),
{
    let arg = key + "="@ + value;
    lemma_vars_prefix(args, arg, args.len() as int);
    reveal_strlit("=");
    assert forall|j: int| 0 <= j < key.len() implies !#[trigger] occurs_at(arg, "="@, j) by {
        if occurs_at(arg, "="@, j) {
            assert(arg.subrange(j, j + 1)[0] == arg[j]);
            assert(arg[j] == key[j]);
            assert(key.contains(key[j]));
        }
    }
    law_texts_are_cut_at_the_first_separator(key, "="@, value);
}

proof fn lemma_hits_prefix(
    path: Seq<char>,
    entries: Seq<SessionTreeEntry>,
    e: SessionTreeEntry,
    query: Seq<char>,
    n: int,
)
    requires
        n <= entries.len(),
    ensures
        entry_hits(path, entries.push(e), query, n) == entry_hits(path, entries, query, n),
    decreases n,
{
    if n > 0 {
        lemma_hits_prefix(path, entries, e, query, n - 1);
    }
}

/// A message is found exactly where its text holds what is searched for, whatever the case of
/// its letters, and stands behind the messages before it.
pub proof fn law_messages_are_found_by_their_text(
    path: Seq<char>,
    entries: Seq<SessionTreeEntry>,
    id: String,
    parent_id: Option<String>,
    message: AgentMessage,
    query: Seq<char>,
)
    ensures
        ({
            let e = SessionTreeEntry::Message { id, parent_id, message };
            let before = entry_hits(path, entries, query, entries.len() as int);
            let after = entry_hits(path, entries.push(e), query, entries.len() as int + 1);
            &&& (searched_text(message) matches Some(text) && contains_text(
                lowercase_text(text),
                query,
            )) ==> after == before.push(hit_text(path, searched_text(message)->0))
            &&& !(searched_text(message) matches Some(text) && contains_text(
                lowercase_text(text),
                query,
            )) ==> after == before
        }),
        message matches AgentMessage::Llm(LlmMessage::User(UserContent::Text(s))) ==> searched_text(
            message,
        ) == Some(s@),
        message is Custom ==> searched_text(message) is None,
{
    lemma_hits_prefix(
        path,
        entries,
        SessionTreeEntry::Message { id, parent_id, message },
        query,
        entries.len() as int,
    );
}

/// The history shows its entries in order, each under its own number counted from one.
pub proof fn law_history_is_numbered(entries: Seq<Seq<char>>, from: int, to: int, k: int)
    requires
        0 <= from <= to <= entries.len(),
        0 <= k < to - from,
    ensures
        history_lines(entries, from, to).len() == to - from,
        history_lines(entries, from, to)[k] == history_line(
            (from + k + 1) as nat,
            entries[from + k],
        ),
    decreases to - from,
{
    reveal_with_fuel(history_lines, 2);
    if k < to - 1 - from {
        law_history_is_numbered(entries, from, to - 1, k);
    } else if from < to - 1 {
        law_history_is_numbered(entries, from, to - 1, 0);
    }
}

/// Help on a command is help on the command that answers to the name.
pub proof fn law_help_tells_of_the_named_command(
    commands: Seq<CommandInfo>,
    topic: Seq<char>,
    skills: Seq<Skill>,
    model_catalog: Seq<char>,
    model_lines: Seq<Seq<char>>,
    i: int,
)
    requires
        trimmed(topic) == topic,
        topic.len() > 0,
        topic[0] != '/',
        topic != "models"@,
        command_pos(commands, topic, 0) == Some(i),
    ensures
        help(commands, Some(topic), skills, model_catalog, model_lines) == command_help(
            commands[i],
        ),
        0 <= i < commands.len(),
        contains_text(command_help(commands[i]), "/"@ + commands[i].name@),
        contains_text(command_help(commands[i]), commands[i].description@),
{
    law_first_command_answers(commands, topic, i);
    let c = commands[i];
    let lines = command_help_lines(c);
    let none = Seq::<char>::empty();
    law_joined_texts_hold_their_parts(lines, "\n"@, 0);
    law_joined_texts_hold_their_parts(lines, "\n"@, 1);
    let whole = joined(lines, "\n"@);
    let name = "/"@ + c.name@;
    if c.usage@.len() > 0 {
        law_parts_stand_in_the_whole(none, name, " "@ + c.usage@);
        assert(none + name + (" "@ + c.usage@) =~= lines[0]);
    } else {
        law_parts_stand_in_the_whole(none, name, none);
        assert(none + name + none =~= lines[0]);
    }
    law_texts_hold_what_their_parts_hold(whole, lines[0], name);
    law_parts_stand_in_the_whole("  "@, c.description@, none);
    assert("  "@ + c.description@ + none =~= lines[1]);
    law_texts_hold_what_their_parts_hold(whole, lines[1], c.description@);
}

/// Whether a topic is the start of the name of a command, or one of its other names.
pub open spec fn completes(c: CommandInfo, topic: Seq<char>) -> bool {
    starts_with_text(c.name@, topic) || (exists|a: int|
        0 <= a < c.aliases@.len() && (#[trigger] c.aliases@[a])@ == topic)
}

proof fn lemma_command_suggestions(commands: Seq<CommandInfo>, topic: Seq<char>, n: int)
    requires
        0 <= n <= commands.len(),
    ensures
        command_suggestions(commands, topic, n).len() <= n,
        forall|j: int|
            0 <= j < command_suggestions(commands, topic, n).len() ==> exists|k: int|
                0 <= k < n && completes(#[trigger] commands[k], topic) && (
                #[trigger] command_suggestions(commands, topic, n)[j]) == "/"@ + commands[k].name@,
        forall|k: int|
            0 <= k < n && completes(#[trigger] commands[k], topic) ==> command_suggestions(
                commands,
                topic,
                n,
            ).contains("/"@ + commands[k].name@),
    decreases n,
{
    if n > 0 {
        lemma_command_suggestions(commands, topic, n - 1);
        let before = command_suggestions(commands, topic, n - 1);
        let now = command_suggestions(commands, topic, n);
        let c = commands[n - 1];
        assert(texts(c.aliases@).contains(topic) <==> exists|a: int|
            0 <= a < c.aliases@.len() && (#[trigger] c.aliases@[a])@ == topic) by {
            if texts(c.aliases@).contains(topic) {
                let a = choose|a: int|
                    0 <= a < texts(c.aliases@).len() && texts(c.aliases@)[a] == topic;
                assert(c.aliases@[a]@ == topic);
            }
            if exists|a: int| 0 <= a < c.aliases@.len() && (#[trigger] c.aliases@[a])@ == topic {
                let a = choose|a: int|
                    0 <= a < c.aliases@.len() && (#[trigger] c.aliases@[a])@ == topic;
                assert(texts(c.aliases@)[a] == topic);
            }
        }
        assert forall|k: int|
            0 <= k < n && completes(#[trigger] commands[k], topic) implies now.contains(
            "/"@ + commands[k].name@,
        ) by {
            if k < n - 1 {
                let j = choose|j: int|
                    0 <= j < before.len() && before[j] == "/"@ + commands[k].name@;
                assert(now[j] == "/"@ + commands[k].name@);
            } else {
                assert(now[before.len() as int] == "/"@ + commands[k].name@);
            }
        }
        assert forall|j: int| 0 <= j < now.len() implies exists|k: int|
            0 <= k < n && completes(#[trigger] commands[k], topic) && (#[trigger] now[j]) == "/"@
                + commands[k].name@ by {
            if j < before.len() {
                assert(now[j] == before[j]);
                let k = choose|k: int|
                    0 <= k < n - 1 && completes(#[trigger] commands[k], topic) && before[j] == "/"@
                        + commands[k].name@;
                assert(completes(commands[k], topic));
            } else {
                assert(completes(commands[n - 1], topic));
            }
        }
    }
}

/// At most five completions are offered. A command that the topic completes is among them
/// unless five are; and each is the name of a command that the topic completes, or the shortcut
/// of a skill that begins with the topic.
pub proof fn law_completions_are_few_and_fit(
    commands: Seq<CommandInfo>,
    skills: Seq<Skill>,
    topic: Seq<char>,
    k: int,
)
    requires
        0 <= k < commands.len(),
    ensures
        suggestions(commands, skills, topic).len() <= 5,
        completes(commands[k], topic) ==> suggestions(commands, skills, topic).contains(
            "/"@ + commands[k].name@,
        ) || suggestions(commands, skills, topic).len() == 5,
        forall|j: int|
            0 <= j < suggestions(commands, skills, topic).len() ==> (exists|c: int|
                0 <= c < commands.len() && completes(#[trigger] commands[c], topic) && (
                #[trigger] suggestions(commands, skills, topic)[j]) == "/"@ + commands[c].name@)
                || (exists|h: int|
                0 <= h < shortcuts(skills, commands).len() && suggestions(commands, skills, topic)[j]
                    == (#[trigger] shortcuts(skills, commands)[h]).command && starts_with_text(
                    without_first(shortcuts(skills, commands)[h].command),
                    topic,
                )),
{
    let listed = shortcuts(skills, commands);
    let first = command_suggestions(commands, topic, commands.len() as int);
    let second = shortcut_suggestions(listed, topic, listed.len() as int);
    let all = first + second;
    let out = suggestions(commands, skills, topic);
    lemma_command_suggestions(commands, topic, commands.len() as int);
    lemma_shortcut_suggestions(listed, topic, listed.len() as int);
    if completes(commands[k], topic) && out.len() < 5 {
        let j = choose|j: int| 0 <= j < first.len() && first[j] == "/"@ + commands[k].name@;
        assert(out[j] == "/"@ + commands[k].name@);
    }
    assert forall|j: int| 0 <= j < out.len() implies (exists|c: int|
        0 <= c < commands.len() && completes(#[trigger] commands[c], topic) && (#[trigger] out[j])
            == "/"@ + commands[c].name@) || (exists|h: int|
        0 <= h < listed.len() && out[j] == (#[trigger] listed[h]).command && starts_with_text(
            without_first(listed[h].command),
            topic,
        )) by {
        assert(out[j] == all[j]);
        if j < first.len() {
            assert(out[j] == first[j]);
        } else {
            assert(out[j] == second[j - first.len()]);
        }
    }
}

proof fn lemma_shortcut_suggestions(v: Seq<ShortcutView>, topic: Seq<char>, n: int)
    requires
        0 <= n <= v.len(),
    ensures
        forall|j: int|
            0 <= j < shortcut_suggestions(v, topic, n).len() ==> exists|h: int|
                0 <= h < n && (#[trigger] shortcut_suggestions(v, topic, n)[j]) == (
                #[trigger] v[h]).command && starts_with_text(without_first(v[h].command), topic),
    decreases n,
{
    if n > 0 {
        lemma_shortcut_suggestions(v, topic, n - 1);
        let before = shortcut_suggestions(v, topic, n - 1);
        let now = shortcut_suggestions(v, topic, n);
        assert forall|j: int| 0 <= j < now.len() implies exists|h: int|
            0 <= h < n && (#[trigger] now[j]) == (#[trigger] v[h]).command && starts_with_text(
                without_first(v[h].command),
                topic,
            ) by {
            if j < before.len() {
                assert(now[j] == before[j]);
                let h = choose|h: int|
                    0 <= h < n - 1 && before[j] == (#[trigger] v[h]).command && starts_with_text(
                        without_first(v[h].command),
                        topic,
                    );
                assert(v[h].command == now[j]);
            } else {
                assert(v[n - 1].command == now[j]);
            }
        }
    }
}

/// Whether an entry is a message that holds a query, in upper or lower case, and a line shows
/// it as one of a file.
pub open spec fn shows_entry(
    line: Seq<char>,
    path: Seq<char>,
    entry: SessionTreeEntry,
    query: Seq<char>,
) -> bool {
    entry matches SessionTreeEntry::Message { message, .. } && searched_text(message) is Some
        && contains_text(lowercase_text(searched_text(message)->0), query) && line == hit_text(
        path,
        searched_text(message)->0,
    )
}

/// Whether a line shows an entry of a file.
pub open spec fn shows_file(line: Seq<char>, file: SessionFile, query: Seq<char>) -> bool {
    file.entries is Some && exists|k: int|
        0 <= k < (file.entries->0)@.len() && shows_entry(
            line,
            file.path@,
            #[trigger] (file.entries->0)@[k],
            query,
        )
}

proof fn lemma_entry_hits(
    path: Seq<char>,
    entries: Seq<SessionTreeEntry>,
    query: Seq<char>,
    n: int,
    line: Seq<char>,
)
    requires
        0 <= n <= entries.len(),
    ensures
        entry_hits(path, entries, query, n).contains(line) <==> exists|k: int|
            0 <= k < n && shows_entry(line, path, #[trigger] entries[k], query),
    decreases n,
{
    if n > 0 {
        lemma_entry_hits(path, entries, query, n - 1, line);
        let before = entry_hits(path, entries, query, n - 1);
        let now = entry_hits(path, entries, query, n);
        if before.contains(line) {
            let j = choose|j: int| 0 <= j < before.len() && before[j] == line;
            assert(now[j] == line);
        }
        if shows_entry(line, path, entries[n - 1], query) {
            assert(now[before.len() as int] == line);
        }
        if now.contains(line) && !before.contains(line) {
            let j = choose|j: int| 0 <= j < now.len() && now[j] == line;
            if j < before.len() {
                assert(before[j] == line);
            }
            assert(shows_entry(line, path, entries[n - 1], query));
        }
    }
}

proof fn lemma_file_hits(files: Seq<SessionFile>, query: Seq<char>, n: int, line: Seq<char>)
    requires
        0 <= n <= files.len(),
    ensures
        file_hits(files, query, n).contains(line) <==> exists|i: int|
            0 <= i < n && shows_file(line, #[trigger] files[i], query),
    decreases n,
{
    if n > 0 {
        lemma_file_hits(files, query, n - 1, line);
        let before = file_hits(files, query, n - 1);
        let now = file_hits(files, query, n);
        if files[n - 1].entries is Some {
            let entries = (files[n - 1].entries->0)@;
            let path = files[n - 1].path@;
            let own = entry_hits(path, entries, query, entries.len() as int);
            lemma_entry_hits(path, entries, query, entries.len() as int, line);
            assert(now == before + own);
            if own.contains(line) {
                let j = choose|j: int| 0 <= j < own.len() && own[j] == line;
                assert(now[before.len() + j] == line);
            }
            if before.contains(line) {
                let j = choose|j: int| 0 <= j < before.len() && before[j] == line;
                assert(now[j] == line);
            }
            if now.contains(line) {
                let j = choose|j: int| 0 <= j < now.len() && now[j] == line;
                if j < before.len() {
                    assert(before[j] == line);
                } else {
                    assert(own[j - before.len()] == line);
                }
            }
            assert(shows_file(line, files[n - 1], query) <==> own.contains(line));
        }
    }
}

/// A search tells of every message that holds the query, in upper or lower case, and of no
/// other, each with the name of the file that it stands in.
pub proof fn law_searches_find_what_holds_the_query(
    files: Seq<SessionFile>,
    query: Seq<char>,
    line: Seq<char>,
)
    ensures
        file_hits(files, query, files.len() as int).contains(line) <==> exists|i: int|
            0 <= i < files.len() && shows_file(line, #[trigger] files[i], query),
{
    lemma_file_hits(files, query, files.len() as int, line);
}

/// The line of a match begins with the name of its file and ends with the beginning of its
/// text, on one line.
pub proof fn law_matches_name_their_file(path: Seq<char>, text: Seq<char>, stem: Seq<char>)
    requires
        file_stem(path) == Some(stem),
        text.len() <= 120,
        !text.contains('\n'),
    ensures
        hit_text(path, text) == "  "@ + stem + "  "@ + text,
{
    assert(cut(text, 120) =~= text);
    assert forall|i: int| 0 <= i < text.len() implies #[trigger] text[i] != '\n' by {
        assert(text.contains(text[i]));
    }
    assert(char_replaced(text, '\n', ' ') =~= text);
}

/// As many prompts are shown as the first argument says, and twenty where it says no number.
pub proof fn law_histories_are_as_long_as_asked(argv: Seq<Seq<char>>, n: nat, i: int)
    requires
        n <= usize::MAX,
    ensures
        argv.len() == 0 ==> history_limit(argv) == 20,
        argv.len() > 0 && argv[0] == digits(n) ==> history_limit(argv) == n,
        argv.len() > 0 && argv[0].len() == 0 ==> history_limit(argv) == 20,
        argv.len() > 0 && 0 < i < argv[0].len() && !('0' <= argv[0][i] <= '9') ==> history_limit(
            argv,
        ) == 20,
{
    law_written_numbers_are_read(n, usize::MAX as nat, argv[0], i);
}

} // verus!
