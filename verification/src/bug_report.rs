//! `/bug-report`: one text with a diagnostic snapshot, the tail of the log and the transcript.
//!
//! The caller reads the log, renders the transcript, takes secrets out of the text and writes
//! it; the layout stands here.

use crate::commands::{printed, prints, refused_with, refuses, Report};
use crate::paths::{join_path, joined_path};
use crate::text::{
    contains_text, decimal_size, digits, law_parts_stand_in_the_whole,
    law_texts_hold_what_their_parts_hold, lines, owned, split_lines, texts,
};
use vstd::prelude::*;

verus! {

/// How many lines of the log a report holds at most.
pub const MAX_LOG_LINES: usize = 200;

/// The state that a report shows.
#[derive(Debug)]
pub struct DiagInputs {
    pub session_id: String,
    pub model: Option<String>,
    pub thinking: String,
    pub tool_count: usize,
    pub skill_count: usize,
    pub cost_summary: String,
    pub log_path: Option<String>,
}

/// The file that a report is written to.
pub fn default_dest(base_dir: &str, stamp: &str) -> (r: String)
    ensures
        r@ == joined_path(joined_path(base_dir@, "bug-reports"@), stamp@ + ".txt"@),
{
    let mut name = owned(stamp);
    name.push_str(".txt");
    join_path(join_path(base_dir, "bug-reports").as_str(), name.as_str())
}

/// How a model is shown: its provider and its identifier.
pub fn model_label(provider: &str, id: &str) -> (r: String)
    ensures
        r@ == provider@ + ":"@ + id@,
{
    let mut r = owned(provider);
    r.push_str(":");
    r.push_str(id);
    r
}

/// The lines of a text from one on, each with its end.
pub open spec fn lines_text(v: Seq<Seq<char>>, from: int) -> Seq<char>
    decreases v.len() - from,
{
    if from < 0 || from >= v.len() {
        Seq::empty()
    } else {
        v[from] + "\n"@ + lines_text(v, from + 1)
    }
}

/// The last lines of a log, at most `MAX_LOG_LINES` of them.
pub open spec fn log_tail(log: Seq<char>) -> Seq<char> {
    let all = lines(log);
    lines_text(
        all,
        if all.len() > MAX_LOG_LINES {
            all.len() - MAX_LOG_LINES
        } else {
            0
        },
    )
}

/// The last lines of a log, at most `MAX_LOG_LINES` of them.
pub fn tail_of_log(log: &str) -> (r: String)
    ensures
        r@ == log_tail(log@),
{
    let all = split_lines(log);
    let end: usize = all.len();
    let from: usize = if end > MAX_LOG_LINES {
        end - MAX_LOG_LINES
    } else {
        0
    };
    let mut r = String::new();
    let mut i: usize = from;
    let ghost v = texts(all@);
    assert(v.len() == all@.len());
    assert(r@ + lines_text(v, from as int) =~= lines_text(v, from as int));
    while i < end
        invariant
            from <= i <= end,
            end == all@.len(),
            v == texts(all@),
            lines_text(v, from as int) == r@ + lines_text(v, i as int),
        decreases end - i,
    {
        let ghost before = r@;
        r.push_str(all[i].as_str());
        r.push_str("\n");
        assert(before + (v[i as int] + "\n"@ + lines_text(v, i + 1)) =~= before + v[i as int]
            + "\n"@ + lines_text(v, i + 1));
        i += 1;
    }
    assert(r@ + Seq::<char>::empty() =~= r@);
    r
}

/// The section on the state.
pub open spec fn diagnostic_section(diag: DiagInputs) -> Seq<char> {
    "---- diagnostic ----\n"@ + "session_id    "@ + diag.session_id@ + "\n"@ + "model         "@ + (
    match diag.model {
        Some(m) => m@,
        None => "(none)"@,
    }) + "\n"@ + "thinking      "@ + diag.thinking@ + "\n"@ + "tools         "@ + digits(
        diag.tool_count as nat,
    ) + "\n"@ + "skills        "@ + digits(diag.skill_count as nat) + "\n"@ + "cost          "@
        + diag.cost_summary@ + "\n"@ + "log_path      "@ + (match diag.log_path {
        Some(p) => p@,
        None => "(disabled)"@,
    }) + "\n"@ + "\n"@
}

fn render_diagnostic(diag: &DiagInputs) -> (r: String)
    ensures
        r@ == diagnostic_section(*diag),
{
    let mut r = owned("---- diagnostic ----\n");
    r.push_str("session_id    ");
    r.push_str(diag.session_id.as_str());
    r.push_str("\n");
    r.push_str("model         ");
    match &diag.model {
        Some(m) => r.push_str(m.as_str()),
        None => r.push_str("(none)"),
    }
    r.push_str("\n");
    r.push_str("thinking      ");
    r.push_str(diag.thinking.as_str());
    r.push_str("\n");
    r.push_str("tools         ");
    r.push_str(decimal_size(diag.tool_count).as_str());
    r.push_str("\n");
    r.push_str("skills        ");
    r.push_str(decimal_size(diag.skill_count).as_str());
    r.push_str("\n");
    r.push_str("cost          ");
    r.push_str(diag.cost_summary.as_str());
    r.push_str("\n");
    r.push_str("log_path      ");
    match &diag.log_path {
        Some(p) => r.push_str(p.as_str()),
        None => r.push_str("(disabled)"),
    }
    r.push_str("\n");
    r.push_str("\n");
    r
}

/// The section on the log.
pub open spec fn log_section(path: Seq<char>, log: Result<String, String>) -> Seq<char> {
    "---- log tail ("@ + digits(MAX_LOG_LINES as nat) + " lines from "@ + path + ") ----\n"@ + (
    match log {
        Ok(text) => log_tail(text@),
        Err(e) => "(cannot read log: "@ + e@ + ")\n"@,
    }) + "\n"@
}

fn render_log(path: &str, log: &Result<String, String>) -> (r: String)
    ensures
        r@ == log_section(path@, *log),
{
    let mut r = owned("---- log tail (");
    r.push_str(decimal_size(MAX_LOG_LINES).as_str());
    r.push_str(" lines from ");
    r.push_str(path);
    r.push_str(") ----\n");
    match log {
        Ok(text) => r.push_str(tail_of_log(text.as_str()).as_str()),
        Err(e) => {
            let mut m = owned("(cannot read log: ");
            m.push_str(e.as_str());
            m.push_str(")\n");
            r.push_str(m.as_str());
        },
    }
    r.push_str("\n");
    r
}

/// The whole text of a report, before secrets are taken out.
pub open spec fn report_text(
    diag: DiagInputs,
    generated_at: Seq<char>,
    version: Seq<char>,
    log: Result<String, String>,
    transcript: Result<String, String>,
) -> Seq<char> {
    "theway bug report\n"@ + "generated_at: "@ + generated_at + "\n"@ + "theway_version: "@ + version
        + "\n"@ + "\n"@ + diagnostic_section(diag) + (match diag.log_path {
        Some(path) => log_section(path@, log),
        None => Seq::empty(),
    }) + "---- transcript ----\n"@ + (match transcript {
        Ok(t) => t@,
        Err(e) => "(cannot render transcript: "@ + e@ + ")\n"@,
    })
}

/// The whole text of a report, before secrets are taken out. What the log gave is looked at
/// only where there is a log.
pub fn build(
    diag: &DiagInputs,
    generated_at: &str,
    version: &str,
    log: &Result<String, String>,
    transcript: &Result<String, String>,
) -> (r: String)
    ensures
        r@ == report_text(*diag, generated_at@, version@, *log, *transcript),
{
    let mut r = owned("theway bug report\n");
    r.push_str("generated_at: ");
    r.push_str(generated_at);
    r.push_str("\n");
    r.push_str("theway_version: ");
    r.push_str(version);
    r.push_str("\n");
    r.push_str("\n");
    r.push_str(render_diagnostic(diag).as_str());
    match &diag.log_path {
        Some(path) => r.push_str(render_log(path.as_str(), log).as_str()),
        None => {
            assert(r@ + Seq::<char>::empty() =~= r@);
        },
    }
    r.push_str("---- transcript ----\n");
    match transcript {
        Ok(t) => r.push_str(t.as_str()),
        Err(e) => {
            let mut m = owned("(cannot render transcript: ");
            m.push_str(e.as_str());
            m.push_str(")\n");
            r.push_str(m.as_str());
        },
    }
    r
}

/// How the writing of a report ended.
#[derive(Debug)]
pub enum BugReportEnd {
    NoDirectory { parent: String },
    NotWritten { dest: String },
    Written { dest: String },
}

/// What to print for a report.
pub fn bug_report_outcome(end: &BugReportEnd) -> (r: Report)
    ensures
        match end {
            BugReportEnd::NoDirectory { parent } => refuses(
                r,
                "bug-report failed: create bug-reports dir "@ + parent@,
            ),
            BugReportEnd::NotWritten { dest } => refuses(r, "bug-report failed: write "@ + dest@),
            BugReportEnd::Written { dest } => prints(r, seq!["wrote bug report: "@ + dest@]),
        },
{
    match end {
        BugReportEnd::NoDirectory { parent } => refused_with(
            "bug-report failed: create bug-reports dir ",
            parent.as_str(),
        ),
        BugReportEnd::NotWritten { dest } => refused_with(
            "bug-report failed: write ",
            dest.as_str(),
        ),
        BugReportEnd::Written { dest } => {
            let mut line = owned("wrote bug report: ");
            line.push_str(dest.as_str());
            printed(line)
        },
    }
}

proof fn lemma_lines_text_whole(v: Seq<Seq<char>>, cut: int, from: int)
    requires
        0 <= cut <= from <= v.len(),
    ensures
        lines_text(v, from) == lines_text(v.skip(cut), from - cut),
    decreases v.len() - from,
{
    if from < v.len() {
        lemma_lines_text_whole(v, cut, from + 1);
    }
}

/// A report holds the end of the log: no more lines than the limit, and all of them where
/// the log is no longer.
pub proof fn law_log_tail_is_the_end_of_the_log(log: Seq<char>)
    ensures
        lines(log).len() <= MAX_LOG_LINES ==> log_tail(log) == lines_text(lines(log), 0),
        lines(log).len() > MAX_LOG_LINES ==> log_tail(log) == lines_text(
            lines(log).skip(lines(log).len() - MAX_LOG_LINES),
            0,
        ),
{
    let all = lines(log);
    if all.len() > MAX_LOG_LINES {
        lemma_lines_text_whole(all, all.len() - MAX_LOG_LINES, all.len() - MAX_LOG_LINES);
    }
}

/// A report holds the diagnostics of its session, the end of the log where there is one, and the
/// transcript.
pub proof fn law_reports_hold_their_sections(
    diag: DiagInputs,
    generated_at: Seq<char>,
    version: Seq<char>,
    log: Result<String, String>,
    transcript: Result<String, String>,
)
    ensures
        ({
            let text = report_text(diag, generated_at, version, log, transcript);
            &&& contains_text(text, "generated_at: "@ + generated_at + "\n"@)
            &&& contains_text(text, "theway_version: "@ + version + "\n"@)
            &&& contains_text(text, diagnostic_section(diag))
            &&& diag.log_path is Some ==> (log matches Ok(l) ==> contains_text(text, log_tail(l@)))
            &&& transcript matches Ok(t) ==> contains_text(text, t@)
        }),
{
    let text = report_text(diag, generated_at, version, log, transcript);
    let head = report_head(generated_at, version);
    let d = diagnostic_section(diag);
    let l = match diag.log_path {
        Some(path) => log_section(path@, log),
        None => Seq::empty(),
    };
    let t = match transcript {
        Ok(t) => t@,
        Err(e) => "(cannot render transcript: "@ + e@ + ")\n"@,
    };
    lemma_sections(head, d, l, "---- transcript ----\n"@, t);
    assert(text == head + d + l + "---- transcript ----\n"@ + t);
    lemma_report_head(generated_at, version);
    let at = "generated_at: "@ + generated_at + "\n"@;
    let by = "theway_version: "@ + version + "\n"@;
    law_texts_hold_what_their_parts_hold(text, head, at);
    law_texts_hold_what_their_parts_hold(text, head, by);
    if diag.log_path is Some {
        if let Ok(written) = log {
            lemma_log_section(diag.log_path->0@, written);
            law_texts_hold_what_their_parts_hold(text, l, log_tail(written@));
        }
    }
}

spec fn report_head(generated_at: Seq<char>, version: Seq<char>) -> Seq<char> {
    "theway bug report\n"@ + "generated_at: "@ + generated_at + "\n"@ + "theway_version: "@ + version
        + "\n"@ + "\n"@
}

proof fn lemma_report_head(generated_at: Seq<char>, version: Seq<char>)
    ensures
        contains_text(
            report_head(generated_at, version),
            "generated_at: "@ + generated_at + "\n"@,
        ),
        contains_text(report_head(generated_at, version), "theway_version: "@ + version + "\n"@),
{
    let title = "theway bug report\n"@;
    let at = "generated_at: "@ + generated_at + "\n"@;
    let by = "theway_version: "@ + version + "\n"@;
    let head = report_head(generated_at, version);
    assert(title + at + (by + "\n"@) =~= head);
    assert(title + at + by + "\n"@ =~= head);
    law_parts_stand_in_the_whole(title, at, by + "\n"@);
    law_parts_stand_in_the_whole(title + at, by, "\n"@);
}

proof fn lemma_sections(
    head: Seq<char>,
    d: Seq<char>,
    l: Seq<char>,
    heading: Seq<char>,
    t: Seq<char>,
)
    ensures
        contains_text(head + d + l + heading + t, head),
        contains_text(head + d + l + heading + t, d),
        contains_text(head + d + l + heading + t, l),
        contains_text(head + d + l + heading + t, t),
{
    let text = head + d + l + heading + t;
    let none = Seq::<char>::empty();
    assert(none + head + (d + l + heading + t) =~= text);
    assert(head + d + (l + heading + t) =~= text);
    assert(head + d + l + (heading + t) =~= text);
    assert(head + d + l + heading + t + none =~= text);
    law_parts_stand_in_the_whole(none, head, d + l + heading + t);
    law_parts_stand_in_the_whole(head, d, l + heading + t);
    law_parts_stand_in_the_whole(head + d, l, heading + t);
    law_parts_stand_in_the_whole(head + d + l + heading, t, none);
}

proof fn lemma_log_section(path: Seq<char>, log: String)
    ensures
        contains_text(log_section(path, Ok(log)), log_tail(log@)),
{
    let head = "---- log tail ("@ + digits(MAX_LOG_LINES as nat) + " lines from "@ + path
        + ") ----\n"@;
    law_parts_stand_in_the_whole(head, log_tail(log@), "\n"@);
}

} // verus!
