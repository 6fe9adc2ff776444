//! `/skills`: list, install, inspect, reload, enable, disable and remove skills.

use crate::commands::{
    command_info, is_error, is_info, printed, printed_lines, prints, refused, refused_with, refuses,
    reloaded_skills_line, reloaded_skills_text, CommandInfo, CommandOutcome, Report,
};
use crate::json::{bool_member, string_member, uint_member, Json, JsonView};
use crate::paths::{join_path, joined_path};
use crate::session_tree::UserBlock;
use crate::skill::{source_label, Skill, SkillSource};
use crate::text::{
    copy_texts, decimal, decimal_size, digits, join, joined, lemma_texts_empty, lemma_texts_push,
    lines, owned, split_lines, starts_with, starts_with_text, texts,
};
use vstd::prelude::*;

verus! {

broadcast use {lemma_texts_push, lemma_texts_empty};

/// `/skills`.
#[derive(Debug)]
pub struct SkillsCommand;

pub const SKILLS_USAGE: &'static str =
    "[install [--confirm] [--overwrite] <url|path>|show <name>|reload|enable <name> [source]|disable <name> [source]|remove [--confirm] <name> [source]]";

/// What `/skills` is asked for. The arguments of a subcommand are those after its name.
#[derive(Debug)]
pub enum SkillsPlan {
    List,
    Install(Vec<String>),
    Show(Vec<String>),
    Reload,
    Enable(Vec<String>),
    Disable(Vec<String>),
    Remove(Vec<String>),
    Refused(CommandOutcome),
}

fn rest_of(argv: &Vec<String>) -> (r: Vec<String>)
    requires
        argv@.len() > 0,
    ensures
        texts(r@) == texts(argv@).skip(1),
{
    let mut r = copy_texts(argv);
    r.remove(0);
    assert(texts(r@) =~= texts(argv@).skip(1));
    r
}

impl SkillsCommand {
    pub fn info(&self) -> (r: CommandInfo)
        ensures
            is_info(
                r,
                "skills"@,
                "list, install, inspect, reload, enable, disable, or remove skills"@,
                SKILLS_USAGE@,
            ),
    {
        command_info(
            "skills",
            "list, install, inspect, reload, enable, disable, or remove skills",
            SKILLS_USAGE,
        )
    }

    /// What `/skills` is asked for.
    pub fn plan(&self, argv: &Vec<String>) -> (r: SkillsPlan)
        ensures
            ({
                let args = texts(argv@);
                if args.len() == 0 || args[0] == "list"@ || args[0] == "ls"@ {
                    r is List
                } else if args[0] == "install"@ {
                    r matches SkillsPlan::Install(v) && texts(v@) == args.skip(1)
                } else if args[0] == "show"@ {
                    r matches SkillsPlan::Show(v) && texts(v@) == args.skip(1)
                } else if args[0] == "reload"@ {
                    r is Reload
                } else if args[0] == "enable"@ {
                    r matches SkillsPlan::Enable(v) && texts(v@) == args.skip(1)
                } else if args[0] == "disable"@ {
                    r matches SkillsPlan::Disable(v) && texts(v@) == args.skip(1)
                } else if args[0] == "remove"@ {
                    r matches SkillsPlan::Remove(v) && texts(v@) == args.skip(1)
                } else {
                    r matches SkillsPlan::Refused(o) && is_error(
                        o,
                        "usage: /skills "@ + SKILLS_USAGE@,
                    )
                }
            }),
    {
        if argv.len() == 0 {
            return SkillsPlan::List;
        }
        assert(texts(argv@)[0] == argv@[0]@);
        let sub = argv[0].as_str();
        if sub.eq("list") || sub.eq("ls") {
            SkillsPlan::List
        } else if sub.eq("install") {
            SkillsPlan::Install(rest_of(argv))
        } else if sub.eq("show") {
            SkillsPlan::Show(rest_of(argv))
        } else if sub.eq("reload") {
            SkillsPlan::Reload
        } else if sub.eq("enable") {
            SkillsPlan::Enable(rest_of(argv))
        } else if sub.eq("disable") {
            SkillsPlan::Disable(rest_of(argv))
        } else if sub.eq("remove") {
            SkillsPlan::Remove(rest_of(argv))
        } else {
            let mut m = owned("usage: /skills ");
            m.push_str(SKILLS_USAGE);
            SkillsPlan::Refused(CommandOutcome::Error(m))
        }
    }
}

// The list.

pub const NO_SKILLS: &'static str =
    "(no skills loaded — drop SKILL.md files under ~/.theway/skills/<name>/ or <cwd>/.theway/skills/<name>/)";

/// The lines of one skill in the list.
pub open spec fn skill_lines(s: Skill) -> Seq<Seq<char>> {
    seq![
        "  - "@ + s.name@ + "  ("@ + source_label(s.source) + ")"@ + (
        if s.disable_model_invocation {
            "  [disabled: disable_model_invocation=true]"@
        } else {
            ""@
        }),
    ] + (if s.description@.len() == 0 {
        Seq::empty()
    } else {
        seq!["      "@ + s.description@]
    }) + seq!["      path: "@ + s.file_path@]
}

/// The list of the first `n` skills.
pub open spec fn skill_list(skills: Seq<Skill>, n: int) -> Seq<Seq<char>>
    decreases n,
{
    if n <= 0 || n > skills.len() {
        seq!["Loaded skills ("@ + digits(skills.len()) + "):"@]
    } else {
        skill_list(skills, n - 1) + skill_lines(skills[n - 1])
    }
}

/// The list of the loaded skills.
pub fn print_skills_list(skills: &Vec<Skill>) -> (r: Report)
    ensures
        prints(
            r,
            if skills@.len() == 0 {
                seq![NO_SKILLS@]
            } else {
                skill_list(skills@, skills@.len() as int)
            },
        ),
{
    if skills.len() == 0 {
        return printed(owned(NO_SKILLS));
    }
    let mut out: Vec<String> = Vec::new();
    let mut head = owned("Loaded skills (");
    head.push_str(decimal_size(skills.len()).as_str());
    head.push_str("):");
    out.push(head);
    let mut i: usize = 0;
    while i < skills.len()
        invariant
            i <= skills@.len(),
            texts(out@) == skill_list(skills@, i as int),
        decreases skills@.len() - i,
    {
        let s = &skills[i];
        let ghost before = texts(out@);
        let mut first = owned("  - ");
        first.push_str(s.name.as_str());
        first.push_str("  (");
        first.push_str(s.source.label());
        first.push_str(")");
        first.push_str(
            if s.disable_model_invocation {
                "  [disabled: disable_model_invocation=true]"
            } else {
                ""
            },
        );
        out.push(first);
        if !s.description.as_str().is_empty() {
            let mut line = owned("      ");
            line.push_str(s.description.as_str());
            out.push(line);
        }
        let mut line = owned("      path: ");
        line.push_str(s.file_path.as_str());
        out.push(line);
        assert(texts(out@) =~= before + skill_lines(*s));
        i += 1;
    }
    printed_lines(out)
}

// Sources and resolution.

pub const BAD_SOURCE: &'static str =
    "invalid skill source; expected one of: builtin, user, project";

/// The source that a name stands for.
pub open spec fn source_named(raw: Seq<char>) -> Option<SkillSource> {
    if raw == "builtin"@ {
        Some(SkillSource::Builtin)
    } else if raw == "user"@ {
        Some(SkillSource::User)
    } else if raw == "project"@ {
        Some(SkillSource::Project)
    } else {
        None
    }
}

/// The source that a name stands for, or a refusal.
pub fn parse_skill_source(raw: &str) -> (r: Result<SkillSource, String>)
    ensures
        match source_named(raw@) {
            Some(s) => r matches Ok(t) && t == s,
            None => r matches Err(e) && e@ == BAD_SOURCE@,
        },
{
    if raw.eq("builtin") {
        Ok(SkillSource::Builtin)
    } else if raw.eq("user") {
        Ok(SkillSource::User)
    } else if raw.eq("project") {
        Ok(SkillSource::Project)
    } else {
        Err(owned(BAD_SOURCE))
    }
}

/// Whether a skill bears a name and comes from a source, where one is given.
pub open spec fn is_match(skill: Skill, name: Seq<char>, source: Option<SkillSource>) -> bool {
    skill.name@ == name && (source is None || skill.source == source->0)
}

/// How many of the first `n` skills match.
pub open spec fn match_count(
    skills: Seq<Skill>,
    name: Seq<char>,
    source: Option<SkillSource>,
    n: int,
) -> nat
    decreases n,
{
    if n <= 0 || n > skills.len() {
        0
    } else if is_match(skills[n - 1], name, source) {
        match_count(skills, name, source, n - 1) + 1
    } else {
        match_count(skills, name, source, n - 1)
    }
}

/// The last of the first `n` skills that matches.
pub open spec fn match_pos(
    skills: Seq<Skill>,
    name: Seq<char>,
    source: Option<SkillSource>,
    n: int,
) -> int
    decreases n,
{
    if n <= 0 || n > skills.len() {
        -1
    } else if is_match(skills[n - 1], name, source) {
        n - 1
    } else {
        match_pos(skills, name, source, n - 1)
    }
}

/// The refusal of a name that no skill bears.
pub open spec fn no_skill_text(name: Seq<char>, source: Option<SkillSource>) -> Seq<char> {
    "no active"@ + (match source {
        Some(s) => " "@ + source_label(s) + " "@,
        None => " "@,
    }) + "skill named '"@ + name + "'. Run /skills to list loaded skills."@
}

/// The refusal of a name that several skills bear.
pub open spec fn many_skills_text(name: Seq<char>) -> Seq<char> {
    "multiple active skills named '"@ + name + "'; pass source: builtin, user, or project"@
}

/// What a name and a source stand for: the one skill that matches, or a refusal.
pub open spec fn resolved_skill(
    skills: Seq<Skill>,
    name: Seq<char>,
    source: Option<SkillSource>,
) -> Result<int, Seq<char>> {
    let n = match_count(skills, name, source, skills.len() as int);
    if n == 1 {
        Ok(match_pos(skills, name, source, skills.len() as int))
    } else if n == 0 {
        Err(no_skill_text(name, source))
    } else {
        Err(many_skills_text(name))
    }
}

/// The position of the one skill that bears a name and comes from a source, where one is
/// given.
pub fn resolve_active_skill(skills: &Vec<Skill>, name: &str, source: Option<SkillSource>) -> (r:
    Result<usize, String>)
    ensures
        match resolved_skill(skills@, name@, source) {
            Ok(i) => r matches Ok(j) && j == i && j < skills@.len() && is_match(
                skills@[i],
                name@,
                source,
            ),
            Err(m) => r matches Err(e) && e@ == m,
        },
{
    let mut n: usize = 0;
    let mut at: usize = 0;
    let mut i: usize = 0;
    while i < skills.len()
        invariant
            i <= skills@.len(),
            n <= i,
            n == match_count(skills@, name@, source, i as int),
            n > 0 ==> at == match_pos(skills@, name@, source, i as int) && at < i && is_match(
                skills@[at as int],
                name@,
                source,
            ),
        decreases skills@.len() - i,
    {
        let same_source = match source {
            Some(s) => skills[i].source == s,
            None => true,
        };
        if skills[i].name.as_str().eq(name) && same_source {
            n += 1;
            at = i;
        }
        i += 1;
    }
    if n == 1 {
        Ok(at)
    } else if n == 0 {
        let hint = match source {
            Some(s) => {
                let mut h = owned(" ");
                h.push_str(s.label());
                h.push_str(" ");
                h
            },
            None => owned(" "),
        };
        let mut e = owned("no active");
        e.push_str(hint.as_str());
        e.push_str("skill named '");
        e.push_str(name);
        e.push_str("'. Run /skills to list loaded skills.");
        Err(e)
    } else {
        let mut e = owned("multiple active skills named '");
        e.push_str(name);
        e.push_str("'; pass source: builtin, user, or project");
        Err(e)
    }
}

/// What the arguments `<name> [source]` stand for: a skill, or a refusal.
pub open spec fn named_skill(argv: Seq<Seq<char>>, skills: Seq<Skill>, usage: Seq<char>) -> Result<
    int,
    Seq<char>,
> {
    if argv.len() == 0 {
        Err(usage)
    } else if argv.len() == 1 {
        resolved_skill(skills, argv[0], None)
    } else {
        match source_named(argv[1]) {
            Some(s) => resolved_skill(skills, argv[0], Some(s)),
            None => Err(BAD_SOURCE@),
        }
    }
}

fn find_named_skill(argv: &Vec<String>, skills: &Vec<Skill>, usage: &str) -> (r: Result<
    usize,
    String,
>)
    ensures
        match named_skill(texts(argv@), skills@, usage@) {
            Ok(i) => r matches Ok(j) && j == i && j < skills@.len(),
            Err(m) => r matches Err(e) && e@ == m,
        },
{
    if argv.len() == 0 {
        return Err(owned(usage));
    }
    assert(texts(argv@)[0] == argv@[0]@);
    if argv.len() == 1 {
        return resolve_active_skill(skills, argv[0].as_str(), None);
    }
    assert(texts(argv@)[1] == argv@[1]@);
    match parse_skill_source(argv[1].as_str()) {
        Ok(source) => resolve_active_skill(skills, argv[0].as_str(), Some(source)),
        Err(e) => Err(e),
    }
}

/// The lines on one skill.
pub open spec fn shown_skill(s: Skill) -> Seq<Seq<char>> {
    seq![
        "Skill: "@ + s.name@ + " ("@ + source_label(s.source) + ")"@,
        "Status: "@ + (if s.disable_model_invocation {
            "disabled"@
        } else {
            "enabled"@
        }),
    ] + (if s.description@.len() == 0 {
        Seq::empty()
    } else {
        seq!["Description: "@ + s.description@]
    }) + seq![
        "Path: "@ + s.file_path@,
        "Body: not shown; use the file path if you need to inspect the full skill."@,
    ]
}

/// `/skills show`.
pub fn show_skill(argv: &Vec<String>, skills: &Vec<Skill>) -> (r: Report)
    ensures
        match named_skill(texts(argv@), skills@, "usage: /skills show <name> [source]"@) {
            Ok(i) => prints(r, shown_skill(skills@[i])),
            Err(m) => refuses(r, m),
        },
{
    let at = match find_named_skill(argv, skills, "usage: /skills show <name> [source]") {
        Ok(at) => at,
        Err(e) => {
            return refused(e.as_str());
        },
    };
    let s = &skills[at];
    let mut out: Vec<String> = Vec::new();
    let mut line = owned("Skill: ");
    line.push_str(s.name.as_str());
    line.push_str(" (");
    line.push_str(s.source.label());
    line.push_str(")");
    out.push(line);
    let mut line = owned("Status: ");
    line.push_str(
        if s.disable_model_invocation {
            "disabled"
        } else {
            "enabled"
        },
    );
    out.push(line);
    if !s.description.as_str().is_empty() {
        let mut line = owned("Description: ");
        line.push_str(s.description.as_str());
        out.push(line);
    }
    let mut line = owned("Path: ");
    line.push_str(s.file_path.as_str());
    out.push(line);
    out.push(owned("Body: not shown; use the file path if you need to inspect the full skill."));
    assert(texts(out@) =~= shown_skill(*s));
    printed_lines(out)
}

/// `/skills reload`, given how many skills and diagnostics the reload gave.
pub fn reload_report(result: &Result<(usize, usize), String>) -> (r: Report)
    ensures
        match result {
            Ok((skills, diagnostics)) => prints(
                r,
                seq![reloaded_skills_text(*skills as nat, *diagnostics as nat)],
            ),
            Err(e) => refuses(r, "reload skills failed: "@ + e@),
        },
{
    match result {
        Ok((skills, diagnostics)) => printed(reloaded_skills_line(*skills, *diagnostics)),
        Err(e) => refused_with("reload skills failed: ", e.as_str()),
    }
}

// Enabling and disabling.

pub open spec fn state_word(enabled: bool) -> Seq<char> {
    if enabled {
        "enabled"@
    } else {
        "disabled"@
    }
}

fn state_label(enabled: bool) -> (r: &'static str)
    ensures
        r@ == state_word(enabled),
{
    if enabled {
        "enabled"
    } else {
        "disabled"
    }
}

/// What `/skills enable` and `/skills disable` do.
#[derive(Debug)]
pub enum StatePlan {
    /// The skill is in that state already, or the arguments are refused.
    Done(Report),
    /// Save the state of the skill and reload the skills.
    Change { name: String, source: SkillSource },
}

pub open spec fn enable_usage(enabled: bool) -> Seq<char> {
    "usage: /skills "@ + (if enabled {
        "enable"@
    } else {
        "disable"@
    }) + " <name> [source]"@
}

/// What `/skills enable` or `/skills disable` does: nothing where the skill is in that state
/// already.
pub fn plan_state(argv: &Vec<String>, skills: &Vec<Skill>, enabled: bool) -> (r: StatePlan)
    ensures
        match named_skill(texts(argv@), skills@, enable_usage(enabled)) {
            Ok(i) => if !skills@[i].disable_model_invocation == enabled {
                r matches StatePlan::Done(report) && prints(
                    report,
                    seq![
                        "skill already "@ + state_word(enabled) + ": "@ + skills@[i].name@ + " ("@
                            + source_label(skills@[i].source) + ")"@,
                    ],
                )
            } else {
                r matches StatePlan::Change { name, source } && name@ == skills@[i].name@ && source
                    == skills@[i].source
            },
            Err(m) => r matches StatePlan::Done(report) && refuses(report, m),
        },
{
    let mut usage = owned("usage: /skills ");
    usage.push_str(
        if enabled {
            "enable"
        } else {
            "disable"
        },
    );
    usage.push_str(" <name> [source]");
    let at = match find_named_skill(argv, skills, usage.as_str()) {
        Ok(at) => at,
        Err(e) => {
            return StatePlan::Done(refused(e.as_str()));
        },
    };
    let s = &skills[at];
    if !s.disable_model_invocation == enabled {
        let mut line = owned("skill already ");
        line.push_str(state_label(enabled));
        line.push_str(": ");
        line.push_str(s.name.as_str());
        line.push_str(" (");
        line.push_str(s.source.label());
        line.push_str(")");
        return StatePlan::Done(printed(line));
    }
    StatePlan::Change { name: s.name.clone(), source: s.source }
}

/// How a change of a skill's state ended.
#[derive(Debug)]
pub enum StateEnd {
    NotSaved(String),
    NotReloaded(String),
    /// The skills were reloaded with this many diagnostics.
    Reloaded { diagnostics: usize },
}

/// What to print for a change of a skill's state.
pub fn state_report(name: &str, source: SkillSource, enabled: bool, end: &StateEnd) -> (r: Report)
    ensures
        match end {
            StateEnd::NotSaved(e) => refuses(r, "persist skill state failed: "@ + e@),
            StateEnd::NotReloaded(e) => refuses(
                r,
                "reload after skill state change failed: "@ + e@,
            ),
            StateEnd::Reloaded { diagnostics } => prints(
                r,
                seq![
                    state_word(enabled) + " skill: "@ + name@ + " ("@ + source_label(source) + ")"@
                        + (if *diagnostics == 0 {
                        Seq::empty()
                    } else {
                        " ("@ + digits(*diagnostics as nat) + " diagnostics)"@
                    }),
                ],
            ),
        },
{
    match end {
        StateEnd::NotSaved(e) => refused_with("persist skill state failed: ", e.as_str()),
        StateEnd::NotReloaded(e) => refused_with(
            "reload after skill state change failed: ",
            e.as_str(),
        ),
        StateEnd::Reloaded { diagnostics } => {
            let note = if *diagnostics == 0 {
                String::new()
            } else {
                let mut n = owned(" (");
                n.push_str(decimal_size(*diagnostics).as_str());
                n.push_str(" diagnostics)");
                n
            };
            let mut line = owned(state_label(enabled));
            line.push_str(" skill: ");
            line.push_str(name);
            line.push_str(" (");
            line.push_str(source.label());
            line.push_str(")");
            line.push_str(note.as_str());
            printed(line)
        },
    }
}

/// The record of a change of a skill's state that the session keeps.
pub fn skill_state_audit(
    name: &str,
    source: SkillSource,
    before_enabled: bool,
    after_enabled: bool,
) -> (r: Json)
    ensures
        r@ == JsonView::Object(
            Map::empty().insert("op"@, JsonView::Str("set_state"@)).insert(
                "actor"@,
                JsonView::Str("slash"@),
            ).insert("name"@, JsonView::Str(name@)).insert(
                "source"@,
                JsonView::Str(source_label(source)),
            ).insert("before_enabled"@, JsonView::Bool(before_enabled)).insert(
                "after_enabled"@,
                JsonView::Bool(after_enabled),
            ),
        ),
{
    Json::object().with("op", Json::text("set_state")).with("actor", Json::text("slash")).with(
        "name",
        Json::text(name),
    ).with("source", Json::text(source.label())).with(
        "before_enabled",
        Json::Bool(before_enabled),
    ).with("after_enabled", Json::Bool(after_enabled))
}

// Installing and removing.

/// Whether an argument is an option.
pub open spec fn is_option(arg: Seq<char>) -> bool {
    starts_with_text(arg, "--"@)
}

/// Whether an argument confirms.
pub open spec fn is_confirm(arg: Seq<char>) -> bool {
    arg == "--confirm"@ || arg == "--yes"@
}

/// The arguments of an installation or a removal.
#[derive(Debug)]
pub struct SkillArgs {
    pub positional: Vec<String>,
    pub confirm: bool,
    pub overwrite: bool,
}

/// What the first `n` arguments say: the positional ones, whether one confirms and whether
/// one overwrites, or the first option that is not known.
pub open spec fn parsed_args(argv: Seq<Seq<char>>, overwrite: bool, n: int) -> Result<
    (Seq<Seq<char>>, bool, bool),
    Seq<char>,
>
    decreases n,
{
    if n <= 0 || n > argv.len() {
        Ok((Seq::empty(), false, false))
    } else {
        match parsed_args(argv, overwrite, n - 1) {
            Ok((positional, c, o)) => {
                let arg = argv[n - 1];
                if is_confirm(arg) {
                    Ok((positional, true, o))
                } else if overwrite && arg == "--overwrite"@ {
                    Ok((positional, c, true))
                } else if is_option(arg) {
                    Err(arg)
                } else {
                    Ok((positional.push(arg), c, o))
                }
            },
            Err(e) => Err(e),
        }
    }
}

proof fn lemma_parsed_error(argv: Seq<Seq<char>>, overwrite: bool, n: int, m: int)
    requires
        0 <= n <= m <= argv.len(),
        parsed_args(argv, overwrite, n) is Err,
    ensures
        parsed_args(argv, overwrite, m) == parsed_args(argv, overwrite, n),
    decreases m - n,
{
    if n < m {
        lemma_parsed_error(argv, overwrite, n, m - 1);
    }
}

fn parse_args(argv: &Vec<String>, overwrite: bool) -> (r: Result<SkillArgs, String>)
    ensures
        match parsed_args(texts(argv@), overwrite, argv@.len() as int) {
            Ok((positional, c, o)) => r matches Ok(a) && texts(a.positional@) == positional
                && a.confirm == c && a.overwrite == o,
            Err(arg) => r matches Err(e) && e@ == arg,
        },
{
    let mut a = SkillArgs { positional: Vec::new(), confirm: false, overwrite: false };
    let ghost all = texts(argv@);
    let mut i: usize = 0;
    while i < argv.len()
        invariant
            i <= argv@.len(),
            all == texts(argv@),
            parsed_args(all, overwrite, i as int) matches Ok((p, c, o)) && texts(a.positional@) == p
                && a.confirm == c && a.overwrite == o,
        decreases argv@.len() - i,
    {
        let arg = argv[i].as_str();
        assert(all[i as int] == arg@);
        if arg.eq("--confirm") || arg.eq("--yes") {
            a.confirm = true;
        } else if overwrite && arg.eq("--overwrite") {
            a.overwrite = true;
        } else if starts_with(arg, "--") {
            proof {
                lemma_parsed_error(all, overwrite, i + 1, all.len() as int);
            }
            return Err(owned(arg));
        } else {
            a.positional.push(owned(arg));
        }
        i += 1;
    }
    Ok(a)
}

/// What `/skills install` is asked for.
#[derive(Debug)]
pub struct InstallSkillArgs {
    pub target: String,
    pub confirm: bool,
    pub overwrite: bool,
}

/// What `/skills install` is asked for: one target, besides options.
pub fn parse_skill_install_args(argv: &Vec<String>) -> (r: Result<InstallSkillArgs, String>)
    ensures
        match parsed_args(texts(argv@), true, argv@.len() as int) {
            Ok((positional, c, o)) => if positional.len() == 1 {
                r matches Ok(a) && a.target@ == positional[0] && a.confirm == c && a.overwrite == o
            } else {
                r matches Err(e) && e@
                    == "usage: /skills install [--confirm] [--overwrite] <https-url|path>"@
            },
            Err(arg) => r matches Err(e) && e@ == "unknown option for /skills install: "@ + arg,
        },
{
    match parse_args(argv, true) {
        Ok(a) => {
            assert(texts(a.positional@).len() == a.positional@.len());
            if a.positional.len() == 1 {
                assert(texts(a.positional@)[0] == a.positional@[0]@);
                Ok(
                    InstallSkillArgs {
                        target: a.positional[0].clone(),
                        confirm: a.confirm,
                        overwrite: a.overwrite,
                    },
                )
            } else {
                Err(owned("usage: /skills install [--confirm] [--overwrite] <https-url|path>"))
            }
        },
        Err(arg) => {
            let mut e = owned("unknown option for /skills install: ");
            e.push_str(arg.as_str());
            Err(e)
        },
    }
}

/// What `/skills remove` is asked for.
#[derive(Debug)]
pub struct RemoveSkillArgs {
    pub name: String,
    pub source: Option<SkillSource>,
    pub confirm: bool,
}

/// What `/skills remove` is asked for: a name and perhaps a source, besides options.
pub fn parse_skill_remove_args(argv: &Vec<String>) -> (r: Result<RemoveSkillArgs, String>)
    ensures
        match parsed_args(texts(argv@), false, argv@.len() as int) {
            Ok((positional, c, _)) => if positional.len() == 1 {
                r matches Ok(a) && a.name@ == positional[0] && a.source is None && a.confirm == c
            } else if positional.len() == 2 {
                match source_named(positional[1]) {
                    Some(s) => r matches Ok(a) && a.name@ == positional[0] && a.source == Some(s)
                        && a.confirm == c,
                    None => r matches Err(e) && e@ == BAD_SOURCE@,
                }
            } else {
                r matches Err(e) && e@ == "usage: /skills remove [--confirm] <name> [source]"@
            },
            Err(arg) => r matches Err(e) && e@ == "unknown option for /skills remove: "@ + arg,
        },
{
    match parse_args(argv, false) {
        Ok(a) => {
            assert(texts(a.positional@).len() == a.positional@.len());
            if a.positional.len() == 1 {
                assert(texts(a.positional@)[0] == a.positional@[0]@);
                Ok(
                    RemoveSkillArgs {
                        name: a.positional[0].clone(),
                        source: None,
                        confirm: a.confirm,
                    },
                )
            } else if a.positional.len() == 2 {
                assert(texts(a.positional@)[0] == a.positional@[0]@);
                assert(texts(a.positional@)[1] == a.positional@[1]@);
                match parse_skill_source(a.positional[1].as_str()) {
                    Ok(source) => Ok(
                        RemoveSkillArgs {
                            name: a.positional[0].clone(),
                            source: Some(source),
                            confirm: a.confirm,
                        },
                    ),
                    Err(e) => Err(e),
                }
            } else {
                Err(owned("usage: /skills remove [--confirm] <name> [source]"))
            }
        },
        Err(arg) => {
            let mut e = owned("unknown option for /skills remove: ");
            e.push_str(arg.as_str());
            Err(e)
        },
    }
}

/// Where a skill is installed from: an address, or a path taken from the working directory.
pub open spec fn install_source(target: Seq<char>, cwd: Seq<char>) -> JsonView {
    if starts_with_text(target, "http://"@) || starts_with_text(target, "https://"@) {
        JsonView::Object(
            Map::empty().insert("type"@, JsonView::Str("url"@)).insert("url"@, JsonView::Str(target)),
        )
    } else {
        JsonView::Object(
            Map::empty().insert("type"@, JsonView::Str("path"@)).insert(
                "path"@,
                JsonView::Str(joined_path(cwd, target)),
            ),
        )
    }
}

/// Where a skill is installed from.
pub fn skill_install_source(target: &str, cwd: &str) -> (r: Json)
    ensures
        r@ == install_source(target@, cwd@),
{
    if starts_with(target, "http://") || starts_with(target, "https://") {
        Json::object().with("type", Json::text("url")).with("url", Json::text(target))
    } else {
        Json::object().with("type", Json::text("path")).with(
            "path",
            Json::text(join_path(cwd, target).as_str()),
        )
    }
}

/// What the tool that installs skills is called with.
pub fn install_params(args: &InstallSkillArgs, cwd: &str) -> (r: Json)
    ensures
        r@ == JsonView::Object(
            Map::empty().insert("source"@, install_source(args.target@, cwd@)).insert(
                "confirm"@,
                JsonView::Bool(args.confirm),
            ).insert("overwrite"@, JsonView::Bool(args.overwrite)),
        ),
{
    Json::object().with("source", skill_install_source(args.target.as_str(), cwd)).with(
        "confirm",
        Json::Bool(args.confirm),
    ).with("overwrite", Json::Bool(args.overwrite))
}

/// What the tool that removes skills is called with.
pub fn remove_params(args: &RemoveSkillArgs) -> (r: Json)
    ensures
        ({
            let both = Map::empty().insert("name"@, JsonView::Str(args.name@)).insert(
                "confirm"@,
                JsonView::Bool(args.confirm),
            );
            r@ == JsonView::Object(
                match args.source {
                    Some(s) => both.insert("source"@, JsonView::Str(source_label(s))),
                    None => both,
                },
            )
        }),
{
    let both = Json::object().with("name", Json::text(args.name.as_str())).with(
        "confirm",
        Json::Bool(args.confirm),
    );
    match args.source {
        Some(s) => both.with("source", Json::text(s.label())),
        None => both,
    }
}

/// What a tool gave back: details, and blocks of text and images.
#[derive(Debug)]
pub struct ToolResult {
    pub details: Json,
    pub content: Vec<UserBlock>,
}

/// The texts of the first `n` blocks.
pub open spec fn text_blocks(content: Seq<UserBlock>, n: int) -> Seq<Seq<char>>
    decreases n,
{
    if n <= 0 || n > content.len() {
        Seq::empty()
    } else {
        match content[n - 1] {
            UserBlock::Text(t) => text_blocks(content, n - 1).push(t@),
            _ => text_blocks(content, n - 1),
        }
    }
}

/// The text of a result: its blocks of text, on a line each.
pub fn tool_result_text(result: &ToolResult) -> (r: String)
    ensures
        r@ == joined(text_blocks(result.content@, result.content@.len() as int), "\n"@),
{
    let mut parts: Vec<String> = Vec::new();
    let mut i: usize = 0;
    while i < result.content.len()
        invariant
            i <= result.content@.len(),
            texts(parts@) == text_blocks(result.content@, i as int),
        decreases result.content@.len() - i,
    {
        if let UserBlock::Text(t) = &result.content[i] {
            parts.push(t.clone());
        }
        i += 1;
    }
    join(&parts, "\n")
}

pub open spec fn member_text(v: JsonView, key: Seq<char>) -> Seq<char> {
    match string_member(v, key) {
        Some(s) => s,
        None => "<unknown>"@,
    }
}

fn text_member_or_unknown(v: &Json, key: &str) -> (r: String)
    ensures
        r@ == member_text(v@, key@),
{
    match v.text_member(key) {
        Some(s) => s,
        None => owned("<unknown>"),
    }
}

pub open spec fn bool_word(b: bool) -> Seq<char> {
    if b {
        "true"@
    } else {
        "false"@
    }
}

fn bool_label(b: bool) -> (r: &'static str)
    ensures
        r@ == bool_word(b),
{
    if b {
        "true"
    } else {
        "false"
    }
}

fn is_preview(details: &Json) -> (r: bool)
    ensures
        r == (string_member(details@, "phase"@) == Some("preview"@)),
{
    match details.text_member("phase") {
        Some(phase) => phase.as_str().eq("preview"),
        None => false,
    }
}

/// The lines on an installation that waits for a confirmation.
pub open spec fn install_preview(details: JsonView, overwrite: bool) -> Seq<Seq<char>> {
    let required = bool_member(details, "overwrite_required"@) == Some(true);
    seq![
        "skill install preview: "@ + member_text(details, "name"@) + " -> "@ + member_text(
            details,
            "target_path"@,
        ) + " ("@ + digits(
            match uint_member(details, "size"@) {
                Some(n) => n,
                None => 0,
            },
        ) + "B, existing="@ + bool_word(bool_member(details, "existing"@) == Some(true))
            + ", overwrite_required="@ + bool_word(required) + ")"@,
        "run `/skills install --confirm"@ + (if required && !overwrite {
            " --overwrite"@
        } else {
            ""@
        }) + " <same-url-or-path>` to install"@,
    ]
}

/// What to print for an installation: a preview, or what the tool said.
pub fn install_report(result: &Result<ToolResult, String>, args: &InstallSkillArgs) -> (r: Report)
    ensures
        match result {
            Ok(t) => prints(
                r,
                if string_member(t.details@, "phase"@) == Some("preview"@) {
                    install_preview(t.details@, args.overwrite)
                } else {
                    lines(joined(text_blocks(t.content@, t.content@.len() as int), "\n"@))
                },
            ),
            Err(e) => refuses(r, "install skill failed: "@ + e@),
        },
{
    let t = match result {
        Ok(t) => t,
        Err(e) => {
            return refused_with("install skill failed: ", e.as_str());
        },
    };
    if is_preview(&t.details) {
        let size: u64 = match t.details.uint_field("size") {
            Some(n) => n,
            None => 0,
        };
        let existing = match t.details.bool_field("existing") {
            Some(b) => b,
            None => false,
        };
        let required = match t.details.bool_field("overwrite_required") {
            Some(b) => b,
            None => false,
        };
        let mut out: Vec<String> = Vec::new();
        let mut line = owned("skill install preview: ");
        line.push_str(text_member_or_unknown(&t.details, "name").as_str());
        line.push_str(" -> ");
        line.push_str(text_member_or_unknown(&t.details, "target_path").as_str());
        line.push_str(" (");
        line.push_str(decimal(size).as_str());
        line.push_str("B, existing=");
        line.push_str(bool_label(existing));
        line.push_str(", overwrite_required=");
        line.push_str(bool_label(required));
        line.push_str(")");
        out.push(line);
        let mut line = owned("run `/skills install --confirm");
        line.push_str(
            if required && !args.overwrite {
                " --overwrite"
            } else {
                ""
            },
        );
        line.push_str(" <same-url-or-path>` to install");
        out.push(line);
        assert(texts(out@) =~= install_preview(t.details@, args.overwrite));
        return printed_lines(out);
    }
    printed_lines(split_lines(tool_result_text(t).as_str()))
}

/// The lines on a removal that waits for a confirmation.
pub open spec fn remove_preview(details: JsonView) -> Seq<Seq<char>> {
    seq![
        "skill remove preview: "@ + member_text(details, "name"@) + " (user) -> "@ + member_text(
            details,
            "target_path"@,
        ),
        "run `/skills remove --confirm "@ + member_text(details, "name"@) + "` to remove it"@,
    ]
}

/// What to print for a removal: a preview, or what the tool said.
pub fn remove_report(result: &Result<ToolResult, String>) -> (r: Report)
    ensures
        match result {
            Ok(t) => prints(
                r,
                if string_member(t.details@, "phase"@) == Some("preview"@) {
                    remove_preview(t.details@)
                } else {
                    lines(joined(text_blocks(t.content@, t.content@.len() as int), "\n"@))
                },
            ),
            Err(e) => refuses(r, "remove skill failed: "@ + e@),
        },
{
    let t = match result {
        Ok(t) => t,
        Err(e) => {
            return refused_with("remove skill failed: ", e.as_str());
        },
    };
    if is_preview(&t.details) {
        let name = text_member_or_unknown(&t.details, "name");
        let mut out: Vec<String> = Vec::new();
        let mut line = owned("skill remove preview: ");
        line.push_str(name.as_str());
        line.push_str(" (user) -> ");
        line.push_str(text_member_or_unknown(&t.details, "target_path").as_str());
        out.push(line);
        let mut line = owned("run `/skills remove --confirm ");
        line.push_str(name.as_str());
        line.push_str("` to remove it");
        out.push(line);
        assert(texts(out@) =~= remove_preview(t.details@));
        return printed_lines(out);
    }
    printed_lines(split_lines(tool_result_text(t).as_str()))
}

// Laws.

/// The name that a source is shown under is the name that it is asked for by.
pub proof fn law_source_labels_round_trip(source: SkillSource)
    ensures
        source_named(source_label(source)) == Some(source),
{
    reveal_strlit("builtin");
    reveal_strlit("user");
    reveal_strlit("project");
    assert("builtin"@.len() == 7);
    assert("user"@.len() == 4);
    assert("project"@.len() == 7);
    assert("builtin"@[0] == 'b');
    assert("project"@[0] == 'p');
}

proof fn lemma_match_unique(
    skills: Seq<Skill>,
    name: Seq<char>,
    source: Option<SkillSource>,
    n: int,
    j: int,
)
    requires
        0 <= j < n <= skills.len(),
        is_match(skills[j], name, source),
    ensures
        match_count(skills, name, source, n) > 0,
        match_count(skills, name, source, n) == 1 ==> match_pos(skills, name, source, n) == j,
    decreases n,
{
    if j < n - 1 {
        lemma_match_unique(skills, name, source, n - 1, j);
    }
}

/// A skill is resolved only where it is the one that matches: two skills of one name are
/// never told apart by guessing.
pub proof fn law_resolved_skill_is_the_only_match(
    skills: Seq<Skill>,
    name: Seq<char>,
    source: Option<SkillSource>,
    j: int,
)
    requires
        0 <= j < skills.len(),
        is_match(skills[j], name, source),
        resolved_skill(skills, name, source) is Ok,
    ensures
        resolved_skill(skills, name, source) == Ok::<int, Seq<char>>(j),
{
    lemma_match_unique(skills, name, source, skills.len() as int, j);
}

proof fn lemma_match_filter(
    skills: Seq<Skill>,
    name: Seq<char>,
    source: Option<SkillSource>,
    n: int,
)
    requires
        0 <= n <= skills.len(),
    ensures
        match_count(skills, name, source, n) == 0 <==> forall|j: int|
            0 <= j < n ==> !is_match(#[trigger] skills[j], name, source),
        match_count(skills, name, source, n) > 0 ==> {
            let i = match_pos(skills, name, source, n);
            &&& 0 <= i < n
            &&& is_match(skills[i], name, source)
            &&& forall|j: int| i < j < n ==> !is_match(#[trigger] skills[j], name, source)
            &&& match_count(skills, name, source, n) == 1 <==> forall|j: int|
                0 <= j < i ==> !is_match(#[trigger] skills[j], name, source)
        },
    decreases n,
{
    if n > 0 {
        lemma_match_filter(skills, name, source, n - 1);
    }
}

/// A name and a source denote a skill exactly where it is the only one that bears them; where
/// no source is given, every source counts.
pub proof fn law_skills_are_resolved_where_they_are_unique(
    skills: Seq<Skill>,
    name: Seq<char>,
    source: Option<SkillSource>,
    i: int,
)
    ensures
        resolved_skill(skills, name, source) == Ok::<int, Seq<char>>(i) <==> {
            &&& 0 <= i < skills.len()
            &&& skills[i].name@ == name && (source is None || source == Some(skills[i].source))
            &&& forall|j: int|
                0 <= j < skills.len() && j != i ==> !((#[trigger] skills[j]).name@ == name && (
                source is None || source == Some(skills[j].source)))
        },
        (forall|j: int|
            0 <= j < skills.len() ==> !((#[trigger] skills[j]).name@ == name && (source is None
                || source == Some(skills[j].source)))) ==> resolved_skill(skills, name, source)
            == Err::<int, Seq<char>>(no_skill_text(name, source)),
{
    let n = skills.len() as int;
    lemma_match_filter(skills, name, source, n);
    let at = match_pos(skills, name, source, n);
    if match_count(skills, name, source, n) > 0 {
        assert(is_match(skills[at], name, source));
    }
    assert forall|j: int| 0 <= j < n implies is_match(#[trigger] skills[j], name, source) == (
    skills[j].name@ == name && (source is None || source == Some(skills[j].source))) by {}
    if 0 <= i < n && is_match(skills[i], name, source) {
        lemma_match_filter(skills, name, source, n);
    }
}

proof fn lemma_parsed_args(argv: Seq<Seq<char>>, overwrite: bool, n: int)
    requires
        0 <= n <= argv.len(),
    ensures
        match parsed_args(argv, overwrite, n) {
            Ok((positional, c, o)) => {
                &&& positional == argv.take(n).filter(|a: Seq<char>| !is_option(a))
                &&& c <==> argv.take(n).contains("--confirm"@) || argv.take(n).contains("--yes"@)
                &&& o <==> overwrite && argv.take(n).contains("--overwrite"@)
                &&& forall|i: int|
                    0 <= i < n && is_option(#[trigger] argv[i]) ==> is_confirm(argv[i]) || (
                    overwrite && argv[i] == "--overwrite"@)
            },
            Err(e) => argv.take(n).contains(e) && is_option(e) && !is_confirm(e) && !(overwrite && e
                == "--overwrite"@),
        },
    decreases n,
{
    reveal(Seq::filter);
    reveal_strlit("--confirm");
    reveal_strlit("--yes");
    reveal_strlit("--overwrite");
    reveal_strlit("--");
    assert("--confirm"@.subrange(0, 2) =~= "--"@);
    assert("--yes"@.subrange(0, 2) =~= "--"@);
    assert("--overwrite"@.subrange(0, 2) =~= "--"@);
    assert("--confirm"@.len() == 9 && "--yes"@.len() == 5 && "--overwrite"@.len() == 11);
    let all = argv.take(n);
    if n > 0 {
        lemma_parsed_args(argv, overwrite, n - 1);
        let front = argv.take(n - 1);
        assert(all.drop_last() =~= front);
        assert(all.last() == argv[n - 1]);
        assert forall|x: Seq<char>| #[trigger] all.contains(x) <==> front.contains(x) || x
            == argv[n - 1] by {
            if front.contains(x) {
                let i = choose|i: int| 0 <= i < front.len() && front[i] == x;
                assert(all[i] == x);
            }
            if x == argv[n - 1] {
                assert(all[n - 1] == x);
            }
            if all.contains(x) && x != argv[n - 1] {
                let i = choose|i: int| 0 <= i < all.len() && all[i] == x;
                assert(front[i] == x);
            }
        }
    } else {
        assert(all =~= Seq::empty());
    }
}

/// The arguments of an install or a removal are the words that are no options, in their order;
/// an option counts wherever it stands, and one that is not known is refused.
pub proof fn law_options_count_wherever_they_stand(argv: Seq<Seq<char>>, overwrite: bool)
    ensures
        match parsed_args(argv, overwrite, argv.len() as int) {
            Ok((positional, confirm, over)) => {
                &&& positional == argv.filter(|a: Seq<char>| !starts_with_text(a, "--"@))
                &&& confirm <==> argv.contains("--confirm"@) || argv.contains("--yes"@)
                &&& over <==> overwrite && argv.contains("--overwrite"@)
                &&& forall|i: int|
                    0 <= i < argv.len() && starts_with_text(#[trigger] argv[i], "--"@) ==> argv[i]
                        == "--confirm"@ || argv[i] == "--yes"@ || (overwrite && argv[i]
                        == "--overwrite"@)
            },
            Err(e) => argv.contains(e) && starts_with_text(e, "--"@) && e != "--confirm"@ && e
                != "--yes"@ && !(overwrite && e == "--overwrite"@),
        },
{
    lemma_parsed_args(argv, overwrite, argv.len() as int);
    assert(argv.take(argv.len() as int) =~= argv);
    let a = |a: Seq<char>| !is_option(a);
    let b = |a: Seq<char>| !starts_with_text(a, "--"@);
    assert(a =~= b);
    assert forall|i: int| 0 <= i < argv.len() && starts_with_text(#[trigger] argv[i], "--"@) implies (
    argv[i] == "--confirm"@ || argv[i] == "--yes"@ || (overwrite && argv[i] == "--overwrite"@)
        || parsed_args(argv, overwrite, argv.len() as int) is Err) by {
        assert(is_option(argv[i]));
    }
}

/// A skill is installed from the address that is given, or from a path that counts from the
/// directory of the session.
pub proof fn law_skills_are_installed_from_where_they_are(target: Seq<char>, cwd: Seq<char>)
    ensures
        install_source(target, cwd) matches JsonView::Object(m) && {
            let remote = starts_with_text(target, "http://"@) || starts_with_text(
                target,
                "https://"@,
            );
            &&& remote ==> m.contains_key("type"@) && m["type"@] == JsonView::Str("url"@)
                && m.contains_key("url"@) && m["url"@] == JsonView::Str(target)
                && !m.contains_key("path"@)
            &&& !remote ==> m.contains_key("type"@) && m["type"@] == JsonView::Str("path"@)
                && m.contains_key("path"@) && m["path"@] == JsonView::Str(joined_path(cwd, target))
                && !m.contains_key("url"@)
        },
{
    reveal_strlit("type");
    reveal_strlit("url");
    reveal_strlit("path");
    assert("type"@.len() == 4 && "url"@.len() == 3 && "path"@.len() == 4);
    assert("type"@[0] == 't' && "path"@[0] == 'p');
}

proof fn lemma_skill_list(skills: Seq<Skill>, n: int, i: int)
    requires
        0 <= i < n <= skills.len(),
    ensures
        exists|at: int|
            0 <= at && at + skill_lines(skills[i]).len() <= skill_list(skills, n).len()
                && #[trigger] skill_list(skills, n).subrange(
                at,
                at + skill_lines(skills[i]).len(),
            ) == skill_lines(skills[i]),
    decreases n,
{
    let before = skill_list(skills, n - 1);
    let all = skill_list(skills, n);
    let own = skill_lines(skills[i]);
    if i == n - 1 {
        let at = before.len() as int;
        assert(all.subrange(at, at + own.len()) =~= own);
    } else {
        lemma_skill_list(skills, n - 1, i);
        let at = choose|at: int|
            0 <= at && at + own.len() <= before.len() && #[trigger] before.subrange(
                at,
                at + own.len(),
            ) == own;
        assert(all.subrange(at, at + own.len()) =~= before.subrange(at, at + own.len()));
    }
}

/// Every skill is listed with its own lines: its name and where it is from, whether it is
/// disabled, what it is for, and its file.
pub proof fn law_every_skill_is_listed(skills: Seq<Skill>, i: int)
    requires
        0 <= i < skills.len(),
    ensures
        exists|at: int|
            0 <= at && at + skill_lines(skills[i]).len() <= skill_list(
                skills,
                skills.len() as int,
            ).len() && #[trigger] skill_list(skills, skills.len() as int).subrange(
                at,
                at + skill_lines(skills[i]).len(),
            ) == skill_lines(skills[i]),
        skill_lines(skills[i])[0] == "  - "@ + skills[i].name@ + "  ("@ + source_label(
            skills[i].source,
        ) + ")"@ + (if skills[i].disable_model_invocation {
            "  [disabled: disable_model_invocation=true]"@
        } else {
            ""@
        }),
        skill_lines(skills[i]).last() == "      path: "@ + skills[i].file_path@,
{
    lemma_skill_list(skills, skills.len() as int, i);
}

/// The preview of an installation says how to confirm it: with leave to overwrite where that is
/// needed and was not given, and without it elsewhere.
pub proof fn law_previews_say_how_to_confirm(members: Map<Seq<char>, JsonView>, overwrite: bool)
    ensures
        ({
            let hint = install_preview(JsonView::Object(members), overwrite)[1];
            let needed = members.contains_key("overwrite_required"@)
                && members["overwrite_required"@] == JsonView::Bool(true);
            &&& needed && !overwrite ==> hint == "run `/skills install --confirm"@
                + " --overwrite"@ + " <same-url-or-path>` to install"@
            &&& !needed || overwrite ==> hint == "run `/skills install --confirm"@
                + " <same-url-or-path>` to install"@
        }),
{
    reveal_strlit("");
    let start = "run `/skills install --confirm"@;
    assert(start + ""@ =~= start);
}

} // verus!
