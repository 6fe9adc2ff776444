//! Slash commands: the registry, dispatch, and what the single commands decide and print.
//!
//! A command is split at its side effects. The functions here parse its arguments, choose
//! the next step from what a step gave back, and build the lines that it prints; the caller
//! performs the steps.

use crate::file_commands::{expand_file_command, expanded, FileCommand};
use crate::json::Json;
use crate::order::{
    has_text, in_key_order, is_ascending, is_distinct, key_order, lemma_ascending,
    lemma_sorted_positions, positions, sorted_positions, text_lt,
};
use crate::skill::{source_label, Skill, SkillSource};
use crate::text::{
    char_count, char_replaced, chars_of, cut, decimal_size, digits, is_white, join, joined,
    law_trimming_takes_the_white_space_away, lemma_texts_empty, lemma_texts_push, opt_text, owned,
    replace_char, take_chars, text_of, texts, trim, trimmed,
};
use vstd::prelude::*;

pub mod auth;
pub mod daemon_set;
pub mod misc;
pub mod session;
pub mod skills;
pub mod triggers;

verus! {

broadcast use {lemma_texts_push, lemma_texts_empty};

/// The lines that slash commands print, in order.
#[derive(Debug)]
pub struct CommandOutput {
    pub lines: Vec<String>,
}

impl CommandOutput {
    /// An output that holds no line yet.
    pub fn new() -> (r: CommandOutput)
        ensures
            texts(r.lines@) == Seq::<Seq<char>>::empty(),
    {
        CommandOutput { lines: Vec::new() }
    }

    /// Adds one line.
    pub fn emit_line(&mut self, line: String)
        ensures
            texts(final(self).lines@) == texts(old(self).lines@).push(line@),
    {
        self.lines.push(line);
    }

    /// Adds lines.
    pub fn emit_lines(&mut self, lines: &Vec<String>)
        ensures
            texts(final(self).lines@) == texts(old(self).lines@) + texts(lines@),
    {
        add_lines(&mut self.lines, lines);
    }
}

/// What to do with the public relay.
#[derive(Clone, Copy, Debug, PartialEq, Eq, Structural)]
pub enum WebRelayAction {
    Connect,
    Status,
    Disconnect,
}

/// What a command leads to.
#[derive(Debug)]
pub enum CommandOutcome {
    Handled,
    Error(String),
    /// Ask the client for the secret of a provider.
    LoginSecret {
        provider: String,
        storage_key: Option<String>,
        recovery_command: Option<String>,
    },
    /// Attach a skill to the next prompt.
    AttachSkill { name: String },
    /// Send a prompt to the agent.
    RunAgentPrompt { prompt: String, error_context: String },
    /// Send a prompt to the agent with a skill attached.
    RunSkillPrompt { prompt: String, skill: String, error_context: String },
    RunPromptTemplate { name: String, vars: Json },
    RunCompaction { custom: Option<String> },
    WebRelay(WebRelayAction),
    /// Offer to switch on what an imported session had switched on.
    SessionImportActivation {
        session_path: String,
        trigger_ids: Vec<String>,
        cron_ids: Vec<String>,
    },
}

/// Whether an outcome is an error with a given message.
pub open spec fn is_error(o: CommandOutcome, message: Seq<char>) -> bool {
    o matches CommandOutcome::Error(e) && e@ == message
}

pub fn error_outcome(message: &str) -> (r: CommandOutcome)
    ensures
        is_error(r, message@),
{
    CommandOutcome::Error(owned(message))
}

/// An error that puts what an operation reported behind a prefix.
pub fn failed(prefix: &str, error: &str) -> (r: CommandOutcome)
    ensures
        is_error(r, prefix@ + error@),
{
    let mut m = owned(prefix);
    m.push_str(error);
    CommandOutcome::Error(m)
}

/// What a step of a command prints, and what it leads to.
#[derive(Debug)]
pub struct Report {
    pub lines: Vec<String>,
    pub outcome: CommandOutcome,
}

/// Whether a report prints the given lines and is done.
pub open spec fn prints(r: Report, lines: Seq<Seq<char>>) -> bool {
    texts(r.lines@) == lines && r.outcome is Handled
}

/// Whether a report prints nothing but an error.
pub open spec fn refuses(r: Report, message: Seq<char>) -> bool {
    r.lines@.len() == 0 && is_error(r.outcome, message)
}

/// A report that prints one line.
pub fn printed(line: String) -> (r: Report)
    ensures
        prints(r, seq![line@]),
{
    let mut lines: Vec<String> = Vec::new();
    lines.push(line);
    assert(texts(lines@) =~= seq![line@]);
    Report { lines, outcome: CommandOutcome::Handled }
}

/// A report that prints lines.
pub fn printed_lines(lines: Vec<String>) -> (r: Report)
    ensures
        prints(r, texts(lines@)),
{
    Report { lines, outcome: CommandOutcome::Handled }
}

/// A report that is an error.
pub fn refused(message: &str) -> (r: Report)
    ensures
        refuses(r, message@),
{
    Report { lines: Vec::new(), outcome: error_outcome(message) }
}

/// A report that is an error behind a prefix.
pub fn refused_with(prefix: &str, error: &str) -> (r: Report)
    ensures
        refuses(r, prefix@ + error@),
{
    Report { lines: Vec::new(), outcome: failed(prefix, error) }
}

/// A report that prints a prefix and a text, where an operation succeeded with the text, or
/// is an error behind another prefix.
pub fn reported(result: &Result<String, String>, ok: &str, err: &str) -> (r: Report)
    ensures
        match result {
            Ok(t) => prints(r, seq![ok@ + t@]),
            Err(e) => refuses(r, err@ + e@),
        },
{
    match result {
        Ok(t) => {
            let mut line = owned(ok);
            line.push_str(t.as_str());
            printed(line)
        },
        Err(e) => refused_with(err, e.as_str()),
    }
}

/// The arguments other than a flag, in order.
pub open spec fn without_flag(argv: Seq<Seq<char>>, flag: Seq<char>) -> Seq<Seq<char>>
    decreases argv.len(),
{
    if argv.len() == 0 {
        Seq::empty()
    } else if argv.last() == flag {
        without_flag(argv.drop_last(), flag)
    } else {
        without_flag(argv.drop_last(), flag).push(argv.last())
    }
}

/// The arguments other than a flag, in order.
pub fn drop_flag(argv: &Vec<String>, flag: &str) -> (r: Vec<String>)
    ensures
        texts(r@) == without_flag(texts(argv@), flag@),
{
    let mut r: Vec<String> = Vec::new();
    let mut i: usize = 0;
    let ghost all = texts(argv@);
    assert(texts(r@) =~= without_flag(all.take(0), flag@));
    while i < argv.len()
        invariant
            i <= argv@.len(),
            all == texts(argv@),
            texts(r@) == without_flag(all.take(i as int), flag@),
        decreases argv@.len() - i,
    {
        assert(all.take(i + 1).drop_last() =~= all.take(i as int));
        assert(all.take(i + 1).last() == argv@[i as int]@);
        if !argv[i].as_str().eq(flag) {
            r.push(argv[i].clone());
        }
        i += 1;
    }
    assert(all.take(i as int) =~= all);
    r
}

/// Adds lines to lines.
pub fn add_lines(lines: &mut Vec<String>, more: &Vec<String>)
    ensures
        texts(final(lines)@) == texts(old(lines)@) + texts(more@),
{
    let ghost before = texts(lines@);
    let mut i: usize = 0;
    assert(before + texts(more@).take(0) =~= before);
    while i < more.len()
        invariant
            i <= more@.len(),
            texts(lines@) == before + texts(more@).take(i as int),
        decreases more@.len() - i,
    {
        lines.push(more[i].clone());
        assert(texts(more@).take(i + 1) =~= texts(more@).take(i as int).push(more@[i as int]@));
        assert(before + texts(more@).take(i + 1) =~= (before + texts(more@).take(i as int)).push(
            more@[i as int]@,
        ));
        i += 1;
    }
    assert(texts(more@).take(i as int) =~= texts(more@));
}

/// Whether a command is shown under a name, a description and a usage, without aliases.
pub open spec fn is_info(c: CommandInfo, name: Seq<char>, description: Seq<char>, usage: Seq<char>) -> bool {
    &&& c.name@ == name
    &&& c.description@ == description
    &&& c.usage@ == usage
    &&& c.aliases@.len() == 0
}

pub fn command_info(name: &str, description: &str, usage: &str) -> (r: CommandInfo)
    ensures
        is_info(r, name@, description@, usage@),
{
    CommandInfo {
        name: owned(name),
        description: owned(description),
        usage: owned(usage),
        aliases: Vec::new(),
    }
}

/// One registered command, as listings show it.
#[derive(Debug)]
pub struct CommandInfo {
    pub name: String,
    pub description: String,
    pub usage: String,
    pub aliases: Vec<String>,
}

/// Whether a command answers to a name.
pub open spec fn answers_to(c: CommandInfo, name: Seq<char>) -> bool {
    c.name@ == name || texts(c.aliases@).contains(name)
}

/// The position of the first command that answers to a name, from a position on.
pub open spec fn command_pos(commands: Seq<CommandInfo>, name: Seq<char>, from: int) -> Option<int>
    decreases commands.len() - from,
{
    if from < 0 || from >= commands.len() {
        None
    } else if answers_to(commands[from], name) {
        Some(from)
    } else {
        command_pos(commands, name, from + 1)
    }
}

/// The slash-command registry.
#[derive(Debug)]
pub struct Registry {
    pub commands: Vec<CommandInfo>,
    /// The commands that prompt files make.
    pub file_commands: Vec<FileCommand>,
    /// The home directory that prompt files are looked for in.
    pub user_home: String,
}

/// The position of the first prompt-file command of a name.
pub open spec fn file_command_pos(v: Seq<FileCommand>, name: Seq<char>, from: int) -> Option<int>
    decreases v.len() - from,
{
    if from < 0 || from >= v.len() {
        None
    } else if v[from].name@ == name {
        Some(from)
    } else {
        file_command_pos(v, name, from + 1)
    }
}

impl Registry {
    /// A registry without commands.
    pub fn new() -> (r: Registry)
        ensures
            r.commands@ == Seq::<CommandInfo>::empty(),
            r.file_commands@ == Seq::<FileCommand>::empty(),
            r.user_home@ == Seq::<char>::empty(),
    {
        Registry { commands: Vec::new(), file_commands: Vec::new(), user_home: String::new() }
    }

    /// Adds a command behind those that are there.
    pub fn register(&mut self, command: CommandInfo)
        ensures
            final(self).commands@ == old(self).commands@.push(command),
            final(self).file_commands == old(self).file_commands,
            final(self).user_home == old(self).user_home,
    {
        self.commands.push(command);
    }

    /// The registry with a home directory.
    pub fn with_user_home(self, home: String) -> (r: Registry)
        ensures
            r.user_home == home,
            r.commands == self.commands,
            r.file_commands == self.file_commands,
    {
        Registry { commands: self.commands, file_commands: self.file_commands, user_home: home }
    }

    /// The home directory that prompt files are looked for in.
    pub fn user_home(&self) -> (r: &String)
        ensures
            *r == self.user_home,
    {
        &self.user_home
    }

    /// Replaces the prompt-file commands.
    pub fn set_file_commands(&mut self, commands: Vec<FileCommand>)
        ensures
            final(self).file_commands == commands,
            final(self).commands == old(self).commands,
            final(self).user_home == old(self).user_home,
    {
        self.file_commands = commands;
    }

    /// The position of the first command that answers to a name.
    pub fn find(&self, name: &str) -> (r: Option<usize>)
        ensures
            r matches Some(i) ==> command_pos(self.commands@, name@, 0) == Some(i as int) && i
                < self.commands@.len(),
            r is None ==> command_pos(self.commands@, name@, 0) is None,
    {
        let mut i: usize = 0;
        while i < self.commands.len()
            invariant
                i <= self.commands@.len(),
                command_pos(self.commands@, name@, 0) == command_pos(
                    self.commands@,
                    name@,
                    i as int,
                ),
            decreases self.commands@.len() - i,
        {
            let c = &self.commands[i];
            if c.name.as_str().eq(name) || has_text(&c.aliases, name) {
                return Some(i);
            }
            i += 1;
        }
        None
    }

    /// The position of the first prompt-file command of a name.
    pub fn find_file_command(&self, name: &str) -> (r: Option<usize>)
        ensures
            r matches Some(i) ==> file_command_pos(self.file_commands@, name@, 0) == Some(i as int)
                && i < self.file_commands@.len(),
            r is None ==> file_command_pos(self.file_commands@, name@, 0) is None,
    {
        let mut i: usize = 0;
        while i < self.file_commands.len()
            invariant
                i <= self.file_commands@.len(),
                file_command_pos(self.file_commands@, name@, 0) == file_command_pos(
                    self.file_commands@,
                    name@,
                    i as int,
                ),
            decreases self.file_commands@.len() - i,
        {
            if self.file_commands[i].name.as_str().eq(name) {
                return Some(i);
            }
            i += 1;
        }
        None
    }

    /// The names of the prompt-file commands with a slash before each.
    pub fn file_command_names(&self) -> (r: Vec<String>)
        ensures
            r@.len() == self.file_commands@.len(),
            forall|i: int|
                0 <= i < r@.len() ==> (#[trigger] r@[i])@ == "/"@ + self.file_commands@[i].name@,
    {
        let mut r: Vec<String> = Vec::new();
        let mut i: usize = 0;
        while i < self.file_commands.len()
            invariant
                i <= self.file_commands@.len(),
                r@.len() == i,
                forall|j: int|
                    0 <= j < i ==> (#[trigger] r@[j])@ == "/"@ + self.file_commands@[j].name@,
            decreases self.file_commands@.len() - i,
        {
            let mut name = owned("/");
            name.push_str(self.file_commands[i].name.as_str());
            r.push(name);
            i += 1;
        }
        r
    }
}

// Previews.

/// The first `max_chars` characters of a text, with an ellipsis where that leaves some out,
/// on one line.
pub open spec fn preview(text: Seq<char>, max_chars: int) -> Seq<char> {
    let head = cut(text, max_chars);
    char_replaced(
        if head.len() < text.len() {
            head.push('…')
        } else {
            head
        },
        '\n',
        ' ',
    )
}

/// The first `max_chars` characters of a text, with an ellipsis where that leaves some out,
/// on one line.
pub fn preview_text(text: &str, max_chars: usize) -> (r: String)
    ensures
        r@ == preview(text@, max_chars as int),
{
    let mut head = take_chars(text, max_chars);
    if char_count(head.as_str()) < char_count(text) {
        head.push('…');
    }
    replace_char(head.as_str(), '\n', ' ')
}

// Skill shortcuts.

/// A skill that can be invoked as a command.
#[derive(Debug)]
pub struct SkillShortcut {
    pub command: String,
    pub source: SkillSource,
    pub description: String,
}

/// The content of a `SkillShortcut`.
pub struct ShortcutView {
    pub command: Seq<char>,
    pub source: SkillSource,
    pub description: Seq<char>,
}

impl View for SkillShortcut {
    type V = ShortcutView;

    open spec fn view(&self) -> ShortcutView {
        ShortcutView {
            command: self.command@,
            source: self.source,
            description: self.description@,
        }
    }
}

pub open spec fn shortcut_views(v: Seq<SkillShortcut>) -> Seq<ShortcutView> {
    Seq::new(v.len(), |i: int| v[i]@)
}

pub open spec fn shortcut_commands(v: Seq<ShortcutView>) -> Seq<Seq<char>> {
    Seq::new(v.len(), |i: int| v[i].command)
}

/// Whether a skill is enabled and bears a name.
pub open spec fn offers(skill: Skill, name: Seq<char>) -> bool {
    skill.name@ == name && !skill.disable_model_invocation
}

/// How many of the first `n` skills are enabled and bear a name.
pub open spec fn enabled_count(skills: Seq<Skill>, name: Seq<char>, n: int) -> nat
    decreases n,
{
    if n <= 0 || n > skills.len() {
        0
    } else {
        enabled_count(skills, name, n - 1) + if offers(skills[n - 1], name) {
            1nat
        } else {
            0nat
        }
    }
}

/// The position of the first skill at or after `from` that is enabled and bears a name.
pub open spec fn enabled_pos(skills: Seq<Skill>, name: Seq<char>, from: int) -> Option<int>
    decreases skills.len() - from,
{
    if from < 0 || from >= skills.len() {
        None
    } else if offers(skills[from], name) {
        Some(from)
    } else {
        enabled_pos(skills, name, from + 1)
    }
}

/// Whether some skill bears a name.
pub open spec fn some_named(skills: Seq<Skill>, name: Seq<char>) -> bool {
    exists|i: int| 0 <= i < skills.len() && (#[trigger] skills[i]).name@ == name
}

/// Whether a skill can be invoked by its name: it is enabled, it is the only enabled skill
/// of its name, and no command answers to that name.
pub open spec fn is_shortcut(skill: Skill, skills: Seq<Skill>, commands: Seq<CommandInfo>) -> bool {
    &&& !skill.disable_model_invocation
    &&& enabled_count(skills, skill.name@, skills.len() as int) == 1
    &&& command_pos(commands, skill.name@, 0) is None
}

pub open spec fn shortcut_of(skill: Skill) -> ShortcutView {
    ShortcutView {
        command: "/"@ + skill.name@,
        source: skill.source,
        description: preview(skill.description@, 72),
    }
}

/// The shortcuts among the first `n` skills, in the order of the skills.
pub open spec fn shortcuts_in(skills: Seq<Skill>, commands: Seq<CommandInfo>, n: int) -> Seq<
    ShortcutView,
>
    decreases n,
{
    if n <= 0 || n > skills.len() {
        Seq::empty()
    } else if is_shortcut(skills[n - 1], skills, commands) {
        shortcuts_in(skills, commands, n - 1).push(shortcut_of(skills[n - 1]))
    } else {
        shortcuts_in(skills, commands, n - 1)
    }
}

/// The shortcuts of a catalog, in the order of their commands.
pub open spec fn shortcuts(skills: Seq<Skill>, commands: Seq<CommandInfo>) -> Seq<ShortcutView> {
    let found = shortcuts_in(skills, commands, skills.len() as int);
    in_key_order(found, shortcut_commands(found))
}

fn count_enabled(skills: &Vec<Skill>, name: &str) -> (r: usize)
    ensures
        r == enabled_count(skills@, name@, skills@.len() as int),
{
    let mut n: usize = 0;
    let mut i: usize = 0;
    while i < skills.len()
        invariant
            i <= skills@.len(),
            n <= i,
            n == enabled_count(skills@, name@, i as int),
        decreases skills@.len() - i,
    {
        let s = &skills[i];
        if s.name.as_str().eq(name) && !s.disable_model_invocation {
            n += 1;
        }
        i += 1;
    }
    n
}

/// The skills that can be invoked by their names.
pub fn skill_shortcuts(skills: &Vec<Skill>, registry: &Registry) -> (r: Vec<SkillShortcut>)
    ensures
        shortcut_views(r@) == shortcuts(skills@, registry.commands@),
{
    let mut found: Vec<SkillShortcut> = Vec::new();
    let mut i: usize = 0;
    assert(shortcut_views(found@) =~= Seq::empty());
    while i < skills.len()
        invariant
            i <= skills@.len(),
            shortcut_views(found@) == shortcuts_in(skills@, registry.commands@, i as int),
        decreases skills@.len() - i,
    {
        let s = &skills[i];
        let ghost before = found@;
        if !s.disable_model_invocation && count_enabled(skills, s.name.as_str()) == 1
            && registry.find(s.name.as_str()).is_none() {
            let mut command = owned("/");
            command.push_str(s.name.as_str());
            found.push(
                SkillShortcut {
                    command,
                    source: s.source,
                    description: preview_text(s.description.as_str(), 72),
                },
            );
            assert(shortcut_views(found@) =~= shortcut_views(before).push(shortcut_of(*s)));
        }
        i += 1;
    }
    sort_shortcuts(&found)
}

fn sort_shortcuts(found: &Vec<SkillShortcut>) -> (r: Vec<SkillShortcut>)
    ensures
        shortcut_views(r@) == in_key_order(
            shortcut_views(found@),
            shortcut_commands(shortcut_views(found@)),
        ),
{
    let ghost all = shortcut_views(found@);
    let ghost names = shortcut_commands(all);
    let mut keys: Vec<String> = Vec::new();
    let mut k: usize = 0;
    assert(texts(keys@) =~= names.take(0));
    while k < found.len()
        invariant
            k <= found@.len(),
            names == shortcut_commands(shortcut_views(found@)),
            texts(keys@) == names.take(k as int),
        decreases found@.len() - k,
    {
        keys.push(found[k].command.clone());
        k += 1;
        assert(names.take(k as int) =~= names.take(k - 1).push(found@[k - 1].command@));
    }
    assert(names.take(k as int) =~= names);
    assert(keys@.len() == texts(keys@).len());
    let order = key_order(&keys);
    let ghost sorted = in_key_order(all, names);
    let mut r: Vec<SkillShortcut> = Vec::new();
    let mut i: usize = 0;
    assert(shortcut_views(r@) =~= sorted.take(0));
    while i < order.len()
        invariant
            i <= order@.len(),
            order@.len() == found@.len(),
            all == shortcut_views(found@),
            names == shortcut_commands(all),
            sorted == in_key_order(all, names),
            positions(order@) == sorted_positions(names, found@.len() as int),
            forall|j: int| 0 <= j < order@.len() ==> (#[trigger] order@[j]) < found@.len(),
            shortcut_views(r@) == sorted.take(i as int),
        decreases order@.len() - i,
    {
        let ghost before = r@;
        let at = order[i];
        let s = &found[at];
        r.push(
            SkillShortcut {
                command: s.command.clone(),
                source: s.source,
                description: s.description.clone(),
            },
        );
        proof {
            assert(positions(order@)[i as int] == at as int);
            assert(sorted[i as int] == found@[at as int]@);
            assert(shortcut_views(r@) =~= shortcut_views(before).push(found@[at as int]@));
            assert(sorted.take(i + 1) =~= sorted.take(i as int).push(sorted[i as int]));
        }
        i += 1;
    }
    assert(sorted.take(i as int) =~= sorted);
    r
}

/// The refusal of a shortcut to a disabled skill.
pub open spec fn disabled_skill_text(name: Seq<char>) -> Seq<char> {
    "skill '"@ + name + "' is disabled; run /skills enable "@ + name
        + " [source] or /skills to list loaded skills"@
}

/// The refusal of a shortcut that several skills bear.
pub open spec fn ambiguous_skill_text(name: Seq<char>) -> Seq<char> {
    "multiple enabled skills named '"@ + name + "'; use /skill "@ + name
        + " after resolving the source with /skills show "@ + name + " [source]"@
}

/// What a name stands for as a shortcut: no skill at all, a skill of the catalog, or a
/// refusal.
pub open spec fn resolved_shortcut(
    skills: Seq<Skill>,
    commands: Seq<CommandInfo>,
    name: Seq<char>,
) -> Result<Option<int>, Seq<char>> {
    if command_pos(commands, name, 0) is Some || !some_named(skills, name) {
        Ok(None)
    } else {
        let n = enabled_count(skills, name, skills.len() as int);
        if n == 1 {
            Ok(enabled_pos(skills, name, 0))
        } else if n == 0 {
            Err(disabled_skill_text(name))
        } else {
            Err(ambiguous_skill_text(name))
        }
    }
}

pub open spec fn shortcut_result(r: Result<Option<usize>, String>) -> Result<
    Option<int>,
    Seq<char>,
> {
    match r {
        Ok(Some(i)) => Ok(Some(i as int)),
        Ok(None) => Ok(None),
        Err(e) => Err(e@),
    }
}

fn find_named(skills: &Vec<Skill>, name: &str) -> (r: bool)
    ensures
        r == some_named(skills@, name@),
{
    let mut i: usize = 0;
    while i < skills.len()
        invariant
            i <= skills@.len(),
            forall|j: int| 0 <= j < i ==> (#[trigger] skills@[j]).name@ != name@,
        decreases skills@.len() - i,
    {
        if skills[i].name.as_str().eq(name) {
            assert(skills@[i as int].name@ == name@);
            return true;
        }
        i += 1;
    }
    false
}

fn find_enabled(skills: &Vec<Skill>, name: &str) -> (r: Option<usize>)
    ensures
        r matches Some(i) ==> enabled_pos(skills@, name@, 0) == Some(i as int) && i < skills@.len(),
        r is None ==> enabled_pos(skills@, name@, 0) is None,
{
    let mut i: usize = 0;
    while i < skills.len()
        invariant
            i <= skills@.len(),
            enabled_pos(skills@, name@, 0) == enabled_pos(skills@, name@, i as int),
        decreases skills@.len() - i,
    {
        let s = &skills[i];
        if s.name.as_str().eq(name) && !s.disable_model_invocation {
            return Some(i);
        }
        i += 1;
    }
    None
}

/// What a name stands for as a shortcut.
pub fn resolve_skill_shortcut(skills: &Vec<Skill>, registry: &Registry, name: &str) -> (r: Result<
    Option<usize>,
    String,
>)
    ensures
        shortcut_result(r) == resolved_shortcut(skills@, registry.commands@, name@),
        r matches Ok(Some(i)) ==> i < skills@.len(),
{
    if registry.find(name).is_some() || !find_named(skills, name) {
        return Ok(None);
    }
    let n = count_enabled(skills, name);
    if n == 1 {
        Ok(find_enabled(skills, name))
    } else if n == 0 {
        let mut e = owned("skill '");
        e.push_str(name);
        e.push_str("' is disabled; run /skills enable ");
        e.push_str(name);
        e.push_str(" [source] or /skills to list loaded skills");
        Err(e)
    } else {
        let mut e = owned("multiple enabled skills named '");
        e.push_str(name);
        e.push_str("'; use /skill ");
        e.push_str(name);
        e.push_str(" after resolving the source with /skills show ");
        e.push_str(name);
        e.push_str(" [source]");
        Err(e)
    }
}

proof fn lemma_enabled_count(skills: Seq<Skill>, name: Seq<char>, from: int, n: int)
    requires
        0 <= from <= n <= skills.len(),
    ensures
        enabled_count(skills, name, n) >= enabled_count(skills, name, from),
        enabled_count(skills, name, n) > enabled_count(skills, name, from) ==> exists|i: int|
            from <= i < n && offers(#[trigger] skills[i], name),
    decreases n - from,
{
    if from < n {
        lemma_enabled_count(skills, name, from, n - 1);
        if offers(skills[n - 1], name) {
            assert(from <= n - 1 < n && offers(skills[n - 1], name));
        }
    }
}

proof fn lemma_enabled_pos(skills: Seq<Skill>, name: Seq<char>, from: int)
    requires
        0 <= from <= skills.len(),
    ensures
        enabled_pos(skills, name, from) matches Some(i) ==> from <= i < skills.len() && offers(
            skills[i],
            name,
        ),
        enabled_pos(skills, name, from) is None ==> forall|i: int|
            from <= i < skills.len() ==> !offers(#[trigger] skills[i], name),
    decreases skills.len() - from,
{
    if from < skills.len() && !offers(skills[from], name) {
        lemma_enabled_pos(skills, name, from + 1);
    }
}

/// A shortcut always runs an enabled skill of its name, and only where no command answers
/// to that name.
pub proof fn law_shortcut_runs_an_enabled_skill(
    skills: Seq<Skill>,
    commands: Seq<CommandInfo>,
    name: Seq<char>,
)
    ensures
        resolved_shortcut(skills, commands, name) matches Ok(Some(i)) ==> {
            &&& 0 <= i < skills.len()
            &&& skills[i].name@ == name
            &&& !skills[i].disable_model_invocation
            &&& command_pos(commands, name, 0) is None
        },
        command_pos(commands, name, 0) is None && enabled_count(
            skills,
            name,
            skills.len() as int,
        ) == 1 ==> resolved_shortcut(skills, commands, name) matches Ok(Some(_)),
{
    lemma_enabled_count(skills, name, 0, skills.len() as int);
    lemma_enabled_pos(skills, name, 0);
}

proof fn lemma_shortcuts_in(skills: Seq<Skill>, commands: Seq<CommandInfo>, n: int)
    requires
        0 <= n <= skills.len(),
    ensures
        forall|k: int|
            #![trigger shortcuts_in(skills, commands, n)[k]]
            0 <= k < shortcuts_in(skills, commands, n).len() ==> exists|i: int|
                #![trigger skills[i]]
                0 <= i < n && is_shortcut(skills[i], skills, commands) && shortcuts_in(
                    skills,
                    commands,
                    n,
                )[k] == shortcut_of(skills[i]),
        forall|i: int|
            0 <= i < n && is_shortcut(#[trigger] skills[i], skills, commands) ==> shortcuts_in(
                skills,
                commands,
                n,
            ).contains(shortcut_of(skills[i])),
    decreases n,
{
    if n > 0 {
        lemma_shortcuts_in(skills, commands, n - 1);
        let before = shortcuts_in(skills, commands, n - 1);
        let out = shortcuts_in(skills, commands, n);
        assert forall|k: int| 0 <= k < out.len() implies exists|i: int|
            #![trigger skills[i]]
            0 <= i < n && is_shortcut(skills[i], skills, commands) && #[trigger] out[k]
                == shortcut_of(skills[i]) by {
            if k < before.len() {
                assert(before[k] == out[k]);
                let i = choose|i: int|
                    #![trigger skills[i]]
                    0 <= i < n - 1 && is_shortcut(skills[i], skills, commands) && before[k]
                        == shortcut_of(skills[i]);
                assert(0 <= i < n && out[k] == shortcut_of(skills[i]));
            } else {
                assert(out[k] == shortcut_of(skills[n - 1]));
            }
        }
        assert forall|i: int|
            0 <= i < n && is_shortcut(#[trigger] skills[i], skills, commands) implies out.contains(
            shortcut_of(skills[i]),
        ) by {
            if i < n - 1 {
                assert(before.contains(shortcut_of(skills[i])));
                let k = choose|k: int| 0 <= k < before.len() && before[k] == shortcut_of(skills[i]);
                assert(out[k] == shortcut_of(skills[i]));
            } else {
                assert(out[before.len() as int] == shortcut_of(skills[i]));
            }
        }
    }
}

proof fn lemma_two_enabled(skills: Seq<Skill>, name: Seq<char>, i: int, j: int)
    requires
        0 <= i < j < skills.len(),
        offers(skills[i], name),
        offers(skills[j], name),
    ensures
        enabled_count(skills, name, skills.len() as int) >= 2,
{
    lemma_enabled_count(skills, name, 0, i);
    lemma_enabled_count(skills, name, i + 1, j);
    lemma_enabled_count(skills, name, j + 1, skills.len() as int);
}

proof fn lemma_shortcut_commands_differ(skills: Seq<Skill>, commands: Seq<CommandInfo>, n: int)
    requires
        0 <= n <= skills.len(),
    ensures
        is_distinct(shortcut_commands(shortcuts_in(skills, commands, n))),
    decreases n,
{
    if n > 0 {
        lemma_shortcut_commands_differ(skills, commands, n - 1);
        lemma_shortcuts_in(skills, commands, n - 1);
        let before = shortcuts_in(skills, commands, n - 1);
        let out = shortcuts_in(skills, commands, n);
        let keys = shortcut_commands(out);
        if out.len() > before.len() {
            let last = skills[n - 1];
            assert forall|a: int, b: int| 0 <= a < b < keys.len() implies #[trigger] keys[a]
                != #[trigger] keys[b] by {
                if b < before.len() {
                    assert(shortcut_commands(before)[a] == keys[a]);
                    assert(shortcut_commands(before)[b] == keys[b]);
                } else {
                    assert(before[a] == out[a]);
                    let i = choose|i: int|
                        #![trigger skills[i]]
                        0 <= i < n - 1 && is_shortcut(skills[i], skills, commands) && before[a]
                            == shortcut_of(skills[i]);
                    if keys[a] == keys[b] {
                        lemma_same_name(skills[i].name@, last.name@);
                        lemma_two_enabled(skills, last.name@, i, n - 1);
                    }
                }
            }
        }
    }
}

proof fn lemma_same_name(a: Seq<char>, b: Seq<char>)
    requires
        "/"@ + a == "/"@ + b,
    ensures
        a == b,
{
    let slash = "/"@.len() as int;
    assert(("/"@ + a).skip(slash) =~= a);
    assert(("/"@ + b).skip(slash) =~= b);
}

/// The listed shortcuts are exactly the names that the dispatcher runs a skill for: a name is
/// listed just where it resolves to a skill, which is just where one enabled skill bears it and
/// no command answers to it. The commands ascend, so that none is listed twice.
pub proof fn law_listed_shortcuts_are_those_that_run(
    skills: Seq<Skill>,
    commands: Seq<CommandInfo>,
    name: Seq<char>,
)
    ensures
        shortcut_commands(shortcuts(skills, commands)).contains("/"@ + name) <==> (
        resolved_shortcut(skills, commands, name) matches Ok(Some(_))),
        (resolved_shortcut(skills, commands, name) matches Ok(Some(_))) <==> enabled_count(
            skills,
            name,
            skills.len() as int,
        ) == 1 && command_pos(commands, name, 0) is None,
        is_ascending(shortcut_commands(shortcuts(skills, commands))),
{
    let n = skills.len() as int;
    let found = shortcuts_in(skills, commands, n);
    let keys = shortcut_commands(found);
    let out = shortcuts(skills, commands);
    let sorted = shortcut_commands(out);
    let order = sorted_positions(keys, found.len() as int);
    lemma_shortcuts_in(skills, commands, n);
    lemma_shortcut_commands_differ(skills, commands, n);
    lemma_sorted_positions(keys, found.len() as int);
    law_shortcut_runs_an_enabled_skill(skills, commands, name);
    assert forall|a: int| 0 <= a < out.len() implies 0 <= #[trigger] order[a] < found.len()
        && out[a] == found[order[a]] && sorted[a] == keys[order[a]] by {
        assert(order.contains(order[a]));
    }
    assert forall|a: int, b: int| 0 <= a < b < sorted.len() implies !text_lt(
        #[trigger] sorted[b],
        #[trigger] sorted[a],
    ) && sorted[a] != sorted[b] by {
        assert(order[a] != order[b]);
        assert(sorted[a] == keys[order[a]]);
        assert(sorted[b] == keys[order[b]]);
    }
    lemma_ascending(sorted);
    if sorted.contains("/"@ + name) {
        let a = choose|a: int| 0 <= a < sorted.len() && sorted[a] == "/"@ + name;
        assert(out[a] == found[order[a]]);
        let i = choose|i: int|
            #![trigger skills[i]]
            0 <= i < n && is_shortcut(skills[i], skills, commands) && found[order[a]]
                == shortcut_of(skills[i]);
        lemma_same_name(skills[i].name@, name);
    }
    if let Ok(Some(i)) = resolved_shortcut(skills, commands, name) {
        assert(offers(skills[i], name));
        assert(is_shortcut(skills[i], skills, commands));
        assert(found.contains(shortcut_of(skills[i])));
        let k = choose|k: int| 0 <= k < found.len() && found[k] == shortcut_of(skills[i]);
        assert(order.contains(k));
        let a = choose|a: int| 0 <= a < order.len() && order[a] == k;
        assert(sorted[a] == "/"@ + name);
    }
}

/// Every listed shortcut shows the skill that its name resolves to.
pub proof fn law_listed_shortcuts_show_their_skill(
    skills: Seq<Skill>,
    commands: Seq<CommandInfo>,
    k: int,
)
    requires
        0 <= k < shortcuts(skills, commands).len(),
    ensures
        exists|i: int|
            0 <= i < skills.len() && shortcuts(skills, commands)[k] == shortcut_of(
                #[trigger] skills[i],
            ) && resolved_shortcut(skills, commands, skills[i].name@) == Ok::<
                Option<int>,
                Seq<char>,
            >(Some(i)),
{
    let n = skills.len() as int;
    let found = shortcuts_in(skills, commands, n);
    let keys = shortcut_commands(found);
    let out = shortcuts(skills, commands);
    lemma_shortcuts_in(skills, commands, n);
    lemma_sorted_positions(keys, found.len() as int);
    let order = sorted_positions(keys, found.len() as int);
    assert(order.contains(order[k]));
    assert(out[k] == found[order[k]]);
    let i = choose|i: int|
        #![trigger skills[i]]
        0 <= i < n && is_shortcut(skills[i], skills, commands) && found[order[k]] == shortcut_of(
            skills[i],
        );
    law_shortcut_runs_an_enabled_skill(skills, commands, skills[i].name@);
    lemma_enabled_pos(skills, skills[i].name@, 0);
    let at = enabled_pos(skills, skills[i].name@, 0)->0;
    if at < i {
        lemma_two_enabled(skills, skills[i].name@, at, i);
    } else if i < at {
        lemma_two_enabled(skills, skills[i].name@, i, at);
    }
    assert(out[k] == shortcut_of(skills[i]));
}

// Dispatch.

/// A text without the space that begins it, if one does.
pub open spec fn without_one_space(s: Seq<char>) -> Seq<char> {
    if s.len() > 0 && s[0] == ' ' {
        s.skip(1)
    } else {
        s
    }
}

/// What follows the command name in an input: the input without the white space around it,
/// without the slash and as many characters as the name has, and without the one space that
/// sets the name apart. Any other spacing is kept.
pub open spec fn args_tail(input: Seq<char>, name: Seq<char>) -> Seq<char> {
    let t = trimmed(input);
    if t.len() <= 1 + name.len() {
        Seq::empty()
    } else {
        without_one_space(t.skip(1 + name.len() as int))
    }
}

/// What follows the command name in an input.
pub fn args_tail_of(input: &str, name: &str) -> (r: String)
    ensures
        r@ == args_tail(input@, name@),
{
    let t = chars_of(trim(input).as_str());
    let n: usize = char_count(name);
    let len: usize = t.len();
    if len == 0 || len - 1 <= n {
        String::new()
    } else {
        let from: usize = if t[n + 1] == ' ' {
            n + 2
        } else {
            n + 1
        };
        let rest = text_of(&t, from, len);
        assert(rest@ =~= without_one_space(t@.skip(1 + name@.len() as int)));
        rest
    }
}

/// Where an input goes.
#[derive(Debug)]
pub enum Dispatch {
    /// An outcome that needs no command to run.
    Done(CommandOutcome),
    /// Print the help text for a topic.
    Help { topic: Option<String> },
    /// Load prompt files and skills anew.
    Reload,
    /// Run the registered command at this position.
    Run(usize),
    /// Print a line, then go on with the outcome.
    Skill { line: String, outcome: CommandOutcome },
}

/// The line that announces the use of a skill.
pub open spec fn using_skill_text(skill: Skill) -> Seq<char> {
    "using skill: "@ + skill.name@ + " ("@ + source_label(skill.source) + ")"@
}

/// What running a skill by its name leads to: without arguments the skill is attached to
/// the next prompt, with arguments they are the prompt.
pub open spec fn is_skill_run(d: Dispatch, skill: Skill, argv: Seq<Seq<char>>) -> bool {
    d matches Dispatch::Skill { line, outcome } && line@ == using_skill_text(skill) && (if argv.len()
        == 0 {
        outcome matches CommandOutcome::AttachSkill { name } && name@ == skill.name@
    } else {
        outcome matches CommandOutcome::RunSkillPrompt { prompt, skill: with, error_context }
            && prompt@ == joined(argv, " "@) && with@ == skill.name@ && error_context@
            == "skill command failed: "@
    })
}

/// Whether an outcome sends a prompt to the agent as it is.
pub open spec fn is_plain_prompt(d: Dispatch, text: Seq<char>) -> bool {
    d matches Dispatch::Done(CommandOutcome::RunAgentPrompt { prompt, error_context })
        && prompt@ == text && error_context@.len() == 0
}

/// Where an input goes whose command name is `name` and whose arguments are `argv`: help and
/// reload first, then the registered commands, then prompt files, then skills; anything else
/// is a prompt.
pub open spec fn is_dispatch(
    d: Dispatch,
    input: Seq<char>,
    name: Seq<char>,
    argv: Seq<Seq<char>>,
    registry: Registry,
    skills: Seq<Skill>,
) -> bool {
    if name == "help"@ {
        d matches Dispatch::Help { topic } && opt_text(topic) == (if argv.len() == 0 {
            None
        } else {
            Some(argv[0])
        })
    } else if name == "reload"@ {
        d is Reload
    } else {
        match command_pos(registry.commands@, name, 0) {
            Some(i) => d matches Dispatch::Run(k) && k == i,
            None => match file_command_pos(registry.file_commands@, name, 0) {
                Some(i) => is_plain_prompt(
                    d,
                    expanded(registry.file_commands@[i].body@, args_tail(input, name)),
                ),
                None => match resolved_shortcut(skills, registry.commands@, name) {
                    Ok(Some(i)) => is_skill_run(d, skills[i], argv),
                    Ok(None) => is_plain_prompt(d, input),
                    Err(e) => d matches Dispatch::Done(o) && is_error(o, e),
                },
            },
        }
    }
}

/// What running a skill by its name leads to.
pub fn run_skill(skill: &Skill, argv: &Vec<String>) -> (r: Dispatch)
    ensures
        is_skill_run(r, *skill, texts(argv@)),
{
    let mut line = owned("using skill: ");
    line.push_str(skill.name.as_str());
    line.push_str(" (");
    line.push_str(skill.source.label());
    line.push_str(")");
    let outcome = if argv.len() == 0 {
        CommandOutcome::AttachSkill { name: skill.name.clone() }
    } else {
        CommandOutcome::RunSkillPrompt {
            prompt: join(argv, " "),
            skill: skill.name.clone(),
            error_context: owned("skill command failed: "),
        }
    };
    Dispatch::Skill { line, outcome }
}

fn plain_prompt(text: String) -> (r: Dispatch)
    ensures
        is_plain_prompt(r, text@),
{
    Dispatch::Done(CommandOutcome::RunAgentPrompt { prompt: text, error_context: String::new() })
}

/// Where an input goes that was taken apart into a command name and arguments.
pub fn dispatch_command(
    input: &str,
    name: &str,
    argv: &Vec<String>,
    registry: &Registry,
    skills: &Vec<Skill>,
) -> (r: Dispatch)
    ensures
        is_dispatch(r, input@, name@, texts(argv@), *registry, skills@),
{
    if name.eq("help") {
        let topic = if argv.len() == 0 {
            None
        } else {
            Some(argv[0].clone())
        };
        return Dispatch::Help { topic };
    }
    if name.eq("reload") {
        return Dispatch::Reload;
    }
    if let Some(i) = registry.find(name) {
        return Dispatch::Run(i);
    }
    if let Some(i) = registry.find_file_command(name) {
        let tail = args_tail_of(input, name);
        return plain_prompt(expand_file_command(&registry.file_commands[i], tail.as_str()));
    }
    match resolve_skill_shortcut(skills, registry, name) {
        Ok(Some(i)) => run_skill(&skills[i], argv),
        Ok(None) => plain_prompt(owned(input)),
        Err(e) => Dispatch::Done(CommandOutcome::Error(e)),
    }
}

/// Where an input goes; `parsed` is the command name and the arguments of a slash command.
pub fn dispatch(
    input: &str,
    parsed: &Option<(String, Vec<String>)>,
    registry: &Registry,
    skills: &Vec<Skill>,
) -> (r: Dispatch)
    ensures
        match parsed {
            Some(p) => is_dispatch(r, input@, p.0@, texts(p.1@), *registry, skills@),
            None => r matches Dispatch::Done(o) && is_error(o, "not a slash command"@),
        },
{
    match parsed {
        Some(p) => dispatch_command(input, p.0.as_str(), &p.1, registry, skills),
        None => Dispatch::Done(error_outcome("not a slash command")),
    }
}

/// An input whose name no command, prompt file or skill bears reaches the agent unchanged.
pub proof fn law_unknown_name_is_a_prompt(
    d: Dispatch,
    input: Seq<char>,
    name: Seq<char>,
    argv: Seq<Seq<char>>,
    registry: Registry,
    skills: Seq<Skill>,
)
    requires
        is_dispatch(d, input, name, argv, registry, skills),
        name != "help"@,
        name != "reload"@,
        command_pos(registry.commands@, name, 0) is None,
        file_command_pos(registry.file_commands@, name, 0) is None,
        !some_named(skills, name),
    ensures
        is_plain_prompt(d, input),
{
}

/// A prompt file takes precedence over a skill of its name.
pub proof fn law_prompt_file_precedes_skill(
    d: Dispatch,
    input: Seq<char>,
    name: Seq<char>,
    argv: Seq<Seq<char>>,
    registry: Registry,
    skills: Seq<Skill>,
    i: int,
)
    requires
        is_dispatch(d, input, name, argv, registry, skills),
        name != "help"@,
        name != "reload"@,
        command_pos(registry.commands@, name, 0) is None,
        file_command_pos(registry.file_commands@, name, 0) == Some(i),
    ensures
        is_plain_prompt(d, expanded(registry.file_commands@[i].body@, args_tail(input, name))),
{
}

// Reload.

/// The line of one prompt-file command in the report of a reload.
pub open spec fn reloaded_command_text(c: FileCommand) -> Seq<char> {
    if c.description@.len() == 0 {
        "  - /"@ + c.name@
    } else {
        "  - /"@ + c.name@ + " — "@ + c.description@
    }
}

/// The report of a reload for the first `n` prompt-file commands.
pub open spec fn reloaded_commands(v: Seq<FileCommand>, n: int) -> Seq<Seq<char>>
    decreases n,
{
    if n <= 0 || n > v.len() {
        seq!["reloaded commands: "@ + digits(v.len()) + " file command(s)"@]
    } else {
        reloaded_commands(v, n - 1).push(reloaded_command_text(v[n - 1]))
    }
}

/// The report of a reload of prompt files.
pub fn reloaded_commands_lines(scanned: &Vec<FileCommand>) -> (r: Vec<String>)
    ensures
        texts(r@) == reloaded_commands(scanned@, scanned@.len() as int),
{
    let mut r: Vec<String> = Vec::new();
    let mut head = owned("reloaded commands: ");
    head.push_str(decimal_size(scanned.len()).as_str());
    head.push_str(" file command(s)");
    r.push(head);
    assert(texts(r@) =~= seq![head@]);
    let mut i: usize = 0;
    while i < scanned.len()
        invariant
            i <= scanned@.len(),
            texts(r@) == reloaded_commands(scanned@, i as int),
        decreases scanned@.len() - i,
    {
        let c = &scanned[i];
        let mut line = owned("  - /");
        line.push_str(c.name.as_str());
        if !c.description.as_str().is_empty() {
            line.push_str(" — ");
            line.push_str(c.description.as_str());
        }
        r.push(line);
        i += 1;
    }
    r
}

/// The report of a reload of skills.
pub open spec fn reloaded_skills_text(loaded: nat, diagnostics: nat) -> Seq<char> {
    "reloaded skills: "@ + digits(loaded) + " loaded, "@ + digits(diagnostics) + " diagnostics"@
}

/// The report of a reload of skills.
pub fn reloaded_skills_line(loaded: usize, diagnostics: usize) -> (r: String)
    ensures
        r@ == reloaded_skills_text(loaded as nat, diagnostics as nat),
{
    let mut r = owned("reloaded skills: ");
    r.push_str(decimal_size(loaded).as_str());
    r.push_str(" loaded, ");
    r.push_str(decimal_size(diagnostics).as_str());
    r.push_str(" diagnostics");
    r
}

/// `/reload`: the prompt files that were found take the place of the earlier ones, and the
/// report tells of them and of the reload of the skills.
pub fn reload_everything(
    registry: &mut Registry,
    scanned: Vec<FileCommand>,
    skills: &Result<(usize, usize), String>,
) -> (r: Report)
    ensures
        final(registry).file_commands == scanned,
        final(registry).commands == old(registry).commands,
        final(registry).user_home == old(registry).user_home,
        match skills {
            Ok((loaded, diagnostics)) => prints(
                r,
                reloaded_commands(scanned@, scanned@.len() as int).push(
                    reloaded_skills_text(*loaded as nat, *diagnostics as nat),
                ),
            ),
            Err(e) => texts(r.lines@) == reloaded_commands(scanned@, scanned@.len() as int)
                && is_error(r.outcome, "reload skills failed: "@ + e@),
        },
{
    let mut lines = reloaded_commands_lines(&scanned);
    registry.set_file_commands(scanned);
    match skills {
        Ok((loaded, diagnostics)) => {
            lines.push(reloaded_skills_line(*loaded, *diagnostics));
            Report { lines, outcome: CommandOutcome::Handled }
        },
        Err(e) => Report { lines, outcome: failed("reload skills failed: ", e.as_str()) },
    }
}

/// A flag is taken out wherever it stands, and everything else keeps its order.
pub proof fn law_flags_are_taken_out(argv: Seq<Seq<char>>, flag: Seq<char>)
    ensures
        without_flag(argv, flag) == argv.filter(|a: Seq<char>| a != flag),
    decreases argv.len(),
{
    reveal(Seq::filter);
    if argv.len() > 0 {
        law_flags_are_taken_out(argv.drop_last(), flag);
    }
}

proof fn lemma_command_pos(commands: Seq<CommandInfo>, name: Seq<char>, from: int)
    requires
        0 <= from,
    ensures
        match command_pos(commands, name, from) {
            Some(i) => from <= i < commands.len() && answers_to(commands[i], name) && forall|j: int|
                from <= j < i ==> !answers_to(#[trigger] commands[j], name),
            None => forall|j: int|
                from <= j < commands.len() ==> !answers_to(#[trigger] commands[j], name),
        },
    decreases commands.len() - from,
{
    if from < commands.len() && !answers_to(commands[from], name) {
        lemma_command_pos(commands, name, from + 1);
    }
}

/// Of the commands that answer to a name, by their own name or an alias, the first is found.
pub proof fn law_first_command_answers(commands: Seq<CommandInfo>, name: Seq<char>, i: int)
    ensures
        command_pos(commands, name, 0) == Some(i) <==> {
            &&& 0 <= i < commands.len()
            &&& commands[i].name@ == name || texts(commands[i].aliases@).contains(name)
            &&& forall|j: int|
                0 <= j < i ==> (#[trigger] commands[j]).name@ != name && !texts(
                    commands[j].aliases@,
                ).contains(name)
        },
{
    lemma_command_pos(commands, name, 0);
    if let Some(k) = command_pos(commands, name, 0) {
        assert(answers_to(commands[k], name));
        if 0 <= i < k {
            assert(!answers_to(commands[i], name));
        }
        assert forall|j: int| 0 <= j < k implies (#[trigger] commands[j]).name@ != name && !texts(
            commands[j].aliases@,
        ).contains(name) by {
            assert(!answers_to(commands[j], name));
        }
    } else if 0 <= i < commands.len() {
        assert(!answers_to(commands[i], name));
    }
}

proof fn lemma_file_command_pos(v: Seq<FileCommand>, name: Seq<char>, from: int)
    requires
        0 <= from,
    ensures
        match file_command_pos(v, name, from) {
            Some(i) => from <= i < v.len() && v[i].name@ == name && forall|j: int|
                from <= j < i ==> (#[trigger] v[j]).name@ != name,
            None => forall|j: int| from <= j < v.len() ==> (#[trigger] v[j]).name@ != name,
        },
    decreases v.len() - from,
{
    if from < v.len() && v[from].name@ != name {
        lemma_file_command_pos(v, name, from + 1);
    }
}

/// A prompt file is found by its own name.
pub proof fn law_prompt_files_are_found_by_name(v: Seq<FileCommand>, name: Seq<char>, i: int)
    ensures
        file_command_pos(v, name, 0) == Some(i) <==> {
            &&& 0 <= i < v.len()
            &&& v[i].name@ == name
            &&& forall|j: int| 0 <= j < i ==> (#[trigger] v[j]).name@ != name
        },
{
    lemma_file_command_pos(v, name, 0);
}

proof fn lemma_enabled_filter(skills: Seq<Skill>, name: Seq<char>, n: int)
    requires
        0 <= n <= skills.len(),
    ensures
        enabled_count(skills, name, n) == skills.take(n).filter(
            |s: Skill| s.name@ == name && !s.disable_model_invocation,
        ).len(),
    decreases n,
{
    reveal(Seq::filter);
    if n > 0 {
        lemma_enabled_filter(skills, name, n - 1);
        assert(skills.take(n).drop_last() =~= skills.take(n - 1));
    }
}

/// Skills are counted under a name where they bear it and are not disabled.
pub proof fn law_enabled_skills_are_counted(skills: Seq<Skill>, name: Seq<char>)
    ensures
        enabled_count(skills, name, skills.len() as int) == skills.filter(
            |s: Skill| s.name@ == name && !s.disable_model_invocation,
        ).len(),
{
    lemma_enabled_filter(skills, name, skills.len() as int);
    assert(skills.take(skills.len() as int) =~= skills);
}

/// What follows the name of a command and a space is its arguments, as they stand.
pub proof fn law_arguments_follow_the_name(name: Seq<char>, rest: Seq<char>)
    requires
        rest.len() > 0,
        !is_white(rest.last()),
    ensures
        args_tail(seq!['/'] + name + seq![' '] + rest, name) == rest,
{
    let input = seq!['/'] + name + seq![' '] + rest;
    let none = Seq::<char>::empty();
    assert(!is_white(input[0]));
    assert(input.last() == rest.last());
    law_trimming_takes_the_white_space_away(none, input, none);
    assert(none + input + none =~= input);
    let tail = input.skip(1 + name.len() as int);
    assert(tail =~= seq![' '] + rest);
    assert(tail.skip(1) =~= rest);
}

/// A name runs the first that there is of: help and reload, a registered command, a prompt file,
/// a skill. A skill without arguments is attached, and with arguments runs on them.
pub proof fn law_names_run_in_their_order(
    d: Dispatch,
    input: Seq<char>,
    name: Seq<char>,
    argv: Seq<Seq<char>>,
    registry: Registry,
    skills: Seq<Skill>,
)
    requires
        is_dispatch(d, input, name, argv, registry, skills),
        name != "help"@,
        name != "reload"@,
    ensures
        d is Run <==> command_pos(registry.commands@, name, 0) is Some,
        d matches Dispatch::Run(k) ==> k < registry.commands@.len() && answers_to(
            registry.commands@[k as int],
            name,
        ),
        d matches Dispatch::Skill { line, outcome } ==> {
            &&& command_pos(registry.commands@, name, 0) is None
            &&& file_command_pos(registry.file_commands@, name, 0) is None
            &&& argv.len() == 0 ==> (outcome matches CommandOutcome::AttachSkill { name: n } && n@
                == name)
            &&& argv.len() > 0 ==> (outcome matches CommandOutcome::RunSkillPrompt {
                prompt,
                skill,
                ..
            } && prompt@ == joined(argv, " "@) && skill@ == name)
        },
        d !is Help && d !is Reload,
{
    lemma_command_pos(registry.commands@, name, 0);
    law_shortcut_runs_an_enabled_skill(skills, registry.commands@, name);
}

/// A preview is the beginning of a text on one line, with an ellipsis where something is left
/// out.
pub proof fn law_previews_show_the_beginning(text: Seq<char>, max: int, i: int)
    requires
        0 <= max,
    ensures
        preview(text, max).len() == if text.len() <= max {
            text.len() as int
        } else {
            max + 1
        },
        text.len() > max ==> preview(text, max).last() == '…',
        0 <= i < text.len() && i < max ==> preview(text, max)[i] == if text[i] == '\n' {
            ' '
        } else {
            text[i]
        },
{
}

} // verus!
