//! The system prompt: how the harness works, which tools there are, the environment, and where
//! the session comes from.

use crate::order::{
    dedup_texts, deduped, distinct, distinct_texts, lemma_deduped, lemma_distinct,
    lemma_sorted_contains, sort_texts, sorted_texts,
};
use crate::text::{
    chars_of, contains, contains_text, is_blank, is_white, join, joined,
    law_joined_texts_hold_their_parts, law_parts_stand_in_the_whole,
    law_texts_hold_what_their_parts_hold, law_trimming_takes_the_white_space_away,
    lemma_texts_empty, lemma_texts_push, lines, owned, replace, replaced, split_lines, starts_with,
    starts_with_text, strip_leading, text_of, texts, trim_end, trimmed, trimmed_end,
    without_leading,
};
use vstd::prelude::*;

verus! {

broadcast use {lemma_texts_push, lemma_texts_empty};

pub const DEFAULT_INTRO: &'static str =
    "You are theway, a minimal coding assistant running in a terminal.";

/// The part of the prompt on the harness and its tools, with two holes.
pub const BASE_TEMPLATE: &'static str =
    "\n<harness>\n{intro}\n\nSession model: the conversation is stored as append-only session entries (messages, custom facts, compaction and branch summaries). Compaction replaces older entries with a summary plus a recent tail; collapsed sessions become session graph nodes and their raw transcript stays available through session_graph_read.\n\nExploration: read files before editing; use outline for large-file structure, then read with offset/limit; use grep for repository search. Tool outputs larger than the context budget are virtualized and can be paged back on demand.\n\nGraph and subagent orchestration: dag_* tools plan and monitor dependent subagent runs; subagents run in isolated contexts and return summaries; session_graph_* tools inspect or take over collapsed session graphs. Use todo_write for linear plans and dag_plan for 2+ dependent subtasks.\n\nBehavioral rules:\nPrefer running a tool over guessing. When making file changes, read the file first to confirm the exact current contents, then edit or write. Keep responses concise.\nWhen the user asks for a fixed time, recurring, scheduled, hourly, daily, weekly, crontab, 定时任务, 每小时, or similar time-based job, call new_cron_job instead of new_trigger.\nWhen the user asks to view, list, show, inspect, or find scheduled jobs or cron job ids, call list_cron_jobs.\nWhen the user asks to pause or disable a scheduled job or cron job, call set_cron_job_state with enabled=false; enabling/resuming should point the user to /cron enable <id> until confirmation support is wired.\nWhen the user asks to delete, remove, or clear scheduled jobs or cron jobs, call remove_cron_job first with confirm=false to preview, then only call confirm=true after explicit user confirmation.\nWhen the user asks to create a trigger, reminder, watcher, or automation, call new_trigger and extract a natural-language condition and action from their request. Dynamic triggers fire once by default; set fire_once=false only when the user explicitly asks for a repeating trigger. Trigger output is shown in the TUI and audit by default; set promote_to_chat=true only when the user explicitly asks for trigger results to enter the main chat context or be visible to future turns.\nWhen the user asks to view, list, show, inspect, or find trigger ids, call list_triggers.\nWhen the user asks to pause, disable, enable, or resume a dynamic trigger, call set_trigger_state.\nWhen the user asks to delete, remove, or clear dynamic triggers, call remove_trigger.\nWhen the user asks to create, save, or codify a reusable skill, workflow, checklist, or convention, or to summarize recent work or this conversation into a skill (技能, 保存为技能, 把刚才的工作总结成 skill), call skill_builder with structured name/description/instructions. For summarize-into-skill requests, distill the generalizable steps from the conversation — what was actually done, the commands used, the pitfalls — not a transcript. Call once without confirm to preview and show the user the planned name and description, then call with confirm=true after they agree. Use install_skill only for installing an existing SKILL.md from a URL, file, or pasted content.\n</harness>\n\n<tools>\n{inventory}\n</tools>\n";

/// The group that a tool is listed in.
pub open spec fn category(name: Seq<char>) -> Seq<char> {
    if starts_with_text(name, "dag_"@) || starts_with_text(name, "subagent"@) || starts_with_text(
        name,
        "agent_profile_"@,
    ) || name == "todo_write"@ || name == "ask_user"@ {
        "Orchestration & planning"@
    } else if starts_with_text(name, "session_graph_"@) {
        "Session graph"@
    } else if starts_with_text(name, "memory_"@) || starts_with_text(name, "enhanced_"@) || name
        == "grep"@ || name == "outline"@ || name == "read_output"@ || name == "find_file_by_name"@
        || starts_with_text(name, "crg__"@) {
        "Context & search"@
    } else if name == "read"@ || name == "write"@ || name == "edit"@ || name == "ls"@ || name
        == "find"@ || name == "git"@ {
        "Files"@
    } else if starts_with_text(name, "web_"@) {
        "Web"@
    } else if name == "bash"@ || name == "exec"@ || name == "get_output"@ || name == "kill_shell"@
        || name == "write_to_process"@ {
        "Execution"@
    } else if contains_text(name, "cron"@) || contains_text(name, "trigger"@) || starts_with_text(
        name,
        "skill"@,
    ) || starts_with_text(name, "install_skill"@) || starts_with_text(name, "remove_skill"@)
        || starts_with_text(name, "set_skill_state"@) {
        "Automation & skills"@
    } else {
        "Other"@
    }
}

/// The group that a tool is listed in.
pub fn tool_category(name: &str) -> (r: &'static str)
    ensures
        r@ == category(name@),
{
    if starts_with(name, "dag_") || starts_with(name, "subagent") || starts_with(
        name,
        "agent_profile_",
    ) || name.eq("todo_write") || name.eq("ask_user") {
        "Orchestration & planning"
    } else if starts_with(name, "session_graph_") {
        "Session graph"
    } else if starts_with(name, "memory_") || starts_with(name, "enhanced_") || name.eq("grep")
        || name.eq("outline") || name.eq("read_output") || name.eq("find_file_by_name")
        || starts_with(name, "crg__") {
        "Context & search"
    } else if name.eq("read") || name.eq("write") || name.eq("edit") || name.eq("ls") || name.eq(
        "find",
    ) || name.eq("git") {
        "Files"
    } else if starts_with(name, "web_") {
        "Web"
    } else if name.eq("bash") || name.eq("exec") || name.eq("get_output") || name.eq("kill_shell")
        || name.eq("write_to_process") {
        "Execution"
    } else if contains(name, "cron") || contains(name, "trigger") || starts_with(name, "skill")
        || starts_with(name, "install_skill") || starts_with(name, "remove_skill") || starts_with(
        name,
        "set_skill_state",
    ) {
        "Automation & skills"
    } else {
        "Other"
    }
}

/// The groups of tools.
pub open spec fn categories(names: Seq<Seq<char>>) -> Seq<Seq<char>> {
    Seq::new(names.len(), |i: int| category(names[i]))
}

/// The tools of a group, among the first `n`.
pub open spec fn in_category(names: Seq<Seq<char>>, group: Seq<char>, n: int) -> Seq<Seq<char>>
    decreases n,
{
    if n <= 0 || n > names.len() {
        Seq::empty()
    } else if category(names[n - 1]) == group {
        in_category(names, group, n - 1).push(names[n - 1])
    } else {
        in_category(names, group, n - 1)
    }
}

/// The line of a group: its tools in order, each once.
pub open spec fn group_line(names: Seq<Seq<char>>, group: Seq<char>) -> Seq<char> {
    "- "@ + group + ": "@ + joined(
        deduped(sorted_texts(in_category(names, group, names.len() as int))),
        ", "@,
    )
}

/// The lines of the first `n` groups.
pub open spec fn group_lines(names: Seq<Seq<char>>, groups: Seq<Seq<char>>, n: int) -> Seq<Seq<char>>
    decreases n,
{
    if n <= 0 || n > groups.len() {
        Seq::empty()
    } else {
        group_lines(names, groups, n - 1).push(group_line(names, groups[n - 1]))
    }
}

/// The list of the tools: a line for each group, in the order in which the groups first occur.
pub open spec fn tool_inventory(names: Seq<Seq<char>>) -> Seq<char> {
    if names.len() == 0 {
        "no tools registered"@
    } else {
        let groups = distinct(categories(names));
        joined(group_lines(names, groups, groups.len() as int), "\n"@)
    }
}

fn tools_in(names: &Vec<String>, group: &str) -> (r: Vec<String>)
    ensures
        texts(r@) == in_category(texts(names@), group@, names@.len() as int),
{
    let mut r: Vec<String> = Vec::new();
    let ghost all = texts(names@);
    let mut i: usize = 0;
    while i < names.len()
        invariant
            i <= names@.len(),
            all == texts(names@),
            texts(r@) == in_category(all, group@, i as int),
        decreases names@.len() - i,
    {
        assert(all[i as int] == names@[i as int]@);
        if tool_category(names[i].as_str()).eq(group) {
            r.push(names[i].clone());
        }
        i += 1;
    }
    r
}

/// The list of the tools.
pub fn render_tool_inventory(names: &Vec<String>) -> (r: String)
    ensures
        r@ == tool_inventory(texts(names@)),
{
    if names.len() == 0 {
        return owned("no tools registered");
    }
    let ghost all = texts(names@);
    let mut labels: Vec<String> = Vec::new();
    let mut i: usize = 0;
    assert(texts(labels@) =~= categories(all).take(0));
    while i < names.len()
        invariant
            i <= names@.len(),
            all == texts(names@),
            texts(labels@) == categories(all).take(i as int),
        decreases names@.len() - i,
    {
        labels.push(owned(tool_category(names[i].as_str())));
        assert(all[i as int] == names@[i as int]@);
        assert(categories(all).take(i + 1) =~= categories(all).take(i as int).push(
            category(all[i as int]),
        ));
        i += 1;
    }
    assert(categories(all).take(i as int) =~= categories(all));
    let groups = distinct_texts(&labels);
    let ghost each = texts(groups@);
    let mut out: Vec<String> = Vec::new();
    let mut k: usize = 0;
    while k < groups.len()
        invariant
            k <= groups@.len(),
            all == texts(names@),
            each == texts(groups@),
            texts(out@) == group_lines(all, each, k as int),
        decreases groups@.len() - k,
    {
        assert(each[k as int] == groups@[k as int]@);
        let listed = dedup_texts(&sort_texts(&tools_in(names, groups[k].as_str())));
        let mut line = owned("- ");
        line.push_str(groups[k].as_str());
        line.push_str(": ");
        line.push_str(join(&listed, ", ").as_str());
        out.push(line);
        k += 1;
    }
    join(&out, "\n")
}

/// How many spaces a line begins with.
pub open spec fn indent_of(line: Seq<char>) -> nat
    decreases line.len(),
{
    if line.len() > 0 && line[0] == ' ' {
        1 + indent_of(line.skip(1))
    } else {
        0
    }
}

/// The least indentation of the first `n` lines that are not blank.
pub open spec fn common_indent(v: Seq<Seq<char>>, n: int) -> Option<nat>
    decreases n,
{
    if n <= 0 || n > v.len() {
        None
    } else {
        let before = common_indent(v, n - 1);
        if trimmed(v[n - 1]).len() == 0 {
            before
        } else {
            match before {
                Some(least) => if indent_of(v[n - 1]) < least {
                    Some(indent_of(v[n - 1]))
                } else {
                    Some(least)
                },
                None => Some(indent_of(v[n - 1])),
            }
        }
    }
}

/// A line without an indentation.
pub open spec fn dedented_line(line: Seq<char>, indent: int) -> Seq<char> {
    if line.len() > indent {
        line.skip(indent)
    } else {
        trimmed_end(line)
    }
}

/// The first `n` lines without an indentation.
pub open spec fn dedented_lines(v: Seq<Seq<char>>, indent: int, n: int) -> Seq<Seq<char>>
    decreases n,
{
    if n <= 0 || n > v.len() {
        Seq::empty()
    } else {
        dedented_lines(v, indent, n - 1).push(dedented_line(v[n - 1], indent))
    }
}

/// A text without the indentation that its lines have in common.
pub open spec fn dedented(text: Seq<char>) -> Seq<char> {
    let v = lines(text);
    let indent = match common_indent(v, v.len() as int) {
        Some(n) => n as int,
        None => 0,
    };
    joined(dedented_lines(v, indent, v.len() as int), "\n"@)
}

fn count_indent(line: &str) -> (r: usize)
    ensures
        r == indent_of(line@),
{
    let v = chars_of(line);
    let mut i: usize = 0;
    assert(v@.skip(0) =~= v@);
    while i < v.len() && v[i] == ' '
        invariant
            i <= v@.len(),
            indent_of(v@) == i + indent_of(v@.skip(i as int)),
        decreases v@.len() - i,
    {
        assert(v@.skip(i as int).skip(1) =~= v@.skip(i + 1));
        i += 1;
    }
    i
}

fn dedent_line(line: &str, indent: usize) -> (r: String)
    ensures
        r@ == dedented_line(line@, indent as int),
{
    let v = chars_of(line);
    let end: usize = v.len();
    if end > indent {
        assert(v@.subrange(indent as int, end as int) =~= v@.skip(indent as int));
        text_of(&v, indent, end)
    } else {
        trim_end(line)
    }
}

/// A text without the indentation that its lines have in common.
pub fn dedent(text: &str) -> (r: String)
    ensures
        r@ == dedented(text@),
{
    let all = split_lines(text);
    let ghost v = texts(all@);
    let mut least: Option<usize> = None;
    let mut i: usize = 0;
    while i < all.len()
        invariant
            i <= all@.len(),
            v == texts(all@),
            match least {
                Some(n) => common_indent(v, i as int) == Some(n as nat),
                None => common_indent(v, i as int) is None,
            },
        decreases all@.len() - i,
    {
        assert(v[i as int] == all@[i as int]@);
        if !is_blank(all[i].as_str()) {
            let n = count_indent(all[i].as_str());
            least = match least {
                Some(m) => if n < m {
                    Some(n)
                } else {
                    Some(m)
                },
                None => Some(n),
            };
        }
        i += 1;
    }
    let indent: usize = match least {
        Some(n) => n,
        None => 0,
    };
    let mut out: Vec<String> = Vec::new();
    let mut k: usize = 0;
    while k < all.len()
        invariant
            k <= all@.len(),
            v == texts(all@),
            texts(out@) == dedented_lines(v, indent as int, k as int),
        decreases all@.len() - k,
    {
        assert(v[k as int] == all@[k as int]@);
        out.push(dedent_line(all[k].as_str(), indent));
        k += 1;
    }
    join(&out, "\n")
}

/// The part of the prompt on the harness and its tools.
pub open spec fn base_prompt(names: Seq<Seq<char>>, intro: Option<Seq<char>>) -> Seq<char> {
    dedented(
        trimmed_end(
            without_leading(
                replaced(
                    replaced(
                        BASE_TEMPLATE@,
                        "{intro}"@,
                        match intro {
                            Some(i) => i,
                            None => DEFAULT_INTRO@,
                        },
                    ),
                    "{inventory}"@,
                    tool_inventory(names),
                ),
                '\n',
            ),
        ),
    )
}

fn render_base_prompt(names: &Vec<String>, intro: Option<&str>) -> (r: String)
    ensures
        r@ == base_prompt(
            texts(names@),
            match intro {
                Some(i) => Some(i@),
                None => None,
            },
        ),
{
    let intro = match intro {
        Some(i) => i,
        None => DEFAULT_INTRO,
    };
    proof {
        reveal_strlit("{intro}");
        reveal_strlit("{inventory}");
    }
    let inventory = render_tool_inventory(names);
    let introduced = replace(BASE_TEMPLATE, "{intro}", intro);
    let rendered = replace(introduced.as_str(), "{inventory}", inventory.as_str());
    dedent(trim_end(strip_leading(rendered.as_str(), '\n').as_str()).as_str())
}

/// The part of the prompt on the environment.
pub open spec fn environment_part(cwd: Seq<char>, memory: Seq<char>) -> Seq<char> {
    "\n\n<environment>\n"@ + "Current working directory: "@ + cwd + "\n"@ + (if memory.len() == 0 {
        Seq::empty()
    } else {
        "<memory>\n"@ + memory + "\n</memory>\n"@
    }) + "</environment>"@
}

/// The part of the prompt on where the session comes from.
pub open spec fn lineage_part(lineage: Option<Seq<char>>) -> Seq<char> {
    match lineage {
        Some(l) => if trimmed(l).len() == 0 {
            Seq::empty()
        } else {
            "\n\n<lineage>\n"@ + l + "\n</lineage>"@
        },
        None => Seq::empty(),
    }
}

/// The whole system prompt.
pub open spec fn system_prompt(
    cwd: Seq<char>,
    memory: Seq<char>,
    names: Seq<Seq<char>>,
    lineage: Option<Seq<char>>,
    intro: Option<Seq<char>>,
) -> Seq<char> {
    base_prompt(names, intro) + environment_part(cwd, memory) + lineage_part(lineage)
}

pub open spec fn opt_str(o: Option<&str>) -> Option<Seq<char>> {
    match o {
        Some(s) => Some(s@),
        None => None,
    }
}

/// The whole system prompt.
pub fn compose_system_prompt(
    cwd: &str,
    memory: &str,
    tool_names: &Vec<String>,
    lineage: Option<&str>,
    harness_intro: Option<&str>,
) -> (r: String)
    ensures
        r@ == system_prompt(
            cwd@,
            memory@,
            texts(tool_names@),
            opt_str(lineage),
            opt_str(harness_intro),
        ),
{
    let mut environment = owned("\n\n<environment>\n");
    environment.push_str("Current working directory: ");
    environment.push_str(cwd);
    environment.push_str("\n");
    if !memory.is_empty() {
        let mut block = owned("<memory>\n");
        block.push_str(memory);
        block.push_str("\n</memory>\n");
        environment.push_str(block.as_str());
    } else {
        assert(environment@ + Seq::<char>::empty() =~= environment@);
    }
    environment.push_str("</environment>");
    let mut s = render_base_prompt(tool_names, harness_intro);
    s.push_str(environment.as_str());
    let ghost head = s@;
    assert(head + Seq::<char>::empty() =~= head);
    if let Some(l) = lineage {
        if !is_blank(l) {
            let mut block = owned("\n\n<lineage>\n");
            block.push_str(l);
            block.push_str("\n</lineage>");
            s.push_str(block.as_str());
        }
    }
    s
}

// Laws.

/// A blank lineage leaves the prompt as it is without one.
pub proof fn law_blank_lineage_is_left_out(
    cwd: Seq<char>,
    memory: Seq<char>,
    names: Seq<Seq<char>>,
    lineage: Seq<char>,
    intro: Option<Seq<char>>,
)
    requires
        trimmed(lineage).len() == 0,
    ensures
        system_prompt(cwd, memory, names, Some(lineage), intro) == system_prompt(
            cwd,
            memory,
            names,
            None,
            intro,
        ),
{
}

proof fn lemma_in_category(names: Seq<Seq<char>>, group: Seq<char>, n: int, i: int)
    requires
        0 <= i < n <= names.len(),
        category(names[i]) == group,
    ensures
        in_category(names, group, n).contains(names[i]),
    decreases n,
{
    let all = in_category(names, group, n);
    let before = in_category(names, group, n - 1);
    if i == n - 1 {
        assert(all[before.len() as int] == names[i]);
    } else {
        lemma_in_category(names, group, n - 1, i);
        let j = choose|j: int| 0 <= j < before.len() && before[j] == names[i];
        assert(all[j] == names[i]);
    }
}

/// Every tool is listed in its group, and every group once.
pub proof fn law_every_tool_is_listed(names: Seq<Seq<char>>, i: int)
    requires
        0 <= i < names.len(),
    ensures
        distinct(categories(names)).contains(category(names[i])),
        distinct(categories(names)).no_duplicates(),
        deduped(
            sorted_texts(in_category(names, category(names[i]), names.len() as int)),
        ).contains(names[i]),
{
    let group = category(names[i]);
    lemma_distinct(categories(names));
    assert(categories(names)[i] == group);
    assert(categories(names).contains(group));
    let tools = in_category(names, group, names.len() as int);
    lemma_in_category(names, group, names.len() as int, i);
    lemma_sorted_contains(tools, names[i]);
    lemma_deduped(sorted_texts(tools));
}

proof fn lemma_group_lines(names: Seq<Seq<char>>, groups: Seq<Seq<char>>, n: int, k: int)
    requires
        0 <= k < n <= groups.len(),
    ensures
        group_lines(names, groups, n).len() == n,
        group_lines(names, groups, n)[k] == group_line(names, groups[k]),
    decreases n,
{
    reveal_with_fuel(group_lines, 2);
    if n > 1 {
        if k < n - 1 {
            lemma_group_lines(names, groups, n - 1, k);
        } else {
            lemma_group_lines(names, groups, n - 1, 0);
        }
    }
}

/// Every tool is named in the inventory.
pub proof fn law_the_inventory_names_every_tool(names: Seq<Seq<char>>, i: int)
    requires
        0 <= i < names.len(),
    ensures
        contains_text(tool_inventory(names), names[i]),
{
    law_every_tool_is_listed(names, i);
    let groups = distinct(categories(names));
    let group = category(names[i]);
    let k = choose|k: int| 0 <= k < groups.len() && groups[k] == group;
    let lines = group_lines(names, groups, groups.len() as int);
    lemma_group_lines(names, groups, groups.len() as int, k);
    law_joined_texts_hold_their_parts(lines, "\n"@, k);
    let listed = deduped(sorted_texts(in_category(names, group, names.len() as int)));
    let j = choose|j: int| 0 <= j < listed.len() && listed[j] == names[i];
    law_joined_texts_hold_their_parts(listed, ", "@, j);
    let inner = joined(listed, ", "@);
    let head = "- "@ + group + ": "@;
    let none = Seq::<char>::empty();
    law_parts_stand_in_the_whole(head, inner, none);
    assert(head + inner + none =~= lines[k]);
    law_texts_hold_what_their_parts_hold(lines[k], inner, names[i]);
    law_texts_hold_what_their_parts_hold(joined(lines, "\n"@), lines[k], names[i]);
}

/// The prompt tells the directory that the agent works in, what it remembers, and where the
/// session comes from, as far as there is anything to tell.
pub proof fn law_prompts_tell_the_environment(
    cwd: Seq<char>,
    memory: Seq<char>,
    names: Seq<Seq<char>>,
    lineage: Option<Seq<char>>,
    intro: Option<Seq<char>>,
)
    ensures
        ({
            let prompt = system_prompt(cwd, memory, names, lineage, intro);
            &&& contains_text(prompt, "Current working directory: "@ + cwd + "\n"@)
            &&& memory.len() > 0 ==> contains_text(
                prompt,
                "<memory>\n"@ + memory + "\n</memory>\n"@,
            )
            &&& lineage matches Some(l) ==> (trimmed(l).len() > 0 ==> contains_text(
                prompt,
                "\n\n<lineage>\n"@ + l + "\n</lineage>"@,
            ))
            &&& contains_text(prompt, base_prompt(names, intro))
        }),
{
    let prompt = system_prompt(cwd, memory, names, lineage, intro);
    let base = base_prompt(names, intro);
    let env = environment_part(cwd, memory);
    let from = lineage_part(lineage);
    let none = Seq::<char>::empty();
    law_parts_stand_in_the_whole(base, env, from);
    law_parts_stand_in_the_whole(none, base, env + from);
    assert(none + base + (env + from) =~= prompt);
    law_parts_stand_in_the_whole(base + env, from, none);
    assert(base + env + from + none =~= prompt);
    lemma_environment_part(cwd, memory);
    law_texts_hold_what_their_parts_hold(
        prompt,
        env,
        "Current working directory: "@ + cwd + "\n"@,
    );
    if memory.len() > 0 {
        law_texts_hold_what_their_parts_hold(
            prompt,
            env,
            "<memory>\n"@ + memory + "\n</memory>\n"@,
        );
    }
}

proof fn lemma_environment_part(cwd: Seq<char>, memory: Seq<char>)
    ensures
        contains_text(
            environment_part(cwd, memory),
            "Current working directory: "@ + cwd + "\n"@,
        ),
        memory.len() > 0 ==> contains_text(
            environment_part(cwd, memory),
            "<memory>\n"@ + memory + "\n</memory>\n"@,
        ),
{
    let env = environment_part(cwd, memory);
    let open = "\n\n<environment>\n"@;
    let dir = "Current working directory: "@ + cwd + "\n"@;
    let known = if memory.len() == 0 {
        Seq::empty()
    } else {
        "<memory>\n"@ + memory + "\n</memory>\n"@
    };
    let close = "</environment>"@;
    law_parts_stand_in_the_whole(open, dir, known + close);
    assert(open + dir + (known + close) =~= env);
    law_parts_stand_in_the_whole(open + dir, known, close);
    assert(open + dir + known + close =~= env);
}

/// Tools are grouped by what their names begin with: those of graphs and agents, of the session
/// graph, and of the web.
#[verifier::spinoff_prover]
pub proof fn law_tools_are_grouped_by_their_prefix(name: Seq<char>)
    ensures
        starts_with_text(name, "dag_"@) || starts_with_text(name, "subagent"@) ==> category(name)
            == "Orchestration & planning"@,
        starts_with_text(name, "session_graph_"@) ==> category(name) == "Session graph"@,
        starts_with_text(name, "memory_"@) ==> category(name) == "Context & search"@,
        starts_with_text(name, "web_"@) ==> category(name) == "Web"@,
{
    reveal_strlit("dag_");
    reveal_strlit("subagent");
    reveal_strlit("agent_profile_");
    reveal_strlit("todo_write");
    reveal_strlit("ask_user");
    reveal_strlit("session_graph_");
    reveal_strlit("memory_");
    reveal_strlit("enhanced_");
    reveal_strlit("grep");
    reveal_strlit("outline");
    reveal_strlit("read_output");
    reveal_strlit("find_file_by_name");
    reveal_strlit("crg__");
    reveal_strlit("read");
    reveal_strlit("write");
    reveal_strlit("edit");
    reveal_strlit("ls");
    reveal_strlit("find");
    reveal_strlit("git");
    reveal_strlit("web_");
    if starts_with_text(name, "session_graph_"@) {
        assert(name.subrange(0, 14)[0] == name[0] && name.subrange(0, 14)[1] == name[1]);
        lemma_begins(name, "dag_"@, 4);
        lemma_begins(name, "subagent"@, 8);
        lemma_begins(name, "agent_profile_"@, 14);
        assert("todo_write"@[0] == 't' && "ask_user"@[0] == 'a');
    }
    if starts_with_text(name, "memory_"@) {
        assert(name.subrange(0, 7)[0] == name[0]);
        lemma_begins(name, "dag_"@, 4);
        lemma_begins(name, "subagent"@, 8);
        lemma_begins(name, "agent_profile_"@, 14);
        lemma_begins(name, "session_graph_"@, 14);
        assert("todo_write"@[0] == 't' && "ask_user"@[0] == 'a');
    }
    if starts_with_text(name, "web_"@) {
        assert(name.subrange(0, 4)[0] == name[0] && name.subrange(0, 4)[1] == name[1]);
        lemma_begins(name, "dag_"@, 4);
        lemma_begins(name, "subagent"@, 8);
        lemma_begins(name, "agent_profile_"@, 14);
        lemma_begins(name, "session_graph_"@, 14);
        lemma_begins(name, "memory_"@, 7);
        lemma_begins(name, "enhanced_"@, 9);
        lemma_begins(name, "crg__"@, 5);
        assert("todo_write"@[0] == 't' && "ask_user"@[0] == 'a' && "grep"@[0] == 'g');
        assert("outline"@[0] == 'o' && "read_output"@[0] == 'r' && "find_file_by_name"@[0] == 'f');
        assert("read"@[0] == 'r' && "write"@[1] == 'r' && "edit"@[0] == 'e' && "ls"@[0] == 'l');
        assert("find"@[0] == 'f' && "git"@[0] == 'g');
    }
}

proof fn lemma_begins(name: Seq<char>, pat: Seq<char>, n: int)
    requires
        pat.len() == n,
        n >= 2,
    ensures
        starts_with_text(name, pat) ==> name.len() >= n && name[0] == pat[0] && name[1] == pat[1],
{
    if starts_with_text(name, pat) {
        assert(name.subrange(0, n)[0] == name[0]);
        assert(name.subrange(0, n)[1] == name[1]);
    }
}

proof fn lemma_indent_of(line: Seq<char>)
    ensures
        indent_of(line) <= line.len(),
        forall|i: int| 0 <= i < indent_of(line) ==> #[trigger] line[i] == ' ',
        indent_of(line) < line.len() ==> line[indent_of(line) as int] != ' ',
    decreases line.len(),
{
    if line.len() > 0 && line[0] == ' ' {
        lemma_indent_of(line.skip(1));
        assert forall|i: int| 0 <= i < indent_of(line) implies #[trigger] line[i] == ' ' by {
            if i > 0 {
                assert(line[i] == line.skip(1)[i - 1]);
            }
        }
    }
}

proof fn lemma_indent_is_less(line: Seq<char>)
    requires
        trimmed(line).len() > 0,
    ensures
        indent_of(line) < line.len(),
{
    lemma_indent_of(line);
    if indent_of(line) == line.len() {
        let none = Seq::<char>::empty();
        assert forall|i: int| 0 <= i < line.len() implies is_white(#[trigger] line[i]) by {
            assert(line[i] == ' ');
        }
        law_trimming_takes_the_white_space_away(line, none, none);
        assert(line + none + none =~= line);
    }
}

proof fn lemma_common_indent(v: Seq<Seq<char>>, n: int)
    requires
        0 <= n <= v.len(),
    ensures
        common_indent(v, n) is None ==> forall|i: int|
            0 <= i < n ==> trimmed(#[trigger] v[i]).len() == 0,
        common_indent(v, n) matches Some(m) ==> (forall|i: int|
            0 <= i < n && trimmed(#[trigger] v[i]).len() > 0 ==> m <= indent_of(v[i])) && (exists|
            i: int,
        |
            0 <= i < n && trimmed(#[trigger] v[i]).len() > 0 && indent_of(v[i]) == m),
    decreases n,
{
    if n > 0 {
        lemma_common_indent(v, n - 1);
        let before = common_indent(v, n - 1);
        if common_indent(v, n) is Some {
            let m = common_indent(v, n)->0;
            if trimmed(v[n - 1]).len() > 0 && indent_of(v[n - 1]) == m {
                assert(trimmed(v[n - 1]).len() > 0 && indent_of(v[n - 1]) == m);
            } else {
                assert(before == Some(m));
            }
        }
    }
}

proof fn lemma_dedented_lines(v: Seq<Seq<char>>, indent: int, n: int)
    requires
        0 <= n <= v.len(),
    ensures
        dedented_lines(v, indent, n).len() == n,
        forall|i: int|
            0 <= i < n ==> #[trigger] dedented_lines(v, indent, n)[i] == dedented_line(
                v[i],
                indent,
            ),
    decreases n,
{
    if n > 0 {
        lemma_dedented_lines(v, indent, n - 1);
    }
}

/// A text loses the spaces that all its lines begin with, and nothing else of a line that is
/// not blank: each has the same number of spaces less, and one of them begins with none.
pub proof fn law_only_the_common_spaces_are_taken_away(text: Seq<char>) -> (m: nat)
    ensures
        ({
            let v = lines(text);
            let w = dedented_lines(v, m as int, v.len() as int);
            &&& dedented(text) == joined(w, "\n"@)
            &&& w.len() == v.len()
            &&& forall|i: int|
                0 <= i < v.len() && trimmed(#[trigger] v[i]).len() > 0 ==> v[i] == Seq::new(
                    m,
                    |k: int| ' ',
                ) + w[i]
            &&& (exists|i: int| 0 <= i < v.len() && trimmed(#[trigger] v[i]).len() > 0)
                ==> exists|i: int|
                0 <= i < v.len() && trimmed(#[trigger] v[i]).len() > 0 && w[i].len() > 0 && w[i][0]
                    != ' '
        }),
{
    let v = lines(text);
    let n = v.len() as int;
    lemma_common_indent(v, n);
    let m: nat = match common_indent(v, n) {
        Some(m) => m,
        None => 0,
    };
    let w = dedented_lines(v, m as int, n);
    lemma_dedented_lines(v, m as int, n);
    assert forall|i: int| 0 <= i < n && trimmed(#[trigger] v[i]).len() > 0 implies v[i] == Seq::new(
        m,
        |k: int| ' ',
    ) + w[i] by {
        lemma_indent_is_less(v[i]);
        lemma_indent_of(v[i]);
        assert(w[i] == v[i].skip(m as int));
        assert(v[i] =~= Seq::new(m, |k: int| ' ') + w[i]);
    }
    if exists|i: int| 0 <= i < n && trimmed(#[trigger] v[i]).len() > 0 {
        assert(common_indent(v, n) is Some);
        let i = choose|i: int|
            0 <= i < n && trimmed(#[trigger] v[i]).len() > 0 && indent_of(v[i]) == m;
        lemma_indent_is_less(v[i]);
        lemma_indent_of(v[i]);
        assert(w[i] == v[i].skip(m as int));
        assert(w[i][0] == v[i][m as int]);
    }
    m
}

} // verus!
