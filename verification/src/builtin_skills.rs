//! The built-in skill catalog.
//!
//! Built-in skills are off unless the command line or the configuration names them. An
//! unknown name on the command line is an error, one in the configuration a diagnostic;
//! neither ever enables anything. A user or project skill of the same name takes the place
//! of a built-in one.

use crate::json::{
    array_member, items_view, opt_json, member, string_in, toml_content, Json, JsonView,
};
use crate::order::{
    dedup_texts, deduped, has_text, lemma_deduped, lemma_sorted_contains, lemma_sorted_texts,
    is_distinct, is_sorted, sort_texts, sorted_texts,
};
use crate::skill::{find_skill, lemma_skill_pos, skill_pos, Skill, SkillSource};
use crate::text::{
    char_pos, chars_of, find_char, find_chars, find_from, join, joined, owned, starts_with_text,
    text_of, texts, without_leading,
};
use vstd::prelude::*;

verus! {

/// One skill that is bundled with the daemon.
#[derive(Debug)]
pub struct BuiltinSpec {
    /// Stable lower-case name; the frontmatter of the document bears the same.
    pub name: &'static str,
    /// Short description for listings; the frontmatter bears the same.
    pub description: &'static str,
    /// The whole document, frontmatter included.
    pub raw_markdown: &'static str,
}

pub const KARPATHY_NAME: &'static str = "karpathy-guidelines";

pub const KARPATHY_DESCRIPTION: &'static str =
    "Behavioral guidelines to reduce common LLM coding mistakes. Use when writing, reviewing, or refactoring code to avoid overcomplication, make surgical changes, surface assumptions, and define verifiable success criteria.";

pub const KARPATHY_MARKDOWN: &'static str =
    "---\nname: karpathy-guidelines\ndescription: Behavioral guidelines to reduce common LLM coding mistakes. Use when writing, reviewing, or refactoring code to avoid overcomplication, make surgical changes, surface assumptions, and define verifiable success criteria.\nlicense: MIT\n---\n\n# Karpathy Guidelines\n\nBehavioral guidelines to reduce common LLM coding mistakes. They favour caution over speed;\nfor a trivial task, use judgment.\n\n## 1. Think Before Coding\n\nDo not assume, do not hide confusion, and surface tradeoffs. State assumptions, name the\nreadings of an ambiguous request, and ask where something stays unclear.\n\n## 2. Simplicity First\n\nWrite the least code that solves the problem. Add no feature, option or abstraction that was\nnot asked for.\n\n## 3. Surgical Changes\n\nTouch only what the task needs. Match the style that is there, and clean up only what your\nown change left behind.\n\n## 4. Goal-Driven Execution\n\nTurn the task into success criteria that can be checked, and work until they are met.\n";

/// The bundled skills.
pub fn builtins() -> (r: Vec<BuiltinSpec>)
    ensures
        r@ == builtin_specs(),
{
    let r: Vec<BuiltinSpec> = vec![
        BuiltinSpec {
            name: KARPATHY_NAME,
            description: KARPATHY_DESCRIPTION,
            raw_markdown: KARPATHY_MARKDOWN,
        },
    ];
    assert(r@ =~= builtin_specs());
    r
}

/// The bundled skills.
pub open spec fn builtin_specs() -> Seq<BuiltinSpec> {
    seq![
        BuiltinSpec {
            name: KARPATHY_NAME,
            description: KARPATHY_DESCRIPTION,
            raw_markdown: KARPATHY_MARKDOWN,
        },
    ]
}

/// The names of a list of bundled skills.
pub open spec fn spec_names(specs: Seq<BuiltinSpec>) -> Seq<Seq<char>> {
    Seq::new(specs.len(), |i: int| specs[i].name@)
}

/// The names of the bundled skills, in order.
pub open spec fn available_names() -> Seq<Seq<char>> {
    sorted_texts(spec_names(builtin_specs()))
}

fn available_texts() -> (r: Vec<String>)
    ensures
        texts(r@) == available_names(),
{
    let specs = builtins();
    let mut names: Vec<String> = Vec::new();
    let mut i: usize = 0;
    while i < specs.len()
        invariant
            i <= specs@.len(),
            texts(names@) == spec_names(specs@).take(i as int),
        decreases specs@.len() - i,
    {
        let ghost before = names@;
        names.push(owned(specs[i].name));
        i += 1;
        assert(texts(names@) =~= texts(before).push(specs@[i - 1].name@));
        assert(spec_names(specs@).take(i as int) =~= spec_names(specs@).take(i - 1).push(
            specs@[i - 1].name@,
        ));
    }
    assert(spec_names(specs@).take(i as int) =~= spec_names(specs@));
    sort_texts(&names)
}

/// The names of the bundled skills in alphabetical order.
pub fn available_builtin_names() -> (r: Vec<String>)
    ensures
        texts(r@) == available_names(),
        is_sorted(texts(r@)),
{
    proof {
        lemma_sorted_texts(spec_names(builtin_specs()));
    }
    available_texts()
}

// Frontmatter.

/// The body that follows the closing marker of a frontmatter block, searched in what
/// follows the opening line from position `from` on: the marker is a line of three dashes
/// that a line feed or the end of the text follows. Line feeds before the body are left out.
pub open spec fn body_after(s: Seq<char>, from: int) -> Option<Seq<char>>
    decreases s.len() - from,
{
    match find_from(s, "\n---"@, from) {
        None => None,
        Some(pos) => {
            if pos < from || pos + 4 > s.len() || from < 0 {
                None
            } else {
                let rest = s.skip(pos + 4);
                if rest.len() == 0 {
                    Some(Seq::empty())
                } else if rest[0] == '\n' {
                    Some(without_leading(rest, '\n'))
                } else {
                    body_after(s, pos + 4)
                }
            }
        },
    }
}

/// The body of a document: what follows its frontmatter block, or the whole document where
/// it has none that is closed. Byte order marks before the block are skipped.
pub open spec fn stripped(content: Seq<char>) -> Seq<char> {
    let t = without_leading(content, '\u{feff}');
    if !starts_with_text(t, "---"@) {
        content
    } else {
        let line_end = char_pos(t, '\n', 3);
        if line_end >= t.len() {
            content
        } else {
            match body_after(t.skip(line_end + 1), 0) {
                Some(body) => body,
                None => content,
            }
        }
    }
}

fn skip_leading(v: &Vec<char>, c: char, from: usize) -> (r: usize)
    requires
        from <= v@.len(),
    ensures
        from <= r <= v@.len(),
        without_leading(v@.skip(from as int), c) == v@.skip(r as int),
{
    let mut i: usize = from;
    while i < v.len() && v[i] == c
        invariant
            from <= i <= v@.len(),
            without_leading(v@.skip(from as int), c) == without_leading(v@.skip(i as int), c),
        decreases v@.len() - i,
    {
        assert(v@.skip(i as int).skip(1) =~= v@.skip(i + 1));
        i += 1;
    }
    i
}

fn body_of(v: &Vec<char>) -> (r: Option<String>)
    ensures
        crate::text::opt_text(r) == body_after(v@, 0),
{
    let marker = chars_of("\n---");
    proof {
        reveal_strlit("\n---");
    }
    let mut from: usize = 0;
    loop
        invariant
            from <= v@.len(),
            marker@ == "\n---"@,
            marker@.len() == 4,
            body_after(v@, 0) == body_after(v@, from as int),
        decreases v@.len() - from,
    {
        match find_chars(v, &marker, from) {
            None => {
                return None;
            },
            Some(pos) => {
                let end: usize = v.len();
                let after: usize = pos + 4;
                if after == end {
                    assert(v@.skip(after as int) =~= Seq::empty());
                    return Some(String::new());
                }
                assert(v@.skip(after as int)[0] == v@[after as int]);
                if v[after] == '\n' {
                    let start = skip_leading(v, '\n', after);
                    assert(v@.subrange(start as int, end as int) =~= v@.skip(start as int));
                    return Some(text_of(v, start, end));
                }
                from = after;
            },
        }
    }
}

/// The body of a document after its frontmatter block.
pub fn strip_frontmatter(content: &str) -> (r: String)
    ensures
        r@ == stripped(content@),
{
    let v = chars_of(content);
    assert(v@.skip(0) =~= v@);
    let start = skip_leading(&v, '\u{feff}', 0);
    let end: usize = v.len();
    let ghost t = v@.skip(start as int);
    proof {
        reveal_strlit("---");
    }
    if end - start < 3 || v[start] != '-' || v[start + 1] != '-' || v[start + 2] != '-' {
        assert(!starts_with_text(t, "---"@)) by {
            if starts_with_text(t, "---"@) {
                assert(t.subrange(0, 3)[0] == t[0]);
                assert(t.subrange(0, 3)[1] == t[1]);
                assert(t.subrange(0, 3)[2] == t[2]);
            }
        }
        return owned(content);
    }
    assert(t.subrange(0, 3) =~= "---"@);
    let rest_text = text_of(&v, start, end);
    let w = chars_of(rest_text.as_str());
    assert(w@ =~= t);
    let line_end = find_char(&w, '\n', 3);
    if line_end == w.len() {
        return owned(content);
    }
    let w_end: usize = w.len();
    let after_text = text_of(&w, line_end + 1, w_end);
    let after = chars_of(after_text.as_str());
    assert(after@ =~= t.skip(line_end + 1));
    match body_of(&after) {
        Some(body) => body,
        None => owned(content),
    }
}

/// A document that opens with a closed frontmatter block loses exactly that block: whatever
/// stands after the closing line, without the line feeds that begin it, is the body.
pub proof fn law_frontmatter_is_stripped(meta: Seq<char>, body: Seq<char>)
    requires
        find_from(meta + "\n---\n"@ + body, "\n---"@, 0) == Some(meta.len() as int),
    ensures
        stripped("---\n"@ + (meta + "\n---\n"@ + body)) == without_leading(body, '\n'),
{
    reveal_strlit("---");
    reveal_strlit("---\n");
    reveal_strlit("\n---");
    reveal_strlit("\n---\n");
    let tail = meta + "\n---\n"@ + body;
    let doc = "---\n"@ + tail;
    assert(doc[0] == '-');
    assert(without_leading(doc, '\u{feff}') == doc);
    assert(doc.subrange(0, 3) =~= "---"@);
    assert(char_pos(doc, '\n', 3) == 3);
    assert(doc.skip(4) =~= tail);
    let rest = tail.skip(meta.len() as int + 4);
    assert(rest =~= seq!['\n'] + body);
    assert(rest[0] == '\n');
    assert(rest.skip(1) =~= body);
}

/// A document that does not begin with three dashes has no frontmatter and is its own body.
pub proof fn law_plain_document_is_its_body(content: Seq<char>)
    requires
        !starts_with_text(without_leading(content, '\u{feff}'), "---"@),
    ensures
        stripped(content) == content,
{
}

// Resolution.

/// The texts of `names` that are not among `known`, in order.
pub open spec fn unknown_in(names: Seq<Seq<char>>, known: Seq<Seq<char>>) -> Seq<Seq<char>>
    decreases names.len(),
{
    if names.len() == 0 {
        Seq::empty()
    } else if known.contains(names.last()) {
        unknown_in(names.drop_last(), known)
    } else {
        unknown_in(names.drop_last(), known).push(names.last())
    }
}

/// The texts of `known` that `a` or `b` holds, in the order of `known`.
pub open spec fn requested(known: Seq<Seq<char>>, a: Seq<Seq<char>>, b: Seq<Seq<char>>) -> Seq<
    Seq<char>,
>
    decreases known.len(),
{
    if known.len() == 0 {
        Seq::empty()
    } else if a.contains(known.last()) || b.contains(known.last()) {
        requested(known.drop_last(), a, b).push(known.last())
    } else {
        requested(known.drop_last(), a, b)
    }
}

/// The diagnostic for unknown names in the configuration.
pub open spec fn unknown_config_text(unknown: Seq<Seq<char>>) -> Seq<char> {
    "config: ignoring unknown built-in skill(s) in `[builtin_skills] enabled`: "@ + joined(
        unknown,
        ", "@,
    ) + ". Available: "@ + joined(available_names(), ", "@) + "."@
}

/// Whether a skill is the bundled skill of a name.
pub open spec fn is_builtin_skill(skill: Skill, name: Seq<char>) -> bool {
    exists|k: int|
        0 <= k < builtin_specs().len() && (#[trigger] builtin_specs()[k]).name@ == name
            && is_skill_of(skill, builtin_specs()[k])
}

/// Whether a skill is made from a bundled document.
pub open spec fn is_skill_of(skill: Skill, spec: BuiltinSpec) -> bool {
    &&& skill.name@ == spec.name@
    &&& skill.description@ == spec.description@
    &&& skill.file_path@ == "<builtin>/"@ + spec.name@ + "/SKILL.md"@
    &&& skill.content@ == stripped(spec.raw_markdown@)
    &&& !skill.disable_model_invocation
    &&& skill.source == SkillSource::Builtin
}

/// The built-in skills that a run enables.
#[derive(Debug)]
pub struct ResolvedBuiltins {
    /// The enabled skills, in alphabetical order.
    pub skills: Vec<Skill>,
    /// Complete lines to show at startup.
    pub diagnostics: Vec<String>,
}

/// The command line asked for built-in skills that do not exist.
#[derive(Debug)]
pub struct UnknownBuiltinError {
    pub unknown: Vec<String>,
    pub available: Vec<String>,
}

impl UnknownBuiltinError {
    /// The message of the error.
    pub fn message(&self) -> (r: String)
        ensures
            r@ == "unknown built-in skill(s) requested via --builtin-skill: "@ + joined(
                texts(self.unknown@),
                ", "@,
            ) + ". Available: "@ + joined(texts(self.available@), ", "@) + "."@,
    {
        let mut r = owned("unknown built-in skill(s) requested via --builtin-skill: ");
        r.push_str(join(&self.unknown, ", ").as_str());
        r.push_str(". Available: ");
        r.push_str(join(&self.available, ", ").as_str());
        r.push_str(".");
        r
    }
}

fn spec_to_skill(spec: &BuiltinSpec) -> (r: Skill)
    ensures
        is_skill_of(r, *spec),
{
    let mut file_path = owned("<builtin>/");
    file_path.push_str(spec.name);
    file_path.push_str("/SKILL.md");
    Skill {
        name: owned(spec.name),
        description: owned(spec.description),
        file_path,
        content: strip_frontmatter(spec.raw_markdown),
        disable_model_invocation: false,
        source: SkillSource::Builtin,
    }
}

fn unknown_names(names: &Vec<String>, known: &Vec<String>) -> (r: Vec<String>)
    ensures
        texts(r@) == unknown_in(texts(names@), texts(known@)),
{
    let mut r: Vec<String> = Vec::new();
    let mut i: usize = 0;
    let ghost all = texts(names@);
    assert(texts(r@) =~= unknown_in(all.take(0), texts(known@)));
    while i < names.len()
        invariant
            i <= names@.len(),
            all == texts(names@),
            texts(r@) == unknown_in(all.take(i as int), texts(known@)),
        decreases names@.len() - i,
    {
        let ghost before = r@;
        assert(all.take(i + 1).drop_last() =~= all.take(i as int));
        assert(all.take(i + 1).last() == names@[i as int]@);
        if !has_text(known, names[i].as_str()) {
            r.push(names[i].clone());
            assert(texts(r@) =~= texts(before).push(names@[i as int]@));
        }
        i += 1;
    }
    assert(all.take(i as int) =~= all);
    r
}

fn builtin_skill(name: &str) -> (r: Skill)
    requires
        available_names().contains(name@),
    ensures
        is_builtin_skill(r, name@),
{
    let specs = builtins();
    let mut i: usize = 0;
    proof {
        lemma_sorted_contains(spec_names(builtin_specs()), name@);
    }
    while i < specs.len()
        invariant
            i <= specs@.len(),
            specs@ == builtin_specs(),
            spec_names(specs@).contains(name@),
            forall|j: int| 0 <= j < i ==> (#[trigger] specs@[j]).name@ != name@,
        decreases specs@.len() - i,
    {
        if specs[i].name.eq(name) {
            let r = spec_to_skill(&specs[i]);
            assert(builtin_specs()[i as int].name@ == name@);
            return r;
        }
        i += 1;
    }
    proof {
        let k = choose|k: int| 0 <= k < spec_names(specs@).len() && spec_names(specs@)[k] == name@;
        assert(specs@[k].name@ == name@);
        assert(false);
    }
    spec_to_skill(&specs[0])
}

/// The built-in skills that the command line and the configuration enable.
///
/// The call fails exactly when the command line names a skill that does not exist; all such
/// names are reported, each once and in order. Names of the configuration that do not exist
/// make one diagnostic. Every known name that either list holds is enabled once.
pub fn resolve_builtins(cli_requested: &Vec<String>, config_requested: &Vec<String>) -> (r: Result<
    ResolvedBuiltins,
    UnknownBuiltinError,
>)
    ensures
        ({
            let cli = texts(cli_requested@);
            let config = texts(config_requested@);
            let bad_cli = unknown_in(cli, available_names());
            let bad_config = unknown_in(config, available_names());
            match r {
                Err(e) => {
                    &&& bad_cli.len() > 0
                    &&& texts(e.unknown@) == deduped(sorted_texts(bad_cli))
                    &&& texts(e.available@) == available_names()
                },
                Ok(resolved) => {
                    let enabled = requested(available_names(), cli, config);
                    &&& bad_cli.len() == 0
                    &&& resolved.skills@.len() == enabled.len()
                    &&& forall|i: int|
                        0 <= i < enabled.len() ==> is_builtin_skill(
                            #[trigger] resolved.skills@[i],
                            enabled[i],
                        )
                    &&& texts(resolved.diagnostics@) == if bad_config.len() == 0 {
                        Seq::empty()
                    } else {
                        seq![unknown_config_text(deduped(sorted_texts(bad_config)))]
                    }
                },
            }
        }),
{
    let known = available_texts();
    let unknown_cli = unknown_names(cli_requested, &known);
    if unknown_cli.len() > 0 {
        return Err(
            UnknownBuiltinError {
                unknown: dedup_texts(&sort_texts(&unknown_cli)),
                available: available_texts(),
            },
        );
    }
    let mut diagnostics: Vec<String> = Vec::new();
    let unknown_config = unknown_names(config_requested, &known);
    if unknown_config.len() > 0 {
        let mut line = owned(
            "config: ignoring unknown built-in skill(s) in `[builtin_skills] enabled`: ",
        );
        line.push_str(join(&dedup_texts(&sort_texts(&unknown_config)), ", ").as_str());
        line.push_str(". Available: ");
        line.push_str(join(&known, ", ").as_str());
        line.push_str(".");
        diagnostics.push(line);
        assert(texts(diagnostics@) =~= seq![line@]);
    } else {
        assert(texts(diagnostics@) =~= Seq::empty());
    }
    let mut skills: Vec<Skill> = Vec::new();
    let mut i: usize = 0;
    let ghost names = texts(known@);
    let ghost cli = texts(cli_requested@);
    let ghost config = texts(config_requested@);
    while i < known.len()
        invariant
            i <= known@.len(),
            names == texts(known@),
            names == available_names(),
            cli == texts(cli_requested@),
            config == texts(config_requested@),
            skills@.len() == requested(names.take(i as int), cli, config).len(),
            forall|j: int|
                0 <= j < skills@.len() ==> is_builtin_skill(
                    #[trigger] skills@[j],
                    requested(names.take(i as int), cli, config)[j],
                ),
        decreases known@.len() - i,
    {
        assert(names.take(i + 1).drop_last() =~= names.take(i as int));
        assert(names.take(i + 1).last() == known@[i as int]@);
        let name = known[i].as_str();
        if has_text(cli_requested, name) || has_text(config_requested, name) {
            assert(names[i as int] == name@);
            skills.push(builtin_skill(name));
        }
        i += 1;
    }
    assert(names.take(i as int) =~= names);
    Ok(ResolvedBuiltins { skills, diagnostics })
}

proof fn lemma_requested(known: Seq<Seq<char>>, a: Seq<Seq<char>>, b: Seq<Seq<char>>)
    ensures
        forall|x: Seq<char>| #[trigger]
            requested(known, a, b).contains(x) <==> known.contains(x) && (a.contains(x)
                || b.contains(x)),
        is_distinct(known) ==> is_distinct(requested(known, a, b)),
        is_sorted(known) ==> is_sorted(requested(known, a, b)),
    decreases known.len(),
{
    if known.len() > 0 {
        let front = known.drop_last();
        let rf = requested(front, a, b);
        let out = requested(known, a, b);
        lemma_requested(front, a, b);
        assert forall|x: Seq<char>| #[trigger] out.contains(x) <==> known.contains(x) && (
        a.contains(x) || b.contains(x)) by {
            assert(known.contains(x) <==> front.contains(x) || x == known.last()) by {
                if known.contains(x) {
                    let k = choose|k: int| 0 <= k < known.len() && known[k] == x;
                    if k < front.len() {
                        assert(front[k] == x);
                    }
                }
                if front.contains(x) {
                    let k = choose|k: int| 0 <= k < front.len() && front[k] == x;
                    assert(known[k] == x);
                }
                assert(known[known.len() - 1] == known.last());
            }
            assert(rf.contains(x) <==> front.contains(x) && (a.contains(x) || b.contains(x)));
            if out.len() > rf.len() {
                assert(out == rf.push(known.last()));
                assert(out[rf.len() as int] == known.last());
                if rf.contains(x) {
                    let k = choose|k: int| 0 <= k < rf.len() && rf[k] == x;
                    assert(out[k] == x);
                }
                if out.contains(x) && x != known.last() {
                    let k = choose|k: int| 0 <= k < out.len() && out[k] == x;
                    assert(rf[k] == x);
                }
            }
        }
        if is_distinct(known) {
            assert(is_distinct(front)) by {
                assert forall|i: int, j: int| 0 <= i < j < front.len() implies #[trigger] front[i]
                    != #[trigger] front[j] by {
                    assert(known[i] == front[i] && known[j] == front[j]);
                }
            }
            if out.len() > rf.len() {
                assert forall|i: int, j: int| 0 <= i < j < out.len() implies #[trigger] out[i]
                    != #[trigger] out[j] by {
                    assert(out[i] == rf[i]);
                    if j < rf.len() {
                        assert(out[j] == rf[j]);
                    } else {
                        assert(rf.contains(rf[i]));
                        assert(front.contains(rf[i]));
                        let k = choose|k: int| 0 <= k < front.len() && front[k] == rf[i];
                        assert(known[k] == rf[i] && known[known.len() - 1] == known.last());
                    }
                }
            }
        }
        if is_sorted(known) {
            assert(is_sorted(front)) by {
                assert forall|i: int, j: int|
                    0 <= i < j < front.len() implies !crate::order::text_lt(
                    #[trigger] front[j],
                    #[trigger] front[i],
                ) by {
                    assert(known[i] == front[i] && known[j] == front[j]);
                }
            }
            if out.len() > rf.len() {
                assert forall|i: int, j: int|
                    0 <= i < j < out.len() implies !crate::order::text_lt(
                    #[trigger] out[j],
                    #[trigger] out[i],
                ) by {
                    assert(out[i] == rf[i]);
                    if j < rf.len() {
                        assert(out[j] == rf[j]);
                    } else {
                        assert(rf.contains(rf[i]));
                        assert(front.contains(rf[i]));
                        let k = choose|k: int| 0 <= k < front.len() && front[k] == rf[i];
                        assert(known[k] == rf[i] && known[known.len() - 1] == known.last());
                    }
                }
            }
        }
    }
}

/// A name enables a skill exactly when it is the name of a bundled skill and one of the two
/// lists holds it; no skill is enabled twice, and the enabled skills come in order.
pub proof fn law_only_requested_builtins_are_enabled(
    cli: Seq<Seq<char>>,
    config: Seq<Seq<char>>,
    name: Seq<char>,
)
    ensures
        requested(available_names(), cli, config).contains(name) <==> spec_names(
            builtin_specs(),
        ).contains(name) && (cli.contains(name) || config.contains(name)),
        is_distinct(requested(available_names(), cli, config)),
        is_sorted(requested(available_names(), cli, config)),
{
    let names = spec_names(builtin_specs());
    assert(names.len() == 1);
    lemma_sorted_texts(names);
    lemma_sorted_contains(names, name);
    lemma_requested(available_names(), cli, config);
}

/// The unknown names that an error reports are exactly the names of the list that are not
/// known, each once and in order.
pub proof fn law_unknown_names_are_reported_once(
    names: Seq<Seq<char>>,
    known: Seq<Seq<char>>,
    name: Seq<char>,
)
    ensures
        deduped(sorted_texts(unknown_in(names, known))).contains(name) <==> names.contains(name)
            && !known.contains(name),
        is_distinct(deduped(sorted_texts(unknown_in(names, known)))),
        is_sorted(deduped(sorted_texts(unknown_in(names, known)))),
{
    let u = unknown_in(names, known);
    lemma_unknown_in(names, known, name);
    lemma_sorted_texts(u);
    lemma_sorted_contains(u, name);
    lemma_deduped(sorted_texts(u));
    assert(deduped(sorted_texts(u)).contains(name) == sorted_texts(u).contains(name));
}

proof fn lemma_unknown_in(names: Seq<Seq<char>>, known: Seq<Seq<char>>, name: Seq<char>)
    ensures
        unknown_in(names, known).contains(name) <==> names.contains(name) && !known.contains(name),
    decreases names.len(),
{
    if names.len() > 0 {
        let front = names.drop_last();
        let uf = unknown_in(front, known);
        let out = unknown_in(names, known);
        lemma_unknown_in(front, known, name);
        assert(names.contains(name) <==> front.contains(name) || name == names.last()) by {
            if names.contains(name) {
                let k = choose|k: int| 0 <= k < names.len() && names[k] == name;
                if k < front.len() {
                    assert(front[k] == name);
                }
            }
            if front.contains(name) {
                let k = choose|k: int| 0 <= k < front.len() && front[k] == name;
                assert(names[k] == name);
            }
            assert(names[names.len() - 1] == names.last());
        }
        if !known.contains(names.last()) {
            assert(out[uf.len() as int] == names.last());
            if uf.contains(name) {
                let k = choose|k: int| 0 <= k < uf.len() && uf[k] == name;
                assert(out[k] == name);
            }
            if out.contains(name) && name != names.last() {
                let k = choose|k: int| 0 <= k < out.len() && out[k] == name;
                assert(uf[k] == name);
            }
        }
    }
}

// The configuration.

/// Whether all values of a list are texts.
pub open spec fn all_strings(v: Seq<JsonView>) -> bool {
    forall|i: int| 0 <= i < v.len() ==> string_in(#[trigger] v[i]) is Some
}

/// The texts of a list of values.
pub open spec fn strings_of(v: Seq<JsonView>) -> Seq<Seq<char>> {
    Seq::new(v.len(), |i: int| string_in(v[i])->0)
}

/// The built-in skills that a configuration enables: the texts under `enabled` in its table
/// `builtin_skills`. There are none where the document cannot be read or is of another shape.
pub open spec fn enabled_in(document: Option<JsonView>) -> Seq<Seq<char>> {
    match document {
        Some(v) => match member(v, "builtin_skills"@) {
            Some(section) => match array_member(section, "enabled"@) {
                Some(items) => if all_strings(items) {
                    strings_of(items)
                } else {
                    Seq::empty()
                },
                None => Seq::empty(),
            },
            None => Seq::empty(),
        },
        None => Seq::empty(),
    }
}

/// The built-in skills that a parsed configuration enables.
pub fn enabled_builtins(document: &Option<Json>) -> (r: Vec<String>)
    ensures
        texts(r@) == enabled_in(opt_json(*document)),
{
    let mut r: Vec<String> = Vec::new();
    let items = match document {
        Some(v) => match v.get("builtin_skills") {
            Some(section) => match section.get("enabled") {
                Some(enabled) => enabled.as_items(),
                None => None,
            },
            None => None,
        },
        None => None,
    };
    assert(texts(r@) =~= Seq::empty());
    if let Some(items) = items {
        let ghost all = items_view(items@);
        let mut i: usize = 0;
        assert(texts(r@) =~= strings_of(all).take(0));
        while i < items.len()
            invariant
                i <= items@.len(),
                all == items_view(items@),
                forall|j: int| 0 <= j < i ==> string_in(#[trigger] all[j]) is Some,
                texts(r@) == strings_of(all).take(i as int),
                enabled_in(opt_json(*document)) == (if all_strings(all) {
                    strings_of(all)
                } else {
                    Seq::empty()
                }),
            decreases items@.len() - i,
        {
            assert(all[i as int] == items@[i as int]@);
            match items[i].as_text() {
                Some(name) => {
                    r.push(name.clone());
                    assert(strings_of(all).take(i + 1) =~= strings_of(all).take(i as int).push(
                        strings_of(all)[i as int],
                    ));
                },
                None => {
                    assert(string_in(all[i as int]) is None);
                    return Vec::new();
                },
            }
            i += 1;
        }
        assert(strings_of(all).take(i as int) =~= strings_of(all));
    }
    r
}

/// The built-in skills that a configuration enables. A document that is no TOML enables none.
pub fn parse_builtin_skills_config(text: &str) -> (r: Vec<String>)
    ensures
        texts(r@) == enabled_in(toml_content(text@)),
{
    enabled_builtins(&Json::parse_toml(text))
}

// Merging.

/// A catalog with one skill put over it: in the place of the first skill of its name, or
/// at the end.
pub open spec fn put_skill(skills: Seq<Skill>, skill: Skill) -> Seq<Skill> {
    let pos = skill_pos(skills, skill.name@, 0);
    if pos < skills.len() {
        skills.update(pos, skill)
    } else {
        skills.push(skill)
    }
}

/// A catalog with a list of skills put over it, one after the other.
pub open spec fn merged_skills(builtins: Seq<Skill>, user_project: Seq<Skill>) -> Seq<Skill>
    decreases user_project.len(),
{
    if user_project.len() == 0 {
        builtins
    } else {
        put_skill(merged_skills(builtins, user_project.drop_last()), user_project.last())
    }
}

/// The built-in skills with the user and project skills put over them.
pub fn merge_with_user_project(builtins: Vec<Skill>, user_project: &Vec<Skill>) -> (r: Vec<Skill>)
    ensures
        r@ == merged_skills(builtins@, user_project@),
{
    let ghost first = builtins@;
    let mut out = builtins;
    let mut i: usize = 0;
    assert(user_project@.take(0) =~= Seq::empty());
    while i < user_project.len()
        invariant
            i <= user_project@.len(),
            out@ == merged_skills(first, user_project@.take(i as int)),
        decreases user_project@.len() - i,
    {
        let skill = &user_project[i];
        proof {
            assert(user_project@.take(i + 1).drop_last() =~= user_project@.take(i as int));
            lemma_skill_pos(out@, skill.name@, 0);
        }
        let pos = find_skill(&out, skill.name.as_str());
        if pos < out.len() {
            out.set(pos, skill.copy());
        } else {
            out.push(skill.copy());
        }
        i += 1;
    }
    assert(user_project@.take(i as int) =~= user_project@);
    out
}

/// The last skill of a name in a list.
pub open spec fn last_named(skills: Seq<Skill>, name: Seq<char>) -> Option<Skill>
    decreases skills.len(),
{
    if skills.len() == 0 {
        None
    } else if skills.last().name@ == name {
        Some(skills.last())
    } else {
        last_named(skills.drop_last(), name)
    }
}

/// Whether no two skills share a name.
pub open spec fn distinct_names(skills: Seq<Skill>) -> bool {
    forall|i: int, j: int|
        0 <= i < j < skills.len() ==> (#[trigger] skills[i]).name@ != (#[trigger] skills[j]).name@
}

/// A user or project skill shadows the built-in skill of its name, in the place of that
/// skill; every other built-in skill stays as it is. No name occurs twice, and a skill
/// that shadows none follows the built-in ones.
pub proof fn law_user_and_project_skills_shadow_builtins(
    builtins: Seq<Skill>,
    user_project: Seq<Skill>,
)
    requires
        distinct_names(builtins),
    ensures
        ({
            let out = merged_skills(builtins, user_project);
            &&& out.len() >= builtins.len()
            &&& distinct_names(out)
            &&& forall|i: int|
                0 <= i < builtins.len() ==> (#[trigger] out[i]) == (match last_named(
                    user_project,
                    builtins[i].name@,
                ) {
                    Some(s) => s,
                    None => builtins[i],
                })
            &&& forall|i: int|
                builtins.len() <= i < out.len() ==> last_named(
                    user_project,
                    (#[trigger] out[i]).name@,
                ) == Some(out[i])
            &&& forall|i: int|
                0 <= i < builtins.len() ==> (#[trigger] out[i]).name@ == builtins[i].name@
        }),
    decreases user_project.len(),
{
    if user_project.len() > 0 {
        let front = user_project.drop_last();
        let skill = user_project.last();
        law_user_and_project_skills_shadow_builtins(builtins, front);
        let before = merged_skills(builtins, front);
        let out = merged_skills(builtins, user_project);
        lemma_skill_pos(before, skill.name@, 0);
        let pos = skill_pos(before, skill.name@, 0);
        assert forall|i: int| 0 <= i < builtins.len() implies (#[trigger] out[i]) == (
        match last_named(user_project, builtins[i].name@) {
            Some(s) => s,
            None => builtins[i],
        }) && out[i].name@ == builtins[i].name@ by {
            assert(before[i].name@ == builtins[i].name@);
            if skill.name@ == builtins[i].name@ {
                assert(pos == i) by {
                    if pos < before.len() && pos != i {
                        assert(before[pos].name@ == before[i].name@);
                    }
                }
            }
        }
        assert forall|i: int| builtins.len() <= i < out.len() implies last_named(
            user_project,
            (#[trigger] out[i]).name@,
        ) == Some(out[i]) by {
            if i < before.len() && i != pos {
                assert(out[i] == before[i]);
                assert(before[i].name@ != skill.name@) by {
                    if pos < before.len() {
                        assert(before[pos].name@ == skill.name@);
                    }
                }
            }
        }
        assert forall|i: int, j: int| 0 <= i < j < out.len() implies (#[trigger] out[i]).name@ != (
        #[trigger] out[j]).name@ by {
            if pos < before.len() {
                assert(out[i].name@ == before[i].name@);
                assert(out[j].name@ == before[j].name@);
            } else {
                assert(out[i] == before[i]);
                if j < before.len() {
                    assert(out[j] == before[j]);
                }
            }
        }
    }
}

/// The list under `enabled` in the table `builtin_skills` is what is enabled, name by name and
/// in its order, whatever else the document holds; a list with anything but texts enables
/// nothing.
pub proof fn law_configured_builtins_are_enabled(
    document: Map<Seq<char>, JsonView>,
    section: Map<Seq<char>, JsonView>,
    items: Seq<JsonView>,
)
    requires
        document.contains_key("builtin_skills"@),
        document["builtin_skills"@] == JsonView::Object(section),
        section.contains_key("enabled"@),
        section["enabled"@] == JsonView::Array(items),
    ensures
        ({
            let enabled = enabled_in(Some(JsonView::Object(document)));
            &&& (forall|i: int| 0 <= i < items.len() ==> (#[trigger] items[i]) is Str)
                ==> enabled.len() == items.len()
            &&& (exists|i: int| 0 <= i < items.len() && !((#[trigger] items[i]) is Str))
                ==> enabled.len() == 0
            &&& forall|i: int|
                0 <= i < enabled.len() ==> items[i] == JsonView::Str(#[trigger] enabled[i])
        }),
{
    let enabled = enabled_in(Some(JsonView::Object(document)));
    if forall|i: int| 0 <= i < items.len() ==> (#[trigger] items[i]) is Str {
        assert(all_strings(items));
    } else {
        let i = choose|i: int| 0 <= i < items.len() && !((#[trigger] items[i]) is Str);
        assert(string_in(items[i]) is None);
        assert(!all_strings(items));
    }
    if all_strings(items) {
        assert forall|i: int| 0 <= i < enabled.len() implies items[i] == JsonView::Str(
            #[trigger] enabled[i],
        ) by {
            assert(string_in(items[i]) is Some);
        }
    }
}

/// A document without that list enables nothing.
pub proof fn law_nothing_is_enabled_unasked(document: Option<JsonView>)
    requires
        enabled_in(document).len() > 0,
    ensures
        document matches Some(JsonView::Object(m)) && m.contains_key("builtin_skills"@) && (
        m["builtin_skills"@] matches JsonView::Object(s) && s.contains_key("enabled"@)
            && s["enabled"@] is Array),
{
}

} // verus!
