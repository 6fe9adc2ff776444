//! The local environment: paths, process plans, and the shape of search results.
//!
//! Reading, walking and spawning are left to the caller, who hands over what was found.

use crate::executor::{is_other, ExecutorError, ProcessOutput};
use crate::order::{sort_texts, sorted_texts};
use crate::paths::{file_name, join_path, joined_path, path_file_name};
use crate::patterns::{
    compile, expression_matches, glob_error, is_expression_of, matches_in, regex_error,
    select_files, selected_glob,
};
use crate::text::{
    copy_texts, debug_text, decimal, decimal_size, digits, is_digit, law_decimal_round_trip,
    lemma_texts_empty, lemma_texts_push, lines, owned, quoted, split_lines, texts,
};
use vstd::prelude::*;

verus! {

broadcast use {lemma_texts_push, lemma_texts_empty};

/// The most matches that a search gives.
pub const MAX_GREP_MATCHES: usize = 100;

/// The most files that a search reads.
pub const MAX_GREP_FILES: usize = 5_000;

/// The most paths that a file search gives.
pub const MAX_FIND_PATHS: usize = 200;

/// How long a `git` process may run, in seconds.
pub const GIT_TIMEOUT_SECS: u64 = 60;

/// The local environment.
#[derive(Debug)]
pub struct LocalExecutor {
    /// The directory that relative paths and `git` processes start from.
    pub cwd: String,
}

/// A process to start.
#[derive(Debug)]
pub struct ProcessPlan {
    pub program: String,
    pub args: Vec<String>,
    pub cwd: String,
}

impl LocalExecutor {
    /// The environment that works in `cwd`.
    pub fn with_cwd(cwd: String) -> (r: LocalExecutor)
        ensures
            r.cwd == cwd,
    {
        LocalExecutor { cwd }
    }

    /// The directory that the environment works in.
    pub fn cwd(&self) -> (r: &String)
        ensures
            *r == self.cwd,
    {
        &self.cwd
    }

    /// A path taken from the working directory; an absolute one stays as it is.
    pub fn resolve(&self, path: &str) -> (r: String)
        ensures
            r@ == joined_path(self.cwd@, path@),
    {
        join_path(self.cwd.as_str(), path)
    }

    /// The process that a command line starts.
    pub fn run_plan(&self, cwd: &str, argv: &Vec<String>) -> (r: Result<
        ProcessPlan,
        ExecutorError,
    >)
        ensures
            match r {
                Ok(plan) => {
                    &&& argv@.len() > 0
                    &&& plan.program == argv@[0]
                    &&& plan.args@ == argv@.skip(1)
                    &&& plan.cwd@ == joined_path(self.cwd@, cwd@)
                },
                Err(e) => argv@.len() == 0 && is_other(e, "run_command: empty argv"@),
            },
    {
        if argv.len() == 0 {
            return Err(ExecutorError::Other(owned("run_command: empty argv")));
        }
        let mut args = copy_texts(argv);
        let program = args.remove(0);
        assert(args@ =~= argv@.skip(1));
        Ok(ProcessPlan { program, args, cwd: self.resolve(cwd) })
    }

    /// The process that a `git` call starts: in the working directory.
    pub fn git_plan(&self, args: &Vec<String>) -> (r: Result<ProcessPlan, ExecutorError>)
        ensures
            match r {
                Ok(plan) => {
                    &&& args@.len() > 0
                    &&& plan.program@ == "git"@
                    &&& plan.args@ == args@
                    &&& plan.cwd == self.cwd
                },
                Err(e) => args@.len() == 0 && is_other(e, "git: missing args"@),
            },
    {
        if args.len() == 0 {
            return Err(ExecutorError::Other(owned("git: missing args")));
        }
        Ok(ProcessPlan { program: owned("git"), args: copy_texts(args), cwd: self.cwd.clone() })
    }
}

/// The error of a file operation: what was done, the path, and what was reported.
pub fn file_error(operation: &str, path: &str, error: &str) -> (r: ExecutorError)
    ensures
        is_other(r, operation@ + " "@ + path@ + ": "@ + error@),
{
    let mut e = owned(operation);
    e.push_str(" ");
    e.push_str(path);
    e.push_str(": ");
    e.push_str(error);
    ExecutorError::Other(e)
}

/// The output of a process that ran out of time and was killed.
pub fn timed_out_output() -> (r: ProcessOutput)
    ensures
        r.stdout@.len() == 0,
        r.stderr@.len() == 0,
        r.exit_code == -1,
{
    ProcessOutput { stdout: String::new(), stderr: String::new(), exit_code: -1 }
}

/// The output of a process that ended; without an exit code it counts as -1.
pub fn finished_output(stdout: String, stderr: String, code: Option<i32>) -> (r: ProcessOutput)
    ensures
        r.stdout == stdout,
        r.stderr == stderr,
        r.exit_code == (match code {
            Some(c) => c,
            None => -1i32,
        }),
{
    let exit_code: i32 = match code {
        Some(c) => c,
        None => -1,
    };
    ProcessOutput { stdout, stderr, exit_code }
}

/// The listing of a directory: all names, in order.
pub fn list_dir_names(names: &Vec<String>) -> (r: Vec<String>)
    ensures
        texts(r@) == sorted_texts(texts(names@)),
{
    sort_texts(names)
}

/// The name of the file that is written before it takes the place of `target`; `None` where
/// the target names no file.
pub open spec fn temp_name(target: Seq<char>, pid: nat, counter: nat) -> Option<Seq<char>> {
    match file_name(target) {
        Some(name) => Some(
            "."@ + name + ".theway-tmp-"@ + digits(pid) + "-"@ + digits(counter),
        ),
        None => None,
    }
}

/// The name of the file that is written before it takes the place of `target`. The process
/// number tells processes apart, the counter the writes of one process.
pub fn temp_file_name(target: &str, pid: u32, counter: u64) -> (r: Result<String, ExecutorError>)
    ensures
        match r {
            Ok(name) => temp_name(target@, pid as nat, counter as nat) == Some(name@),
            Err(e) => temp_name(target@, pid as nat, counter as nat) is None && is_other(
                e,
                "path has no file name: "@ + target@,
            ),
        },
{
    match path_file_name(target) {
        Some(name) => {
            let mut r = owned(".");
            r.push_str(name.as_str());
            r.push_str(".theway-tmp-");
            r.push_str(decimal(pid as u64).as_str());
            r.push_str("-");
            r.push_str(decimal(counter).as_str());
            Ok(r)
        },
        None => {
            let mut e = owned("path has no file name: ");
            e.push_str(target);
            Err(ExecutorError::Other(e))
        },
    }
}

/// What a path is that is to be written.
#[derive(Debug)]
pub enum WriteTarget {
    /// A file, or nothing yet.
    Plain,
    /// A symbolic link to this file.
    LinkTo(String),
    /// A symbolic link that leads nowhere.
    BrokenLink,
}

/// How a file is written.
#[derive(Debug)]
pub enum WritePlan {
    /// Through the link, which makes the file that it leads to.
    Direct,
    /// To a file of another name beside the target, which then takes its place.
    Replace { target: String, temp_name: String },
}

/// How a file is written: through another file that takes its place, so that readers see the
/// old content or the new. A link is followed first, and one that leads nowhere is written
/// through.
pub fn write_plan(path: &str, found: &WriteTarget, pid: u32, counter: u64) -> (r: Result<
    WritePlan,
    ExecutorError,
>)
    ensures
        match found {
            WriteTarget::BrokenLink => r matches Ok(WritePlan::Direct),
            _ => {
                let target = match found {
                    WriteTarget::LinkTo(file) => file@,
                    _ => path@,
                };
                match temp_name(target, pid as nat, counter as nat) {
                    Some(name) => r matches Ok(WritePlan::Replace { target: t, temp_name: n }) && t@
                        == target && n@ == name,
                    None => r matches Err(e) && is_other(e, "path has no file name: "@ + target),
                }
            },
        },
{
    let target = match found {
        WriteTarget::BrokenLink => {
            return Ok(WritePlan::Direct);
        },
        WriteTarget::LinkTo(file) => file.clone(),
        WriteTarget::Plain => owned(path),
    };
    match temp_file_name(target.as_str(), pid, counter) {
        Ok(temp_name) => Ok(WritePlan::Replace { target, temp_name }),
        Err(e) => Err(e),
    }
}

/// Writers that differ in their process number or counter write to different files.
pub proof fn law_temp_names_differ(target: Seq<char>, p1: nat, c1: nat, p2: nat, c2: nat)
    requires
        file_name(target) is Some,
        p1 != p2 || c1 != c2,
    ensures
        temp_name(target, p1, c1) != temp_name(target, p2, c2),
{
    let head = "."@ + file_name(target)->0 + ".theway-tmp-"@;
    reveal_strlit("-");
    if temp_name(target, p1, c1) == temp_name(target, p2, c2) {
        let a = head + digits(p1) + "-"@ + digits(c1);
        let b = head + digits(p2) + "-"@ + digits(c2);
        assert(a == b);
        let n = head.len() as int;
        let ta = digits(p1) + "-"@ + digits(c1);
        let tb = digits(p2) + "-"@ + digits(c2);
        assert(a.skip(n) =~= ta);
        assert(b.skip(n) =~= tb);
        law_decimal_round_trip(p1);
        law_decimal_round_trip(p2);
        law_decimal_round_trip(c1);
        law_decimal_round_trip(c2);
        let la = digits(p1).len() as int;
        let lb = digits(p2).len() as int;
        assert(ta[la] == '-' && tb[lb] == '-');
        if la < lb {
            assert(tb[la] == digits(p2)[la]);
            assert(is_digit(digits(p2)[la]));
        } else if lb < la {
            assert(ta[lb] == digits(p1)[lb]);
            assert(is_digit(digits(p1)[lb]));
        }
        assert(ta.take(la) =~= digits(p1));
        assert(tb.take(lb) =~= digits(p2));
        assert(ta.skip(la + 1) =~= digits(c1));
        assert(tb.skip(lb + 1) =~= digits(c2));
    }
}

// Searching.

/// The refusal of a pattern.
pub open spec fn invalid_regex_text(pattern: Seq<char>, error: Seq<char>) -> Seq<char> {
    "grep: invalid regex "@ + debug_text(pattern) + ": "@ + error
}

/// The line of one match: path, line number and line.
pub open spec fn match_text(path: Seq<char>, number: nat, line: Seq<char>) -> Seq<char> {
    path + ":"@ + digits(number) + ":"@ + line
}

/// The matches so far with those of the first `n` lines of a file, up to the most that a
/// search gives.
pub open spec fn add_matches(
    found: Seq<Seq<char>>,
    expression: regex::Regex,
    path: Seq<char>,
    body: Seq<Seq<char>>,
    n: int,
) -> Seq<Seq<char>>
    decreases n,
{
    if n <= 0 || n > body.len() {
        found
    } else {
        let before = add_matches(found, expression, path, body, n - 1);
        if before.len() < MAX_GREP_MATCHES && expression_matches(expression, body[n - 1]) {
            before.push(match_text(path, n as nat, body[n - 1]))
        } else {
            before
        }
    }
}

/// A search through the contents of files.
#[derive(Debug)]
pub struct GrepScan {
    pub expression: regex::Regex,
    pub found: Vec<String>,
    pub files: usize,
}

impl GrepScan {
    /// Begins a search, where the pattern is a regular expression.
    pub fn start(pattern: &str) -> (r: Result<GrepScan, ExecutorError>)
        ensures
            match r {
                Ok(scan) => {
                    &&& regex_error(pattern@) is None
                    &&& is_expression_of(scan.expression, pattern@)
                    &&& scan.found@.len() == 0
                    &&& scan.files == 0
                },
                Err(e) => regex_error(pattern@) matches Some(m) && is_other(
                    e,
                    invalid_regex_text(pattern@, m),
                ),
            },
    {
        match compile(pattern) {
            Ok(expression) => Ok(GrepScan { expression, found: Vec::new(), files: 0 }),
            Err(m) => {
                let mut e = owned("grep: invalid regex ");
                e.push_str(quoted(pattern).as_str());
                e.push_str(": ");
                e.push_str(m.as_str());
                Err(ExecutorError::Other(e))
            },
        }
    }

    /// Searches the next file of the walk; a file that cannot be read as text has no `text`.
    /// Answers whether the walk goes on: not past the most files, and not past the most
    /// matches.
    pub fn file(&mut self, path: &str, text: Option<&str>) -> (go_on: bool)
        ensures
            final(self).expression == old(self).expression,
            final(self).files == if old(self).files < MAX_GREP_FILES {
                (old(self).files + 1) as usize
            } else {
                old(self).files
            },
            texts(final(self).found@) == (match text {
                Some(t) => if old(self).files < MAX_GREP_FILES {
                    add_matches(
                        texts(old(self).found@),
                        old(self).expression,
                        path@,
                        lines(t@),
                        lines(t@).len() as int,
                    )
                } else {
                    texts(old(self).found@)
                },
                None => texts(old(self).found@),
            }),
            go_on == (old(self).files < MAX_GREP_FILES && final(self).found@.len()
                < MAX_GREP_MATCHES),
    {
        if self.files >= MAX_GREP_FILES {
            return false;
        }
        self.files = self.files + 1;
        if let Some(t) = text {
            let body = split_lines(t);
            let ghost start = texts(self.found@);
            let ghost all = lines(t@);
            let mut i: usize = 0;
            while i < body.len()
                invariant
                    i <= body@.len(),
                    texts(body@) == all,
                    self.expression == old(self).expression,
                    self.files == old(self).files + 1,
                    texts(self.found@) == add_matches(
                        start,
                        self.expression,
                        path@,
                        all,
                        i as int,
                    ),
                decreases body@.len() - i,
            {
                assert(all[i as int] == body@[i as int]@);
                assert(texts(self.found@).len() == self.found@.len());
                if self.found.len() < MAX_GREP_MATCHES && matches_in(
                    &self.expression,
                    body[i].as_str(),
                ) {
                    let mut line = owned(path);
                    line.push_str(":");
                    line.push_str(decimal_size(i + 1).as_str());
                    line.push_str(":");
                    line.push_str(body[i].as_str());
                    self.found.push(line);
                }
                i += 1;
            }
            assert(texts(body@).len() == body@.len());
        }
        assert(texts(self.found@).len() == self.found@.len());
        self.found.len() < MAX_GREP_MATCHES
    }
}

proof fn lemma_add_matches(
    found: Seq<Seq<char>>,
    expression: regex::Regex,
    path: Seq<char>,
    body: Seq<Seq<char>>,
    n: int,
)
    requires
        found.len() <= MAX_GREP_MATCHES,
        0 <= n <= body.len(),
    ensures
        found.len() <= add_matches(found, expression, path, body, n).len() <= MAX_GREP_MATCHES,
        forall|i: int|
            0 <= i < found.len() ==> (#[trigger] add_matches(found, expression, path, body, n)[i])
                == found[i],
        forall|k: int|
            #![trigger add_matches(found, expression, path, body, n)[k]]
            found.len() <= k < add_matches(found, expression, path, body, n).len() ==> exists|j: int|
                #![trigger body[j]]
                0 <= j < n && expression_matches(expression, body[j]) && add_matches(
                    found,
                    expression,
                    path,
                    body,
                    n,
                )[k] == match_text(path, (j + 1) as nat, body[j]),
    decreases n,
{
    if n > 0 {
        lemma_add_matches(found, expression, path, body, n - 1);
        let before = add_matches(found, expression, path, body, n - 1);
        let out = add_matches(found, expression, path, body, n);
        assert forall|k: int| found.len() <= k < out.len() implies exists|j: int|
            #![trigger body[j]]
            0 <= j < n && expression_matches(expression, body[j]) && #[trigger] out[k] == match_text(
                path,
                (j + 1) as nat,
                body[j],
            ) by {
            if k < before.len() {
                assert(before[k] == out[k]);
                let j = choose|j: int|
                    #![trigger body[j]]
                    0 <= j < n - 1 && expression_matches(expression, body[j]) && before[k] == match_text(
                        path,
                        (j + 1) as nat,
                        body[j],
                    );
                assert(expression_matches(expression, body[j]));
            } else {
                assert(expression_matches(expression, body[n - 1]));
            }
        }
    }
}

/// A search keeps what it has found, never gives more than the most matches, and every match
/// that a file adds is a line of the file that the expression matches, under its number.
#[verifier::spinoff_prover]
pub proof fn law_search_is_capped_and_sound(
    found: Seq<Seq<char>>,
    expression: regex::Regex,
    path: Seq<char>,
    body: Seq<Seq<char>>,
)
    requires
        found.len() <= MAX_GREP_MATCHES,
    ensures
        ({
            let out = add_matches(found, expression, path, body, body.len() as int);
            &&& found.len() <= out.len() <= MAX_GREP_MATCHES
            &&& forall|i: int| 0 <= i < found.len() ==> (#[trigger] out[i]) == found[i]
            &&& forall|k: int|
                found.len() <= k < out.len() ==> exists|j: int|
                    #![trigger body[j]]
                    0 <= j < body.len() && expression_matches(expression, body[j]) && #[trigger] out[k]
                        == match_text(path, (j + 1) as nat, body[j])
        }),
{
    lemma_add_matches(found, expression, path, body, body.len() as int);
    let out = add_matches(found, expression, path, body, body.len() as int);
    assert forall|k: int| found.len() <= k < out.len() implies exists|j: int|
        #![trigger body[j]]
        0 <= j < body.len() && expression_matches(expression, body[j]) && #[trigger] out[k] == match_text(
            path,
            (j + 1) as nat,
            body[j],
        ) by {
        assert(out[k] == add_matches(found, expression, path, body, body.len() as int)[k]);
        let j = choose|j: int|
            #![trigger body[j]]
            0 <= j < body.len() && expression_matches(expression, body[j]) && out[k] == match_text(
                path,
                (j + 1) as nat,
                body[j],
            );
        assert(expression_matches(expression, body[j]));
    }
}

/// The refusal of a file pattern.
pub open spec fn invalid_glob_text(glob: Seq<char>, error: Seq<char>) -> Seq<char> {
    "find: invalid glob "@ + debug_text(glob) + ": "@ + error
}

/// A search for files by their names.
#[derive(Debug)]
pub struct FindScan {
    /// The files that the walk is to give.
    pub types: ignore::types::Types,
    pub found: Vec<String>,
}

impl FindScan {
    /// Begins a search, where the pattern is a file pattern.
    pub fn start(glob: &str) -> (r: Result<FindScan, ExecutorError>)
        ensures
            match r {
                Ok(scan) => {
                    &&& glob_error(glob@) is None
                    &&& selected_glob(scan.types) == glob@
                    &&& scan.found@.len() == 0
                },
                Err(e) => glob_error(glob@) matches Some(m) && is_other(
                    e,
                    invalid_glob_text(glob@, m),
                ),
            },
    {
        match select_files(glob) {
            Ok(types) => Ok(FindScan { types, found: Vec::new() }),
            Err(m) => {
                let mut e = owned("find: invalid glob ");
                e.push_str(quoted(glob).as_str());
                e.push_str(": ");
                e.push_str(m.as_str());
                Err(ExecutorError::Other(e))
            },
        }
    }

    /// Takes the next entry of the walk where it is a file, up to the most paths. Answers
    /// whether the walk goes on.
    pub fn entry(&mut self, path: &str, is_file: bool) -> (go_on: bool)
        ensures
            final(self).types == old(self).types,
            texts(final(self).found@) == (if is_file && old(self).found@.len() < MAX_FIND_PATHS {
                texts(old(self).found@).push(path@)
            } else {
                texts(old(self).found@)
            }),
            go_on == (!is_file || old(self).found@.len() < MAX_FIND_PATHS),
    {
        if !is_file {
            return true;
        }
        if self.found.len() >= MAX_FIND_PATHS {
            return false;
        }
        self.found.push(owned(path));
        true
    }
}

proof fn lemma_matches_found(
    found: Seq<Seq<char>>,
    expression: regex::Regex,
    path: Seq<char>,
    body: Seq<Seq<char>>,
    n: int,
    j: int,
)
    requires
        0 <= j < n <= body.len(),
        expression_matches(expression, body[j]),
        add_matches(found, expression, path, body, n).len() < MAX_GREP_MATCHES,
    ensures
        add_matches(found, expression, path, body, n).contains(
            match_text(path, (j + 1) as nat, body[j]),
        ),
    decreases n,
{
    let before = add_matches(found, expression, path, body, n - 1);
    let all = add_matches(found, expression, path, body, n);
    if j == n - 1 {
        assert(all[before.len() as int] == match_text(path, n as nat, body[j]));
    } else {
        lemma_matches_found(found, expression, path, body, n - 1, j);
        let x = match_text(path, (j + 1) as nat, body[j]);
        let i = choose|i: int| 0 <= i < before.len() && before[i] == x;
        assert(all[i] == x);
    }
}

/// Every line that matches is found, with the number of its line counted from one, as long as
/// there are not too many.
pub proof fn law_matching_lines_are_found(
    found: Seq<Seq<char>>,
    expression: regex::Regex,
    path: Seq<char>,
    body: Seq<Seq<char>>,
    j: int,
)
    requires
        0 <= j < body.len(),
        expression_matches(expression, body[j]),
        add_matches(found, expression, path, body, body.len() as int).len() < MAX_GREP_MATCHES,
    ensures
        add_matches(found, expression, path, body, body.len() as int).contains(
            path + ":"@ + digits((j + 1) as nat) + ":"@ + body[j],
        ),
{
    lemma_matches_found(found, expression, path, body, body.len() as int, j);
}

} // verus!
