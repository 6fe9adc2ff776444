//! Prompt files that act as slash commands.
//!
//! Markdown files under `.agents/commands`, and under the `commands` directory of one vendor
//! more, of the project first and of the user then, are commands named after the file. A YAML
//! frontmatter block may carry a description; the body is a prompt in which `$ARGUMENTS`,
//! `$ARGS` and `$1` to `$9` stand for the arguments. Of several files of one name, that of the
//! first directory counts.

use crate::order::{
    in_key_order, is_distinct, is_sorted, key_order, lemma_sorted_positions, positions,
    sorted_positions, text_lt,
};
use crate::paths::{
    extension, file_stem, join_path, joined_path, law_extensions_stand_behind_the_last_dot,
    law_plain_names_are_file_names, path_extension, path_file_stem,
};
use crate::text::{
    char_replaced, chars_of, contains_text, find_char, find_chars, find_from,
    law_nothing_to_replace_changes_nothing, lemma_char_pos, matches_at, occurs_at, opt_text, owned,
    replace, replace_char, replaced, split_words, starts_with_text, text_of, texts, trim, trimmed,
    words,
};
use vstd::prelude::*;

verus! {

/// A command that was loaded from a prompt file.
#[derive(Debug)]
pub struct FileCommand {
    /// The stem of the file name; the command is invoked as `/name`.
    pub name: String,
    /// The description of the frontmatter, if any.
    pub description: String,
    /// The prompt, with its placeholders.
    pub body: String,
    /// The file that the command was loaded from.
    pub path: String,
}

/// Where prompt files are kept, of the project or the user.
pub const AGENTS_DIR: &'static str = ".agents";

/// The directory of prompt files in a vendor's directory below a base.
pub open spec fn vendor_root(base: Seq<char>, vendor: Seq<char>) -> Seq<char> {
    joined_path(joined_path(base, vendor), "commands"@)
}

/// The directories that are scanned, in the order of their priority.
pub open spec fn scan_dirs(cwd: Seq<char>, home: Seq<char>, vendor: Seq<char>) -> Seq<Seq<char>> {
    seq![
        vendor_root(cwd, ".agents"@),
        vendor_root(cwd, vendor),
        vendor_root(home, ".agents"@),
        vendor_root(home, vendor),
    ]
}

fn vendor_dir(base: &str, vendor: &str) -> (r: String)
    ensures
        r@ == vendor_root(base@, vendor@),
{
    join_path(join_path(base, vendor).as_str(), "commands")
}

/// The directories that are scanned, in the order of their priority: those of the project
/// before those of the user, and in each `.agents` before the directory of the other vendor.
pub fn command_dirs(cwd: &str, home: &str, vendor: &str) -> (r: Vec<String>)
    ensures
        texts(r@) == scan_dirs(cwd@, home@, vendor@),
{
    let mut r: Vec<String> = Vec::new();
    r.push(vendor_dir(cwd, AGENTS_DIR));
    r.push(vendor_dir(cwd, vendor));
    r.push(vendor_dir(home, AGENTS_DIR));
    r.push(vendor_dir(home, vendor));
    assert(texts(r@) =~= scan_dirs(cwd@, home@, vendor@));
    r
}

// Frontmatter.

/// A text with every line ending made a line feed.
pub open spec fn line_feeds(s: Seq<char>) -> Seq<char> {
    char_replaced(replaced(s, "\r\n"@, "\n"@), '\r', '\n')
}

/// Where the closing marker of the frontmatter block begins in a text that has one: at the
/// line feed before three dashes that follow the opening three.
pub open spec fn closing_marker(s: Seq<char>) -> Option<int> {
    if starts_with_text(s, "---"@) {
        find_from(s, "\n---"@, 3)
    } else {
        None
    }
}

/// Whether the frontmatter block of a text, if it has one, can be taken out: a character of
/// one byte follows the opening marker.
pub open spec fn frontmatter_readable(content: Seq<char>) -> bool {
    let s = line_feeds(content);
    closing_marker(s) is Some ==> (s[3] as int) < 0x80
}

/// A prompt file, taken apart.
#[derive(Debug)]
pub struct CommandText {
    /// The YAML text between the markers, where the file has a frontmatter block.
    pub frontmatter: Option<String>,
    /// The prompt: what follows the block, without the white space around it, or the whole
    /// file where there is no block.
    pub body: String,
}

/// What stands between the opening marker of a frontmatter block and the closing one.
pub open spec fn block_text(s: Seq<char>, end: int) -> Seq<char> {
    if end <= 4 {
        Seq::empty()
    } else {
        s.subrange(4, end)
    }
}

/// Whether `r` is the prompt file `content`, taken apart. A file without a frontmatter block
/// is its own body, unchanged.
pub open spec fn is_command_text(r: CommandText, content: Seq<char>) -> bool {
    let s = line_feeds(content);
    match closing_marker(s) {
        None => r.frontmatter is None && r.body@ == content,
        Some(end) => {
            &&& opt_text(r.frontmatter) == Some(block_text(s, end))
            &&& r.body@ == trimmed(s.skip(end + 4))
        },
    }
}

fn normalize(content: &str) -> (r: String)
    ensures
        r@ == line_feeds(content@),
{
    proof {
        reveal_strlit("\r\n");
    }
    replace_char(replace(content, "\r\n", "\n").as_str(), '\r', '\n')
}

fn find_closing(v: &Vec<char>) -> (r: Option<usize>)
    ensures
        r matches Some(i) ==> closing_marker(v@) == Some(i as int) && 3 <= i && i + 4 <= v@.len(),
        r is None ==> closing_marker(v@) is None,
{
    proof {
        reveal_strlit("---");
        reveal_strlit("\n---");
    }
    if v.len() < 3 || v[0] != '-' || v[1] != '-' || v[2] != '-' {
        assert(!starts_with_text(v@, "---"@)) by {
            if starts_with_text(v@, "---"@) {
                assert(v@.subrange(0, 3)[0] == v@[0]);
                assert(v@.subrange(0, 3)[1] == v@[1]);
                assert(v@.subrange(0, 3)[2] == v@[2]);
            }
        }
        return None;
    }
    assert(v@.subrange(0, 3) =~= "---"@);
    find_chars(v, &chars_of("\n---"), 3)
}

/// Whether the frontmatter block of a text can be taken out.
pub fn has_readable_frontmatter(content: &str) -> (r: bool)
    ensures
        r == frontmatter_readable(content@),
{
    let v = chars_of(normalize(content).as_str());
    match find_closing(&v) {
        Some(_) => v[3] < '\u{80}',
        None => true,
    }
}

/// Takes a prompt file apart into the YAML text of its frontmatter and its body.
pub fn split_frontmatter(content: &str) -> (r: CommandText)
    requires
        frontmatter_readable(content@),
    ensures
        is_command_text(r, content@),
{
    let normalized = normalize(content);
    let v = chars_of(normalized.as_str());
    match find_closing(&v) {
        None => CommandText { frontmatter: None, body: owned(content) },
        Some(end) => {
            let len: usize = v.len();
            let rest = text_of(&v, end + 4, len);
            assert(rest@ =~= v@.skip(end + 4));
            let frontmatter = if end <= 4 {
                String::new()
            } else {
                text_of(&v, 4, end)
            };
            CommandText { frontmatter: Some(frontmatter), body: trim(rest.as_str()) }
        },
    }
}

// Scanning.

/// One prompt file of a directory.
#[derive(Debug)]
pub struct CommandFile {
    /// The name of the file in its directory.
    pub name: String,
    pub description: String,
    pub body: String,
}

/// The command name of a file: the stem of a Markdown file with a name. What holds a separator
/// is no file of its directory.
pub open spec fn command_name(name: Seq<char>) -> Option<Seq<char>> {
    if name.contains('/') || extension(name) != Some("md"@) {
        None
    } else {
        match file_stem(name) {
            Some(stem) => if stem.len() > 0 {
                Some(stem)
            } else {
                None
            },
            None => None,
        }
    }
}

/// The content of a command.
pub struct CommandView {
    pub name: Seq<char>,
    pub description: Seq<char>,
    pub body: Seq<char>,
    pub path: Seq<char>,
}

impl View for FileCommand {
    type V = CommandView;

    open spec fn view(&self) -> CommandView {
        CommandView {
            name: self.name@,
            description: self.description@,
            body: self.body@,
            path: self.path@,
        }
    }
}

pub open spec fn command_views(v: Seq<FileCommand>) -> Seq<CommandView> {
    Seq::new(v.len(), |i: int| v[i]@)
}

pub open spec fn command_names(v: Seq<CommandView>) -> Seq<Seq<char>> {
    Seq::new(v.len(), |i: int| v[i].name)
}

/// The paths of the files of a directory.
pub open spec fn file_paths(dir: Seq<char>, files: Seq<CommandFile>) -> Seq<Seq<char>> {
    Seq::new(files.len(), |i: int| joined_path(dir, files[i].name@))
}

/// The commands so far, with the one that a file of a directory makes, if it makes one of a new
/// name.
pub open spec fn add_command(
    found: Seq<CommandView>,
    dir: Seq<char>,
    file: CommandFile,
) -> Seq<CommandView> {
    match command_name(file.name@) {
        Some(name) => if command_names(found).contains(name) {
            found
        } else {
            found.push(
                CommandView {
                    name,
                    description: file.description@,
                    body: file.body@,
                    path: joined_path(dir, file.name@),
                },
            )
        },
        None => found,
    }
}

/// The commands so far, with those that the files of a directory make, one after the other.
pub open spec fn add_commands(
    found: Seq<CommandView>,
    dir: Seq<char>,
    files: Seq<CommandFile>,
) -> Seq<CommandView>
    decreases files.len(),
{
    if files.len() == 0 {
        found
    } else {
        add_command(add_commands(found, dir, files.drop_last()), dir, files.last())
    }
}

/// The files of a directory, in the order of their paths.
pub open spec fn in_path_order(dir: Seq<char>, files: Seq<CommandFile>) -> Seq<CommandFile> {
    in_key_order(files, file_paths(dir, files))
}

/// The files of the directory at a position. One that could not be read has none.
pub open spec fn listing(listings: Seq<Vec<CommandFile>>, i: int) -> Seq<CommandFile> {
    if 0 <= i < listings.len() {
        listings[i]@
    } else {
        Seq::empty()
    }
}

/// The commands that the first `n` directories make, one directory after the other, the files
/// of each in the order of their paths.
pub open spec fn picked_commands(
    dirs: Seq<Seq<char>>,
    listings: Seq<Vec<CommandFile>>,
    n: int,
) -> Seq<CommandView>
    decreases n,
{
    if n <= 0 {
        Seq::empty()
    } else {
        add_commands(
            picked_commands(dirs, listings, n - 1),
            dirs[n - 1],
            in_path_order(dirs[n - 1], listing(listings, n - 1)),
        )
    }
}

/// The commands that a scan of directories gives: those that their files make, in the order of
/// their names.
pub open spec fn scanned(dirs: Seq<Seq<char>>, listings: Seq<Vec<CommandFile>>) -> Seq<
    CommandView,
> {
    let found = picked_commands(dirs, listings, dirs.len() as int);
    in_key_order(found, command_names(found))
}

fn has_command(found: &Vec<FileCommand>, name: &str) -> (r: bool)
    ensures
        r == command_names(command_views(found@)).contains(name@),
{
    let mut i: usize = 0;
    let ghost names = command_names(command_views(found@));
    while i < found.len()
        invariant
            i <= found@.len(),
            names == command_names(command_views(found@)),
            forall|j: int| 0 <= j < i ==> names[j] != name@,
        decreases found@.len() - i,
    {
        if found[i].name.as_str().eq(name) {
            assert(names[i as int] == name@);
            return true;
        }
        i += 1;
    }
    false
}

fn name_of_command(name: &str) -> (r: Option<String>)
    ensures
        opt_text(r) == command_name(name@),
{
    let v = chars_of(name);
    let len: usize = v.len();
    let at: usize = find_char(&v, '/', 0);
    proof {
        lemma_char_pos(name@, '/', 0);
    }
    if at < len {
        assert(name@[at as int] == '/');
        return None;
    }
    assert(!name@.contains('/'));
    match path_extension(name) {
        Some(ext) => if ext.as_str().eq("md") {
            match path_file_stem(name) {
                Some(stem) => if stem.as_str().is_empty() {
                    None
                } else {
                    Some(stem)
                },
                None => None,
            }
        } else {
            None
        },
        None => None,
    }
}

fn add_file(found: &mut Vec<FileCommand>, dir: &str, file: &CommandFile)
    ensures
        command_views(final(found)@) == add_command(command_views(old(found)@), dir@, *file),
{
    if let Some(name) = name_of_command(file.name.as_str()) {
        if !has_command(found, name.as_str()) {
            let ghost before = found@;
            found.push(
                FileCommand {
                    name,
                    description: file.description.clone(),
                    body: file.body.clone(),
                    path: join_path(dir, file.name.as_str()),
                },
            );
            assert(command_views(found@) =~= command_views(before).push(found@.last()@));
        }
    }
}

fn add_dir(found: &mut Vec<FileCommand>, dir: &str, files: &Vec<CommandFile>)
    ensures
        command_views(final(found)@) == add_commands(
            command_views(old(found)@),
            dir@,
            in_path_order(dir@, files@),
        ),
{
    let mut keys: Vec<String> = Vec::new();
    let ghost paths = file_paths(dir@, files@);
    let mut k: usize = 0;
    while k < files.len()
        invariant
            k <= files@.len(),
            paths == file_paths(dir@, files@),
            texts(keys@) == paths.take(k as int),
        decreases files@.len() - k,
    {
        let ghost before = keys@;
        keys.push(join_path(dir, files[k].name.as_str()));
        k += 1;
        assert(texts(keys@) =~= texts(before).push(paths[k - 1]));
        assert(paths.take(k as int) =~= paths.take(k - 1).push(paths[k - 1]));
    }
    assert(paths.take(k as int) =~= paths);
    assert(keys@.len() == texts(keys@).len());
    let order = key_order(&keys);
    let ghost sorted = in_path_order(dir@, files@);
    let ghost start = command_views(found@);
    let mut i: usize = 0;
    assert(sorted.take(0) =~= Seq::empty());
    while i < order.len()
        invariant
            i <= order@.len(),
            order@.len() == files@.len(),
            sorted == in_path_order(dir@, files@),
            positions(order@) == sorted_positions(
                file_paths(dir@, files@),
                files@.len() as int,
            ),
            forall|j: int| 0 <= j < order@.len() ==> (#[trigger] order@[j]) < files@.len(),
            command_views(found@) == add_commands(start, dir@, sorted.take(i as int)),
        decreases order@.len() - i,
    {
        let at = order[i];
        proof {
            assert(positions(order@)[i as int] == at as int);
            assert(sorted[i as int] == files@[at as int]);
            assert(sorted.take(i + 1).drop_last() =~= sorted.take(i as int));
        }
        add_file(found, dir, &files[at]);
        i += 1;
    }
    assert(sorted.take(i as int) =~= sorted);
}

/// The commands that the prompt files of the scanned directories make, given the files of each
/// directory in the order of `command_dirs`. A directory that does not exist and a file that
/// cannot be read contribute nothing.
pub fn scan_file_commands_in(
    cwd: &str,
    user_root: &str,
    vendor: &str,
    listings: &Vec<Vec<CommandFile>>,
) -> (r: Vec<FileCommand>)
    ensures
        command_views(r@) == scanned(scan_dirs(cwd@, user_root@, vendor@), listings@),
{
    let dirs = command_dirs(cwd, user_root, vendor);
    let ghost all = scan_dirs(cwd@, user_root@, vendor@);
    let mut found: Vec<FileCommand> = Vec::new();
    let mut i: usize = 0;
    assert(command_views(found@) =~= picked_commands(all, listings@, 0));
    while i < dirs.len()
        invariant
            i <= dirs@.len(),
            texts(dirs@) == all,
            command_views(found@) == picked_commands(all, listings@, i as int),
        decreases dirs@.len() - i,
    {
        assert(texts(dirs@)[i as int] == dirs@[i as int]@);
        if i < listings.len() {
            add_dir(&mut found, dirs[i].as_str(), &listings[i]);
        } else {
            assert(in_path_order(all[i as int], Seq::empty()) =~= Seq::empty());
        }
        i += 1;
    }
    assert(texts(dirs@).len() == dirs@.len());
    sort_commands(&found)
}

/// The commands of a working directory and a home directory.
pub fn scan_file_commands(
    cwd: &str,
    home: &str,
    vendor: &str,
    listings: &Vec<Vec<CommandFile>>,
) -> (r: Vec<FileCommand>)
    ensures
        command_views(r@) == scanned(scan_dirs(cwd@, home@, vendor@), listings@),
{
    scan_file_commands_in(cwd, home, vendor, listings)
}

fn sort_commands(found: &Vec<FileCommand>) -> (r: Vec<FileCommand>)
    ensures
        command_views(r@) == in_key_order(
            command_views(found@),
            command_names(command_views(found@)),
        ),
{
    let ghost all = command_views(found@);
    let ghost names = command_names(all);
    let mut keys: Vec<String> = Vec::new();
    let mut k: usize = 0;
    while k < found.len()
        invariant
            k <= found@.len(),
            names == command_names(command_views(found@)),
            texts(keys@) == names.take(k as int),
        decreases found@.len() - k,
    {
        let ghost before = keys@;
        keys.push(found[k].name.clone());
        k += 1;
        assert(texts(keys@) =~= texts(before).push(found@[k - 1].name@));
        assert(names.take(k as int) =~= names.take(k - 1).push(found@[k - 1].name@));
    }
    assert(names.take(k as int) =~= names);
    assert(keys@.len() == texts(keys@).len());
    let order = key_order(&keys);
    let ghost sorted = in_key_order(all, names);
    let mut r: Vec<FileCommand> = Vec::new();
    let mut i: usize = 0;
    assert(command_views(r@) =~= sorted.take(0));
    while i < order.len()
        invariant
            i <= order@.len(),
            order@.len() == found@.len(),
            all == command_views(found@),
            names == command_names(all),
            sorted == in_key_order(all, names),
            positions(order@) == sorted_positions(names, found@.len() as int),
            forall|j: int| 0 <= j < order@.len() ==> (#[trigger] order@[j]) < found@.len(),
            command_views(r@) == sorted.take(i as int),
        decreases order@.len() - i,
    {
        let ghost before = r@;
        let at = order[i];
        r.push(found[at].copy());
        proof {
            assert(positions(order@)[i as int] == at as int);
            assert(sorted[i as int] == found@[at as int]@);
            assert(command_views(r@) =~= command_views(before).push(found@[at as int]@));
            assert(sorted.take(i + 1) =~= sorted.take(i as int).push(sorted[i as int]));
        }
        i += 1;
    }
    assert(sorted.take(i as int) =~= sorted);
    r
}

impl FileCommand {
    /// A copy of the command.
    pub fn copy(&self) -> (r: FileCommand)
        ensures
            r == *self,
    {
        FileCommand {
            name: self.name.clone(),
            description: self.description.clone(),
            body: self.body.clone(),
            path: self.path.clone(),
        }
    }
}

// Laws of scanning.

/// Whether no two commands share a name.
pub open spec fn distinct_commands(v: Seq<CommandView>) -> bool {
    is_distinct(command_names(v))
}

proof fn lemma_add_command(found: Seq<CommandView>, dir: Seq<char>, file: CommandFile)
    requires
        distinct_commands(found),
    ensures
        distinct_commands(add_command(found, dir, file)),
        add_command(found, dir, file).len() >= found.len(),
        forall|i: int|
            0 <= i < found.len() ==> (#[trigger] add_command(found, dir, file)[i]) == found[i],
{
    let out = add_command(found, dir, file);
    if out.len() > found.len() {
        let names = command_names(out);
        assert forall|i: int, j: int| 0 <= i < j < names.len() implies #[trigger] names[i]
            != #[trigger] names[j] by {
            assert(command_names(found)[i] == names[i]);
            if j < found.len() {
                assert(command_names(found)[j] == names[j]);
            }
        }
    }
}

proof fn lemma_add_commands(found: Seq<CommandView>, dir: Seq<char>, files: Seq<CommandFile>)
    requires
        distinct_commands(found),
    ensures
        distinct_commands(add_commands(found, dir, files)),
        add_commands(found, dir, files).len() >= found.len(),
        forall|i: int|
            0 <= i < found.len() ==> (#[trigger] add_commands(found, dir, files)[i]) == found[i],
    decreases files.len(),
{
    if files.len() > 0 {
        lemma_add_commands(found, dir, files.drop_last());
        lemma_add_command(add_commands(found, dir, files.drop_last()), dir, files.last());
    }
}

proof fn lemma_picked(dirs: Seq<Seq<char>>, listings: Seq<Vec<CommandFile>>, n: int)
    ensures
        distinct_commands(picked_commands(dirs, listings, n)),
    decreases n,
{
    if n > 0 {
        lemma_picked(dirs, listings, n - 1);
        lemma_add_commands(
            picked_commands(dirs, listings, n - 1),
            dirs[n - 1],
            in_path_order(dirs[n - 1], listing(listings, n - 1)),
        );
    } else {
        assert(command_names(picked_commands(dirs, listings, n)) =~= Seq::empty());
    }
}

/// A further directory of lower priority changes none of the commands found before it, and adds
/// none of a name that was found.
pub proof fn law_first_root_wins(
    dirs: Seq<Seq<char>>,
    listings: Seq<Vec<CommandFile>>,
    n: int,
)
    requires
        0 <= n < dirs.len(),
    ensures
        ({
            let before = picked_commands(dirs, listings, n);
            let after = picked_commands(dirs, listings, n + 1);
            &&& after.len() >= before.len()
            &&& forall|i: int| 0 <= i < before.len() ==> (#[trigger] after[i]) == before[i]
            &&& distinct_commands(after)
        }),
{
    lemma_picked(dirs, listings, n);
    lemma_add_commands(
        picked_commands(dirs, listings, n),
        dirs[n],
        in_path_order(dirs[n], listing(listings, n)),
    );
}

/// A scan gives the commands that were found, each once, in the order of their names, and
/// no two of one name.
pub proof fn law_scan_is_sorted_and_distinct(
    dirs: Seq<Seq<char>>,
    listings: Seq<Vec<CommandFile>>,
)
    ensures
        is_sorted(command_names(scanned(dirs, listings))),
        distinct_commands(scanned(dirs, listings)),
        scanned(dirs, listings).len() == picked_commands(
            dirs,
            listings,
            dirs.len() as int,
        ).len(),
        forall|c: CommandView|
            #![trigger scanned(dirs, listings).contains(c)]
            scanned(dirs, listings).contains(c) <==> picked_commands(
                dirs,
                listings,
                dirs.len() as int,
            ).contains(c),
{
    let found = picked_commands(dirs, listings, dirs.len() as int);
    let names = command_names(found);
    let n = found.len() as int;
    let order = sorted_positions(names, n);
    let out = scanned(dirs, listings);
    lemma_picked(dirs, listings, dirs.len() as int);
    lemma_sorted_positions(names, n);
    assert forall|i: int| 0 <= i < out.len() implies 0 <= #[trigger] order[i] < n && out[i]
        == found[order[i]] && command_names(out)[i] == names[order[i]] by {
        assert(order.contains(order[i]));
    }
    assert forall|i: int, j: int| 0 <= i < j < out.len() implies !text_lt(
        #[trigger] command_names(out)[j],
        #[trigger] command_names(out)[i],
    ) && command_names(out)[i] != command_names(out)[j] by {
        assert(order[i] != order[j]);
        assert(command_names(out)[i] == names[order[i]]);
        assert(command_names(out)[j] == names[order[j]]);
    }
    assert forall|c: CommandView| out.contains(c) <==> found.contains(c) by {
        if out.contains(c) {
            let i = choose|i: int| 0 <= i < out.len() && out[i] == c;
            assert(found[order[i]] == c);
        }
        if found.contains(c) {
            let k = choose|k: int| 0 <= k < found.len() && found[k] == c;
            assert(order.contains(k));
            let i = choose|i: int| 0 <= i < order.len() && order[i] == k;
            assert(out[i] == c);
        }
    }
}

/// Whether a command was loaded from a file that stands in a directory.
pub open spec fn loaded_from(c: CommandView, dir: Seq<char>, file: CommandFile) -> bool {
    &&& !file.name@.contains('/')
    &&& c.path == joined_path(dir, file.name@)
    &&& command_name(file.name@) == Some(c.name)
    &&& c.description == file.description@
    &&& c.body == file.body@
}

proof fn lemma_added_from(
    found: Seq<CommandView>,
    dir: Seq<char>,
    files: Seq<CommandFile>,
    k: int,
)
    requires
        0 <= k < add_commands(found, dir, files).len(),
    ensures
        k < found.len() && add_commands(found, dir, files)[k] == found[k] || exists|j: int|
            0 <= j < files.len() && loaded_from(
                add_commands(found, dir, files)[k],
                dir,
                #[trigger] files[j],
            ),
    decreases files.len(),
{
    if files.len() > 0 {
        let rest = files.drop_last();
        let before = add_commands(found, dir, rest);
        if k < before.len() {
            lemma_added_from(found, dir, rest, k);
            let c = before[k];
            if !(k < found.len() && c == found[k]) {
                let j = choose|j: int| 0 <= j < rest.len() && loaded_from(
                    c,
                    dir,
                    #[trigger] rest[j],
                );
                assert(files[j] == rest[j]);
            }
        } else {
            let last = files[files.len() - 1];
            assert(loaded_from(add_commands(found, dir, files)[k], dir, last));
        }
    }
}

proof fn lemma_picked_from(
    dirs: Seq<Seq<char>>,
    listings: Seq<Vec<CommandFile>>,
    n: int,
    k: int,
) -> (at: (int, int))
    requires
        0 <= n <= dirs.len(),
        0 <= k < picked_commands(dirs, listings, n).len(),
    ensures
        0 <= at.0 < n,
        0 <= at.1 < listing(listings, at.0).len(),
        loaded_from(
            picked_commands(dirs, listings, n)[k],
            dirs[at.0],
            listing(listings, at.0)[at.1],
        ),
    decreases n,
{
    let dir = dirs[n - 1];
    let files = listing(listings, n - 1);
    let sorted = in_path_order(dir, files);
    let before = picked_commands(dirs, listings, n - 1);
    let c = picked_commands(dirs, listings, n)[k];
    lemma_added_from(before, dir, sorted, k);
    if k < before.len() && c == before[k] {
        lemma_picked_from(dirs, listings, n - 1, k)
    } else {
        let j = choose|j: int| 0 <= j < sorted.len() && loaded_from(c, dir, #[trigger] sorted[j]);
        let order = sorted_positions(file_paths(dir, files), files.len() as int);
        lemma_sorted_positions(file_paths(dir, files), files.len() as int);
        assert(order.contains(order[j]));
        (n - 1, order[j])
    }
}

/// Every command of a scan was loaded from a file that was read, and that file stands in one of
/// the scanned directories: its path is the directory and a name without a separator.
pub proof fn law_commands_come_from_the_scanned_directories(
    cwd: Seq<char>,
    home: Seq<char>,
    vendor: Seq<char>,
    listings: Seq<Vec<CommandFile>>,
    c: CommandView,
) -> (at: (int, int))
    requires
        scanned(scan_dirs(cwd, home, vendor), listings).contains(c),
    ensures
        0 <= at.0 < scan_dirs(cwd, home, vendor).len(),
        0 <= at.0 < listings.len(),
        0 <= at.1 < listings[at.0]@.len(),
        loaded_from(c, scan_dirs(cwd, home, vendor)[at.0], listings[at.0]@[at.1]),
{
    let dirs = scan_dirs(cwd, home, vendor);
    let found = picked_commands(dirs, listings, dirs.len() as int);
    law_scan_is_sorted_and_distinct(dirs, listings);
    assert(found.contains(c));
    let k = choose|k: int| 0 <= k < found.len() && found[k] == c;
    lemma_picked_from(dirs, listings, dirs.len() as int, k)
}

// Expansion.

/// The argument that a digit stands for: the first for `1`, up to the ninth for `9`.
pub open spec fn argument_at(args: Seq<Seq<char>>, c: char) -> Option<Seq<char>> {
    let n = c as int - '0' as int;
    if 1 <= n <= 9 && n <= args.len() {
        Some(args[n - 1])
    } else {
        None
    }
}

/// The prompt that a command body makes from a position on. What takes the place of a
/// placeholder is not searched for placeholders again.
pub open spec fn expanded_from(
    body: Seq<char>,
    args_tail: Seq<char>,
    args: Seq<Seq<char>>,
    from: int,
) -> Seq<char>
    decreases body.len() - from,
{
    proof {
        reveal_strlit("$ARGUMENTS");
        reveal_strlit("$ARGS");
    }
    if from < 0 || from >= body.len() {
        Seq::empty()
    } else if occurs_at(body, "$ARGUMENTS"@, from) {
        args_tail + expanded_from(body, args_tail, args, from + 10)
    } else if occurs_at(body, "$ARGS"@, from) {
        args_tail + expanded_from(body, args_tail, args, from + 5)
    } else if body[from] == '$' && from + 1 < body.len() && argument_at(args, body[from + 1])
        is Some {
        argument_at(args, body[from + 1])->0 + expanded_from(body, args_tail, args, from + 2)
    } else {
        seq![body[from]] + expanded_from(body, args_tail, args, from + 1)
    }
}

/// The prompt that a command body and an argument tail make: `$ARGUMENTS` and `$ARGS` in the
/// body become the tail as it is, `$1` to `$9` its words, as far as there are so many.
pub open spec fn expanded(body: Seq<char>, args_tail: Seq<char>) -> Seq<char> {
    expanded_from(body, args_tail, words(args_tail), 0)
}

fn find_argument(args: &Vec<String>, c: char) -> (r: Option<usize>)
    ensures
        match r {
            Some(i) => i < args@.len() && argument_at(texts(args@), c) == Some(args@[i as int]@),
            None => argument_at(texts(args@), c) is None,
        },
{
    if c < '1' || c > '9' {
        return None;
    }
    let i: usize = (c as u32 - '1' as u32) as usize;
    if i < args.len() {
        assert(texts(args@)[i as int] == args@[i as int]@);
        Some(i)
    } else {
        None
    }
}

/// The prompt of a command for the text that follows its name: `$ARGUMENTS` and `$ARGS`
/// stand for the whole text, `$1` to `$9` for its words.
pub fn expand_file_command(cmd: &FileCommand, args_tail: &str) -> (r: String)
    ensures
        r@ == expanded(cmd.body@, args_tail@),
{
    let args = split_words(args_tail);
    let body = chars_of(cmd.body.as_str());
    let whole = chars_of("$ARGUMENTS");
    let short = chars_of("$ARGS");
    proof {
        reveal_strlit("$ARGUMENTS");
        reveal_strlit("$ARGS");
    }
    let mut out = String::new();
    let mut i: usize = 0;
    let ghost all = expanded(cmd.body@, args_tail@);
    assert(out@ + all =~= all);
    while i < body.len()
        invariant
            i <= body@.len(),
            body@ == cmd.body@,
            whole@ == "$ARGUMENTS"@,
            short@ == "$ARGS"@,
            whole@.len() == 10,
            short@.len() == 5,
            texts(args@) == words(args_tail@),
            all == out@ + expanded_from(body@, args_tail@, words(args_tail@), i as int),
        decreases body@.len() - i,
    {
        let ghost before = out@;
        let ghost at = i as int;
        if matches_at(&body, &whole, i) {
            out.push_str(args_tail);
            i += 10;
            assert(out@ =~= before + args_tail@);
        } else if matches_at(&body, &short, i) {
            out.push_str(args_tail);
            i += 5;
            assert(out@ =~= before + args_tail@);
        } else {
            let argument = if body[i] == '$' && i + 1 < body.len() {
                find_argument(&args, body[i + 1])
            } else {
                None
            };
            match argument {
                Some(k) => {
                    out.push_str(args[k].as_str());
                    i += 2;
                },
                None => {
                    out.push(body[i]);
                    i += 1;
                    assert(out@ =~= before + seq![body@[at]]);
                },
            }
        }
        assert(before + expanded_from(body@, args_tail@, words(args_tail@), at) =~= out@
            + expanded_from(body@, args_tail@, words(args_tail@), i as int));
    }
    assert(out@ + Seq::<char>::empty() =~= out@);
    out
}

proof fn lemma_plain_body(body: Seq<char>, tail: Seq<char>, args: Seq<Seq<char>>, from: int)
    requires
        0 <= from <= body.len(),
        !body.contains('$'),
    ensures
        expanded_from(body, tail, args, from) == body.skip(from),
    decreases body.len() - from,
{
    if from < body.len() {
        reveal_strlit("$ARGUMENTS");
        reveal_strlit("$ARGS");
        assert(body.contains(body[from]));
        if occurs_at(body, "$ARGUMENTS"@, from) {
            assert(body.subrange(from, from + 10)[0] == '$');
        }
        if occurs_at(body, "$ARGS"@, from) {
            assert(body.subrange(from, from + 5)[0] == '$');
        }
        lemma_plain_body(body, tail, args, from + 1);
        assert(seq![body[from]] + body.skip(from + 1) =~= body.skip(from));
    } else {
        assert(body.skip(from) =~= Seq::empty());
    }
}

proof fn lemma_text_before(
    before: Seq<char>,
    after: Seq<char>,
    tail: Seq<char>,
    args: Seq<Seq<char>>,
    from: int,
)
    requires
        0 <= from <= before.len(),
        !before.contains('$'),
    ensures
        expanded_from(before + after, tail, args, from) == before.skip(from) + expanded_from(
            before + after,
            tail,
            args,
            before.len() as int,
        ),
    decreases before.len() - from,
{
    let body = before + after;
    if from < before.len() {
        reveal_strlit("$ARGUMENTS");
        reveal_strlit("$ARGS");
        assert(before.contains(before[from]));
        assert(body[from] == before[from]);
        if occurs_at(body, "$ARGUMENTS"@, from) {
            assert(body.subrange(from, from + 10)[0] == '$');
        }
        if occurs_at(body, "$ARGS"@, from) {
            assert(body.subrange(from, from + 5)[0] == '$');
        }
        lemma_text_before(before, after, tail, args, from + 1);
        let rest = expanded_from(body, tail, args, before.len() as int);
        assert(seq![body[from]] + (before.skip(from + 1) + rest) =~= before.skip(from) + rest);
    } else {
        let rest = expanded_from(body, tail, args, before.len() as int);
        assert(before.skip(from) + rest =~= rest);
    }
}

proof fn lemma_text_after(
    before: Seq<char>,
    after: Seq<char>,
    tail: Seq<char>,
    args: Seq<Seq<char>>,
    from: int,
)
    requires
        0 <= from <= after.len(),
    ensures
        expanded_from(before + after, tail, args, before.len() + from) == expanded_from(
            after,
            tail,
            args,
            from,
        ),
    decreases after.len() - from,
{
    let body = before + after;
    let at = before.len() + from;
    reveal_strlit("$ARGUMENTS");
    reveal_strlit("$ARGS");
    if from < after.len() {
        if at + 10 <= body.len() {
            assert(body.subrange(at, at + 10) =~= after.subrange(from, from + 10));
            lemma_text_after(before, after, tail, args, from + 10);
        }
        if at + 5 <= body.len() {
            assert(body.subrange(at, at + 5) =~= after.subrange(from, from + 5));
            lemma_text_after(before, after, tail, args, from + 5);
        }
        if at + 2 <= body.len() {
            lemma_text_after(before, after, tail, args, from + 2);
        }
        lemma_text_after(before, after, tail, args, from + 1);
    }
}

/// The argument tail goes into a prompt as it is, whatever it holds: the placeholders are those
/// of the body alone.
pub proof fn law_arguments_are_inserted_as_they_are(
    before: Seq<char>,
    after: Seq<char>,
    args_tail: Seq<char>,
)
    requires
        !before.contains('$'),
    ensures
        expanded(before + "$ARGUMENTS"@ + after, args_tail) == before + args_tail + expanded(
            after,
            args_tail,
        ),
        expanded(before, args_tail) == before,
{
    let args = words(args_tail);
    let whole = "$ARGUMENTS"@;
    let body = before + whole + after;
    reveal_strlit("$ARGUMENTS");
    assert(body =~= before + (whole + after));
    lemma_text_before(before, whole + after, args_tail, args, 0);
    assert(before.skip(0) =~= before);
    let at = before.len() as int;
    assert(body.subrange(at, at + 10) =~= whole);
    assert(body =~= (before + whole) + after);
    lemma_text_after(before + whole, after, args_tail, args, 0);
    assert(before + (args_tail + expanded(after, args_tail)) =~= before + args_tail + expanded(
        after,
        args_tail,
    ));
    lemma_plain_body(before, args_tail, args, 0);
}

/// `$ARGS` stands for the argument tail, `$1` to `$9` for its words as far as there are so
/// many, and any other dollar sign for itself.
pub proof fn law_placeholders_are_filled(
    before: Seq<char>,
    after: Seq<char>,
    args_tail: Seq<char>,
    n: int,
)
    requires
        !before.contains('$'),
        1 <= n <= 9,
    ensures
        expanded(before + "$ARGS"@ + after, args_tail) == before + args_tail + expanded(
            after,
            args_tail,
        ),
        n <= words(args_tail).len() ==> expanded(
            before + seq!['$', ('0' as int + n) as char] + after,
            args_tail,
        ) == before + words(args_tail)[n - 1] + expanded(after, args_tail),
        n > words(args_tail).len() ==> expanded(
            before + seq!['$', ('0' as int + n) as char] + after,
            args_tail,
        ) == before + seq!['$', ('0' as int + n) as char] + expanded(after, args_tail),
{
    let args = words(args_tail);
    reveal_strlit("$ARGUMENTS");
    reveal_strlit("$ARGS");
    let at = before.len() as int;
    assert(before.skip(0) =~= before);
    let short = "$ARGS"@;
    let body = before + short + after;
    assert(body =~= before + (short + after));
    lemma_text_before(before, short + after, args_tail, args, 0);
    assert(body.subrange(at, at + 5) =~= short);
    if occurs_at(body, "$ARGUMENTS"@, at) {
        assert(body.subrange(at, at + 10)[4] == body[at + 4]);
        assert("$ARGUMENTS"@[4] == 'U' && short[4] == 'S');
    }
    assert(body =~= (before + short) + after);
    lemma_text_after(before + short, after, args_tail, args, 0);
    assert(before + (args_tail + expanded(after, args_tail)) =~= before + args_tail + expanded(
        after,
        args_tail,
    ));
    let d = ('0' as int + n) as char;
    assert(d as int == 48 + n);
    let mark = seq!['$', d];
    let numbered = before + mark + after;
    assert(numbered =~= before + (mark + after));
    lemma_text_before(before, mark + after, args_tail, args, 0);
    assert(numbered[at] == '$' && numbered[at + 1] == d);
    if occurs_at(numbered, "$ARGUMENTS"@, at) {
        assert(numbered.subrange(at, at + 10)[1] == numbered[at + 1]);
        assert("$ARGUMENTS"@[1] == 'A');
    }
    if occurs_at(numbered, short, at) {
        assert(numbered.subrange(at, at + 5)[1] == numbered[at + 1]);
        assert(short[1] == 'A');
    }
    assert(numbered =~= (before + mark) + after);
    lemma_text_after(before + mark, after, args_tail, args, 0);
    let rest = expanded(after, args_tail);
    if n <= args.len() {
        assert(argument_at(args, d) == Some(args[n - 1]));
        assert(before + (args[n - 1] + rest) =~= before + args[n - 1] + rest);
    } else {
        assert(argument_at(args, d) is None);
        if occurs_at(numbered, "$ARGUMENTS"@, at + 1) {
            assert(numbered.subrange(at + 1, at + 11)[0] == d);
        }
        if occurs_at(numbered, short, at + 1) {
            assert(numbered.subrange(at + 1, at + 6)[0] == d);
        }
        assert(d != '$');
        let tail = expanded_from(numbered, args_tail, args, at + 2);
        assert(expanded_from(numbered, args_tail, args, at + 1) == seq![d] + tail);
        assert(expanded_from(numbered, args_tail, args, at) == seq!['$'] + (seq![d] + tail));
        assert(before + (seq!['$'] + (seq![d] + rest)) =~= before + mark + rest);
    }
}

proof fn lemma_added_name(
    found: Seq<CommandView>,
    dir: Seq<char>,
    files: Seq<CommandFile>,
    name: Seq<char>,
)
    ensures
        command_names(add_commands(found, dir, files)).contains(name) <==> command_names(
            found,
        ).contains(name) || exists|k: int|
            0 <= k < files.len() && command_name((#[trigger] files[k]).name@) == Some(name),
    decreases files.len(),
{
    if files.len() > 0 {
        let front = files.drop_last();
        let last = files.last();
        lemma_added_name(found, dir, front, name);
        let before = add_commands(found, dir, front);
        let all = add_commands(found, dir, files);
        if all.len() > before.len() {
            assert(command_names(all) =~= command_names(before).push(command_name(last.name@)->0));
            let old_names = command_names(before);
            let names = command_names(all);
            assert(names[before.len() as int] == command_name(last.name@)->0);
            if old_names.contains(name) {
                let i = choose|i: int| 0 <= i < old_names.len() && old_names[i] == name;
                assert(names[i] == name);
            }
            if names.contains(name) && command_name(last.name@)->0 != name {
                let i = choose|i: int| 0 <= i < names.len() && names[i] == name;
                assert(old_names[i] == name);
            }
        }
        assert(files[files.len() - 1] == last);
        if exists|k: int|
            0 <= k < front.len() && command_name((#[trigger] front[k]).name@) == Some(name) {
            let k = choose|k: int|
                0 <= k < front.len() && command_name((#[trigger] front[k]).name@) == Some(name);
            assert(command_name(files[k].name@) == Some(name));
        }
        if exists|k: int|
            0 <= k < files.len() && command_name((#[trigger] files[k]).name@) == Some(name) {
            let k = choose|k: int|
                0 <= k < files.len() && command_name((#[trigger] files[k]).name@) == Some(name);
            if k < front.len() {
                assert(command_name(front[k].name@) == Some(name));
            }
        }
    }
}

proof fn lemma_picked_name(
    dirs: Seq<Seq<char>>,
    listings: Seq<Vec<CommandFile>>,
    n: int,
    i: int,
    k: int,
    name: Seq<char>,
)
    requires
        0 <= i < n <= dirs.len(),
        i < listings.len(),
        0 <= k < listings[i]@.len(),
        command_name(listings[i]@[k].name@) == Some(name),
    ensures
        command_names(picked_commands(dirs, listings, n)).contains(name),
    decreases n,
{
    let before = picked_commands(dirs, listings, n - 1);
    let files = in_path_order(dirs[n - 1], listing(listings, n - 1));
    lemma_added_name(before, dirs[n - 1], files, name);
    if i == n - 1 {
        let raw = listings[i]@;
        let keys = file_paths(dirs[i], raw);
        lemma_sorted_positions(keys, raw.len() as int);
        let order = sorted_positions(keys, raw.len() as int);
        assert(order.contains(k));
        let j = choose|j: int| 0 <= j < order.len() && order[j] == k;
        assert(files[j] == raw[k]);
        assert(command_name(files[j].name@) == Some(name));
    } else {
        lemma_picked_name(dirs, listings, n - 1, i, k, name);
    }
}

/// Every prompt file of the scanned directories makes a command of its name, or one of a
/// directory before it does.
pub proof fn law_every_prompt_file_makes_a_command(
    dirs: Seq<Seq<char>>,
    listings: Seq<Vec<CommandFile>>,
    i: int,
    k: int,
    name: Seq<char>,
)
    requires
        0 <= i < dirs.len(),
        i < listings.len(),
        0 <= k < listings[i]@.len(),
        command_name(listings[i]@[k].name@) == Some(name),
    ensures
        command_names(scanned(dirs, listings)).contains(name),
{
    let found = picked_commands(dirs, listings, dirs.len() as int);
    let all = scanned(dirs, listings);
    lemma_picked_name(dirs, listings, dirs.len() as int, i, k, name);
    let j = choose|j: int| 0 <= j < command_names(found).len() && command_names(found)[j] == name;
    law_scan_is_sorted_and_distinct(dirs, listings);
    assert(found.contains(found[j]));
    assert(all.contains(found[j]));
    let a = choose|a: int| 0 <= a < all.len() && all[a] == found[j];
    assert(command_names(all)[a] == name);
}

/// The command of a Markdown file bears the name of the file without its extension.
pub proof fn law_commands_are_named_after_their_files(stem: Seq<char>)
    requires
        stem.len() > 0,
        !stem.contains('/'),
        stem != seq!['.'],
    ensures
        command_name(stem + seq!['.', 'm', 'd']) == Some(stem),
{
    let ext = seq!['m', 'd'];
    let name = stem + seq!['.'] + ext;
    assert(stem + seq!['.', 'm', 'd'] =~= name);
    reveal_strlit("md");
    assert("md"@ =~= ext);
    if name.contains('/') {
        let i = choose|i: int| 0 <= i < name.len() && name[i] == '/';
        if i < stem.len() {
            assert(stem[i] == '/');
        }
    }
    assert(name.len() >= 4);
    assert(seq!['.'].len() == 1 && seq!['.', '.'].len() == 2);
    law_plain_names_are_file_names(name);
    assert(!ext.contains('.'));
    law_extensions_stand_behind_the_last_dot(stem, ext);
}

/// The project's directories come before the user's, and those of the agents before those of
/// the vendor.
pub proof fn law_scanned_directories(cwd: Seq<char>, home: Seq<char>, vendor: Seq<char>)
    ensures
        ({
            let dirs = scan_dirs(cwd, home, vendor);
            &&& dirs.len() == 4
            &&& dirs[0] == joined_path(joined_path(cwd, ".agents"@), "commands"@)
            &&& dirs[1] == joined_path(joined_path(cwd, vendor), "commands"@)
            &&& dirs[2] == joined_path(joined_path(home, ".agents"@), "commands"@)
            &&& dirs[3] == joined_path(joined_path(home, vendor), "commands"@)
        }),
{
}

/// A prompt file that begins with a block between two lines of dashes is taken apart into the
/// block and what stands behind it; one that does not begin with dashes is its own body.
pub proof fn law_frontmatter_is_taken_apart(r: CommandText, meta: Seq<char>, rest: Seq<char>)
    requires
        !(meta + rest).contains('\r'),
        find_from("---\n"@ + meta + "\n---"@ + rest, "\n---"@, 3) == Some(4 + meta.len() as int),
        is_command_text(r, "---\n"@ + meta + "\n---"@ + rest),
    ensures
        opt_text(r.frontmatter) == Some(meta),
        r.body@ == trimmed(rest),
{
    let s = "---\n"@ + meta + "\n---"@ + rest;
    reveal_strlit("---\n");
    reveal_strlit("\n---");
    reveal_strlit("---");
    reveal_strlit("\r\n");
    assert forall|i: int| 0 <= i < s.len() implies (#[trigger] s[i]) != '\r' by {
        let n = meta.len() as int;
        if 4 <= i < 4 + n {
            assert((meta + rest)[i - 4] == s[i]);
            assert((meta + rest).contains(s[i]));
        } else if i >= n + 8 {
            assert((meta + rest)[i - 8] == s[i]);
            assert((meta + rest).contains(s[i]));
        }
    }
    lemma_without_returns(s);
    assert(s.subrange(0, 3) =~= "---"@);
    let end = 4 + meta.len() as int;
    assert(closing_marker(s) == Some(end));
    assert(block_text(s, end) =~= meta);
    assert(s.skip(end + 4) =~= rest);
}

proof fn lemma_without_returns(s: Seq<char>)
    requires
        forall|i: int| 0 <= i < s.len() ==> (#[trigger] s[i]) != '\r',
    ensures
        line_feeds(s) == s,
{
    reveal_strlit("\r\n");
    if contains_text(s, "\r\n"@) {
        let i = choose|i: int| occurs_at(s, "\r\n"@, i);
        assert(s.subrange(i, i + 2)[0] == s[i]);
    }
    law_nothing_to_replace_changes_nothing(s, "\r\n"@, "\n"@);
    assert(char_replaced(s, '\r', '\n') =~= s);
}

/// A prompt file without a block of its own is its own body.
pub proof fn law_plain_prompt_files_are_their_body(r: CommandText, content: Seq<char>)
    requires
        is_command_text(r, content),
        !starts_with_text(line_feeds(content), "---"@),
    ensures
        r.frontmatter is None,
        r.body@ == content,
{
}

} // verus!
