//! File paths as text: components are separated by `/`, and a path that begins with `/` is
//! absolute.

use crate::text::{char_pos, chars_of, find_char, opt_text, owned, text_of};
use vstd::prelude::*;

verus! {

/// Whether a path is absolute.
pub open spec fn absolute(path: Seq<char>) -> bool {
    path.len() > 0 && path[0] == '/'
}

pub fn is_absolute(path: &str) -> (r: bool)
    ensures
        r == absolute(path@),
{
    let v = chars_of(path);
    v.len() > 0 && v[0] == '/'
}

/// `rel` taken from the directory `base`; an absolute `rel` stands for itself.
pub open spec fn joined_path(base: Seq<char>, rel: Seq<char>) -> Seq<char> {
    if absolute(rel) {
        rel
    } else if base.len() > 0 && base.last() != '/' {
        base + "/"@ + rel
    } else {
        base + rel
    }
}

/// `Path::join`.
pub fn join_path(base: &str, rel: &str) -> (r: String)
    ensures
        r@ == joined_path(base@, rel@),
{
    if is_absolute(rel) {
        return owned(rel);
    }
    let v = chars_of(base);
    let mut r = owned(base);
    if v.len() > 0 && v[v.len() - 1] != '/' {
        r.push_str("/");
    }
    r.push_str(rel);
    r
}

/// The components of a path from a position on, without empty ones and without `.`.
pub open spec fn components_from(path: Seq<char>, from: int) -> Seq<Seq<char>>
    decreases path.len() + 1 - from,
{
    if from < 0 || from >= path.len() {
        Seq::empty()
    } else {
        let end = char_pos(path, '/', from);
        if end < from || end > path.len() {
            Seq::empty()
        } else {
            let part = path.subrange(from, end);
            let rest = components_from(path, end + 1);
            if part.len() == 0 || part == seq!['.'] {
                rest
            } else {
                seq![part] + rest
            }
        }
    }
}

/// The last component of a path, where it names a file: nothing for `..` and for a path
/// without components.
pub open spec fn file_name(path: Seq<char>) -> Option<Seq<char>> {
    let parts = components_from(path, 0);
    if parts.len() == 0 || parts.last() == seq!['.', '.'] {
        None
    } else {
        Some(parts.last())
    }
}

/// `Path::file_name`.
pub fn path_file_name(path: &str) -> (r: Option<String>)
    ensures
        opt_text(r) == file_name(path@),
{
    let v = chars_of(path);
    let mut last: Option<String> = None;
    let mut from: usize = 0;
    let ghost mut seen: Seq<Seq<char>> = Seq::empty();
    assert(seen + components_from(v@, 0) =~= components_from(v@, 0));
    while from < v.len()
        invariant
            from <= v@.len(),
            v@ == path@,
            components_from(v@, 0) == seen + components_from(v@, from as int),
            opt_text(last) == (if seen.len() == 0 {
                None
            } else {
                Some(seen.last())
            }),
        decreases v@.len() + 1 - from,
    {
        let end = find_char(&v, '/', from);
        let part = text_of(&v, from, end);
        let is_dot = end - from == 1 && v[from] == '.';
        proof {
            if is_dot {
                assert(part@ =~= seq!['.']);
            } else if part@ == seq!['.'] {
                assert(part@[0] == v@[from as int]);
            }
        }
        let ghost rest = components_from(v@, end + 1);
        if end == from || is_dot {
            assert(components_from(v@, from as int) == rest);
        } else {
            assert(part@ == v@.subrange(from as int, end as int));
            assert(part@.len() == end - from);
            assert(seq!['.'].len() == 1 && seq!['.'][0] == '.');
            assert(part@ != seq!['.']);
            assert(components_from(v@, from as int) == seq![part@] + rest);
            assert(seen + (seq![part@] + rest) =~= seen.push(part@) + rest);
            proof {
                seen = seen.push(part@);
            }
            last = Some(part);
        }
        if end == v.len() {
            assert(rest =~= Seq::empty());
            assert(seen + rest =~= seen);
            assert(components_from(v@, 0) == seen);
            return not_parent(last);
        }
        from = end + 1;
    }
    assert(seen + components_from(v@, from as int) =~= seen);
    not_parent(last)
}

/// A component other than `..`.
fn not_parent(part: Option<String>) -> (r: Option<String>)
    ensures
        opt_text(r) == (match opt_text(part) {
            Some(p) => if p == seq!['.', '.'] {
                None
            } else {
                Some(p)
            },
            None => None,
        }),
{
    match part {
        Some(p) => {
            let w = chars_of(p.as_str());
            if w.len() == 2 && w[0] == '.' && w[1] == '.' {
                assert(w@ =~= seq!['.', '.']);
                None
            } else {
                Some(p)
            }
        },
        None => None,
    }
}

/// The position of the last dot of a text, or -1.
pub open spec fn last_dot(s: Seq<char>) -> int
    decreases s.len(),
{
    if s.len() == 0 {
        -1
    } else if s.last() == '.' {
        s.len() - 1
    } else {
        last_dot(s.drop_last())
    }
}

/// What precedes the last dot of a file name; the whole name where that dot is missing or
/// begins the name.
pub open spec fn name_stem(name: Seq<char>) -> Seq<char> {
    if last_dot(name) <= 0 {
        name
    } else {
        name.take(last_dot(name))
    }
}

/// What follows the last dot of a file name, unless that dot is missing or begins the name.
pub open spec fn name_extension(name: Seq<char>) -> Option<Seq<char>> {
    if last_dot(name) <= 0 {
        None
    } else {
        Some(name.skip(last_dot(name) + 1))
    }
}

/// The stem of a path's file name.
pub open spec fn file_stem(path: Seq<char>) -> Option<Seq<char>> {
    match file_name(path) {
        Some(n) => Some(name_stem(n)),
        None => None,
    }
}

/// The extension of a path's file name.
pub open spec fn extension(path: Seq<char>) -> Option<Seq<char>> {
    match file_name(path) {
        Some(n) => name_extension(n),
        None => None,
    }
}

fn find_last_dot(v: &Vec<char>) -> (r: Option<usize>)
    ensures
        r matches Some(i) ==> last_dot(v@) == i && i < v@.len(),
        r is None ==> last_dot(v@) == -1,
{
    let mut i: usize = v.len();
    assert(v@.take(i as int) =~= v@);
    while i > 0
        invariant
            i <= v@.len(),
            last_dot(v@) == last_dot(v@.take(i as int)),
        decreases i,
    {
        assert(v@.take(i as int).drop_last() =~= v@.take(i - 1));
        if v[i - 1] == '.' {
            return Some(i - 1);
        }
        i -= 1;
    }
    None
}

/// `Path::file_stem`.
pub fn path_file_stem(path: &str) -> (r: Option<String>)
    ensures
        opt_text(r) == file_stem(path@),
{
    match path_file_name(path) {
        Some(name) => {
            let v = chars_of(name.as_str());
            match find_last_dot(&v) {
                Some(i) => if i > 0 {
                    assert(v@.subrange(0, i as int) =~= v@.take(i as int));
                    Some(text_of(&v, 0, i))
                } else {
                    Some(name)
                },
                None => Some(name),
            }
        },
        None => None,
    }
}

/// `Path::extension`.
pub fn path_extension(path: &str) -> (r: Option<String>)
    ensures
        opt_text(r) == extension(path@),
{
    match path_file_name(path) {
        Some(name) => {
            let v = chars_of(name.as_str());
            match find_last_dot(&v) {
                Some(i) => if i > 0 {
                    assert(v@.subrange(i + 1, v@.len() as int) =~= v@.skip(i + 1));
                    let end: usize = v.len();
                    Some(text_of(&v, i + 1, end))
                } else {
                    None
                },
                None => None,
            }
        },
        None => None,
    }
}

// Laws.

/// A relative path is joined behind its base with one separator, and an absolute one stands for
/// itself.
pub proof fn law_paths_are_joined(base: Seq<char>, rel: Seq<char>)
    ensures
        rel.len() > 0 && rel[0] == '/' ==> joined_path(base, rel) == rel,
        !(rel.len() > 0 && rel[0] == '/') && base.len() > 0 && base.last() != '/' ==> joined_path(
            base,
            rel,
        ) == base + seq!['/'] + rel,
        !(rel.len() > 0 && rel[0] == '/') && (base.len() == 0 || base.last() == '/')
            ==> joined_path(base, rel) == base + rel,
{
    reveal_strlit("/");
    assert("/"@ =~= seq!['/']);
}

proof fn lemma_pos_from(s: Seq<char>, c: char, from: int, at: int)
    requires
        0 <= from <= at <= s.len(),
        at < s.len() ==> s[at] == c,
        forall|j: int| from <= j < at ==> (#[trigger] s[j]) != c,
    ensures
        char_pos(s, c, from) == at,
    decreases at - from,
{
    if from < at {
        assert(s[from] != c);
        lemma_pos_from(s, c, from + 1, at);
    }
}

proof fn lemma_pos_same(dir: Seq<char>, more: Seq<char>, from: int)
    requires
        0 <= from <= dir.len(),
        more.len() > 0,
        more[0] == '/',
    ensures
        from <= char_pos(dir, '/', from) <= dir.len(),
        char_pos(dir + more, '/', from) == char_pos(dir, '/', from),
    decreases dir.len() - from,
{
    if from < dir.len() {
        assert((dir + more)[from] == dir[from]);
        if dir[from] != '/' {
            lemma_pos_same(dir, more, from + 1);
        }
    } else {
        assert((dir + more)[from] == more[0]);
    }
}

proof fn lemma_components_behind(dir: Seq<char>, name: Seq<char>, from: int)
    requires
        0 <= from <= dir.len() + 1,
        name.len() > 0,
        name != seq!['.'],
        !name.contains('/'),
    ensures
        ({
            let parts = components_from(dir + seq!['/'] + name, from);
            parts.len() > 0 && parts.last() == name
        }),
    decreases dir.len() + 1 - from,
{
    let path = dir + seq!['/'] + name;
    let n = dir.len() as int;
    assert(path =~= dir + (seq!['/'] + name));
    if from <= n {
        lemma_pos_same(dir, seq!['/'] + name, from);
        let end = char_pos(path, '/', from);
        lemma_components_behind(dir, name, end + 1);
    } else {
        assert forall|j: int| from <= j < path.len() implies (#[trigger] path[j]) != '/' by {
            assert(path[j] == name[j - n - 1]);
            assert(name.contains(name[j - n - 1]));
        }
        lemma_pos_from(path, '/', from, path.len() as int);
        assert(path.subrange(from, path.len() as int) =~= name);
        let rest = components_from(path, path.len() as int + 1);
        assert(rest.len() == 0);
        assert((seq![name] + rest).last() == name);
    }
}

/// The name of a file is what stands behind the last separator of its path.
pub proof fn law_file_names_stand_behind_the_last_separator(dir: Seq<char>, name: Seq<char>)
    requires
        name.len() > 0,
        name != seq!['.'],
        name != seq!['.', '.'],
        !name.contains('/'),
    ensures
        file_name(dir + seq!['/'] + name) == Some(name),
        file_stem(dir + seq!['/'] + name) == Some(name_stem(name)),
        extension(dir + seq!['/'] + name) == name_extension(name),
{
    lemma_components_behind(dir, name, 0);
}

proof fn lemma_last_dot(stem: Seq<char>, ext: Seq<char>)
    requires
        !ext.contains('.'),
    ensures
        last_dot(stem + seq!['.'] + ext) == stem.len(),
    decreases ext.len(),
{
    let s = stem + seq!['.'] + ext;
    if ext.len() > 0 {
        assert(ext.contains(ext[ext.len() - 1]));
        assert(s.last() == ext.last());
        assert(s.drop_last() =~= stem + seq!['.'] + ext.drop_last());
        if ext.drop_last().contains('.') {
            let i = choose|i: int| 0 <= i < ext.drop_last().len() && ext.drop_last()[i] == '.';
            assert(ext[i] == '.');
        }
        lemma_last_dot(stem, ext.drop_last());
    }
}

/// The extension of a name stands behind its last dot, and the stem before it; a name whose only
/// dot is its first character has none.
pub proof fn law_extensions_stand_behind_the_last_dot(stem: Seq<char>, ext: Seq<char>)
    requires
        !ext.contains('.'),
    ensures
        stem.len() > 0 ==> name_stem(stem + seq!['.'] + ext) == stem && name_extension(
            stem + seq!['.'] + ext,
        ) == Some(ext),
        stem.len() == 0 ==> name_stem(stem + seq!['.'] + ext) == stem + seq!['.'] + ext
            && name_extension(stem + seq!['.'] + ext) is None,
{
    lemma_last_dot(stem, ext);
    let s = stem + seq!['.'] + ext;
    assert(s.take(stem.len() as int) =~= stem);
    assert(s.skip(stem.len() as int + 1) =~= ext);
}

/// A name without a separator is the name of its file.
pub proof fn law_plain_names_are_file_names(name: Seq<char>)
    requires
        name.len() > 0,
        name != seq!['.'],
        name != seq!['.', '.'],
        !name.contains('/'),
    ensures
        file_name(name) == Some(name),
        file_stem(name) == Some(name_stem(name)),
        extension(name) == name_extension(name),
{
    assert forall|j: int| 0 <= j < name.len() implies (#[trigger] name[j]) != '/' by {
        assert(name.contains(name[j]));
    }
    lemma_pos_from(name, '/', 0, name.len() as int);
    assert(name.subrange(0, name.len() as int) =~= name);
    let rest = components_from(name, name.len() as int + 1);
    assert(rest.len() == 0);
    assert(components_from(name, 0) =~= seq![name]);
}

} // verus!
