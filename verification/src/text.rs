//! Operations on text, stated over sequences of characters.
//!
//! Every function here works on Unicode scalar values: a text is the sequence of its
//! characters, and positions count characters.

use vstd::prelude::*;

verus! {

/// `String::push_str` appends a string slice at the end.
pub assume_specification[ String::push_str ](s: &mut String, t: &str)
    ensures
        final(s)@ == old(s)@ + t@,
;

/// `String::push` appends one character at the end.
pub assume_specification[ String::push ](s: &mut String, c: char)
    ensures
        final(s)@ == old(s)@.push(c),
;

/// `str::eq` holds exactly when both texts have the same characters.
pub assume_specification[ <str as PartialEq>::eq ](a: &str, b: &str) -> (r: bool)
    ensures
        r == (a@ == b@),
;

/// What `str::to_lowercase` gives for a text: the Unicode lowercase mapping.
pub uninterp spec fn lowercase_text(s: Seq<char>) -> Seq<char>;

/// `str::to_lowercase`. Nothing but the name of its result is claimed.
#[verifier::external_body]
pub(crate) fn to_lowercase(s: &str) -> (r: String)
    ensures
        r@ == lowercase_text(s@),
{
    s.to_lowercase()
}

/// What the `Debug` form of a text is: the text in double quotes, with escapes.
pub uninterp spec fn debug_text(s: Seq<char>) -> Seq<char>;

/// `<str as Debug>::fmt`, through `format!`. Nothing but the name of its result is claimed.
#[verifier::external_body]
pub(crate) fn quoted(s: &str) -> (r: String)
    ensures
        r@ == debug_text(s@),
{
    format!("{s:?}")
}

/// The texts of a sequence of strings.
pub open spec fn texts(v: Seq<String>) -> Seq<Seq<char>> {
    Seq::new(v.len(), |i: int| v[i]@)
}

pub broadcast proof fn lemma_texts_push(v: Seq<String>, s: String)
    ensures
        #[trigger] texts(v.push(s)) == texts(v).push(s@),
{
    assert(texts(v.push(s)) =~= texts(v).push(s@));
}

pub broadcast proof fn lemma_texts_empty()
    ensures
        #[trigger] texts(Seq::<String>::empty()) == Seq::<Seq<char>>::empty(),
{
    assert(texts(Seq::<String>::empty()) =~= Seq::<Seq<char>>::empty());
}

/// The characters of a text, as a vector.
pub fn chars_of(s: &str) -> (r: Vec<char>)
    ensures
        r@ == s@,
{
    let mut r: Vec<char> = Vec::new();
    for c in it: s.chars()
        invariant
            r@ == it.seq().take(it.index()),
            it.seq() == s@,
    {
        r.push(c);
    }
    r
}

/// The text made of the characters `from..to` of `v`.
pub fn text_of(v: &Vec<char>, from: usize, to: usize) -> (r: String)
    requires
        from <= to <= v@.len(),
    ensures
        r@ == v@.subrange(from as int, to as int),
{
    let mut r = String::new();
    let mut i: usize = from;
    while i < to
        invariant
            from <= i <= to <= v@.len(),
            r@ == v@.subrange(from as int, i as int),
        decreases to - i,
    {
        r.push(v[i]);
        i += 1;
        assert(v@.subrange(from as int, i as int) =~= v@.subrange(from as int, i - 1).push(v@[i - 1]));
    }
    r
}

/// The string with the same characters as a string slice.
pub fn owned(s: &str) -> (r: String)
    ensures
        r@ == s@,
{
    s.to_string()
}

/// A copy of a list of strings.
pub fn copy_texts(v: &Vec<String>) -> (r: Vec<String>)
    ensures
        r@ == v@,
{
    let mut r: Vec<String> = Vec::new();
    let mut i: usize = 0;
    while i < v.len()
        invariant
            i <= v@.len(),
            r@ == v@.take(i as int),
        decreases v@.len() - i,
    {
        r.push(v[i].clone());
        i += 1;
        assert(v@.take(i as int) =~= v@.take(i - 1).push(v@[i - 1]));
    }
    assert(v@.take(i as int) =~= v@);
    r
}

// White space.

/// Whether a character has the Unicode `White_Space` property.
pub open spec fn is_white(c: char) -> bool {
    let n = c as int;
    ||| 0x9 <= n <= 0xd
    ||| n == 0x20
    ||| n == 0x85
    ||| n == 0xa0
    ||| n == 0x1680
    ||| 0x2000 <= n <= 0x200a
    ||| n == 0x2028
    ||| n == 0x2029
    ||| n == 0x202f
    ||| n == 0x205f
    ||| n == 0x3000
}

pub fn white(c: char) -> (r: bool)
    ensures
        r == is_white(c),
{
    let n: u32 = c as u32;
    (0x9 <= n && n <= 0xd) || n == 0x20 || n == 0x85 || n == 0xa0 || n == 0x1680 || (0x2000 <= n
        && n <= 0x200a) || n == 0x2028 || n == 0x2029 || n == 0x202f || n == 0x205f || n == 0x3000
}

/// A text without its leading white space.
pub open spec fn trimmed_start(s: Seq<char>) -> Seq<char>
    decreases s.len(),
{
    if s.len() > 0 && is_white(s[0]) {
        trimmed_start(s.skip(1))
    } else {
        s
    }
}

/// A text without its trailing white space.
pub open spec fn trimmed_end(s: Seq<char>) -> Seq<char>
    decreases s.len(),
{
    if s.len() > 0 && is_white(s.last()) {
        trimmed_end(s.drop_last())
    } else {
        s
    }
}

/// A text without the white space around it.
pub open spec fn trimmed(s: Seq<char>) -> Seq<char> {
    trimmed_end(trimmed_start(s))
}

/// The number of leading white characters from a position on.
fn white_end(v: &Vec<char>, from: usize) -> (r: usize)
    requires
        from <= v@.len(),
    ensures
        from <= r <= v@.len(),
        trimmed_start(v@.skip(from as int)) == v@.skip(r as int),
        r < v@.len() ==> !is_white(v@[r as int]),
        r == v@.len() ==> trimmed_start(v@.skip(from as int)).len() == 0,
{
    let mut i: usize = from;
    while i < v.len() && white(v[i])
        invariant
            from <= i <= v@.len(),
            trimmed_start(v@.skip(from as int)) == trimmed_start(v@.skip(i as int)),
        decreases v@.len() - i,
    {
        assert(v@.skip(i as int).skip(1) =~= v@.skip(i + 1));
        i += 1;
    }
    i
}

/// `str::trim`.
pub fn trim(s: &str) -> (r: String)
    ensures
        r@ == trimmed(s@),
{
    let v = chars_of(s);
    assert(v@.skip(0) =~= v@);
    let from = white_end(&v, 0);
    let mut to: usize = v.len();
    assert(v@.subrange(from as int, to as int) =~= v@.skip(from as int));
    while to > from && white(v[to - 1])
        invariant
            from <= to <= v@.len(),
            trimmed_end(v@.skip(from as int)) == trimmed_end(v@.subrange(from as int, to as int)),
        decreases to,
    {
        assert(v@.subrange(from as int, to as int).drop_last() =~= v@.subrange(
            from as int,
            to - 1,
        ));
        to -= 1;
    }
    text_of(&v, from, to)
}

/// `str::trim_end`.
pub fn trim_end(s: &str) -> (r: String)
    ensures
        r@ == trimmed_end(s@),
{
    let v = chars_of(s);
    let mut to: usize = v.len();
    assert(v@.take(to as int) =~= v@);
    while to > 0 && white(v[to - 1])
        invariant
            to <= v@.len(),
            trimmed_end(v@) == trimmed_end(v@.take(to as int)),
        decreases to,
    {
        assert(v@.take(to as int).drop_last() =~= v@.take(to - 1));
        to -= 1;
    }
    text_of(&v, 0, to)
}

/// Whether a text holds nothing but white space.
pub fn is_blank(s: &str) -> (r: bool)
    ensures
        r == (trimmed(s@).len() == 0),
{
    trim(s).as_str().is_empty()
}

/// The number of characters before the first white one.
pub open spec fn word_len(s: Seq<char>) -> nat
    decreases s.len(),
{
    if s.len() == 0 || is_white(s[0]) {
        0
    } else {
        1 + word_len(s.skip(1))
    }
}

pub proof fn lemma_word_len(s: Seq<char>)
    ensures
        word_len(s) <= s.len(),
    decreases s.len(),
{
    if s.len() > 0 && !is_white(s[0]) {
        lemma_word_len(s.skip(1));
    }
}

pub proof fn lemma_trimmed_start_len(s: Seq<char>)
    ensures
        trimmed_start(s).len() <= s.len(),
        trimmed_start(s).len() > 0 ==> !is_white(trimmed_start(s)[0]),
    decreases s.len(),
{
    if s.len() > 0 && is_white(s[0]) {
        lemma_trimmed_start_len(s.skip(1));
    }
}

/// The white-space separated words of a text, in order.
pub open spec fn words(s: Seq<char>) -> Seq<Seq<char>>
    decreases s.len(),
{
    let t = trimmed_start(s);
    if t.len() == 0 {
        Seq::empty()
    } else {
        proof {
            lemma_trimmed_start_len(s);
            lemma_word_len(t);
            assert(t.skip(1).len() == t.len() - 1);
        }
        seq![t.take(word_len(t) as int)] + words(t.skip(word_len(t) as int))
    }
}

/// `str::split_whitespace`, collected.
pub fn split_words(s: &str) -> (r: Vec<String>)
    ensures
        texts(r@) == words(s@),
{
    let v = chars_of(s);
    let mut r: Vec<String> = Vec::new();
    let mut i: usize = 0;
    assert(v@.skip(0) =~= v@);
    assert(texts(r@) + words(v@) =~= words(v@));
    loop
        invariant
            i <= v@.len(),
            words(v@) == texts(r@) + words(v@.skip(i as int)),
        ensures
            words(v@) == texts(r@),
        decreases v@.len() - i,
    {
        let from = white_end(&v, i);
        if from == v.len() {
            assert(texts(r@) + Seq::<Seq<char>>::empty() =~= texts(r@));
            break;
        }
        let ghost t = v@.skip(from as int);
        let mut to: usize = from;
        assert(v@.skip(to as int) =~= t);
        while to < v.len() && !white(v[to])
            invariant
                from <= to <= v@.len(),
                t == v@.skip(from as int),
                word_len(t) == (to - from) + word_len(v@.skip(to as int)),
            decreases v@.len() - to,
        {
            assert(v@.skip(to as int).skip(1) =~= v@.skip(to + 1));
            to += 1;
        }
        let w = text_of(&v, from, to);
        let ghost before = texts(r@);
        r.push(w);
        proof {
            assert(t.take(to - from) =~= v@.subrange(from as int, to as int));
            assert(t.skip(to - from) =~= v@.skip(to as int));
            lemma_texts_push(r@.drop_last(), w);
            assert(r@.drop_last().push(w) =~= r@);
            assert(before + (seq![w@] + words(v@.skip(to as int))) =~= before.push(w@) + words(
                v@.skip(to as int),
            ));
            assert(!is_white(v@[from as int]));
            assert(t[0] == v@[from as int]);
            assert(word_len(t) > 0);
        }
        i = to;
    }
    r
}

// Searching.

/// Whether `pat` stands in `s` at position `i`.
pub open spec fn occurs_at(s: Seq<char>, pat: Seq<char>, i: int) -> bool {
    0 <= i && i + pat.len() <= s.len() && s.subrange(i, i + pat.len()) == pat
}

/// Whether `pat` stands somewhere in `s`.
pub open spec fn contains_text(s: Seq<char>, pat: Seq<char>) -> bool {
    exists|i: int| occurs_at(s, pat, i)
}

/// The first position at or after `from` at which `pat` stands in `s`.
pub open spec fn find_from(s: Seq<char>, pat: Seq<char>, from: int) -> Option<int>
    decreases s.len() + 1 - from,
{
    if from + pat.len() > s.len() {
        None
    } else if occurs_at(s, pat, from) {
        Some(from)
    } else {
        find_from(s, pat, from + 1)
    }
}

/// `find_from` gives the leftmost occurrence, and gives one whenever there is one.
pub proof fn lemma_find_from(s: Seq<char>, pat: Seq<char>, from: int)
    requires
        0 <= from,
    ensures
        find_from(s, pat, from) matches Some(i) ==> from <= i && occurs_at(s, pat, i) && (forall|j: int|
            from <= j < i ==> !occurs_at(s, pat, j)),
        find_from(s, pat, from) is None ==> forall|j: int| from <= j ==> !occurs_at(s, pat, j),
    decreases s.len() + 1 - from,
{
    if from + pat.len() > s.len() {
    } else if occurs_at(s, pat, from) {
    } else {
        lemma_find_from(s, pat, from + 1);
    }
}

/// Whether `pat` stands in a text at a position.
pub fn matches_at(v: &Vec<char>, pat: &Vec<char>, i: usize) -> (r: bool)
    requires
        i <= v@.len(),
    ensures
        r == occurs_at(v@, pat@, i as int),
{
    if pat.len() > v.len() - i {
        return false;
    }
    let mut k: usize = 0;
    while k < pat.len()
        invariant
            k <= pat@.len(),
            i + pat@.len() <= v.len(),
            forall|j: int| 0 <= j < k ==> v@[i + j] == pat@[j],
        decreases pat@.len() - k,
    {
        if v[i + k] != pat[k] {
            assert(v@.subrange(i as int, i + pat@.len())[k as int] != pat@[k as int]);
            return false;
        }
        k += 1;
    }
    assert(v@.subrange(i as int, i + pat@.len()) =~= pat@);
    true
}

/// The first position at or after `from` at which `pat` stands.
pub fn find_chars(v: &Vec<char>, pat: &Vec<char>, from: usize) -> (r: Option<usize>)
    requires
        from <= v@.len(),
    ensures
        r matches Some(i) ==> find_from(v@, pat@, from as int) == Some(i as int) && occurs_at(
            v@,
            pat@,
            i as int,
        ) && from <= i,
        r is None ==> find_from(v@, pat@, from as int) is None,
{
    let mut i: usize = from;
    while pat.len() <= v.len() - i
        invariant
            from <= i <= v@.len(),
            find_from(v@, pat@, from as int) == find_from(v@, pat@, i as int),
        decreases v@.len() - i,
    {
        if matches_at(v, pat, i) {
            return Some(i);
        }
        if i == v.len() {
            assert(v@.subrange(i as int, i as int) =~= pat@);
            return None;
        }
        i += 1;
    }
    None
}

/// `str::contains` with a text.
pub fn contains(s: &str, pat: &str) -> (r: bool)
    ensures
        r == contains_text(s@, pat@),
{
    let v = chars_of(s);
    let p = chars_of(pat);
    let found = find_chars(&v, &p, 0);
    proof {
        lemma_find_from(v@, p@, 0);
    }
    found.is_some()
}

/// Whether `s` begins with `pat`.
pub open spec fn starts_with_text(s: Seq<char>, pat: Seq<char>) -> bool {
    occurs_at(s, pat, 0)
}

/// Whether `s` ends with `pat`.
pub open spec fn ends_with_text(s: Seq<char>, pat: Seq<char>) -> bool {
    occurs_at(s, pat, s.len() - pat.len())
}

/// `str::starts_with` with a text.
pub fn starts_with(s: &str, pat: &str) -> (r: bool)
    ensures
        r == starts_with_text(s@, pat@),
{
    let v = chars_of(s);
    let p = chars_of(pat);
    matches_at(&v, &p, 0)
}

/// `str::ends_with` with a text.
pub fn ends_with(s: &str, pat: &str) -> (r: bool)
    ensures
        r == ends_with_text(s@, pat@),
{
    let v = chars_of(s);
    let p = chars_of(pat);
    if p.len() > v.len() {
        false
    } else {
        matches_at(&v, &p, v.len() - p.len())
    }
}

/// What follows a prefix, where the text begins with it.
pub open spec fn after_prefix(s: Seq<char>, pat: Seq<char>) -> Option<Seq<char>> {
    if starts_with_text(s, pat) {
        Some(s.skip(pat.len() as int))
    } else {
        None
    }
}

/// The view of an optional string.
pub open spec fn opt_text(o: Option<String>) -> Option<Seq<char>> {
    match o {
        Some(s) => Some(s@),
        None => None,
    }
}

/// `str::strip_prefix` with a text.
pub fn strip_prefix(s: &str, pat: &str) -> (r: Option<String>)
    ensures
        opt_text(r) == after_prefix(s@, pat@),
{
    let v = chars_of(s);
    let p = chars_of(pat);
    if matches_at(&v, &p, 0) {
        assert(v@.subrange(p@.len() as int, v@.len() as int) =~= v@.skip(p@.len() as int));
        Some(text_of(&v, p.len(), v.len()))
    } else {
        None
    }
}

/// The parts before and after the first `sep`.
pub open spec fn split_once_text(s: Seq<char>, sep: Seq<char>) -> Option<(Seq<char>, Seq<char>)> {
    match find_from(s, sep, 0) {
        Some(i) => Some((s.take(i), s.skip(i + sep.len()))),
        None => None,
    }
}

/// `str::split_once` with a text.
pub fn split_once(s: &str, sep: &str) -> (r: Option<(String, String)>)
    ensures
        r matches Some(p) ==> split_once_text(s@, sep@) == Some((p.0@, p.1@)),
        r is None ==> split_once_text(s@, sep@) is None,
{
    let v = chars_of(s);
    let p = chars_of(sep);
    match find_chars(&v, &p, 0) {
        Some(i) => {
            assert(v@.subrange(0, i as int) =~= v@.take(i as int));
            assert(v@.subrange(i + p@.len(), v@.len() as int) =~= v@.skip(i + p@.len()));
            let end: usize = v.len();
            Some((text_of(&v, 0, i), text_of(&v, i + p.len(), end)))
        },
        None => None,
    }
}

/// `s` from position `from` on, with every occurrence of `pat`, read from left to right,
/// replaced by `with`.
pub open spec fn replaced_from(s: Seq<char>, pat: Seq<char>, with: Seq<char>, from: int) -> Seq<char>
    decreases s.len() - from,
{
    if from < 0 || from >= s.len() {
        Seq::empty()
    } else if pat.len() > 0 && occurs_at(s, pat, from) {
        with + replaced_from(s, pat, with, from + pat.len())
    } else {
        seq![s[from]] + replaced_from(s, pat, with, from + 1)
    }
}

/// `s` with every occurrence of the non-empty `pat` replaced by `with`.
pub open spec fn replaced(s: Seq<char>, pat: Seq<char>, with: Seq<char>) -> Seq<char> {
    replaced_from(s, pat, with, 0)
}

/// `str::replace` with a non-empty pattern.
pub fn replace(s: &str, pat: &str, with: &str) -> (r: String)
    requires
        pat@.len() > 0,
    ensures
        r@ == replaced(s@, pat@, with@),
{
    let v = chars_of(s);
    let p = chars_of(pat);
    let mut out = String::new();
    let mut i: usize = 0;
    assert(out@ + replaced(s@, pat@, with@) =~= replaced(s@, pat@, with@));
    while i < v.len()
        invariant
            i <= v@.len(),
            v@ == s@,
            p@ == pat@,
            p@.len() > 0,
            replaced(s@, pat@, with@) == out@ + replaced_from(s@, pat@, with@, i as int),
        decreases v@.len() - i,
    {
        let ghost before = out@;
        if matches_at(&v, &p, i) {
            out.push_str(with);
            proof {
                let rest = replaced_from(s@, pat@, with@, i + pat@.len());
                assert(before + (with@ + rest) =~= (before + with@) + rest);
            }
            i += p.len();
        } else {
            out.push(v[i]);
            proof {
                let rest = replaced_from(s@, pat@, with@, i + 1);
                assert(before + (seq![v@[i as int]] + rest) =~= before.push(v@[i as int]) + rest);
            }
            i += 1;
        }
    }
    assert(out@ + Seq::<char>::empty() =~= out@);
    out
}

/// A text with one character put in place of another.
pub open spec fn char_replaced(s: Seq<char>, from: char, to: char) -> Seq<char> {
    Seq::new(
        s.len(),
        |i: int|
            if s[i] == from {
                to
            } else {
                s[i]
            },
    )
}

/// `str::replace` of one character by another.
pub fn replace_char(s: &str, from: char, to: char) -> (r: String)
    ensures
        r@ == char_replaced(s@, from, to),
{
    let mut r = String::new();
    for c in it: s.chars()
        invariant
            it.seq() == s@,
            r@ == char_replaced(s@.take(it.index()), from, to),
    {
        r.push(if c == from { to } else { c });
        proof {
            assert(char_replaced(s@.take(it.index() + 1), from, to) =~= char_replaced(
                s@.take(it.index()),
                from,
                to,
            ).push(
                if c == from {
                    to
                } else {
                    c
                },
            ));
        }
    }
    assert(s@.take(s@.len() as int) =~= s@);
    r
}

/// The first position of a character at or after `from`, or the length of the text.
pub open spec fn char_pos(s: Seq<char>, c: char, from: int) -> int
    decreases s.len() - from,
{
    if from < 0 || from >= s.len() || s[from] == c {
        from
    } else {
        char_pos(s, c, from + 1)
    }
}

pub proof fn lemma_char_pos(s: Seq<char>, c: char, from: int)
    requires
        0 <= from <= s.len(),
    ensures
        from <= char_pos(s, c, from) <= s.len(),
        char_pos(s, c, from) < s.len() ==> s[char_pos(s, c, from)] == c,
        forall|j: int| from <= j < char_pos(s, c, from) ==> s[j] != c,
    decreases s.len() - from,
{
    if from < s.len() && s[from] != c {
        lemma_char_pos(s, c, from + 1);
    }
}

pub fn find_char(v: &Vec<char>, c: char, from: usize) -> (r: usize)
    requires
        from <= v@.len(),
    ensures
        from <= r <= v@.len(),
        r == char_pos(v@, c, from as int),
{
    let mut i: usize = from;
    while i < v.len() && v[i] != c
        invariant
            from <= i <= v@.len(),
            char_pos(v@, c, from as int) == char_pos(v@, c, i as int),
        decreases v@.len() - i,
    {
        i += 1;
    }
    i
}

/// A line without the carriage return that ends it.
pub open spec fn without_cr(s: Seq<char>) -> Seq<char> {
    if s.len() > 0 && s.last() == '\r' {
        s.drop_last()
    } else {
        s
    }
}

/// The lines of a text from a position on: what stands between line feeds, where a
/// carriage return before a line feed belongs to the line ending, and nothing after a
/// last line feed is no line.
pub open spec fn lines_from(s: Seq<char>, from: int) -> Seq<Seq<char>>
    decreases s.len() - from,
{
    if from < 0 || from >= s.len() {
        Seq::empty()
    } else {
        let end = char_pos(s, '\n', from);
        if end < from || end >= s.len() {
            seq![s.skip(from)]
        } else {
            seq![without_cr(s.subrange(from, end))] + lines_from(s, end + 1)
        }
    }
}

/// The lines of a text.
pub open spec fn lines(s: Seq<char>) -> Seq<Seq<char>> {
    lines_from(s, 0)
}

/// `str::lines`, collected.
pub fn split_lines(s: &str) -> (r: Vec<String>)
    ensures
        texts(r@) == lines(s@),
{
    let v = chars_of(s);
    let mut r: Vec<String> = Vec::new();
    let mut from: usize = 0;
    assert(texts(r@) + lines(v@) =~= lines(v@));
    while from < v.len()
        invariant
            from <= v@.len(),
            lines(v@) == texts(r@) + lines_from(v@, from as int),
        decreases v@.len() - from,
    {
        let end = find_char(&v, '\n', from);
        let ghost before = r@;
        if end == v.len() {
            let line = text_of(&v, from, end);
            r.push(line);
            proof {
                lemma_texts_push(before, line);
                assert(v@.subrange(from as int, end as int) =~= v@.skip(from as int));
                assert(texts(before) + seq![line@] =~= texts(r@));
            }
            assert(texts(r@) + lines_from(v@, end as int) =~= texts(r@));
            from = end;
        } else {
            let to = if end > from && v[end - 1] == '\r' {
                end - 1
            } else {
                end
            };
            let line = text_of(&v, from, to);
            r.push(line);
            proof {
                lemma_texts_push(before, line);
                assert(v@.subrange(from as int, to as int) =~= without_cr(
                    v@.subrange(from as int, end as int),
                ));
                let rest = lines_from(v@, end + 1);
                assert(texts(before) + (seq![line@] + rest) =~= texts(r@) + rest);
            }
            from = end + 1;
        }
    }
    assert(texts(r@) + Seq::<Seq<char>>::empty() =~= texts(r@));
    r
}

// Joining and cutting.

/// Texts with a separator between each two.
pub open spec fn joined(parts: Seq<Seq<char>>, sep: Seq<char>) -> Seq<char>
    decreases parts.len(),
{
    if parts.len() == 0 {
        Seq::empty()
    } else if parts.len() == 1 {
        parts[0]
    } else {
        joined(parts.drop_last(), sep) + sep + parts.last()
    }
}

/// `[String]::join`.
pub fn join(parts: &Vec<String>, sep: &str) -> (r: String)
    ensures
        r@ == joined(texts(parts@), sep@),
{
    let mut r = String::new();
    let mut i: usize = 0;
    while i < parts.len()
        invariant
            i <= parts@.len(),
            r@ == joined(texts(parts@).take(i as int), sep@),
        decreases parts@.len() - i,
    {
        let ghost t = texts(parts@);
        assert(t.take(i + 1).drop_last() =~= t.take(i as int));
        if i == 0 {
            r.push_str(parts[0].as_str());
            assert(r@ =~= parts@[0]@);
        } else {
            r.push_str(sep);
            r.push_str(parts[i].as_str());
        }
        i += 1;
    }
    assert(texts(parts@).take(i as int) =~= texts(parts@));
    r
}

/// At most the first `n` characters of a text.
pub open spec fn cut(s: Seq<char>, n: int) -> Seq<char> {
    if s.len() <= n {
        s
    } else {
        s.take(n)
    }
}

/// `s.chars().take(n)`, collected.
pub fn take_chars(s: &str, n: usize) -> (r: String)
    ensures
        r@ == cut(s@, n as int),
{
    let v = chars_of(s);
    if v.len() <= n {
        assert(v@.subrange(0, v@.len() as int) =~= v@);
        text_of(&v, 0, v.len())
    } else {
        assert(v@.subrange(0, n as int) =~= v@.take(n as int));
        text_of(&v, 0, n)
    }
}

/// `s.chars().count()`.
pub fn char_count(s: &str) -> (r: usize)
    ensures
        r == s@.len(),
{
    chars_of(s).len()
}

// ASCII letter case.

pub open spec fn ascii_lower(c: char) -> char {
    if 'A' <= c <= 'Z' {
        ((c as u8) + 32) as char
    } else {
        c
    }
}

pub open spec fn ascii_lowered(s: Seq<char>) -> Seq<char> {
    s.map_values(|c: char| ascii_lower(c))
}

/// `str::to_ascii_lowercase`.
pub fn to_ascii_lowercase(s: &str) -> (r: String)
    ensures
        r@ == ascii_lowered(s@),
{
    let mut r = String::new();
    for c in it: s.chars()
        invariant
            it.seq() == s@,
            r@ == ascii_lowered(s@.take(it.index())),
    {
        let d = if 'A' <= c && c <= 'Z' {
            ((c as u8) + 32) as char
        } else {
            c
        };
        r.push(d);
        proof {
            assert(ascii_lowered(s@.take(it.index() + 1)) =~= ascii_lowered(
                s@.take(it.index()),
            ).push(ascii_lower(c)));
        }
    }
    assert(s@.take(s@.len() as int) =~= s@);
    r
}

// Numbers.

/// The character of a decimal digit.
pub open spec fn digit_char(d: int) -> char {
    (('0' as u8) + d) as char
}

/// The decimal form of a number.
pub open spec fn digits(n: nat) -> Seq<char>
    decreases n,
{
    if n < 10 {
        seq![digit_char(n as int)]
    } else {
        digits(n / 10).push(digit_char((n % 10) as int))
    }
}

/// The decimal form of a number.
pub fn decimal(n: u64) -> (r: String)
    ensures
        r@ == digits(n as nat),
    decreases n,
{
    let d: u8 = 48 + (n % 10) as u8;
    if n < 10 {
        let mut r = String::new();
        r.push(d as char);
        assert(r@ =~= seq![digit_char(n as int)]);
        r
    } else {
        let mut r = decimal(n / 10);
        r.push(d as char);
        r
    }
}

/// The decimal form of a size.
pub fn decimal_size(n: usize) -> (r: String)
    ensures
        r@ == digits(n as nat),
{
    decimal(n as u64)
}

/// The decimal form of a signed number.
pub open spec fn signed_digits(n: int) -> Seq<char> {
    if n < 0 {
        seq!['-'] + digits((-n) as nat)
    } else {
        digits(n as nat)
    }
}

/// The decimal form of a signed number.
pub fn decimal_signed(n: i64) -> (r: String)
    ensures
        r@ == signed_digits(n as int),
{
    if n < 0 {
        let mut r = String::new();
        r.push('-');
        let m: u64 = (-(n as i128)) as u64;
        r.push_str(decimal(m).as_str());
        assert(seq!['-'] =~= Seq::<char>::empty().push('-'));
        r
    } else {
        decimal(n as u64)
    }
}

pub open spec fn is_digit(c: char) -> bool {
    '0' <= c <= '9'
}

/// The value of a text of decimal digits.
pub open spec fn digits_value(s: Seq<char>) -> nat
    decreases s.len(),
{
    if s.len() == 0 {
        0
    } else {
        digits_value(s.drop_last()) * 10 + (s.last() as nat - '0' as nat) as nat
    }
}

/// The decimal form of a number consists of digits and has the number as its value.
pub proof fn law_decimal_round_trip(n: nat)
    ensures
        digits(n).len() > 0,
        forall|i: int| 0 <= i < digits(n).len() ==> is_digit(#[trigger] digits(n)[i]),
        digits_value(digits(n)) == n,
    decreases n,
{
    reveal_with_fuel(digits_value, 2);
    if n < 10 {
        assert(digits(n).drop_last() =~= Seq::<char>::empty());
    } else {
        law_decimal_round_trip(n / 10);
        assert(digits(n).drop_last() =~= digits(n / 10));
        assert forall|i: int| 0 <= i < digits(n).len() implies is_digit(
            #[trigger] digits(n)[i],
        ) by {
            if i < digits(n / 10).len() {
                assert(digits(n)[i] == digits(n / 10)[i]);
            }
        }
    }
}

/// A text without one leading plus sign.
pub open spec fn without_plus(s: Seq<char>) -> Seq<char> {
    if s.len() > 0 && s[0] == '+' {
        s.skip(1)
    } else {
        s
    }
}

/// The number that a text denotes: an optional plus sign and at least one decimal digit,
/// with a value of at most `max`.
pub open spec fn parsed_number(s: Seq<char>, max: nat) -> Option<nat> {
    let d = without_plus(s);
    if d.len() > 0 && (forall|i: int| 0 <= i < d.len() ==> is_digit(d[i])) && digits_value(d)
        <= max {
        Some(digits_value(d))
    } else {
        None
    }
}

proof fn lemma_digits_value_prefix(s: Seq<char>, k: int)
    requires
        0 <= k <= s.len(),
    ensures
        digits_value(s.take(k)) <= digits_value(s),
    decreases s.len() - k,
{
    if k == s.len() {
        assert(s.take(k) =~= s);
    } else {
        assert(s.take(k + 1).drop_last() =~= s.take(k));
        lemma_digits_value_prefix(s, k + 1);
    }
}

/// `str::parse::<u64>`, without the error.
pub fn parse_u64(s: &str) -> (r: Option<u64>)
    ensures
        r matches Some(n) ==> parsed_number(s@, u64::MAX as nat) == Some(n as nat),
        r is None ==> parsed_number(s@, u64::MAX as nat) is None,
{
    let v = chars_of(s);
    let start: usize = if v.len() > 0 && v[0] == '+' {
        1
    } else {
        0
    };
    let ghost d = without_plus(s@);
    assert(d =~= v@.skip(start as int));
    if start == v.len() {
        return None;
    }
    let mut n: u64 = 0;
    let mut i: usize = start;
    while i < v.len()
        invariant
            start <= i <= v@.len(),
            d == v@.skip(start as int),
            d == without_plus(s@),
            n == digits_value(d.take(i - start)),
            forall|j: int| 0 <= j < i - start ==> is_digit(d[j]),
        decreases v@.len() - i,
    {
        let c = v[i];
        proof {
            assert(d[i - start] == c);
            assert(d.take(i + 1 - start).drop_last() =~= d.take(i - start));
            lemma_digits_value_prefix(d, i + 1 - start);
        }
        if !('0' <= c && c <= '9') {
            return None;
        }
        let k: u64 = (c as u64) - 48;
        match n.checked_mul(10) {
            Some(m) => match m.checked_add(k) {
                Some(t) => {
                    n = t;
                },
                None => {
                    return None;
                },
            },
            None => {
                return None;
            },
        }
        i += 1;
    }
    assert(d.take(i - start) =~= d);
    Some(n)
}

/// `str::parse::<usize>`, without the error.
pub fn parse_size(s: &str) -> (r: Option<usize>)
    ensures
        r matches Some(n) ==> parsed_number(s@, usize::MAX as nat) == Some(n as nat),
        r is None ==> parsed_number(s@, usize::MAX as nat) is None,
{
    match parse_u64(s) {
        Some(n) => if n <= usize::MAX as u64 {
            Some(n as usize)
        } else {
            None
        },
        None => None,
    }
}

/// A text without the occurrences of a character at its beginning.
pub open spec fn without_leading(s: Seq<char>, c: char) -> Seq<char>
    decreases s.len(),
{
    if s.len() > 0 && s[0] == c {
        without_leading(s.skip(1), c)
    } else {
        s
    }
}

/// `str::trim_start_matches` with a character.
pub fn strip_leading(s: &str, c: char) -> (r: String)
    ensures
        r@ == without_leading(s@, c),
{
    let v = chars_of(s);
    let end: usize = v.len();
    let mut i: usize = 0;
    assert(v@.skip(0) =~= v@);
    while i < end && v[i] == c
        invariant
            i <= end,
            end == v@.len(),
            without_leading(v@, c) == without_leading(v@.skip(i as int), c),
        decreases end - i,
    {
        assert(v@.skip(i as int).skip(1) =~= v@.skip(i + 1));
        i += 1;
    }
    assert(v@.subrange(i as int, end as int) =~= v@.skip(i as int));
    text_of(&v, i, end)
}

/// A text without the occurrences of a character at its end.
pub open spec fn without_trailing(s: Seq<char>, c: char) -> Seq<char>
    decreases s.len(),
{
    if s.len() > 0 && s.last() == c {
        without_trailing(s.drop_last(), c)
    } else {
        s
    }
}

/// `str::trim_end_matches` with a character.
pub fn strip_trailing(s: &str, c: char) -> (r: String)
    ensures
        r@ == without_trailing(s@, c),
{
    let v = chars_of(s);
    let mut n: usize = v.len();
    assert(v@.take(n as int) =~= v@);
    while n > 0 && v[n - 1] == c
        invariant
            n <= v@.len(),
            without_trailing(v@, c) == without_trailing(v@.take(n as int), c),
        decreases n,
    {
        assert(v@.take(n as int).drop_last() =~= v@.take(n - 1));
        n -= 1;
    }
    assert(v@.subrange(0, n as int) =~= v@.take(n as int));
    text_of(&v, 0, n)
}

// Laws.

proof fn lemma_trim_front(white: Seq<char>, s: Seq<char>)
    requires
        forall|i: int| 0 <= i < white.len() ==> is_white(#[trigger] white[i]),
    ensures
        trimmed_start(white + s) == trimmed_start(s),
    decreases white.len(),
{
    if white.len() == 0 {
        assert(white + s =~= s);
    } else {
        assert(is_white(white[0]));
        assert((white + s)[0] == white[0]);
        assert((white + s).skip(1) =~= white.skip(1) + s);
        assert forall|i: int| 0 <= i < white.skip(1).len() implies is_white(
            #[trigger] white.skip(1)[i],
        ) by {
            assert(white.skip(1)[i] == white[i + 1]);
        }
        lemma_trim_front(white.skip(1), s);
    }
}

proof fn lemma_trim_back(s: Seq<char>, white: Seq<char>)
    requires
        forall|i: int| 0 <= i < white.len() ==> is_white(#[trigger] white[i]),
    ensures
        trimmed_end(s + white) == trimmed_end(s),
    decreases white.len(),
{
    if white.len() == 0 {
        assert(s + white =~= s);
    } else {
        assert(is_white(white[white.len() - 1]));
        assert((s + white).last() == white.last());
        assert((s + white).drop_last() =~= s + white.drop_last());
        assert forall|i: int| 0 <= i < white.drop_last().len() implies is_white(
            #[trigger] white.drop_last()[i],
        ) by {
            assert(white.drop_last()[i] == white[i]);
        }
        lemma_trim_back(s, white.drop_last());
    }
}

/// Trimming takes the white space around a text away, and nothing of the text itself.
pub proof fn law_trimming_takes_the_white_space_away(
    before: Seq<char>,
    s: Seq<char>,
    after: Seq<char>,
)
    requires
        forall|i: int| 0 <= i < before.len() ==> is_white(#[trigger] before[i]),
        forall|i: int| 0 <= i < after.len() ==> is_white(#[trigger] after[i]),
        s.len() > 0 ==> !is_white(s[0]) && !is_white(s.last()),
    ensures
        trimmed(before + s + after) == s,
        trimmed_end(s + after) == s,
{
    assert(before + s + after =~= before + (s + after));
    lemma_trim_front(before, s + after);
    lemma_trim_back(s, after);
    if s.len() > 0 {
        assert((s + after)[0] == s[0]);
        assert(trimmed_start(s + after) == s + after);
    } else {
        assert(s + after =~= after);
        assert(after + s =~= after);
        lemma_trim_front(after, s);
        assert(trimmed_start(s) == s);
    }
}

proof fn lemma_word_len_of(w: Seq<char>, rest: Seq<char>)
    requires
        forall|i: int| 0 <= i < w.len() ==> !is_white(#[trigger] w[i]),
        rest.len() == 0 || is_white(rest[0]),
    ensures
        word_len(w + rest) == w.len(),
    decreases w.len(),
{
    if w.len() == 0 {
        assert(w + rest =~= rest);
    } else {
        assert(!is_white(w[0]));
        assert((w + rest)[0] == w[0]);
        assert((w + rest).skip(1) =~= w.skip(1) + rest);
        assert forall|i: int| 0 <= i < w.skip(1).len() implies !is_white(
            #[trigger] w.skip(1)[i],
        ) by {
            assert(w.skip(1)[i] == w[i + 1]);
        }
        lemma_word_len_of(w.skip(1), rest);
    }
}

/// The words of a text are what stands between its white space, in order: white space in front
/// counts for nothing, and the first word ends where the next white space begins.
pub proof fn law_words_stand_between_white_space(
    before: Seq<char>,
    w: Seq<char>,
    rest: Seq<char>,
)
    requires
        forall|i: int| 0 <= i < before.len() ==> is_white(#[trigger] before[i]),
        w.len() > 0,
        forall|i: int| 0 <= i < w.len() ==> !is_white(#[trigger] w[i]),
        rest.len() == 0 || is_white(rest[0]),
    ensures
        words(before).len() == 0,
        words(before + w + rest) == seq![w] + words(rest),
{
    let s = before + w + rest;
    assert(s =~= before + (w + rest));
    lemma_trim_front(before, w + rest);
    assert(!is_white(w[0]));
    assert((w + rest)[0] == w[0]);
    assert(trimmed_start(s) == w + rest);
    lemma_word_len_of(w, rest);
    assert((w + rest).take(w.len() as int) =~= w);
    assert((w + rest).skip(w.len() as int) =~= rest);
    lemma_trim_front(before, Seq::empty());
    assert(before + Seq::<char>::empty() =~= before);
}

/// The first place of a text in another is one before which there is none.
pub proof fn law_first_place_is_found(s: Seq<char>, pat: Seq<char>, from: int, i: int)
    requires
        0 <= from,
    ensures
        find_from(s, pat, from) == Some(i) <==> {
            &&& from <= i
            &&& i + pat.len() <= s.len()
            &&& s.subrange(i, i + pat.len()) == pat
            &&& forall|j: int| from <= j < i ==> !#[trigger] occurs_at(s, pat, j)
        },
{
    lemma_find_from(s, pat, from);
    if from <= i && i + pat.len() <= s.len() && s.subrange(i, i + pat.len()) == pat {
        assert(occurs_at(s, pat, i));
    }
    if let Some(k) = find_from(s, pat, from) {
        assert(occurs_at(s, pat, k));
    }
}

/// A text is cut at the first separator: what stands before it holds no separator that begins
/// there, and both parts with the separator between them are the text.
pub proof fn law_texts_are_cut_at_the_first_separator(
    head: Seq<char>,
    sep: Seq<char>,
    tail: Seq<char>,
)
    requires
        forall|j: int|
            0 <= j < head.len() ==> !#[trigger] occurs_at(head + sep + tail, sep, j),
    ensures
        split_once_text(head + sep + tail, sep) == Some((head, tail)),
{
    let s = head + sep + tail;
    let i = head.len() as int;
    assert(s.subrange(i, i + sep.len()) =~= sep);
    law_first_place_is_found(s, sep, 0, i);
    assert(s.take(i) =~= head);
    assert(s.skip(i + sep.len()) =~= tail);
}

/// A text without the separator is not cut.
pub proof fn law_texts_without_the_separator_are_whole(s: Seq<char>, sep: Seq<char>)
    ensures
        split_once_text(s, sep) is None <==> !contains_text(s, sep),
{
    lemma_find_from(s, sep, 0);
    if contains_text(s, sep) {
        let i = choose|i: int| occurs_at(s, sep, i);
        assert(occurs_at(s, sep, i));
    }
    if let Some(i) = find_from(s, sep, 0) {
        assert(occurs_at(s, sep, i));
    }
}

/// What follows a prefix is the rest behind it; a text that begins otherwise has none.
pub proof fn law_prefixes_are_taken_off(pat: Seq<char>, rest: Seq<char>, s: Seq<char>)
    ensures
        after_prefix(pat + rest, pat) == Some(rest),
        after_prefix(s, pat) is Some <==> pat.is_prefix_of(s),
        ends_with_text(rest + pat, pat),
{
    assert((pat + rest).subrange(0, pat.len() as int) =~= pat);
    assert((pat + rest).skip(pat.len() as int) =~= rest);
    let all = rest + pat;
    assert(all.subrange(rest.len() as int, all.len() as int) =~= pat);
    if pat.is_prefix_of(s) {
        assert(s.subrange(0, pat.len() as int) =~= pat);
    }
}

proof fn lemma_replaced_from(s: Seq<char>, pat: Seq<char>, with: Seq<char>, from: int, to: int)
    requires
        0 <= from <= to <= s.len(),
        forall|j: int| from <= j < to ==> !#[trigger] occurs_at(s, pat, j),
    ensures
        replaced_from(s, pat, with, from) == s.subrange(from, to) + replaced_from(s, pat, with, to),
    decreases to - from,
{
    if from == to {
        assert(s.subrange(from, to) + replaced_from(s, pat, with, to) =~= replaced_from(
            s,
            pat,
            with,
            to,
        ));
    } else {
        assert(!occurs_at(s, pat, from));
        lemma_replaced_from(s, pat, with, from + 1, to);
        assert(seq![s[from]] + (s.subrange(from + 1, to) + replaced_from(s, pat, with, to))
            =~= s.subrange(from, to) + replaced_from(s, pat, with, to));
    }
}

proof fn lemma_replaced_shift(a: Seq<char>, b: Seq<char>, pat: Seq<char>, with: Seq<char>, from: int)
    requires
        0 <= from,
    ensures
        replaced_from(a + b, pat, with, a.len() + from) == replaced_from(b, pat, with, from),
    decreases b.len() - from,
{
    if from < b.len() {
        let at = a.len() + from;
        if from + pat.len() <= b.len() {
            assert((a + b).subrange(at, at + pat.len()) =~= b.subrange(from, from + pat.len()));
        }
        assert(occurs_at(a + b, pat, at) == occurs_at(b, pat, from));
        assert((a + b)[at] == b[from]);
        if pat.len() > 0 && occurs_at(b, pat, from) {
            lemma_replaced_shift(a, b, pat, with, from + pat.len());
        } else {
            lemma_replaced_shift(a, b, pat, with, from + 1);
        }
    }
}

/// A text is replaced where it occurs, from the front: what stands before the first place stays,
/// the new text takes the place, and what stands behind is treated alike. A text without such a
/// place stays as it is.
pub proof fn law_occurrences_are_replaced(
    head: Seq<char>,
    pat: Seq<char>,
    tail: Seq<char>,
    with: Seq<char>,
)
    requires
        pat.len() > 0,
        forall|j: int|
            0 <= j < head.len() ==> !#[trigger] occurs_at(head + pat + tail, pat, j),
    ensures
        replaced(head + pat + tail, pat, with) == head + with + replaced(tail, pat, with),
{
    let s = head + pat + tail;
    let i = head.len() as int;
    lemma_replaced_from(s, pat, with, 0, i);
    assert(s.subrange(i, i + pat.len()) =~= pat);
    assert(s.subrange(0, i) =~= head);
    lemma_replaced_shift(head + pat, tail, pat, with, 0);
    assert((head + pat).len() == i + pat.len());
    assert(head + (with + replaced(tail, pat, with)) =~= head + with + replaced(tail, pat, with));
}

/// A text in which another does not occur stays as it is when that one is replaced.
pub proof fn law_nothing_to_replace_changes_nothing(
    s: Seq<char>,
    pat: Seq<char>,
    with: Seq<char>,
)
    requires
        !contains_text(s, pat),
    ensures
        replaced(s, pat, with) == s,
{
    assert forall|j: int| 0 <= j < s.len() implies !#[trigger] occurs_at(s, pat, j) by {}
    lemma_replaced_from(s, pat, with, 0, s.len() as int);
    assert(s.subrange(0, s.len() as int) + Seq::<char>::empty() =~= s);
}

proof fn lemma_lines_shift(a: Seq<char>, b: Seq<char>, from: int)
    requires
        0 <= from,
    ensures
        lines_from(a + b, a.len() + from) == lines_from(b, from),
    decreases b.len() - from,
{
    if from < b.len() {
        let at = a.len() + from;
        lemma_char_pos_shift(a, b, '\n', from);
        lemma_char_pos(b, '\n', from);
        let end = char_pos(b, '\n', from);
        if end < b.len() {
            assert((a + b).subrange(at, a.len() + end) =~= b.subrange(from, end));
            lemma_lines_shift(a, b, end + 1);
        } else {
            assert((a + b).skip(at) =~= b.skip(from));
        }
    }
}

proof fn lemma_char_pos_shift(a: Seq<char>, b: Seq<char>, c: char, from: int)
    requires
        0 <= from <= b.len(),
    ensures
        char_pos(a + b, c, a.len() + from) == a.len() + char_pos(b, c, from),
    decreases b.len() - from,
{
    if from < b.len() {
        assert((a + b)[a.len() + from] == b[from]);
        if b[from] != c {
            lemma_char_pos_shift(a, b, c, from + 1);
        }
    }
}

proof fn lemma_char_pos_is(s: Seq<char>, c: char, from: int, at: int)
    requires
        0 <= from <= at <= s.len(),
        at < s.len() ==> s[at] == c,
        forall|j: int| from <= j < at ==> (#[trigger] s[j]) != c,
    ensures
        char_pos(s, c, from) == at,
    decreases at - from,
{
    if from < at {
        assert(s[from] != c);
        lemma_char_pos_is(s, c, from + 1, at);
    }
}

/// A line ends at its line end, which is no part of it, nor is a carriage return in front of
/// that; what stands behind is more lines. What stands behind the last line end is a line too,
/// where there is anything.
pub proof fn law_lines_end_at_line_ends(line: Seq<char>, rest: Seq<char>)
    requires
        forall|j: int| 0 <= j < line.len() ==> (#[trigger] line[j]) != '\n',
    ensures
        lines(line + seq!['\n'] + rest) == seq![
            if line.len() > 0 && line.last() == '\r' {
                line.drop_last()
            } else {
                line
            },
        ] + lines(rest),
        line.len() > 0 ==> lines(line) == seq![line],
        line.len() == 0 ==> lines(line).len() == 0,
{
    let n = line.len() as int;
    let head = line + seq!['\n'];
    let s = head + rest;
    assert(s[n] == '\n');
    assert forall|j: int| 0 <= j < n implies (#[trigger] s[j]) != '\n' by {
        assert(s[j] == line[j]);
    }
    lemma_char_pos_is(s, '\n', 0, n);
    assert(s.subrange(0, n) =~= line);
    lemma_lines_shift(head, rest, 0);
    lemma_char_pos_is(line, '\n', 0, n);
    assert(line.skip(0) =~= line);
}

/// Parts are joined with the separator between each two of them, and nowhere else.
pub proof fn law_parts_are_joined(parts: Seq<Seq<char>>, sep: Seq<char>, last: Seq<char>)
    ensures
        joined(Seq::empty(), sep).len() == 0,
        joined(seq![last], sep) == last,
        parts.len() > 0 ==> joined(parts.push(last), sep) == joined(parts, sep) + sep + last,
{
    assert(parts.push(last).drop_last() =~= parts);
}

/// A text that is cut is the beginning of the text, as long as it may be.
pub proof fn law_cut_texts_are_beginnings(s: Seq<char>, n: int)
    requires
        0 <= n,
    ensures
        cut(s, n).is_prefix_of(s),
        cut(s, n).len() == if s.len() <= n {
            s.len() as int
        } else {
            n
        },
{
    assert(s.take(s.len() as int) =~= s);
}

/// Only the capital letters of the Latin alphabet are made small, each to its own.
pub proof fn law_capitals_are_made_small(s: Seq<char>, i: int)
    requires
        0 <= i < s.len(),
    ensures
        ascii_lowered(s).len() == s.len(),
        'A' <= s[i] <= 'Z' ==> ascii_lowered(s)[i] as int == s[i] as int + 32,
        !('A' <= s[i] <= 'Z') ==> ascii_lowered(s)[i] == s[i],
{
}

proof fn lemma_digits_lead(n: nat)
    ensures
        digits(n).len() > 0,
        n > 0 ==> digits(n)[0] != '0',
        n == 0 ==> digits(n) == seq!['0'],
    decreases n,
{
    if n >= 10 {
        lemma_digits_lead(n / 10);
        assert(digits(n)[0] == digits(n / 10)[0]);
    }
}

/// A number is written without zeros in front, and a negative one with a minus sign before it.
pub proof fn law_numbers_have_no_leading_zeros(n: nat)
    ensures
        n > 0 ==> digits(n)[0] != '0',
        digits(0) == seq!['0'],
        n > 0 ==> signed_digits(-(n as int)) == seq!['-'] + digits(n),
        signed_digits(n as int) == digits(n),
{
    lemma_digits_lead(n);
    lemma_digits_lead(0);
}

/// A number that was written is read back where it is in range, also with a plus sign, and a
/// text with anything but digits is no number.
pub proof fn law_written_numbers_are_read(n: nat, max: nat, s: Seq<char>, i: int)
    ensures
        n <= max ==> parsed_number(digits(n), max) == Some(n) && parsed_number(
            seq!['+'] + digits(n),
            max,
        ) == Some(n),
        n > max ==> parsed_number(digits(n), max) is None,
        0 < i < s.len() && !('0' <= s[i] <= '9') ==> parsed_number(s, max) is None,
        s.len() == 0 ==> parsed_number(s, max) is None,
        parsed_number(s, max) matches Some(v) ==> v <= max,
{
    law_decimal_round_trip(n);
    let d = digits(n);
    assert(is_digit(d[0]));
    assert((seq!['+'] + d).skip(1) =~= d);
    if 0 < i < s.len() && !('0' <= s[i] <= '9') {
        let w = without_plus(s);
        if s[0] == '+' {
            assert(w[i - 1] == s[i]);
        } else {
            assert(w[i] == s[i]);
        }
    }
}

proof fn lemma_leading(c: char, n: nat, s: Seq<char>)
    requires
        s.len() == 0 || s[0] != c,
    ensures
        without_leading(Seq::new(n, |i: int| c) + s, c) == s,
    decreases n,
{
    let run = Seq::new(n, |i: int| c);
    if n == 0 {
        assert(run + s =~= s);
    } else {
        let fewer = Seq::new((n - 1) as nat, |i: int| c);
        assert((run + s).skip(1) =~= fewer + s);
        lemma_leading(c, (n - 1) as nat, s);
    }
}

proof fn lemma_trailing(c: char, n: nat, s: Seq<char>)
    requires
        s.len() == 0 || s.last() != c,
    ensures
        without_trailing(s + Seq::new(n, |i: int| c), c) == s,
    decreases n,
{
    let run = Seq::new(n, |i: int| c);
    if n == 0 {
        assert(s + run =~= s);
    } else {
        let fewer = Seq::new((n - 1) as nat, |i: int| c);
        assert((s + run).drop_last() =~= s + fewer);
        lemma_trailing(c, (n - 1) as nat, s);
    }
}

/// A character is taken off the front or the end of a text as often as it stands there.
pub proof fn law_repeated_characters_are_taken_off(c: char, n: nat, s: Seq<char>)
    ensures
        s.len() == 0 || s[0] != c ==> without_leading(Seq::new(n, |i: int| c) + s, c) == s,
        s.len() == 0 || s.last() != c ==> without_trailing(s + Seq::new(n, |i: int| c), c) == s,
{
    if s.len() == 0 || s[0] != c {
        lemma_leading(c, n, s);
    }
    if s.len() == 0 || s.last() != c {
        lemma_trailing(c, n, s);
    }
}

/// A text stands in every text that is put together from it and others.
pub proof fn law_parts_stand_in_the_whole(a: Seq<char>, s: Seq<char>, b: Seq<char>)
    ensures
        contains_text(a + s + b, s),
{
    let whole = a + s + b;
    let at = a.len() as int;
    assert(whole.subrange(at, at + s.len()) =~= s);
    assert(occurs_at(whole, s, at));
}

/// What stands in a part of a text stands in the text.
pub proof fn law_texts_hold_what_their_parts_hold(
    whole: Seq<char>,
    part: Seq<char>,
    pat: Seq<char>,
)
    requires
        contains_text(whole, part),
        contains_text(part, pat),
    ensures
        contains_text(whole, pat),
{
    let at = choose|at: int| occurs_at(whole, part, at);
    let p = choose|p: int| occurs_at(part, pat, p);
    let sub = whole.subrange(at, at + part.len());
    assert(whole.subrange(at + p, at + p + pat.len()) =~= sub.subrange(p, p + pat.len()));
    assert(occurs_at(whole, pat, at + p));
}

/// Every part stands in what the parts make when they are joined.
pub proof fn law_joined_texts_hold_their_parts(parts: Seq<Seq<char>>, sep: Seq<char>, i: int)
    requires
        0 <= i < parts.len(),
    ensures
        contains_text(joined(parts, sep), parts[i]),
    decreases parts.len(),
{
    let none = Seq::<char>::empty();
    if parts.len() == 1 {
        law_parts_stand_in_the_whole(none, parts[0], none);
        assert(none + parts[0] + none =~= parts[0]);
    } else {
        let front = parts.drop_last();
        let head = joined(front, sep);
        let whole = joined(parts, sep);
        if i < front.len() {
            law_joined_texts_hold_their_parts(front, sep, i);
            law_parts_stand_in_the_whole(none, head, sep + parts.last());
            assert(none + head + (sep + parts.last()) =~= whole);
            law_texts_hold_what_their_parts_hold(whole, head, front[i]);
        } else {
            law_parts_stand_in_the_whole(head + sep, parts.last(), none);
            assert(head + sep + parts.last() + none =~= whole);
        }
    }
}

/// A text with one character in the place of another keeps every other character, and each
/// place.
pub proof fn law_characters_are_replaced_in_place(s: Seq<char>, from: char, to: char, i: int)
    requires
        0 <= i < s.len(),
    ensures
        char_replaced(s, from, to).len() == s.len(),
        s[i] == from ==> char_replaced(s, from, to)[i] == to,
        s[i] != from ==> char_replaced(s, from, to)[i] == s[i],
{
}

} // verus!
