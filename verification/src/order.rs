//! The order of texts, sorting, and lists without repetition.

use crate::text::texts;
use vstd::prelude::*;

verus! {

/// Whether `a` comes before `b` when the first `i` characters of both are left aside:
/// the first character in which they differ decides, and a text comes after its prefixes.
pub open spec fn lt_from(a: Seq<char>, b: Seq<char>, i: int) -> bool
    decreases a.len() - i,
{
    if i >= b.len() {
        false
    } else if i >= a.len() {
        true
    } else if a[i] != b[i] {
        (a[i] as int) < (b[i] as int)
    } else {
        lt_from(a, b, i + 1)
    }
}

/// Whether `a` comes before `b` in the order of texts.
pub open spec fn text_lt(a: Seq<char>, b: Seq<char>) -> bool {
    lt_from(a, b, 0)
}

/// Whether every text comes no later than those that follow it.
pub open spec fn is_sorted(s: Seq<Seq<char>>) -> bool {
    forall|i: int, j: int| 0 <= i < j < s.len() ==> !text_lt(#[trigger] s[j], #[trigger] s[i])
}

/// Whether every text comes before those that follow it.
pub open spec fn is_ascending(s: Seq<Seq<char>>) -> bool {
    forall|i: int, j: int| 0 <= i < j < s.len() ==> text_lt(#[trigger] s[i], #[trigger] s[j])
}

/// Whether no text occurs twice.
pub open spec fn is_distinct(s: Seq<Seq<char>>) -> bool {
    forall|i: int, j: int| 0 <= i < j < s.len() ==> #[trigger] s[i] != #[trigger] s[j]
}

proof fn lemma_lt_asym(a: Seq<char>, b: Seq<char>, i: int)
    requires
        lt_from(a, b, i),
        0 <= i,
    ensures
        !lt_from(b, a, i),
    decreases a.len() - i,
{
    if i < a.len() && i < b.len() && a[i] == b[i] {
        lemma_lt_asym(a, b, i + 1);
    }
}

proof fn lemma_le_trans(a: Seq<char>, b: Seq<char>, c: Seq<char>, i: int)
    requires
        0 <= i,
        !lt_from(b, a, i),
        !lt_from(c, b, i),
    ensures
        !lt_from(c, a, i),
    decreases a.len() - i,
{
    if i < a.len() && i < b.len() && i < c.len() && a[i] == b[i] && b[i] == c[i] {
        lemma_le_trans(a, b, c, i + 1);
    }
}

/// Whether `a` comes before `b`.
pub fn text_before(a: &str, b: &str) -> (r: bool)
    ensures
        r == text_lt(a@, b@),
{
    let x = crate::text::chars_of(a);
    let y = crate::text::chars_of(b);
    let mut i: usize = 0;
    while i < x.len() && i < y.len() && x[i] == y[i]
        invariant
            i <= x@.len(),
            i <= y@.len(),
            text_lt(x@, y@) == lt_from(x@, y@, i as int),
        decreases x@.len() - i,
    {
        i += 1;
    }
    if i >= y.len() {
        false
    } else if i >= x.len() {
        true
    } else {
        x[i] < y[i]
    }
}

/// A text put in its place in a sorted list, after those equal to it.
pub open spec fn insert_text(s: Seq<Seq<char>>, x: Seq<char>) -> Seq<Seq<char>>
    decreases s.len(),
{
    if s.len() > 0 && text_lt(x, s.last()) {
        insert_text(s.drop_last(), x).push(s.last())
    } else {
        s.push(x)
    }
}

/// The texts of a list in order.
pub open spec fn sorted_texts(s: Seq<Seq<char>>) -> Seq<Seq<char>>
    decreases s.len(),
{
    if s.len() == 0 {
        Seq::empty()
    } else {
        insert_text(sorted_texts(s.drop_last()), s.last())
    }
}

proof fn lemma_insert_text(s: Seq<Seq<char>>, x: Seq<char>)
    requires
        is_sorted(s),
    ensures
        is_sorted(insert_text(s, x)),
        insert_text(s, x).to_multiset() == s.to_multiset().insert(x),
        insert_text(s, x).len() == s.len() + 1,
    decreases s.len(),
{
    broadcast use vstd::seq_lib::group_to_multiset_ensures;

    if s.len() > 0 && text_lt(x, s.last()) {
        let front = s.drop_last();
        lemma_insert_text(front, x);
        let r = insert_text(front, x);
        let out = r.push(s.last());
        assert(front.push(s.last()) =~= s);
        assert(out.to_multiset() =~= s.to_multiset().insert(x));
        assert forall|i: int, j: int| 0 <= i < j < out.len() implies !text_lt(
            #[trigger] out[j],
            #[trigger] out[i],
        ) by {
            if j < r.len() {
                assert(out[j] == r[j] && out[i] == r[i]);
            } else {
                assert(r.contains(out[i])) by {
                    assert(r[i] == out[i]);
                }
                assert(r.to_multiset().contains(out[i]));
                if out[i] == x {
                    lemma_lt_asym(x, s.last(), 0);
                } else {
                    assert(front.to_multiset().contains(out[i]));
                    let k = choose|k: int| 0 <= k < front.len() && front[k] == out[i];
                    assert(s[k] == out[i]);
                    assert(s[s.len() - 1] == s.last());
                }
            }
        }
    } else {
        let out = s.push(x);
        assert forall|i: int, j: int| 0 <= i < j < out.len() implies !text_lt(
            #[trigger] out[j],
            #[trigger] out[i],
        ) by {
            if j < s.len() {
                assert(out[j] == s[j] && out[i] == s[i]);
            } else {
                assert(out[i] == s[i]);
                if i < s.len() - 1 {
                    assert(!text_lt(s[s.len() - 1], s[i]));
                    lemma_le_trans(s[i], s.last(), x, 0);
                }
            }
        }
    }
}

/// Sorting keeps every text, as often as it occurs, and puts them in order.
pub proof fn lemma_sorted_texts(s: Seq<Seq<char>>)
    ensures
        is_sorted(sorted_texts(s)),
        sorted_texts(s).to_multiset() == s.to_multiset(),
        sorted_texts(s).len() == s.len(),
    decreases s.len(),
{
    broadcast use vstd::seq_lib::group_to_multiset_ensures;

    if s.len() > 0 {
        lemma_sorted_texts(s.drop_last());
        lemma_insert_text(sorted_texts(s.drop_last()), s.last());
        assert(s.drop_last().push(s.last()) =~= s);
    } else {
        assert(s =~= Seq::empty());
    }
}

/// Sorting keeps what occurs.
pub proof fn lemma_sorted_contains(s: Seq<Seq<char>>, x: Seq<char>)
    ensures
        sorted_texts(s).contains(x) == s.contains(x),
{
    broadcast use vstd::seq_lib::group_to_multiset_ensures;

    lemma_sorted_texts(s);
    assert(sorted_texts(s).contains(x) <==> sorted_texts(s).to_multiset().contains(x));
    assert(s.contains(x) <==> s.to_multiset().contains(x));
}

/// `Vec<String>::sort`.
pub fn sort_texts(v: &Vec<String>) -> (r: Vec<String>)
    ensures
        texts(r@) == sorted_texts(texts(v@)),
{
    let mut r: Vec<String> = Vec::new();
    let mut i: usize = 0;
    assert(texts(r@) =~= sorted_texts(texts(v@).take(0)));
    while i < v.len()
        invariant
            i <= v@.len(),
            texts(r@) == sorted_texts(texts(v@).take(i as int)),
        decreases v@.len() - i,
    {
        let x = v[i].clone();
        let ghost t = texts(r@);
        let mut pos: usize = r.len();
        assert(t.take(pos as int) =~= t);
        assert(insert_text(t, x@) + t.skip(pos as int) =~= insert_text(t, x@));
        while pos > 0 && text_before(x.as_str(), r[pos - 1].as_str())
            invariant
                pos <= r@.len(),
                t == texts(r@),
                insert_text(t, x@) == insert_text(t.take(pos as int), x@) + t.skip(pos as int),
            decreases pos,
        {
            let ghost front = t.take(pos as int);
            proof {
                assert(front.drop_last() =~= t.take(pos - 1));
                assert(insert_text(front, x@) == insert_text(t.take(pos - 1), x@).push(
                    front.last(),
                ));
                assert(insert_text(t.take(pos - 1), x@).push(front.last()) + t.skip(pos as int)
                    =~= insert_text(t.take(pos - 1), x@) + t.skip(pos - 1));
            }
            pos -= 1;
        }
        let ghost old_r = r@;
        r.insert(pos, x);
        proof {
            let front = t.take(pos as int);
            assert(insert_text(front, x@) == front.push(x@)) by {
                if pos > 0 {
                    assert(front.last() == old_r[pos - 1]@);
                }
            }
            assert(texts(r@) =~= front.push(x@) + t.skip(pos as int));
            assert(texts(v@).take(i + 1).drop_last() =~= texts(v@).take(i as int));
            assert(texts(v@).take(i + 1).last() == x@);
        }
        i += 1;
    }
    assert(texts(v@).take(i as int) =~= texts(v@));
    r
}

/// A list with each run of equal texts kept once.
pub open spec fn deduped(s: Seq<Seq<char>>) -> Seq<Seq<char>>
    decreases s.len(),
{
    if s.len() == 0 {
        Seq::empty()
    } else {
        let front = deduped(s.drop_last());
        if front.len() > 0 && front.last() == s.last() {
            front
        } else {
            front.push(s.last())
        }
    }
}

/// Removing runs keeps what occurs, and on a sorted list leaves each text once.
pub proof fn lemma_deduped(s: Seq<Seq<char>>)
    ensures
        forall|x: Seq<char>| deduped(s).contains(x) == s.contains(x),
        s.len() > 0 ==> deduped(s).len() > 0 && deduped(s).last() == s.last(),
        is_sorted(s) ==> is_sorted(deduped(s)) && is_distinct(deduped(s)),
    decreases s.len(),
{
    if s.len() > 0 {
        let front = s.drop_last();
        let d = deduped(front);
        lemma_deduped(front);
        assert forall|x: Seq<char>| deduped(s).contains(x) == s.contains(x) by {
            assert(s.contains(x) <==> front.contains(x) || x == s.last()) by {
                if s.contains(x) {
                    let k = choose|k: int| 0 <= k < s.len() && s[k] == x;
                    if k < front.len() {
                        assert(front[k] == x);
                    }
                }
                if front.contains(x) {
                    let k = choose|k: int| 0 <= k < front.len() && front[k] == x;
                    assert(s[k] == x);
                }
                assert(s[s.len() - 1] == s.last());
            }
            if d.len() > 0 && d.last() == s.last() {
                assert(d[d.len() - 1] == s.last());
            } else {
                let out = d.push(s.last());
                assert(out[d.len() as int] == s.last());
                if d.contains(x) {
                    let k = choose|k: int| 0 <= k < d.len() && d[k] == x;
                    assert(out[k] == x);
                }
                if out.contains(x) && x != s.last() {
                    let k = choose|k: int| 0 <= k < out.len() && out[k] == x;
                    assert(d[k] == x);
                }
            }
        }
        if is_sorted(s) {
            assert(is_sorted(front)) by {
                assert forall|i: int, j: int| 0 <= i < j < front.len() implies !text_lt(
                    #[trigger] front[j],
                    #[trigger] front[i],
                ) by {
                    assert(front[i] == s[i] && front[j] == s[j]);
                }
            }
            if !(d.len() > 0 && d.last() == s.last()) {
                let out = d.push(s.last());
                assert forall|i: int| 0 <= i < d.len() implies !text_lt(s.last(), #[trigger] d[i])
                    && d[i] != s.last() by {
                    assert(deduped(front).contains(d[i]));
                    assert(front.contains(d[i]));
                    let k = choose|k: int| 0 <= k < front.len() && front[k] == d[i];
                    assert(s[k] == d[i] && s[s.len() - 1] == s.last());
                    if d[i] == s.last() && i < d.len() - 1 {
                        // A text between two equal ones in order equals both.
                        assert(!text_lt(d[d.len() - 1], d[i]));
                        assert(d.contains(d.last())) by {
                            assert(d[d.len() - 1] == d.last());
                        }
                        assert(deduped(front).contains(d.last()));
                        assert(front.contains(d.last()));
                        let m = choose|m: int| 0 <= m < front.len() && front[m] == d.last();
                        assert(s[m] == d.last());
                        assert(!text_lt(s.last(), d.last()));
                        lemma_neither(d.last(), s.last(), 0);
                    }
                }
                assert forall|i: int, j: int| 0 <= i < j < out.len() implies !text_lt(
                    #[trigger] out[j],
                    #[trigger] out[i],
                ) && out[i] != out[j] by {
                    assert(out[i] == d[i]);
                    if j < d.len() {
                        assert(out[j] == d[j]);
                    }
                }
            }
        }
    }
}

/// Two texts of which neither comes before the other are the same.
proof fn lemma_neither(a: Seq<char>, b: Seq<char>, i: int)
    requires
        0 <= i <= a.len(),
        i <= b.len(),
        !lt_from(a, b, i),
        !lt_from(b, a, i),
        forall|k: int| 0 <= k < i ==> a[k] == b[k],
    ensures
        a == b,
    decreases a.len() - i,
{
    if i < a.len() && i < b.len() {
        lemma_neither(a, b, i + 1);
    } else {
        assert(a =~= b);
    }
}

/// Texts that are in order and of which none occurs twice ascend.
pub proof fn lemma_ascending(s: Seq<Seq<char>>)
    requires
        is_sorted(s),
        is_distinct(s),
    ensures
        is_ascending(s),
{
    assert forall|i: int, j: int| 0 <= i < j < s.len() implies text_lt(
        #[trigger] s[i],
        #[trigger] s[j],
    ) by {
        if !text_lt(s[i], s[j]) {
            lemma_neither(s[i], s[j], 0);
        }
    }
}

/// `Vec<String>::dedup`.
pub fn dedup_texts(v: &Vec<String>) -> (r: Vec<String>)
    ensures
        texts(r@) == deduped(texts(v@)),
{
    let mut r: Vec<String> = Vec::new();
    let mut i: usize = 0;
    assert(texts(r@) =~= deduped(texts(v@).take(0)));
    while i < v.len()
        invariant
            i <= v@.len(),
            texts(r@) == deduped(texts(v@).take(i as int)),
        decreases v@.len() - i,
    {
        let ghost old_r = r@;
        assert(texts(v@).take(i + 1).drop_last() =~= texts(v@).take(i as int));
        if r.len() > 0 && r[r.len() - 1].as_str().eq(v[i].as_str()) {
        } else {
            r.push(v[i].clone());
            assert(texts(r@) =~= texts(old_r).push(v@[i as int]@));
        }
        i += 1;
    }
    assert(texts(v@).take(i as int) =~= texts(v@));
    r
}

/// Whether a list of strings holds a text.
pub fn has_text(v: &Vec<String>, x: &str) -> (r: bool)
    ensures
        r == texts(v@).contains(x@),
{
    let mut i: usize = 0;
    while i < v.len()
        invariant
            i <= v@.len(),
            forall|j: int| 0 <= j < i ==> texts(v@)[j] != x@,
        decreases v@.len() - i,
    {
        if v[i].as_str().eq(x) {
            assert(texts(v@)[i as int] == x@);
            return true;
        }
        i += 1;
    }
    false
}

/// A list with the first occurrence of each text.
pub open spec fn distinct(s: Seq<Seq<char>>) -> Seq<Seq<char>>
    decreases s.len(),
{
    if s.len() == 0 {
        Seq::empty()
    } else if s.drop_last().contains(s.last()) {
        distinct(s.drop_last())
    } else {
        distinct(s.drop_last()).push(s.last())
    }
}

/// Taking first occurrences keeps what occurs, and leaves each text once.
pub proof fn lemma_distinct(s: Seq<Seq<char>>)
    ensures
        forall|x: Seq<char>| distinct(s).contains(x) == s.contains(x),
        distinct(s).no_duplicates(),
    decreases s.len(),
{
    if s.len() > 0 {
        let front = s.drop_last();
        lemma_distinct(front);
        let d = distinct(s);
        assert forall|x: Seq<char>| d.contains(x) == s.contains(x) by {
            assert(distinct(front).contains(x) == front.contains(x));
            if front.contains(x) {
                let j = choose|j: int| 0 <= j < front.len() && front[j] == x;
                assert(s[j] == x);
                let k = choose|k: int| 0 <= k < distinct(front).len() && distinct(front)[k] == x;
                assert(d[k] == x);
            }
            if s.contains(x) && !front.contains(x) {
                let j = choose|j: int| 0 <= j < s.len() && s[j] == x;
                if j < front.len() {
                    assert(front[j] == x);
                }
                assert(d.last() == x);
                assert(d[d.len() - 1] == x);
            }
            if d.contains(x) {
                let k = choose|k: int| 0 <= k < d.len() && d[k] == x;
                if k < distinct(front).len() {
                    assert(distinct(front)[k] == x);
                } else {
                    assert(s[s.len() - 1] == x);
                }
            }
        }
        assert(!front.contains(s.last()) ==> !distinct(front).contains(s.last()));
    }
}

/// A list with the first occurrence of each text.
pub fn distinct_texts(v: &Vec<String>) -> (r: Vec<String>)
    ensures
        texts(r@) == distinct(texts(v@)),
{
    let mut r: Vec<String> = Vec::new();
    let ghost all = texts(v@);
    let mut i: usize = 0;
    assert(texts(r@) =~= distinct(all.take(0)));
    while i < v.len()
        invariant
            i <= v@.len(),
            all == texts(v@),
            texts(r@) == distinct(all.take(i as int)),
        decreases v@.len() - i,
    {
        let ghost old_r = r@;
        assert(all.take(i + 1).drop_last() =~= all.take(i as int));
        assert(all.take(i + 1).last() == v@[i as int]@);
        let known = has_text(&r, v[i].as_str());
        proof {
            lemma_distinct(all.take(i as int));
            assert(distinct(all.take(i as int)).contains(v@[i as int]@) == all.take(
                i as int,
            ).contains(v@[i as int]@));
        }
        if !known {
            r.push(v[i].clone());
            assert(texts(r@) =~= texts(old_r).push(v@[i as int]@));
        }
        i += 1;
    }
    assert(all.take(i as int) =~= all);
    r
}

// Orders of positions.

/// A position put in its place in a list of positions that is ordered by the keys, after
/// those with an equal key.
pub open spec fn insert_pos(order: Seq<int>, keys: Seq<Seq<char>>, x: int) -> Seq<int>
    decreases order.len(),
{
    if order.len() > 0 && text_lt(keys[x], keys[order.last()]) {
        insert_pos(order.drop_last(), keys, x).push(order.last())
    } else {
        order.push(x)
    }
}

/// The first `n` positions, ordered by the keys that stand there; equal keys keep their
/// order.
pub open spec fn sorted_positions(keys: Seq<Seq<char>>, n: int) -> Seq<int>
    decreases n,
{
    if n <= 0 {
        Seq::empty()
    } else {
        insert_pos(sorted_positions(keys, n - 1), keys, n - 1)
    }
}

/// The numbers of a list of sizes.
pub open spec fn positions(v: Seq<usize>) -> Seq<int> {
    Seq::new(v.len(), |i: int| v[i] as int)
}

/// The items of a list, in the order of their keys.
pub open spec fn in_key_order<T>(items: Seq<T>, keys: Seq<Seq<char>>) -> Seq<T> {
    let order = sorted_positions(keys, items.len() as int);
    Seq::new(items.len(), |i: int| items[order[i]])
}

/// The positions of a list of keys, ordered by the keys.
pub fn key_order(keys: &Vec<String>) -> (r: Vec<usize>)
    ensures
        positions(r@) == sorted_positions(texts(keys@), keys@.len() as int),
        r@.len() == keys@.len(),
        forall|i: int| 0 <= i < r@.len() ==> (#[trigger] r@[i]) < keys@.len(),
{
    let mut r: Vec<usize> = Vec::new();
    let mut n: usize = 0;
    let ghost k = texts(keys@);
    assert(positions(r@) =~= sorted_positions(k, 0));
    while n < keys.len()
        invariant
            n <= keys@.len(),
            k == texts(keys@),
            r@.len() == n,
            positions(r@) == sorted_positions(k, n as int),
            forall|i: int| 0 <= i < r@.len() ==> (#[trigger] r@[i]) < n,
        decreases keys@.len() - n,
    {
        let ghost t = positions(r@);
        let mut pos: usize = r.len();
        assert(t.take(pos as int) =~= t);
        assert(insert_pos(t, k, n as int) + t.skip(pos as int) =~= insert_pos(t, k, n as int));
        while pos > 0 && text_before(keys[n].as_str(), keys[r[pos - 1]].as_str())
            invariant
                pos <= r@.len(),
                n < keys@.len(),
                k == texts(keys@),
                t == positions(r@),
                forall|i: int| 0 <= i < r@.len() ==> (#[trigger] r@[i]) < n,
                insert_pos(t, k, n as int) == insert_pos(t.take(pos as int), k, n as int) + t.skip(
                    pos as int,
                ),
            decreases pos,
        {
            let ghost front = t.take(pos as int);
            proof {
                assert(front.drop_last() =~= t.take(pos - 1));
                assert(front.last() == r@[pos - 1] as int);
                assert(insert_pos(t.take(pos - 1), k, n as int).push(front.last()) + t.skip(
                    pos as int,
                ) =~= insert_pos(t.take(pos - 1), k, n as int) + t.skip(pos - 1));
            }
            pos -= 1;
        }
        let ghost old_r = r@;
        r.insert(pos, n);
        proof {
            let front = t.take(pos as int);
            assert(insert_pos(front, k, n as int) == front.push(n as int)) by {
                if pos > 0 {
                    assert(front.last() == old_r[pos - 1] as int);
                }
            }
            assert(positions(r@) =~= front.push(n as int) + t.skip(pos as int));
            assert forall|i: int| 0 <= i < r@.len() implies (#[trigger] r@[i]) < n + 1 by {
                if i < pos {
                    assert(r@[i] == old_r[i]);
                } else if i > pos {
                    assert(r@[i] == old_r[i - 1]);
                }
            }
        }
        n += 1;
    }
    r
}

proof fn lemma_insert_pos(order: Seq<int>, keys: Seq<Seq<char>>, x: int)
    requires
        forall|i: int, j: int|
            0 <= i < j < order.len() ==> !text_lt(
                keys[#[trigger] order[j]],
                keys[#[trigger] order[i]],
            ),
        forall|i: int, j: int|
            0 <= i < j < order.len() ==> #[trigger] order[i] != #[trigger] order[j],
        !order.contains(x),
    ensures
        ({
            let out = insert_pos(order, keys, x);
            &&& out.len() == order.len() + 1
            &&& forall|i: int, j: int|
                0 <= i < j < out.len() ==> !text_lt(
                    keys[#[trigger] out[j]],
                    keys[#[trigger] out[i]],
                )
            &&& forall|i: int, j: int|
                0 <= i < j < out.len() ==> #[trigger] out[i] != #[trigger] out[j]
            &&& forall|y: int| #[trigger] out.contains(y) <==> order.contains(y) || y == x
        }),
    decreases order.len(),
{
    let out = insert_pos(order, keys, x);
    if order.len() > 0 && text_lt(keys[x], keys[order.last()]) {
        let front = order.drop_last();
        assert(!front.contains(x)) by {
            if front.contains(x) {
                let k = choose|k: int| 0 <= k < front.len() && front[k] == x;
                assert(order[k] == x);
            }
        }
        assert forall|i: int, j: int| 0 <= i < j < front.len() implies !text_lt(
            keys[#[trigger] front[j]],
            keys[#[trigger] front[i]],
        ) && front[i] != front[j] by {
            assert(order[i] == front[i] && order[j] == front[j]);
        }
        lemma_insert_pos(front, keys, x);
        let r = insert_pos(front, keys, x);
        assert(out == r.push(order.last()));
        assert forall|y: int| #[trigger] out.contains(y) <==> order.contains(y) || y == x by {
            assert(r.contains(y) <==> front.contains(y) || y == x);
            if out.contains(y) {
                let k = choose|k: int| 0 <= k < out.len() && out[k] == y;
                if k < r.len() {
                    assert(r[k] == y);
                    if front.contains(y) {
                        let m = choose|m: int| 0 <= m < front.len() && front[m] == y;
                        assert(order[m] == y);
                    }
                } else {
                    assert(order[order.len() - 1] == y);
                }
            }
            if order.contains(y) || y == x {
                if y != x {
                    let m = choose|m: int| 0 <= m < order.len() && order[m] == y;
                    if m < front.len() {
                        assert(front[m] == y);
                    } else {
                        assert(out[r.len() as int] == y);
                    }
                }
                if r.contains(y) {
                    let k = choose|k: int| 0 <= k < r.len() && r[k] == y;
                    assert(out[k] == y);
                }
            }
        }
        assert forall|i: int, j: int| 0 <= i < j < out.len() implies !text_lt(
            keys[#[trigger] out[j]],
            keys[#[trigger] out[i]],
        ) && out[i] != out[j] by {
            assert(out[i] == r[i]);
            if j < r.len() {
                assert(out[j] == r[j]);
            } else {
                assert(r.contains(r[i]));
                if r[i] == x {
                    lemma_lt_asym(keys[x], keys[order.last()], 0);
                    assert(order[order.len() - 1] == order.last());
                } else {
                    assert(front.contains(r[i]));
                    let m = choose|m: int| 0 <= m < front.len() && front[m] == r[i];
                    assert(order[m] == r[i] && order[order.len() - 1] == order.last());
                }
            }
        }
    } else {
        assert forall|y: int| #[trigger] out.contains(y) <==> order.contains(y) || y == x by {
            assert(out[order.len() as int] == x);
            if order.contains(y) {
                let k = choose|k: int| 0 <= k < order.len() && order[k] == y;
                assert(out[k] == y);
            }
            if out.contains(y) && y != x {
                let k = choose|k: int| 0 <= k < out.len() && out[k] == y;
                assert(order[k] == y);
            }
        }
        assert forall|i: int, j: int| 0 <= i < j < out.len() implies !text_lt(
            keys[#[trigger] out[j]],
            keys[#[trigger] out[i]],
        ) && out[i] != out[j] by {
            assert(out[i] == order[i]);
            if j < order.len() {
                assert(out[j] == order[j]);
            } else {
                if i < order.len() - 1 {
                    assert(!text_lt(keys[order[order.len() - 1]], keys[order[i]]));
                    lemma_le_trans(keys[order[i]], keys[order.last()], keys[x], 0);
                }
                assert(order.contains(order[i]));
            }
        }
    }
}

/// The ordered positions are all positions, each once, and the keys stand there in order.
pub proof fn lemma_sorted_positions(keys: Seq<Seq<char>>, n: int)
    requires
        0 <= n,
    ensures
        ({
            let out = sorted_positions(keys, n);
            &&& out.len() == n
            &&& forall|i: int, j: int|
                0 <= i < j < out.len() ==> !text_lt(
                    keys[#[trigger] out[j]],
                    keys[#[trigger] out[i]],
                )
            &&& forall|i: int, j: int|
                0 <= i < j < out.len() ==> #[trigger] out[i] != #[trigger] out[j]
            &&& forall|y: int| #[trigger] out.contains(y) <==> 0 <= y < n
        }),
    decreases n,
{
    if n > 0 {
        lemma_sorted_positions(keys, n - 1);
        let before = sorted_positions(keys, n - 1);
        assert(!before.contains(n - 1));
        lemma_insert_pos(before, keys, n - 1);
        let out = sorted_positions(keys, n);
        assert forall|y: int| #[trigger] out.contains(y) <==> 0 <= y < n by {
            assert(before.contains(y) <==> 0 <= y < n - 1);
        }
    } else {
        let out = sorted_positions(keys, n);
        assert(out =~= Seq::empty());
    }
}

proof fn lemma_lt_at(a: Seq<char>, b: Seq<char>, from: int, k: int)
    requires
        0 <= from <= k <= a.len(),
        k <= b.len(),
        forall|i: int| from <= i < k ==> (#[trigger] a[i]) == b[i],
    ensures
        lt_from(a, b, from) == lt_from(a, b, k),
    decreases k - from,
{
    if from < k {
        assert(a[from] == b[from]);
        lemma_lt_at(a, b, from + 1, k);
    }
}

/// Texts are ordered as words in a dictionary: by the first character in which they differ, and
/// a text stands before every longer one that begins with it.
pub proof fn law_texts_are_ordered_by_their_first_difference(
    head: Seq<char>,
    a: Seq<char>,
    b: Seq<char>,
)
    ensures
        a.len() > 0 && b.len() > 0 && a[0] != b[0] ==> (text_lt(head + a, head + b) <==> (
        a[0] as int) < (b[0] as int)),
        b.len() > 0 ==> text_lt(head, head + b) && !text_lt(head + b, head),
        !text_lt(a, a),
{
    let k = head.len() as int;
    lemma_lt_at(head + a, head + b, 0, k);
    lemma_lt_at(head, head + b, 0, k);
    lemma_lt_at(head + b, head, 0, k);
    lemma_lt_at(a, a, 0, a.len() as int);
    if a.len() > 0 && b.len() > 0 {
        assert((head + a)[k] == a[0] && (head + b)[k] == b[0]);
    }
}

/// A sorted list holds the same texts as often, in ascending order.
pub proof fn law_sorting_reorders(s: Seq<Seq<char>>)
    ensures
        sorted_texts(s).to_multiset() == s.to_multiset(),
        sorted_texts(s).len() == s.len(),
        forall|i: int, j: int|
            0 <= i < j < s.len() ==> !text_lt(
                #[trigger] sorted_texts(s)[j],
                #[trigger] sorted_texts(s)[i],
            ),
{
    lemma_sorted_texts(s);
}

} // verus!
