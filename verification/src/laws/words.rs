//! Words, and where they stand.

use vstd::prelude::*;

use crate::laws::order::{all_of, stands_at};
use crate::text::{
    comes_before, find, has_text, is_blank, is_space, join, joined, lemma_find, lemma_find_bounds, lowercased,
    normalized_words, occurs_at, precedes, split, split_at_char, texts, trim_end, trim_start, trimmed,
};

verus! {

/// A text holds another exactly where the other stands at some index.
pub proof fn lemma_has_text(s: Seq<char>, piece: Seq<char>)
    ensures
        has_text(s, piece) <==> exists|at: int| stands_at(s, piece, at),
        has_text(s, piece) <==> exists|a: Seq<char>, b: Seq<char>| s == #[trigger] (a + piece + b),
{
    if has_text(s, piece) {
        let at = choose|at: int| occurs_at(s, piece, at);
        assert(stands_at(s, piece, at));
        assert(s =~= s.take(at) + piece + s.skip(at + piece.len()));
    }
    if exists|at: int| stands_at(s, piece, at) {
        let at = choose|at: int| stands_at(s, piece, at);
        assert(occurs_at(s, piece, at));
    }
    if exists|a: Seq<char>, b: Seq<char>| s == #[trigger] (a + piece + b) {
        let (a, b) = choose|a: Seq<char>, b: Seq<char>| s == #[trigger] (a + piece + b);
        let at = a.len() as int;
        assert(s.subrange(at, at + piece.len()) =~= piece);
        assert(occurs_at(s, piece, at));
    }
}

/// The words listened for are those given, in order, in small letters and without the white
/// space around them, and none of them is empty.
pub proof fn lemma_normalized(v: Seq<Seq<char>>)
    ensures
        normalized_words(v) == v.map_values(|w: Seq<char>| lowercased(trimmed(w))).filter(
            |w: Seq<char>| w.len() > 0,
        ),
        forall|w: Seq<char>| #[trigger]
            normalized_words(v).contains(w) <==> w.len() > 0 && exists|i: int|
                0 <= i < v.len() && w == lowercased(trimmed(#[trigger] v[i])),
    decreases v.len(),
{
    reveal(Seq::filter);
    let f = |w: Seq<char>| lowercased(trimmed(w));
    let all = normalized_words(v);
    if v.len() > 0 {
        let front = v.drop_last();
        lemma_normalized(front);
        assert(v.map_values(f).drop_last() =~= front.map_values(f));
        let before = normalized_words(front);
        let last = lowercased(trimmed(v.last()));
        assert forall|w: Seq<char>| #[trigger] all.contains(w) <==> w.len() > 0 && exists|i: int|
            0 <= i < v.len() && w == lowercased(trimmed(#[trigger] v[i])) by {
            assert(before.contains(w) <==> w.len() > 0 && exists|i: int|
                0 <= i < front.len() && w == lowercased(trimmed(#[trigger] front[i])));
            if all.contains(w) {
                let k = choose|k: int| 0 <= k < all.len() && all[k] == w;
                if k < before.len() {
                    assert(before[k] == w);
                    assert(before.contains(w));
                    let i = choose|i: int|
                        0 <= i < front.len() && w == lowercased(trimmed(#[trigger] front[i]));
                    assert(v[i] == front[i]);
                } else {
                    assert(v[v.len() - 1] == v.last());
                }
            }
            if w.len() > 0 && exists|i: int|
                0 <= i < v.len() && w == lowercased(trimmed(#[trigger] v[i])) {
                let i = choose|i: int| 0 <= i < v.len() && w == lowercased(trimmed(#[trigger] v[i]));
                if i < front.len() {
                    assert(front[i] == v[i]);
                    assert(before.contains(w));
                    let k = choose|k: int| 0 <= k < before.len() && before[k] == w;
                    assert(all[k] == w);
                } else {
                    assert(all[all.len() - 1] == w);
                }
            }
        }
    } else {
        assert(v.map_values(f) =~= seq![]);
    }
}

/// Lists of one piece each, one behind the other, are the pieces.
pub proof fn lemma_singles(values: Seq<Seq<char>>)
    ensures
        all_of(values.map_values(|v: Seq<char>| seq![v])) == values,
    decreases values.len(),
{
    let f = |v: Seq<char>| seq![v];
    if values.len() > 0 {
        lemma_singles(values.drop_last());
        assert(values.map_values(f).drop_last() =~= values.drop_last().map_values(f));
        assert(values.drop_last() + seq![values.last()] =~= values);
    } else {
        assert(values.map_values(f) =~= seq![]);
        assert(values =~= seq![]);
    }
}

/// What is kept of a list is whatever of it is to be kept.
pub proof fn lemma_filter_is_all<A>(s: Seq<A>, keep: spec_fn(A) -> bool)
    ensures
        forall|m: A| #[trigger] s.filter(keep).contains(m) <==> s.contains(m) && keep(m),
    decreases s.len(),
{
    reveal(Seq::filter);
    let all = s.filter(keep);
    if s.len() > 0 {
        let front = s.drop_last();
        let before = front.filter(keep);
        lemma_filter_is_all(front, keep);
        assert forall|m: A| #[trigger] all.contains(m) <==> s.contains(m) && keep(m) by {
            assert(before.contains(m) <==> front.contains(m) && keep(m));
            if s.contains(m) && keep(m) {
                let i = choose|i: int| 0 <= i < s.len() && s[i] == m;
                if i < front.len() {
                    assert(front[i] == m);
                    let k = choose|k: int| 0 <= k < before.len() && before[k] == m;
                    assert(all[k] == m);
                } else {
                    assert(all[all.len() - 1] == m);
                }
            }
            if all.contains(m) {
                let k = choose|k: int| 0 <= k < all.len() && all[k] == m;
                if k < before.len() {
                    assert(before[k] == m);
                    assert(before.contains(m));
                    let i = choose|i: int| 0 <= i < front.len() && front[i] == m;
                    assert(s[i] == m);
                } else {
                    assert(s[s.len() - 1] == m);
                }
            }
        }
    }
}

/// A text is all white space.
pub open spec fn is_all_space(s: Seq<char>) -> bool {
    forall|i: int| 0 <= i < s.len() ==> is_space(#[trigger] s[i])
}

/// A text is another without the white space around it: nothing but white space was taken away,
/// at either end, and none is left there.
pub open spec fn is_trim_of(t: Seq<char>, s: Seq<char>) -> bool {
    &&& t.len() > 0 ==> !is_space(t[0]) && !is_space(t.last())
    &&& exists|a: Seq<char>, b: Seq<char>| #[trigger]
        is_between(s, a, t, b) && is_all_space(a) && is_all_space(b)
}

pub open spec fn is_between(s: Seq<char>, a: Seq<char>, t: Seq<char>, b: Seq<char>) -> bool {
    s == a + t + b
}

proof fn lemma_trim_start(s: Seq<char>) -> (a: Seq<char>)
    ensures
        s == a + trim_start(s),
        is_all_space(a),
        trim_start(s).len() > 0 ==> !is_space(trim_start(s)[0]),
    decreases s.len(),
{
    if s.len() > 0 && is_space(s[0]) {
        let rest = lemma_trim_start(s.drop_first());
        let a = seq![s[0]] + rest;
        let kept = trim_start(s);
        assert(s =~= seq![s[0]] + s.drop_first());
        assert(seq![s[0]] + (rest + kept) =~= a + kept);
        assert forall|i: int| 0 <= i < a.len() implies is_space(#[trigger] a[i]) by {
            if i > 0 {
                assert(a[i] == rest[i - 1]);
            }
        }
        a
    } else {
        assert(s =~= Seq::<char>::empty() + s);
        Seq::<char>::empty()
    }
}

proof fn lemma_trim_end(s: Seq<char>) -> (b: Seq<char>)
    ensures
        s == trim_end(s) + b,
        is_all_space(b),
        trim_end(s).len() > 0 ==> !is_space(trim_end(s).last()) && trim_end(s)[0] == s[0],
    decreases s.len(),
{
    if s.len() > 0 && is_space(s.last()) {
        let rest = lemma_trim_end(s.drop_last());
        let b = rest.push(s.last());
        let kept = trim_end(s);
        assert(s =~= s.drop_last().push(s.last()));
        assert((kept + rest).push(s.last()) =~= kept + b);
        assert forall|i: int| 0 <= i < b.len() implies is_space(#[trigger] b[i]) by {
            if i < rest.len() {
                assert(b[i] == rest[i]);
            }
        }
        b
    } else {
        assert(s =~= s + Seq::<char>::empty());
        Seq::<char>::empty()
    }
}

/// Trimming takes away the white space at either end, all of it and nothing else.
pub proof fn lemma_trimmed(s: Seq<char>)
    ensures
        is_trim_of(trimmed(s), s),
{
    let a = lemma_trim_start(s);
    let m = trim_start(s);
    let b = lemma_trim_end(m);
    assert(s =~= a + trimmed(s) + b);
    assert(is_between(s, a, trimmed(s), b));
}

/// There is only one way to trim a text.
pub proof fn lemma_one_trim(s: Seq<char>, t: Seq<char>)
    requires
        is_trim_of(t, s),
    ensures
        t == trimmed(s),
{
    lemma_trimmed(s);
    let u = trimmed(s);
    let (a, b) = choose|a: Seq<char>, b: Seq<char>| #[trigger]
        is_between(s, a, t, b) && is_all_space(a) && is_all_space(b);
    let (c, d) = choose|a: Seq<char>, b: Seq<char>| #[trigger]
        is_between(s, a, u, b) && is_all_space(a) && is_all_space(b);
    lemma_trim_is_no_longer(s, a, t, b, c, u, d);
    lemma_trim_is_no_longer(s, c, u, d, a, t, b);
    assert(t =~= u) by {
        if t.len() > 0 {
            assert(t =~= s.subrange(a.len() as int, s.len() - b.len()));
            assert(u =~= s.subrange(c.len() as int, s.len() - d.len()));
        }
    }
}

proof fn lemma_trim_is_no_longer(
    s: Seq<char>,
    a: Seq<char>,
    t: Seq<char>,
    b: Seq<char>,
    c: Seq<char>,
    u: Seq<char>,
    d: Seq<char>,
)
    requires
        s == a + t + b,
        s == c + u + d,
        is_all_space(a) && is_all_space(b) && is_all_space(c) && is_all_space(d),
        t.len() > 0 ==> !is_space(t[0]) && !is_space(t.last()),
    ensures
        t.len() > 0 ==> u.len() > 0 && c.len() <= a.len() && d.len() <= b.len(),
{
    if t.len() > 0 {
        let first = a.len() as int;
        let last = a.len() + t.len() - 1;
        assert((a + t + b).len() == a.len() + t.len() + b.len());
        assert((c + u + d).len() == c.len() + u.len() + d.len());
        assert(s[first] == t[0]);
        assert(s[last] == t.last());
        if first < c.len() {
            assert(s[first] == c[first]);
        }
        if last >= c.len() + u.len() {
            assert((c + u + d)[last] == d[last - (c + u).len()]);
        }
        if u.len() == 0 {
            assert((c + u + d)[first] == d[first - (c + u).len()]);
        }
    }
}

/// A text is blank where there is nothing in it but white space.
pub proof fn lemma_blank_is_all_space(s: Seq<char>)
    ensures
        is_blank(s) <==> is_all_space(s),
{
    lemma_trimmed(s);
    let t = trimmed(s);
    let (a, b) = choose|a: Seq<char>, b: Seq<char>| #[trigger]
        is_between(s, a, t, b) && is_all_space(a) && is_all_space(b);
    if t.len() == 0 {
        assert forall|i: int| 0 <= i < s.len() implies is_space(#[trigger] s[i]) by {
            if i < a.len() {
                assert(s[i] == a[i]);
            } else {
                assert(s[i] == b[i - a.len()]);
            }
        }
    } else {
        assert(s[a.len() as int] == t[0]);
    }
}

/// A text is parts with a character between each two, and none of the parts holds it.
pub open spec fn is_split_by(s: Seq<char>, c: char, parts: Seq<Seq<char>>) -> bool {
    &&& parts.len() > 0
    &&& s == joined(parts, seq![c])
    &&& forall|i: int| 0 <= i < parts.len() ==> !(#[trigger] parts[i]).contains(c)
}

proof fn lemma_joined_front(first: Seq<char>, rest: Seq<Seq<char>>, sep: Seq<char>)
    requires
        rest.len() > 0,
    ensures
        joined(seq![first] + rest, sep) == first + sep + joined(rest, sep),
    decreases rest.len(),
{
    let all = seq![first] + rest;
    if rest.len() == 1 {
        assert(all.drop_last() =~= seq![first]);
        assert(all.last() == rest[0]);
        reveal_with_fuel(joined, 2);
        assert(joined(all, sep) =~= first + sep + joined(rest, sep));
    } else {
        lemma_joined_front(first, rest.drop_last(), sep);
        assert(all.drop_last() =~= seq![first] + rest.drop_last());
        assert(all.last() == rest.last());
        assert(joined(all, sep) =~= first + sep + joined(rest, sep));
    }
}

/// Splitting loses nothing: the parts, put together again, are the text, and none of them holds
/// what it was split at.
pub proof fn lemma_split_is_whole(s: Seq<char>, c: char)
    ensures
        is_split_by(s, c, split_at_char(s, c)),
    decreases s.len(),
{
    let n = find(s, c) as int;
    lemma_find_bounds(s, c);
    let parts = split_at_char(s, c);
    if n >= s.len() {
        assert(parts =~= seq![s]);
        assert(joined(parts, seq![c]) =~= s);
        if s.contains(c) {
            let k = choose|k: int| 0 <= k < s.len() && s[k] == c;
            assert(s[k] != c);
        }
    } else {
        let rest = split_at_char(s.skip(n + 1), c);
        lemma_split_is_whole(s.skip(n + 1), c);
        lemma_joined_front(s.take(n), rest, seq![c]);
        assert(s =~= s.take(n) + seq![c] + s.skip(n + 1));
        assert forall|i: int| 0 <= i < parts.len() implies !(#[trigger] parts[i]).contains(c) by {
            if i == 0 {
                if s.take(n).contains(c) {
                    let k = choose|k: int| 0 <= k < n && s.take(n)[k] == c;
                    assert(s[k] != c);
                }
            } else {
                assert(parts[i] == rest[i - 1]);
            }
        }
    }
}

/// There is only one way to split a text.
pub proof fn lemma_one_split(s: Seq<char>, c: char, parts: Seq<Seq<char>>)
    requires
        is_split_by(s, c, parts),
    ensures
        parts == split_at_char(s, c),
    decreases parts.len(),
{
    let first = parts[0];
    if parts.len() == 1 {
        reveal_with_fuel(joined, 1);
        assert(parts =~= seq![first]);
        assert(s =~= first);
        assert forall|j: int| 0 <= j < s.len() implies #[trigger] s[j] != c by {
            assert(first[j] == s[j]);
        }
        lemma_find(s, c, s.len() as int);
    } else {
        let rest = parts.drop_first();
        assert(parts =~= seq![first] + rest);
        lemma_joined_front(first, rest, seq![c]);
        let n = first.len() as int;
        assert(s[n] == c);
        assert forall|j: int| 0 <= j < n implies #[trigger] s[j] != c by {
            assert(first[j] == s[j]);
        }
        lemma_find(s, c, n);
        assert(s.take(n) =~= first);
        assert(s.skip(n + 1) =~= joined(rest, seq![c]));
        assert forall|i: int| 0 <= i < rest.len() implies !(#[trigger] rest[i]).contains(c) by {
            assert(rest[i] == parts[i + 1]);
        }
        lemma_one_split(s.skip(n + 1), c, rest);
    }
}

/// What is joined with a character that none of it holds comes apart as it was.
pub proof fn lemma_what_is_joined_comes_apart(
    parts: Vec<String>,
    sep: &str,
    c: char,
    s: String,
    text: &str,
    r: Vec<String>,
)
    requires
        parts@.len() > 0,
        forall|i: int| 0 <= i < parts@.len() ==> !(#[trigger] parts@[i])@.contains(c),
        sep@ == seq![c],
        call_ensures(join, (&parts, sep), s),
        text@ == s@,
        call_ensures(split, (text, c), r),
    ensures
        texts(r@) == texts(parts@),
{
    let all = texts(parts@);
    assert forall|i: int| 0 <= i < all.len() implies !(#[trigger] all[i]).contains(c) by {
        assert(all[i] == parts@[i]@);
    }
    lemma_one_split(s@, c, all);
}

/// One text comes before another where, at the first place in which they differ, its character
/// is the smaller one, or it ends there.
pub open spec fn is_smaller(a: Seq<char>, b: Seq<char>) -> bool {
    exists|k: int| #[trigger] differ_at(a, b, k) && k < b.len() && (k == a.len() || a[k] < b[k])
}

/// Two texts are the same up to a place, and not there.
pub open spec fn differ_at(a: Seq<char>, b: Seq<char>, k: int) -> bool {
    &&& 0 <= k <= a.len()
    &&& k <= b.len()
    &&& a.take(k) == b.take(k)
    &&& k < a.len() && k < b.len() ==> a[k] != b[k]
}

proof fn lemma_precedes(a: Seq<char>, b: Seq<char>)
    ensures
        precedes(a, b) <==> is_smaller(a, b),
    decreases a.len(),
{
    if b.len() == 0 {
    } else if a.len() == 0 {
        assert(a.take(0) =~= b.take(0));
        assert(differ_at(a, b, 0));
    } else if a[0] != b[0] {
        assert(a.take(0) =~= b.take(0));
        assert(differ_at(a, b, 0));
        if is_smaller(a, b) {
            let k = choose|k: int| #[trigger] differ_at(a, b, k) && k < b.len() && (k == a.len() || a[k] < b[k]);
            if k > 0 {
                assert(a.take(k)[0] == b.take(k)[0]);
            }
        }
    } else {
        let x = a.drop_first();
        let y = b.drop_first();
        lemma_precedes(x, y);
        if is_smaller(x, y) {
            let k = choose|k: int| #[trigger] differ_at(x, y, k) && k < y.len() && (k == x.len() || x[k] < y[k]);
            assert(a.take(k + 1) =~= b.take(k + 1)) by {
                assert forall|i: int| 0 <= i < k + 1 implies a[i] == b[i] by {
                    if i > 0 {
                        assert(x.take(k)[i - 1] == y.take(k)[i - 1]);
                    }
                }
            }
            assert(differ_at(a, b, k + 1));
        }
        if is_smaller(a, b) {
            let k = choose|k: int| #[trigger] differ_at(a, b, k) && k < b.len() && (k == a.len() || a[k] < b[k]);
            assert(k > 0);
            assert(x.take(k - 1) =~= y.take(k - 1)) by {
                assert forall|i: int| 0 <= i < k - 1 implies x[i] == y[i] by {
                    assert(a.take(k)[i + 1] == b.take(k)[i + 1]);
                }
            }
            assert(differ_at(x, y, k - 1));
        }
    }
}

/// Texts are ordered by the first place in which they differ.
pub proof fn lemma_the_first_difference_decides(a: &str, b: &str, r: bool)
    requires
        call_ensures(comes_before, (a, b), r),
    ensures
        r <==> is_smaller(a@, b@),
{
    lemma_precedes(a@, b@);
}

} // verus!
