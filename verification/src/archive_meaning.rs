//! What the archive's queries mean: the database's LIKE and full-text strings as spec
//! functions, and the laws that a scan finds what it was asked for and a search means its
//! words and nothing else.

use vstd::prelude::*;

use crate::archive::{
    clauses, fts_char, fts_token, fts_tokens, haystack, like_char, like_text, placeholder, scan_params,
    scan_sql, search_sql, where_params, where_sql, Clause, NewMessage, ScanQuery, SCAN_ORDER, SEARCH_HEAD,
    SEARCH_ORDER,
};
use crate::numeral::{all_digits, is_digit};
use crate::sql::{Bound, Statement};
use crate::sql_meaning::{are_the_newest, asks_newest, gives, lemma_the_newest_are_given};
use crate::text::{
    ascii_lower, ascii_lowered, expand, has_text, joined, occurs_at, texts, words,
};

verus! {

/// The database's LIKE: `%` stands for any run of characters and `_` for any one, the escape
/// character takes the next character as it stands, and the case of ASCII letters is ignored.
pub open spec fn like(pattern: Seq<char>, s: Seq<char>, escape: Option<char>) -> bool
    decreases pattern.len() + s.len(),
{
    if pattern.len() == 0 {
        s.len() == 0
    } else if escape == Some(pattern[0]) {
        pattern.len() > 1 && s.len() > 0 && ascii_lower(pattern[1]) == ascii_lower(s[0]) && like(
            pattern.skip(2),
            s.skip(1),
            escape,
        )
    } else if pattern[0] == '%' {
        like(pattern.skip(1), s, escape) || (s.len() > 0 && like(pattern, s.skip(1), escape))
    } else if pattern[0] == '_' {
        s.len() > 0 && like(pattern.skip(1), s.skip(1), escape)
    } else {
        s.len() > 0 && ascii_lower(pattern[0]) == ascii_lower(s[0]) && like(
            pattern.skip(1),
            s.skip(1),
            escape,
        )
    }
}

/// `s` begins with `t`, but for the case of ASCII letters.
pub open spec fn begins_alike(s: Seq<char>, t: Seq<char>) -> bool {
    t.len() <= s.len() && ascii_lowered(s.take(t.len() as int)) == ascii_lowered(t)
}

proof fn lemma_begins_alike_step(s: Seq<char>, t: Seq<char>)
    requires
        t.len() > 0,
    ensures
        begins_alike(s, t) <==> s.len() > 0 && ascii_lower(t[0]) == ascii_lower(s[0])
            && begins_alike(s.skip(1), t.drop_first()),
{
    let n = t.len() as int;
    if begins_alike(s, t) {
        assert(ascii_lowered(s.take(n))[0] == ascii_lowered(t)[0]);
        assert(s.skip(1).take(n - 1) =~= s.take(n).drop_first());
        assert(ascii_lowered(s.take(n).drop_first()) =~= ascii_lowered(s.take(n)).drop_first());
        assert(ascii_lowered(t.drop_first()) =~= ascii_lowered(t).drop_first());
    }
    if s.len() > 0 && ascii_lower(t[0]) == ascii_lower(s[0]) && begins_alike(
        s.skip(1),
        t.drop_first(),
    ) {
        let a = ascii_lowered(s.take(n));
        let b = ascii_lowered(t);
        assert forall|i: int| 0 <= i < n implies a[i] == b[i] by {
            if i > 0 {
                assert(ascii_lowered(s.skip(1).take(n - 1))[i - 1] == ascii_lowered(
                    t.drop_first(),
                )[i - 1]);
            }
        }
        assert(a =~= b);
    }
}

proof fn lemma_expand_front(s: Seq<char>, f: spec_fn(char) -> Seq<char>)
    requires
        s.len() > 0,
    ensures
        expand(s, f) == f(s[0]) + expand(s.drop_first(), f),
    decreases s.len(),
{
    if s.len() == 1 {
        assert(s.drop_last() =~= seq![]);
        assert(s.drop_first() =~= seq![]);
        assert(expand(s.drop_last(), f) =~= seq![]);
        assert(expand(s.drop_first(), f) =~= seq![]);
        assert(expand(s, f) =~= f(s[0]) + expand(s.drop_first(), f));
    } else {
        lemma_expand_front(s.drop_last(), f);
        assert(s.drop_last().drop_first() =~= s.drop_first().drop_last());
        assert(expand(s, f) =~= f(s[0]) + (expand(s.drop_first().drop_last(), f) + f(s.last())));
    }
}

proof fn lemma_percent_alone(s: Seq<char>, escape: Option<char>)
    requires
        escape != Some('%'),
    ensures
        like(seq!['%'], s, escape),
    decreases s.len(),
{
    let p = seq!['%'];
    assert(p.skip(1) =~= seq![]);
    if s.len() > 0 {
        lemma_percent_alone(s.skip(1), escape);
    } else {
        assert(like(p.skip(1), s, escape));
    }
}

proof fn lemma_percent_front(p: Seq<char>, s: Seq<char>, escape: Option<char>)
    requires
        escape != Some('%'),
    ensures
        like(seq!['%'] + p, s, escape) <==> exists|k: int|
            0 <= k <= s.len() && like(p, #[trigger] s.skip(k), escape),
    decreases s.len(),
{
    let q = seq!['%'] + p;
    assert(q.skip(1) =~= p);
    assert(s.skip(0) =~= s);
    if s.len() > 0 {
        let t = s.skip(1);
        lemma_percent_front(p, t, escape);
        if like(q, t, escape) {
            let k = choose|k: int| 0 <= k <= t.len() && like(p, #[trigger] t.skip(k), escape);
            assert(t.skip(k) =~= s.skip(k + 1));
        }
        if exists|k: int| 0 <= k <= s.len() && like(p, #[trigger] s.skip(k), escape) {
            let k = choose|k: int| 0 <= k <= s.len() && like(p, #[trigger] s.skip(k), escape);
            if k > 0 {
                assert(t.skip(k - 1) =~= s.skip(k));
            }
        }
        if like(p, s, escape) {
            assert(like(p, s.skip(0), escape));
        }
    } else {
        if exists|k: int| 0 <= k <= s.len() && like(p, #[trigger] s.skip(k), escape) {
            let k = choose|k: int| 0 <= k <= s.len() && like(p, #[trigger] s.skip(k), escape);
            assert(k == 0);
        }
        if like(p, s, escape) {
            assert(like(p, s.skip(0), escape));
        }
    }
}

proof fn lemma_escaped_front(t: Seq<char>, q: Seq<char>, s: Seq<char>)
    ensures
        like(expand(t, |c: char| like_char(c)) + q, s, Some('\\')) <==> begins_alike(s, t) && like(
            q,
            s.skip(t.len() as int),
            Some('\\'),
        ),
    decreases t.len(),
{
    let f = |c: char| like_char(c);
    if t.len() == 0 {
        assert(expand(t, f) + q =~= q);
        assert(s.skip(0) =~= s);
        assert(ascii_lowered(s.take(0)) =~= ascii_lowered(t));
    } else {
        lemma_expand_front(t, f);
        lemma_begins_alike_step(s, t);
        let rest = expand(t.drop_first(), f) + q;
        let p = expand(t, f) + q;
        assert(p =~= f(t[0]) + rest);
        if s.len() > 0 {
            lemma_escaped_front(t.drop_first(), q, s.skip(1));
            if t.len() <= s.len() {
                assert(s.skip(1).skip(t.len() - 1) =~= s.skip(t.len() as int));
            }
        }
        if f(t[0]).len() == 2 {
            assert(p[0] == '\\');
            assert(p[1] == t[0]);
            assert(p.skip(2) =~= rest);
        } else {
            assert(p[0] == t[0]);
            assert(p.skip(1) =~= rest);
        }
    }
}

/// No wildcards.
pub open spec fn no_wildcards(t: Seq<char>) -> bool {
    forall|i: int| 0 <= i < t.len() ==> #[trigger] t[i] != '%' && t[i] != '_'
}

proof fn lemma_plain_front(t: Seq<char>, q: Seq<char>, s: Seq<char>)
    requires
        no_wildcards(t),
    ensures
        like(t + q, s, None) <==> begins_alike(s, t) && like(q, s.skip(t.len() as int), None),
    decreases t.len(),
{
    if t.len() == 0 {
        assert(t + q =~= q);
        assert(s.skip(0) =~= s);
        assert(ascii_lowered(s.take(0)) =~= ascii_lowered(t));
    } else {
        lemma_begins_alike_step(s, t);
        assert(no_wildcards(t.drop_first())) by {
            assert forall|i: int| 0 <= i < t.drop_first().len() implies #[trigger] t.drop_first()[i]
                != '%' && t.drop_first()[i] != '_' by {
                assert(t[i + 1] != '%');
            }
        }
        assert((t + q).skip(1) =~= t.drop_first() + q);
        assert((t + q)[0] == t[0] && t[0] != '%');
        if s.len() > 0 {
            lemma_plain_front(t.drop_first(), q, s.skip(1));
            if t.len() <= s.len() {
                assert(s.skip(1).skip(t.len() - 1) =~= s.skip(t.len() as int));
            }
        }
    }
}

proof fn lemma_begins_somewhere(s: Seq<char>, t: Seq<char>)
    ensures
        has_text(ascii_lowered(s), ascii_lowered(t)) <==> exists|k: int|
            0 <= k <= s.len() && begins_alike(#[trigger] s.skip(k), t),
{
    let ls = ascii_lowered(s);
    let lt = ascii_lowered(t);
    let n = t.len() as int;
    if has_text(ls, lt) {
        let i = choose|i: int| #[trigger] occurs_at(ls, lt, i);
        assert(ascii_lowered(s.skip(i).take(n)) =~= ls.subrange(i, i + n));
        assert(begins_alike(s.skip(i), t));
    }
    if exists|k: int| 0 <= k <= s.len() && begins_alike(#[trigger] s.skip(k), t) {
        let k = choose|k: int| 0 <= k <= s.len() && begins_alike(#[trigger] s.skip(k), t);
        assert(ascii_lowered(s.skip(k).take(n)) =~= ls.subrange(k, k + n));
        assert(occurs_at(ls, lt, k));
    }
}

/// A scan's text filter finds the text anywhere in a message, wildcards taken as they stand
/// and the case of ASCII letters ignored.
pub proof fn lemma_text_filter_is_containment(text: Seq<char>, content: Seq<char>)
    ensures
        like(like_text(text), content, Some('\\')) <==> has_text(
            ascii_lowered(content),
            ascii_lowered(text),
        ),
{
    let body = expand(text, |c: char| like_char(c)) + seq!['%'];
    assert(like_text(text) =~= seq!['%'] + body);
    lemma_percent_front(body, content, Some('\\'));
    lemma_begins_somewhere(content, text);
    assert forall|k: int| 0 <= k <= content.len() implies like(
        body,
        #[trigger] content.skip(k),
        Some('\\'),
    ) == begins_alike(content.skip(k), text) by {
        let s = content.skip(k);
        lemma_escaped_front(text, seq!['%'], s);
        if begins_alike(s, text) {
            lemma_percent_alone(s.skip(text.len() as int), Some('\\'));
        }
    }
}

/// The pattern a mention filter makes of the value bound to it.
pub open spec fn mention_pattern(id: Seq<char>) -> Seq<char> {
    seq!['%'] + (" "@ + id + " "@) + seq!['%']
}

/// An id as Discord writes it: digits, one at least.
pub open spec fn is_id(s: Seq<char>) -> bool {
    s.len() > 0 && all_digits(s)
}

pub open spec fn are_ids(ids: Seq<Seq<char>>) -> bool {
    forall|i: int| 0 <= i < ids.len() ==> is_id(#[trigger] ids[i])
}

proof fn lemma_haystack_step(ids: Seq<Seq<char>>, id: Seq<char>)
    ensures
        haystack(ids.push(id)) == (if ids.len() == 0 {
            " "@
        } else {
            haystack(ids)
        }) + id + " "@,
{
    let all = ids.push(id);
    assert(all.drop_last() =~= ids);
    assert(all.last() == id);
    if ids.len() == 0 {
        assert(joined(all, " "@) == id);
    } else {
        assert(joined(all, " "@) == joined(ids, " "@) + " "@ + id);
    }
    assert(haystack(all) =~= (if ids.len() == 0 {
        " "@
    } else {
        haystack(ids)
    }) + id + " "@);
}

/// Every character is a digit or a space.
spec fn digits_and_spaces(s: Seq<char>) -> bool {
    forall|i: int| 0 <= i < s.len() ==> is_digit(#[trigger] s[i]) || s[i] == ' '
}

proof fn lemma_haystack_shape(ids: Seq<Seq<char>>)
    requires
        are_ids(ids),
    ensures
        digits_and_spaces(haystack(ids)),
        ids.len() > 0 ==> haystack(ids).len() > 1 && haystack(ids).last() == ' ',
    decreases ids.len(),
{
    reveal_strlit(" ");
    if ids.len() > 0 {
        let front = ids.drop_last();
        assert(are_ids(front)) by {
            assert forall|i: int| 0 <= i < front.len() implies is_id(#[trigger] front[i]) by {
                assert(is_id(ids[i]));
            }
        }
        lemma_haystack_shape(front);
        lemma_haystack_step(front, ids.last());
        assert(front.push(ids.last()) =~= ids);
        assert(is_id(ids[ids.len() - 1]));
        let base = if front.len() == 0 {
            " "@
        } else {
            haystack(front)
        };
        let id = ids.last();
        assert forall|i: int| 0 <= i < haystack(ids).len() implies is_digit(#[trigger] haystack(ids)[i])
            || haystack(ids)[i] == ' ' by {
            if i < base.len() {
                assert(haystack(ids)[i] == base[i]);
            } else if i < base.len() + id.len() {
                assert(haystack(ids)[i] == id[i - base.len()]);
            }
        }
    }
}

proof fn lemma_lowered_id(s: Seq<char>)
    requires
        digits_and_spaces(s),
    ensures
        ascii_lowered(s) == s,
{
    assert(ascii_lowered(s) =~= s);
}

/// An id stands in the haystack, spaces around it, exactly where it is one of the ids: no id
/// is found inside a longer one.
pub proof fn lemma_haystack_finds_whole_ids(ids: Seq<Seq<char>>, id: Seq<char>)
    requires
        are_ids(ids),
        is_id(id),
    ensures
        has_text(haystack(ids), " "@ + id + " "@) <==> ids.contains(id),
    decreases ids.len(),
{
    reveal_strlit(" ");
    let needle = " "@ + id + " "@;
    let n = id.len() as int;
    if ids.len() == 0 {
        if has_text(haystack(ids), needle) {
            let i = choose|i: int| #[trigger] occurs_at(haystack(ids), needle, i);
            assert(needle.len() == n + 2);
        }
    } else {
        let front = ids.drop_last();
        let x = ids.last();
        assert(front.push(x) =~= ids);
        assert(are_ids(front)) by {
            assert forall|i: int| 0 <= i < front.len() implies is_id(#[trigger] front[i]) by {
                assert(is_id(ids[i]));
            }
        }
        assert(is_id(ids[ids.len() - 1]));
        lemma_haystack_finds_whole_ids(front, id);
        lemma_haystack_step(front, x);
        lemma_haystack_shape(front);
        let base = if front.len() == 0 {
            " "@
        } else {
            haystack(front)
        };
        let all = haystack(ids);
        let l = base.len() as int;
        let m = x.len() as int;
        assert(all == base + x + " "@);
        assert(base[l - 1] == ' ');
        assert(all[l - 1] == ' ');
        assert forall|i: int| l <= i < l + m implies is_digit(#[trigger] all[i]) by {
            assert(all[i] == x[i - l]);
        }
        if has_text(all, needle) {
            let i = choose|i: int| #[trigger] occurs_at(all, needle, i);
            let window = all.subrange(i, i + n + 2);
            assert(window == needle);
            assert(all[i] == window[0] && window[0] == ' ');
            assert(all[i + n + 1] == window[n + 1] && window[n + 1] == ' ');
            assert forall|j: int| i < j < i + n + 1 implies is_digit(#[trigger] all[j]) by {
                assert(all[j] == window[j - i]);
                assert(needle[j - i] == id[j - i - 1]);
            }
            if i + n + 2 <= l {
                assert(base.subrange(i, i + n + 2) =~= window);
                if front.len() == 0 {
                    assert(l == 1);
                    assert(false);
                }
                assert(occurs_at(haystack(front), needle, i));
                let k = choose|k: int| 0 <= k < front.len() && front[k] == id;
                assert(ids[k] == id);
            } else {
                assert(i + n + 1 == l + m) by {
                    if i + n + 1 < l + m {
                        assert(is_digit(all[i + n + 1]));
                    }
                }
                assert(i == l - 1) by {
                    if l <= i {
                        assert(is_digit(all[i]));
                    }
                    if i < l - 1 {
                        assert(is_digit(all[l - 1]));
                    }
                }
                assert forall|j: int| 0 <= j < n implies x[j] == id[j] by {
                    assert(all[l + j] == window[j + 1]);
                }
                assert(x =~= id);
                assert(ids[ids.len() - 1] == id);
            }
        }
        if ids.contains(id) {
            let k = choose|k: int| 0 <= k < ids.len() && ids[k] == id;
            if k < front.len() {
                assert(front[k] == id);
                assert(has_text(haystack(front), needle));
                let i = choose|i: int| #[trigger] occurs_at(haystack(front), needle, i);
                assert(all.subrange(i, i + needle.len()) =~= haystack(front).subrange(
                    i,
                    i + needle.len(),
                ));
                assert(occurs_at(all, needle, i));
            } else {
                assert(x == id);
                assert(all.subrange(l - 1, l - 1 + needle.len()) =~= needle);
                assert(occurs_at(all, needle, l - 1));
            }
        }
    }
}

/// A scan's mention filter finds exactly the messages that mention the id.
pub proof fn lemma_mention_filter_is_membership(ids: Seq<Seq<char>>, id: Seq<char>)
    requires
        are_ids(ids),
        is_id(id),
    ensures
        like(mention_pattern(id), haystack(ids), None) <==> ids.contains(id),
{
    reveal_strlit(" ");
    let needle = " "@ + id + " "@;
    let hay = haystack(ids);
    let body = needle + seq!['%'];
    assert(mention_pattern(id) =~= seq!['%'] + body);
    lemma_percent_front(body, hay, None);
    assert(digits_and_spaces(needle)) by {
        assert forall|i: int| 0 <= i < needle.len() implies is_digit(#[trigger] needle[i])
            || needle[i] == ' ' by {
            if 0 < i <= id.len() {
                assert(needle[i] == id[i - 1]);
            }
        }
    }
    assert(no_wildcards(needle)) by {
        assert forall|i: int| 0 <= i < needle.len() implies #[trigger] needle[i] != '%' && needle[i]
            != '_' by {
            assert(is_digit(needle[i]) || needle[i] == ' ');
        }
    }
    lemma_haystack_shape(ids);
    lemma_lowered_id(needle);
    lemma_lowered_id(hay);
    lemma_begins_somewhere(hay, needle);
    lemma_haystack_finds_whole_ids(ids, id);
    assert forall|k: int| 0 <= k <= hay.len() implies like(body, #[trigger] hay.skip(k), None)
        == begins_alike(hay.skip(k), needle) by {
        let s = hay.skip(k);
        lemma_plain_front(needle, seq!['%'], s);
        if begins_alike(s, needle) {
            lemma_percent_alone(s.skip(needle.len() as int), None);
        }
    }
}

/// A kept message meets a condition, as the database reads it.
pub open spec fn clause_holds(c: Clause, id: int, m: NewMessage) -> bool {
    match c {
        Clause::Before(bound) => id < bound,
        Clause::After(bound) => id > bound,
        Clause::Authors(ids) => ids.contains(m.rendered.author_id@),
        Clause::Mentions(ids) => exists|i: int|
            0 <= i < ids.len() && like(
                mention_pattern(#[trigger] ids[i]),
                haystack(texts(m.mention_ids@)),
                None,
            ),
        Clause::Text(text) => like(like_text(text), m.rendered.content@, Some('\\')),
    }
}

/// A kept message meets every condition of a scan, as the database reads them.
pub open spec fn selected(q: ScanQuery, id: int, m: NewMessage) -> bool {
    m.channel_id@ == q.channel_id@ && forall|i: int|
        0 <= i < clauses(q).len() ==> clause_holds(#[trigger] clauses(q)[i], id, m)
}

/// A kept message is what a scan asks for: of that channel, between the two ids, by any of
/// the authors, with a mention of any of the ids, with the text in it.
pub open spec fn asked_for(q: ScanQuery, id: int, m: NewMessage) -> bool {
    &&& m.channel_id@ == q.channel_id@
    &&& q.before is Some ==> id < q.before->0
    &&& q.after is Some ==> id > q.after->0
    &&& q.author_ids@.len() > 0 ==> texts(q.author_ids@).contains(m.rendered.author_id@)
    &&& q.mention_ids@.len() > 0 ==> exists|i: int|
        0 <= i < q.mention_ids@.len() && texts(m.mention_ids@).contains(
            #[trigger] texts(q.mention_ids@)[i],
        )
    &&& q.text is Some ==> has_text(ascii_lowered(m.rendered.content@), ascii_lowered(q.text->0@))
}

/// A scan selects exactly the messages that were asked for, whatever wildcards the text
/// holds and however the ids overlap.
pub proof fn lemma_scan_selects_what_was_asked(q: ScanQuery, id: int, m: NewMessage)
    requires
        are_ids(texts(q.mention_ids@)),
        are_ids(texts(m.mention_ids@)),
    ensures
        selected(q, id, m) <==> asked_for(q, id, m),
{
    let cs = clauses(q);
    let c1 = q.before is Some;
    let c2 = q.after is Some;
    let c3 = q.author_ids@.len() > 0;
    let c4 = q.mention_ids@.len() > 0;
    let c5 = q.text is Some;
    let n1 = if c1 {
        1int
    } else {
        0int
    };
    let n2 = if c2 {
        n1 + 1
    } else {
        n1
    };
    let n3 = if c3 {
        n2 + 1
    } else {
        n2
    };
    let n4 = if c4 {
        n3 + 1
    } else {
        n3
    };
    let ghost before = Clause::Before(q.before->0 as int);
    let ghost after = Clause::After(q.after->0 as int);
    let ghost authors = Clause::Authors(texts(q.author_ids@));
    let ghost mentions = Clause::Mentions(texts(q.mention_ids@));
    let ghost text = Clause::Text(q.text->0@);
    assert(c1 ==> cs[0] == before);
    assert(c2 ==> cs[n1] == after);
    assert(c3 ==> cs[n2] == authors);
    assert(c4 ==> cs[n3] == mentions);
    assert(c5 ==> cs[n4] == text);
    let all = forall|i: int| 0 <= i < cs.len() ==> clause_holds(#[trigger] cs[i], id, m);
    let each = (c1 ==> clause_holds(before, id, m)) && (c2 ==> clause_holds(after, id, m)) && (c3
        ==> clause_holds(authors, id, m)) && (c4 ==> clause_holds(mentions, id, m)) && (c5
        ==> clause_holds(text, id, m));
    assert(all ==> each) by {
        if all {
            assert(c1 ==> clause_holds(cs[0], id, m));
            assert(c2 ==> clause_holds(cs[n1], id, m));
            assert(c3 ==> clause_holds(cs[n2], id, m));
            assert(c4 ==> clause_holds(cs[n3], id, m));
            assert(c5 ==> clause_holds(cs[n4], id, m));
        }
    }
    if each {
        assert forall|i: int| 0 <= i < cs.len() implies clause_holds(#[trigger] cs[i], id, m) by {
            assert((c1 && i == 0) || (c2 && i == n1) || (c3 && i == n2) || (c4 && i == n3) || (c5
                && i == n4));
        }
    }
    if c5 {
        lemma_text_filter_is_containment(q.text->0@, m.rendered.content@);
    }
    let wanted = texts(q.mention_ids@);
    let held = texts(m.mention_ids@);
    assert forall|i: int| 0 <= i < wanted.len() implies like(
        mention_pattern(#[trigger] wanted[i]),
        haystack(held),
        None,
    ) == held.contains(wanted[i]) by {
        assert(is_id(wanted[i]));
        lemma_mention_filter_is_membership(held, wanted[i]);
    }
    assert(wanted.len() == q.mention_ids@.len());
}

/// What a full-text string holds and what follows it, read from behind its opening mark: a
/// doubled mark is one mark, and a single one closes the string.
pub open spec fn fts_string(s: Seq<char>) -> Option<(Seq<char>, Seq<char>)>
    decreases s.len(),
{
    if s.len() == 0 {
        None
    } else if s[0] == '"' {
        if s.len() > 1 && s[1] == '"' {
            match fts_string(s.skip(2)) {
                Some((word, rest)) => Some((seq!['"'] + word, rest)),
                None => None,
            }
        } else {
            Some((seq![], s.skip(1)))
        }
    } else {
        match fts_string(s.skip(1)) {
            Some((word, rest)) => Some((seq![s[0]] + word, rest)),
            None => None,
        }
    }
}

/// The words of a query made of prefix strings with a space between each two, and nothing
/// else.
pub open spec fn fts_words(s: Seq<char>) -> Option<Seq<Seq<char>>>
    decreases s.len(),
    via fts_words_decreases
{
    if s.len() == 0 || s[0] != '"' {
        None
    } else {
        match fts_string(s.skip(1)) {
            Some((word, rest)) => if rest.len() == 0 || rest[0] != '*' {
                None
            } else if rest.len() == 1 {
                Some(seq![word])
            } else if rest[1] != ' ' {
                None
            } else {
                match fts_words(rest.skip(2)) {
                    Some(more) => Some(seq![word] + more),
                    None => None,
                }
            },
            None => None,
        }
    }
}

#[via_fn]
proof fn fts_words_decreases(s: Seq<char>) {
    if s.len() > 0 {
        lemma_fts_string_shorter(s.skip(1));
    }
}

proof fn lemma_fts_string_shorter(s: Seq<char>)
    ensures
        fts_string(s) matches Some((word, rest)) ==> rest.len() < s.len(),
    decreases s.len(),
{
    if s.len() > 0 {
        if s[0] == '"' {
            if s.len() > 1 && s[1] == '"' {
                lemma_fts_string_shorter(s.skip(2));
            }
        } else {
            lemma_fts_string_shorter(s.skip(1));
        }
    }
}

proof fn lemma_fts_string_reads(word: Seq<char>, rest: Seq<char>)
    requires
        rest.len() > 0 ==> rest[0] != '"',
    ensures
        fts_string(expand(word, |c: char| fts_char(c)) + seq!['"'] + rest) == Some((word, rest)),
    decreases word.len(),
{
    let f = |c: char| fts_char(c);
    let s = expand(word, f) + seq!['"'] + rest;
    if word.len() == 0 {
        assert(s =~= seq!['"'] + rest);
        assert(s.skip(1) =~= rest);
        if s.len() > 1 {
            assert(s[1] == rest[0]);
        }
        assert(word =~= seq![]);
    } else {
        lemma_expand_front(word, f);
        lemma_fts_string_reads(word.drop_first(), rest);
        let t = expand(word.drop_first(), f) + seq!['"'] + rest;
        assert(s =~= f(word[0]) + t);
        assert(word =~= seq![word[0]] + word.drop_first());
        if word[0] == '"' {
            assert(s.skip(2) =~= t);
        } else {
            assert(s.skip(1) =~= t);
        }
    }
}

proof fn lemma_joined_front(parts: Seq<Seq<char>>, sep: Seq<char>)
    requires
        parts.len() > 1,
    ensures
        joined(parts, sep) == parts[0] + sep + joined(parts.drop_first(), sep),
    decreases parts.len(),
{
    if parts.len() == 2 {
        assert(parts.drop_last().len() == 1);
        assert(joined(parts.drop_last(), sep) == parts[0]);
        assert(joined(parts.drop_first(), sep) == parts[1]);
    } else {
        let front = parts.drop_last();
        lemma_joined_front(front, sep);
        assert(front.drop_first() =~= parts.drop_first().drop_last());
        assert(joined(parts, sep) =~= parts[0] + sep + (joined(parts.drop_first().drop_last(), sep)
            + sep + parts.last()));
    }
}

proof fn lemma_tokens_read_back(ws: Seq<Seq<char>>)
    requires
        ws.len() > 0,
    ensures
        fts_words(joined(ws.map_values(|w: Seq<char>| fts_token(w)), " "@)) == Some(ws),
    decreases ws.len(),
{
    reveal_strlit(" ");
    let f = |c: char| fts_char(c);
    let tokens = ws.map_values(|w: Seq<char>| fts_token(w));
    let s = joined(tokens, " "@);
    let word = ws[0];
    let tail = if ws.len() == 1 {
        seq![]
    } else {
        seq![' '] + joined(tokens.drop_first(), " "@)
    };
    let rest = seq!['*'] + tail;
    if ws.len() == 1 {
        assert(s == tokens[0]);
    } else {
        lemma_joined_front(tokens, " "@);
        assert(" "@ =~= seq![' ']);
    }
    assert(s =~= seq!['"'] + (expand(word, f) + seq!['"'] + rest));
    assert(s.skip(1) =~= expand(word, f) + seq!['"'] + rest);
    lemma_fts_string_reads(word, rest);
    if ws.len() > 1 {
        lemma_tokens_read_back(ws.drop_first());
        assert(tokens.drop_first() =~= ws.drop_first().map_values(|w: Seq<char>| fts_token(w)));
        assert(rest.skip(2) =~= joined(tokens.drop_first(), " "@));
        assert(ws =~= seq![word] + ws.drop_first());
    } else {
        assert(ws =~= seq![word]);
    }
}

/// A search means its words and nothing else: whatever operators, marks or punctuation it
/// holds, the full-text query reads as those words, each a prefix.
pub proof fn lemma_search_means_its_words(query: Seq<char>)
    requires
        words(query).len() > 0,
    ensures
        fts_words(joined(fts_tokens(query), " "@)) == Some(words(query)),
{
    lemma_tokens_read_back(words(query));
}

/// The archive after a message was offered to it: one already kept is left as it was.
pub open spec fn after_insert(
    table: Map<int, NewMessage>,
    id: int,
    m: NewMessage,
) -> Map<int, NewMessage> {
    if table.contains_key(id) {
        table
    } else {
        table.insert(id, m)
    }
}

/// A scan finds the message kept under a number.
pub open spec fn finds(table: Map<int, NewMessage>, q: ScanQuery, id: int) -> bool {
    table.contains_key(id) && selected(q, id, table[id])
}

/// The numbers of the messages that a scan finds.
pub open spec fn found(table: Map<int, NewMessage>, q: ScanQuery) -> Set<int> {
    table.dom().filter(|id: int| finds(table, q, id))
}

/// A scan reads the newest of the messages it finds, in descending order, up to its limit.
pub proof fn lemma_a_scan_reads_the_newest(
    table: Map<int, NewMessage>,
    q: ScanQuery,
    s: Statement,
    rows: Seq<int>,
)
    requires
        table.dom().finite(),
        s.is(scan_sql(q), scan_params(q)),
        gives(s, found(table, q), rows),
    ensures
        are_the_newest(rows, found(table, q), q.limit as nat),
{
    let head = where_sql(q.channel_id@, clauses(q));
    let n = where_params(q.channel_id@, clauses(q)).len() + 1;
    assert(s.sql@ == head + SCAN_ORDER@ + placeholder(n));
    assert(asks_newest(s, q.limit as nat));
    lemma_the_newest_are_given(s, found(table, q), rows, q.limit as nat);
}

/// A search reads the newest of the messages its words match, in descending order, up to its
/// limit.
pub proof fn lemma_a_search_reads_the_newest(
    query: Seq<char>,
    limit: u8,
    s: Statement,
    matching: Set<int>,
    rows: Seq<int>,
)
    requires
        matching.finite(),
        s.is(
            search_sql(),
            seq![Bound::Text(joined(fts_tokens(query), " "@)), Bound::Integer(limit as int)],
        ),
        gives(s, matching, rows),
    ensures
        are_the_newest(rows, matching, limit as nat),
{
    assert(s.sql@ == SEARCH_HEAD@ + SEARCH_ORDER@);
    assert(asks_newest(s, limit as nat));
    lemma_the_newest_are_given(s, matching, rows, limit as nat);
}

/// The first copy of a message stays: offered again under its number, whatever it then says,
/// it changes nothing.
pub proof fn lemma_the_first_copy_stays(
    table: Map<int, NewMessage>,
    id: int,
    m: NewMessage,
    again: NewMessage,
)
    ensures
        after_insert(after_insert(table, id, m), id, again) == after_insert(table, id, m),
{
}

/// What was kept is found by every scan that asks for it, and by no other; what was kept
/// before is found as it was.
pub proof fn lemma_what_was_kept_is_found(
    table: Map<int, NewMessage>,
    id: int,
    m: NewMessage,
    q: ScanQuery,
    other: int,
)
    requires
        !table.contains_key(id),
        are_ids(texts(q.mention_ids@)),
        are_ids(texts(m.mention_ids@)),
    ensures
        finds(after_insert(table, id, m), q, id) <==> asked_for(q, id, m),
        other != id ==> finds(after_insert(table, id, m), q, other) == finds(table, q, other),
{
    lemma_scan_selects_what_was_asked(q, id, m);
}

/// The oldest message kept of a channel, whatever a scan asks for; none where none is kept.
pub open spec fn is_floor(table: Map<int, NewMessage>, channel: Seq<char>, floor: Option<int>) -> bool {
    match floor {
        None => forall|id: int| #[trigger] table.contains_key(id) ==> table[id].channel_id@ != channel,
        Some(lowest) => table.contains_key(lowest) && table[lowest].channel_id@ == channel && forall|
            id: int,
        | #[trigger]
            table.contains_key(id) && table[id].channel_id@ == channel ==> lowest <= id,
    }
}

/// Nothing is found below the floor, nor in a channel that has none.
pub proof fn lemma_nothing_is_found_below_the_floor(
    table: Map<int, NewMessage>,
    q: ScanQuery,
    floor: Option<int>,
    id: int,
)
    requires
        is_floor(table, q.channel_id@, floor),
        finds(table, q, id),
    ensures
        floor matches Some(lowest) && lowest <= id,
{
}

} // verus!
