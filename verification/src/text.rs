//! Text as sequences of characters: the handful of string operations the crow relies on,
//! each stated over `Seq<char>` and proved against that statement.

use vstd::prelude::*;

verus! {

/// `String::push` appends the given character to the end of the string.
pub assume_specification[ String::push ](s: &mut String, c: char)
    ensures
        final(s)@ == old(s)@.push(c),
;

/// The characters with the Unicode `White_Space` property.
pub open spec fn is_space(c: char) -> bool {
    let u = c as u32;
    ||| 0x09 <= u <= 0x0d
    ||| u == 0x20
    ||| u == 0x85
    ||| u == 0xa0
    ||| u == 0x1680
    ||| 0x2000 <= u <= 0x200a
    ||| u == 0x2028
    ||| u == 0x2029
    ||| u == 0x202f
    ||| u == 0x205f
    ||| u == 0x3000
}

/// Whether a character is white space.
pub fn is_space_char(c: char) -> (r: bool)
    ensures
        r == is_space(c),
{
    let u: u32 = c as u32;
    (0x09 <= u && u <= 0x0d) || u == 0x20 || u == 0x85 || u == 0xa0 || u == 0x1680 || (0x2000 <= u
        && u <= 0x200a) || u == 0x2028 || u == 0x2029 || u == 0x202f || u == 0x205f || u == 0x3000
}

/// `s` without its leading white space.
pub open spec fn trim_start(s: Seq<char>) -> Seq<char>
    decreases s.len(),
{
    if s.len() > 0 && is_space(s[0]) {
        trim_start(s.drop_first())
    } else {
        s
    }
}

/// `s` without its trailing white space.
pub open spec fn trim_end(s: Seq<char>) -> Seq<char>
    decreases s.len(),
{
    if s.len() > 0 && is_space(s.last()) {
        trim_end(s.drop_last())
    } else {
        s
    }
}

/// `s` without the white space at either end.
pub open spec fn trimmed(s: Seq<char>) -> Seq<char> {
    trim_end(trim_start(s))
}

/// Nothing but white space, or nothing at all.
pub open spec fn is_blank(s: Seq<char>) -> bool {
    trimmed(s).len() == 0
}

/// The views of a sequence of strings.
pub open spec fn texts(v: Seq<String>) -> Seq<Seq<char>> {
    v.map_values(|s: String| s@)
}

/// The view of an optional string.
pub open spec fn opt_text(v: Option<String>) -> Option<Seq<char>> {
    match v {
        Some(s) => Some(s@),
        None => None,
    }
}

/// The view of an optional string slice.
pub open spec fn opt_str(v: Option<&str>) -> Option<Seq<char>> {
    match v {
        Some(s) => Some(s@),
        None => None,
    }
}

/// The characters of a string, as a vector.
pub fn chars_of(s: &str) -> (v: Vec<char>)
    ensures
        v@ == s@,
{
    let mut v: Vec<char> = Vec::new();
    for c in it: s.chars()
        invariant
            it.seq() == s@,
            v@ == s@.take(it.index() as int),
    {
        v.push(c);
        assert(s@.take(it.index() as int + 1) =~= s@.take(it.index() as int).push(
            s@[it.index() as int],
        ));
    }
    assert(s@.take(s@.len() as int) =~= s@);
    v
}

/// A copy of an optional string.
pub fn clone_opt(v: &Option<String>) -> (r: Option<String>)
    ensures
        r == *v,
{
    match v {
        Some(s) => Some(s.clone()),
        None => None,
    }
}

/// A copy of a list of strings.
pub fn clone_texts(v: &Vec<String>) -> (r: Vec<String>)
    ensures
        r@ == v@,
{
    let mut r: Vec<String> = Vec::new();
    let mut i: usize = 0;
    while i < v.len()
        invariant
            i <= v@.len(),
            r@ == v@.take(i as int),
        decreases v@.len() - i,
    {
        r.push(v[i].clone());
        i = i + 1;
        assert(v@.take(i as int) =~= v@.take(i - 1).push(v@[i - 1]));
    }
    assert(v@.take(i as int) =~= v@);
    r
}

/// Adds a string to a list.
pub fn push_text(v: &mut Vec<String>, s: String)
    ensures
        texts(final(v)@) == texts(old(v)@).push(s@),
        final(v)@ == old(v)@.push(s),
{
    v.push(s);
    assert(texts(v@) =~= texts(old(v)@).push(s@));
}

/// The number of characters in a string.
pub fn length(s: &str) -> (r: usize)
    ensures
        r == s@.len(),
{
    chars_of(s).len()
}

/// The string made of `v[from..to]`.
pub fn string_of(v: &Vec<char>, from: usize, to: usize) -> (s: String)
    requires
        from <= to <= v@.len(),
    ensures
        s@ == v@.subrange(from as int, to as int),
{
    let mut s = String::new();
    let mut i: usize = from;
    while i < to
        invariant
            from <= i <= to <= v@.len(),
            s@ == v@.subrange(from as int, i as int),
        decreases to - i,
    {
        s.push(v[i]);
        i = i + 1;
        assert(v@.subrange(from as int, i as int) =~= v@.subrange(from as int, i - 1).push(
            v@[i - 1],
        ));
    }
    s
}

/// Whether two strings hold the same characters.
pub fn same(a: &str, b: &str) -> (r: bool)
    ensures
        r == (a@ == b@),
{
    let a = a.to_owned();
    let b = b.to_owned();
    a == b
}


proof fn lemma_trim_start_skip(s: Seq<char>, i: int)
    requires
        0 <= i <= s.len(),
        forall|j: int| 0 <= j < i ==> is_space(#[trigger] s[j]),
        i == s.len() || !is_space(s[i]),
    ensures
        trim_start(s) == s.skip(i),
    decreases i,
{
    if i == 0 {
        assert(s.skip(0) =~= s);
    } else {
        assert forall|j: int| 0 <= j < i - 1 implies is_space(#[trigger] s.drop_first()[j]) by {
            assert(is_space(s[j + 1]));
        }
        assert(is_space(s[0]));
        lemma_trim_start_skip(s.drop_first(), i - 1);
        assert(s.drop_first().skip(i - 1) =~= s.skip(i));
    }
}

proof fn lemma_trim_end_take(s: Seq<char>, n: int)
    requires
        0 <= n <= s.len(),
        forall|j: int| n <= j < s.len() ==> is_space(#[trigger] s[j]),
        n == 0 || !is_space(s[n - 1]),
    ensures
        trim_end(s) == s.take(n),
    decreases s.len() - n,
{
    if n == s.len() {
        assert(s.take(n) =~= s);
    } else {
        assert(is_space(s[s.len() - 1]));
        lemma_trim_end_take(s.drop_last(), n);
        assert(s.drop_last().take(n) =~= s.take(n));
    }
}

/// `s` without the white space at either end.
pub fn trim(s: &str) -> (r: String)
    ensures
        r@ == trimmed(s@),
{
    let v = chars_of(s);
    let mut i: usize = 0;
    while i < v.len() && is_space_char(v[i])
        invariant
            i <= v@.len(),
            forall|j: int| 0 <= j < i ==> is_space(#[trigger] v@[j]),
        decreases v@.len() - i,
    {
        i = i + 1;
    }
    let mut n: usize = v.len();
    while n > i && is_space_char(v[n - 1])
        invariant
            i <= n <= v@.len(),
            forall|j: int| n <= j < v@.len() ==> is_space(#[trigger] v@[j]),
        decreases n,
    {
        n = n - 1;
    }
    proof {
        lemma_trim_start_skip(s@, i as int);
        let t = s@.skip(i as int);
        assert forall|j: int| n - i <= j < t.len() implies is_space(#[trigger] t[j]) by {
            assert(is_space(v@[j + i]));
        }
        lemma_trim_end_take(t, n - i);
        assert(t.take(n - i) =~= v@.subrange(i as int, n as int));
    }
    string_of(&v, i, n)
}

proof fn lemma_trim_end_shape(s: Seq<char>)
    ensures
        trim_end(s).len() <= s.len(),
        trim_end(s) == s.take(trim_end(s).len() as int),
        trim_end(s).len() > 0 ==> !is_space(trim_end(s).last()),
        s.len() > 0 && !is_space(s[0]) ==> trim_end(s).len() > 0,
    decreases s.len(),
{
    if s.len() > 0 && is_space(s.last()) {
        lemma_trim_end_shape(s.drop_last());
        let n = trim_end(s).len() as int;
        assert(s.drop_last().take(n) =~= s.take(n));
    } else {
        assert(s.take(s.len() as int) =~= s);
    }
}

proof fn lemma_trim_start_within(s: Seq<char>)
    ensures
        exists|k: int| 0 <= k <= s.len() && trim_start(s) == #[trigger] s.skip(k),
    decreases s.len(),
{
    if s.len() > 0 && is_space(s[0]) {
        lemma_trim_start_within(s.drop_first());
        let k = choose|k: int|
            0 <= k <= s.drop_first().len() && trim_start(s.drop_first())
                == #[trigger] s.drop_first().skip(k);
        assert(s.drop_first().skip(k) =~= s.skip(k + 1));
    } else {
        assert(s.skip(0) =~= s);
    }
}

/// What is left after trimming stands in the text, in one piece.
pub proof fn lemma_trimmed_is_within(s: Seq<char>)
    ensures
        exists|k: int|
            0 <= k && k + trimmed(s).len() <= s.len() && #[trigger] s.subrange(
                k,
                k + trimmed(s).len(),
            ) == trimmed(s),
{
    lemma_trim_start_within(s);
    let k = choose|k: int| 0 <= k <= s.len() && trim_start(s) == #[trigger] s.skip(k);
    let t = trim_start(s);
    lemma_trim_end_shape(t);
    assert(s.subrange(k, k + trimmed(s).len()) =~= trimmed(s));
}

/// Trimming what is trimmed changes nothing.
pub proof fn lemma_trimmed_once(s: Seq<char>)
    ensures
        trimmed(trimmed(s)) == trimmed(s),
{
    let t = trim_start(s);
    let u = trim_end(t);
    lemma_trim_start_shorter(s);
    lemma_trim_end_shape(t);
    if u.len() > 0 {
        assert(u[0] == t[0]);
    }
    assert(trim_start(u) == u);
    assert(trim_end(u) == u);
}

/// Whether a string is empty once trimmed.
pub fn blank(s: &str) -> (r: bool)
    ensures
        r == is_blank(s@),
{
    let t = trim(s);
    t.as_str().is_empty()
}

/// The length of the leading run of `s` in which no character is white space.
pub open spec fn word_len(s: Seq<char>) -> nat
    decreases s.len(),
{
    if s.len() == 0 || is_space(s[0]) {
        0
    } else {
        1 + word_len(s.drop_first())
    }
}

proof fn lemma_word_len(s: Seq<char>, n: int)
    requires
        0 <= n <= s.len(),
        forall|j: int| 0 <= j < n ==> !is_space(#[trigger] s[j]),
        n == s.len() || is_space(s[n]),
    ensures
        word_len(s) == n,
    decreases n,
{
    if n > 0 {
        assert(!is_space(s[0]));
        assert forall|j: int| 0 <= j < n - 1 implies !is_space(#[trigger] s.drop_first()[j]) by {
            assert(!is_space(s[j + 1]));
        }
        lemma_word_len(s.drop_first(), n - 1);
    }
}

pub proof fn lemma_word_len_bounds(s: Seq<char>)
    ensures
        word_len(s) <= s.len(),
        forall|j: int| 0 <= j < word_len(s) ==> !is_space(#[trigger] s[j]),
        word_len(s) < s.len() ==> is_space(s[word_len(s) as int]),
    decreases s.len(),
{
    if s.len() == 0 || is_space(s[0]) {
    } else {
        let t = s.drop_first();
        lemma_word_len_bounds(t);
        assert forall|j: int| 0 <= j < word_len(s) implies !is_space(#[trigger] s[j]) by {
            if j > 0 {
                assert(!is_space(t[j - 1]));
            }
        }
    }
}

pub proof fn lemma_trim_start_shorter(s: Seq<char>)
    ensures
        trim_start(s).len() <= s.len(),
        trim_start(s).len() > 0 ==> !is_space(trim_start(s)[0]),
    decreases s.len(),
{
    if s.len() > 0 && is_space(s[0]) {
        lemma_trim_start_shorter(s.drop_first());
    }
}

/// The maximal runs of characters of `s` that hold no white space, in order.
pub open spec fn words(s: Seq<char>) -> Seq<Seq<char>>
    decreases s.len(),
    via words_decreases
{
    let t = trim_start(s);
    if t.len() == 0 {
        seq![]
    } else {
        seq![t.take(word_len(t) as int)] + words(t.skip(word_len(t) as int))
    }
}

#[via_fn]
proof fn words_decreases(s: Seq<char>) {
    let t = trim_start(s);
    lemma_trim_start_shorter(s);
    lemma_word_len_bounds(t);
}

/// Splits a string into its words.
pub fn split_words(s: &str) -> (r: Vec<String>)
    ensures
        texts(r@) == words(s@),
{
    let v = chars_of(s);
    let mut r: Vec<String> = Vec::new();
    let mut i: usize = 0;
    assert(s@.skip(0) =~= s@);
    assert(texts(r@) =~= seq![]);
    assert(texts(r@) + words(s@.skip(0)) =~= words(s@));
    while i < v.len()
        invariant
            i <= v@.len(),
            v@ == s@,
            texts(r@) + words(s@.skip(i as int)) == words(s@),
        decreases v@.len() - i,
    {
        let ghost rest = s@.skip(i as int);
        let start0: usize = i;
        while i < v.len() && is_space_char(v[i])
            invariant
                start0 <= i <= v@.len(),
                forall|j: int| start0 <= j < i ==> is_space(#[trigger] v@[j]),
            decreases v@.len() - i,
        {
            i = i + 1;
        }
        proof {
            assert forall|j: int| 0 <= j < i - start0 implies is_space(#[trigger] rest[j]) by {
                assert(is_space(v@[j + start0]));
            }
            lemma_trim_start_skip(rest, i - start0);
        }
        let ghost t = trim_start(rest);
        assert(t =~= s@.skip(i as int));
        if i == v.len() {
            assert(words(rest) =~= seq![]);
            assert(s@.skip(i as int) =~= seq![]);
            reveal_with_fuel(trim_start, 1);
            assert(words(s@.skip(i as int)) =~= seq![]);
        } else {
            let start: usize = i;
            while i < v.len() && !is_space_char(v[i])
                invariant
                    start <= i <= v@.len(),
                    forall|j: int| start <= j < i ==> !is_space(#[trigger] v@[j]),
                decreases v@.len() - i,
            {
                i = i + 1;
            }
            let word = string_of(&v, start, i);
            let ghost before = texts(r@);
            r.push(word);
            proof {
                assert forall|j: int| 0 <= j < i - start implies !is_space(#[trigger] t[j]) by {
                    assert(!is_space(v@[j + start]));
                }
                lemma_word_len(t, i - start);
                assert(t.take(i - start) =~= word@);
                assert(t.skip(i - start) =~= s@.skip(i as int));
                assert(texts(r@) =~= before.push(word@));
                assert(words(rest) == seq![word@] + words(s@.skip(i as int)));
                assert(texts(r@) + words(s@.skip(i as int)) =~= before + words(rest));
            }
        }
    }
    assert(s@.skip(i as int) =~= seq![]);
    assert(words(s@.skip(i as int)) =~= seq![]);
    assert(texts(r@) =~= words(s@));
    r
}

/// The parts in order, with `sep` between each two.
pub open spec fn joined(parts: Seq<Seq<char>>, sep: Seq<char>) -> Seq<char>
    decreases parts.len(),
{
    if parts.len() == 0 {
        seq![]
    } else if parts.len() == 1 {
        parts[0]
    } else {
        joined(parts.drop_last(), sep) + sep + parts.last()
    }
}

/// Joins the parts with `sep` between each two.
pub fn join(parts: &Vec<String>, sep: &str) -> (r: String)
    ensures
        r@ == joined(texts(parts@), sep@),
{
    let mut r = String::new();
    let ghost all = texts(parts@);
    let mut i: usize = 0;
    assert(all.take(0) =~= seq![]);
    while i < parts.len()
        invariant
            i <= parts@.len(),
            all == texts(parts@),
            r@ == joined(all.take(i as int), sep@),
        decreases parts@.len() - i,
    {
        if i > 0 {
            r.append(sep);
        }
        r.append(parts[i].as_str());
        i = i + 1;
        proof {
            let t = all.take(i as int);
            assert(t.drop_last() =~= all.take(i - 1));
            assert(t.last() == parts@[i - 1]@);
            if i == 1 {
                assert(r@ =~= t[0]);
            }
        }
    }
    assert(all.take(i as int) =~= all);
    r
}

/// `s` cut to `max` characters, three dots for the last of them where it was longer.
pub open spec fn shortened(s: Seq<char>, max: nat) -> Seq<char> {
    if s.len() > max {
        s.take(max - 3) + "..."@
    } else {
        s
    }
}

/// The words of `s` with one space between each two, cut to `max` characters.
pub open spec fn inlined(s: Seq<char>, max: nat) -> Seq<char> {
    shortened(joined(words(s), " "@), max)
}

/// Puts a text on one line of at most `max` characters.
pub fn one_line(s: &str, max: usize) -> (r: String)
    requires
        max >= 3,
    ensures
        r@ == inlined(s@, max as nat),
{
    let parts = split_words(s);
    let cleaned = join(&parts, " ");
    let v = chars_of(cleaned.as_str());
    if v.len() > max {
        let mut r = string_of(&v, 0, max - 3);
        r.append("...");
        assert(r@ =~= inlined(s@, max as nat));
        r
    } else {
        cleaned
    }
}

/// A line on one row never grows past its limit.
pub proof fn lemma_inlined_is_bounded(s: Seq<char>, max: nat)
    requires
        max >= 3,
    ensures
        inlined(s, max).len() <= max,
{
    reveal_strlit("...");
}

/// `s` with `f(c)` in the place of each character `c`.
pub open spec fn expand(s: Seq<char>, f: spec_fn(char) -> Seq<char>) -> Seq<char>
    decreases s.len(),
{
    if s.len() == 0 {
        seq![]
    } else {
        expand(s.drop_last(), f) + f(s.last())
    }
}

/// The index of the first `c` in `s`, or the length of `s` where there is none.
pub open spec fn find(s: Seq<char>, c: char) -> nat
    decreases s.len(),
{
    if s.len() == 0 || s[0] == c {
        0
    } else {
        1 + find(s.drop_first(), c)
    }
}

pub proof fn lemma_find(s: Seq<char>, c: char, n: int)
    requires
        0 <= n <= s.len(),
        forall|j: int| 0 <= j < n ==> #[trigger] s[j] != c,
        n == s.len() || s[n] == c,
    ensures
        find(s, c) == n,
    decreases n,
{
    if n > 0 {
        assert(s[0] != c);
        assert forall|j: int| 0 <= j < n - 1 implies #[trigger] s.drop_first()[j] != c by {
            assert(s[j + 1] != c);
        }
        lemma_find(s.drop_first(), c, n - 1);
    }
}

pub proof fn lemma_find_bounds(s: Seq<char>, c: char)
    ensures
        find(s, c) <= s.len(),
        forall|j: int| 0 <= j < find(s, c) ==> #[trigger] s[j] != c,
        find(s, c) < s.len() ==> s[find(s, c) as int] == c,
        find(s, c) == s.len() <==> !s.contains(c),
    decreases s.len(),
{
    if s.len() == 0 {
    } else if s[0] == c {
        assert(s.contains(c));
    } else {
        let t = s.drop_first();
        lemma_find_bounds(t, c);
        assert forall|j: int| 0 <= j < find(s, c) implies #[trigger] s[j] != c by {
            if j > 0 {
                assert(t[j - 1] != c);
            }
        }
        if t.contains(c) {
            let k = choose|k: int| 0 <= k < t.len() && t[k] == c;
            assert(s[k + 1] == c);
        }
        if s.contains(c) {
            let k = choose|k: int| 0 <= k < s.len() && s[k] == c;
            assert(t[k - 1] == c);
        }
    }
}

/// The index of the first `c` at or after `from`, or the length where there is none.
pub fn find_from(v: &Vec<char>, from: usize, c: char) -> (r: usize)
    requires
        from <= v@.len(),
    ensures
        from <= r <= v@.len(),
        r == from + find(v@.skip(from as int), c),
        r < v@.len() ==> v@[r as int] == c,
        forall|j: int| from <= j < r ==> #[trigger] v@[j] != c,
{
    let mut i: usize = from;
    while i < v.len() && v[i] != c
        invariant
            from <= i <= v@.len(),
            forall|j: int| from <= j < i ==> #[trigger] v@[j] != c,
        decreases v@.len() - i,
    {
        i = i + 1;
    }
    proof {
        let t = v@.skip(from as int);
        assert forall|j: int| 0 <= j < i - from implies #[trigger] t[j] != c by {
            assert(v@[j + from] != c);
        }
        lemma_find(t, c, i - from);
    }
    i
}

/// The pieces of `s` between the occurrences of `c`; one more than there are occurrences.
pub open spec fn split_at_char(s: Seq<char>, c: char) -> Seq<Seq<char>>
    decreases s.len(),
    via split_decreases
{
    let n = find(s, c) as int;
    if n >= s.len() {
        seq![s]
    } else {
        seq![s.take(n)] + split_at_char(s.skip(n + 1), c)
    }
}

#[via_fn]
proof fn split_decreases(s: Seq<char>, c: char) {
    lemma_find_bounds(s, c);
}

/// Splits a string at every `c`.
pub fn split(s: &str, c: char) -> (r: Vec<String>)
    ensures
        texts(r@) == split_at_char(s@, c),
{
    let v = chars_of(s);
    let mut r: Vec<String> = Vec::new();
    let mut from: usize = 0;
    assert(s@.skip(0) =~= s@);
    assert(texts(r@) + split_at_char(s@.skip(0), c) =~= split_at_char(s@, c));
    loop
        invariant_except_break
            texts(r@) + split_at_char(s@.skip(from as int), c) == split_at_char(s@, c),
        invariant
            from <= v@.len(),
            v@ == s@,
        ensures
            texts(r@) == split_at_char(s@, c),
        decreases v@.len() - from,
    {
        let n = find_from(&v, from, c);
        let ghost rest = s@.skip(from as int);
        let ghost before = texts(r@);
        let piece = string_of(&v, from, n);
        r.push(piece);
        assert(texts(r@) =~= before.push(piece@));
        if n == v.len() {
            assert(piece@ =~= rest);
            assert(split_at_char(rest, c) =~= seq![rest]);
            assert(texts(r@) =~= before + split_at_char(rest, c));
            break;
        }
        proof {
            assert(rest.take(n - from) =~= piece@);
            assert(rest.skip(n - from + 1) =~= s@.skip(n + 1));
            assert(split_at_char(rest, c) == seq![piece@] + split_at_char(s@.skip(n + 1), c));
            assert(texts(r@) + split_at_char(s@.skip(n + 1), c) =~= before + split_at_char(rest, c));
        }
        from = n + 1;
    }
    r
}

/// A line without the carriage return that may precede its line feed.
pub open spec fn without_cr(s: Seq<char>) -> Seq<char> {
    if s.len() > 0 && s.last() == '\r' {
        s.drop_last()
    } else {
        s
    }
}

/// The lines of `s`: what stands before each line feed, a carriage return in front of the
/// feed left out, and then what follows the last feed, if anything does.
pub open spec fn lines_of(s: Seq<char>) -> Seq<Seq<char>>
    decreases s.len(),
    via lines_decreases
{
    let n = find(s, '\n') as int;
    if s.len() == 0 {
        seq![]
    } else if n >= s.len() {
        seq![s]
    } else {
        seq![without_cr(s.take(n))] + lines_of(s.skip(n + 1))
    }
}

#[via_fn]
proof fn lines_decreases(s: Seq<char>) {
    lemma_find_bounds(s, '\n');
}

/// Splits a string into its lines.
pub fn lines(s: &str) -> (r: Vec<String>)
    ensures
        texts(r@) == lines_of(s@),
{
    let v = chars_of(s);
    let mut r: Vec<String> = Vec::new();
    let mut from: usize = 0;
    assert(s@.skip(0) =~= s@);
    assert(texts(r@) + lines_of(s@.skip(0)) =~= lines_of(s@));
    while from < v.len()
        invariant
            from <= v@.len(),
            v@ == s@,
            texts(r@) + lines_of(s@.skip(from as int)) == lines_of(s@),
        decreases v@.len() - from,
    {
        let n = find_from(&v, from, '\n');
        let ghost rest = s@.skip(from as int);
        let ghost before = texts(r@);
        if n == v.len() {
            let piece = string_of(&v, from, n);
            r.push(piece);
            from = n;
            assert(piece@ =~= rest);
            assert(texts(r@) =~= before.push(piece@));
            assert(lines_of(rest) =~= seq![rest]);
            assert(s@.skip(from as int) =~= seq![]);
            assert(texts(r@) + lines_of(s@.skip(from as int)) =~= before + lines_of(rest));
        } else {
            let end: usize = if n > from && v[n - 1] == '\r' {
                n - 1
            } else {
                n
            };
            let piece = string_of(&v, from, end);
            r.push(piece);
            proof {
                let t = rest.take(n - from);
                if n > from {
                    assert(t.last() == v@[n - 1]);
                }
                assert(piece@ =~= without_cr(t));
                assert(texts(r@) =~= before.push(piece@));
                assert(rest.skip(n - from + 1) =~= s@.skip(n + 1));
                assert(texts(r@) + lines_of(s@.skip(n + 1)) =~= before + lines_of(rest));
            }
            from = n + 1;
        }
    }
    assert(s@.skip(from as int) =~= seq![]);
    assert(lines_of(s@.skip(from as int)) =~= seq![]);
    assert(texts(r@) =~= lines_of(s@));
    r
}

/// `pat` stands in `s` at index `i`.
pub open spec fn occurs_at(s: Seq<char>, pat: Seq<char>, i: int) -> bool {
    0 <= i && i + pat.len() <= s.len() && s.subrange(i, i + pat.len()) == pat
}

/// `pat` stands somewhere in `s`.
pub open spec fn has_text(s: Seq<char>, pat: Seq<char>) -> bool {
    exists|i: int| #[trigger] occurs_at(s, pat, i)
}

fn matches_at(v: &Vec<char>, p: &Vec<char>, i: usize) -> (r: bool)
    requires
        i + p@.len() <= v@.len(),
    ensures
        r == occurs_at(v@, p@, i as int),
{
    let mut k: usize = 0;
    while k < p.len()
        invariant
            k <= p@.len(),
            i + p@.len() <= v.len(),
            forall|j: int| 0 <= j < k ==> v@[i + j] == #[trigger] p@[j],
        decreases p@.len() - k,
    {
        if v[i + k] != p[k] {
            assert(v@.subrange(i as int, i + p@.len())[k as int] != p@[k as int]);
            return false;
        }
        k = k + 1;
    }
    assert(v@.subrange(i as int, i + p@.len()) =~= p@);
    true
}

/// Whether `pat` stands somewhere in `s`.
pub fn contains(s: &str, pat: &str) -> (r: bool)
    ensures
        r == has_text(s@, pat@),
{
    let v = chars_of(s);
    let p = chars_of(pat);
    if p.len() > v.len() {
        return false;
    }
    let last: usize = v.len() - p.len();
    let mut i: usize = 0;
    while i <= last
        invariant
            i <= last + 1,
            last + p@.len() == v@.len(),
            v@ == s@,
            p@ == pat@,
            forall|j: int| 0 <= j < i ==> !occurs_at(s@, pat@, j),
        decreases last + 1 - i,
    {
        if matches_at(&v, &p, i) {
            return true;
        }
        if i == last {
            assert(forall|j: int| occurs_at(s@, pat@, j) ==> j <= last);
            return false;
        }
        i = i + 1;
    }
    false
}

/// `pat` is how `s` begins.
pub open spec fn begins_with(s: Seq<char>, pat: Seq<char>) -> bool {
    pat.len() <= s.len() && s.take(pat.len() as int) == pat
}

/// What follows `pat` in `s`, where `s` begins with it.
pub open spec fn after_prefix(s: Seq<char>, pat: Seq<char>) -> Option<Seq<char>> {
    if begins_with(s, pat) {
        Some(s.skip(pat.len() as int))
    } else {
        None
    }
}

/// What follows `pat` in `s`, where `s` begins with it.
pub fn strip_prefix(s: &str, pat: &str) -> (r: Option<String>)
    ensures
        opt_text(r) == after_prefix(s@, pat@),
{
    let v = chars_of(s);
    let p = chars_of(pat);
    if p.len() > v.len() {
        return None;
    }
    let hit = matches_at(&v, &p, 0);
    assert(s@.take(pat@.len() as int) =~= s@.subrange(0, pat@.len() as int));
    if hit {
        assert(s@.skip(pat@.len() as int) =~= s@.subrange(pat@.len() as int, s@.len() as int));
        Some(string_of(&v, p.len(), v.len()))
    } else {
        None
    }
}

/// Whether `s` begins with `pat`.
pub fn starts_with(s: &str, pat: &str) -> (r: bool)
    ensures
        r == begins_with(s@, pat@),
{
    strip_prefix(s, pat).is_some()
}

/// A character with the ASCII capitals made small.
pub open spec fn ascii_lower(c: char) -> char {
    if 'A' <= c && c <= 'Z' {
        ((c as u8) + 32) as u8 as char
    } else {
        c
    }
}

/// `s` with the ASCII capitals made small.
pub open spec fn ascii_lowered(s: Seq<char>) -> Seq<char> {
    s.map_values(|c: char| ascii_lower(c))
}

fn lower_char(c: char) -> (r: char)
    ensures
        r == ascii_lower(c),
{
    if 'A' <= c && c <= 'Z' {
        let u: u8 = c as u8;
        let l: u8 = u + 32;
        l as char
    } else {
        c
    }
}

/// Whether two strings are the same but for the case of ASCII letters.
pub fn same_ignoring_case(a: &str, b: &str) -> (r: bool)
    ensures
        r == (ascii_lowered(a@) == ascii_lowered(b@)),
{
    let v = chars_of(a);
    let w = chars_of(b);
    if v.len() != w.len() {
        assert(ascii_lowered(a@).len() != ascii_lowered(b@).len());
        return false;
    }
    let mut i: usize = 0;
    while i < v.len()
        invariant
            i <= v@.len(),
            v@.len() == w@.len(),
            v@ == a@,
            w@ == b@,
            forall|j: int| 0 <= j < i ==> ascii_lower(#[trigger] a@[j]) == ascii_lower(b@[j]),
        decreases v@.len() - i,
    {
        if lower_char(v[i]) != lower_char(w[i]) {
            assert(ascii_lowered(a@)[i as int] != ascii_lowered(b@)[i as int]);
            return false;
        }
        i = i + 1;
    }
    assert(ascii_lowered(a@) =~= ascii_lowered(b@));
    true
}

/// The number of bytes that encode a character in UTF-8.
pub open spec fn utf8_width(c: char) -> nat {
    let u = c as u32;
    if u < 0x80 {
        1
    } else if u < 0x800 {
        2
    } else if u < 0x10000 {
        3
    } else {
        4
    }
}

/// The number of bytes that encode `s` in UTF-8.
pub open spec fn utf8_len(s: Seq<char>) -> nat
    decreases s.len(),
{
    if s.len() == 0 {
        0
    } else {
        utf8_len(s.drop_last()) + utf8_width(s.last())
    }
}

/// The number of bytes that encode a character in UTF-8.
pub fn char_width(c: char) -> (r: usize)
    ensures
        r == utf8_width(c),
{
    let u: u32 = c as u32;
    if u < 0x80 {
        1
    } else if u < 0x800 {
        2
    } else if u < 0x10000 {
        3
    } else {
        4
    }
}

proof fn lemma_utf8_len_grows(s: Seq<char>, n: int)
    requires
        0 <= n <= s.len(),
    ensures
        utf8_len(s.take(n)) <= utf8_len(s),
    decreases s.len() - n,
{
    if n < s.len() {
        assert(s.take(n + 1).drop_last() =~= s.take(n));
        lemma_utf8_len_grows(s, n + 1);
    } else {
        assert(s.take(n) =~= s);
    }
}

/// The number of bytes that encode a string in UTF-8, up to a hundred of them.
pub fn byte_length(s: &str) -> (r: Option<usize>)
    ensures
        r == if utf8_len(s@) <= 100 {
            Some(utf8_len(s@) as usize)
        } else {
            None
        },
{
    let v = chars_of(s);
    let mut n: usize = 0;
    let mut i: usize = 0;
    assert(s@.take(0) =~= seq![]);
    while i < v.len()
        invariant
            i <= v@.len(),
            v@ == s@,
            n <= 100,
            n == utf8_len(s@.take(i as int)),
        decreases v@.len() - i,
    {
        n = n + char_width(v[i]);
        i = i + 1;
        proof {
            assert(s@.take(i as int).drop_last() =~= s@.take(i - 1));
            assert(s@.take(i as int).last() == s@[i - 1]);
        }
        if n > 100 {
            proof {
                lemma_utf8_len_grows(s@, i as int);
            }
            return None;
        }
    }
    assert(s@.take(i as int) =~= s@);
    Some(n)
}

/// Whether some string of the vector holds the characters of `s`.
pub fn contains_text(v: &Vec<String>, s: &str) -> (r: bool)
    ensures
        r == texts(v@).contains(s@),
{
    let mut i: usize = 0;
    while i < v.len()
        invariant
            i <= v@.len(),
            forall|j: int| 0 <= j < i ==> texts(v@)[j] != s@,
        decreases v@.len() - i,
    {
        if same(v[i].as_str(), s) {
            assert(texts(v@)[i as int] == s@);
            return true;
        }
        i = i + 1;
    }
    false
}

/// A digit's character, in base sixteen or less.
pub open spec fn digit(n: nat) -> char {
    if n < 10 {
        ((n + 48) as u8) as char
    } else {
        ((n + 87) as u8) as char
    }
}

pub fn digit_char(n: u8) -> (c: char)
    requires
        n < 16,
    ensures
        c == digit(n as nat),
{
    let u: u8 = if n < 10 {
        n + 48
    } else {
        n + 87
    };
    u as char
}

/// A number in decimal, without leading zeros.
pub open spec fn decimal(n: nat) -> Seq<char>
    decreases n,
{
    if n < 10 {
        seq![digit(n)]
    } else {
        decimal(n / 10).push(digit(n % 10))
    }
}

/// A number in decimal, with a minus sign where it is negative.
pub open spec fn signed_decimal(n: int) -> Seq<char> {
    if n < 0 {
        "-"@ + decimal((-n) as nat)
    } else {
        decimal(n as nat)
    }
}

/// Appends a number in decimal.
pub fn push_number(s: &mut String, n: u64)
    ensures
        final(s)@ == old(s)@ + decimal(n as nat),
    decreases n,
{
    if n < 10 {
        s.push(digit_char(n as u8));
        assert(old(s)@.push(digit(n as nat)) =~= old(s)@ + decimal(n as nat));
    } else {
        push_number(s, n / 10);
        let ghost mid = s@;
        s.push(digit_char((n % 10) as u8));
        assert(mid.push(digit((n % 10) as nat)) =~= old(s)@ + decimal(n as nat));
    }
}

/// A number in decimal.
pub fn number(n: u64) -> (r: String)
    ensures
        r@ == decimal(n as nat),
{
    let mut s = String::new();
    push_number(&mut s, n);
    assert(s@ =~= decimal(n as nat));
    s
}

/// A signed number in decimal.
pub fn signed_number(n: i64) -> (r: String)
    ensures
        r@ == signed_decimal(n as int),
{
    if n < 0 {
        let mut s = "-".to_owned();
        let m: u64 = if n == i64::MIN {
            0x8000_0000_0000_0000
        } else {
            (-n) as u64
        };
        push_number(&mut s, m);
        s
    } else {
        number(n as u64)
    }
}

/// `a` comes before `b`: at the first character in which they differ it has the smaller one,
/// or it is how `b` begins and shorter.
pub open spec fn precedes(a: Seq<char>, b: Seq<char>) -> bool
    decreases a.len(),
{
    if b.len() == 0 {
        false
    } else if a.len() == 0 {
        true
    } else if a[0] == b[0] {
        precedes(a.drop_first(), b.drop_first())
    } else {
        a[0] < b[0]
    }
}

/// Of two texts whose fronts are equally long, the fronts decide which comes first, unless they
/// are the same.
pub proof fn lemma_fronts_decide(x: Seq<char>, y: Seq<char>, a: Seq<char>, b: Seq<char>)
    requires
        x.len() == y.len(),
    ensures
        precedes(x + a, y + b) == if x == y {
            precedes(a, b)
        } else {
            precedes(x, y)
        },
    decreases x.len(),
{
    if x.len() == 0 {
        assert(x + a =~= a);
        assert(y + b =~= b);
        assert(x =~= y);
    } else {
        lemma_fronts_decide(x.drop_first(), y.drop_first(), a, b);
        assert((x + a).drop_first() =~= x.drop_first() + a);
        assert((y + b).drop_first() =~= y.drop_first() + b);
        assert(x =~= seq![x[0]] + x.drop_first());
        assert(y =~= seq![y[0]] + y.drop_first());
    }
}

/// Whether `a` comes before `b`.
pub fn comes_before(a: &str, b: &str) -> (r: bool)
    ensures
        r == precedes(a@, b@),
{
    let v = chars_of(a);
    let w = chars_of(b);
    let mut i: usize = 0;
    assert(a@.skip(0) =~= a@);
    assert(b@.skip(0) =~= b@);
    while i < v.len() && i < w.len() && v[i] == w[i]
        invariant
            i <= v@.len(),
            i <= w@.len(),
            v@ == a@,
            w@ == b@,
            precedes(a@, b@) == precedes(a@.skip(i as int), b@.skip(i as int)),
        decreases v@.len() - i,
    {
        assert(a@.skip(i as int).drop_first() =~= a@.skip(i + 1));
        assert(b@.skip(i as int).drop_first() =~= b@.skip(i + 1));
        i = i + 1;
    }
    if i == w.len() {
        false
    } else if i == v.len() {
        true
    } else {
        v[i] < w[i]
    }
}

/// Of two different texts one comes before the other, and not both.
pub proof fn lemma_precedes_total(a: Seq<char>, b: Seq<char>)
    ensures
        a == b ==> !precedes(a, b),
        a != b ==> precedes(a, b) != precedes(b, a),
    decreases a.len(),
{
    if a.len() > 0 && b.len() > 0 && a[0] == b[0] {
        lemma_precedes_total(a.drop_first(), b.drop_first());
        assert(a =~= seq![a[0]] + a.drop_first());
        assert(b =~= seq![b[0]] + b.drop_first());
    } else if a.len() == 0 && b.len() == 0 {
        assert(a =~= b);
    }
}

/// What comes before something comes before whatever comes after that.
pub proof fn lemma_precedes_transitive(a: Seq<char>, b: Seq<char>, c: Seq<char>)
    requires
        precedes(a, b),
        precedes(b, c),
    ensures
        precedes(a, c),
    decreases a.len(),
{
    if a.len() > 0 && b.len() > 0 && c.len() > 0 {
        if a[0] == b[0] && b[0] == c[0] {
            lemma_precedes_transitive(a.drop_first(), b.drop_first(), c.drop_first());
        }
    }
}

/// A text in small letters, as the standard library turns it.
pub uninterp spec fn lowercased(s: Seq<char>) -> Seq<char>;

/// A text in capitals, as the standard library turns it.
pub uninterp spec fn uppercased(s: Seq<char>) -> Seq<char>;

/// Calls `str::to_lowercase`, which maps by Unicode's tables. They are left to the name.
#[verifier::external_body]
pub(crate) fn lower(s: &str) -> (r: String)
    ensures
        r@ == lowercased(s@),
{
    s.to_lowercase()
}

/// Calls `str::to_uppercase`, which maps by Unicode's tables. They are left to the name.
#[verifier::external_body]
pub(crate) fn upper(s: &str) -> (r: String)
    ensures
        r@ == uppercased(s@),
{
    s.to_uppercase()
}

/// The texts in small letters, without the white space around them; those that are empty
/// then are left out.
pub open spec fn normalized_words(v: Seq<Seq<char>>) -> Seq<Seq<char>>
    decreases v.len(),
{
    if v.len() == 0 {
        seq![]
    } else {
        let w = lowercased(trimmed(v.last()));
        if w.len() == 0 {
            normalized_words(v.drop_last())
        } else {
            normalized_words(v.drop_last()).push(w)
        }
    }
}

/// Puts words into small letters, without the white space around them, and drops the empty
/// ones.
pub fn normalize_words(v: &Vec<String>) -> (r: Vec<String>)
    ensures
        texts(r@) == normalized_words(texts(v@)),
{
    let ghost all = texts(v@);
    let mut r: Vec<String> = Vec::new();
    let mut i: usize = 0;
    assert(all.take(0) =~= seq![]);
    assert(texts(r@) =~= seq![]);
    while i < v.len()
        invariant
            i <= v@.len(),
            all == texts(v@),
            texts(r@) == normalized_words(all.take(i as int)),
        decreases v@.len() - i,
    {
        let w = lower(trim(v[i].as_str()).as_str());
        if !w.as_str().is_empty() {
            push_text(&mut r, w);
        }
        i = i + 1;
        proof {
            assert(all.take(i as int).drop_last() =~= all.take(i - 1));
            assert(all.take(i as int).last() == v@[i - 1]@);
        }
    }
    assert(all.take(i as int) =~= all);
    r
}

} // verus!
