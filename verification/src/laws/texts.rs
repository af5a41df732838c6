//! Words, lines and numbers, as they stand in texts.

use vstd::prelude::*;

use crate::clock::{created_at, house_time, normalized, rfc3339_instant, rfc3339_text};
use crate::numeral::{
    all_digits, colour, colour_text, digits_value, hex, hexadecimal, is_digit, parse_u64, parsed_u64, zero_padded,
};
use crate::text::{
    ascii_lower, digit, find, is_space, joined, lemma_find, lemma_trim_start_shorter, lemma_word_len_bounds, lines,
    lines_of, one_line, same_ignoring_case, split_words, texts, trim_start, utf8_len, word_len, words,
};

verus! {

/// A text is one word: something, and no white space in it.
pub open spec fn is_word(w: Seq<char>) -> bool {
    w.len() > 0 && forall|i: int| 0 <= i < w.len() ==> !is_space(#[trigger] w[i])
}

proof fn lemma_word_len_of(s: Seq<char>, n: int)
    requires
        0 <= n <= s.len(),
        forall|j: int| 0 <= j < n ==> !is_space(#[trigger] s[j]),
        n == s.len() || is_space(s[n]),
    ensures
        word_len(s) == n,
{
    lemma_word_len_bounds(s);
    let m = word_len(s) as int;
    if m < n {
        assert(is_space(s[m]));
    }
    if n < m {
        assert(!is_space(s[n]));
    }
}

proof fn lemma_trim_start_of_two(a: Seq<char>, c: char, b: Seq<char>)
    requires
        is_space(c),
    ensures
        trim_start(a).len() == 0 ==> trim_start(a.push(c) + b) == trim_start(b),
        trim_start(a).len() > 0 ==> trim_start(a.push(c) + b) == trim_start(a).push(c) + b,
    decreases a.len(),
{
    let s = a.push(c) + b;
    if a.len() == 0 {
        assert(s[0] == c);
        assert(s.drop_first() =~= b);
    } else if is_space(a[0]) {
        lemma_trim_start_of_two(a.drop_first(), c, b);
        assert(s[0] == a[0]);
        assert(s.drop_first() =~= a.drop_first().push(c) + b);
    } else {
        assert(s[0] == a[0]);
    }
}

/// What stands on either side of white space are words of their own.
pub proof fn lemma_words_of_two(a: Seq<char>, c: char, b: Seq<char>)
    requires
        is_space(c),
    ensures
        words(a.push(c) + b) == words(a) + words(b),
    decreases a.len(),
{
    let s = a.push(c) + b;
    let t = trim_start(a);
    lemma_trim_start_of_two(a, c, b);
    lemma_trim_start_shorter(a);
    if t.len() == 0 {
        assert(words(a) =~= Seq::empty());
        reveal_with_fuel(words, 2);
        assert(words(s) =~= words(b));
        assert(words(a) + words(b) =~= words(b));
    } else {
        let n = word_len(t) as int;
        let u = t.push(c) + b;
        lemma_word_len_bounds(t);
        assert forall|j: int| 0 <= j < n implies !is_space(#[trigger] u[j]) by {
            assert(u[j] == t[j]);
        }
        assert(u[n] == if n < t.len() {
            t[n]
        } else {
            c
        });
        lemma_word_len_of(u, n);
        assert(u.take(n) =~= t.take(n));
        assert(u.skip(n) =~= t.skip(n).push(c) + b);
        lemma_words_of_two(t.skip(n), c, b);
        assert(words(s) =~= seq![t.take(n)] + words(u.skip(n)));
        assert(words(a) =~= seq![t.take(n)] + words(t.skip(n)));
        assert(words(s) =~= words(a) + words(b));
    }
}

/// A word alone is one word, and nothing is none.
pub proof fn lemma_a_word_is_one(w: Seq<char>)
    ensures
        is_word(w) ==> words(w) == seq![w],
        w.len() == 0 ==> words(w).len() == 0,
{
    if is_word(w) {
        assert(!is_space(w[0]));
        let n = w.len() as int;
        lemma_word_len_of(w, n);
        reveal_with_fuel(words, 2);
        assert(w.take(n) =~= w);
        assert(w.skip(n) =~= Seq::empty());
        assert(words(w.skip(n)) =~= Seq::empty());
        assert(words(w) =~= seq![w]);
    }
}

/// Words and white space: splitting gives the words on the left of any white space and then
/// those on its right.
pub proof fn lemma_every_word_is_split_off(
    s: &str,
    a: &str,
    c: char,
    b: &str,
    whole: Vec<String>,
    left: Vec<String>,
    right: Vec<String>,
)
    requires
        s@ == a@.push(c) + b@,
        is_space(c),
        call_ensures(split_words, (s,), whole),
        call_ensures(split_words, (a,), left),
        call_ensures(split_words, (b,), right),
    ensures
        texts(whole@) == texts(left@) + texts(right@),
        is_word(a@) ==> texts(left@) == seq![a@],
        a@.len() == 0 ==> left@.len() == 0,
{
    lemma_words_of_two(a@, c, b@);
    lemma_a_word_is_one(a@);
    assert(texts(left@).len() == left@.len());
}

/// A text on one line is its words with one space between each two; where that is too long it is
/// cut to the limit, and the last three characters are dots.
pub proof fn lemma_one_line_is_the_words(s: &str, max: usize, v: Vec<String>, r: String)
    requires
        max >= 3,
        call_ensures(one_line, (s, max), r),
        call_ensures(split_words, (s,), v),
    ensures
        ({
            let whole = joined(texts(v@), seq![' ']);
            &&& whole.len() <= max ==> r@ == whole
            &&& whole.len() > max ==> r@.len() == max && r@.take(max - 3) == whole.take(max - 3) && r@.skip(max - 3)
                == seq!['.', '.', '.']
        }),
{
    reveal_strlit(" ");
    reveal_strlit("...");
    assert(" "@ =~= seq![' ']);
    assert("..."@ =~= seq!['.', '.', '.']);
    let whole = joined(texts(v@), seq![' ']);
    if whole.len() > max {
        assert(r@.take(max - 3) =~= whole.take(max - 3));
        assert(r@.skip(max - 3) =~= seq!['.', '.', '.']);
    }
}

/// The lines of a text: what stands before a line feed is one, and the rest has its own; what
/// follows the last feed is one too, if there is anything.
pub proof fn lemma_every_line_is_there(s: &str, a: Seq<char>, rest: &str, whole: Vec<String>, others: Vec<String>)
    requires
        !a.contains('\n'),
        s@ == a.push('\n') + rest@,
        call_ensures(lines, (s,), whole),
        call_ensures(lines, (rest,), others),
    ensures
        whole@.len() == 1 + others@.len(),
        texts(whole@).drop_first() == texts(others@),
        a.len() == 0 || a.last() != '\r' ==> whole@[0]@ == a,
        a.len() > 0 && a.last() == '\r' ==> whole@[0]@ == a.drop_last(),
        !rest@.contains('\n') && rest@.len() > 0 ==> texts(others@) == seq![rest@],
        rest@.len() == 0 ==> others@.len() == 0,
{
    let n = a.len() as int;
    assert forall|j: int| 0 <= j < n implies #[trigger] s@[j] != '\n' by {
        assert(a[j] == s@[j]);
        assert(a.contains(a[j]));
    }
    lemma_find(s@, '\n', n);
    assert(s@.take(n) =~= a);
    assert(s@.skip(n + 1) =~= rest@);
    assert(texts(whole@).len() == whole@.len());
    assert(texts(others@).len() == others@.len());
    assert(texts(whole@)[0] == whole@[0]@);
    assert(texts(whole@).drop_first() =~= texts(others@));
    if !rest@.contains('\n') {
        assert forall|j: int| 0 <= j < rest@.len() implies #[trigger] rest@[j] != '\n' by {
            assert(rest@.contains(rest@[j]));
        }
        lemma_find(rest@, '\n', rest@.len() as int);
    }
}

/// What a decimal digit stands for, if a character is one.
pub open spec fn stands_for(c: char) -> Option<int> {
    if '0' <= c <= '9' {
        Some(c as int - '0' as int)
    } else {
        None
    }
}

/// A number is read digit by digit: a digit more makes it ten times as much and that digit, as
/// long as it fits, and anything else makes it none.
pub proof fn lemma_a_number_is_read_digit_by_digit(
    s: &str,
    c: char,
    longer: &str,
    r: Option<u64>,
    more: Option<u64>,
)
    requires
        s@.len() > 0,
        longer@ == s@.push(c),
        call_ensures(parse_u64, (s,), r),
        call_ensures(parse_u64, (longer,), more),
    ensures
        stands_for(c) is None ==> more is None,
        r matches Some(n) ==> (stands_for(c) matches Some(d) ==> {
            &&& 10 * n + d <= u64::MAX ==> more == Some((10 * n + d) as u64)
            &&& 10 * n + d > u64::MAX ==> more is None
        }),
        more matches Some(m) ==> (stands_for(c) matches Some(d) && (r == Some((m / 10) as u64) || s@ == seq!['+'])
            && m % 10 == d),
{
    let t = longer@;
    assert(t.drop_last() =~= s@);
    assert(t[0] == s@[0]);
    if s@[0] == '+' {
        let p = s@.drop_first();
        let q = t.drop_first();
        assert(q =~= p.push(c));
        lemma_digit_more(p, c, q);
        if p.len() == 0 {
            assert(s@ =~= seq!['+']);
            assert(digits_value(p) == 0);
        }
    } else {
        lemma_digit_more(s@, c, t);
    }
}

proof fn lemma_digit_more(p: Seq<char>, c: char, q: Seq<char>)
    requires
        q == p.push(c),
    ensures
        all_digits(q) <==> all_digits(p) && is_digit(c),
        digits_value(q) == digits_value(p) * 10 + (c as nat - 48) as nat,
{
    assert(q.drop_last() =~= p);
    assert(q.last() == c);
    if all_digits(q) {
        assert forall|i: int| 0 <= i < p.len() implies is_digit(#[trigger] p[i]) by {
            assert(q[i] == p[i]);
        }
        assert(is_digit(q[p.len() as int]));
    }
}

/// One character is a number where it is a digit, and nothing is none; nor is a plus sign.
pub proof fn lemma_a_digit_is_a_number(s: &str, r: Option<u64>)
    requires
        s@.len() <= 1,
        call_ensures(parse_u64, (s,), r),
    ensures
        r is Some <==> s@.len() == 1 && stands_for(s@[0]) is Some,
        r matches Some(n) ==> stands_for(s@[0]) == Some(n as int),
{
    reveal_with_fuel(digits_value, 2);
    if s@.len() == 1 {
        assert(s@.drop_last() =~= Seq::empty());
        if stands_for(s@[0]) is Some {
            assert(all_digits(s@));
        }
    }
}

/// What a digit in base sixteen stands for, with small letters.
pub open spec fn hex_stands_for(c: char) -> nat {
    if '0' <= c <= '9' {
        (c as int - '0' as int) as nat
    } else {
        (c as int - 'a' as int + 10) as nat
    }
}

/// What a row of digits in base sixteen amounts to.
pub open spec fn hex_value(s: Seq<char>) -> nat
    decreases s.len(),
{
    if s.len() == 0 {
        0
    } else {
        16 * hex_value(s.drop_last()) + hex_stands_for(s.last())
    }
}

/// A row of small digits in base sixteen.
pub open spec fn is_hex(s: Seq<char>) -> bool {
    forall|i: int| 0 <= i < s.len() ==> '0' <= #[trigger] s[i] <= '9' || 'a' <= s[i] <= 'f'
}

proof fn lemma_hex_digit(n: nat)
    requires
        n < 16,
    ensures
        hex_stands_for(digit(n)) == n,
        is_hex(seq![digit(n)]),
{
}

proof fn lemma_hexadecimal(n: nat)
    ensures
        hex_value(hexadecimal(n)) == n,
        is_hex(hexadecimal(n)),
        hexadecimal(n).len() > 0,
    decreases n,
{
    if n < 16 {
        lemma_hex_digit(n);
        reveal_with_fuel(hex_value, 2);
        assert(hexadecimal(n).drop_last() =~= Seq::empty());
    } else {
        lemma_hexadecimal(n / 16);
        lemma_hex_digit(n % 16);
        assert(hexadecimal(n).drop_last() =~= hexadecimal(n / 16));
        assert(hexadecimal(n).last() == digit(n % 16));
    }
}

proof fn lemma_zeros_in_front(k: nat, s: Seq<char>)
    ensures
        hex_value(Seq::new(k, |i: int| '0') + s) == hex_value(s),
    decreases k + s.len(),
{
    let zeros = Seq::new(k, |i: int| '0');
    let all = zeros + s;
    if s.len() > 0 {
        lemma_zeros_in_front(k, s.drop_last());
        assert(all.drop_last() =~= zeros + s.drop_last());
        assert(all.last() == s.last());
    } else if k > 0 {
        let fewer = Seq::new((k - 1) as nat, |i: int| '0');
        lemma_zeros_in_front((k - 1) as nat, s);
        assert(all.drop_last() =~= fewer + s);
        assert(all.last() == '0');
    } else {
        assert(all =~= s);
    }
}

/// A colour's text is a hash sign and its number in base sixteen, six digits at least.
pub proof fn lemma_colour_text(n: u32)
    ensures
        ({
            let text = colour_text(n);
            &&& text.len() >= 7
            &&& text[0] == '#'
            &&& is_hex(text.drop_first())
            &&& hex_value(text.drop_first()) == n
        }),
{
    let text = colour_text(n);
    reveal_strlit("#");
    let h = hexadecimal(n as nat);
    lemma_hexadecimal(n as nat);
    let padded = zero_padded(h, 6);
    assert(text.drop_first() =~= padded);
    if h.len() < 6 {
        lemma_zeros_in_front((6 - h.len()) as nat, h);
        assert(padded =~= Seq::new((6 - h.len()) as nat, |i: int| '0') + h);
    }
    assert forall|i: int| 0 <= i < padded.len() implies '0' <= #[trigger] padded[i] <= '9' || 'a' <= padded[i]
        <= 'f' by {
        if h.len() < 6 && i >= 6 - h.len() {
            assert(padded[i] == h[i - (6 - h.len())]);
        }
    }
}

/// A colour is written as a hash sign and its number in base sixteen, six digits at least.
pub proof fn lemma_a_colour_is_its_number(n: u32, r: String)
    requires
        call_ensures(colour, (n,), r),
    ensures
        r@.len() >= 7,
        r@[0] == '#',
        is_hex(r@.drop_first()),
        hex_value(r@.drop_first()) == n,
{
    lemma_colour_text(n);
}

/// Bytes are written two digits each, and every byte can be read back from its two.
pub proof fn lemma_every_byte_is_written(bytes: Vec<u8>, r: String)
    requires
        call_ensures(hex, (&bytes,), r),
    ensures
        r@.len() == 2 * bytes@.len(),
        is_hex(r@),
        forall|i: int|
            0 <= i < bytes@.len() ==> 16 * hex_stands_for(r@[2 * i]) + hex_stands_for(r@[2 * i + 1]) == #[trigger] bytes@[i],
{
    assert forall|i: int| 0 <= i < bytes@.len() implies 16 * hex_stands_for(r@[2 * i]) + hex_stands_for(
        r@[2 * i + 1],
    ) == #[trigger] bytes@[i] by {
        lemma_hex_digit(bytes@[i] as nat / 16);
        lemma_hex_digit(bytes@[i] as nat % 16);
        assert((2 * i) / 2 == i && (2 * i + 1) / 2 == i);
        assert((2 * i) % 2 == 0 && (2 * i + 1) % 2 == 1);
    }
    assert forall|j: int| 0 <= j < r@.len() implies '0' <= #[trigger] r@[j] <= '9' || 'a' <= r@[j] <= 'f' by {
        lemma_hex_digit(bytes@[j / 2] as nat / 16);
        lemma_hex_digit(bytes@[j / 2] as nat % 16);
    }
}

/// An id tells when it was given out: its upper bits count the milliseconds since 2015.
pub proof fn lemma_an_id_tells_its_second(id: u64, r: i64)
    requires
        call_ensures(created_at, (id,), r),
    ensures
        ({
            let millis = id as int / 0x40_0000 + 1_420_070_400_000;
            1000 * r <= millis < 1000 * (r + 1)
        }),
{
}

/// A moment off the wire or out of the database is shown seven hours east of Greenwich; what is
/// no moment, or cannot be written there, stays as it is.
pub proof fn lemma_the_house_clock_runs_seven_hours_ahead(raw: &str, source: Seq<char>, r: String)
    requires
        call_ensures(house_time, (raw,), r),
        utf8_len(raw@) != 19 ==> source == raw@,
        utf8_len(raw@) == 19 ==> raw@.len() == 19 && raw@[10] == ' ' && source == raw@.update(10, 'T').push('Z') && (
        forall|i: int| 0 <= i < raw@.len() ==> (#[trigger] raw@[i]) as u32 <= 0x7f),
    ensures
        match rfc3339_instant(source) {
            Some(nanos) => match rfc3339_text(nanos, 7) {
                Some(text) => r@ == text,
                None => r@ == raw@,
            },
            None => r@ == raw@,
        },
{
    if utf8_len(raw@) == 19 {
        crate::clock::lemma_ledger_moments_become_rfc3339(raw@);
    }
    assert(normalized(raw@) == source);
}

/// Two texts are the same but for case where, place by place, the characters are the same or
/// one is the ASCII capital of the other.
pub proof fn lemma_case_is_passed_over(a: &str, b: &str, r: bool)
    requires
        call_ensures(same_ignoring_case, (a, b), r),
    ensures
        r <==> a@.len() == b@.len() && forall|i: int| 0 <= i < a@.len() ==> are_alike(#[trigger] a@[i], b@[i]),
{
    let x = crate::text::ascii_lowered(a@);
    let y = crate::text::ascii_lowered(b@);
    assert forall|c: char, d: char| are_alike(c, d) <==> ascii_lower(c) == ascii_lower(d) by {
        lemma_alike(c, d);
    }
    if r {
        assert(x == y);
        assert forall|i: int| 0 <= i < a@.len() implies are_alike(#[trigger] a@[i], b@[i]) by {
            assert(x[i] == y[i]);
        }
    }
    if a@.len() == b@.len() && forall|i: int| 0 <= i < a@.len() ==> are_alike(#[trigger] a@[i], b@[i]) {
        assert forall|i: int| 0 <= i < x.len() implies x[i] == y[i] by {
            assert(are_alike(a@[i], b@[i]));
        }
        assert(x =~= y);
    }
}

/// Two characters are the same, or one is the ASCII capital of the other.
pub open spec fn are_alike(c: char, d: char) -> bool {
    ||| c == d
    ||| 'A' <= c <= 'Z' && d as u32 == c as u32 + 32
    ||| 'A' <= d <= 'Z' && c as u32 == d as u32 + 32
}

proof fn lemma_alike(c: char, d: char)
    ensures
        are_alike(c, d) <==> ascii_lower(c) == ascii_lower(d),
{
}

} // verus!
