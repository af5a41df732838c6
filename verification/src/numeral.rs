//! Reading numbers and writing them in other bases.

use vstd::prelude::*;

use crate::text::{chars_of, decimal, digit, digit_char, length};

verus! {

/// A character between `0` and `9`.
pub open spec fn is_digit(c: char) -> bool {
    '0' <= c && c <= '9'
}

/// Every character is a decimal digit.
pub open spec fn all_digits(s: Seq<char>) -> bool {
    forall|i: int| 0 <= i < s.len() ==> is_digit(#[trigger] s[i])
}

/// What a row of decimal digits amounts to.
pub open spec fn digits_value(s: Seq<char>) -> nat
    decreases s.len(),
{
    if s.len() == 0 {
        0
    } else {
        digits_value(s.drop_last()) * 10 + (s.last() as nat - 48) as nat
    }
}

/// The number a text stands for: one digit or more, a plus sign in front allowed, and no
/// more than an unsigned word of sixty-four bits can hold.
pub open spec fn parsed_u64(s: Seq<char>) -> Option<u64> {
    let digits = if s.len() > 0 && s[0] == '+' {
        s.drop_first()
    } else {
        s
    };
    if digits.len() > 0 && all_digits(digits) && digits_value(digits) <= u64::MAX {
        Some(digits_value(digits) as u64)
    } else {
        None
    }
}

/// The number a text stands for, a sign in front allowed, within a signed word of
/// sixty-four bits.
pub open spec fn parsed_i64(s: Seq<char>) -> Option<i64> {
    if s.len() > 0 && s[0] == '-' {
        let digits = s.drop_first();
        if digits.len() > 0 && all_digits(digits) && digits_value(digits) <= 0x8000_0000_0000_0000 {
            Some((0 - digits_value(digits)) as i64)
        } else {
            None
        }
    } else {
        match parsed_u64(s) {
            Some(n) => if n <= i64::MAX {
                Some(n as i64)
            } else {
                None
            },
            None => None,
        }
    }
}

proof fn lemma_digits_value_step(s: Seq<char>, n: int)
    requires
        0 < n <= s.len(),
    ensures
        digits_value(s.take(n)) == digits_value(s.take(n - 1)) * 10 + (s[n - 1] as nat - 48) as nat,
{
    assert(s.take(n).drop_last() =~= s.take(n - 1));
}

proof fn lemma_digits_value_grows(s: Seq<char>, n: int)
    requires
        0 <= n <= s.len(),
    ensures
        digits_value(s.take(n)) <= digits_value(s),
    decreases s.len() - n,
{
    if n == s.len() {
        assert(s.take(n) =~= s);
    } else {
        lemma_digits_value_step(s, n + 1);
        lemma_digits_value_grows(s, n + 1);
    }
}

/// Reads the digits from index `from` on.
fn parse_digits(v: &Vec<char>, from: usize) -> (r: Option<u64>)
    requires
        from <= v@.len(),
    ensures
        ({
            let digits = v@.skip(from as int);
            r == if digits.len() > 0 && all_digits(digits) && digits_value(digits) <= u64::MAX {
                Some(digits_value(digits) as u64)
            } else {
                None
            }
        }),
{
    let ghost digits = v@.skip(from as int);
    if from == v.len() {
        return None;
    }
    let mut n: u64 = 0;
    let mut i: usize = from;
    assert(digits.take(0) =~= seq![]);
    while i < v.len()
        invariant
            from <= i <= v@.len(),
            digits == v@.skip(from as int),
            n == digits_value(digits.take(i - from)),
            forall|j: int| 0 <= j < i - from ==> is_digit(#[trigger] digits[j]),
        decreases v@.len() - i,
    {
        let c = v[i];
        assert(digits[i - from] == c);
        if c < '0' || '9' < c {
            return None;
        }
        let d: u64 = c as u64 - 48;
        proof {
            lemma_digits_value_step(digits, i - from + 1);
            lemma_digits_value_grows(digits, i - from + 1);
        }
        if n > (0xffff_ffff_ffff_ffff - d) / 10 {
            return None;
        }
        n = n * 10 + d;
        i = i + 1;
    }
    assert(digits.take(digits.len() as int) =~= digits);
    Some(n)
}

/// Reads an unsigned number.
pub fn parse_u64(s: &str) -> (r: Option<u64>)
    ensures
        r == parsed_u64(s@),
{
    let v = chars_of(s);
    if v.len() > 0 && v[0] == '+' {
        assert(s@.drop_first() =~= v@.skip(1));
        parse_digits(&v, 1)
    } else {
        assert(s@ =~= v@.skip(0));
        parse_digits(&v, 0)
    }
}

/// Reads a signed number.
pub fn parse_i64(s: &str) -> (r: Option<i64>)
    ensures
        r == parsed_i64(s@),
{
    let v = chars_of(s);
    if v.len() > 0 && v[0] == '-' {
        assert(s@.drop_first() =~= v@.skip(1));
        match parse_digits(&v, 1) {
            Some(n) => {
                if n < 0x8000_0000_0000_0000 {
                    Some(0 - (n as i64))
                } else if n == 0x8000_0000_0000_0000 {
                    Some(i64::MIN)
                } else {
                    None
                }
            },
            None => None,
        }
    } else {
        match parse_u64(s) {
            Some(n) => {
                if n <= 0x7fff_ffff_ffff_ffff {
                    Some(n as i64)
                } else {
                    None
                }
            },
            None => None,
        }
    }
}

proof fn lemma_decimal_digits(n: nat)
    ensures
        decimal(n).len() > 0,
        all_digits(decimal(n)),
        digits_value(decimal(n)) == n,
    decreases n,
{
    if n < 10 {
        let s = decimal(n);
        assert(s =~= seq![digit(n)]);
        assert(s.drop_last() =~= seq![]);
        assert(digits_value(s.drop_last()) == 0);
        assert(digit(n) as nat == n + 48);
    } else {
        let p = decimal(n / 10);
        lemma_decimal_digits(n / 10);
        let s = decimal(n);
        assert(s.drop_last() =~= p);
        assert(digit(n % 10) as nat == n % 10 + 48);
        assert forall|i: int| 0 <= i < s.len() implies is_digit(#[trigger] s[i]) by {
            if i < p.len() {
                assert(is_digit(p[i]));
            }
        }
    }
}

/// A number written in decimal is a row of digits, and never an empty one.
pub proof fn lemma_decimal_is_digits(n: nat)
    ensures
        decimal(n).len() > 0,
        all_digits(decimal(n)),
{
    lemma_decimal_digits(n);
}

/// A number written in decimal reads back as itself.
pub proof fn lemma_decimal_reads_back(n: u64)
    ensures
        parsed_u64(decimal(n as nat)) == Some(n),
{
    lemma_decimal_digits(n as nat);
    assert(is_digit(decimal(n as nat)[0]));
}

/// Two numbers written alike are the same number.
pub proof fn lemma_decimal_injective(a: nat, b: nat)
    requires
        decimal(a) == decimal(b),
    ensures
        a == b,
{
    lemma_decimal_digits(a);
    lemma_decimal_digits(b);
}

/// Bytes in lower-case base sixteen, two digits to the byte.
pub open spec fn hex_of(bytes: Seq<u8>) -> Seq<char> {
    Seq::new(
        2 * bytes.len(),
        |i: int|
            digit(
                if i % 2 == 0 {
                    bytes[i / 2] as nat / 16
                } else {
                    bytes[i / 2] as nat % 16
                },
            ),
    )
}

/// Writes bytes in lower-case base sixteen, two digits to the byte.
pub fn hex(bytes: &Vec<u8>) -> (r: String)
    ensures
        r@ == hex_of(bytes@),
{
    let mut s = String::new();
    let mut i: usize = 0;
    while i < bytes.len()
        invariant
            i <= bytes@.len(),
            s@ == hex_of(bytes@.take(i as int)),
        decreases bytes@.len() - i,
    {
        let ghost before = s@;
        s.push(digit_char(bytes[i] / 16));
        s.push(digit_char(bytes[i] % 16));
        i = i + 1;
        proof {
            let all = hex_of(bytes@.take(i as int));
            assert forall|j: int| 0 <= j < before.len() implies all[j] == before[j] by {
                assert(bytes@.take(i as int)[j / 2] == bytes@.take(i - 1)[j / 2]);
            }
            let t = bytes@.take(i as int);
            let k = 2 * (i - 1);
            assert(all[k] == digit(t[k / 2] as nat / 16));
            assert(all[k + 1] == digit(t[(k + 1) / 2] as nat % 16));
            assert(s@ =~= all);
        }
    }
    assert(bytes@.take(i as int) =~= bytes@);
    s
}

/// A number in lower-case base sixteen, without leading zeros.
pub open spec fn hexadecimal(n: nat) -> Seq<char>
    decreases n,
{
    if n < 16 {
        seq![digit(n)]
    } else {
        hexadecimal(n / 16).push(digit(n % 16))
    }
}

/// `s` with zeros in front, so as to have at least `width` characters.
pub open spec fn zero_padded(s: Seq<char>, width: nat) -> Seq<char> {
    if s.len() < width {
        Seq::new((width - s.len()) as nat, |i: int| '0') + s
    } else {
        s
    }
}

fn push_hexadecimal(s: &mut String, n: u32)
    ensures
        final(s)@ == old(s)@ + hexadecimal(n as nat),
    decreases n,
{
    if n < 16 {
        s.push(digit_char(n as u8));
        assert(old(s)@.push(digit(n as nat)) =~= old(s)@ + hexadecimal(n as nat));
    } else {
        push_hexadecimal(s, n / 16);
        let ghost mid = s@;
        s.push(digit_char((n % 16) as u8));
        assert(mid.push(digit((n % 16) as nat)) =~= old(s)@ + hexadecimal(n as nat));
    }
}

/// A colour as the web writes it: a hash sign and at least six digits in base sixteen.
pub open spec fn colour_text(n: u32) -> Seq<char> {
    "#"@ + zero_padded(hexadecimal(n as nat), 6)
}

/// A colour as the web writes it.
pub fn colour(n: u32) -> (r: String)
    ensures
        r@ == colour_text(n),
{
    let mut digits = String::new();
    push_hexadecimal(&mut digits, n);
    assert(digits@ =~= hexadecimal(n as nat));
    let count: usize = length(digits.as_str());
    let mut s = "#".to_owned();
    let mut i: usize = count;
    while i < 6
        invariant
            count <= i,
            i <= 6 || i == count,
            s@ == "#"@ + Seq::new((i - count) as nat, |j: int| '0'),
        decreases 6 - i,
    {
        let ghost before = s@;
        s.push('0');
        i = i + 1;
        assert(s@ =~= "#"@ + Seq::new((i - count) as nat, |j: int| '0'));
    }
    s.append(digits.as_str());
    assert(s@ =~= colour_text(n));
    s
}

} // verus!
