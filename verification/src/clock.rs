//! House time: every clock the crow shows runs at UTC+7.

use vstd::prelude::*;

use crate::text::{char_width, chars_of, opt_text, string_of, utf8_len, utf8_width};

verus! {

/// How far east of Greenwich the house stands, in hours.
pub const HOUSE_OFFSET_HOURS: i8 = 7;

/// The moment an RFC 3339 text names, in nanoseconds since 1970, as the `time` crate reads it.
pub uninterp spec fn rfc3339_instant(text: Seq<char>) -> Option<int>;

/// The RFC 3339 text of a moment, on a clock so many hours east of Greenwich, as the `time`
/// crate writes it.
pub uninterp spec fn rfc3339_text(nanos: int, hours: int) -> Option<Seq<char>>;

pub open spec fn opt_int(v: Option<i128>) -> Option<int> {
    match v {
        Some(n) => Some(n as int),
        None => None,
    }
}

/// Calls `OffsetDateTime::parse` with the `Rfc3339` description and takes the moment's
/// `unix_timestamp_nanos`. What the grammar accepts is left to the name.
#[verifier::external_body]
fn read_rfc3339(text: &str) -> (r: Option<i128>)
    ensures
        opt_int(r) == rfc3339_instant(text@),
{
    time::OffsetDateTime::parse(text, &time::format_description::well_known::Rfc3339)
        .ok()
        .map(|moment| moment.unix_timestamp_nanos())
}

/// Calls `OffsetDateTime::format` with the `Rfc3339` description on the moment that
/// `from_unix_timestamp_nanos` makes, moved to the offset by `checked_to_offset`. There is no
/// text where the moment, the offset or the year written falls outside the crate's range.
#[verifier::external_body]
fn write_rfc3339(nanos: i128, hours: i8) -> (r: Option<String>)
    ensures
        opt_text(r) == rfc3339_text(nanos as int, hours as int),
{
    let moment = time::OffsetDateTime::from_unix_timestamp_nanos(nanos).ok()?;
    let offset = time::UtcOffset::from_hms(hours, 0, 0).ok()?;
    moment.checked_to_offset(offset)?.format(&time::format_description::well_known::Rfc3339).ok()
}

/// The character at index `k` is a space, and ten bytes of UTF-8 stand in front of it.
pub open spec fn spaced_at(raw: Seq<char>, k: int) -> bool {
    0 <= k < raw.len() && utf8_len(raw.take(k)) == 10 && raw[k] == ' '
}

/// The database writes a moment in nineteen bytes, a space after the tenth.
pub open spec fn ledger_shaped(raw: Seq<char>) -> bool {
    utf8_len(raw) == 19 && exists|k: int| #[trigger] spaced_at(raw, k)
}

/// A moment in the database's shape put into RFC 3339, in universal time; any other text
/// as it is.
pub open spec fn normalized(raw: Seq<char>) -> Seq<char> {
    if ledger_shaped(raw) {
        let k = choose|k: int| #[trigger] spaced_at(raw, k);
        raw.take(k) + seq!['T'] + raw.skip(k + 1) + seq!['Z']
    } else {
        raw
    }
}

/// A moment on the house clock; what is no moment stays as it is.
pub open spec fn house_text(raw: Seq<char>) -> Seq<char> {
    match rfc3339_instant(normalized(raw)) {
        Some(nanos) => match rfc3339_text(nanos, HOUSE_OFFSET_HOURS as int) {
            Some(text) => text,
            None => raw,
        },
        None => raw,
    }
}

proof fn lemma_utf8_len_step(s: Seq<char>, k: int)
    requires
        0 <= k < s.len(),
    ensures
        utf8_len(s.take(k + 1)) == utf8_len(s.take(k)) + utf8_width(s[k]),
{
    assert(s.take(k + 1).drop_last() =~= s.take(k));
}

proof fn lemma_utf8_len_increases(s: Seq<char>, i: int, j: int)
    requires
        0 <= i < j <= s.len(),
    ensures
        utf8_len(s.take(i)) < utf8_len(s.take(j)),
    decreases j - i,
{
    lemma_utf8_len_step(s, j - 1);
    if i < j - 1 {
        lemma_utf8_len_increases(s, i, j - 1);
    }
}

proof fn lemma_spaced_once(s: Seq<char>, i: int, j: int)
    requires
        spaced_at(s, i),
        spaced_at(s, j),
    ensures
        i == j,
{
    if i < j {
        lemma_utf8_len_increases(s, i, j);
    } else if j < i {
        lemma_utf8_len_increases(s, j, i);
    }
}

/// Puts a moment in the database's shape into RFC 3339.
pub fn normalize(raw: &str) -> (r: String)
    ensures
        r@ == normalized(raw@),
{
    let v = chars_of(raw);
    let mut bytes: usize = 0;
    let mut space: Option<usize> = None;
    let mut i: usize = 0;
    assert(raw@.take(0) =~= seq![]);
    while i < v.len() && bytes <= 19
        invariant
            i <= v@.len(),
            v@ == raw@,
            bytes <= 23,
            bytes == utf8_len(raw@.take(i as int)),
            space matches Some(k) ==> k < i && spaced_at(raw@, k as int),
            space is None ==> forall|k: int| 0 <= k < i ==> !spaced_at(raw@, k),
        decreases v@.len() - i,
    {
        if bytes == 10 && v[i] == ' ' {
            space = Some(i);
        }
        proof {
            lemma_utf8_len_step(raw@, i as int);
        }
        bytes = bytes + char_width(v[i]);
        i = i + 1;
    }
    proof {
        assert(raw@.take(raw@.len() as int) =~= raw@);
        if i < v@.len() {
            lemma_utf8_len_increases(raw@, i as int, raw@.len() as int);
        }
    }
    if i == v.len() && bytes == 19 {
        if let Some(k) = space {
            proof {
                let c = choose|c: int| #[trigger] spaced_at(raw@, c);
                assert(spaced_at(raw@, k as int));
                lemma_spaced_once(raw@, k as int, c);
            }
            let mut r = string_of(&v, 0, k);
            r.push('T');
            let rest = string_of(&v, k + 1, v.len());
            r.append(rest.as_str());
            r.push('Z');
            assert(r@ =~= raw@.take(k as int) + seq!['T'] + raw@.skip(k + 1) + seq!['Z']);
            return r;
        }
    }
    assert(!ledger_shaped(raw@));
    raw.to_owned()
}

/// A moment written on the house clock, or the text as it is where there was none to write.
pub fn written_or_raw(raw: &str, written: Option<String>) -> (r: String)
    ensures
        r@ == match written {
            Some(text) => text@,
            None => raw@,
        },
{
    match written {
        Some(text) => text,
        None => raw.to_owned(),
    }
}

/// Shows a moment on the house clock, whether it came off the wire or out of the database.
pub fn house_time(raw: &str) -> (r: String)
    ensures
        r@ == house_text(raw@),
{
    let source = normalize(raw);
    let written = match read_rfc3339(source.as_str()) {
        Some(nanos) => write_rfc3339(nanos, HOUSE_OFFSET_HOURS),
        None => None,
    };
    written_or_raw(raw, written)
}

proof fn lemma_utf8_len_ascii(s: Seq<char>)
    requires
        forall|i: int| 0 <= i < s.len() ==> (#[trigger] s[i]) as u32 <= 0x7f,
    ensures
        utf8_len(s) == s.len(),
    decreases s.len(),
{
    if s.len() > 0 {
        assert forall|i: int| 0 <= i < s.drop_last().len() implies (#[trigger] s.drop_last()[i]) as u32
            <= 0x7f by {
            assert(s[i] as u32 <= 0x7f);
        }
        lemma_utf8_len_ascii(s.drop_last());
    }
}

/// The database's moments are `YYYY-MM-DD HH:MM:SS`: in plain ASCII of nineteen characters
/// with a space for the eleventh, the space becomes a `T` and a `Z` follows.
pub proof fn lemma_ledger_moments_become_rfc3339(raw: Seq<char>)
    requires
        raw.len() == 19,
        forall|i: int| 0 <= i < raw.len() ==> (#[trigger] raw[i]) as u32 <= 0x7f,
        raw[10] == ' ',
    ensures
        normalized(raw) == raw.update(10, 'T').push('Z'),
{
    lemma_utf8_len_ascii(raw);
    assert forall|i: int| 0 <= i < raw.take(10).len() implies (#[trigger] raw.take(10)[i]) as u32
        <= 0x7f by {
        assert(raw[i] as u32 <= 0x7f);
    }
    lemma_utf8_len_ascii(raw.take(10));
    assert(spaced_at(raw, 10));
    let k = choose|k: int| #[trigger] spaced_at(raw, k);
    lemma_spaced_once(raw, k, 10);
    assert(normalized(raw) =~= raw.update(10, 'T').push('Z'));
}

/// The second a timestamp of Discord's names, counted from 1970, as `serenity` reads it.
pub uninterp spec fn timestamp_seconds(text: Seq<char>) -> Option<int>;

/// The timestamp of a second counted from 1970, as `serenity` writes it.
pub uninterp spec fn timestamp_text(secs: int) -> Option<Seq<char>>;

/// The first second of the year 0, the first year that has a timestamp.
pub const FIRST_SECOND: i64 = -62_167_219_200;

/// The last second of the year 9999.
pub const LAST_SECOND: i64 = 253_402_300_799;

/// The last second whose milliseconds a signed word of sixty-four bits can hold.
pub const LAST_MILLIS_SECOND: i64 = 9_223_372_036_854_775;

pub open spec fn opt_secs(v: Option<i64>) -> Option<int> {
    match v {
        Some(n) => Some(n as int),
        None => None,
    }
}

/// Calls `serenity::model::Timestamp::parse` and takes the moment's `unix_timestamp`. What
/// the grammar accepts is left to the name.
#[verifier::external_body]
pub(crate) fn read_timestamp(text: &str) -> (r: Option<i64>)
    ensures
        opt_secs(r) == timestamp_seconds(text@),
{
    serenity::model::Timestamp::parse(text).ok().map(|moment| moment.unix_timestamp())
}

/// A second that can be handed over to be written: not before the first year that has a
/// timestamp, and its milliseconds can be counted.
pub open spec fn is_writable_second(secs: int) -> bool {
    FIRST_SECOND <= secs <= LAST_MILLIS_SECOND
}

/// Calls `serenity::model::Timestamp::from_unix_timestamp` and writes the moment with
/// `to_string`, in RFC 3339. From the year 0 to the end of the year 9999 there is such a text,
/// and it reads back as the second it was made from.
#[verifier::external_body]
pub(crate) fn write_timestamp(secs: i64) -> (r: Option<String>)
    requires
        is_writable_second(secs as int),
    ensures
        opt_text(r) == timestamp_text(secs as int),
        secs <= LAST_SECOND ==> r is Some,
        r matches Some(text) ==> timestamp_seconds(text@) == Some(secs as int),
{
    serenity::model::Timestamp::from_unix_timestamp(secs).ok().map(|moment| moment.to_string())
}

/// The milliseconds between 1970 and the start of the year 2015, from which Discord counts.
pub const DISCORD_EPOCH_MILLIS: u64 = 1_420_070_400_000;

/// The second in which Discord gave out an id: the upper bits count the milliseconds.
pub open spec fn created_second(id: u64) -> int {
    (id as int / 4_194_304 + DISCORD_EPOCH_MILLIS) / 1000
}

/// The second in which Discord gave out an id.
pub fn created_at(id: u64) -> (r: i64)
    ensures
        r == created_second(id),
        0 <= r,
{
    let millis: u64 = id / 4_194_304 + DISCORD_EPOCH_MILLIS;
    (millis / 1000) as i64
}

/// The moment an account was made, by its id, as `serenity` writes it.
pub uninterp spec fn account_created(id: int) -> Seq<char>;

/// Calls `UserId::created_at` and writes the moment with `to_string`, in RFC 3339.
#[verifier::external_body]
pub(crate) fn account_created_text(id: u64) -> (r: String)
    requires
        id != 0,
    ensures
        r@ == account_created(id as int),
{
    serenity::model::id::UserId::new(id).created_at().to_string()
}

} // verus!
