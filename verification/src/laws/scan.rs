//! What a scan looks for, and that it finds all of it.

use vstd::prelude::*;

use crate::archive::ScanQuery;
use crate::discord::wire::Message;
use crate::laws::order::stands_at;
use crate::laws::words::{lemma_filter_is_all, lemma_has_text};
use crate::numeral::{lemma_decimal_reads_back, parsed_u64};
use crate::server::tools::common::invalid_text;
use crate::server::tools::scan::{
    above, anchor_id, archive_query, canonical_ids, decimals, id_set, parse_id_set, parse_source, reads_archive,
    Filters, RestSweep, ScanChannelRequest, Source,
};
use crate::text::{decimal, lowercased, opt_text, texts, trimmed};

verus! {

/// The number an entry of a list stands for, white space around it aside.
pub open spec fn named_id(raw: Seq<char>) -> Option<u64> {
    parsed_u64(trimmed(raw))
}

/// Some entry of a list stands for a number.
pub open spec fn is_named(raw: Seq<String>, n: u64) -> bool {
    exists|i: int| 0 <= i < raw.len() && named_id(#[trigger] raw[i]@) == Some(n)
}

/// Every entry of a list stands for a number.
pub open spec fn all_are_ids(raw: Seq<String>) -> bool {
    forall|i: int| 0 <= i < raw.len() ==> named_id(#[trigger] raw[i]@) is Some
}

/// The first entry of a list that stands for no number.
pub open spec fn is_first_bad(raw: Seq<String>, k: int) -> bool {
    &&& 0 <= k < raw.len()
    &&& named_id(raw[k]@) is None
    &&& forall|i: int| 0 <= i < k ==> named_id(#[trigger] raw[i]@) is Some
}

/// A set of ids is that of a list: whatever number some entry stands for is in it, once, and
/// nothing else is. Of two numbers the one that comes up first stands first.
pub open spec fn is_set_of(set: Seq<u64>, raw: Seq<String>) -> bool {
    &&& set.no_duplicates()
    &&& forall|n: u64| #[trigger] set.contains(n) <==> is_named(raw, n)
    &&& forall|a: int, b: int|
        0 <= a < b < set.len() ==> comes_before(raw, #[trigger] set[a], #[trigger] set[b])
}

/// Some entry stands for the one number, and none in front of it for the other.
pub open spec fn comes_before(raw: Seq<String>, first: u64, second: u64) -> bool {
    exists|i: int|
        0 <= i < raw.len() && named_id(#[trigger] raw[i]@) == Some(first) && !is_named(raw.take(i), second)
}

proof fn lemma_named_step(raw: Seq<String>, n: u64)
    requires
        raw.len() > 0,
    ensures
        is_named(raw, n) <==> is_named(raw.drop_last(), n) || named_id(raw.last()@) == Some(n),
{
    let front = raw.drop_last();
    if is_named(raw, n) {
        let i = choose|i: int| 0 <= i < raw.len() && named_id(#[trigger] raw[i]@) == Some(n);
        if i < front.len() {
            assert(front[i] == raw[i]);
        }
    }
    if is_named(front, n) {
        let i = choose|i: int| 0 <= i < front.len() && named_id(#[trigger] front[i]@) == Some(n);
        assert(front[i] == raw[i]);
    }
    if named_id(raw.last()@) == Some(n) {
        assert(raw[raw.len() - 1] == raw.last());
    }
}

proof fn lemma_id_set(raw: Seq<String>)
    ensures
        id_set(raw) is Ok <==> all_are_ids(raw),
        id_set(raw) matches Ok(set) ==> is_set_of(set, raw),
        id_set(raw) matches Err(bad) ==> exists|k: int| #[trigger] is_first_bad(raw, k) && bad == raw[k]@,
    decreases raw.len(),
{
    if raw.len() > 0 {
        let front = raw.drop_last();
        let last = raw.last();
        lemma_id_set(front);
        assert(raw[raw.len() - 1] == last);
        assert(forall|i: int| 0 <= i < front.len() ==> raw[i] == #[trigger] front[i]);
        assert(all_are_ids(raw) <==> all_are_ids(front) && named_id(last@) is Some) by {
            if all_are_ids(raw) {
                assert forall|i: int| 0 <= i < front.len() implies named_id(
                    #[trigger] front[i]@,
                ) is Some by {
                    assert(raw[i] == front[i]);
                }
            }
            if all_are_ids(front) && named_id(last@) is Some {
                assert forall|i: int| 0 <= i < raw.len() implies named_id(#[trigger] raw[i]@) is Some by {
                    if i < front.len() {
                        assert(raw[i] == front[i]);
                    }
                }
            }
        }
        match id_set(front) {
            Err(bad) => {
                let k = choose|k: int| #[trigger] is_first_bad(front, k) && bad == front[k]@;
                assert(raw[k] == front[k]);
                assert forall|i: int| 0 <= i < k implies named_id(#[trigger] raw[i]@) is Some by {
                    assert(raw[i] == front[i]);
                }
                assert(is_first_bad(raw, k));
            },
            Ok(ids) => match named_id(last@) {
                None => {
                    let k = raw.len() - 1;
                    assert forall|i: int| 0 <= i < k implies named_id(#[trigger] raw[i]@) is Some by {
                        assert(raw[i] == front[i]);
                    }
                    assert(is_first_bad(raw, k));
                },
                Some(id) => {
                    let set = id_set(raw)->Ok_0;
                    assert forall|n: u64| #[trigger] set.contains(n) <==> is_named(raw, n) by {
                        lemma_named_step(raw, n);
                        assert(ids.contains(n) <==> is_named(front, n));
                        if !ids.contains(id) {
                            if ids.contains(n) {
                                let k = choose|k: int| 0 <= k < ids.len() && ids[k] == n;
                                assert(set[k] == n);
                            }
                            if n == id {
                                assert(set[ids.len() as int] == n);
                            }
                            if set.contains(n) {
                                let k = choose|k: int| 0 <= k < set.len() && set[k] == n;
                                if k < ids.len() {
                                    assert(ids[k] == n);
                                }
                            }
                        }
                    }
                    assert forall|a: int, b: int| 0 <= a < b < set.len() implies comes_before(
                        raw,
                        #[trigger] set[a],
                        #[trigger] set[b],
                    ) by {
                        assert(set[a] == ids[a]);
                        if b < ids.len() {
                            assert(comes_before(front, ids[a], ids[b]));
                            let i = choose|i: int|
                                0 <= i < front.len() && named_id(#[trigger] front[i]@) == Some(ids[a])
                                    && !is_named(front.take(i), ids[b]);
                            assert(raw[i] == front[i]);
                            assert(raw.take(i) =~= front.take(i));
                        } else {
                            assert(ids.contains(ids[a]));
                            let i = choose|i: int|
                                0 <= i < front.len() && named_id(#[trigger] front[i]@) == Some(ids[a]);
                            assert(raw[i] == front[i]);
                            if is_named(raw.take(i), id) {
                                let j = choose|j: int|
                                    0 <= j < i && named_id(#[trigger] raw.take(i)[j]@) == Some(id);
                                assert(front[j] == raw.take(i)[j]);
                                assert(is_named(front, id));
                                assert(ids.contains(id));
                            }
                        }
                    }
                },
            },
        }
    }
}

/// The entries of a list that may be left out.
pub open spec fn entries(ids: Option<Vec<String>>) -> Seq<String> {
    match ids {
        Some(ids) => ids@,
        None => seq![],
    }
}

/// A list of ids is read as the set of the numbers its entries stand for, all of them and
/// nothing else; or the first entry that stands for none is named.
pub proof fn lemma_every_id_is_read(ids: Option<Vec<String>>, r: Result<Vec<u64>, String>)
    requires
        call_ensures(parse_id_set, (&ids,), r),
    ensures
        r is Ok <==> all_are_ids(entries(ids)),
        r matches Ok(set) ==> is_set_of(set@, entries(ids)),
        r matches Err(e) ==> exists|k: int| #[trigger]
            is_first_bad(entries(ids), k) && stands_somewhere(e@, entries(ids)[k]@),
{
    lemma_id_set(entries(ids));
    if let Err(bad) = id_set(entries(ids)) {
        lemma_invalid_names(bad);
    }
}

/// A piece stands somewhere in a text.
pub open spec fn stands_somewhere(s: Seq<char>, piece: Seq<char>) -> bool {
    exists|at: int| stands_at(s, piece, at)
}

proof fn lemma_invalid_names(bad: Seq<char>)
    ensures
        stands_somewhere(invalid_text(bad, "snowflake id"@), bad),
{
    let text = invalid_text(bad, "snowflake id"@);
    let at = "'"@.len() as int;
    assert(text.subrange(at, at + bad.len()) =~= bad);
    assert(stands_at(text, bad, at));
}

/// The numbers that decimal texts stand for.
pub open spec fn numbers_of(v: Seq<String>, set: Seq<u64>) -> bool {
    v.len() == set.len() && forall|i: int|
        0 <= i < v.len() ==> parsed_u64((#[trigger] v[i])@) == Some(set[i]) && v[i]@ == decimal(
            set[i] as nat,
        )
}

/// Texts are the set of ids of a list, each in its one way to be written.
pub open spec fn are_texts_of(v: Seq<String>, raw: Seq<String>) -> bool {
    exists|set: Seq<u64>| #[trigger] numbers_of(v, set) && is_set_of(set, raw)
}

proof fn lemma_texts_of(v: Seq<String>, raw: Seq<String>)
    requires
        id_set(raw) is Ok,
        texts(v) == decimals(id_set(raw)->Ok_0),
    ensures
        are_texts_of(v, raw),
{
    let set = id_set(raw)->Ok_0;
    lemma_id_set(raw);
    assert(texts(v).len() == v.len());
    assert forall|i: int| 0 <= i < v.len() implies parsed_u64((#[trigger] v[i])@) == Some(set[i]) && v[i]@
        == decimal(set[i] as nat) by {
        assert(texts(v)[i] == v[i]@);
        lemma_decimal_reads_back(set[i]);
    }
    assert(numbers_of(v, set));
}

/// The ids looked up in the archive are those the entries stand for, each written in its one
/// way.
pub proof fn lemma_every_id_is_looked_up(ids: Option<Vec<String>>, r: Result<Vec<String>, String>)
    requires
        call_ensures(canonical_ids, (&ids,), r),
    ensures
        r is Ok <==> all_are_ids(entries(ids)),
        r matches Ok(v) ==> are_texts_of(v@, entries(ids)),
{
    lemma_id_set(entries(ids));
    if let Ok(v) = r {
        lemma_texts_of(v@, entries(ids));
    }
}

/// Where to read is said by one of three names, in any letters and with white space around
/// it; nothing said means either, and any other name is refused and named.
pub proof fn lemma_sources_have_names(raw: Option<&str>, r: Result<Source, String>)
    requires
        call_ensures(parse_source, (raw,), r),
    ensures
        raw is None ==> r == Ok::<Source, String>(Source::Auto),
        raw matches Some(raw) ==> ({
            let name = lowercased(trimmed(raw@));
            &&& name =~= seq![] ==> r == Ok::<Source, String>(Source::Auto)
            &&& name =~= seq!['a', 'u', 't', 'o'] ==> r == Ok::<Source, String>(Source::Auto)
            &&& name =~= seq!['a', 'r', 'c', 'h', 'i', 'v', 'e'] ==> r == Ok::<Source, String>(
                Source::Archive,
            )
            &&& name =~= seq!['r', 'e', 's', 't'] ==> r == Ok::<Source, String>(Source::Rest)
            &&& !(name =~= seq![]) && !(name =~= seq!['a', 'u', 't', 'o']) && !(name =~= seq![
                'a',
                'r',
                'c',
                'h',
                'i',
                'v',
                'e',
            ]) && !(name =~= seq!['r', 'e', 's', 't']) ==> (r matches Err(e)
                && stands_somewhere(e@, name))
        }),
{
    reveal_strlit("auto");
    reveal_strlit("archive");
    reveal_strlit("rest");
    assert("auto"@ =~= seq!['a', 'u', 't', 'o']);
    assert("archive"@ =~= seq!['a', 'r', 'c', 'h', 'i', 'v', 'e']);
    assert("rest"@ =~= seq!['r', 'e', 's', 't']);
    assert("auto"@[0] == 'a');
    assert("archive"@.len() == 7);
    if let Some(raw) = raw {
        let name = lowercased(trimmed(raw@));
        if let Err(e) = r {
            let at = "source must be auto, archive, or rest (got '"@.len() as int;
            assert(e@.subrange(at, at + name.len()) =~= name);
            assert(stands_at(e@, name, at));
        }
    }
}

/// The archive is read where it was asked for, and where nothing was asked for and it is open.
/// Asked for while it is closed, it is refused.
pub proof fn lemma_where_to_read(source: Source, open: bool, r: Result<bool, String>)
    requires
        call_ensures(reads_archive, (source, open), r),
    ensures
        r is Err <==> source == Source::Archive && !open,
        r matches Ok(archive) ==> (archive <==> open && source != Source::Rest),
{
}

/// An anchor is read: none where none is given, and otherwise the number it stands for.
pub open spec fn is_anchor(raw: Option<String>, id: Option<u64>) -> bool {
    match raw {
        Some(raw) => id is Some && named_id(raw@) == id,
        None => id is None,
    }
}

/// A text that is given stands for a number.
pub open spec fn may_be_anchor(raw: Option<String>) -> bool {
    raw matches Some(raw) ==> named_id(raw@) is Some
}

/// The archive is asked for what the request asks for: the channel, everybody listed as author
/// or mentioned, the text, and the two ends; one to five hundred messages, a hundred where
/// nothing is said. It is asked exactly where every id reads.
pub proof fn lemma_the_archive_is_asked(
    channel: u64,
    req: ScanChannelRequest,
    r: Result<ScanQuery, String>,
)
    requires
        call_ensures(archive_query, (channel, &req), r),
    ensures
        r is Ok <==> all_are_ids(entries(req.author_ids)) && all_are_ids(entries(req.mention_ids))
            && may_be_anchor(req.before) && may_be_anchor(req.after),
        r matches Ok(q) ==> {
            &&& parsed_u64(q.channel_id@) == Some(channel)
            &&& are_texts_of(q.author_ids@, entries(req.author_ids))
            &&& are_texts_of(q.mention_ids@, entries(req.mention_ids))
            &&& opt_text(q.text) == opt_text(req.text)
            &&& exists|id: Option<u64>| is_anchor(req.before, id) && is_row(q.before, id)
            &&& exists|id: Option<u64>| is_anchor(req.after, id) && is_row(q.after, id)
            &&& req.limit is None ==> q.limit == 100
            &&& req.limit matches Some(n) ==> 1 <= q.limit <= 500 && (1 <= n <= 500 ==> q.limit == n) && (
            n > 500 ==> q.limit == 500) && (n == 0 ==> q.limit == 1)
        },
{
    lemma_id_set(entries(req.author_ids));
    lemma_id_set(entries(req.mention_ids));
    lemma_decimal_reads_back(channel);
    if let Ok(q) = r {
        lemma_texts_of(q.author_ids@, entries(req.author_ids));
        lemma_texts_of(q.mention_ids@, entries(req.mention_ids));
        let before = anchor_id(opt_text(req.before))->Ok_0;
        let after = anchor_id(opt_text(req.after))->Ok_0;
        assert(is_anchor(req.before, before) && is_row(q.before, before));
        assert(is_anchor(req.after, after) && is_row(q.after, after));
    }
}

/// A message's number as the archive's rows are ordered by it.
pub open spec fn is_row(row: Option<i64>, id: Option<u64>) -> bool {
    match id {
        Some(id) => row is Some && (id <= i64::MAX ==> row->0 == id),
        None => row is None,
    }
}

/// A sweep starts with what the request asks for: everybody listed as author or mentioned, the
/// text in small letters, and the two ends; one to fifty pages, ten where nothing is said. It
/// starts exactly where every id reads, and has nothing yet.
pub proof fn lemma_a_sweep_starts_as_asked(req: ScanChannelRequest, r: Result<RestSweep, String>)
    requires
        call_ensures(RestSweep::begin, (&req,), r),
    ensures
        r is Ok <==> all_are_ids(entries(req.author_ids)) && all_are_ids(entries(req.mention_ids))
            && may_be_anchor(req.before) && may_be_anchor(req.after),
        r matches Ok(s) ==> {
            &&& is_set_of(s.filters.authors@, entries(req.author_ids))
            &&& is_set_of(s.filters.mentions@, entries(req.mention_ids))
            &&& s.filters.text is Some <==> req.text is Some
            &&& req.text matches Some(text) ==> s.filters.text->0@ == lowercased(text@)
            &&& is_anchor(req.before, s.cursor)
            &&& is_anchor(req.after, s.floor)
            &&& req.max_pages is None ==> s.max_pages == 10
            &&& req.max_pages matches Some(n) ==> (1 <= n <= 50 ==> s.max_pages == n) && (n > 50
                ==> s.max_pages == 50) && (n == 0 ==> s.max_pages == 1)
            &&& s.matches@.len() == 0 && s.scanned == 0 && s.pages == 0 && !s.done
        },
{
    lemma_id_set(entries(req.author_ids));
    lemma_id_set(entries(req.mention_ids));
}

/// A message is one that is looked for: by one of the authors, with a mention of one of the
/// accounts, and with the text in it, as far as any of these is asked for.
pub open spec fn is_looked_for(f: Filters, m: Message) -> bool {
    &&& f.authors@.len() == 0 || exists|i: int|
        0 <= i < f.authors@.len() && #[trigger] f.authors@[i] == m.author.id
    &&& f.mentions@.len() == 0 || exists|i: int, j: int|
        0 <= i < f.mentions@.len() && 0 <= j < m.mentions@.len() && #[trigger] f.mentions@[i] == (
        #[trigger] m.mentions@[j]).id
    &&& f.text is None || exists|at: int| stands_at(lowercased(m.content@), f.text->0@, at)
}

/// A filter lets through exactly what is looked for.
pub proof fn lemma_a_filter_keeps_what_is_looked_for(f: Filters, m: Message, r: bool)
    requires
        call_ensures(Filters::matches, (&f, &m), r),
    ensures
        r <==> is_looked_for(f, m),
{
    lemma_keeps(f, m);
}

proof fn lemma_keeps(f: Filters, m: Message)
    ensures
        f.keeps(m) <==> is_looked_for(f, m),
{
    if let Some(needle) = f.text {
        lemma_has_text(lowercased(m.content@), needle@);
    }
    if f.mentions@.len() > 0 {
        if exists|i: int, j: int|
            0 <= i < f.mentions@.len() && 0 <= j < m.mentions@.len() && #[trigger] f.mentions@[i] == (
            #[trigger] m.mentions@[j]).id {
            let (i, j) = choose|i: int, j: int|
                0 <= i < f.mentions@.len() && 0 <= j < m.mentions@.len() && #[trigger] f.mentions@[i] == (
                #[trigger] m.mentions@[j]).id;
            assert(crate::gateway::mentions_account(m, f.mentions@[i]));
        }
        if exists|i: int|
            0 <= i < f.mentions@.len() && crate::gateway::mentions_account(
                m,
                #[trigger] f.mentions@[i],
            ) {
            let i = choose|i: int|
                0 <= i < f.mentions@.len() && crate::gateway::mentions_account(
                    m,
                    #[trigger] f.mentions@[i],
                );
            let j = choose|j: int|
                0 <= j < m.mentions@.len() && (#[trigger] m.mentions@[j]).id == f.mentions@[i];
            assert(f.mentions@[i] == m.mentions@[j].id);
        }
    }
}

/// Messages come newest first.
pub open spec fn comes_newest_first(page: Seq<Message>) -> bool {
    forall|i: int, j: int| 0 <= i < j < page.len() ==> (#[trigger] page[i]).id > (#[trigger] page[j]).id
}

proof fn lemma_above_all(page: Seq<Message>, floor: Option<u64>)
    requires
        comes_newest_first(page),
    ensures
        above(page, floor) <= page.len(),
        forall|i: int|
            0 <= i < page.len() ==> (i < above(page, floor) <==> (floor is None || (#[trigger] page[i]).id
                > floor->0)),
    decreases page.len(),
{
    if page.len() > 0 {
        let t = page.drop_first();
        assert(forall|i: int| 0 <= i < t.len() ==> #[trigger] t[i] == page[i + 1]);
        lemma_above_all(t, floor);
        if floor is Some && page[0].id <= floor->0 {
            assert forall|i: int| 0 <= i < page.len() implies (#[trigger] page[i]).id <= floor->0 by {
                if i > 0 {
                    assert(page[0].id > page[i].id);
                }
            }
        } else {
            assert forall|i: int| 0 <= i < page.len() implies (i < above(page, floor) <==> (floor is None
                || (#[trigger] page[i]).id > floor->0)) by {
                if i > 0 {
                    assert(t[i - 1] == page[i]);
                }
            }
        }
    }
}

/// So many messages of a page stand above the floor: those at its front.
pub open spec fn stand_above(page: Seq<Message>, floor: Option<u64>, n: int) -> bool {
    0 <= n <= page.len() && forall|i: int|
        0 <= i < page.len() ==> (i < n <==> (floor is None || (#[trigger] page[i]).id > floor->0))
}

/// A page off the wire, newest first: every message of it that is looked for and stands above
/// the floor is found, behind those found before, and nothing else is. The sweep goes on
/// exactly if the page held something, nothing of it stood at the floor or below, and there
/// are pages left; it counts what stood above the floor, and remembers the last of it.
pub proof fn lemma_a_page_is_searched(s: RestSweep, page: Seq<Message>, after: RestSweep)
    requires
        s.takes(page, after),
        comes_newest_first(page),
    ensures
        after.matches@.take(s.matches@.len() as int) == s.matches@,
        forall|m: Message| #[trigger]
            after.matches@.skip(s.matches@.len() as int).contains(m) <==> page.contains(m)
                && is_looked_for(s.filters, m) && (s.floor is None || m.id > s.floor->0),
        comes_newest_first(after.matches@.skip(s.matches@.len() as int)),
        after.filters == s.filters && after.floor == s.floor && after.max_pages == s.max_pages,
        !after.done <==> page.len() > 0 && (s.floor is None || page.last().id > s.floor->0) && s.pages
            + 1 < s.max_pages,
        page.len() > 0 ==> after.pages == s.pages + 1,
        page.len() == 0 ==> after.pages == s.pages,
        !after.done ==> after.cursor == Some(page.last().id) && after.scanned == s.scanned + page.len(),
        after.reached_cap <==> page.len() > 0 && (s.floor is None || page.last().id > s.floor->0) && s.pages + 1
            >= s.max_pages,
        exists|n: int| #[trigger]
            stand_above(page, s.floor, n) && after.scanned == s.scanned + n && (n > 0 ==> after.oldest == Some(
                page[n - 1].id,
            ) && after.cursor == after.oldest) && (n == 0 ==> after.oldest == s.oldest && after.cursor == s.cursor),
{
    lemma_above_all(page, s.floor);
    let n = above(page, s.floor) as int;
    let read = page.take(n);
    let keep = |m: Message| s.filters.keeps(m);
    let found = read.filter(keep);
    assert(after.matches@.take(s.matches@.len() as int) =~= s.matches@);
    assert(after.matches@.skip(s.matches@.len() as int) =~= found);
    lemma_filter_is_all(read, keep);
    assert(comes_newest_first(read));
    lemma_filter_in_order(read, keep);
    assert forall|m: Message| #[trigger] found.contains(m) <==> page.contains(m) && is_looked_for(
        s.filters,
        m,
    ) && (s.floor is None || m.id > s.floor->0) by {
        lemma_keeps(s.filters, m);
        assert(found.contains(m) <==> read.contains(m) && keep(m));
        if read.contains(m) {
            let i = choose|i: int| 0 <= i < read.len() && read[i] == m;
            assert(page[i] == m);
        }
        if page.contains(m) && (s.floor is None || m.id > s.floor->0) {
            let i = choose|i: int| 0 <= i < page.len() && page[i] == m;
            assert(read[i] == m);
        }
    }
    if page.len() > 0 {
        let k = page.len() - 1;
        assert(page[k] == page.last());
        assert(k < n <==> (s.floor is None || page[k].id > s.floor->0));
        if n == page.len() {
            assert(read =~= page);
        }
    }
    assert(stand_above(page, s.floor, n));
}

/// Taking a page in searches it.
pub proof fn lemma_taking_a_page_searches_it(s: &mut RestSweep, page: Vec<Message>)
    requires
        comes_newest_first(page@),
        call_ensures(RestSweep::take_page, (s, page), ()),
    ensures
        final(s).matches@.take(old(s).matches@.len() as int) == old(s).matches@,
        forall|m: Message| #[trigger]
            final(s).matches@.skip(old(s).matches@.len() as int).contains(m) <==> page@.contains(m)
                && is_looked_for(old(s).filters, m) && (old(s).floor is None || m.id > old(s).floor->0),
        !final(s).done <==> page@.len() > 0 && (old(s).floor is None || page@.last().id > old(s).floor->0) && old(
            s,
        ).pages + 1 < old(s).max_pages,
        final(s).reached_cap <==> page@.len() > 0 && (old(s).floor is None || page@.last().id > old(s).floor->0) && old(
            s,
        ).pages + 1 >= old(s).max_pages,
{
    lemma_a_page_is_searched(*old(s), page@, *final(s));
}

proof fn lemma_filter_in_order(s: Seq<Message>, keep: spec_fn(Message) -> bool)
    requires
        comes_newest_first(s),
    ensures
        comes_newest_first(s.filter(keep)),
    decreases s.len(),
{
    reveal(Seq::filter);
    if s.len() > 0 {
        let front = s.drop_last();
        assert(comes_newest_first(front));
        lemma_filter_in_order(front, keep);
        lemma_filter_is_all(front, keep);
        let before = front.filter(keep);
        let all = s.filter(keep);
        assert forall|i: int, j: int| 0 <= i < j < all.len() implies (#[trigger] all[i]).id > (
        #[trigger] all[j]).id by {
            assert(all[i] == before[i]);
            if j < before.len() {
                assert(all[j] == before[j]);
            } else {
                assert(before.contains(before[i]));
                let k = choose|k: int| 0 <= k < front.len() && front[k] == before[i];
                assert(s[k].id > s[s.len() - 1].id);
            }
        }
    }
}

} // verus!
