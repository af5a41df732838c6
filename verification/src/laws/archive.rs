//! What the archive keeps, and what it gives back of it.

use vstd::prelude::*;

use crate::archive::{
    haystack, insert_params, ArchiveError, MessageStore, NewMessage, ScanQuery,
};
use crate::archive_meaning::{
    are_ids, fts_words, lemma_haystack_finds_whole_ids, lemma_scan_selects_what_was_asked,
    lemma_search_means_its_words, selected,
};
use crate::discord::wire::Message;
use crate::gateway::Handler;
use crate::laws::ledger::is_limit;
use crate::laws::scan::{
    all_are_ids, are_texts_of, entries, is_anchor, is_named, is_row, is_set_of, lemma_the_archive_is_asked, named_id, numbers_of,
    stands_somewhere,
};
use crate::laws::words::{is_all_space, lemma_blank_is_all_space, lemma_has_text};
use crate::numeral::{lemma_decimal_injective, lemma_decimal_is_digits, lemma_decimal_reads_back, parsed_i64};
use crate::server::tools::archive::SearchMessagesRequest;
use crate::server::tools::scan::{archive_query, ScanChannelRequest};
use crate::server::KurouServer;
use crate::sql::{bound, Bound, Statement};
use crate::text::{ascii_lowered, decimal, is_blank, opt_text, texts, words};

verus! {

/// An end is not given, or stands for a number that the archive's rows can have.
pub open spec fn is_end(raw: Option<String>) -> bool {
    raw matches Some(raw) ==> (named_id(raw@) matches Some(id) && id <= i64::MAX)
}

/// A message is what a request looks for in a channel: between the two ends, by anybody listed
/// as author, with a mention of anybody listed, with the text in it.
pub open spec fn is_sought(channel: u64, req: ScanChannelRequest, m: Message) -> bool {
    &&& m.channel_id == channel
    &&& req.before matches Some(raw) ==> m.id < named_id(raw@)->0
    &&& req.after matches Some(raw) ==> m.id > named_id(raw@)->0
    &&& entries(req.author_ids).len() > 0 ==> is_named(entries(req.author_ids), m.author.id)
    &&& entries(req.mention_ids).len() > 0 ==> exists|i: int|
        0 <= i < m.mentions@.len() && is_named(entries(req.mention_ids), #[trigger] m.mentions@[i].id)
    &&& req.text matches Some(text) ==> stands_somewhere(ascii_lowered(m.content@), ascii_lowered(text@))
}

proof fn lemma_text_is_sought(content: Seq<char>, text: Seq<char>)
    ensures
        crate::text::has_text(ascii_lowered(content), ascii_lowered(text)) <==> stands_somewhere(
            ascii_lowered(content),
            ascii_lowered(text),
        ),
{
    lemma_has_text(ascii_lowered(content), ascii_lowered(text));
}

proof fn lemma_author_is_sought(v: Seq<String>, raw: Seq<String>, set: Seq<u64>, n: u64)
    requires
        numbers_of(v, set),
        is_set_of(set, raw),
        all_are_ids(raw),
    ensures
        texts(v).contains(decimal(n as nat)) <==> is_named(raw, n),
        v.len() > 0 <==> raw.len() > 0,
{
    assert(texts(v).len() == v.len());
    if texts(v).contains(decimal(n as nat)) {
        let i = choose|i: int| 0 <= i < v.len() && texts(v)[i] == decimal(n as nat);
        assert(texts(v)[i] == v[i]@);
        lemma_decimal_reads_back(n);
        assert(set[i] == n);
        assert(set.contains(n));
    }
    if is_named(raw, n) {
        assert(set.contains(n));
        let i = choose|i: int| 0 <= i < set.len() && set[i] == n;
        assert(texts(v)[i] == v[i]@);
        assert(texts(v)[i] == decimal(n as nat));
    }
    if raw.len() > 0 {
        assert(named_id(raw[0]@) is Some);
        assert(is_named(raw, named_id(raw[0]@)->0));
        assert(set.contains(named_id(raw[0]@)->0));
    }
    if v.len() > 0 {
        assert(set.contains(set[0]));
        assert(is_named(raw, set[0]));
    }
}

proof fn lemma_mentions_are_sought(q: ScanQuery, raw: Seq<String>, m: Message, kept: NewMessage)
    requires
        are_texts_of(q.mention_ids@, raw),
        all_are_ids(raw),
        texts(kept.mention_ids@) == m.mentions@.map_values(|u: crate::discord::wire::User| decimal(u.id as nat)),
    ensures
        are_ids(texts(q.mention_ids@)),
        are_ids(texts(kept.mention_ids@)),
        q.mention_ids@.len() > 0 <==> raw.len() > 0,
        (exists|i: int|
            0 <= i < q.mention_ids@.len() && texts(kept.mention_ids@).contains(
                #[trigger] texts(q.mention_ids@)[i],
            )) <==> (exists|i: int|
            0 <= i < m.mentions@.len() && is_named(raw, #[trigger] m.mentions@[i].id)),
{
    let asked = texts(q.mention_ids@);
    let held = texts(kept.mention_ids@);
    let set = choose|set: Seq<u64>| #[trigger] numbers_of(q.mention_ids@, set) && is_set_of(set, raw);
    lemma_author_is_sought(q.mention_ids@, raw, set, 0);
    assert(asked.len() == q.mention_ids@.len());
    assert(held.len() == m.mentions@.len());
    assert forall|i: int| 0 <= i < asked.len() implies crate::archive_meaning::is_id(#[trigger] asked[i]) by {
        assert(asked[i] == q.mention_ids@[i]@);
        lemma_decimal_is_digits(set[i] as nat);
    }
    assert forall|i: int| 0 <= i < held.len() implies crate::archive_meaning::is_id(#[trigger] held[i]) by {
        assert(held[i] == decimal(m.mentions@[i].id as nat));
        lemma_decimal_is_digits(m.mentions@[i].id as nat);
    }
    if exists|i: int| 0 <= i < q.mention_ids@.len() && held.contains(#[trigger] asked[i]) {
        let i = choose|i: int| 0 <= i < q.mention_ids@.len() && held.contains(#[trigger] asked[i]);
        let j = choose|j: int| 0 <= j < held.len() && held[j] == asked[i];
        let n = m.mentions@[j].id;
        assert(held[j] == decimal(n as nat));
        lemma_author_is_sought(q.mention_ids@, raw, set, n);
        assert(asked.contains(decimal(n as nat)));
        assert(is_named(raw, m.mentions@[j].id));
    }
    if exists|i: int| 0 <= i < m.mentions@.len() && is_named(raw, #[trigger] m.mentions@[i].id) {
        let j = choose|i: int| 0 <= i < m.mentions@.len() && is_named(raw, #[trigger] m.mentions@[i].id);
        let n = m.mentions@[j].id;
        lemma_author_is_sought(q.mention_ids@, raw, set, n);
        let i = choose|i: int| 0 <= i < asked.len() && asked[i] == decimal(n as nat);
        assert(held[j] == decimal(n as nat));
        assert(held.contains(asked[i]));
    }
}

/// The archive gives back exactly what was looked for: a message that it kept is selected where
/// the request seeks it, and nowhere else.
pub proof fn lemma_the_archive_finds_what_is_sought(
    channel: u64,
    req: ScanChannelRequest,
    q: ScanQuery,
    h: Handler,
    m: Message,
    kept: NewMessage,
)
    requires
        call_ensures(archive_query, (channel, &req), Ok::<ScanQuery, String>(q)),
        call_ensures(Handler::archives, (&h, &m), Some(kept)),
        m.id <= i64::MAX,
        is_end(req.before),
        is_end(req.after),
    ensures
        selected(q, m.id as int, kept) <==> is_sought(channel, req, m),
{
    let r = Ok::<ScanQuery, String>(q);
    lemma_the_archive_is_asked(channel, req, r);
    lemma_mentions_are_sought(q, entries(req.mention_ids), m, kept);
    lemma_scan_selects_what_was_asked(q, m.id as int, kept);
    let set = choose|set: Seq<u64>| #[trigger]
        numbers_of(q.author_ids@, set) && is_set_of(set, entries(req.author_ids));
    lemma_author_is_sought(q.author_ids@, entries(req.author_ids), set, m.author.id);
    if let Some(text) = req.text {
        lemma_text_is_sought(m.content@, text@);
    }
    assert(kept.channel_id@ == q.channel_id@ <==> m.channel_id == channel) by {
        assert(kept.channel_id@ == decimal(m.channel_id as nat));
        assert(q.channel_id@ == decimal(channel as nat));
        if kept.channel_id@ == q.channel_id@ {
            lemma_decimal_injective(m.channel_id as nat, channel as nat);
        }
    }
    let before = choose|id: Option<u64>| is_anchor(req.before, id) && is_row(q.before, id);
    let after = choose|id: Option<u64>| is_anchor(req.after, id) && is_row(q.after, id);
    assert(is_anchor(req.before, before) && is_row(q.before, before));
    assert(is_anchor(req.after, after) && is_row(q.after, after));
    assert(kept.rendered.author_id@ == decimal(m.author.id as nat));
    assert(kept.rendered.content@ == m.content@);
}

/// Two messages are the same, as far as the archive's columns go.
pub open spec fn are_kept_alike(a: NewMessage, b: NewMessage) -> bool {
    &&& parsed_i64(a.rendered.id@) == parsed_i64(b.rendered.id@)
    &&& opt_text(a.guild_id) == opt_text(b.guild_id)
    &&& a.channel_id@ == b.channel_id@
    &&& a.rendered.author_id@ == b.rendered.author_id@
    &&& a.rendered.author_name@ == b.rendered.author_name@
    &&& a.rendered.content@ == b.rendered.content@
    &&& a.rendered.timestamp@ == b.rendered.timestamp@
}

/// Everything of a message is kept: two that are kept alike are the same, mention the same
/// accounts, and are shown from the same payload. One whose id is no number is not kept.
pub proof fn lemma_a_message_is_kept_whole(
    store: MessageStore,
    a: NewMessage,
    pa: &str,
    ra: Result<Statement, ArchiveError>,
    b: NewMessage,
    pb: &str,
    rb: Result<Statement, ArchiveError>,
)
    requires
        call_ensures(MessageStore::insert, (&store, &a, pa), ra),
        call_ensures(MessageStore::insert, (&store, &b, pb), rb),
    ensures
        ra is Ok <==> parsed_i64(a.rendered.id@) is Some,
        ra matches Ok(x) ==> (rb matches Ok(y) ==> (bound(x.params@) == bound(y.params@) ==> {
            &&& are_kept_alike(a, b)
            &&& pa@ == pb@
            &&& are_ids(texts(a.mention_ids@)) && are_ids(texts(b.mention_ids@)) ==> forall|id: Seq<char>|
                crate::archive_meaning::is_id(id) ==> (#[trigger] texts(a.mention_ids@).contains(id) <==> texts(
                    b.mention_ids@,
                ).contains(id))
        })),
{
    if ra is Ok && rb is Ok && bound(ra->Ok_0.params@) == bound(rb->Ok_0.params@) {
        let p = insert_params(parsed_i64(a.rendered.id@)->0 as int, a, pa@);
        let q = insert_params(parsed_i64(b.rendered.id@)->0 as int, b, pb@);
        assert(p == q);
        assert(p[0] == q[0] && p[1] == q[1] && p[2] == q[2] && p[3] == q[3] && p[4] == q[4] && p[5] == q[5] && p[6]
            == q[6] && p[7] == q[7] && p[8] == q[8]);
        let x = texts(a.mention_ids@);
        let y = texts(b.mention_ids@);
        assert(haystack(x) == haystack(y));
        if are_ids(x) && are_ids(y) {
            assert forall|id: Seq<char>| crate::archive_meaning::is_id(id) implies (#[trigger] x.contains(id)
                <==> y.contains(id)) by {
                lemma_haystack_finds_whole_ids(x, id);
                lemma_haystack_finds_whole_ids(y, id);
            }
        }
    }
}

/// A search looks for the words it was given, each as it stands, and gives back as many messages
/// as were asked for, twenty where nothing was said. It is made exactly where the archive is
/// open and there is a word to look for.
pub proof fn lemma_a_search_looks_for_its_words(
    server: KurouServer,
    req: SearchMessagesRequest,
    r: Result<Statement, String>,
)
    requires
        call_ensures(KurouServer::search_messages, (&server, &req), r),
    ensures
        r is Ok <==> server.message_store is Some && !is_blank(req.query@),
        r matches Ok(s) ==> {
            &&& bound(s.params@).len() == 2
            &&& bound(s.params@)[0] matches Bound::Text(query) && fts_words(query) == Some(words(req.query@))
            &&& bound(s.params@)[1] matches Bound::Integer(limit) && limit >= 0 && is_limit(
                req.limit,
                20,
                limit as nat,
            )
        },
{
    lemma_blank_has_no_words(req.query@);
    if r is Ok {
        lemma_search_means_its_words(req.query@);
    }
}

proof fn lemma_blank_has_no_words(s: Seq<char>)
    ensures
        words(s).len() == 0 <==> is_blank(s),
{
    let t = crate::text::trim_start(s);
    reveal_with_fuel(words, 2);
    crate::text::lemma_trim_start_shorter(s);
    lemma_blank_is_all_space(s);
    lemma_no_words(s);
}

proof fn lemma_no_words(s: Seq<char>)
    ensures
        crate::text::trim_start(s).len() == 0 <==> is_all_space(s),
    decreases s.len(),
{
    if s.len() > 0 {
        if crate::text::is_space(s[0]) {
            let rest = s.drop_first();
            lemma_no_words(rest);
            if is_all_space(s) {
                assert forall|i: int| 0 <= i < rest.len() implies crate::text::is_space(#[trigger] rest[i]) by {
                    assert(rest[i] == s[i + 1]);
                }
            }
            if is_all_space(rest) {
                assert forall|i: int| 0 <= i < s.len() implies crate::text::is_space(#[trigger] s[i]) by {
                    if i > 0 {
                        assert(s[i] == rest[i - 1]);
                    }
                }
            }
        }
    }
}

} // verus!
