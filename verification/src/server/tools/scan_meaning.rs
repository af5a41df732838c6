//! The archive and the wire answer alike: what a request asks for, a scan of the archive
//! selects and a sweep over the wire keeps.

use vstd::prelude::*;

use crate::archive::{NewMessage, ScanQuery};
use crate::archive_meaning::{are_ids, is_id, lemma_scan_selects_what_was_asked, selected};
use crate::discord::wire::Message;
use crate::gateway::{archived, mentioned_ids, mentions_account};
use crate::numeral::{lemma_decimal_injective, lemma_decimal_is_digits};
use crate::server::tools::scan::{
    anchor_id, archive_fault, decimals, is_query_of, is_start_of, RestSweep, ScanChannelRequest,
};
use crate::text::{ascii_lowered, decimal, lowercased, opt_text, texts};

verus! {

proof fn lemma_decimals_are_ids(ids: Seq<u64>)
    ensures
        are_ids(decimals(ids)),
{
    assert forall|i: int| 0 <= i < decimals(ids).len() implies is_id(
        #[trigger] decimals(ids)[i],
    ) by {
        lemma_decimal_is_digits(ids[i] as nat);
    }
}

proof fn lemma_decimals_hold(ids: Seq<u64>, id: u64)
    ensures
        decimals(ids).contains(decimal(id as nat)) <==> ids.contains(id),
{
    if ids.contains(id) {
        let i = choose|i: int| 0 <= i < ids.len() && ids[i] == id;
        assert(decimals(ids)[i] == decimal(id as nat));
    }
    if decimals(ids).contains(decimal(id as nat)) {
        let i = choose|i: int|
            0 <= i < decimals(ids).len() && decimals(ids)[i] == decimal(id as nat);
        lemma_decimal_injective(ids[i] as nat, id as nat);
        assert(ids[i] == id);
    }
}

proof fn lemma_mentions_hold(m: Message, id: u64)
    ensures
        mentioned_ids(m.mentions@).contains(decimal(id as nat)) <==> mentions_account(m, id),
{
    let shown = mentioned_ids(m.mentions@);
    if mentions_account(m, id) {
        let i = choose|i: int| 0 <= i < m.mentions@.len() && (#[trigger] m.mentions@[i]).id == id;
        assert(shown[i] == decimal(id as nat));
    }
    if shown.contains(decimal(id as nat)) {
        let i = choose|i: int| 0 <= i < shown.len() && shown[i] == decimal(id as nat);
        lemma_decimal_injective(m.mentions@[i].id as nat, id as nat);
        assert(m.mentions@[i].id == id);
    }
}

/// A message lies between the two ids a request names, where it names them.
pub open spec fn in_range(m: Message, req: ScanChannelRequest) -> bool {
    &&& anchor_id(opt_text(req.before))->Ok_0 matches Some(before) ==> m.id < before
    &&& anchor_id(opt_text(req.after))->Ok_0 matches Some(after) ==> m.id > after
}

/// Every id of a request fits the archive's numbers.
pub open spec fn fits_the_archive(m: Message, req: ScanChannelRequest) -> bool {
    &&& m.id <= i64::MAX
    &&& anchor_id(opt_text(req.before))->Ok_0 matches Some(before) ==> before <= i64::MAX
    &&& anchor_id(opt_text(req.after))->Ok_0 matches Some(after) ==> after <= i64::MAX
}

/// Small letters are ASCII's: turning a text to small letters by all of Unicode's tables or by
/// ASCII's alone gives the same.
pub open spec fn folds_as_ascii(text: Seq<char>) -> bool {
    lowercased(text) == ascii_lowered(text)
}

/// The archive selects exactly what a sweep over the wire would keep: of the channel, between
/// the two ids, by the authors, with the mentions, with the text in it. The archive ignores the
/// case of ASCII letters and the wire that of all letters, so where a text is asked for the two
/// must come to the same in it and in the message.
pub proof fn lemma_the_archive_filters_like_the_wire(
    req: ScanChannelRequest,
    channel: u64,
    q: ScanQuery,
    sweep: RestSweep,
    m: Message,
    kept: NewMessage,
)
    requires
        archive_fault(req) is None,
        is_query_of(q, channel, req),
        is_start_of(sweep, req),
        archived(m, kept),
        req.text matches Some(text) ==> folds_as_ascii(text@) && folds_as_ascii(m.content@),
        fits_the_archive(m, req),
    ensures
        selected(q, m.id as int, kept) <==> m.channel_id == channel && in_range(m, req)
            && sweep.filters.keeps(m),
{
    let authors = sweep.filters.authors@;
    let mentions = sweep.filters.mentions@;
    lemma_decimals_are_ids(mentions);
    assert(are_ids(texts(kept.mention_ids@))) by {
        assert forall|i: int| 0 <= i < mentioned_ids(m.mentions@).len() implies is_id(
            #[trigger] mentioned_ids(m.mentions@)[i],
        ) by {
            lemma_decimal_is_digits(m.mentions@[i].id as nat);
        }
    }
    lemma_scan_selects_what_was_asked(q, m.id as int, kept);
    if decimal(m.channel_id as nat) == decimal(channel as nat) {
        lemma_decimal_injective(m.channel_id as nat, channel as nat);
    }
    lemma_decimals_hold(authors, m.author.id);
    assert(q.author_ids@.len() == texts(q.author_ids@).len());
    assert(q.mention_ids@.len() == texts(q.mention_ids@).len());
    assert(texts(q.author_ids@).contains(kept.rendered.author_id@) <==> authors.contains(m.author.id));
    let any = exists|i: int|
        0 <= i < q.mention_ids@.len() && texts(kept.mention_ids@).contains(
            #[trigger] texts(q.mention_ids@)[i],
        );
    let some = exists|i: int| 0 <= i < mentions.len() && mentions_account(m, #[trigger] mentions[i]);
    if any {
        let i = choose|i: int|
            0 <= i < q.mention_ids@.len() && texts(kept.mention_ids@).contains(
                #[trigger] texts(q.mention_ids@)[i],
            );
        assert(texts(q.mention_ids@)[i] == decimal(mentions[i] as nat));
        lemma_mentions_hold(m, mentions[i]);
        assert(mentions_account(m, mentions[i]));
    }
    if some {
        let i = choose|i: int| 0 <= i < mentions.len() && mentions_account(m, #[trigger] mentions[i]);
        lemma_mentions_hold(m, mentions[i]);
        assert(texts(q.mention_ids@)[i] == decimal(mentions[i] as nat));
    }
}

} // verus!
