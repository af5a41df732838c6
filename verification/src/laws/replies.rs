//! What a reader is answered with, and by what names people go in it.

use vstd::prelude::*;

use crate::archive::ArchiveScan;
use crate::assoc::Assoc;
use crate::discord::types::{block_text, messages_shown, RenderedMessage};
use crate::discord::wire::{Member, Message};
use crate::laws::order::{all_of, in_order, lemma_both, lemma_itself, lemma_more, lemma_none, lemma_then};
use crate::laws::rendering::{lemma_every_message_is_shown, message_pieces};
use crate::laws::scan::named_id;
use crate::laws::wire::{lemma_same, same_message};
use crate::numeral::{all_digits, digits_value, lemma_decimal_is_digits, lemma_decimal_reads_back, parsed_i64, parsed_u64};
use crate::server::tools::common::{
    account_to_ask, authors, authors_to_look_up, enrich_display_names, member_display, renamed, resolve_guild,
};
use crate::server::tools::messages::read_reply;
use crate::server::tools::scan::{
    archive_meta, archive_reply, render_rest, rest_meta, scan_reply, truth, RestSweep,
};
use crate::text::{decimal, opt_text, signed_decimal, signed_number, texts};

verus! {

/// A signed number that is written reads back as itself.
pub proof fn lemma_a_signed_number_reads_back(n: i64, r: String)
    requires
        call_ensures(signed_number, (n,), r),
    ensures
        parsed_i64(r@) == Some(n),
{
    reveal_strlit("-");
    if n < 0 {
        let m = (-n) as u64;
        lemma_decimal_reads_back(m);
        lemma_decimal_is_digits(m as nat);
        assert(r@.drop_first() =~= decimal(m as nat));
        assert(all_digits(decimal(m as nat)));
        assert(crate::numeral::is_digit(decimal(m as nat)[0]));
        assert(digits_value(decimal(m as nat)) == m);
    } else {
        lemma_decimal_reads_back(n as u64);
        lemma_decimal_is_digits(n as nat);
        assert(crate::numeral::is_digit(decimal(n as nat)[0]));
    }
}

/// The pieces of messages, one message behind the other.
pub open spec fn pieces_of(messages: Seq<RenderedMessage>) -> Seq<Seq<char>> {
    all_of(messages.map_values(|m: RenderedMessage| message_pieces(m)))
}

/// A reply holds a first line and below it every message, one behind the other; and says that
/// there are none where there are none.
proof fn lemma_scan_reply(meta: Seq<char>, first: Seq<Seq<char>>, blocks: Seq<RenderedMessage>)
    requires
        in_order(meta, first),
    ensures
        in_order(scan_reply(meta, blocks), first + pieces_of(blocks)),
        blocks.len() == 0 ==> in_order(scan_reply(meta, blocks), first.push("(no matches)"@)),
{
    if blocks.len() == 0 {
        reveal_strlit("\n(no matches)");
        reveal_strlit("(no matches)");
        let tail = "\n(no matches)"@;
        lemma_more(meta, tail, first);
        assert(blocks.map_values(|m: RenderedMessage| message_pieces(m)) =~= Seq::empty());
        assert(first + pieces_of(blocks) =~= first);
        lemma_itself("(no matches)"@);
        lemma_more("(no matches)"@, seq!['\n'], seq!["(no matches)"@]);
        assert(tail =~= seq!['\n'] + "(no matches)"@);
        lemma_both(meta, tail, first, seq!["(no matches)"@]);
        assert(first + seq!["(no matches)"@] =~= first.push("(no matches)"@));
    } else {
        lemma_every_message_is_shown(blocks);
        lemma_more(meta, "\n\n"@, first);
        lemma_both(meta + "\n\n"@, block_text(blocks), first, pieces_of(blocks));
    }
}

/// What the archive found is shown whole: how many messages, how far back it goes, and every one
/// of them, in order.
pub proof fn lemma_an_archive_reply_is_whole(scan: ArchiveScan, r: String)
    requires
        call_ensures(archive_reply, (&scan,), r),
    ensures
        in_order(
            r@,
            seq![
                "archive"@,
                decimal(scan.matches@.len()),
                if scan.floor is Some {
                    signed_decimal(scan.floor->0 as int)
                } else {
                    "none"@
                },
            ] + pieces_of(scan.matches@),
        ),
        scan.matches@.len() == 0 ==> in_order(r@, seq!["(no matches)"@]),
{
    let n = decimal(scan.matches@.len());
    let floor = if scan.floor is Some {
        signed_decimal(scan.floor->0 as int)
    } else {
        "none"@
    };
    let a = "[scan] source=archive matches="@;
    reveal_strlit("[scan] source=archive matches=");
    reveal_strlit("archive");
    let front = a.take(14);
    let back = a.skip(21);
    assert(a =~= front + "archive"@ + back);
    lemma_itself("archive"@);
    lemma_more("archive"@, front, seq!["archive"@]);
    lemma_more(front + "archive"@, back, seq!["archive"@]);
    lemma_then(a, n, seq!["archive"@]);
    let p = seq!["archive"@].push(n);
    lemma_more(a + n, " archive_floor="@, p);
    lemma_then(a + n + " archive_floor="@, floor, p);
    lemma_more(
        a + n + " archive_floor="@ + floor,
        " (older than the floor is only in source=rest)"@,
        p.push(floor),
    );
    let first = seq!["archive"@, n, floor];
    assert(p.push(floor) =~= first);
    assert(archive_meta(scan) == a + n + " archive_floor="@ + floor
        + " (older than the floor is only in source=rest)"@);
    lemma_scan_reply(archive_meta(scan), first, scan.matches@);
    if scan.matches@.len() == 0 {
        assert(first.push("(no matches)"@) =~= first + seq!["(no matches)"@]);
        crate::laws::order::lemma_fewer(r@, first, seq!["(no matches)"@]);
    }
}

/// The words for yes and no.
pub open spec fn yes_or_no(b: bool) -> Seq<char> {
    if b {
        seq!['t', 'r', 'u', 'e']
    } else {
        seq!['f', 'a', 'l', 's', 'e']
    }
}

/// What is said of a sweep before its messages are shown.
pub open spec fn sweep_pieces(sweep: RestSweep) -> Seq<Seq<char>> {
    seq![
        decimal(sweep.scanned as nat),
        decimal(sweep.pages as nat),
        yes_or_no(sweep.reached_cap),
        if sweep.oldest is Some {
            decimal(sweep.oldest->0 as nat)
        } else {
            "none"@
        },
        decimal(sweep.matches@.len()),
    ]
}

proof fn lemma_rest_meta(sweep: RestSweep)
    ensures
        in_order(rest_meta(sweep), sweep_pieces(sweep)),
{
    reveal_strlit("true");
    reveal_strlit("false");
    assert("true"@ =~= yes_or_no(true));
    assert("false"@ =~= yes_or_no(false));
    let n1 = decimal(sweep.scanned as nat);
    let n2 = decimal(sweep.pages as nat);
    let n3 = truth(sweep.reached_cap);
    let n4 = if sweep.oldest is Some {
        decimal(sweep.oldest->0 as nat)
    } else {
        "none"@
    };
    let n5 = decimal(sweep.matches@.len());
    let s0 = "[scan] source=rest scanned="@;
    lemma_none(s0);
    lemma_then(s0, n1, Seq::empty());
    let p1 = Seq::<Seq<char>>::empty().push(n1);
    let s1 = s0 + n1;
    lemma_more(s1, " pages="@, p1);
    lemma_then(s1 + " pages="@, n2, p1);
    let p2 = p1.push(n2);
    let s2 = s1 + " pages="@ + n2;
    lemma_more(s2, " reached_cap="@, p2);
    lemma_then(s2 + " reached_cap="@, n3, p2);
    let p3 = p2.push(n3);
    let s3 = s2 + " reached_cap="@ + n3;
    lemma_more(s3, " oldest_scanned_id="@, p3);
    lemma_then(s3 + " oldest_scanned_id="@, n4, p3);
    let p4 = p3.push(n4);
    let s4 = s3 + " oldest_scanned_id="@ + n4;
    lemma_more(s4, " matches="@, p4);
    lemma_then(s4 + " matches="@, n5, p4);
    assert(p4.push(n5) =~= sweep_pieces(sweep));
    assert(rest_meta(sweep) == s4 + " matches="@ + n5);
}

/// What a sweep found is shown whole: how many messages and pages it read, whether it had to
/// stop, how far back it got, how many messages it kept, and every one of them, in order.
pub proof fn lemma_a_sweep_reply_is_whole(sweep: RestSweep, r: String)
    requires
        call_ensures(render_rest, (&sweep,), r),
    ensures
        exists|shown: Seq<RenderedMessage>| #[trigger]
            are_shown(sweep.matches@, shown) && in_order(
                r@,
                sweep_pieces(sweep) + pieces_of(shown),
            ),
{
    let shown = choose|blocks: Seq<RenderedMessage>| #[trigger]
        messages_shown(sweep.matches@, blocks) && r@ == scan_reply(rest_meta(sweep), blocks);
    assert forall|i: int| 0 <= i < shown.len() implies same_message(sweep.matches@[i], #[trigger] shown[i]) by {
        lemma_same(sweep.matches@[i], shown[i]);
    }
    assert(are_shown(sweep.matches@, shown));
    let first = sweep_pieces(sweep);
    lemma_rest_meta(sweep);
    lemma_scan_reply(rest_meta(sweep), first, shown);
}

/// Messages off the wire are shown whole, in order.
pub open spec fn are_shown(messages: Seq<Message>, shown: Seq<RenderedMessage>) -> bool {
    shown.len() == messages.len() && forall|i: int|
        0 <= i < shown.len() ==> same_message(messages[i], #[trigger] shown[i])
}

/// A read shows every message that was read, whole and in order, or the word that there were
/// none.
pub proof fn lemma_a_read_is_shown(messages: Vec<Message>, nothing: &str, r: String)
    requires
        call_ensures(read_reply, (&messages, nothing), r),
    ensures
        messages@.len() == 0 ==> r@ == nothing@,
        messages@.len() > 0 ==> exists|shown: Seq<RenderedMessage>| #[trigger]
            are_shown(messages@, shown) && in_order(r@, pieces_of(shown)),
{
    if messages@.len() > 0 {
        let shown = choose|blocks: Seq<RenderedMessage>| #[trigger]
            messages_shown(messages@, blocks) && r@ == block_text(blocks);
        assert forall|i: int| 0 <= i < shown.len() implies same_message(messages@[i], #[trigger] shown[i]) by {
            lemma_same(messages@[i], shown[i]);
        }
        lemma_every_message_is_shown(shown);
        assert(are_shown(messages@, shown));
    }
}

/// The number an author's id stands for is asked about, where it is one.
pub proof fn lemma_whom_to_ask(author: &str, r: Option<u64>)
    requires
        call_ensures(account_to_ask, (author,), r),
    ensures
        r == parsed_u64(author@),
{
}

proof fn lemma_authors(messages: Seq<RenderedMessage>)
    ensures
        authors(messages).no_duplicates(),
        forall|a: Seq<char>| #[trigger]
            authors(messages).contains(a) <==> exists|i: int|
                0 <= i < messages.len() && (#[trigger] messages[i]).author_id@ == a,
    decreases messages.len(),
{
    if messages.len() > 0 {
        let front = messages.drop_last();
        let last = messages.last().author_id@;
        let before = authors(front);
        let all = authors(messages);
        lemma_authors(front);
        assert forall|a: Seq<char>| #[trigger] all.contains(a) <==> exists|i: int|
            0 <= i < messages.len() && (#[trigger] messages[i]).author_id@ == a by {
            assert(all.contains(a) <==> before.contains(a) || a == last) by {
                if !before.contains(last) {
                    assert(all == before.push(last));
                    if before.contains(a) {
                        let k = choose|k: int| 0 <= k < before.len() && before[k] == a;
                        assert(all[k] == a);
                    }
                    assert(all[before.len() as int] == last);
                }
            }
            if before.contains(a) {
                let i = choose|i: int| 0 <= i < front.len() && (#[trigger] front[i]).author_id@ == a;
                assert(messages[i].author_id@ == a);
            }
            if exists|i: int| 0 <= i < messages.len() && (#[trigger] messages[i]).author_id@ == a {
                let i = choose|i: int| 0 <= i < messages.len() && (#[trigger] messages[i]).author_id@ == a;
                if i < front.len() {
                    assert(front[i].author_id@ == a);
                }
            }
            if a == last {
                assert(messages[messages.len() - 1].author_id@ == a);
            }
        }
    }
}

/// Every author is looked up, once, and nobody else.
pub proof fn lemma_every_author_is_looked_up(messages: Vec<RenderedMessage>, r: Vec<String>, a: Seq<char>)
    requires
        call_ensures(authors_to_look_up, (&messages,), r),
    ensures
        texts(r@).no_duplicates(),
        texts(r@).contains(a) <==> exists|i: int|
            0 <= i < messages@.len() && (#[trigger] messages@[i]).author_id@ == a,
{
    lemma_authors(messages@);
}

/// A message with another name for its author is the same message.
pub open spec fn differs_in_name_only(a: RenderedMessage, b: RenderedMessage) -> bool {
    a == (RenderedMessage { author_display: a.author_display, ..b })
}

/// Every message keeps all it holds, and its author goes by the name that was found for them,
/// or by the one the message gave.
pub proof fn lemma_everybody_goes_by_their_name(
    messages: Vec<RenderedMessage>,
    found: Assoc<String, Option<String>>,
    r: Vec<RenderedMessage>,
)
    requires
        found.wf(),
        call_ensures(enrich_display_names, (messages, &found), r),
    ensures
        r@.len() == messages@.len(),
        forall|i: int|
            0 <= i < r@.len() ==> {
                let author = messages@[i].author_id@;
                &&& differs_in_name_only(#[trigger] r@[i], messages@[i])
                &&& r@[i].author_display == if found.map().contains_key(author) && found.map()[author] is Some {
                    found.map()[author]
                } else {
                    messages@[i].author_display
                }
            },
{
    assert(r@ == messages@.map_values(|m: RenderedMessage| renamed(m, found.map())));
    assert forall|i: int| 0 <= i < r@.len() implies {
        let author = messages@[i].author_id@;
        &&& differs_in_name_only(#[trigger] r@[i], messages@[i])
        &&& r@[i].author_display == if found.map().contains_key(author) && found.map()[author] is Some {
            found.map()[author]
        } else {
            messages@[i].author_display
        }
    } by {
        assert(r@[i] == renamed(messages@[i], found.map()));
    }
}

/// A member goes by the name of the room, or else by the one they chose everywhere, unless that
/// is their handle.
pub proof fn lemma_a_members_name(m: Member, r: Option<String>)
    requires
        call_ensures(member_display, (&m,), r),
    ensures
        r matches Some(name) ==> name@ != m.user.name@ && (m.nick matches Some(nick) ==> name@ == nick@) && (
        m.nick is None ==> (m.user.global_name matches Some(global) && name@ == global@)),
        r is None ==> (m.nick matches Some(nick) ==> nick@ == m.user.name@) && (m.nick is None ==> (
        m.user.global_name matches Some(global) ==> global@ == m.user.name@)),
{
}

/// A request is about the guild it names, or about the home guild; where there are others
/// besides, it must be the home guild or one of them.
pub proof fn lemma_a_guild_is_resolved(arg: Option<String>, home: Option<u64>, others: Vec<u64>, r: Result<u64, String>)
    requires
        call_ensures(resolve_guild, (arg, home, &others), r),
    ensures
        ({
            let meant = if arg is Some {
                named_id(arg->0@)
            } else {
                home
            };
            &&& r is Ok <==> meant is Some && (others@.len() == 0 || home == meant || others@.contains(meant->0))
            &&& r matches Ok(guild) ==> meant == Some(guild)
        }),
{
}

} // verus!
