//! How the audit log is looked through, and what is written down of what it shows.

use vstd::prelude::*;

use crate::discord::wire::User;
use crate::gateway::{
    lemma_matched_words_stand_in_the_text, link, match_words, observed_row, Attribution, Handler, Hunt,
};
use crate::laws::gateway::{is_ours, is_row_about, names_whoever};
use crate::laws::order::{in_order, lemma_more, lemma_none, lemma_then};
use crate::laws::scan::stands_somewhere;
use crate::laws::words::lemma_has_text;
use crate::modlog::NewModAction;
use crate::numeral::lemma_decimal_reads_back;
use crate::text::{decimal, opt_text, texts};

verus! {

/// How long a hunt waits in all, and how often it looks.
pub open spec fn waits(h: Hunt, looks: nat, last: u64, back: int) -> bool {
    &&& h.next == 0
    &&& h.delays_ms@.len() == looks
    &&& looks > 0 ==> h.delays_ms@.last() == last
    &&& h.max_age_secs == back
    &&& forall|i: int, j: int| 0 <= i < j < h.delays_ms@.len() ==> h.delays_ms@[i] < h.delays_ms@[j]
}

/// A hunt is for whom it was set on: for a ban it looks three times and five minutes back, for
/// everything else half a minute; each look comes later than the one before.
pub proof fn lemma_how_a_hunt_goes(
    target: u64,
    until: Option<i64>,
    now: i64,
    ban: Hunt,
    kick: Hunt,
    leave: Hunt,
    update: Hunt,
)
    requires
        call_ensures(Hunt::for_ban, (target,), ban),
        call_ensures(Hunt::for_kick, (target,), kick),
        call_ensures(Hunt::for_ban_on_leave, (target,), leave),
        call_ensures(Hunt::for_update, (target, until, now), update),
    ensures
        ban.target == target && kick.target == target && leave.target == target && update.target == target,
        waits(ban, 3, 3000, 300),
        waits(kick, 2, 2500, 30),
        waits(leave, 1, 100, 30),
        until is Some && until->0 > now ==> waits(update, 2, 1500, 30),
        !(until is Some && until->0 > now) ==> waits(update, 1, 500, 30),
{
}

/// A hunt takes its looks one by one, each once, until none is left, and stays after the same.
pub proof fn lemma_every_look_is_taken(h: &mut Hunt, r: Option<u64>)
    requires
        old(h).wf(),
        call_ensures(Hunt::next_delay, (h,), r),
    ensures
        r is Some <==> old(h).next < old(h).delays_ms@.len(),
        r matches Some(delay) ==> delay == old(h).delays_ms@[old(h).next as int] && final(h).next == old(h).next + 1,
        r is None ==> final(h).next == old(h).next,
        final(h).delays_ms == old(h).delays_ms,
        final(h).target == old(h).target,
        final(h).max_age_secs == old(h).max_age_secs,
{
}

/// What was written down is remembered: the last hundred and twenty-eight entries are, in order,
/// and nothing is written down twice while it is.
pub proof fn lemma_what_was_written_is_remembered(h: &mut Handler, entry: u64, r: bool)
    requires
        old(h).wf(),
        call_ensures(Handler::already_recorded, (h, entry), r),
    ensures
        r <==> old(h).seen_audit_entries@.contains(entry),
        final(h).seen_audit_entries@.contains(entry),
        r ==> final(h).seen_audit_entries@ == old(h).seen_audit_entries@,
        !r && old(h).seen_audit_entries@.len() < 128 ==> final(h).seen_audit_entries@
            == old(h).seen_audit_entries@.push(entry),
        !r && old(h).seen_audit_entries@.len() == 128 ==> final(h).seen_audit_entries@
            == old(h).seen_audit_entries@.drop_first().push(entry),
{
    let before = old(h).seen_audit_entries@;
    let after = final(h).seen_audit_entries@;
    if !before.contains(entry) {
        if before.len() < 128 {
            assert(after == before.push(entry));
            assert(after[before.len() as int] == entry);
        } else {
            assert(after =~= before.drop_first().push(entry));
            assert(after[before.len() - 1] == entry);
        }
    }
}

/// A guild's moderation is ours where it is the home guild and the ledger is open; and it was
/// one of our own hands where its number is among ours.
pub proof fn lemma_whose_moderation_it_is(h: Handler, guild: u64, owns: bool, by: Attribution, ours: bool)
    requires
        call_ensures(Handler::owns_moderation, (&h, guild), owns),
        call_ensures(Handler::is_crow_executor, (&h, &by), ours),
    ensures
        owns <==> h.modlog is Some && h.default_guild == Some(guild),
        ours <==> is_ours(h, by),
{
}

/// A row of what somebody did is about whom it was done to, and names who did it and why.
pub proof fn lemma_an_observed_row_tells(
    action: &str,
    guild: u64,
    user: User,
    by: Attribution,
    metadata: Option<String>,
    row: NewModAction,
)
    requires
        call_ensures(observed_row, (action, guild, &user, by, metadata), row),
    ensures
        is_row_about(row, action@, guild, user),
        names_whoever(row, Some(by)),
        opt_text(row.metadata) == opt_text(metadata),
{
    lemma_decimal_reads_back(guild);
    lemma_decimal_reads_back(user.id);
}

/// The address of a message names the guild, the channel and the message, in order.
pub proof fn lemma_an_address_names_the_message(guild: Option<u64>, channel: u64, message: u64, r: String)
    requires
        call_ensures(link, (guild, channel, message), r),
    ensures
        in_order(
            r@,
            seq![
                if guild is Some {
                    decimal(guild->0 as nat)
                } else {
                    seq!['@', 'm', 'e']
                },
                decimal(channel as nat),
                decimal(message as nat),
            ],
        ),
{
    reveal_strlit("@me");
    assert("@me"@ =~= seq!['@', 'm', 'e']);
    let s0 = "https://discord.com/channels/"@;
    let n1 = if guild is Some {
        decimal(guild->0 as nat)
    } else {
        "@me"@
    };
    let n2 = decimal(channel as nat);
    let n3 = decimal(message as nat);
    lemma_none(s0);
    lemma_then(s0, n1, Seq::empty());
    let p1 = Seq::<Seq<char>>::empty().push(n1);
    lemma_more(s0 + n1, "/"@, p1);
    lemma_then(s0 + n1 + "/"@, n2, p1);
    lemma_more(s0 + n1 + "/"@ + n2, "/"@, p1.push(n2));
    lemma_then(s0 + n1 + "/"@ + n2 + "/"@, n3, p1.push(n2));
    assert(p1.push(n2).push(n3) =~= seq![n1, n2, n3]);
}

/// The words that call are found, each once: the mention where there is one, and every word
/// listened for that stands in the text.
pub proof fn lemma_every_call_is_found(mentioned: bool, content: &str, keywords: Vec<String>, r: Vec<String>, w: Seq<char>)
    requires
        call_ensures(match_words, (mentioned, content, &keywords), r),
    ensures
        texts(r@).no_duplicates(),
        texts(r@).contains(w) <==> (mentioned && w == "mention"@) || (texts(keywords@).contains(w)
            && stands_somewhere(content@, w)),
{
    lemma_matched_words_stand_in_the_text(mentioned, content@, texts(keywords@));
    lemma_has_text(content@, w);
}

} // verus!
