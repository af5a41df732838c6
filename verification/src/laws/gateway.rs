//! What is heard, kept and written down of what others do.

use vstd::prelude::*;

use crate::archive::NewMessage;
use crate::clock::account_created;
use crate::config::GatewayMode;
use crate::discord::wire::{Message, User};
use crate::gateway::{
    evidence, is_evidence, observed, remembered, timeout_change, Attribution, AuditChange, AuditEntry,
    Departure, Doer, GatewayConfig, Handler, Hunt, Intents, Moment,
};
use crate::json::json_quoted;
use crate::laws::inbox::is_id;
use crate::laws::order::{in_order, lemma_itself, lemma_more};
use crate::modlog::NewModAction;
use crate::numeral::{lemma_decimal_reads_back, parsed_u64};
use crate::text::{joined, opt_text, texts};

verus! {

/// A gateway is opened for whoever has a use for it, and asks for no more than that: the
/// messages for the inbox, the wall and the archive, and the members for the ledger.
pub proof fn lemma_a_gateway_asks_for_what_is_used(c: GatewayConfig, open: bool, asks: Intents)
    requires
        call_ensures(GatewayConfig::wanted, (&c,), open),
        call_ensures(GatewayConfig::intents, (&c,), asks),
    ensures
        open <==> c.mode != GatewayMode::Off || c.fanout || c.archive is Some || c.modlog is Some,
        asks.guilds <==> open,
        asks.guild_messages <==> c.mode == GatewayMode::Mentions || c.fanout || c.archive is Some,
        asks.message_content <==> asks.guild_messages,
        asks.guild_moderation <==> c.modlog is Some,
        asks.guild_members <==> c.modlog is Some,
        !open ==> !asks.guild_messages && !asks.guild_members,
{
}

/// The wall shows every message of the guilds this gateway carries, where it shows any; and the
/// archive, where it is open, keeps every one of them and no other.
pub proof fn lemma_every_message_is_carried(
    h: Handler,
    m: Message,
    shown: bool,
    kept: Option<NewMessage>,
)
    requires
        call_ensures(Handler::mirrors, (&h, &m), shown),
        call_ensures(Handler::archives, (&h, &m), kept),
    ensures
        shown <==> h.fanout && exists|i: int|
            0 <= i < h.broadcast_guilds@.len() && m.guild_id == Some(#[trigger] h.broadcast_guilds@[i]),
        kept is Some <==> h.archive is Some && exists|i: int|
            0 <= i < h.broadcast_guilds@.len() && m.guild_id == Some(#[trigger] h.broadcast_guilds@[i]),
        kept matches Some(record) ==> is_id(record.guild_id, m.guild_id) && parsed_u64(
            record.channel_id@,
        ) == Some(m.channel_id) && record.mention_ids@.len() == m.mentions@.len() && (forall|i: int|
            0 <= i < m.mentions@.len() ==> parsed_u64((#[trigger] record.mention_ids@[i])@) == Some(
                m.mentions@[i].id,
            )),
{
    assert(h.carries(m.guild_id) <==> exists|i: int|
        0 <= i < h.broadcast_guilds@.len() && m.guild_id == Some(#[trigger] h.broadcast_guilds@[i]));
    if let Some(record) = kept {
        lemma_decimal_reads_back(m.channel_id);
        if let Some(guild) = m.guild_id {
            lemma_decimal_reads_back(guild);
        }
        assert(texts(record.mention_ids@).len() == record.mention_ids@.len());
        assert forall|i: int| 0 <= i < m.mentions@.len() implies parsed_u64(
            (#[trigger] record.mention_ids@[i])@,
        ) == Some(m.mentions@[i].id) by {
            assert(texts(record.mention_ids@)[i] == record.mention_ids@[i]@);
            lemma_decimal_reads_back(m.mentions@[i].id);
        }
    }
}

/// A row is about somebody in a guild, and of a kind.
pub open spec fn is_row_about(row: NewModAction, action: Seq<char>, guild: u64, user: User) -> bool {
    &&& row.action@ == action
    &&& parsed_u64(row.guild_id@) == Some(guild)
    &&& row.target_id is Some && parsed_u64(row.target_id->0@) == Some(user.id)
    &&& row.target_name is Some && row.target_name->0@ == user.name@
}

/// A row names whoever was found to have done it, and why, as far as that is known.
pub open spec fn names_whoever(row: NewModAction, found: Option<Attribution>) -> bool {
    match found {
        Some(by) => opt_text(row.executor_id) == opt_text(by.executor_id) && opt_text(row.executor_name)
            == opt_text(by.executor_name) && opt_text(row.reason) == opt_text(by.reason),
        None => row.executor_id is None && row.executor_name is None && row.reason is None,
    }
}

proof fn lemma_observed(
    row: NewModAction,
    action: Seq<char>,
    guild: u64,
    user: User,
    by: Doer,
    metadata: Option<Seq<char>>,
)
    requires
        observed(row, action, guild, user, by, metadata),
    ensures
        is_row_about(row, action, guild, user),
{
    lemma_decimal_reads_back(guild);
    lemma_decimal_reads_back(user.id);
}

/// One of our own hands did it: this bot's or another's of the house.
pub open spec fn is_ours(h: Handler, by: Attribution) -> bool {
    by.executor_id matches Some(id) && (parsed_u64(id@) == Some(h.bot_user_id) || exists|i: int|
        0 <= i < h.crow_bot_ids@.len() && parsed_u64(id@) == Some(#[trigger] h.crow_bot_ids@[i]))
}

proof fn lemma_ours(h: Handler, by: Attribution)
    ensures
        h.crow_did_it(by) <==> is_ours(h, by),
{
}

/// Bans, unbans and kicks that others give in the home guild are written down, where the
/// ledger is open; those of our own hands are not, since they wrote a row themselves.
pub open spec fn is_to_be_written(h: Handler, guild: u64, found: Option<Attribution>) -> bool {
    h.modlog is Some && h.default_guild == Some(guild) && (found matches Some(by) ==> !is_ours(h, by))
}

/// Every ban, and every unban, that another gave is written down: who it was about, and who
/// did it and why, as far as was found.
pub proof fn lemma_bans_of_others_are_written(
    h: Handler,
    guild: u64,
    user: User,
    found: Option<Attribution>,
    ban: Option<NewModAction>,
    unban: Option<NewModAction>,
)
    requires
        call_ensures(Handler::guild_ban_addition, (&h, guild, &user, found), ban),
        call_ensures(Handler::guild_ban_removal, (&h, guild, &user, found), unban),
    ensures
        ban is Some <==> is_to_be_written(h, guild, found),
        unban is Some <==> is_to_be_written(h, guild, found),
        ban matches Some(row) ==> is_row_about(row, "ban"@, guild, user) && names_whoever(row, found),
        unban matches Some(row) ==> is_row_about(row, "unban"@, guild, user) && names_whoever(row, found),
{
    if let Some(by) = found {
        lemma_ours(h, by);
    }
    if let Some(row) = ban {
        lemma_observed(row, "ban"@, guild, user, crate::gateway::doer(found), None);
    }
    if let Some(row) = unban {
        lemma_observed(row, "unban"@, guild, user, crate::gateway::doer(found), None);
    }
}

/// Whoever joins the home guild is written down, with the moment their account was made.
/// Whoever leaves it is, as kicked where a kick was found that was not ours, and as gone where
/// neither a kick nor a ban was.
pub proof fn lemma_comings_and_goings_are_written(
    h: Handler,
    guild: u64,
    user: User,
    joined_row: Option<NewModAction>,
    kick: Option<Attribution>,
    departure: Departure,
    banned: bool,
    left: Option<NewModAction>,
)
    requires
        call_ensures(Handler::guild_member_addition, (&h, guild, &user), joined_row),
        call_ensures(Handler::guild_member_removal, (&h, guild, &user, kick), departure),
        call_ensures(Handler::guild_member_left, (&h, guild, &user, banned), left),
    ensures
        joined_row is Some <==> h.modlog is Some && h.default_guild == Some(guild),
        joined_row matches Some(row) ==> is_row_about(row, "join"@, guild, user) && row.metadata is Some
            && in_order(row.metadata->0@, seq![json_quoted(account_created(user.id as int))]),
        departure matches Departure::Record(row) ==> is_row_about(row, "kick"@, guild, user)
            && names_whoever(row, kick),
        departure is Record <==> kick is Some && is_to_be_written(h, guild, kick),
        departure is LookForBan <==> kick is None && is_to_be_written(h, guild, kick),
        left is Some <==> is_to_be_written(h, guild, None) && !banned,
        left matches Some(row) ==> is_row_about(row, "leave"@, guild, user) && names_whoever(row, None),
{
    if let Some(by) = kick {
        lemma_ours(h, by);
    }
    if let Some(row) = joined_row {
        let made = json_quoted(account_created(user.id as int));
        let text = crate::gateway::single("account_created"@, account_created(user.id as int));
        lemma_observed(row, "join"@, guild, user, crate::gateway::doer(None), Some(text));
        lemma_single("account_created"@, account_created(user.id as int));
    }
    if let Departure::Record(row) = departure {
        lemma_observed(row, "kick"@, guild, user, crate::gateway::doer(kick), None);
    }
    if let Some(row) = left {
        lemma_observed(row, "leave"@, guild, user, crate::gateway::doer(None), None);
    }
}

proof fn lemma_single(key: Seq<char>, text: Seq<char>)
    ensures
        in_order(crate::gateway::single(key, text), seq![json_quoted(text)]),
{
    let v = json_quoted(text);
    let one = crate::json::member(key, v);
    lemma_itself(v);
    lemma_more(v, json_quoted(key) + seq![':'], seq![v]);
    assert(joined(seq![one], seq![',']) =~= one);
    lemma_more(one, seq!['{'], seq![v]);
    lemma_more(seq!['{'] + one, seq!['}'], seq![v]);
}

/// The first change that tells of a timeout.
pub open spec fn is_first_timeout(changes: Seq<AuditChange>, k: int) -> bool {
    &&& 0 <= k < changes.len()
    &&& changes[k] is CommunicationDisabledUntil
    &&& forall|i: int| 0 <= i < k ==> (#[trigger] changes[i]) is Other
}

proof fn lemma_timeout_change(changes: Seq<AuditChange>)
    ensures
        timeout_change(changes) is None <==> forall|i: int|
            0 <= i < changes.len() ==> (#[trigger] changes[i]) is Other,
        timeout_change(changes) matches Some(until) ==> exists|k: int| #[trigger]
            is_first_timeout(changes, k) && changes[k]->until == until,
    decreases changes.len(),
{
    if changes.len() > 0 {
        let t = changes.drop_first();
        lemma_timeout_change(t);
        assert(forall|i: int| 0 <= i < t.len() ==> #[trigger] t[i] == changes[i + 1]);
        match changes[0] {
            AuditChange::CommunicationDisabledUntil { until } => {
                assert(is_first_timeout(changes, 0));
            },
            AuditChange::Other => {
                if let Some(until) = timeout_change(t) {
                    let k = choose|k: int| #[trigger] is_first_timeout(t, k) && t[k]->until == until;
                    assert forall|i: int| 0 <= i < k + 1 implies (#[trigger] changes[i]) is Other by {
                        if i > 0 {
                            assert(t[i - 1] == changes[i]);
                        }
                    }
                    assert(is_first_timeout(changes, k + 1));
                } else {
                    assert forall|i: int| 0 <= i < changes.len() implies (#[trigger] changes[i]) is Other by {
                        if i > 0 {
                            assert(t[i - 1] == changes[i]);
                        }
                    }
                }
            },
        }
    }
}

/// An entry tells of a timeout, and of this end.
pub open spec fn tells_of_timeout(by: Attribution, until: Option<Moment>) -> bool {
    by.entry matches Some(entry) && exists|k: int| #[trigger]
        is_first_timeout(entry.changes@, k) && entry.changes@[k]->until == until
}

/// A change of a member is written down exactly where the entry found tells of a timeout that
/// another gave or lifted in the home guild, and was not written down before. It is a timeout
/// where its end is still to come, and otherwise the end of one. The entry is remembered, and
/// up to a hundred and twenty-eight of them are.
pub proof fn lemma_timeouts_of_others_are_written_once(
    h: Handler,
    after: Handler,
    guild: u64,
    user: User,
    found: Option<Attribution>,
    now: i64,
    r: Option<NewModAction>,
)
    requires
        h.writes_update(after, guild, user, found, now, r),
    ensures
        r is Some <==> {
            &&& h.modlog is Some && h.default_guild == Some(guild)
            &&& found is Some && !is_ours(h, found->0)
            &&& exists|until: Option<Moment>| tells_of_timeout(found->0, until)
            &&& !h.seen_audit_entries@.contains(found->0.entry->0.id)
        },
        r matches Some(row) ==> names_whoever(row, found) && (forall|until: Option<Moment>| #[trigger]
            tells_of_timeout(found->0, until) ==> if until is Some && until->0.unix > now {
                is_row_about(row, "timeout"@, guild, user) && row.metadata is Some && in_order(
                    row.metadata->0@,
                    seq![json_quoted(until->0.text@)],
                )
            } else {
                is_row_about(row, "timeout_remove"@, guild, user)
            }),
        r is Some ==> after.seen_audit_entries@.contains(found->0.entry->0.id),
        r is None ==> after.seen_audit_entries@ == h.seen_audit_entries@,
        h.seen_audit_entries@.len() < 128 ==> forall|id: u64| #[trigger]
            h.seen_audit_entries@.contains(id) ==> after.seen_audit_entries@.contains(id),
        h.seen_audit_entries@.len() <= 128 ==> after.seen_audit_entries@.len() <= 128,
{
    if let Some(by) = found {
        lemma_ours(h, by);
        if let Some(entry) = by.entry {
            lemma_timeout_change(entry.changes@);
            let seen = h.seen_audit_entries@;
            lemma_remembered(seen, entry.id);
            assert forall|until: Option<Moment>| #[trigger] tells_of_timeout(by, until) implies timeout_change(
                entry.changes@,
            ) == Some(until) by {
                let k = choose|k: int| #[trigger]
                    is_first_timeout(entry.changes@, k) && entry.changes@[k]->until == until;
                lemma_first_is_one(entry.changes@, k);
            }
            if let Some(until) = timeout_change(entry.changes@) {
                assert(tells_of_timeout(by, until));
                if let Some(row) = r {
                    match until {
                        Some(moment) => {
                            if moment.unix > now {
                                lemma_observed(
                                    row,
                                    "timeout"@,
                                    guild,
                                    user,
                                    crate::gateway::doer(found),
                                    Some(crate::gateway::single("until"@, moment.text@)),
                                );
                                lemma_single("until"@, moment.text@);
                            } else {
                                lemma_observed(
                                    row,
                                    "timeout_remove"@,
                                    guild,
                                    user,
                                    crate::gateway::doer(found),
                                    None,
                                );
                            }
                        },
                        None => {
                            lemma_observed(
                                row,
                                "timeout_remove"@,
                                guild,
                                user,
                                crate::gateway::doer(found),
                                None,
                            );
                        },
                    }
                }
            }
        }
    }
}

proof fn lemma_first_is_one(changes: Seq<AuditChange>, k: int)
    requires
        is_first_timeout(changes, k),
    ensures
        timeout_change(changes) == Some(changes[k]->until),
    decreases changes.len(),
{
    let t = changes.drop_first();
    if k > 0 {
        assert(changes[0] is Other);
        assert(t[k - 1] == changes[k]);
        assert forall|i: int| 0 <= i < k - 1 implies (#[trigger] t[i]) is Other by {
            assert(t[i] == changes[i + 1]);
        }
        lemma_first_is_one(t, k - 1);
    }
}

proof fn lemma_remembered(seen: Seq<u64>, id: u64)
    ensures
        remembered(seen, id).contains(id),
        seen.len() <= 128 ==> remembered(seen, id).len() <= 128,
        seen.len() < 128 ==> forall|x: u64| #[trigger] seen.contains(x) ==> remembered(seen, id).contains(x),
{
    let all = seen.push(id);
    if !seen.contains(id) {
        assert(all[all.len() - 1] == id);
        if seen.len() + 1 > 128 {
            assert(all.drop_first()[all.len() - 2] == id);
        } else {
            assert forall|x: u64| #[trigger] seen.contains(x) implies all.contains(x) by {
                let k = choose|k: int| 0 <= k < seen.len() && seen[k] == x;
                assert(all[k] == x);
            }
        }
    }
}

/// One look finds the first entry about the target that is young enough, and finds none only
/// where there is none. An entry's age goes by its id.
pub proof fn lemma_a_look_finds_the_first(hunt: Hunt, entries: Vec<AuditEntry>, now: i64, r: Option<usize>)
    requires
        call_ensures(Hunt::examine, (&hunt, &entries, now), r),
    ensures
        r is None <==> forall|i: int| 0 <= i < entries@.len() ==> !counts(hunt, #[trigger] entries@[i], now),
        r matches Some(k) ==> k < entries@.len() && counts(hunt, entries@[k as int], now) && (forall|i: int|
            0 <= i < k ==> !counts(hunt, #[trigger] entries@[i], now)),
{
    lemma_evidence(entries@, hunt, now);
}

/// An entry is about the target of a hunt, and young enough.
pub open spec fn counts(hunt: Hunt, entry: AuditEntry, now: i64) -> bool {
    entry.target_id == Some(hunt.target) && now - (entry.id as int / 4_194_304 + 1_420_070_400_000) / 1000
        < hunt.max_age_secs
}

proof fn lemma_evidence(entries: Seq<AuditEntry>, hunt: Hunt, now: i64)
    ensures
        match evidence(entries, hunt.target, now as int, hunt.max_age_secs as int) {
            Some(k) => 0 <= k < entries.len() && counts(hunt, entries[k], now) && (forall|i: int|
                0 <= i < k ==> !counts(hunt, #[trigger] entries[i], now)),
            None => forall|i: int| 0 <= i < entries.len() ==> !counts(hunt, #[trigger] entries[i], now),
        },
    decreases entries.len(),
{
    if entries.len() > 0 {
        let t = entries.drop_first();
        lemma_evidence(t, hunt, now);
        assert(is_evidence(entries[0], hunt.target, now as int, hunt.max_age_secs as int) == counts(
            hunt,
            entries[0],
            now,
        ));
        if !counts(hunt, entries[0], now) {
            match evidence(t, hunt.target, now as int, hunt.max_age_secs as int) {
                Some(k) => {
                    assert(entries[k + 1] == t[k]);
                    assert forall|i: int| 0 <= i < k + 1 implies !counts(hunt, #[trigger] entries[i], now) by {
                        if i > 0 {
                            assert(t[i - 1] == entries[i]);
                        }
                    }
                },
                None => {
                    assert forall|i: int| 0 <= i < entries.len() implies !counts(
                        hunt,
                        #[trigger] entries[i],
                        now,
                    ) by {
                        if i > 0 {
                            assert(t[i - 1] == entries[i]);
                        }
                    }
                },
            }
        }
    }
}

} // verus!
