//! Who may act on whom, for how long, and what an act leaves behind.

use vstd::prelude::*;

use crate::clock::timestamp_seconds;
use crate::discord::wire::Message;
use crate::laws::hands::{goes_by, has_bot, lemma_who_may_act};
use crate::laws::order::stands_at;
use crate::laws::scan::{named_id, stands_somewhere};
use crate::laws::words::{lemma_filter_is_all, lemma_has_text};
use crate::modlog::ModAction;
use crate::numeral::parsed_u64;
use crate::scheduler::{due_expiries, expire, is_due, Expiry, ExpiryError};
use crate::server::tools::common::Caller;
use crate::server::tools::hands::{
    after_failed_revert, ban_terms, timeout_terms, Aim, BanTerms, BanUserRequest,
    DeleteMessageRequest, Hand, MessageAim, Retirement, RoleAim, RoleRequest, TimeoutTerms,
    TimeoutUserRequest,
};
use crate::server::tools::raid::{
    is_young, lemma_only_sending_changes, lock_overwrite, message_ids, overwrite_of, purge_count, purge_plan,
    slowmode_seconds, snapshots, ChannelAim, Overwrite, OverwriteKind, PurgePlan, Snapshot,
};
use crate::server::{KurouServer, Probe, Voice};
use crate::text::{is_blank, signed_decimal};

verus! {

/// A ban for any number of hours that is not zero ends, and its end reads back as so many hours
/// after the moment it was given, whenever a moment that late has a timestamp. Without hours it
/// does not end. It deletes the days asked for, up to seven.
pub proof fn lemma_any_tempban_ends(req: BanUserRequest, now: i64, r: Result<BanTerms, String>)
    requires
        call_ensures(ban_terms, (&req, now), r),
    ensures
        req.duration_hours matches Some(hours) ==> (hours > 0 && now + hours * 3600 <= 253_402_300_799
            ==> r is Ok && r->Ok_0.expires_at is Some && timestamp_seconds(r->Ok_0.expires_at->0@)
            == Some(now + hours * 3600)),
        req.duration_hours matches Some(hours) ==> (hours > 0 && r is Ok ==> r->Ok_0.expires_at is Some
            && timestamp_seconds(r->Ok_0.expires_at->0@) == Some(now + hours * 3600)),
        req.duration_hours is None || req.duration_hours == Some(0u32) ==> r is Ok
            && r->Ok_0.expires_at is None,
        r matches Ok(terms) ==> (req.delete_message_days is None ==> terms.days == 0) && (
        req.delete_message_days matches Some(days) ==> (days <= 7 ==> terms.days == days) && (days > 7
            ==> terms.days == 7)),
{
}

/// A timeout of any number of minutes that is not zero is given, for so long, up to twenty-eight
/// days; one of no minutes is refused.
pub proof fn lemma_any_timeout_ends(req: TimeoutUserRequest, now: i64, r: Result<TimeoutTerms, String>)
    requires
        call_ensures(timeout_terms, (&req, now), r),
    ensures
        req.duration_minutes == 0 ==> r is Err,
        0 < req.duration_minutes <= 40_320 && now + req.duration_minutes * 60 <= 253_402_300_799 ==> {
            &&& r is Ok
            &&& r->Ok_0.minutes == req.duration_minutes
            &&& r->Ok_0.until_unix == now + req.duration_minutes * 60
            &&& timestamp_seconds(r->Ok_0.until@) == Some(now + req.duration_minutes * 60)
        },
        req.duration_minutes > 40_320 && now + 2_419_200 <= 253_402_300_799 ==> {
            &&& r is Ok
            &&& r->Ok_0.minutes == 40_320
            &&& r->Ok_0.until_unix == now + 2_419_200
            &&& timestamp_seconds(r->Ok_0.until@) == Some(now + 2_419_200)
        },
{
}

/// A caller may act: they give a reason, go by a label that has a bot, and the act can be
/// written down in a home guild.
pub open spec fn may_act(server: KurouServer, caller: Caller, intent: Seq<char>) -> bool {
    &&& !is_blank(intent)
    &&& exists|label: Seq<char>| goes_by(caller, label) && has_bot(server, label)
    &&& server.modlog_store is Some
    &&& server.default_guild is Some
}

/// A hand is the caller's own, in the home guild: their label and the bot of that label.
pub open spec fn is_own_hand(server: KurouServer, caller: Caller, hand: Hand) -> bool {
    &&& goes_by(caller, hand.label@)
    &&& Some(hand.guild) == server.default_guild
    &&& hand.label@ == "koma"@ ==> hand.voice is Primary
    &&& hand.label@ != "koma"@ ==> (hand.voice matches Voice::Sender { label: own } && own@
        == hand.label@)
}

/// Whoever may act has a hand of their own, and nobody else has one.
pub proof fn lemma_a_hand_is_ones_own(
    server: KurouServer,
    caller: Caller,
    intent: &str,
    r: Result<Hand, String>,
)
    requires
        call_ensures(KurouServer::hand, (&server, &caller, intent), r),
    ensures
        r is Ok <==> may_act(server, caller, intent@),
        r matches Ok(hand) ==> is_own_hand(server, caller, hand),
{
    lemma_who_may_act(server, caller, intent@);
}

/// An act on an account is aimed at the account named, by whoever may act.
pub proof fn lemma_an_aim_is_at_the_account_named(
    server: KurouServer,
    caller: Caller,
    intent: &str,
    user: &str,
    r: Result<Aim, String>,
)
    requires
        call_ensures(KurouServer::aim, (&server, &caller, intent, user), r),
    ensures
        r is Ok <==> may_act(server, caller, intent@) && named_id(user@) is Some,
        r matches Ok(aim) ==> is_own_hand(server, caller, aim.hand) && Some(aim.target) == named_id(user@),
{
    lemma_who_may_act(server, caller, intent@);
}

/// An act with a role is aimed at the account and the role named.
pub proof fn lemma_an_aim_is_with_the_role_named(
    server: KurouServer,
    caller: Caller,
    req: RoleRequest,
    r: Result<RoleAim, String>,
)
    requires
        call_ensures(KurouServer::aim_role, (&server, &caller, &req), r),
    ensures
        r is Ok <==> may_act(server, caller, req.intent@) && named_id(req.user_id@) is Some && named_id(
            req.role_id@,
        ) is Some,
        r matches Ok(aim) ==> is_own_hand(server, caller, aim.aim.hand) && Some(aim.aim.target)
            == named_id(req.user_id@) && Some(aim.role) == named_id(req.role_id@),
{
    lemma_who_may_act(server, caller, req.intent@);
}

/// A message is deleted where it was named.
pub proof fn lemma_an_aim_is_at_the_message_named(
    server: KurouServer,
    caller: Caller,
    req: DeleteMessageRequest,
    r: Result<MessageAim, String>,
)
    requires
        call_ensures(KurouServer::aim_message, (&server, &caller, &req), r),
    ensures
        r is Ok <==> may_act(server, caller, req.intent@) && named_id(req.channel_id@) is Some && named_id(
            req.message_id@,
        ) is Some,
        r matches Ok(aim) ==> is_own_hand(server, caller, aim.hand) && Some(aim.channel) == named_id(
            req.channel_id@,
        ) && Some(aim.message) == named_id(req.message_id@),
{
    lemma_who_may_act(server, caller, req.intent@);
}

/// An act on a channel is aimed at the channel named.
pub proof fn lemma_an_aim_is_at_the_channel_named(
    server: KurouServer,
    caller: Caller,
    intent: &str,
    channel: &str,
    r: Result<ChannelAim, String>,
)
    requires
        call_ensures(KurouServer::aim_channel, (&server, &caller, intent, channel), r),
    ensures
        r is Ok <==> may_act(server, caller, intent@) && named_id(channel@) is Some,
        r matches Ok(aim) ==> is_own_hand(server, caller, aim.hand) && Some(aim.channel) == named_id(
            channel@,
        ),
{
    lemma_who_may_act(server, caller, intent@);
}

/// The hands act on a channel exactly where it is known to be in the home guild.
pub proof fn lemma_hands_stay_home(
    server: KurouServer,
    channel: u64,
    probe: Probe,
    failure: &str,
    r: Result<(), String>,
)
    requires
        call_ensures(KurouServer::guard_primary_channel, (&server, channel, probe, failure), r),
    ensures
        r is Ok <==> (probe matches Probe::InGuild(guild) && server.default_guild == Some(guild)),
{
}

/// An undoing row that could not be linked is written on its own exactly where the other was
/// undone already.
pub proof fn lemma_a_lost_race_is_written_alone(what: &str, error: &str, r: Retirement)
    requires
        call_ensures(after_failed_revert, (what, error), r),
    ensures
        r is RecordAlone <==> stands_somewhere(error@, "already reverted"@),
        r matches Retirement::Failed(text) ==> stands_somewhere(text@, error@) && stands_somewhere(
            text@,
            what@,
        ),
{
    lemma_has_text(error@, "already reverted"@);
    if let Retirement::Failed(text) = r {
        let at = "the "@.len() as int;
        assert(text@.subrange(at, at + what@.len()) =~= what@);
        assert(stands_at(text@, what@, at));
        let end = ("the "@ + what@
            + " WENT THROUGH but the ledger write failed - record it by hand: "@).len() as int;
        assert(text@.subrange(end, end + error@.len()) =~= error@);
        assert(stands_at(text@, error@, end));
    }
}

proof fn lemma_first_overwrite(overwrites: Seq<Overwrite>, role: u64)
    ensures
        overwrite_of(overwrites, role) is None <==> forall|i: int|
            0 <= i < overwrites.len() ==> (#[trigger] overwrites[i]).kind != OverwriteKind::Role(role),
        overwrite_of(overwrites, role) matches Some(o) ==> exists|k: int|
            0 <= k < overwrites.len() && #[trigger] overwrites[k] == o && o.kind == OverwriteKind::Role(
                role,
            ) && (forall|i: int|
                0 <= i < k ==> (#[trigger] overwrites[i]).kind != OverwriteKind::Role(role)),
    decreases overwrites.len(),
{
    if overwrites.len() > 0 {
        let t = overwrites.drop_first();
        lemma_first_overwrite(t, role);
        assert(forall|i: int| 0 <= i < t.len() ==> #[trigger] t[i] == overwrites[i + 1]);
        if overwrites[0].kind == OverwriteKind::Role(role) {
            assert(overwrites[0] == overwrite_of(overwrites, role)->0);
        } else if let Some(o) = overwrite_of(t, role) {
            let k = choose|k: int|
                0 <= k < t.len() && #[trigger] t[k] == o && o.kind == OverwriteKind::Role(role) && (
                forall|i: int|
                    0 <= i < k ==> (#[trigger] t[i]).kind != OverwriteKind::Role(role));
            assert(overwrites[k + 1] == o);
            assert forall|i: int| 0 <= i < k + 1 implies (#[trigger] overwrites[i]).kind
                != OverwriteKind::Role(role) by {
                if i > 0 {
                    assert(t[i - 1] == overwrites[i]);
                }
            }
        } else {
            assert forall|i: int| 0 <= i < overwrites.len() implies (#[trigger] overwrites[i]).kind
                != OverwriteKind::Role(role) by {
                if i > 0 {
                    assert(t[i - 1] == overwrites[i]);
                }
            }
        }
    }
}

/// Locking takes from everybody the permission to send, unlocking no longer denies it, and
/// every other permission that everybody had or was denied stays as it was.
pub proof fn lemma_a_lock_changes_sending_alone(
    overwrites: Vec<Overwrite>,
    guild: u64,
    lock: bool,
    r: Overwrite,
)
    requires
        call_ensures(lock_overwrite, (&overwrites, guild, lock), r),
    ensures
        r.kind == OverwriteKind::Role(guild),
        lock ==> r.deny & 0x800 == 0x800 && r.allow & 0x800 == 0,
        !lock ==> r.deny & 0x800 == 0,
        forall|k: int|
            #![trigger overwrites@[k]]
            0 <= k < overwrites@.len() && overwrites@[k].kind == OverwriteKind::Role(guild) && (forall|
                i: int,
            |
                0 <= i < k ==> (#[trigger] overwrites@[i]).kind != OverwriteKind::Role(guild)) ==> {
                &&& r.deny & !0x800u64 == overwrites@[k].deny & !0x800u64
                &&& r.allow & !0x800u64 == overwrites@[k].allow & !0x800u64
                &&& !lock ==> r.allow == overwrites@[k].allow
            },
        (forall|i: int|
            0 <= i < overwrites@.len() ==> (#[trigger] overwrites@[i]).kind != OverwriteKind::Role(guild))
            ==> r.allow & !0x800u64 == 0 && r.deny & !0x800u64 == 0,
{
    lemma_first_overwrite(overwrites@, guild);
    let o = overwrite_of(overwrites@, guild);
    let (allow, deny) = match o {
        Some(o) => (o.allow, o.deny),
        None => (0u64, 0u64),
    };
    lemma_only_sending_changes(allow, deny, lock);
    assert(0u64 & !0x800u64 == 0) by (bit_vector);
    assert(!0x800u64 & 0u64 == 0) by (bit_vector);
}

/// The numbers a raid hand takes: a slowmode of up to six hours, and one to a hundred messages.
pub proof fn lemma_raid_numbers(asked: u16, seconds: u16, wanted: u8, count: u8)
    requires
        call_ensures(slowmode_seconds, (asked,), seconds),
        call_ensures(purge_count, (wanted,), count),
    ensures
        asked <= 21_600 ==> seconds == asked,
        asked > 21_600 ==> seconds == 21_600,
        1 <= wanted <= 100 ==> count == wanted,
        wanted == 0 ==> count == 1,
        wanted > 100 ==> count == 100,
{
}

/// A purge takes every message, each in one way: those younger than fourteen days but a minute
/// at once, and the older ones one by one.
pub proof fn lemma_a_purge_takes_everything(messages: Vec<Message>, now: i64, plan: PurgePlan)
    requires
        call_ensures(purge_plan, (&messages, now), plan),
    ensures
        plan.young@.len() + plan.old@.len() == messages@.len(),
        forall|i: int|
            0 <= i < messages@.len() ==> {
                let id = (#[trigger] messages@[i]).id;
                let age = now - (id as int / 4_194_304 + 1_420_070_400_000) / 1000;
                &&& plan.young@.contains(id) <==> age < 1_209_540
                &&& plan.old@.contains(id) <==> age >= 1_209_540
            },
        forall|id: u64| #[trigger]
            plan.young@.contains(id) ==> exists|i: int|
                0 <= i < messages@.len() && (#[trigger] messages@[i]).id == id,
        forall|id: u64| #[trigger]
            plan.old@.contains(id) ==> exists|i: int|
                0 <= i < messages@.len() && (#[trigger] messages@[i]).id == id,
{
    let ids = message_ids(messages@);
    lemma_filter_is_all(ids, |id: u64| is_young(id, now));
    lemma_filter_is_all(ids, |id: u64| !is_young(id, now));
    assert forall|i: int| 0 <= i < messages@.len() implies ids.contains((#[trigger] messages@[i]).id) by {
        assert(ids[i] == messages@[i].id);
    }
    assert forall|id: u64| #[trigger] ids.contains(id) implies exists|i: int|
        0 <= i < messages@.len() && (#[trigger] messages@[i]).id == id by {
        let i = choose|i: int| 0 <= i < ids.len() && ids[i] == id;
        assert(messages@[i].id == id);
    }
}

/// Of every message that would go it is shown which it is, who wrote it and what it said.
pub proof fn lemma_a_dry_run_shows_everything(messages: Vec<Message>, r: Vec<Snapshot>)
    requires
        call_ensures(snapshots, (&messages,), r),
    ensures
        r@.len() == messages@.len(),
        forall|i: int|
            0 <= i < r@.len() ==> {
                &&& parsed_u64((#[trigger] r@[i]).id@) == Some(messages@[i].id)
                &&& parsed_u64(r@[i].author_id@) == Some(messages@[i].author.id)
                &&& r@[i].author@ == messages@[i].author.name@
                &&& r@[i].content@ == messages@[i].content@
            },
{
    assert forall|i: int| 0 <= i < r@.len() implies parsed_u64((#[trigger] r@[i]).id@) == Some(
        messages@[i].id,
    ) && parsed_u64(r@[i].author_id@) == Some(messages@[i].author.id) && r@[i].author@
        == messages@[i].author.name@ && r@[i].content@ == messages@[i].content@ by {
        crate::numeral::lemma_decimal_reads_back(messages@[i].id);
        crate::numeral::lemma_decimal_reads_back(messages@[i].author.id);
    }
}

/// The timer ends every ban whose end has come, and no other.
pub proof fn lemma_every_due_ban_ends(pending: Vec<ModAction>, now: i64, r: Vec<ModAction>)
    requires
        call_ensures(due_expiries, (pending, now), r),
    ensures
        forall|row: ModAction| #[trigger]
            r@.contains(row) <==> pending@.contains(row) && row.expires_at is Some && timestamp_seconds(
                row.expires_at->0@,
            ) is Some && timestamp_seconds(row.expires_at->0@)->0 <= now,
{
    lemma_filter_is_all(pending@, |row: ModAction| is_due(row, now as int));
}

/// Ending a ban is unbanning whom it was about, where it was given, in a row of its own that
/// names the ban's and the house.
pub proof fn lemma_ending_a_ban_unbans(row: ModAction, r: Result<Expiry, ExpiryError>)
    requires
        call_ensures(expire, (&row,), r),
    ensures
        r is Ok <==> parsed_u64(row.guild_id@) is Some && row.target_id is Some && parsed_u64(
            row.target_id->0@,
        ) is Some,
        r matches Ok(plan) ==> {
            &&& Some(plan.guild) == parsed_u64(row.guild_id@)
            &&& Some(plan.target) == parsed_u64(row.target_id->0@)
            &&& stands_somewhere(plan.reason@, signed_decimal(row.id as int))
            &&& plan.reversal.action@ == "unban"@
            &&& plan.reversal.guild_id@ == row.guild_id@
            &&& plan.reversal.executor_name is Some && plan.reversal.executor_name->0@ == "kurou"@
            &&& plan.reversal.intent is Some && stands_somewhere(
                plan.reversal.intent->0@,
                signed_decimal(row.id as int),
            )
        },
        parsed_u64(row.guild_id@) is None ==> r == Err::<Expiry, ExpiryError>(ExpiryError::MalformedGuild),
{
    if let Ok(plan) = r {
        let id = signed_decimal(row.id as int);
        let at = "tempban expired (ledger row "@.len() as int;
        assert(plan.reason@.subrange(at, at + id.len()) =~= id);
        assert(stands_at(plan.reason@, id, at));
        let intent = plan.reversal.intent->0@;
        let at2 = "scheduler: tempban from ledger row "@.len() as int;
        assert(intent.subrange(at2, at2 + id.len()) =~= id);
        assert(stands_at(intent, id, at2));
    }
}

} // verus!
