//! What the mod hands do: who may use them, what they leave in the ledger, and when what they
//! did ends.

use vstd::prelude::*;

use crate::discord::wire::Message;
use crate::json::{braced, json_quoted, member};
use crate::laws::order::{
    all_of, in_order, lemma_each_joined, lemma_itself, lemma_more, lemma_then,
};
use crate::laws::words::lemma_singles;
use crate::modlog::{ModAction, NewModAction};
use crate::numeral::{lemma_decimal_reads_back, parsed_u64};
use crate::scheduler::is_due;
use crate::server::tools::common::Caller;
use crate::server::tools::hands::{
    are_ban_terms, are_timeout_terms, fingerprint, is_ban_row, is_delete_row, is_nickname_row, is_role_row,
    is_timeout_row, is_user_row, is_voice_of, is_warn_row, Aim, BanTerms, BanUserRequest,
    DeleteMessageRequest, Hand, MessageAim, RoleAim, RoleRequest, SetNicknameRequest, TimeoutTerms,
    TimeoutUserRequest, UserActionRequest, WarnUserRequest,
};
use crate::server::tools::raid::{
    is_invite_row, is_lock_row, is_purge_row, is_slowmode_row, snapshot_text, snapshots_text, ChannelAim,
    DeleteInviteRequest,
};
use crate::server::{KurouServer, Voice};
use crate::text::{decimal, is_blank, joined, opt_text, texts, trimmed};

verus! {

/// A temporary ban ends when it was to end. Whatever number of hours was asked for, if it is
/// not zero, the ban has an end, and the row that carries it is due from so many hours after
/// the ban on and not before. Without hours, or with none, the ban never comes due. It deletes
/// as many days of messages as were asked for, up to seven.
pub proof fn lemma_tempbans_have_their_end(
    req: BanUserRequest,
    then: i64,
    terms: BanTerms,
    row: ModAction,
    now: int,
)
    requires
        are_ban_terms(req, then, terms),
        row.expires_at == terms.expires_at,
    ensures
        req.duration_hours matches Some(hours) ==> (hours > 0 ==> terms.expires_at is Some && (is_due(
            row,
            now,
        ) <==> now >= then + 3600 * hours)),
        req.duration_hours is None || req.duration_hours == Some(0u32) ==> terms.expires_at is None
            && !is_due(row, now),
        req.delete_message_days is None ==> terms.days == 0,
        req.delete_message_days matches Some(days) ==> terms.days <= 7 && (days <= 7 ==> terms.days
            == days) && (days > 7 ==> terms.days == 7),
{
}

/// A timeout lasts as long as was asked for, up to twenty-eight days, and its end reads back
/// as the second so many minutes after it was given.
pub proof fn lemma_timeouts_last_as_asked(req: TimeoutUserRequest, now: i64, terms: TimeoutTerms)
    requires
        are_timeout_terms(req, now, terms),
    ensures
        req.duration_minutes > 0,
        req.duration_minutes <= 28 * 24 * 60 ==> terms.minutes == req.duration_minutes,
        req.duration_minutes > 28 * 24 * 60 ==> terms.minutes == 28 * 24 * 60,
        terms.until_unix == now + 60 * terms.minutes,
        crate::clock::timestamp_seconds(terms.until@) == Some(now + 60 * terms.minutes),
{
}

/// The label a caller goes by: the terminal is the house's own, and over HTTP it is the
/// bearer's.
pub open spec fn goes_by(caller: Caller, label: Seq<char>) -> bool {
    match caller {
        Caller::Stdio => label == "koma"@,
        Caller::Http { identity: Some(identity) } => identity@ == label,
        Caller::Http { identity: None } => false,
    }
}

/// A label has a bot: the house's own, or one among the voices.
pub open spec fn has_bot(server: KurouServer, label: Seq<char>) -> bool {
    label == "koma"@ || exists|i: int| 0 <= i < server.senders@.len() && #[trigger] server.senders@[i]@ == label
}

/// Whoever gives a reason, goes by a label and has a bot of their own may use the hands, where
/// the ledger is open and there is a home guild; nobody else may.
pub proof fn lemma_who_may_act(server: KurouServer, caller: Caller, intent: Seq<char>)
    ensures
        server.hand_fault(caller, intent) is None <==> {
            &&& !is_blank(intent)
            &&& exists|label: Seq<char>| goes_by(caller, label) && has_bot(server, label)
            &&& server.modlog_store is Some
            &&& server.default_guild is Some
        },
        server.speaks(caller) <==> exists|label: Seq<char>| goes_by(caller, label) && has_bot(
            server,
            label,
        ),
{
    let who = match caller {
        Caller::Stdio => Some("koma"@),
        Caller::Http { identity } => opt_text(identity),
    };
    if let Some(label) = who {
        assert(goes_by(caller, label));
        assert(texts(server.senders@).contains(label) <==> exists|i: int|
            0 <= i < server.senders@.len() && #[trigger] server.senders@[i]@ == label) by {
            if texts(server.senders@).contains(label) {
                let i = choose|i: int| 0 <= i < server.senders@.len() && texts(server.senders@)[i] == label;
                assert(server.senders@[i]@ == label);
            }
            if exists|i: int| 0 <= i < server.senders@.len() && #[trigger] server.senders@[i]@ == label {
                let i = choose|i: int|
                    0 <= i < server.senders@.len() && #[trigger] server.senders@[i]@ == label;
                assert(texts(server.senders@)[i] == label);
            }
        }
    }
}

/// Nobody speaks with another's bot: the house's own label has the primary bot, every other
/// label the bot of that label, and the observer speaks for nobody.
pub proof fn lemma_everybody_has_their_own_voice(v: Voice, label: Seq<char>)
    requires
        is_voice_of(v, label),
    ensures
        !(v is Observer),
        label == "koma"@ ==> v is Primary,
        label != "koma"@ ==> (v matches Voice::Sender { label: own } && own@ == label),
{
}

/// A row tells whose hand it was: the guild, the label, the bot and the reason, each as it was
/// given.
pub open spec fn tells_of(
    row: NewModAction,
    hand: Hand,
    action: Seq<char>,
    intent: Seq<char>,
    executor: Option<u64>,
) -> bool {
    &&& row.action@ == action
    &&& parsed_u64(row.guild_id@) == Some(hand.guild)
    &&& row.executor_name matches Some(name) && name@ == hand.label@
    &&& executor is Some <==> row.executor_id is Some
    &&& executor matches Some(id) ==> parsed_u64(row.executor_id->0@) == Some(id)
    &&& row.intent matches Some(text) && text@ == intent
}

/// A row tells whom an act was about: the account's id reads back, and its name is the one
/// given.
pub open spec fn is_about(row: NewModAction, target: u64, name: Option<Seq<char>>) -> bool {
    &&& row.target_id is Some
    &&& parsed_u64(row.target_id->0@) == Some(target)
    &&& name is Some <==> row.target_name is Some
    &&& name matches Some(name) ==> row.target_name->0@ == name
}

proof fn lemma_tells(
    row: NewModAction,
    hand: Hand,
    action: Seq<char>,
    intent: Seq<char>,
    executor: Option<u64>,
)
    requires
        fingerprint(row, hand, action, intent, executor),
    ensures
        tells_of(row, hand, action, intent, executor),
{
    lemma_decimal_reads_back(hand.guild);
    if let Some(id) = executor {
        lemma_decimal_reads_back(id);
    }
}

proof fn lemma_members(keys: Seq<Seq<char>>, values: Seq<Seq<char>>, members: Seq<Seq<char>>)
    requires
        keys.len() == values.len(),
        members.len() == values.len(),
        forall|i: int|
            0 <= i < keys.len() ==> #[trigger] members[i] == json_quoted(keys[i]) + seq![':'] + values[i],
    ensures
        in_order(braced(members), values),
{
    let lists = values.map_values(|v: Seq<char>| seq![v]);
    assert forall|i: int| 0 <= i < members.len() implies in_order(members[i], #[trigger] lists[i]) by {
        lemma_itself(values[i]);
        lemma_more(values[i], json_quoted(keys[i]) + seq![':'], seq![values[i]]);
        assert(members[i] == json_quoted(keys[i]) + seq![':'] + values[i]);
    }
    lemma_each_joined(members, seq![','], lists);
    lemma_singles(values);
    lemma_more(joined(members, seq![',']), seq!['{'], values);
    lemma_more(seq!['{'] + joined(members, seq![',']), seq!['}'], values);
}

/// A number as it is written down, where there is one.
pub open spec fn number_or_null(n: Option<u32>) -> Seq<char> {
    match n {
        Some(n) => decimal(n as nat),
        None => seq!['n', 'u', 'l', 'l'],
    }
}

/// A text as it is written down, where there is one.
pub open spec fn quoted_or_null(s: Option<String>) -> Seq<char> {
    match s {
        Some(s) => json_quoted(s@),
        None => seq!['n', 'u', 'l', 'l'],
    }
}

/// A ban's row tells who was banned by whom and why, when it ends, how many days of messages
/// went, and for how long it was meant.
pub proof fn lemma_a_ban_row_tells(
    r: NewModAction,
    aim: Aim,
    req: BanUserRequest,
    terms: BanTerms,
    name: Seq<char>,
    executor: Option<u64>,
)
    requires
        is_ban_row(r, aim, req, terms, name, executor),
    ensures
        tells_of(r, aim.hand, "ban"@, req.intent@, executor),
        is_about(r, aim.target, Some(name)),
        opt_text(r.reason) == opt_text(req.reason),
        opt_text(r.expires_at) == opt_text(terms.expires_at),
        r.channel_id is None,
        r.metadata is None <==> terms.days == 0 && req.duration_hours is None,
        r.metadata matches Some(text) ==> in_order(
            text@,
            seq![decimal(terms.days as nat), number_or_null(req.duration_hours)],
        ),
{
    lemma_tells(r, aim.hand, "ban"@, req.intent@, executor);
    lemma_decimal_reads_back(aim.target);
    let hours = number_or_null(req.duration_hours);
    let values = seq![decimal(terms.days as nat), hours];
    lemma_members(
        seq!["delete_message_days"@, "duration_hours"@],
        values,
        seq![
            member("delete_message_days"@, decimal(terms.days as nat)),
            member("duration_hours"@, hours),
        ],
    );
    assert(crate::server::tools::hands::hours_text(req.duration_hours) =~= hours);
}

/// The row of a kick, an unban or the end of a timeout tells who it was about, by whom and why.
pub proof fn lemma_a_user_row_tells(
    r: NewModAction,
    aim: Aim,
    action: Seq<char>,
    req: UserActionRequest,
    name: Seq<char>,
    executor: Option<u64>,
)
    requires
        is_user_row(r, aim, action, req, name, executor),
    ensures
        tells_of(r, aim.hand, action, req.intent@, executor),
        is_about(r, aim.target, Some(name)),
        opt_text(r.reason) == opt_text(req.reason),
        r.expires_at is None && r.metadata is None && r.channel_id is None,
{
    lemma_tells(r, aim.hand, action, req.intent@, executor);
    lemma_decimal_reads_back(aim.target);
}

/// A timeout's row tells who it was about, by whom and why, for how long and until when. It
/// carries no end of its own for the timer: Discord ends it.
pub proof fn lemma_a_timeout_row_tells(
    r: NewModAction,
    aim: Aim,
    req: TimeoutUserRequest,
    terms: TimeoutTerms,
    name: Seq<char>,
    executor: Option<u64>,
)
    requires
        is_timeout_row(r, aim, req, terms, name, executor),
    ensures
        tells_of(r, aim.hand, "timeout"@, req.intent@, executor),
        is_about(r, aim.target, Some(name)),
        opt_text(r.reason) == opt_text(req.reason),
        r.expires_at is None && r.channel_id is None,
        r.metadata matches Some(text) && in_order(
            text@,
            seq![decimal(terms.minutes as nat), json_quoted(terms.until@)],
        ),
{
    lemma_tells(r, aim.hand, "timeout"@, req.intent@, executor);
    lemma_decimal_reads_back(aim.target);
    lemma_members(
        seq!["duration_minutes"@, "until"@],
        seq![decimal(terms.minutes as nat), json_quoted(terms.until@)],
        seq![
            member("duration_minutes"@, decimal(terms.minutes as nat)),
            member("until"@, json_quoted(terms.until@)),
        ],
    );
}

/// A warning's row is the warning: its reason is the text given. Who decided is what was said
/// of it, or else whoever warned and what for.
pub proof fn lemma_a_warn_row_tells(
    r: NewModAction,
    aim: Aim,
    req: WarnUserRequest,
    name: Seq<char>,
    executor: Option<u64>,
)
    requires
        is_warn_row(r, aim, req, name, executor),
    ensures
        r.action@ == "warn"@,
        parsed_u64(r.guild_id@) == Some(aim.hand.guild),
        r.executor_name matches Some(by) && by@ == aim.hand.label@,
        is_about(r, aim.target, Some(name)),
        r.reason matches Some(reason) && reason@ == req.reason@,
        req.intent matches Some(intent) ==> (!is_blank(intent@) ==> r.intent is Some && r.intent->0@
            == intent@),
        req.intent is None || is_blank(req.intent->0@) ==> r.intent is Some && in_order(
            r.intent->0@,
            seq![aim.hand.label@, req.reason@],
        ),
        r.expires_at is None && r.metadata is None && r.channel_id is None,
{
    lemma_decimal_reads_back(aim.hand.guild);
    lemma_decimal_reads_back(aim.target);
    let by = aim.hand.label@;
    lemma_itself(by);
    lemma_more(by, ": "@, seq![by]);
    lemma_then(by + ": "@, req.reason@, seq![by]);
    assert(seq![by].push(req.reason@) =~= seq![by, req.reason@]);
}

/// The row of a role tells whose role it was and which.
pub proof fn lemma_a_role_row_tells(
    r: NewModAction,
    aim: RoleAim,
    action: Seq<char>,
    req: RoleRequest,
    executor: Option<u64>,
)
    requires
        is_role_row(r, aim, action, req, executor),
    ensures
        tells_of(r, aim.aim.hand, action, req.intent@, executor),
        is_about(r, aim.aim.target, None),
        opt_text(r.reason) == opt_text(req.reason),
        r.metadata matches Some(text) && in_order(
            text@,
            seq![json_quoted(decimal(aim.role as nat))],
        ),
        r.expires_at is None && r.channel_id is None,
{
    lemma_tells(r, aim.aim.hand, action, req.intent@, executor);
    lemma_decimal_reads_back(aim.aim.target);
    lemma_members(
        seq!["role_id"@],
        seq![json_quoted(decimal(aim.role as nat))],
        seq![member("role_id"@, json_quoted(decimal(aim.role as nat)))],
    );
}

/// The row of a nickname tells what it became and what it was.
pub proof fn lemma_a_nickname_row_tells(
    r: NewModAction,
    aim: Aim,
    req: SetNicknameRequest,
    previous: Option<String>,
    name: Seq<char>,
    executor: Option<u64>,
)
    requires
        is_nickname_row(r, aim, req, previous, name, executor),
    ensures
        tells_of(r, aim.hand, "nickname"@, req.intent@, executor),
        is_about(r, aim.target, Some(name)),
        opt_text(r.reason) == opt_text(req.reason),
        r.metadata matches Some(text) && in_order(
            text@,
            seq![json_quoted(req.nickname@), quoted_or_null(previous)],
        ),
        r.expires_at is None && r.channel_id is None,
{
    lemma_tells(r, aim.hand, "nickname"@, req.intent@, executor);
    lemma_decimal_reads_back(aim.target);
    let before = quoted_or_null(previous);
    assert(crate::json::text_or_null(opt_text(previous)) =~= before);
    lemma_members(
        seq!["nickname"@, "previous"@],
        seq![json_quoted(req.nickname@), before],
        seq![member("nickname"@, json_quoted(req.nickname@)), member("previous"@, before)],
    );
}

/// The row of a deleted message keeps what it said, who wrote it, where it stood and which it
/// was.
pub proof fn lemma_a_delete_row_tells(
    r: NewModAction,
    aim: MessageAim,
    req: DeleteMessageRequest,
    author: u64,
    name: Seq<char>,
    content: Seq<char>,
    executor: Option<u64>,
)
    requires
        is_delete_row(r, aim, req, author, name, content, executor),
    ensures
        tells_of(r, aim.hand, "delete"@, req.intent@, executor),
        is_about(r, author, Some(name)),
        r.channel_id matches Some(channel) && parsed_u64(channel@) == Some(aim.channel),
        opt_text(r.reason) == opt_text(req.reason),
        r.metadata matches Some(text) && in_order(
            text@,
            seq![json_quoted(content), json_quoted(decimal(aim.message as nat))],
        ),
        r.expires_at is None,
{
    lemma_tells(r, aim.hand, "delete"@, req.intent@, executor);
    lemma_decimal_reads_back(author);
    lemma_decimal_reads_back(aim.channel);
    let id = json_quoted(decimal(aim.message as nat));
    lemma_members(
        seq!["content"@, "message_id"@],
        seq![json_quoted(content), id],
        seq![member("content"@, json_quoted(content)), member("message_id"@, id)],
    );
}

/// The rows of the raid hands tell where they acted, and what they set.
pub proof fn lemma_channel_rows_tell(
    r: NewModAction,
    aim: ChannelAim,
    lock: bool,
    seconds: u16,
    intent: Seq<char>,
    executor: Option<u64>,
)
    ensures
        is_lock_row(r, aim, lock, intent, executor) ==> {
            &&& tells_of(
                r,
                aim.hand,
                if lock {
                    "lock"@
                } else {
                    "unlock"@
                },
                intent,
                executor,
            )
            &&& r.channel_id is Some
            &&& parsed_u64(r.channel_id->0@) == Some(aim.channel)
            &&& r.target_id is None && r.reason is None && r.metadata is None && r.expires_at is None
        },
        is_slowmode_row(r, aim, seconds, intent, executor) ==> {
            &&& tells_of(r, aim.hand, "slowmode"@, intent, executor)
            &&& r.channel_id is Some
            &&& parsed_u64(r.channel_id->0@) == Some(aim.channel)
            &&& r.metadata is Some
            &&& in_order(r.metadata->0@, seq![decimal(seconds as nat)])
            &&& r.target_id is None && r.reason is None && r.expires_at is None
        },
{
    lemma_decimal_reads_back(aim.channel);
    if is_lock_row(r, aim, lock, intent, executor) {
        lemma_tells(
            r,
            aim.hand,
            if lock {
                "lock"@
            } else {
                "unlock"@
            },
            intent,
            executor,
        );
    }
    if is_slowmode_row(r, aim, seconds, intent, executor) {
        lemma_tells(r, aim.hand, "slowmode"@, intent, executor);
        lemma_members(
            seq!["seconds"@],
            seq![decimal(seconds as nat)],
            seq![member("seconds"@, decimal(seconds as nat))],
        );
    }
}

/// What is kept of a message that goes.
pub open spec fn kept_of(m: Message) -> Seq<Seq<char>> {
    seq![
        json_quoted(m.author.name@),
        json_quoted(decimal(m.author.id as nat)),
        json_quoted(m.content@),
        json_quoted(decimal(m.id as nat)),
    ]
}

proof fn lemma_snapshot(m: Message)
    ensures
        in_order(snapshot_text(m), kept_of(m)),
{
    lemma_members(
        seq!["author"@, "author_id"@, "content"@, "id"@],
        kept_of(m),
        seq![
            member("author"@, json_quoted(m.author.name@)),
            member("author_id"@, json_quoted(decimal(m.author.id as nat))),
            member("content"@, json_quoted(m.content@)),
            member("id"@, json_quoted(decimal(m.id as nat))),
        ],
    );
}

/// A purge's row keeps every message it takes, in order: who wrote it, what it said and which
/// it was; and it says how many they are.
pub proof fn lemma_a_purge_row_keeps_everything(
    r: NewModAction,
    aim: ChannelAim,
    messages: Seq<Message>,
    intent: Seq<char>,
    executor: Option<u64>,
)
    requires
        is_purge_row(r, aim, messages, intent, executor),
    ensures
        tells_of(r, aim.hand, "purge"@, intent, executor),
        r.channel_id matches Some(channel) && parsed_u64(channel@) == Some(aim.channel),
        r.metadata matches Some(text) && in_order(
            text@,
            seq![decimal(messages.len())] + all_of(messages.map_values(|m: Message| kept_of(m))),
        ),
{
    lemma_tells(r, aim.hand, "purge"@, intent, executor);
    lemma_decimal_reads_back(aim.channel);
    let parts = messages.map_values(|m: Message| snapshot_text(m));
    let lists = messages.map_values(|m: Message| kept_of(m));
    assert forall|i: int| 0 <= i < parts.len() implies in_order(parts[i], #[trigger] lists[i]) by {
        lemma_snapshot(messages[i]);
    }
    lemma_each_joined(parts, seq![','], lists);
    let inner = joined(parts, seq![',']);
    lemma_more(inner, seq!['['], all_of(lists));
    lemma_more(seq!['['] + inner, seq![']'], all_of(lists));
    let count = decimal(messages.len());
    let m1 = member("count"@, count);
    let m2 = member("messages"@, snapshots_text(messages));
    lemma_itself(count);
    lemma_more(count, json_quoted("count"@) + seq![':'], seq![count]);
    lemma_more(snapshots_text(messages), json_quoted("messages"@) + seq![':'], all_of(lists));
    let two = seq![seq![count], all_of(lists)];
    let members = seq![m1, m2];
    assert forall|i: int| 0 <= i < members.len() implies in_order(members[i], #[trigger] two[i]) by {
        if i == 0 {
            assert(two[i] == seq![count]);
        } else {
            assert(two[i] == all_of(lists));
        }
    }
    lemma_each_joined(members, seq![','], two);
    let all = seq![count] + all_of(lists);
    assert(all_of(two) =~= all) by {
        reveal_with_fuel(all_of, 3);
        assert(two.drop_last() =~= seq![seq![count]]);
        assert(two.drop_last().drop_last() =~= seq![]);
    }
    lemma_more(joined(members, seq![',']), seq!['{'], all);
    lemma_more(seq!['{'] + joined(members, seq![',']), seq!['}'], all);
}

/// The row of a revoked invite tells which it was, white space aside, and why.
pub proof fn lemma_an_invite_row_tells(
    r: NewModAction,
    hand: Hand,
    req: DeleteInviteRequest,
    executor: Option<u64>,
)
    requires
        is_invite_row(r, hand, req, executor),
    ensures
        tells_of(r, hand, "invite_delete"@, req.intent@, executor),
        opt_text(r.reason) == opt_text(req.reason),
        r.metadata matches Some(text) && in_order(text@, seq![json_quoted(trimmed(req.code@))]),
{
    lemma_tells(r, hand, "invite_delete"@, req.intent@, executor);
    lemma_members(
        seq!["code"@],
        seq![json_quoted(trimmed(req.code@))],
        seq![member("code"@, json_quoted(trimmed(req.code@)))],
    );
}

} // verus!
