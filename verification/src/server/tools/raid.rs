//! The raid brakes: locking a channel, slowing it down, purging it, closing a door.

use vstd::prelude::*;

use crate::clock::{created_at, created_second};
use crate::discord::wire::Message;
use crate::json::{
    ascending, braced, json_quoted, member, object_of_one, object_of_two, row_keys, row_text,
    Field, TextEntry,
};
use crate::modlog::NewModAction;
use crate::server::boot::snowflake;
use crate::server::tools::common::{identity_of, invalid_text, parse_channel, Caller};
use crate::server::tools::hands::{fingerprint, is_voice_of, Hand};
use crate::server::KurouServer;
use crate::text::{clone_opt, decimal, joined, number, opt_text, precedes, trim, trimmed};

verus! {

/// Discord's ceiling for slowmode: six hours, in seconds.
pub const MAX_SLOWMODE_SECONDS: u16 = 21600;

/// Bulk deletion takes nothing older than fourteen days; a minute is left as a margin.
pub const BULK_DELETE_MAX_AGE_SECS: i64 = 1_209_540;

/// The permission to send messages.
pub const SEND_MESSAGES: u64 = 0x800;

pub struct ChannelActionRequest {
    pub channel_id: String,
    pub intent: String,
}

pub struct SetSlowmodeRequest {
    pub channel_id: String,
    pub seconds: u16,
    pub intent: String,
}

pub struct PurgeChannelRequest {
    pub channel_id: String,
    pub count: u8,
    pub intent: String,
    pub dry_run: Option<bool>,
}

pub struct DeleteInviteRequest {
    pub code: String,
    pub intent: String,
    pub reason: Option<String>,
}

/// Whom an overwrite of a channel's permissions is about.
#[derive(Clone, Copy, Debug, PartialEq, Eq, Structural)]
pub enum OverwriteKind {
    Role(u64),
    Member(u64),
    Other,
}

/// An overwrite of a channel's permissions.
#[derive(Clone, Copy, Debug, PartialEq, Eq, Structural)]
pub struct Overwrite {
    pub kind: OverwriteKind,
    pub allow: u64,
    pub deny: u64,
}

/// The first overwrite about a role.
pub open spec fn overwrite_of(overwrites: Seq<Overwrite>, role: u64) -> Option<Overwrite>
    decreases overwrites.len(),
{
    if overwrites.len() == 0 {
        None
    } else if overwrites[0].kind == OverwriteKind::Role(role) {
        Some(overwrites[0])
    } else {
        overwrite_of(overwrites.drop_first(), role)
    }
}

fn find_overwrite(overwrites: &Vec<Overwrite>, role: u64) -> (r: Option<Overwrite>)
    ensures
        r == overwrite_of(overwrites@, role),
{
    let mut i: usize = 0;
    assert(overwrites@.skip(0) =~= overwrites@);
    while i < overwrites.len()
        invariant
            i <= overwrites@.len(),
            overwrite_of(overwrites@.skip(i as int), role) == overwrite_of(overwrites@, role),
        decreases overwrites@.len() - i,
    {
        assert(overwrites@.skip(i as int)[0] == overwrites@[i as int]);
        assert(overwrites@.skip(i as int).drop_first() =~= overwrites@.skip(i + 1));
        if overwrites[i].kind == OverwriteKind::Role(role) {
            return Some(overwrites[i]);
        }
        i = i + 1;
    }
    None
}

/// What is allowed once a channel is locked or unlocked.
pub open spec fn allow_after(allow: u64, lock: bool) -> u64 {
    if lock {
        allow & !SEND_MESSAGES
    } else {
        allow
    }
}

/// What is denied once a channel is locked or unlocked.
pub open spec fn deny_after(deny: u64, lock: bool) -> u64 {
    if lock {
        deny | SEND_MESSAGES
    } else {
        deny & !SEND_MESSAGES
    }
}

/// Everybody's overwrite once a channel is locked or unlocked: only the permission to send
/// changes, and the role of everybody has the guild's own id.
pub fn lock_overwrite(overwrites: &Vec<Overwrite>, guild: u64, lock: bool) -> (r: Overwrite)
    ensures
        r.kind == OverwriteKind::Role(guild),
        match overwrite_of(overwrites@, guild) {
            Some(o) => r.allow == allow_after(o.allow, lock) && r.deny == deny_after(o.deny, lock),
            None => r.allow == allow_after(0, lock) && r.deny == deny_after(0, lock),
        },
{
    let (allow, deny) = match find_overwrite(overwrites, guild) {
        Some(o) => (o.allow, o.deny),
        None => (0u64, 0u64),
    };
    if lock {
        Overwrite {
            kind: OverwriteKind::Role(guild),
            allow: allow & !SEND_MESSAGES,
            deny: deny | SEND_MESSAGES,
        }
    } else {
        Overwrite { kind: OverwriteKind::Role(guild), allow, deny: deny & !SEND_MESSAGES }
    }
}

/// Locking denies sending, unlocking no longer does, and every other permission stays as it
/// was.
pub proof fn lemma_only_sending_changes(allow: u64, deny: u64, lock: bool)
    ensures
        lock ==> deny_after(deny, lock) & SEND_MESSAGES == SEND_MESSAGES && allow_after(allow, lock)
            & SEND_MESSAGES == 0,
        !lock ==> deny_after(deny, lock) & SEND_MESSAGES == 0 && allow_after(allow, lock) == allow,
        deny_after(deny, lock) & !SEND_MESSAGES == deny & !SEND_MESSAGES,
        allow_after(allow, lock) & !SEND_MESSAGES == allow & !SEND_MESSAGES,
{
    assert((deny | 0x800u64) & 0x800u64 == 0x800u64) by (bit_vector);
    assert((allow & !0x800u64) & 0x800u64 == 0) by (bit_vector);
    assert((deny & !0x800u64) & 0x800u64 == 0) by (bit_vector);
    assert((deny | 0x800u64) & !0x800u64 == deny & !0x800u64) by (bit_vector);
    assert((deny & !0x800u64) & !0x800u64 == deny & !0x800u64) by (bit_vector);
    assert((allow & !0x800u64) & !0x800u64 == allow & !0x800u64) by (bit_vector);
}

/// Locking twice is locking once, unlocking twice is unlocking once, and a locked channel
/// that is unlocked denies what it denied before, sending aside.
pub proof fn lemma_locks_settle(deny: u64)
    ensures
        deny_after(deny_after(deny, true), true) == deny_after(deny, true),
        deny_after(deny_after(deny, false), false) == deny_after(deny, false),
        deny_after(deny_after(deny, true), false) == deny & !SEND_MESSAGES,
{
    assert((deny | 0x800u64) | 0x800u64 == deny | 0x800u64) by (bit_vector);
    assert((deny & !0x800u64) & !0x800u64 == deny & !0x800u64) by (bit_vector);
    assert((deny | 0x800u64) & !0x800u64 == deny & !0x800u64) by (bit_vector);
}

/// A hand and the channel it acts on.
pub struct ChannelAim {
    pub hand: Hand,
    pub channel: u64,
}

impl KurouServer {
    /// Readies a hand for an act on a channel: the hand first, then the channel.
    pub fn aim_channel(&self, caller: &Caller, intent: &str, channel_id: &str) -> (r: Result<
        ChannelAim,
        String,
    >)
        requires
            self.hand_fault(*caller, intent@) is None ==> snowflake(channel_id@) != Some(0u64),
        ensures
            match self.hand_fault(*caller, intent@) {
                Some(text) => r matches Err(e) && e@ == text,
                None => match snowflake(channel_id@) {
                    None => r matches Err(e) && e@ == invalid_text(channel_id@, "snowflake id"@),
                    Some(id) => r matches Ok(a) && a.channel == id && Some(a.hand.guild)
                        == self.default_guild && Some(a.hand.label@) == identity_of(*caller)
                        && is_voice_of(a.hand.voice, a.hand.label@),
                },
            },
    {
        let hand = match self.hand(caller, intent) {
            Ok(hand) => hand,
            Err(e) => {
                return Err(e);
            },
        };
        match parse_channel(channel_id) {
            Ok(channel) => Ok(ChannelAim { hand, channel }),
            Err(e) => Err(e),
        }
    }
}

/// What a lock is called in the ledger.
pub open spec fn lock_action(lock: bool) -> Seq<char> {
    if lock {
        "lock"@
    } else {
        "unlock"@
    }
}

/// What the row of a lock or an unlock says.
pub open spec fn is_lock_row(
    r: NewModAction,
    aim: ChannelAim,
    lock: bool,
    intent: Seq<char>,
    executor: Option<u64>,
) -> bool {
    &&& fingerprint(r, aim.hand, lock_action(lock), intent, executor)
    &&& opt_text(r.channel_id) == Some(decimal(aim.channel as nat))
    &&& r.target_id is None
    &&& r.target_name is None
    &&& r.reason is None
    &&& r.metadata is None
    &&& r.expires_at is None
}

/// The row of a lock or an unlock.
pub fn lock_row(aim: &ChannelAim, lock: bool, intent: String, executor: Option<u64>) -> (r: NewModAction)
    ensures
        is_lock_row(r, *aim, lock, intent@, executor),
{
    let action = if lock {
        "lock"
    } else {
        "unlock"
    };
    let row = aim.hand.row(action, intent, executor);
    NewModAction { channel_id: Some(number(aim.channel)), ..row }
}

/// How slow a channel becomes: what was asked for, up to the ceiling.
pub fn slowmode_seconds(asked: u16) -> (r: u16)
    ensures
        r == if asked > MAX_SLOWMODE_SECONDS {
            MAX_SLOWMODE_SECONDS
        } else {
            asked
        },
{
    if asked > MAX_SLOWMODE_SECONDS {
        MAX_SLOWMODE_SECONDS
    } else {
        asked
    }
}

/// What the row of a changed slowmode says.
pub open spec fn is_slowmode_row(
    r: NewModAction,
    aim: ChannelAim,
    seconds: u16,
    intent: Seq<char>,
    executor: Option<u64>,
) -> bool {
    &&& fingerprint(r, aim.hand, "slowmode"@, intent, executor)
    &&& opt_text(r.channel_id) == Some(decimal(aim.channel as nat))
    &&& opt_text(r.metadata) == Some(braced(seq![member("seconds"@, decimal(seconds as nat))]))
    &&& r.target_id is None
    &&& r.target_name is None
    &&& r.reason is None
    &&& r.expires_at is None
}

/// The row of a changed slowmode.
pub fn slowmode_row(aim: &ChannelAim, seconds: u16, intent: String, executor: Option<u64>) -> (r:
    NewModAction)
    ensures
        is_slowmode_row(r, *aim, seconds, intent@, executor),
{
    let row = aim.hand.row("slowmode", intent, executor);
    let metadata = object_of_one("seconds", Field::UInt(seconds as u64));
    NewModAction { channel_id: Some(number(aim.channel)), metadata: Some(metadata), ..row }
}

/// How many messages a purge takes: between one and a hundred.
pub fn purge_count(asked: u8) -> (r: u8)
    ensures
        r == crate::server::tools::common::clamped(asked as int, 1, 100),
{
    if asked < 1 {
        1
    } else if asked > 100 {
        100
    } else {
        asked
    }
}

/// A message young enough to be deleted in bulk.
pub open spec fn is_young(id: u64, now: i64) -> bool {
    now - created_second(id) < BULK_DELETE_MAX_AGE_SECS
}

/// What a purge deletes: the young in one go, the old one by one.
pub struct PurgePlan {
    pub young: Vec<u64>,
    pub old: Vec<u64>,
}

pub open spec fn message_ids(messages: Seq<Message>) -> Seq<u64> {
    messages.map_values(|m: Message| m.id)
}

/// Parts the messages of a purge by their age, in order.
pub fn purge_plan(messages: &Vec<Message>, now: i64) -> (r: PurgePlan)
    ensures
        r.young@ == message_ids(messages@).filter(|id: u64| is_young(id, now)),
        r.old@ == message_ids(messages@).filter(|id: u64| !is_young(id, now)),
        r.young@.len() + r.old@.len() == messages@.len(),
{
    let ghost ids = message_ids(messages@);
    let ghost y = |id: u64| is_young(id, now);
    let ghost o = |id: u64| !is_young(id, now);
    let mut young: Vec<u64> = Vec::new();
    let mut old: Vec<u64> = Vec::new();
    let mut i: usize = 0;
    proof {
        reveal(Seq::filter);
        assert(ids.take(0) =~= seq![]);
        assert(young@ =~= ids.take(0).filter(y));
        assert(old@ =~= ids.take(0).filter(o));
    }
    while i < messages.len()
        invariant
            i <= messages@.len(),
            ids == message_ids(messages@),
            y == (|id: u64| is_young(id, now)),
            o == (|id: u64| !is_young(id, now)),
            young@ == ids.take(i as int).filter(y),
            old@ == ids.take(i as int).filter(o),
            young@.len() + old@.len() == i,
        decreases messages@.len() - i,
    {
        let id: u64 = messages[i].id;
        if (now as i128) - (created_at(id) as i128) < BULK_DELETE_MAX_AGE_SECS as i128 {
            young.push(id);
        } else {
            old.push(id);
        }
        i = i + 1;
        proof {
            reveal(Seq::filter);
            assert(ids.take(i as int).drop_last() =~= ids.take(i - 1));
            assert(ids.take(i as int).last() == id);
        }
    }
    assert(ids.take(i as int) =~= ids);
    PurgePlan { young, old }
}

/// A message as a purge's row keeps it.
pub open spec fn snapshot_text(m: Message) -> Seq<char> {
    braced(
        seq![
            member("author"@, json_quoted(m.author.name@)),
            member("author_id"@, json_quoted(decimal(m.author.id as nat))),
            member("content"@, json_quoted(m.content@)),
            member("id"@, json_quoted(decimal(m.id as nat))),
        ],
    )
}

/// Everything a purge took, as its row keeps it.
pub open spec fn snapshots_text(messages: Seq<Message>) -> Seq<char> {
    seq!['['] + joined(messages.map_values(|m: Message| snapshot_text(m)), seq![',']) + seq![']']
}

/// A message as a purge keeps it.
pub struct Snapshot {
    pub id: String,
    pub author_id: String,
    pub author: String,
    pub content: String,
}

/// What is kept of a message: who wrote it, and what it said.
pub open spec fn is_snapshot(m: Message, s: Snapshot) -> bool {
    &&& s.id@ == decimal(m.id as nat)
    &&& s.author_id@ == decimal(m.author.id as nat)
    &&& s.author == m.author.name
    &&& s.content == m.content
}

/// What a purge would take, in order.
pub fn snapshots(messages: &Vec<Message>) -> (r: Vec<Snapshot>)
    ensures
        r@.len() == messages@.len(),
        forall|i: int| 0 <= i < r@.len() ==> is_snapshot(messages@[i], #[trigger] r@[i]),
{
    let mut r: Vec<Snapshot> = Vec::new();
    let mut i: usize = 0;
    while i < messages.len()
        invariant
            i <= messages@.len(),
            r@.len() == i,
            forall|j: int| 0 <= j < i ==> is_snapshot(messages@[j], #[trigger] r@[j]),
        decreases messages@.len() - i,
    {
        let m = &messages[i];
        r.push(
            Snapshot {
                id: number(m.id),
                author_id: number(m.author.id),
                author: m.author.name.clone(),
                content: m.content.clone(),
            },
        );
        i = i + 1;
    }
    r
}

fn snapshot_row(m: &Message) -> (r: Vec<TextEntry>)
    ensures
        ascending(row_keys(r@)),
        row_text(r@) == snapshot_text(*m),
{
    let mut row: Vec<TextEntry> = Vec::new();
    row.push(TextEntry { key: "author".to_owned(), text: m.author.name.clone() });
    row.push(TextEntry { key: "author_id".to_owned(), text: number(m.author.id) });
    row.push(TextEntry { key: "content".to_owned(), text: m.content.clone() });
    row.push(TextEntry { key: "id".to_owned(), text: number(m.id) });
    proof {
        reveal_strlit("author");
        reveal_strlit("author_id");
        reveal_strlit("content");
        reveal_strlit("id");
        reveal_with_fuel(precedes, 8);
        assert(row_keys(row@) =~= seq!["author"@, "author_id"@, "content"@, "id"@]);
        assert(precedes("author"@, "author_id"@));
        assert(ascending(row_keys(row@)));
        let members = row@.map_values(
            |e: TextEntry| json_quoted(e.key@) + seq![':'] + json_quoted(e.text@),
        );
        assert(members =~= seq![
            member("author"@, json_quoted(m.author.name@)),
            member("author_id"@, json_quoted(decimal(m.author.id as nat))),
            member("content"@, json_quoted(m.content@)),
            member("id"@, json_quoted(decimal(m.id as nat))),
        ]);
    }
    row
}

/// What the row of a purge says.
pub open spec fn is_purge_row(
    r: NewModAction,
    aim: ChannelAim,
    messages: Seq<Message>,
    intent: Seq<char>,
    executor: Option<u64>,
) -> bool {
    &&& fingerprint(r, aim.hand, "purge"@, intent, executor)
    &&& opt_text(r.channel_id) == Some(decimal(aim.channel as nat))
    &&& opt_text(r.metadata) == Some(
        braced(
            seq![
                member("count"@, decimal(messages.len())),
                member("messages"@, snapshots_text(messages)),
            ],
        ),
    )
    &&& r.target_id is None
    &&& r.target_name is None
    &&& r.reason is None
    &&& r.expires_at is None
}

/// The row of a purge: everything it took is kept.
pub fn purge_row(aim: &ChannelAim, messages: &Vec<Message>, intent: String, executor: Option<u64>) -> (r:
    NewModAction)
    ensures
        is_purge_row(r, *aim, messages@, intent@, executor),
{
    let mut rows: Vec<Vec<TextEntry>> = Vec::new();
    let mut i: usize = 0;
    while i < messages.len()
        invariant
            i <= messages@.len(),
            rows@.len() == i,
            forall|j: int|
                0 <= j < i ==> ascending(row_keys((#[trigger] rows@[j])@)) && row_text(rows@[j]@)
                    == snapshot_text(messages@[j]),
        decreases messages@.len() - i,
    {
        rows.push(snapshot_row(&messages[i]));
        i = i + 1;
    }
    proof {
        reveal_strlit("count");
        reveal_strlit("messages");
        assert(rows@.map_values(|row: Vec<TextEntry>| row_text(row@)) =~= messages@.map_values(
            |m: Message| snapshot_text(m),
        ));
    }
    let metadata = object_of_two(
        "count",
        Field::UInt(messages.len() as u64),
        "messages",
        Field::Rows(rows),
    );
    let row = aim.hand.row("purge", intent, executor);
    NewModAction { channel_id: Some(number(aim.channel)), metadata: Some(metadata), ..row }
}

/// The code of the invite to revoke, white space aside.
pub fn invite_code(req: &DeleteInviteRequest) -> (r: String)
    ensures
        r@ == trimmed(req.code@),
{
    trim(req.code.as_str())
}

/// What the row of a revoked invite says.
pub open spec fn is_invite_row(
    r: NewModAction,
    hand: Hand,
    req: DeleteInviteRequest,
    executor: Option<u64>,
) -> bool {
    &&& fingerprint(r, hand, "invite_delete"@, req.intent@, executor)
    &&& r.reason == req.reason
    &&& opt_text(r.metadata) == Some(
        braced(seq![member("code"@, json_quoted(trimmed(req.code@)))]),
    )
    &&& r.target_id is None
    &&& r.target_name is None
    &&& r.channel_id is None
    &&& r.expires_at is None
}

/// The row of a revoked invite.
pub fn invite_row(hand: &Hand, req: &DeleteInviteRequest, executor: Option<u64>) -> (r: NewModAction)
    ensures
        is_invite_row(r, *hand, *req, executor),
{
    let row = hand.row("invite_delete", req.intent.clone(), executor);
    let metadata = object_of_one("code", Field::Text(invite_code(req)));
    NewModAction { reason: clone_opt(&req.reason), metadata: Some(metadata), ..row }
}

} // verus!
