//! What the crow does with what it hears: which events it asks for, which messages it keeps,
//! and which acts of other moderators it writes down.

use vstd::prelude::*;

use crate::archive::{MessageStore, NewMessage};
use crate::clock::{account_created, account_created_text, created_at, created_second};
use crate::config::GatewayMode;
use crate::discord::types::{display_name, message_shown, room_name, RenderedMessage};
use crate::discord::wire::{nick_of, Message, User};
use crate::json::{braced, json_quoted, member, object_of_one, Field};
use crate::mentions::{MentionStore, NewMention};
use crate::modlog::{ModlogStore, NewModAction};
use crate::numeral::{parse_u64, parsed_u64};
use crate::text::{
    clone_opt, contains, contains_text, decimal, has_text, join, joined, lower, lowercased, normalize_words,
    normalized_words, number, opt_text, push_text, texts,
};
use crate::wake::WakeSender;

verus! {

/// What one gateway is opened for.
pub struct GatewayConfig {
    pub mode: GatewayMode,
    pub default_guild: Option<u64>,
    pub secondary_guilds: Vec<u64>,
    pub mention_keywords: Vec<String>,
    pub mention_store: Option<MentionStore>,
    pub archive: Option<MessageStore>,
    pub modlog: Option<ModlogStore>,
    pub crow_bot_ids: Vec<u64>,
    pub fanout: bool,
    pub broadcast_guilds: Vec<u64>,
    pub wake: Option<WakeSender>,
    pub wake_dm_from: Vec<u64>,
    pub presence: bool,
}

/// The kinds of event a gateway asks for.
#[derive(Clone, Copy, Debug, PartialEq, Eq, Structural)]
pub struct Intents {
    pub guilds: bool,
    pub guild_messages: bool,
    pub message_content: bool,
    pub guild_moderation: bool,
    pub guild_members: bool,
}

impl GatewayConfig {
    /// Anybody has a use for the gateway.
    pub open spec fn is_wanted(self) -> bool {
        self.mode != GatewayMode::Off || self.fanout || self.archive is Some || self.modlog is Some
    }

    /// Every message has to be heard.
    pub open spec fn hears_messages(self) -> bool {
        self.mode == GatewayMode::Mentions || self.fanout || self.archive is Some
    }

    /// Whether to open the gateway at all.
    pub fn wanted(&self) -> (r: bool)
        ensures
            r == self.is_wanted(),
    {
        self.mode != GatewayMode::Off || self.fanout || self.archive.is_some() || self.modlog.is_some()
    }

    /// The kinds of event to ask for: the guilds for anybody, the messages for the inbox, the
    /// wall and the archive, and the members for the ledger.
    pub fn intents(&self) -> (r: Intents)
        ensures
            r.guilds == self.is_wanted(),
            r.guild_messages == self.hears_messages(),
            r.message_content == self.hears_messages(),
            r.guild_moderation == (self.modlog is Some),
            r.guild_members == (self.modlog is Some),
    {
        let hears = self.mode == GatewayMode::Mentions || self.fanout || self.archive.is_some();
        Intents {
            guilds: self.wanted(),
            guild_messages: hears,
            message_content: hears,
            guild_moderation: self.modlog.is_some(),
            guild_members: self.modlog.is_some(),
        }
    }
}

/// A moment, by its second and as Discord writes it.
pub struct Moment {
    pub unix: i64,
    pub text: String,
}

/// One change that an audit entry tells of.
pub enum AuditChange {
    CommunicationDisabledUntil { until: Option<Moment> },
    Other,
}

/// An entry of a guild's audit log.
pub struct AuditEntry {
    pub id: u64,
    pub user_id: u64,
    pub target_id: Option<u64>,
    pub reason: Option<String>,
    pub changes: Vec<AuditChange>,
}

/// Who did it, as far as the audit log says.
pub struct Attribution {
    pub executor_id: Option<String>,
    pub executor_name: Option<String>,
    pub reason: Option<String>,
    pub entry: Option<AuditEntry>,
}

/// A search of the audit log that is patient: the log lags behind the events.
pub struct Hunt {
    pub target: u64,
    pub delays_ms: Vec<u64>,
    pub next: usize,
    pub max_age_secs: i64,
}

/// An entry about the target that is not too old: an old ban is not this ban.
pub open spec fn is_evidence(entry: AuditEntry, target: u64, now: int, max_age_secs: int) -> bool {
    entry.target_id == Some(target) && now - created_second(entry.id) < max_age_secs
}

/// The first entry that is evidence.
pub open spec fn evidence(entries: Seq<AuditEntry>, target: u64, now: int, max_age_secs: int) -> Option<
    int,
>
    decreases entries.len(),
{
    if entries.len() == 0 {
        None
    } else if is_evidence(entries[0], target, now, max_age_secs) {
        Some(0)
    } else {
        match evidence(entries.drop_first(), target, now, max_age_secs) {
            Some(i) => Some(i + 1),
            None => None,
        }
    }
}

fn two(a: u64, b: u64) -> (r: Vec<u64>)
    ensures
        r@ == seq![a, b],
{
    let mut v: Vec<u64> = Vec::new();
    v.push(a);
    v.push(b);
    v
}

fn one(a: u64) -> (r: Vec<u64>)
    ensures
        r@ == seq![a],
{
    let mut v: Vec<u64> = Vec::new();
    v.push(a);
    v
}

impl Hunt {
    pub open spec fn wf(self) -> bool {
        self.next <= self.delays_ms@.len()
    }

    /// Who banned or unbanned: three looks, up to five minutes back.
    pub fn for_ban(target: u64) -> (r: Hunt)
        ensures
            r.wf(),
            r.target == target,
            r.delays_ms@ == seq![500u64, 1500, 3000],
            r.next == 0,
            r.max_age_secs == 300,
    {
        let mut delays = two(500, 1500);
        delays.push(3000);
        assert(delays@ =~= seq![500u64, 1500, 3000]);
        Hunt { target, delays_ms: delays, next: 0, max_age_secs: 300 }
    }

    /// Whether somebody who left was kicked: two looks, half a minute back.
    pub fn for_kick(target: u64) -> (r: Hunt)
        ensures
            r.wf(),
            r.target == target,
            r.delays_ms@ == seq![1000u64, 2500],
            r.next == 0,
            r.max_age_secs == 30,
    {
        Hunt { target, delays_ms: two(1000, 2500), next: 0, max_age_secs: 30 }
    }

    /// Whether somebody who left was banned: one look, half a minute back.
    pub fn for_ban_on_leave(target: u64) -> (r: Hunt)
        ensures
            r.wf(),
            r.target == target,
            r.delays_ms@ == seq![100u64],
            r.next == 0,
            r.max_age_secs == 30,
    {
        Hunt { target, delays_ms: one(100), next: 0, max_age_secs: 30 }
    }

    /// What changed about a member: two looks where they are in a timeout, one where they are
    /// not, half a minute back.
    pub fn for_update(target: u64, disabled_until: Option<i64>, now: i64) -> (r: Hunt)
        ensures
            r.wf(),
            r.target == target,
            r.delays_ms@ == if disabled_until is Some && disabled_until->0 > now {
                seq![500u64, 1500]
            } else {
                seq![500u64]
            },
            r.next == 0,
            r.max_age_secs == 30,
    {
        let timed_out = match disabled_until {
            Some(until) => until > now,
            None => false,
        };
        let delays_ms = if timed_out {
            two(500, 1500)
        } else {
            one(500)
        };
        Hunt { target, delays_ms, next: 0, max_age_secs: 30 }
    }

    /// How long to wait before the next look, while there is one left.
    pub fn next_delay(&mut self) -> (r: Option<u64>)
        requires
            old(self).wf(),
        ensures
            final(self).wf(),
            final(self).target == old(self).target,
            final(self).delays_ms == old(self).delays_ms,
            final(self).max_age_secs == old(self).max_age_secs,
            if old(self).next < old(self).delays_ms@.len() {
                r == Some(old(self).delays_ms@[old(self).next as int]) && final(self).next == old(
                    self,
                ).next + 1
            } else {
                r is None && final(self).next == old(self).next
            },
    {
        if self.next < self.delays_ms.len() {
            let delay: u64 = self.delays_ms[self.next];
            self.next = self.next + 1;
            Some(delay)
        } else {
            None
        }
    }

    /// The first entry, of those one look gave, that is evidence.
    pub fn examine(&self, entries: &Vec<AuditEntry>, now: i64) -> (r: Option<usize>)
        ensures
            match evidence(entries@, self.target, now as int, self.max_age_secs as int) {
                Some(k) => r matches Some(i) && i == k,
                None => r is None,
            },
            r matches Some(i) ==> i < entries@.len() && is_evidence(
                entries@[i as int],
                self.target,
                now as int,
                self.max_age_secs as int,
            ),
    {
        let ghost found = evidence(entries@, self.target, now as int, self.max_age_secs as int);
        let mut i: usize = 0;
        assert(entries@.skip(0) =~= entries@);
        while i < entries.len()
            invariant
                i <= entries@.len(),
                found == evidence(entries@, self.target, now as int, self.max_age_secs as int),
                match evidence(
                    entries@.skip(i as int),
                    self.target,
                    now as int,
                    self.max_age_secs as int,
                ) {
                    Some(k) => found == Some(k + i),
                    None => found is None,
                },
            decreases entries@.len() - i,
        {
            let ghost rest = entries@.skip(i as int);
            assert(rest[0] == entries@[i as int]);
            assert(rest.drop_first() =~= entries@.skip(i + 1));
            let entry = &entries[i];
            let about = match entry.target_id {
                Some(id) => id == self.target,
                None => false,
            };
            if about && (now as i128) - (created_at(entry.id) as i128) < self.max_age_secs as i128 {
                return Some(i);
            }
            i = i + 1;
        }
        None
    }
}

impl Attribution {
    /// Nobody known.
    pub fn nobody() -> (r: Self)
        ensures
            r.executor_id is None,
            r.executor_name is None,
            r.reason is None,
            r.entry is None,
    {
        Attribution { executor_id: None, executor_name: None, reason: None, entry: None }
    }

    /// Whoever an entry names, under the handle that was looked up for them.
    pub fn of(entry: AuditEntry, name: Option<String>) -> (r: Self)
        ensures
            opt_text(r.executor_id) == Some(decimal(entry.user_id as nat)),
            r.executor_name == name,
            r.reason == entry.reason,
            r.entry == Some(entry),
    {
        Attribution {
            executor_id: Some(number(entry.user_id)),
            executor_name: name,
            reason: clone_opt(&entry.reason),
            entry: Some(entry),
        }
    }
}

/// The state of one gateway's listener.
pub struct Handler {
    pub mode: GatewayMode,
    pub bot_user_id: u64,
    pub default_guild: Option<u64>,
    pub mention_keywords: Vec<String>,
    pub mention_store: Option<MentionStore>,
    pub archive: Option<MessageStore>,
    pub modlog: Option<ModlogStore>,
    pub crow_bot_ids: Vec<u64>,
    pub seen_audit_entries: Vec<u64>,
    pub fanout: bool,
    pub broadcast_guilds: Vec<u64>,
}

/// How many audit entries the listener remembers having written down.
pub const SEEN_LIMIT: usize = 128;

/// The entries remembered once one more was written down: the oldest makes room.
pub open spec fn remembered(seen: Seq<u64>, id: u64) -> Seq<u64> {
    if seen.contains(id) {
        seen
    } else if seen.len() + 1 > SEEN_LIMIT {
        seen.push(id).drop_first()
    } else {
        seen.push(id)
    }
}

/// Keywords as they are looked for: in small letters, trimmed, none of them empty.
pub fn normalize_keywords(keywords: Vec<String>) -> (r: Vec<String>)
    ensures
        texts(r@) == normalized_words(texts(keywords@)),
{
    normalize_words(&keywords)
}

/// Whether an id is one of a list.
pub fn holds_id(v: &Vec<u64>, id: u64) -> (r: bool)
    ensures
        r == v@.contains(id),
{
    let mut i: usize = 0;
    while i < v.len()
        invariant
            i <= v@.len(),
            forall|j: int| 0 <= j < i ==> v@[j] != id,
        decreases v@.len() - i,
    {
        if v[i] == id {
            return true;
        }
        i = i + 1;
    }
    false
}

/// Who did it and why, as a row tells it.
pub struct Doer {
    pub executor_id: Option<Seq<char>>,
    pub executor_name: Option<Seq<char>>,
    pub reason: Option<Seq<char>>,
}

/// Who did it, by what was found; nobody, where nothing was.
pub open spec fn doer(found: Option<Attribution>) -> Doer {
    match found {
        Some(by) => Doer {
            executor_id: opt_text(by.executor_id),
            executor_name: opt_text(by.executor_name),
            reason: opt_text(by.reason),
        },
        None => Doer { executor_id: None, executor_name: None, reason: None },
    }
}

/// A row of what somebody else did.
pub open spec fn observed(
    row: NewModAction,
    action: Seq<char>,
    guild: u64,
    target: User,
    by: Doer,
    metadata: Option<Seq<char>>,
) -> bool {
    &&& row.action@ == action
    &&& row.guild_id@ == decimal(guild as nat)
    &&& opt_text(row.target_id) == Some(decimal(target.id as nat))
    &&& row.target_name == Some(target.name)
    &&& opt_text(row.executor_id) == by.executor_id
    &&& opt_text(row.executor_name) == by.executor_name
    &&& opt_text(row.reason) == by.reason
    &&& opt_text(row.metadata) == metadata
    &&& row.channel_id is None
    &&& row.intent is None
    &&& row.expires_at is None
}

/// The row of what somebody else did.
pub fn observed_row(
    action: &str,
    guild_id: u64,
    target: &User,
    attribution: Attribution,
    metadata: Option<String>,
) -> (r: NewModAction)
    ensures
        observed(r, action@, guild_id, *target, doer(Some(attribution)), opt_text(metadata)),
{
    let blank = NewModAction::default();
    NewModAction {
        action: action.to_owned(),
        guild_id: number(guild_id),
        target_id: Some(number(target.id)),
        target_name: Some(target.name.clone()),
        executor_id: attribution.executor_id,
        executor_name: attribution.executor_name,
        reason: attribution.reason,
        metadata,
        ..blank
    }
}

/// One text under one key, as a JSON object.
pub open spec fn single(key: Seq<char>, text: Seq<char>) -> Seq<char> {
    braced(seq![member(key, json_quoted(text))])
}

fn single_text(key: &str, text: &str) -> (r: String)
    ensures
        r@ == single(key@, text@),
{
    object_of_one(key, Field::Text(text.to_owned()))
}

/// Whoever an attribution names, by number.
pub open spec fn executor_number(by: Attribution) -> Option<u64> {
    match by.executor_id {
        Some(id) => parsed_u64(id@),
        None => None,
    }
}

/// What to do about somebody who left.
pub enum Departure {
    Ignore,
    Record(NewModAction),
    LookForBan,
}

/// The first change of a timeout that an entry tells of: the new end, if it has one.
pub open spec fn timeout_change(changes: Seq<AuditChange>) -> Option<Option<Moment>>
    decreases changes.len(),
{
    if changes.len() == 0 {
        None
    } else {
        match changes[0] {
            AuditChange::CommunicationDisabledUntil { until } => Some(until),
            AuditChange::Other => timeout_change(changes.drop_first()),
        }
    }
}

pub open spec fn attributed_change(by: Attribution) -> Option<Option<Moment>> {
    match by.entry {
        Some(entry) => timeout_change(entry.changes@),
        None => None,
    }
}

/// A new end of a timeout, as far as the ledger keeps it.
pub enum NewUntil {
    Unchanged,
    Lifted,
    Until { unix: i64, text: String },
}

fn find_timeout_change(changes: &Vec<AuditChange>) -> (r: NewUntil)
    ensures
        match timeout_change(changes@) {
            None => r is Unchanged,
            Some(None) => r is Lifted,
            Some(Some(until)) => r matches NewUntil::Until { unix, text } && unix == until.unix && text
                == until.text,
        },
{
    let mut i: usize = 0;
    assert(changes@.skip(0) =~= changes@);
    while i < changes.len()
        invariant
            i <= changes@.len(),
            timeout_change(changes@.skip(i as int)) == timeout_change(changes@),
        decreases changes@.len() - i,
    {
        assert(changes@.skip(i as int)[0] == changes@[i as int]);
        assert(changes@.skip(i as int).drop_first() =~= changes@.skip(i + 1));
        match &changes[i] {
            AuditChange::CommunicationDisabledUntil { until } => {
                return match until {
                    Some(until) => NewUntil::Until { unix: until.unix, text: until.text.clone() },
                    None => NewUntil::Lifted,
                };
            },
            AuditChange::Other => {},
        }
        i = i + 1;
    }
    NewUntil::Unchanged
}

/// The words of a message that call the crow: a mention of its account, then each keyword
/// that stands in the text, none of them twice.
pub open spec fn matched(mentioned: bool, content: Seq<char>, keywords: Seq<Seq<char>>) -> Seq<Seq<char>>
    decreases keywords.len(),
{
    if keywords.len() == 0 {
        if mentioned {
            seq!["mention"@]
        } else {
            seq![]
        }
    } else {
        let before = matched(mentioned, content, keywords.drop_last());
        let word = keywords.last();
        if has_text(content, word) && !before.contains(word) {
            before.push(word)
        } else {
            before
        }
    }
}

/// The words that call the crow, given the message's text in small letters.
pub fn match_words(mentioned: bool, content: &str, keywords: &Vec<String>) -> (r: Vec<String>)
    ensures
        texts(r@) == matched(mentioned, content@, texts(keywords@)),
{
    let ghost all = texts(keywords@);
    let mut r: Vec<String> = Vec::new();
    assert(texts(r@) =~= seq![]);
    if mentioned {
        push_text(&mut r, "mention".to_owned());
        assert(texts(r@) =~= seq!["mention"@]);
    }
    let mut i: usize = 0;
    assert(all.take(0) =~= seq![]);
    while i < keywords.len()
        invariant
            i <= keywords@.len(),
            all == texts(keywords@),
            texts(r@) == matched(mentioned, content@, all.take(i as int)),
        decreases keywords@.len() - i,
    {
        if contains(content, keywords[i].as_str()) && !contains_text(&r, keywords[i].as_str()) {
            push_text(&mut r, keywords[i].clone());
        }
        i = i + 1;
        proof {
            assert(all.take(i as int).drop_last() =~= all.take(i - 1));
            assert(all.take(i as int).last() == keywords@[i - 1]@);
        }
    }
    assert(all.take(i as int) =~= all);
    r
}

/// Somebody mentions the account.
pub open spec fn mentions_account(message: Message, id: u64) -> bool {
    exists|i: int| 0 <= i < message.mentions@.len() && (#[trigger] message.mentions@[i]).id == id
}

fn is_mentioned(message: &Message, id: u64) -> (r: bool)
    ensures
        r == mentions_account(*message, id),
{
    let mut i: usize = 0;
    while i < message.mentions.len()
        invariant
            i <= message.mentions@.len(),
            forall|j: int| 0 <= j < i ==> (#[trigger] message.mentions@[j]).id != id,
        decreases message.mentions@.len() - i,
    {
        if message.mentions[i].id == id {
            return true;
        }
        i = i + 1;
    }
    false
}

/// The words of a message that call the crow.
pub fn matched_terms(message: &Message, bot_user_id: u64, keywords: &Vec<String>) -> (r: Vec<String>)
    ensures
        texts(r@) == matched(
            mentions_account(*message, bot_user_id),
            lowercased(message.content@),
            texts(keywords@),
        ),
{
    let content = lower(message.content.as_str());
    match_words(is_mentioned(message, bot_user_id), content.as_str(), keywords)
}

/// The address of a message.
pub open spec fn link_text(guild: Option<u64>, channel: u64, message: u64) -> Seq<char> {
    "https://discord.com/channels/"@ + (match guild {
        Some(guild) => decimal(guild as nat),
        None => "@me"@,
    }) + "/"@ + decimal(channel as nat) + "/"@ + decimal(message as nat)
}

/// The address of a message.
pub fn link(guild: Option<u64>, channel: u64, message: u64) -> (r: String)
    ensures
        r@ == link_text(guild, channel, message),
{
    let mut s = "https://discord.com/channels/".to_owned();
    match guild {
        Some(guild) => s.append(number(guild).as_str()),
        None => s.append("@me"),
    }
    s.append("/");
    s.append(number(channel).as_str());
    s.append("/");
    s.append(number(message).as_str());
    s
}

pub open spec fn opt_decimal(v: Option<u64>) -> Option<Seq<char>> {
    match v {
        Some(n) => Some(decimal(n as nat)),
        None => None,
    }
}

fn opt_number(v: Option<u64>) -> (r: Option<String>)
    ensures
        opt_text(r) == opt_decimal(v),
{
    match v {
        Some(n) => Some(number(n)),
        None => None,
    }
}

pub open spec fn mentioned_ids(users: Seq<User>) -> Seq<Seq<char>> {
    users.map_values(|u: User| decimal(u.id as nat))
}

fn list_mentioned(users: &Vec<User>) -> (r: Vec<String>)
    ensures
        texts(r@) == mentioned_ids(users@),
{
    let mut r: Vec<String> = Vec::new();
    let mut i: usize = 0;
    while i < users.len()
        invariant
            i <= users@.len(),
            texts(r@) == mentioned_ids(users@.take(i as int)),
        decreases users@.len() - i,
    {
        push_text(&mut r, number(users[i].id));
        i = i + 1;
        assert(texts(r@) =~= mentioned_ids(users@.take(i as int)));
    }
    assert(users@.take(i as int) =~= users@);
    r
}

/// A message as the archive keeps it.
pub open spec fn archived(m: Message, r: NewMessage) -> bool {
    &&& message_shown(m, r.rendered)
    &&& opt_text(r.guild_id) == opt_decimal(m.guild_id)
    &&& r.channel_id@ == decimal(m.channel_id as nat)
    &&& texts(r.mention_ids@) == mentioned_ids(m.mentions@)
}

/// A message as the inbox keeps it.
pub open spec fn inboxed(m: Message, words: Seq<Seq<char>>, r: NewMention) -> bool {
    &&& r.message_id@ == decimal(m.id as nat)
    &&& opt_text(r.guild_id) == opt_decimal(m.guild_id)
    &&& r.channel_id@ == decimal(m.channel_id as nat)
    &&& r.author_id@ == decimal(m.author.id as nat)
    &&& r.author_name == m.author.name
    &&& opt_text(r.author_display_name) == room_name(nick_of(m.member), m.author)
    &&& r.content == m.content
    &&& r.matched@ == joined(words, ","@)
    &&& r.timestamp == m.timestamp
    &&& r.link@ == link_text(m.guild_id, m.channel_id, m.id)
}

impl Handler {
    /// A listener that has heard nothing yet.
    pub fn new(config: GatewayConfig, bot_user_id: u64) -> (r: Self)
        ensures
            r.wf(),
            r.mode == config.mode,
            r.bot_user_id == bot_user_id,
            r.default_guild == config.default_guild,
            texts(r.mention_keywords@) == normalized_words(texts(config.mention_keywords@)),
            r.mention_store == config.mention_store,
            r.archive == config.archive,
            r.modlog == config.modlog,
            r.crow_bot_ids == config.crow_bot_ids,
            r.seen_audit_entries@.len() == 0,
            r.fanout == config.fanout,
            r.broadcast_guilds == config.broadcast_guilds,
    {
        Handler {
            mode: config.mode,
            bot_user_id,
            default_guild: config.default_guild,
            mention_keywords: normalize_keywords(config.mention_keywords),
            mention_store: config.mention_store,
            archive: config.archive,
            modlog: config.modlog,
            crow_bot_ids: config.crow_bot_ids,
            seen_audit_entries: Vec::new(),
            fanout: config.fanout,
            broadcast_guilds: config.broadcast_guilds,
        }
    }

    pub open spec fn wf(self) -> bool {
        self.seen_audit_entries@.len() <= SEEN_LIMIT
    }

    /// The ledger is open, and this is the guild it is about.
    pub open spec fn owns(self, guild: u64) -> bool {
        self.modlog is Some && self.default_guild == Some(guild)
    }

    /// One of our own hands did it, and wrote the richer row itself.
    pub open spec fn crow_did_it(self, by: Attribution) -> bool {
        match executor_number(by) {
            Some(id) => id == self.bot_user_id || self.crow_bot_ids@.contains(id),
            None => false,
        }
    }

    /// This gateway is the one that carries the guild.
    pub open spec fn carries(self, guild: Option<u64>) -> bool {
        guild is Some && self.broadcast_guilds@.contains(guild->0)
    }

    /// Whether the guild's moderation is ours to write down.
    pub fn owns_moderation(&self, guild_id: u64) -> (r: bool)
        ensures
            r == self.owns(guild_id),
    {
        match self.default_guild {
            Some(guild) => self.modlog.is_some() && guild == guild_id,
            None => false,
        }
    }

    /// Whether an audit entry was already written down; if not, it is from now on.
    pub fn already_recorded(&mut self, entry_id: u64) -> (r: bool)
        requires
            old(self).wf(),
        ensures
            final(self).wf(),
            r == old(self).seen_audit_entries@.contains(entry_id),
            final(self).seen_audit_entries@ == remembered(old(self).seen_audit_entries@, entry_id),
            (Handler { seen_audit_entries: old(self).seen_audit_entries, ..*final(self) }) == *old(self),
    {
        if holds_id(&self.seen_audit_entries, entry_id) {
            return true;
        }
        self.seen_audit_entries.push(entry_id);
        if self.seen_audit_entries.len() > SEEN_LIMIT {
            let _oldest = self.seen_audit_entries.remove(0);
            assert(self.seen_audit_entries@ =~= old(self).seen_audit_entries@.push(
                entry_id,
            ).drop_first());
        }
        false
    }

    /// Whether one of our own hands did it.
    pub fn is_crow_executor(&self, attribution: &Attribution) -> (r: bool)
        ensures
            r == self.crow_did_it(*attribution),
    {
        let id = match &attribution.executor_id {
            Some(id) => parse_u64(id.as_str()),
            None => None,
        };
        match id {
            Some(id) => id == self.bot_user_id || holds_id(&self.crow_bot_ids, id),
            None => false,
        }
    }

    /// What to write down of a ban, given who was found to have done it.
    pub fn guild_ban_addition(&self, guild_id: u64, banned_user: &User, found: Option<Attribution>) -> (r:
        Option<NewModAction>)
        ensures
            r is Some <==> self.owns(guild_id) && !(found is Some && self.crow_did_it(found->0)),
            r matches Some(row) ==> observed(
                row,
                "ban"@,
                guild_id,
                *banned_user,
                doer(found),
                None,
            ),
    {
        self.observe("ban", guild_id, banned_user, found)
    }

    /// What to write down of an unban, given who was found to have done it.
    pub fn guild_ban_removal(&self, guild_id: u64, unbanned_user: &User, found: Option<Attribution>) -> (r:
        Option<NewModAction>)
        ensures
            r is Some <==> self.owns(guild_id) && !(found is Some && self.crow_did_it(found->0)),
            r matches Some(row) ==> observed(
                row,
                "unban"@,
                guild_id,
                *unbanned_user,
                doer(found),
                None,
            ),
    {
        self.observe("unban", guild_id, unbanned_user, found)
    }

    fn observe(&self, action: &str, guild_id: u64, user: &User, found: Option<Attribution>) -> (r: Option<
        NewModAction,
    >)
        ensures
            r is Some <==> self.owns(guild_id) && !(found is Some && self.crow_did_it(found->0)),
            r matches Some(row) ==> observed(row, action@, guild_id, *user, doer(found), None),
    {
        if !self.owns_moderation(guild_id) {
            return None;
        }
        match found {
            Some(by) => {
                if self.is_crow_executor(&by) {
                    None
                } else {
                    Some(observed_row(action, guild_id, user, by, None))
                }
            },
            None => Some(observed_row(action, guild_id, user, Attribution::nobody(), None)),
        }
    }

    /// What to write down of somebody who joined: when their account was made comes along.
    pub fn guild_member_addition(&self, guild_id: u64, user: &User) -> (r: Option<NewModAction>)
        requires
            user.id != 0,
        ensures
            r is Some <==> self.owns(guild_id),
            r matches Some(row) ==> observed(
                row,
                "join"@,
                guild_id,
                *user,
                doer(None),
                Some(single("account_created"@, account_created(user.id as int))),
            ),
    {
        if !self.owns_moderation(guild_id) {
            return None;
        }
        let created = account_created_text(user.id);
        let metadata = single_text("account_created", created.as_str());
        Some(observed_row("join", guild_id, user, Attribution::nobody(), Some(metadata)))
    }

    /// What to do about somebody who left, given whether a kick was found: only the audit log
    /// can tell a kick from a walk-out.
    pub fn guild_member_removal(&self, guild_id: u64, user: &User, kick: Option<Attribution>) -> (r:
        Departure)
        ensures
            if !self.owns(guild_id) {
                r is Ignore
            } else {
                match kick {
                    Some(by) => if self.crow_did_it(by) {
                        r is Ignore
                    } else {
                        r matches Departure::Record(row) && observed(
                            row,
                            "kick"@,
                            guild_id,
                            *user,
                            doer(kick),
                            None,
                        )
                    },
                    None => r is LookForBan,
                }
            },
    {
        if !self.owns_moderation(guild_id) {
            return Departure::Ignore;
        }
        match kick {
            Some(by) => {
                if self.is_crow_executor(&by) {
                    Departure::Ignore
                } else {
                    Departure::Record(observed_row("kick", guild_id, user, by, None))
                }
            },
            None => Departure::LookForBan,
        }
    }

    /// What to write down of somebody who left and was not kicked, given whether a ban was
    /// found: the ban's own event tells that story.
    pub fn guild_member_left(&self, guild_id: u64, user: &User, ban_found: bool) -> (r: Option<
        NewModAction,
    >)
        ensures
            r is Some <==> self.owns(guild_id) && !ban_found,
            r matches Some(row) ==> observed(row, "leave"@, guild_id, *user, doer(None), None),
    {
        if ban_found || !self.owns_moderation(guild_id) {
            return None;
        }
        Some(observed_row("leave", guild_id, user, Attribution::nobody(), None))
    }

    /// A change of a member is worth a row: an entry tells of a timeout, none of our own
    /// hands did it, and the entry was not written down before.
    pub open spec fn update_counts(self, guild: u64, found: Option<Attribution>) -> bool {
        &&& self.owns(guild)
        &&& found is Some
        &&& attributed_change(found->0) is Some
        &&& !self.crow_did_it(found->0)
        &&& !self.seen_audit_entries@.contains(found->0.entry->0.id)
    }

    /// What a change of a member leaves: a row where it counts, of a timeout that lasts or of
    /// one that is over, and the entry remembered; nothing else changes.
    pub open spec fn writes_update(
        self,
        after: Handler,
        guild: u64,
        user: User,
        found: Option<Attribution>,
        now: i64,
        r: Option<NewModAction>,
    ) -> bool {
        &&& (Handler { seen_audit_entries: self.seen_audit_entries, ..after }) == self
        &&& r is Some <==> self.update_counts(guild, found)
        &&& after.seen_audit_entries@ == if self.update_counts(guild, found) {
            remembered(self.seen_audit_entries@, found->0.entry->0.id)
        } else {
            self.seen_audit_entries@
        }
        &&& r is Some ==> match attributed_change(found->0)->0 {
            Some(until) => if until.unix > now {
                observed(
                    r->0,
                    "timeout"@,
                    guild,
                    user,
                    doer(found),
                    Some(single("until"@, until.text@)),
                )
            } else {
                observed(r->0, "timeout_remove"@, guild, user, doer(found), None)
            },
            None => observed(r->0, "timeout_remove"@, guild, user, doer(found), None),
        }
    }

    /// What to write down of a change of a member: a timeout that was set or lifted, once.
    pub fn guild_member_update(
        &mut self,
        guild_id: u64,
        user: &User,
        found: Option<Attribution>,
        now: i64,
    ) -> (r: Option<NewModAction>)
        requires
            old(self).wf(),
        ensures
            final(self).wf(),
            old(self).writes_update(*final(self), guild_id, *user, found, now, r),
    {
        if !self.owns_moderation(guild_id) {
            return None;
        }
        let by = match found {
            Some(by) => by,
            None => {
                return None;
            },
        };
        let (entry_id, change) = match &by.entry {
            Some(entry) => (entry.id, find_timeout_change(&entry.changes)),
            None => (0u64, NewUntil::Unchanged),
        };
        match change {
            NewUntil::Unchanged => None,
            NewUntil::Lifted => {
                if self.is_crow_executor(&by) || self.already_recorded(entry_id) {
                    return None;
                }
                Some(observed_row("timeout_remove", guild_id, user, by, None))
            },
            NewUntil::Until { unix, text } => {
                if self.is_crow_executor(&by) || self.already_recorded(entry_id) {
                    return None;
                }
                if unix > now {
                    let metadata = single_text("until", text.as_str());
                    Some(observed_row("timeout", guild_id, user, by, Some(metadata)))
                } else {
                    Some(observed_row("timeout_remove", guild_id, user, by, None))
                }
            },
        }
    }

    /// Whether the wall shows a message: every one of the guilds this gateway carries.
    pub fn mirrors(&self, message: &Message) -> (r: bool)
        ensures
            r == (self.fanout && self.carries(message.guild_id)),
    {
        match message.guild_id {
            Some(guild) => self.fanout && holds_id(&self.broadcast_guilds, guild),
            None => false,
        }
    }

    /// What the archive keeps of a message: every one of the guilds this gateway carries.
    pub fn archives(&self, message: &Message) -> (r: Option<NewMessage>)
        ensures
            r is Some <==> self.archive is Some && self.carries(message.guild_id),
            r matches Some(record) ==> archived(*message, record),
    {
        let carried = match message.guild_id {
            Some(guild) => holds_id(&self.broadcast_guilds, guild),
            None => false,
        };
        if !carried || self.archive.is_none() {
            return None;
        }
        Some(
            NewMessage {
                rendered: RenderedMessage::from(message),
                guild_id: opt_number(message.guild_id),
                channel_id: number(message.channel_id),
                mention_ids: list_mentioned(&message.mentions),
            },
        )
    }

    /// The words of a message that call the crow, as this listener looks for them.
    pub open spec fn called_by(self, message: Message) -> Seq<Seq<char>> {
        matched(
            mentions_account(message, self.bot_user_id),
            lowercased(message.content@),
            texts(self.mention_keywords@),
        )
    }

    /// A message belongs in the inbox: the inbox is open, somebody else wrote it, in the home
    /// guild where there is one, and it calls the crow.
    pub open spec fn is_call(self, message: Message) -> bool {
        &&& self.mode == GatewayMode::Mentions
        &&& message.author.id != self.bot_user_id
        &&& self.default_guild is Some ==> message.guild_id == self.default_guild
        &&& self.mention_store is Some
        &&& self.called_by(message).len() > 0
    }

    /// What the inbox keeps of a message, if anything.
    pub fn message(&self, message: &Message) -> (r: Option<NewMention>)
        ensures
            r is Some <==> self.is_call(*message),
            r matches Some(mention) ==> inboxed(*message, self.called_by(*message), mention),
    {
        if self.mode != GatewayMode::Mentions {
            return None;
        }
        if message.author.id == self.bot_user_id {
            return None;
        }
        if let Some(home) = self.default_guild {
            let here = match message.guild_id {
                Some(guild) => guild == home,
                None => false,
            };
            if !here {
                return None;
            }
        }
        if self.mention_store.is_none() {
            return None;
        }
        let words = matched_terms(message, self.bot_user_id, &self.mention_keywords);
        assert(texts(words@).len() == words@.len());
        if words.len() == 0 {
            return None;
        }
        Some(
            NewMention {
                message_id: number(message.id),
                guild_id: opt_number(message.guild_id),
                channel_id: number(message.channel_id),
                author_id: number(message.author.id),
                author_name: message.author.name.clone(),
                author_display_name: display_name(message),
                content: message.content.clone(),
                matched: join(&words, ","),
                timestamp: message.timestamp.clone(),
                link: link(message.guild_id, message.channel_id, message.id),
            },
        )
    }
}

/// No audit entry is written down twice while it is remembered, and what is remembered never
/// grows past its limit.
pub proof fn lemma_remembered_is_bounded(seen: Seq<u64>, id: u64)
    requires
        seen.len() <= SEEN_LIMIT,
    ensures
        remembered(seen, id).len() <= SEEN_LIMIT,
        remembered(seen, id).contains(id),
{
    if !seen.contains(id) {
        let all = seen.push(id);
        assert(all[all.len() - 1] == id);
        if seen.len() + 1 > SEEN_LIMIT {
            assert(all.drop_first()[all.len() - 2] == id);
        }
    }
}

/// An audit entry is written down once: a second event that leads to the same entry is not
/// written down.
pub proof fn lemma_an_entry_counts_once(
    before: Handler,
    after: Handler,
    guild: u64,
    found: Attribution,
)
    requires
        before.wf(),
        before.update_counts(guild, Some(found)),
        after.seen_audit_entries@ == remembered(before.seen_audit_entries@, found.entry->0.id),
    ensures
        !after.update_counts(guild, Some(found)),
{
    lemma_remembered_is_bounded(before.seen_audit_entries@, found.entry->0.id);
}

/// The words that call the crow are a mention or keywords that stand in the text, and none is
/// named twice.
pub proof fn lemma_matched_words_stand_in_the_text(
    mentioned: bool,
    content: Seq<char>,
    keywords: Seq<Seq<char>>,
)
    ensures
        matched(mentioned, content, keywords).no_duplicates(),
        forall|w: Seq<char>| #[trigger]
            matched(mentioned, content, keywords).contains(w) <==> (mentioned && w == "mention"@) || (
            keywords.contains(w) && has_text(content, w)),
    decreases keywords.len(),
{
    let m = matched(mentioned, content, keywords);
    if keywords.len() > 0 {
        let front = keywords.drop_last();
        let word = keywords.last();
        let before = matched(mentioned, content, front);
        lemma_matched_words_stand_in_the_text(mentioned, content, front);
        assert forall|w: Seq<char>| #[trigger] m.contains(w) <==> (mentioned && w == "mention"@) || (
        keywords.contains(w) && has_text(content, w)) by {
            assert(keywords.contains(w) <==> w == word || front.contains(w)) by {
                if keywords.contains(w) {
                    let k = choose|k: int| 0 <= k < keywords.len() && keywords[k] == w;
                    if k < front.len() {
                        assert(front[k] == w);
                    }
                }
                if front.contains(w) {
                    let k = choose|k: int| 0 <= k < front.len() && front[k] == w;
                    assert(keywords[k] == w);
                }
                if w == word {
                    assert(keywords[keywords.len() - 1] == w);
                }
            }
            assert(before.contains(w) <==> (mentioned && w == "mention"@) || (front.contains(w)
                && has_text(content, w)));
            if m.len() > before.len() {
                assert(m.contains(w) <==> w == word || before.contains(w)) by {
                    if m.contains(w) {
                        let k = choose|k: int| 0 <= k < m.len() && m[k] == w;
                        if k < before.len() {
                            assert(before[k] == w);
                        }
                    }
                    if before.contains(w) {
                        let k = choose|k: int| 0 <= k < before.len() && before[k] == w;
                        assert(m[k] == w);
                    }
                    if w == word {
                        assert(m[m.len() - 1] == w);
                    }
                }
            }
        }
    } else {
        assert forall|w: Seq<char>| #[trigger] m.contains(w) <==> (mentioned && w == "mention"@) || (
        keywords.contains(w) && has_text(content, w)) by {
            if mentioned && w == "mention"@ {
                assert(m[0] == w);
            }
        }
    }
}

} // verus!
