//! The watch-wall: which guilds and channels it offers, how far it reads back, and the layout
//! it keeps.

use vstd::prelude::*;

use crate::discord::wire::{ChannelType, GuildChannel, Message};
use crate::gateway::holds_id;
use crate::layout::{LayoutStore, PUT};
use crate::server::boot::snowflake;
use crate::server::tools::common::{clamped, limit_of};
use crate::server::{Probe, Voice};
use crate::sql::{Bound, Statement};
use crate::text::{decimal, number};

pub mod event;

verus! {

pub const BACKFILL_DEFAULT: u8 = 30;

pub const BACKFILL_MAX: u8 = 100;

/// Which bot reads what: the primary one where it lives, the observer elsewhere.
pub struct ClientPool {
    pub observer: bool,
    pub default_guild: Option<u64>,
    pub secondary_guilds: Vec<u64>,
    pub readonly_guilds: Vec<u64>,
}

/// A guild the wall offers, and as what.
pub struct WallGuild {
    pub guild: u64,
    pub kind: &'static str,
}

pub open spec fn guild_views(v: Seq<WallGuild>) -> Seq<(u64, Seq<char>)> {
    v.map_values(|g: WallGuild| (g.guild, g.kind@))
}

pub open spec fn as_kind(guilds: Seq<u64>, kind: Seq<char>) -> Seq<(u64, Seq<char>)> {
    guilds.map_values(|g: u64| (g, kind))
}

fn add_kind(r: &mut Vec<WallGuild>, guilds: &Vec<u64>, kind: &'static str)
    ensures
        guild_views(final(r)@) == guild_views(old(r)@) + as_kind(guilds@, kind@),
{
    let ghost before = guild_views(r@);
    let ghost wanted = as_kind(guilds@, kind@);
    let mut i: usize = 0;
    assert(guild_views(r@) =~= before + wanted.take(0));
    while i < guilds.len()
        invariant
            i <= guilds@.len(),
            before == guild_views(old(r)@),
            wanted == as_kind(guilds@, kind@),
            guild_views(r@) == before + wanted.take(i as int),
        decreases guilds@.len() - i,
    {
        let ghost so_far = guild_views(r@);
        r.push(WallGuild { guild: guilds[i], kind });
        i = i + 1;
        assert(guild_views(r@) =~= so_far.push((guilds@[i - 1], kind@)));
        assert(wanted.take(i as int) =~= wanted.take(i - 1).push(wanted[i - 1]));
    }
    assert(wanted.take(i as int) =~= wanted);
}

impl ClientPool {
    /// The primary bot lives here.
    pub open spec fn at_home(self, guild: u64) -> bool {
        self.default_guild == Some(guild) || self.secondary_guilds@.contains(guild)
    }

    fn is_home(&self, guild: u64) -> (r: bool)
        ensures
            r == self.at_home(guild),
    {
        let home = match self.default_guild {
            Some(id) => id == guild,
            None => false,
        };
        home || holds_id(&self.secondary_guilds, guild)
    }

    /// The bot that reads a guild: the primary one at home, the observer elsewhere, if there
    /// is one.
    pub open spec fn reader(self, guild: u64) -> Voice {
        if self.observer && !self.at_home(guild) {
            Voice::Observer
        } else {
            Voice::Primary
        }
    }

    /// The bot that reads a guild.
    pub fn client_for_guild(&self, guild: u64) -> (r: Voice)
        ensures
            r == self.reader(guild),
    {
        if self.observer && !self.is_home(guild) {
            Voice::Observer
        } else {
            Voice::Primary
        }
    }

    /// The bot that reads a channel, given where the primary bot found it.
    pub fn client_for_channel(&self, probe: Probe) -> (r: Voice)
        ensures
            r == if !self.observer {
                Voice::Primary
            } else {
                match probe {
                    Probe::InGuild(guild) => if self.at_home(guild) {
                        Voice::Primary
                    } else {
                        Voice::Observer
                    },
                    Probe::NoGuild => if self.default_guild is None {
                        Voice::Primary
                    } else {
                        Voice::Observer
                    },
                    Probe::Failed => Voice::Observer,
                }
            },
    {
        if !self.observer {
            return Voice::Primary;
        }
        match probe {
            Probe::InGuild(guild) => {
                if self.is_home(guild) {
                    Voice::Primary
                } else {
                    Voice::Observer
                }
            },
            Probe::NoGuild => {
                if self.default_guild.is_none() {
                    Voice::Primary
                } else {
                    Voice::Observer
                }
            },
            Probe::Failed => Voice::Observer,
        }
    }

    /// The guilds in order: the home guild, the secondary ones, those only watched.
    pub open spec fn offered(self) -> Seq<(u64, Seq<char>)> {
        (match self.default_guild {
            Some(guild) => seq![(guild, "primary"@)],
            None => seq![],
        }) + as_kind(self.secondary_guilds@, "secondary"@) + as_kind(
            self.readonly_guilds@,
            "observer"@,
        )
    }

    /// The guilds the wall offers.
    pub fn guilds(&self) -> (r: Vec<WallGuild>)
        ensures
            guild_views(r@) == self.offered(),
    {
        let mut r: Vec<WallGuild> = Vec::new();
        if let Some(guild) = self.default_guild {
            r.push(WallGuild { guild, kind: "primary" });
        }
        let ghost first: Seq<(u64, Seq<char>)> = match self.default_guild {
            Some(guild) => seq![(guild, "primary"@)],
            None => seq![],
        };
        assert(guild_views(r@) =~= first);
        add_kind(&mut r, &self.secondary_guilds, "secondary");
        add_kind(&mut r, &self.readonly_guilds, "observer");
        r
    }
}

/// How far back to read, and where.
pub struct BackfillParams {
    pub channel_id: String,
    pub limit: Option<u8>,
}

pub const BAD_CHANNEL: &'static str = "channel_id must be a snowflake";

/// Plans to read a channel back: between one and a hundred messages.
pub fn backfill(params: &BackfillParams) -> (r: Result<(u64, u8), String>)
    requires
        snowflake(params.channel_id@) != Some(0u64),
    ensures
        match snowflake(params.channel_id@) {
            None => r matches Err(e) && e@ == BAD_CHANNEL@,
            Some(id) => r matches Ok((channel, limit)) && channel == id && limit == clamped(
                match params.limit {
                    Some(n) => n as int,
                    None => BACKFILL_DEFAULT as int,
                },
                1,
                BACKFILL_MAX as int,
            ),
        },
{
    match crate::numeral::parse_u64(crate::text::trim(params.channel_id.as_str()).as_str()) {
        None => Err(BAD_CHANNEL.to_owned()),
        Some(channel) => Ok((channel, limit_of(params.limit, BACKFILL_DEFAULT, BACKFILL_MAX))),
    }
}

/// Puts messages that came newest first into the order they were written in.
pub fn chronological(messages: Vec<Message>) -> (r: Vec<Message>)
    ensures
        r@ == messages@.reverse(),
{
    let ghost all = messages@;
    let mut rest = messages;
    let mut r: Vec<Message> = Vec::new();
    while rest.len() > 0
        invariant
            rest@.len() + r@.len() == all.len(),
            rest@ == all.take(rest@.len() as int),
            forall|i: int| 0 <= i < r@.len() ==> #[trigger] r@[i] == all[all.len() - 1 - i],
        decreases rest@.len(),
    {
        if let Some(message) = rest.pop() {
            r.push(message);
        }
        assert(rest@ =~= all.take(rest@.len() as int));
    }
    assert(r@ =~= all.reverse());
    r
}

/// A guild on offer, with its channels.
pub struct WallSource {
    pub id: String,
    pub name: String,
    pub kind: &'static str,
    pub channels: Vec<WallChannel>,
}

/// A channel on offer.
pub struct WallChannel {
    pub id: String,
    pub name: String,
    pub kind: &'static str,
}

/// A channel that the wall can watch.
pub open spec fn is_readable(c: GuildChannel) -> bool {
    c.kind == ChannelType::Text || c.kind == ChannelType::News
}

/// Where a channel of that position goes among others in order: behind all that do not come
/// after it.
pub open spec fn slot(s: Seq<GuildChannel>, position: u16) -> nat
    decreases s.len(),
{
    if s.len() == 0 || s[0].position > position {
        0
    } else {
        1 + slot(s.drop_first(), position)
    }
}

/// The readable channels by position; those of one position keep their order.
pub open spec fn by_position(s: Seq<GuildChannel>) -> Seq<GuildChannel>
    decreases s.len(),
{
    if s.len() == 0 {
        seq![]
    } else {
        let before = by_position(s.drop_last());
        if is_readable(s.last()) {
            before.insert(slot(before, s.last().position) as int, s.last())
        } else {
            before
        }
    }
}

proof fn lemma_slot(s: Seq<GuildChannel>, position: u16, n: int)
    requires
        0 <= n <= s.len(),
        forall|i: int| 0 <= i < n ==> (#[trigger] s[i]).position <= position,
        n == s.len() || s[n].position > position,
    ensures
        slot(s, position) == n,
    decreases n,
{
    if n > 0 {
        assert(s[0].position <= position);
        let t = s.drop_first();
        assert forall|i: int| 0 <= i < n - 1 implies (#[trigger] t[i]).position <= position by {
            assert(t[i] == s[i + 1]);
        }
        lemma_slot(t, position, n - 1);
    }
}

fn sort_channels(channels: Vec<GuildChannel>) -> (r: Vec<GuildChannel>)
    ensures
        r@ == by_position(channels@),
{
    let ghost all = channels@;
    let mut rest = channels;
    let mut r: Vec<GuildChannel> = Vec::new();
    let ghost mut n: int = 0;
    assert(all.skip(0) =~= all);
    assert(all.take(0) =~= seq![]);
    while rest.len() > 0
        invariant
            0 <= n <= all.len(),
            rest@ == all.skip(n),
            r@ == by_position(all.take(n)),
        decreases rest@.len(),
    {
        let channel = rest.remove(0);
        assert(channel == all[n]);
        let readable = match channel.kind {
            ChannelType::Text => true,
            ChannelType::News => true,
            _ => false,
        };
        proof {
            assert(all.take(n + 1).drop_last() =~= all.take(n));
            assert(all.take(n + 1).last() == all[n]);
            assert(rest@ =~= all.skip(n + 1));
            n = n + 1;
        }
        if readable {
            let mut k: usize = 0;
            while k < r.len() && r[k].position <= channel.position
                invariant
                    k <= r@.len(),
                    forall|i: int| 0 <= i < k ==> (#[trigger] r@[i]).position <= channel.position,
                decreases r@.len() - k,
            {
                k = k + 1;
            }
            proof {
                lemma_slot(r@, channel.position, k as int);
            }
            r.insert(k, channel);
        }
    }
    assert(all.take(n) =~= all);
    r
}

/// What the wall offers of a channel.
pub open spec fn offer(c: GuildChannel, kind: Seq<char>, r: WallChannel) -> bool {
    r.id@ == decimal(c.id as nat) && r.name == c.name && r.kind@ == kind
}

pub open spec fn offers(c: Seq<GuildChannel>, kind: Seq<char>, r: Seq<WallChannel>) -> bool {
    c.len() == r.len() && forall|i: int| 0 <= i < c.len() ==> offer(c[i], kind, #[trigger] r[i])
}

fn offer_all(channels: Vec<GuildChannel>, kind: &'static str) -> (r: Vec<WallChannel>)
    ensures
        offers(channels@, kind@, r@),
{
    let ghost all = channels@;
    let mut rest = channels;
    let mut r: Vec<WallChannel> = Vec::new();
    assert(all.skip(0) =~= all);
    while rest.len() > 0
        invariant
            r@.len() <= all.len(),
            rest@ == all.skip(r@.len() as int),
            forall|i: int| 0 <= i < r@.len() ==> offer(all[i], kind@, #[trigger] r@[i]),
        decreases rest@.len(),
    {
        let channel = rest.remove(0);
        let ghost n = r@.len() as int;
        assert(channel == all[n]);
        r.push(WallChannel { id: number(channel.id), name: channel.name, kind });
        assert(rest@ =~= all.skip(n + 1));
    }
    r
}

pub open spec fn found(v: Option<Vec<GuildChannel>>) -> Seq<GuildChannel> {
    match v {
        Some(v) => v@,
        None => seq![],
    }
}

/// What the wall offers of a guild, given what could be read of it: the readable channels by
/// position, then the threads, and the bare id where its name is not known.
pub fn sources(
    guild: &WallGuild,
    name: Option<String>,
    channels: Option<Vec<GuildChannel>>,
    threads: Option<Vec<GuildChannel>>,
) -> (r: WallSource)
    ensures
        r.id@ == decimal(guild.guild as nat),
        r.name@ == match name {
            Some(name) => name@,
            None => decimal(guild.guild as nat),
        },
        r.kind@ == guild.kind@,
        ({
            let text = by_position(found(channels));
            let n = text.len() as int;
            &&& r.channels@.len() == n + found(threads).len()
            &&& offers(text, "channel"@, r.channels@.take(n))
            &&& offers(found(threads), "thread"@, r.channels@.skip(n))
        }),
{
    let mut listed = match channels {
        Some(channels) => offer_all(sort_channels(channels), "channel"),
        None => Vec::new(),
    };
    let ghost text = listed@;
    let mut more = match threads {
        Some(threads) => offer_all(threads, "thread"),
        None => Vec::new(),
    };
    let ghost threaded = more@;
    listed.append(&mut more);
    proof {
        assert(listed@ =~= text + threaded);
        assert(listed@.take(text.len() as int) =~= text);
        assert(listed@.skip(text.len() as int) =~= threaded);
    }
    WallSource {
        id: number(guild.guild),
        name: match name {
            Some(name) => name,
            None => number(guild.guild),
        },
        kind: guild.kind,
        channels: listed,
    }
}

/// Channels stand in order of position.
pub open spec fn in_order(s: Seq<GuildChannel>) -> bool {
    forall|i: int, j: int|
        0 <= i < j < s.len() ==> (#[trigger] s[i]).position <= (#[trigger] s[j]).position
}

proof fn lemma_slot_bounds(s: Seq<GuildChannel>, position: u16)
    ensures
        slot(s, position) <= s.len(),
        forall|i: int| 0 <= i < slot(s, position) ==> (#[trigger] s[i]).position <= position,
        slot(s, position) < s.len() ==> s[slot(s, position) as int].position > position,
    decreases s.len(),
{
    if s.len() > 0 && !(s[0].position > position) {
        let t = s.drop_first();
        lemma_slot_bounds(t, position);
        assert forall|i: int| 0 <= i < slot(s, position) implies (#[trigger] s[i]).position
            <= position by {
            if i > 0 {
                assert(t[i - 1] == s[i]);
            }
        }
    }
}

/// The channels on offer stand in order of position, and are the guild's readable ones: each
/// as often as it stands among them, and no other.
pub proof fn lemma_channels_are_sorted(s: Seq<GuildChannel>)
    ensures
        in_order(by_position(s)),
        by_position(s).to_multiset() == s.filter(|c: GuildChannel| is_readable(c)).to_multiset(),
    decreases s.len(),
{
    let readable = |c: GuildChannel| is_readable(c);
    reveal(Seq::filter);
    if s.len() > 0 {
        lemma_channels_are_sorted(s.drop_last());
        let before = by_position(s.drop_last());
        let c = s.last();
        if is_readable(c) {
            let k = slot(before, c.position) as int;
            lemma_slot_bounds(before, c.position);
            let after = before.insert(k, c);
            assert forall|i: int, j: int| 0 <= i < j < after.len() implies (#[trigger] after[i]).position
                <= (#[trigger] after[j]).position by {
                let x = if i < k {
                    before[i]
                } else if i == k {
                    c
                } else {
                    before[i - 1]
                };
                let y = if j < k {
                    before[j]
                } else if j == k {
                    c
                } else {
                    before[j - 1]
                };
                assert(after[i] == x && after[j] == y);
                if i == k && j > k {
                    if j - 1 > k {
                        assert(before[k].position <= before[j - 1].position);
                    }
                }
            }
            vstd::seq_lib::to_multiset_insert(before, k, c);
            assert(s.filter(readable) =~= s.drop_last().filter(readable).push(c));
            vstd::seq_lib::to_multiset_build(s.drop_last().filter(readable), c);
        } else {
            assert(s.filter(readable) =~= s.drop_last().filter(readable));
        }
    } else {
        assert(s.filter(readable) =~= seq![]);
        assert(by_position(s) =~= seq![]);
    }
}

/// A text is JSON, as `serde_json` reads it.
pub uninterp spec fn is_json(text: Seq<char>) -> bool;

/// Calls `serde_json::from_str` for any value. What the grammar accepts is left to the name.
#[verifier::external_body]
fn reads_as_json(text: &str) -> (r: bool)
    ensures
        r == is_json(text@),
{
    serde_json::from_str::<serde_json::Value>(text).is_ok()
}

pub const NOT_JSON: &'static str = "layout body must be json";

/// Plans to keep a layout, given whether it is JSON: it is never read into, and nothing else
/// is kept.
pub fn keep_layout(store: &LayoutStore, body: &str, json: bool) -> (r: Result<Statement, String>)
    ensures
        if json {
            r matches Ok(s) && s.is(PUT@, seq![Bound::Text(body@)])
        } else {
            r matches Err(e) && e@ == NOT_JSON@
        },
{
    if json {
        Ok(store.put(body))
    } else {
        Err(NOT_JSON.to_owned())
    }
}

/// Plans to keep a layout.
pub fn put_layout(store: &LayoutStore, body: &str) -> (r: Result<Statement, String>)
    ensures
        if is_json(body@) {
            r matches Ok(s) && s.is(PUT@, seq![Bound::Text(body@)])
        } else {
            r matches Err(e) && e@ == NOT_JSON@
        },
{
    keep_layout(store, body, reads_as_json(body))
}

/// The layout before anybody kept one.
pub const EMPTY_LAYOUT: &'static str = "{\"panels\":[]}";

/// The layout that is shown: the one kept, or the empty one.
pub fn get_layout(stored: Option<String>) -> (r: String)
    ensures
        r@ == match stored {
            Some(text) => text@,
            None => EMPTY_LAYOUT@,
        },
{
    match stored {
        Some(text) => text,
        None => EMPTY_LAYOUT.to_owned(),
    }
}

} // verus!
