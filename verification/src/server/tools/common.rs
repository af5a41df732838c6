//! What the tools share: who calls, and how ids are read.

use vstd::prelude::*;

use crate::assoc::Assoc;
use crate::discord::types::{name_in_room, room_name, RenderedMessage};
use crate::discord::wire::Member;
use crate::gateway::holds_id;
use crate::numeral::{parse_u64, parsed_u64};
use crate::server::boot::snowflake;
use crate::server::{copy_ids, KurouServer};
use crate::text::{contains_text, decimal, number, opt_text, push_text, texts, trim};

verus! {

/// Where a call comes from: a terminal, or HTTP with the label its bearer was known by, if it
/// was.
pub enum Caller {
    Stdio,
    Http { identity: Option<String> },
}

/// What a caller nobody knows is told.
pub const NOBODY: &'static str =
    "unauthenticated http callers have no identity on the crow: set AUTH_TOKENS and present a bearer";

/// Who calls: the terminal is the house's own, a bearer has its label, and a request without
/// either is nobody.
pub open spec fn identity_of(caller: Caller) -> Option<Seq<char>> {
    match caller {
        Caller::Stdio => Some("koma"@),
        Caller::Http { identity } => opt_text(identity),
    }
}

/// Who calls; nobody gets no name.
pub fn caller_identity(caller: &Caller) -> (r: Result<String, String>)
    ensures
        match identity_of(*caller) {
            Some(identity) => r matches Ok(s) && s@ == identity,
            None => r matches Err(s) && s@ == NOBODY@,
        },
{
    match caller {
        Caller::Stdio => Ok("koma".to_owned()),
        Caller::Http { identity } => match identity {
            Some(identity) => Ok(identity.clone()),
            None => Err(NOBODY.to_owned()),
        },
    }
}

/// `'raw' is not a valid ... id`.
pub open spec fn invalid_text(raw: Seq<char>, what: Seq<char>) -> Seq<char> {
    "'"@ + raw + "' is not a valid "@ + what
}

/// Says that a text is no id of a kind.
pub fn invalid(raw: &str, what: &str) -> (r: String)
    ensures
        r@ == invalid_text(raw@, what@),
{
    let mut s = "'".to_owned();
    s.append(raw);
    s.append("' is not a valid ");
    s.append(what);
    s
}

/// Reads an id, white space aside.
pub fn parse_snowflake(raw: &str) -> (r: Result<u64, String>)
    ensures
        match snowflake(raw@) {
            Some(id) => r == Ok::<u64, String>(id),
            None => r matches Err(e) && e@ == invalid_text(raw@, "snowflake id"@),
        },
{
    match parse_u64(trim(raw).as_str()) {
        Some(id) => Ok(id),
        None => Err(invalid(raw, "snowflake id")),
    }
}

/// Reads a channel's id.
pub fn parse_channel(raw: &str) -> (r: Result<u64, String>)
    requires
        snowflake(raw@) != Some(0u64),
    ensures
        match snowflake(raw@) {
            Some(id) => r == Ok::<u64, String>(id),
            None => r matches Err(e) && e@ == invalid_text(raw@, "snowflake id"@),
        },
{
    parse_snowflake(raw)
}

/// Reads a message's id.
pub fn parse_message(raw: &str) -> (r: Result<u64, String>)
    requires
        snowflake(raw@) != Some(0u64),
    ensures
        match snowflake(raw@) {
            Some(id) => r == Ok::<u64, String>(id),
            None => r matches Err(e) && e@ == invalid_text(raw@, "snowflake id"@),
        },
{
    parse_snowflake(raw)
}

/// Which guild a request is about, or why it is about none.
pub open spec fn guild_meant(arg: Option<Seq<char>>, default: Option<u64>, others: Seq<u64>) -> Result<
    u64,
    Seq<char>,
> {
    let guild = match arg {
        Some(raw) => match snowflake(raw) {
            Some(id) => Ok(id),
            None => Err(invalid_text(raw, "snowflake id"@)),
        },
        None => match default {
            Some(id) => Ok(id),
            None => Err("no guild_id given and DISCORD_GUILD_ID is not set"@),
        },
    };
    match guild {
        Err(e) => Err(e),
        Ok(id) => if others.len() > 0 && default != Some(id) && !others.contains(id) {
            Err(
                "guild "@ + decimal(id as nat)
                    + " is not in the read allowlist (primary + READONLY_GUILDS)"@,
            )
        } else {
            Ok(id)
        },
    }
}

/// The guild a request names, or the home guild where it names none. Where there are other
/// guilds besides the home guild, no guild but these is read.
pub fn resolve_guild(arg: Option<String>, default: Option<u64>, secondaries: &Vec<u64>) -> (r: Result<
    u64,
    String,
>)
    requires
        arg matches Some(raw) ==> snowflake(raw@) != Some(0u64),
    ensures
        match guild_meant(opt_text(arg), default, secondaries@) {
            Ok(id) => r == Ok::<u64, String>(id),
            Err(text) => r matches Err(e) && e@ == text,
        },
{
    let guild = match arg {
        Some(raw) => match parse_snowflake(raw.as_str()) {
            Ok(id) => id,
            Err(e) => {
                return Err(e);
            },
        },
        None => match default {
            Some(id) => id,
            None => {
                return Err("no guild_id given and DISCORD_GUILD_ID is not set".to_owned());
            },
        },
    };
    let home = match default {
        Some(id) => id == guild,
        None => false,
    };
    if secondaries.len() > 0 && !home && !holds_id(secondaries, guild) {
        let mut s = "guild ".to_owned();
        s.append(number(guild).as_str());
        s.append(" is not in the read allowlist (primary + READONLY_GUILDS)");
        return Err(s);
    }
    Ok(guild)
}

impl KurouServer {
    /// The guild a request is about. Besides the home guild, the secondary and the watched
    /// guilds are read.
    pub fn guild_asked(&self, arg: Option<String>) -> (r: Result<u64, String>)
        requires
            arg matches Some(raw) ==> snowflake(raw@) != Some(0u64),
        ensures
            match guild_meant(
                opt_text(arg),
                self.default_guild,
                self.secondary_guilds@ + self.watched(),
            ) {
                Ok(id) => r == Ok::<u64, String>(id),
                Err(text) => r matches Err(e) && e@ == text,
            },
    {
        let mut others = copy_ids(&self.secondary_guilds);
        let mut watched = self.readonly_guilds();
        others.append(&mut watched);
        resolve_guild(arg, self.default_guild, &others)
    }
}

/// A number kept between two others.
pub open spec fn clamped(n: int, low: int, high: int) -> int {
    if n < low {
        low
    } else if n > high {
        high
    } else {
        n
    }
}

/// How many to return: what was asked for, or the default, between one and `high`.
pub fn limit_of(asked: Option<u8>, default: u8, high: u8) -> (r: u8)
    requires
        1 <= high,
    ensures
        r == clamped(
            match asked {
                Some(n) => n as int,
                None => default as int,
            },
            1,
            high as int,
        ),
{
    let n: u8 = match asked {
        Some(n) => n,
        None => default,
    };
    if n < 1 {
        1
    } else if n > high {
        high
    } else {
        n
    }
}

/// The first of each author, in the order they come up.
pub open spec fn authors(messages: Seq<RenderedMessage>) -> Seq<Seq<char>>
    decreases messages.len(),
{
    if messages.len() == 0 {
        seq![]
    } else {
        let before = authors(messages.drop_last());
        if before.contains(messages.last().author_id@) {
            before
        } else {
            before.push(messages.last().author_id@)
        }
    }
}

/// The authors whose names have to be looked up, each once.
pub fn authors_to_look_up(messages: &Vec<RenderedMessage>) -> (r: Vec<String>)
    ensures
        texts(r@) == authors(messages@),
{
    let mut r: Vec<String> = Vec::new();
    let mut i: usize = 0;
    assert(messages@.take(0) =~= seq![]);
    assert(texts(r@) =~= seq![]);
    while i < messages.len()
        invariant
            i <= messages@.len(),
            texts(r@) == authors(messages@.take(i as int)),
        decreases messages@.len() - i,
    {
        if !contains_text(&r, messages[i].author_id.as_str()) {
            push_text(&mut r, messages[i].author_id.clone());
        }
        i = i + 1;
        proof {
            assert(messages@.take(i as int).drop_last() =~= messages@.take(i - 1));
            assert(messages@.take(i as int).last() == messages@[i - 1]);
        }
    }
    assert(messages@.take(i as int) =~= messages@);
    r
}

/// The account to ask Discord about, where an author's id is a number.
pub fn account_to_ask(author_id: &str) -> (r: Option<u64>)
    requires
        parsed_u64(author_id@) != Some(0u64),
    ensures
        r == parsed_u64(author_id@),
{
    parse_u64(author_id)
}

/// The name to show for a member that was found: the one the room uses, where it is not the
/// handle.
pub fn member_display(member: &Member) -> (r: Option<String>)
    ensures
        opt_text(r) == room_name(member.nick, member.user),
{
    name_in_room(&member.nick, &member.user)
}

/// A message with the name that was found for its author, where one was.
pub open spec fn renamed(m: RenderedMessage, names: Map<Seq<char>, Option<String>>) -> RenderedMessage {
    if names.contains_key(m.author_id@) && names[m.author_id@] is Some {
        RenderedMessage { author_display: names[m.author_id@], ..m }
    } else {
        m
    }
}

/// Gives messages the names that were found for their authors; whoever none was found for
/// keeps what the message gave them.
pub fn enrich_display_names(
    messages: Vec<RenderedMessage>,
    found: &Assoc<String, Option<String>>,
) -> (r: Vec<RenderedMessage>)
    requires
        found.wf(),
    ensures
        r@ == messages@.map_values(|m: RenderedMessage| renamed(m, found.map())),
{
    let ghost all = messages@;
    let ghost wanted = all.map_values(|m: RenderedMessage| renamed(m, found.map()));
    let mut rest = messages;
    let mut r: Vec<RenderedMessage> = Vec::new();
    let ghost mut n: int = 0;
    assert(all.skip(0) =~= all);
    while rest.len() > 0
        invariant
            found.wf(),
            wanted == all.map_values(|m: RenderedMessage| renamed(m, found.map())),
            0 <= n <= all.len(),
            rest@ == all.skip(n),
            r@ == wanted.take(n),
        decreases rest@.len(),
    {
        let mut message = rest.remove(0);
        assert(message == all[n]);
        if let Some(name) = found.get(&message.author_id) {
            if let Some(display) = name {
                message.author_display = Some(display.clone());
            }
        }
        r.push(message);
        proof {
            n = n + 1;
            assert(rest@ =~= all.skip(n));
            assert(r@ =~= wanted.take(n));
        }
    }
    assert(wanted.take(n) =~= wanted);
    r
}

} // verus!
