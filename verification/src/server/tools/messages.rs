//! Reading messages: the latest, a slice around an anchor, one by its id, the pinned ones.

use vstd::prelude::*;

use crate::discord::types::{block_text, messages_block, messages_shown, RenderedMessage};
use crate::discord::wire::Message;
use crate::gateway::holds_id;
use crate::server::boot::snowflake;
use crate::server::tools::common::{clamped, invalid_text, limit_of, parse_channel, parse_message};
use crate::server::tools::send::Recipient;
use crate::server::{KurouServer, Probe};
use crate::text::{decimal, number, opt_text};

verus! {

/// Which slice of a channel to read.
pub struct ReadMessagesRequest {
    pub channel_id: String,
    pub limit: Option<u8>,
    pub around: Option<String>,
    pub before: Option<String>,
    pub after: Option<String>,
}

/// Which message to fetch.
pub struct GetMessageRequest {
    pub channel_id: String,
    pub message_id: String,
}

/// Which channel's pinned messages to read.
pub struct GetPinnedRequest {
    pub channel_id: String,
}

/// Where a slice lies.
#[derive(Clone, Copy, Debug, PartialEq, Eq, Structural)]
pub enum Anchor {
    Around(u64),
    Before(u64),
    After(u64),
}

pub const ONE_ANCHOR: &'static str = "only one of around/before/after may be set";

pub open spec fn is_no_zero(raw: Option<String>) -> bool {
    raw matches Some(raw) ==> snowflake(raw@) != Some(0u64)
}

/// The anchor that is looked at is not the number zero, which is no id: the first that is
/// given.
pub open spec fn anchors_are_ids(
    around: Option<String>,
    before: Option<String>,
    after: Option<String>,
) -> bool {
    &&& is_no_zero(around)
    &&& around is None ==> is_no_zero(before)
    &&& around is None && before is None ==> is_no_zero(after)
}

/// A message's id, or why it is none.
pub open spec fn message_id(raw: Seq<char>) -> Result<u64, Seq<char>> {
    match snowflake(raw) {
        Some(id) => Ok(id),
        None => Err(invalid_text(raw, "snowflake id"@)),
    }
}

/// Where the slice lies: one anchor at most. They are read in order, and a second one is
/// refused before it is read.
pub open spec fn anchor_of(
    around: Option<Seq<char>>,
    before: Option<Seq<char>>,
    after: Option<Seq<char>>,
) -> Result<Option<Anchor>, Seq<char>> {
    if around is Some {
        match message_id(around->0) {
            Err(text) => Err(text),
            Ok(id) => if before is Some || after is Some {
                Err(ONE_ANCHOR@)
            } else {
                Ok(Some(Anchor::Around(id)))
            },
        }
    } else if before is Some {
        match message_id(before->0) {
            Err(text) => Err(text),
            Ok(id) => if after is Some {
                Err(ONE_ANCHOR@)
            } else {
                Ok(Some(Anchor::Before(id)))
            },
        }
    } else if after is Some {
        match message_id(after->0) {
            Err(text) => Err(text),
            Ok(id) => Ok(Some(Anchor::After(id))),
        }
    } else {
        Ok(None)
    }
}

/// Reads where the slice lies.
pub fn build_anchor(around: &Option<String>, before: &Option<String>, after: &Option<String>) -> (r: Result<
    Option<Anchor>,
    String,
>)
    requires
        anchors_are_ids(*around, *before, *after),
    ensures
        match anchor_of(opt_text(*around), opt_text(*before), opt_text(*after)) {
            Ok(anchor) => r == Ok::<Option<Anchor>, String>(anchor),
            Err(text) => r matches Err(e) && e@ == text,
        },
{
    if let Some(raw) = around {
        let id = match parse_message(raw.as_str()) {
            Ok(id) => id,
            Err(e) => {
                return Err(e);
            },
        };
        if before.is_some() || after.is_some() {
            return Err(ONE_ANCHOR.to_owned());
        }
        return Ok(Some(Anchor::Around(id)));
    }
    if let Some(raw) = before {
        let id = match parse_message(raw.as_str()) {
            Ok(id) => id,
            Err(e) => {
                return Err(e);
            },
        };
        if after.is_some() {
            return Err(ONE_ANCHOR.to_owned());
        }
        return Ok(Some(Anchor::Before(id)));
    }
    if let Some(raw) = after {
        return match parse_message(raw.as_str()) {
            Ok(id) => Ok(Some(Anchor::After(id))),
            Err(e) => Err(e),
        };
    }
    Ok(None)
}

pub open spec fn unread_text(channel: u64) -> Seq<char> {
    "refusing to read: channel "@ + decimal(channel as nat)
        + " is a DM outside WAKE_DM_FROM; it does not exist to the crow"@
}

impl KurouServer {
    /// A channel may be read: it is no private one, or it is that of somebody whose private
    /// calls are taken; any, where there is no home guild.
    pub open spec fn may_read(self, probe: Probe, recipient: Recipient) -> bool {
        ||| self.default_guild is None
        ||| probe != Probe::NoGuild
        ||| (recipient matches Recipient::Account(id) && self.wake_dm_from@.contains(id))
    }

    /// Guards what is read. What cannot be looked up is left to Discord: it lies in a guild
    /// that only the observer sees, or nowhere.
    pub fn guard_read_target(&self, channel: u64, probe: Probe, recipient: Recipient) -> (r: Result<
        (),
        String,
    >)
        ensures
            if self.may_read(probe, recipient) {
                r == Ok::<(), String>(())
            } else {
                r matches Err(e) && e@ == unread_text(channel)
            },
    {
        if self.default_guild.is_none() || probe != Probe::NoGuild {
            return Ok(());
        }
        let known = match recipient {
            Recipient::Account(id) => holds_id(&self.wake_dm_from, id),
            Recipient::Unknown => false,
        };
        if known {
            return Ok(());
        }
        let mut s = "refusing to read: channel ".to_owned();
        s.append(number(channel).as_str());
        s.append(" is a DM outside WAKE_DM_FROM; it does not exist to the crow");
        Err(s)
    }
}

/// The private wire is one: a private channel is read exactly where it may be answered, and
/// neither with anybody but those whose private calls are taken.
pub proof fn lemma_the_private_wire_is_one(server: KurouServer, recipient: Recipient)
    ensures
        server.may_read(Probe::NoGuild, recipient) == server.may_send(Probe::NoGuild, recipient),
        server.default_guild is Some && server.may_read(Probe::NoGuild, recipient) ==> (
        recipient matches Recipient::Account(id) && server.wake_dm_from@.contains(id)),
{
}

/// What to ask Discord for.
pub struct ReadPlan {
    pub channel: u64,
    pub anchor: Option<Anchor>,
    pub limit: u8,
}

/// What is wrong with a request to read, if anything is.
pub open spec fn read_fault(req: ReadMessagesRequest) -> Option<Seq<char>> {
    match message_id(req.channel_id@) {
        Err(text) => Some(text),
        Ok(_) => match anchor_of(opt_text(req.around), opt_text(req.before), opt_text(req.after)) {
            Err(text) => Some(text),
            Ok(_) => None,
        },
    }
}

/// Plans a read: the channel, where the slice lies, and between one and a hundred messages.
pub fn read_messages(req: &ReadMessagesRequest) -> (r: Result<ReadPlan, String>)
    requires
        snowflake(req.channel_id@) != Some(0u64),
        snowflake(req.channel_id@) is Some ==> anchors_are_ids(req.around, req.before, req.after),
    ensures
        match read_fault(*req) {
            Some(text) => r matches Err(e) && e@ == text,
            None => r matches Ok(plan) && {
                &&& Ok::<u64, Seq<char>>(plan.channel) == message_id(req.channel_id@)
                &&& Ok::<Option<Anchor>, Seq<char>>(plan.anchor) == anchor_of(
                    opt_text(req.around),
                    opt_text(req.before),
                    opt_text(req.after),
                )
                &&& plan.limit == clamped(
                    match req.limit {
                        Some(n) => n as int,
                        None => 50,
                    },
                    1,
                    100,
                )
            },
        },
{
    let channel = match parse_channel(req.channel_id.as_str()) {
        Ok(id) => id,
        Err(e) => {
            return Err(e);
        },
    };
    let anchor = match build_anchor(&req.around, &req.before, &req.after) {
        Ok(anchor) => anchor,
        Err(e) => {
            return Err(e);
        },
    };
    Ok(ReadPlan { channel, anchor, limit: limit_of(req.limit, 50, 100) })
}

/// Plans to fetch one message: the channel first, then the message.
pub fn get_message(req: &GetMessageRequest) -> (r: Result<(u64, u64), String>)
    requires
        snowflake(req.channel_id@) != Some(0u64),
        snowflake(req.channel_id@) is Some ==> snowflake(req.message_id@) != Some(0u64),
    ensures
        match (message_id(req.channel_id@), message_id(req.message_id@)) {
            (Err(text), _) => r matches Err(e) && e@ == text,
            (Ok(_), Err(text)) => r matches Err(e) && e@ == text,
            (Ok(channel), Ok(message)) => r == Ok::<(u64, u64), String>((channel, message)),
        },
{
    let channel = match parse_channel(req.channel_id.as_str()) {
        Ok(id) => id,
        Err(e) => {
            return Err(e);
        },
    };
    match parse_message(req.message_id.as_str()) {
        Ok(message) => Ok((channel, message)),
        Err(e) => Err(e),
    }
}

/// Shows what was read, or says that there was nothing.
pub fn read_reply(messages: &Vec<Message>, nothing: &str) -> (r: String)
    ensures
        messages@.len() == 0 ==> r@ == nothing@,
        messages@.len() > 0 ==> exists|blocks: Seq<RenderedMessage>| #[trigger]
            messages_shown(messages@, blocks) && r@ == block_text(blocks),
{
    if messages.len() == 0 {
        return nothing.to_owned();
    }
    messages_block(messages)
}

} // verus!
