//! Reacting with an emoji, in the caller's own voice.

use vstd::prelude::*;

use crate::discord::wire::ReactionType;
use crate::server::boot::snowflake;
use crate::server::tools::common::{
    caller_identity, identity_of, invalid_text, parse_channel, parse_message, Caller, NOBODY,
};
use crate::server::tools::hands::is_voice_of;
use crate::server::{voiceless_text, KurouServer, Voice};
use crate::text::{decimal, number, opt_text, trim, trimmed};

verus! {

pub struct ReactionRequest {
    pub channel_id: String,
    pub message_id: String,
    pub emoji: String,
}

/// An emoji, as a mathematical value.
pub enum Emoji {
    Unicode(Seq<char>),
    Custom { animated: bool, id: int, name: Option<Seq<char>> },
}

impl View for ReactionType {
    type V = Emoji;

    open spec fn view(&self) -> Emoji {
        match self {
            ReactionType::Unicode(value) => Emoji::Unicode(value@),
            ReactionType::Custom { animated, id, name } => Emoji::Custom {
                animated: *animated,
                id: *id as int,
                name: opt_text(*name),
            },
        }
    }
}

/// The emoji a text stands for, as `serenity` reads it.
pub uninterp spec fn emoji_of(text: Seq<char>) -> Option<Emoji>;

pub open spec fn opt_emoji(v: Option<ReactionType>) -> Option<Emoji> {
    match v {
        Some(v) => Some(v@),
        None => None,
    }
}

/// A custom emoji as a message writes it: `<:name:id>`, or `<a:name:id>` where it moves.
pub open spec fn custom_text(animated: bool, name: Seq<char>, id: u64) -> Seq<char> {
    (if animated {
        "<a:"@
    } else {
        "<:"@
    }) + name + ":"@ + decimal(id as nat) + ">"@
}

/// Emoji are read as they are written: nothing is none, what does not begin with `<` is taken
/// as it stands, and `<:name:id>` is the custom emoji of that name and id.
pub open spec fn read_as_written(text: Seq<char>, read: Option<Emoji>) -> bool {
    &&& text.len() == 0 ==> read is None
    &&& text.len() > 0 && text[0] != '<' ==> read == Some(Emoji::Unicode(text))
    &&& forall|animated: bool, name: Seq<char>, id: u64|
        id != 0 && !name.contains(':') && text == #[trigger] custom_text(animated, name, id)
            ==> read == Some(Emoji::Custom { animated, id: id as int, name: Some(name) })
}

/// Calls `ReactionType::try_from` of `serenity` on a text. An empty text is no emoji, one that
/// does not begin with `<` is taken as it stands, and one written as `<:name:id>` or
/// `<a:name:id>` is the custom emoji of that name, which holds no colon, and id, which is not
/// zero. What else begins with `<` is left to the name.
#[verifier::external_body]
fn read_emoji(text: &str) -> (r: Option<ReactionType>)
    ensures
        opt_emoji(r) == emoji_of(text@),
        read_as_written(text@, opt_emoji(r)),
{
    serenity::model::channel::ReactionType::try_from(text).ok().and_then(|emoji| match emoji {
        serenity::model::channel::ReactionType::Unicode(value) => Some(ReactionType::Unicode(value)),
        serenity::model::channel::ReactionType::Custom { animated, id, name } => {
            Some(ReactionType::Custom { animated, id: id.get(), name })
        },
        _ => None,
    })
}

pub open spec fn no_emoji_text(raw: Seq<char>) -> Seq<char> {
    "'"@ + raw
        + "' is not an emoji the crow can hold: unicode as-is, or custom as <:name:id>"@
}

/// Keeps the emoji that was read, or says that there was none.
pub fn hold_emoji(raw: &str, read: Option<ReactionType>) -> (r: Result<ReactionType, String>)
    ensures
        match read {
            Some(emoji) => r == Ok::<ReactionType, String>(emoji),
            None => r matches Err(e) && e@ == no_emoji_text(raw@),
        },
{
    match read {
        Some(emoji) => Ok(emoji),
        None => {
            let mut s = "'".to_owned();
            s.append(raw);
            s.append(
                "' is not an emoji the crow can hold: unicode as-is, or custom as <:name:id>",
            );
            Err(s)
        },
    }
}

/// Reads an emoji, white space aside.
pub fn parse_emoji(raw: &str) -> (r: Result<ReactionType, String>)
    ensures
        match emoji_of(trimmed(raw@)) {
            Some(emoji) => r matches Ok(e) && e@ == emoji,
            None => r matches Err(e) && e@ == no_emoji_text(raw@),
        },
        read_as_written(trimmed(raw@), emoji_of(trimmed(raw@))),
{
    hold_emoji(raw, read_emoji(trim(raw).as_str()))
}

pub open spec fn emoji_text(reaction: ReactionType) -> Seq<char> {
    match reaction {
        ReactionType::Unicode(value) => value@,
        ReactionType::Custom { animated, id, name } => custom_text(
            animated,
            match name {
                Some(name) => name@,
                None => seq![],
            },
            id,
        ),
    }
}

/// An emoji as a message would write it.
pub fn emoji_label(reaction: &ReactionType) -> (r: String)
    ensures
        r@ == emoji_text(*reaction),
{
    match reaction {
        ReactionType::Unicode(value) => value.clone(),
        ReactionType::Custom { animated, id, name } => {
            let mut s = if *animated {
                "<a:".to_owned()
            } else {
                "<:".to_owned()
            };
            if let Some(name) = name {
                s.append(name.as_str());
            }
            assert(s@ =~= (if *animated {
                "<a:"@
            } else {
                "<:"@
            }) + (match *name {
                Some(name) => name@,
                None => seq![],
            }));
            s.append(":");
            s.append(number(*id).as_str());
            s.append(">");
            s
        },
    }
}

/// Who reacts, to what, with what.
pub struct ReactionPlan {
    pub voice: Voice,
    pub channel: u64,
    pub message: u64,
    pub reaction: ReactionType,
}

/// What is wrong with a request to react, if anything is; the first thing.
pub open spec fn reaction_fault(server: KurouServer, caller: Caller, req: ReactionRequest) -> Option<
    Seq<char>,
> {
    if identity_of(caller) is None {
        Some(NOBODY@)
    } else if !server.has_voice(identity_of(caller)->0) {
        Some(voiceless_text(identity_of(caller)->0))
    } else if snowflake(req.channel_id@) is None {
        Some(invalid_text(req.channel_id@, "snowflake id"@))
    } else if snowflake(req.message_id@) is None {
        Some(invalid_text(req.message_id@, "snowflake id"@))
    } else if emoji_of(trimmed(req.emoji@)) is None {
        Some(no_emoji_text(req.emoji@))
    } else {
        None
    }
}

impl KurouServer {
    /// Plans to place or take back a reaction, in the caller's own voice.
    pub fn reaction(&self, caller: &Caller, req: &ReactionRequest) -> (r: Result<ReactionPlan, String>)
        requires
            self.speaks(*caller) ==> {
                &&& snowflake(req.channel_id@) != Some(0u64)
                &&& snowflake(req.channel_id@) is Some ==> snowflake(req.message_id@) != Some(0u64)
            },
        ensures
            match reaction_fault(*self, *caller, *req) {
                Some(text) => r matches Err(e) && e@ == text,
                None => r matches Ok(plan) && {
                    &&& is_voice_of(plan.voice, identity_of(*caller)->0)
                    &&& Some(plan.channel) == snowflake(req.channel_id@)
                    &&& Some(plan.message) == snowflake(req.message_id@)
                    &&& Some(plan.reaction@) == emoji_of(trimmed(req.emoji@))
                    &&& read_as_written(trimmed(req.emoji@), Some(plan.reaction@))
                },
            },
    {
        let label = match caller_identity(caller) {
            Ok(label) => label,
            Err(e) => {
                return Err(e);
            },
        };
        let voice = match self.sender_for(label.as_str()) {
            Ok(voice) => voice,
            Err(e) => {
                return Err(e);
            },
        };
        let channel = match parse_channel(req.channel_id.as_str()) {
            Ok(id) => id,
            Err(e) => {
                return Err(e);
            },
        };
        let message = match parse_message(req.message_id.as_str()) {
            Ok(id) => id,
            Err(e) => {
                return Err(e);
            },
        };
        match parse_emoji(req.emoji.as_str()) {
            Ok(reaction) => Ok(ReactionPlan { voice, channel, message, reaction }),
            Err(e) => Err(e),
        }
    }
}

} // verus!
