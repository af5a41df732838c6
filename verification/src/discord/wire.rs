//! Discord's objects as plain values: the fields the crow reads, and nothing else.

use vstd::prelude::*;

use crate::text::{decimal, number};

verus! {

/// A kind of channel.
#[derive(Clone, Copy, Debug, PartialEq, Eq, Structural)]
pub enum ChannelType {
    Text,
    Private,
    Voice,
    GroupDm,
    Category,
    News,
    NewsThread,
    PublicThread,
    PrivateThread,
    Stage,
    Directory,
    Forum,
    Unknown(u8),
}

impl ChannelType {
    /// The kind's name as a reader sees it.
    pub open spec fn shown(self) -> Seq<char> {
        match self {
            ChannelType::Text => "Text"@,
            ChannelType::Private => "Private"@,
            ChannelType::Voice => "Voice"@,
            ChannelType::GroupDm => "GroupDm"@,
            ChannelType::Category => "Category"@,
            ChannelType::News => "News"@,
            ChannelType::NewsThread => "NewsThread"@,
            ChannelType::PublicThread => "PublicThread"@,
            ChannelType::PrivateThread => "PrivateThread"@,
            ChannelType::Stage => "Stage"@,
            ChannelType::Directory => "Directory"@,
            ChannelType::Forum => "Forum"@,
            ChannelType::Unknown(n) => "Unknown("@ + decimal(n as nat) + ")"@,
        }
    }

    /// The kind's name as a reader sees it.
    pub fn label(&self) -> (r: String)
        ensures
            r@ == self.shown(),
    {
        match self {
            ChannelType::Text => "Text".to_owned(),
            ChannelType::Private => "Private".to_owned(),
            ChannelType::Voice => "Voice".to_owned(),
            ChannelType::GroupDm => "GroupDm".to_owned(),
            ChannelType::Category => "Category".to_owned(),
            ChannelType::News => "News".to_owned(),
            ChannelType::NewsThread => "NewsThread".to_owned(),
            ChannelType::PublicThread => "PublicThread".to_owned(),
            ChannelType::PrivateThread => "PrivateThread".to_owned(),
            ChannelType::Stage => "Stage".to_owned(),
            ChannelType::Directory => "Directory".to_owned(),
            ChannelType::Forum => "Forum".to_owned(),
            ChannelType::Unknown(n) => {
                let mut s = "Unknown(".to_owned();
                s.append(number(*n as u64).as_str());
                s.append(")");
                s
            },
        }
    }
}

/// A channel or a thread of a guild.
pub struct GuildChannel {
    pub id: u64,
    pub guild_id: u64,
    pub name: String,
    pub kind: ChannelType,
    pub topic: Option<String>,
    pub parent_id: Option<u64>,
    pub position: u16,
}

/// A guild, as far as its card shows.
pub struct PartialGuild {
    pub id: u64,
    pub name: String,
    pub approximate_member_count: Option<u64>,
    pub description: Option<String>,
}

/// An account.
pub struct User {
    pub id: u64,
    pub name: String,
    pub global_name: Option<String>,
}

/// An account within a guild.
pub struct Member {
    pub user: User,
    pub nick: Option<String>,
}

/// What a message says of its author's place in the guild.
pub struct PartialMember {
    pub roles: Vec<u64>,
    pub nick: Option<String>,
}

/// The nickname that a message gives its author.
pub open spec fn nick_of(member: Option<PartialMember>) -> Option<String> {
    match member {
        Some(member) => member.nick,
        None => None,
    }
}

/// What kind of message this is; the everyday kinds need no name.
pub enum MessageType {
    Regular,
    InlineReply,
    Other(String),
}

/// What a message's reference points with.
#[derive(Clone, Copy, Debug, PartialEq, Eq, Structural)]
pub enum MessageReferenceKind {
    Default,
    Forward,
    Other,
}

/// A reaction's emoji.
pub enum ReactionType {
    Unicode(String),
    Custom { animated: bool, id: u64, name: Option<String> },
}

/// An emoji and how many reacted with it.
pub struct Reaction {
    pub reaction_type: ReactionType,
    pub count: u64,
}

/// A file that came with a message.
pub struct Attachment {
    pub id: u64,
    pub filename: String,
    pub size: u32,
    pub content_type: Option<String>,
    pub description: Option<String>,
    pub width: Option<u32>,
    pub height: Option<u32>,
    pub url: String,
    pub proxy_url: String,
}

/// How a sticker is drawn.
#[derive(Clone, Copy, Debug, PartialEq, Eq, Structural)]
pub enum StickerFormatType {
    Png,
    Apng,
    Lottie,
    Gif,
    Unknown(u8),
}

impl StickerFormatType {
    /// The format's name as a reader sees it.
    pub open spec fn shown(self) -> Seq<char> {
        match self {
            StickerFormatType::Png => "Png"@,
            StickerFormatType::Apng => "Apng"@,
            StickerFormatType::Lottie => "Lottie"@,
            StickerFormatType::Gif => "Gif"@,
            StickerFormatType::Unknown(n) => "Unknown("@ + decimal(n as nat) + ")"@,
        }
    }

    /// The format's name as a reader sees it.
    pub fn label(&self) -> (r: String)
        ensures
            r@ == self.shown(),
    {
        match self {
            StickerFormatType::Png => "Png".to_owned(),
            StickerFormatType::Apng => "Apng".to_owned(),
            StickerFormatType::Lottie => "Lottie".to_owned(),
            StickerFormatType::Gif => "Gif".to_owned(),
            StickerFormatType::Unknown(n) => {
                let mut s = "Unknown(".to_owned();
                s.append(number(*n as u64).as_str());
                s.append(")");
                s
            },
        }
    }
}

/// A sticker that came with a message.
pub struct StickerItem {
    pub id: u64,
    pub name: String,
    pub format_type: StickerFormatType,
    pub image_url: Option<String>,
}

/// A card below a message.
pub struct Embed {
    pub kind: Option<String>,
    pub title: Option<String>,
    pub description: Option<String>,
    pub url: Option<String>,
    pub image: Option<String>,
    pub thumbnail: Option<String>,
}

/// The emoji of a poll's question or answer.
pub enum PollMediaEmoji {
    Name(String),
    Id(u64),
}

/// A poll's question or answer.
pub struct PollMedia {
    pub text: Option<String>,
    pub emoji: Option<PollMediaEmoji>,
}

/// One answer of a poll.
pub struct PollAnswer {
    pub answer_id: u64,
    pub poll_media: PollMedia,
}

/// The votes one answer got.
pub struct PollAnswerCount {
    pub id: u64,
    pub count: u64,
}

/// A poll's votes.
pub struct PollResults {
    pub is_finalized: bool,
    pub answer_counts: Vec<PollAnswerCount>,
}

/// A poll.
pub struct Poll {
    pub question: PollMedia,
    pub allow_multiselect: bool,
    pub expiry: Option<String>,
    pub answers: Vec<PollAnswer>,
    pub results: Option<PollResults>,
}

/// A forwarded message, as the forward carries it.
pub struct MessageSnapshot {
    pub timestamp: String,
    pub content: String,
    pub attachments: Vec<Attachment>,
    pub sticker_items: Vec<StickerItem>,
    pub embeds: Vec<Embed>,
}

/// The message that another one answers.
pub struct ReferencedMessage {
    pub id: u64,
    pub author: User,
    pub nick: Option<String>,
    pub content: String,
}

/// A message.
pub struct Message {
    pub id: u64,
    pub channel_id: u64,
    pub guild_id: Option<u64>,
    pub author: User,
    pub member: Option<PartialMember>,
    pub mentions: Vec<User>,
    pub timestamp: String,
    pub edited_timestamp: Option<String>,
    pub kind: MessageType,
    pub message_reference: Option<MessageReferenceKind>,
    pub referenced_message: Option<ReferencedMessage>,
    pub message_snapshots: Vec<MessageSnapshot>,
    pub poll: Option<Poll>,
    pub reactions: Vec<Reaction>,
    pub attachments: Vec<Attachment>,
    pub sticker_items: Vec<StickerItem>,
    pub embeds: Vec<Embed>,
    pub content: String,
}

} // verus!
