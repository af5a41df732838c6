//! How the crow shows what it read. A live message and an archived one are shown through the
//! same `RenderedMessage`, so a read block looks the same wherever it came from.

use vstd::prelude::*;

use crate::discord::wire::{
    nick_of, Attachment, Embed, GuildChannel, Member, Message, MessageReferenceKind, MessageSnapshot,
    MessageType, PartialGuild, Poll, PollAnswerCount, PollMedia, PollMediaEmoji, ReactionType,
    StickerItem, User,
};
use crate::json::{json_quoted, quote};
use crate::text::{
    chars_of, clone_opt, decimal, inlined, join, joined, lines, lines_of, number, one_line, opt_str,
    opt_text, push_text,
    same, texts,
};

verus! {

/// The longest line a quoted message or an embed's description is shown on.
pub const SNIPPET_CHARS: usize = 180;

/// A guild's card.
pub struct ServerInfo {
    pub id: String,
    pub name: String,
    pub member_count: Option<u64>,
    pub description: Option<String>,
}

impl ServerInfo {
    pub fn from(g: PartialGuild) -> (r: Self)
        ensures
            r.id@ == decimal(g.id as nat),
            r.name == g.name,
            r.member_count == g.approximate_member_count,
            r.description == g.description,
    {
        ServerInfo {
            id: number(g.id),
            name: g.name,
            member_count: g.approximate_member_count,
            description: g.description,
        }
    }
}

/// A channel's card.
pub struct ChannelInfo {
    pub id: String,
    pub name: String,
    pub kind: String,
    pub topic: Option<String>,
}

impl ChannelInfo {
    pub fn from(c: GuildChannel) -> (r: Self)
        ensures
            r.id@ == decimal(c.id as nat),
            r.name == c.name,
            r.kind@ == c.kind.shown(),
            r.topic == c.topic,
    {
        ChannelInfo { id: number(c.id), name: c.name, kind: c.kind.label(), topic: c.topic }
    }
}

/// The name a room uses for an account, where it is not the handle: the nickname, or else
/// the global name.
pub open spec fn room_name(nick: Option<String>, user: User) -> Option<Seq<char>> {
    let name = match nick {
        Some(nick) => Some(nick@),
        None => match user.global_name {
            Some(global) => Some(global@),
            None => None,
        },
    };
    match name {
        Some(name) => if name == user.name@ {
            None
        } else {
            Some(name)
        },
        None => None,
    }
}

pub(crate) fn name_in_room(nick: &Option<String>, user: &User) -> (r: Option<String>)
    ensures
        opt_text(r) == room_name(*nick, *user),
{
    let name = match nick {
        Some(nick) => Some(nick.clone()),
        None => clone_opt(&user.global_name),
    };
    match name {
        Some(name) => {
            if same(name.as_str(), user.name.as_str()) {
                None
            } else {
                Some(name)
            }
        },
        None => None,
    }
}

/// The name the room uses for a message's author, where it is not the handle.
pub fn display_name(message: &Message) -> (r: Option<String>)
    ensures
        opt_text(r) == room_name(nick_of(message.member), message.author),
{
    match &message.member {
        Some(member) => name_in_room(&member.nick, &message.author),
        None => name_in_room(&None, &message.author),
    }
}

/// A string in quotation marks, its own marks and control characters escaped.
pub fn quote_header(value: &str) -> (r: String)
    ensures
        r@ == json_quoted(value@),
{
    quote(value)
}

pub open spec fn channel_header_text(channel: GuildChannel) -> Seq<char> {
    "in: [id="@ + decimal(channel.id as nat) + ", name="@ + json_quoted(channel.name@) + ", kind="@
        + channel.kind.shown() + (match channel.parent_id {
        Some(parent) => ", parent_id="@ + decimal(parent as nat),
        None => seq![],
    }) + "]"@
}

/// The line above a read block that says which channel it came from.
pub fn channel_header(channel: &GuildChannel) -> (r: String)
    ensures
        r@ == channel_header_text(*channel),
{
    let mut s = "in: [id=".to_owned();
    s.append(number(channel.id).as_str());
    s.append(", name=");
    s.append(quote_header(channel.name.as_str()).as_str());
    s.append(", kind=");
    s.append(channel.kind.label().as_str());
    if let Some(parent) = channel.parent_id {
        s.append(", parent_id=");
        s.append(number(parent).as_str());
    }
    s.append("]");
    assert(s@ =~= channel_header_text(*channel));
    s
}

/// A message's card.
pub struct MessageInfo {
    pub id: String,
    pub author_id: String,
    pub author_name: String,
    pub content: String,
    pub timestamp: String,
}

impl MessageInfo {
    pub fn from(m: Message) -> (r: Self)
        ensures
            r.id@ == decimal(m.id as nat),
            r.author_id@ == decimal(m.author.id as nat),
            r.author_name == m.author.name,
            r.content == m.content,
            r.timestamp == m.timestamp,
    {
        MessageInfo {
            id: number(m.id),
            author_id: number(m.author.id),
            author_name: m.author.name,
            content: m.content,
            timestamp: m.timestamp,
        }
    }
}

/// A message ready to be shown, and the form in which the archive keeps it.
pub struct RenderedMessage {
    pub id: String,
    pub author_id: String,
    pub author_name: String,
    pub author_display: Option<String>,
    pub timestamp: String,
    pub edited_timestamp: Option<String>,
    pub kind: Option<String>,
    pub reply: Option<RenderedReply>,
    pub forwarded: Option<RenderedForward>,
    pub poll: Option<RenderedPoll>,
    pub reactions: Vec<RenderedReaction>,
    pub attachments: Vec<RenderedAttachment>,
    pub stickers: Vec<RenderedSticker>,
    pub embeds: Vec<RenderedEmbed>,
    pub content: String,
}

/// What a message answers. It is unavailable where the answered message was deleted.
pub struct RenderedReply {
    pub unavailable: bool,
    pub id: String,
    pub author_name: String,
    pub author_display: Option<String>,
    pub snippet: String,
}

/// What a message forwards.
pub struct RenderedForward {
    pub timestamp: String,
    pub content: String,
    pub attachments: Vec<RenderedAttachment>,
    pub stickers: Vec<RenderedSticker>,
    pub embeds: Vec<RenderedEmbed>,
}

/// A poll.
pub struct RenderedPoll {
    pub question: String,
    pub multiselect: bool,
    pub finalized: bool,
    pub expiry: Option<String>,
    pub answers: Vec<RenderedPollAnswer>,
}

/// One answer of a poll, and its votes where they are known.
pub struct RenderedPollAnswer {
    pub text: String,
    pub votes: Option<u64>,
}

/// An emoji and how many reacted with it.
pub struct RenderedReaction {
    pub label: String,
    pub count: u64,
}

/// A file.
pub struct RenderedAttachment {
    pub id: String,
    pub filename: String,
    pub size: u32,
    pub content_type: Option<String>,
    pub description: Option<String>,
    pub dimensions: Option<(u32, u32)>,
    pub url: String,
}

/// A sticker.
pub struct RenderedSticker {
    pub id: String,
    pub name: String,
    pub format: String,
    pub url: String,
}

/// A card.
pub struct RenderedEmbed {
    pub kind: Option<String>,
    pub title: Option<String>,
    pub description: Option<String>,
    pub url: Option<String>,
    pub image: Option<String>,
    pub thumbnail: Option<String>,
}

/// A text on one line, cut where it is long.
pub fn short_inline(value: &str) -> (r: String)
    ensures
        r@ == inlined(value@, SNIPPET_CHARS as nat),
{
    one_line(value, SNIPPET_CHARS)
}

pub open spec fn attachment_shown(a: Attachment, r: RenderedAttachment) -> bool {
    &&& r.id@ == decimal(a.id as nat)
    &&& r.filename == a.filename
    &&& r.size == a.size
    &&& r.content_type == a.content_type
    &&& r.description == a.description
    &&& r.dimensions == match (a.width, a.height) {
        (Some(w), Some(h)) => Some((w, h)),
        _ => None,
    }
    &&& r.url == a.url
}

impl RenderedAttachment {
    pub fn from(attachment: &Attachment) -> (r: Self)
        ensures
            attachment_shown(*attachment, r),
    {
        RenderedAttachment {
            id: number(attachment.id),
            filename: attachment.filename.clone(),
            size: attachment.size,
            content_type: clone_opt(&attachment.content_type),
            description: clone_opt(&attachment.description),
            dimensions: match (attachment.width, attachment.height) {
                (Some(w), Some(h)) => Some((w, h)),
                _ => None,
            },
            url: attachment.url.clone(),
        }
    }
}

pub open spec fn attachments_shown(a: Seq<Attachment>, r: Seq<RenderedAttachment>) -> bool {
    a.len() == r.len() && forall|i: int| 0 <= i < a.len() ==> attachment_shown(a[i], #[trigger] r[i])
}

fn rendered_attachments(v: &Vec<Attachment>) -> (r: Vec<RenderedAttachment>)
    ensures
        attachments_shown(v@, r@),
{
    let mut r: Vec<RenderedAttachment> = Vec::new();
    let mut i: usize = 0;
    while i < v.len()
        invariant
            i <= v@.len(),
            attachments_shown(v@.take(i as int), r@),
        decreases v@.len() - i,
    {
        r.push(RenderedAttachment::from(&v[i]));
        i = i + 1;
        assert forall|j: int| 0 <= j < i implies attachment_shown(
            v@.take(i as int)[j],
            #[trigger] r@[j],
        ) by {
            if j < i - 1 {
                assert(v@.take(i as int)[j] == v@.take(i - 1)[j]);
            }
        }
    }
    assert(v@.take(i as int) =~= v@);
    r
}

pub open spec fn sticker_shown(s: StickerItem, r: RenderedSticker) -> bool {
    &&& r.id@ == decimal(s.id as nat)
    &&& r.name == s.name
    &&& r.format@ == s.format_type.shown()
    &&& r.url@ == match s.image_url {
        Some(url) => url@,
        None => "no-url"@,
    }
}

/// A sticker, with `no-url` where it has no image.
pub fn rendered_sticker(sticker: &StickerItem) -> (r: RenderedSticker)
    ensures
        sticker_shown(*sticker, r),
{
    RenderedSticker {
        id: number(sticker.id),
        name: sticker.name.clone(),
        format: sticker.format_type.label(),
        url: match &sticker.image_url {
            Some(url) => url.clone(),
            None => "no-url".to_owned(),
        },
    }
}

pub open spec fn stickers_shown(s: Seq<StickerItem>, r: Seq<RenderedSticker>) -> bool {
    s.len() == r.len() && forall|i: int| 0 <= i < s.len() ==> sticker_shown(s[i], #[trigger] r[i])
}

fn rendered_stickers(v: &Vec<StickerItem>) -> (r: Vec<RenderedSticker>)
    ensures
        stickers_shown(v@, r@),
{
    let mut r: Vec<RenderedSticker> = Vec::new();
    let mut i: usize = 0;
    while i < v.len()
        invariant
            i <= v@.len(),
            r@.len() == i,
            forall|j: int| 0 <= j < i ==> sticker_shown(v@[j], #[trigger] r@[j]),
        decreases v@.len() - i,
    {
        r.push(rendered_sticker(&v[i]));
        i = i + 1;
    }
    r
}

pub open spec fn embed_shown(e: Embed, r: RenderedEmbed) -> bool {
    &&& r.kind == e.kind
    &&& r.title == e.title
    &&& opt_text(r.description) == match e.description {
        Some(text) => Some(inlined(text@, SNIPPET_CHARS as nat)),
        None => None,
    }
    &&& r.url == e.url
    &&& r.image == e.image
    &&& r.thumbnail == e.thumbnail
}

impl RenderedEmbed {
    pub fn from(embed: &Embed) -> (r: Self)
        ensures
            embed_shown(*embed, r),
    {
        RenderedEmbed {
            kind: clone_opt(&embed.kind),
            title: clone_opt(&embed.title),
            description: match &embed.description {
                Some(text) => Some(short_inline(text.as_str())),
                None => None,
            },
            url: clone_opt(&embed.url),
            image: clone_opt(&embed.image),
            thumbnail: clone_opt(&embed.thumbnail),
        }
    }
}

pub open spec fn embeds_shown(e: Seq<Embed>, r: Seq<RenderedEmbed>) -> bool {
    e.len() == r.len() && forall|i: int| 0 <= i < e.len() ==> embed_shown(e[i], #[trigger] r[i])
}

fn rendered_embeds(v: &Vec<Embed>) -> (r: Vec<RenderedEmbed>)
    ensures
        embeds_shown(v@, r@),
{
    let mut r: Vec<RenderedEmbed> = Vec::new();
    let mut i: usize = 0;
    while i < v.len()
        invariant
            i <= v@.len(),
            r@.len() == i,
            forall|j: int| 0 <= j < i ==> embed_shown(v@[j], #[trigger] r@[j]),
        decreases v@.len() - i,
    {
        r.push(RenderedEmbed::from(&v[i]));
        i = i + 1;
    }
    r
}

pub open spec fn poll_media_shown(media: PollMedia) -> Seq<char> {
    let text = match media.text {
        Some(text) => text@,
        None => seq![],
    };
    match media.emoji {
        Some(PollMediaEmoji::Name(name)) => if text.len() == 0 {
            name@
        } else {
            name@ + " "@ + text
        },
        _ => text,
    }
}

/// A poll's question or answer: the emoji, where it is a plain one, and the text.
pub fn poll_media_text(media: &PollMedia) -> (r: String)
    ensures
        r@ == poll_media_shown(*media),
{
    let text = match &media.text {
        Some(text) => text.clone(),
        None => String::new(),
    };
    match &media.emoji {
        Some(PollMediaEmoji::Name(name)) => {
            if text.as_str().is_empty() {
                name.clone()
            } else {
                let mut s = name.clone();
                s.append(" ");
                s.append(text.as_str());
                s
            }
        },
        _ => text,
    }
}

/// The votes that the first count for an answer gives.
pub open spec fn votes_for(counts: Seq<PollAnswerCount>, answer: u64) -> Option<u64>
    decreases counts.len(),
{
    if counts.len() == 0 {
        None
    } else if counts[0].id == answer {
        Some(counts[0].count)
    } else {
        votes_for(counts.drop_first(), answer)
    }
}

fn count_votes(counts: &Vec<PollAnswerCount>, answer: u64) -> (r: Option<u64>)
    ensures
        r == votes_for(counts@, answer),
{
    let mut i: usize = 0;
    assert(counts@.skip(0) =~= counts@);
    while i < counts.len()
        invariant
            i <= counts@.len(),
            votes_for(counts@.skip(i as int), answer) == votes_for(counts@, answer),
        decreases counts@.len() - i,
    {
        assert(counts@.skip(i as int).drop_first() =~= counts@.skip(i + 1));
        if counts[i].id == answer {
            return Some(counts[i].count);
        }
        i = i + 1;
    }
    None
}

pub open spec fn poll_shown(p: Poll, r: RenderedPoll) -> bool {
    &&& r.question@ == poll_media_shown(p.question)
    &&& r.multiselect == p.allow_multiselect
    &&& r.finalized == match p.results {
        Some(results) => results.is_finalized,
        None => false,
    }
    &&& r.expiry == p.expiry
    &&& r.answers@.len() == p.answers@.len()
    &&& forall|i: int|
        0 <= i < p.answers@.len() ==> (#[trigger] r.answers@[i]).text@ == poll_media_shown(
            p.answers@[i].poll_media,
        ) && r.answers@[i].votes == match p.results {
            Some(results) => votes_for(results.answer_counts@, p.answers@[i].answer_id),
            None => None,
        }
}

/// A poll with its votes, as far as they have been counted.
pub fn rendered_poll(poll: &Poll) -> (r: RenderedPoll)
    ensures
        poll_shown(*poll, r),
{
    let mut answers: Vec<RenderedPollAnswer> = Vec::new();
    let mut i: usize = 0;
    while i < poll.answers.len()
        invariant
            i <= poll.answers@.len(),
            answers@.len() == i,
            forall|j: int|
                0 <= j < i ==> (#[trigger] answers@[j]).text@ == poll_media_shown(
                    poll.answers@[j].poll_media,
                ) && answers@[j].votes == match poll.results {
                    Some(results) => votes_for(results.answer_counts@, poll.answers@[j].answer_id),
                    None => None,
                },
        decreases poll.answers@.len() - i,
    {
        let answer = &poll.answers[i];
        let votes = match &poll.results {
            Some(results) => count_votes(&results.answer_counts, answer.answer_id),
            None => None,
        };
        answers.push(RenderedPollAnswer { text: poll_media_text(&answer.poll_media), votes });
        i = i + 1;
    }
    RenderedPoll {
        question: poll_media_text(&poll.question),
        multiselect: poll.allow_multiselect,
        finalized: match &poll.results {
            Some(results) => results.is_finalized,
            None => false,
        },
        expiry: clone_opt(&poll.expiry),
        answers,
    }
}

pub open spec fn reaction_shown(reaction: ReactionType) -> Seq<char> {
    match reaction {
        ReactionType::Unicode(value) => value@,
        ReactionType::Custom { animated, id, name } => {
            (if animated {
                "<a:"@
            } else {
                "<:"@
            }) + (match name {
                Some(name) => name@,
                None => "emoji"@,
            }) + ":"@ + decimal(id as nat) + ">"@
        },
    }
}

/// A reaction's emoji, as a message would write it.
pub fn reaction_label(reaction_type: &ReactionType) -> (r: String)
    ensures
        r@ == reaction_shown(*reaction_type),
{
    match reaction_type {
        ReactionType::Unicode(value) => value.clone(),
        ReactionType::Custom { animated, id, name } => {
            let mut s = if *animated {
                "<a:".to_owned()
            } else {
                "<:".to_owned()
            };
            match name {
                Some(name) => s.append(name.as_str()),
                None => s.append("emoji"),
            }
            s.append(":");
            s.append(number(*id).as_str());
            s.append(">");
            s
        },
    }
}

pub open spec fn forward_shown(s: MessageSnapshot, r: RenderedForward) -> bool {
    &&& r.timestamp == s.timestamp
    &&& r.content == s.content
    &&& attachments_shown(s.attachments@, r.attachments@)
    &&& stickers_shown(s.sticker_items@, r.stickers@)
    &&& embeds_shown(s.embeds@, r.embeds@)
}

/// A message whose reference forwards another.
pub open spec fn is_forward(message: Message) -> bool {
    message.message_reference == Some(MessageReferenceKind::Forward)
}

pub open spec fn reply_shown(message: Message, r: Option<RenderedReply>) -> bool {
    match message.referenced_message {
        Some(parent) => {
            &&& r is Some
            &&& !r->0.unavailable
            &&& r->0.id@ == decimal(parent.id as nat)
            &&& r->0.author_name == parent.author.name
            &&& opt_text(r->0.author_display) == room_name(parent.nick, parent.author)
            &&& r->0.snippet@ == inlined(parent.content@, SNIPPET_CHARS as nat)
        },
        None => if message.message_reference is Some && !is_forward(message) {
            &&& r is Some
            &&& r->0.unavailable
            &&& r->0.id@ == Seq::<char>::empty()
            &&& r->0.author_name@ == Seq::<char>::empty()
            &&& r->0.author_display is None
            &&& r->0.snippet@ == Seq::<char>::empty()
        } else {
            r is None
        },
    }
}

pub open spec fn message_shown(m: Message, r: RenderedMessage) -> bool {
    &&& r.id@ == decimal(m.id as nat)
    &&& r.author_id@ == decimal(m.author.id as nat)
    &&& r.author_name == m.author.name
    &&& opt_text(r.author_display) == room_name(nick_of(m.member), m.author)
    &&& r.timestamp == m.timestamp
    &&& r.edited_timestamp == m.edited_timestamp
    &&& opt_text(r.kind) == match m.kind {
        MessageType::Other(name) => Some(name@),
        _ => None,
    }
    &&& reply_shown(m, r.reply)
    &&& r.forwarded is Some <==> m.message_snapshots@.len() > 0
    &&& r.forwarded is Some ==> forward_shown(m.message_snapshots@[0], r.forwarded->0)
    &&& r.poll is Some <==> m.poll is Some
    &&& r.poll is Some ==> poll_shown(m.poll->0, r.poll->0)
    &&& r.reactions@.len() == m.reactions@.len()
    &&& forall|i: int|
        0 <= i < m.reactions@.len() ==> (#[trigger] r.reactions@[i]).label@ == reaction_shown(
            m.reactions@[i].reaction_type,
        ) && r.reactions@[i].count == m.reactions@[i].count
    &&& attachments_shown(m.attachments@, r.attachments@)
    &&& stickers_shown(m.sticker_items@, r.stickers@)
    &&& embeds_shown(m.embeds@, r.embeds@)
    &&& r.content == m.content
}

fn rendered_reply(message: &Message) -> (r: Option<RenderedReply>)
    ensures
        reply_shown(*message, r),
{
    let forward = match message.message_reference {
        Some(MessageReferenceKind::Forward) => true,
        _ => false,
    };
    match &message.referenced_message {
        Some(parent) => Some(
            RenderedReply {
                unavailable: false,
                id: number(parent.id),
                author_name: parent.author.name.clone(),
                author_display: name_in_room(&parent.nick, &parent.author),
                snippet: short_inline(parent.content.as_str()),
            },
        ),
        None => {
            if message.message_reference.is_some() && !forward {
                Some(
                    RenderedReply {
                        unavailable: true,
                        id: String::new(),
                        author_name: String::new(),
                        author_display: None,
                        snippet: String::new(),
                    },
                )
            } else {
                None
            }
        },
    }
}

impl RenderedMessage {
    /// A message off the wire, ready to be shown. A forward carries a reference too, and is
    /// no reply for it.
    pub fn from(message: &Message) -> (r: Self)
        ensures
            message_shown(*message, r),
    {
        let forwarded = if message.message_snapshots.len() > 0 {
            let snapshot = &message.message_snapshots[0];
            Some(
                RenderedForward {
                    timestamp: snapshot.timestamp.clone(),
                    content: snapshot.content.clone(),
                    attachments: rendered_attachments(&snapshot.attachments),
                    stickers: rendered_stickers(&snapshot.sticker_items),
                    embeds: rendered_embeds(&snapshot.embeds),
                },
            )
        } else {
            None
        };
        let kind = match &message.kind {
            MessageType::Regular => None,
            MessageType::InlineReply => None,
            MessageType::Other(name) => Some(name.clone()),
        };
        let mut reactions: Vec<RenderedReaction> = Vec::new();
        let mut i: usize = 0;
        while i < message.reactions.len()
            invariant
                i <= message.reactions@.len(),
                reactions@.len() == i,
                forall|j: int|
                    0 <= j < i ==> (#[trigger] reactions@[j]).label@ == reaction_shown(
                        message.reactions@[j].reaction_type,
                    ) && reactions@[j].count == message.reactions@[j].count,
            decreases message.reactions@.len() - i,
        {
            let reaction = &message.reactions[i];
            reactions.push(
                RenderedReaction {
                    label: reaction_label(&reaction.reaction_type),
                    count: reaction.count,
                },
            );
            i = i + 1;
        }
        RenderedMessage {
            id: number(message.id),
            author_id: number(message.author.id),
            author_name: message.author.name.clone(),
            author_display: display_name(message),
            timestamp: message.timestamp.clone(),
            edited_timestamp: clone_opt(&message.edited_timestamp),
            kind,
            reply: rendered_reply(message),
            forwarded,
            poll: match &message.poll {
                Some(poll) => Some(rendered_poll(poll)),
                None => None,
            },
            reactions,
            attachments: rendered_attachments(&message.attachments),
            stickers: rendered_stickers(&message.sticker_items),
            embeds: rendered_embeds(&message.embeds),
            content: message.content.clone(),
        }
    }
}

/// Each line with a mark in front and a line feed behind.
pub open spec fn marked(lines: Seq<Seq<char>>, mark: Seq<char>) -> Seq<char>
    decreases lines.len(),
{
    if lines.len() == 0 {
        seq![]
    } else {
        marked(lines.drop_last(), mark) + mark + lines.last() + "\n"@
    }
}

/// A title and a list below it; nothing where the list is empty.
pub open spec fn section(title: Seq<char>, lines: Seq<Seq<char>>) -> Seq<char> {
    if lines.len() == 0 {
        seq![]
    } else {
        title + marked(lines, "- "@)
    }
}

fn append_marked(s: &mut String, lines: &Vec<String>, mark: &str)
    ensures
        final(s)@ == old(s)@ + marked(texts(lines@), mark@),
{
    let ghost all = texts(lines@);
    let mut i: usize = 0;
    assert(all.take(0) =~= seq![]);
    assert(s@ =~= old(s)@ + marked(all.take(0), mark@));
    while i < lines.len()
        invariant
            i <= lines@.len(),
            all == texts(lines@),
            s@ == old(s)@ + marked(all.take(i as int), mark@),
        decreases lines@.len() - i,
    {
        s.append(mark);
        s.append(lines[i].as_str());
        s.append("\n");
        i = i + 1;
        proof {
            let t = all.take(i as int);
            assert(t.drop_last() =~= all.take(i - 1));
            assert(t.last() == lines@[i - 1]@);
            assert(s@ =~= old(s)@ + marked(t, mark@));
        }
    }
    assert(all.take(i as int) =~= all);
}

fn append_section(s: &mut String, title: &str, lines: &Vec<String>)
    ensures
        final(s)@ == old(s)@ + section(title@, texts(lines@)),
{
    if lines.len() > 0 {
        s.append(title);
        append_marked(s, lines, "- ");
        assert(s@ =~= old(s)@ + section(title@, texts(lines@)));
    } else {
        assert(s@ =~= old(s)@ + section(title@, texts(lines@)));
    }
}

pub open spec fn author_text(display: Option<Seq<char>>, username: Seq<char>) -> Seq<char> {
    match display {
        Some(display) => json_quoted(display) + " (@"@ + username + ")"@,
        None => json_quoted(username),
    }
}

/// An author: the name the room uses first, the handle in brackets behind it.
pub fn author_label(display: Option<&str>, username: &str) -> (r: String)
    ensures
        r@ == author_text(opt_str(display), username@),
{
    match display {
        Some(display) => {
            let mut s = quote_header(display);
            s.append(" (@");
            s.append(username);
            s.append(")");
            s
        },
        None => quote_header(username),
    }
}

fn author_of(display: &Option<String>, username: &String) -> (r: String)
    ensures
        r@ == author_text(opt_text(*display), username@),
{
    match display {
        Some(display) => author_label(Some(display.as_str()), username.as_str()),
        None => author_label(None, username.as_str()),
    }
}

pub open spec fn reply_text(reply: RenderedReply) -> Seq<char> {
    if reply.unavailable {
        "reply-to: <unavailable>"@
    } else {
        "reply-to: [id="@ + reply.id@ + ", author="@ + author_text(
            opt_text(reply.author_display),
            reply.author_name@,
        ) + "] "@ + reply.snippet@
    }
}

/// The line that says what a message answers.
pub fn format_reply(reply: &RenderedReply) -> (r: String)
    ensures
        r@ == reply_text(*reply),
{
    if reply.unavailable {
        return "reply-to: <unavailable>".to_owned();
    }
    let mut s = "reply-to: [id=".to_owned();
    s.append(reply.id.as_str());
    s.append(", author=");
    s.append(author_of(&reply.author_display, &reply.author_name).as_str());
    s.append("] ");
    s.append(reply.snippet.as_str());
    s
}

/// `key=` and the text behind it, where there is a text.
pub open spec fn plain_field(key: Seq<char>, value: Option<String>) -> Seq<Seq<char>> {
    match value {
        Some(value) => seq![key + value@],
        None => seq![],
    }
}

/// `key=` and the quoted text behind it, where there is a text.
pub open spec fn quoted_field(key: Seq<char>, value: Option<String>) -> Seq<Seq<char>> {
    match value {
        Some(value) => seq![key + json_quoted(value@)],
        None => seq![],
    }
}

fn push_plain(parts: &mut Vec<String>, key: &str, value: &Option<String>)
    ensures
        texts(final(parts)@) == texts(old(parts)@) + plain_field(key@, *value),
{
    if let Some(value) = value {
        let mut s = key.to_owned();
        s.append(value.as_str());
        push_text(parts, s);
    }
    assert(texts(parts@) =~= texts(old(parts)@) + plain_field(key@, *value));
}

fn push_quoted(parts: &mut Vec<String>, key: &str, value: &Option<String>)
    ensures
        texts(final(parts)@) == texts(old(parts)@) + quoted_field(key@, *value),
{
    if let Some(value) = value {
        let mut s = key.to_owned();
        s.append(quote_header(value.as_str()).as_str());
        push_text(parts, s);
    }
    assert(texts(parts@) =~= texts(old(parts)@) + quoted_field(key@, *value));
}

pub open spec fn attachment_parts(a: RenderedAttachment) -> Seq<Seq<char>> {
    seq!["id="@ + a.id@, "filename="@ + json_quoted(a.filename@), "size="@ + decimal(a.size as nat) + "b"@]
        + quoted_field("type="@, a.content_type) + quoted_field("description="@, a.description) + (
    match a.dimensions {
        Some((width, height)) => seq![
            "dimensions="@ + decimal(width as nat) + "x"@ + decimal(height as nat),
        ],
        None => seq![],
    }) + seq!["url="@ + a.url@]
}

pub open spec fn attachment_text(a: RenderedAttachment) -> Seq<char> {
    joined(attachment_parts(a), " "@)
}

/// A file on one line.
pub fn format_attachment(attachment: &RenderedAttachment) -> (r: String)
    ensures
        r@ == attachment_text(*attachment),
{
    let mut parts: Vec<String> = Vec::new();
    assert(texts(parts@) =~= seq![]);
    let mut id = "id=".to_owned();
    id.append(attachment.id.as_str());
    push_text(&mut parts, id);
    let mut filename = "filename=".to_owned();
    filename.append(quote_header(attachment.filename.as_str()).as_str());
    push_text(&mut parts, filename);
    let mut size = "size=".to_owned();
    size.append(number(attachment.size as u64).as_str());
    size.append("b");
    push_text(&mut parts, size);
    push_quoted(&mut parts, "type=", &attachment.content_type);
    push_quoted(&mut parts, "description=", &attachment.description);
    if let Some((width, height)) = attachment.dimensions {
        let mut dimensions = "dimensions=".to_owned();
        dimensions.append(number(width as u64).as_str());
        dimensions.append("x");
        dimensions.append(number(height as u64).as_str());
        push_text(&mut parts, dimensions);
    }
    let mut url = "url=".to_owned();
    url.append(attachment.url.as_str());
    push_text(&mut parts, url);
    assert(texts(parts@) =~= attachment_parts(*attachment));
    join(&parts, " ")
}

pub open spec fn embed_parts(e: RenderedEmbed) -> Seq<Seq<char>> {
    quoted_field("type="@, e.kind) + quoted_field("title="@, e.title) + quoted_field(
        "description="@,
        e.description,
    ) + plain_field("url="@, e.url) + plain_field("image="@, e.image) + plain_field(
        "thumbnail="@,
        e.thumbnail,
    )
}

pub open spec fn embed_text(e: RenderedEmbed) -> Option<Seq<char>> {
    if embed_parts(e).len() == 0 {
        None
    } else {
        Some(joined(embed_parts(e), " "@))
    }
}

/// A card on one line, where it holds anything to show.
pub fn format_embed(embed: &RenderedEmbed) -> (r: Option<String>)
    ensures
        opt_text(r) == embed_text(*embed),
{
    let mut parts: Vec<String> = Vec::new();
    assert(texts(parts@) =~= seq![]);
    push_quoted(&mut parts, "type=", &embed.kind);
    push_quoted(&mut parts, "title=", &embed.title);
    push_quoted(&mut parts, "description=", &embed.description);
    push_plain(&mut parts, "url=", &embed.url);
    push_plain(&mut parts, "image=", &embed.image);
    push_plain(&mut parts, "thumbnail=", &embed.thumbnail);
    assert(texts(parts@) =~= embed_parts(*embed));
    assert(texts(parts@).len() == parts@.len());
    if parts.len() == 0 {
        None
    } else {
        Some(join(&parts, " "))
    }
}

pub open spec fn attachment_lines(v: Seq<RenderedAttachment>) -> Seq<Seq<char>> {
    v.map_values(|a: RenderedAttachment| attachment_text(a))
}

fn list_attachments(v: &Vec<RenderedAttachment>) -> (r: Vec<String>)
    ensures
        texts(r@) == attachment_lines(v@),
{
    let mut r: Vec<String> = Vec::new();
    let mut i: usize = 0;
    while i < v.len()
        invariant
            i <= v@.len(),
            texts(r@) == attachment_lines(v@.take(i as int)),
        decreases v@.len() - i,
    {
        push_text(&mut r, format_attachment(&v[i]));
        i = i + 1;
        assert(texts(r@) =~= attachment_lines(v@.take(i as int)));
    }
    assert(v@.take(i as int) =~= v@);
    r
}

pub open spec fn sticker_text(s: RenderedSticker) -> Seq<char> {
    "id="@ + s.id@ + " name="@ + json_quoted(s.name@) + " format="@ + s.format@ + " url="@ + s.url@
}

fn format_sticker(sticker: &RenderedSticker) -> (r: String)
    ensures
        r@ == sticker_text(*sticker),
{
    let mut s = "id=".to_owned();
    s.append(sticker.id.as_str());
    s.append(" name=");
    s.append(quote_header(sticker.name.as_str()).as_str());
    s.append(" format=");
    s.append(sticker.format.as_str());
    s.append(" url=");
    s.append(sticker.url.as_str());
    s
}

pub open spec fn sticker_lines(v: Seq<RenderedSticker>) -> Seq<Seq<char>> {
    v.map_values(|s: RenderedSticker| sticker_text(s))
}

fn list_stickers(v: &Vec<RenderedSticker>) -> (r: Vec<String>)
    ensures
        texts(r@) == sticker_lines(v@),
{
    let mut r: Vec<String> = Vec::new();
    let mut i: usize = 0;
    while i < v.len()
        invariant
            i <= v@.len(),
            texts(r@) == sticker_lines(v@.take(i as int)),
        decreases v@.len() - i,
    {
        push_text(&mut r, format_sticker(&v[i]));
        i = i + 1;
        assert(texts(r@) =~= sticker_lines(v@.take(i as int)));
    }
    assert(v@.take(i as int) =~= v@);
    r
}

/// The lines of those cards that hold anything to show.
pub open spec fn embed_lines(v: Seq<RenderedEmbed>) -> Seq<Seq<char>>
    decreases v.len(),
{
    if v.len() == 0 {
        seq![]
    } else {
        match embed_text(v.last()) {
            Some(line) => embed_lines(v.drop_last()).push(line),
            None => embed_lines(v.drop_last()),
        }
    }
}

fn list_embeds(v: &Vec<RenderedEmbed>) -> (r: Vec<String>)
    ensures
        texts(r@) == embed_lines(v@),
{
    let mut r: Vec<String> = Vec::new();
    let mut i: usize = 0;
    assert(v@.take(0) =~= seq![]);
    assert(texts(r@) =~= seq![]);
    while i < v.len()
        invariant
            i <= v@.len(),
            texts(r@) == embed_lines(v@.take(i as int)),
        decreases v@.len() - i,
    {
        if let Some(line) = format_embed(&v[i]) {
            push_text(&mut r, line);
        }
        i = i + 1;
        proof {
            assert(v@.take(i as int).drop_last() =~= v@.take(i - 1));
            assert(v@.take(i as int).last() == v@[i - 1]);
        }
    }
    assert(v@.take(i as int) =~= v@);
    r
}

pub open spec fn forward_text(f: RenderedForward) -> Seq<char> {
    "forwarded: [timestamp="@ + f.timestamp@ + "]\n"@ + section(
        "forwarded attachments:\n"@,
        attachment_lines(f.attachments@),
    ) + section("forwarded stickers:\n"@, sticker_lines(f.stickers@)) + section(
        "forwarded embeds:\n"@,
        embed_lines(f.embeds@),
    ) + marked(lines_of(f.content@), "> "@)
}

/// What a message forwards, its text quoted line by line.
pub fn format_forward(forward: &RenderedForward) -> (r: String)
    ensures
        r@ == forward_text(*forward),
{
    let mut s = "forwarded: [timestamp=".to_owned();
    s.append(forward.timestamp.as_str());
    s.append("]\n");
    append_section(&mut s, "forwarded attachments:\n", &list_attachments(&forward.attachments));
    append_section(&mut s, "forwarded stickers:\n", &list_stickers(&forward.stickers));
    append_section(&mut s, "forwarded embeds:\n", &list_embeds(&forward.embeds));
    append_marked(&mut s, &lines(forward.content.as_str()), "> ");
    s
}

pub open spec fn poll_answer_text(a: RenderedPollAnswer) -> Seq<char> {
    a.text@ + match a.votes {
        Some(count) => " x"@ + decimal(count as nat),
        None => seq![],
    }
}

pub open spec fn poll_answer_lines(v: Seq<RenderedPollAnswer>) -> Seq<Seq<char>> {
    v.map_values(|a: RenderedPollAnswer| poll_answer_text(a))
}

/// Whether a poll takes more than one answer.
pub open spec fn poll_choice_text(p: RenderedPoll) -> Seq<char> {
    if p.multiselect {
        " (multiselect)"@
    } else {
        seq![]
    }
}

/// Whether a poll is over, or else when it will be.
pub open spec fn poll_end_text(p: RenderedPoll) -> Seq<char> {
    if p.finalized {
        " (final)"@
    } else {
        match p.expiry {
            Some(expiry) => " (expires "@ + expiry@ + ")"@,
            None => seq![],
        }
    }
}

pub open spec fn poll_text(p: RenderedPoll) -> Seq<char> {
    "poll: "@ + json_quoted(p.question@) + poll_choice_text(p) + poll_end_text(p) + "\n"@ + marked(poll_answer_lines(p.answers@), "- "@)
}

/// A poll: its question, whether it is over, and the answers with their votes.
pub fn format_poll(poll: &RenderedPoll) -> (r: String)
    ensures
        r@ == poll_text(*poll),
{
    let mut s = "poll: ".to_owned();
    s.append(quote_header(poll.question.as_str()).as_str());
    let ghost head = s@;
    if poll.multiselect {
        s.append(" (multiselect)");
    }
    assert(s@ =~= head + poll_choice_text(*poll));
    if poll.finalized {
        s.append(" (final)");
    } else if let Some(expiry) = &poll.expiry {
        s.append(" (expires ");
        s.append(expiry.as_str());
        s.append(")");
    }
    assert(s@ =~= head + poll_choice_text(*poll) + poll_end_text(*poll));
    s.append("\n");
    let mut answers: Vec<String> = Vec::new();
    let mut i: usize = 0;
    while i < poll.answers.len()
        invariant
            i <= poll.answers@.len(),
            texts(answers@) == poll_answer_lines(poll.answers@.take(i as int)),
        decreases poll.answers@.len() - i,
    {
        let answer = &poll.answers[i];
        let mut line = answer.text.clone();
        if let Some(count) = answer.votes {
            line.append(" x");
            line.append(number(count).as_str());
        }
        assert(line@ =~= poll_answer_text(*answer));
        push_text(&mut answers, line);
        i = i + 1;
        assert(texts(answers@) =~= poll_answer_lines(poll.answers@.take(i as int)));
    }
    assert(poll.answers@.take(i as int) =~= poll.answers@);
    append_marked(&mut s, &answers, "- ");
    s
}

pub open spec fn reaction_items(v: Seq<RenderedReaction>) -> Seq<Seq<char>> {
    v.map_values(|r: RenderedReaction| r.label@ + " x"@ + decimal(r.count as nat))
}

fn list_reactions(v: &Vec<RenderedReaction>) -> (r: Vec<String>)
    ensures
        texts(r@) == reaction_items(v@),
{
    let mut r: Vec<String> = Vec::new();
    let mut i: usize = 0;
    while i < v.len()
        invariant
            i <= v@.len(),
            texts(r@) == reaction_items(v@.take(i as int)),
        decreases v@.len() - i,
    {
        let mut item = v[i].label.clone();
        item.append(" x");
        item.append(number(v[i].count).as_str());
        push_text(&mut r, item);
        i = i + 1;
        assert(texts(r@) =~= reaction_items(v@.take(i as int)));
    }
    assert(v@.take(i as int) =~= v@);
    r
}

/// The line above a message's own parts.
pub open spec fn header_text(m: RenderedMessage) -> Seq<char> {
    "[id="@ + m.id@ + ", author_id="@ + m.author_id@ + ", author="@ + author_text(
        opt_text(m.author_display),
        m.author_name@,
    ) + ", timestamp="@ + m.timestamp@ + "]\n"@
}

/// A line with a label, where there is anything to say.
pub open spec fn labelled_line(label: Seq<char>, value: Option<Seq<char>>) -> Seq<char> {
    match value {
        Some(value) => label + value + "\n"@,
        None => seq![],
    }
}

pub open spec fn reply_line(reply: Option<RenderedReply>) -> Option<Seq<char>> {
    match reply {
        Some(reply) => Some(reply_text(reply)),
        None => None,
    }
}

pub open spec fn reactions_line(v: Seq<RenderedReaction>) -> Option<Seq<char>> {
    if v.len() == 0 {
        None
    } else {
        Some(joined(reaction_items(v), ", "@))
    }
}

/// A message's own text, closed by a line feed.
pub open spec fn content_text(content: Seq<char>) -> Seq<char> {
    if content.len() == 0 || content.last() == '\n' {
        content
    } else {
        content + "\n"@
    }
}

pub open spec fn forwarded_text(forward: Option<RenderedForward>) -> Seq<char> {
    match forward {
        Some(forward) => forward_text(forward),
        None => seq![],
    }
}

pub open spec fn polled_text(poll: Option<RenderedPoll>) -> Seq<char> {
    match poll {
        Some(poll) => poll_text(poll),
        None => seq![],
    }
}

/// One message as a read block shows it.
pub open spec fn message_text(m: RenderedMessage) -> Seq<char> {
    header_text(m) + labelled_line("type: "@, opt_text(m.kind)) + labelled_line(
        "edited: "@,
        opt_text(m.edited_timestamp),
    ) + labelled_line(""@, reply_line(m.reply)) + labelled_line(
        "reactions: "@,
        reactions_line(m.reactions@),
    ) + section("attachments:\n"@, attachment_lines(m.attachments@)) + section(
        "stickers:\n"@,
        sticker_lines(m.stickers@),
    ) + section("embeds:\n"@, embed_lines(m.embeds@)) + forwarded_text(m.forwarded) + polled_text(m.poll) + content_text(m.content@)
}

/// The messages of a read block, an empty line between each two.
pub open spec fn block_text(messages: Seq<RenderedMessage>) -> Seq<char> {
    joined(messages.map_values(|m: RenderedMessage| message_text(m)), "\n"@)
}

fn append_labelled(s: &mut String, label: &str, value: Option<&str>)
    ensures
        final(s)@ == old(s)@ + labelled_line(label@, opt_str(value)),
{
    if let Some(value) = value {
        s.append(label);
        s.append(value);
        s.append("\n");
    }
    assert(s@ =~= old(s)@ + labelled_line(label@, opt_str(value)));
}

fn append_header(s: &mut String, m: &RenderedMessage)
    ensures
        final(s)@ == old(s)@ + header_text(*m),
{
    s.append("[id=");
    s.append(m.id.as_str());
    s.append(", author_id=");
    s.append(m.author_id.as_str());
    s.append(", author=");
    s.append(author_of(&m.author_display, &m.author_name).as_str());
    s.append(", timestamp=");
    s.append(m.timestamp.as_str());
    s.append("]\n");
    assert(s@ =~= old(s)@ + header_text(*m));
}

fn append_content(s: &mut String, content: &String)
    ensures
        final(s)@ == old(s)@ + content_text(content@),
{
    s.append(content.as_str());
    let v = chars_of(content.as_str());
    if v.len() > 0 && v[v.len() - 1] != '\n' {
        s.append("\n");
    }
    assert(s@ =~= old(s)@ + content_text(content@));
}

fn as_opt_str(v: &Option<String>) -> (r: Option<&str>)
    ensures
        opt_str(r) == opt_text(*v),
{
    match v {
        Some(s) => Some(s.as_str()),
        None => None,
    }
}

/// One message as a read block shows it.
pub fn render_message(m: &RenderedMessage) -> (r: String)
    ensures
        r@ == message_text(*m),
{
    let mut s = String::new();
    append_header(&mut s, m);
    assert(s@ =~= header_text(*m));
    append_labelled(&mut s, "type: ", as_opt_str(&m.kind));
    append_labelled(&mut s, "edited: ", as_opt_str(&m.edited_timestamp));
    let reply = match &m.reply {
        Some(reply) => Some(format_reply(reply)),
        None => None,
    };
    append_labelled(&mut s, "", as_opt_str(&reply));
    let reactions = if m.reactions.len() == 0 {
        None
    } else {
        Some(join(&list_reactions(&m.reactions), ", "))
    };
    append_labelled(&mut s, "reactions: ", as_opt_str(&reactions));
    append_section(&mut s, "attachments:\n", &list_attachments(&m.attachments));
    append_section(&mut s, "stickers:\n", &list_stickers(&m.stickers));
    append_section(&mut s, "embeds:\n", &list_embeds(&m.embeds));
    let ghost upto = s@;
    if let Some(forward) = &m.forwarded {
        s.append(format_forward(forward).as_str());
    }
    assert(s@ =~= upto + forwarded_text(m.forwarded));
    if let Some(poll) = &m.poll {
        s.append(format_poll(poll).as_str());
    }
    assert(s@ =~= upto + forwarded_text(m.forwarded) + polled_text(m.poll));
    append_content(&mut s, &m.content);
    s
}

/// A message's text, as a name of its own: a row of messages is put together without looking
/// into any.
#[verifier::opaque]
spec fn shown(m: RenderedMessage) -> Seq<char> {
    message_text(m)
}

spec fn all_shown(messages: Seq<RenderedMessage>) -> Seq<Seq<char>> {
    messages.map_values(|m: RenderedMessage| shown(m))
}

fn show_message(m: &RenderedMessage) -> (r: String)
    ensures
        r@ == shown(*m),
{
    proof {
        reveal(shown);
    }
    render_message(m)
}

proof fn lemma_shown_as_text(messages: Seq<RenderedMessage>)
    ensures
        joined(all_shown(messages), "\n"@) == block_text(messages),
{
    reveal(shown);
    assert(all_shown(messages) =~= messages.map_values(|m: RenderedMessage| message_text(m)));
}

proof fn lemma_one_more_shown(messages: Seq<RenderedMessage>, i: int)
    requires
        0 <= i < messages.len(),
    ensures
        all_shown(messages).take(i).push(shown(messages[i])) == all_shown(messages).take(i + 1),
{
    assert(all_shown(messages)[i] == shown(messages[i]));
    assert(all_shown(messages).take(i).push(shown(messages[i])) =~= all_shown(messages).take(i + 1));
}

/// Shows messages, in the order given, with an empty line between each two.
pub fn render_messages(messages: &[RenderedMessage]) -> (r: String)
    ensures
        r@ == block_text(messages@),
{
    let mut parts: Vec<String> = Vec::new();
    let mut i: usize = 0;
    let ghost all = all_shown(messages@);
    assert(texts(parts@) =~= all.take(0));
    while i < messages.len()
        invariant
            i <= messages@.len(),
            all == all_shown(messages@),
            texts(parts@) == all.take(i as int),
        decreases messages@.len() - i,
    {
        proof {
            lemma_one_more_shown(messages@, i as int);
        }
        push_text(&mut parts, show_message(&messages[i]));
        i = i + 1;
    }
    assert(all.take(i as int) =~= all);
    proof {
        lemma_shown_as_text(messages@);
    }
    join(&parts, "\n")
}

pub open spec fn messages_shown(m: Seq<Message>, r: Seq<RenderedMessage>) -> bool {
    m.len() == r.len() && forall|i: int| 0 <= i < m.len() ==> message_shown(m[i], #[trigger] r[i])
}

/// Messages off the wire, ready to be shown.
pub fn rendered_all(messages: &Vec<Message>) -> (r: Vec<RenderedMessage>)
    ensures
        messages_shown(messages@, r@),
{
    let mut r: Vec<RenderedMessage> = Vec::new();
    let mut i: usize = 0;
    while i < messages.len()
        invariant
            i <= messages@.len(),
            r@.len() == i,
            forall|j: int| 0 <= j < i ==> message_shown(messages@[j], #[trigger] r@[j]),
        decreases messages@.len() - i,
    {
        r.push(RenderedMessage::from(&messages[i]));
        i = i + 1;
    }
    r
}

/// Shows messages off the wire.
pub fn messages_block(messages: &Vec<Message>) -> (r: String)
    ensures
        exists|blocks: Seq<RenderedMessage>| #[trigger]
            messages_shown(messages@, blocks) && r@ == block_text(blocks),
{
    let blocks = rendered_all(messages);
    let r = render_messages(blocks.as_slice());
    assert(messages_shown(messages@, blocks@));
    r
}

/// An account's card.
pub struct UserLookupInfo {
    pub id: String,
    pub username: String,
    pub nickname: Option<String>,
    pub display_name: String,
    pub mention: String,
}

/// The name a guild shows for a member.
pub open spec fn member_name(m: Member) -> Seq<char> {
    match m.nick {
        Some(nick) => nick@,
        None => match m.user.global_name {
            Some(global) => global@,
            None => m.user.name@,
        },
    }
}

impl UserLookupInfo {
    pub fn from(m: Member) -> (r: Self)
        ensures
            r.id@ == decimal(m.user.id as nat),
            r.mention@ == "<@"@ + decimal(m.user.id as nat) + ">"@,
            r.username == m.user.name,
            r.nickname == m.nick,
            r.display_name@ == member_name(m),
    {
        let display_name = match &m.nick {
            Some(nick) => nick.clone(),
            None => match &m.user.global_name {
                Some(global) => global.clone(),
                None => m.user.name.clone(),
            },
        };
        let mut mention = "<@".to_owned();
        mention.append(number(m.user.id).as_str());
        mention.append(">");
        UserLookupInfo {
            id: number(m.user.id),
            mention,
            username: m.user.name,
            nickname: m.nick,
            display_name,
        }
    }
}

proof fn lemma_attachments_one_way(
    a: Seq<Attachment>,
    r: Seq<RenderedAttachment>,
    s: Seq<RenderedAttachment>,
)
    requires
        attachments_shown(a, r),
        attachments_shown(a, s),
    ensures
        attachment_lines(r) == attachment_lines(s),
{
    assert forall|i: int| 0 <= i < a.len() implies #[trigger] attachment_lines(r)[i]
        == attachment_lines(s)[i] by {
        assert(attachment_shown(a[i], r[i]) && attachment_shown(a[i], s[i]));
        assert(attachment_parts(r[i]) == attachment_parts(s[i]));
    }
    assert(attachment_lines(r) =~= attachment_lines(s));
}

proof fn lemma_stickers_one_way(a: Seq<StickerItem>, r: Seq<RenderedSticker>, s: Seq<RenderedSticker>)
    requires
        stickers_shown(a, r),
        stickers_shown(a, s),
    ensures
        sticker_lines(r) == sticker_lines(s),
{
    assert forall|i: int| 0 <= i < a.len() implies #[trigger] sticker_lines(r)[i] == sticker_lines(
        s,
    )[i] by {
        assert(sticker_shown(a[i], r[i]) && sticker_shown(a[i], s[i]));
    }
    assert(sticker_lines(r) =~= sticker_lines(s));
}

proof fn lemma_embeds_one_way(a: Seq<Embed>, r: Seq<RenderedEmbed>, s: Seq<RenderedEmbed>)
    requires
        embeds_shown(a, r),
        embeds_shown(a, s),
    ensures
        embed_lines(r) == embed_lines(s),
    decreases a.len(),
{
    if a.len() > 0 {
        let n = a.len() - 1;
        assert(embed_shown(a[n], r[n]) && embed_shown(a[n], s[n]));
        assert(quoted_field("description="@, r[n].description) == quoted_field(
            "description="@,
            s[n].description,
        ));
        assert(embed_parts(r[n]) == embed_parts(s[n]));
        assert(embeds_shown(a.drop_last(), r.drop_last())) by {
            assert forall|i: int| 0 <= i < n implies embed_shown(
                a.drop_last()[i],
                #[trigger] r.drop_last()[i],
            ) by {
                assert(embed_shown(a[i], r[i]));
            }
        }
        assert(embeds_shown(a.drop_last(), s.drop_last())) by {
            assert forall|i: int| 0 <= i < n implies embed_shown(
                a.drop_last()[i],
                #[trigger] s.drop_last()[i],
            ) by {
                assert(embed_shown(a[i], s[i]));
            }
        }
        lemma_embeds_one_way(a.drop_last(), r.drop_last(), s.drop_last());
    }
}

proof fn lemma_polls_one_way(p: Poll, r: RenderedPoll, s: RenderedPoll)
    requires
        poll_shown(p, r),
        poll_shown(p, s),
    ensures
        poll_text(r) == poll_text(s),
{
    assert forall|i: int| 0 <= i < p.answers@.len() implies #[trigger] poll_answer_lines(r.answers@)[i]
        == poll_answer_lines(s.answers@)[i] by {
        assert(r.answers@[i].text@ == s.answers@[i].text@);
        assert(r.answers@[i].votes == s.answers@[i].votes);
    }
    assert(poll_answer_lines(r.answers@) =~= poll_answer_lines(s.answers@));
}

proof fn lemma_forwards_one_way(m: MessageSnapshot, r: RenderedForward, s: RenderedForward)
    requires
        forward_shown(m, r),
        forward_shown(m, s),
    ensures
        forward_text(r) == forward_text(s),
{
    lemma_attachments_one_way(m.attachments@, r.attachments@, s.attachments@);
    lemma_stickers_one_way(m.sticker_items@, r.stickers@, s.stickers@);
    lemma_embeds_one_way(m.embeds@, r.embeds@, s.embeds@);
}

/// A message is shown in one way: whatever is made ready of it, now or long ago, reads the
/// same.
pub proof fn lemma_a_message_is_shown_in_one_way(m: Message, r: RenderedMessage, s: RenderedMessage)
    requires
        message_shown(m, r),
        message_shown(m, s),
    ensures
        message_text(r) == message_text(s),
{
    lemma_attachments_one_way(m.attachments@, r.attachments@, s.attachments@);
    lemma_stickers_one_way(m.sticker_items@, r.stickers@, s.stickers@);
    lemma_embeds_one_way(m.embeds@, r.embeds@, s.embeds@);
    if m.message_snapshots@.len() > 0 {
        lemma_forwards_one_way(m.message_snapshots@[0], r.forwarded->0, s.forwarded->0);
    }
    if m.poll is Some {
        lemma_polls_one_way(m.poll->0, r.poll->0, s.poll->0);
    }
    assert forall|i: int| 0 <= i < m.reactions@.len() implies #[trigger] reaction_items(r.reactions@)[i]
        == reaction_items(s.reactions@)[i] by {
        assert(r.reactions@[i].label@ == s.reactions@[i].label@);
        assert(r.reactions@[i].count == s.reactions@[i].count);
    }
    assert(reaction_items(r.reactions@) =~= reaction_items(s.reactions@));
    assert(reply_line(r.reply) == reply_line(s.reply));
    assert(header_text(r) == header_text(s));
}

/// A read block of messages reads the same, whatever was made ready of them.
pub proof fn lemma_a_block_is_shown_in_one_way(
    m: Seq<Message>,
    r: Seq<RenderedMessage>,
    s: Seq<RenderedMessage>,
)
    requires
        messages_shown(m, r),
        messages_shown(m, s),
    ensures
        block_text(r) == block_text(s),
{
    let a = r.map_values(|x: RenderedMessage| message_text(x));
    let b = s.map_values(|x: RenderedMessage| message_text(x));
    assert forall|i: int| 0 <= i < m.len() implies #[trigger] a[i] == b[i] by {
        lemma_a_message_is_shown_in_one_way(m[i], r[i], s[i]);
    }
    assert(a =~= b);
}

/// A forward is never shown as a reply to a message that is gone.
pub proof fn lemma_forwards_are_no_replies(m: Message, r: RenderedMessage)
    requires
        message_shown(m, r),
        is_forward(m),
        m.referenced_message is None,
    ensures
        r.reply is None,
{
}

} // verus!
