//! Nothing that comes off the wire is lost on the way to the reader.

use vstd::prelude::*;

use crate::discord::types::{
    channel_header, messages_block, render_message, rendered_all, votes_for, ChannelInfo,
    MessageInfo, RenderedAttachment, RenderedEmbed,
    RenderedMessage, RenderedPoll, RenderedReaction, RenderedReply, RenderedSticker,
    ServerInfo, UserLookupInfo,
};
use crate::discord::wire::{
    Attachment, Embed, GuildChannel, Member, Message, MessageReferenceKind, MessageType, PartialGuild, Poll,
    PollAnswerCount, PollMedia, PollMediaEmoji, ReactionType, StickerItem,
};
use crate::json::json_quoted;
use crate::laws::inbox::is_room_name;
use crate::laws::order::{all_of, in_order, lemma_fewer, lemma_itself, lemma_more, lemma_then};
use crate::laws::rendering::{
    all_attachments, all_embeds, all_stickers, author_pieces, forward_pieces, lemma_every_message_is_shown,
    lemma_everything_is_shown, message_pieces, plain, poll_pieces, reaction_piece, reply_pieces,
};
use crate::numeral::{lemma_decimal_reads_back, parsed_u64};
use crate::text::{decimal, inlined, opt_text};

verus! {

/// A shown message holds everything that the message holds, in order.
pub proof fn lemma_a_shown_message_is_whole(m: RenderedMessage, r: String)
    requires
        call_ensures(render_message, (&m,), r),
    ensures
        in_order(r@, message_pieces(m)),
{
    lemma_everything_is_shown(m);
}

/// Every reaction stands in a shown message, in order: its emoji and how many reacted with it.
pub proof fn lemma_every_reaction_is_shown(m: RenderedMessage, r: String)
    requires
        call_ensures(render_message, (&m,), r),
    ensures
        in_order(
            r@,
            m.reactions@.map_values(|r: RenderedReaction| r.label@ + " x"@ + decimal(r.count as nat)),
        ),
{
    lemma_everything_is_shown(m);
    let mine = m.reactions@.map_values(|r: RenderedReaction| reaction_piece(r));
    let raw = m.reactions@.map_values(|r: RenderedReaction| r.label@ + " x"@ + decimal(r.count as nat));
    assert(mine =~= raw);
    let front = seq![m.id@, m.author_id@] + author_pieces(opt_text(m.author_display), m.author_name@)
        + seq![m.timestamp@] + plain(m.kind) + plain(m.edited_timestamp) + (match m.reply {
        Some(reply) => reply_pieces(reply),
        None => seq![],
    });
    let forward: Seq<Seq<char>> = match m.forwarded {
        Some(forward) => forward_pieces(forward),
        None => seq![],
    };
    let poll: Seq<Seq<char>> = match m.poll {
        Some(poll) => poll_pieces(poll),
        None => seq![],
    };
    let p1 = front + mine;
    let p2 = p1 + all_attachments(m.attachments@);
    let p3 = p2 + all_stickers(m.stickers@);
    let p4 = p3 + all_embeds(m.embeds@);
    let p5 = p4 + forward;
    let p6 = p5 + poll;
    assert(message_pieces(m) == p6 + seq![m.content@]);
    lemma_fewer(r@, p6, seq![m.content@]);
    lemma_fewer(r@, p5, poll);
    lemma_fewer(r@, p4, forward);
    lemma_fewer(r@, p3, all_embeds(m.embeds@));
    lemma_fewer(r@, p2, all_stickers(m.stickers@));
    lemma_fewer(r@, p1, all_attachments(m.attachments@));
    lemma_fewer(r@, front, mine);
}

/// Shown messages hold everything that each of them holds, one message behind the other.
pub proof fn lemma_a_shown_block_is_whole(messages: Seq<RenderedMessage>, text: Seq<char>)
    requires
        text == crate::discord::types::block_text(messages),
    ensures
        in_order(text, all_of(messages.map_values(|m: RenderedMessage| message_pieces(m)))),
{
    lemma_every_message_is_shown(messages);
}

/// A file as it is shown.
pub open spec fn same_file(a: Attachment, r: RenderedAttachment) -> bool {
    &&& parsed_u64(r.id@) == Some(a.id)
    &&& r.filename@ == a.filename@
    &&& r.size == a.size
    &&& opt_text(r.content_type) == opt_text(a.content_type)
    &&& opt_text(r.description) == opt_text(a.description)
    &&& r.dimensions is Some <==> a.width is Some && a.height is Some
    &&& r.dimensions matches Some((width, height)) ==> Some(width) == a.width && Some(height) == a.height
    &&& r.url@ == a.url@
}

/// A sticker as it is shown.
pub open spec fn same_sticker(s: StickerItem, r: RenderedSticker) -> bool {
    &&& parsed_u64(r.id@) == Some(s.id)
    &&& r.name@ == s.name@
    &&& s.image_url matches Some(url) ==> r.url@ == url@
}

/// A card as it is shown: its description on one line.
pub open spec fn same_card(e: Embed, r: RenderedEmbed) -> bool {
    &&& opt_text(r.kind) == opt_text(e.kind)
    &&& opt_text(r.title) == opt_text(e.title)
    &&& r.description is Some <==> e.description is Some
    &&& e.description matches Some(text) ==> r.description->0@ == inlined(text@, 180)
    &&& opt_text(r.url) == opt_text(e.url)
    &&& opt_text(r.image) == opt_text(e.image)
    &&& opt_text(r.thumbnail) == opt_text(e.thumbnail)
}

pub open spec fn same_files(a: Seq<Attachment>, r: Seq<RenderedAttachment>) -> bool {
    a.len() == r.len() && forall|i: int| 0 <= i < a.len() ==> same_file(a[i], #[trigger] r[i])
}

pub open spec fn same_stickers(s: Seq<StickerItem>, r: Seq<RenderedSticker>) -> bool {
    s.len() == r.len() && forall|i: int| 0 <= i < s.len() ==> same_sticker(s[i], #[trigger] r[i])
}

pub open spec fn same_cards(e: Seq<Embed>, r: Seq<RenderedEmbed>) -> bool {
    e.len() == r.len() && forall|i: int| 0 <= i < e.len() ==> same_card(e[i], #[trigger] r[i])
}

proof fn lemma_files(a: Seq<Attachment>, r: Seq<RenderedAttachment>)
    requires
        crate::discord::types::attachments_shown(a, r),
    ensures
        same_files(a, r),
{
    assert forall|i: int| 0 <= i < a.len() implies same_file(a[i], #[trigger] r[i]) by {
        lemma_decimal_reads_back(a[i].id);
    }
}

proof fn lemma_stickers(s: Seq<StickerItem>, r: Seq<RenderedSticker>)
    requires
        crate::discord::types::stickers_shown(s, r),
    ensures
        same_stickers(s, r),
{
    assert forall|i: int| 0 <= i < s.len() implies same_sticker(s[i], #[trigger] r[i]) by {
        lemma_decimal_reads_back(s[i].id);
    }
}

/// The votes an answer got, as the first count for it says.
pub open spec fn are_votes(counts: Seq<PollAnswerCount>, answer: u64, votes: Option<u64>) -> bool {
    match votes {
        Some(votes) => exists|k: int|
            0 <= k < counts.len() && (#[trigger] counts[k]).id == answer && counts[k].count == votes && (
            forall|i: int| 0 <= i < k ==> (#[trigger] counts[i]).id != answer),
        None => forall|i: int| 0 <= i < counts.len() ==> (#[trigger] counts[i]).id != answer,
    }
}

proof fn lemma_votes(counts: Seq<PollAnswerCount>, answer: u64)
    ensures
        are_votes(counts, answer, votes_for(counts, answer)),
    decreases counts.len(),
{
    if counts.len() > 0 {
        let t = counts.drop_first();
        lemma_votes(t, answer);
        assert(forall|i: int| 0 <= i < t.len() ==> #[trigger] t[i] == counts[i + 1]);
        if counts[0].id != answer {
            match votes_for(t, answer) {
                Some(votes) => {
                    let k = choose|k: int|
                        0 <= k < t.len() && (#[trigger] t[k]).id == answer && t[k].count == votes && (
                        forall|i: int| 0 <= i < k ==> (#[trigger] t[i]).id != answer);
                    assert(counts[k + 1] == t[k]);
                    assert forall|i: int| 0 <= i < k + 1 implies (#[trigger] counts[i]).id != answer by {
                        if i > 0 {
                            assert(t[i - 1] == counts[i]);
                        }
                    }
                },
                None => {
                    assert forall|i: int| 0 <= i < counts.len() implies (#[trigger] counts[i]).id != answer by {
                        if i > 0 {
                            assert(t[i - 1] == counts[i]);
                        }
                    }
                },
            }
        } else {
            assert(counts[0].count == votes_for(counts, answer)->0);
        }
    }
}

/// A question or an answer as it is shown: its text, with the emoji in front where it is a
/// plain one.
pub open spec fn shows_media(media: PollMedia, r: Seq<char>) -> bool {
    &&& media.text matches Some(text) ==> r.len() >= text@.len() && r.skip(r.len() - text@.len()) == text@
    &&& media.emoji matches Some(PollMediaEmoji::Name(name)) ==> r.len() >= name@.len() && r.take(
        name@.len() as int,
    ) == name@
}

proof fn lemma_media(media: PollMedia, r: Seq<char>)
    requires
        r == crate::discord::types::poll_media_shown(media),
    ensures
        shows_media(media, r),
{
    let text = match media.text {
        Some(text) => text@,
        None => Seq::<char>::empty(),
    };
    assert(r.skip(r.len() - text.len()) =~= text);
    if let Some(PollMediaEmoji::Name(name)) = media.emoji {
        assert(r.take(name@.len() as int) =~= name@);
    }
}

/// A poll as it is shown: the question and every answer, with the votes that were counted.
pub open spec fn same_poll(p: Poll, r: RenderedPoll) -> bool {
    &&& shows_media(p.question, r.question@)
    &&& r.multiselect == p.allow_multiselect
    &&& r.finalized <==> p.results is Some && p.results->0.is_finalized
    &&& opt_text(r.expiry) == opt_text(p.expiry)
    &&& r.answers@.len() == p.answers@.len()
    &&& forall|i: int|
        0 <= i < p.answers@.len() ==> shows_media(p.answers@[i].poll_media, (#[trigger] r.answers@[i]).text@)
            && (p.results is None ==> r.answers@[i].votes is None) && (p.results matches Some(results)
            ==> are_votes(results.answer_counts@, p.answers@[i].answer_id, r.answers@[i].votes))
}

proof fn lemma_poll(p: Poll, r: RenderedPoll)
    requires
        crate::discord::types::poll_shown(p, r),
    ensures
        same_poll(p, r),
{
    lemma_media(p.question, r.question@);
    assert forall|i: int| 0 <= i < p.answers@.len() implies shows_media(
        p.answers@[i].poll_media,
        (#[trigger] r.answers@[i]).text@,
    ) && (p.results is None ==> r.answers@[i].votes is None) && (p.results matches Some(results) ==> are_votes(
        results.answer_counts@,
        p.answers@[i].answer_id,
        r.answers@[i].votes,
    )) by {
        lemma_media(p.answers@[i].poll_media, r.answers@[i].text@);
        if let Some(results) = p.results {
            lemma_votes(results.answer_counts@, p.answers@[i].answer_id);
        }
    }
}

/// An emoji as it is shown: a plain one as it is, and one of a guild's by its name and number.
pub open spec fn shows_emoji(e: ReactionType, label: Seq<char>) -> bool {
    match e {
        ReactionType::Unicode(value) => label == value@,
        ReactionType::Custom { animated, id, name } => in_order(
            label,
            match name {
                Some(name) => seq![name@, decimal(id as nat)],
                None => seq![decimal(id as nat)],
            },
        ) && (label.len() > 1 && (animated <==> label[1] == 'a')),
    }
}

proof fn lemma_emoji(e: ReactionType, label: Seq<char>)
    requires
        label == crate::discord::types::reaction_shown(e),
    ensures
        shows_emoji(e, label),
{
    if let ReactionType::Custom { animated, id, name } = e {
        reveal_strlit("<a:");
        reveal_strlit("<:");
        let head = if animated {
            "<a:"@
        } else {
            "<:"@
        };
        let called = match name {
            Some(name) => name@,
            None => "emoji"@,
        };
        let n = decimal(id as nat);
        lemma_itself(called);
        lemma_more(called, head, seq![called]);
        lemma_more(head + called, ":"@, seq![called]);
        lemma_then(head + called + ":"@, n, seq![called]);
        assert(seq![called].push(n) =~= seq![called, n]);
        lemma_more(head + called + ":"@ + n, ">"@, seq![called, n]);
        lemma_itself(n);
        lemma_more(n, head + called + ":"@, seq![n]);
        lemma_more(head + called + ":"@ + n, ">"@, seq![n]);
        assert(label[1] == head[1]);
    }
}

/// What a message answers, as it is shown: the answered message, or that it is gone. A forward
/// answers nothing.
pub open spec fn same_reply(m: Message, r: Option<RenderedReply>) -> bool {
    match m.referenced_message {
        Some(parent) => {
            &&& r is Some && !r->0.unavailable
            &&& parsed_u64(r->0.id@) == Some(parent.id)
            &&& r->0.author_name@ == parent.author.name@
            &&& r->0.snippet@ == inlined(parent.content@, 180)
            &&& parent.nick matches Some(nick) ==> (nick@ != parent.author.name@ ==> opt_text(
                r->0.author_display,
            ) == Some(nick@))
        },
        None => {
            &&& r is Some <==> m.message_reference is Some && m.message_reference
                != Some(MessageReferenceKind::Forward)
            &&& r is Some ==> r->0.unavailable
        },
    }
}

/// A message as it is shown: nothing of it is lost.
pub open spec fn same_message(m: Message, r: RenderedMessage) -> bool {
    &&& parsed_u64(r.id@) == Some(m.id)
    &&& parsed_u64(r.author_id@) == Some(m.author.id)
    &&& r.author_name@ == m.author.name@
    &&& is_room_name(m, r.author_display)
    &&& r.timestamp@ == m.timestamp@
    &&& opt_text(r.edited_timestamp) == opt_text(m.edited_timestamp)
    &&& r.kind is Some <==> m.kind is Other
    &&& m.kind matches MessageType::Other(name) ==> r.kind->0@ == name@
    &&& same_reply(m, r.reply)
    &&& r.forwarded is Some <==> m.message_snapshots@.len() > 0
    &&& m.message_snapshots@.len() > 0 ==> {
        let s = m.message_snapshots@[0];
        let f = r.forwarded->0;
        &&& f.timestamp@ == s.timestamp@
        &&& f.content@ == s.content@
        &&& same_files(s.attachments@, f.attachments@)
        &&& same_stickers(s.sticker_items@, f.stickers@)
        &&& same_cards(s.embeds@, f.embeds@)
    }
    &&& r.poll is Some <==> m.poll is Some
    &&& m.poll matches Some(poll) ==> same_poll(poll, r.poll->0)
    &&& r.reactions@.len() == m.reactions@.len()
    &&& forall|i: int|
        0 <= i < m.reactions@.len() ==> shows_emoji(
            m.reactions@[i].reaction_type,
            (#[trigger] r.reactions@[i]).label@,
        ) && r.reactions@[i].count == m.reactions@[i].count
    &&& same_files(m.attachments@, r.attachments@)
    &&& same_stickers(m.sticker_items@, r.stickers@)
    &&& same_cards(m.embeds@, r.embeds@)
    &&& r.content@ == m.content@
}

/// A message that is shown is shown whole.
pub proof fn lemma_same(m: Message, r: RenderedMessage)
    requires
        crate::discord::types::message_shown(m, r),
    ensures
        same_message(m, r),
{
    lemma_decimal_reads_back(m.id);
    lemma_decimal_reads_back(m.author.id);
    if let Some(parent) = m.referenced_message {
        lemma_decimal_reads_back(parent.id);
    }
    if m.message_snapshots@.len() > 0 {
        let s = m.message_snapshots@[0];
        let f = r.forwarded->0;
        lemma_files(s.attachments@, f.attachments@);
        lemma_stickers(s.sticker_items@, f.stickers@);
        assert(same_cards(s.embeds@, f.embeds@));
    }
    if let Some(poll) = m.poll {
        lemma_poll(poll, r.poll->0);
    }
    assert forall|i: int| 0 <= i < m.reactions@.len() implies shows_emoji(
        m.reactions@[i].reaction_type,
        (#[trigger] r.reactions@[i]).label@,
    ) && r.reactions@[i].count == m.reactions@[i].count by {
        lemma_emoji(m.reactions@[i].reaction_type, r.reactions@[i].label@);
    }
    lemma_files(m.attachments@, r.attachments@);
    lemma_stickers(m.sticker_items@, r.stickers@);
    assert(same_cards(m.embeds@, r.embeds@));
}

/// A message off the wire is shown whole.
pub proof fn lemma_nothing_is_lost(m: Message, r: RenderedMessage)
    requires
        call_ensures(RenderedMessage::from, (&m,), r),
    ensures
        same_message(m, r),
{
    lemma_same(m, r);
}

/// Messages off the wire are shown whole, every one of them, in order.
pub proof fn lemma_no_message_is_lost(messages: Vec<Message>, r: Vec<RenderedMessage>)
    requires
        call_ensures(rendered_all, (&messages,), r),
    ensures
        r@.len() == messages@.len(),
        forall|i: int| 0 <= i < r@.len() ==> same_message(messages@[i], #[trigger] r@[i]),
{
    assert forall|i: int| 0 <= i < r@.len() implies same_message(messages@[i], #[trigger] r@[i]) by {
        lemma_same(messages@[i], r@[i]);
    }
}

/// A read of messages shows every one of them whole, in order.
pub proof fn lemma_a_read_shows_every_message(messages: Vec<Message>, r: String)
    requires
        call_ensures(messages_block, (&messages,), r),
    ensures
        exists|shown: Seq<RenderedMessage>|
            #![trigger shown.len()]
            shown.len() == messages@.len() && (forall|i: int|
                0 <= i < shown.len() ==> same_message(messages@[i], #[trigger] shown[i])) && in_order(
                r@,
                all_of(shown.map_values(|m: RenderedMessage| message_pieces(m))),
            ),
{
    let shown = choose|shown: Seq<RenderedMessage>| #[trigger]
        crate::discord::types::messages_shown(messages@, shown) && r@
            == crate::discord::types::block_text(shown);
    assert(shown.len() == messages@.len());
    lemma_every_message_is_shown(shown);
    assert forall|i: int| 0 <= i < shown.len() implies same_message(messages@[i], #[trigger] shown[i]) by {
        lemma_same(messages@[i], shown[i]);
    }
}

/// A channel's line names the channel, what it is called, what it is and what it belongs to.
pub proof fn lemma_a_channel_is_named(c: GuildChannel, r: String)
    requires
        call_ensures(channel_header, (&c,), r),
    ensures
        in_order(
            r@,
            match c.parent_id {
                Some(parent) => seq![
                    decimal(c.id as nat),
                    json_quoted(c.name@),
                    c.kind.shown(),
                    decimal(parent as nat),
                ],
                None => seq![decimal(c.id as nat), json_quoted(c.name@), c.kind.shown()],
            },
        ),
{
    let a = decimal(c.id as nat);
    let b = json_quoted(c.name@);
    let k = c.kind.shown();
    lemma_itself(a);
    lemma_more(a, "in: [id="@, seq![a]);
    let t1 = "in: [id="@ + a;
    lemma_more(t1, ", name="@, seq![a]);
    lemma_then(t1 + ", name="@, b, seq![a]);
    assert(seq![a].push(b) =~= seq![a, b]);
    let t2 = t1 + ", name="@ + b;
    lemma_more(t2, ", kind="@, seq![a, b]);
    lemma_then(t2 + ", kind="@, k, seq![a, b]);
    assert(seq![a, b].push(k) =~= seq![a, b, k]);
    let t3 = t2 + ", kind="@ + k;
    match c.parent_id {
        Some(parent) => {
            let p = decimal(parent as nat);
            lemma_more(t3, ", parent_id="@, seq![a, b, k]);
            lemma_then(t3 + ", parent_id="@, p, seq![a, b, k]);
            assert(seq![a, b, k].push(p) =~= seq![a, b, k, p]);
            lemma_more(t3 + ", parent_id="@ + p, "]"@, seq![a, b, k, p]);
            assert(t3 + (", parent_id="@ + p) =~= t3 + ", parent_id="@ + p);
        },
        None => {
            lemma_more(t3, "]"@, seq![a, b, k]);
            assert(t3 + Seq::<char>::empty() =~= t3);
        },
    }
}

/// Cards hold what they are cards of.
pub proof fn lemma_cards_are_true(
    g: PartialGuild,
    guild: ServerInfo,
    c: GuildChannel,
    channel: ChannelInfo,
    m: Message,
    message: MessageInfo,
    p: Member,
    member: UserLookupInfo,
)
    requires
        call_ensures(ServerInfo::from, (g,), guild),
        call_ensures(ChannelInfo::from, (c,), channel),
        call_ensures(MessageInfo::from, (m,), message),
        call_ensures(UserLookupInfo::from, (p,), member),
    ensures
        parsed_u64(guild.id@) == Some(g.id),
        guild.name@ == g.name@,
        guild.member_count == g.approximate_member_count,
        opt_text(guild.description) == opt_text(g.description),
        parsed_u64(channel.id@) == Some(c.id),
        channel.name@ == c.name@,
        channel.kind@ == c.kind.shown(),
        opt_text(channel.topic) == opt_text(c.topic),
        parsed_u64(message.id@) == Some(m.id),
        parsed_u64(message.author_id@) == Some(m.author.id),
        message.author_name@ == m.author.name@,
        message.content@ == m.content@,
        message.timestamp@ == m.timestamp@,
        parsed_u64(member.id@) == Some(p.user.id),
        member.mention@ == seq!['<', '@'] + member.id@ + seq!['>'],
        member.username@ == p.user.name@,
        opt_text(member.nickname) == opt_text(p.nick),
        p.nick matches Some(nick) ==> member.display_name@ == nick@,
        p.nick is None ==> (p.user.global_name matches Some(name) ==> member.display_name@ == name@),
        p.nick is None && p.user.global_name is None ==> member.display_name@ == p.user.name@,
{
    lemma_decimal_reads_back(g.id);
    lemma_decimal_reads_back(c.id);
    lemma_decimal_reads_back(m.id);
    lemma_decimal_reads_back(m.author.id);
    lemma_decimal_reads_back(p.user.id);
    reveal_strlit("<@");
    reveal_strlit(">");
    assert("<@"@ =~= seq!['<', '@']);
    assert(">"@ =~= seq!['>']);
}

} // verus!
