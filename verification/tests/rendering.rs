use kurou::discord::types::{
    author_label, channel_header, display_name, format_embed, format_reply, messages_block, poll_media_text,
    quote_header, reaction_label, render_messages, rendered_poll, rendered_sticker, short_inline,
    ChannelInfo, MessageInfo, RenderedAttachment, RenderedEmbed, RenderedForward, RenderedMessage,
    RenderedPoll, RenderedPollAnswer, RenderedReaction, RenderedReply, RenderedSticker, ServerInfo,
    UserLookupInfo,
};
use kurou::discord::wire::{
    Attachment, ChannelType, Embed, GuildChannel, Member, Message, MessageReferenceKind, MessageSnapshot,
    MessageType, PartialGuild, PartialMember, Poll, PollAnswer, PollAnswerCount, PollMedia, PollMediaEmoji,
    PollResults, Reaction, ReactionType, ReferencedMessage, StickerFormatType, StickerItem, User,
};

fn user(id: u64, name: &str, global: Option<&str>) -> User {
    User { id, name: name.to_owned(), global_name: global.map(str::to_owned) }
}

fn message(id: u64, content: &str) -> Message {
    Message {
        id,
        channel_id: 1,
        guild_id: Some(2),
        author: user(7, "miyo", None),
        member: None,
        mentions: Vec::new(),
        timestamp: "2026-08-10T12:00:00Z".to_owned(),
        edited_timestamp: None,
        kind: MessageType::Regular,
        message_reference: None,
        referenced_message: None,
        message_snapshots: Vec::new(),
        poll: None,
        reactions: Vec::new(),
        attachments: Vec::new(),
        sticker_items: Vec::new(),
        embeds: Vec::new(),
        content: content.to_owned(),
    }
}

fn rendered(id: &str, author: &str, timestamp: &str, content: &str) -> RenderedMessage {
    RenderedMessage {
        id: id.to_owned(),
        author_id: "7".to_owned(),
        author_name: author.to_owned(),
        author_display: None,
        timestamp: timestamp.to_owned(),
        edited_timestamp: None,
        kind: None,
        reply: None,
        forwarded: None,
        poll: None,
        reactions: Vec::new(),
        attachments: Vec::new(),
        stickers: Vec::new(),
        embeds: Vec::new(),
        content: content.to_owned(),
    }
}

fn channel(id: u64, name: &str, kind: ChannelType, parent_id: Option<u64>) -> GuildChannel {
    GuildChannel { id, guild_id: 1, name: name.to_owned(), kind, topic: None, parent_id, position: 0 }
}

#[test]
fn renders_channel_header() {
    let mut thread = channel(42, "the \"thread\" title", ChannelType::PublicThread, Some(7));
    assert_eq!(
        channel_header(&thread),
        "in: [id=42, name=\"the \\\"thread\\\" title\", kind=PublicThread, parent_id=7]"
    );
    thread.parent_id = None;
    assert_eq!(channel_header(&thread), "in: [id=42, name=\"the \\\"thread\\\" title\", kind=PublicThread]");
}

#[test]
fn renders_all_the_trimmings() {
    let message = RenderedMessage {
        id: "42".to_owned(),
        author_id: "7".to_owned(),
        author_name: "koma".to_owned(),
        author_display: None,
        timestamp: "2026-07-01T00:00:00Z".to_owned(),
        edited_timestamp: Some("2026-07-01T00:01:00Z".to_owned()),
        kind: None,
        forwarded: None,
        poll: None,
        reply: Some(RenderedReply {
            unavailable: false,
            id: "41".to_owned(),
            author_name: "kurone".to_owned(),
            author_display: None,
            snippet: "the cat asks".to_owned(),
        }),
        reactions: vec![RenderedReaction { label: "🐦".to_owned(), count: 3 }],
        attachments: vec![RenderedAttachment {
            id: "9".to_owned(),
            filename: "moon.png".to_owned(),
            size: 2048,
            content_type: Some("image/png".to_owned()),
            description: None,
            dimensions: Some((800, 600)),
            url: "https://cdn/moon.png".to_owned(),
        }],
        stickers: Vec::new(),
        embeds: vec![RenderedEmbed {
            kind: Some("link".to_owned()),
            title: Some("a title".to_owned()),
            description: None,
            url: Some("https://x".to_owned()),
            image: None,
            thumbnail: None,
        }],
        content: "look up".to_owned(),
    };

    let expected = "[id=42, author_id=7, author=\"koma\", timestamp=2026-07-01T00:00:00Z]\n\
        edited: 2026-07-01T00:01:00Z\n\
        reply-to: [id=41, author=\"kurone\"] the cat asks\n\
        reactions: 🐦 x3\n\
        attachments:\n\
        - id=9 filename=\"moon.png\" size=2048b type=\"image/png\" dimensions=800x600 url=https://cdn/moon.png\n\
        embeds:\n\
        - type=\"link\" title=\"a title\" url=https://x\n\
        look up\n";

    assert_eq!(render_messages(std::slice::from_ref(&message)), expected);
}

#[test]
fn renders_a_forward_with_the_forwarder_note() {
    let mut message = rendered("50", "miyo", "2026-08-10T12:00:00Z", "look at this");
    message.forwarded = Some(RenderedForward {
        timestamp: "2026-08-09T09:00:00Z".to_owned(),
        content: "anima setup notes\nline two".to_owned(),
        attachments: vec![RenderedAttachment {
            id: "9".to_owned(),
            filename: "setup.png".to_owned(),
            size: 1024,
            content_type: None,
            description: None,
            dimensions: None,
            url: "https://cdn/setup.png".to_owned(),
        }],
        stickers: Vec::new(),
        embeds: Vec::new(),
    });

    let expected = "[id=50, author_id=7, author=\"miyo\", timestamp=2026-08-10T12:00:00Z]\n\
        forwarded: [timestamp=2026-08-09T09:00:00Z]\n\
        forwarded attachments:\n\
        - id=9 filename=\"setup.png\" size=1024b url=https://cdn/setup.png\n\
        > anima setup notes\n\
        > line two\n\
        look at this\n";

    assert_eq!(render_messages(std::slice::from_ref(&message)), expected);
}

#[test]
fn renders_a_poll_with_counts() {
    let mut message = rendered("51", "miyo", "t", "");
    message.poll = Some(RenderedPoll {
        question: "best rabbit?".to_owned(),
        multiselect: true,
        finalized: false,
        expiry: Some("2026-08-11T00:00:00Z".to_owned()),
        answers: vec![
            RenderedPollAnswer { text: "pyonka".to_owned(), votes: Some(3) },
            RenderedPollAnswer { text: "furin".to_owned(), votes: None },
        ],
    });

    let expected = "[id=51, author_id=7, author=\"miyo\", timestamp=t]\n\
        poll: \"best rabbit?\" (multiselect) (expires 2026-08-11T00:00:00Z)\n\
        - pyonka x3\n\
        - furin\n";

    assert_eq!(render_messages(std::slice::from_ref(&message)), expected);
}

#[test]
fn nicknames_lead_and_handles_follow() {
    assert_eq!(author_label(Some("Kanemitsu Enjoyer #4"), "xkmt"), "\"Kanemitsu Enjoyer #4\" (@xkmt)");
    assert_eq!(author_label(None, "miyo_rin"), "\"miyo_rin\"");
}

#[test]
fn a_wire_forward_sheds_the_unavailable_reply_costume() {
    let mut wire = message(1544828810510475394, "");
    wire.author = user(150087922589237248, "miyo_rin", None);
    wire.message_reference = Some(MessageReferenceKind::Forward);
    wire.message_snapshots = vec![MessageSnapshot {
        timestamp: "2026-08-09T09:00:00Z".to_owned(),
        content: "anima setup notes".to_owned(),
        attachments: Vec::new(),
        sticker_items: Vec::new(),
        embeds: Vec::new(),
    }];
    let rendered = RenderedMessage::from(&wire);
    assert!(rendered.reply.is_none(), "a forward must not wear reply-to: <unavailable>");
    let forward = rendered.forwarded.expect("snapshot should render");
    assert_eq!(forward.content, "anima setup notes");
}

#[test]
fn a_reply_to_a_deleted_message_is_unavailable() {
    let mut wire = message(5, "hm");
    wire.message_reference = Some(MessageReferenceKind::Default);
    let rendered = RenderedMessage::from(&wire);
    let reply = rendered.reply.expect("a reference without a parent is a reply");
    assert!(reply.unavailable);
    assert_eq!(format_reply(&reply), "reply-to: <unavailable>");
}

#[test]
fn every_part_of_a_wire_message_is_carried_over() {
    let mut wire = message(900, "body");
    wire.member = Some(PartialMember { roles: vec![1, 2], nick: Some("Nick".to_owned()) });
    wire.edited_timestamp = Some("later".to_owned());
    wire.kind = MessageType::Other("PinsAdd".to_owned());
    wire.referenced_message = Some(ReferencedMessage {
        id: 899,
        author: user(8, "kurone", Some("Kurone")),
        nick: None,
        content: "  what   is\n this ".to_owned(),
    });
    wire.reactions = vec![
        Reaction { reaction_type: ReactionType::Unicode("🦀".to_owned()), count: 2 },
        Reaction {
            reaction_type: ReactionType::Custom { animated: true, id: 55, name: Some("wave".to_owned()) },
            count: 1,
        },
    ];
    wire.attachments = vec![Attachment {
        id: 3,
        filename: "a.png".to_owned(),
        size: 10,
        content_type: None,
        description: Some("d".to_owned()),
        width: Some(4),
        height: Some(5),
        url: "https://u".to_owned(),
        proxy_url: "https://p".to_owned(),
    }];
    wire.sticker_items = vec![StickerItem {
        id: 77,
        name: "caw".to_owned(),
        format_type: StickerFormatType::Unknown(9),
        image_url: None,
    }];
    wire.embeds = vec![Embed {
        kind: None,
        title: None,
        description: Some("x ".repeat(200)),
        url: None,
        image: Some("https://i".to_owned()),
        thumbnail: None,
    }];
    let shown = RenderedMessage::from(&wire);
    assert_eq!(shown.id, "900");
    assert_eq!(shown.author_id, "7");
    assert_eq!(shown.author_display.as_deref(), Some("Nick"));
    assert_eq!(shown.edited_timestamp.as_deref(), Some("later"));
    assert_eq!(shown.kind.as_deref(), Some("PinsAdd"));
    let reply = shown.reply.as_ref().unwrap();
    assert_eq!(reply.snippet, "what is this");
    assert_eq!(reply.author_display.as_deref(), Some("Kurone"));
    assert_eq!(shown.reactions[0].label, "🦀");
    assert_eq!(shown.reactions[1].label, "<a:wave:55>");
    assert_eq!(shown.attachments[0].dimensions, Some((4, 5)));
    assert_eq!(shown.stickers[0].format, "Unknown(9)");
    assert_eq!(shown.stickers[0].url, "no-url");
    let description = shown.embeds[0].description.as_ref().unwrap();
    assert_eq!(description.chars().count(), 180);
    assert!(description.ends_with("..."));
    let block = messages_block(&vec![wire]);
    assert!(block.starts_with("[id=900, author_id=7, author=\"Nick\" (@miyo), timestamp="));
    assert!(block.contains("type: PinsAdd\nedited: later\nreply-to: [id=899, author=\"Kurone\" (@kurone)] what is this\n"));
    assert!(block.ends_with("body\n"));
}

#[test]
fn blocks_stand_an_empty_line_apart() {
    let a = rendered("1", "a", "t", "one\n");
    let b = rendered("2", "b", "t", "two");
    assert_eq!(
        render_messages(&[a, b]),
        "[id=1, author_id=7, author=\"a\", timestamp=t]\none\n\n[id=2, author_id=7, author=\"b\", timestamp=t]\ntwo\n"
    );
    assert_eq!(render_messages(&[]), "");
}

#[test]
fn stickers_and_final_polls_are_shown() {
    let mut m = rendered("1", "a", "t", "");
    m.stickers = vec![RenderedSticker {
        id: "5".to_owned(),
        name: "ca\"w".to_owned(),
        format: "Png".to_owned(),
        url: "https://s".to_owned(),
    }];
    m.poll = Some(RenderedPoll {
        question: "q".to_owned(),
        multiselect: false,
        finalized: true,
        expiry: Some("never shown".to_owned()),
        answers: Vec::new(),
    });
    assert_eq!(
        render_messages(std::slice::from_ref(&m)),
        "[id=1, author_id=7, author=\"a\", timestamp=t]\nstickers:\n- id=5 name=\"ca\\\"w\" format=Png url=https://s\npoll: \"q\" (final)\n"
    );
}

#[test]
fn empty_embeds_are_not_shown() {
    let empty = RenderedEmbed { kind: None, title: None, description: None, url: None, image: None, thumbnail: None };
    assert!(format_embed(&empty).is_none());
    let mut m = rendered("1", "a", "t", "x");
    m.embeds = vec![empty];
    assert!(!render_messages(std::slice::from_ref(&m)).contains("embeds:"));
}

#[test]
fn quoting_escapes_marks_and_control_characters() {
    assert_eq!(quote_header("a\"b\\c\n\t\u{1}é"), "\"a\\\"b\\\\c\\n\\t\\u0001é\"");
    assert_eq!(quote_header("\u{8}\u{c}\r\u{1f}\u{7f}"), "\"\\b\\f\\r\\u001f\u{7f}\"");
}

#[test]
fn snippets_are_cut_at_their_limit() {
    assert_eq!(short_inline(&"a".repeat(180)).len(), 180);
    let long = short_inline(&"a".repeat(181));
    assert_eq!(long, format!("{}...", "a".repeat(177)));
    assert_eq!(short_inline(" a \u{a0} b\u{3000}c "), "a b c");
}

#[test]
fn poll_votes_come_from_the_first_count() {
    let poll = Poll {
        question: PollMedia { text: Some("q".to_owned()), emoji: None },
        allow_multiselect: false,
        expiry: None,
        answers: vec![
            PollAnswer {
                answer_id: 1,
                poll_media: PollMedia { text: None, emoji: Some(PollMediaEmoji::Name("🐰".to_owned())) },
            },
            PollAnswer {
                answer_id: 2,
                poll_media: PollMedia {
                    text: Some("furin".to_owned()),
                    emoji: Some(PollMediaEmoji::Name("🎐".to_owned())),
                },
            },
            PollAnswer {
                answer_id: 3,
                poll_media: PollMedia { text: Some("t".to_owned()), emoji: Some(PollMediaEmoji::Id(4)) },
            },
        ],
        results: Some(PollResults {
            is_finalized: true,
            answer_counts: vec![
                PollAnswerCount { id: 2, count: 8 },
                PollAnswerCount { id: 1, count: 5 },
                PollAnswerCount { id: 2, count: 99 },
            ],
        }),
    };
    let shown = rendered_poll(&poll);
    assert!(shown.finalized);
    assert_eq!(shown.answers[0].text, "🐰");
    assert_eq!(shown.answers[0].votes, Some(5));
    assert_eq!(shown.answers[1].text, "🎐 furin");
    assert_eq!(shown.answers[1].votes, Some(8));
    assert_eq!(shown.answers[2].text, "t");
    assert_eq!(shown.answers[2].votes, None);
    assert_eq!(poll_media_text(&poll.question), "q");
}

#[test]
fn cards_carry_their_fields() {
    let server = ServerInfo::from(PartialGuild {
        id: 12,
        name: "nest".to_owned(),
        approximate_member_count: Some(3),
        description: None,
    });
    assert_eq!((server.id.as_str(), server.name.as_str(), server.member_count), ("12", "nest", Some(3)));
    let card = ChannelInfo::from(channel(9, "c", ChannelType::Unknown(20), None));
    assert_eq!((card.id.as_str(), card.kind.as_str()), ("9", "Unknown(20)"));
    let info = MessageInfo::from(message(4, "hi"));
    assert_eq!((info.id.as_str(), info.author_id.as_str(), info.content.as_str()), ("4", "7", "hi"));
    let found = UserLookupInfo::from(Member { user: user(5, "u", Some("G")), nick: None });
    assert_eq!((found.mention.as_str(), found.display_name.as_str()), ("<@5>", "G"));
    let nicked = UserLookupInfo::from(Member { user: user(5, "u", Some("G")), nick: Some("N".to_owned()) });
    assert_eq!(nicked.display_name, "N");
    let plain = UserLookupInfo::from(Member { user: user(5, "u", None), nick: None });
    assert_eq!(plain.display_name, "u");
}

#[test]
fn the_room_name_is_not_the_handle() {
    let mut m = message(1, "");
    assert_eq!(display_name(&m), None);
    m.author.global_name = Some("miyo".to_owned());
    assert_eq!(display_name(&m), None);
    m.author.global_name = Some("Miyo".to_owned());
    assert_eq!(display_name(&m).as_deref(), Some("Miyo"));
    m.member = Some(PartialMember { roles: Vec::new(), nick: Some("miyo".to_owned()) });
    assert_eq!(display_name(&m), None);
}

#[test]
fn stickers_keep_their_picture() {
    let s = rendered_sticker(&StickerItem {
        id: 1,
        name: "n".to_owned(),
        format_type: StickerFormatType::Gif,
        image_url: Some("https://x/1.gif".to_owned()),
    });
    assert_eq!((s.format.as_str(), s.url.as_str()), ("Gif", "https://x/1.gif"));
    assert_eq!(
        reaction_label(&ReactionType::Custom { animated: false, id: 3, name: None }),
        "<:emoji:3>"
    );
}

#[test]
fn a_message_reads_the_same_whenever_it_is_made_ready() {
    let wire = || {
        let mut m = message(42, "hi");
        m.reactions = vec![Reaction { reaction_type: ReactionType::Unicode("x".to_owned()), count: 2 }];
        m.edited_timestamp = Some("e".to_owned());
        m
    };
    let long_ago = RenderedMessage::from(&wire());
    let now = messages_block(&vec![wire()]);
    assert_eq!(render_messages(&[long_ago]), now);
    assert!(now.starts_with("[id=42,"));
}
