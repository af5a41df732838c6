use kurou::discord::wire::{
    Attachment, ChannelType, GuildChannel, Message, MessageReferenceKind, MessageType, PartialMember, Reaction,
    ReactionType, ReferencedMessage, StickerFormatType, StickerItem, User,
};
use kurou::layout::LayoutStore;
use kurou::server::{Probe, Voice};
use kurou::sql::SqlValue;
use kurou::wall::event::{
    attachment, author_source, enrich, reaction, reply, short_inline, sized_thumb, standing_of, sticker, AuthorSource,
    EnrichCache, Role, MEMBER_TTL, ROLE_TTL,
};
use kurou::wall::{backfill, chronological, keep_layout, sources, BackfillParams, ClientPool};

fn user(id: u64, name: &str, global: Option<&str>) -> User {
    User { id, name: name.to_owned(), global_name: global.map(str::to_owned) }
}

fn message(id: u64) -> Message {
    Message {
        id,
        channel_id: 60,
        guild_id: Some(1),
        author: user(7, "miyo", Some("Miyo")),
        member: None,
        mentions: Vec::new(),
        timestamp: "t".to_owned(),
        edited_timestamp: None,
        kind: MessageType::Regular,
        message_reference: None,
        referenced_message: None,
        message_snapshots: Vec::new(),
        poll: None,
        reactions: Vec::new(),
        attachments: Vec::new(),
        sticker_items: Vec::new(),
        embeds: Vec::new(),
        content: "hi".to_owned(),
    }
}

fn file(content_type: Option<&str>, dims: Option<(u32, u32)>) -> Attachment {
    Attachment {
        id: 3,
        filename: "a".to_owned(),
        size: 10,
        content_type: content_type.map(str::to_owned),
        description: None,
        width: dims.map(|d| d.0),
        height: dims.map(|d| d.1),
        url: "https://u".to_owned(),
        proxy_url: "https://p".to_owned(),
    }
}

fn role(id: u64, position: u16, colour: u32) -> Role {
    Role { id, position, colour }
}

#[test]
fn the_highest_coloured_role_colours() {
    let mut cache = EnrichCache::new();
    let worn = vec![10, 11, 12];
    assert!(cache.must_ask_roles(1, &worn, 0));
    cache.colored_roles(
        1,
        &Some(vec![role(10, 1, 0xff), role(11, 5, 0xabcdef), role(12, 9, 0), role(13, 50, 0x1)]),
        0,
    );
    assert!(!cache.must_ask_roles(1, &worn, ROLE_TTL - 1));
    assert!(cache.must_ask_roles(1, &worn, ROLE_TTL));
    assert!(!cache.must_ask_roles(1, &Vec::new(), ROLE_TTL));
    assert_eq!(cache.color_for(1, &worn).as_deref(), Some("#abcdef"));
    assert_eq!(cache.color_for(1, &vec![12]), None);
    assert_eq!(cache.color_for(1, &Vec::new()), None);
    cache.colored_roles(1, &Some(vec![role(20, 4, 1), role(21, 4, 2)]), 1);
    assert_eq!(cache.color_for(1, &vec![20, 21]).as_deref(), Some("#000002"), "the last of equals wins");
    cache.colored_roles(1, &None, 2);
    assert_eq!(cache.color_for(1, &worn), None);
}

#[test]
fn members_are_remembered_for_a_while() {
    let mut cache = EnrichCache::new();
    assert!(cache.member(1, 7, 0).is_none());
    cache.learn_member(1, 7, &PartialMember { roles: vec![10], nick: Some("N".to_owned()) }, 5);
    let known = cache.member(1, 7, 4 + MEMBER_TTL).unwrap();
    assert_eq!((known.roles, known.nick.as_deref()), (vec![10], Some("N")));
    assert!(cache.member(1, 7, 5 + MEMBER_TTL).is_none());
    assert!(cache.member(2, 7, 5).is_none());
}

#[test]
fn authors_are_asked_for_only_where_needed() {
    let mut m = message(1);
    assert!(matches!(author_source(&m), AuthorSource::Ask { guild: 1 }));
    m.member = Some(PartialMember { roles: Vec::new(), nick: None });
    assert!(matches!(author_source(&m), AuthorSource::Given));
    m.member = None;
    m.guild_id = None;
    assert!(matches!(author_source(&m), AuthorSource::Nowhere));
}

#[test]
fn thumbnails_keep_their_aspect() {
    assert_eq!(sized_thumb("https://p", Some((800, 600))), "https://p?width=400&height=300");
    assert_eq!(sized_thumb("https://p?x=1", Some((600, 800))), "https://p?x=1&width=300&height=400");
    assert_eq!(sized_thumb("https://p", Some((20000, 1))), "https://p?width=400&height=1");
    assert_eq!(sized_thumb("https://p", Some((100, 50))), "https://p?width=100&height=50");
    assert_eq!(sized_thumb("https://p", None), "https://p?width=400&height=400");
    assert_eq!(sized_thumb("https://p", Some((0, 5))), "https://p?width=400&height=400");
}

#[test]
fn files_are_shown_by_their_kind() {
    let image = attachment(&file(Some("image/png"), Some((800, 600))));
    assert_eq!((image.kind.as_str(), image.thumb.as_deref()), ("image", Some("https://p?width=400&height=300")));
    assert_eq!((image.width, image.height, image.size), (Some(800), Some(600), 10));
    let video = attachment(&file(Some("video/mp4"), None));
    assert_eq!((video.kind.as_str(), video.thumb), ("video", None));
    assert_eq!(attachment(&file(None, None)).kind, "file");
    let lottie = StickerItem {
        id: 1,
        name: "s".to_owned(),
        format_type: StickerFormatType::Lottie,
        image_url: Some("https://l".to_owned()),
    };
    assert_eq!(sticker(&lottie).url, None);
}

#[test]
fn replies_are_previewed() {
    let mut m = message(1);
    assert!(reply(&m).is_none());
    m.message_reference = Some(MessageReferenceKind::Default);
    assert_eq!(reply(&m).unwrap().snippet, "<unavailable>");
    m.referenced_message = Some(ReferencedMessage {
        id: 9,
        author: user(8, "kurone", None),
        nick: Some("ignored".to_owned()),
        content: "x".repeat(200),
    });
    let shown = reply(&m).unwrap();
    assert_eq!(shown.author, "kurone");
    assert_eq!(shown.snippet, format!("{}...", "x".repeat(117)));
    assert_eq!(short_inline(&"y".repeat(120)).len(), 120);
}

#[test]
fn reactions_are_told_apart() {
    let plain = reaction(&Reaction { reaction_type: ReactionType::Unicode("🦀".to_owned()), count: 2 });
    assert_eq!((plain.emoji.as_deref(), plain.custom.is_none(), plain.count), (Some("🦀"), true, 2));
    let custom = reaction(&Reaction {
        reaction_type: ReactionType::Custom { animated: true, id: 5, name: None },
        count: 1,
    });
    let emoji = custom.custom.unwrap();
    assert_eq!((emoji.id.as_str(), emoji.name.as_str(), emoji.animated), ("5", "emoji", true));
}

#[test]
fn blocks_are_enriched() {
    let mut m = message(70);
    m.edited_timestamp = Some("e".to_owned());
    m.mentions = vec![user(5, "a", Some("A")), user(6, "b", None)];
    let shown = enrich(&m, None, Some("#010203".to_owned()));
    assert_eq!((shown.author.name.as_str(), shown.author.username.as_str()), ("Miyo", "miyo"));
    assert_eq!(shown.author.color.as_deref(), Some("#010203"));
    assert!(shown.edited);
    assert_eq!((shown.id.as_str(), shown.channel_id.as_str(), shown.guild_id.as_deref()), ("70", "60", Some("1")));
    assert_eq!(shown.mentions.get(&"5".to_owned()).map(String::as_str), Some("A"));
    assert_eq!(shown.mentions.get(&"6".to_owned()).map(String::as_str), Some("b"));
    assert_eq!(enrich(&m, Some("Nick".to_owned()), None).author.name, "Nick");
    m.author.global_name = None;
    assert_eq!(enrich(&m, None, None).author.name, "miyo");
}

fn pool(observer: bool) -> ClientPool {
    ClientPool { observer, default_guild: Some(1), secondary_guilds: vec![2], readonly_guilds: vec![4] }
}

#[test]
fn the_wall_reads_with_the_right_bot() {
    assert!(matches!(pool(true).client_for_guild(1), Voice::Primary));
    assert!(matches!(pool(true).client_for_guild(4), Voice::Observer));
    assert!(matches!(pool(false).client_for_guild(4), Voice::Primary));
    assert!(matches!(pool(true).client_for_channel(Probe::InGuild(1)), Voice::Primary));
    assert!(matches!(pool(true).client_for_channel(Probe::InGuild(4)), Voice::Observer));
    assert!(matches!(pool(true).client_for_channel(Probe::Failed), Voice::Observer));
    let kinds: Vec<(u64, &str)> = pool(true).guilds().iter().map(|g| (g.guild, g.kind)).collect();
    assert_eq!(kinds.first(), Some(&(1, "primary")));
    assert_eq!(kinds.last(), Some(&(4, "observer")));
}

#[test]
fn backfills_are_bounded_and_chronological() {
    let ask = |id: &str, limit: Option<u8>| backfill(&BackfillParams { channel_id: id.to_owned(), limit });
    assert_eq!(ask(" 9 ", None), Ok((9, 30)));
    assert_eq!(ask("9", Some(0)), Ok((9, 1)));
    assert_eq!(ask("9", Some(200)), Ok((9, 100)));
    assert_eq!(ask("x", None), Err("channel_id must be a snowflake".to_owned()));
    let ids: Vec<u64> = chronological(vec![message(3), message(2), message(1)]).iter().map(|m| m.id).collect();
    assert_eq!(ids, [1, 2, 3]);
}

#[test]
fn sources_list_text_channels_by_position() {
    let channel = |id: u64, kind: ChannelType, position: u16| GuildChannel {
        id,
        guild_id: 1,
        name: format!("c{id}"),
        kind,
        topic: None,
        parent_id: None,
        position,
    };
    let guild = &pool(true).guilds()[0];
    let listed = sources(
        guild,
        None,
        Some(vec![
            channel(1, ChannelType::Text, 5),
            channel(2, ChannelType::Voice, 0),
            channel(3, ChannelType::News, 2),
            channel(4, ChannelType::Text, 2),
        ]),
        Some(vec![channel(9, ChannelType::PublicThread, 0)]),
    );
    assert_eq!((listed.id.as_str(), listed.name.as_str(), listed.kind), ("1", "1", "primary"));
    let ids: Vec<(&str, &str)> = listed.channels.iter().map(|c| (c.id.as_str(), c.kind)).collect();
    assert_eq!(ids, [("3", "channel"), ("4", "channel"), ("1", "channel"), ("9", "thread")]);
    assert!(sources(guild, Some("n".to_owned()), None, None).channels.is_empty());
}

#[test]
fn only_json_is_kept_as_a_layout() {
    let store = LayoutStore::new("p".to_owned());
    let kept = keep_layout(&store, "x", true).ok().unwrap();
    assert!(matches!(&kept.params[0], SqlValue::Text(body) if body == "x"));
    assert!(keep_layout(&store, "x", false).is_err());
}

#[test]
fn live_and_read_back_messages_are_shown_alike() {
    let place = || PartialMember { roles: vec![10, 11], nick: Some("Nick".to_owned()) };
    let mut cache = EnrichCache::new();
    cache.colored_roles(1, &Some(vec![role(10, 1, 0xff), role(11, 5, 0xabcdef)]), 0);
    let mut live = message(70);
    live.member = Some(place());
    let read_back = message(70);
    let first = cache.show(&live, &standing_of(&live, &None));
    let second = cache.show(&read_back, &standing_of(&read_back, &Some(place())));
    assert_eq!((first.author.name.as_str(), first.author.color.as_deref()), ("Nick", Some("#abcdef")));
    assert_eq!(first.author.name, second.author.name);
    assert_eq!(first.author.color, second.author.color);
    assert_eq!((first.id, first.content), (second.id, second.content));
    let unknown = cache.show(&read_back, &standing_of(&read_back, &None));
    assert_eq!((unknown.author.name.as_str(), unknown.author.color), ("Miyo", None));
    let mut letter = message(70);
    letter.guild_id = None;
    assert_eq!(standing_of(&letter, &Some(place())).roles, Vec::<u64>::new());
}
