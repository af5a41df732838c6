use kurou::config::GatewayMode;
use kurou::discord::wire::{Message, MessageType, User};
use kurou::gateway::{
    link, match_words, normalize_keywords, Attribution, AuditChange, AuditEntry, Departure, GatewayConfig, Handler,
    Hunt, Moment, SEEN_LIMIT,
};
use kurou::ledger::Ledger;

const DISCORD_EPOCH: i64 = 1_420_070_400;

fn id_at(unix: i64) -> u64 {
    (((unix - DISCORD_EPOCH) as u64) * 1000) << 22
}

fn user(id: u64, name: &str) -> User {
    User { id, name: name.to_owned(), global_name: None }
}

fn message(content: &str) -> Message {
    Message {
        id: 70,
        channel_id: 60,
        guild_id: Some(1),
        author: user(7, "miyo"),
        member: None,
        mentions: Vec::new(),
        timestamp: "t".to_owned(),
        edited_timestamp: None,
        kind: MessageType::Regular,
        message_reference: None,
        referenced_message: None,
        message_snapshots: Vec::new(),
        poll: None,
        reactions: Vec::new(),
        attachments: Vec::new(),
        sticker_items: Vec::new(),
        embeds: Vec::new(),
        content: content.to_owned(),
    }
}

fn config(mode: GatewayMode) -> GatewayConfig {
    GatewayConfig {
        mode,
        default_guild: Some(1),
        secondary_guilds: vec![2],
        mention_keywords: vec![" Koma ".to_owned(), "".to_owned()],
        mention_store: None,
        archive: None,
        modlog: None,
        crow_bot_ids: vec![90],
        fanout: false,
        broadcast_guilds: vec![1, 2],
        wake: None,
        wake_dm_from: Vec::new(),
        presence: false,
    }
}

fn full() -> Handler {
    let ledger = Ledger::at("p".to_owned());
    let mut c = config(GatewayMode::Mentions);
    c.mention_store = Some(ledger.mentions());
    c.archive = Some(ledger.archive());
    c.modlog = Some(ledger.modlog());
    c.fanout = true;
    Handler::new(c, 99)
}

fn entry(id: u64, by: u64, target: u64, changes: Vec<AuditChange>) -> AuditEntry {
    AuditEntry { id, user_id: by, target_id: Some(target), reason: Some("r".to_owned()), changes }
}

#[test]
fn the_gateway_is_only_opened_on_request() {
    assert!(!config(GatewayMode::Off).wanted());
    assert!(config(GatewayMode::Presence).wanted());
    let ledger = Ledger::at("p".to_owned());
    let mut walled = config(GatewayMode::Off);
    walled.fanout = true;
    assert!(walled.wanted());
    let intents = walled.intents();
    assert!(intents.guilds && intents.guild_messages && intents.message_content);
    assert!(!intents.guild_moderation && !intents.guild_members);
    let mut armed = config(GatewayMode::Off);
    armed.modlog = Some(ledger.modlog());
    assert!(armed.wanted());
    let intents = armed.intents();
    assert!(intents.guilds && intents.guild_moderation && intents.guild_members && !intents.guild_messages);
    let mut kept = config(GatewayMode::Off);
    kept.archive = Some(ledger.archive());
    assert!(kept.wanted() && kept.intents().message_content);
    let seen = config(GatewayMode::Presence).intents();
    assert!(seen.guilds && !seen.guild_messages);
    assert!(config(GatewayMode::Mentions).intents().message_content);
    assert!(!config(GatewayMode::Off).intents().guilds);
}

#[test]
fn hunts_look_for_a_fresh_entry() {
    let now = 1_790_000_000;
    let mut hunt = Hunt::for_ban(5);
    let entries = vec![
        entry(id_at(now - 10), 8, 6, Vec::new()),
        entry(id_at(now - 301), 8, 5, Vec::new()),
        entry(id_at(now - 299), 8, 5, Vec::new()),
    ];
    assert_eq!(hunt.examine(&entries, now), Some(2));
    assert_eq!(hunt.examine(&entries, now + 10), None);
    let delays: Vec<Option<u64>> = (0..4).map(|_| hunt.next_delay()).collect();
    assert_eq!(delays, [Some(500), Some(1500), Some(3000), None]);
    let mut kick = Hunt::for_kick(5);
    assert_eq!((kick.next_delay(), kick.next_delay(), kick.next_delay()), (Some(1000), Some(2500), None));
    assert_eq!(kick.max_age_secs, 30);
    let mut leave = Hunt::for_ban_on_leave(5);
    assert_eq!((leave.next_delay(), leave.next_delay()), (Some(100), None));
    let mut muted = Hunt::for_update(5, Some(now + 1), now);
    assert_eq!((muted.next_delay(), muted.next_delay(), muted.next_delay()), (Some(500), Some(1500), None));
    let mut other = Hunt::for_update(5, Some(now), now);
    assert_eq!((other.next_delay(), other.next_delay()), (Some(500), None));
}

#[test]
fn bans_by_others_are_recorded() {
    let crow = full();
    let found = Attribution::of(entry(1, 8, 5, Vec::new()), Some("mod".to_owned()));
    let row = crow.guild_ban_addition(1, &user(5, "spam"), Some(found)).unwrap();
    assert_eq!((row.action.as_str(), row.guild_id.as_str()), ("ban", "1"));
    assert_eq!(row.target_id.as_deref(), Some("5"));
    assert_eq!(row.executor_id.as_deref(), Some("8"));
    assert_eq!(row.executor_name.as_deref(), Some("mod"));
    assert_eq!(row.reason.as_deref(), Some("r"));
    let nobody = crow.guild_ban_removal(1, &user(5, "spam"), None).unwrap();
    assert_eq!((nobody.action.as_str(), nobody.executor_id), ("unban", None));
}

#[test]
fn the_crows_own_acts_are_not_recorded_twice() {
    let crow = full();
    for own in [99, 90] {
        let found = Attribution::of(entry(1, own, 5, Vec::new()), None);
        assert!(crow.is_crow_executor(&found));
        assert!(crow.guild_ban_addition(1, &user(5, "spam"), Some(found)).is_none());
        let kick = Attribution::of(entry(1, own, 5, Vec::new()), None);
        assert!(matches!(crow.guild_member_removal(1, &user(5, "spam"), Some(kick)), Departure::Ignore));
    }
    assert!(!crow.is_crow_executor(&Attribution::nobody()));
    assert!(crow.guild_ban_addition(2, &user(5, "spam"), None).is_none(), "moderation is for the home guild");
}

#[test]
fn arrivals_and_departures_are_told_apart() {
    let crow = full();
    let joined = crow.guild_member_addition(1, &user(175928847299117063, "new")).unwrap();
    assert_eq!(joined.action, "join");
    assert_eq!(joined.metadata.as_deref(), Some("{\"account_created\":\"2016-04-30T11:18:25.796Z\"}"));
    assert!(matches!(crow.guild_member_removal(1, &user(5, "x"), None), Departure::LookForBan));
    let kick = Attribution::of(entry(1, 8, 5, Vec::new()), None);
    match crow.guild_member_removal(1, &user(5, "x"), Some(kick)) {
        Departure::Record(row) => assert_eq!(row.action, "kick"),
        _ => panic!("a kick was lost"),
    }
    assert!(crow.guild_member_left(1, &user(5, "x"), true).is_none());
    assert_eq!(crow.guild_member_left(1, &user(5, "x"), false).unwrap().action, "leave");
}

#[test]
fn an_entry_counts_once() {
    let mut crow = full();
    let until = || {
        vec![AuditChange::CommunicationDisabledUntil {
            until: Some(Moment { unix: 200, text: "later".to_owned() }),
        }]
    };
    let found = Attribution::of(entry(41, 8, 5, until()), None);
    let row = crow.guild_member_update(1, &user(5, "x"), Some(found), 100).unwrap();
    assert_eq!((row.action.as_str(), row.metadata.as_deref()), ("timeout", Some("{\"until\":\"later\"}")));
    let again = Attribution::of(entry(41, 8, 5, until()), None);
    assert!(crow.guild_member_update(1, &user(5, "x"), Some(again), 100).is_none());
    let lifted = Attribution::of(
        entry(42, 8, 5, vec![AuditChange::Other, AuditChange::CommunicationDisabledUntil { until: None }]),
        None,
    );
    let row = crow.guild_member_update(1, &user(5, "x"), Some(lifted), 100).unwrap();
    assert_eq!((row.action.as_str(), row.metadata), ("timeout_remove", None));
    let past = Attribution::of(entry(43, 8, 5, until()), None);
    assert_eq!(crow.guild_member_update(1, &user(5, "x"), Some(past), 200).unwrap().action, "timeout_remove");
    let nick = Attribution::of(entry(44, 8, 5, vec![AuditChange::Other]), None);
    assert!(crow.guild_member_update(1, &user(5, "x"), Some(nick), 100).is_none());
    assert!(crow.guild_member_update(1, &user(5, "x"), None, 100).is_none());
}

#[test]
fn the_memory_of_entries_is_bounded() {
    let mut crow = full();
    for id in 0..(SEEN_LIMIT as u64 + 1) {
        assert!(!crow.already_recorded(id));
    }
    assert_eq!(crow.seen_audit_entries.len(), SEEN_LIMIT);
    assert!(crow.already_recorded(1));
    assert!(!crow.already_recorded(0), "the oldest was forgotten");
}

#[test]
fn carried_messages_are_archived_and_mirrored() {
    let crow = full();
    let mut m = message("hi");
    m.mentions = vec![user(5, "a"), user(6, "b")];
    assert!(crow.mirrors(&m));
    let kept = crow.archives(&m).unwrap();
    assert_eq!((kept.guild_id.as_deref(), kept.channel_id.as_str()), (Some("1"), "60"));
    assert_eq!(kept.mention_ids, ["5", "6"]);
    assert_eq!(kept.rendered.content, "hi");
    m.guild_id = Some(3);
    assert!(!crow.mirrors(&m) && crow.archives(&m).is_none());
    m.guild_id = None;
    assert!(!crow.mirrors(&m) && crow.archives(&m).is_none());
}

#[test]
fn calls_reach_the_inbox() {
    let crow = full();
    let call = crow.message(&message("hey KOMA!")).unwrap();
    assert_eq!(call.matched, "koma");
    assert_eq!(call.link, "https://discord.com/channels/1/60/70");
    let mut pinged = message("you there, Koma?");
    pinged.mentions = vec![user(99, "kurou")];
    assert_eq!(crow.message(&pinged).unwrap().matched, "mention,koma");
    assert!(crow.message(&message("nothing here")).is_none());
    let mut own = message("koma");
    own.author.id = 99;
    assert!(crow.message(&own).is_none());
    let mut away = message("koma");
    away.guild_id = Some(2);
    assert!(crow.message(&away).is_none());
}

#[test]
fn words_and_links_are_spelled_out() {
    assert_eq!(normalize_keywords(vec![" ÄB ".to_owned(), "".to_owned(), "c".to_owned()]), ["äb", "c"]);
    assert_eq!(match_words(true, "a b c", &vec!["c".to_owned(), "x".to_owned()]), ["mention", "c"]);
    assert_eq!(link(None, 2, 3), "https://discord.com/channels/@me/2/3");
}
