use kurou::archive::ArchiveScan;
use kurou::assoc::Assoc;
use kurou::discord::client::AttachmentSource;
use kurou::discord::types::RenderedMessage;
use kurou::discord::wire::{ChannelType, GuildChannel, Member, Message, MessageType, ReactionType, User};
use kurou::ledger::Ledger;
use kurou::server::tools::archive::SearchMessagesRequest;
use kurou::server::tools::channels::{expression, kind_matches, list_channels};
use kurou::server::tools::common::{
    account_to_ask, authors_to_look_up, caller_identity, enrich_display_names, member_display, parse_channel,
    resolve_guild, Caller,
};
use kurou::server::tools::hands::{
    after_failed_revert, ban_row, ban_terms, delete_row, nickname_row, role_row, timeout_row, timeout_terms, unrecorded,
    user_row, warn_row, BanUserRequest, DeleteMessageRequest, Retirement, RoleRequest, SetNicknameRequest,
    TimeoutUserRequest, UserActionRequest, WarnUserRequest,
};
use kurou::server::tools::info::server_entry;
use kurou::server::tools::mentions::{guard_koma_only, CheckMentionsRequest, MarkMentionsSeenRequest};
use kurou::server::tools::messages::{
    build_anchor, get_message, read_messages, read_reply, Anchor, GetMessageRequest, ReadMessagesRequest,
};
use kurou::server::tools::modlog::{ledger_filter, CheckLedgerRequest, UserHistoryRequest};
use kurou::server::tools::presence::{may_steer, OnlineStatus, PresenceRequest};
use kurou::server::tools::raid::{
    invite_row, lock_overwrite, lock_row, purge_count, purge_plan, purge_row, slowmode_row, slowmode_seconds,
    snapshots, DeleteInviteRequest, Overwrite, OverwriteKind, PurgePlan, SEND_MESSAGES,
};
use kurou::server::tools::reaction::{emoji_label, parse_emoji, ReactionRequest};
use kurou::server::tools::removal::{Removal, RemovalStep};
use kurou::server::tools::scan::{
    archive_query, archive_reply, canonical_ids, parse_id_set, parse_source, reads_archive, render_rest, RestSweep,
    ScanChannelRequest, Source,
};
use kurou::server::tools::send::{
    parse_sticker_ids, resolve_attachments, validate_content, validate_url, InlineAttachment, Recipient,
    SendMessageRequest,
};
use kurou::server::tools::typing::TypingRequest;
use kurou::server::tools::users::{get_user_id_by_name, user_cards, GetUserIdByNameRequest};
use kurou::server::{KurouServer, Observer, Probe, Voice};
use kurou::sql::SqlValue;
use kurou::uploads::UploadStore;

fn named(identity: &str) -> Caller {
    Caller::Http { identity: Some(identity.to_owned()) }
}

fn texts(items: &[&str]) -> Vec<String> {
    items.iter().map(|item| item.to_string()).collect()
}

fn user(id: u64, name: &str) -> User {
    User { id, name: name.to_owned(), global_name: None }
}

fn message(id: u64, author: u64, content: &str) -> Message {
    Message {
        id,
        channel_id: 60,
        guild_id: Some(1),
        author: user(author, "miyo"),
        member: None,
        mentions: Vec::new(),
        timestamp: "t".to_owned(),
        edited_timestamp: None,
        kind: MessageType::Regular,
        message_reference: None,
        referenced_message: None,
        message_snapshots: Vec::new(),
        poll: None,
        reactions: Vec::new(),
        attachments: Vec::new(),
        sticker_items: Vec::new(),
        embeds: Vec::new(),
        content: content.to_owned(),
    }
}

fn crow() -> KurouServer {
    let ledger = Ledger::at("p".to_owned());
    KurouServer::new(
        Some(Observer { guilds: vec![4] }),
        Some(1),
        Some(ledger.mentions()),
        Some(ledger.archive()),
        Some(ledger.modlog()),
        texts(&["mecha"]),
    )
    .with_secondary_guilds(vec![2])
    .with_wake_dm_from(vec![33])
    .with_presence(true)
}

fn bare() -> KurouServer {
    KurouServer::new(None, None, None, None, None, Vec::new())
}

#[test]
fn caller_identity_reads_the_bearer_label_and_defaults_to_koma_only_on_stdio() {
    assert_eq!(caller_identity(&named("mecha")).unwrap(), "mecha");
    assert_eq!(caller_identity(&Caller::Stdio).unwrap(), "koma");
    let refusal = caller_identity(&Caller::Http { identity: None }).unwrap_err();
    assert!(refusal.contains("AUTH_TOKENS"));
}

#[test]
fn the_inbox_answers_only_to_koma() {
    assert!(guard_koma_only(&Caller::Stdio).is_ok());
    assert!(guard_koma_only(&named("koma")).is_ok());
    let refusal = guard_koma_only(&named("mecha")).unwrap_err();
    assert!(refusal.contains("no letters here"));
    assert!(refusal.contains("'mecha'"));
}

#[test]
fn filters_channel_kinds() {
    assert!(kind_matches(&ChannelType::Text, None));
    assert!(kind_matches(&ChannelType::News, None));
    assert!(kind_matches(&ChannelType::Forum, None));
    assert!(!kind_matches(&ChannelType::Voice, None));
    assert!(kind_matches(&ChannelType::Voice, Some("all")));
    assert!(kind_matches(&ChannelType::Stage, Some(" voice, STAGE ")));
    assert!(!kind_matches(&ChannelType::Text, Some("Voice,Unknown")));
}

#[test]
fn sticker_ids_are_bounded_and_parsed() {
    let parsed = parse_sticker_ids(&Some(texts(&[" 123 ", "456"]))).unwrap();
    assert_eq!(parsed, [123, 456]);
    assert!(parse_sticker_ids(&Some(texts(&["1", "2", "3", "4"]))).unwrap_err().contains("allows 3"));
    assert!(parse_sticker_ids(&Some(texts(&["rabbit"]))).unwrap_err().contains("not a valid sticker snowflake id"));
}

#[test]
fn stickers_can_travel_alone_or_mixed() {
    assert!(validate_content("", 0, 1).is_ok());
    assert!(validate_content("hello", 1, 3).is_ok());
    assert!(validate_content("", 0, 0).unwrap_err().contains("needs content"));
}

#[test]
fn content_is_counted_in_characters() {
    assert!(validate_content(&"烏".repeat(2000), 0, 0).is_ok());
    assert_eq!(
        validate_content(&"烏".repeat(2001), 0, 0).unwrap_err(),
        "message content is 2001 characters; Discord's limit is 2000"
    );
}

#[test]
fn guilds_resolve_within_the_allowlist() {
    assert_eq!(resolve_guild(Some(" 7 ".to_owned()), None, &Vec::new()), Ok(7));
    assert_eq!(resolve_guild(None, Some(1), &vec![4]), Ok(1));
    assert_eq!(resolve_guild(Some("4".to_owned()), Some(1), &vec![4]), Ok(4));
    assert_eq!(
        resolve_guild(Some("5".to_owned()), Some(1), &vec![4]),
        Err("guild 5 is not in the read allowlist (primary + READONLY_GUILDS)".to_owned())
    );
    assert_eq!(
        resolve_guild(None, None, &Vec::new()),
        Err("no guild_id given and DISCORD_GUILD_ID is not set".to_owned())
    );
    assert_eq!(parse_channel("x y"), Err("'x y' is not a valid snowflake id".to_owned()));
}

fn rendered(author: &str) -> RenderedMessage {
    let mut shown = RenderedMessage::from(&message(5, 7, "hi"));
    shown.author_id = author.to_owned();
    shown.author_display = Some("old".to_owned());
    shown
}

#[test]
fn the_crow_reads_its_own_guilds_only() {
    let crow = crow();
    for guild in [1, 2, 4] {
        assert_eq!(crow.guild_asked(Some(guild.to_string())), Ok(guild));
    }
    assert_eq!(crow.guild_asked(None), Ok(1));
    assert_eq!(
        crow.guild_asked(Some("5".to_owned())),
        Err("guild 5 is not in the read allowlist (primary + READONLY_GUILDS)".to_owned())
    );
    assert_eq!(bare().guild_asked(Some("5".to_owned())), Ok(5));
    assert!(bare().guild_asked(None).is_err());
}

#[test]
fn names_are_looked_up_once_per_author() {
    let all = vec![rendered("7"), rendered("8"), rendered("7")];
    assert_eq!(authors_to_look_up(&all), ["7", "8"]);
    let mut found: Assoc<String, Option<String>> = Assoc::new();
    found.insert("7".to_owned(), Some("Seven".to_owned()));
    found.insert("8".to_owned(), None);
    let shown: Vec<Option<String>> =
        enrich_display_names(all, &found).into_iter().map(|m| m.author_display).collect();
    assert_eq!(shown, [Some("Seven".to_owned()), Some("old".to_owned()), Some("Seven".to_owned())]);
}

#[test]
fn members_are_named_as_the_room_names_them() {
    assert_eq!(account_to_ask("7"), Some(7));
    assert_eq!(account_to_ask("seven"), None);
    let member = |nick: Option<&str>| Member { user: user(7, "miyo"), nick: nick.map(str::to_owned) };
    assert_eq!(member_display(&member(Some("Mi"))).as_deref(), Some("Mi"));
    assert_eq!(member_display(&member(Some("miyo"))), None);
    assert_eq!(member_display(&member(None)), None);
}

#[test]
fn anchors_exclude_each_other() {
    let one = |s: &str| Some(s.to_owned());
    assert!(matches!(build_anchor(&one("5"), &None, &None), Ok(Some(Anchor::Around(5)))));
    assert!(matches!(build_anchor(&None, &one("5"), &None), Ok(Some(Anchor::Before(5)))));
    assert!(matches!(build_anchor(&None, &None, &one(" 5")), Ok(Some(Anchor::After(5)))));
    assert!(matches!(build_anchor(&None, &None, &None), Ok(None)));
    let told = |r: Result<Option<Anchor>, String>| r.err().unwrap();
    assert_eq!(told(build_anchor(&one("5"), &None, &one("x"))), "only one of around/before/after may be set");
    assert_eq!(told(build_anchor(&one("x"), &None, &one("5"))), "'x' is not a valid snowflake id");
    let plan = read_messages(&ReadMessagesRequest {
        channel_id: "9".to_owned(),
        limit: Some(200),
        around: None,
        before: None,
        after: None,
    })
    .ok()
    .unwrap();
    assert_eq!((plan.channel, plan.limit), (9, 100));
    let single = GetMessageRequest { channel_id: "9".to_owned(), message_id: "8".to_owned() };
    assert_eq!(get_message(&single), Ok((9, 8)));
    assert_eq!(read_reply(&Vec::new(), "(no messages)"), "(no messages)");
    assert!(read_reply(&vec![message(5, 7, "hi")], "(none)").ends_with("hi\n"));
}

fn scan_request() -> ScanChannelRequest {
    ScanChannelRequest {
        channel_id: "60".to_owned(),
        author_ids: None,
        mention_ids: None,
        text: None,
        source: None,
        max_pages: None,
        limit: None,
        before: None,
        after: None,
    }
}

#[test]
fn sources_are_named() {
    assert_eq!(parse_source(None), Ok(Source::Auto));
    assert_eq!(parse_source(Some("  ")), Ok(Source::Auto));
    assert_eq!(parse_source(Some(" ARCHIVE ")), Ok(Source::Archive));
    assert_eq!(parse_source(Some("Rest")), Ok(Source::Rest));
    assert_eq!(
        parse_source(Some(" Attic")),
        Err("source must be auto, archive, or rest (got 'attic')".to_owned())
    );
    assert_eq!(reads_archive(Source::Auto, true), Ok(true));
    assert_eq!(reads_archive(Source::Auto, false), Ok(false));
    assert_eq!(reads_archive(Source::Rest, true), Ok(false));
    assert_eq!(
        reads_archive(Source::Archive, false),
        Err("message archive is disabled; set ARCHIVE=true or use source=rest".to_owned())
    );
}

#[test]
fn ids_are_canonical_and_distinct() {
    assert_eq!(parse_id_set(&Some(texts(&[" 7", "007", "8"]))), Ok(vec![7, 8]));
    assert_eq!(canonical_ids(&Some(texts(&["007"]))), Ok(texts(&["7"])));
    assert_eq!(canonical_ids(&None), Ok(Vec::new()));
    assert_eq!(canonical_ids(&Some(texts(&["7", " x "]))), Err("' x ' is not a valid snowflake id".to_owned()));
    let mut req = scan_request();
    req.limit = Some(9999);
    req.before = Some("50".to_owned());
    let query = archive_query(60, &req).ok().unwrap();
    assert_eq!((query.channel_id.as_str(), query.before, query.after, query.limit), ("60", Some(50), None, 500));
}

#[test]
fn archive_scans_report_their_floor() {
    let empty = ArchiveScan { matches: Vec::new(), floor: None };
    assert_eq!(
        archive_reply(&empty),
        "[scan] source=archive matches=0 archive_floor=none (older than the floor is only in source=rest)\n(no matches)"
    );
    let full = ArchiveScan { matches: vec![RenderedMessage::from(&message(5, 7, "hi"))], floor: Some(5) };
    assert!(archive_reply(&full).starts_with(
        "[scan] source=archive matches=1 archive_floor=5 (older than the floor is only in source=rest)\n\n[id=5,"
    ));
}

#[test]
fn a_sweep_filters_and_stops_at_its_floor() {
    let mut req = scan_request();
    req.author_ids = Some(texts(&["7"]));
    req.text = Some("CROW".to_owned());
    req.after = Some("10".to_owned());
    let mut sweep = RestSweep::begin(&req).ok().unwrap();
    assert_eq!((sweep.max_pages, sweep.cursor), (10, None));
    sweep.take_page(vec![message(30, 7, "a Crow"), message(29, 8, "crow"), message(28, 7, "cat")]);
    assert_eq!((sweep.cursor, sweep.done, sweep.pages, sweep.scanned), (Some(28), false, 1, 3));
    sweep.take_page(vec![message(20, 7, "crow"), message(10, 7, "crow"), message(9, 7, "crow")]);
    assert!(sweep.done && !sweep.reached_cap);
    assert_eq!((sweep.scanned, sweep.oldest, sweep.matches.len()), (4, Some(20), 2));
    assert!(render_rest(&sweep).starts_with(
        "[scan] source=rest scanned=4 pages=2 reached_cap=false oldest_scanned_id=20 matches=2\n\n[id=30,"
    ));
}

#[test]
fn a_sweep_is_resumed_where_it_stopped() {
    let pages = || {
        vec![
            vec![message(30, 7, "crow"), message(29, 7, "cat")],
            vec![message(28, 7, "crow"), message(27, 7, "crow")],
        ]
    };
    let mut req = scan_request();
    req.text = Some("crow".to_owned());
    req.max_pages = Some(1);
    let mut first = RestSweep::begin(&req).ok().unwrap();
    first.take_page(pages().remove(0));
    assert!(first.reached_cap && first.done);
    req.before = first.oldest.map(|id| id.to_string());
    let mut second = RestSweep::begin(&req).ok().unwrap();
    assert_eq!(second.cursor, Some(29));
    second.take_page(pages().remove(1));
    let mut ids: Vec<u64> = first.matches.iter().map(|m| m.id).collect();
    ids.extend(second.matches.iter().map(|m| m.id));
    let mut whole_req = scan_request();
    whole_req.text = Some("crow".to_owned());
    let mut whole = RestSweep::begin(&whole_req).ok().unwrap();
    for page in pages() {
        whole.take_page(page);
    }
    assert_eq!(ids, whole.matches.iter().map(|m| m.id).collect::<Vec<_>>());
    whole.take_page(Vec::new());
    assert!(whole.done && !whole.reached_cap);
    let mut quiet = RestSweep::begin(&scan_request()).ok().unwrap();
    quiet.take_page(Vec::new());
    assert_eq!(
        render_rest(&quiet),
        "[scan] source=rest scanned=0 pages=0 reached_cap=false oldest_scanned_id=none matches=0\n(no matches)"
    );
}

#[test]
fn a_sweep_goes_as_far_as_it_may() {
    let history: Vec<u64> = (1..=250).rev().collect();
    let sweep_all = |max_pages: Option<u8>, after: Option<&str>, before: Option<&str>| {
        let mut req = scan_request();
        req.max_pages = max_pages;
        req.after = after.map(str::to_owned);
        req.before = before.map(str::to_owned);
        let mut sweep = RestSweep::begin(&req).ok().unwrap();
        let mut fetches = 0;
        while !sweep.done {
            let cursor = sweep.cursor;
            let page = history.iter().filter(|id| cursor.map_or(true, |anchor| **id < anchor)).take(100);
            sweep.take_page(page.map(|id| message(*id, 7, "x")).collect());
            fetches += 1;
        }
        (sweep.scanned, sweep.oldest, sweep.reached_cap, fetches)
    };
    assert_eq!(sweep_all(Some(2), None, None), (200, Some(51), true, 2));
    assert_eq!(sweep_all(Some(3), None, None), (250, Some(1), true, 3));
    assert_eq!(sweep_all(None, None, None), (250, Some(1), false, 4));
    assert_eq!(sweep_all(Some(2), Some("120"), None), (130, Some(121), false, 2));
    assert_eq!(sweep_all(Some(2), Some("50"), None), (200, Some(51), true, 2));
    assert_eq!(sweep_all(Some(2), None, Some("51")), (50, Some(1), false, 2));
    assert_eq!(sweep_all(Some(1), None, Some("1")), (0, None, false, 1));
}

#[test]
fn mention_filters_match_any_listed_account() {
    let mut req = scan_request();
    req.mention_ids = Some(texts(&["5", "6"]));
    let mut sweep = RestSweep::begin(&req).ok().unwrap();
    let mut hit = message(3, 7, "x");
    hit.mentions = vec![user(9, "a"), user(6, "b")];
    sweep.take_page(vec![hit, message(2, 7, "x")]);
    assert_eq!(sweep.matches.len(), 1);
    assert!(sweep.filters.matches(&sweep.matches[0]));
}

#[test]
fn hands_are_owned_and_need_an_intent() {
    let crow = crow();
    let told = |r: Result<kurou::server::tools::hands::Hand, String>| r.err().unwrap();
    assert_eq!(
        told(crow.hand(&Caller::Stdio, " \n")),
        "intent must say who decided and why - an empty string is not a fingerprint"
    );
    let hand = crow.hand(&named("mecha"), "mother: raid").ok().unwrap();
    assert_eq!((hand.label.as_str(), hand.guild), ("mecha", 1));
    assert!(matches!(&hand.voice, Voice::Sender { label } if label == "mecha"));
    assert!(told(crow.hand(&named("pyonka"), "x")).contains("DISCORD_TOKEN_PYONKA"));
    assert!(told(crow.hand(&Caller::Http { identity: None }, "x")).contains("AUTH_TOKENS"));
    assert_eq!(
        told(bare().hand(&Caller::Stdio, "x")),
        "the mod ledger is closed: set MODLOG=true to arm the moderation layer"
    );
    let mut homeless = bare();
    homeless.modlog_store = Some(Ledger::at("p".to_owned()).modlog());
    assert_eq!(
        told(homeless.hand(&Caller::Stdio, "x")),
        "mod hands need DISCORD_GUILD_ID (the primary guild) configured"
    );
    let row = hand.row("ban", "why".to_owned(), Some(12));
    assert_eq!((row.action.as_str(), row.guild_id.as_str()), ("ban", "1"));
    assert_eq!(row.executor_id.as_deref(), Some("12"));
    assert_eq!(row.executor_name.as_deref(), Some("mecha"));
    assert_eq!(row.intent.as_deref(), Some("why"));
    assert_eq!(row.target_id, None);
}

#[test]
fn hands_stay_home() {
    let crow = crow();
    assert!(crow.guard_primary_channel(60, Probe::InGuild(1), "").is_ok());
    for probe in [Probe::InGuild(2), Probe::NoGuild] {
        assert_eq!(
            crow.guard_primary_channel(60, probe, "").unwrap_err(),
            "channel 60 is not in the primary guild; the crow's hands stay home"
        );
    }
    assert_eq!(
        crow.guard_primary_channel(60, Probe::Failed, "boom").unwrap_err(),
        "could not verify channel 60: boom"
    );
}

fn ban_request(hours: Option<u32>, days: Option<u8>) -> BanUserRequest {
    BanUserRequest {
        user_id: " 5 ".to_owned(),
        intent: "why".to_owned(),
        reason: Some("spam".to_owned()),
        delete_message_days: days,
        duration_hours: hours,
        dry_run: None,
    }
}

#[test]
fn bans_carry_their_terms() {
    let crow = crow();
    let aim = crow.aim(&Caller::Stdio, "why", " 5 ").ok().unwrap();
    assert_eq!(aim.target, 5);
    assert_eq!(
        crow.aim(&Caller::Stdio, "why", "five").err().unwrap(),
        "'five' is not a valid user snowflake id"
    );
    let temp = ban_request(Some(2), Some(9));
    let terms = ban_terms(&temp, 1_790_000_000).ok().unwrap();
    assert_eq!((terms.days, terms.expires_at.as_deref()), (7, Some("2026-09-21T16:13:20Z")));
    let row = ban_row(&aim, &temp, &terms, "spammer", Some(8));
    assert_eq!(row.metadata.as_deref(), Some("{\"delete_message_days\":7,\"duration_hours\":2}"));
    assert_eq!(row.expires_at.as_deref(), Some("2026-09-21T16:13:20Z"));
    assert_eq!((row.target_id.as_deref(), row.target_name.as_deref()), (Some("5"), Some("spammer")));
    assert_eq!((row.reason.as_deref(), row.intent.as_deref()), (Some("spam"), Some("why")));
    let forever = ban_request(None, None);
    let terms = ban_terms(&forever, 1_790_000_000).ok().unwrap();
    assert_eq!((terms.days, terms.expires_at.is_none()), (0, true));
    assert_eq!(ban_row(&aim, &forever, &terms, "s", None).metadata, None);
    let zero = ban_request(Some(0), None);
    let terms = ban_terms(&zero, 1_790_000_000).ok().unwrap();
    assert!(terms.expires_at.is_none());
    assert_eq!(
        ban_row(&aim, &zero, &terms, "s", None).metadata.as_deref(),
        Some("{\"delete_message_days\":0,\"duration_hours\":0}")
    );
    let days_only = ban_request(None, Some(1));
    let terms = ban_terms(&days_only, 1_790_000_000).ok().unwrap();
    assert_eq!(
        ban_row(&aim, &days_only, &terms, "s", None).metadata.as_deref(),
        Some("{\"delete_message_days\":1,\"duration_hours\":null}")
    );
}

#[test]
fn timeouts_are_bounded() {
    let crow = crow();
    let aim = crow.aim(&Caller::Stdio, "why", "5").ok().unwrap();
    let req = |minutes: u32| TimeoutUserRequest {
        user_id: "5".to_owned(),
        duration_minutes: minutes,
        intent: "why".to_owned(),
        reason: None,
    };
    assert_eq!(
        timeout_terms(&req(0), 0).err().unwrap(),
        "duration_minutes must be 1-40320; zero is not a timeout"
    );
    let terms = timeout_terms(&req(1), 1_790_000_000).ok().unwrap();
    assert_eq!((terms.minutes, terms.until_unix, terms.until.as_str()), (1, 1_790_000_060, "2026-09-21T14:14:20Z"));
    let row = timeout_row(&aim, &req(1), &terms, "x", None);
    assert_eq!(
        row.metadata.as_deref(),
        Some("{\"duration_minutes\":1,\"until\":\"2026-09-21T14:14:20Z\"}")
    );
    assert_eq!(timeout_terms(&req(50000), 0).ok().unwrap().minutes, 40320);
}

#[test]
fn rows_of_the_other_hands() {
    let crow = crow();
    let aim = crow.aim(&named("mecha"), "why", "5").ok().unwrap();
    let plain = UserActionRequest { user_id: "5".to_owned(), intent: "why".to_owned(), reason: None };
    let kick = user_row(&aim, "kick", &plain, "x", Some(3));
    assert_eq!((kick.action.as_str(), kick.target_id.as_deref(), kick.metadata), ("kick", Some("5"), None));
    let warn = |intent: Option<&str>| WarnUserRequest {
        user_id: "5".to_owned(),
        reason: "links".to_owned(),
        intent: intent.map(str::to_owned),
    };
    assert_eq!(warn_row(&aim, &warn(Some(" ")), "x", None).intent.as_deref(), Some("mecha: links"));
    assert_eq!(warn_row(&aim, &warn(Some("m")), "x", None).intent.as_deref(), Some("m"));
    assert_eq!(warn_row(&aim, &warn(None), "x", None).reason.as_deref(), Some("links"));
    let role = RoleRequest {
        user_id: "5".to_owned(),
        role_id: "77".to_owned(),
        intent: "why".to_owned(),
        reason: None,
    };
    let role_aim = crow.aim_role(&Caller::Stdio, &role).ok().unwrap();
    let row = role_row(&role_aim, "role_add", &role, None);
    assert_eq!((row.metadata.as_deref(), row.target_name), (Some("{\"role_id\":\"77\"}"), None));
    let mut bad = role;
    bad.role_id = "r".to_owned();
    assert_eq!(crow.aim_role(&Caller::Stdio, &bad).err().unwrap(), "'r' is not a valid role snowflake id");
    let nick = SetNicknameRequest {
        user_id: "5".to_owned(),
        nickname: "a\"b".to_owned(),
        intent: "why".to_owned(),
        reason: None,
    };
    assert_eq!(
        nickname_row(&aim, &nick, &None, "x", None).metadata.as_deref(),
        Some("{\"nickname\":\"a\\\"b\",\"previous\":null}")
    );
    let delete = DeleteMessageRequest {
        channel_id: "60".to_owned(),
        message_id: "70".to_owned(),
        intent: "why".to_owned(),
        reason: None,
    };
    let message_aim = crow.aim_message(&Caller::Stdio, &delete).ok().unwrap();
    let row = delete_row(&message_aim, &delete, 7, "miyo", "bad words", None);
    assert_eq!(row.metadata.as_deref(), Some("{\"content\":\"bad words\",\"message_id\":\"70\"}"));
    assert_eq!((row.channel_id.as_deref(), row.target_id.as_deref()), (Some("60"), Some("7")));
}

#[test]
fn failed_writes_say_what_happened() {
    assert!(matches!(
        after_failed_revert("unban", "ledger row 3 was already reverted by row 4"),
        Retirement::RecordAlone
    ));
    match after_failed_revert("unban", "disk full") {
        Retirement::Failed(told) => assert_eq!(
            told,
            "the unban WENT THROUGH but the ledger write failed - record it by hand: disk full"
        ),
        _ => panic!("a failed write was swallowed"),
    }
    assert_eq!(
        unrecorded("discord action", "disk full"),
        "the discord action WENT THROUGH but the ledger write failed - record it by hand: disk full"
    );
}

#[test]
fn locks_only_touch_sending() {
    let everyone = Overwrite { kind: OverwriteKind::Role(1), allow: SEND_MESSAGES | 1, deny: 4 };
    let others = vec![Overwrite { kind: OverwriteKind::Member(1), allow: 8, deny: 8 }, everyone];
    let locked = lock_overwrite(&others, 1, true);
    assert!(matches!(locked.kind, OverwriteKind::Role(1)));
    assert_eq!((locked.allow, locked.deny), (1, SEND_MESSAGES | 4));
    let unlocked = lock_overwrite(&vec![locked], 1, false);
    assert_eq!((unlocked.allow, unlocked.deny), (1, 4));
    let fresh = lock_overwrite(&Vec::new(), 1, true);
    assert_eq!((fresh.allow, fresh.deny), (0, SEND_MESSAGES));
}

#[test]
fn raid_rows_and_limits() {
    let crow = crow();
    let aim = crow.aim_channel(&Caller::Stdio, "why", "60").ok().unwrap();
    let row = lock_row(&aim, true, "why".to_owned(), None);
    assert_eq!((row.action.as_str(), row.channel_id.as_deref()), ("lock", Some("60")));
    assert_eq!(lock_row(&aim, false, "why".to_owned(), None).action, "unlock");
    assert_eq!((slowmode_seconds(30), slowmode_seconds(30000)), (30, 21600));
    assert_eq!(
        slowmode_row(&aim, 30, "why".to_owned(), None).metadata.as_deref(),
        Some("{\"seconds\":30}")
    );
    assert_eq!((purge_count(0), purge_count(40), purge_count(255)), (1, 40, 100));
    let invite = DeleteInviteRequest {
        code: " abc ".to_owned(),
        intent: "why".to_owned(),
        reason: Some("door".to_owned()),
    };
    let row = invite_row(&aim.hand, &invite, None);
    assert_eq!((row.metadata.as_deref(), row.reason.as_deref()), (Some("{\"code\":\"abc\"}"), Some("door")));
}

#[test]
fn purges_part_the_young_from_the_old() {
    let born = |unix: i64| (((unix - 1_420_070_400) as u64) * 1000) << 22;
    let now = 1_790_000_000;
    let young = born(now - 1_209_539);
    let old = born(now - 1_209_540);
    let messages = vec![message(young, 7, "a"), message(old, 8, "b")];
    let plan = purge_plan(&messages, now);
    assert_eq!((plan.young.clone(), plan.old.clone()), (vec![young], vec![old]));
    assert_eq!(purge_plan(&messages, i64::MIN).old, Vec::<u64>::new());
    let kept = snapshots(&messages);
    assert_eq!((kept[0].id.clone(), kept[0].author_id.as_str()), (young.to_string(), "7"));
    assert_eq!((kept[1].author.as_str(), kept[1].content.as_str()), ("miyo", "b"));
    let crow = crow();
    let aim = crow.aim_channel(&Caller::Stdio, "why", "60").ok().unwrap();
    let row = purge_row(&aim, &messages[..1].iter().map(|m| message(m.id, 7, "a")).collect(), "why".to_owned(), None);
    assert_eq!(
        row.metadata.unwrap(),
        format!("{{\"count\":1,\"messages\":[{{\"author\":\"miyo\",\"author_id\":\"7\",\"content\":\"a\",\"id\":\"{young}\"}}]}}")
    );
}

#[test]
fn the_row_is_written_before_anything_goes() {
    let mut removal = Removal::of_plan(&PurgePlan { young: vec![5, 6], old: vec![1, 2] });
    assert_eq!(removal.count(), 4);
    assert!(matches!(removal.next(), RemovalStep::WriteRow));
    removal.written(77);
    assert!(matches!(removal.next(), RemovalStep::DeleteBulk(ids) if ids == [5, 6]));
    removal.deleted();
    for id in [1, 2] {
        assert!(matches!(removal.next(), RemovalStep::DeleteOne(next) if next == id));
        removal.deleted();
    }
    assert!(matches!(removal.next(), RemovalStep::Done { ledger_id: 77 }));
    let mut single = Removal::of_one(9);
    assert!(matches!(single.next(), RemovalStep::WriteRow));
    single.written(78);
    assert!(matches!(single.next(), RemovalStep::DeleteOne(9)));
    single.deleted();
    assert!(matches!(single.next(), RemovalStep::Done { ledger_id: 78 }));
    let mut none = Removal::of_plan(&PurgePlan { young: Vec::new(), old: Vec::new() });
    assert!(matches!(none.next(), RemovalStep::WriteRow));
    none.written(79);
    assert!(matches!(none.next(), RemovalStep::Done { ledger_id: 79 }));
}

#[test]
fn the_voice_lands_in_writable_guilds_only() {
    let crow = crow();
    assert!(crow.must_guard() && !bare().must_guard());
    for guild in [1, 2] {
        assert!(crow.guard_send_target(60, Probe::InGuild(guild), Recipient::Unknown).is_ok());
    }
    for probe in [Probe::InGuild(4), Probe::Failed] {
        assert_eq!(
            crow.guard_send_target(60, probe, Recipient::Unknown).unwrap_err(),
            "refusing to send: channel 60 is not in a writable guild (PRIMARY_GUILD + SECONDARY_GUILDS); readonly guilds have no voice"
        );
    }
    assert!(crow.guard_send_target(60, Probe::NoGuild, Recipient::Account(33)).is_ok());
    for recipient in [Recipient::Account(34), Recipient::Unknown] {
        assert_eq!(
            crow.guard_send_target(60, Probe::NoGuild, recipient).unwrap_err(),
            "refusing to send: channel 60 is a DM outside WAKE_DM_FROM; the private wire only speaks to named recipients"
        );
    }
    assert!(bare().guard_send_target(60, Probe::Failed, Recipient::Unknown).is_ok());
}

#[test]
fn strangers_private_channels_are_not_read() {
    let crow = crow();
    let read = |probe: Probe, recipient: Recipient| crow.guard_read_target(70, probe, recipient);
    assert_eq!(read(Probe::InGuild(1), Recipient::Unknown), Ok(()));
    assert_eq!(read(Probe::InGuild(4), Recipient::Unknown), Ok(()));
    assert_eq!(read(Probe::Failed, Recipient::Unknown), Ok(()));
    assert_eq!(read(Probe::NoGuild, Recipient::Account(33)), Ok(()));
    let refusal = "refusing to read: channel 70 is a DM outside WAKE_DM_FROM; it does not exist to the crow";
    assert_eq!(read(Probe::NoGuild, Recipient::Account(34)), Err(refusal.to_owned()));
    assert_eq!(read(Probe::NoGuild, Recipient::Unknown), Err(refusal.to_owned()));
    assert_eq!(bare().guard_read_target(70, Probe::NoGuild, Recipient::Unknown), Ok(()));
    for recipient in [Recipient::Account(33), Recipient::Account(34), Recipient::Unknown] {
        assert_eq!(
            read(Probe::NoGuild, recipient).is_ok(),
            crow.guard_send_target(70, Probe::NoGuild, recipient).is_ok()
        );
    }
}

#[test]
fn attachment_links_are_web_links() {
    assert_eq!(validate_url(" HTTPS://Example.com/a b ").as_deref(), Ok("https://example.com/a%20b"));
    assert_eq!(
        validate_url("ftp://x/y").unwrap_err(),
        "attachment url scheme 'ftp' is not allowed; use http or https"
    );
    assert_eq!(
        validate_url(" nope ").unwrap_err(),
        "attachment url ' nope ' is invalid: relative URL without a base"
    );
}

#[test]
fn attachments_are_gathered_in_order() {
    let mut store = UploadStore::new(1000);
    store.put_as("r1".to_owned(), "f.png".to_owned(), vec![9], None, None, 0);
    let inline = |data: &str| {
        Some(vec![InlineAttachment { filename: "i.txt".to_owned(), data_base64: data.to_owned() }])
    };
    let sources = resolve_attachments(
        &mut store,
        &Some(texts(&["https://x/a"])),
        &Some(texts(&["r1"])),
        &inline(" aGk= "),
        5,
    )
    .ok()
    .unwrap();
    assert!(matches!(&sources[0], AttachmentSource::Url(url) if url == "https://x/a"));
    assert!(matches!(&sources[1], AttachmentSource::Bytes { filename, data } if filename == "f.png" && data == &[9]));
    assert!(matches!(&sources[2], AttachmentSource::Bytes { filename, data } if filename == "i.txt" && data == b"hi"));
    let mut told = |urls: Option<Vec<String>>, refs: Option<Vec<String>>, items: Option<Vec<InlineAttachment>>| {
        resolve_attachments(&mut store, &urls, &refs, &items, 5).err().unwrap()
    };
    assert_eq!(
        told(None, Some(texts(&["r1"])), None),
        "upload ref 'r1' is unknown or expired; re-run kurou-upload"
    );
    assert_eq!(
        told(None, None, inline("*")),
        "attachment 'i.txt' is not valid base64: Invalid symbol 42, offset 0."
    );
    assert_eq!(
        told(Some(vec!["https://x/".to_owned(); 11]), None, None),
        "11 attachments requested; Discord allows 10 per message"
    );
}

#[test]
fn a_file_is_sent_once() {
    let mut store = UploadStore::new(1000);
    store.put_as("r1".to_owned(), "f".to_owned(), vec![1], None, None, 0);
    store.put_as("r2".to_owned(), "g".to_owned(), vec![2], None, None, 0);
    let mut claim = |refs: &[&str]| resolve_attachments(&mut store, &None, &Some(texts(refs)), &None, 5);
    assert_eq!(
        claim(&["r1", "r1"]).err().unwrap(),
        "upload ref 'r1' is unknown or expired; re-run kurou-upload"
    );
    assert_eq!(claim(&["r2"]).ok().unwrap().len(), 1);
    assert!(claim(&["r2"]).is_err());
}

#[test]
fn sends_speak_with_the_callers_voice() {
    let crow = crow();
    let req = |reply: Option<&str>| SendMessageRequest {
        channel_id: " 60".to_owned(),
        content: "hi".to_owned(),
        sticker_ids: Some(texts(&["5"])),
        reply_to: reply.map(str::to_owned),
        attachment_urls: None,
        attachment_refs: None,
        attachments_inline: None,
    };
    let plan = crow.send_message(&named("mecha"), &req(Some("70"))).ok().unwrap();
    assert!(matches!(plan.voice, Voice::Sender { label } if label == "mecha"));
    assert_eq!((plan.channel, plan.stickers, plan.reply_to), (60, vec![5], Some(70)));
    assert!(matches!(crow.send_message(&Caller::Stdio, &req(None)).ok().unwrap().voice, Voice::Primary));
    assert!(crow.send_message(&named("pyonka"), &req(None)).is_err());
    assert_eq!(
        crow.send_message(&Caller::Stdio, &req(Some("x"))).err().unwrap(),
        "'x' is not a valid snowflake id"
    );
    let (voice, channel) =
        crow.typing(&Caller::Stdio, &TypingRequest { channel_id: "61".to_owned() }).ok().unwrap();
    assert!(matches!(voice, Voice::Primary));
    assert_eq!(channel, 61);
}

#[test]
fn emoji_are_held_as_they_come() {
    assert!(matches!(parse_emoji(" 🦀 ").ok().unwrap(), ReactionType::Unicode(e) if e == "🦀"));
    match parse_emoji("<a:wave:600404340292059257>").ok().unwrap() {
        ReactionType::Custom { animated, id, name } => {
            assert_eq!((animated, id, name.as_deref()), (true, 600404340292059257, Some("wave")))
        }
        ReactionType::Unicode(e) => panic!("{e}"),
    }
    assert_eq!(
        parse_emoji(" <:broken ").err().unwrap(),
        "' <:broken ' is not an emoji the crow can hold: unicode as-is, or custom as <:name:id>"
    );
    assert!(parse_emoji(" ").is_err());
    assert!(parse_emoji("<:zero:0>").is_err());
    for written in ["<:n:5>", "<a:n:5>", "<::5>", "<:<n>:18446744073709551615>"] {
        assert_eq!(emoji_label(&parse_emoji(written).ok().unwrap()), written);
    }
    let req = ReactionRequest { channel_id: "1".to_owned(), message_id: "2".to_owned(), emoji: "🦀".to_owned() };
    let plan = crow().reaction(&Caller::Stdio, &req).ok().unwrap();
    assert_eq!((plan.channel, plan.message), (1, 2));
}

#[test]
fn the_dot_answers_to_its_own_bot() {
    let crow = crow();
    let req = |status: &str| PresenceRequest { status: status.to_owned(), text: Some("  ".to_owned()) };
    let plan = crow.set_presence(&Caller::Stdio, &req("dnd")).ok().unwrap();
    assert_eq!((plan.status, plan.status.label(), plan.text), (OnlineStatus::DoNotDisturb, "donotdisturb", None));
    assert_eq!(
        crow.set_presence(&Caller::Stdio, &req("away")).err().unwrap(),
        "'away' is not a presence the dot knows: online, idle, dnd, invisible"
    );
    assert_eq!(
        bare().set_presence(&Caller::Stdio, &req("idle")).err().unwrap(),
        "the dot is not steerable here: no WAKE_URL, so presence stays the gateway's own"
    );
    assert_eq!(may_steer(Some(9), 9), Ok(()));
    assert_eq!(
        may_steer(Some(9), 8).unwrap_err(),
        "the dot belongs to the primary bot, and your voice is not it"
    );
    assert_eq!(may_steer(None, 8).unwrap_err(), "the gateway has not reached ready yet - no dot to steer");
}

#[test]
fn reads_of_the_ledger_are_limited() {
    let crow = crow();
    let search = crow
        .search_messages(&SearchMessagesRequest { query: "a b".to_owned(), limit: Some(0) })
        .ok()
        .unwrap();
    assert!(matches!(&search.params[0], SqlValue::Text(q) if q == "\"a\"* \"b\"*"));
    assert!(matches!(&search.params[1], SqlValue::Integer(1)));
    assert_eq!(
        crow.search_messages(&SearchMessagesRequest { query: " ".to_owned(), limit: None }).err().unwrap(),
        "search query is empty"
    );
    assert_eq!(
        bare().search_messages(&SearchMessagesRequest { query: "a".to_owned(), limit: None }).err().unwrap(),
        "message archive is disabled; set ARCHIVE=true"
    );
    let inbox = crow
        .check_mentions(&Caller::Stdio, &CheckMentionsRequest { include_seen: None, limit: None })
        .ok()
        .unwrap();
    assert!(inbox.sql.contains("seen = 0"));
    assert!(matches!(&inbox.params[0], SqlValue::Integer(20)));
    let marks = crow
        .mark_mentions_seen(&named("koma"), &MarkMentionsSeenRequest { ids: Some(vec![1, 2]) })
        .ok()
        .unwrap();
    assert_eq!(marks.len(), 2);
    assert!(crow
        .mark_mentions_seen(&named("mecha"), &MarkMentionsSeenRequest { ids: None })
        .is_err());
    assert_eq!(
        bare()
            .check_mentions(&Caller::Stdio, &CheckMentionsRequest { include_seen: None, limit: None })
            .err()
            .unwrap(),
        "mention inbox is disabled; set GATEWAY_MODE=mentions"
    );
    let history = crow
        .user_history(&UserHistoryRequest { user_id: "5".to_owned(), limit: None })
        .ok()
        .unwrap();
    assert!(history.sql.contains("where target_id = ?") && history.sql.contains("limit 50"));
}

#[test]
fn a_bare_date_covers_its_day() {
    let req = |until: &str| CheckLedgerRequest {
        target_id: None,
        executor_id: None,
        action: Some("ban".to_owned()),
        source: None,
        channel_id: None,
        since: Some("2026-09-01".to_owned()),
        until: Some(until.to_owned()),
        limit: Some(101),
    };
    assert_eq!(ledger_filter(&req("2026-09-07")).until.as_deref(), Some("2026-09-07 23:59:59"));
    assert_eq!(ledger_filter(&req("2026-09-07 10:00")).until.as_deref(), Some("2026-09-07 10:00"));
    assert_eq!(ledger_filter(&req("2026-09-07")).since.as_deref(), Some("2026-09-01"));
    let statement = crow().check_ledger(&req("2026-09-07")).ok().unwrap();
    assert!(statement.sql.contains("where action = ? and created_at >= ? and created_at <= ?"));
    assert!(statement.sql.contains("limit 100"));
}

#[test]
fn servers_wear_their_hats() {
    let listed: Vec<(u64, &str)> = crow().list_servers().iter().map(|t| (t.guild, t.role)).collect();
    assert_eq!(listed, [(1, "primary"), (2, "secondary"), (4, "readonly")]);
    let entry = server_entry(&crow().list_servers()[2], Some("n".to_owned()), Some(3));
    assert_eq!((entry.id.as_str(), entry.role, entry.member_count), ("4", "readonly", Some(3)));
    assert!(bare().list_servers().is_empty());
}

#[test]
fn directories_keep_the_asked_kinds() {
    let channel = |id: u64, kind: ChannelType| GuildChannel {
        id,
        guild_id: 1,
        name: format!("c{id}"),
        kind,
        topic: None,
        parent_id: None,
        position: 0,
    };
    let all = || vec![channel(1, ChannelType::Text), channel(2, ChannelType::Voice), channel(3, ChannelType::Forum)];
    let emoji = vec![expression("wave".to_owned(), 5)];
    let directory = list_channels(all(), emoji, Vec::new(), None);
    let ids: Vec<&str> = directory.channels.iter().map(|c| c.id.as_str()).collect();
    assert_eq!(ids, ["1", "3"]);
    assert_eq!((directory.emojis[0].name.as_str(), directory.emojis[0].id.as_str()), ("wave", "5"));
    assert!(directory.culture_hint.starts_with("Custom emojis"));
    let voice = list_channels(all(), Vec::new(), Vec::new(), Some("VOICE"));
    assert_eq!(voice.channels[0].kind, "Voice");
}

#[test]
fn members_are_found_by_name() {
    let ask = |name: &str, limit: Option<u64>| {
        get_user_id_by_name(&GetUserIdByNameRequest { guild_id: None, name: name.to_owned(), limit })
    };
    let query = ask(" mi ", Some(1000)).ok().unwrap();
    assert_eq!((query.query.as_str(), query.limit), ("mi", 100));
    assert_eq!(ask("mi", None).ok().unwrap().limit, 10);
    assert_eq!(ask("  ", None).err().unwrap(), "name cannot be empty");
    let cards = user_cards(vec![Member { user: user(5, "u"), nick: Some("N".to_owned()) }]);
    assert_eq!((cards[0].mention.as_str(), cards[0].display_name.as_str()), ("<@5>", "N"));
}
