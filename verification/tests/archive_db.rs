use kurou::archive::{
    fts_query, like_pattern, mention_haystack, ArchiveError, MessageHit, MessageStore, NewMessage, ScanQuery,
};
use kurou::config::GatewayMode;
use kurou::discord::types::RenderedMessage;
use kurou::discord::wire::{Message, MessageType, User};
use kurou::gateway::{GatewayConfig, Handler};
use kurou::ledger::Ledger;
use kurou::server::tools::scan::{archive_query, RestSweep, ScanChannelRequest};
use kurou::sql::{changed_any, SqlValue, Statement};
use rusqlite::types::Value;
use rusqlite::Connection;

fn values(statement: &Statement) -> Vec<Value> {
    statement
        .params
        .iter()
        .map(|p| match p {
            SqlValue::Null => Value::Null,
            SqlValue::Integer(n) => Value::Integer(*n),
            SqlValue::Text(s) => Value::Text(s.clone()),
        })
        .collect()
}

fn open() -> (Connection, Ledger, MessageStore) {
    let conn = Connection::open_in_memory().unwrap();
    let ledger = Ledger::at(":memory:".to_owned());
    open_ledger(&conn, &ledger);
    let store = ledger.archive();
    (conn, ledger, store)
}

fn open_ledger(conn: &Connection, ledger: &Ledger) {
    let fts = conn.prepare(kurou::ledger::FTS_EXISTS).unwrap().exists([]).unwrap();
    for sql in ledger.open(fts) {
        if let Err(error) = conn.execute_batch(&sql) {
            assert!(Ledger::is_harmless(&sql, &error.to_string()), "{error}");
        }
    }
}

fn message(id: &str, channel: &str, author: &str, content: &str, mentions: &[&str]) -> NewMessage {
    NewMessage {
        rendered: RenderedMessage {
            id: id.to_owned(),
            author_id: author.to_owned(),
            author_name: format!("name-{author}"),
            author_display: None,
            timestamp: "2026-07-01T00:00:00Z".to_owned(),
            edited_timestamp: None,
            kind: None,
            reply: None,
            forwarded: None,
            poll: None,
            reactions: Vec::new(),
            attachments: Vec::new(),
            stickers: Vec::new(),
            embeds: Vec::new(),
            content: content.to_owned(),
        },
        guild_id: Some(format!("guild-{channel}")),
        channel_id: channel.to_owned(),
        mention_ids: mentions.iter().map(|id| (*id).to_owned()).collect(),
    }
}

fn insert(conn: &Connection, store: &MessageStore, m: NewMessage) -> bool {
    let payload = m.rendered.id.clone();
    let statement = match store.insert(&m, &payload) {
        Ok(statement) => statement,
        Err(error) => panic!("{}", error.message()),
    };
    changed_any(conn.execute(&statement.sql, rusqlite::params_from_iter(values(&statement))).unwrap())
}

fn search(conn: &Connection, store: &MessageStore, query: &str, limit: u8) -> Vec<MessageHit> {
    let statement = match store.search(query, limit) {
        Ok(statement) => statement,
        Err(error) => panic!("{}", error.message()),
    };
    let mut prepared = conn.prepare(&statement.sql).unwrap();
    let rows = prepared
        .query_map(rusqlite::params_from_iter(values(&statement)), |row| {
            Ok(MessageHit::from_row(
                row.get(0)?,
                row.get(1)?,
                row.get(2)?,
                row.get(3)?,
                row.get(4)?,
                row.get(5)?,
                row.get(6)?,
            ))
        })
        .unwrap();
    rows.map(|row| row.unwrap()).collect()
}

fn scan(conn: &Connection, store: &MessageStore, query: &ScanQuery) -> (Vec<String>, Option<i64>) {
    let statement = store.scan(query);
    let mut prepared = conn.prepare(&statement.sql).unwrap();
    let rows = prepared
        .query_map(rusqlite::params_from_iter(values(&statement)), |row| row.get::<_, String>(0))
        .unwrap();
    let matches = rows.map(|row| row.unwrap()).collect();
    let floor = store.floor(&query.channel_id);
    let floor = conn
        .query_row(&floor.sql, rusqlite::params_from_iter(values(&floor)), |row| row.get::<_, Option<i64>>(0))
        .unwrap();
    (matches, floor)
}

fn in_channel(channel: &str, limit: u16) -> ScanQuery {
    ScanQuery { channel_id: channel.to_owned(), limit, ..Default::default() }
}

#[test]
fn archive_scan_filters_and_covers() {
    let (conn, _, store) = open();
    assert!(insert(&conn, &store, message("100", "chan", "koma", "the crow keeps a database", &["55"])));
    assert!(insert(&conn, &store, message("200", "chan", "kurone", "the cat sleeps", &["55", "66"])));
    assert!(insert(&conn, &store, message("300", "chan", "koma", "database again, newer", &[])));
    assert!(!insert(&conn, &store, message("100", "chan", "koma", "dupe", &[])));

    let text = scan(&conn, &store, &ScanQuery { text: Some("database".to_owned()), ..in_channel("chan", 50) });
    assert_eq!(text.0, ["300", "100"]);
    assert_eq!(text.1, Some(100));

    let by_author = scan(&conn, &store, &ScanQuery { author_ids: vec!["koma".to_owned()], ..in_channel("chan", 50) });
    assert_eq!(by_author.0.len(), 2);

    let by_mention = scan(&conn, &store, &ScanQuery { mention_ids: vec!["66".to_owned()], ..in_channel("chan", 50) });
    assert_eq!(by_mention.0, ["200"]);

    let ranged = scan(&conn, &store, &ScanQuery { before: Some(300), after: Some(100), ..in_channel("chan", 50) });
    assert_eq!(ranged.0, ["200"]);
}

#[test]
fn archive_insert_survives_reopen() {
    let (conn, ledger, store) = open();
    insert(&conn, &store, message("100", "chan", "koma", "first boot, fresh db", &[]));
    insert(&conn, &store, message("200", "chan", "koma", "still first boot", &[]));
    open_ledger(&conn, &ledger);
    insert(&conn, &store, message("300", "chan", "koma", "second boot, reopened db", &[]));
    assert_eq!(search(&conn, &store, "reopened", 10).len(), 1);
    assert_eq!(search(&conn, &store, "first", 10).len(), 2);
}

#[test]
fn reopen_preserves_preexisting_rows() {
    let (conn, ledger, store) = open();
    insert(&conn, &store, message("101", "chan", "crow", "kept across reopening", &[]));
    open_ledger(&conn, &ledger);
    let hits = search(&conn, &store, "kept", 10);
    assert_eq!(hits.len(), 1);
    assert_eq!(hits[0].message_id, "101");
}

#[test]
fn fts_prefix_search_and_backfill() {
    let (conn, _, store) = open();
    insert(&conn, &store, message("100", "chan", "koma", "the crow keeps a database", &[]));
    insert(&conn, &store, message("200", "chan", "kurone", "unrelated chatter", &[]));
    let hits = search(&conn, &store, "data", 10);
    assert_eq!(hits.len(), 1);
    assert_eq!(hits[0].message_id, "100");
    assert_eq!(search(&conn, &store, "crow database", 10).len(), 1);
    assert_eq!(search(&conn, &store, "crow chatter", 10).len(), 0);
    assert_eq!(search(&conn, &store, "\"quoted\" AND (weird", 10).len(), 0);
}

#[test]
fn backfill_indexes_rows_from_the_turso_era() {
    let (conn, ledger, store) = open();
    insert(&conn, &store, message("100", "chan", "koma", "written before the index existed", &[]));
    conn.execute_batch(
        "drop trigger msg_fts_ai; drop trigger msg_fts_ad; drop trigger msg_fts_au; drop table msg_fts;",
    )
    .unwrap();
    open_ledger(&conn, &ledger);
    assert_eq!(search(&conn, &store, "index", 10).len(), 1);
}

#[test]
fn non_numeric_message_id_is_an_error_without_a_panicking_task() {
    let store = MessageStore::new("x".to_owned());
    let error = store.insert(&message("not-a-number", "chan", "crow", "invalid snowflake", &[]), "").err().unwrap();
    assert_eq!(error.message(), "message id 'not-a-number' is not a snowflake");
    assert!(matches!(error, ArchiveError::NotASnowflake { .. }));
}

#[test]
fn duplicate_id_does_not_overwrite_the_original_message() {
    let (conn, _, store) = open();
    assert!(insert(&conn, &store, message("101", "chan", "original", "first immutable text", &[])));
    assert!(!insert(&conn, &store, message("101", "other", "intruder", "replacement text", &["55"])));
    let hits = search(&conn, &store, "immutable", 10);
    assert_eq!(hits.len(), 1);
    assert_eq!(hits[0].channel_id, "chan");
    assert_eq!(hits[0].author_id, "original");
    assert_eq!(hits[0].content, "first immutable text");
    assert!(search(&conn, &store, "replacement", 10).is_empty());
}

#[test]
fn search_is_ascii_case_insensitive() {
    let (conn, _, store) = open();
    insert(&conn, &store, message("101", "chan", "crow", "DaTaBaSe CROW", &[]));
    assert_eq!(search(&conn, &store, "database crow", 10).len(), 1);
    assert_eq!(search(&conn, &store, "DATABASE CROW", 10).len(), 1);
}

#[test]
fn search_treats_operator_words_as_literals_and_accepts_punctuation_only_queries() {
    let (conn, _, store) = open();
    insert(&conn, &store, message("101", "chan", "crow", "alpha beta", &[]));
    insert(&conn, &store, message("202", "chan", "crow", "alpha OR beta", &[]));
    let literal: Vec<String> =
        search(&conn, &store, "alpha OR beta", 10).into_iter().map(|hit| hit.message_id).collect();
    assert_eq!(literal, ["202"]);
    for query in ["*", "-", "\"", "()", ":", "^", "NEAR(", "foo:", "{bar}"] {
        search(&conn, &store, query, 10);
    }
}

#[test]
fn empty_and_whitespace_only_searches_error_cleanly() {
    let store = MessageStore::new("x".to_owned());
    for query in ["", " \t\n "] {
        let error = store.search(query, 10).err().unwrap();
        assert_eq!(error.message(), "search query is empty");
    }
}

#[test]
fn search_orders_by_descending_id_and_honors_limit() {
    let (conn, _, store) = open();
    for id in ["200", "100", "400", "300"] {
        insert(&conn, &store, message(id, "chan", "crow", "shared searchable token", &[]));
    }
    let ids: Vec<String> = search(&conn, &store, "search", 2).into_iter().map(|hit| hit.message_id).collect();
    assert_eq!(ids, ["400", "300"]);
}

#[test]
fn search_hit_contains_every_stored_projection_field() {
    let (conn, _, store) = open();
    let mut original = message("101", "channel-7", "author-8", "projection needle", &[]);
    original.guild_id = Some("guild-9".to_owned());
    original.rendered.author_name = "The Crow".to_owned();
    original.rendered.timestamp = "2026-08-09T10:11:12.000Z".to_owned();
    insert(&conn, &store, original);
    let hits = search(&conn, &store, "needle", 10);
    assert_eq!(hits.len(), 1);
    let hit = &hits[0];
    assert_eq!(hit.message_id, "101");
    assert_eq!(hit.guild_id.as_deref(), Some("guild-9"));
    assert_eq!(hit.channel_id, "channel-7");
    assert_eq!(hit.author_id, "author-8");
    assert_eq!(hit.author_name, "The Crow");
    assert_eq!(hit.content, "projection needle");
    assert_eq!(hit.timestamp, "2026-08-09T10:11:12.000Z");
}

#[test]
fn scan_never_leaks_other_channels_and_floor_ignores_filters() {
    let (conn, _, store) = open();
    insert(&conn, &store, message("100", "wanted", "other-author", "old floor", &[]));
    insert(&conn, &store, message("200", "wanted", "selected", "visible", &[]));
    insert(&conn, &store, message("50", "foreign", "selected", "must not leak", &[]));
    let (matches, floor) =
        scan(&conn, &store, &ScanQuery { author_ids: vec!["selected".to_owned()], ..in_channel("wanted", 10) });
    assert_eq!(matches, ["200"]);
    assert_eq!(floor, Some(100));
}

#[test]
fn scan_author_filter_matches_any_listed_id() {
    let (conn, _, store) = open();
    insert(&conn, &store, message("100", "chan", "a", "one", &[]));
    insert(&conn, &store, message("200", "chan", "b", "two", &[]));
    insert(&conn, &store, message("300", "chan", "c", "three", &[]));
    let (matches, _) = scan(
        &conn,
        &store,
        &ScanQuery { author_ids: vec!["a".to_owned(), "b".to_owned()], ..in_channel("chan", 10) },
    );
    assert_eq!(matches, ["200", "100"]);
}

#[test]
fn scan_mention_filter_matches_any_listed_exact_id() {
    let (conn, _, store) = open();
    insert(&conn, &store, message("100", "chan", "crow", "only substring", &["55"]));
    insert(&conn, &store, message("200", "chan", "crow", "first exact", &["5"]));
    insert(&conn, &store, message("300", "chan", "crow", "second exact", &["77"]));
    insert(&conn, &store, message("400", "chan", "crow", "unmentioned", &[]));
    let (matches, _) = scan(
        &conn,
        &store,
        &ScanQuery { mention_ids: vec!["5".to_owned(), "77".to_owned()], ..in_channel("chan", 10) },
    );
    assert_eq!(matches, ["300", "200"]);
}

#[test]
fn scan_text_is_ascii_case_insensitive() {
    let (conn, _, store) = open();
    insert(&conn, &store, message("101", "chan", "crow", "Mixed CASE Needle", &[]));
    let (matches, _) =
        scan(&conn, &store, &ScanQuery { text: Some("case needle".to_owned()), ..in_channel("chan", 10) });
    assert_eq!(matches, ["101"]);
}

#[test]
fn scan_text_treats_like_wildcards_as_literal_text() {
    let (conn, _, store) = open();
    insert(&conn, &store, message("100", "chan", "crow", "ordinary prose", &[]));
    insert(&conn, &store, message("200", "chan", "crow", "100% ready", &[]));
    insert(&conn, &store, message("300", "chan", "crow", "under_score", &[]));
    let percent = scan(&conn, &store, &ScanQuery { text: Some("%".to_owned()), ..in_channel("chan", 10) });
    let underscore = scan(&conn, &store, &ScanQuery { text: Some("_".to_owned()), ..in_channel("chan", 10) });
    assert_eq!((percent.0, underscore.0), (vec!["200".to_owned()], vec!["300".to_owned()]));
}

#[test]
fn a_backslash_is_text_like_any_other() {
    let (conn, _, store) = open();
    insert(&conn, &store, message("300", "chan", "crow", "under_score", &[]));
    insert(&conn, &store, message("400", "chan", "crow", "back\\slash", &[]));
    let (matches, _) = scan(&conn, &store, &ScanQuery { text: Some("\\".to_owned()), ..in_channel("chan", 10) });
    assert_eq!(matches, ["400"]);
}

#[test]
fn scan_orders_by_descending_id_and_honors_limit() {
    let (conn, _, store) = open();
    for id in ["200", "100", "400", "300"] {
        insert(&conn, &store, message(id, "chan", "crow", "row", &[]));
    }
    let (matches, _) = scan(&conn, &store, &in_channel("chan", 2));
    assert_eq!(matches, ["400", "300"]);
}

#[test]
fn scan_floor_is_none_for_a_channel_without_rows() {
    let (conn, _, store) = open();
    insert(&conn, &store, message("101", "occupied", "crow", "elsewhere", &[]));
    let (matches, floor) = scan(&conn, &store, &in_channel("empty", 10));
    assert!(matches.is_empty());
    assert_eq!(floor, None);
}

#[test]
fn scan_numbers_its_placeholders_on() {
    let store = MessageStore::new("x".to_owned());
    let statement = store.scan(&ScanQuery {
        channel_id: "9".to_owned(),
        author_ids: vec!["1".to_owned(), "2".to_owned()],
        mention_ids: vec!["3".to_owned(), "4".to_owned()],
        text: Some("t".to_owned()),
        before: Some(50),
        after: Some(40),
        limit: 7,
    });
    assert_eq!(
        statement.sql,
        "select payload from messages where channel_id = ?1 and message_id < ?2 and message_id > ?3 \
         and author_id in (?4, ?5) and (mention_ids like '%' || ?6 || '%' or mention_ids like '%' || ?7 || '%') \
         and content like ?8 escape '\\' order by message_id desc limit ?9"
    );
    assert_eq!(statement.params.len(), 9);
    assert!(matches!(&statement.params[5], SqlValue::Text(s) if s == " 3 "));
    assert!(matches!(&statement.params[7], SqlValue::Text(s) if s == "%t%"));
    assert!(matches!(&statement.params[8], SqlValue::Integer(7)));
}

#[test]
fn patterns_and_haystacks_are_spelled_out() {
    assert_eq!(like_pattern("a%b_c\\"), "%a\\%b\\_c\\\\%");
    assert_eq!(mention_haystack(&vec!["1".to_owned(), "22".to_owned()]), " 1 22 ");
    assert_eq!(mention_haystack(&Vec::new()), "");
    assert_eq!(fts_query("koma data\"base").ok().unwrap(), "\"koma\"* \"data\"\"base\"*");
}

#[test]
fn a_hit_keeps_its_number() {
    let hit = MessageHit::from_row(-7, None, String::new(), String::new(), String::new(), String::new(), String::new());
    assert_eq!(hit.message_id, "-7");
}

fn on_the_wire(id: u64, author: u64, mentioned: &[u64]) -> Message {
    let user = |id: u64| User { id, name: format!("u{id}"), global_name: None };
    Message {
        id,
        channel_id: 60,
        guild_id: Some(1),
        author: user(author),
        member: None,
        mentions: mentioned.iter().copied().map(user).collect(),
        timestamp: "t".to_owned(),
        edited_timestamp: None,
        kind: MessageType::Regular,
        message_reference: None,
        referenced_message: None,
        message_snapshots: Vec::new(),
        poll: None,
        reactions: Vec::new(),
        attachments: Vec::new(),
        sticker_items: Vec::new(),
        embeds: Vec::new(),
        content: "x".to_owned(),
    }
}

#[test]
fn the_archive_and_the_wire_answer_alike() {
    let (conn, ledger, store) = open();
    let handler = Handler::new(
        GatewayConfig {
            mode: GatewayMode::Off,
            default_guild: Some(1),
            secondary_guilds: Vec::new(),
            mention_keywords: Vec::new(),
            mention_store: None,
            archive: Some(ledger.archive()),
            modlog: None,
            crow_bot_ids: Vec::new(),
            fanout: false,
            broadcast_guilds: vec![1],
            wake: None,
            wake_dm_from: Vec::new(),
            presence: false,
        },
        99,
    );
    let page = || {
        vec![
            on_the_wire(50, 7, &[5]),
            on_the_wire(49, 7, &[15]),
            on_the_wire(48, 70, &[5]),
            on_the_wire(47, 7, &[8, 5]),
            on_the_wire(46, 7, &[5]),
        ]
    };
    for m in page() {
        let kept = match handler.archives(&m) {
            Some(kept) => kept,
            None => panic!("{} is not kept", m.id),
        };
        assert!(insert(&conn, &store, kept));
    }
    let listed = |id: &str| Some(vec![id.to_owned()]);
    let asked = |text: Option<&str>| ScanChannelRequest {
        channel_id: "60".to_owned(),
        author_ids: listed("007"),
        mention_ids: listed(" 5"),
        text: text.map(str::to_owned),
        source: None,
        max_pages: None,
        limit: None,
        before: None,
        after: Some("46".to_owned()),
    };
    let req = asked(None);
    let (kept, _) = scan(&conn, &store, &archive_query(60, &req).ok().unwrap());
    let mut sweep = RestSweep::begin(&req).ok().unwrap();
    sweep.take_page(page());
    let read: Vec<String> = sweep.matches.iter().map(|m| m.id.to_string()).collect();
    assert_eq!(kept, ["50", "47"]);
    assert_eq!(kept, read);
    for (text, found) in [("X", 2), ("xx", 0), ("%", 0)] {
        let req = asked(Some(text));
        let (kept, _) = scan(&conn, &store, &archive_query(60, &req).ok().unwrap());
        let mut sweep = RestSweep::begin(&req).ok().unwrap();
        sweep.take_page(page());
        let read: Vec<String> = sweep.matches.iter().map(|m| m.id.to_string()).collect();
        assert_eq!(kept.len(), found, "{text}");
        assert_eq!(kept, read, "{text}");
    }
}
