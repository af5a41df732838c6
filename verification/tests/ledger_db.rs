use kurou::ledger::Ledger;
use kurou::layout::LayoutStore;
use kurou::mentions::{MentionStore, NewMention};
use kurou::modlog::{
    build_embed, ModAction, ModlogFilter, ModlogStore, NewModAction, Notifier, Original, Source,
};
use kurou::scheduler::{due_expiries, expire, is_already_gone, is_ripe, ExpiryError};
use kurou::server::tools::modlog::render_times;
use kurou::sql::{changed_any, SqlValue, Statement};
use rusqlite::types::Value;
use rusqlite::{Connection, OptionalExtension};

fn values(statement: &Statement) -> Vec<Value> {
    statement
        .params
        .iter()
        .map(|p| match p {
            SqlValue::Null => Value::Null,
            SqlValue::Integer(n) => Value::Integer(*n),
            SqlValue::Text(s) => Value::Text(s.clone()),
        })
        .collect()
}

fn run(conn: &Connection, statement: &Statement) -> usize {
    conn.execute(&statement.sql, rusqlite::params_from_iter(values(statement))).unwrap()
}

fn open() -> (Connection, Ledger) {
    let conn = Connection::open_in_memory().unwrap();
    let ledger = Ledger::at(":memory:".to_owned());
    for sql in ledger.open(false) {
        conn.execute_batch(&sql).unwrap();
    }
    (conn, ledger)
}

fn record(conn: &Connection, store: &ModlogStore, source: Source, action: &NewModAction) -> i64 {
    run(conn, &store.record(source, action));
    conn.last_insert_rowid()
}

fn rows(conn: &Connection, statement: &Statement) -> Vec<ModAction> {
    let mut prepared = conn.prepare(&statement.sql).unwrap();
    let found = prepared
        .query_map(rusqlite::params_from_iter(values(statement)), |row| {
            Ok(ModAction {
                id: row.get(0)?,
                action: row.get(1)?,
                source: row.get(2)?,
                guild_id: row.get(3)?,
                target_id: row.get(4)?,
                target_name: row.get(5)?,
                channel_id: row.get(6)?,
                executor_id: row.get(7)?,
                executor_name: row.get(8)?,
                reason: row.get(9)?,
                intent: row.get(10)?,
                metadata: row.get(11)?,
                expires_at: row.get(12)?,
                reverted_by: row.get(13)?,
                created_at: row.get(14)?,
            })
        })
        .unwrap();
    found.map(|row| row.unwrap()).collect()
}

fn revert(
    conn: &Connection,
    store: &ModlogStore,
    id: i64,
    expected: &str,
    action: NewModAction,
) -> Result<i64, String> {
    let look = store.look_up(id);
    let found = conn
        .query_row(&look.sql, rusqlite::params_from_iter(values(&look)), |row| {
            Ok(Original {
                action: row.get(0)?,
                reverted_by: row.get(1)?,
                target_id: row.get(2)?,
                target_name: row.get(3)?,
            })
        })
        .optional()
        .unwrap();
    let (statement, _) = store.revert(id, expected, Source::Crow, action, found).map_err(|e| e.message())?;
    run(conn, &statement);
    let reversal = conn.last_insert_rowid();
    run(conn, &store.mark_reverted(reversal, id));
    Ok(reversal)
}

fn ban(target: &str) -> NewModAction {
    NewModAction {
        action: "ban".to_owned(),
        guild_id: "guild".to_owned(),
        target_id: Some(target.to_owned()),
        target_name: Some("scammer".to_owned()),
        executor_id: Some("kurone".to_owned()),
        executor_name: Some("kurone".to_owned()),
        reason: Some("crypto spam".to_owned()),
        ..Default::default()
    }
}

fn sample(id: &str) -> NewMention {
    NewMention {
        message_id: id.to_owned(),
        guild_id: Some("guild".to_owned()),
        channel_id: "channel".to_owned(),
        author_id: "author".to_owned(),
        author_name: "kurone".to_owned(),
        author_display_name: None,
        content: "koma look at this".to_owned(),
        matched: "koma".to_owned(),
        timestamp: "2026-07-01T00:00:00Z".to_owned(),
        link: "https://discord.com/x".to_owned(),
    }
}

fn inbox(conn: &Connection, store: &MentionStore, include_seen: bool) -> Vec<(i64, String, bool)> {
    let statement = store.list(include_seen, 20);
    let mut prepared = conn.prepare(&statement.sql).unwrap();
    let found = prepared
        .query_map(rusqlite::params_from_iter(values(&statement)), |row| {
            Ok((row.get::<_, i64>(0)?, row.get::<_, String>(1)?, row.get::<_, i64>(11)? != 0))
        })
        .unwrap();
    found.map(|row| row.unwrap()).collect()
}

#[test]
fn mention_inbox_roundtrip() {
    let (conn, ledger) = open();
    let store = ledger.mentions();
    assert!(changed_any(run(&conn, &store.insert(&sample("1")))));
    assert!(changed_any(run(&conn, &store.insert(&sample("2")))));
    assert!(!changed_any(run(&conn, &store.insert(&sample("1")))), "unique message_id dedups");

    let unseen = inbox(&conn, &store, false);
    assert_eq!(unseen.len(), 2);
    assert_eq!(unseen[0].1, "2", "newest first");
    assert!(unseen.iter().all(|mention| !mention.2));

    let marked: usize = store.mark_seen(&Some(vec![unseen[0].0])).iter().map(|s| run(&conn, s)).sum();
    assert_eq!(marked, 1);
    assert_eq!(inbox(&conn, &store, false).len(), 1);
    assert_eq!(inbox(&conn, &store, true).len(), 2);
    let rest: usize = store.mark_seen(&None).iter().map(|s| run(&conn, s)).sum();
    assert_eq!(rest, 1);
    assert!(inbox(&conn, &store, false).is_empty());
}

#[test]
fn modlog_roundtrip_and_filters() {
    let (conn, ledger) = open();
    let store = ledger.modlog();
    let first = record(&conn, &store, Source::Observed, &ban("100"));
    let warn = NewModAction {
        action: "warn".to_owned(),
        guild_id: "guild".to_owned(),
        target_id: Some("100".to_owned()),
        executor_id: Some("koma".to_owned()),
        intent: Some("koma: second strike for link spam".to_owned()),
        ..Default::default()
    };
    let second = record(&conn, &store, Source::Crow, &warn);
    record(&conn, &store, Source::Observed, &ban("200"));
    assert!(second > first);

    let all = rows(&conn, &store.query(&ModlogFilter::default(), 50));
    assert_eq!(all.len(), 3);
    assert_eq!(all[0].target_id.as_deref(), Some("200"), "newest first");

    let about = ModlogFilter { target_id: Some("100".to_owned()), ..Default::default() };
    let history = rows(&conn, &store.query(&about, 50));
    assert_eq!(history.len(), 2, "observed and crow rows interleave");
    assert_eq!(history[0].source, "crow");
    assert_eq!(history[1].source, "observed");

    let crow = ModlogFilter { source: Some("crow".to_owned()), ..Default::default() };
    let crow_only = rows(&conn, &store.query(&crow, 50));
    assert_eq!(crow_only.len(), 1);
    assert_eq!(crow_only[0].intent.as_deref(), Some("koma: second strike for link spam"));

    let bans = ModlogFilter { action: Some("ban".to_owned()), ..Default::default() };
    assert_eq!(rows(&conn, &store.query(&bans, 1)).len(), 1, "limit applies");

    let both = ModlogFilter { action: Some("ban".to_owned()), target_id: Some("200".to_owned()), ..Default::default() };
    assert_eq!(rows(&conn, &store.query(&both, 50)).len(), 1);
    let never = ModlogFilter { until: Some("1999-01-01 23:59:59".to_owned()), ..Default::default() };
    assert!(rows(&conn, &store.query(&never, 50)).is_empty());
    let always = ModlogFilter { since: Some("1999-01-01".to_owned()), ..Default::default() };
    assert_eq!(rows(&conn, &store.query(&always, 50)).len(), 3);

    let count = store.count_active("ban", "100");
    let counted: i64 =
        conn.query_row(&count.sql, rusqlite::params_from_iter(values(&count)), |row| row.get(0)).unwrap();
    assert_eq!(counted, 1);
}

#[test]
fn revert_links_rows_and_refuses_nonsense() {
    let (conn, ledger) = open();
    let store = ledger.modlog();
    let warn = NewModAction {
        action: "warn".to_owned(),
        guild_id: "guild".to_owned(),
        target_id: Some("100".to_owned()),
        target_name: Some("brat".to_owned()),
        reason: Some("link spam".to_owned()),
        ..Default::default()
    };
    let warn_id = record(&conn, &store, Source::Crow, &warn);
    let revocation =
        NewModAction { action: "warn_revoke".to_owned(), guild_id: "guild".to_owned(), ..Default::default() };

    let missing = revert(&conn, &store, 999, "warn", revocation.clone()).unwrap_err();
    assert_eq!(missing, "ledger row 999 does not exist");
    let wrong_kind = revert(&conn, &store, warn_id, "ban", revocation.clone()).unwrap_err();
    assert_eq!(wrong_kind, format!("ledger row {warn_id} is a 'warn', not a 'ban'"));

    let latest = store.latest_unreverted("warn", "100");
    let open_warn: Option<i64> = conn
        .query_row(&latest.sql, rusqlite::params_from_iter(values(&latest)), |row| row.get(0))
        .optional()
        .unwrap();
    assert_eq!(open_warn, Some(warn_id));

    let reversal_id = revert(&conn, &store, warn_id, "warn", revocation.clone()).unwrap();
    let about = ModlogFilter { target_id: Some("100".to_owned()), ..Default::default() };
    let found = rows(&conn, &store.query(&about, 10));
    assert_eq!(found.len(), 2, "reversal inherits the original's target");
    assert_eq!(found[0].action, "warn_revoke");
    assert_eq!(found[0].target_name.as_deref(), Some("brat"));
    assert_eq!(found[1].reverted_by, Some(reversal_id));

    let twice = revert(&conn, &store, warn_id, "warn", revocation).unwrap_err();
    assert_eq!(twice, format!("ledger row {warn_id} was already reverted by row {reversal_id}"));
    let none: Option<i64> = conn
        .query_row(&latest.sql, rusqlite::params_from_iter(values(&latest)), |row| row.get(0))
        .optional()
        .unwrap();
    assert_eq!(none, None);
}

fn tempban(expires_at: Option<String>) -> NewModAction {
    NewModAction {
        action: "ban".to_owned(),
        guild_id: "guild".to_owned(),
        target_id: Some("100".to_owned()),
        expires_at,
        ..Default::default()
    }
}

#[test]
fn due_expiries_returns_only_ripe_unreverted_tempbans() {
    let (conn, ledger) = open();
    let store = ledger.modlog();
    let now = serenity::model::Timestamp::now().unix_timestamp();
    let stamp = |secs: i64| serenity::model::Timestamp::from_unix_timestamp(secs).unwrap().to_string();
    let ripe = record(&conn, &store, Source::Crow, &tempban(Some(stamp(now - 60))));
    record(&conn, &store, Source::Crow, &tempban(Some(stamp(now + 3600))));
    record(&conn, &store, Source::Crow, &tempban(None));
    record(&conn, &store, Source::Crow, &tempban(Some("garbage".to_owned())));

    let due = due_expiries(rows(&conn, &store.pending_expiries()), now);
    assert_eq!(due.len(), 1, "only the past-due tempban is ripe");
    assert_eq!(due[0].id, ripe);

    let reversal = NewModAction { action: "unban".to_owned(), guild_id: "guild".to_owned(), ..Default::default() };
    revert(&conn, &store, ripe, "ban", reversal).unwrap();
    assert!(due_expiries(rows(&conn, &store.pending_expiries()), now).is_empty(), "reverted rows leave the worklist");
}

fn row(guild: &str, target: Option<&str>) -> ModAction {
    ModAction {
        id: 12,
        action: "ban".to_owned(),
        source: "crow".to_owned(),
        guild_id: guild.to_owned(),
        target_id: target.map(str::to_owned),
        target_name: None,
        channel_id: None,
        executor_id: None,
        executor_name: None,
        reason: None,
        intent: None,
        metadata: None,
        expires_at: Some("2026-09-07T04:15:18Z".to_owned()),
        reverted_by: None,
        created_at: "2026-09-07 04:15:18".to_owned(),
    }
}

#[test]
fn an_expiry_unbans_and_says_why() {
    let plan = match expire(&row("5", Some("6"))) {
        Ok(plan) => plan,
        Err(e) => panic!("{}", e.message()),
    };
    assert_eq!((plan.guild, plan.target), (5, 6));
    assert_eq!(plan.reason, "tempban expired (ledger row 12)");
    assert_eq!(plan.reversal.action, "unban");
    assert_eq!(plan.reversal.guild_id, "5");
    assert_eq!(plan.reversal.executor_name.as_deref(), Some("kurou"));
    assert_eq!(plan.reversal.intent.as_deref(), Some("scheduler: tempban from ledger row 12 expired"));
    assert_eq!(plan.reversal.target_id, None);
    let bad_guild = expire(&row("x", Some("6"))).err().unwrap();
    assert_eq!(bad_guild, ExpiryError::MalformedGuild);
    assert_eq!(bad_guild.message(), "ledger row has a malformed guild id");
    let no_target = expire(&row("5", None)).err().unwrap();
    assert_eq!(no_target.message(), "ledger row has no usable target id");
    assert!(is_already_gone(Some(404)));
    assert!(!is_already_gone(Some(403)));
    assert!(!is_already_gone(None));
    assert!(is_ripe(Some(5), 5) && !is_ripe(Some(6), 5) && !is_ripe(None, 5));
}

#[test]
fn rows_are_shown_on_the_house_clock() {
    let shown = render_times(vec![row("5", None)]);
    assert_eq!(shown[0].created_at, "2026-09-07T11:15:18+07:00");
    assert_eq!(shown[0].expires_at.as_deref(), Some("2026-09-07T11:15:18+07:00"));
    assert_eq!(shown[0].id, 12);
}

#[test]
fn layouts_replace_each_other() {
    let (conn, ledger) = open();
    let store: LayoutStore = ledger.layout();
    let read = |conn: &Connection| -> Option<String> {
        let get = store.get();
        conn.query_row(&get.sql, [], |row| row.get(0)).optional().unwrap()
    };
    assert_eq!(read(&conn), None);
    assert_eq!(kurou::wall::get_layout(read(&conn)), "{\"panels\":[]}");
    run(&conn, &kurou::wall::put_layout(&store, "{\"panels\":[1]}").ok().unwrap());
    run(&conn, &kurou::wall::put_layout(&store, "[2]").ok().unwrap());
    assert_eq!(kurou::wall::get_layout(read(&conn)), "[2]");
    assert_eq!(kurou::wall::put_layout(&store, "not json").err().unwrap(), "layout body must be json");
}

#[test]
fn announcements_tell_the_row() {
    let mut action = ban("100");
    action.metadata = Some("{}".to_owned());
    action.channel_id = Some("9".to_owned());
    action.intent = Some("why".to_owned());
    let embed = build_embed(Source::Crow, &action, 7, Some(3));
    assert_eq!(embed.title, "🔨 ban");
    assert_eq!(embed.color, 0xd83c3e);
    assert_eq!(embed.footer, "ledger #7 · by the crow's hand");
    let fields: Vec<(String, String, bool)> =
        embed.fields.into_iter().map(|f| (f.name, f.value, f.short)).collect();
    let field = |a: &str, b: &str, c: bool| (a.to_owned(), b.to_owned(), c);
    assert_eq!(
        fields,
        vec![
            field("target", "scammer (<@100>)", true),
            field("executor", "kurone", true),
            field("channel", "<#9>", true),
            field("reason", "crypto spam", false),
            field("intent", "why", false),
            field("details", "`{}`", false),
            field("reverts", "ledger #3", true),
        ]
    );
    let seen = build_embed(Source::Observed, &NewModAction { action: "leave".to_owned(), ..Default::default() }, 8, None);
    assert_eq!(seen.title, "🐦‍⬛ leave");
    assert_eq!(seen.footer, "ledger #8 · witnessed");
    assert!(seen.fields.is_empty());
}

#[test]
fn comings_and_goings_are_not_announced() {
    let notifier = Notifier { channel: 1 };
    for (action, told) in [("join", false), ("leave", false), ("ban", true), ("unlock", true)] {
        let row = NewModAction { action: action.to_owned(), ..Default::default() };
        assert_eq!(notifier.post(Source::Observed, &row, 1, None).is_some(), told, "{action}");
    }
    let store = ModlogStore::new("p".to_owned()).with_notifier(Some(notifier));
    assert_eq!(store.notifier.unwrap().channel, 1);
    assert_eq!(Source::Crow.as_str(), "crow");
    assert_eq!(Source::Observed.as_str(), "observed");
}

#[test]
fn opening_builds_the_index_only_where_it_was_missing() {
    let ledger = Ledger::at("p".to_owned());
    assert_eq!(ledger.open(true).len() + 1, ledger.open(false).len());
    assert!(ledger.open(false).last().unwrap().contains("rebuild"));
    assert_eq!(ledger.open(true)[0], "pragma journal_mode = 'wal'");
    let adding = "alter table messages add column deleted_at text";
    assert!(Ledger::is_harmless(adding, "duplicate column name: deleted_at"));
    assert!(!Ledger::is_harmless(adding, "disk I/O error"));
    assert!(!Ledger::is_harmless(kurou::mentions::SCHEMA, "duplicate column name: seen"));
}

#[test]
fn mentions_are_marked_once_and_counted() {
    let (conn, ledger) = open();
    let store = ledger.mentions();
    for id in ["1", "2", "3"] {
        run(&conn, &store.insert(&sample(id)));
    }
    let mark = |ids: Option<Vec<i64>>| -> usize { store.mark_seen(&ids).iter().map(|s| run(&conn, s)).sum() };
    let ids: Vec<i64> = inbox(&conn, &store, false).iter().map(|row| row.0).collect();
    assert!(ids[0] > ids[1] && ids[1] > ids[2], "newest first");
    assert_eq!(mark(Some(vec![ids[2], ids[2], 999])), 1);
    assert_eq!(mark(Some(vec![ids[2], ids[2], 999])), 0);
    let left: Vec<i64> = inbox(&conn, &store, false).iter().map(|row| row.0).collect();
    assert_eq!(left, ids[..2]);
    assert_eq!(mark(None), 2);
    assert_eq!(mark(None), 0);
    assert_eq!(inbox(&conn, &store, true).len(), 3);
}

#[test]
fn an_undoing_row_has_the_greatest_number() {
    let (conn, ledger) = open();
    let store = ledger.modlog();
    let first = record(&conn, &store, Source::Crow, &ban("100"));
    let second = record(&conn, &store, Source::Observed, &ban("200"));
    let unban = NewModAction { action: "unban".to_owned(), guild_id: "guild".to_owned(), ..Default::default() };
    let reversal = revert(&conn, &store, first, "ban", unban).unwrap();
    assert!(reversal > first && reversal > second);
    let found = rows(&conn, &store.query(&ModlogFilter::default(), 2));
    assert_eq!(found.iter().map(|row| row.id).collect::<Vec<_>>(), [reversal, second]);
    assert_eq!(found[1].reverted_by, None);
}
