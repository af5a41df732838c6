use kurou::auth::AuthConfig;
use kurou::config::{sender_tokens, Config, GatewayMode, TransportMode};
use kurou::ledger::Ledger;
use kurou::modlog::Notifier;
use kurou::numeral::{colour, hex, parse_i64, parse_u64};
use kurou::server::boot::{
    allowed_hosts, boot, build_modlog_notifier, build_observer, http_tenants, modlog_store, oauth_access,
    observer_gateway, parse_topology, parse_wake_dm_from, plan_pool, plan_server, primary_gateway, stdio_tenants,
};
use kurou::server::{KurouServer, Probe, Voice};
use kurou::wake::{channel_name, channel_to_look_up, named_sinks_from, KnownChannel, WakeSender};

fn vars(pairs: &[(&str, &str)]) -> Vec<(String, String)> {
    pairs.iter().map(|(key, value)| (key.to_string(), value.to_string())).collect()
}

fn config(args: &[&str]) -> Config {
    let mut config = Config {
        transport: TransportMode::Stdio,
        discord_token: None,
        primary_guild: None,
        discord_guild_id: None,
        secondary_guilds: Vec::new(),
        readonly_guilds: Vec::new(),
        readonly_discord_token: None,
        port: 3000,
        host: "127.0.0.1".to_owned(),
        allowed_hosts: Vec::new(),
        allowed_origins: Vec::new(),
        auth_tokens: Vec::new(),
        oauth_token_label: None,
        public_base_url: "http://127.0.0.1:3000".to_owned(),
        gateway_mode: GatewayMode::Off,
        wall: false,
        archive: false,
        modlog: false,
        modlog_channel: None,
        ledger_path: None,
        mention_keywords: vec!["koma".to_owned()],
        wake_url: None,
        wake_secret: None,
        wake_dm_from: Vec::new(),
    };
    for pair in args.chunks(2) {
        let listed = || pair[1].split(',').map(str::to_owned).collect::<Vec<_>>();
        match pair[0] {
            "--primary-guild" => config.primary_guild = Some(pair[1].to_owned()),
            "--discord-guild-id" => config.discord_guild_id = Some(pair[1].to_owned()),
            "--secondary-guild" => config.secondary_guilds = listed(),
            "--readonly-guild" => config.readonly_guilds = listed(),
            "--readonly-token" => config.readonly_discord_token = Some(pair[1].to_owned()),
            "--discord-token" => config.discord_token = Some(pair[1].to_owned()),
            other => panic!("{other}"),
        }
    }
    config
}

#[test]
fn hex_matches_the_perch_dialect() {
    assert_eq!(hex(&vec![0x00, 0xab, 0x0f]), "00ab0f");
}

#[test]
fn a_full_pair_grows_a_sink_named_after_its_suffix() {
    let sinks = named_sinks_from(&vars(&[
        ("WAKE_URL_PYONKA", "http://127.0.0.1:7858/wake"),
        ("WAKE_SECRET_PYONKA", "carrots"),
    ]));
    assert_eq!(sinks.len(), 1);
    assert_eq!(sinks[0].name, "pyonka");
    assert_eq!(sinks[0].keywords, vec!["pyonka"]);
}

#[test]
fn a_lone_url_or_secret_stays_off() {
    assert!(named_sinks_from(&vars(&[("WAKE_URL_PYONKA", "http://127.0.0.1:7858/wake")])).is_empty());
    assert!(named_sinks_from(&vars(&[("WAKE_SECRET_PYONKA", "carrots")])).is_empty());
}

#[test]
fn custom_keywords_replace_the_name_and_normalize() {
    let sinks = named_sinks_from(&vars(&[
        ("WAKE_URL_PYONKA", "http://127.0.0.1:7858/wake"),
        ("WAKE_SECRET_PYONKA", "carrots"),
        ("WAKE_KEYWORDS_PYONKA", " Pyonka, MIMI ,,"),
    ]));
    assert_eq!(sinks[0].keywords, vec!["pyonka", "mimi"]);
}

#[test]
fn the_bare_pair_and_unrelated_vars_grow_nothing() {
    let sinks = named_sinks_from(&vars(&[
        ("WAKE_URL", "http://127.0.0.1:7857/wake"),
        ("WAKE_SECRET", "seeds"),
        ("WAKE_DM_FROM", "1,2"),
    ]));
    assert!(sinks.is_empty());
}

#[test]
fn an_unbound_sink_keeps_matching_keywords() {
    let sinks = named_sinks_from(&vars(&[
        ("WAKE_URL_PYONKA", "http://127.0.0.1:7858/wake"),
        ("WAKE_SECRET_PYONKA", "carrots"),
    ]));
    assert_eq!(sinks[0].bot_id, None);
    assert_eq!(sinks[0].keywords, vec!["pyonka"]);
}

#[test]
fn a_bot_id_gives_the_sink_a_face() {
    let sinks = named_sinks_from(&vars(&[
        ("WAKE_URL_PYONKA", "http://127.0.0.1:7858/wake"),
        ("WAKE_SECRET_PYONKA", "carrots"),
        ("WAKE_BOT_ID_PYONKA", "424242"),
    ]));
    assert_eq!(sinks[0].bot_id, Some(424242));
}

#[test]
fn a_garbage_bot_id_leaves_the_sink_keyword_only() {
    for bad in ["carrots", "0", "-424242", "42.42"] {
        let sinks = named_sinks_from(&vars(&[
            ("WAKE_URL_PYONKA", "http://127.0.0.1:7858/wake"),
            ("WAKE_SECRET_PYONKA", "carrots"),
            ("WAKE_BOT_ID_PYONKA", bad),
        ]));
        assert_eq!(sinks[0].bot_id, None, "{bad} should not bind");
    }
}

#[test]
fn sinks_come_in_the_order_of_their_names() {
    let sinks = named_sinks_from(&vars(&[
        ("WAKE_URL_ZED", "http://z"),
        ("WAKE_SECRET_zed", " zs "),
        ("WAKE_SECRET_AB", "as"),
        ("WAKE_URL_AB", "http://a"),
        ("WAKE_URL_AB", "http://later"),
        ("WAKE_URL_", "http://nameless"),
        ("WAKE_SECRET_", "x"),
        ("WAKE_KEYWORDS_ZED", " , ,"),
        ("WAKE_URL_BLANK", "  "),
        ("WAKE_SECRET_BLANK", "y"),
    ]));
    let names: Vec<&str> = sinks.iter().map(|sink| sink.name.as_str()).collect();
    assert_eq!(names, ["ab", "zed"]);
    assert_eq!(sinks[0].sender.url, "http://later");
    assert_eq!(sinks[1].sender.secret, "zs");
    assert_eq!(sinks[1].keywords, ["zed"]);
}

#[test]
fn taps_are_signed() {
    let sender = WakeSender::from_config(Some(" http://p "), Some("Jefe")).unwrap();
    assert_eq!(sender.url, "http://p");
    assert_eq!(
        sender.sign(&b"what do ya want for nothing?".to_vec()),
        "5bdcc146bf60754e6a042426089575c75a003f089d2739839dec58b964ec3843"
    );
    assert!(WakeSender::from_config(Some("http://p"), Some("  ")).is_none());
    assert!(WakeSender::from_config(None, Some("s")).is_none());
    assert!(WakeSender::from_config(None, None).is_none());
}

#[test]
fn channels_are_named_where_they_are_known() {
    assert_eq!(channel_to_look_up("77"), Some(77));
    assert_eq!(channel_to_look_up("no"), None);
    assert_eq!(channel_name("77", Some(KnownChannel::Guild { name: "den".to_owned() })), "den");
    assert_eq!(channel_name("77", Some(KnownChannel::Private { recipient: "miyo".to_owned() })), "@miyo");
    assert_eq!(channel_name("77", Some(KnownChannel::Other)), "77");
    assert_eq!(channel_name("77", None), "77");
}

fn server(senders: &[&str]) -> KurouServer {
    KurouServer::new(None, None, None, None, None, senders.iter().map(|s| s.to_string()).collect())
}

#[test]
fn sender_resolution_follows_token_ownership() {
    let crow = server(&["mecha"]);
    assert!(crow.sender_for("koma").is_ok());
    assert!(crow.sender_for("mecha").is_ok());
    let refusal = crow.sender_for("pyonka").err().unwrap();
    assert!(refusal.contains("read-only"));
    assert!(refusal.contains("DISCORD_TOKEN_PYONKA"));
}

#[test]
fn topology_reads_primary_with_legacy_fallback() {
    let fresh = parse_topology(&config(&["--primary-guild", "111"])).ok().unwrap();
    assert_eq!(fresh.primary, Some(111));
    let legacy = parse_topology(&config(&["--discord-guild-id", "222"])).ok().unwrap();
    assert_eq!(legacy.primary, Some(222));
    let both =
        parse_topology(&config(&["--primary-guild", "111", "--discord-guild-id", "222"])).ok().unwrap();
    assert_eq!(both.primary, Some(111));
}

#[test]
fn topology_rejects_orphan_lists_and_double_hats() {
    assert!(parse_topology(&config(&["--secondary-guild", "333"])).is_err());
    assert!(parse_topology(&config(&["--readonly-guild", "444"])).is_err());
    assert!(parse_topology(&config(&["--primary-guild", "111", "--secondary-guild", "111"])).is_err());
    assert!(parse_topology(&config(&["--primary-guild", "111", "--readonly-guild", "111"])).is_err());
    assert!(parse_topology(&config(&[
        "--primary-guild",
        "111",
        "--secondary-guild",
        "333",
        "--readonly-guild",
        "333"
    ]))
    .is_err());
}

#[test]
fn topology_splits_the_three_hats() {
    let topology = parse_topology(&config(&[
        "--primary-guild",
        "111",
        "--secondary-guild",
        "333,334",
        "--readonly-guild",
        "444",
    ]))
    .ok()
    .unwrap();
    assert_eq!(topology.primary, Some(111));
    assert_eq!(topology.secondary, vec![333, 334]);
    assert_eq!(topology.readonly, vec![444]);
}

#[test]
fn writable_covers_primary_and_secondaries_only() {
    let mut crow = server(&[]);
    crow.default_guild = Some(111);
    let crow = crow.with_secondary_guilds(vec![333]);
    assert!(crow.is_writable(111));
    assert!(crow.is_writable(333));
    assert!(!crow.is_writable(444));
}

#[test]
fn boot_faults_are_told_apart() {
    let told = |args: &[&str]| parse_topology(&config(args)).err().unwrap().message();
    assert_eq!(told(&["--primary-guild", " x "]), "PRIMARY_GUILD ' x ' is not a valid snowflake");
    assert_eq!(
        told(&["--primary-guild", "1", "--secondary-guild", "2,-3"]),
        "SECONDARY_GUILDS '-3' is not a valid snowflake"
    );
    assert_eq!(
        told(&["--readonly-guild", "4"]),
        "SECONDARY_GUILDS/READONLY_GUILDS are set but PRIMARY_GUILD (the home guild) is not"
    );
    assert_eq!(
        told(&["--primary-guild", "1", "--readonly-guild", "1"]),
        "PRIMARY_GUILD 1 also appears in SECONDARY_GUILDS or READONLY_GUILDS; a guild wears one hat"
    );
    assert_eq!(
        told(&["--primary-guild", "1", "--secondary-guild", "2,3", "--readonly-guild", "3"]),
        "guild 3 is in both SECONDARY_GUILDS and READONLY_GUILDS; writable and read-only can't both be true"
    );
    let mut orphaned = config(&["--primary-guild", "1", "--readonly-guild", "4", "--discord-token", "t"]);
    assert_eq!(
        boot(&orphaned).err().unwrap().message(),
        "READONLY_GUILDS is set but READONLY_DISCORD_TOKEN (the observer bot) is not"
    );
    orphaned.discord_token = Some("  ".to_owned());
    assert_eq!(boot(&orphaned).err().unwrap().message(), "DISCORD_TOKEN is required (no token, no window)");
    let mut notified = config(&[]);
    notified.modlog_channel = Some(" den ".to_owned());
    assert_eq!(
        build_modlog_notifier(&notified).err().unwrap().message(),
        "MODLOG_CHANNEL 'den' is not a valid channel snowflake"
    );
}

#[test]
fn the_observer_owns_the_readonly_guilds() {
    let full = config(&[
        "--primary-guild", "1", "--secondary-guild", "2", "--readonly-guild", "4", "--readonly-token", " o ",
        "--discord-token", "t",
    ]);
    let booted = boot(&full).ok().unwrap();
    assert_eq!(booted.token, "t");
    let observer = booted.observer.as_ref().unwrap();
    assert_eq!((observer.token.as_str(), observer.guilds.clone()), ("o", vec![4]));
    let alone = config(&["--primary-guild", "1", "--readonly-token", "o"]);
    let topology = parse_topology(&alone).ok().unwrap();
    assert!(build_observer(&alone, &topology).ok().unwrap().is_none());
}

#[test]
fn tenants_follow_the_switches() {
    let mut c = config(&["--primary-guild", "1", "--secondary-guild", "2", "--readonly-guild", "4",
        "--readonly-token", "o", "--discord-token", "t"]);
    assert!(!http_tenants(&c).ledger);
    c.wall = true;
    assert!(http_tenants(&c).ledger);
    assert!(!stdio_tenants(&c).ledger, "the wall is mounted over http only");
    c.archive = true;
    c.modlog = true;
    c.gateway_mode = GatewayMode::Mentions;
    c.wake_url = Some("http://p".to_owned());
    c.wake_secret = Some("s".to_owned());
    c.wake_dm_from = vec![" 9 ".to_owned(), "x".to_owned(), "".to_owned()];
    let booted = boot(&c).ok().unwrap();
    let ledger = Some(Ledger::at("p".to_owned()));
    let tenants = http_tenants(&c);
    let home = primary_gateway(&c, &booted, &tenants, &ledger, Some(Notifier { channel: 3 }), vec![8], true);
    assert_eq!(home.broadcast_guilds, vec![1, 2]);
    assert_eq!(home.crow_bot_ids, vec![8]);
    assert_eq!(home.wake_dm_from, vec![9]);
    assert!(home.mention_store.is_some() && home.archive.is_some() && home.fanout && home.presence);
    assert_eq!(home.modlog.as_ref().unwrap().notifier.as_ref().unwrap().channel, 3);
    let watcher = observer_gateway(&booted, &tenants, &ledger).unwrap();
    assert_eq!(watcher.mode, GatewayMode::Presence);
    assert_eq!(watcher.broadcast_guilds, vec![4]);
    assert!(watcher.modlog.is_none() && watcher.mention_store.is_none() && watcher.wake.is_none());
    assert!(watcher.archive.is_some() && watcher.fanout && !watcher.presence);
    let local = stdio_tenants(&c);
    let quiet = primary_gateway(&c, &booted, &local, &ledger, None, Vec::new(), false);
    assert!(quiet.archive.is_none() && !quiet.fanout && quiet.broadcast_guilds.is_empty());
    assert!(modlog_store(&local, &ledger, None).is_some());
    assert!(modlog_store(&local, &None, None).is_none());
}

#[test]
fn hosts_default_to_the_local_names() {
    let mut c = config(&[]);
    assert_eq!(allowed_hosts(&c), ["localhost", "127.0.0.1", "::1", "127.0.0.1", "127.0.0.1:3000"]);
    c.host = "::1".to_owned();
    assert_eq!(allowed_hosts(&c)[3..], ["::1", "[::1]:3000"]);
    c.allowed_hosts = vec!["kurou.example".to_owned()];
    assert_eq!(allowed_hosts(&c), ["kurou.example"]);
}

#[test]
fn the_shim_issues_a_configured_token() {
    let auth = AuthConfig::new("u".to_owned(), &vec!["koma:k".to_owned(), "m:mm".to_owned()]);
    assert_eq!(oauth_access(&auth, &None).ok().unwrap().as_deref(), Some("k"));
    assert_eq!(oauth_access(&auth, &Some("m".to_owned())).ok().unwrap().as_deref(), Some("mm"));
    assert_eq!(
        oauth_access(&auth, &Some("who".to_owned())).err().unwrap().message(),
        "OAUTH_TOKEN_LABEL=who did not match any AUTH_TOKENS label"
    );
    let open = AuthConfig::new("u".to_owned(), &Vec::new());
    assert!(oauth_access(&open, &Some("who".to_owned())).ok().unwrap().is_none());
}

#[test]
fn settings_are_read() {
    let mut c = config(&[]);
    assert_eq!(c.ledger_path(None), "mentions.sqlite3");
    assert_eq!(c.ledger_path(Some("old.db".to_owned())), "old.db");
    c.ledger_path = Some("new.db".to_owned());
    assert_eq!(c.ledger_path(Some("old.db".to_owned())), "new.db");
    assert_eq!(parse_wake_dm_from(&vec![" 1 ".to_owned(), "".to_owned(), "b".to_owned(), "2".to_owned()]), [1, 2]);
    let voices = sender_tokens(&vars(&[
        ("DISCORD_TOKEN_MECHA", " t1 "),
        ("DISCORD_TOKEN", "t0"),
        ("DISCORD_TOKEN_", "t2"),
        ("DISCORD_TOKEN_EMPTY", " "),
    ]));
    assert_eq!(voices.len(), 1);
    assert_eq!((voices[0].label.as_str(), voices[0].token.as_str()), ("mecha", "t1"));
}

#[test]
fn watched_guilds_are_read_with_the_observer() {
    let mut crow = server(&[]);
    assert!(!crow.must_probe());
    assert!(matches!(crow.client_for_channel(Probe::Failed), Voice::Primary));
    crow.default_guild = Some(1);
    crow.observer = Some(kurou::server::Observer { guilds: vec![4] });
    let crow = crow.with_secondary_guilds(vec![2]);
    assert!(crow.must_probe());
    assert_eq!(crow.readonly_guilds(), [4]);
    assert!(matches!(crow.client_for_guild(1), Voice::Primary));
    assert!(matches!(crow.client_for_guild(2), Voice::Primary));
    assert!(matches!(crow.client_for_guild(4), Voice::Observer));
    assert!(matches!(crow.client_for_channel(Probe::InGuild(2)), Voice::Primary));
    assert!(matches!(crow.client_for_channel(Probe::InGuild(4)), Voice::Observer));
    assert!(matches!(crow.client_for_channel(Probe::NoGuild), Voice::Primary));
    assert!(matches!(crow.client_for_channel(Probe::Failed), Voice::Observer));
}

#[test]
fn numerals_are_read_as_written() {
    assert_eq!(parse_u64("18446744073709551615"), Some(u64::MAX));
    assert_eq!(parse_u64("18446744073709551616"), None);
    assert_eq!(parse_u64("+7"), Some(7));
    assert_eq!(parse_u64("007"), Some(7));
    for bad in ["", "+", "-1", " 1", "1_0", "٣"] {
        assert_eq!(parse_u64(bad), None, "{bad}");
    }
    assert_eq!(parse_i64("-9223372036854775808"), Some(i64::MIN));
    assert_eq!(parse_i64("-9223372036854775809"), None);
    assert_eq!(parse_i64("9223372036854775808"), None);
    assert_eq!(parse_i64("-"), None);
    assert_eq!(colour(0xab), "#0000ab");
    assert_eq!(colour(0x1234567), "#1234567");
}

#[test]
fn a_quiet_configuration_opens_no_gateway() {
    let mut c = config(&["--primary-guild", "1", "--secondary-guild", "2", "--readonly-guild", "4",
        "--readonly-token", "o", "--discord-token", "t"]);
    let booted = boot(&c).ok().unwrap();
    let tenants = http_tenants(&c);
    let home = primary_gateway(&c, &booted, &tenants, &None, None, Vec::new(), true);
    assert!(!home.wanted());
    assert!(observer_gateway(&booted, &tenants, &None).is_none());
    c.wall = true;
    let tenants = http_tenants(&c);
    let ledger = Some(Ledger::at("p".to_owned()));
    let home = primary_gateway(&c, &booted, &tenants, &ledger, None, Vec::new(), true);
    let watcher = observer_gateway(&booted, &tenants, &ledger).unwrap();
    assert!(home.wanted() && watcher.wanted());
    assert!(home.broadcast_guilds.iter().all(|guild| !watcher.broadcast_guilds.contains(guild)));
}

#[test]
fn the_rules_are_planned_from_the_settings() {
    let mut c = config(&["--primary-guild", "1", "--secondary-guild", "2", "--readonly-guild", "4",
        "--readonly-token", "o", "--discord-token", "t"]);
    c.modlog = true;
    c.archive = true;
    c.wake_dm_from = vec!["9".to_owned()];
    let booted = boot(&c).ok().unwrap();
    let ledger = Some(Ledger::at("p".to_owned()));
    let voices = vec!["mecha".to_owned()];
    let crow = plan_server(&c, &booted, &http_tenants(&c), &ledger, Some(Notifier { channel: 3 }), voices.clone());
    assert_eq!((crow.default_guild, crow.secondary_guilds.clone(), crow.readonly_guilds()), (Some(1), vec![2], vec![4]));
    assert_eq!(crow.message_store.as_ref().unwrap().path, "p");
    assert_eq!(crow.modlog_store.as_ref().unwrap().notifier.as_ref().unwrap().channel, 3);
    assert!(crow.mention_store.is_none() && !crow.presence);
    assert_eq!((crow.senders.clone(), crow.wake_dm_from.clone()), (voices, vec![9]));
    let local = plan_server(&c, &booted, &stdio_tenants(&c), &ledger, None, Vec::new());
    assert!(local.message_store.is_none() && local.modlog_store.is_some());
    let pool = plan_pool(&booted);
    assert_eq!(pool.readonly_guilds, vec![4]);
    for guild in [1, 2, 4, 5] {
        assert_eq!(
            matches!(pool.client_for_guild(guild), Voice::Observer),
            matches!(crow.client_for_guild(guild), Voice::Observer)
        );
    }
}
