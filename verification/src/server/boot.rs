//! Starting up: the guilds' three hats, cross-checked once, and who is opened for what.

use vstd::prelude::*;

use crate::archive::MessageStore;
use crate::auth::AuthConfig;
use crate::config::{filled, filled_text, first_given, Config, GatewayMode};
use crate::gateway::{holds_id, GatewayConfig};
use crate::ledger::Ledger;
use crate::mentions::MentionStore;
use crate::modlog::{ModlogStore, Notifier};
use crate::numeral::{parse_u64, parsed_u64};
use crate::server::{copy_ids, wears, KurouServer, Observer};
use crate::text::{
    blank, clone_texts, contains, decimal, has_text, is_blank, number, opt_str, opt_text,
    push_text, texts, trim, trimmed,
};
use crate::wake::{given, WakeSender};
use crate::wall::ClientPool;

verus! {

/// How long an upload waits to be claimed, in seconds.
pub const UPLOAD_TTL_SECS: u64 = 600;

/// The guilds and the hats they wear.
pub struct GuildTopology {
    pub primary: Option<u64>,
    pub secondary: Vec<u64>,
    pub readonly: Vec<u64>,
}

/// Why the crow does not start.
pub enum BootError {
    NoToken,
    BadSnowflake { name: String, raw: String },
    Orphans,
    PrimaryTwice { guild: u64 },
    BothHats { guild: u64 },
    NoObserverToken,
    BadModlogChannel { raw: String },
    UnknownLabel { label: String },
}

impl BootError {
    pub open spec fn text(self) -> Seq<char> {
        match self {
            BootError::NoToken => "DISCORD_TOKEN is required (no token, no window)"@,
            BootError::BadSnowflake { name, raw } => name@ + " '"@ + raw@
                + "' is not a valid snowflake"@,
            BootError::Orphans =>
            "SECONDARY_GUILDS/READONLY_GUILDS are set but PRIMARY_GUILD (the home guild) is not"@,
            BootError::PrimaryTwice { guild } => "PRIMARY_GUILD "@ + decimal(guild as nat)
                + " also appears in SECONDARY_GUILDS or READONLY_GUILDS; a guild wears one hat"@,
            BootError::BothHats { guild } => "guild "@ + decimal(guild as nat)
                + " is in both SECONDARY_GUILDS and READONLY_GUILDS; writable and read-only can't both be true"@,
            BootError::NoObserverToken =>
            "READONLY_GUILDS is set but READONLY_DISCORD_TOKEN (the observer bot) is not"@,
            BootError::BadModlogChannel { raw } => "MODLOG_CHANNEL '"@ + raw@
                + "' is not a valid channel snowflake"@,
            BootError::UnknownLabel { label } => "OAUTH_TOKEN_LABEL="@ + label@
                + " did not match any AUTH_TOKENS label"@,
        }
    }

    /// The reason in words.
    pub fn message(&self) -> (r: String)
        ensures
            r@ == self.text(),
    {
        match self {
            BootError::NoToken => "DISCORD_TOKEN is required (no token, no window)".to_owned(),
            BootError::BadSnowflake { name, raw } => {
                let mut s = name.clone();
                s.append(" '");
                s.append(raw.as_str());
                s.append("' is not a valid snowflake");
                s
            },
            BootError::Orphans =>
            "SECONDARY_GUILDS/READONLY_GUILDS are set but PRIMARY_GUILD (the home guild) is not".to_owned(),
            BootError::PrimaryTwice { guild } => {
                let mut s = "PRIMARY_GUILD ".to_owned();
                s.append(number(*guild).as_str());
                s.append(
                    " also appears in SECONDARY_GUILDS or READONLY_GUILDS; a guild wears one hat",
                );
                s
            },
            BootError::BothHats { guild } => {
                let mut s = "guild ".to_owned();
                s.append(number(*guild).as_str());
                s.append(
                    " is in both SECONDARY_GUILDS and READONLY_GUILDS; writable and read-only can't both be true",
                );
                s
            },
            BootError::NoObserverToken =>
            "READONLY_GUILDS is set but READONLY_DISCORD_TOKEN (the observer bot) is not".to_owned(),
            BootError::BadModlogChannel { raw } => {
                let mut s = "MODLOG_CHANNEL '".to_owned();
                s.append(raw.as_str());
                s.append("' is not a valid channel snowflake");
                s
            },
            BootError::UnknownLabel { label } => {
                let mut s = "OAUTH_TOKEN_LABEL=".to_owned();
                s.append(label.as_str());
                s.append(" did not match any AUTH_TOKENS label");
                s
            },
        }
    }
}

/// The number a setting holds, white space aside.
pub open spec fn snowflake(raw: Seq<char>) -> Option<u64> {
    parsed_u64(trimmed(raw))
}

/// No entry that is looked at is the number zero, which is no id. Nothing behind the first bad
/// entry is looked at.
pub open spec fn no_zero_read(raw: Seq<String>) -> bool {
    forall|i: int|
        0 <= i < raw.len() && guild_ids(raw.take(i)) is Ok ==> snowflake((#[trigger] raw[i])@) != Some(
            0u64,
        )
}

/// No setting of the list is the number zero, which is no id.
pub open spec fn no_zero(raw: Seq<String>) -> bool {
    forall|i: int| 0 <= i < raw.len() ==> snowflake((#[trigger] raw[i])@) != Some(0u64)
}

/// Reads a guild's id.
pub fn parse_guild_id(name: &str, raw: &str) -> (r: Result<u64, BootError>)
    requires
        snowflake(raw@) != Some(0u64),
    ensures
        match snowflake(raw@) {
            Some(id) => r == Ok::<u64, BootError>(id),
            None => r matches Err(BootError::BadSnowflake { name: n, raw: w }) && n@ == name@ && w@
                == raw@,
        },
{
    match parse_u64(trim(raw).as_str()) {
        Some(id) => Ok(id),
        None => Err(BootError::BadSnowflake { name: name.to_owned(), raw: raw.to_owned() }),
    }
}

/// The ids of a list, blank entries left out; or the first entry that is no id.
pub open spec fn guild_ids(raw: Seq<String>) -> Result<Seq<u64>, Seq<char>>
    decreases raw.len(),
{
    if raw.len() == 0 {
        Ok(seq![])
    } else {
        match guild_ids(raw.drop_last()) {
            Err(bad) => Err(bad),
            Ok(ids) => if is_blank(raw.last()@) {
                Ok(ids)
            } else {
                match snowflake(raw.last()@) {
                    Some(id) => Ok(ids.push(id)),
                    None => Err(raw.last()@),
                }
            },
        }
    }
}

proof fn lemma_first_bad_stays(raw: Seq<String>, n: int)
    requires
        0 <= n <= raw.len(),
        guild_ids(raw.take(n)) is Err,
    ensures
        guild_ids(raw) == guild_ids(raw.take(n)),
    decreases raw.len() - n,
{
    if n < raw.len() {
        assert(raw.take(n + 1).drop_last() =~= raw.take(n));
        lemma_first_bad_stays(raw, n + 1);
    } else {
        assert(raw.take(n) =~= raw);
    }
}

/// Reads a list of guilds' ids, blank entries left out.
pub fn parse_guild_list(name: &str, raw: &Vec<String>) -> (r: Result<Vec<u64>, BootError>)
    requires
        no_zero_read(raw@),
    ensures
        match guild_ids(raw@) {
            Ok(ids) => r matches Ok(v) && v@ == ids,
            Err(bad) => r matches Err(BootError::BadSnowflake { name: n, raw: w }) && n@ == name@
                && w@ == bad,
        },
{
    let mut ids: Vec<u64> = Vec::new();
    let mut i: usize = 0;
    assert(raw@.take(0) =~= seq![]);
    while i < raw.len()
        invariant
            i <= raw@.len(),
            no_zero_read(raw@),
            guild_ids(raw@.take(i as int)) == Ok::<Seq<u64>, Seq<char>>(ids@),
        decreases raw@.len() - i,
    {
        proof {
            let t = raw@.take(i + 1);
            assert(t.drop_last() =~= raw@.take(i as int));
            assert(t.last() == raw@[i as int]);
            assert(snowflake(raw@[i as int]@) != Some(0u64));
        }
        if !blank(raw[i].as_str()) {
            match parse_guild_id(name, raw[i].as_str()) {
                Ok(id) => {
                    ids.push(id);
                },
                Err(e) => {
                    proof {
                        lemma_first_bad_stays(raw@, i + 1);
                    }
                    return Err(e);
                },
            }
        }
        i = i + 1;
    }
    assert(raw@.take(i as int) =~= raw@);
    Ok(ids)
}

/// The first of some guilds that is also one of others.
pub open spec fn first_shared(a: Seq<u64>, b: Seq<u64>) -> Option<u64>
    decreases a.len(),
{
    if a.len() == 0 {
        None
    } else if b.contains(a[0]) {
        Some(a[0])
    } else {
        first_shared(a.drop_first(), b)
    }
}

fn find_shared(a: &Vec<u64>, b: &Vec<u64>) -> (r: Option<u64>)
    ensures
        r == first_shared(a@, b@),
{
    let mut i: usize = 0;
    assert(a@.skip(0) =~= a@);
    while i < a.len()
        invariant
            i <= a@.len(),
            first_shared(a@.skip(i as int), b@) == first_shared(a@, b@),
        decreases a@.len() - i,
    {
        assert(a@.skip(i as int)[0] == a@[i as int]);
        assert(a@.skip(i as int).drop_first() =~= a@.skip(i + 1));
        if holds_id(b, a[i]) {
            return Some(a[i]);
        }
        i = i + 1;
    }
    None
}

/// The guilds and the hats they wear, as mathematical values.
pub struct Hats {
    pub primary: Option<u64>,
    pub secondary: Seq<u64>,
    pub readonly: Seq<u64>,
}

impl View for GuildTopology {
    type V = Hats;

    open spec fn view(&self) -> Hats {
        Hats { primary: self.primary, secondary: self.secondary@, readonly: self.readonly@ }
    }
}

/// What is wrong with the hats, if anything is.
pub enum HatFault {
    BadPrimary(Seq<char>),
    BadSecondary(Seq<char>),
    BadReadonly(Seq<char>),
    Orphans,
    PrimaryTwice(u64),
    BothHats(u64),
}

/// An error tells of what is wrong with the hats.
pub open spec fn reports(e: BootError, fault: HatFault) -> bool {
    match fault {
        HatFault::BadPrimary(bad) => e matches BootError::BadSnowflake { name, raw } && name@
            == "PRIMARY_GUILD"@ && raw@ == bad,
        HatFault::BadSecondary(bad) => e matches BootError::BadSnowflake { name, raw } && name@
            == "SECONDARY_GUILDS"@ && raw@ == bad,
        HatFault::BadReadonly(bad) => e matches BootError::BadSnowflake { name, raw } && name@
            == "READONLY_GUILDS"@ && raw@ == bad,
        HatFault::Orphans => e is Orphans,
        HatFault::PrimaryTwice(id) => e matches BootError::PrimaryTwice { guild } && guild == id,
        HatFault::BothHats(id) => e matches BootError::BothHats { guild } && guild == id,
    }
}

/// The home guild, where one is given; or what was given in its place.
pub open spec fn home_guild(config: Config) -> Result<Option<u64>, Seq<char>> {
    match first_given(config.primary_guild, config.discord_guild_id) {
        None => Ok(None),
        Some(raw) => match snowflake(raw) {
            Some(id) => Ok(Some(id)),
            None => Err(raw),
        },
    }
}

/// The hats the settings hand out; or the first thing that is wrong with them.
pub open spec fn hats(config: Config) -> Result<Hats, HatFault> {
    match home_guild(config) {
        Err(bad) => Err(HatFault::BadPrimary(bad)),
        Ok(primary) => match guild_ids(config.secondary_guilds@) {
            Err(bad) => Err(HatFault::BadSecondary(bad)),
            Ok(secondary) => match guild_ids(config.readonly_guilds@) {
                Err(bad) => Err(HatFault::BadReadonly(bad)),
                Ok(readonly) => if primary is None && (secondary.len() > 0 || readonly.len() > 0) {
                    Err(HatFault::Orphans)
                } else if primary is Some && (secondary.contains(primary->0) || readonly.contains(
                    primary->0,
                )) {
                    Err(HatFault::PrimaryTwice(primary->0))
                } else {
                    match first_shared(secondary, readonly) {
                        Some(guild) => Err(HatFault::BothHats(guild)),
                        None => Ok(Hats { primary, secondary, readonly }),
                    }
                },
            },
        },
    }
}

/// No guild's setting that is looked at is the number zero, which is no id.
pub open spec fn guilds_are_ids(config: Config) -> bool {
    let primary = first_given(config.primary_guild, config.discord_guild_id);
    &&& primary matches Some(raw) ==> snowflake(raw) != Some(0u64)
    &&& primary is None || snowflake(primary->0) is Some ==> {
        &&& no_zero_read(config.secondary_guilds@)
        &&& guild_ids(config.secondary_guilds@) is Ok ==> no_zero_read(config.readonly_guilds@)
    }
}

/// Reads the guilds and the hats they wear, and checks that each wears one.
pub fn parse_topology(config: &Config) -> (r: Result<GuildTopology, BootError>)
    requires
        guilds_are_ids(*config),
    ensures
        match hats(*config) {
            Ok(h) => r matches Ok(t) && t@ == h,
            Err(fault) => r matches Err(e) && reports(e, fault),
        },
{
    let primary = match config.primary_guild_raw() {
        Some(raw) => match parse_guild_id("PRIMARY_GUILD", raw.as_str()) {
            Ok(id) => Some(id),
            Err(e) => {
                return Err(e);
            },
        },
        None => None,
    };
    let secondary = match parse_guild_list("SECONDARY_GUILDS", &config.secondary_guilds) {
        Ok(ids) => ids,
        Err(e) => {
            return Err(e);
        },
    };
    let readonly = match parse_guild_list("READONLY_GUILDS", &config.readonly_guilds) {
        Ok(ids) => ids,
        Err(e) => {
            return Err(e);
        },
    };
    match primary {
        None => {
            if secondary.len() > 0 || readonly.len() > 0 {
                return Err(BootError::Orphans);
            }
        },
        Some(guild) => {
            if holds_id(&secondary, guild) || holds_id(&readonly, guild) {
                return Err(BootError::PrimaryTwice { guild });
            }
        },
    }
    if let Some(guild) = find_shared(&secondary, &readonly) {
        return Err(BootError::BothHats { guild });
    }
    Ok(GuildTopology { primary, secondary, readonly })
}

/// The bot that watches, and the guilds it watches.
pub struct ObserverPlan {
    pub token: String,
    pub guilds: Vec<u64>,
}

/// Plans the observer: none where no guild is only watched, and a bot of its own where one
/// is.
pub fn build_observer(config: &Config, topology: &GuildTopology) -> (r: Result<
    Option<ObserverPlan>,
    BootError,
>)
    ensures
        if topology.readonly@.len() == 0 {
            r matches Ok(None)
        } else {
            match filled(config.readonly_discord_token) {
                Some(token) => r matches Ok(Some(plan)) && plan.token@ == token && plan.guilds@
                    == topology.readonly@,
                None => r matches Err(e) && e is NoObserverToken,
            }
        },
{
    if topology.readonly.len() == 0 {
        return Ok(None);
    }
    match filled_text(&config.readonly_discord_token) {
        Some(token) => Ok(Some(ObserverPlan { token, guilds: copy_ids(&topology.readonly) })),
        None => Err(BootError::NoObserverToken),
    }
}

/// Plans where the ledger's writes are shown, if anywhere.
pub fn build_modlog_notifier(config: &Config) -> (r: Result<Option<Notifier>, BootError>)
    requires
        filled(config.modlog_channel) matches Some(raw) ==> parsed_u64(raw) != Some(0u64),
    ensures
        match filled(config.modlog_channel) {
            None => r matches Ok(None),
            Some(raw) => match parsed_u64(raw) {
                Some(id) => r matches Ok(Some(n)) && n.channel == id,
                None => r matches Err(BootError::BadModlogChannel { raw: w }) && w@ == raw,
            },
        },
{
    match filled_text(&config.modlog_channel) {
        None => Ok(None),
        Some(raw) => match parse_u64(raw.as_str()) {
            Some(id) => Ok(Some(Notifier { channel: id })),
            None => Err(BootError::BadModlogChannel { raw }),
        },
    }
}

/// The accounts of a list; entries that are none are left out.
pub open spec fn accounts(raw: Seq<String>) -> Seq<u64>
    decreases raw.len(),
{
    if raw.len() == 0 {
        seq![]
    } else {
        match snowflake(raw.last()@) {
            Some(id) => accounts(raw.drop_last()).push(id),
            None => accounts(raw.drop_last()),
        }
    }
}

/// Reads the accounts whose private calls are taken; entries that are none are skipped.
pub fn parse_wake_dm_from(ids: &Vec<String>) -> (r: Vec<u64>)
    requires
        no_zero(ids@),
    ensures
        r@ == accounts(ids@),
{
    let mut r: Vec<u64> = Vec::new();
    let mut i: usize = 0;
    assert(ids@.take(0) =~= seq![]);
    while i < ids.len()
        invariant
            i <= ids@.len(),
            r@ == accounts(ids@.take(i as int)),
        decreases ids@.len() - i,
    {
        if let Some(id) = parse_u64(trim(ids[i].as_str()).as_str()) {
            r.push(id);
        }
        i = i + 1;
        proof {
            assert(ids@.take(i as int).drop_last() =~= ids@.take(i - 1));
            assert(ids@.take(i as int).last() == ids@[i - 1]);
        }
    }
    assert(ids@.take(i as int) =~= ids@);
    r
}

/// An address and a port; an address with colons of its own goes into brackets.
pub open spec fn bind_text(host: Seq<char>, port: u16) -> Seq<char> {
    if has_text(host, ":"@) {
        "["@ + host + "]:"@ + decimal(port as nat)
    } else {
        host + ":"@ + decimal(port as nat)
    }
}

/// The hosts that requests may name.
pub open spec fn hosts(config: Config) -> Seq<Seq<char>> {
    if config.allowed_hosts@.len() > 0 {
        texts(config.allowed_hosts@)
    } else {
        seq![
            "localhost"@,
            "127.0.0.1"@,
            "::1"@,
            config.host@,
            bind_text(config.host@, config.port),
        ]
    }
}

/// The hosts that requests may name: those given, or the local ones.
pub fn allowed_hosts(config: &Config) -> (r: Vec<String>)
    ensures
        texts(r@) == hosts(*config),
{
    if config.allowed_hosts.len() > 0 {
        return clone_texts(&config.allowed_hosts);
    }
    let mut bind = String::new();
    if contains(config.host.as_str(), ":") {
        bind.append("[");
        bind.append(config.host.as_str());
        bind.append("]:");
    } else {
        bind.append(config.host.as_str());
        bind.append(":");
    }
    bind.append(number(config.port as u64).as_str());
    assert(bind@ =~= bind_text(config.host@, config.port));
    let mut r: Vec<String> = Vec::new();
    assert(texts(r@) =~= seq![]);
    push_text(&mut r, "localhost".to_owned());
    push_text(&mut r, "127.0.0.1".to_owned());
    push_text(&mut r, "::1".to_owned());
    push_text(&mut r, config.host.clone());
    push_text(&mut r, bind);
    assert(texts(r@) =~= hosts(*config));
    r
}

/// What every start begins with.
pub struct Boot {
    pub token: String,
    pub topology: GuildTopology,
    pub observer: Option<ObserverPlan>,
}

/// The token, where it is not blank.
pub open spec fn token_given(config: Config) -> Option<Seq<char>> {
    match config.discord_token {
        Some(token) if !is_blank(token@) => Some(token@),
        _ => None,
    }
}

/// Checks what every start begins with: a token first, then the guilds, then the observer.
pub fn boot(config: &Config) -> (r: Result<Boot, BootError>)
    requires
        token_given(*config) is Some ==> guilds_are_ids(*config),
    ensures
        match token_given(*config) {
            None => r matches Err(e) && e is NoToken,
            Some(token) => match hats(*config) {
                Err(fault) => r matches Err(e) && reports(e, fault),
                Ok(h) => if h.readonly.len() > 0 && filled(config.readonly_discord_token) is None {
                    r matches Err(e) && e is NoObserverToken
                } else {
                    r matches Ok(b) && b.token@ == token && b.topology@ == h && booted(*config, b) && (
                    b.observer matches Some(o) ==> Some(o.token@) == filled(
                        config.readonly_discord_token,
                    ))
                },
            },
        },
{
    let token = match &config.discord_token {
        Some(token) => {
            if blank(token.as_str()) {
                return Err(BootError::NoToken);
            }
            token.clone()
        },
        None => {
            return Err(BootError::NoToken);
        },
    };
    let topology = match parse_topology(config) {
        Ok(topology) => topology,
        Err(e) => {
            return Err(e);
        },
    };
    match build_observer(config, &topology) {
        Ok(observer) => Ok(Boot { token, topology, observer }),
        Err(e) => Err(e),
    }
}

/// Who is opened.
#[derive(Clone, Copy, Debug, PartialEq, Eq, Structural)]
pub struct Tenants {
    pub ledger: bool,
    pub mentions: bool,
    pub archive: bool,
    pub modlog: bool,
    pub wall: bool,
    pub presence: bool,
    pub scheduler: bool,
}

/// Who is opened behind HTTP: everybody who was asked for, and the ledger for any of them.
pub open spec fn tenants_behind_http(config: Config) -> Tenants {
    let mentions = config.gateway_mode == GatewayMode::Mentions;
    Tenants {
        ledger: mentions || config.archive || config.modlog || config.wall,
        mentions,
        archive: config.archive,
        modlog: config.modlog,
        wall: config.wall,
        presence: config.wake_url is Some,
        scheduler: config.modlog,
    }
}

/// Who is opened on a terminal: neither the wall nor the archive.
pub open spec fn tenants_on_a_terminal(config: Config) -> Tenants {
    let mentions = config.gateway_mode == GatewayMode::Mentions;
    Tenants {
        ledger: mentions || config.modlog,
        mentions,
        archive: false,
        modlog: config.modlog,
        wall: false,
        presence: config.wake_url is Some,
        scheduler: config.modlog,
    }
}

/// Who is opened behind HTTP: everybody who was asked for, and the ledger for any of them.
pub fn http_tenants(config: &Config) -> (r: Tenants)
    ensures
        r == tenants_behind_http(*config),
{
    let mentions = config.gateway_mode == GatewayMode::Mentions;
    Tenants {
        ledger: config.wall || config.archive || config.modlog || mentions,
        mentions,
        archive: config.archive,
        modlog: config.modlog,
        wall: config.wall,
        presence: config.wake_url.is_some(),
        scheduler: config.modlog,
    }
}

/// Who is opened on a terminal: neither the wall nor the archive.
pub fn stdio_tenants(config: &Config) -> (r: Tenants)
    ensures
        r == tenants_on_a_terminal(*config),
{
    let mentions = config.gateway_mode == GatewayMode::Mentions;
    Tenants {
        ledger: mentions || config.modlog,
        mentions,
        archive: false,
        modlog: config.modlog,
        wall: false,
        presence: config.wake_url.is_some(),
        scheduler: config.modlog,
    }
}

/// The mod ledger, where it is opened, with whoever is told of its writes.
pub fn modlog_store(tenants: &Tenants, ledger: &Option<Ledger>, notifier: Option<Notifier>) -> (r: Option<
    ModlogStore,
>)
    ensures
        r is Some <==> store_open(tenants.modlog, *ledger),
        r matches Some(s) ==> s.path == ledger->0.path && s.notifier == notifier,
{
    match ledger {
        Some(ledger) => {
            if tenants.modlog {
                Some(ledger.modlog().with_notifier(notifier))
            } else {
                None
            }
        },
        None => None,
    }
}

/// The mention inbox, where it is opened.
pub fn mention_store(tenants: &Tenants, ledger: &Option<Ledger>) -> (r: Option<MentionStore>)
    ensures
        r is Some <==> store_open(tenants.mentions, *ledger),
        r matches Some(s) ==> s.path == ledger->0.path,
{
    match ledger {
        Some(ledger) => if tenants.mentions {
            Some(ledger.mentions())
        } else {
            None
        },
        None => None,
    }
}

/// The archive, where it is opened.
pub fn message_store(tenants: &Tenants, ledger: &Option<Ledger>) -> (r: Option<MessageStore>)
    ensures
        r is Some <==> store_open(tenants.archive, *ledger),
        r matches Some(s) ==> s.path == ledger->0.path,
{
    match ledger {
        Some(ledger) => if tenants.archive {
            Some(ledger.archive())
        } else {
            None
        },
        None => None,
    }
}

fn opt_as_str(v: &Option<String>) -> (r: Option<&str>)
    ensures
        opt_str(r) == opt_text(*v),
{
    match v {
        Some(s) => Some(s.as_str()),
        None => None,
    }
}

/// The guilds a primary bot's gateway carries: the home guild and the secondary ones.
pub open spec fn carried(h: Hats) -> Seq<u64> {
    (match h.primary {
        Some(primary) => seq![primary],
        None => seq![],
    }) + h.secondary
}

/// A store that is opened where its tenant is and the ledger is there.
pub open spec fn store_open(tenant: bool, ledger: Option<Ledger>) -> bool {
    tenant && ledger is Some
}

/// The primary bot's gateway, as it is planned.
pub open spec fn is_primary_gateway(
    g: GatewayConfig,
    config: Config,
    hats: Hats,
    tenants: Tenants,
    ledger: Option<Ledger>,
    over_http: bool,
) -> bool {
    &&& g.mode == config.gateway_mode
    &&& g.default_guild == hats.primary
    &&& g.secondary_guilds@ == hats.secondary
    &&& texts(g.mention_keywords@) == texts(config.mention_keywords@)
    &&& g.mention_store is Some <==> store_open(tenants.mentions, ledger)
    &&& g.mention_store matches Some(s) ==> s.path == ledger->0.path
    &&& g.archive is Some <==> store_open(tenants.archive, ledger)
    &&& g.archive matches Some(s) ==> s.path == ledger->0.path
    &&& g.modlog is Some <==> store_open(tenants.modlog, ledger)
    &&& g.modlog matches Some(s) ==> s.path == ledger->0.path
    &&& g.fanout == tenants.wall
    &&& g.broadcast_guilds@ == if over_http {
        carried(hats)
    } else {
        seq![]
    }
    &&& g.wake is Some <==> given(opt_text(config.wake_url)) is Some && given(
        opt_text(config.wake_secret),
    ) is Some
    &&& g.wake matches Some(s) ==> Some(s.url@) == given(opt_text(config.wake_url)) && Some(
        s.secret@,
    ) == given(opt_text(config.wake_secret))
    &&& g.wake_dm_from@ == accounts(config.wake_dm_from@)
    &&& g.presence == tenants.presence
}

/// Plans the primary bot's gateway. The wall and the archive are shared out only where they
/// are opened, and the guilds it carries only with them.
pub fn primary_gateway(
    config: &Config,
    boot: &Boot,
    tenants: &Tenants,
    ledger: &Option<Ledger>,
    notifier: Option<Notifier>,
    crow_bot_ids: Vec<u64>,
    over_http: bool,
) -> (r: GatewayConfig)
    requires
        no_zero(config.wake_dm_from@),
    ensures
        is_primary_gateway(r, *config, boot.topology@, *tenants, *ledger, over_http),
        r.modlog matches Some(s) ==> s.notifier == notifier,
        r.crow_bot_ids == crow_bot_ids,
{
    let mut broadcast_guilds: Vec<u64> = Vec::new();
    if over_http {
        if let Some(primary) = boot.topology.primary {
            broadcast_guilds.push(primary);
        }
        let mut secondary = copy_ids(&boot.topology.secondary);
        broadcast_guilds.append(&mut secondary);
    }
    assert(broadcast_guilds@ =~= if over_http {
        carried(boot.topology@)
    } else {
        seq![]
    });
    let keywords = clone_texts(&config.mention_keywords);
    GatewayConfig {
        mode: config.gateway_mode,
        default_guild: boot.topology.primary,
        secondary_guilds: copy_ids(&boot.topology.secondary),
        mention_keywords: keywords,
        mention_store: mention_store(tenants, ledger),
        archive: message_store(tenants, ledger),
        modlog: modlog_store(tenants, ledger, notifier),
        crow_bot_ids,
        fanout: tenants.wall,
        broadcast_guilds,
        wake: WakeSender::from_config(
            opt_as_str(&config.wake_url),
            opt_as_str(&config.wake_secret),
        ),
        wake_dm_from: parse_wake_dm_from(&config.wake_dm_from),
        presence: tenants.presence,
    }
}

/// The observer's gateway, as it is planned: it hears and says nothing. It keeps no mentions,
/// writes no ledger, taps nobody and steers no dot.
pub open spec fn is_observer_gateway(
    g: GatewayConfig,
    observer: ObserverPlan,
    tenants: Tenants,
    ledger: Option<Ledger>,
) -> bool {
    &&& g.mode == GatewayMode::Presence
    &&& g.default_guild is None
    &&& g.secondary_guilds@.len() == 0
    &&& g.mention_keywords@.len() == 0
    &&& g.mention_store is None
    &&& g.modlog is None
    &&& g.crow_bot_ids@.len() == 0
    &&& g.archive is Some <==> store_open(tenants.archive, ledger)
    &&& g.archive matches Some(s) ==> s.path == ledger->0.path
    &&& g.fanout == tenants.wall
    &&& g.broadcast_guilds@ == observer.guilds@
    &&& g.wake is None
    &&& g.wake_dm_from@.len() == 0
    &&& !g.presence
}

/// Plans the observer's gateway, where there is an observer and the wall or the archive wants
/// what it hears.
pub fn observer_gateway(boot: &Boot, tenants: &Tenants, ledger: &Option<Ledger>) -> (r: Option<
    GatewayConfig,
>)
    ensures
        r is Some <==> boot.observer is Some && (tenants.wall || tenants.archive),
        r matches Some(g) ==> is_observer_gateway(g, boot.observer->0, *tenants, *ledger),
{
    if !(tenants.wall || tenants.archive) {
        return None;
    }
    match &boot.observer {
        Some(observer) => {
            Some(
                GatewayConfig {
                    mode: GatewayMode::Presence,
                    default_guild: None,
                    secondary_guilds: Vec::new(),
                    mention_keywords: Vec::new(),
                    mention_store: None,
                    archive: message_store(tenants, ledger),
                    modlog: None,
                    crow_bot_ids: Vec::new(),
                    fanout: tenants.wall,
                    broadcast_guilds: copy_ids(&observer.guilds),
                    wake: None,
                    wake_dm_from: Vec::new(),
                    presence: false,
                },
            )
        },
        None => None,
    }
}

/// The server's rules, as they are planned: the same guilds and stores as the primary bot's
/// gateway, and the observer's guilds to watch.
pub open spec fn is_server(
    s: KurouServer,
    config: Config,
    b: Boot,
    tenants: Tenants,
    ledger: Option<Ledger>,
) -> bool {
    &&& s.observer is Some <==> b.observer is Some
    &&& s.observer matches Some(o) ==> o.guilds@ == b.observer->0.guilds@
    &&& s.default_guild == b.topology.primary
    &&& s.secondary_guilds@ == b.topology.secondary@
    &&& s.mention_store is Some <==> store_open(tenants.mentions, ledger)
    &&& s.mention_store matches Some(store) ==> store.path == ledger->0.path
    &&& s.message_store is Some <==> store_open(tenants.archive, ledger)
    &&& s.message_store matches Some(store) ==> store.path == ledger->0.path
    &&& s.modlog_store is Some <==> store_open(tenants.modlog, ledger)
    &&& s.modlog_store matches Some(store) ==> store.path == ledger->0.path
    &&& s.wake_dm_from@ == accounts(config.wake_dm_from@)
    &&& s.presence == tenants.presence
}

/// Plans the server's rules.
pub fn plan_server(
    config: &Config,
    boot: &Boot,
    tenants: &Tenants,
    ledger: &Option<Ledger>,
    notifier: Option<Notifier>,
    senders: Vec<String>,
) -> (r: KurouServer)
    requires
        no_zero(config.wake_dm_from@),
    ensures
        is_server(r, *config, *boot, *tenants, *ledger),
        r.modlog_store matches Some(store) ==> store.notifier == notifier,
        r.senders == senders,
{
    let observer = match &boot.observer {
        Some(observer) => Some(Observer { guilds: copy_ids(&observer.guilds) }),
        None => None,
    };
    KurouServer::new(
        observer,
        boot.topology.primary,
        mention_store(tenants, ledger),
        message_store(tenants, ledger),
        modlog_store(tenants, ledger, notifier),
        senders,
    ).with_secondary_guilds(copy_ids(&boot.topology.secondary)).with_wake_dm_from(
        parse_wake_dm_from(&config.wake_dm_from),
    ).with_presence(tenants.presence)
}

/// The wall's bots and guilds, as they are planned.
pub open spec fn is_pool(pool: ClientPool, b: Boot) -> bool {
    &&& pool.observer == (b.observer is Some)
    &&& pool.default_guild == b.topology.primary
    &&& pool.secondary_guilds@ == b.topology.secondary@
    &&& pool.readonly_guilds@ == match b.observer {
        Some(observer) => observer.guilds@,
        None => seq![],
    }
}

/// Plans the wall's bots and guilds.
pub fn plan_pool(boot: &Boot) -> (r: ClientPool)
    ensures
        is_pool(r, *boot),
{
    let readonly_guilds = match &boot.observer {
        Some(observer) => copy_ids(&observer.guilds),
        None => Vec::new(),
    };
    ClientPool {
        observer: boot.observer.is_some(),
        default_guild: boot.topology.primary,
        secondary_guilds: copy_ids(&boot.topology.secondary),
        readonly_guilds,
    }
}

/// The token that the OAuth shim hands out: none where no token is needed, and otherwise the
/// one labelled so, or the first.
pub fn oauth_access(auth: &AuthConfig, label: &Option<String>) -> (r: Result<Option<String>, BootError>)
    ensures
        if auth.held().len() == 0 {
            r matches Ok(None)
        } else {
            match crate::auth::handed_out(auth.held(), opt_text(*label)) {
                Some(token) => r matches Ok(Some(t)) && t@ == token,
                None => r matches Err(BootError::UnknownLabel { label: l }) && l@ == match *label {
                    Some(label) => label@,
                    None => seq![],
                },
            }
        },
{
    if !auth.is_enabled() {
        return Ok(None);
    }
    match auth.oauth_token(opt_as_str(label)) {
        Some(token) => Ok(Some(token)),
        None => {
            let shown = match label {
                Some(label) => label.clone(),
                None => String::new(),
            };
            Err(BootError::UnknownLabel { label: shown })
        },
    }
}

proof fn lemma_nothing_shared(a: Seq<u64>, b: Seq<u64>)
    requires
        first_shared(a, b) is None,
    ensures
        forall|g: u64| a.contains(g) ==> !b.contains(g),
    decreases a.len(),
{
    if a.len() > 0 {
        lemma_nothing_shared(a.drop_first(), b);
        assert forall|g: u64| a.contains(g) implies !b.contains(g) by {
            let k = choose|k: int| 0 <= k < a.len() && a[k] == g;
            if k > 0 {
                assert(a.drop_first()[k - 1] == g);
                assert(a.drop_first().contains(g));
            }
        }
    }
}

/// A guild wears one hat: it is the home guild, a secondary one, a watched one, or none, and
/// no two of these. Without a home guild nobody wears any.
pub proof fn lemma_a_guild_wears_one_hat(config: Config, guild: u64)
    requires
        hats(config) is Ok,
    ensures
        ({
            let h = hats(config)->Ok_0;
            &&& !(h.primary == Some(guild) && h.secondary.contains(guild))
            &&& !(h.primary == Some(guild) && h.readonly.contains(guild))
            &&& !(h.secondary.contains(guild) && h.readonly.contains(guild))
            &&& h.primary is None ==> !h.secondary.contains(guild) && !h.readonly.contains(guild)
        }),
{
    let h = hats(config)->Ok_0;
    lemma_nothing_shared(h.secondary, h.readonly);
}

/// What every start begins with is made of the settings.
pub open spec fn booted(config: Config, b: Boot) -> bool {
    &&& hats(config) == Ok::<Hats, HatFault>(b.topology@)
    &&& b.observer is Some <==> b.topology.readonly@.len() > 0
    &&& b.observer matches Some(o) ==> o.guilds@ == b.topology.readonly@
}

/// The server wears the hats that the settings hand out.
pub proof fn lemma_the_server_wears_the_hats(
    s: KurouServer,
    config: Config,
    b: Boot,
    tenants: Tenants,
    ledger: Option<Ledger>,
)
    requires
        booted(config, b),
        is_server(s, config, b, tenants, ledger),
    ensures
        hats(config) is Ok,
        wears(s, hats(config)->Ok_0),
{
    assert(s.watched() =~= b.topology.readonly@);
}

/// The wall reads a guild with the bot that the tools read it with.
pub proof fn lemma_the_wall_reads_with_the_same_bot(
    s: KurouServer,
    pool: ClientPool,
    config: Config,
    b: Boot,
    tenants: Tenants,
    ledger: Option<Ledger>,
    guild: u64,
)
    requires
        is_server(s, config, b, tenants, ledger),
        is_pool(pool, b),
    ensures
        pool.reader(guild) == s.reader(guild),
{
}

/// No guild is carried twice: where both bots share one, only one of the two gateways keeps
/// its messages and shows them.
pub proof fn lemma_no_guild_is_carried_twice(
    config: Config,
    b: Boot,
    tenants: Tenants,
    ledger: Option<Ledger>,
    over_http: bool,
    home: GatewayConfig,
    watcher: GatewayConfig,
    guild: u64,
)
    requires
        booted(config, b),
        b.observer is Some,
        is_primary_gateway(home, config, b.topology@, tenants, ledger, over_http),
        is_observer_gateway(watcher, b.observer->0, tenants, ledger),
    ensures
        !(home.broadcast_guilds@.contains(guild) && watcher.broadcast_guilds@.contains(guild)),
{
    lemma_a_guild_wears_one_hat(config, guild);
    let h = b.topology@;
    if home.broadcast_guilds@.contains(guild) {
        let i = choose|i: int|
            0 <= i < home.broadcast_guilds@.len() && home.broadcast_guilds@[i] == guild;
        if h.primary is Some {
            if i > 0 {
                assert(h.secondary[i - 1] == guild);
            }
        } else {
            assert(h.secondary[i] == guild);
        }
    }
}

/// Unless it is asked for, no gateway is opened at all: with the gateway off, and neither the
/// wall, the archive nor the ledger wanted, nobody in a guild can call the crow.
pub proof fn lemma_nobody_calls_unless_asked(
    config: Config,
    h: Hats,
    ledger: Option<Ledger>,
    over_http: bool,
    g: GatewayConfig,
)
    requires
        config.gateway_mode == GatewayMode::Off,
        !config.wall,
        !config.archive,
        !config.modlog,
        is_primary_gateway(
            g,
            config,
            h,
            if over_http {
                tenants_behind_http(config)
            } else {
                tenants_on_a_terminal(config)
            },
            ledger,
            over_http,
        ),
    ensures
        !g.is_wanted(),
        !tenants_behind_http(config).ledger,
        !tenants_on_a_terminal(config).ledger,
{
}

} // verus!
