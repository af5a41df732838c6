//! What the settings come to.

use vstd::prelude::*;

use crate::config::{sender_of, sender_tokens, sender_views, senders_of, Config, GatewayMode, SenderToken};
use crate::gateway::GatewayConfig;
use crate::laws::scan::named_id;
use crate::ledger::Ledger;
use crate::modlog::Notifier;
use crate::server::boot::{
    accounts, allowed_hosts, boot, build_modlog_notifier, first_shared, guild_ids,
    http_tenants, observer_gateway, parse_guild_list, parse_topology, parse_wake_dm_from, plan_pool,
    plan_server, primary_gateway, stdio_tenants, Boot, BootError, GuildTopology, Tenants,
};
use crate::server::KurouServer;
use crate::text::{is_blank, lowercased, texts, trimmed};
use crate::wall::ClientPool;

verus! {

/// An entry of a list counts: it is not blank.
pub open spec fn says_something(s: String) -> bool {
    !is_blank(s@)
}

/// Every entry of a list that is not blank stands for a number.
pub open spec fn all_that_count_are_ids(raw: Seq<String>) -> bool {
    forall|i: int| 0 <= i < raw.len() && says_something(raw[i]) ==> named_id((#[trigger] raw[i])@) is Some
}

/// Some entry of a list that is not blank stands for a number.
pub open spec fn is_listed(raw: Seq<String>, id: u64) -> bool {
    exists|i: int|
        0 <= i < raw.len() && says_something(raw[i]) && named_id((#[trigger] raw[i])@) == Some(id)
}

proof fn lemma_guild_ids(raw: Seq<String>)
    ensures
        guild_ids(raw) is Ok <==> all_that_count_are_ids(raw),
        guild_ids(raw) matches Ok(ids) ==> {
            &&& ids.len() == raw.filter(|s: String| says_something(s)).len()
            &&& forall|i: int|
                0 <= i < ids.len() ==> Some(#[trigger] ids[i]) == named_id(
                    raw.filter(|s: String| says_something(s))[i]@,
                )
            &&& forall|id: u64| #[trigger] ids.contains(id) <==> is_listed(raw, id)
        },
        guild_ids(raw) matches Err(bad) ==> exists|k: int|
            0 <= k < raw.len() && bad == (#[trigger] raw[k])@ && named_id(bad) is None && says_something(
                raw[k],
            ),
    decreases raw.len(),
{
    reveal(Seq::filter);
    let p = |s: String| says_something(s);
    if raw.len() > 0 {
        let front = raw.drop_last();
        let last = raw.last();
        lemma_guild_ids(front);
        assert(raw[raw.len() - 1] == last);
        assert(forall|i: int| 0 <= i < front.len() ==> #[trigger] front[i] == raw[i]);
        assert(all_that_count_are_ids(raw) <==> all_that_count_are_ids(front) && (says_something(last)
            ==> named_id(last@) is Some)) by {
            if all_that_count_are_ids(raw) {
                assert forall|i: int| 0 <= i < front.len() && says_something(front[i]) implies named_id(
                    (#[trigger] front[i])@,
                ) is Some by {
                    assert(raw[i] == front[i]);
                }
            }
            if all_that_count_are_ids(front) && (says_something(last) ==> named_id(last@) is Some) {
                assert forall|i: int| 0 <= i < raw.len() && says_something(raw[i]) implies named_id(
                    (#[trigger] raw[i])@,
                ) is Some by {
                    if i < front.len() {
                        assert(raw[i] == front[i]);
                    }
                }
            }
        }
        match guild_ids(front) {
            Err(bad) => {
                let k = choose|k: int|
                    0 <= k < front.len() && bad == (#[trigger] front[k])@ && named_id(bad) is None
                        && says_something(front[k]);
                assert(raw[k] == front[k]);
            },
            Ok(before) => {
                if let Ok(ids) = guild_ids(raw) {
                    assert forall|id: u64| #[trigger] ids.contains(id) <==> is_listed(raw, id) by {
                        assert(before.contains(id) <==> is_listed(front, id));
                        if is_listed(raw, id) {
                            let i = choose|i: int|
                                0 <= i < raw.len() && says_something(raw[i]) && named_id(
                                    (#[trigger] raw[i])@,
                                ) == Some(id);
                            if i < front.len() {
                                assert(front[i] == raw[i]);
                                let k = choose|k: int| 0 <= k < before.len() && before[k] == id;
                                assert(ids[k] == id);
                            } else {
                                assert(ids[ids.len() - 1] == id);
                            }
                        }
                        if ids.contains(id) {
                            let k = choose|k: int| 0 <= k < ids.len() && ids[k] == id;
                            if k < before.len() {
                                assert(before[k] == id);
                                assert(before.contains(id));
                                let i = choose|i: int|
                                    0 <= i < front.len() && says_something(front[i]) && named_id(
                                        (#[trigger] front[i])@,
                                    ) == Some(id);
                                assert(raw[i] == front[i]);
                            }
                        }
                    }
                    let kept = raw.filter(p);
                    let was = front.filter(p);
                    assert forall|i: int| 0 <= i < ids.len() implies Some(#[trigger] ids[i]) == named_id(
                        kept[i]@,
                    ) by {
                        if i < before.len() {
                            assert(before[i] == ids[i]);
                            assert(kept[i] == was[i]);
                        }
                    }
                }
            },
        }
    }
}

/// A list of guilds is read whole, in order, blank entries left out; or an entry that is no id
/// is named, with the setting it stands in.
pub proof fn lemma_every_guild_is_read(name: &str, raw: Vec<String>, r: Result<Vec<u64>, BootError>)
    requires
        call_ensures(parse_guild_list, (name, &raw), r),
    ensures
        r is Ok <==> all_that_count_are_ids(raw@),
        r matches Ok(ids) ==> {
            let given = raw@.filter(|s: String| says_something(s));
            &&& ids@.len() == given.len()
            &&& forall|i: int| 0 <= i < ids@.len() ==> Some(#[trigger] ids@[i]) == named_id(given[i]@)
            &&& forall|id: u64| #[trigger] ids@.contains(id) <==> is_listed(raw@, id)
        },
        r matches Err(e) ==> (e matches BootError::BadSnowflake { name: n, raw: bad } && n@ == name@ && exists|
            k: int,
        |
            0 <= k < raw@.len() && bad@ == (#[trigger] raw@[k])@ && named_id(bad@) is None),
{
    lemma_guild_ids(raw@);
}

/// The home guild as it is given: under its own name, or else under the older one.
pub open spec fn home_given(config: Config) -> Option<String> {
    if config.primary_guild is Some && says_something(config.primary_guild->0) {
        config.primary_guild
    } else if config.discord_guild_id is Some && says_something(config.discord_guild_id->0) {
        config.discord_guild_id
    } else {
        None
    }
}

/// The settings hand out hats: every guild's id reads, there is a home guild where there is any
/// other, and no guild has two hats.
pub open spec fn hats_fit(config: Config) -> bool {
    let home = home_given(config);
    &&& home matches Some(raw) ==> named_id(raw@) is Some
    &&& all_that_count_are_ids(config.secondary_guilds@)
    &&& all_that_count_are_ids(config.readonly_guilds@)
    &&& home is None ==> forall|i: int|
        0 <= i < config.secondary_guilds@.len() ==> !says_something(#[trigger] config.secondary_guilds@[i])
    &&& home is None ==> forall|i: int|
        0 <= i < config.readonly_guilds@.len() ==> !says_something(#[trigger] config.readonly_guilds@[i])
    &&& home matches Some(raw) ==> !is_listed(config.secondary_guilds@, named_id(raw@)->0) && !is_listed(
        config.readonly_guilds@,
        named_id(raw@)->0,
    )
    &&& forall|id: u64|
        #![trigger is_listed(config.secondary_guilds@, id)]
        !(is_listed(config.secondary_guilds@, id) && is_listed(config.readonly_guilds@, id))
}

/// Guilds wear the hats that the settings hand out.
pub open spec fn hats_are(config: Config, t: GuildTopology) -> bool {
    &&& t.primary is Some <==> home_given(config) is Some
    &&& home_given(config) matches Some(raw) ==> t.primary == named_id(raw@)
    &&& forall|id: u64| #[trigger] t.secondary@.contains(id) <==> is_listed(config.secondary_guilds@, id)
    &&& forall|id: u64| #[trigger] t.readonly@.contains(id) <==> is_listed(config.readonly_guilds@, id)
}

proof fn lemma_first_shared(a: Seq<u64>, b: Seq<u64>)
    ensures
        first_shared(a, b) is Some <==> exists|id: u64| #[trigger] a.contains(id) && b.contains(id),
        first_shared(a, b) matches Some(id) ==> a.contains(id) && b.contains(id),
    decreases a.len(),
{
    if a.len() > 0 {
        let t = a.drop_first();
        lemma_first_shared(t, b);
        if b.contains(a[0]) {
            assert(a.contains(a[0]));
        }
        if exists|id: u64| #[trigger] a.contains(id) && b.contains(id) {
            let id = choose|id: u64| #[trigger] a.contains(id) && b.contains(id);
            let k = choose|k: int| 0 <= k < a.len() && a[k] == id;
            if k > 0 {
                assert(t[k - 1] == id);
                assert(t.contains(id));
            }
        }
        if let Some(id) = first_shared(t, b) {
            let k = choose|k: int| 0 <= k < t.len() && t[k] == id;
            assert(a[k + 1] == id);
            assert(a.contains(id));
        }
    }
}

proof fn lemma_none_counts(raw: Seq<String>)
    requires
        guild_ids(raw) is Ok,
    ensures
        guild_ids(raw)->Ok_0.len() == 0 <==> forall|i: int|
            0 <= i < raw.len() ==> !says_something(#[trigger] raw[i]),
{
    lemma_guild_ids(raw);
    let ids = guild_ids(raw)->Ok_0;
    if ids.len() > 0 {
        assert(ids.contains(ids[0]));
        let i = choose|i: int|
            0 <= i < raw.len() && says_something(raw[i]) && named_id((#[trigger] raw[i])@) == Some(ids[0]);
        assert(says_something(raw[i]));
    }
    if exists|i: int| 0 <= i < raw.len() && says_something(#[trigger] raw[i]) {
        let i = choose|i: int| 0 <= i < raw.len() && says_something(#[trigger] raw[i]);
        assert(named_id(raw[i]@) is Some);
        let id = named_id(raw[i]@)->0;
        assert(is_listed(raw, id));
        assert(ids.contains(id));
    }
}

proof fn lemma_hats(config: Config)
    ensures
        crate::server::boot::hats(config) is Ok <==> hats_fit(config),
{
    let s = config.secondary_guilds@;
    let w = config.readonly_guilds@;
    lemma_guild_ids(s);
    lemma_guild_ids(w);
    if guild_ids(s) is Ok && guild_ids(w) is Ok {
        let a = guild_ids(s)->Ok_0;
        let b = guild_ids(w)->Ok_0;
        lemma_none_counts(s);
        lemma_none_counts(w);
        lemma_first_shared(a, b);
        assert((exists|id: u64| #[trigger] a.contains(id) && b.contains(id)) <==> exists|id: u64|
            #![trigger is_listed(s, id)]
            is_listed(s, id) && is_listed(w, id)) by {
            if exists|id: u64| #[trigger] a.contains(id) && b.contains(id) {
                let id = choose|id: u64| #[trigger] a.contains(id) && b.contains(id);
                assert(is_listed(s, id) && is_listed(w, id));
            }
            if exists|id: u64|
                #![trigger is_listed(s, id)]
                is_listed(s, id) && is_listed(w, id) {
                let id = choose|id: u64|
                    #![trigger is_listed(s, id)]
                    is_listed(s, id) && is_listed(w, id);
                assert(a.contains(id) && b.contains(id));
            }
        }
        if let Some(raw) = home_given(config) {
            if let Some(home) = named_id(raw@) {
                assert(a.contains(home) <==> is_listed(s, home));
                assert(b.contains(home) <==> is_listed(w, home));
            }
        }
    }
}

/// The guilds get their hats exactly where the hats fit, each guild that is listed the one it
/// is listed for and no other guild any.
pub proof fn lemma_hats_are_handed_out(config: Config, r: Result<GuildTopology, BootError>)
    requires
        call_ensures(parse_topology, (&config,), r),
    ensures
        r is Ok <==> hats_fit(config),
        r matches Ok(t) ==> hats_are(config, t),
{
    lemma_hats(config);
    lemma_guild_ids(config.secondary_guilds@);
    lemma_guild_ids(config.readonly_guilds@);
}

/// The crow starts exactly where it has a token, the hats fit, and whoever only watches has a
/// token too; and then with these.
pub proof fn lemma_when_the_crow_starts(config: Config, r: Result<Boot, BootError>)
    requires
        call_ensures(boot, (&config,), r),
    ensures
        r is Ok <==> {
            &&& config.discord_token is Some && says_something(config.discord_token->0)
            &&& hats_fit(config)
            &&& (exists|i: int|
                0 <= i < config.readonly_guilds@.len() && says_something(
                    #[trigger] config.readonly_guilds@[i],
                )) ==> config.readonly_discord_token is Some && says_something(
                config.readonly_discord_token->0,
            )
        },
        r matches Ok(b) ==> {
            &&& b.token@ == config.discord_token->0@
            &&& hats_are(config, b.topology)
            &&& b.observer is Some <==> b.topology.readonly@.len() > 0
            &&& b.observer matches Some(o) ==> o.guilds@ == b.topology.readonly@ && o.token@ == trimmed(
                config.readonly_discord_token->0@,
            )
        },
        !(config.discord_token is Some && says_something(config.discord_token->0)) ==> r == Err::<
            Boot,
            BootError,
        >(BootError::NoToken),
{
    lemma_hats(config);
    lemma_guild_ids(config.secondary_guilds@);
    lemma_guild_ids(config.readonly_guilds@);
    if guild_ids(config.readonly_guilds@) is Ok {
        lemma_none_counts(config.readonly_guilds@);
    }
}

/// The writes of the ledger are shown in the channel given, if one is.
pub proof fn lemma_where_writes_are_shown(config: Config, r: Result<Option<Notifier>, BootError>)
    requires
        call_ensures(build_modlog_notifier, (&config,), r),
    ensures
        config.modlog_channel is None || !says_something(config.modlog_channel->0) ==> r is Ok
            && r->Ok_0 is None,
        config.modlog_channel is Some && says_something(config.modlog_channel->0) ==> (r is Ok <==> named_id(
            config.modlog_channel->0@,
        ) is Some) && (r is Ok ==> r->Ok_0 is Some && Some(r->Ok_0->0.channel) == named_id(
            config.modlog_channel->0@,
        )),
{
}

proof fn lemma_accounts(raw: Seq<String>)
    ensures
        forall|id: u64| #[trigger]
            accounts(raw).contains(id) <==> exists|i: int|
                0 <= i < raw.len() && named_id((#[trigger] raw[i])@) == Some(id),
    decreases raw.len(),
{
    if raw.len() > 0 {
        let front = raw.drop_last();
        lemma_accounts(front);
        assert(raw[raw.len() - 1] == raw.last());
        let before = accounts(front);
        let all = accounts(raw);
        assert forall|id: u64| #[trigger] all.contains(id) <==> exists|i: int|
            0 <= i < raw.len() && named_id((#[trigger] raw[i])@) == Some(id) by {
            assert(before.contains(id) <==> exists|i: int|
                0 <= i < front.len() && named_id((#[trigger] front[i])@) == Some(id));
            if all.contains(id) {
                let k = choose|k: int| 0 <= k < all.len() && all[k] == id;
                if k < before.len() {
                    assert(before[k] == id);
                    assert(before.contains(id));
                    let i = choose|i: int| 0 <= i < front.len() && named_id((#[trigger] front[i])@) == Some(id);
                    assert(raw[i] == front[i]);
                }
            }
            if exists|i: int| 0 <= i < raw.len() && named_id((#[trigger] raw[i])@) == Some(id) {
                let i = choose|i: int| 0 <= i < raw.len() && named_id((#[trigger] raw[i])@) == Some(id);
                if i < front.len() {
                    assert(front[i] == raw[i]);
                    assert(before.contains(id));
                    let k = choose|k: int| 0 <= k < before.len() && before[k] == id;
                    assert(all[k] == id);
                } else {
                    assert(all[all.len() - 1] == id);
                }
            }
        }
    }
}

/// Everybody listed whose number reads has their private calls taken, and nobody else.
pub proof fn lemma_whose_private_calls_are_taken(ids: Vec<String>, r: Vec<u64>)
    requires
        call_ensures(parse_wake_dm_from, (&ids,), r),
    ensures
        forall|id: u64| #[trigger]
            r@.contains(id) <==> exists|i: int|
                0 <= i < ids@.len() && named_id((#[trigger] ids@[i])@) == Some(id),
{
    lemma_accounts(ids@);
}

/// The hosts given are the ones let in, all of them; where none is given, the local ones and
/// the one listened on are.
pub proof fn lemma_who_is_let_in(config: Config, r: Vec<String>)
    requires
        call_ensures(allowed_hosts, (&config,), r),
    ensures
        config.allowed_hosts@.len() > 0 ==> texts(r@) == texts(config.allowed_hosts@),
        config.allowed_hosts@.len() == 0 ==> texts(r@).contains("localhost"@) && texts(r@).contains(
            "127.0.0.1"@,
        ) && texts(r@).contains("::1"@) && texts(r@).contains(config.host@) && r@.len() == 5,
{
    if config.allowed_hosts@.len() == 0 {
        assert(texts(r@)[0] == "localhost"@);
        assert(texts(r@)[1] == "127.0.0.1"@);
        assert(texts(r@)[2] == "::1"@);
        assert(texts(r@)[3] == config.host@);
        assert(texts(r@).len() == r@.len());
    }
}

/// Whoever was asked for is opened, and nobody else; the ledger is for any of them. On a
/// terminal there is neither a wall nor an archive.
pub proof fn lemma_who_is_opened(config: Config, http: Tenants, stdio: Tenants)
    requires
        call_ensures(http_tenants, (&config,), http),
        call_ensures(stdio_tenants, (&config,), stdio),
    ensures
        http.mentions <==> config.gateway_mode == GatewayMode::Mentions,
        stdio.mentions <==> config.gateway_mode == GatewayMode::Mentions,
        http.archive <==> config.archive,
        !stdio.archive && !stdio.wall,
        http.wall <==> config.wall,
        http.modlog <==> config.modlog,
        stdio.modlog <==> config.modlog,
        http.scheduler <==> config.modlog,
        stdio.scheduler <==> config.modlog,
        http.presence <==> config.wake_url is Some,
        stdio.presence <==> config.wake_url is Some,
        http.ledger <==> http.mentions || http.archive || http.modlog || http.wall,
        stdio.ledger <==> stdio.mentions || stdio.archive || stdio.modlog || stdio.wall,
{
}

/// The primary bot listens in the home guild, as told, and carries the home guild and the
/// secondary ones. Whatever is opened keeps its things in the one ledger.
pub proof fn lemma_the_primary_bot_listens(
    config: Config,
    b: Boot,
    tenants: Tenants,
    ledger: Option<Ledger>,
    notifier: Option<Notifier>,
    bots: Vec<u64>,
    over_http: bool,
    g: GatewayConfig,
)
    requires
        call_ensures(primary_gateway, (&config, &b, &tenants, &ledger, notifier, bots, over_http), g),
    ensures
        g.mode == config.gateway_mode,
        g.default_guild == b.topology.primary,
        g.crow_bot_ids@ == bots@,
        texts(g.mention_keywords@) == texts(config.mention_keywords@),
        over_http ==> forall|id: u64| #[trigger]
            g.broadcast_guilds@.contains(id) <==> b.topology.primary == Some(id)
                || b.topology.secondary@.contains(id),
        !over_http ==> g.broadcast_guilds@.len() == 0,
        g.mention_store is Some <==> tenants.mentions && ledger is Some,
        g.archive is Some <==> tenants.archive && ledger is Some,
        g.modlog is Some <==> tenants.modlog && ledger is Some,
        g.mention_store matches Some(s) ==> s.path@ == ledger->0.path@,
        g.archive matches Some(s) ==> s.path@ == ledger->0.path@,
        g.modlog matches Some(s) ==> s.path@ == ledger->0.path@ && s.notifier == notifier,
        g.fanout <==> tenants.wall,
        g.presence <==> tenants.presence,
        forall|id: u64| #[trigger]
            g.wake_dm_from@.contains(id) <==> exists|i: int|
                0 <= i < config.wake_dm_from@.len() && named_id((#[trigger] config.wake_dm_from@[i])@)
                    == Some(id),
{
    lemma_accounts(config.wake_dm_from@);
    if over_http {
        let all = g.broadcast_guilds@;
        let home: Seq<u64> = match b.topology.primary {
            Some(primary) => seq![primary],
            None => seq![],
        };
        assert(all == home + b.topology.secondary@);
        assert forall|id: u64| #[trigger] all.contains(id) <==> b.topology.primary == Some(id)
            || b.topology.secondary@.contains(id) by {
            if all.contains(id) {
                let k = choose|k: int| 0 <= k < all.len() && all[k] == id;
                if k >= home.len() {
                    assert(b.topology.secondary@[k - home.len()] == id);
                }
            }
            if b.topology.primary == Some(id) {
                assert(all[0] == id);
            }
            if b.topology.secondary@.contains(id) {
                let k = choose|k: int| 0 <= k < b.topology.secondary@.len() && b.topology.secondary@[k] == id;
                assert(all[home.len() + k] == id);
            }
        }
    }
}

/// The observer listens where there is one and somebody wants what it hears, to the guilds it
/// watches; it keeps no letters, writes no ledger and calls nobody.
pub proof fn lemma_the_observer_only_listens(
    b: Boot,
    tenants: Tenants,
    ledger: Option<Ledger>,
    r: Option<GatewayConfig>,
)
    requires
        call_ensures(observer_gateway, (&b, &tenants, &ledger), r),
    ensures
        r is Some <==> b.observer is Some && (tenants.wall || tenants.archive),
        r matches Some(g) ==> {
            &&& g.broadcast_guilds@ == b.observer->0.guilds@
            &&& g.archive is Some <==> tenants.archive && ledger is Some
            &&& g.archive matches Some(s) ==> s.path@ == ledger->0.path@
            &&& g.fanout <==> tenants.wall
            &&& g.mode != GatewayMode::Mentions && g.mention_store is None && g.modlog is None && g.wake is None
                && !g.presence
        },
{
}

/// The server and the wall know the same guilds, and the same stores as the listeners.
pub proof fn lemma_the_server_is_as_told(
    config: Config,
    b: Boot,
    tenants: Tenants,
    ledger: Option<Ledger>,
    notifier: Option<Notifier>,
    senders: Vec<String>,
    s: KurouServer,
    pool: ClientPool,
)
    requires
        call_ensures(plan_server, (&config, &b, &tenants, &ledger, notifier, senders), s),
        call_ensures(plan_pool, (&b,), pool),
    ensures
        s.default_guild == b.topology.primary && pool.default_guild == b.topology.primary,
        s.secondary_guilds@ == b.topology.secondary@ && pool.secondary_guilds@ == b.topology.secondary@,
        s.observer is Some <==> b.observer is Some,
        pool.observer <==> b.observer is Some,
        b.observer matches Some(o) ==> s.observer->0.guilds@ == o.guilds@ && pool.readonly_guilds@
            == o.guilds@,
        b.observer is None ==> pool.readonly_guilds@.len() == 0,
        s.mention_store is Some <==> tenants.mentions && ledger is Some,
        s.message_store is Some <==> tenants.archive && ledger is Some,
        s.modlog_store is Some <==> tenants.modlog && ledger is Some,
        s.modlog_store matches Some(store) ==> store.path@ == ledger->0.path@ && store.notifier == notifier,
        s.message_store matches Some(store) ==> store.path@ == ledger->0.path@,
        s.mention_store matches Some(store) ==> store.path@ == ledger->0.path@,
        texts(s.senders@) == texts(senders@),
        s.presence <==> tenants.presence,
        forall|id: u64| #[trigger]
            s.wake_dm_from@.contains(id) <==> exists|i: int|
                0 <= i < config.wake_dm_from@.len() && named_id((#[trigger] config.wake_dm_from@[i])@)
                    == Some(id),
{
    lemma_accounts(config.wake_dm_from@);
}

/// A setting gives somebody a voice: it is named after them, and holds a token.
pub open spec fn gives_voice(key: Seq<char>, value: Seq<char>, label: Seq<char>, token: Seq<char>) -> bool {
    exists|name: Seq<char>| #[trigger]
        is_key_of(key, name) && name.len() > 0 && label == lowercased(name) && !is_blank(value) && token
            == trimmed(value)
}

pub open spec fn is_key_of(key: Seq<char>, name: Seq<char>) -> bool {
    key == "DISCORD_TOKEN_"@ + name
}

/// Some voice of a list has a label and a token.
pub open spec fn is_among(r: Seq<SenderToken>, label: Seq<char>, token: Seq<char>) -> bool {
    exists|i: int| 0 <= i < r.len() && (#[trigger] r[i]).label@ == label && r[i].token@ == token
}

/// Everybody whom a setting gives a voice has one, and nobody else has.
pub proof fn lemma_who_has_a_voice(vars: Vec<(String, String)>, r: Vec<SenderToken>)
    requires
        call_ensures(sender_tokens, (&vars,), r),
    ensures
        forall|label: Seq<char>, token: Seq<char>| #[trigger]
            is_among(r@, label, token) <==> exists|i: int|
                0 <= i < vars@.len() && #[trigger] gives_voice(
                    vars@[i].0@,
                    vars@[i].1@,
                    label,
                    token,
                ),
{
    lemma_senders(vars@);
    assert forall|label: Seq<char>, token: Seq<char>| #[trigger]
        is_among(r@, label, token) <==> exists|i: int|
            0 <= i < vars@.len() && #[trigger] gives_voice(vars@[i].0@, vars@[i].1@, label, token) by {
        let views = sender_views(r@);
        assert(views.len() == r@.len());
        assert(senders_of(vars@).contains((label, token)) <==> exists|i: int|
            0 <= i < vars@.len() && #[trigger] gives_voice(vars@[i].0@, vars@[i].1@, label, token));
        if is_among(r@, label, token) {
            let i = choose|i: int|
                0 <= i < r@.len() && (#[trigger] r@[i]).label@ == label && r@[i].token@ == token;
            assert(views[i] == (label, token));
        }
        if views.contains((label, token)) {
            let i = choose|i: int| 0 <= i < views.len() && views[i] == (label, token);
            assert(r@[i].label@ == label);
        }
    }
}

proof fn lemma_sender(key: Seq<char>, value: Seq<char>, label: Seq<char>, token: Seq<char>)
    ensures
        sender_of(key, value) == Some((label, token)) <==> gives_voice(key, value, label, token),
{
    let prefix = "DISCORD_TOKEN_"@;
    let n = prefix.len() as int;
    if gives_voice(key, value, label, token) {
        let name = choose|name: Seq<char>| #[trigger]
            is_key_of(key, name) && name.len() > 0 && label == lowercased(name) && !is_blank(value)
                && token == trimmed(value);
        assert(key.take(n) =~= prefix);
        assert(key.skip(n) =~= name);
    }
    if sender_of(key, value) == Some((label, token)) {
        let name = key.skip(n);
        assert(key =~= prefix + name);
        assert(is_key_of(key, name));
    }
}

proof fn lemma_senders(vars: Seq<(String, String)>)
    ensures
        forall|label: Seq<char>, token: Seq<char>| #[trigger]
            senders_of(vars).contains((label, token)) <==> exists|i: int|
                0 <= i < vars.len() && #[trigger] gives_voice(vars[i].0@, vars[i].1@, label, token),
    decreases vars.len(),
{
    if vars.len() > 0 {
        let front = vars.drop_last();
        lemma_senders(front);
        let last = vars.last();
        let before = senders_of(front);
        let all = senders_of(vars);
        assert forall|label: Seq<char>, token: Seq<char>| #[trigger]
            all.contains((label, token)) <==> exists|i: int|
                0 <= i < vars.len() && #[trigger] gives_voice(vars[i].0@, vars[i].1@, label, token) by {
            lemma_sender(last.0@, last.1@, label, token);
            assert(before.contains((label, token)) <==> exists|i: int|
                0 <= i < front.len() && #[trigger] gives_voice(front[i].0@, front[i].1@, label, token));
            if all.contains((label, token)) {
                let k = choose|k: int| 0 <= k < all.len() && all[k] == (label, token);
                if k < before.len() {
                    assert(before[k] == (label, token));
                    assert(before.contains((label, token)));
                    let i = choose|i: int|
                        0 <= i < front.len() && #[trigger] gives_voice(
                            front[i].0@,
                            front[i].1@,
                            label,
                            token,
                        );
                    assert(vars[i] == front[i]);
                    assert(gives_voice(vars[i].0@, vars[i].1@, label, token));
                } else {
                    let i = vars.len() - 1;
                    assert(vars[i] == last);
                    assert(gives_voice(vars[i].0@, vars[i].1@, label, token));
                }
            }
            if exists|i: int|
                0 <= i < vars.len() && #[trigger] gives_voice(vars[i].0@, vars[i].1@, label, token) {
                let i = choose|i: int|
                    0 <= i < vars.len() && #[trigger] gives_voice(vars[i].0@, vars[i].1@, label, token);
                if i < front.len() {
                    assert(front[i] == vars[i]);
                    assert(gives_voice(front[i].0@, front[i].1@, label, token));
                    assert(before.contains((label, token)));
                    let k = choose|k: int| 0 <= k < before.len() && before[k] == (label, token);
                    assert(all[k] == (label, token));
                } else {
                    assert(all[all.len() - 1] == (label, token));
                }
            }
        }
    }
}

} // verus!
