//! What the house keeps open, what it looks up, and how it sees its guests.

use vstd::prelude::*;

use crate::auth::AuthConfig;
use crate::clock::house_text;
use crate::config::{filled_text, Config};
use crate::discord::client::BanPager;
use crate::laws::door::{is_held, lemma_labelled};
use crate::laws::texts::{hex_value, is_hex};
use crate::laws::words::{is_all_space, is_trim_of, lemma_blank_is_all_space, lemma_trimmed};
use crate::layout::LayoutStore;
use crate::ledger::Ledger;
use crate::modlog::{ModAction, ModlogStore, Notifier};
use crate::mentions::MentionStore;
use crate::archive::MessageStore;
use crate::oauth::{OAuthStore, PendingCode, TokenReply};
use crate::scheduler::{is_already_gone, is_ripe};
use crate::server::boot::{
    build_observer, mention_store, message_store, modlog_store, oauth_access, BootError, GuildTopology, ObserverPlan,
    Tenants,
};
use crate::server::tools::modlog::render_times;
use crate::sql::{bound, Bound, Statement};
use crate::text::{opt_text, texts};
use crate::uploads::check_waveform;
use crate::wall::event::{highest, lemma_the_highest_role_colours, EnrichCache, RoleColor};
use crate::wall::{get_layout, keep_layout};

verus! {

/// A store is open exactly where it is asked for and there is a ledger, and lies where that
/// does; whoever is told of the mod ledger's writes stays told.
pub proof fn lemma_what_is_open(
    tenants: Tenants,
    ledger: Option<Ledger>,
    notifier: Option<Notifier>,
    modlog: Option<ModlogStore>,
    mentions: Option<MentionStore>,
    archive: Option<MessageStore>,
)
    requires
        call_ensures(modlog_store, (&tenants, &ledger, notifier), modlog),
        call_ensures(mention_store, (&tenants, &ledger), mentions),
        call_ensures(message_store, (&tenants, &ledger), archive),
    ensures
        modlog is Some <==> tenants.modlog && ledger is Some,
        mentions is Some <==> tenants.mentions && ledger is Some,
        archive is Some <==> tenants.archive && ledger is Some,
        modlog matches Some(s) ==> s.path@ == ledger->0.path@ && s.notifier == notifier,
        mentions matches Some(s) ==> s.path@ == ledger->0.path@,
        archive matches Some(s) ==> s.path@ == ledger->0.path@,
{
}

/// A setting is there: it is given, and not blank.
pub open spec fn is_set(v: Option<String>) -> bool {
    v is Some && !is_all_space(v->0@)
}

/// An observer is planned exactly where guilds are only watched, with a token of its own, and
/// it watches all of them.
pub proof fn lemma_who_watches(config: Config, topology: GuildTopology, r: Result<Option<ObserverPlan>, BootError>)
    requires
        call_ensures(build_observer, (&config, &topology), r),
    ensures
        r is Err <==> topology.readonly@.len() > 0 && !is_set(config.readonly_discord_token),
        r matches Ok(plan) ==> (plan is Some <==> topology.readonly@.len() > 0),
        r matches Ok(Some(plan)) ==> plan.guilds@ == topology.readonly@ && is_trim_of(
            plan.token@,
            config.readonly_discord_token->0@,
        ),
{
    if let Some(token) = config.readonly_discord_token {
        lemma_blank_is_all_space(token@);
        lemma_trimmed(token@);
    }
}

/// A setting that is there is read without the white space around it.
pub proof fn lemma_a_setting_is_read(v: Option<String>, r: Option<String>)
    requires
        call_ensures(filled_text, (&v,), r),
    ensures
        r is Some <==> is_set(v),
        r matches Some(text) ==> is_trim_of(text@, v->0@),
{
    if let Some(text) = v {
        lemma_blank_is_all_space(text@);
        lemma_trimmed(text@);
    }
}

/// The ledger lies where it was put, under the new name of the setting or the old one; and the
/// home guild is the one given under either name, the new one first.
pub proof fn lemma_old_names_are_known(config: Config, old_path: Option<String>, path: String, home: Option<String>)
    requires
        call_ensures(Config::ledger_path, (&config, old_path), path),
        call_ensures(Config::primary_guild_raw, (&config,), home),
    ensures
        config.ledger_path is Some ==> path@ == config.ledger_path->0@,
        config.ledger_path is None && old_path is Some ==> path@ == old_path->0@,
        home is Some <==> is_set(config.primary_guild) || is_set(config.discord_guild_id),
        is_set(config.primary_guild) ==> home->0@ == config.primary_guild->0@,
        !is_set(config.primary_guild) && is_set(config.discord_guild_id) ==> home->0@ == config.discord_guild_id->0@,
{
    if let Some(text) = config.primary_guild {
        lemma_blank_is_all_space(text@);
    }
    if let Some(text) = config.discord_guild_id {
        lemma_blank_is_all_space(text@);
    }
}

/// The shim hands out a token that is held: the one under the label that was set, or the first;
/// none where none is needed. A label that nothing is held under stops the house.
pub proof fn lemma_which_token_is_handed_out(
    auth: AuthConfig,
    label: Option<String>,
    r: Result<Option<String>, BootError>,
)
    requires
        call_ensures(oauth_access, (&auth, &label), r),
    ensures
        r matches Ok(token) ==> (token is Some <==> auth.tokens@.len() > 0),
        r matches Ok(Some(token)) ==> {
            &&& label is None ==> token@ == auth.tokens@[0].token@
            &&& label matches Some(label) ==> is_held(auth, token@, label@)
        },
        r is Err <==> auth.tokens@.len() > 0 && label is Some && !(exists|token: Seq<char>|
            is_held(auth, token, label->0@)),
        r matches Err(BootError::UnknownLabel { label: named }) ==> Some(named@) == opt_text(label),
{
    assert(auth.held().len() == auth.tokens@.len());
    if auth.tokens@.len() > 0 {
        assert(auth.held()[0] == auth.tokens@[0]@);
    }
    if let Some(label) = label {
        lemma_labelled(auth, label@);
    }
}

/// How many tokens are held, and whether any is needed.
pub proof fn lemma_tokens_are_counted(auth: AuthConfig, n: usize, needed: bool)
    requires
        call_ensures(AuthConfig::token_count, (&auth,), n),
        call_ensures(AuthConfig::is_enabled, (&auth,), needed),
    ensures
        n == auth.tokens@.len(),
        needed <==> auth.tokens@.len() > 0,
{
    assert(auth.held().len() == auth.tokens@.len());
}

/// A redemption is settled in favour of whoever comes in time, to the address the code was
/// handed out for, with the key to its challenge; nobody else is given the token.
pub proof fn lemma_how_a_redemption_is_settled(
    store: OAuthStore,
    found: Option<PendingCode>,
    address: &str,
    computed: &str,
    now: u64,
    r: TokenReply,
)
    requires
        call_ensures(OAuthStore::settle, (&store, found, address, computed, now), r),
    ensures
        r is Granted <==> found is Some && now <= found->0.created_at + 300_000_000_000 && found->0.redirect_uri@
            == address@ && found->0.code_challenge@ == computed@,
        r is PkceFailed <==> found is Some && now <= found->0.created_at + 300_000_000_000 && found->0.redirect_uri@
            == address@ && found->0.code_challenge@ != computed@,
        !(r is Granted) && !(r is PkceFailed) ==> r is InvalidGrant,
        r matches TokenReply::Granted { access_token } ==> access_token@ == store.access_token@,
{
}

/// Only what was not granted is an error.
pub proof fn lemma_what_is_an_error(reply: TokenReply, r: Option<(&'static str, Option<&'static str>)>)
    requires
        call_ensures(TokenReply::error, (&reply,), r),
    ensures
        r is None <==> reply is Granted,
        r matches Some((_, more)) ==> (more is Some <==> reply is PkceFailed),
{
}

/// A waveform is good where it decodes to between one and two hundred and fifty-six points.
pub proof fn lemma_a_good_waveform(decoded: Result<Vec<u8>, String>, r: Option<String>)
    requires
        call_ensures(check_waveform, (&decoded,), r),
    ensures
        r is None <==> (decoded matches Ok(points) && 1 <= points@.len() <= 256),
{
}

/// A guild's bans are read on from the last account of a full page, and a page that is not full
/// is the last.
pub proof fn lemma_every_page_of_bans_is_read(pager: &mut BanPager, users: Vec<u64>)
    requires
        call_ensures(BanPager::take_page, (pager, &users), ()),
    ensures
        final(pager).done <==> users@.len() != 100,
        !final(pager).done ==> final(pager).after == Some(users@[99]),
{
}

/// An end has come once its moment is not ahead any more; and an unban that finds nothing came
/// too late.
pub proof fn lemma_when_an_end_has_come(expiry: Option<i64>, now: i64, ripe: bool, status: Option<u16>, gone: bool)
    requires
        call_ensures(is_ripe, (expiry, now), ripe),
        call_ensures(is_already_gone, (status,), gone),
    ensures
        ripe <==> expiry is Some && !(now < expiry->0),
        gone <==> status == Some(404u16),
{
}

/// The ledger is asked about whom and what it is asked about, and the row that undoes another is
/// told apart from it.
pub proof fn lemma_the_ledger_is_asked_by_name(
    store: ModlogStore,
    action: &str,
    target: &str,
    latest: Statement,
    active: Statement,
    reversal: i64,
    original: i64,
    marks: Statement,
    looks: Statement,
)
    requires
        call_ensures(ModlogStore::latest_unreverted, (&store, action, target), latest),
        call_ensures(ModlogStore::count_active, (&store, action, target), active),
        call_ensures(ModlogStore::mark_reverted, (&store, reversal, original), marks),
        call_ensures(ModlogStore::look_up, (&store, original), looks),
    ensures
        bound(latest.params@) == seq![Bound::Text(action@), Bound::Text(target@)],
        bound(active.params@) == seq![Bound::Text(action@), Bound::Text(target@)],
        bound(marks.params@) == seq![Bound::Integer(reversal as int), Bound::Integer(original as int)],
        bound(looks.params@) == seq![Bound::Integer(original as int)],
{
}

/// Rows keep everything but that their moments are on the house clock.
pub proof fn lemma_only_moments_change(rows: Vec<ModAction>, r: Vec<ModAction>)
    requires
        call_ensures(render_times, (rows,), r),
    ensures
        r@.len() == rows@.len(),
        forall|i: int|
            0 <= i < r@.len() ==> {
                &&& (#[trigger] r@[i]) == (ModAction {
                    created_at: r@[i].created_at,
                    expires_at: r@[i].expires_at,
                    ..rows@[i]
                })
                &&& r@[i].created_at@ == house_text(rows@[i].created_at@)
                &&& r@[i].expires_at is Some <==> rows@[i].expires_at is Some
                &&& rows@[i].expires_at matches Some(text) ==> r@[i].expires_at->0@ == house_text(text@)
            },
{
}

/// A layout is kept as it stands where it is JSON, and refused where it is not; what was kept
/// is what is shown.
pub proof fn lemma_a_layout_is_kept(
    store: LayoutStore,
    body: &str,
    json: bool,
    r: Result<Statement, String>,
    stored: Option<String>,
    shown: String,
)
    requires
        call_ensures(keep_layout, (&store, body, json), r),
        call_ensures(get_layout, (stored,), shown),
    ensures
        r is Ok <==> json,
        r matches Ok(s) ==> bound(s.params@) == seq![Bound::Text(body@)],
        stored matches Some(text) ==> shown@ == text@,
{
}

/// Somebody is coloured by the highest of their coloured roles, as far as the guild's roles are
/// known, and has no colour where none of them has one.
pub proof fn lemma_the_highest_role_gives_the_colour(
    cache: EnrichCache,
    guild: u64,
    roles: Vec<u64>,
    r: Option<String>,
)
    requires
        cache.wf(),
        call_ensures(EnrichCache::color_for, (&cache, guild, &roles), r),
    ensures
        r is Some <==> cache.roles.map().contains_key(guild) && exists|i: int|
            0 <= i < roles@.len() && cache.roles.map()[guild].colored.map().contains_key(#[trigger] roles@[i]),
        r matches Some(text) ==> exists|i: int|
            0 <= i < roles@.len() && cache.roles.map()[guild].colored.map().contains_key(#[trigger] roles@[i])
                && is_colour_of(text@, cache.roles.map()[guild].colored.map()[roles@[i]]) && is_highest(
                cache.roles.map()[guild].colored.map(),
                roles@,
                roles@[i],
            ),
{
    if cache.roles.map().contains_key(guild) {
        let colored = cache.roles.map()[guild].colored.map();
        lemma_the_highest_role_colours(colored, roles@);
        if let Some(best) = highest(colored, roles@) {
            let i = choose|i: int|
                0 <= i < roles@.len() && colored.contains_key(#[trigger] roles@[i]) && colored[roles@[i]] == best;
            crate::laws::texts::lemma_colour_text(best.colour);
            assert(is_colour_of(r->0@, colored[roles@[i]]));
            assert(is_highest(colored, roles@, roles@[i]));
        }
    }
}

/// A text is a role's colour, as the web writes it.
pub open spec fn is_colour_of(text: Seq<char>, role: RoleColor) -> bool {
    text.len() >= 7 && text[0] == '#' && is_hex(text.drop_first()) && hex_value(text.drop_first()) == role.colour
}

/// No coloured role of a list stands higher than a role.
pub open spec fn is_highest(colored: Map<u64, RoleColor>, roles: Seq<u64>, role: u64) -> bool {
    forall|i: int|
        0 <= i < roles.len() && colored.contains_key(#[trigger] roles[i]) ==> colored[roles[i]].position
            <= colored[role].position
}

} // verus!
