//! What the lists hold: channels by their kinds, guilds by what they are, accounts by name.

use vstd::prelude::*;

use crate::discord::types::{ChannelInfo, UserLookupInfo};
use crate::discord::wire::{ChannelType, GuildChannel, Member};
use crate::laws::words::{
    is_split_by, is_trim_of, lemma_filter_is_all, lemma_one_split, lemma_one_trim, lemma_split_is_whole,
    lemma_trimmed,
};
use crate::numeral::{all_digits, lemma_decimal_injective, lemma_decimal_is_digits, lemma_decimal_reads_back, parsed_u64};
use crate::server::tools::channels::{
    channel_cards, expression, keep_kinds, kind_matches, kind_wanted, list_channels, named, ChannelDirectory,
    GuildExpression,
};
use crate::server::tools::info::{server_entry, target_views, with_role, ServerEntry, Target};
use crate::server::tools::users::{get_user_id_by_name, user_cards, GetUserIdByNameRequest, NameQuery};
use crate::server::KurouServer;
use crate::text::{ascii_lower, ascii_lowered, decimal, is_blank, is_space, opt_str, opt_text, split_at_char, trimmed};

verus! {

/// A text is a name, white space around it and the case of ASCII letters aside.
pub open spec fn spells(entry: Seq<char>, name: Seq<char>) -> bool {
    exists|t: Seq<char>| #[trigger] is_trim_of(t, entry) && ascii_lowered(t) == ascii_lowered(name)
}

/// A list, split at its commas, has an entry that is a name.
pub open spec fn lists(list: Seq<char>, name: Seq<char>) -> bool {
    exists|parts: Seq<Seq<char>>, i: int| #[trigger]
        is_split_by(list, ',', parts) && 0 <= i < parts.len() && #[trigger] spells(parts[i], name)
}

/// A kind is asked for: where nothing is said text, news and forum are; every kind is by the
/// word for all; and otherwise those are that the list spells.
pub open spec fn is_wanted(kind: ChannelType, kinds: Option<&str>) -> bool {
    match kinds {
        None => kind is Text || kind is News || kind is Forum,
        Some(list) => spells(list@, seq!['a', 'l', 'l']) || lists(list@, kind.shown()),
    }
}

proof fn lemma_spells(entry: Seq<char>, name: Seq<char>)
    ensures
        named(entry, name) <==> spells(entry, name),
{
    lemma_trimmed(entry);
    if spells(entry, name) {
        let t = choose|t: Seq<char>| #[trigger] is_trim_of(t, entry) && ascii_lowered(t) == ascii_lowered(name);
        lemma_one_trim(entry, t);
    }
    if named(entry, name) {
        assert(is_trim_of(trimmed(entry), entry));
    }
}

proof fn lemma_lists(list: Seq<char>, name: Seq<char>)
    ensures
        lists(list, name) <==> exists|i: int|
            0 <= i < split_at_char(list, ',').len() && named(#[trigger] split_at_char(list, ',')[i], name),
{
    let all = split_at_char(list, ',');
    lemma_split_is_whole(list, ',');
    if lists(list, name) {
        let (parts, i) = choose|parts: Seq<Seq<char>>, i: int| #[trigger]
            is_split_by(list, ',', parts) && 0 <= i < parts.len() && #[trigger] spells(parts[i], name);
        lemma_one_split(list, ',', parts);
        lemma_spells(parts[i], name);
        assert(named(all[i], name));
    }
    if exists|i: int| 0 <= i < all.len() && named(#[trigger] all[i], name) {
        let i = choose|i: int| 0 <= i < all.len() && named(#[trigger] all[i], name);
        lemma_spells(all[i], name);
        assert(is_split_by(list, ',', all));
    }
}

proof fn lemma_wanted(kind: ChannelType, kinds: Option<&str>)
    ensures
        kind_wanted(kind, opt_str(kinds)) <==> is_wanted(kind, kinds),
{
    reveal_strlit("all");
    assert("all"@ =~= seq!['a', 'l', 'l']);
    if let Some(list) = kinds {
        lemma_spells(list@, "all"@);
        lemma_lists(list@, kind.shown());
    }
}

/// A kind is listed exactly where it was asked for.
pub proof fn lemma_a_kind_is_asked_for(kind: ChannelType, kinds: Option<&str>, r: bool)
    requires
        call_ensures(kind_matches, (&kind, kinds), r),
    ensures
        r <==> is_wanted(kind, kinds),
{
    lemma_wanted(kind, kinds);
}

/// Every channel of a kind that was asked for is kept, and no other.
pub proof fn lemma_every_channel_of_a_kind_is_kept(
    channels: Vec<GuildChannel>,
    kinds: Option<&str>,
    r: Vec<GuildChannel>,
    c: GuildChannel,
)
    requires
        call_ensures(keep_kinds, (channels, kinds), r),
    ensures
        r@.contains(c) <==> channels@.contains(c) && is_wanted(c.kind, kinds),
{
    let keep = |c: GuildChannel| kind_wanted(c.kind, opt_str(kinds));
    lemma_filter_is_all(channels@, keep);
    lemma_wanted(c.kind, kinds);
    assert(r@ == channels@.filter(keep));
}

/// A card is that of a channel.
pub open spec fn is_card_of(card: ChannelInfo, c: GuildChannel) -> bool {
    &&& parsed_u64(card.id@) == Some(c.id)
    &&& card.name@ == c.name@
    &&& card.kind@ == c.kind.shown()
    &&& opt_text(card.topic) == opt_text(c.topic)
}

/// Every channel has its card, in order.
pub proof fn lemma_every_channel_has_its_card(channels: Vec<GuildChannel>, r: Vec<ChannelInfo>)
    requires
        call_ensures(channel_cards, (channels,), r),
    ensures
        r@.len() == channels@.len(),
        forall|i: int| 0 <= i < r@.len() ==> is_card_of(#[trigger] r@[i], channels@[i]),
{
    assert forall|i: int| 0 <= i < r@.len() implies is_card_of(#[trigger] r@[i], channels@[i]) by {
        lemma_decimal_reads_back(channels@[i].id);
    }
}

/// A card is that of some channel of a kind that was asked for.
pub open spec fn has_its_channel(card: ChannelInfo, channels: Seq<GuildChannel>, kinds: Option<&str>) -> bool {
    exists|i: int|
        0 <= i < channels.len() && is_wanted(channels[i].kind, kinds) && is_card_of(card, #[trigger] channels[i])
}

/// The phone book has the card of every channel of a kind that was asked for, no other card, and
/// all the emoji and stickers there are.
pub proof fn lemma_the_phone_book_is_whole(
    channels: Vec<GuildChannel>,
    emojis: Vec<GuildExpression>,
    stickers: Vec<GuildExpression>,
    kinds: Option<&str>,
    r: ChannelDirectory,
)
    requires
        call_ensures(list_channels, (channels, emojis, stickers, kinds), r),
    ensures
        r.emojis@ == emojis@,
        r.stickers@ == stickers@,
        forall|i: int|
            0 <= i < channels@.len() && is_wanted((#[trigger] channels@[i]).kind, kinds) ==> exists|j: int|
                0 <= j < r.channels@.len() && is_card_of(#[trigger] r.channels@[j], channels@[i]),
        forall|j: int|
            0 <= j < r.channels@.len() ==> has_its_channel(#[trigger] r.channels@[j], channels@, kinds),
{
    let keep = |c: GuildChannel| kind_wanted(c.kind, opt_str(kinds));
    let kept = channels@.filter(keep);
    lemma_filter_is_all(channels@, keep);
    assert forall|i: int|
        0 <= i < channels@.len() && is_wanted((#[trigger] channels@[i]).kind, kinds) implies exists|j: int|
        0 <= j < r.channels@.len() && is_card_of(#[trigger] r.channels@[j], channels@[i]) by {
        let c = channels@[i];
        lemma_wanted(c.kind, kinds);
        assert(channels@.contains(c));
        assert(kept.contains(c));
        let j = choose|j: int| 0 <= j < kept.len() && kept[j] == c;
        lemma_decimal_reads_back(c.id);
        assert(is_card_of(r.channels@[j], c));
    }
    assert forall|j: int| 0 <= j < r.channels@.len() implies has_its_channel(
        #[trigger] r.channels@[j],
        channels@,
        kinds,
    ) by {
        let c = kept[j];
        assert(kept.contains(c));
        let i = choose|i: int| 0 <= i < channels@.len() && channels@[i] == c;
        lemma_wanted(c.kind, kinds);
        lemma_decimal_reads_back(c.id);
        assert(is_wanted(channels@[i].kind, kinds) && is_card_of(r.channels@[j], channels@[i]));
    }
}

/// An emoji or a sticker is listed by its name and its number.
pub proof fn lemma_an_expression_is_listed(name: String, id: u64, r: GuildExpression)
    requires
        call_ensures(expression, (name, id), r),
    ensures
        r.name@ == name@,
        parsed_u64(r.id@) == Some(id),
{
    lemma_decimal_reads_back(id);
}

spec fn first_of(kind: ChannelType) -> char {
    match kind {
        ChannelType::Text => 't',
        ChannelType::Private => 'p',
        ChannelType::Voice => 'v',
        ChannelType::GroupDm => 'g',
        ChannelType::Category => 'c',
        ChannelType::News => 'n',
        ChannelType::NewsThread => 'n',
        ChannelType::PublicThread => 'p',
        ChannelType::PrivateThread => 'p',
        ChannelType::Stage => 's',
        ChannelType::Directory => 'd',
        ChannelType::Forum => 'f',
        ChannelType::Unknown(_) => 'u',
    }
}

spec fn len_of(kind: ChannelType) -> nat {
    match kind {
        ChannelType::Text => 4,
        ChannelType::Private => 7,
        ChannelType::Voice => 5,
        ChannelType::GroupDm => 7,
        ChannelType::Category => 8,
        ChannelType::News => 4,
        ChannelType::NewsThread => 10,
        ChannelType::PublicThread => 12,
        ChannelType::PrivateThread => 13,
        ChannelType::Stage => 5,
        ChannelType::Directory => 9,
        ChannelType::Forum => 5,
        ChannelType::Unknown(n) => 9 + decimal(n as nat).len(),
    }
}

proof fn lemma_kind_names(kind: ChannelType)
    ensures
        kind.shown().len() == len_of(kind),
        ascii_lower(kind.shown()[0]) == first_of(kind),
        !kind.shown().contains(','),
        !is_space(kind.shown()[0]),
        !is_space(kind.shown().last()),
{
    reveal_strlit("Text");
    reveal_strlit("Private");
    reveal_strlit("Voice");
    reveal_strlit("GroupDm");
    reveal_strlit("Category");
    reveal_strlit("News");
    reveal_strlit("NewsThread");
    reveal_strlit("PublicThread");
    reveal_strlit("PrivateThread");
    reveal_strlit("Stage");
    reveal_strlit("Directory");
    reveal_strlit("Forum");
    reveal_strlit("Unknown(");
    reveal_strlit(")");
    if let ChannelType::Unknown(n) = kind {
        lemma_decimal_is_digits(n as nat);
    }
}

proof fn lemma_kinds_have_names(a: ChannelType, b: ChannelType)
    requires
        ascii_lowered(a.shown()) == ascii_lowered(b.shown()),
    ensures
        a == b,
{
    lemma_kind_names(a);
    lemma_kind_names(b);
    let x = ascii_lowered(a.shown());
    let y = ascii_lowered(b.shown());
    assert(x.len() == len_of(a) && y.len() == len_of(b));
    assert(x[0] == first_of(a) && y[0] == first_of(b));
    if let (ChannelType::Unknown(m), ChannelType::Unknown(n)) = (a, b) {
        reveal_strlit("Unknown(");
        let p = decimal(m as nat);
        let q = decimal(n as nat);
        lemma_decimal_is_digits(m as nat);
        lemma_decimal_is_digits(n as nat);
        assert forall|i: int| 0 <= i < p.len() implies p[i] == q[i] by {
            assert(a.shown()[8 + i] == p[i]);
            assert(b.shown()[8 + i] == q[i]);
            assert(x[8 + i] == ascii_lower(p[i]));
            assert(y[8 + i] == ascii_lower(q[i]));
            assert(all_digits(p) && all_digits(q));
        }
        assert(p =~= q);
        lemma_decimal_injective(m as nat, n as nat);
    }
}

/// Every kind has a name of its own, by which it alone can be asked for.
pub proof fn lemma_every_kind_can_be_asked_for(kind: ChannelType, name: String, list: &str, other: ChannelType, r: bool)
    requires
        call_ensures(ChannelType::label, (&kind,), name),
        list@ == name@,
        call_ensures(kind_matches, (&other, Some(list)), r),
    ensures
        r <==> other == kind,
{
    let s = kind.shown();
    lemma_kind_names(kind);
    lemma_a_kind_is_asked_for(other, Some(list), r);
    assert(is_trim_of(s, s)) by {
        let none = Seq::<char>::empty();
        assert(s =~= none + s + none);
        assert(crate::laws::words::is_between(s, none, s, none));
        assert(crate::laws::words::is_all_space(none));
    }
    lemma_one_trim(s, s);
    lemma_spells(s, seq!['a', 'l', 'l']);
    assert(!named(s, seq!['a', 'l', 'l'])) by {
        assert(ascii_lowered(s).len() == len_of(kind));
        assert(ascii_lowered(seq!['a', 'l', 'l']).len() == 3);
    }
    let parts = seq![s];
    assert(is_split_by(s, ',', parts)) by {
        reveal_with_fuel(crate::text::joined, 1);
        assert(crate::text::joined(parts, seq![',']) =~= s);
    }
    lemma_one_split(s, ',', parts);
    lemma_lists(s, other.shown());
    assert(named(parts[0], other.shown()) <==> ascii_lowered(s) == ascii_lowered(other.shown()));
    if ascii_lowered(s) == ascii_lowered(other.shown()) {
        lemma_kinds_have_names(kind, other);
        assert(named(split_at_char(s, ',')[0], other.shown()));
    }
}

/// A guild is listed as what it is.
pub open spec fn is_listed_as(t: Target, guild: u64, role: Seq<char>) -> bool {
    t.guild == guild && t.role@ == role
}

/// How many home guilds there are.
pub open spec fn homes(server: KurouServer) -> int {
    if server.default_guild is Some {
        1
    } else {
        0
    }
}

/// How many guilds are only watched.
pub open spec fn watched_by(server: KurouServer) -> Seq<u64> {
    if server.observer is Some {
        server.observer->0.guilds@
    } else {
        Seq::empty()
    }
}

/// Every guild that can be read is listed as what it is: the home guild first, then the
/// secondary ones, then those that are only watched.
pub proof fn lemma_every_guild_is_listed(server: KurouServer, r: Vec<Target>)
    requires
        call_ensures(KurouServer::list_servers, (&server,), r),
    ensures
        r@.len() == homes(server) + server.secondary_guilds@.len() + watched_by(server).len(),
        server.default_guild matches Some(home) ==> is_listed_as(r@[0], home, "primary"@),
        forall|i: int|
            0 <= i < server.secondary_guilds@.len() ==> is_listed_as(
                r@[homes(server) + i],
                #[trigger] server.secondary_guilds@[i],
                "secondary"@,
            ),
        forall|i: int|
            0 <= i < watched_by(server).len() ==> is_listed_as(
                r@[homes(server) + server.secondary_guilds@.len() + i],
                #[trigger] watched_by(server)[i],
                "readonly"@,
            ),
{
    let all = server.targets();
    let second = homes(server);
    let third = second + server.secondary_guilds@.len();
    assert(target_views(r@) == all);
    assert(r@.len() == all.len());
    assert(server.watched() =~= watched_by(server));
    assert forall|i: int| 0 <= i < r@.len() implies (r@[i].guild, r@[i].role@) == #[trigger] all[i] by {
        assert(target_views(r@)[i] == all[i]);
    }
    if server.default_guild is Some {
        assert(all[0] == (server.default_guild->0, "primary"@));
    }
    assert forall|i: int| 0 <= i < server.secondary_guilds@.len() implies is_listed_as(
        r@[second + i],
        #[trigger] server.secondary_guilds@[i],
        "secondary"@,
    ) by {
        assert(with_role(server.secondary_guilds@, "secondary"@)[i] == (server.secondary_guilds@[i], "secondary"@));
        assert(all[second + i] == (server.secondary_guilds@[i], "secondary"@));
    }
    assert forall|i: int| 0 <= i < watched_by(server).len() implies is_listed_as(
        r@[third + i],
        #[trigger] watched_by(server)[i],
        "readonly"@,
    ) by {
        assert(with_role(server.watched(), "readonly"@)[i] == (server.watched()[i], "readonly"@));
        assert(all[third + i] == (watched_by(server)[i], "readonly"@));
    }
}

/// A guild's line says what it is and what was found out about it.
pub proof fn lemma_a_guilds_line_is_true(t: Target, name: Option<String>, count: Option<u64>, r: ServerEntry)
    requires
        call_ensures(server_entry, (&t, name, count), r),
    ensures
        parsed_u64(r.id@) == Some(t.guild),
        r.role@ == t.role@,
        opt_text(r.name) == opt_text(name),
        r.member_count == count,
{
    lemma_decimal_reads_back(t.guild);
}

/// A name is looked for as it was given, white space around it aside, and for as many accounts
/// as was asked, between one and a hundred; ten where nothing was said. A blank one is refused.
pub proof fn lemma_a_name_is_looked_for(req: GetUserIdByNameRequest, r: Result<NameQuery, String>)
    requires
        call_ensures(get_user_id_by_name, (&req,), r),
    ensures
        r is Ok <==> !is_blank(req.name@),
        r matches Ok(q) ==> {
            &&& is_trim_of(q.query@, req.name@)
            &&& 1 <= q.limit <= 100
            &&& req.limit is None ==> q.limit == 10
            &&& req.limit matches Some(n) ==> (1 <= n <= 100 ==> q.limit == n) && (n > 100 ==> q.limit == 100)
        },
{
    lemma_trimmed(req.name@);
}

/// A card is that of a member.
pub open spec fn is_member_card(card: UserLookupInfo, m: Member) -> bool {
    &&& parsed_u64(card.id@) == Some(m.user.id)
    &&& card.mention@ == seq!['<', '@'] + card.id@ + seq!['>']
    &&& card.username@ == m.user.name@
    &&& opt_text(card.nickname) == opt_text(m.nick)
    &&& m.nick matches Some(nick) ==> card.display_name@ == nick@
    &&& m.nick is None ==> (m.user.global_name matches Some(name) ==> card.display_name@ == name@)
    &&& m.nick is None && m.user.global_name is None ==> card.display_name@ == m.user.name@
}

/// Everybody who was found has their card, in order.
pub proof fn lemma_everybody_found_has_a_card(members: Vec<Member>, r: Vec<UserLookupInfo>)
    requires
        call_ensures(user_cards, (members,), r),
    ensures
        r@.len() == members@.len(),
        forall|i: int| 0 <= i < r@.len() ==> is_member_card(#[trigger] r@[i], members@[i]),
{
    reveal_strlit("<@");
    reveal_strlit(">");
    assert("<@"@ =~= seq!['<', '@']);
    assert(">"@ =~= seq!['>']);
    assert forall|i: int| 0 <= i < r@.len() implies is_member_card(#[trigger] r@[i], members@[i]) by {
        lemma_decimal_reads_back(members@[i].user.id);
    }
}

} // verus!
