//! What the wall offers and shows.

use vstd::prelude::*;

use crate::discord::wire::{
    Attachment, ChannelType, GuildChannel, Message, PartialMember, Reaction, ReactionType, StickerFormatType, User,

};
use crate::laws::inbox::is_id;
use crate::laws::ledger::is_limit;
use crate::laws::order::{in_order, lemma_itself, lemma_more, lemma_then};
use crate::laws::scan::named_id;
use crate::numeral::{lemma_decimal_reads_back, parsed_u64};
use crate::server::{Probe, Voice};
use crate::text::{decimal, inlined, opt_text};
use crate::wall::event::{
    author_source, coloured, enrich, lemma_previews_fit, standing_of, thumb_size, thumb_text,
    wall_attachment, wall_name, AuthorSource, EnrichCache, Role, RoleColor, WallAttachment, WallMessage,
    WallReaction,
};
use crate::wall::{
    backfill, by_position, chronological, found, is_readable, lemma_channels_are_sorted, sources,
    BackfillParams, ClientPool, WallChannel, WallGuild, WallSource,
};

verus! {

/// A guild is the primary bot's own.
pub open spec fn is_own(pool: ClientPool, guild: u64) -> bool {
    pool.default_guild == Some(guild) || exists|i: int|
        0 <= i < pool.secondary_guilds@.len() && #[trigger] pool.secondary_guilds@[i] == guild
}

/// Where there is an observer it reads every guild that is not the primary bot's own, and
/// whatever the primary bot could not find; all else the primary bot reads.
pub proof fn lemma_who_reads_for_the_wall(
    pool: ClientPool,
    guild: u64,
    probe: Probe,
    of_guild: Voice,
    of_channel: Voice,
)
    requires
        call_ensures(ClientPool::client_for_guild, (&pool, guild), of_guild),
        call_ensures(ClientPool::client_for_channel, (&pool, probe), of_channel),
    ensures
        of_guild is Observer <==> pool.observer && !is_own(pool, guild),
        of_guild is Primary <==> !(of_guild is Observer),
        of_channel is Primary <==> !(of_channel is Observer),
        !pool.observer ==> of_channel is Primary,
        pool.observer ==> (of_channel is Observer <==> match probe {
            Probe::InGuild(guild) => !is_own(pool, guild),
            Probe::NoGuild => pool.default_guild is Some,
            Probe::Failed => true,
        }),
{
}

/// How many home guilds there are: one or none.
pub open spec fn homes(pool: ClientPool) -> int {
    if pool.default_guild is Some {
        1
    } else {
        0
    }
}

/// Guilds are those the wall knows: the home guild, the secondary ones, the watched ones.
pub open spec fn are_offered(pool: ClientPool, r: Seq<WallGuild>) -> bool {
    let second = homes(pool) + pool.secondary_guilds@.len();
    &&& r.len() == second + pool.readonly_guilds@.len()
    &&& pool.default_guild matches Some(home) ==> r[0].guild == home && r[0].kind@ == "primary"@
    &&& forall|i: int|
        0 <= i < pool.secondary_guilds@.len() ==> is_guild_of(
            r[homes(pool) + i],
            #[trigger] pool.secondary_guilds@[i],
            "secondary"@,
        )
    &&& forall|i: int|
        0 <= i < pool.readonly_guilds@.len() ==> is_guild_of(
            r[second + i],
            #[trigger] pool.readonly_guilds@[i],
            "observer"@,
        )
}

pub open spec fn is_guild_of(g: WallGuild, guild: u64, kind: Seq<char>) -> bool {
    g.guild == guild && g.kind@ == kind
}

/// The wall offers the home guild, every secondary one and every watched one, in that order,
/// each as what it is, and no other.
pub proof fn lemma_every_guild_is_offered(pool: ClientPool, r: Vec<WallGuild>)
    requires
        call_ensures(ClientPool::guilds, (&pool,), r),
    ensures
        are_offered(pool, r@),
{
    let views = crate::wall::guild_views(r@);
    assert(views.len() == r@.len());
    assert(forall|i: int| 0 <= i < r@.len() ==> (#[trigger] views[i]).0 == r@[i].guild && views[i].1
        == r@[i].kind@);
    let first = homes(pool);
    let second = first + pool.secondary_guilds@.len();
    assert(r@.len() == second + pool.readonly_guilds@.len());
    if pool.default_guild is Some {
        assert(views[0] == (pool.default_guild->0, "primary"@));
    }
    assert forall|i: int| 0 <= i < pool.secondary_guilds@.len() implies is_guild_of(
        r@[first + i],
        #[trigger] pool.secondary_guilds@[i],
        "secondary"@,
    ) by {
        assert(views[first + i] == (pool.secondary_guilds@[i], "secondary"@));
    }
    assert forall|i: int| 0 <= i < pool.readonly_guilds@.len() implies is_guild_of(
        r@[second + i],
        #[trigger] pool.readonly_guilds@[i],
        "observer"@,
    ) by {
        assert(views[second + i] == (pool.readonly_guilds@[i], "observer"@));
    }
}

/// A channel is read back where it is named by its number, as far as asked for: one to a
/// hundred messages, thirty where nothing is said.
pub proof fn lemma_how_far_back(params: BackfillParams, r: Result<(u64, u8), String>)
    requires
        call_ensures(backfill, (&params,), r),
    ensures
        r is Ok <==> named_id(params.channel_id@) is Some,
        r matches Ok((channel, limit)) ==> Some(channel) == named_id(params.channel_id@) && is_limit(
            params.limit,
            30,
            limit as nat,
        ),
{
}

/// Messages that came newest first are put in the order they were written in, all of them.
pub proof fn lemma_oldest_first(messages: Vec<Message>, r: Vec<Message>)
    requires
        call_ensures(chronological, (messages,), r),
    ensures
        r@.len() == messages@.len(),
        forall|i: int| 0 <= i < r@.len() ==> #[trigger] r@[i] == messages@[messages@.len() - 1 - i],
{
}

/// A channel is offered, as what it is.
pub open spec fn is_offered(r: Seq<WallChannel>, c: GuildChannel, kind: Seq<char>) -> bool {
    exists|i: int|
        0 <= i < r.len() && parsed_u64((#[trigger] r[i]).id@) == Some(c.id) && r[i].name@ == c.name@
            && r[i].kind@ == kind
}

/// Of a guild every text and news channel is offered, those higher up first, and behind them
/// every thread; and nothing else is.
pub proof fn lemma_every_readable_channel_is_offered(
    guild: WallGuild,
    name: Option<String>,
    channels: Option<Vec<GuildChannel>>,
    threads: Option<Vec<GuildChannel>>,
    r: WallSource,
)
    requires
        call_ensures(sources, (&guild, name, channels, threads), r),
    ensures
        parsed_u64(r.id@) == Some(guild.guild),
        name matches Some(name) ==> r.name@ == name@,
        name is None ==> parsed_u64(r.name@) == Some(guild.guild),
        r.kind@ == guild.kind@,
        channels matches Some(list) ==> forall|i: int|
            0 <= i < list@.len() && ((#[trigger] list@[i]).kind == ChannelType::Text || list@[i].kind
                == ChannelType::News) ==> is_offered(r.channels@, list@[i], "channel"@),
        threads matches Some(list) ==> forall|i: int|
            0 <= i < list@.len() ==> is_offered(r.channels@, #[trigger] list@[i], "thread"@),
        exists|readable: Seq<GuildChannel>| #[trigger]
            are_readable(readable, found(channels)) && r.channels@.len() == readable.len() + found(
                threads,
            ).len() && (forall|i: int|
                0 <= i < readable.len() ==> parsed_u64((#[trigger] r.channels@[i]).id@) == Some(
                    readable[i].id,
                )),
{
    let list = found(channels);
    let text = by_position(list);
    let n = text.len() as int;
    let more = found(threads);
    lemma_channels_are_sorted(list);
    lemma_decimal_reads_back(guild.guild);
    lemma_by_position(list);
    assert(are_readable(text, list));
    let front = r.channels@.take(n);
    let back = r.channels@.skip(n);
    assert forall|i: int| 0 <= i < text.len() implies parsed_u64((#[trigger] r.channels@[i]).id@) == Some(
        text[i].id,
    ) && is_offered(r.channels@, text[i], "channel"@) by {
        assert(front[i] == r.channels@[i]);
        assert(crate::wall::offer(text[i], "channel"@, front[i]));
        lemma_decimal_reads_back(text[i].id);
    }
    if let Some(given) = channels {
        assert forall|i: int|
            0 <= i < given@.len() && ((#[trigger] given@[i]).kind == ChannelType::Text || given@[i].kind
                == ChannelType::News) implies is_offered(r.channels@, given@[i], "channel"@) by {
            assert(text.contains(given@[i]));
            let k = choose|k: int| 0 <= k < text.len() && text[k] == given@[i];
            assert(is_offered(r.channels@, text[k], "channel"@)) by {
                assert(front[k] == r.channels@[k]);
                assert(crate::wall::offer(text[k], "channel"@, front[k]));
                lemma_decimal_reads_back(text[k].id);
                assert(parsed_u64(r.channels@[k].id@) == Some(text[k].id));
            }
        }
    }
    if let Some(given) = threads {
        assert forall|i: int| 0 <= i < given@.len() implies is_offered(
            r.channels@,
            #[trigger] given@[i],
            "thread"@,
        ) by {
            assert(back[i] == r.channels@[n + i]);
            assert(crate::wall::offer(given@[i], "thread"@, back[i]));
            lemma_decimal_reads_back(given@[i].id);
            assert(parsed_u64(r.channels@[n + i].id@) == Some(given@[i].id));
        }
    }
}

/// Channels are the text and news channels of a list, by position.
pub open spec fn are_readable(r: Seq<GuildChannel>, list: Seq<GuildChannel>) -> bool {
    &&& forall|c: GuildChannel| #[trigger]
        r.contains(c) <==> list.contains(c) && (c.kind == ChannelType::Text || c.kind == ChannelType::News)
    &&& forall|i: int, j: int|
        0 <= i < j < r.len() ==> (#[trigger] r[i]).position <= (#[trigger] r[j]).position
}

proof fn lemma_by_position(s: Seq<GuildChannel>)
    ensures
        forall|c: GuildChannel| #[trigger] by_position(s).contains(c) <==> s.contains(c) && is_readable(c),
    decreases s.len(),
{
    if s.len() > 0 {
        let front = s.drop_last();
        lemma_by_position(front);
        let before = by_position(front);
        let all = by_position(s);
        let last = s.last();
        let k = crate::wall::slot(before, last.position) as int;
        lemma_slot(before, last.position);
        assert forall|c: GuildChannel| #[trigger] all.contains(c) <==> s.contains(c) && is_readable(c) by {
            assert(before.contains(c) <==> front.contains(c) && is_readable(c));
            assert(s.contains(c) <==> front.contains(c) || c == last) by {
                if s.contains(c) {
                    let i = choose|i: int| 0 <= i < s.len() && s[i] == c;
                    if i < front.len() {
                        assert(front[i] == c);
                    }
                }
                if front.contains(c) {
                    let i = choose|i: int| 0 <= i < front.len() && front[i] == c;
                    assert(s[i] == c);
                }
                assert(s[s.len() - 1] == last);
            }
            if is_readable(last) {
                assert(all == before.insert(k, last));
                if all.contains(c) {
                    let i = choose|i: int| 0 <= i < all.len() && all[i] == c;
                    if i < k {
                        assert(before[i] == c);
                    } else if i > k {
                        assert(before[i - 1] == c);
                    }
                }
                if before.contains(c) {
                    let i = choose|i: int| 0 <= i < before.len() && before[i] == c;
                    if i < k {
                        assert(all[i] == c);
                    } else {
                        assert(all[i + 1] == c);
                    }
                }
                assert(all[k] == last);
            }
        }
    }
}

proof fn lemma_slot(s: Seq<GuildChannel>, position: u16)
    ensures
        crate::wall::slot(s, position) <= s.len(),
    decreases s.len(),
{
    if s.len() > 0 && !(s[0].position > position) {
        lemma_slot(s.drop_first(), position);
    }
}

/// The name somebody is shown under: the nickname, or else the global name, or else the handle.
pub open spec fn is_shown_as(nick: Option<String>, user: User, name: Seq<char>) -> bool {
    &&& nick matches Some(nick) ==> name == nick@
    &&& nick is None ==> (user.global_name matches Some(global) ==> name == global@)
    &&& nick is None && user.global_name is None ==> name == user.name@
}

/// An emoji on the wall: a plain one as it is, one of a guild's by number and name.
pub open spec fn same_reaction(x: Reaction, r: WallReaction) -> bool {
    &&& r.count == x.count
    &&& match x.reaction_type {
        ReactionType::Unicode(value) => r.emoji is Some && r.emoji->0@ == value@ && r.custom is None,
        ReactionType::Custom { animated, id, name } => {
            &&& r.emoji is None && r.custom is Some
            &&& parsed_u64(r.custom->0.id@) == Some(id)
            &&& name matches Some(name) ==> r.custom->0.name@ == name@
            &&& r.custom->0.animated == animated
        },
    }
}

/// A preview's two edges: no longer than four hundred, the longer one of the picture cut to that
/// and the other in proportion to within one, but never empty.
pub open spec fn is_preview(width: u32, height: u32, w: int, h: int) -> bool {
    let long: int = if width >= height {
        width as int
    } else {
        height as int
    };
    let short: int = if width >= height {
        height as int
    } else {
        width as int
    };
    let (edge, other) = if width >= height {
        (w, h)
    } else {
        (h, w)
    };
    &&& edge == if long < 400 {
        long
    } else {
        400
    }
    &&& other >= 1
    &&& other == 1 || other * long <= edge * short
    &&& edge * short < (other + 1) * long
}

proof fn lemma_preview(width: u32, height: u32)
    requires
        width > 0,
        height > 0,
    ensures
        is_preview(width, height, thumb_size(Some((width, height))).0, thumb_size(Some((width, height))).1),
{
    let long: int = if width >= height {
        width as int
    } else {
        height as int
    };
    let short: int = if width >= height {
        height as int
    } else {
        width as int
    };
    let edge = if long < 400 {
        long
    } else {
        400
    };
    let q = edge * short / long;
    assert(q * long <= edge * short && edge * short < (q + 1) * long && q >= 0) by (nonlinear_arith)
        requires
            q == edge * short / long,
            long > 0,
            edge > 0,
            short > 0,
    ;
    if q < 1 {
        assert(edge * short < (1 + 1) * long) by (nonlinear_arith)
            requires
                edge * short < (q + 1) * long,
                q < 1,
                long > 0,
        ;
    }
}

/// A file on the wall: what it is, its name, size and address, and, of a picture, a preview.
pub open spec fn same_file_on_wall(a: Attachment, r: WallAttachment) -> bool {
    let kind = match a.content_type {
        Some(t) => t@,
        None => ""@,
    };
    let is_image = kind.len() >= "image/"@.len() && kind.take("image/"@.len() as int) == "image/"@;
    let is_video = kind.len() >= "video/"@.len() && kind.take("video/"@.len() as int) == "video/"@;
    &&& is_image ==> r.kind@ == "image"@
    &&& !is_image && is_video ==> r.kind@ == "video"@
    &&& !is_image && !is_video ==> r.kind@ == "file"@
    &&& r.name@ == a.filename@
    &&& r.size == a.size
    &&& r.url@ == a.url@
    &&& r.thumb is Some <==> is_image
    &&& r.width is Some <==> a.width is Some && a.height is Some
    &&& r.width is Some ==> r.width == a.width && r.height == a.height
    &&& is_image && a.width is Some && a.height is Some && a.width->0 > 0 && a.height->0 > 0 ==> exists|
        w: int,
        h: int,
    |
        #![trigger is_preview(a.width->0, a.height->0, w, h)]
        is_preview(a.width->0, a.height->0, w, h) && w >= 0 && h >= 0 && in_order(
            r.thumb->0@,
            seq![a.proxy_url@, decimal(w as nat), decimal(h as nat)],
        )
}

proof fn lemma_thumb(proxy: Seq<char>, dims: Option<(u32, u32)>)
    ensures
        in_order(
            thumb_text(proxy, dims),
            seq![proxy, decimal(thumb_size(dims).0 as nat), decimal(thumb_size(dims).1 as nat)],
        ),
{
    let w = decimal(thumb_size(dims).0 as nat);
    let h = decimal(thumb_size(dims).1 as nat);
    let mark = if crate::text::has_text(proxy, "?"@) {
        "&"@
    } else {
        "?"@
    };
    lemma_itself(proxy);
    lemma_more(proxy, mark, seq![proxy]);
    lemma_more(proxy + mark, "width="@, seq![proxy]);
    let t = proxy + mark + "width="@;
    lemma_then(t, w, seq![proxy]);
    lemma_more(t + w, "&height="@, seq![proxy].push(w));
    lemma_then(t + w + "&height="@, h, seq![proxy].push(w));
    assert(seq![proxy].push(w).push(h) =~= seq![proxy, w, h]);
}

proof fn lemma_file(a: Attachment, r: WallAttachment)
    requires
        wall_attachment(a, r),
    ensures
        same_file_on_wall(a, r),
{
    if a.width is Some && a.height is Some && a.width->0 > 0 && a.height->0 > 0 {
        let dims = Some((a.width->0, a.height->0));
        lemma_preview(a.width->0, a.height->0);
        lemma_previews_fit(dims);
        lemma_thumb(a.proxy_url@, dims);
        assert(is_preview(a.width->0, a.height->0, thumb_size(dims).0, thumb_size(dims).1));
    }
}

/// A message is shown whole on the wall: which it is and where, who wrote it and in what colour,
/// what and when, what it answers, and every reaction, file, sticker and mention.
pub proof fn lemma_nothing_is_lost_on_the_wall(
    m: Message,
    nick: Option<String>,
    color: Option<String>,
    r: WallMessage,
)
    requires
        call_ensures(enrich, (&m, nick, color), r),
    ensures
        parsed_u64(r.id@) == Some(m.id),
        parsed_u64(r.channel_id@) == Some(m.channel_id),
        is_id(r.guild_id, m.guild_id),
        parsed_u64(r.author.id@) == Some(m.author.id),
        is_shown_as(nick, m.author, r.author.name@),
        r.author.username@ == m.author.name@,
        opt_text(r.author.color) == opt_text(color),
        r.timestamp@ == m.timestamp@,
        r.edited <==> m.edited_timestamp is Some,
        r.content@ == m.content@,
        r.reply is Some <==> m.referenced_message is Some || m.message_reference is Some,
        m.referenced_message matches Some(parent) ==> is_shown_as(None, parent.author, r.reply->0.author@)
            && r.reply->0.snippet@ == inlined(parent.content@, 120),
        r.reactions@.len() == m.reactions@.len(),
        forall|i: int|
            0 <= i < m.reactions@.len() ==> same_reaction(m.reactions@[i], #[trigger] r.reactions@[i]),
        r.attachments@.len() == m.attachments@.len(),
        forall|i: int|
            0 <= i < m.attachments@.len() ==> same_file_on_wall(
                m.attachments@[i],
                #[trigger] r.attachments@[i],
            ),
        r.stickers@.len() == m.sticker_items@.len(),
        forall|i: int|
            0 <= i < m.sticker_items@.len() ==> (#[trigger] r.stickers@[i]).name@
                == m.sticker_items@[i].name@ && (m.sticker_items@[i].format_type != StickerFormatType::Lottie
                ==> opt_text(r.stickers@[i].url) == opt_text(m.sticker_items@[i].image_url)),
        forall|i: int|
            0 <= i < m.mentions@.len() ==> r.mentions.map().contains_key(
                decimal((#[trigger] m.mentions@[i]).id as nat),
            ),
        forall|i: int|
            0 <= i < m.mentions@.len() && (forall|j: int|
                i < j < m.mentions@.len() ==> m.mentions@[j].id != m.mentions@[i].id) ==> is_shown_as(
                None,
                #[trigger] m.mentions@[i],
                r.mentions.map()[decimal(m.mentions@[i].id as nat)]@,
            ),
{
    lemma_decimal_reads_back(m.id);
    lemma_decimal_reads_back(m.channel_id);
    lemma_decimal_reads_back(m.author.id);
    if let Some(guild) = m.guild_id {
        lemma_decimal_reads_back(guild);
    }
    assert forall|i: int| 0 <= i < m.reactions@.len() implies same_reaction(
        m.reactions@[i],
        #[trigger] r.reactions@[i],
    ) by {
        if let ReactionType::Custom { animated, id, name } = m.reactions@[i].reaction_type {
            lemma_decimal_reads_back(id);
        }
    }
    assert forall|i: int| 0 <= i < m.attachments@.len() implies same_file_on_wall(
        m.attachments@[i],
        #[trigger] r.attachments@[i],
    ) by {
        lemma_file(m.attachments@[i], r.attachments@[i]);
    }
    assert forall|i: int| 0 <= i < m.mentions@.len() implies r.mentions.map().contains_key(
        decimal((#[trigger] m.mentions@[i]).id as nat),
    ) by {}
    assert forall|i: int|
        0 <= i < m.mentions@.len() && (forall|j: int|
            i < j < m.mentions@.len() ==> m.mentions@[j].id != m.mentions@[i].id) implies is_shown_as(
        None,
        #[trigger] m.mentions@[i],
        r.mentions.map()[decimal(m.mentions@[i].id as nat)]@,
    ) by {
        assert(r.mentions.map()[decimal(m.mentions@[i].id as nat)]@ == wall_name(None, m.mentions@[i]));
    }
}

/// How a message's author stands is taken from the message where it says so, and otherwise from
/// what was found out of the guild it came from.
pub proof fn lemma_how_an_author_stands(
    m: Message,
    asked: Option<PartialMember>,
    source: AuthorSource,
    r: PartialMember,
)
    requires
        call_ensures(author_source, (&m,), source),
        call_ensures(standing_of, (&m, &asked), r),
    ensures
        source is Given <==> m.member is Some,
        source is Nowhere <==> m.member is None && m.guild_id is None,
        source matches AuthorSource::Ask { guild } ==> m.guild_id == Some(guild),
        m.member matches Some(own) ==> r.roles@ == own.roles@ && opt_text(r.nick) == opt_text(own.nick),
        m.member is None && m.guild_id is Some && asked is Some ==> r.roles@ == asked->0.roles@ && opt_text(
            r.nick,
        ) == opt_text(asked->0.nick),
        m.member is None && (m.guild_id is None || asked is None) ==> r.roles@.len() == 0 && r.nick is None,
{
}

/// The coloured roles kept of a guild are those of its roles that have a colour; of two with
/// one number, the later that has one.
pub proof fn lemma_every_coloured_role_is_kept(roles: Seq<Role>)
    ensures
        forall|id: u64| #[trigger]
            coloured(roles).contains_key(id) <==> exists|i: int|
                0 <= i < roles.len() && (#[trigger] roles[i]).id == id && roles[i].colour != 0,
        forall|i: int|
            0 <= i < roles.len() && roles[i].colour != 0 && (forall|j: int|
                i < j < roles.len() && roles[j].colour != 0 ==> roles[j].id != roles[i].id)
                ==> coloured(roles)[(#[trigger] roles[i]).id] == (RoleColor {
                position: roles[i].position as i64,
                colour: roles[i].colour,
            }),
    decreases roles.len(),
{
    if roles.len() > 0 {
        let front = roles.drop_last();
        let n = roles.len() - 1;
        lemma_every_coloured_role_is_kept(front);
        let before = coloured(front);
        let all = coloured(roles);
        assert(roles[n] == roles.last());
        assert(forall|i: int| 0 <= i < n ==> #[trigger] front[i] == roles[i]);
        assert forall|id: u64| #[trigger] all.contains_key(id) <==> exists|i: int|
            0 <= i < roles.len() && (#[trigger] roles[i]).id == id && roles[i].colour != 0 by {
            assert(before.contains_key(id) <==> exists|i: int|
                0 <= i < front.len() && (#[trigger] front[i]).id == id && front[i].colour != 0);
            if before.contains_key(id) {
                let i = choose|i: int|
                    0 <= i < front.len() && (#[trigger] front[i]).id == id && front[i].colour != 0;
                assert(roles[i] == front[i]);
            }
            if exists|i: int| 0 <= i < roles.len() && (#[trigger] roles[i]).id == id && roles[i].colour != 0 {
                let i = choose|i: int|
                    0 <= i < roles.len() && (#[trigger] roles[i]).id == id && roles[i].colour != 0;
                if i < n {
                    assert(front[i] == roles[i]);
                }
            }
            if roles[n].colour != 0 && roles[n].id == id {
                assert(all.contains_key(id));
            }
        }
        assert forall|i: int|
            0 <= i < roles.len() && roles[i].colour != 0 && (forall|j: int|
                i < j < roles.len() && roles[j].colour != 0 ==> roles[j].id != roles[i].id) implies all[(
        #[trigger] roles[i]).id] == (RoleColor {
            position: roles[i].position as i64,
            colour: roles[i].colour,
        }) by {
            if i < n {
                assert(front[i] == roles[i]);
                assert forall|j: int| i < j < front.len() && front[j].colour != 0 implies front[j].id
                    != front[i].id by {
                    assert(front[j] == roles[j]);
                }
                assert(before[front[i].id].colour == front[i].colour);
                if roles[n].colour != 0 {
                    assert(roles[n].id != roles[i].id);
                }
            }
        }
    }
}

/// A guild's roles are asked for where they are needed and were not read in the last ten
/// minutes, and a member is known who was read in the last five.
pub proof fn lemma_what_is_known_for_how_long(
    cache: EnrichCache,
    guild: u64,
    roles: Vec<u64>,
    user: u64,
    now: u64,
    ask: bool,
    known: Option<PartialMember>,
)
    requires
        call_ensures(EnrichCache::must_ask_roles, (&cache, guild, &roles, now), ask),
        call_ensures(EnrichCache::member, (&cache, guild, user, now), known),
    ensures
        ask <==> roles@.len() > 0 && !(cache.roles.map().contains_key(guild) && now
            < cache.roles.map()[guild].at + 600_000_000_000),
        known is Some <==> cache.members.map().contains_key((guild, user)) && now < cache.members.map()[(
            guild,
            user,
        )].at + 300_000_000_000,
        known matches Some(member) ==> {
            let kept = cache.members.map()[(guild, user)];
            member.roles@ == kept.roles@ && opt_text(member.nick) == opt_text(kept.nick)
        },
{
}

/// What is learned of a member and of a guild's roles is kept from then on, and nothing else
/// changes.
pub proof fn lemma_what_is_learned_is_kept(
    cache: &mut EnrichCache,
    guild: u64,
    user: u64,
    member: PartialMember,
    now: u64,
)
    requires
        call_ensures(EnrichCache::learn_member, (cache, guild, user, &member, now), ()),
    ensures
        final(cache).members.map().contains_key((guild, user)),
        final(cache).members.map()[(guild, user)].roles@ == member.roles@,
        opt_text(final(cache).members.map()[(guild, user)].nick) == opt_text(member.nick),
        final(cache).members.map()[(guild, user)].at == now,
        final(cache).roles == old(cache).roles,
        forall|g: u64, u: u64|
            #![trigger final(cache).members.map().contains_key((g, u))]
            (g, u) != (guild, user) ==> final(cache).members.map().contains_key((g, u)) == old(
                cache,
            ).members.map().contains_key((g, u)),
{
}

} // verus!
