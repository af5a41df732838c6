//! The guild's phone book: its channels, its threads, and the emoji and stickers that are its
//! culture.

use vstd::prelude::*;

use crate::discord::types::ChannelInfo;
use crate::discord::wire::{ChannelType, GuildChannel};
use crate::text::{
    ascii_lowered, decimal, number, opt_str, same_ignoring_case, split, split_at_char, texts, trim, trimmed,
};

verus! {

/// Which guild's channels to list, and which kinds.
pub struct ListChannelsRequest {
    pub guild_id: Option<String>,
    pub kinds: Option<String>,
}

/// Which guild's threads to list.
pub struct ListThreadsRequest {
    pub guild_id: Option<String>,
}

/// An emoji or a sticker of the guild.
pub struct GuildExpression {
    pub name: String,
    pub id: String,
}

pub const CULTURE_HINT: &'static str =
    "Custom emojis and stickers are part of this server's social culture. Reach for them when they fit.";

/// The phone book.
pub struct ChannelDirectory {
    pub channels: Vec<ChannelInfo>,
    pub emojis: Vec<GuildExpression>,
    pub stickers: Vec<GuildExpression>,
    pub culture_hint: &'static str,
}

/// Two texts are the same, white space around the first and the case of ASCII letters aside.
pub open spec fn named(entry: Seq<char>, name: Seq<char>) -> bool {
    ascii_lowered(trimmed(entry)) == ascii_lowered(name)
}

/// A kind is asked for: text, news and forum where nothing is said, every kind for `all`, and
/// otherwise those of the list.
pub open spec fn kind_wanted(kind: ChannelType, kinds: Option<Seq<char>>) -> bool {
    match kinds {
        None => kind == ChannelType::Text || kind == ChannelType::News || kind == ChannelType::Forum,
        Some(kinds) => named(kinds, "all"@) || exists|i: int|
            0 <= i < split_at_char(kinds, ',').len() && named(
                #[trigger] split_at_char(kinds, ',')[i],
                kind.shown(),
            ),
    }
}

/// Whether a kind is asked for.
pub fn kind_matches(kind: &ChannelType, kinds: Option<&str>) -> (r: bool)
    ensures
        r == kind_wanted(*kind, opt_str(kinds)),
{
    match kinds {
        None => match kind {
            ChannelType::Text => true,
            ChannelType::News => true,
            ChannelType::Forum => true,
            _ => false,
        },
        Some(list) => {
            if same_ignoring_case(trim(list).as_str(), "all") {
                return true;
            }
            let shown = kind.label();
            let names = split(list, ',');
            let mut i: usize = 0;
            while i < names.len()
                invariant
                    i <= names@.len(),
                    opt_str(kinds) == Some(list@),
                    texts(names@) == split_at_char(list@, ','),
                    shown@ == kind.shown(),
                    forall|j: int|
                        0 <= j < i ==> !named(
                            #[trigger] split_at_char(list@, ',')[j],
                            kind.shown(),
                        ),
                decreases names@.len() - i,
            {
                assert(texts(names@)[i as int] == names@[i as int]@);
                if same_ignoring_case(trim(names[i].as_str()).as_str(), shown.as_str()) {
                    return true;
                }
                i = i + 1;
            }
            assert(texts(names@).len() == names@.len());
            false
        },
    }
}

/// A channel's card, as far as it is read off the channel.
pub open spec fn card_of(c: GuildChannel, r: ChannelInfo) -> bool {
    &&& r.id@ == decimal(c.id as nat)
    &&& r.name == c.name
    &&& r.kind@ == c.kind.shown()
    &&& r.topic == c.topic
}

pub open spec fn cards_of(c: Seq<GuildChannel>, r: Seq<ChannelInfo>) -> bool {
    c.len() == r.len() && forall|i: int| 0 <= i < c.len() ==> card_of(c[i], #[trigger] r[i])
}

/// The channels' cards, in order.
pub fn channel_cards(channels: Vec<GuildChannel>) -> (r: Vec<ChannelInfo>)
    ensures
        cards_of(channels@, r@),
{
    let ghost all = channels@;
    let mut rest = channels;
    let mut r: Vec<ChannelInfo> = Vec::new();
    assert(all.skip(0) =~= all);
    while rest.len() > 0
        invariant
            r@.len() <= all.len(),
            rest@ == all.skip(r@.len() as int),
            forall|i: int| 0 <= i < r@.len() ==> card_of(all[i], #[trigger] r@[i]),
        decreases rest@.len(),
    {
        let channel = rest.remove(0);
        let ghost n = r@.len() as int;
        assert(channel == all[n]);
        r.push(ChannelInfo::from(channel));
        assert(rest@ =~= all.skip(n + 1));
    }
    r
}

/// The channels of the kinds asked for, in order.
pub fn keep_kinds(channels: Vec<GuildChannel>, kinds: Option<&str>) -> (r: Vec<GuildChannel>)
    ensures
        r@ == channels@.filter(|c: GuildChannel| kind_wanted(c.kind, opt_str(kinds))),
{
    let ghost all = channels@;
    let ghost wanted = |c: GuildChannel| kind_wanted(c.kind, opt_str(kinds));
    let mut rest = channels;
    let mut r: Vec<GuildChannel> = Vec::new();
    let ghost mut n: int = 0;
    proof {
        reveal(Seq::filter);
        assert(all.skip(0) =~= all);
        assert(all.take(0) =~= seq![]);
        assert(r@ =~= all.take(0).filter(wanted));
    }
    while rest.len() > 0
        invariant
            0 <= n <= all.len(),
            wanted == (|c: GuildChannel| kind_wanted(c.kind, opt_str(kinds))),
            rest@ == all.skip(n),
            r@ == all.take(n).filter(wanted),
        decreases rest@.len(),
    {
        let channel = rest.remove(0);
        assert(channel == all[n]);
        let keep = kind_matches(&channel.kind, kinds);
        if keep {
            r.push(channel);
        }
        proof {
            reveal(Seq::filter);
            assert(all.take(n + 1).drop_last() =~= all.take(n));
            assert(all.take(n + 1).last() == all[n]);
            n = n + 1;
            assert(rest@ =~= all.skip(n));
        }
    }
    assert(all.take(n) =~= all);
    r
}

/// The phone book: the channels of the kinds asked for, and the guild's own emoji and stickers,
/// which are empty where they could not be had.
pub fn list_channels(
    channels: Vec<GuildChannel>,
    emojis: Vec<GuildExpression>,
    stickers: Vec<GuildExpression>,
    kinds: Option<&str>,
) -> (r: ChannelDirectory)
    ensures
        cards_of(
            channels@.filter(|c: GuildChannel| kind_wanted(c.kind, opt_str(kinds))),
            r.channels@,
        ),
        r.emojis == emojis,
        r.stickers == stickers,
        r.culture_hint@ == CULTURE_HINT@,
{
    ChannelDirectory {
        channels: channel_cards(keep_kinds(channels, kinds)),
        emojis,
        stickers,
        culture_hint: CULTURE_HINT,
    }
}

/// An emoji or a sticker by its name and number.
pub fn expression(name: String, id: u64) -> (r: GuildExpression)
    ensures
        r.name == name,
        r.id@ == decimal(id as nat),
{
    GuildExpression { name, id: number(id) }
}

} // verus!
