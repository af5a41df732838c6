//! One message as the watch-wall shows it, whether it came live or was read back.

use vstd::prelude::*;

use crate::assoc::Assoc;
use crate::discord::wire::{
    Attachment, Message, PartialMember, Reaction, ReactionType, StickerFormatType, StickerItem, User,
};
use crate::numeral::{colour, colour_text};
use crate::oauth::elapsed;
use crate::server::copy_ids;
use crate::text::{
    begins_with, clone_opt, contains, decimal, has_text, inlined, number, one_line, opt_text, push_number,
    starts_with,
};

verus! {

/// How long a guild's roles are taken to stay as they are, in nanoseconds.
pub const ROLE_TTL: u64 = 600_000_000_000;

/// How long a member is taken to stay as they are, in nanoseconds.
pub const MEMBER_TTL: u64 = 300_000_000_000;

/// The long edge of a picture's preview.
pub const THUMB_EDGE: u32 = 400;

/// The longest line an answered message is shown on.
pub const WALL_SNIPPET_CHARS: usize = 120;

pub struct WallMessage {
    pub id: String,
    pub channel_id: String,
    pub guild_id: Option<String>,
    pub author: WallAuthor,
    pub timestamp: String,
    pub edited: bool,
    pub content: String,
    pub reply: Option<WallReply>,
    pub reactions: Vec<WallReaction>,
    pub attachments: Vec<WallAttachment>,
    pub stickers: Vec<WallSticker>,
    pub mentions: Assoc<String, String>,
}

pub struct WallAuthor {
    pub id: String,
    pub name: String,
    pub username: String,
    pub color: Option<String>,
}

pub struct WallReply {
    pub author: String,
    pub snippet: String,
}

pub struct WallReaction {
    pub emoji: Option<String>,
    pub custom: Option<WallEmoji>,
    pub count: u64,
}

pub struct WallEmoji {
    pub id: String,
    pub name: String,
    pub animated: bool,
}

pub struct WallAttachment {
    pub kind: String,
    pub name: String,
    pub size: u64,
    pub url: String,
    pub thumb: Option<String>,
    pub width: Option<u32>,
    pub height: Option<u32>,
}

pub struct WallSticker {
    pub name: String,
    pub url: Option<String>,
}

/// A role of a guild.
#[derive(Clone, Copy, Debug, PartialEq, Eq, Structural)]
pub struct Role {
    pub id: u64,
    pub position: u16,
    pub colour: u32,
}

/// A role's place and colour.
#[derive(Clone, Copy, Debug, PartialEq, Eq, Structural)]
pub struct RoleColor {
    pub position: i64,
    pub colour: u32,
}

/// A guild's coloured roles, and when they were read.
pub struct CachedRoles {
    pub colored: Assoc<u64, RoleColor>,
    pub at: u64,
}

/// A member's roles and nickname, and when they were read.
pub struct CachedMember {
    pub roles: Vec<u64>,
    pub nick: Option<String>,
    pub at: u64,
}

/// What was read of guilds and members, so as not to ask for it with every message.
pub struct EnrichCache {
    pub roles: Assoc<u64, CachedRoles>,
    pub members: Assoc<(u64, u64), CachedMember>,
}

/// The coloured ones of a guild's roles; black is no colour.
pub open spec fn coloured(roles: Seq<Role>) -> Map<u64, RoleColor>
    decreases roles.len(),
{
    if roles.len() == 0 {
        Map::empty()
    } else {
        let last = roles.last();
        let before = coloured(roles.drop_last());
        if last.colour == 0 {
            before
        } else {
            before.insert(
                last.id,
                RoleColor { position: last.position as i64, colour: last.colour },
            )
        }
    }
}

fn keep_coloured(roles: &Vec<Role>) -> (r: Assoc<u64, RoleColor>)
    ensures
        r.wf(),
        r.map() == coloured(roles@),
{
    let mut r: Assoc<u64, RoleColor> = Assoc::new();
    let mut i: usize = 0;
    assert(roles@.take(0) =~= seq![]);
    while i < roles.len()
        invariant
            i <= roles@.len(),
            r.wf(),
            r.map() == coloured(roles@.take(i as int)),
        decreases roles@.len() - i,
    {
        let role = roles[i];
        if role.colour != 0 {
            r.insert(
                role.id,
                RoleColor { position: role.position as i64, colour: role.colour },
            );
        }
        i = i + 1;
        proof {
            assert(roles@.take(i as int).drop_last() =~= roles@.take(i - 1));
            assert(roles@.take(i as int).last() == role);
        }
    }
    assert(roles@.take(i as int) =~= roles@);
    r
}

/// The highest of some roles that has a colour; of two as high, the later.
pub open spec fn highest(colored: Map<u64, RoleColor>, roles: Seq<u64>) -> Option<RoleColor>
    decreases roles.len(),
{
    if roles.len() == 0 {
        None
    } else {
        let before = highest(colored, roles.drop_last());
        if !colored.contains_key(roles.last()) {
            before
        } else {
            let last = colored[roles.last()];
            match before {
                Some(best) => if last.position >= best.position {
                    Some(last)
                } else {
                    Some(best)
                },
                None => Some(last),
            }
        }
    }
}

fn find_highest(colored: &Assoc<u64, RoleColor>, roles: &Vec<u64>) -> (r: Option<RoleColor>)
    requires
        colored.wf(),
    ensures
        r == highest(colored.map(), roles@),
{
    let mut best: Option<RoleColor> = None;
    let mut i: usize = 0;
    assert(roles@.take(0) =~= seq![]);
    while i < roles.len()
        invariant
            i <= roles@.len(),
            colored.wf(),
            best == highest(colored.map(), roles@.take(i as int)),
        decreases roles@.len() - i,
    {
        if let Some(role) = colored.get(&roles[i]) {
            best = match best {
                Some(held) => if role.position >= held.position {
                    Some(*role)
                } else {
                    Some(held)
                },
                None => Some(*role),
            };
        }
        i = i + 1;
        proof {
            assert(roles@.take(i as int).drop_last() =~= roles@.take(i - 1));
            assert(roles@.take(i as int).last() == roles@[i - 1]);
        }
    }
    assert(roles@.take(i as int) =~= roles@);
    best
}

fn is_recent(at: u64, now: u64, ttl: u64) -> (r: bool)
    ensures
        r == (elapsed(at, now) < ttl),
{
    if now > at {
        now - at < ttl
    } else {
        0 < ttl
    }
}

impl EnrichCache {
    pub open spec fn wf(self) -> bool {
        &&& self.roles.wf()
        &&& self.members.wf()
        &&& forall|g: u64| #[trigger]
            self.roles.map().contains_key(g) ==> self.roles.map()[g].colored.wf()
    }

    /// A guild's roles are known, and recently enough.
    pub open spec fn knows_roles(self, guild: u64, now: u64) -> bool {
        self.roles.map().contains_key(guild) && elapsed(self.roles.map()[guild].at, now) < ROLE_TTL
    }

    /// A member is known, and recently enough.
    pub open spec fn knows_member(self, guild: u64, user: u64, now: u64) -> bool {
        self.members.map().contains_key((guild, user)) && elapsed(
            self.members.map()[(guild, user)].at,
            now,
        ) < MEMBER_TTL
    }

    /// A cache that knows nothing.
    pub fn new() -> (r: Self)
        ensures
            r.wf(),
            r.roles.map() == Map::<u64, CachedRoles>::empty(),
            r.members.map() == Map::<(u64, u64), CachedMember>::empty(),
    {
        EnrichCache { roles: Assoc::new(), members: Assoc::new() }
    }

    /// Whether a guild's roles have to be asked for, to colour somebody with these roles:
    /// nobody without roles has a colour.
    pub fn must_ask_roles(&self, guild: u64, roles: &Vec<u64>, now: u64) -> (r: bool)
        requires
            self.wf(),
        ensures
            r == (roles@.len() > 0 && !self.knows_roles(guild, now)),
    {
        if roles.len() == 0 {
            return false;
        }
        match self.roles.get(&guild) {
            Some(known) => !is_recent(known.at, now, ROLE_TTL),
            None => true,
        }
    }

    /// Takes in a guild's roles; where they could not be had, nothing has a colour for now.
    pub fn colored_roles(&mut self, guild: u64, fetched: &Option<Vec<Role>>, now: u64)
        requires
            old(self).wf(),
        ensures
            final(self).wf(),
            final(self).members == old(self).members,
            ({
                let entry = final(self).roles.map()[guild];
                &&& final(self).roles.map() == old(self).roles.map().insert(guild, entry)
                &&& entry.at == now
                &&& entry.colored.map() == match *fetched {
                    Some(roles) => coloured(roles@),
                    None => Map::empty(),
                }
            }),
    {
        let colored = match fetched {
            Some(roles) => keep_coloured(roles),
            None => Assoc::new(),
        };
        self.roles.insert(guild, CachedRoles { colored, at: now });
    }

    /// What is known of a member, where it is recent enough.
    pub fn member(&self, guild: u64, user: u64, now: u64) -> (r: Option<PartialMember>)
        requires
            self.wf(),
        ensures
            r is Some <==> self.knows_member(guild, user, now),
            r matches Some(m) ==> m.roles@ == self.members.map()[(guild, user)].roles@ && m.nick
                == self.members.map()[(guild, user)].nick,
    {
        match self.members.get(&(guild, user)) {
            Some(known) => {
                if is_recent(known.at, now, MEMBER_TTL) {
                    Some(
                        PartialMember { roles: copy_ids(&known.roles), nick: clone_opt(&known.nick) },
                    )
                } else {
                    None
                }
            },
            None => None,
        }
    }

    /// Takes in what was read of a member.
    pub fn learn_member(&mut self, guild: u64, user: u64, member: &PartialMember, now: u64)
        requires
            old(self).wf(),
        ensures
            final(self).wf(),
            final(self).roles == old(self).roles,
            ({
                let entry = final(self).members.map()[(guild, user)];
                &&& final(self).members.map() == old(self).members.map().insert((guild, user), entry)
                &&& entry.at == now
                &&& entry.roles@ == member.roles@
                &&& entry.nick == member.nick
            }),
    {
        self.members.insert(
            (guild, user),
            CachedMember { roles: copy_ids(&member.roles), nick: clone_opt(&member.nick), at: now },
        );
    }

    /// The colour of somebody with these roles: that of their highest coloured role, as far as
    /// the guild's roles are known.
    pub fn color_for(&self, guild: u64, roles: &Vec<u64>) -> (r: Option<String>)
        requires
            self.wf(),
        ensures
            opt_text(r) == if self.roles.map().contains_key(guild) {
                shown_colour(highest(self.roles.map()[guild].colored.map(), roles@))
            } else {
                None
            },
    {
        match self.roles.get(&guild) {
            Some(known) => {
                assert(self.roles.map().contains_key(guild));
                match find_highest(&known.colored, roles) {
                    Some(role) => Some(colour(role.colour)),
                    None => None,
                }
            },
            None => None,
        }
    }
}

pub open spec fn shown_colour(role: Option<RoleColor>) -> Option<Seq<char>> {
    match role {
        Some(role) => Some(colour_text(role.colour)),
        None => None,
    }
}

/// No coloured role that somebody has stands higher than the one they are coloured by.
pub proof fn lemma_the_highest_role_colours(colored: Map<u64, RoleColor>, roles: Seq<u64>)
    ensures
        highest(colored, roles) is Some <==> exists|i: int|
            0 <= i < roles.len() && colored.contains_key(#[trigger] roles[i]),
        highest(colored, roles) matches Some(best) ==> (forall|i: int|
            0 <= i < roles.len() && colored.contains_key(#[trigger] roles[i])
                ==> colored[roles[i]].position <= best.position) && exists|i: int|
            0 <= i < roles.len() && colored.contains_key(#[trigger] roles[i]) && colored[roles[i]]
                == best,
    decreases roles.len(),
{
    if roles.len() > 0 {
        let front = roles.drop_last();
        let n = roles.len() - 1;
        lemma_the_highest_role_colours(colored, front);
        assert forall|i: int| 0 <= i < n implies #[trigger] roles[i] == front[i] by {}
        if highest(colored, front) is Some {
            let best = highest(colored, front)->0;
            let i = choose|i: int|
                0 <= i < front.len() && colored.contains_key(#[trigger] front[i]) && colored[front[i]]
                    == best;
            assert(roles[i] == front[i]);
        }
        if colored.contains_key(roles[n]) {
            assert(colored.contains_key(roles[n]));
        }
        if exists|i: int| 0 <= i < roles.len() && colored.contains_key(#[trigger] roles[i]) {
            let i = choose|i: int| 0 <= i < roles.len() && colored.contains_key(#[trigger] roles[i]);
            if i < n {
                assert(colored.contains_key(front[i]));
            }
        }
        if highest(colored, roles) is Some {
            let best = highest(colored, roles)->0;
            assert forall|i: int| 0 <= i < roles.len() && colored.contains_key(#[trigger] roles[i]) implies
                colored[roles[i]].position <= best.position by {
                if i < n {
                    assert(colored.contains_key(front[i]));
                }
            }
        }
    }
}

/// Where a message's author stands in the guild is to be learned from.
pub enum AuthorSource {
    Given,
    Ask { guild: u64 },
    Nowhere,
}

/// Where to learn from how a message's author stands in the guild: live messages say it
/// themselves, those read back do not.
pub fn author_source(message: &Message) -> (r: AuthorSource)
    ensures
        match (message.member, message.guild_id) {
            (Some(_), _) => r is Given,
            (None, Some(g)) => r matches AuthorSource::Ask { guild } && guild == g,
            (None, None) => r is Nowhere,
        },
{
    if message.member.is_some() {
        AuthorSource::Given
    } else {
        match message.guild_id {
            Some(guild) => AuthorSource::Ask { guild },
            None => AuthorSource::Nowhere,
        }
    }
}

/// The name the wall shows for an account: the nickname, the global name, or the handle.
pub open spec fn wall_name(nick: Option<String>, user: User) -> Seq<char> {
    match nick {
        Some(nick) => nick@,
        None => match user.global_name {
            Some(global) => global@,
            None => user.name@,
        },
    }
}

fn name_on_wall(nick: &Option<String>, user: &User) -> (r: String)
    ensures
        r@ == wall_name(*nick, *user),
{
    match nick {
        Some(nick) => nick.clone(),
        None => match &user.global_name {
            Some(global) => global.clone(),
            None => user.name.clone(),
        },
    }
}

pub open spec fn wall_reply(m: Message, r: Option<WallReply>) -> bool {
    match m.referenced_message {
        Some(parent) => {
            &&& r is Some
            &&& r->0.author@ == wall_name(None, parent.author)
            &&& r->0.snippet@ == inlined(parent.content@, WALL_SNIPPET_CHARS as nat)
        },
        None => if m.message_reference is Some {
            &&& r is Some
            &&& r->0.author@ == Seq::<char>::empty()
            &&& r->0.snippet@ == "<unavailable>"@
        } else {
            r is None
        },
    }
}

/// What a message answers.
pub fn reply(message: &Message) -> (r: Option<WallReply>)
    ensures
        wall_reply(*message, r),
{
    match &message.referenced_message {
        Some(parent) => Some(
            WallReply {
                author: name_on_wall(&None, &parent.author),
                snippet: short_inline(parent.content.as_str()),
            },
        ),
        None => {
            if message.message_reference.is_some() {
                Some(
                    WallReply { author: String::new(), snippet: "<unavailable>".to_owned() },
                )
            } else {
                None
            }
        },
    }
}

/// A text on one line, cut where it is long.
pub fn short_inline(value: &str) -> (r: String)
    ensures
        r@ == inlined(value@, WALL_SNIPPET_CHARS as nat),
{
    one_line(value, WALL_SNIPPET_CHARS)
}

pub open spec fn wall_reaction(x: Reaction, r: WallReaction) -> bool {
    &&& r.count == x.count
    &&& match x.reaction_type {
        ReactionType::Unicode(value) => r.emoji == Some(value) && r.custom is None,
        ReactionType::Custom { animated, id, name } => r.emoji is None && r.custom is Some
            && r.custom->0.id@ == decimal(id as nat) && r.custom->0.name@ == (match name {
            Some(name) => name@,
            None => "emoji"@,
        }) && r.custom->0.animated == animated,
    }
}

/// An emoji and how many reacted with it.
pub fn reaction(item: &Reaction) -> (r: WallReaction)
    ensures
        wall_reaction(*item, r),
{
    match &item.reaction_type {
        ReactionType::Unicode(value) => WallReaction {
            emoji: Some(value.clone()),
            custom: None,
            count: item.count,
        },
        ReactionType::Custom { animated, id, name } => WallReaction {
            emoji: None,
            custom: Some(
                WallEmoji {
                    id: number(*id),
                    name: match name {
                        Some(name) => name.clone(),
                        None => "emoji".to_owned(),
                    },
                    animated: *animated,
                },
            ),
            count: item.count,
        },
    }
}

pub open spec fn smaller(a: int, b: int) -> int {
    if a < b {
        a
    } else {
        b
    }
}

pub open spec fn at_least_one(n: int) -> int {
    if n < 1 {
        1
    } else {
        n
    }
}

/// The size of a picture's preview: the long edge cut down, the other in proportion, and a
/// square where the picture's own size is not known.
pub open spec fn thumb_size(dims: Option<(u32, u32)>) -> (int, int) {
    match dims {
        Some((w, h)) => if w > 0 && h > 0 {
            if w >= h {
                let edge = smaller(THUMB_EDGE as int, w as int);
                (edge, at_least_one(edge * h / w as int))
            } else {
                let edge = smaller(THUMB_EDGE as int, h as int);
                (at_least_one(edge * w / h as int), edge)
            }
        } else {
            (THUMB_EDGE as int, THUMB_EDGE as int)
        },
        None => (THUMB_EDGE as int, THUMB_EDGE as int),
    }
}

fn scaled(edge: u32, short: u32, long: u32) -> (r: u64)
    requires
        edge <= THUMB_EDGE,
        0 < long,
    ensures
        r == at_least_one(edge * short / long as int),
{
    assert(edge * short <= 400 * 0xffff_ffff) by (nonlinear_arith)
        requires
            edge <= 400,
            short <= 0xffff_ffff,
    ;
    let n: u64 = (edge as u64) * (short as u64) / (long as u64);
    if n < 1 {
        1
    } else {
        n
    }
}

pub open spec fn thumb_text(proxy_url: Seq<char>, dims: Option<(u32, u32)>) -> Seq<char> {
    proxy_url + (if has_text(proxy_url, "?"@) {
        "&"@
    } else {
        "?"@
    }) + "width="@ + decimal(thumb_size(dims).0 as nat) + "&height="@ + decimal(
        thumb_size(dims).1 as nat,
    )
}

/// The address of a picture's preview.
pub fn sized_thumb(proxy_url: &str, dims: Option<(u32, u32)>) -> (r: String)
    ensures
        r@ == thumb_text(proxy_url@, dims),
{
    let (w, h): (u64, u64) = match dims {
        Some((w, h)) => {
            if w > 0 && h > 0 {
                if w >= h {
                    let edge: u32 = if w < THUMB_EDGE {
                        w
                    } else {
                        THUMB_EDGE
                    };
                    (edge as u64, scaled(edge, h, w))
                } else {
                    let edge: u32 = if h < THUMB_EDGE {
                        h
                    } else {
                        THUMB_EDGE
                    };
                    (scaled(edge, w, h), edge as u64)
                }
            } else {
                (THUMB_EDGE as u64, THUMB_EDGE as u64)
            }
        },
        None => (THUMB_EDGE as u64, THUMB_EDGE as u64),
    };
    let mut s = proxy_url.to_owned();
    if contains(proxy_url, "?") {
        s.append("&");
    } else {
        s.append("?");
    }
    s.append("width=");
    push_number(&mut s, w);
    s.append("&height=");
    push_number(&mut s, h);
    s
}

/// A preview's edges are never empty and never longer than the limit, nor than the picture's
/// own.
pub proof fn lemma_previews_fit(dims: Option<(u32, u32)>)
    ensures
        1 <= thumb_size(dims).0 <= THUMB_EDGE,
        1 <= thumb_size(dims).1 <= THUMB_EDGE,
        dims matches Some((w, h)) ==> (w > 0 && h > 0 ==> thumb_size(dims).0 <= w && thumb_size(
            dims,
        ).1 <= h),
{
    if let Some((w, h)) = dims {
        if w > 0 && h > 0 {
            if w >= h {
                let edge = smaller(THUMB_EDGE as int, w as int);
                assert(edge * h / w as int <= h && edge * h / w as int <= edge) by (nonlinear_arith)
                    requires
                        0 < edge <= w,
                        0 < h <= w,
                ;
            } else {
                let edge = smaller(THUMB_EDGE as int, h as int);
                assert(edge * w / h as int <= w && edge * w / h as int <= edge) by (nonlinear_arith)
                    requires
                        0 < edge <= h,
                        0 < w <= h,
                ;
            }
        }
    }
}

pub open spec fn dims_of(a: Attachment) -> Option<(u32, u32)> {
    match (a.width, a.height) {
        (Some(w), Some(h)) => Some((w, h)),
        _ => None,
    }
}

pub open spec fn type_of(a: Attachment) -> Seq<char> {
    match a.content_type {
        Some(t) => t@,
        None => ""@,
    }
}

pub open spec fn wall_attachment(a: Attachment, r: WallAttachment) -> bool {
    &&& r.kind@ == if begins_with(type_of(a), "image/"@) {
        "image"@
    } else if begins_with(type_of(a), "video/"@) {
        "video"@
    } else {
        "file"@
    }
    &&& r.name == a.filename
    &&& r.size == a.size
    &&& r.url == a.url
    &&& opt_text(r.thumb) == if begins_with(type_of(a), "image/"@) {
        Some(thumb_text(a.proxy_url@, dims_of(a)))
    } else {
        None
    }
    &&& r.width == match dims_of(a) {
        Some((w, h)) => Some(w),
        None => None,
    }
    &&& r.height == match dims_of(a) {
        Some((w, h)) => Some(h),
        None => None,
    }
}

/// A file, with a preview where it is a picture.
pub fn attachment(file: &Attachment) -> (r: WallAttachment)
    ensures
        wall_attachment(*file, r),
{
    let content_type = match &file.content_type {
        Some(t) => t.clone(),
        None => "".to_owned(),
    };
    let is_image = starts_with(content_type.as_str(), "image/");
    let kind = if is_image {
        "image".to_owned()
    } else if starts_with(content_type.as_str(), "video/") {
        "video".to_owned()
    } else {
        "file".to_owned()
    };
    let dims = match (file.width, file.height) {
        (Some(w), Some(h)) => Some((w, h)),
        _ => None,
    };
    let thumb = if is_image {
        Some(sized_thumb(file.proxy_url.as_str(), dims))
    } else {
        None
    };
    WallAttachment {
        kind,
        name: file.filename.clone(),
        size: file.size as u64,
        url: file.url.clone(),
        thumb,
        width: match dims {
            Some((w, _)) => Some(w),
            None => None,
        },
        height: match dims {
            Some((_, h)) => Some(h),
            None => None,
        },
    }
}

pub open spec fn wall_sticker(s: StickerItem, r: WallSticker) -> bool {
    &&& r.name == s.name
    &&& r.url == if s.format_type == StickerFormatType::Lottie {
        None
    } else {
        s.image_url
    }
}

/// A sticker; one that is drawn by a script has no picture.
pub fn sticker(item: &StickerItem) -> (r: WallSticker)
    ensures
        wall_sticker(*item, r),
{
    let url = match item.format_type {
        StickerFormatType::Lottie => None,
        _ => clone_opt(&item.image_url),
    };
    WallSticker { name: item.name.clone(), url }
}

/// The accounts that a message mentions, by number, each with the name shown for it; of two
/// of one number, the later.
pub open spec fn mention_names(users: Seq<User>, names: Map<Seq<char>, String>) -> bool {
    &&& forall|k: Seq<char>| #[trigger]
        names.contains_key(k) <==> exists|i: int|
            0 <= i < users.len() && k == decimal((#[trigger] users[i]).id as nat)
    &&& forall|i: int|
        0 <= i < users.len() && (forall|j: int| i < j < users.len() ==> users[j].id != users[i].id)
            ==> names.contains_key(decimal((#[trigger] users[i]).id as nat)) && names[decimal(
            users[i].id as nat,
        )]@ == wall_name(None, users[i])
}

fn list_mentions(users: &Vec<User>) -> (r: Assoc<String, String>)
    ensures
        r.wf(),
        mention_names(users@, r.map()),
{
    let mut r: Assoc<String, String> = Assoc::new();
    let mut n: usize = 0;
    while n < users.len()
        invariant
            n <= users@.len(),
            r.wf(),
            mention_names(users@.take(n as int), r.map()),
        decreases users@.len() - n,
    {
        let ghost before = r.map();
        let ghost front = users@.take(n as int);
        let key = number(users[n].id);
        let ghost k0 = key@;
        let name = name_on_wall(&None, &users[n]);
        let ghost shown = name;
        r.insert(key, name);
        n = n + 1;
        proof {
            let all = users@.take(n as int);
            let m = n - 1;
            assert(all[m] == users@[m]);
            assert forall|i: int| 0 <= i < m implies all[i] == front[i] by {}
            assert forall|k: Seq<char>| #[trigger] r.map().contains_key(k) <==> exists|i: int|
                0 <= i < all.len() && k == decimal((#[trigger] all[i]).id as nat) by {
                if before.contains_key(k) {
                    let i = choose|i: int|
                        0 <= i < front.len() && k == decimal((#[trigger] front[i]).id as nat);
                    assert(all[i] == front[i]);
                }
                if k == k0 {
                    assert(k == decimal(all[m].id as nat));
                }
                if exists|i: int| 0 <= i < all.len() && k == decimal((#[trigger] all[i]).id as nat) {
                    let i = choose|i: int|
                        0 <= i < all.len() && k == decimal((#[trigger] all[i]).id as nat);
                    if i < m {
                        assert(k == decimal(front[i].id as nat));
                    }
                }
            }
            assert forall|i: int|
                0 <= i < all.len() && (forall|j: int| i < j < all.len() ==> all[j].id != all[i].id) implies
                r.map().contains_key(decimal((#[trigger] all[i]).id as nat)) && r.map()[decimal(
                all[i].id as nat,
            )]@ == wall_name(None, all[i]) by {
                if i < m {
                    assert(all[m].id != all[i].id);
                    if decimal(all[i].id as nat) == k0 {
                        crate::numeral::lemma_decimal_injective(
                            all[i].id as nat,
                            all[m].id as nat,
                        );
                    }
                    assert(front[i] == all[i]);
                    assert forall|j: int| i < j < front.len() implies front[j].id != front[i].id by {
                        assert(all[j].id != all[i].id);
                    }
                }
            }
        }
    }
    assert(users@.take(n as int) =~= users@);
    r
}

/// A message as the wall shows it, given how its author stands in the guild and in what
/// colour.
pub open spec fn on_wall(m: Message, nick: Option<String>, color: Option<String>, r: WallMessage) -> bool {
    &&& r.id@ == decimal(m.id as nat)
    &&& r.channel_id@ == decimal(m.channel_id as nat)
    &&& opt_text(r.guild_id) == match m.guild_id {
        Some(g) => Some(decimal(g as nat)),
        None => None,
    }
    &&& r.author.id@ == decimal(m.author.id as nat)
    &&& r.author.name@ == wall_name(nick, m.author)
    &&& r.author.username == m.author.name
    &&& r.author.color == color
    &&& r.timestamp == m.timestamp
    &&& r.edited == (m.edited_timestamp is Some)
    &&& r.content == m.content
    &&& wall_reply(m, r.reply)
    &&& r.reactions@.len() == m.reactions@.len()
    &&& forall|i: int|
        0 <= i < m.reactions@.len() ==> wall_reaction(m.reactions@[i], #[trigger] r.reactions@[i])
    &&& r.attachments@.len() == m.attachments@.len()
    &&& forall|i: int|
        0 <= i < m.attachments@.len() ==> wall_attachment(
            m.attachments@[i],
            #[trigger] r.attachments@[i],
        )
    &&& r.stickers@.len() == m.sticker_items@.len()
    &&& forall|i: int|
        0 <= i < m.sticker_items@.len() ==> wall_sticker(
            m.sticker_items@[i],
            #[trigger] r.stickers@[i],
        )
    &&& r.mentions.wf()
    &&& mention_names(m.mentions@, r.mentions.map())
}

fn list_reactions(v: &Vec<Reaction>) -> (r: Vec<WallReaction>)
    ensures
        r@.len() == v@.len(),
        forall|i: int| 0 <= i < v@.len() ==> wall_reaction(v@[i], #[trigger] r@[i]),
{
    let mut r: Vec<WallReaction> = Vec::new();
    let mut i: usize = 0;
    while i < v.len()
        invariant
            i <= v@.len(),
            r@.len() == i,
            forall|j: int| 0 <= j < i ==> wall_reaction(v@[j], #[trigger] r@[j]),
        decreases v@.len() - i,
    {
        r.push(reaction(&v[i]));
        i = i + 1;
    }
    r
}

fn list_attachments(v: &Vec<Attachment>) -> (r: Vec<WallAttachment>)
    ensures
        r@.len() == v@.len(),
        forall|i: int| 0 <= i < v@.len() ==> wall_attachment(v@[i], #[trigger] r@[i]),
{
    let mut r: Vec<WallAttachment> = Vec::new();
    let mut i: usize = 0;
    while i < v.len()
        invariant
            i <= v@.len(),
            r@.len() == i,
            forall|j: int| 0 <= j < i ==> wall_attachment(v@[j], #[trigger] r@[j]),
        decreases v@.len() - i,
    {
        r.push(attachment(&v[i]));
        i = i + 1;
    }
    r
}

fn list_stickers(v: &Vec<StickerItem>) -> (r: Vec<WallSticker>)
    ensures
        r@.len() == v@.len(),
        forall|i: int| 0 <= i < v@.len() ==> wall_sticker(v@[i], #[trigger] r@[i]),
{
    let mut r: Vec<WallSticker> = Vec::new();
    let mut i: usize = 0;
    while i < v.len()
        invariant
            i <= v@.len(),
            r@.len() == i,
            forall|j: int| 0 <= j < i ==> wall_sticker(v@[j], #[trigger] r@[j]),
        decreases v@.len() - i,
    {
        r.push(sticker(&v[i]));
        i = i + 1;
    }
    r
}

/// A message as the wall shows it, given how its author stands in the guild and in what
/// colour.
pub fn enrich(message: &Message, nick: Option<String>, color: Option<String>) -> (r: WallMessage)
    ensures
        on_wall(*message, nick, color, r),
{
    let name = name_on_wall(&nick, &message.author);
    WallMessage {
        id: number(message.id),
        channel_id: number(message.channel_id),
        guild_id: match message.guild_id {
            Some(g) => Some(number(g)),
            None => None,
        },
        author: WallAuthor {
            id: number(message.author.id),
            name,
            username: message.author.name.clone(),
            color,
        },
        timestamp: message.timestamp.clone(),
        edited: message.edited_timestamp.is_some(),
        content: message.content.clone(),
        reply: reply(message),
        reactions: list_reactions(&message.reactions),
        attachments: list_attachments(&message.attachments),
        stickers: list_stickers(&message.sticker_items),
        mentions: list_mentions(&message.mentions),
    }
}

/// How a message's author stands in the guild: as the message says, or else as was found out,
/// or else not at all.
pub open spec fn standing(m: Message, asked: Option<PartialMember>) -> (Seq<u64>, Option<String>) {
    match (m.member, m.guild_id) {
        (Some(partial), _) => (partial.roles@, partial.nick),
        (None, Some(_)) => match asked {
            Some(partial) => (partial.roles@, partial.nick),
            None => (seq![], None),
        },
        (None, None) => (seq![], None),
    }
}

/// How a message's author stands in the guild, given what was found out where it had to be.
pub fn standing_of(message: &Message, asked: &Option<PartialMember>) -> (r: PartialMember)
    ensures
        (r.roles@, r.nick) == standing(*message, *asked),
{
    let known = match &message.member {
        Some(partial) => Some(partial),
        None => match message.guild_id {
            Some(_) => match asked {
                Some(partial) => Some(partial),
                None => None,
            },
            None => None,
        },
    };
    match known {
        Some(partial) => PartialMember {
            roles: copy_ids(&partial.roles),
            nick: clone_opt(&partial.nick),
        },
        None => PartialMember { roles: Vec::new(), nick: None },
    }
}

impl EnrichCache {
    /// The colour of somebody with these roles, in the guild a message came from.
    pub open spec fn colour_in(self, guild: Option<u64>, roles: Seq<u64>) -> Option<Seq<char>> {
        match guild {
            Some(guild) => if self.roles.map().contains_key(guild) {
                shown_colour(highest(self.roles.map()[guild].colored.map(), roles))
            } else {
                None
            },
            None => None,
        }
    }

    /// A message as the wall shows it, given how its author stands in the guild.
    pub fn show(&self, message: &Message, author: &PartialMember) -> (r: WallMessage)
        requires
            self.wf(),
        ensures
            on_wall(*message, author.nick, r.author.color, r),
            opt_text(r.author.color) == self.colour_in(message.guild_id, author.roles@),
    {
        let color = match message.guild_id {
            Some(guild) => self.color_for(guild, &author.roles),
            None => None,
        };
        enrich(message, clone_opt(&author.nick), color)
    }
}

/// A message that came live and the same message read back are shown alike: whether the
/// message says how its author stands or it had to be found out makes no difference.
pub proof fn lemma_both_doors_show_the_same(
    live: Message,
    partial: PartialMember,
    color: Option<String>,
    r: WallMessage,
)
    requires
        live.member == Some(partial),
        live.guild_id is Some,
    ensures
        standing(live, None) == standing(Message { member: None, ..live }, Some(partial)),
        on_wall(live, partial.nick, color, r) <==> on_wall(
            Message { member: None, ..live },
            partial.nick,
            color,
            r,
        ),
{
}

} // verus!
