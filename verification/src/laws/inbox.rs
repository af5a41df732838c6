//! Whoever calls the crow is heard.

use vstd::prelude::*;

use crate::config::GatewayMode;
use crate::discord::wire::Message;
use crate::gateway::{
    lemma_matched_words_stand_in_the_text, matched, mentions_account, GatewayConfig, Handler,
};
use crate::laws::hands::goes_by;
use crate::laws::ledger::is_limit;
use crate::laws::order::{in_order, lemma_each_joined, lemma_itself, lemma_more, lemma_then, stands_at};
use crate::laws::words::{lemma_has_text, lemma_normalized, lemma_singles};
use crate::ledger_meaning::{after_marking_all, lemma_marked_mentions_are_hidden, InboxRow};
use crate::mentions::{mention_params, MentionStore, NewMention, LIST_HEAD, LIST_TAIL};
use crate::numeral::{lemma_decimal_reads_back, parsed_u64};
use crate::server::tools::common::Caller;
use crate::server::tools::mentions::{CheckMentionsRequest, MarkMentionsSeenRequest};
use crate::server::KurouServer;
use crate::sql::{bound, Bound, Statement};
use crate::text::{decimal, has_text, joined, lowercased, normalized_words, opt_text, texts, trimmed};

verus! {

/// A message names the crow: one of those it mentions is the crow's account, or one of the
/// words it listens for stands somewhere in the text, whatever letters are capitals.
pub open spec fn names_the_crow(h: Handler, m: Message) -> bool {
    ||| exists|i: int| 0 <= i < m.mentions@.len() && (#[trigger] m.mentions@[i]).id == h.bot_user_id
    ||| exists|k: int, at: int|
        0 <= k < h.mention_keywords@.len() && #[trigger] stands_at(
            lowercased(m.content@),
            h.mention_keywords@[k]@,
            at,
        )
}

/// The inbox keeps a message exactly where the inbox is open, somebody else wrote it, in the
/// home guild if there is one, and the message names the crow.
pub proof fn lemma_whoever_calls_is_heard(h: Handler, m: Message, r: Option<NewMention>)
    requires
        call_ensures(Handler::message, (&h, &m), r),
    ensures
        r is Some <==> {
            &&& h.mode == GatewayMode::Mentions
            &&& h.mention_store is Some
            &&& m.author.id != h.bot_user_id
            &&& h.default_guild is None || m.guild_id == h.default_guild
            &&& names_the_crow(h, m)
        },
{
    let mentioned = mentions_account(m, h.bot_user_id);
    let content = lowercased(m.content@);
    let keywords = texts(h.mention_keywords@);
    let words = matched(mentioned, content, keywords);
    lemma_matched_words_stand_in_the_text(mentioned, content, keywords);
    if words.len() > 0 {
        let w = words[0];
        assert(words.contains(w));
        if !mentioned {
            let k = choose|k: int| 0 <= k < keywords.len() && keywords[k] == w;
            lemma_has_text(content, w);
            let at = choose|at: int| stands_at(content, w, at);
            assert(stands_at(content, h.mention_keywords@[k]@, at));
        }
    }
    if names_the_crow(h, m) {
        if mentioned {
            assert(words.contains("mention"@));
        } else {
            let (k, at) = choose|k: int, at: int|
                0 <= k < h.mention_keywords@.len() && #[trigger] stands_at(
                    content,
                    h.mention_keywords@[k]@,
                    at,
                );
            lemma_has_text(content, h.mention_keywords@[k]@);
            assert(keywords[k] == h.mention_keywords@[k]@);
            assert(words.contains(keywords[k]));
        }
    }
}

/// A number that may be missing, as it is written down.
pub open spec fn is_id(text: Option<String>, id: Option<u64>) -> bool {
    match id {
        Some(id) => text is Some && parsed_u64(text->0@) == Some(id),
        None => text is None,
    }
}

/// The name a room uses for somebody: the nickname, or else the global name, and none where
/// that is the handle itself.
pub open spec fn is_room_name(m: Message, name: Option<String>) -> bool {
    let used = if m.member is Some && m.member->0.nick is Some {
        m.member->0.nick
    } else {
        m.author.global_name
    };
    match used {
        Some(used) => if used@ == m.author.name@ {
            name is None
        } else {
            name is Some && name->0@ == used@
        },
        None => name is None,
    }
}

/// What the inbox keeps is the message: which it is and where, who wrote it, what and when,
/// where to find it, and every word that called, a mention first.
pub proof fn lemma_a_letter_is_the_message(h: Handler, m: Message, r: Option<NewMention>)
    requires
        call_ensures(Handler::message, (&h, &m), r),
        r is Some,
    ensures
        parsed_u64(r->0.message_id@) == Some(m.id),
        is_id(r->0.guild_id, m.guild_id),
        parsed_u64(r->0.channel_id@) == Some(m.channel_id),
        parsed_u64(r->0.author_id@) == Some(m.author.id),
        r->0.author_name@ == m.author.name@,
        is_room_name(m, r->0.author_display_name),
        r->0.content@ == m.content@,
        r->0.timestamp@ == m.timestamp@,
        in_order(
            r->0.link@,
            match m.guild_id {
                Some(guild) => seq![
                    decimal(guild as nat),
                    decimal(m.channel_id as nat),
                    decimal(m.id as nat),
                ],
                None => seq!["@me"@, decimal(m.channel_id as nat), decimal(m.id as nat)],
            },
        ),
        exists|words: Seq<Seq<char>>| #[trigger]
            are_the_calls(h, m, words) && in_order(r->0.matched@, words) && r->0.matched@ == joined(
                words,
                seq![','],
            ),
{
    lemma_decimal_reads_back(m.id);
    lemma_decimal_reads_back(m.channel_id);
    lemma_decimal_reads_back(m.author.id);
    if let Some(guild) = m.guild_id {
        lemma_decimal_reads_back(guild);
    }
    let house = match m.guild_id {
        Some(guild) => decimal(guild as nat),
        None => "@me"@,
    };
    let root = "https://discord.com/channels/"@;
    lemma_itself(house);
    lemma_more(house, root, seq![house]);
    lemma_more(root + house, "/"@, seq![house]);
    lemma_then(root + house + "/"@, decimal(m.channel_id as nat), seq![house]);
    let two = seq![house].push(decimal(m.channel_id as nat));
    let t2 = root + house + "/"@ + decimal(m.channel_id as nat);
    lemma_more(t2, "/"@, two);
    lemma_then(t2 + "/"@, decimal(m.id as nat), two);
    assert(two.push(decimal(m.id as nat)) =~= seq![
        house,
        decimal(m.channel_id as nat),
        decimal(m.id as nat),
    ]);
    let words = h.called_by(m);
    lemma_calls(h, m);
    reveal_strlit(",");
    assert(","@ =~= seq![',']);
    let lists = words.map_values(|w: Seq<char>| seq![w]);
    assert forall|i: int| 0 <= i < words.len() implies in_order(words[i], #[trigger] lists[i]) by {
        lemma_itself(words[i]);
    }
    lemma_each_joined(words, ","@, lists);
    lemma_singles(words);
}

/// Words are those that call the crow in a message: each once, `mention` first where it is
/// mentioned, and then the words it listens for that stand in the text, in its order.
pub open spec fn are_the_calls(h: Handler, m: Message, words: Seq<Seq<char>>) -> bool {
    let mentioned = exists|i: int|
        0 <= i < m.mentions@.len() && (#[trigger] m.mentions@[i]).id == h.bot_user_id;
    &&& words.no_duplicates()
    &&& mentioned ==> words.len() > 0 && words[0] == "mention"@
    &&& forall|w: Seq<char>| #[trigger]
        words.contains(w) <==> (mentioned && w == "mention"@) || (exists|k: int, at: int|
            0 <= k < h.mention_keywords@.len() && w == h.mention_keywords@[k]@ && #[trigger] stands_at(
                lowercased(m.content@),
                h.mention_keywords@[k]@,
                at,
            ))
}

proof fn lemma_mention_first(content: Seq<char>, keywords: Seq<Seq<char>>)
    ensures
        matched(true, content, keywords).len() > 0,
        matched(true, content, keywords)[0] == "mention"@,
    decreases keywords.len(),
{
    if keywords.len() > 0 {
        lemma_mention_first(content, keywords.drop_last());
    }
}

proof fn lemma_calls(h: Handler, m: Message)
    ensures
        are_the_calls(h, m, h.called_by(m)),
{
    let mentioned = mentions_account(m, h.bot_user_id);
    let content = lowercased(m.content@);
    let keywords = texts(h.mention_keywords@);
    let words = h.called_by(m);
    lemma_matched_words_stand_in_the_text(mentioned, content, keywords);
    if mentioned {
        lemma_mention_first(content, keywords);
    }
    assert forall|w: Seq<char>| #[trigger] words.contains(w) <==> (mentioned && w == "mention"@) || (
    exists|k: int, at: int|
        0 <= k < h.mention_keywords@.len() && w == h.mention_keywords@[k]@ && #[trigger] stands_at(
            content,
            h.mention_keywords@[k]@,
            at,
        )) by {
        lemma_has_text(content, w);
        if keywords.contains(w) && has_text(content, w) {
            let k = choose|k: int| 0 <= k < keywords.len() && keywords[k] == w;
            let at = choose|at: int| stands_at(content, w, at);
            assert(stands_at(content, h.mention_keywords@[k]@, at));
        }
        if exists|k: int, at: int|
            0 <= k < h.mention_keywords@.len() && w == h.mention_keywords@[k]@ && #[trigger] stands_at(
                content,
                h.mention_keywords@[k]@,
                at,
            ) {
            let (k, at) = choose|k: int, at: int|
                0 <= k < h.mention_keywords@.len() && w == h.mention_keywords@[k]@
                    && #[trigger] stands_at(content, h.mention_keywords@[k]@, at);
            assert(keywords[k] == w);
        }
    }
}

/// A listener listens for the words it was given: each in small letters and without the white
/// space around it, and for no empty one. It takes everything else as it was given.
pub proof fn lemma_a_listener_is_as_configured(config: GatewayConfig, bot: u64, h: Handler)
    requires
        call_ensures(Handler::new, (config, bot), h),
    ensures
        h.bot_user_id == bot,
        h.mode == config.mode,
        h.default_guild == config.default_guild,
        h.mention_store == config.mention_store,
        forall|w: Seq<char>| #[trigger]
            texts(h.mention_keywords@).contains(w) <==> w.len() > 0 && exists|i: int|
                0 <= i < config.mention_keywords@.len() && w == lowercased(
                    trimmed((#[trigger] config.mention_keywords@[i])@),
                ),
{
    let given = texts(config.mention_keywords@);
    lemma_normalized(given);
    assert forall|w: Seq<char>| #[trigger] texts(h.mention_keywords@).contains(w) <==> w.len() > 0
        && exists|i: int|
        0 <= i < config.mention_keywords@.len() && w == lowercased(
            trimmed((#[trigger] config.mention_keywords@[i])@),
        ) by {
        assert(normalized_words(given).contains(w) <==> w.len() > 0 && exists|i: int|
            0 <= i < given.len() && w == lowercased(trimmed(#[trigger] given[i])));
        if exists|i: int| 0 <= i < given.len() && w == lowercased(trimmed(#[trigger] given[i])) {
            let i = choose|i: int| 0 <= i < given.len() && w == lowercased(trimmed(#[trigger] given[i]));
            assert(given[i] == config.mention_keywords@[i]@);
        }
        if exists|i: int|
            0 <= i < config.mention_keywords@.len() && w == lowercased(
                trimmed((#[trigger] config.mention_keywords@[i])@),
            ) {
            let i = choose|i: int|
                0 <= i < config.mention_keywords@.len() && w == lowercased(
                    trimmed((#[trigger] config.mention_keywords@[i])@),
                );
            assert(given[i] == config.mention_keywords@[i]@);
        }
    }
}

/// Two letters say the same.
pub open spec fn same_letter(a: NewMention, b: NewMention) -> bool {
    &&& a.message_id@ == b.message_id@
    &&& opt_text(a.guild_id) == opt_text(b.guild_id)
    &&& a.channel_id@ == b.channel_id@
    &&& a.author_id@ == b.author_id@
    &&& a.author_name@ == b.author_name@
    &&& opt_text(a.author_display_name) == opt_text(b.author_display_name)
    &&& a.content@ == b.content@
    &&& a.matched@ == b.matched@
    &&& a.timestamp@ == b.timestamp@
    &&& a.link@ == b.link@
}

/// Everything a letter says is kept: two that are kept alike say the same.
pub proof fn lemma_a_letter_is_kept_whole(
    store: MentionStore,
    a: NewMention,
    kept: Statement,
    b: NewMention,
    also: Statement,
)
    requires
        call_ensures(MentionStore::insert, (&store, &a), kept),
        call_ensures(MentionStore::insert, (&store, &b), also),
        bound(kept.params@) == bound(also.params@),
    ensures
        same_letter(a, b),
        kept.sql@ == also.sql@,
{
    let p = mention_params(a);
    let q = mention_params(b);
    assert(p == q);
    assert(p[0] == q[0] && p[1] == q[1] && p[2] == q[2] && p[3] == q[3] && p[4] == q[4] && p[5] == q[5]
        && p[6] == q[6] && p[7] == q[7] && p[8] == q[8] && p[9] == q[9]);
}

/// A condition of the inbox lets a letter through.
pub open spec fn lets_through(condition: Seq<char>, seen: bool) -> bool {
    ||| condition == seq!['1', ' ', '=', ' ', '1']
    ||| condition == seq!['s', 'e', 'e', 'n', ' ', '=', ' ', '0'] && !seen
}

/// A statement reads the inbox under a condition.
pub open spec fn reads_inbox(s: Statement, condition: Seq<char>) -> bool {
    s.sql@ == LIST_HEAD@ + condition + LIST_TAIL@
}

/// The house's own reader reads the inbox, and nobody else: the letters not seen yet, and the
/// seen ones only where they are asked for. It reads one to a hundred, twenty where nothing is
/// said.
pub proof fn lemma_the_inbox_is_read(
    server: KurouServer,
    caller: Caller,
    req: CheckMentionsRequest,
    r: Result<Statement, String>,
)
    requires
        call_ensures(KurouServer::check_mentions, (&server, &caller, &req), r),
    ensures
        r is Ok <==> goes_by(caller, "koma"@) && server.mention_store is Some,
        r matches Ok(s) ==> {
            &&& exists|condition: Seq<char>| #[trigger]
                reads_inbox(s, condition) && (forall|seen: bool| #[trigger]
                    lets_through(condition, seen) <==> !seen || req.include_seen == Some(true))
            &&& bound(s.params@).len() == 1
            &&& bound(s.params@)[0] matches Bound::Integer(n) && n >= 0 && is_limit(
                req.limit,
                20,
                n as nat,
            )
        },
{
    if let Ok(s) = r {
        reveal_strlit("1 = 1");
        reveal_strlit("seen = 0");
        let all = req.include_seen == Some(true);
        let condition = if all {
            "1 = 1"@
        } else {
            "seen = 0"@
        };
        assert("1 = 1"@ =~= seq!['1', ' ', '=', ' ', '1']);
        assert("seen = 0"@ =~= seq!['s', 'e', 'e', 'n', ' ', '=', ' ', '0']);
        assert("1 = 1"@.len() != "seen = 0"@.len());
        assert(reads_inbox(s, condition));
    }
}

/// The house's own reader marks letters as seen, and nobody else: exactly those named, or all
/// of them where none is named.
pub proof fn lemma_the_inbox_is_marked(
    server: KurouServer,
    caller: Caller,
    req: MarkMentionsSeenRequest,
    r: Result<Vec<Statement>, String>,
    inbox: Map<int, InboxRow>,
)
    requires
        call_ensures(KurouServer::mark_mentions_seen, (&server, &caller, &req), r),
        inbox.dom().finite(),
    ensures
        r is Ok <==> goes_by(caller, "koma"@) && server.mention_store is Some,
        r matches Ok(statements) ==> forall|id: int|
            #![trigger inbox.contains_key(id)]
            inbox.contains_key(id) ==> {
                let after = after_marking_all(inbox, statements@).0;
                &&& after.contains_key(id)
                &&& after[id].message_id == inbox[id].message_id
                &&& after[id].seen <==> inbox[id].seen || req.ids is None || exists|i: int|
                    0 <= i < req.ids->0@.len() && #[trigger] req.ids->0@[i] == id
            },
{
    if let Ok(statements) = r {
        lemma_marked_mentions_are_hidden(inbox, req.ids, statements@);
        let after = after_marking_all(inbox, statements@).0;
        assert(after == crate::ledger_meaning::with_seen(inbox, req.ids));
    }
}

} // verus!
