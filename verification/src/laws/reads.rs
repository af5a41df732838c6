//! What is read, shown and shown off, as it was asked for.

use vstd::prelude::*;

use crate::discord::wire::ReactionType;
use crate::laws::hands::{goes_by, has_bot, lemma_who_may_act};
use crate::laws::ledger::is_limit;
use crate::laws::order::stands_at;
use crate::laws::scan::{named_id, stands_somewhere};
use crate::laws::words::{is_all_space, is_between, is_trim_of, lemma_one_trim, lemma_trimmed};
use crate::server::tools::common::{identity_of, Caller};
use crate::server::tools::messages::{
    build_anchor, get_message, read_messages, Anchor, GetMessageRequest, ReadMessagesRequest, ReadPlan,
};
use crate::server::tools::presence::{may_steer, OnlineStatus, PresencePlan, PresenceRequest};
use crate::server::tools::reaction::{
    custom_text, emoji_label, emoji_of, hold_emoji, parse_emoji, read_as_written, ReactionPlan, ReactionRequest,
};
use crate::server::tools::send::Recipient;
use crate::server::tools::typing::TypingRequest;
use crate::server::{KurouServer, Probe, Voice};
use crate::text::{decimal, is_blank, trimmed};

verus! {

/// Whether an anchor was given, as a number.
pub open spec fn given(raw: Option<String>) -> nat {
    if raw is Some {
        1
    } else {
        0
    }
}

/// A text is not given, or stands for a number.
pub open spec fn is_number_if_given(raw: Option<String>) -> bool {
    raw is Some ==> named_id(raw->0@) is Some
}

/// A slice lies where the one anchor that was given says: at most one may be, and it must be a
/// message's number.
pub proof fn lemma_a_slice_lies_where_it_was_asked_for(
    around: Option<String>,
    before: Option<String>,
    after: Option<String>,
    r: Result<Option<Anchor>, String>,
)
    requires
        call_ensures(build_anchor, (&around, &before, &after), r),
    ensures
        r is Ok <==> given(around) + given(before) + given(after) <= 1 && is_number_if_given(around)
            && is_number_if_given(before) && is_number_if_given(after),
        r matches Ok(anchor) ==> {
            &&& anchor is None <==> around is None && before is None && after is None
            &&& anchor matches Some(Anchor::Around(id)) ==> around is Some && named_id(around->0@) == Some(id)
            &&& anchor matches Some(Anchor::Before(id)) ==> before is Some && named_id(before->0@) == Some(id)
            &&& anchor matches Some(Anchor::After(id)) ==> after is Some && named_id(after->0@) == Some(id)
        },
{
}

/// A read is of the channel that was named, as far as was asked, where it was asked for.
pub proof fn lemma_a_read_is_as_asked(req: ReadMessagesRequest, r: Result<ReadPlan, String>)
    requires
        call_ensures(read_messages, (&req,), r),
    ensures
        r is Ok <==> named_id(req.channel_id@) is Some && given(req.around) + given(req.before) + given(req.after)
            <= 1 && is_number_if_given(req.around) && is_number_if_given(req.before) && is_number_if_given(
            req.after,
        ),
        r matches Ok(plan) ==> {
            &&& Some(plan.channel) == named_id(req.channel_id@)
            &&& is_limit(req.limit, 50, plan.limit as nat)
            &&& plan.anchor is None <==> req.around is None && req.before is None && req.after is None
            &&& plan.anchor matches Some(Anchor::Around(id)) ==> req.around is Some && named_id(req.around->0@)
                == Some(id)
            &&& plan.anchor matches Some(Anchor::Before(id)) ==> req.before is Some && named_id(req.before->0@)
                == Some(id)
            &&& plan.anchor matches Some(Anchor::After(id)) ==> req.after is Some && named_id(req.after->0@)
                == Some(id)
        },
{
}

/// A message is fetched from the channel that was named, by the number that was named.
pub proof fn lemma_one_message_is_fetched(req: GetMessageRequest, r: Result<(u64, u64), String>)
    requires
        call_ensures(get_message, (&req,), r),
    ensures
        r is Ok <==> named_id(req.channel_id@) is Some && named_id(req.message_id@) is Some,
        r matches Ok((channel, message)) ==> Some(channel) == named_id(req.channel_id@) && Some(message)
            == named_id(req.message_id@),
{
}

/// A private channel is read only with somebody whose private calls are taken; every other one
/// may be read, and all may where there is no home guild.
pub proof fn lemma_what_may_be_read(
    server: KurouServer,
    channel: u64,
    probe: Probe,
    recipient: Recipient,
    r: Result<(), String>,
)
    requires
        call_ensures(KurouServer::guard_read_target, (&server, channel, probe, recipient), r),
    ensures
        r is Err <==> server.default_guild is Some && probe == Probe::NoGuild && match recipient {
            Recipient::Unknown => true,
            Recipient::Account(id) => forall|i: int|
                0 <= i < server.wake_dm_from@.len() ==> #[trigger] server.wake_dm_from@[i] != id,
        },
        r matches Err(e) ==> stands_somewhere(e@, decimal(channel as nat)),
{
    if let Recipient::Account(id) = recipient {
        if server.wake_dm_from@.contains(id) {
            let i = choose|i: int| 0 <= i < server.wake_dm_from@.len() && server.wake_dm_from@[i] == id;
            assert(server.wake_dm_from@[i] == id);
        }
    }
    if let Err(e) = r {
        let at = "refusing to read: channel "@.len() as int;
        let n = decimal(channel as nat);
        assert(e@.subrange(at, at + n.len()) =~= n);
        assert(stands_at(e@, n, at));
    }
}

/// A voice is that of a label: the house's own bot for the house, and otherwise the bot of that
/// very label.
pub open spec fn is_own(v: Voice, label: Seq<char>) -> bool {
    if label == seq!['k', 'o', 'm', 'a'] {
        v is Primary
    } else {
        v matches Voice::Sender { label: own } && own@ == label
    }
}

/// Somebody goes by a label and has a bot.
pub open spec fn has_a_voice(server: KurouServer, caller: Caller) -> bool {
    exists|label: Seq<char>| goes_by(caller, label) && has_bot(server, label)
}

/// The names of what the dot can show.
pub open spec fn dot_names(status: OnlineStatus) -> Seq<char> {
    match status {
        OnlineStatus::Online => seq!['o', 'n', 'l', 'i', 'n', 'e'],
        OnlineStatus::Idle => seq!['i', 'd', 'l', 'e'],
        OnlineStatus::DoNotDisturb => seq!['d', 'n', 'd'],
        OnlineStatus::Invisible => seq!['i', 'n', 'v', 'i', 's', 'i', 'b', 'l', 'e'],
    }
}

/// A name is one that the dot knows.
pub open spec fn is_dot_name(name: Seq<char>) -> bool {
    exists|status: OnlineStatus| name == #[trigger] dot_names(status)
}

proof fn lemma_dot_names()
    ensures
        "online"@ == dot_names(OnlineStatus::Online),
        "idle"@ == dot_names(OnlineStatus::Idle),
        "dnd"@ == dot_names(OnlineStatus::DoNotDisturb),
        "invisible"@ == dot_names(OnlineStatus::Invisible),
        forall|a: OnlineStatus, b: OnlineStatus| #[trigger] dot_names(a) == #[trigger] dot_names(b) ==> a == b,
        "koma"@ == seq!['k', 'o', 'm', 'a'],
{
    reveal_strlit("online");
    reveal_strlit("idle");
    reveal_strlit("dnd");
    reveal_strlit("invisible");
    reveal_strlit("koma");
    assert("online"@ =~= dot_names(OnlineStatus::Online));
    assert("idle"@ =~= dot_names(OnlineStatus::Idle));
    assert("dnd"@ =~= dot_names(OnlineStatus::DoNotDisturb));
    assert("invisible"@ =~= dot_names(OnlineStatus::Invisible));
    assert("koma"@ =~= seq!['k', 'o', 'm', 'a']);
    assert forall|a: OnlineStatus, b: OnlineStatus| #[trigger] dot_names(a) == #[trigger] dot_names(b) implies a
        == b by {
        assert(dot_names(a).len() == dot_names(b).len());
    }
}

/// The dot is steered to the status that was named, by whoever has a voice, where it can be
/// steered at all; the line of text is kept unless it is blank.
pub proof fn lemma_the_dot_shows_what_was_named(
    server: KurouServer,
    caller: Caller,
    req: PresenceRequest,
    r: Result<PresencePlan, String>,
)
    requires
        call_ensures(KurouServer::set_presence, (&server, &caller, &req), r),
    ensures
        r is Ok <==> is_dot_name(req.status@) && server.presence && has_a_voice(server, caller),
        r matches Ok(plan) ==> {
            &&& req.status@ == dot_names(plan.status)
            &&& exists|label: Seq<char>| goes_by(caller, label) && #[trigger] is_own(plan.voice, label)
            &&& plan.text is Some <==> req.text is Some && !is_blank(req.text->0@)
            &&& plan.text is Some ==> plan.text == req.text
        },
{
    lemma_dot_names();
    lemma_who_may_act(server, caller, seq![]);
    if is_dot_name(req.status@) {
        let status = choose|status: OnlineStatus| req.status@ == #[trigger] dot_names(status);
        assert(req.status@ == dot_names(status));
    }
    if let Ok(plan) = r {
        assert(req.status@ == dot_names(plan.status));
        assert(goes_by(caller, identity_of(caller)->0));
        assert(is_own(plan.voice, identity_of(caller)->0));
    }
}

/// The dot is steered only with the bot that holds it.
pub proof fn lemma_the_dot_has_one_holder(holder: Option<u64>, bot: u64, r: Result<(), String>)
    requires
        call_ensures(may_steer, (holder, bot), r),
    ensures
        r is Ok <==> holder == Some(bot),
{
}

/// Somebody types where they say, in their own voice.
pub proof fn lemma_everybody_types_for_themselves(
    server: KurouServer,
    caller: Caller,
    req: TypingRequest,
    r: Result<(Voice, u64), String>,
)
    requires
        call_ensures(KurouServer::typing, (&server, &caller, &req), r),
    ensures
        r is Ok <==> has_a_voice(server, caller) && named_id(req.channel_id@) is Some,
        r matches Ok((voice, channel)) ==> {
            &&& Some(channel) == named_id(req.channel_id@)
            &&& exists|label: Seq<char>| goes_by(caller, label) && #[trigger] is_own(voice, label)
        },
{
    lemma_dot_names();
    lemma_who_may_act(server, caller, seq![]);
    if let Ok((voice, channel)) = r {
        assert(goes_by(caller, identity_of(caller)->0));
        assert(is_own(voice, identity_of(caller)->0));
    }
}

/// An emoji is plain: something that does not begin with an angle bracket.
pub open spec fn is_plain(text: Seq<char>) -> bool {
    text.len() > 0 && text[0] != '<'
}

/// Somebody reacts to the message they named, in their own voice, with the emoji they gave: a
/// plain one is taken as it stands, white space around it aside, and nothing is no emoji.
pub proof fn lemma_everybody_reacts_for_themselves(
    server: KurouServer,
    caller: Caller,
    req: ReactionRequest,
    r: Result<ReactionPlan, String>,
)
    requires
        call_ensures(KurouServer::reaction, (&server, &caller, &req), r),
    ensures
        r is Ok ==> has_a_voice(server, caller) && named_id(req.channel_id@) is Some && named_id(
            req.message_id@,
        ) is Some,
        r matches Ok(plan) ==> {
            &&& Some(plan.channel) == named_id(req.channel_id@)
            &&& Some(plan.message) == named_id(req.message_id@)
            &&& exists|label: Seq<char>| goes_by(caller, label) && #[trigger] is_own(plan.voice, label)
            &&& exists|text: Seq<char>| #[trigger]
                is_trim_of(text, req.emoji@) && text.len() > 0 && (is_plain(text) ==> (plan.reaction
                    matches ReactionType::Unicode(value) && value@ == text))
        },
{
    lemma_dot_names();
    lemma_who_may_act(server, caller, seq![]);
    if let Ok(plan) = r {
        assert(goes_by(caller, identity_of(caller)->0));
        assert(is_own(plan.voice, identity_of(caller)->0));
        let text = trimmed(req.emoji@);
        lemma_trimmed(req.emoji@);
        assert(is_trim_of(text, req.emoji@));
    }
}

/// A plain emoji can always be held, and is held as it stands; nothing can never be.
pub proof fn lemma_plain_emoji_are_held(raw: &str, text: Seq<char>, r: Result<ReactionType, String>)
    requires
        call_ensures(parse_emoji, (raw,), r),
        is_trim_of(text, raw@),
    ensures
        is_plain(text) ==> (r matches Ok(ReactionType::Unicode(value)) && value@ == text),
        text.len() == 0 ==> r is Err,
{
    lemma_trimmed(raw@);
    lemma_one_trim(raw@, text);
}

/// What was read is held, and what was not is named in the refusal.
pub proof fn lemma_an_emoji_is_held(raw: &str, read: Option<ReactionType>, r: Result<ReactionType, String>)
    requires
        call_ensures(hold_emoji, (raw, read), r),
    ensures
        r is Ok <==> read is Some,
        r matches Ok(emoji) ==> read == Some(emoji),
        r matches Err(e) ==> stands_somewhere(e@, raw@),
{
    if let Err(e) = r {
        let at = "'"@.len() as int;
        assert(e@.subrange(at, at + raw@.len()) =~= raw@);
        assert(stands_at(e@, raw@, at));
    }
}

/// A custom emoji that is written reads back as itself.
pub proof fn lemma_a_custom_emoji_reads_back(
    emoji: ReactionType,
    label: String,
    text: &str,
    r: Result<ReactionType, String>,
)
    requires
        emoji matches ReactionType::Custom { id, name: Some(name), .. } && id != 0 && !name@.contains(':'),
        call_ensures(emoji_label, (&emoji,), label),
        text@ == label@,
        call_ensures(parse_emoji, (text,), r),
    ensures
        r matches Ok(read) && read@ == emoji@,
{
    if let ReactionType::Custom { animated, id, name: Some(name) } = emoji {
        let s = custom_text(animated, name@, id);
        reveal_strlit("<a:");
        reveal_strlit("<:");
        reveal_strlit(">");
        assert(s[0] == '<');
        assert(s.last() == '>');
        assert(is_trim_of(s, s)) by {
            let none = Seq::<char>::empty();
            assert(s =~= none + s + none);
            assert(is_between(s, none, s, none));
            assert(is_all_space(none));
        }
        lemma_one_trim(s, s);
        assert(read_as_written(s, emoji_of(s)));
        assert(s == custom_text(animated, name@, id));
    }
}

/// An emoji that stands for itself is written as it is.
pub proof fn lemma_a_plain_emoji_is_written_as_it_is(emoji: ReactionType, label: String)
    requires
        call_ensures(emoji_label, (&emoji,), label),
    ensures
        emoji matches ReactionType::Unicode(value) ==> label@ == value@,
{
}

} // verus!
