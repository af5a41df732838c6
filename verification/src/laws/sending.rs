//! Who speaks where, with whose mouth, and what travels along.

use vstd::prelude::*;

use crate::assoc::fresh_part;
use crate::laws::hands::{goes_by, has_bot, lemma_who_may_act};
use crate::laws::order::stands_at;
use crate::laws::scan::{all_are_ids, entries, named_id, stands_somewhere};
use crate::server::tools::common::{
    caller_identity, limit_of, parse_snowflake, Caller,
};
use crate::server::tools::send::{
    attachments, claimed, fetched, inlined, parse_sticker_ids, sticker_list, url_allowed, url_parts,
    validate_content, validate_parts, waiting_after, InlineAttachment, Recipient, SendMessageRequest,
    SendPlan, SourceView,
};
use crate::server::{KurouServer, Probe, Voice};
use crate::text::{is_blank, texts, trimmed};
use crate::uploads::{base64_standard, Stored};

verus! {

/// Every sticker that is named travels, in order, up to three; or none does, where there are
/// more or one is not named by its number.
pub proof fn lemma_every_sticker_travels(ids: Option<Vec<String>>, r: Result<Vec<u64>, String>)
    requires
        call_ensures(parse_sticker_ids, (&ids,), r),
    ensures
        r is Ok <==> entries(ids).len() <= 3 && all_are_ids(entries(ids)),
        r matches Ok(v) ==> are_all(v@, entries(ids)),
{
    lemma_sticker_list(entries(ids));
}

/// Numbers are those that the entries of a list stand for, one for one.
pub open spec fn are_all(v: Seq<u64>, raw: Seq<String>) -> bool {
    v.len() == raw.len() && forall|i: int| 0 <= i < v.len() ==> named_id(raw[i]@) == Some(#[trigger] v[i])
}

proof fn lemma_sticker_list(raw: Seq<String>)
    ensures
        sticker_list(raw) is Ok <==> all_are_ids(raw),
        sticker_list(raw) matches Ok(v) ==> are_all(v, raw),
    decreases raw.len(),
{
    if raw.len() > 0 {
        let front = raw.drop_last();
        lemma_sticker_list(front);
        assert(raw[raw.len() - 1] == raw.last());
        assert(all_are_ids(raw) <==> all_are_ids(front) && named_id(raw.last()@) is Some) by {
            if all_are_ids(raw) {
                assert forall|i: int| 0 <= i < front.len() implies named_id(
                    #[trigger] front[i]@,
                ) is Some by {
                    assert(raw[i] == front[i]);
                }
            }
            if all_are_ids(front) && named_id(raw.last()@) is Some {
                assert forall|i: int| 0 <= i < raw.len() implies named_id(#[trigger] raw[i]@) is Some by {
                    if i < front.len() {
                        assert(raw[i] == front[i]);
                    }
                }
            }
        }
        if let Ok(v) = sticker_list(raw) {
            let before = sticker_list(front)->Ok_0;
            assert forall|i: int| 0 <= i < v.len() implies named_id(raw[i]@) == Some(#[trigger] v[i]) by {
                if i < front.len() {
                    assert(before[i] == v[i]);
                    assert(front[i] == raw[i]);
                }
            }
        }
    }
}

/// Whoever goes by a label with a bot speaks, with that bot and no other, in the channel named,
/// in answer to the message named, and with every sticker named; nobody else speaks.
pub proof fn lemma_everybody_speaks_for_themselves(
    server: KurouServer,
    caller: Caller,
    req: SendMessageRequest,
    r: Result<SendPlan, String>,
)
    requires
        call_ensures(KurouServer::send_message, (&server, &caller, &req), r),
    ensures
        r is Ok <==> {
            &&& exists|label: Seq<char>| goes_by(caller, label) && has_bot(server, label)
            &&& named_id(req.channel_id@) is Some
            &&& entries(req.sticker_ids).len() <= 3
            &&& all_are_ids(entries(req.sticker_ids))
            &&& req.reply_to matches Some(raw) ==> named_id(raw@) is Some
        },
        r matches Ok(plan) ==> {
            &&& Some(plan.channel) == named_id(req.channel_id@)
            &&& are_all(plan.stickers@, entries(req.sticker_ids))
            &&& req.reply_to is None ==> plan.reply_to is None
            &&& req.reply_to matches Some(raw) ==> plan.reply_to == named_id(raw@) && plan.reply_to is Some
            &&& goes_by(caller, "koma"@) ==> plan.voice is Primary
            &&& !goes_by(caller, "koma"@) ==> (plan.voice matches Voice::Sender { label } && goes_by(
                caller,
                label@,
            ))
        },
{
    lemma_who_may_act(server, caller, seq![]);
    lemma_sticker_list(entries(req.sticker_ids));
}

/// Something is sent into a guild exactly where it may be written in, and in private exactly to
/// those whose private calls are taken; and anywhere, where there is no home guild.
pub proof fn lemma_where_it_may_be_said(
    server: KurouServer,
    channel: u64,
    probe: Probe,
    recipient: Recipient,
    r: Result<(), String>,
)
    requires
        call_ensures(KurouServer::guard_send_target, (&server, channel, probe, recipient), r),
    ensures
        server.default_guild is None ==> r is Ok,
        server.default_guild matches Some(home) ==> (r is Ok <==> {
            ||| probe == Probe::InGuild(home)
            ||| exists|i: int|
                0 <= i < server.secondary_guilds@.len() && probe == Probe::InGuild(
                    #[trigger] server.secondary_guilds@[i],
                )
            ||| probe == Probe::NoGuild && exists|i: int|
                0 <= i < server.wake_dm_from@.len() && recipient == Recipient::Account(
                    #[trigger] server.wake_dm_from@[i],
                )
        }),
{
}

/// A message is refused exactly where there is nothing in it, or more than two thousand
/// characters.
pub proof fn lemma_what_may_be_said(content: &str, files: usize, stickers: usize, r: Result<(), String>)
    requires
        call_ensures(validate_content, (content, files, stickers), r),
    ensures
        r is Err <==> content@.len() > 2000 || (files == 0 && stickers == 0 && is_blank(content@)),
{
}

/// A file is fetched exactly from an address that reads as one of the web's two schemes, and
/// from no other address than that.
pub proof fn lemma_only_the_web_is_fetched(raw: &str, parts: Result<(String, String), String>, r: Result<String, String>)
    requires
        call_ensures(validate_parts, (raw, parts), r),
    ensures
        r is Ok <==> (parts matches Ok((scheme, _)) && (scheme@ == seq!['h', 't', 't', 'p'] || scheme@ == seq![
            'h',
            't',
            't',
            'p',
            's',
        ])),
        r matches Ok(url) ==> (parts matches Ok((_, text)) && url@ == text@),
        parts is Err ==> stands_somewhere(r->Err_0@, raw@) && stands_somewhere(r->Err_0@, parts->Err_0@),
{
    reveal_strlit("http");
    reveal_strlit("https");
    assert("http"@ =~= seq!['h', 't', 't', 'p']);
    assert("https"@ =~= seq!['h', 't', 't', 'p', 's']);
    if let Err(reason) = parts {
        let e = r->Err_0@;
        let at = "attachment url '"@.len() as int;
        assert(e.subrange(at, at + raw@.len()) =~= raw@);
        assert(stands_at(e, raw@, at));
        let end = ("attachment url '"@ + raw@ + "' is invalid: "@).len() as int;
        assert(e.subrange(end, end + reason@.len()) =~= reason@);
        assert(stands_at(e, reason@, end));
    }
}

/// An address may be fetched, and this is its normal form.
pub open spec fn may_be_fetched(raw: Seq<char>, text: Seq<char>) -> bool {
    url_parts(trimmed(raw)) matches Ok((scheme, normal)) && normal == text && (scheme == "http"@ || scheme
        == "https"@)
}

/// An address may be fetched.
pub open spec fn is_on_the_web(raw: Seq<char>) -> bool {
    url_parts(trimmed(raw)) matches Ok((scheme, _)) && (scheme == "http"@ || scheme == "https"@)
}

proof fn lemma_fetched(urls: Seq<String>)
    ensures
        fetched(urls) is Ok <==> forall|i: int|
            0 <= i < urls.len() ==> is_on_the_web((#[trigger] urls[i])@),
        fetched(urls) matches Ok(v) ==> v.len() == urls.len() && forall|i: int|
            0 <= i < v.len() ==> (#[trigger] v[i] matches SourceView::Url(text) && may_be_fetched(
                urls[i]@,
                text,
            )),
    decreases urls.len(),
{
    if urls.len() > 0 {
        let front = urls.drop_last();
        lemma_fetched(front);
        let last = urls.last()@;
        assert(urls[urls.len() - 1]@ == last);
        assert(forall|i: int| 0 <= i < front.len() ==> #[trigger] front[i] == urls[i]);
        let allowed = url_allowed(last, url_parts(trimmed(last)));
        assert(allowed is Ok <==> is_on_the_web(last));
        assert((forall|i: int|
            0 <= i < urls.len() ==> is_on_the_web((#[trigger] urls[i])@)) <==> (
        forall|i: int|
            0 <= i < front.len() ==> is_on_the_web((#[trigger] front[i])@))
            && allowed is Ok) by {
            if forall|i: int|
                0 <= i < urls.len() ==> is_on_the_web((#[trigger] urls[i])@) {
                assert forall|i: int| 0 <= i < front.len() implies is_on_the_web((#[trigger] front[i])@) by {
                    assert(front[i] == urls[i]);
                }
            }
            if (forall|i: int|
                0 <= i < front.len() ==> is_on_the_web((#[trigger] front[i])@))
                && allowed is Ok {
                assert forall|i: int| 0 <= i < urls.len() implies is_on_the_web((#[trigger] urls[i])@) by {
                    if i < front.len() {
                        assert(front[i] == urls[i]);
                    }
                }
            }
        }
        if let Ok(v) = fetched(urls) {
            let before = fetched(front)->Ok_0;
            assert forall|i: int| 0 <= i < v.len() implies (#[trigger] v[i] matches SourceView::Url(text)
                && may_be_fetched(urls[i]@, text)) by {
                if i < front.len() {
                    assert(v[i] == before[i]);
                }
            }
        }
    }
}

/// A file in a request is the one its text decodes to.
pub open spec fn is_carried(item: InlineAttachment, v: SourceView) -> bool {
    v matches SourceView::Bytes(name, data) && name == item.filename@ && base64_standard(
        trimmed(item.data_base64@),
    ) == Ok::<Seq<u8>, Seq<char>>(data)
}

proof fn lemma_inlined(items: Seq<InlineAttachment>)
    ensures
        inlined(items) is Ok <==> forall|i: int|
            0 <= i < items.len() ==> base64_standard(trimmed((#[trigger] items[i]).data_base64@)) is Ok,
        inlined(items) matches Ok(v) ==> v.len() == items.len() && forall|i: int|
            0 <= i < v.len() ==> is_carried(items[i], #[trigger] v[i]),
    decreases items.len(),
{
    if items.len() > 0 {
        let front = items.drop_last();
        lemma_inlined(front);
        assert(items[items.len() - 1] == items.last());
        assert(forall|i: int| 0 <= i < front.len() ==> #[trigger] front[i] == items[i]);
        assert((forall|i: int|
            0 <= i < items.len() ==> base64_standard(trimmed((#[trigger] items[i]).data_base64@)) is Ok) <==> (
        forall|i: int|
            0 <= i < front.len() ==> base64_standard(trimmed((#[trigger] front[i]).data_base64@)) is Ok)
            && base64_standard(trimmed(items.last().data_base64@)) is Ok) by {
            if forall|i: int|
                0 <= i < items.len() ==> base64_standard(trimmed((#[trigger] items[i]).data_base64@)) is Ok {
                assert forall|i: int| 0 <= i < front.len() implies base64_standard(
                    trimmed((#[trigger] front[i]).data_base64@),
                ) is Ok by {
                    assert(front[i] == items[i]);
                }
            }
            if (forall|i: int|
                0 <= i < front.len() ==> base64_standard(trimmed((#[trigger] front[i]).data_base64@)) is Ok)
                && base64_standard(trimmed(items.last().data_base64@)) is Ok {
                assert forall|i: int| 0 <= i < items.len() implies base64_standard(
                    trimmed((#[trigger] items[i]).data_base64@),
                ) is Ok by {
                    if i < front.len() {
                        assert(front[i] == items[i]);
                    }
                }
            }
        }
        if let Ok(v) = inlined(items) {
            let before = inlined(front)->Ok_0;
            assert forall|i: int| 0 <= i < v.len() implies is_carried(items[i], #[trigger] v[i]) by {
                if i < front.len() {
                    assert(v[i] == before[i]);
                }
            }
        }
    }
}

/// A reference claims a file: the one that waits under it, while it waits.
pub open spec fn is_claimed(waiting: Map<Seq<char>, Stored>, reference: Seq<char>, now: u64, v: SourceView) -> bool {
    &&& waiting.contains_key(reference)
    &&& now < waiting[reference].expires_at
    &&& v matches SourceView::Bytes(name, data) && name == waiting[reference].filename@ && data
        == waiting[reference].data@
}

proof fn lemma_claimed(waiting: Map<Seq<char>, Stored>, refs: Seq<String>, now: u64)
    ensures
        claimed(waiting, refs, now) matches Ok(v) ==> {
            &&& v.len() == refs.len()
            &&& forall|i: int| 0 <= i < v.len() ==> is_claimed(waiting, refs[i]@, now, #[trigger] v[i])
            &&& forall|i: int, j: int| 0 <= i < j < refs.len() ==> (#[trigger] refs[i])@ != (#[trigger] refs[j])@
            &&& forall|key: Seq<char>| #[trigger]
                waiting_after(waiting, refs, now).contains_key(key) <==> waiting.contains_key(key) && (
                refs.len() == 0 || now < waiting[key].expires_at) && (forall|i: int|
                    0 <= i < refs.len() ==> (#[trigger] refs[i])@ != key)
            &&& forall|key: Seq<char>| #[trigger]
                waiting_after(waiting, refs, now).contains_key(key) ==> waiting_after(waiting, refs, now)[key]
                    == waiting[key]
        },
        (forall|i: int|
            0 <= i < refs.len() ==> waiting.contains_key((#[trigger] refs[i])@) && now
                < waiting[refs[i]@].expires_at) && (forall|i: int, j: int|
            0 <= i < j < refs.len() ==> (#[trigger] refs[i])@ != (#[trigger] refs[j])@) ==> claimed(
            waiting,
            refs,
            now,
        ) is Ok,
    decreases refs.len(),
{
    if refs.len() > 0 {
        let front = refs.drop_last();
        let n = refs.len() - 1;
        lemma_claimed(waiting, front, now);
        assert(refs[n] == refs.last());
        assert(forall|i: int| 0 <= i < front.len() ==> #[trigger] front[i] == refs[i]);
        let before = waiting_after(waiting, front, now);
        let id = refs.last()@;
        if (forall|i: int|
            0 <= i < refs.len() ==> waiting.contains_key((#[trigger] refs[i])@) && now
                < waiting[refs[i]@].expires_at) && (forall|i: int, j: int|
            0 <= i < j < refs.len() ==> (#[trigger] refs[i])@ != (#[trigger] refs[j])@) {
            assert forall|i: int| 0 <= i < front.len() implies waiting.contains_key((#[trigger] front[i])@)
                && now < waiting[front[i]@].expires_at by {
                assert(front[i] == refs[i]);
            }
            assert(claimed(waiting, front, now) is Ok);
            assert forall|i: int| 0 <= i < front.len() implies (#[trigger] front[i])@ != id by {
                assert(refs[i]@ != refs[n]@);
            }
            assert(before.contains_key(id));
        }
        if let Ok(v) = claimed(waiting, refs, now) {
            let earlier = claimed(waiting, front, now)->Ok_0;
            assert(before.contains_key(id));
            assert forall|i: int| 0 <= i < v.len() implies is_claimed(
                waiting,
                refs[i]@,
                now,
                #[trigger] v[i],
            ) by {
                if i < front.len() {
                    assert(v[i] == earlier[i]);
                }
            }
            assert forall|i: int, j: int| 0 <= i < j < refs.len() implies (#[trigger] refs[i])@ != (
            #[trigger] refs[j])@ by {
                assert(front[i] == refs[i]);
                if j < front.len() {
                    assert(front[j] == refs[j]);
                } else {
                    assert(before.contains_key(refs[j]@));
                }
            }
            let after = waiting_after(waiting, refs, now);
            assert forall|key: Seq<char>| #[trigger] after.contains_key(key) <==> waiting.contains_key(key)
                && (refs.len() == 0 || now < waiting[key].expires_at) && (forall|i: int|
                0 <= i < refs.len() ==> (#[trigger] refs[i])@ != key) by {
                assert(before.contains_key(key) <==> waiting.contains_key(key) && (front.len() == 0 || now
                    < waiting[key].expires_at) && (forall|i: int|
                    0 <= i < front.len() ==> (#[trigger] front[i])@ != key));
                if forall|i: int| 0 <= i < refs.len() ==> (#[trigger] refs[i])@ != key {
                    assert forall|i: int| 0 <= i < front.len() implies (#[trigger] front[i])@ != key by {
                        assert(front[i] == refs[i]);
                    }
                    assert(refs[n]@ != key);
                }
                if after.contains_key(key) {
                    assert forall|i: int| 0 <= i < refs.len() implies (#[trigger] refs[i])@ != key by {
                        if i < front.len() {
                            assert(front[i] == refs[i]);
                        }
                    }
                }
            }
        }
    }
}

/// Everything that is to travel with a message does, in order: the files to fetch, then those
/// that wait, then those in the request, ten at most. It does exactly where every address may
/// be fetched, every reference still waits and none is named twice, and every file in the
/// request decodes. Whatever was claimed waits no longer, and all else that still may wait
/// does.
pub proof fn lemma_every_file_travels(
    urls: Seq<String>,
    waiting: Map<Seq<char>, Stored>,
    refs: Seq<String>,
    now: u64,
    items: Seq<InlineAttachment>,
)
    ensures
        attachments(urls, waiting, refs, now, items) is Ok <==> {
            &&& urls.len() + refs.len() + items.len() <= 10
            &&& forall|i: int|
                0 <= i < urls.len() ==> is_on_the_web((#[trigger] urls[i])@)
            &&& forall|i: int|
                0 <= i < refs.len() ==> waiting.contains_key((#[trigger] refs[i])@) && now
                    < waiting[refs[i]@].expires_at
            &&& forall|i: int, j: int| 0 <= i < j < refs.len() ==> (#[trigger] refs[i])@ != (#[trigger] refs[j])@
            &&& forall|i: int|
                0 <= i < items.len() ==> base64_standard(trimmed((#[trigger] items[i]).data_base64@)) is Ok
        },
        attachments(urls, waiting, refs, now, items) matches Ok(v) ==> {
            &&& v.len() == urls.len() + refs.len() + items.len()
            &&& forall|i: int|
                0 <= i < urls.len() ==> (v[i] matches SourceView::Url(text) && may_be_fetched(
                    (#[trigger] urls[i])@,
                    text,
                ))
            &&& forall|i: int|
                0 <= i < refs.len() ==> is_claimed(waiting, (#[trigger] refs[i])@, now, v[urls.len() + i])
            &&& forall|i: int|
                0 <= i < items.len() ==> is_carried(
                    #[trigger] items[i],
                    v[urls.len() + refs.len() + i],
                )
            &&& forall|key: Seq<char>| #[trigger]
                waiting_after(waiting, refs, now).contains_key(key) <==> waiting.contains_key(key) && (
                refs.len() == 0 || now < waiting[key].expires_at) && (forall|i: int|
                    0 <= i < refs.len() ==> (#[trigger] refs[i])@ != key)
        },
{
    lemma_fetched(urls);
    lemma_claimed(waiting, refs, now);
    lemma_inlined(items);
    if let Ok(b) = claimed(waiting, refs, now) {
        assert forall|i: int| 0 <= i < refs.len() implies waiting.contains_key((#[trigger] refs[i])@) && now
            < waiting[refs[i]@].expires_at by {
            assert(is_claimed(waiting, refs[i]@, now, b[i]));
        }
    }
    if let Ok(v) = attachments(urls, waiting, refs, now, items) {
        let a = fetched(urls)->Ok_0;
        let b = claimed(waiting, refs, now)->Ok_0;
        let c = inlined(items)->Ok_0;
        assert(v == a + b + c);
        assert forall|i: int| 0 <= i < urls.len() implies (v[i] matches SourceView::Url(text)
            && may_be_fetched((#[trigger] urls[i])@, text)) by {
            assert(v[i] == a[i]);
        }
        assert forall|i: int| 0 <= i < refs.len() implies is_claimed(
            waiting,
            (#[trigger] refs[i])@,
            now,
            v[urls.len() + i],
        ) by {
            assert(v[urls.len() + i] == b[i]);
        }
        assert forall|i: int| 0 <= i < items.len() implies is_carried(
            #[trigger] items[i],
            v[urls.len() + refs.len() + i],
        ) by {
            assert(v[urls.len() + refs.len() + i] == c[i]);
        }
    }
}

/// Whoever asks gets their own mouth: the house's label the primary bot, any other label the
/// bot of that label, where there is one, and a refusal otherwise.
pub proof fn lemma_a_mouth_is_ones_own(server: KurouServer, label: &str, r: Result<Voice, String>)
    requires
        call_ensures(KurouServer::sender_for, (&server, label), r),
    ensures
        r is Ok <==> has_bot(server, label@),
        label@ == "koma"@ ==> r == Ok::<Voice, String>(Voice::Primary),
        label@ != "koma"@ && r is Ok ==> (r->Ok_0 matches Voice::Sender { label: own } && own@ == label@),
{
    assert(texts(server.senders@).contains(label@) <==> exists|i: int|
        0 <= i < server.senders@.len() && #[trigger] server.senders@[i]@ == label@) by {
        if texts(server.senders@).contains(label@) {
            let i = choose|i: int| 0 <= i < server.senders@.len() && texts(server.senders@)[i] == label@;
            assert(server.senders@[i]@ == label@);
        }
        if exists|i: int| 0 <= i < server.senders@.len() && #[trigger] server.senders@[i]@ == label@ {
            let i = choose|i: int| 0 <= i < server.senders@.len() && #[trigger] server.senders@[i]@ == label@;
            assert(texts(server.senders@)[i] == label@);
        }
    }
}

/// A guild may be written in: the home guild or a secondary one.
pub open spec fn is_open(server: KurouServer, guild: u64) -> bool {
    server.default_guild == Some(guild) || exists|i: int|
        0 <= i < server.secondary_guilds@.len() && #[trigger] server.secondary_guilds@[i] == guild
}

/// Where there is an observer, it reads whatever may not be written in and whatever could not
/// be found; all the rest, and everything where there is none, the primary bot reads.
pub proof fn lemma_who_reads(
    server: KurouServer,
    guild: u64,
    probe: Probe,
    writes: bool,
    of_guild: Voice,
    of_channel: Voice,
)
    requires
        call_ensures(KurouServer::is_writable, (&server, guild), writes),
        call_ensures(KurouServer::client_for_guild, (&server, guild), of_guild),
        call_ensures(KurouServer::client_for_channel, (&server, probe), of_channel),
    ensures
        writes <==> is_open(server, guild),
        of_guild is Observer <==> server.observer is Some && !is_open(server, guild),
        of_guild is Primary <==> !(of_guild is Observer),
        of_channel is Observer <==> server.observer is Some && (probe == Probe::Failed || (
        probe matches Probe::InGuild(found) && !is_open(server, found))),
        of_channel is Primary <==> !(of_channel is Observer),
{
}

/// A request is about the guild it names, or about the home guild. Where other guilds are known
/// besides the home guild, it is about one that is known.
pub proof fn lemma_which_guild_is_meant(server: KurouServer, arg: Option<String>, r: Result<u64, String>)
    requires
        call_ensures(KurouServer::guild_asked, (&server, arg), r),
    ensures
        r matches Ok(guild) ==> Some(guild) == if arg is Some {
            named_id(arg->0@)
        } else {
            server.default_guild
        },
        r is Ok <==> {
            let meant = if arg is Some {
                named_id(arg->0@)
            } else {
                server.default_guild
            };
            &&& meant is Some
            &&& {
                ||| is_open(server, meant->0)
                ||| server.observer is Some && exists|i: int|
                    0 <= i < server.observer->0.guilds@.len() && #[trigger] server.observer->0.guilds@[i]
                        == meant->0
                ||| server.secondary_guilds@.len() == 0 && (server.observer is None
                    || server.observer->0.guilds@.len() == 0)
            }
        },
{
    let others = server.secondary_guilds@ + server.watched();
    assert forall|id: u64| #[trigger] others.contains(id) <==> server.secondary_guilds@.contains(id)
        || server.watched().contains(id) by {
        if server.secondary_guilds@.contains(id) {
            let k = choose|k: int|
                0 <= k < server.secondary_guilds@.len() && server.secondary_guilds@[k] == id;
            assert(others[k] == id);
        }
        if server.watched().contains(id) {
            let k = choose|k: int| 0 <= k < server.watched().len() && server.watched()[k] == id;
            assert(others[server.secondary_guilds@.len() + k] == id);
        }
        if others.contains(id) {
            let k = choose|k: int| 0 <= k < others.len() && others[k] == id;
            if k < server.secondary_guilds@.len() {
                assert(server.secondary_guilds@[k] == id);
            } else {
                assert(server.watched()[k - server.secondary_guilds@.len()] == id);
            }
        }
    }
}

/// An id is read as the number it stands for, white space aside, or named in the refusal.
pub proof fn lemma_an_id_is_read(raw: &str, r: Result<u64, String>)
    requires
        call_ensures(parse_snowflake, (raw,), r),
    ensures
        r is Ok <==> named_id(raw@) is Some,
        r matches Ok(id) ==> Some(id) == named_id(raw@),
        r matches Err(e) ==> stands_somewhere(e@, raw@),
{
    if let Err(e) = r {
        let at = "'"@.len() as int;
        assert(e@.subrange(at, at + raw@.len()) =~= raw@);
        assert(stands_at(e@, raw@, at));
    }
}

/// As many are returned as were asked for, between one and the most there may be.
pub proof fn lemma_limits_hold(asked: Option<u8>, otherwise: u8, most: u8, r: u8)
    requires
        call_ensures(limit_of, (asked, otherwise, most), r),
        1 <= otherwise <= most,
    ensures
        1 <= r <= most,
        asked is None ==> r == otherwise,
        asked matches Some(n) ==> (1 <= n <= most ==> r == n) && (n > most ==> r == most) && (n == 0 ==> r
            == 1),
{
}

/// Whoever calls is known by their label, and who has none is refused.
pub proof fn lemma_a_caller_has_a_label(caller: Caller, r: Result<String, String>)
    requires
        call_ensures(caller_identity, (&caller,), r),
    ensures
        r is Ok <==> exists|label: Seq<char>| goes_by(caller, label),
        r matches Ok(label) ==> goes_by(caller, label@),
{
    if let Ok(label) = r {
        assert(goes_by(caller, label@));
    }
}

} // verus!
