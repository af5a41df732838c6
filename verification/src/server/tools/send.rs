//! Speaking: where a message may land, what may travel with it, and how much of it.

use vstd::prelude::*;

use crate::assoc::fresh_part;
use crate::config::Config;
use crate::discord::client::AttachmentSource;
use crate::gateway::holds_id;
use crate::numeral::parse_u64;
use crate::server::boot::{hats, snowflake};
use crate::server::tools::common::{
    caller_identity, identity_of, invalid, invalid_text, parse_channel, parse_message, Caller, NOBODY,
};
use crate::server::tools::hands::is_voice_of;
use crate::server::{
    lemma_watched_guilds_are_never_written, voiceless_text, wears, KurouServer, Probe, Voice,
};
use crate::text::{blank, decimal, is_blank, length, number, same, trim, trimmed};
use crate::uploads::{base64_standard, decode_standard, Stored, UploadStore};

verus! {

/// Discord's own limit for the files of one message.
pub const MAX_ATTACHMENTS: usize = 10;

/// Discord's own limit for the stickers of one message.
pub const MAX_STICKERS: usize = 3;

/// Discord's own limit for a message's text, in characters.
pub const MAX_CONTENT: usize = 2000;

pub struct SendMessageRequest {
    pub channel_id: String,
    pub content: String,
    pub sticker_ids: Option<Vec<String>>,
    pub reply_to: Option<String>,
    pub attachment_urls: Option<Vec<String>>,
    pub attachment_refs: Option<Vec<String>>,
    pub attachments_inline: Option<Vec<InlineAttachment>>,
}

/// A file in the request itself, in base64.
pub struct InlineAttachment {
    pub filename: String,
    pub data_base64: String,
}

/// Whose private channel a channel is, as far as was found out.
#[derive(Clone, Copy, Debug, PartialEq, Eq, Structural)]
pub enum Recipient {
    Account(u64),
    Unknown,
}

pub open spec fn stranger_text(channel: u64) -> Seq<char> {
    "refusing to send: channel "@ + decimal(channel as nat)
        + " is a DM outside WAKE_DM_FROM; the private wire only speaks to named recipients"@
}

pub open spec fn unwritable_text(channel: u64) -> Seq<char> {
    "refusing to send: channel "@ + decimal(channel as nat)
        + " is not in a writable guild (PRIMARY_GUILD + SECONDARY_GUILDS); readonly guilds have no voice"@
}

impl KurouServer {
    /// A message may land here: in a writable guild, or in the private channel of somebody
    /// whose private calls are taken; anywhere, where there is no home guild.
    pub open spec fn may_send(self, probe: Probe, recipient: Recipient) -> bool {
        ||| self.default_guild is None
        ||| (probe matches Probe::InGuild(guild) && self.writable(guild))
        ||| (probe == Probe::NoGuild && (recipient matches Recipient::Account(id)
            && self.wake_dm_from@.contains(id)))
    }

    /// Whether a channel has to be looked for before anything is sent to it.
    pub fn must_guard(&self) -> (r: bool)
        ensures
            r == (self.default_guild is Some),
    {
        self.default_guild.is_some()
    }

    /// Guards where a message lands. What cannot be looked up is refused.
    pub fn guard_send_target(&self, channel: u64, probe: Probe, recipient: Recipient) -> (r: Result<
        (),
        String,
    >)
        ensures
            if self.may_send(probe, recipient) {
                r == Ok::<(), String>(())
            } else if probe == Probe::NoGuild {
                r matches Err(e) && e@ == stranger_text(channel)
            } else {
                r matches Err(e) && e@ == unwritable_text(channel)
            },
    {
        if self.default_guild.is_none() {
            return Ok(());
        }
        match probe {
            Probe::InGuild(guild) if self.is_writable(guild) => Ok(()),
            Probe::NoGuild => {
                let known = match recipient {
                    Recipient::Account(id) => holds_id(&self.wake_dm_from, id),
                    Recipient::Unknown => false,
                };
                if known {
                    return Ok(());
                }
                let mut s = "refusing to send: channel ".to_owned();
                s.append(number(channel).as_str());
                s.append(
                    " is a DM outside WAKE_DM_FROM; the private wire only speaks to named recipients",
                );
                Err(s)
            },
            _ => {
                let mut s = "refusing to send: channel ".to_owned();
                s.append(number(channel).as_str());
                s.append(
                    " is not in a writable guild (PRIMARY_GUILD + SECONDARY_GUILDS); readonly guilds have no voice",
                );
                Err(s)
            },
        }
    }
}

/// The stickers of a list; or the first entry that is none.
pub open spec fn sticker_list(raw: Seq<String>) -> Result<Seq<u64>, Seq<char>>
    decreases raw.len(),
{
    if raw.len() == 0 {
        Ok(seq![])
    } else {
        match sticker_list(raw.drop_last()) {
            Err(bad) => Err(bad),
            Ok(ids) => match snowflake(raw.last()@) {
                Some(id) => Ok(ids.push(id)),
                None => Err(raw.last()@),
            },
        }
    }
}

proof fn lemma_first_bad_sticker_stays(raw: Seq<String>, n: int)
    requires
        0 <= n <= raw.len(),
        sticker_list(raw.take(n)) is Err,
    ensures
        sticker_list(raw) == sticker_list(raw.take(n)),
    decreases raw.len() - n,
{
    if n < raw.len() {
        assert(raw.take(n + 1).drop_last() =~= raw.take(n));
        lemma_first_bad_sticker_stays(raw, n + 1);
    } else {
        assert(raw.take(n) =~= raw);
    }
}

pub open spec fn listed(v: Option<Vec<String>>) -> Seq<String> {
    match v {
        Some(v) => v@,
        None => seq![],
    }
}

/// The stickers a request names, or why they cannot travel: three at most, each by its id.
pub open spec fn stickers_of(raw: Seq<String>) -> Result<Seq<u64>, Seq<char>> {
    if raw.len() > MAX_STICKERS {
        Err(
            decimal(raw.len()) + " stickers requested; Discord allows "@ + decimal(
                MAX_STICKERS as nat,
            ) + " per message"@,
        )
    } else {
        match sticker_list(raw) {
            Ok(ids) => Ok(ids),
            Err(bad) => Err(invalid_text(bad, "sticker snowflake id"@)),
        }
    }
}

/// No sticker that is looked at is the number zero, which is no id. Nothing behind the first
/// bad one is looked at, and nothing at all where there are too many.
pub open spec fn stickers_are_ids(raw: Seq<String>) -> bool {
    raw.len() <= MAX_STICKERS ==> forall|i: int|
        0 <= i < raw.len() && sticker_list(raw.take(i)) is Ok ==> snowflake((#[trigger] raw[i])@)
            != Some(0u64)
}

/// Reads the stickers a request names.
pub fn parse_sticker_ids(ids: &Option<Vec<String>>) -> (r: Result<Vec<u64>, String>)
    requires
        stickers_are_ids(listed(*ids)),
    ensures
        match stickers_of(listed(*ids)) {
            Ok(set) => r matches Ok(v) && v@ == set,
            Err(text) => r matches Err(e) && e@ == text,
        },
{
    let mut r: Vec<u64> = Vec::new();
    if let Some(raw) = ids {
        if raw.len() > MAX_STICKERS {
            let mut s = number(raw.len() as u64);
            s.append(" stickers requested; Discord allows ");
            s.append(number(MAX_STICKERS as u64).as_str());
            s.append(" per message");
            return Err(s);
        }
        let mut i: usize = 0;
        assert(raw@.take(0) =~= seq![]);
        while i < raw.len()
            invariant
                i <= raw@.len(),
                raw@.len() <= MAX_STICKERS,
                listed(*ids) == raw@,
                sticker_list(raw@.take(i as int)) == Ok::<Seq<u64>, Seq<char>>(r@),
            decreases raw@.len() - i,
        {
            proof {
                let t = raw@.take(i + 1);
                assert(t.drop_last() =~= raw@.take(i as int));
                assert(t.last() == raw@[i as int]);
            }
            match parse_u64(trim(raw[i].as_str()).as_str()) {
                Some(id) => {
                    r.push(id);
                },
                None => {
                    proof {
                        lemma_first_bad_sticker_stays(raw@, i + 1);
                    }
                    return Err(invalid(raw[i].as_str(), "sticker snowflake id"));
                },
            }
            i = i + 1;
        }
        assert(raw@.take(i as int) =~= raw@);
    }
    Ok(r)
}

pub const NOTHING_TO_SEND: &'static str =
    "a message needs content, at least one attachment, or at least one sticker";

/// What is wrong with a message's contents, if anything is: it must hold something, and its
/// text is bounded.
pub open spec fn content_fault(content: Seq<char>, attachments: nat, stickers: nat) -> Option<Seq<char>> {
    if is_blank(content) && attachments == 0 && stickers == 0 {
        Some(NOTHING_TO_SEND@)
    } else if content.len() > MAX_CONTENT {
        Some(
            "message content is "@ + decimal(content.len())
                + " characters; Discord's limit is 2000"@,
        )
    } else {
        None
    }
}

/// Checks a message's contents.
pub fn validate_content(content: &str, attachment_count: usize, sticker_count: usize) -> (r: Result<
    (),
    String,
>)
    ensures
        match content_fault(content@, attachment_count as nat, sticker_count as nat) {
            Some(text) => r matches Err(e) && e@ == text,
            None => r == Ok::<(), String>(()),
        },
{
    if blank(content) && attachment_count == 0 && sticker_count == 0 {
        return Err(NOTHING_TO_SEND.to_owned());
    }
    let count: usize = length(content);
    if count > MAX_CONTENT {
        let mut s = "message content is ".to_owned();
        s.append(number(count as u64).as_str());
        s.append(" characters; Discord's limit is 2000");
        return Err(s);
    }
    Ok(())
}

/// An address's scheme and its normal form; or why it is no address.
pub uninterp spec fn url_parts(text: Seq<char>) -> Result<(Seq<char>, Seq<char>), Seq<char>>;

pub open spec fn parts_or_reason(v: Result<(String, String), String>) -> Result<
    (Seq<char>, Seq<char>),
    Seq<char>,
> {
    match v {
        Ok((scheme, text)) => Ok((scheme@, text@)),
        Err(e) => Err(e@),
    }
}

/// Calls `Url::parse` and takes the address's `scheme` and its `to_string`; the reason is the
/// error in words.
#[verifier::external_body]
fn read_url(text: &str) -> (r: Result<(String, String), String>)
    ensures
        parts_or_reason(r) == url_parts(text@),
{
    url::Url::parse(text)
        .map(|parsed| (parsed.scheme().to_string(), parsed.to_string()))
        .map_err(|error| error.to_string())
}

/// The address of a file to fetch, by its parts: only the web's two schemes are let through.
pub open spec fn url_allowed(raw: Seq<char>, parts: Result<(Seq<char>, Seq<char>), Seq<char>>) -> Result<
    Seq<char>,
    Seq<char>,
> {
    match parts {
        Err(reason) => Err("attachment url '"@ + raw + "' is invalid: "@ + reason),
        Ok((scheme, text)) => if scheme == "http"@ || scheme == "https"@ {
            Ok(text)
        } else {
            Err(
                "attachment url scheme '"@ + scheme + "' is not allowed; use http or https"@,
            )
        },
    }
}

/// Checks the address of a file to fetch, given its parts.
pub fn validate_parts(raw: &str, parts: Result<(String, String), String>) -> (r: Result<String, String>)
    ensures
        match url_allowed(raw@, parts_or_reason(parts)) {
            Ok(text) => r matches Ok(s) && s@ == text,
            Err(text) => r matches Err(e) && e@ == text,
        },
{
    match parts {
        Err(reason) => {
            let mut s = "attachment url '".to_owned();
            s.append(raw);
            s.append("' is invalid: ");
            s.append(reason.as_str());
            Err(s)
        },
        Ok((scheme, text)) => {
            if same(scheme.as_str(), "http") || same(scheme.as_str(), "https") {
                Ok(text)
            } else {
                let mut s = "attachment url scheme '".to_owned();
                s.append(scheme.as_str());
                s.append("' is not allowed; use http or https");
                Err(s)
            }
        },
    }
}

/// Checks the address of a file to fetch.
pub fn validate_url(raw: &str) -> (r: Result<String, String>)
    ensures
        match url_allowed(raw@, url_parts(trimmed(raw@))) {
            Ok(text) => r matches Ok(s) && s@ == text,
            Err(text) => r matches Err(e) && e@ == text,
        },
{
    validate_parts(raw, read_url(trim(raw).as_str()))
}

/// A file to send along, as a mathematical value.
pub enum SourceView {
    Url(Seq<char>),
    Bytes(Seq<char>, Seq<u8>),
}

impl View for AttachmentSource {
    type V = SourceView;

    open spec fn view(&self) -> SourceView {
        match self {
            AttachmentSource::Url(url) => SourceView::Url(url@),
            AttachmentSource::Bytes { filename, data } => SourceView::Bytes(filename@, data@),
        }
    }
}

pub open spec fn source_views(v: Seq<AttachmentSource>) -> Seq<SourceView> {
    v.map_values(|s: AttachmentSource| s@)
}

/// The files to fetch; or why one of them cannot be.
pub open spec fn fetched(urls: Seq<String>) -> Result<Seq<SourceView>, Seq<char>>
    decreases urls.len(),
{
    if urls.len() == 0 {
        Ok(seq![])
    } else {
        match fetched(urls.drop_last()) {
            Err(e) => Err(e),
            Ok(v) => match url_allowed(urls.last()@, url_parts(trimmed(urls.last()@))) {
                Err(e) => Err(e),
                Ok(text) => Ok(v.push(SourceView::Url(text))),
            },
        }
    }
}

pub open spec fn gone_text(reference: Seq<char>) -> Seq<char> {
    "upload ref '"@ + reference + "' is unknown or expired; re-run kurou-upload"@
}

/// The files that wait, once the references were claimed in order, as far as that went.
pub open spec fn waiting_after(waiting: Map<Seq<char>, Stored>, refs: Seq<String>, now: u64) -> Map<
    Seq<char>,
    Stored,
>
    decreases refs.len(),
{
    if refs.len() == 0 {
        waiting
    } else {
        let before = waiting_after(waiting, refs.drop_last(), now);
        if claimed(waiting, refs.drop_last(), now) is Err {
            before
        } else {
            fresh_part(before, now).remove(refs.last()@)
        }
    }
}

/// The files that the references claim; or the first reference that claims none.
pub open spec fn claimed(waiting: Map<Seq<char>, Stored>, refs: Seq<String>, now: u64) -> Result<
    Seq<SourceView>,
    Seq<char>,
>
    decreases refs.len(),
{
    if refs.len() == 0 {
        Ok(seq![])
    } else {
        match claimed(waiting, refs.drop_last(), now) {
            Err(e) => Err(e),
            Ok(v) => {
                let before = waiting_after(waiting, refs.drop_last(), now);
                let id = refs.last()@;
                if fresh_part(before, now).contains_key(id) {
                    Ok(v.push(SourceView::Bytes(before[id].filename@, before[id].data@)))
                } else {
                    Err(gone_text(id))
                }
            },
        }
    }
}

pub open spec fn not_base64_text(filename: Seq<char>, reason: Seq<char>) -> Seq<char> {
    "attachment '"@ + filename + "' is not valid base64: "@ + reason
}

/// The files in the request itself; or why one of them is none.
pub open spec fn inlined(items: Seq<InlineAttachment>) -> Result<Seq<SourceView>, Seq<char>>
    decreases items.len(),
{
    if items.len() == 0 {
        Ok(seq![])
    } else {
        match inlined(items.drop_last()) {
            Err(e) => Err(e),
            Ok(v) => match base64_standard(trimmed(items.last().data_base64@)) {
                Err(reason) => Err(not_base64_text(items.last().filename@, reason)),
                Ok(data) => Ok(v.push(SourceView::Bytes(items.last().filename@, data))),
            },
        }
    }
}

pub open spec fn listed_inline(v: Option<Vec<InlineAttachment>>) -> Seq<InlineAttachment> {
    match v {
        Some(v) => v@,
        None => seq![],
    }
}

pub open spec fn too_many_text(count: nat) -> Seq<char> {
    decimal(count) + " attachments requested; Discord allows "@ + decimal(MAX_ATTACHMENTS as nat)
        + " per message"@
}

/// All the files of a message: those to fetch, then those that wait, then those in the
/// request; or the first thing that is wrong with them, their number last.
pub open spec fn attachments(
    urls: Seq<String>,
    waiting: Map<Seq<char>, Stored>,
    refs: Seq<String>,
    now: u64,
    items: Seq<InlineAttachment>,
) -> Result<Seq<SourceView>, Seq<char>> {
    match fetched(urls) {
        Err(e) => Err(e),
        Ok(a) => match claimed(waiting, refs, now) {
            Err(e) => Err(e),
            Ok(b) => match inlined(items) {
                Err(e) => Err(e),
                Ok(c) => if a.len() + b.len() + c.len() > MAX_ATTACHMENTS {
                    Err(too_many_text(a.len() + b.len() + c.len()))
                } else {
                    Ok(a + b + c)
                },
            },
        },
    }
}

fn push_source(v: &mut Vec<AttachmentSource>, s: AttachmentSource)
    ensures
        source_views(final(v)@) == source_views(old(v)@).push(s@),
{
    v.push(s);
    assert(source_views(v@) =~= source_views(old(v)@).push(s@));
}

proof fn lemma_first_bad_url_stays(urls: Seq<String>, n: int)
    requires
        0 <= n <= urls.len(),
        fetched(urls.take(n)) is Err,
    ensures
        fetched(urls) == fetched(urls.take(n)),
    decreases urls.len() - n,
{
    if n < urls.len() {
        assert(urls.take(n + 1).drop_last() =~= urls.take(n));
        lemma_first_bad_url_stays(urls, n + 1);
    } else {
        assert(urls.take(n) =~= urls);
    }
}

fn fetch_urls(urls: &Option<Vec<String>>) -> (r: Result<Vec<AttachmentSource>, String>)
    ensures
        match fetched(listed(*urls)) {
            Ok(v) => r matches Ok(s) && source_views(s@) == v,
            Err(text) => r matches Err(e) && e@ == text,
        },
{
    let mut r: Vec<AttachmentSource> = Vec::new();
    assert(source_views(r@) =~= seq![]);
    if let Some(list) = urls {
        let mut i: usize = 0;
        assert(list@.take(0) =~= seq![]);
        while i < list.len()
            invariant
                i <= list@.len(),
                listed(*urls) == list@,
                fetched(list@.take(i as int)) == Ok::<Seq<SourceView>, Seq<char>>(
                    source_views(r@),
                ),
            decreases list@.len() - i,
        {
            proof {
                let t = list@.take(i + 1);
                assert(t.drop_last() =~= list@.take(i as int));
                assert(t.last() == list@[i as int]);
            }
            match validate_url(list[i].as_str()) {
                Ok(url) => push_source(&mut r, AttachmentSource::Url(url)),
                Err(e) => {
                    proof {
                        lemma_first_bad_url_stays(list@, i + 1);
                    }
                    return Err(e);
                },
            }
            i = i + 1;
        }
        assert(list@.take(i as int) =~= list@);
    }
    Ok(r)
}

proof fn lemma_first_lost_ref_stays(
    waiting: Map<Seq<char>, Stored>,
    refs: Seq<String>,
    now: u64,
    n: int,
)
    requires
        0 <= n <= refs.len(),
        claimed(waiting, refs.take(n), now) is Err,
    ensures
        claimed(waiting, refs, now) == claimed(waiting, refs.take(n), now),
        waiting_after(waiting, refs, now) == waiting_after(waiting, refs.take(n), now),
    decreases refs.len() - n,
{
    if n < refs.len() {
        assert(refs.take(n + 1).drop_last() =~= refs.take(n));
        lemma_first_lost_ref_stays(waiting, refs, now, n + 1);
    } else {
        assert(refs.take(n) =~= refs);
    }
}

fn claim_refs(store: &mut UploadStore, refs: &Option<Vec<String>>, now: u64) -> (r: Result<
    Vec<AttachmentSource>,
    String,
>)
    requires
        old(store).wf(),
    ensures
        final(store).wf(),
        final(store).ttl == old(store).ttl,
        final(store).waiting() == waiting_after(old(store).waiting(), listed(*refs), now),
        match claimed(old(store).waiting(), listed(*refs), now) {
            Ok(v) => r matches Ok(s) && source_views(s@) == v,
            Err(text) => r matches Err(e) && e@ == text,
        },
{
    let ghost start = store.waiting();
    let mut r: Vec<AttachmentSource> = Vec::new();
    assert(source_views(r@) =~= seq![]);
    if let Some(list) = refs {
        let mut i: usize = 0;
        assert(list@.take(0) =~= seq![]);
        while i < list.len()
            invariant
                i <= list@.len(),
                listed(*refs) == list@,
                start == old(store).waiting(),
                store.wf(),
                store.ttl == old(store).ttl,
                store.waiting() == waiting_after(start, list@.take(i as int), now),
                claimed(start, list@.take(i as int), now) == Ok::<Seq<SourceView>, Seq<char>>(
                    source_views(r@),
                ),
            decreases list@.len() - i,
        {
            proof {
                let t = list@.take(i + 1);
                assert(t.drop_last() =~= list@.take(i as int));
                assert(t.last() == list@[i as int]);
            }
            let reference = list[i].as_str();
            match store.take(reference, now) {
                Some(upload) => push_source(
                    &mut r,
                    AttachmentSource::Bytes { filename: upload.filename, data: upload.data },
                ),
                None => {
                    proof {
                        lemma_first_lost_ref_stays(start, list@, now, i + 1);
                    }
                    let mut s = "upload ref '".to_owned();
                    s.append(reference);
                    s.append("' is unknown or expired; re-run kurou-upload");
                    return Err(s);
                },
            }
            i = i + 1;
        }
        assert(list@.take(i as int) =~= list@);
    }
    Ok(r)
}

proof fn lemma_first_bad_item_stays(items: Seq<InlineAttachment>, n: int)
    requires
        0 <= n <= items.len(),
        inlined(items.take(n)) is Err,
    ensures
        inlined(items) == inlined(items.take(n)),
    decreases items.len() - n,
{
    if n < items.len() {
        assert(items.take(n + 1).drop_last() =~= items.take(n));
        lemma_first_bad_item_stays(items, n + 1);
    } else {
        assert(items.take(n) =~= items);
    }
}

fn decode_inline(items: &Option<Vec<InlineAttachment>>) -> (r: Result<Vec<AttachmentSource>, String>)
    ensures
        match inlined(listed_inline(*items)) {
            Ok(v) => r matches Ok(s) && source_views(s@) == v,
            Err(text) => r matches Err(e) && e@ == text,
        },
{
    let mut r: Vec<AttachmentSource> = Vec::new();
    assert(source_views(r@) =~= seq![]);
    if let Some(list) = items {
        let mut i: usize = 0;
        assert(list@.take(0) =~= seq![]);
        while i < list.len()
            invariant
                i <= list@.len(),
                listed_inline(*items) == list@,
                inlined(list@.take(i as int)) == Ok::<Seq<SourceView>, Seq<char>>(
                    source_views(r@),
                ),
            decreases list@.len() - i,
        {
            proof {
                let t = list@.take(i + 1);
                assert(t.drop_last() =~= list@.take(i as int));
                assert(t.last() == list@[i as int]);
            }
            let item = &list[i];
            match decode_standard(trim(item.data_base64.as_str()).as_str()) {
                Ok(data) => push_source(
                    &mut r,
                    AttachmentSource::Bytes { filename: item.filename.clone(), data },
                ),
                Err(reason) => {
                    proof {
                        lemma_first_bad_item_stays(list@, i + 1);
                    }
                    let mut s = "attachment '".to_owned();
                    s.append(item.filename.as_str());
                    s.append("' is not valid base64: ");
                    s.append(reason.as_str());
                    return Err(s);
                },
            }
            i = i + 1;
        }
        assert(list@.take(i as int) =~= list@);
    }
    Ok(r)
}

fn append_sources(a: &mut Vec<AttachmentSource>, b: Vec<AttachmentSource>)
    ensures
        source_views(final(a)@) == source_views(old(a)@) + source_views(b@),
        final(a)@.len() == old(a)@.len() + b@.len(),
{
    let mut rest = b;
    a.append(&mut rest);
    assert(source_views(a@) =~= source_views(old(a)@) + source_views(b@));
}

/// Gathers the files of a message. What waited is claimed even where a later file is refused.
pub fn resolve_attachments(
    store: &mut UploadStore,
    urls: &Option<Vec<String>>,
    refs: &Option<Vec<String>>,
    items: &Option<Vec<InlineAttachment>>,
    now: u64,
) -> (r: Result<Vec<AttachmentSource>, String>)
    requires
        old(store).wf(),
    ensures
        final(store).wf(),
        final(store).ttl == old(store).ttl,
        final(store).waiting() == if fetched(listed(*urls)) is Err {
            old(store).waiting()
        } else {
            waiting_after(old(store).waiting(), listed(*refs), now)
        },
        match attachments(
            listed(*urls),
            old(store).waiting(),
            listed(*refs),
            now,
            listed_inline(*items),
        ) {
            Ok(v) => r matches Ok(s) && source_views(s@) == v,
            Err(text) => r matches Err(e) && e@ == text,
        },
{
    let mut sources = match fetch_urls(urls) {
        Ok(v) => v,
        Err(e) => {
            return Err(e);
        },
    };
    let waiting = match claim_refs(store, refs, now) {
        Ok(v) => v,
        Err(e) => {
            return Err(e);
        },
    };
    let carried = match decode_inline(items) {
        Ok(v) => v,
        Err(e) => {
            return Err(e);
        },
    };
    proof {
        assert(source_views(sources@).len() == sources@.len());
        assert(source_views(waiting@).len() == waiting@.len());
        assert(source_views(carried@).len() == carried@.len());
    }
    append_sources(&mut sources, waiting);
    append_sources(&mut sources, carried);
    if sources.len() > MAX_ATTACHMENTS {
        let mut s = number(sources.len() as u64);
        s.append(" attachments requested; Discord allows ");
        s.append(number(MAX_ATTACHMENTS as u64).as_str());
        s.append(" per message");
        return Err(s);
    }
    Ok(sources)
}

/// Who speaks, where, and with what, before the channel has been looked for.
pub struct SendPlan {
    pub voice: Voice,
    pub channel: u64,
    pub stickers: Vec<u64>,
    pub reply_to: Option<u64>,
}

/// What is wrong with a request to speak before the channel is looked for, if anything is;
/// the first thing.
pub open spec fn send_fault(server: KurouServer, caller: Caller, req: SendMessageRequest) -> Option<
    Seq<char>,
> {
    if identity_of(caller) is None {
        Some(NOBODY@)
    } else if !server.has_voice(identity_of(caller)->0) {
        Some(voiceless_text(identity_of(caller)->0))
    } else if snowflake(req.channel_id@) is None {
        Some(invalid_text(req.channel_id@, "snowflake id"@))
    } else if stickers_of(listed(req.sticker_ids)) is Err {
        Some(stickers_of(listed(req.sticker_ids))->Err_0)
    } else if req.reply_to is Some && snowflake(req.reply_to->0@) is None {
        Some(invalid_text(req.reply_to->0@, "snowflake id"@))
    } else {
        None
    }
}

impl KurouServer {
    /// Plans to speak: with the caller's own bot or not at all.
    pub fn send_message(&self, caller: &Caller, req: &SendMessageRequest) -> (r: Result<SendPlan, String>)
        requires
            self.speaks(*caller) ==> {
                &&& snowflake(req.channel_id@) != Some(0u64)
                &&& snowflake(req.channel_id@) is Some ==> {
                    &&& stickers_are_ids(listed(req.sticker_ids))
                    &&& stickers_of(listed(req.sticker_ids)) is Ok ==> (req.reply_to matches Some(raw)
                        ==> snowflake(raw@) != Some(0u64))
                }
            },
        ensures
            match send_fault(*self, *caller, *req) {
                Some(text) => r matches Err(e) && e@ == text,
                None => r matches Ok(plan) && {
                    &&& is_voice_of(plan.voice, identity_of(*caller)->0)
                    &&& Some(plan.channel) == snowflake(req.channel_id@)
                    &&& Ok::<Seq<u64>, Seq<char>>(plan.stickers@) == stickers_of(
                        listed(req.sticker_ids),
                    )
                    &&& plan.reply_to == match req.reply_to {
                        Some(raw) => snowflake(raw@),
                        None => None,
                    }
                },
            },
    {
        let label = match caller_identity(caller) {
            Ok(label) => label,
            Err(e) => {
                return Err(e);
            },
        };
        let voice = match self.sender_for(label.as_str()) {
            Ok(voice) => voice,
            Err(e) => {
                return Err(e);
            },
        };
        let channel = match parse_channel(req.channel_id.as_str()) {
            Ok(id) => id,
            Err(e) => {
                return Err(e);
            },
        };
        let stickers = match parse_sticker_ids(&req.sticker_ids) {
            Ok(ids) => ids,
            Err(e) => {
                return Err(e);
            },
        };
        let reply_to = match &req.reply_to {
            Some(raw) => match parse_message(raw.as_str()) {
                Ok(id) => Some(id),
                Err(e) => {
                    return Err(e);
                },
            },
            None => None,
        };
        Ok(SendPlan { voice, channel, stickers, reply_to })
    }
}

/// Nothing is ever sent into a guild that is only watched, nor where the channel could not be
/// found, nor to anybody in private but those whose private calls are taken.
pub proof fn lemma_watched_guilds_hear_nothing(
    server: KurouServer,
    config: Config,
    probe: Probe,
    recipient: Recipient,
)
    requires
        hats(config) is Ok,
        wears(server, hats(config)->Ok_0),
        server.default_guild is Some,
    ensures
        probe matches Probe::InGuild(guild) ==> (server.watched().contains(guild)
            ==> !server.may_send(probe, recipient)),
        probe == Probe::Failed ==> !server.may_send(probe, recipient),
        probe == Probe::NoGuild && server.may_send(probe, recipient) ==> (
        recipient matches Recipient::Account(id) && server.wake_dm_from@.contains(id)),
{
    if let Probe::InGuild(guild) = probe {
        if server.watched().contains(guild) {
            lemma_watched_guilds_are_never_written(server, config, guild);
        }
    }
}

/// A reference serves once: what a message claimed is gone, so that neither the same message
/// nor a later one can claim it again.
pub proof fn lemma_claimed_files_are_gone(
    waiting: Map<Seq<char>, Stored>,
    refs: Seq<String>,
    now: u64,
    i: int,
)
    requires
        claimed(waiting, refs, now) is Ok,
        0 <= i < refs.len(),
    ensures
        !waiting_after(waiting, refs, now).contains_key(refs[i]@),
        forall|k: int| 0 <= k < refs.len() && k != i ==> (#[trigger] refs[k])@ != refs[i]@,
    decreases refs.len(),
{
    let front = refs.drop_last();
    let before = waiting_after(waiting, front, now);
    let n = refs.len() - 1;
    assert(claimed(waiting, front, now) is Ok);
    assert forall|k: int| 0 <= k < n implies (#[trigger] refs[k])@ != refs[n]@ by {
        lemma_claimed_files_are_gone(waiting, front, now, k);
        assert(front[k] == refs[k]);
        assert(fresh_part(before, now).contains_key(refs[n]@));
    }
    if i < n {
        lemma_claimed_files_are_gone(waiting, front, now, i);
        assert(front[i] == refs[i]);
        assert forall|k: int| 0 <= k < refs.len() && k != i implies (#[trigger] refs[k])@ != refs[i]@ by {
            if k < n {
                assert(front[k] == refs[k]);
            }
        }
    }
}

/// Whatever is gathered for a message fits into one.
pub proof fn lemma_attachments_are_bounded(
    urls: Seq<String>,
    waiting: Map<Seq<char>, Stored>,
    refs: Seq<String>,
    now: u64,
    items: Seq<InlineAttachment>,
)
    ensures
        attachments(urls, waiting, refs, now, items) matches Ok(v) ==> v.len() <= MAX_ATTACHMENTS,
{
}

} // verus!
