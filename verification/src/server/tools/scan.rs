//! Sweeping a channel for messages by author, mention and text, in the archive or page by
//! page over the wire.

use vstd::prelude::*;

use crate::archive::{ArchiveScan, NewMessage, ScanQuery};
use crate::discord::types::{
    block_text, lemma_a_block_is_shown_in_one_way, message_shown, messages_shown, render_messages,
    rendered_all, RenderedMessage,
};
use crate::discord::wire::Message;
use crate::gateway::{archived, holds_id, mentions_account};
use crate::numeral::parse_u64;
use crate::server::boot::snowflake;
use crate::server::tools::common::{clamped, invalid, invalid_text, parse_message};
use crate::text::{
    clone_opt, contains, decimal, has_text, lower, lowercased, number, opt_text, push_text, same,
    signed_decimal, signed_number, texts, trim, trimmed,
};

verus! {

/// How many messages a page holds.
pub const PAGE_SIZE: u8 = 100;

pub const DEFAULT_MAX_PAGES: u8 = 10;

pub const MAX_MAX_PAGES: u8 = 50;

pub const DEFAULT_ARCHIVE_LIMIT: u16 = 100;

pub const MAX_ARCHIVE_LIMIT: u16 = 500;

/// What to sweep for, and where.
pub struct ScanChannelRequest {
    pub channel_id: String,
    pub author_ids: Option<Vec<String>>,
    pub mention_ids: Option<Vec<String>>,
    pub text: Option<String>,
    pub source: Option<String>,
    pub max_pages: Option<u8>,
    pub limit: Option<u16>,
    pub before: Option<String>,
    pub after: Option<String>,
}

/// Where to read.
#[derive(Clone, Copy, Debug, PartialEq, Eq, Structural)]
pub enum Source {
    Auto,
    Archive,
    Rest,
}

/// The source of a name, if it is one's name.
pub open spec fn source_of(name: Seq<char>) -> Option<Source> {
    if name.len() == 0 || name == "auto"@ {
        Some(Source::Auto)
    } else if name == "archive"@ {
        Some(Source::Archive)
    } else if name == "rest"@ {
        Some(Source::Rest)
    } else {
        None
    }
}

pub open spec fn bad_source_text(name: Seq<char>) -> Seq<char> {
    "source must be auto, archive, or rest (got '"@ + name + "')"@
}

/// The source of a name given in small letters.
pub fn source_named(name: &str) -> (r: Result<Source, String>)
    ensures
        match source_of(name@) {
            Some(source) => r == Ok::<Source, String>(source),
            None => r matches Err(e) && e@ == bad_source_text(name@),
        },
{
    if name.is_empty() || same(name, "auto") {
        Ok(Source::Auto)
    } else if same(name, "archive") {
        Ok(Source::Archive)
    } else if same(name, "rest") {
        Ok(Source::Rest)
    } else {
        let mut s = "source must be auto, archive, or rest (got '".to_owned();
        s.append(name);
        s.append("')");
        Err(s)
    }
}

/// Reads where to read from; nothing said means either.
pub fn parse_source(raw: Option<&str>) -> (r: Result<Source, String>)
    ensures
        match raw {
            None => r == Ok::<Source, String>(Source::Auto),
            Some(raw) => match source_of(lowercased(trimmed(raw@))) {
                Some(source) => r == Ok::<Source, String>(source),
                None => r matches Err(e) && e@ == bad_source_text(lowercased(trimmed(raw@))),
            },
        },
{
    match raw {
        None => Ok(Source::Auto),
        Some(raw) => source_named(lower(trim(raw).as_str()).as_str()),
    }
}

pub const ARCHIVE_CLOSED: &'static str =
    "message archive is disabled; set ARCHIVE=true or use source=rest";

/// Whether to read the archive, given whether it is open.
pub fn reads_archive(source: Source, archive_open: bool) -> (r: Result<bool, String>)
    ensures
        match source {
            Source::Archive => if archive_open {
                r == Ok::<bool, String>(true)
            } else {
                r matches Err(e) && e@ == ARCHIVE_CLOSED@
            },
            Source::Rest => r == Ok::<bool, String>(false),
            Source::Auto => r == Ok::<bool, String>(archive_open),
        },
{
    match source {
        Source::Archive => {
            if archive_open {
                Ok(true)
            } else {
                Err(ARCHIVE_CLOSED.to_owned())
            }
        },
        Source::Rest => Ok(false),
        Source::Auto => Ok(archive_open),
    }
}

/// The ids of a list, each once, in the order they first come up; or the first entry that is
/// none.
pub open spec fn id_set(raw: Seq<String>) -> Result<Seq<u64>, Seq<char>>
    decreases raw.len(),
{
    if raw.len() == 0 {
        Ok(seq![])
    } else {
        match id_set(raw.drop_last()) {
            Err(bad) => Err(bad),
            Ok(ids) => match snowflake(raw.last()@) {
                None => Err(raw.last()@),
                Some(id) => if ids.contains(id) {
                    Ok(ids)
                } else {
                    Ok(ids.push(id))
                },
            },
        }
    }
}

proof fn lemma_first_bad_id_stays(raw: Seq<String>, n: int)
    requires
        0 <= n <= raw.len(),
        id_set(raw.take(n)) is Err,
    ensures
        id_set(raw) == id_set(raw.take(n)),
    decreases raw.len() - n,
{
    if n < raw.len() {
        assert(raw.take(n + 1).drop_last() =~= raw.take(n));
        lemma_first_bad_id_stays(raw, n + 1);
    } else {
        assert(raw.take(n) =~= raw);
    }
}

pub open spec fn listed(ids: Option<Vec<String>>) -> Seq<String> {
    match ids {
        Some(ids) => ids@,
        None => seq![],
    }
}

/// Reads a set of ids.
pub fn parse_id_set(ids: &Option<Vec<String>>) -> (r: Result<Vec<u64>, String>)
    ensures
        match id_set(listed(*ids)) {
            Ok(set) => r matches Ok(v) && v@ == set,
            Err(bad) => r matches Err(e) && e@ == invalid_text(bad, "snowflake id"@),
        },
{
    let mut set: Vec<u64> = Vec::new();
    if let Some(raw) = ids {
        let mut i: usize = 0;
        assert(raw@.take(0) =~= seq![]);
        while i < raw.len()
            invariant
                i <= raw@.len(),
                listed(*ids) == raw@,
                id_set(raw@.take(i as int)) == Ok::<Seq<u64>, Seq<char>>(set@),
            decreases raw@.len() - i,
        {
            proof {
                let t = raw@.take(i + 1);
                assert(t.drop_last() =~= raw@.take(i as int));
                assert(t.last() == raw@[i as int]);
            }
            match parse_u64(trim(raw[i].as_str()).as_str()) {
                Some(id) => {
                    if !holds_id(&set, id) {
                        set.push(id);
                    }
                },
                None => {
                    proof {
                        lemma_first_bad_id_stays(raw@, i + 1);
                    }
                    return Err(invalid(raw[i].as_str(), "snowflake id"));
                },
            }
            i = i + 1;
        }
        assert(raw@.take(i as int) =~= raw@);
    }
    Ok(set)
}

pub open spec fn decimals(ids: Seq<u64>) -> Seq<Seq<char>> {
    ids.map_values(|id: u64| decimal(id as nat))
}

/// Reads a set of ids and writes each as the archive does, so that a stray space or a leading
/// zero misses nothing.
pub fn canonical_ids(ids: &Option<Vec<String>>) -> (r: Result<Vec<String>, String>)
    ensures
        match id_set(listed(*ids)) {
            Ok(set) => r matches Ok(v) && texts(v@) == decimals(set),
            Err(bad) => r matches Err(e) && e@ == invalid_text(bad, "snowflake id"@),
        },
{
    match parse_id_set(ids) {
        Ok(set) => {
            let mut v: Vec<String> = Vec::new();
            let mut i: usize = 0;
            while i < set.len()
                invariant
                    i <= set@.len(),
                    texts(v@) == decimals(set@.take(i as int)),
                decreases set@.len() - i,
            {
                push_text(&mut v, number(set[i]));
                i = i + 1;
                assert(texts(v@) =~= decimals(set@.take(i as int)));
            }
            assert(set@.take(i as int) =~= set@);
            Ok(v)
        },
        Err(e) => Err(e),
    }
}

/// A message's id where one is given; or the text that is none.
pub open spec fn anchor_id(raw: Option<Seq<char>>) -> Result<Option<u64>, Seq<char>> {
    match raw {
        None => Ok(None),
        Some(raw) => match snowflake(raw) {
            Some(id) => Ok(Some(id)),
            None => Err(invalid_text(raw, "snowflake id"@)),
        },
    }
}

/// The accounts a request names are ids, all of them.
pub open spec fn accounts_are_ids(req: ScanChannelRequest) -> bool {
    id_set(listed(req.author_ids)) is Ok && id_set(listed(req.mention_ids)) is Ok
}

/// Of two message ids neither that is looked at is the number zero, which is no id. The second
/// is looked at only where the first is none or a number.
pub open spec fn anchors_are_ids(one: Option<String>, other: Option<String>) -> bool {
    &&& one matches Some(raw) ==> snowflake(raw@) != Some(0u64)
    &&& anchor_id(opt_text(one)) is Ok ==> (other matches Some(raw) ==> snowflake(raw@) != Some(0u64))
}

fn parse_anchor(raw: &Option<String>) -> (r: Result<Option<u64>, String>)
    requires
        raw matches Some(raw) ==> snowflake(raw@) != Some(0u64),
    ensures
        match anchor_id(opt_text(*raw)) {
            Ok(id) => r == Ok::<Option<u64>, String>(id),
            Err(text) => r matches Err(e) && e@ == text,
        },
{
    match raw {
        None => Ok(None),
        Some(raw) => match parse_message(raw.as_str()) {
            Ok(id) => Ok(Some(id)),
            Err(e) => Err(e),
        },
    }
}

pub open spec fn as_row_id(id: Option<u64>) -> Option<i64> {
    match id {
        Some(id) => Some(id as i64),
        None => None,
    }
}

fn row_id(id: Option<u64>) -> (r: Option<i64>)
    ensures
        r == as_row_id(id),
{
    match id {
        Some(id) => Some(#[verifier::truncate] (id as i64)),
        None => None,
    }
}

/// What is wrong with a request to the archive, if anything is; the first thing.
pub open spec fn archive_fault(req: ScanChannelRequest) -> Option<Seq<char>> {
    match id_set(listed(req.author_ids)) {
        Err(bad) => Some(invalid_text(bad, "snowflake id"@)),
        Ok(_) => match id_set(listed(req.mention_ids)) {
            Err(bad) => Some(invalid_text(bad, "snowflake id"@)),
            Ok(_) => match anchor_id(opt_text(req.before)) {
                Err(text) => Some(text),
                Ok(_) => match anchor_id(opt_text(req.after)) {
                    Err(text) => Some(text),
                    Ok(_) => None,
                },
            },
        },
    }
}

/// The archive's query is the one for a request.
pub open spec fn is_query_of(q: ScanQuery, channel: u64, req: ScanChannelRequest) -> bool {
    &&& q.channel_id@ == decimal(channel as nat)
    &&& texts(q.author_ids@) == decimals(id_set(listed(req.author_ids))->Ok_0)
    &&& texts(q.mention_ids@) == decimals(id_set(listed(req.mention_ids))->Ok_0)
    &&& q.text == req.text
    &&& q.before == as_row_id(anchor_id(opt_text(req.before))->Ok_0)
    &&& q.after == as_row_id(anchor_id(opt_text(req.after))->Ok_0)
    &&& q.limit == clamped(
        match req.limit {
            Some(n) => n as int,
            None => DEFAULT_ARCHIVE_LIMIT as int,
        },
        1,
        MAX_ARCHIVE_LIMIT as int,
    )
}

/// The archive's query for a request.
pub fn archive_query(channel: u64, req: &ScanChannelRequest) -> (r: Result<ScanQuery, String>)
    requires
        accounts_are_ids(*req) ==> anchors_are_ids(req.before, req.after),
    ensures
        match archive_fault(*req) {
            Some(text) => r matches Err(e) && e@ == text,
            None => r matches Ok(q) && is_query_of(q, channel, *req),
        },
{
    let author_ids = match canonical_ids(&req.author_ids) {
        Ok(ids) => ids,
        Err(e) => {
            return Err(e);
        },
    };
    let mention_ids = match canonical_ids(&req.mention_ids) {
        Ok(ids) => ids,
        Err(e) => {
            return Err(e);
        },
    };
    let before = match parse_anchor(&req.before) {
        Ok(id) => id,
        Err(e) => {
            return Err(e);
        },
    };
    let after = match parse_anchor(&req.after) {
        Ok(id) => id,
        Err(e) => {
            return Err(e);
        },
    };
    let asked: u16 = match req.limit {
        Some(n) => n,
        None => DEFAULT_ARCHIVE_LIMIT,
    };
    let limit: u16 = if asked < 1 {
        1
    } else if asked > MAX_ARCHIVE_LIMIT {
        MAX_ARCHIVE_LIMIT
    } else {
        asked
    };
    Ok(
        ScanQuery {
            channel_id: number(channel),
            author_ids,
            mention_ids,
            text: clone_opt(&req.text),
            before: row_id(before),
            after: row_id(after),
            limit,
        },
    )
}

/// A meta line, and below it the blocks or a word that there are none.
pub open spec fn scan_reply(meta: Seq<char>, blocks: Seq<RenderedMessage>) -> Seq<char> {
    if blocks.len() == 0 {
        meta + "\n(no matches)"@
    } else {
        meta + "\n\n"@ + block_text(blocks)
    }
}

pub open spec fn archive_meta(scan: ArchiveScan) -> Seq<char> {
    "[scan] source=archive matches="@ + decimal(scan.matches@.len()) + " archive_floor="@ + (
    match scan.floor {
        Some(id) => signed_decimal(id as int),
        None => "none"@,
    }) + " (older than the floor is only in source=rest)"@
}

/// What a scan of the archive is answered with.
pub fn archive_reply(scan: &ArchiveScan) -> (r: String)
    ensures
        r@ == scan_reply(archive_meta(*scan), scan.matches@),
{
    let mut s = "[scan] source=archive matches=".to_owned();
    s.append(number(scan.matches.len() as u64).as_str());
    s.append(" archive_floor=");
    match scan.floor {
        Some(id) => s.append(signed_number(id).as_str()),
        None => s.append("none"),
    }
    s.append(" (older than the floor is only in source=rest)");
    if scan.matches.len() == 0 {
        s.append("\n(no matches)");
    } else {
        s.append("\n\n");
        s.append(render_messages(scan.matches.as_slice()).as_str());
    }
    s
}

/// What a sweep keeps.
pub struct Filters {
    pub authors: Vec<u64>,
    pub mentions: Vec<u64>,
    pub text: Option<String>,
}

impl Filters {
    /// A message that the sweep keeps: by one of the authors, with a mention of one of the
    /// accounts, with the text in it in any case; whatever is not asked for is met by all.
    pub open spec fn keeps(self, m: Message) -> bool {
        &&& self.authors@.len() > 0 ==> self.authors@.contains(m.author.id)
        &&& self.mentions@.len() > 0 ==> exists|i: int|
            0 <= i < self.mentions@.len() && mentions_account(m, #[trigger] self.mentions@[i])
        &&& self.text matches Some(needle) ==> has_text(lowercased(m.content@), needle@)
    }

    /// Whether the sweep keeps a message, given its text in small letters.
    pub fn matches_lowered(&self, message: &Message, content: &str) -> (r: bool)
        ensures
            r == ((self.authors@.len() > 0 ==> self.authors@.contains(message.author.id)) && (
            self.mentions@.len() > 0 ==> exists|i: int|
                0 <= i < self.mentions@.len() && mentions_account(
                    *message,
                    #[trigger] self.mentions@[i],
                )) && (self.text matches Some(needle) ==> has_text(content@, needle@))),
    {
        if self.authors.len() > 0 && !holds_id(&self.authors, message.author.id) {
            return false;
        }
        if self.mentions.len() > 0 && !mentions_any(message, &self.mentions) {
            return false;
        }
        match &self.text {
            Some(needle) => contains(content, needle.as_str()),
            None => true,
        }
    }

    /// Whether the sweep keeps a message.
    pub fn matches(&self, message: &Message) -> (r: bool)
        ensures
            r == self.keeps(*message),
    {
        self.matches_lowered(message, lower(message.content.as_str()).as_str())
    }
}

fn mentions_any(message: &Message, ids: &Vec<u64>) -> (r: bool)
    ensures
        r == exists|i: int| 0 <= i < ids@.len() && mentions_account(*message, #[trigger] ids@[i]),
{
    let mut k: usize = 0;
    while k < message.mentions.len()
        invariant
            k <= message.mentions@.len(),
            forall|j: int| 0 <= j < k ==> !ids@.contains((#[trigger] message.mentions@[j]).id),
        decreases message.mentions@.len() - k,
    {
        if holds_id(ids, message.mentions[k].id) {
            let ghost i = choose|i: int| 0 <= i < ids@.len() && ids@[i] == message.mentions@[k as int].id;
            assert(mentions_account(*message, ids@[i]));
            return true;
        }
        k = k + 1;
    }
    proof {
        assert forall|i: int| 0 <= i < ids@.len() implies !mentions_account(
            *message,
            #[trigger] ids@[i],
        ) by {
            if mentions_account(*message, ids@[i]) {
                let j = choose|j: int|
                    0 <= j < message.mentions@.len() && (#[trigger] message.mentions@[j]).id == ids@[i];
                assert(ids@.contains(message.mentions@[j].id));
            }
        }
    }
    false
}

/// A sweep over the wire, page by page backward.
pub struct RestSweep {
    pub filters: Filters,
    pub max_pages: u8,
    pub floor: Option<u64>,
    pub cursor: Option<u64>,
    pub matches: Vec<Message>,
    pub scanned: usize,
    pub pages: u8,
    pub oldest: Option<u64>,
    pub reached_cap: bool,
    pub done: bool,
}

/// How many messages of a page stand above the floor, from its front.
pub open spec fn above(page: Seq<Message>, floor: Option<u64>) -> nat
    decreases page.len(),
{
    if page.len() == 0 || (floor is Some && page[0].id <= floor->0) {
        0
    } else {
        1 + above(page.drop_first(), floor)
    }
}

proof fn lemma_above(page: Seq<Message>, floor: Option<u64>, n: int)
    requires
        0 <= n <= page.len(),
        forall|i: int|
            0 <= i < n ==> !(floor is Some && (#[trigger] page[i]).id <= floor->0),
        n == page.len() || (floor is Some && page[n].id <= floor->0),
    ensures
        above(page, floor) == n,
    decreases n,
{
    if n > 0 {
        assert(!(floor is Some && page[0].id <= floor->0));
        let t = page.drop_first();
        assert forall|i: int| 0 <= i < n - 1 implies !(floor is Some && (#[trigger] t[i]).id
            <= floor->0) by {
            assert(t[i] == page[i + 1]);
        }
        lemma_above(t, floor, n - 1);
    }
}

impl RestSweep {
    /// Everything kept passes the filters and stands above the floor, no more pages were read
    /// than allowed, and the next page starts where the last message read stood.
    pub open spec fn wf(self) -> bool {
        &&& 1 <= self.max_pages <= MAX_MAX_PAGES
        &&& self.pages <= self.max_pages
        &&& !self.done ==> self.pages < self.max_pages
        &&& self.oldest is Some ==> self.cursor == self.oldest
        &&& self.reached_cap ==> self.done && self.pages == self.max_pages
        &&& forall|i: int|
            0 <= i < self.matches@.len() ==> self.filters.keeps(#[trigger] self.matches@[i]) && (
            self.floor is Some ==> self.matches@[i].id > self.floor->0)
    }

    /// The messages of a page that are read: those above the floor.
    pub open spec fn read_of(self, page: Seq<Message>) -> Seq<Message> {
        page.take(above(page, self.floor) as int)
    }

    /// The sweep after one page more: what stands above the floor is read, and what of it
    /// passes the filters is kept. It ends with the channel, at the floor, or at its last
    /// page.
    pub open spec fn takes(self, page: Seq<Message>, after: RestSweep) -> bool {
        let read = self.read_of(page);
        let pages = if page.len() == 0 {
            self.pages as int
        } else {
            self.pages + 1
        };
        let hit_floor = read.len() < page.len();
        &&& after.filters == self.filters
        &&& after.max_pages == self.max_pages
        &&& after.floor == self.floor
        &&& after.pages == pages
        &&& after.scanned == self.scanned + read.len()
        &&& after.oldest == if read.len() > 0 {
            Some(read.last().id)
        } else {
            self.oldest
        }
        &&& after.cursor == if read.len() > 0 {
            Some(read.last().id)
        } else {
            self.cursor
        }
        &&& after.matches@ == self.matches@ + read.filter(|m: Message| self.filters.keeps(m))
        &&& after.reached_cap == (page.len() > 0 && !hit_floor && pages >= self.max_pages)
        &&& after.done == (page.len() == 0 || hit_floor || pages >= self.max_pages)
    }

    /// Takes one page in.
    pub fn take_page(&mut self, page: Vec<Message>)
        requires
            old(self).wf(),
            !old(self).done,
            old(self).scanned + page@.len() <= usize::MAX,
        ensures
            final(self).wf(),
            old(self).takes(page@, *final(self)),
    {
        let ghost all = page@;
        let ghost floor = self.floor;
        let ghost keep = |m: Message| old(self).filters.keeps(m);
        if page.len() == 0 {
            self.done = true;
            proof {
                reveal(Seq::filter);
                assert(all.take(0) =~= seq![]);
                assert(self.matches@ =~= old(self).matches@ + all.take(0).filter(keep));
            }
            return ;
        }
        self.pages = self.pages + 1;
        let mut rest = page;
        let mut hit_floor = false;
        let ghost mut n: int = 0;
        proof {
            reveal(Seq::filter);
            assert(all.skip(0) =~= all);
            assert(all.take(0) =~= seq![]);
            assert(self.matches@ =~= old(self).matches@ + all.take(0).filter(keep));
        }
        while rest.len() > 0 && !hit_floor
            invariant
                0 <= n <= all.len(),
                old(self).scanned + all.len() <= usize::MAX,
                all.len() > 0,
                floor == old(self).floor,
                keep == (|m: Message| old(self).filters.keeps(m)),
                old(self).wf(),
                !hit_floor ==> rest@ == all.skip(n),
                hit_floor ==> n < all.len() && floor is Some && all[n].id <= floor->0,
                self.filters == old(self).filters,
                self.max_pages == old(self).max_pages,
                self.floor == floor,
                self.pages == old(self).pages + 1,
                self.reached_cap == old(self).reached_cap,
                self.done == old(self).done,
                self.scanned == old(self).scanned + n,
                forall|i: int| 0 <= i < n ==> !(floor is Some && (#[trigger] all[i]).id <= floor->0),
                self.oldest == if n > 0 {
                    Some(all[n - 1].id)
                } else {
                    old(self).oldest
                },
                self.cursor == if n > 0 {
                    Some(all[n - 1].id)
                } else {
                    old(self).cursor
                },
                self.matches@ == old(self).matches@ + all.take(n).filter(keep),
                forall|i: int|
                    0 <= i < self.matches@.len() ==> self.filters.keeps(#[trigger] self.matches@[i])
                        && (self.floor is Some ==> self.matches@[i].id > self.floor->0),
            decreases rest@.len(),
        {
            let message = rest.remove(0);
            assert(message == all[n]);
            let id: u64 = message.id;
            let below = match self.floor {
                Some(f) => id <= f,
                None => false,
            };
            if below {
                hit_floor = true;
            } else {
                self.scanned = self.scanned + 1;
                self.oldest = Some(id);
                self.cursor = Some(id);
                let ghost before = self.matches@;
                let kept = self.filters.matches(&message);
                if kept {
                    self.matches.push(message);
                }
                proof {
                    reveal(Seq::filter);
                    assert(all.take(n + 1).drop_last() =~= all.take(n));
                    assert(all.take(n + 1).last() == all[n]);
                    if kept {
                        assert(self.matches@ =~= old(self).matches@ + all.take(n + 1).filter(keep));
                    }
                    n = n + 1;
                    assert(rest@ =~= all.skip(n));
                }
            }
        }
        proof {
            lemma_above(all, floor, n);
        }
        if hit_floor {
            self.done = true;
        } else if self.pages >= self.max_pages {
            self.reached_cap = true;
            self.done = true;
        }
    }
}

/// A sweep is the one a request starts: it has read nothing yet.
pub open spec fn is_start_of(s: RestSweep, req: ScanChannelRequest) -> bool {
    &&& !s.done
    &&& s.filters.authors@ == id_set(listed(req.author_ids))->Ok_0
    &&& s.filters.mentions@ == id_set(listed(req.mention_ids))->Ok_0
    &&& opt_text(s.filters.text) == match req.text {
        Some(text) => Some(lowercased(text@)),
        None => None,
    }
    &&& s.max_pages == clamped(
        match req.max_pages {
            Some(n) => n as int,
            None => DEFAULT_MAX_PAGES as int,
        },
        1,
        MAX_MAX_PAGES as int,
    )
    &&& s.floor == anchor_id(opt_text(req.after))->Ok_0
    &&& s.cursor == anchor_id(opt_text(req.before))->Ok_0
    &&& s.matches@.len() == 0
    &&& s.scanned == 0
    &&& s.pages == 0
    &&& s.oldest is None
    &&& !s.reached_cap
}

/// What is wrong with a request to sweep, if anything is; the first thing.
pub open spec fn sweep_fault(req: ScanChannelRequest) -> Option<Seq<char>> {
    match id_set(listed(req.author_ids)) {
        Err(bad) => Some(invalid_text(bad, "snowflake id"@)),
        Ok(_) => match id_set(listed(req.mention_ids)) {
            Err(bad) => Some(invalid_text(bad, "snowflake id"@)),
            Ok(_) => match anchor_id(opt_text(req.after)) {
                Err(text) => Some(text),
                Ok(_) => match anchor_id(opt_text(req.before)) {
                    Err(text) => Some(text),
                    Ok(_) => None,
                },
            },
        },
    }
}

impl RestSweep {
    /// A sweep that has read nothing yet.
    pub fn begin(req: &ScanChannelRequest) -> (r: Result<RestSweep, String>)
        requires
            accounts_are_ids(*req) ==> anchors_are_ids(req.after, req.before),
        ensures
            match sweep_fault(*req) {
                Some(text) => r matches Err(e) && e@ == text,
                None => r matches Ok(s) && s.wf() && is_start_of(s, *req),
            },
    {
        let authors = match parse_id_set(&req.author_ids) {
            Ok(ids) => ids,
            Err(e) => {
                return Err(e);
            },
        };
        let mentions = match parse_id_set(&req.mention_ids) {
            Ok(ids) => ids,
            Err(e) => {
                return Err(e);
            },
        };
        let text = match &req.text {
            Some(text) => Some(lower(text.as_str())),
            None => None,
        };
        let asked: u8 = match req.max_pages {
            Some(n) => n,
            None => DEFAULT_MAX_PAGES,
        };
        let max_pages: u8 = if asked < 1 {
            1
        } else if asked > MAX_MAX_PAGES {
            MAX_MAX_PAGES
        } else {
            asked
        };
        let floor = match parse_anchor(&req.after) {
            Ok(id) => id,
            Err(e) => {
                return Err(e);
            },
        };
        let cursor = match parse_anchor(&req.before) {
            Ok(id) => id,
            Err(e) => {
                return Err(e);
            },
        };
        Ok(
            RestSweep {
                filters: Filters { authors, mentions, text },
                max_pages,
                floor,
                cursor,
                matches: Vec::new(),
                scanned: 0,
                pages: 0,
                oldest: None,
                reached_cap: false,
                done: false,
            },
        )
    }
}

pub open spec fn truth(b: bool) -> Seq<char> {
    if b {
        "true"@
    } else {
        "false"@
    }
}

pub open spec fn rest_meta(s: RestSweep) -> Seq<char> {
    "[scan] source=rest scanned="@ + decimal(s.scanned as nat) + " pages="@ + decimal(s.pages as nat)
        + " reached_cap="@ + truth(s.reached_cap) + " oldest_scanned_id="@ + (match s.oldest {
        Some(id) => decimal(id as nat),
        None => "none"@,
    }) + " matches="@ + decimal(s.matches@.len())
}

/// What a sweep over the wire is answered with.
pub fn render_rest(sweep: &RestSweep) -> (r: String)
    ensures
        exists|blocks: Seq<RenderedMessage>| #[trigger]
            messages_shown(sweep.matches@, blocks) && r@ == scan_reply(rest_meta(*sweep), blocks),
{
    let mut s = "[scan] source=rest scanned=".to_owned();
    s.append(number(sweep.scanned as u64).as_str());
    s.append(" pages=");
    s.append(number(sweep.pages as u64).as_str());
    s.append(" reached_cap=");
    if sweep.reached_cap {
        s.append("true");
    } else {
        s.append("false");
    }
    s.append(" oldest_scanned_id=");
    match sweep.oldest {
        Some(id) => s.append(number(id).as_str()),
        None => s.append("none"),
    }
    s.append(" matches=");
    s.append(number(sweep.matches.len() as u64).as_str());
    let blocks = rendered_all(&sweep.matches);
    if blocks.len() == 0 {
        s.append("\n(no matches)");
    } else {
        s.append("\n\n");
        s.append(render_messages(blocks.as_slice()).as_str());
    }
    assert(messages_shown(sweep.matches@, blocks@));
    s
}

/// A channel as it answers: the page that stands before a message, or the latest one.
pub open spec fn sweeps(channel: spec_fn(Option<u64>) -> Seq<Message>, states: Seq<RestSweep>) -> bool {
    states.len() > 0 && forall|i: int|
        0 <= i < states.len() - 1 ==> (#[trigger] states[i]).takes(
            channel(states[i].cursor),
            states[i + 1],
        )
}

/// Two sweeps look for the same.
pub open spec fn alike(a: Filters, b: Filters) -> bool {
    a.authors@ == b.authors@ && a.mentions@ == b.mentions@ && opt_text(a.text) == opt_text(b.text)
}

/// A sweep stands where another stands, and holds what stood in front and what the other
/// holds.
spec fn follows(whole: RestSweep, front: Seq<Message>, scanned: int, part: RestSweep) -> bool {
    &&& alike(whole.filters, part.filters)
    &&& whole.floor == part.floor
    &&& whole.cursor == part.cursor
    &&& whole.matches@ == front + part.matches@
    &&& whole.scanned == scanned + part.scanned
}

proof fn lemma_follows_on(
    channel: spec_fn(Option<u64>) -> Seq<Message>,
    whole: RestSweep,
    whole_after: RestSweep,
    front: Seq<Message>,
    scanned: int,
    part: RestSweep,
    part_after: RestSweep,
)
    requires
        follows(whole, front, scanned, part),
        whole.takes(channel(whole.cursor), whole_after),
        part.takes(channel(part.cursor), part_after),
    ensures
        follows(whole_after, front, scanned, part_after),
{
    let page = channel(part.cursor);
    let read = part.read_of(page);
    let f = |m: Message| whole.filters.keeps(m);
    let g = |m: Message| part.filters.keeps(m);
    assert forall|m: Message| whole.filters.keeps(m) == #[trigger] part.filters.keeps(m) by {
        assert(whole.filters.text is Some <==> part.filters.text is Some) by {
            assert(opt_text(whole.filters.text) is Some <==> whole.filters.text is Some);
        }
    }
    assert(f =~= g);
    assert(whole_after.matches@ =~= front + part_after.matches@);
}

/// A capped sweep is taken up where it stopped: one that starts before the oldest message the
/// first one scanned finds exactly what a single sweep of as many pages would have found
/// besides, and ends where that one ends.
pub proof fn lemma_sweeps_are_resumed(
    channel: spec_fn(Option<u64>) -> Seq<Message>,
    first: Seq<RestSweep>,
    second: Seq<RestSweep>,
    whole: Seq<RestSweep>,
)
    requires
        sweeps(channel, first),
        sweeps(channel, second),
        sweeps(channel, whole),
        first.len() > 1,
        first.last().reached_cap,
        second[0].cursor == first.last().oldest,
        second[0].matches@.len() == 0,
        second[0].scanned == 0,
        second[0].floor == first[0].floor,
        alike(second[0].filters, first[0].filters),
        whole[0].cursor == first[0].cursor,
        whole[0].matches@ == first[0].matches@,
        whole[0].scanned == first[0].scanned,
        whole[0].floor == first[0].floor,
        alike(whole[0].filters, first[0].filters),
        whole.len() == first.len() + second.len() - 1,
    ensures
        whole.last().matches@ == first.last().matches@ + second.last().matches@,
        whole.last().scanned == first.last().scanned + second.last().scanned,
        whole.last().cursor == second.last().cursor,
{
    let n = first.len() - 1;
    assert(whole[0].matches@ =~= Seq::<Message>::empty() + first[0].matches@);
    lemma_follow_first(channel, first, whole, n as nat);
    assert(first[n - 1].takes(channel(first[n - 1].cursor), first[n]));
    assert(first[n].cursor == first[n].oldest);
    assert(whole[n].matches@ =~= first[n].matches@);
    assert(whole[n].matches@ =~= first[n].matches@ + second[0].matches@);
    lemma_filters_stay(channel, first, n as nat);
    assert(follows(whole[n], first[n].matches@, first[n].scanned as int, second[0]));
    lemma_follow_second(
        channel,
        second,
        whole,
        n as nat,
        first[n].matches@,
        first[n].scanned as int,
        (second.len() - 1) as nat,
    );
}

proof fn lemma_filters_stay(
    channel: spec_fn(Option<u64>) -> Seq<Message>,
    states: Seq<RestSweep>,
    n: nat,
)
    requires
        sweeps(channel, states),
        n < states.len(),
    ensures
        states[n as int].filters == states[0].filters,
        states[n as int].floor == states[0].floor,
    decreases n,
{
    if n > 0 {
        lemma_filters_stay(channel, states, (n - 1) as nat);
        assert(states[n - 1].takes(channel(states[n - 1].cursor), states[n - 1 + 1]));
    }
}

proof fn lemma_follow_first(
    channel: spec_fn(Option<u64>) -> Seq<Message>,
    first: Seq<RestSweep>,
    whole: Seq<RestSweep>,
    n: nat,
)
    requires
        sweeps(channel, first),
        sweeps(channel, whole),
        n < first.len(),
        n < whole.len(),
        follows(whole[0], seq![], 0, first[0]),
    ensures
        follows(whole[n as int], seq![], 0, first[n as int]),
    decreases n,
{
    if n > 0 {
        lemma_follow_first(channel, first, whole, (n - 1) as nat);
        assert(first[n - 1].takes(channel(first[n - 1].cursor), first[n - 1 + 1]));
        assert(whole[n - 1].takes(channel(whole[n - 1].cursor), whole[n - 1 + 1]));
        lemma_follows_on(
            channel,
            whole[n - 1],
            whole[n as int],
            seq![],
            0,
            first[n - 1],
            first[n as int],
        );
    }
}

proof fn lemma_follow_second(
    channel: spec_fn(Option<u64>) -> Seq<Message>,
    second: Seq<RestSweep>,
    whole: Seq<RestSweep>,
    start: nat,
    front: Seq<Message>,
    scanned: int,
    n: nat,
)
    requires
        sweeps(channel, second),
        sweeps(channel, whole),
        n < second.len(),
        start + n < whole.len(),
        follows(whole[start as int], front, scanned, second[0]),
    ensures
        follows(whole[(start + n) as int], front, scanned, second[n as int]),
    decreases n,
{
    if n > 0 {
        lemma_follow_second(channel, second, whole, start, front, scanned, (n - 1) as nat);
        let k: int = start + n - 1;
        assert(second[n - 1].takes(channel(second[n - 1].cursor), second[n - 1 + 1]));
        assert(whole[k].takes(channel(whole[k].cursor), whole[k + 1]));
        lemma_follows_on(channel, whole[k], whole[k + 1], front, scanned, second[n - 1], second[n as int]);
    }
}

/// What the archive kept reads like what the wire gives: the blocks of messages read back are
/// the blocks of the messages themselves, letter by letter.
pub proof fn lemma_the_archive_reads_like_the_wire(
    messages: Seq<Message>,
    kept: Seq<NewMessage>,
    live: Seq<RenderedMessage>,
)
    requires
        kept.len() == messages.len(),
        forall|i: int| 0 <= i < kept.len() ==> archived(messages[i], #[trigger] kept[i]),
        messages_shown(messages, live),
    ensures
        block_text(kept.map_values(|k: NewMessage| k.rendered)) == block_text(live),
{
    let back = kept.map_values(|k: NewMessage| k.rendered);
    assert forall|i: int| 0 <= i < messages.len() implies message_shown(messages[i], #[trigger] back[i]) by {
        assert(archived(messages[i], kept[i]));
    }
    lemma_a_block_is_shown_in_one_way(messages, back, live);
}

/// Nothing at or below the floor is read, however the pages fall.
pub proof fn lemma_nothing_below_the_floor_is_read(s: RestSweep, page: Seq<Message>)
    requires
        s.floor is Some,
    ensures
        forall|i: int|
            0 <= i < s.read_of(page).len() ==> (#[trigger] s.read_of(page)[i]).id > s.floor->0,
        above(page, s.floor) <= page.len(),
{
    lemma_above_floor(page, s.floor);
}

proof fn lemma_above_floor(page: Seq<Message>, floor: Option<u64>)
    requires
        floor is Some,
    ensures
        above(page, floor) <= page.len(),
        forall|i: int| 0 <= i < above(page, floor) ==> (#[trigger] page[i]).id > floor->0,
    decreases page.len(),
{
    if page.len() > 0 && !(page[0].id <= floor->0) {
        let t = page.drop_first();
        lemma_above_floor(t, floor);
        assert forall|i: int| 0 <= i < above(page, floor) implies (#[trigger] page[i]).id
            > floor->0 by {
            if i > 0 {
                assert(t[i - 1] == page[i]);
            }
        }
    }
}

} // verus!
