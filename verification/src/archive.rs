//! The crow's long memory. Every message it hears is kept once, in flat columns to filter by
//! and as a payload to show from. A scan takes the filters the live sweep takes and resolves
//! them in one query.

use vstd::prelude::*;

use crate::discord::types::RenderedMessage;
use crate::numeral::{parse_i64, parsed_i64};
use crate::sql::{bind_opt, bind_text, bound, push_param, text_or_null, Bound, SqlValue, Statement};
use crate::text::{
    chars_of, decimal, expand, join, joined, opt_text, push_number, push_text, signed_decimal,
    signed_number, split_words, texts, words,
};

verus! {

/// The archive's tables, its full-text index, and the triggers that keep the two together.
pub const SCHEMA: &'static str = "
    create table if not exists messages (
        message_id integer primary key,
        guild_id text,
        channel_id text not null,
        author_id text not null,
        author_name text not null,
        content text not null,
        mention_ids text not null default '',
        timestamp text not null,
        payload text not null,
        created_at text not null default current_timestamp
    );

    create index if not exists idx_messages_channel on messages(channel_id, message_id);

    create virtual table if not exists msg_fts using fts5(content, content='messages', content_rowid='message_id');

    create trigger if not exists msg_fts_ai after insert on messages begin
        insert into msg_fts(rowid, content) values (new.message_id, new.content);
    end;
    create trigger if not exists msg_fts_ad after delete on messages begin
        insert into msg_fts(msg_fts, rowid, content) values ('delete', old.message_id, old.content);
    end;
    create trigger if not exists msg_fts_au after update on messages begin
        insert into msg_fts(msg_fts, rowid, content) values ('delete', old.message_id, old.content);
        insert into msg_fts(rowid, content) values (new.message_id, new.content);
    end;
";

pub const INSERT: &'static str = "
                    insert or ignore into messages (
                        message_id, guild_id, channel_id, author_id, author_name,
                        content, mention_ids, timestamp, payload
                    ) values (?1, ?2, ?3, ?4, ?5, ?6, ?7, ?8, ?9)
                    ";

pub const SEARCH_HEAD: &'static str = "
                    select m.message_id, m.guild_id, m.channel_id, m.author_id, m.author_name, m.content, m.timestamp
                    from msg_fts join messages m on m.message_id = msg_fts.rowid
                    where msg_fts match ?1";

pub const SEARCH_ORDER: &'static str = "
                    order by m.message_id desc
                    limit ?2
                    ";

pub const SCAN_ORDER: &'static str = " order by message_id desc limit ";

pub const FLOOR: &'static str = "select min(message_id) from messages where channel_id = ?1";

/// Why the archive would not take a request.
pub enum ArchiveError {
    NotASnowflake { id: String },
    EmptySearch,
}

impl ArchiveError {
    pub open spec fn text(self) -> Seq<char> {
        match self {
            ArchiveError::NotASnowflake { id } => "message id '"@ + id@ + "' is not a snowflake"@,
            ArchiveError::EmptySearch => "search query is empty"@,
        }
    }

    /// The error in words.
    pub fn message(&self) -> (r: String)
        ensures
            r@ == self.text(),
    {
        match self {
            ArchiveError::NotASnowflake { id } => {
                let mut s = "message id '".to_owned();
                s.append(id.as_str());
                s.append("' is not a snowflake");
                s
            },
            ArchiveError::EmptySearch => "search query is empty".to_owned(),
        }
    }
}

/// The store of messages, at a path.
pub struct MessageStore {
    pub path: String,
}

/// A message to keep.
pub struct NewMessage {
    pub rendered: RenderedMessage,
    pub guild_id: Option<String>,
    pub channel_id: String,
    pub mention_ids: Vec<String>,
}

/// A message found by its words.
pub struct MessageHit {
    pub message_id: String,
    pub guild_id: Option<String>,
    pub channel_id: String,
    pub author_id: String,
    pub author_name: String,
    pub content: String,
    pub timestamp: String,
}

/// What to look for in a channel.
pub struct ScanQuery {
    pub channel_id: String,
    pub author_ids: Vec<String>,
    pub mention_ids: Vec<String>,
    pub text: Option<String>,
    pub before: Option<i64>,
    pub after: Option<i64>,
    pub limit: u16,
}

impl Default for ScanQuery {
    fn default() -> (r: Self)
        ensures
            r.channel_id@.len() == 0,
            r.author_ids@.len() == 0,
            r.mention_ids@.len() == 0,
            r.text is None,
            r.before is None,
            r.after is None,
            r.limit == 0,
    {
        ScanQuery {
            channel_id: String::new(),
            author_ids: Vec::new(),
            mention_ids: Vec::new(),
            text: None,
            before: None,
            after: None,
            limit: 0,
        }
    }
}

/// What a scan found, and the oldest message the archive holds of the channel. Below that
/// floor the archive is blind.
pub struct ArchiveScan {
    pub matches: Vec<RenderedMessage>,
    pub floor: Option<i64>,
}

/// The ids with a space around each; nothing where there are none.
pub open spec fn haystack(ids: Seq<Seq<char>>) -> Seq<char> {
    if ids.len() == 0 {
        seq![]
    } else {
        " "@ + joined(ids, " "@) + " "@
    }
}

/// The ids with a space around each, so that a search for one cannot hit inside another.
pub fn mention_haystack(ids: &Vec<String>) -> (r: String)
    ensures
        r@ == haystack(texts(ids@)),
{
    if ids.len() == 0 {
        return String::new();
    }
    let mut s = " ".to_owned();
    s.append(join(ids, " ").as_str());
    s.append(" ");
    s
}

/// A character as a LIKE pattern with the escape `\` spells it.
pub open spec fn like_char(c: char) -> Seq<char> {
    if c == '\\' || c == '%' || c == '_' {
        seq!['\\', c]
    } else {
        seq![c]
    }
}

/// The pattern that finds a text anywhere.
pub open spec fn like_text(text: Seq<char>) -> Seq<char> {
    seq!['%'] + expand(text, |c: char| like_char(c)) + seq!['%']
}

/// The pattern that finds a text anywhere, its wildcards taken as they stand.
pub fn like_pattern(text: &str) -> (r: String)
    ensures
        r@ == like_text(text@),
{
    let v = chars_of(text);
    let mut s = String::new();
    s.push('%');
    let mut i: usize = 0;
    let ghost f = |c: char| like_char(c);
    assert(text@.take(0) =~= seq![]);
    assert(s@ =~= seq!['%'] + expand(text@.take(0), f));
    while i < v.len()
        invariant
            i <= v@.len(),
            v@ == text@,
            f == (|c: char| like_char(c)),
            s@ == seq!['%'] + expand(text@.take(i as int), f),
        decreases v@.len() - i,
    {
        let c = v[i];
        if c == '\\' || c == '%' || c == '_' {
            s.push('\\');
        }
        s.push(c);
        i = i + 1;
        proof {
            assert(text@.take(i as int).drop_last() =~= text@.take(i - 1));
            assert(s@ =~= seq!['%'] + expand(text@.take(i as int), f));
        }
    }
    assert(text@.take(i as int) =~= text@);
    s.push('%');
    assert(s@ =~= like_text(text@));
    s
}

/// A character inside a quoted full-text string.
pub open spec fn fts_char(c: char) -> Seq<char> {
    if c == '"' {
        seq!['"', '"']
    } else {
        seq![c]
    }
}

/// A word as a quoted prefix token.
pub open spec fn fts_token(word: Seq<char>) -> Seq<char> {
    seq!['"'] + expand(word, |c: char| fts_char(c)) + seq!['"', '*']
}

pub open spec fn fts_tokens(query: Seq<char>) -> Seq<Seq<char>> {
    words(query).map_values(|w: Seq<char>| fts_token(w))
}

fn quoted_token(word: &str) -> (r: String)
    ensures
        r@ == fts_token(word@),
{
    let v = chars_of(word);
    let mut s = String::new();
    s.push('"');
    let mut i: usize = 0;
    let ghost f = |c: char| fts_char(c);
    assert(word@.take(0) =~= seq![]);
    assert(s@ =~= seq!['"'] + expand(word@.take(0), f));
    while i < v.len()
        invariant
            i <= v@.len(),
            v@ == word@,
            f == (|c: char| fts_char(c)),
            s@ == seq!['"'] + expand(word@.take(i as int), f),
        decreases v@.len() - i,
    {
        let c = v[i];
        if c == '"' {
            s.push('"');
        }
        s.push(c);
        i = i + 1;
        proof {
            assert(word@.take(i as int).drop_last() =~= word@.take(i - 1));
            assert(s@ =~= seq!['"'] + expand(word@.take(i as int), f));
        }
    }
    assert(word@.take(i as int) =~= word@);
    s.push('"');
    s.push('*');
    assert(s@ =~= fts_token(word@));
    s
}

/// The full-text query for some words: each a quoted prefix token, all of which must match.
/// Operators and punctuation arrive quoted and mean nothing.
pub fn fts_query(query: &str) -> (r: Result<String, ArchiveError>)
    ensures
        r is Err <==> words(query@).len() == 0,
        r matches Err(e) ==> e is EmptySearch,
        r matches Ok(s) ==> s@ == joined(fts_tokens(query@), " "@),
{
    let tokens = split_words(query);
    assert(texts(tokens@).len() == tokens@.len());
    if tokens.len() == 0 {
        return Err(ArchiveError::EmptySearch);
    }
    let ghost all = fts_tokens(query@);
    let mut quoted: Vec<String> = Vec::new();
    let mut i: usize = 0;
    assert(texts(quoted@) =~= all.take(0));
    while i < tokens.len()
        invariant
            i <= tokens@.len(),
            texts(tokens@) == words(query@),
            all == fts_tokens(query@),
            texts(quoted@) == all.take(i as int),
        decreases tokens@.len() - i,
    {
        assert(texts(tokens@)[i as int] == tokens@[i as int]@);
        push_text(&mut quoted, quoted_token(tokens[i].as_str()));
        i = i + 1;
        assert(texts(quoted@) =~= all.take(i as int));
    }
    assert(all.take(i as int) =~= all);
    Ok(join(&quoted, " "))
}

/// A condition of a scan.
pub enum Clause {
    Before(int),
    After(int),
    Authors(Seq<Seq<char>>),
    Mentions(Seq<Seq<char>>),
    Text(Seq<char>),
}

/// A placeholder for the bound value of that number.
pub open spec fn placeholder(n: nat) -> Seq<char> {
    "?"@ + decimal(n)
}

/// So many placeholders, from the given number on.
pub open spec fn placeholders(start: nat, count: nat) -> Seq<Seq<char>> {
    Seq::new(count, |i: int| placeholder((start + i) as nat))
}

pub open spec fn mention_test(n: nat) -> Seq<char> {
    "mention_ids like '%' || "@ + placeholder(n) + " || '%'"@
}

pub open spec fn mention_tests(start: nat, count: nat) -> Seq<Seq<char>> {
    Seq::new(count, |i: int| mention_test((start + i) as nat))
}

/// A condition's text, where its first bound value has the number `n`.
pub open spec fn clause_sql(c: Clause, n: nat) -> Seq<char> {
    match c {
        Clause::Before(_) => " and message_id < "@ + placeholder(n),
        Clause::After(_) => " and message_id > "@ + placeholder(n),
        Clause::Authors(ids) => " and author_id in ("@ + joined(placeholders(n, ids.len()), ", "@)
            + ")"@,
        Clause::Mentions(ids) => " and ("@ + joined(mention_tests(n, ids.len()), " or "@) + ")"@,
        Clause::Text(_) => " and content like "@ + placeholder(n) + " escape '\\'"@,
    }
}

/// What a condition binds.
pub open spec fn clause_params(c: Clause) -> Seq<Bound> {
    match c {
        Clause::Before(id) => seq![Bound::Integer(id)],
        Clause::After(id) => seq![Bound::Integer(id)],
        Clause::Authors(ids) => ids.map_values(|id: Seq<char>| Bound::Text(id)),
        Clause::Mentions(ids) => ids.map_values(|id: Seq<char>| Bound::Text(" "@ + id + " "@)),
        Clause::Text(text) => seq![Bound::Text(like_text(text))],
    }
}

pub open spec fn opt_clause(present: bool, c: Clause) -> Seq<Clause> {
    if present {
        seq![c]
    } else {
        seq![]
    }
}

/// A scan's conditions, besides the channel.
pub open spec fn clauses(q: ScanQuery) -> Seq<Clause> {
    opt_clause(q.before is Some, Clause::Before(q.before->0 as int)) + opt_clause(
        q.after is Some,
        Clause::After(q.after->0 as int),
    ) + opt_clause(q.author_ids@.len() > 0, Clause::Authors(texts(q.author_ids@))) + opt_clause(
        q.mention_ids@.len() > 0,
        Clause::Mentions(texts(q.mention_ids@)),
    ) + opt_clause(q.text is Some, Clause::Text(q.text->0@))
}

/// The bound values of a channel's conditions.
pub open spec fn where_params(channel: Seq<char>, cs: Seq<Clause>) -> Seq<Bound>
    decreases cs.len(),
{
    if cs.len() == 0 {
        seq![Bound::Text(channel)]
    } else {
        where_params(channel, cs.drop_last()) + clause_params(cs.last())
    }
}

/// The text of a channel's conditions, each numbered on from the one before.
pub open spec fn where_sql(channel: Seq<char>, cs: Seq<Clause>) -> Seq<char>
    decreases cs.len(),
{
    if cs.len() == 0 {
        "select payload from messages where channel_id = ?1"@
    } else {
        where_sql(channel, cs.drop_last()) + clause_sql(
            cs.last(),
            where_params(channel, cs.drop_last()).len() + 1,
        )
    }
}

/// The whole text of a scan.
pub open spec fn scan_sql(q: ScanQuery) -> Seq<char> {
    let cs = clauses(q);
    where_sql(q.channel_id@, cs) + SCAN_ORDER@ + placeholder(
        where_params(q.channel_id@, cs).len() + 1,
    )
}

/// All that a scan binds.
pub open spec fn scan_params(q: ScanQuery) -> Seq<Bound> {
    where_params(q.channel_id@, clauses(q)).push(Bound::Integer(q.limit as int))
}

fn append_placeholder(sql: &mut String, n: usize)
    ensures
        final(sql)@ == old(sql)@ + placeholder(n as nat),
{
    sql.append("?");
    push_number(sql, n as u64);
    assert(sql@ =~= old(sql)@ + placeholder(n as nat));
}

fn scan_authors(sql: &mut String, params: &mut Vec<SqlValue>, ids: &Vec<String>)
    requires
        old(params)@.len() + ids@.len() < usize::MAX,
    ensures
        final(sql)@ == old(sql)@ + clause_sql(
            Clause::Authors(texts(ids@)),
            old(params)@.len() + 1,
        ),
        bound(final(params)@) == bound(old(params)@) + clause_params(Clause::Authors(texts(ids@))),
        final(params)@.len() == old(params)@.len() + ids@.len(),
{
    let start: usize = params.len() + 1;
    let ghost before = bound(params@);
    let ghost wanted = clause_params(Clause::Authors(texts(ids@)));
    let ghost marks = placeholders(start as nat, ids@.len());
    let mut names: Vec<String> = Vec::new();
    let mut i: usize = 0;
    assert(texts(names@) =~= marks.take(0));
    assert(bound(params@) =~= before + wanted.take(0));
    while i < ids.len()
        invariant
            i <= ids@.len(),
            start == old(params)@.len() + 1,
            start + ids@.len() <= usize::MAX,
            params@.len() == old(params)@.len() + i,
            wanted == clause_params(Clause::Authors(texts(ids@))),
            marks == placeholders(start as nat, ids@.len()),
            before == bound(old(params)@),
            bound(params@) == before + wanted.take(i as int),
            texts(names@) == marks.take(i as int),
        decreases ids@.len() - i,
    {
        push_param(params, bind_text(ids[i].as_str()));
        let mut name = String::new();
        append_placeholder(&mut name, start + i);
        assert(name@ =~= placeholder((start + i) as nat));
        push_text(&mut names, name);
        i = i + 1;
        assert(wanted[i - 1] == Bound::Text(ids@[i - 1]@));
        assert(bound(params@) =~= before + wanted.take(i as int));
        assert(texts(names@) =~= marks.take(i as int));
    }
    assert(wanted.take(i as int) =~= wanted);
    assert(marks.take(i as int) =~= marks);
    sql.append(" and author_id in (");
    sql.append(join(&names, ", ").as_str());
    sql.append(")");
    assert(texts(ids@).len() == ids@.len());
    assert(sql@ =~= old(sql)@ + clause_sql(Clause::Authors(texts(ids@)), start as nat));
}

fn scan_mentions(sql: &mut String, params: &mut Vec<SqlValue>, ids: &Vec<String>)
    requires
        old(params)@.len() + ids@.len() < usize::MAX,
    ensures
        final(sql)@ == old(sql)@ + clause_sql(
            Clause::Mentions(texts(ids@)),
            old(params)@.len() + 1,
        ),
        bound(final(params)@) == bound(old(params)@) + clause_params(Clause::Mentions(texts(ids@))),
        final(params)@.len() == old(params)@.len() + ids@.len(),
{
    let ghost start = old(params)@.len() + 1;
    let ghost before = bound(params@);
    let ghost wanted = clause_params(Clause::Mentions(texts(ids@)));
    let ghost tests = mention_tests(start, ids@.len());
    let mut ors: Vec<String> = Vec::new();
    let mut i: usize = 0;
    assert(texts(ors@) =~= tests.take(0));
    assert(bound(params@) =~= before + wanted.take(0));
    while i < ids.len()
        invariant
            i <= ids@.len(),
            start == old(params)@.len() + 1,
            start + ids@.len() <= usize::MAX,
            params@.len() == old(params)@.len() + i,
            wanted == clause_params(Clause::Mentions(texts(ids@))),
            tests == mention_tests(start, ids@.len()),
            before == bound(old(params)@),
            bound(params@) == before + wanted.take(i as int),
            texts(ors@) == tests.take(i as int),
        decreases ids@.len() - i,
    {
        let mut spaced = " ".to_owned();
        spaced.append(ids[i].as_str());
        spaced.append(" ");
        push_param(params, bind_text(spaced.as_str()));
        let mut test = "mention_ids like '%' || ".to_owned();
        append_placeholder(&mut test, params.len());
        test.append(" || '%'");
        assert(test@ =~= mention_test((start + i) as nat));
        push_text(&mut ors, test);
        i = i + 1;
        assert(wanted[i - 1] == Bound::Text(" "@ + ids@[i - 1]@ + " "@));
        assert(bound(params@) =~= before + wanted.take(i as int));
        assert(texts(ors@) =~= tests.take(i as int));
    }
    assert(wanted.take(i as int) =~= wanted);
    assert(tests.take(i as int) =~= tests);
    sql.append(" and (");
    sql.append(join(&ors, " or ").as_str());
    sql.append(")");
    assert(texts(ids@).len() == ids@.len());
    assert(sql@ =~= old(sql)@ + clause_sql(Clause::Mentions(texts(ids@)), start));
}

fn scan_one(sql: &mut String, params: &mut Vec<SqlValue>, head: &str, value: SqlValue, tail: &str)
    requires
        old(params)@.len() < usize::MAX,
    ensures
        final(sql)@ == old(sql)@ + (head@ + placeholder(old(params)@.len() + 1) + tail@),
        bound(final(params)@) == bound(old(params)@) + seq![value@],
        final(params)@.len() == old(params)@.len() + 1,
{
    push_param(params, value);
    sql.append(head);
    append_placeholder(sql, params.len());
    sql.append(tail);
    assert(sql@ =~= old(sql)@ + (head@ + placeholder(old(params)@.len() + 1) + tail@));
    assert(bound(params@) =~= bound(old(params)@) + seq![value@]);
}

proof fn lemma_where_step(channel: Seq<char>, cs: Seq<Clause>, c: Clause)
    ensures
        where_sql(channel, cs.push(c)) == where_sql(channel, cs) + clause_sql(
            c,
            where_params(channel, cs).len() + 1,
        ),
        where_params(channel, cs.push(c)) == where_params(channel, cs) + clause_params(c),
{
    assert(cs.push(c).drop_last() =~= cs);
}

/// The whole text of a search.
pub open spec fn search_sql() -> Seq<char> {
    SEARCH_HEAD@ + SEARCH_ORDER@
}

/// What `insert` binds for a message under a number.
pub open spec fn insert_params(id: int, m: NewMessage, payload: Seq<char>) -> Seq<Bound> {
    seq![
        Bound::Integer(id),
        text_or_null(opt_text(m.guild_id)),
        Bound::Text(m.channel_id@),
        Bound::Text(m.rendered.author_id@),
        Bound::Text(m.rendered.author_name@),
        Bound::Text(m.rendered.content@),
        Bound::Text(haystack(texts(m.mention_ids@))),
        Bound::Text(m.rendered.timestamp@),
        Bound::Text(payload),
    ]
}

impl MessageStore {
    /// The archive at a path.
    pub fn new(path: String) -> (r: Self)
        ensures
            r.path == path,
    {
        MessageStore { path }
    }

    /// The statement that keeps a message, with the payload it is shown from. A message
    /// already kept is left as it was. Its id must be a number.
    pub fn insert(&self, message: &NewMessage, payload: &str) -> (r: Result<Statement, ArchiveError>)
        ensures
            match parsed_i64(message.rendered.id@) {
                Some(id) => r matches Ok(s) && s.is(
                    INSERT@,
                    insert_params(id as int, *message, payload@),
                ),
                None => r matches Err(ArchiveError::NotASnowflake { id }) && id@
                    == message.rendered.id@,
            },
    {
        match parse_i64(message.rendered.id.as_str()) {
            Some(snowflake) => {
                let mut params: Vec<SqlValue> = Vec::new();
                assert(bound(params@) =~= seq![]);
                push_param(&mut params, SqlValue::Integer(snowflake));
                push_param(&mut params, bind_opt(&message.guild_id));
                push_param(&mut params, bind_text(message.channel_id.as_str()));
                push_param(&mut params, bind_text(message.rendered.author_id.as_str()));
                push_param(&mut params, bind_text(message.rendered.author_name.as_str()));
                push_param(&mut params, bind_text(message.rendered.content.as_str()));
                push_param(
                    &mut params,
                    bind_text(mention_haystack(&message.mention_ids).as_str()),
                );
                push_param(&mut params, bind_text(message.rendered.timestamp.as_str()));
                push_param(&mut params, bind_text(payload));
                assert(bound(params@) =~= insert_params(snowflake as int, *message, payload@));
                Ok(Statement { sql: INSERT.to_owned(), params })
            },
            None => Err(ArchiveError::NotASnowflake { id: message.rendered.id.clone() }),
        }
    }

    /// The statement that finds messages by their words, newest first, at most `limit`.
    pub fn search(&self, query: &str, limit: u8) -> (r: Result<Statement, ArchiveError>)
        ensures
            r is Err <==> words(query@).len() == 0,
            r matches Err(e) ==> e is EmptySearch,
            r matches Ok(s) ==> s.is(
                search_sql(),
                seq![Bound::Text(joined(fts_tokens(query@), " "@)), Bound::Integer(limit as int)],
            ),
    {
        match fts_query(query) {
            Ok(matching) => {
                let mut params: Vec<SqlValue> = Vec::new();
                assert(bound(params@) =~= seq![]);
                push_param(&mut params, SqlValue::Text(matching));
                push_param(&mut params, SqlValue::Integer(limit as i64));
                assert(bound(params@) =~= seq![
                    Bound::Text(joined(fts_tokens(query@), " "@)),
                    Bound::Integer(limit as int),
                ]);
                let mut sql = SEARCH_HEAD.to_owned();
                sql.append(SEARCH_ORDER);
                Ok(Statement { sql, params })
            },
            Err(e) => Err(e),
        }
    }

    /// The statement that finds a channel's messages by the filters given, newest first, at
    /// most `limit`.
    pub fn scan(&self, query: &ScanQuery) -> (r: Statement)
        requires
            query.author_ids@.len() + query.mention_ids@.len() + 5 < usize::MAX,
        ensures
            r.is(scan_sql(*query), scan_params(*query)),
    {
        let ghost channel = query.channel_id@;
        let mut sql = "select payload from messages where channel_id = ?1".to_owned();
        let mut params: Vec<SqlValue> = Vec::new();
        assert(bound(params@) =~= seq![]);
        push_param(&mut params, bind_text(query.channel_id.as_str()));
        let ghost mut cs: Seq<Clause> = seq![];
        assert(bound(params@) =~= where_params(channel, cs));
        assert(sql@ =~= where_sql(channel, cs));
        if let Some(before) = query.before {
            scan_one(&mut sql, &mut params, " and message_id < ", SqlValue::Integer(before), "");
            proof {
                let c = Clause::Before(before as int);
                lemma_where_step(channel, cs, c);
                reveal_strlit("");
                assert(" and message_id < "@ + placeholder(where_params(channel, cs).len() + 1) + ""@
                    =~= clause_sql(c, where_params(channel, cs).len() + 1));
                cs = cs.push(c);
            }
        }
        if let Some(after) = query.after {
            scan_one(&mut sql, &mut params, " and message_id > ", SqlValue::Integer(after), "");
            proof {
                let c = Clause::After(after as int);
                lemma_where_step(channel, cs, c);
                reveal_strlit("");
                assert(" and message_id > "@ + placeholder(where_params(channel, cs).len() + 1) + ""@
                    =~= clause_sql(c, where_params(channel, cs).len() + 1));
                cs = cs.push(c);
            }
        }
        if query.author_ids.len() > 0 {
            scan_authors(&mut sql, &mut params, &query.author_ids);
            proof {
                let c = Clause::Authors(texts(query.author_ids@));
                lemma_where_step(channel, cs, c);
                cs = cs.push(c);
            }
        }
        if query.mention_ids.len() > 0 {
            scan_mentions(&mut sql, &mut params, &query.mention_ids);
            proof {
                let c = Clause::Mentions(texts(query.mention_ids@));
                lemma_where_step(channel, cs, c);
                cs = cs.push(c);
            }
        }
        if let Some(text) = &query.text {
            scan_one(
                &mut sql,
                &mut params,
                " and content like ",
                SqlValue::Text(like_pattern(text.as_str())),
                " escape '\\'",
            );
            proof {
                let c = Clause::Text(text@);
                lemma_where_step(channel, cs, c);
                cs = cs.push(c);
            }
        }
        assert(cs =~= clauses(*query));
        push_param(&mut params, SqlValue::Integer(query.limit as i64));
        sql.append(SCAN_ORDER);
        append_placeholder(&mut sql, params.len());
        Statement { sql, params }
    }

    /// The statement that finds the oldest message kept of a channel, whatever the filters.
    pub fn floor(&self, channel_id: &str) -> (r: Statement)
        ensures
            r.is(FLOOR@, seq![Bound::Text(channel_id@)]),
    {
        let mut params: Vec<SqlValue> = Vec::new();
        assert(bound(params@) =~= seq![]);
        push_param(&mut params, bind_text(channel_id));
        assert(bound(params@) =~= seq![Bound::Text(channel_id@)]);
        Statement { sql: FLOOR.to_owned(), params }
    }
}

impl MessageHit {
    /// A message found, from the row that the search gives.
    pub fn from_row(
        message_id: i64,
        guild_id: Option<String>,
        channel_id: String,
        author_id: String,
        author_name: String,
        content: String,
        timestamp: String,
    ) -> (r: Self)
        ensures
            r.message_id@ == signed_decimal(message_id as int),
            r.guild_id == guild_id,
            r.channel_id == channel_id,
            r.author_id == author_id,
            r.author_name == author_name,
            r.content == content,
            r.timestamp == timestamp,
    {
        MessageHit {
            message_id: signed_number(message_id),
            guild_id,
            channel_id,
            author_id,
            author_name,
            content,
            timestamp,
        }
    }
}

} // verus!
