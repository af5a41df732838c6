//! The mention inbox: what was said of the crow, until it has been seen.

use vstd::prelude::*;

use crate::sql::{bind_opt, bind_text, bound, push_param, text_or_null, Bound, SqlValue, Statement};
use crate::text::opt_text;

verus! {

pub const SCHEMA: &'static str = "
    create table if not exists mentions (
        id integer primary key autoincrement,
        message_id text not null unique,
        guild_id text,
        channel_id text not null,
        author_id text not null,
        author_name text not null,
        author_display_name text,
        content text not null,
        matched text not null,
        timestamp text not null,
        link text not null,
        seen integer not null default 0,
        created_at text not null default current_timestamp
    );

    create index if not exists idx_mentions_seen_id on mentions(seen, id);
";

pub const INSERT: &'static str = "
                    insert or ignore into mentions (
                        message_id,
                        guild_id,
                        channel_id,
                        author_id,
                        author_name,
                        author_display_name,
                        content,
                        matched,
                        timestamp,
                        link
                    ) values (?1, ?2, ?3, ?4, ?5, ?6, ?7, ?8, ?9, ?10)
                    ";

pub const LIST_HEAD: &'static str = "
                select
                    id, message_id, guild_id, channel_id, author_id, author_name,
                    author_display_name, content, matched, timestamp, link, seen
                from mentions
                where ";

pub const LIST_TAIL: &'static str = "
                order by id desc
                limit ?1
                ";

pub const MARK_ONE: &'static str = "update mentions set seen = 1 where id = ?1 and seen = 0";

pub const MARK_ALL: &'static str = "update mentions set seen = 1 where seen = 0";

/// The store of mentions, at a path.
pub struct MentionStore {
    pub path: String,
}

/// A mention to keep.
pub struct NewMention {
    pub message_id: String,
    pub guild_id: Option<String>,
    pub channel_id: String,
    pub author_id: String,
    pub author_name: String,
    pub author_display_name: Option<String>,
    pub content: String,
    pub matched: String,
    pub timestamp: String,
    pub link: String,
}

/// A mention read back.
pub struct MentionInfo {
    pub id: i64,
    pub message_id: String,
    pub guild_id: Option<String>,
    pub channel_id: String,
    pub author_id: String,
    pub author_name: String,
    pub author_display_name: Option<String>,
    pub content: String,
    pub matched: String,
    pub timestamp: String,
    pub link: String,
    pub seen: bool,
}

/// What a mention binds.
pub open spec fn mention_params(m: NewMention) -> Seq<Bound> {
    seq![
        Bound::Text(m.message_id@),
        text_or_null(opt_text(m.guild_id)),
        Bound::Text(m.channel_id@),
        Bound::Text(m.author_id@),
        Bound::Text(m.author_name@),
        text_or_null(opt_text(m.author_display_name)),
        Bound::Text(m.content@),
        Bound::Text(m.matched@),
        Bound::Text(m.timestamp@),
        Bound::Text(m.link@),
    ]
}

/// What the inbox shows: the unseen, or everything.
pub open spec fn list_sql(include_seen: bool) -> Seq<char> {
    LIST_HEAD@ + (if include_seen {
        "1 = 1"@
    } else {
        "seen = 0"@
    }) + LIST_TAIL@
}

/// The statements mark the ids in order, one each.
pub open spec fn marks_each(ids: Seq<i64>, statements: Seq<Statement>) -> bool {
    &&& statements.len() == ids.len()
    &&& forall|i: int|
        0 <= i < ids.len() ==> (#[trigger] statements[i]).is(
            MARK_ONE@,
            seq![Bound::Integer(ids[i] as int)],
        )
}

/// The statements mark what was asked for: the ids, where there are some, or everything.
pub open spec fn marks(ids: Option<Vec<i64>>, statements: Seq<Statement>) -> bool {
    match ids {
        Some(ids) => marks_each(ids@, statements),
        None => statements.len() == 1 && statements[0].is(MARK_ALL@, seq![]),
    }
}

impl MentionStore {
    /// The inbox at a path.
    pub fn new(path: String) -> (r: Self)
        ensures
            r.path == path,
    {
        MentionStore { path }
    }

    /// The statement that keeps a mention; one of a message already kept changes nothing.
    pub fn insert(&self, mention: &NewMention) -> (r: Statement)
        ensures
            r.is(INSERT@, mention_params(*mention)),
    {
        let mut params: Vec<SqlValue> = Vec::new();
        assert(bound(params@) =~= seq![]);
        push_param(&mut params, bind_text(mention.message_id.as_str()));
        push_param(&mut params, bind_opt(&mention.guild_id));
        push_param(&mut params, bind_text(mention.channel_id.as_str()));
        push_param(&mut params, bind_text(mention.author_id.as_str()));
        push_param(&mut params, bind_text(mention.author_name.as_str()));
        push_param(&mut params, bind_opt(&mention.author_display_name));
        push_param(&mut params, bind_text(mention.content.as_str()));
        push_param(&mut params, bind_text(mention.matched.as_str()));
        push_param(&mut params, bind_text(mention.timestamp.as_str()));
        push_param(&mut params, bind_text(mention.link.as_str()));
        assert(bound(params@) =~= mention_params(*mention));
        Statement { sql: INSERT.to_owned(), params }
    }

    /// The statement that reads the inbox, newest first, at most `limit`.
    pub fn list(&self, include_seen: bool, limit: u8) -> (r: Statement)
        ensures
            r.is(list_sql(include_seen), seq![Bound::Integer(limit as int)]),
    {
        let mut sql = LIST_HEAD.to_owned();
        if include_seen {
            sql.append("1 = 1");
        } else {
            sql.append("seen = 0");
        }
        sql.append(LIST_TAIL);
        let mut params: Vec<SqlValue> = Vec::new();
        assert(bound(params@) =~= seq![]);
        push_param(&mut params, SqlValue::Integer(limit as i64));
        assert(bound(params@) =~= seq![Bound::Integer(limit as int)]);
        Statement { sql, params }
    }

    /// The statements that mark mentions as seen: those of the ids, one after the other, or
    /// all of them.
    pub fn mark_seen(&self, ids: &Option<Vec<i64>>) -> (r: Vec<Statement>)
        ensures
            marks(*ids, r@),
    {
        let mut r: Vec<Statement> = Vec::new();
        match ids {
            Some(ids) => {
                let mut i: usize = 0;
                while i < ids.len()
                    invariant
                        i <= ids@.len(),
                        r@.len() == i,
                        forall|j: int|
                            0 <= j < i ==> (#[trigger] r@[j]).is(
                                MARK_ONE@,
                                seq![Bound::Integer(ids@[j] as int)],
                            ),
                    decreases ids@.len() - i,
                {
                    let mut params: Vec<SqlValue> = Vec::new();
                    assert(bound(params@) =~= seq![]);
                    push_param(&mut params, SqlValue::Integer(ids[i]));
                    assert(bound(params@) =~= seq![Bound::Integer(ids@[i as int] as int)]);
                    r.push(Statement { sql: MARK_ONE.to_owned(), params });
                    i = i + 1;
                }
            },
            None => {
                let params: Vec<SqlValue> = Vec::new();
                assert(bound(params@) =~= seq![]);
                r.push(Statement { sql: MARK_ALL.to_owned(), params });
            },
        }
        r
    }
}

} // verus!
