//! The moderation ledger: who did what to whom, who wrote it down, and what undid it.

use vstd::prelude::*;

use crate::sql::{bind_opt, bind_text, bound, push_param, text_or_null, Bound, SqlValue, Statement};
use crate::text::{
    clone_opt, decimal, join, joined, number, opt_text, push_text, same, signed_decimal, signed_number,
    texts,
};

verus! {

pub const SCHEMA: &'static str = "
    create table if not exists modlog (
        id integer primary key autoincrement,
        action text not null,
        source text not null,
        guild_id text not null,
        target_id text,
        target_name text,
        channel_id text,
        executor_id text,
        executor_name text,
        reason text,
        intent text,
        metadata text,
        expires_at text,
        reverted_by integer,
        created_at text not null default current_timestamp
    );

    create index if not exists idx_modlog_target on modlog(target_id, id);
    create index if not exists idx_modlog_executor on modlog(executor_id, id);
    create index if not exists idx_modlog_pending_expiry on modlog(expires_at)
        where expires_at is not null and reverted_by is null;
";

pub const RECORD: &'static str = "
                insert into modlog (
                    action, source, guild_id, target_id, target_name, channel_id,
                    executor_id, executor_name, reason, intent, metadata, expires_at
                ) values (?1, ?2, ?3, ?4, ?5, ?6, ?7, ?8, ?9, ?10, ?11, ?12)
                ";

pub const LOOK_UP: &'static str =
    "select action, reverted_by, target_id, target_name from modlog where id = ?1";

pub const MARK_REVERTED: &'static str = "update modlog set reverted_by = ?1 where id = ?2";

pub const LATEST_UNREVERTED: &'static str =
    "select id from modlog where action = ?1 and target_id = ?2 and reverted_by is null order by id desc limit 1";

pub const COUNT_ACTIVE: &'static str =
    "select count(*) from modlog where action = ?1 and target_id = ?2 and reverted_by is null";

pub const PENDING_EXPIRIES: &'static str = "
                    select
                        id, action, source, guild_id, target_id, target_name, channel_id,
                        executor_id, executor_name, reason, intent, metadata, expires_at,
                        reverted_by, created_at
                    from modlog
                    where expires_at is not null and reverted_by is null
                      and action = 'ban' and source = 'crow'
                    ";

pub const QUERY_HEAD: &'static str = "
                select
                    id, action, source, guild_id, target_id, target_name, channel_id,
                    executor_id, executor_name, reason, intent, metadata, expires_at,
                    reverted_by, created_at
                from modlog
                where ";

pub const QUERY_ORDER: &'static str = "
                order by id desc
                limit ";

pub const QUERY_END: &'static str = "
                ";

/// Where the ledger's writes are shown: one channel, in the crow's own voice.
#[derive(Clone, Copy)]
pub struct Notifier {
    pub channel: u64,
}

/// The store of moderation rows, at a path.
pub struct ModlogStore {
    pub path: String,
    pub notifier: Option<Notifier>,
}

/// Who wrote a row: the watcher, of what somebody else did, or one of our own hands.
#[derive(Clone, Copy, Debug, PartialEq, Eq, Structural)]
pub enum Source {
    Observed,
    Crow,
}

impl Source {
    pub open spec fn name(self) -> Seq<char> {
        match self {
            Source::Observed => "observed"@,
            Source::Crow => "crow"@,
        }
    }

    /// The source as the ledger spells it.
    pub fn as_str(self) -> (r: &'static str)
        ensures
            r@ == self.name(),
    {
        match self {
            Source::Observed => "observed",
            Source::Crow => "crow",
        }
    }
}

/// A row to write.
pub struct NewModAction {
    pub action: String,
    pub guild_id: String,
    pub target_id: Option<String>,
    pub target_name: Option<String>,
    pub channel_id: Option<String>,
    pub executor_id: Option<String>,
    pub executor_name: Option<String>,
    pub reason: Option<String>,
    pub intent: Option<String>,
    pub metadata: Option<String>,
    pub expires_at: Option<String>,
}

impl Default for NewModAction {
    fn default() -> (r: Self)
        ensures
            r.action@.len() == 0,
            r.guild_id@.len() == 0,
            r.target_id is None,
            r.target_name is None,
            r.channel_id is None,
            r.executor_id is None,
            r.executor_name is None,
            r.reason is None,
            r.intent is None,
            r.metadata is None,
            r.expires_at is None,
    {
        NewModAction {
            action: String::new(),
            guild_id: String::new(),
            target_id: None,
            target_name: None,
            channel_id: None,
            executor_id: None,
            executor_name: None,
            reason: None,
            intent: None,
            metadata: None,
            expires_at: None,
        }
    }
}

impl Clone for NewModAction {
    fn clone(&self) -> (r: Self)
        ensures
            r == *self,
    {
        NewModAction {
            action: self.action.clone(),
            guild_id: self.guild_id.clone(),
            target_id: clone_opt(&self.target_id),
            target_name: clone_opt(&self.target_name),
            channel_id: clone_opt(&self.channel_id),
            executor_id: clone_opt(&self.executor_id),
            executor_name: clone_opt(&self.executor_name),
            reason: clone_opt(&self.reason),
            intent: clone_opt(&self.intent),
            metadata: clone_opt(&self.metadata),
            expires_at: clone_opt(&self.expires_at),
        }
    }
}

/// A row read back.
pub struct ModAction {
    pub id: i64,
    pub action: String,
    pub source: String,
    pub guild_id: String,
    pub target_id: Option<String>,
    pub target_name: Option<String>,
    pub channel_id: Option<String>,
    pub executor_id: Option<String>,
    pub executor_name: Option<String>,
    pub reason: Option<String>,
    pub intent: Option<String>,
    pub metadata: Option<String>,
    pub expires_at: Option<String>,
    pub reverted_by: Option<i64>,
    pub created_at: String,
}

/// Which rows to read.
pub struct ModlogFilter {
    pub target_id: Option<String>,
    pub executor_id: Option<String>,
    pub action: Option<String>,
    pub source: Option<String>,
    pub channel_id: Option<String>,
    pub since: Option<String>,
    pub until: Option<String>,
}

impl Default for ModlogFilter {
    fn default() -> (r: Self)
        ensures
            r.target_id is None,
            r.executor_id is None,
            r.action is None,
            r.source is None,
            r.channel_id is None,
            r.since is None,
            r.until is None,
    {
        ModlogFilter {
            target_id: None,
            executor_id: None,
            action: None,
            source: None,
            channel_id: None,
            since: None,
            until: None,
        }
    }
}

/// What a revert reads of the row it would undo.
pub struct Original {
    pub action: String,
    pub reverted_by: Option<i64>,
    pub target_id: Option<String>,
    pub target_name: Option<String>,
}

/// Why a row is not undone.
pub enum RevertError {
    Missing { id: i64 },
    WrongKind { id: i64, found: String, expected: String },
    AlreadyReverted { id: i64, by: i64 },
}

impl RevertError {
    pub open spec fn text(self) -> Seq<char> {
        match self {
            RevertError::Missing { id } => "ledger row "@ + signed_decimal(id as int)
                + " does not exist"@,
            RevertError::WrongKind { id, found, expected } => "ledger row "@ + signed_decimal(id as int)
                + " is a '"@ + found@ + "', not a '"@ + expected@ + "'"@,
            RevertError::AlreadyReverted { id, by } => "ledger row "@ + signed_decimal(id as int)
                + " was already reverted by row "@ + signed_decimal(by as int),
        }
    }

    /// The refusal in words.
    pub fn message(&self) -> (r: String)
        ensures
            r@ == self.text(),
    {
        let mut s = "ledger row ".to_owned();
        match self {
            RevertError::Missing { id } => {
                s.append(signed_number(*id).as_str());
                s.append(" does not exist");
            },
            RevertError::WrongKind { id, found, expected } => {
                s.append(signed_number(*id).as_str());
                s.append(" is a '");
                s.append(found.as_str());
                s.append("', not a '");
                s.append(expected.as_str());
                s.append("'");
            },
            RevertError::AlreadyReverted { id, by } => {
                s.append(signed_number(*id).as_str());
                s.append(" was already reverted by row ");
                s.append(signed_number(*by).as_str());
            },
        }
        s
    }
}

/// How a revert ends, by what it finds.
pub enum Verdict {
    Missing,
    WrongKind,
    AlreadyReverted(int),
    Undo,
}

/// A row is undone where it exists, is of the expected kind and nothing has undone it.
pub open spec fn verdict(found: Option<Original>, expected: Seq<char>) -> Verdict {
    match found {
        None => Verdict::Missing,
        Some(original) => if original.action@ != expected {
            Verdict::WrongKind
        } else {
            match original.reverted_by {
                Some(by) => Verdict::AlreadyReverted(by as int),
                None => Verdict::Undo,
            }
        },
    }
}

pub open spec fn first_of(a: Option<String>, b: Option<String>) -> Option<String> {
    if a is Some {
        a
    } else {
        b
    }
}

/// The undoing row, whose target is the undone row's where it names none itself.
pub open spec fn inherits(action: NewModAction, original: Original) -> NewModAction {
    NewModAction {
        target_id: first_of(action.target_id, original.target_id),
        target_name: first_of(action.target_name, original.target_name),
        ..action
    }
}

/// What a row binds.
pub open spec fn row_params(source: Source, row: NewModAction) -> Seq<Bound> {
    seq![
        Bound::Text(row.action@),
        Bound::Text(source.name()),
        Bound::Text(row.guild_id@),
        text_or_null(opt_text(row.target_id)),
        text_or_null(opt_text(row.target_name)),
        text_or_null(opt_text(row.channel_id)),
        text_or_null(opt_text(row.executor_id)),
        text_or_null(opt_text(row.executor_name)),
        text_or_null(opt_text(row.reason)),
        text_or_null(opt_text(row.intent)),
        text_or_null(opt_text(row.metadata)),
        text_or_null(opt_text(row.expires_at)),
    ]
}

/// A condition and its value, where the filter has one.
pub open spec fn condition(sql: Seq<char>, value: Option<String>) -> Seq<(Seq<char>, Seq<char>)> {
    match value {
        Some(value) => seq![(sql, value@)],
        None => seq![],
    }
}

/// A filter's conditions, in order, each with its value.
pub open spec fn conditions(f: ModlogFilter) -> Seq<(Seq<char>, Seq<char>)> {
    condition("target_id = ?"@, f.target_id) + condition("executor_id = ?"@, f.executor_id) + condition(
        "action = ?"@,
        f.action,
    ) + condition("source = ?"@, f.source) + condition("channel_id = ?"@, f.channel_id) + condition(
        "created_at >= ?"@,
        f.since,
    ) + condition("created_at <= ?"@, f.until)
}

pub open spec fn condition_texts(c: Seq<(Seq<char>, Seq<char>)>) -> Seq<Seq<char>> {
    c.map_values(|p: (Seq<char>, Seq<char>)| p.0)
}

pub open spec fn condition_values(c: Seq<(Seq<char>, Seq<char>)>) -> Seq<Bound> {
    c.map_values(|p: (Seq<char>, Seq<char>)| Bound::Text(p.1))
}

pub open spec fn filter_text(f: ModlogFilter) -> Seq<char> {
    if conditions(f).len() == 0 {
        "1 = 1"@
    } else {
        joined(condition_texts(conditions(f)), " and "@)
    }
}

pub open spec fn query_sql(f: ModlogFilter, limit: u8) -> Seq<char> {
    QUERY_HEAD@ + filter_text(f) + QUERY_ORDER@ + decimal(limit as nat) + QUERY_END@
}

fn add_condition(
    parts: &mut Vec<String>,
    values: &mut Vec<SqlValue>,
    sql: &str,
    value: &Option<String>,
    Ghost(before): Ghost<Seq<(Seq<char>, Seq<char>)>>,
)
    requires
        texts(old(parts)@) == condition_texts(before),
        bound(old(values)@) == condition_values(before),
    ensures
        texts(final(parts)@) == condition_texts(before + condition(sql@, *value)),
        bound(final(values)@) == condition_values(before + condition(sql@, *value)),
{
    if let Some(value) = value {
        push_text(parts, sql.to_owned());
        push_param(values, bind_text(value.as_str()));
    }
    assert(texts(parts@) =~= condition_texts(before + condition(sql@, *value)));
    assert(bound(values@) =~= condition_values(before + condition(sql@, *value)));
}

fn row_statement(source: Source, row: &NewModAction) -> (r: Statement)
    ensures
        r.is(RECORD@, row_params(source, *row)),
{
    let mut params: Vec<SqlValue> = Vec::new();
    assert(bound(params@) =~= seq![]);
    push_param(&mut params, bind_text(row.action.as_str()));
    push_param(&mut params, bind_text(source.as_str()));
    push_param(&mut params, bind_text(row.guild_id.as_str()));
    push_param(&mut params, bind_opt(&row.target_id));
    push_param(&mut params, bind_opt(&row.target_name));
    push_param(&mut params, bind_opt(&row.channel_id));
    push_param(&mut params, bind_opt(&row.executor_id));
    push_param(&mut params, bind_opt(&row.executor_name));
    push_param(&mut params, bind_opt(&row.reason));
    push_param(&mut params, bind_opt(&row.intent));
    push_param(&mut params, bind_opt(&row.metadata));
    push_param(&mut params, bind_opt(&row.expires_at));
    assert(bound(params@) =~= row_params(source, *row));
    Statement { sql: RECORD.to_owned(), params }
}

fn two_texts(sql: &str, a: &str, b: &str) -> (r: Statement)
    ensures
        r.is(sql@, seq![Bound::Text(a@), Bound::Text(b@)]),
{
    let mut params: Vec<SqlValue> = Vec::new();
    assert(bound(params@) =~= seq![]);
    push_param(&mut params, bind_text(a));
    push_param(&mut params, bind_text(b));
    assert(bound(params@) =~= seq![Bound::Text(a@), Bound::Text(b@)]);
    Statement { sql: sql.to_owned(), params }
}

fn or_else(a: Option<String>, b: Option<String>) -> (r: Option<String>)
    ensures
        r == first_of(a, b),
{
    match a {
        Some(a) => Some(a),
        None => b,
    }
}

impl ModlogStore {
    /// The ledger at a path, with nobody to tell.
    pub fn new(path: String) -> (r: Self)
        ensures
            r.path == path,
            r.notifier is None,
    {
        ModlogStore { path, notifier: None }
    }

    /// The same ledger, with somebody to tell or nobody.
    pub fn with_notifier(self, notifier: Option<Notifier>) -> (r: Self)
        ensures
            r.path == self.path,
            r.notifier == notifier,
    {
        ModlogStore { path: self.path, notifier }
    }

    /// The statement that writes a row.
    pub fn record(&self, source: Source, action: &NewModAction) -> (r: Statement)
        ensures
            r.is(RECORD@, row_params(source, *action)),
    {
        row_statement(source, action)
    }

    /// The statement that reads what a revert must know of a row.
    pub fn look_up(&self, original_id: i64) -> (r: Statement)
        ensures
            r.is(LOOK_UP@, seq![Bound::Integer(original_id as int)]),
    {
        let mut params: Vec<SqlValue> = Vec::new();
        assert(bound(params@) =~= seq![]);
        push_param(&mut params, SqlValue::Integer(original_id));
        assert(bound(params@) =~= seq![Bound::Integer(original_id as int)]);
        Statement { sql: LOOK_UP.to_owned(), params }
    }

    /// Undoes a row, given what was found of it: the undoing row, its target filled in, and
    /// the statement that writes it. What is missing, of another kind, or already undone is
    /// refused, in that order.
    pub fn revert(
        &self,
        original_id: i64,
        expected_action: &str,
        source: Source,
        action: NewModAction,
        found: Option<Original>,
    ) -> (r: Result<(Statement, NewModAction), RevertError>)
        ensures
            match verdict(found, expected_action@) {
                Verdict::Missing => r matches Err(RevertError::Missing { id }) && id == original_id,
                Verdict::WrongKind => r matches Err(RevertError::WrongKind { id, found: f, expected })
                    && id == original_id && f == found->0.action && expected@ == expected_action@,
                Verdict::AlreadyReverted(row) => r matches Err(
                    RevertError::AlreadyReverted { id, by },
                ) && id == original_id && by == row,
                Verdict::Undo => r matches Ok((s, filled)) && filled == inherits(action, found->0)
                    && s.is(RECORD@, row_params(source, filled)),
            },
    {
        match found {
            None => Err(RevertError::Missing { id: original_id }),
            Some(original) => {
                if !same(original.action.as_str(), expected_action) {
                    return Err(
                        RevertError::WrongKind {
                            id: original_id,
                            found: original.action,
                            expected: expected_action.to_owned(),
                        },
                    );
                }
                if let Some(by) = original.reverted_by {
                    return Err(RevertError::AlreadyReverted { id: original_id, by });
                }
                let filled = NewModAction {
                    action: action.action,
                    guild_id: action.guild_id,
                    target_id: or_else(action.target_id, original.target_id),
                    target_name: or_else(action.target_name, original.target_name),
                    channel_id: action.channel_id,
                    executor_id: action.executor_id,
                    executor_name: action.executor_name,
                    reason: action.reason,
                    intent: action.intent,
                    metadata: action.metadata,
                    expires_at: action.expires_at,
                };
                let statement = row_statement(source, &filled);
                Ok((statement, filled))
            },
        }
    }

    /// The statement that marks a row as undone by another.
    pub fn mark_reverted(&self, reversal_id: i64, original_id: i64) -> (r: Statement)
        ensures
            r.is(
                MARK_REVERTED@,
                seq![Bound::Integer(reversal_id as int), Bound::Integer(original_id as int)],
            ),
    {
        let mut params: Vec<SqlValue> = Vec::new();
        assert(bound(params@) =~= seq![]);
        push_param(&mut params, SqlValue::Integer(reversal_id));
        push_param(&mut params, SqlValue::Integer(original_id));
        assert(bound(params@) =~= seq![
            Bound::Integer(reversal_id as int),
            Bound::Integer(original_id as int),
        ]);
        Statement { sql: MARK_REVERTED.to_owned(), params }
    }

    /// The statement that finds the newest row of a kind against somebody that nothing has
    /// undone: how an unban finds the ban it retires.
    pub fn latest_unreverted(&self, action: &str, target_id: &str) -> (r: Statement)
        ensures
            r.is(LATEST_UNREVERTED@, seq![Bound::Text(action@), Bound::Text(target_id@)]),
    {
        two_texts(LATEST_UNREVERTED, action, target_id)
    }

    /// The statement that counts the rows of a kind against somebody that nothing has undone.
    pub fn count_active(&self, action: &str, target_id: &str) -> (r: Statement)
        ensures
            r.is(COUNT_ACTIVE@, seq![Bound::Text(action@), Bound::Text(target_id@)]),
    {
        two_texts(COUNT_ACTIVE, action, target_id)
    }

    /// The statement that lists the crow's own bans that end some day and have not been
    /// undone.
    pub fn pending_expiries(&self) -> (r: Statement)
        ensures
            r.is(PENDING_EXPIRIES@, seq![]),
    {
        let params: Vec<SqlValue> = Vec::new();
        assert(bound(params@) =~= seq![]);
        Statement { sql: PENDING_EXPIRIES.to_owned(), params }
    }

    /// The statement that reads the rows that meet every condition of the filter, newest
    /// first, at most `limit`.
    pub fn query(&self, filter: &ModlogFilter, limit: u8) -> (r: Statement)
        ensures
            r.is(query_sql(*filter, limit), condition_values(conditions(*filter))),
    {
        let mut parts: Vec<String> = Vec::new();
        let mut values: Vec<SqlValue> = Vec::new();
        let ghost mut c: Seq<(Seq<char>, Seq<char>)> = seq![];
        assert(texts(parts@) =~= condition_texts(c));
        assert(bound(values@) =~= condition_values(c));
        add_condition(&mut parts, &mut values, "target_id = ?", &filter.target_id, Ghost(c));
        proof {
            c = c + condition("target_id = ?"@, filter.target_id);
        }
        add_condition(&mut parts, &mut values, "executor_id = ?", &filter.executor_id, Ghost(c));
        proof {
            c = c + condition("executor_id = ?"@, filter.executor_id);
        }
        add_condition(&mut parts, &mut values, "action = ?", &filter.action, Ghost(c));
        proof {
            c = c + condition("action = ?"@, filter.action);
        }
        add_condition(&mut parts, &mut values, "source = ?", &filter.source, Ghost(c));
        proof {
            c = c + condition("source = ?"@, filter.source);
        }
        add_condition(&mut parts, &mut values, "channel_id = ?", &filter.channel_id, Ghost(c));
        proof {
            c = c + condition("channel_id = ?"@, filter.channel_id);
        }
        add_condition(&mut parts, &mut values, "created_at >= ?", &filter.since, Ghost(c));
        proof {
            c = c + condition("created_at >= ?"@, filter.since);
        }
        add_condition(&mut parts, &mut values, "created_at <= ?", &filter.until, Ghost(c));
        proof {
            c = c + condition("created_at <= ?"@, filter.until);
            assert(c =~= conditions(*filter));
            assert(texts(parts@).len() == parts@.len());
        }
        let mut sql = QUERY_HEAD.to_owned();
        if parts.len() == 0 {
            sql.append("1 = 1");
        } else {
            sql.append(join(&parts, " and ").as_str());
        }
        sql.append(QUERY_ORDER);
        sql.append(number(limit as u64).as_str());
        sql.append(QUERY_END);
        Statement { sql, params: values }
    }
}

/// A labelled value of an announcement.
pub struct EmbedField {
    pub name: String,
    pub value: String,
    pub short: bool,
}

/// A labelled value of an announcement, as a mathematical value.
pub struct FieldView {
    pub name: Seq<char>,
    pub value: Seq<char>,
    pub short: bool,
}

impl View for EmbedField {
    type V = FieldView;

    open spec fn view(&self) -> FieldView {
        FieldView { name: self.name@, value: self.value@, short: self.short }
    }
}

/// The announcement of a row, but for the moment it is made.
pub struct ModEmbed {
    pub title: String,
    pub color: u32,
    pub footer: String,
    pub fields: Vec<EmbedField>,
}

/// The emoji and the colour an action is announced with.
pub open spec fn badge(action: Seq<char>) -> (Seq<char>, u32) {
    if action == "ban"@ {
        ("🔨"@, 0xd83c3e)
    } else if action == "unban"@ || action == "warn_revoke"@ || action == "timeout_remove"@ || action
        == "unlock"@ {
        ("🕊️"@, 0x57f287)
    } else if action == "kick"@ {
        ("🥾"@, 0xe67e22)
    } else if action == "timeout"@ {
        ("🤐"@, 0xe67e22)
    } else if action == "warn"@ {
        ("⚠️"@, 0xfee75c)
    } else if action == "delete"@ || action == "purge"@ {
        ("🧹"@, 0xe67e22)
    } else if action == "role_add"@ || action == "role_remove"@ {
        ("🎭"@, 0x5865f2)
    } else if action == "nickname"@ {
        ("🏷️"@, 0x5865f2)
    } else if action == "lock"@ {
        ("🔒"@, 0xd83c3e)
    } else if action == "slowmode"@ {
        ("🐌"@, 0x5865f2)
    } else if action == "invite_delete"@ {
        ("🚪"@, 0xe67e22)
    } else {
        ("🐦‍⬛"@, 0x5865f2)
    }
}

fn badge_of(action: &str) -> (r: (&'static str, u32))
    ensures
        r.0@ == badge(action@).0,
        r.1 == badge(action@).1,
{
    if same(action, "ban") {
        ("🔨", 0xd83c3e)
    } else if same(action, "unban") || same(action, "warn_revoke") || same(action, "timeout_remove")
        || same(action, "unlock") {
        ("🕊️", 0x57f287)
    } else if same(action, "kick") {
        ("🥾", 0xe67e22)
    } else if same(action, "timeout") {
        ("🤐", 0xe67e22)
    } else if same(action, "warn") {
        ("⚠️", 0xfee75c)
    } else if same(action, "delete") || same(action, "purge") {
        ("🧹", 0xe67e22)
    } else if same(action, "role_add") || same(action, "role_remove") {
        ("🎭", 0x5865f2)
    } else if same(action, "nickname") {
        ("🏷️", 0x5865f2)
    } else if same(action, "lock") {
        ("🔒", 0xd83c3e)
    } else if same(action, "slowmode") {
        ("🐌", 0x5865f2)
    } else if same(action, "invite_delete") {
        ("🚪", 0xe67e22)
    } else {
        ("🐦‍⬛", 0x5865f2)
    }
}

pub open spec fn shown_field(name: Seq<char>, value: Option<Seq<char>>, short: bool) -> Seq<FieldView> {
    match value {
        Some(value) => seq![FieldView { name, value, short }],
        None => seq![],
    }
}

/// A text with something in front and something behind, where there is a text.
pub open spec fn wrapped(a: Seq<char>, value: Option<Seq<char>>, b: Seq<char>) -> Option<Seq<char>> {
    match value {
        Some(value) => Some(a + value + b),
        None => None,
    }
}

pub open spec fn target_shown(row: NewModAction) -> Option<Seq<char>> {
    match row.target_id {
        Some(id) => Some(
            (match row.target_name {
                Some(name) => name@,
                None => "?"@,
            }) + " (<@"@ + id@ + ">)"@,
        ),
        None => None,
    }
}

pub open spec fn reverts_shown(reverts: Option<i64>) -> Option<Seq<char>> {
    match reverts {
        Some(original) => Some("ledger #"@ + signed_decimal(original as int)),
        None => None,
    }
}

/// The labelled values of a row's announcement.
pub open spec fn announced_fields(row: NewModAction, reverts: Option<i64>) -> Seq<FieldView> {
    shown_field("target"@, target_shown(row), true) + shown_field(
        "executor"@,
        opt_text(row.executor_name),
        true,
    ) + shown_field("channel"@, wrapped("<#"@, opt_text(row.channel_id), ">"@), true) + shown_field(
        "reason"@,
        opt_text(row.reason),
        false,
    ) + shown_field("intent"@, opt_text(row.intent), false) + shown_field(
        "details"@,
        wrapped("`"@, opt_text(row.metadata), "`"@),
        false,
    ) + shown_field("reverts"@, reverts_shown(reverts), true)
}

pub open spec fn footer_text(source: Source, ledger_id: i64) -> Seq<char> {
    "ledger #"@ + signed_decimal(ledger_id as int) + match source {
        Source::Crow => " · by the crow's hand"@,
        Source::Observed => " · witnessed"@,
    }
}

pub open spec fn field_views(fields: Seq<EmbedField>) -> Seq<FieldView> {
    fields.map_values(|f: EmbedField| f@)
}

fn add_field(fields: &mut Vec<EmbedField>, name: &str, value: Option<String>, short: bool)
    ensures
        field_views(final(fields)@) == field_views(old(fields)@) + shown_field(
            name@,
            opt_text(value),
            short,
        ),
{
    if let Some(value) = value {
        fields.push(EmbedField { name: name.to_owned(), value, short });
    }
    assert(field_views(fields@) =~= field_views(old(fields)@) + shown_field(
        name@,
        opt_text(value),
        short,
    ));
}

fn wrap(a: &str, value: &Option<String>, b: &str) -> (r: Option<String>)
    ensures
        opt_text(r) == wrapped(a@, opt_text(*value), b@),
{
    match value {
        Some(value) => {
            let mut s = a.to_owned();
            s.append(value.as_str());
            s.append(b);
            Some(s)
        },
        None => None,
    }
}

/// The announcement of a row: a badge and a colour by the kind of action, the row's number
/// and who saw it below, and its values in order.
pub fn build_embed(source: Source, row: &NewModAction, ledger_id: i64, reverts: Option<i64>) -> (r:
    ModEmbed)
    ensures
        r.title@ == badge(row.action@).0 + " "@ + row.action@,
        r.color == badge(row.action@).1,
        r.footer@ == footer_text(source, ledger_id),
        field_views(r.fields@) == announced_fields(*row, reverts),
{
    let (emoji, color) = badge_of(row.action.as_str());
    let mut title = emoji.to_owned();
    title.append(" ");
    title.append(row.action.as_str());
    let mut footer = "ledger #".to_owned();
    footer.append(signed_number(ledger_id).as_str());
    match source {
        Source::Crow => footer.append(" · by the crow's hand"),
        Source::Observed => footer.append(" · witnessed"),
    }
    let mut fields: Vec<EmbedField> = Vec::new();
    assert(field_views(fields@) =~= seq![]);
    let target = match &row.target_id {
        Some(id) => {
            let mut s = match &row.target_name {
                Some(name) => name.clone(),
                None => "?".to_owned(),
            };
            s.append(" (<@");
            s.append(id.as_str());
            s.append(">)");
            Some(s)
        },
        None => None,
    };
    add_field(&mut fields, "target", target, true);
    add_field(&mut fields, "executor", clone_opt(&row.executor_name), true);
    add_field(&mut fields, "channel", wrap("<#", &row.channel_id, ">"), true);
    add_field(&mut fields, "reason", clone_opt(&row.reason), false);
    add_field(&mut fields, "intent", clone_opt(&row.intent), false);
    add_field(&mut fields, "details", wrap("`", &row.metadata, "`"), false);
    let undone = match reverts {
        Some(original) => {
            let mut s = "ledger #".to_owned();
            s.append(signed_number(original).as_str());
            Some(s)
        },
        None => None,
    };
    add_field(&mut fields, "reverts", undone, true);
    assert(field_views(fields@) =~= announced_fields(*row, reverts));
    ModEmbed { title, color, footer, fields }
}

/// Comings and goings stay between the ledger and itself.
pub open spec fn is_announced(action: Seq<char>) -> bool {
    action != "join"@ && action != "leave"@
}

impl Notifier {
    /// What to post of a row that was written, if anything.
    pub fn post(&self, source: Source, row: &NewModAction, ledger_id: i64, reverts: Option<i64>) -> (r:
        Option<ModEmbed>)
        ensures
            r is Some <==> is_announced(row.action@),
            r matches Some(e) ==> e.title@ == badge(row.action@).0 + " "@ + row.action@ && e.color
                == badge(row.action@).1 && e.footer@ == footer_text(source, ledger_id)
                && field_views(e.fields@) == announced_fields(*row, reverts),
    {
        if same(row.action.as_str(), "join") || same(row.action.as_str(), "leave") {
            return None;
        }
        Some(build_embed(source, row, ledger_id, reverts))
    }
}

/// A row as it reads once another row has been marked as undoing it.
pub open spec fn marked_by(original: Original, reversal: i64) -> Original {
    Original { reverted_by: Some(reversal), ..original }
}

/// What is undone once is not undone again: after a revert went through and the row was
/// marked, every further revert of it is refused, and names the row that undid it.
pub proof fn lemma_undone_only_once(original: Original, expected: Seq<char>, reversal: i64)
    requires
        verdict(Some(original), expected) is Undo,
    ensures
        verdict(Some(marked_by(original, reversal)), expected) == Verdict::AlreadyReverted(
            reversal as int,
        ),
{
}

/// A row as the ledger holds it: who wrote it, what it says, and what undid it.
pub struct LedgerRow {
    pub source: Source,
    pub says: NewModAction,
    pub reverted_by: Option<int>,
}

/// The ledger's rows by number, and the last number that was given out.
pub struct Book {
    pub rows: Map<int, LedgerRow>,
    pub last: int,
}

impl Book {
    /// No row has a number that was not given out yet.
    pub open spec fn wf(self) -> bool {
        forall|id: int| #[trigger] self.rows.contains_key(id) ==> id <= self.last
    }

    /// The book after a row was written. The table's numbers are `autoincrement`: a row gets
    /// the one after the last that was ever given out.
    pub open spec fn recorded(self, source: Source, row: NewModAction) -> Book {
        Book {
            rows: self.rows.insert(
                self.last + 1,
                LedgerRow { source, says: row, reverted_by: None },
            ),
            last: self.last + 1,
        }
    }

    /// The book after a row was marked as undone by another.
    pub open spec fn marked(self, reversal: int, original: int) -> Book {
        Book {
            rows: self.rows.insert(
                original,
                LedgerRow { reverted_by: Some(reversal), ..self.rows[original] },
            ),
            ..self
        }
    }

    /// The book after a row was undone: the undoing row is written, and the undone one names
    /// it.
    pub open spec fn undone(self, original: int, source: Source, row: NewModAction) -> Book {
        self.recorded(source, row).marked(self.last + 1, original)
    }

    /// What a revert reads of a row; nothing, where there is none.
    pub open spec fn reads(self, id: int, found: Option<Original>) -> bool {
        match found {
            Some(original) => {
                &&& self.rows.contains_key(id)
                &&& self.rows[id].says.action@ == original.action@
                &&& self.rows[id].says.target_id == original.target_id
                &&& self.rows[id].says.target_name == original.target_name
                &&& self.rows[id].reverted_by == match original.reverted_by {
                    Some(by) => Some(by as int),
                    None => None,
                }
            },
            None => !self.rows.contains_key(id),
        }
    }

    /// A row of a kind against somebody that nothing has undone.
    pub open spec fn is_active(self, id: int, action: Seq<char>, target: Seq<char>) -> bool {
        &&& self.rows.contains_key(id)
        &&& self.rows[id].says.action@ == action
        &&& opt_text(self.rows[id].says.target_id) == Some(target)
        &&& self.rows[id].reverted_by is None
    }

    /// A ban of the crow's own that ends some day and that nothing has undone: the timer's
    /// work.
    pub open spec fn is_pending(self, id: int) -> bool {
        &&& self.rows.contains_key(id)
        &&& self.rows[id].says.expires_at is Some
        &&& self.rows[id].reverted_by is None
        &&& self.rows[id].says.action@ == "ban"@
        &&& self.rows[id].source == Source::Crow
    }
}

/// Undoing leaves two rows: the undone one, which changes only in that it names the other, and
/// the other, which is new, has the greatest number of all, and says what the act said, about
/// the undone row's target where it named none. Every other row stays as it was, the undone
/// row no longer counts, and it cannot be undone again.
pub proof fn lemma_undoing_leaves_two_rows(
    book: Book,
    original_id: int,
    original: Original,
    expected: Seq<char>,
    source: Source,
    action: NewModAction,
)
    requires
        book.wf(),
        book.reads(original_id, Some(original)),
        verdict(Some(original), expected) is Undo,
    ensures
        ({
            let reversal = book.last + 1;
            let after = book.undone(original_id, source, inherits(action, original));
            &&& after.wf()
            &&& forall|id: int| #[trigger] book.rows.contains_key(id) ==> id < reversal
            &&& after.rows.dom() == book.rows.dom().insert(reversal)
            &&& after.rows[original_id] == (LedgerRow {
                reverted_by: Some(reversal),
                ..book.rows[original_id]
            })
            &&& after.rows[reversal] == (LedgerRow {
                source,
                says: inherits(action, original),
                reverted_by: None,
            })
            &&& forall|id: int|
                book.rows.contains_key(id) && id != original_id ==> #[trigger] after.rows[id]
                    == book.rows[id]
            &&& forall|target: Seq<char>| !after.is_active(original_id, expected, target)
            &&& action.action@ != expected ==> forall|id: int, target: Seq<char>|
                id != original_id ==> after.is_active(id, expected, target)
                    == #[trigger] book.is_active(id, expected, target)
            &&& forall|again: Option<Original>| #[trigger]
                after.reads(original_id, again) ==> verdict(again, expected)
                    == Verdict::AlreadyReverted(reversal)
        }),
{
    let after = book.undone(original_id, source, inherits(action, original));
    assert(after.rows.dom() =~= book.rows.dom().insert(book.last + 1));
}

/// What the undoing row says is what the act said, word for word, but for a target that the
/// act left out: that is the undone row's.
pub proof fn lemma_undoing_keeps_the_target(action: NewModAction, original: Original)
    ensures
        action.target_id is Some ==> inherits(action, original).target_id == action.target_id,
        action.target_id is None ==> inherits(action, original).target_id == original.target_id,
        action.target_name is Some ==> inherits(action, original).target_name == action.target_name,
        action.target_name is None ==> inherits(action, original).target_name
            == original.target_name,
        (NewModAction {
            target_id: action.target_id,
            target_name: action.target_name,
            ..inherits(action, original)
        }) == action,
{
}

/// A ban that was undone leaves the timer's work, and nothing else leaves or enters it.
pub proof fn lemma_undone_bans_leave_the_worklist(
    book: Book,
    original_id: int,
    original: Original,
    source: Source,
    action: NewModAction,
    id: int,
)
    requires
        book.wf(),
        book.reads(original_id, Some(original)),
        verdict(Some(original), "ban"@) is Undo,
        action.action@ == "unban"@,
    ensures
        book.undone(original_id, source, inherits(action, original)).is_pending(id) <==> id
            != original_id && book.is_pending(id),
{
    reveal_strlit("ban");
    reveal_strlit("unban");
    assert("ban"@.len() != "unban"@.len());
}

} // verus!
