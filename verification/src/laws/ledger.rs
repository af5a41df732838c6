//! What is asked of the ledger, what it is told, and what is said of it.

use vstd::prelude::*;

use crate::ledger_meaning::{lemma_a_filter_reads_what_was_asked, meets_all};
use crate::laws::order::stands_at;
use crate::laws::scan::stands_somewhere;
use crate::modlog::{
    announced_fields, build_embed, condition_values, conditions, field_views,
    query_sql, reverts_shown, row_params, shown_field, target_shown, wrapped, EmbedField, FieldView,
    ModAction, ModEmbed, ModlogFilter, ModlogStore, NewModAction, Notifier, Original, RevertError, Source,
    QUERY_END, QUERY_HEAD, QUERY_ORDER,
};
use crate::server::tools::modlog::{filter_of, CheckLedgerRequest, UserHistoryRequest};
use crate::server::KurouServer;
use crate::sql::{bound, text_or_null, Bound, Statement};
use crate::text::{decimal, joined, opt_text, precedes, signed_decimal, utf8_len};

verus! {

/// A statement reads the ledger under some conditions, each with its value, up to a limit.
pub open spec fn reads_under(s: Statement, c: Seq<(Seq<char>, Seq<char>)>, limit: nat) -> bool {
    &&& s.sql@ == QUERY_HEAD@ + (if c.len() == 0 {
        "1 = 1"@
    } else {
        joined(c.map_values(|p: (Seq<char>, Seq<char>)| p.0), " and "@)
    }) + QUERY_ORDER@ + decimal(limit) + QUERY_END@
    &&& bound(s.params@) == c.map_values(|p: (Seq<char>, Seq<char>)| Bound::Text(p.1))
}

/// A value is the one asked for, if one is.
pub open spec fn fits(asked: Option<String>, found: Option<String>) -> bool {
    asked is None || (found is Some && found->0@ == asked->0@)
}

/// A row is what a request asks for: whichever of the five values the request gives, the row
/// has the same, and it was written between the two moments, a bare date at the end meaning
/// all of its day.
pub open spec fn is_asked_for(req: CheckLedgerRequest, row: ModAction) -> bool {
    &&& fits(req.target_id, row.target_id)
    &&& fits(req.executor_id, row.executor_id)
    &&& fits(req.action, Some(row.action))
    &&& fits(req.source, Some(row.source))
    &&& fits(req.channel_id, row.channel_id)
    &&& req.since is None || !precedes(row.created_at@, req.since->0@)
    &&& req.until is None || !precedes(
        if utf8_len(req.until->0@) == 10 {
            req.until->0@ + " 23:59:59"@
        } else {
            req.until->0@
        },
        row.created_at@,
    )
}

/// The number of rows asked for, between one and a hundred; so many where nothing is said.
pub open spec fn is_limit(asked: Option<u8>, otherwise: nat, limit: nat) -> bool {
    match asked {
        None => limit == otherwise,
        Some(n) => if n == 0 {
            limit == 1
        } else if n > 100 {
            limit == 100
        } else {
            limit == n
        },
    }
}

/// The ledger reads exactly the rows that a request asks for, however it asks.
pub proof fn lemma_the_ledger_reads_what_was_asked(
    server: KurouServer,
    req: CheckLedgerRequest,
    r: Result<Statement, String>,
)
    requires
        call_ensures(KurouServer::check_ledger, (&server, &req), r),
    ensures
        r is Ok <==> server.modlog_store is Some,
        r matches Ok(s) ==> exists|c: Seq<(Seq<char>, Seq<char>)>, limit: nat| #[trigger]
            reads_under(s, c, limit) && is_limit(req.limit, 25, limit) && (forall|row: ModAction| #[trigger]
                meets_all(c, row) <==> is_asked_for(req, row)),
{
    if let Ok(s) = r {
        let (f, limit) = choose|f: ModlogFilter, limit: u8| #[trigger]
            filter_of(req, f) && limit == crate::server::tools::common::clamped(
                match req.limit {
                    Some(n) => n as int,
                    None => 25,
                },
                1,
                100,
            ) && s.is(#[trigger] query_sql(f, limit), condition_values(conditions(f)));
        let c = conditions(f);
        assert(reads_under(s, c, limit as nat));
        assert forall|row: ModAction| #[trigger] meets_all(c, row) <==> is_asked_for(req, row) by {
            lemma_a_filter_reads_what_was_asked(f, row);
            if let Some(until) = req.until {
                assert(opt_text(f.until) is Some);
            }
        }
    }
}

/// A row is selected through a filter exactly if it has what the request gives.
pub proof fn lemma_a_filter_is_the_request(req: CheckLedgerRequest, f: ModlogFilter, row: ModAction)
    requires
        call_ensures(crate::server::tools::modlog::ledger_filter, (&req,), f),
    ensures
        meets_all(conditions(f), row) <==> is_asked_for(req, row),
{
    lemma_a_filter_reads_what_was_asked(f, row);
    if let Some(until) = req.until {
        assert(opt_text(f.until) is Some);
    }
}

/// Somebody's history is every row about them, whoever did it, whatever it was and whenever.
pub proof fn lemma_a_history_is_everything_about_somebody(
    server: KurouServer,
    req: UserHistoryRequest,
    r: Result<Statement, String>,
)
    requires
        call_ensures(KurouServer::user_history, (&server, &req), r),
    ensures
        r is Ok <==> server.modlog_store is Some,
        r matches Ok(s) ==> exists|c: Seq<(Seq<char>, Seq<char>)>, limit: nat| #[trigger]
            reads_under(s, c, limit) && is_limit(req.limit, 50, limit) && (forall|row: ModAction| #[trigger]
                meets_all(c, row) <==> row.target_id is Some && row.target_id->0@ == req.user_id@),
{
    if let Ok(s) = r {
        let (f, limit) = choose|f: ModlogFilter, limit: u8|
            f.target_id == Some(req.user_id) && f.executor_id is None && f.action is None
                && f.source is None && f.channel_id is None && f.since is None && f.until is None
                && limit == crate::server::tools::common::clamped(
                match req.limit {
                    Some(n) => n as int,
                    None => 50,
                },
                1,
                100,
            ) && s.is(#[trigger] query_sql(f, limit), condition_values(conditions(f)));
        let c = conditions(f);
        assert(reads_under(s, c, limit as nat));
        assert forall|row: ModAction| #[trigger] meets_all(c, row) <==> row.target_id is Some
            && row.target_id->0@ == req.user_id@ by {
            lemma_a_filter_reads_what_was_asked(f, row);
        }
    }
}

/// Two rows say the same.
pub open spec fn say_the_same(a: NewModAction, b: NewModAction) -> bool {
    &&& a.action@ == b.action@
    &&& a.guild_id@ == b.guild_id@
    &&& opt_text(a.target_id) == opt_text(b.target_id)
    &&& opt_text(a.target_name) == opt_text(b.target_name)
    &&& opt_text(a.channel_id) == opt_text(b.channel_id)
    &&& opt_text(a.executor_id) == opt_text(b.executor_id)
    &&& opt_text(a.executor_name) == opt_text(b.executor_name)
    &&& opt_text(a.reason) == opt_text(b.reason)
    &&& opt_text(a.intent) == opt_text(b.intent)
    &&& opt_text(a.metadata) == opt_text(b.metadata)
    &&& opt_text(a.expires_at) == opt_text(b.expires_at)
}

/// Everything a row says is written down: two rows written alike say the same, and the same
/// hand wrote them.
pub proof fn lemma_everything_is_written_down(
    store: ModlogStore,
    by: Source,
    a: NewModAction,
    written: Statement,
    other: Source,
    b: NewModAction,
    also: Statement,
)
    requires
        call_ensures(ModlogStore::record, (&store, by, &a), written),
        call_ensures(ModlogStore::record, (&store, other, &b), also),
        bound(written.params@) == bound(also.params@),
    ensures
        by == other,
        say_the_same(a, b),
        written.sql@ == also.sql@,
{
    let p = row_params(by, a);
    let q = row_params(other, b);
    assert(p == q);
    assert(p[0] == q[0] && p[1] == q[1] && p[2] == q[2] && p[3] == q[3] && p[4] == q[4] && p[5] == q[5]
        && p[6] == q[6] && p[7] == q[7] && p[8] == q[8] && p[9] == q[9] && p[10] == q[10] && p[11]
        == q[11]);
    reveal_strlit("observed");
    reveal_strlit("crow");
    assert("observed"@.len() != "crow"@.len());
}

/// A row is undone exactly where it was found, is of the kind expected, and nothing has undone
/// it. The undoing row is the one given, about the undone row's target where it names none.
pub proof fn lemma_what_may_be_undone(
    store: ModlogStore,
    id: i64,
    expected: &str,
    by: Source,
    action: NewModAction,
    found: Option<Original>,
    r: Result<(Statement, NewModAction), RevertError>,
)
    requires
        call_ensures(ModlogStore::revert, (&store, id, expected, by, action, found), r),
    ensures
        r is Ok <==> found is Some && found->0.action@ == expected@ && found->0.reverted_by is None,
        found is None ==> (r matches Err(RevertError::Missing { id: named }) && named == id),
        found is Some && found->0.action@ != expected@ ==> (r matches Err(
            RevertError::WrongKind { id: named, found: kind, expected: wanted },
        ) && named == id && kind@ == found->0.action@ && wanted@ == expected@),
        found is Some && found->0.action@ == expected@ && found->0.reverted_by is Some ==> (
        r matches Err(RevertError::AlreadyReverted { id: named, by: row }) && named == id && Some(row)
            == found->0.reverted_by),
        r matches Ok((s, row)) ==> {
            &&& row.target_id == if action.target_id is Some {
                action.target_id
            } else {
                found->0.target_id
            }
            &&& row.target_name == if action.target_name is Some {
                action.target_name
            } else {
                found->0.target_name
            }
            &&& (NewModAction { target_id: action.target_id, target_name: action.target_name, ..row })
                == action
            &&& binds_all(s, by, row)
        },
{
    if let Ok((s, row)) = r {
        lemma_alike(s, by, row);
    }
}

/// A statement binds what a row says and who wrote it, each in a place of its own.
pub open spec fn binds_all(s: Statement, by: Source, row: NewModAction) -> bool {
    let p = bound(s.params@);
    &&& p.len() == 12
    &&& p.contains(Bound::Text(row.action@))
    &&& p.contains(Bound::Text(row.guild_id@))
    &&& p.contains(text_or_null(opt_text(row.target_id)))
    &&& p.contains(text_or_null(opt_text(row.target_name)))
    &&& p.contains(text_or_null(opt_text(row.channel_id)))
    &&& p.contains(text_or_null(opt_text(row.executor_id)))
    &&& p.contains(text_or_null(opt_text(row.executor_name)))
    &&& p.contains(text_or_null(opt_text(row.reason)))
    &&& p.contains(text_or_null(opt_text(row.intent)))
    &&& p.contains(text_or_null(opt_text(row.metadata)))
    &&& p.contains(text_or_null(opt_text(row.expires_at)))
}

proof fn lemma_alike(s: Statement, by: Source, row: NewModAction)
    requires
        bound(s.params@) == row_params(by, row),
    ensures
        binds_all(s, by, row),
{
    let p = bound(s.params@);
    assert(p[0] == Bound::Text(row.action@));
    assert(p[2] == Bound::Text(row.guild_id@));
    assert(p[3] == text_or_null(opt_text(row.target_id)));
    assert(p[4] == text_or_null(opt_text(row.target_name)));
    assert(p[5] == text_or_null(opt_text(row.channel_id)));
    assert(p[6] == text_or_null(opt_text(row.executor_id)));
    assert(p[7] == text_or_null(opt_text(row.executor_name)));
    assert(p[8] == text_or_null(opt_text(row.reason)));
    assert(p[9] == text_or_null(opt_text(row.intent)));
    assert(p[10] == text_or_null(opt_text(row.metadata)));
    assert(p[11] == text_or_null(opt_text(row.expires_at)));
}

/// An announcement has a value of a name, with a piece in it.
pub open spec fn shows(fields: Seq<EmbedField>, name: Seq<char>, piece: Seq<char>) -> bool {
    exists|i: int|
        0 <= i < fields.len() && (#[trigger] fields[i]).name@ == name && stands_somewhere(
            fields[i].value@,
            piece,
        )
}

pub open spec fn shows_if_given(fields: Seq<EmbedField>, name: Seq<char>, value: Option<String>) -> bool {
    value matches Some(value) ==> shows(fields, name, value@)
}

/// One where there is something, and none where there is nothing.
pub open spec fn one_if<T>(v: Option<T>) -> int {
    if v is Some {
        1
    } else {
        0
    }
}

/// An announcement shows all that a row says: the target by name and number, who did it, where,
/// why, to what end and with what details, and the row it undoes. It has one value for each of
/// these that there is, and no other.
pub open spec fn tells_all(e: ModEmbed, source: Source, row: NewModAction, ledger_id: i64, reverts: Option<
    i64,
>) -> bool {
    &&& stands_somewhere(e.title@, row.action@)
    &&& stands_somewhere(e.footer@, signed_decimal(ledger_id as int))
    &&& shows_if_given(e.fields@, "target"@, row.target_id)
    &&& row.target_id is Some ==> shows_if_given(e.fields@, "target"@, row.target_name)
    &&& shows_if_given(e.fields@, "executor"@, row.executor_name)
    &&& shows_if_given(e.fields@, "channel"@, row.channel_id)
    &&& shows_if_given(e.fields@, "reason"@, row.reason)
    &&& shows_if_given(e.fields@, "intent"@, row.intent)
    &&& shows_if_given(e.fields@, "details"@, row.metadata)
    &&& reverts matches Some(id) ==> shows(e.fields@, "reverts"@, signed_decimal(id as int))
    &&& e.fields@.len() == one_if(row.target_id) + one_if(row.executor_name) + one_if(row.channel_id)
        + one_if(row.reason) + one_if(row.intent) + one_if(row.metadata) + one_if(reverts)
}

proof fn lemma_stands(a: Seq<char>, piece: Seq<char>, b: Seq<char>)
    ensures
        stands_somewhere(a + piece + b, piece),
{
    let at = a.len() as int;
    assert((a + piece + b).subrange(at, at + piece.len()) =~= piece);
    assert(stands_at(a + piece + b, piece, at));
}

proof fn lemma_shown(
    fields: Seq<EmbedField>,
    a: Seq<FieldView>,
    part: Seq<FieldView>,
    b: Seq<FieldView>,
    piece: Seq<char>,
)
    requires
        field_views(fields) == a + part + b,
        part.len() == 1,
        stands_somewhere(part[0].value, piece),
    ensures
        shows(fields, part[0].name, piece),
{
    let i = a.len() as int;
    assert(field_views(fields).len() == fields.len());
    assert(field_views(fields)[i] == part[0]);
    assert(fields[i]@ == part[0]);
    assert(fields[i].name@ == part[0].name);
}

/// A part of seven that stand one behind the other.
proof fn lemma_seven(f: Seq<Seq<FieldView>>)
    requires
        f.len() == 7,
    ensures
        ({
            let all = f[0] + f[1] + f[2] + f[3] + f[4] + f[5] + f[6];
            &&& all == Seq::<FieldView>::empty() + f[0] + (f[1] + f[2] + f[3] + f[4] + f[5] + f[6])
            &&& all == f[0] + f[1] + (f[2] + f[3] + f[4] + f[5] + f[6])
            &&& all == (f[0] + f[1]) + f[2] + (f[3] + f[4] + f[5] + f[6])
            &&& all == (f[0] + f[1] + f[2]) + f[3] + (f[4] + f[5] + f[6])
            &&& all == (f[0] + f[1] + f[2] + f[3]) + f[4] + (f[5] + f[6])
            &&& all == (f[0] + f[1] + f[2] + f[3] + f[4]) + f[5] + f[6]
            &&& all == (f[0] + f[1] + f[2] + f[3] + f[4] + f[5]) + f[6] + Seq::<FieldView>::empty()
            &&& all.len() == f[0].len() + f[1].len() + f[2].len() + f[3].len() + f[4].len() + f[5].len()
                + f[6].len()
        }),
{
    let all = f[0] + f[1] + f[2] + f[3] + f[4] + f[5] + f[6];
    assert(all =~= Seq::<FieldView>::empty() + f[0] + (f[1] + f[2] + f[3] + f[4] + f[5] + f[6]));
    assert(all =~= f[0] + f[1] + (f[2] + f[3] + f[4] + f[5] + f[6]));
    assert(all =~= (f[0] + f[1]) + f[2] + (f[3] + f[4] + f[5] + f[6]));
    assert(all =~= (f[0] + f[1] + f[2]) + f[3] + (f[4] + f[5] + f[6]));
    assert(all =~= (f[0] + f[1] + f[2] + f[3]) + f[4] + (f[5] + f[6]));
    assert(all =~= (f[0] + f[1] + f[2] + f[3] + f[4] + f[5]) + f[6] + Seq::<FieldView>::empty());
}

spec fn seven(row: NewModAction, reverts: Option<i64>) -> Seq<Seq<FieldView>> {
    seq![
        shown_field("target"@, target_shown(row), true),
        shown_field("executor"@, opt_text(row.executor_name), true),
        shown_field("channel"@, wrapped("<#"@, opt_text(row.channel_id), ">"@), true),
        shown_field("reason"@, opt_text(row.reason), false),
        shown_field("intent"@, opt_text(row.intent), false),
        shown_field("details"@, wrapped("`"@, opt_text(row.metadata), "`"@), false),
        shown_field("reverts"@, reverts_shown(reverts), true),
    ]
}

proof fn lemma_plain(s: Seq<char>)
    ensures
        stands_somewhere(s, s),
{
    let none = Seq::<char>::empty();
    lemma_stands(none, s, none);
    assert(none + s + none =~= s);
}

#[verifier::rlimit(40)]
proof fn lemma_fields_tell(fields: Seq<EmbedField>, row: NewModAction, reverts: Option<i64>)
    requires
        field_views(fields) == announced_fields(row, reverts),
    ensures
        shows_if_given(fields, "target"@, row.target_id),
        row.target_id is Some ==> shows_if_given(fields, "target"@, row.target_name),
        shows_if_given(fields, "executor"@, row.executor_name),
        shows_if_given(fields, "channel"@, row.channel_id),
        shows_if_given(fields, "reason"@, row.reason),
        shows_if_given(fields, "intent"@, row.intent),
        shows_if_given(fields, "details"@, row.metadata),
        reverts matches Some(id) ==> shows(fields, "reverts"@, signed_decimal(id as int)),
        fields.len() == one_if(row.target_id) + one_if(row.executor_name) + one_if(row.channel_id)
            + one_if(row.reason) + one_if(row.intent) + one_if(row.metadata) + one_if(reverts),
{
    let none = Seq::<char>::empty();
    let nothing = Seq::<FieldView>::empty();
    let f = seven(row, reverts);
    lemma_seven(f);
    assert(field_views(fields) == f[0] + f[1] + f[2] + f[3] + f[4] + f[5] + f[6]);
    assert(field_views(fields).len() == fields.len());
    if let Some(id) = row.target_id {
        let name = match row.target_name {
            Some(name) => name@,
            None => "?"@,
        };
        lemma_stands(name + " (<@"@, id@, ">)"@);
        lemma_stands(none, name, " (<@"@ + id@ + ">)"@);
        assert(none + name + (" (<@"@ + id@ + ">)"@) =~= name + " (<@"@ + id@ + ">)"@);
        lemma_shown(fields, nothing, f[0], f[1] + f[2] + f[3] + f[4] + f[5] + f[6], id@);
        lemma_shown(fields, nothing, f[0], f[1] + f[2] + f[3] + f[4] + f[5] + f[6], name);
    }
    if let Some(v) = row.executor_name {
        lemma_plain(v@);
        lemma_shown(fields, f[0], f[1], f[2] + f[3] + f[4] + f[5] + f[6], v@);
    }
    if let Some(v) = row.channel_id {
        lemma_stands("<#"@, v@, ">"@);
        lemma_shown(fields, f[0] + f[1], f[2], f[3] + f[4] + f[5] + f[6], v@);
    }
    if let Some(v) = row.reason {
        lemma_plain(v@);
        lemma_shown(fields, f[0] + f[1] + f[2], f[3], f[4] + f[5] + f[6], v@);
    }
    if let Some(v) = row.intent {
        lemma_plain(v@);
        lemma_shown(fields, f[0] + f[1] + f[2] + f[3], f[4], f[5] + f[6], v@);
    }
    if let Some(v) = row.metadata {
        lemma_stands("`"@, v@, "`"@);
        lemma_shown(fields, f[0] + f[1] + f[2] + f[3] + f[4], f[5], f[6], v@);
    }
    if let Some(id) = reverts {
        let n = signed_decimal(id as int);
        lemma_stands("ledger #"@, n, none);
        assert("ledger #"@ + n + none =~= "ledger #"@ + n);
        lemma_shown(fields, f[0] + f[1] + f[2] + f[3] + f[4] + f[5], f[6], nothing, n);
    }
}

proof fn lemma_tells_all(e: ModEmbed, source: Source, row: NewModAction, ledger_id: i64, reverts: Option<i64>)
    requires
        e.title@ == crate::modlog::badge(row.action@).0 + " "@ + row.action@,
        e.footer@ == crate::modlog::footer_text(source, ledger_id),
        field_views(e.fields@) == announced_fields(row, reverts),
    ensures
        tells_all(e, source, row, ledger_id, reverts),
{
    let none = Seq::<char>::empty();
    lemma_stands(crate::modlog::badge(row.action@).0 + " "@, row.action@, none);
    assert(e.title@ + none =~= e.title@);
    lemma_stands(
        "ledger #"@,
        signed_decimal(ledger_id as int),
        match source {
            Source::Crow => " · by the crow's hand"@,
            Source::Observed => " · witnessed"@,
        },
    );
    lemma_fields_tell(e.fields@, row, reverts);
}

/// An announcement shows all that a row says.
pub proof fn lemma_an_announcement_tells_all(
    source: Source,
    row: NewModAction,
    ledger_id: i64,
    reverts: Option<i64>,
    e: ModEmbed,
)
    requires
        call_ensures(build_embed, (source, &row, ledger_id, reverts), e),
    ensures
        tells_all(e, source, row, ledger_id, reverts),
{
    lemma_tells_all(e, source, row, ledger_id, reverts);
}

/// Everything but comings and goings is announced, with all that its row says.
pub proof fn lemma_what_is_announced(
    n: Notifier,
    source: Source,
    row: NewModAction,
    ledger_id: i64,
    reverts: Option<i64>,
    r: Option<ModEmbed>,
)
    requires
        call_ensures(Notifier::post, (&n, source, &row, ledger_id, reverts), r),
    ensures
        r is None <==> row.action@ == seq!['j', 'o', 'i', 'n'] || row.action@ == seq![
            'l',
            'e',
            'a',
            'v',
            'e',
        ],
        r matches Some(e) ==> tells_all(e, source, row, ledger_id, reverts),
{
    reveal_strlit("join");
    reveal_strlit("leave");
    assert("join"@ =~= seq!['j', 'o', 'i', 'n']);
    assert("leave"@ =~= seq!['l', 'e', 'a', 'v', 'e']);
    if let Some(e) = r {
        lemma_tells_all(e, source, row, ledger_id, reverts);
    }
}

} // verus!
