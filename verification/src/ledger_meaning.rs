//! What the ledger's and the inbox's queries mean: the laws that a filter reads the rows it
//! was asked for, and that the inbox keeps a mention once and shows it until it was seen.

use vstd::prelude::*;

use crate::mentions::{
    list_sql, marks, marks_each, NewMention, LIST_HEAD, LIST_TAIL, MARK_ALL, MARK_ONE,
};
use crate::modlog::{
    condition, condition_values, conditions, filter_text, query_sql, ModAction, ModlogFilter, QUERY_END,
    QUERY_HEAD, QUERY_ORDER,
};
use crate::sql::{bound, Bound, Statement};
use crate::sql_meaning::{are_the_newest, asks_newest, gives, lemma_the_newest_are_given};
use crate::text::{decimal, opt_text, precedes};

verus! {

/// A row meets a condition with its value, as the database reads it. Moments are compared as
/// texts.
pub open spec fn meets(sql: Seq<char>, value: Seq<char>, row: ModAction) -> bool {
    if sql == "target_id = ?"@ {
        opt_text(row.target_id) == Some(value)
    } else if sql == "executor_id = ?"@ {
        opt_text(row.executor_id) == Some(value)
    } else if sql == "action = ?"@ {
        row.action@ == value
    } else if sql == "source = ?"@ {
        row.source@ == value
    } else if sql == "channel_id = ?"@ {
        opt_text(row.channel_id) == Some(value)
    } else if sql == "created_at >= ?"@ {
        !precedes(row.created_at@, value)
    } else {
        sql == "created_at <= ?"@ && !precedes(value, row.created_at@)
    }
}

/// A row meets every condition.
pub open spec fn meets_all(c: Seq<(Seq<char>, Seq<char>)>, row: ModAction) -> bool {
    forall|i: int| 0 <= i < c.len() ==> meets((#[trigger] c[i]).0, c[i].1, row)
}

/// An optional text is the one asked for, where one is.
pub open spec fn is_asked(asked: Option<String>, found: Option<Seq<char>>) -> bool {
    asked matches Some(value) ==> found == Some(value@)
}

/// A row is what a filter asks for: about that target, by that executor, of that kind, of
/// that source, in that channel, and between the two moments, as far as any of these is given.
pub open spec fn row_asked_for(f: ModlogFilter, row: ModAction) -> bool {
    &&& is_asked(f.target_id, opt_text(row.target_id))
    &&& is_asked(f.executor_id, opt_text(row.executor_id))
    &&& is_asked(f.action, Some(row.action@))
    &&& is_asked(f.source, Some(row.source@))
    &&& is_asked(f.channel_id, opt_text(row.channel_id))
    &&& f.since matches Some(since) ==> !precedes(row.created_at@, since@)
    &&& f.until matches Some(until) ==> !precedes(until@, row.created_at@)
}

proof fn lemma_meets_both(a: Seq<(Seq<char>, Seq<char>)>, b: Seq<(Seq<char>, Seq<char>)>, row: ModAction)
    ensures
        meets_all(a + b, row) <==> meets_all(a, row) && meets_all(b, row),
{
    let all = a + b;
    if meets_all(all, row) {
        assert forall|i: int| 0 <= i < a.len() implies meets((#[trigger] a[i]).0, a[i].1, row) by {
            assert(all[i] == a[i]);
        }
        assert forall|i: int| 0 <= i < b.len() implies meets((#[trigger] b[i]).0, b[i].1, row) by {
            assert(all[a.len() + i] == b[i]);
        }
    }
    if meets_all(a, row) && meets_all(b, row) {
        assert forall|i: int| 0 <= i < all.len() implies meets((#[trigger] all[i]).0, all[i].1, row) by {
            if i < a.len() {
                assert(all[i] == a[i]);
            } else {
                assert(all[i] == b[i - a.len()]);
            }
        }
    }
}

proof fn lemma_meets_one(sql: Seq<char>, value: Option<String>, row: ModAction)
    ensures
        meets_all(condition(sql, value), row) <==> (value matches Some(v) ==> meets(sql, v@, row)),
{
    if let Some(v) = value {
        let c = condition(sql, value);
        assert(c[0] == (sql, v@));
    }
}

/// The ledger reads exactly the rows that a filter asks for.
pub proof fn lemma_a_filter_reads_what_was_asked(f: ModlogFilter, row: ModAction)
    ensures
        meets_all(conditions(f), row) <==> row_asked_for(f, row),
{
    reveal_strlit("target_id = ?");
    reveal_strlit("executor_id = ?");
    reveal_strlit("action = ?");
    reveal_strlit("source = ?");
    reveal_strlit("channel_id = ?");
    reveal_strlit("created_at >= ?");
    reveal_strlit("created_at <= ?");
    assert("action = ?"@[0] != "source = ?"@[0]);
    assert("executor_id = ?"@[0] != "created_at >= ?"@[0]);
    assert("executor_id = ?"@[0] != "created_at <= ?"@[0]);
    assert("created_at >= ?"@[11] != "created_at <= ?"@[11]);
    let c1 = condition("target_id = ?"@, f.target_id);
    let c2 = condition("executor_id = ?"@, f.executor_id);
    let c3 = condition("action = ?"@, f.action);
    let c4 = condition("source = ?"@, f.source);
    let c5 = condition("channel_id = ?"@, f.channel_id);
    let c6 = condition("created_at >= ?"@, f.since);
    let c7 = condition("created_at <= ?"@, f.until);
    lemma_meets_both(c1 + c2 + c3 + c4 + c5 + c6, c7, row);
    lemma_meets_both(c1 + c2 + c3 + c4 + c5, c6, row);
    lemma_meets_both(c1 + c2 + c3 + c4, c5, row);
    lemma_meets_both(c1 + c2 + c3, c4, row);
    lemma_meets_both(c1 + c2, c3, row);
    lemma_meets_both(c1, c2, row);
    lemma_meets_one("target_id = ?"@, f.target_id, row);
    lemma_meets_one("executor_id = ?"@, f.executor_id, row);
    lemma_meets_one("action = ?"@, f.action, row);
    lemma_meets_one("source = ?"@, f.source, row);
    lemma_meets_one("channel_id = ?"@, f.channel_id, row);
    lemma_meets_one("created_at >= ?"@, f.since, row);
    lemma_meets_one("created_at <= ?"@, f.until, row);
    assert(conditions(f) == c1 + c2 + c3 + c4 + c5 + c6 + c7);
    assert("target_id = ?"@.len() == 13 && "executor_id = ?"@.len() == 15 && "action = ?"@.len() == 10
        && "source = ?"@.len() == 10 && "channel_id = ?"@.len() == 14 && "created_at >= ?"@.len()
        == 15 && "created_at <= ?"@.len() == 15);
    assert(forall|v: Seq<char>| #[trigger] meets("target_id = ?"@, v, row) == (opt_text(row.target_id)
        == Some(v)));
    assert(forall|v: Seq<char>| #[trigger] meets("executor_id = ?"@, v, row) == (opt_text(
        row.executor_id,
    ) == Some(v)));
    assert(forall|v: Seq<char>| #[trigger] meets("action = ?"@, v, row) == (row.action@ == v));
    assert(forall|v: Seq<char>| #[trigger] meets("source = ?"@, v, row) == (row.source@ == v));
    assert(forall|v: Seq<char>| #[trigger] meets("channel_id = ?"@, v, row) == (opt_text(
        row.channel_id,
    ) == Some(v)));
    assert(forall|v: Seq<char>| #[trigger] meets("created_at >= ?"@, v, row) == !precedes(
        row.created_at@,
        v,
    ));
    assert(forall|v: Seq<char>| #[trigger] meets("created_at <= ?"@, v, row) == !precedes(
        v,
        row.created_at@,
    ));
}

/// A mention as the inbox holds it, as far as being seen goes.
pub struct InboxRow {
    pub message_id: Seq<char>,
    pub seen: bool,
}

/// A message is in the inbox.
pub open spec fn holds(inbox: Map<int, InboxRow>, message_id: Seq<char>) -> bool {
    exists|id: int| #[trigger] inbox.contains_key(id) && inbox[id].message_id == message_id
}

/// The inbox after a mention was offered to it: one of a message already there changes
/// nothing.
pub open spec fn after_offer(inbox: Map<int, InboxRow>, id: int, m: NewMention) -> Map<int, InboxRow> {
    if holds(inbox, m.message_id@) {
        inbox
    } else {
        inbox.insert(id, InboxRow { message_id: m.message_id@, seen: false })
    }
}

/// What one statement does to the inbox, as the database reads it, and how many rows it
/// changes.
pub open spec fn after_marking(inbox: Map<int, InboxRow>, s: Statement) -> (Map<int, InboxRow>, nat) {
    let params = bound(s.params@);
    if s.sql@ == MARK_ONE@ && params.len() == 1 && params[0] is Integer {
        let id = params[0]->Integer_0;
        if is_unseen(inbox, id) {
            (inbox.insert(id, InboxRow { seen: true, ..inbox[id] }), 1)
        } else {
            (inbox, 0)
        }
    } else if s.sql@ == MARK_ALL@ {
        (
            inbox.map_values(|row: InboxRow| InboxRow { seen: true, ..row }),
            unseen(inbox).len(),
        )
    } else {
        (inbox, 0)
    }
}

/// What statements do to the inbox, one after the other, and how many rows they change.
pub open spec fn after_marking_all(
    inbox: Map<int, InboxRow>,
    statements: Seq<Statement>,
) -> (Map<int, InboxRow>, nat)
    decreases statements.len(),
{
    if statements.len() == 0 {
        (inbox, 0)
    } else {
        let (before, n) = after_marking_all(inbox, statements.drop_last());
        let (after, m) = after_marking(before, statements.last());
        (after, n + m)
    }
}

/// The mentions that were not seen yet.
pub open spec fn unseen(inbox: Map<int, InboxRow>) -> Set<int> {
    inbox.dom().filter(|id: int| is_unseen(inbox, id))
}

/// A mention is asked for: by its id, or with all the others.
pub open spec fn is_meant(ids: Option<Vec<i64>>, id: int) -> bool {
    ids matches Some(ids) ==> exists|i: int| 0 <= i < ids@.len() && #[trigger] ids@[i] == id
}

/// The inbox with the meant mentions seen, and everything else as it was.
pub open spec fn with_seen(inbox: Map<int, InboxRow>, ids: Option<Vec<i64>>) -> Map<int, InboxRow> {
    Map::new(
        |id: int| inbox.contains_key(id),
        |id: int| InboxRow { seen: inbox[id].seen || is_meant(ids, id), ..inbox[id] },
    )
}

/// A mention that is shown unless the seen ones are asked for too.
pub open spec fn is_unseen(inbox: Map<int, InboxRow>, id: int) -> bool {
    inbox.contains_key(id) && !inbox[id].seen
}

/// No message is in the inbox twice.
pub open spec fn holds_each_once(inbox: Map<int, InboxRow>) -> bool {
    forall|i: int, j: int| #[trigger]
        inbox.contains_key(i) && #[trigger] inbox.contains_key(j) && inbox[i].message_id
            == inbox[j].message_id ==> i == j
}

/// The inbox keeps a message once: offering it again changes nothing, and a new one is unseen.
pub proof fn lemma_the_inbox_keeps_a_message_once(inbox: Map<int, InboxRow>, id: int, m: NewMention)
    requires
        holds_each_once(inbox),
        !inbox.contains_key(id),
    ensures
        holds_each_once(after_offer(inbox, id, m)),
        holds(after_offer(inbox, id, m), m.message_id@),
        forall|next: int, again: NewMention|
            again.message_id@ == m.message_id@ ==> #[trigger] after_offer(
                after_offer(inbox, id, m),
                next,
                again,
            ) == after_offer(inbox, id, m),
        !holds(inbox, m.message_id@) ==> is_unseen(after_offer(inbox, id, m), id),
{
    let after = after_offer(inbox, id, m);
    if !holds(inbox, m.message_id@) {
        assert(after.contains_key(id));
        assert forall|i: int, j: int| #[trigger]
            after.contains_key(i) && #[trigger] after.contains_key(j) && after[i].message_id
                == after[j].message_id implies i == j by {
            if i != id {
                assert(inbox.contains_key(i));
            }
            if j != id {
                assert(inbox.contains_key(j));
            }
        }
    }
}

/// A mention stands among the first ids.
spec fn among(ids: Seq<i64>, id: int) -> bool {
    exists|i: int| 0 <= i < ids.len() && #[trigger] ids[i] == id
}

spec fn seen_among(inbox: Map<int, InboxRow>, ids: Seq<i64>) -> Map<int, InboxRow> {
    Map::new(
        |id: int| inbox.contains_key(id),
        |id: int| InboxRow { seen: inbox[id].seen || among(ids, id), ..inbox[id] },
    )
}

proof fn lemma_among_step(ids: Seq<i64>, id: int)
    requires
        ids.len() > 0,
    ensures
        among(ids, id) <==> among(ids.drop_last(), id) || ids.last() == id,
{
    let front = ids.drop_last();
    if among(ids, id) {
        let i = choose|i: int| 0 <= i < ids.len() && #[trigger] ids[i] == id;
        if i < front.len() {
            assert(front[i] == id);
        }
    }
    if among(front, id) {
        let i = choose|i: int| 0 <= i < front.len() && #[trigger] front[i] == id;
        assert(ids[i] == id);
    }
    if ids.last() == id {
        assert(ids[ids.len() - 1] == id);
    }
}

proof fn lemma_marking_each(inbox: Map<int, InboxRow>, ids: Seq<i64>, statements: Seq<Statement>)
    requires
        inbox.dom().finite(),
        marks_each(ids, statements),
    ensures
        after_marking_all(inbox, statements).0 == seen_among(inbox, ids),
        after_marking_all(inbox, statements).1 == unseen(inbox).filter(|id: int| among(ids, id)).len(),
    decreases ids.len(),
{
    let meant = unseen(inbox).filter(|id: int| among(ids, id));
    if ids.len() == 0 {
        assert(seen_among(inbox, ids) =~= inbox);
        assert(meant =~= Set::empty());
    } else {
        let front = ids.drop_last();
        let id = ids.last() as int;
        let fewer = statements.drop_last();
        assert forall|i: int| 0 <= i < front.len() implies (#[trigger] fewer[i]).is(
            MARK_ONE@,
            seq![Bound::Integer(front[i] as int)],
        ) by {
            assert(statements[i].is(MARK_ONE@, seq![Bound::Integer(ids[i] as int)]));
        }
        lemma_marking_each(inbox, front, fewer);
        let before = seen_among(inbox, front);
        let met = unseen(inbox).filter(|x: int| among(front, x));
        let last = statements.last();
        assert(last == statements[ids.len() - 1]);
        assert(bound(last.params@) == seq![Bound::Integer(id)]);
        assert forall|x: int| among(ids, x) <==> among(front, x) || x == id by {
            lemma_among_step(ids, x);
        }
        if is_unseen(before, id) {
            assert(meant =~= met.insert(id));
            assert(!met.contains(id));
        } else {
            assert(meant =~= met);
        }
        assert(after_marking(before, last).0 =~= seen_among(inbox, ids));
    }
}

/// Marking mentions marks exactly those that are meant and were not seen, and says how many
/// they were: every other one stays as it was, none is added and none forgotten. Doing it
/// again marks none.
pub proof fn lemma_marked_mentions_are_hidden(
    inbox: Map<int, InboxRow>,
    ids: Option<Vec<i64>>,
    statements: Seq<Statement>,
)
    requires
        inbox.dom().finite(),
        marks(ids, statements),
    ensures
        ({
            let (after, marked) = after_marking_all(inbox, statements);
            &&& after == with_seen(inbox, ids)
            &&& marked == unseen(inbox).filter(|id: int| is_meant(ids, id)).len()
            &&& after_marking_all(after, statements) == (after, 0nat)
            &&& forall|id: int|
                #![trigger is_unseen(after, id)]
                is_unseen(after, id) <==> is_unseen(inbox, id) && !is_meant(ids, id)
        }),
{
    let (after, marked) = after_marking_all(inbox, statements);
    match ids {
        Some(list) => {
            let l = list@;
            lemma_marking_each(inbox, l, statements);
            assert forall|id: int| is_meant(ids, id) == among(l, id) by {}
            assert(seen_among(inbox, l) =~= with_seen(inbox, ids));
            assert(unseen(inbox).filter(|id: int| among(l, id)) =~= unseen(inbox).filter(
                |id: int| is_meant(ids, id),
            ));
            assert(after.dom() =~= inbox.dom());
            lemma_marking_each(after, l, statements);
            assert(seen_among(after, l) =~= after);
            assert(unseen(after).filter(|id: int| among(l, id)) =~= Set::empty());
        },
        None => {
            reveal_strlit("update mentions set seen = 1 where id = ?1 and seen = 0");
            reveal_strlit("update mentions set seen = 1 where seen = 0");
            assert(MARK_ONE@.len() != MARK_ALL@.len());
            reveal_with_fuel(after_marking_all, 2);
            assert(statements.drop_last() =~= seq![]);
            assert(statements.last() == statements[0]);
            assert(after =~= with_seen(inbox, ids));
            assert(unseen(inbox).filter(|id: int| is_meant(ids, id)) =~= unseen(inbox));
            assert(unseen(after) =~= Set::empty());
            assert(after.map_values(|row: InboxRow| InboxRow { seen: true, ..row }) =~= after);
        },
    }
}

/// The inbox is listed newest first, up to the limit: the unseen mentions, or all of them.
pub proof fn lemma_the_inbox_lists_the_newest(
    inbox: Map<int, InboxRow>,
    include_seen: bool,
    limit: u8,
    s: Statement,
    rows: Seq<int>,
)
    requires
        inbox.dom().finite(),
        s.is(list_sql(include_seen), seq![Bound::Integer(limit as int)]),
        gives(s, shown_mentions(inbox, include_seen), rows),
    ensures
        are_the_newest(rows, shown_mentions(inbox, include_seen), limit as nat),
{
    let which = if include_seen {
        "1 = 1"@
    } else {
        "seen = 0"@
    };
    assert(s.sql@ == LIST_HEAD@ + which + LIST_TAIL@);
    assert(asks_newest(s, limit as nat));
    lemma_the_newest_are_given(s, shown_mentions(inbox, include_seen), rows, limit as nat);
}

/// The mentions that the inbox shows: the unseen, or all of them.
pub open spec fn shown_mentions(inbox: Map<int, InboxRow>, include_seen: bool) -> Set<int> {
    if include_seen {
        inbox.dom()
    } else {
        unseen(inbox)
    }
}

/// The numbers of the rows that a filter asks for.
pub open spec fn asked_rows(rows: Map<int, ModAction>, f: ModlogFilter) -> Set<int> {
    rows.dom().filter(|id: int| row_asked_for(f, rows[id]))
}

/// The ledger is read newest first, up to the limit: of the rows that were asked for, those
/// with the greatest numbers, in descending order.
pub proof fn lemma_a_query_reads_the_newest(
    ledger: Map<int, ModAction>,
    f: ModlogFilter,
    limit: u8,
    s: Statement,
    rows: Seq<int>,
)
    requires
        ledger.dom().finite(),
        s.is(query_sql(f, limit), condition_values(conditions(f))),
        gives(s, ledger.dom().filter(|id: int| meets_all(conditions(f), ledger[id])), rows),
    ensures
        are_the_newest(rows, asked_rows(ledger, f), limit as nat),
{
    let met = ledger.dom().filter(|id: int| meets_all(conditions(f), ledger[id]));
    assert forall|id: int| meets_all(conditions(f), ledger[id]) == #[trigger] row_asked_for(
        f,
        ledger[id],
    ) by {
        lemma_a_filter_reads_what_was_asked(f, ledger[id]);
    }
    assert(met =~= asked_rows(ledger, f));
    let head = QUERY_HEAD@ + filter_text(f);
    assert(s.sql@ == head + QUERY_ORDER@ + decimal(limit as nat) + QUERY_END@);
    assert(asks_newest(s, limit as nat));
    lemma_the_newest_are_given(s, met, rows, limit as nat);
}

} // verus!
