//! What the end of a reading statement means: the law that the rows come newest first, and no
//! more of them than were asked for.

use vstd::prelude::*;

use crate::archive::{placeholder, SCAN_ORDER, SEARCH_ORDER};
use crate::mentions::LIST_TAIL;
use crate::modlog::{QUERY_END, QUERY_ORDER};
use crate::sql::{bound, Bound, Statement};
use crate::text::decimal;

verus! {

/// The greatest of some ids.
pub open spec fn is_newest(ids: Set<int>, top: int) -> bool {
    ids.contains(top) && forall|id: int| #[trigger] ids.contains(id) ==> id <= top
}

/// Ids in descending order, up to a limit: the greatest first, then those of the rest.
pub open spec fn newest_first(ids: Set<int>, limit: nat) -> Seq<int>
    decreases limit,
{
    if limit == 0 || ids =~= Set::empty() {
        seq![]
    } else {
        let top = choose|top: int| is_newest(ids, top);
        seq![top] + newest_first(ids.remove(top), (limit - 1) as nat)
    }
}

/// A statement asks for the newest rows, so many at most. Each of the four ends names the
/// number in its own way: written out, or bound in one of the statement's places.
pub open spec fn asks_newest(s: Statement, limit: nat) -> bool {
    let params = bound(s.params@);
    ||| exists|head: Seq<char>, n: nat| s.sql@ == #[trigger] (head + SCAN_ORDER@ + placeholder(n))
        && 1 <= n <= params.len() && params[n - 1] == Bound::Integer(limit as int)
    ||| exists|head: Seq<char>| s.sql@ == #[trigger] (head + SEARCH_ORDER@) && params.len() >= 2
        && params[1] == Bound::Integer(limit as int)
    ||| exists|head: Seq<char>| s.sql@ == #[trigger] (head + LIST_TAIL@) && params.len() >= 1
        && params[0] == Bound::Integer(limit as int)
    ||| exists|head: Seq<char>| s.sql@ == #[trigger] (head + QUERY_ORDER@ + decimal(limit) + QUERY_END@)
}

/// The rows that a statement gives of those its conditions select, as the database reads its
/// end.
pub open spec fn gives(s: Statement, selected: Set<int>, rows: Seq<int>) -> bool {
    forall|limit: nat| #[trigger] asks_newest(s, limit) ==> rows == newest_first(selected, limit)
}

/// Rows are the first of some ids: strictly descending, among them, as many as there are up to
/// the limit, and none left out is newer than any of them.
pub open spec fn are_the_newest(rows: Seq<int>, ids: Set<int>, limit: nat) -> bool {
    &&& forall|i: int, j: int| 0 <= i < j < rows.len() ==> rows[i] > rows[j]
    &&& forall|i: int| 0 <= i < rows.len() ==> ids.contains(#[trigger] rows[i])
    &&& rows.len() == if ids.len() < limit {
        ids.len()
    } else {
        limit
    }
    &&& forall|id: int, i: int|
        #![trigger ids.contains(id), rows[i]]
        ids.contains(id) && !rows.contains(id) && 0 <= i < rows.len() ==> rows[i] > id
}

proof fn lemma_some_id_is_newest(ids: Set<int>)
    requires
        ids.finite(),
        ids.len() > 0,
    ensures
        exists|top: int| is_newest(ids, top),
    decreases ids.len(),
{
    let one = ids.choose();
    let rest = ids.remove(one);
    if rest.len() == 0 {
        assert(rest =~= Set::empty());
        assert forall|id: int| #[trigger] ids.contains(id) implies id <= one by {
            if id != one {
                assert(rest.contains(id));
            }
        }
        assert(is_newest(ids, one));
    } else {
        lemma_some_id_is_newest(rest);
        let top = choose|top: int| is_newest(rest, top);
        let greater = if top < one {
            one
        } else {
            top
        };
        assert forall|id: int| #[trigger] ids.contains(id) implies id <= greater by {
            if id != one {
                assert(rest.contains(id));
            }
        }
        assert(is_newest(ids, greater));
    }
}

/// Descending ids up to a limit are the newest ones.
pub proof fn lemma_newest_first(ids: Set<int>, limit: nat)
    requires
        ids.finite(),
    ensures
        are_the_newest(newest_first(ids, limit), ids, limit),
    decreases limit,
{
    if limit > 0 && ids.len() > 0 {
        lemma_some_id_is_newest(ids);
        assert(!(ids =~= Set::empty()));
        let top = choose|top: int| is_newest(ids, top);
        let rest = ids.remove(top);
        let later = newest_first(rest, (limit - 1) as nat);
        let rows = newest_first(ids, limit);
        lemma_newest_first(rest, (limit - 1) as nat);
        assert(rows =~= seq![top] + later);
        assert forall|i: int| 0 <= i < rows.len() implies ids.contains(#[trigger] rows[i]) by {
            if i > 0 {
                assert(rest.contains(later[i - 1]));
            }
        }
        assert forall|i: int, j: int| 0 <= i < j < rows.len() implies rows[i] > rows[j] by {
            assert(rest.contains(later[j - 1]));
            if i > 0 {
                assert(later[i - 1] > later[j - 1]);
            }
        }
        assert forall|id: int, i: int|
            #![trigger ids.contains(id), rows[i]]
            ids.contains(id) && !rows.contains(id) && 0 <= i < rows.len() implies rows[i] > id by {
            assert(rows[0] == top);
            assert(id != top);
            assert(rest.contains(id));
            if i > 0 {
                if later.contains(id) {
                    let k = choose|k: int| 0 <= k < later.len() && later[k] == id;
                    assert(rows[k + 1] == id);
                }
                assert(later[i - 1] > id);
            }
        }
    } else if ids.len() == 0 {
        assert(ids =~= Set::empty());
    }
}

/// Whatever statement asks for the newest rows is given them.
pub proof fn lemma_the_newest_are_given(s: Statement, selected: Set<int>, rows: Seq<int>, limit: nat)
    requires
        asks_newest(s, limit),
        gives(s, selected, rows),
        selected.finite(),
    ensures
        are_the_newest(rows, selected, limit),
{
    lemma_newest_first(selected, limit);
}

} // verus!
