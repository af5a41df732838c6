//! What a whole sweep over the wire reads: the law that it goes back as far as it may and no
//! further, and says where it stopped.

use vstd::prelude::*;

use crate::discord::wire::Message;
use crate::server::tools::scan::{above, is_start_of, sweeps, RestSweep, ScanChannelRequest, PAGE_SIZE};

verus! {

/// A channel's messages, newest first.
pub open spec fn descends(history: Seq<Message>) -> bool {
    forall|i: int, j: int| 0 <= i < j < history.len() ==> history[i].id > history[j].id
}

/// How many of a channel's messages are not older than an anchor.
pub open spec fn not_older(history: Seq<Message>, anchor: u64) -> nat
    decreases history.len(),
{
    if history.len() == 0 || history[0].id < anchor {
        0
    } else {
        1 + not_older(history.drop_first(), anchor)
    }
}

/// The messages older than an anchor; all of them, where there is none.
pub open spec fn older(history: Seq<Message>, anchor: Option<u64>) -> Seq<Message> {
    match anchor {
        Some(anchor) => history.skip(not_older(history, anchor) as int),
        None => history,
    }
}

/// The first of some messages, so many at most.
pub open spec fn first(messages: Seq<Message>, n: int) -> Seq<Message> {
    if messages.len() <= n {
        messages
    } else {
        messages.take(n)
    }
}

/// A page as Discord answers it: the newest messages older than the anchor.
pub open spec fn page_of(history: Seq<Message>, anchor: Option<u64>) -> Seq<Message> {
    first(older(history, anchor), PAGE_SIZE as int)
}

/// A sweep of a channel from its start to its end, page by page.
pub open spec fn is_whole_sweep(history: Seq<Message>, states: Seq<RestSweep>) -> bool {
    &&& sweeps(|anchor: Option<u64>| page_of(history, anchor), states)
    &&& forall|i: int| 0 <= i < states.len() - 1 ==> !(#[trigger] states[i]).done
    &&& states.last().done
}

/// Everything that a sweep can meet within its pages.
pub open spec fn met(history: Seq<Message>, start: RestSweep) -> Seq<Message> {
    first(older(history, start.cursor), PAGE_SIZE * start.max_pages)
}

/// What a sweep reads: what it meets, down to the floor.
pub open spec fn read_of_all(history: Seq<Message>, start: RestSweep) -> Seq<Message> {
    met(history, start).take(above(met(history, start), start.floor) as int)
}

proof fn lemma_not_older_bounds(history: Seq<Message>, anchor: u64)
    ensures
        not_older(history, anchor) <= history.len(),
    decreases history.len(),
{
    if history.len() > 0 {
        lemma_not_older_bounds(history.drop_first(), anchor);
    }
}

proof fn lemma_not_older_of_one(history: Seq<Message>, j: int)
    requires
        descends(history),
        0 <= j < history.len(),
    ensures
        not_older(history, history[j].id) == j + 1,
    decreases history.len(),
{
    let rest = history.drop_first();
    let id = history[j].id;
    assert(descends(rest)) by {
        assert forall|a: int, b: int| 0 <= a < b < rest.len() implies rest[a].id > rest[b].id by {
            assert(history[a + 1].id > history[b + 1].id);
        }
    }
    if j > 0 {
        assert(history[0].id > history[j].id);
        assert(rest[j - 1] == history[j]);
        lemma_not_older_of_one(rest, j - 1);
    } else if rest.len() > 0 {
        assert(history[0].id > history[1].id);
        assert(rest[0].id < id);
        assert(not_older(rest, id) == 0);
    } else {
        assert(not_older(rest, id) == 0);
    }
}

/// Behind a message come exactly the next older ones.
proof fn lemma_behind(history: Seq<Message>, anchor: Option<u64>, k: int)
    requires
        descends(history),
        0 < k <= older(history, anchor).len(),
    ensures
        older(history, Some(older(history, anchor)[k - 1].id)) == older(history, anchor).skip(k),
{
    let skipped = match anchor {
        Some(anchor) => not_older(history, anchor) as int,
        None => 0,
    };
    if let Some(a) = anchor {
        lemma_not_older_bounds(history, a);
    }
    let all = older(history, anchor);
    assert(all =~= history.skip(skipped));
    assert(all[k - 1] == history[skipped + k - 1]);
    lemma_not_older_of_one(history, skipped + k - 1);
    assert(history.skip(skipped + k) =~= all.skip(k));
}

proof fn lemma_above_bounds(page: Seq<Message>, floor: Option<u64>)
    ensures
        above(page, floor) <= page.len(),
    decreases page.len(),
{
    if page.len() > 0 {
        lemma_above_bounds(page.drop_first(), floor);
    }
}

proof fn lemma_above_both(a: Seq<Message>, b: Seq<Message>, floor: Option<u64>)
    ensures
        above(a + b, floor) == if above(a, floor) == a.len() {
            a.len() + above(b, floor)
        } else {
            above(a, floor)
        },
    decreases a.len(),
{
    if a.len() == 0 {
        assert(a + b =~= b);
    } else {
        lemma_above_bounds(a.drop_first(), floor);
        lemma_above_both(a.drop_first(), b, floor);
        assert((a + b).drop_first() =~= a.drop_first() + b);
        assert((a + b)[0] == a[0]);
    }
}

/// How many messages lie within so many pages.
spec fn reach(all: Seq<Message>, pages: int) -> int {
    if all.len() <= 100 * pages {
        all.len() as int
    } else {
        100 * pages
    }
}

/// The id of the last of the first messages.
spec fn last_id(all: Seq<Message>, k: int) -> Option<u64> {
    if k > 0 {
        Some(all[k - 1].id)
    } else {
        None
    }
}

/// A sweep that has read some messages, as its fields say.
spec fn has_read(start: RestSweep, all: Seq<Message>, k: int, s: RestSweep) -> bool {
    &&& s.filters == start.filters
    &&& s.floor == start.floor
    &&& s.max_pages == start.max_pages
    &&& s.scanned == k
    &&& s.oldest == last_id(all, k)
    &&& s.matches@ == all.take(k).filter(|m: Message| start.filters.keeps(m))
}

/// A sweep under way, after so many pages: all of them were full of what it reads.
spec fn under_way(history: Seq<Message>, start: RestSweep, n: int, s: RestSweep) -> bool {
    let all = older(history, start.cursor);
    let k = reach(all, n);
    &&& !s.done
    &&& s.pages == n
    &&& 0 <= n < start.max_pages
    &&& n > 0 ==> all.len() > 100 * (n - 1)
    &&& has_read(start, all, k, s)
    &&& s.cursor == if k > 0 {
        last_id(all, k)
    } else {
        start.cursor
    }
    &&& above(all.take(k), start.floor) == k
}

/// A sweep that has ended, as the law says.
spec fn has_ended(history: Seq<Message>, start: RestSweep, n: int, s: RestSweep) -> bool {
    let all = older(history, start.cursor);
    let k = above(met(history, start), start.floor) as int;
    &&& n <= start.max_pages
    &&& has_read(start, all, k, s)
    &&& s.reached_cap <==> all.len() > 100 * (start.max_pages - 1) && k == met(history, start).len()
    &&& s.reached_cap <==> s.pages == start.max_pages && k == met(history, start).len()
}

proof fn lemma_one_page_more(
    history: Seq<Message>,
    start: RestSweep,
    n: int,
    s: RestSweep,
    t: RestSweep,
)
    requires
        descends(history),
        start.max_pages >= 1,
        under_way(history, start, n, s),
        s.takes(page_of(history, s.cursor), t),
    ensures
        t.done ==> has_ended(history, start, n + 1, t),
        !t.done ==> under_way(history, start, n + 1, t),
{
    let all = older(history, start.cursor);
    let k = reach(all, n);
    let page = page_of(history, s.cursor);
    let k2 = reach(all, n + 1);
    let floor = start.floor;
    let reached = met(history, start);
    let end = reach(all, start.max_pages as int);
    let keep = |m: Message| start.filters.keeps(m);
    let kept = |m: Message| s.filters.keeps(m);
    assert(keep =~= kept);
    if k > 0 {
        lemma_behind(history, start.cursor, k);
    }
    assert(older(history, s.cursor) =~= all.skip(k));
    assert(page =~= all.subrange(k, k2));
    assert(reached =~= all.take(end));
    assert(k2 <= end);
    assert(all.take(k2) =~= all.take(k) + page);
    assert(reached =~= all.take(k2) + all.subrange(k2, end));
    lemma_above_bounds(page, floor);
    lemma_above_both(all.take(k), page, floor);
    lemma_above_both(all.take(k2), all.subrange(k2, end), floor);
    let more = above(page, floor) as int;
    let read = page.take(more);
    assert(s.read_of(page) =~= read);
    assert(all.take(k + more) =~= all.take(k) + read);
    Seq::<Message>::filter_distributes_over_add(all.take(k), read, keep);
    assert(t.matches@ =~= all.take(k + more).filter(keep));
    if more > 0 {
        assert(read.last() == all[k + more - 1]);
    }
    assert(has_read(start, all, k + more, t));
    if page.len() == 0 {
        assert(k2 == end && more == 0);
        assert(all.subrange(k2, end) =~= seq![]);
    } else if more == page.len() && n + 1 >= start.max_pages {
        assert(all.subrange(k2, end) =~= seq![]);
    }
}

proof fn lemma_states_stand(history: Seq<Message>, states: Seq<RestSweep>, n: int)
    requires
        descends(history),
        is_whole_sweep(history, states),
        under_way(history, states[0], 0, states[0]),
        0 <= n < states.len() - 1,
    ensures
        under_way(history, states[0], n, states[n]),
    decreases n,
{
    if n > 0 {
        lemma_states_stand(history, states, n - 1);
        let channel = |anchor: Option<u64>| page_of(history, anchor);
        assert(states[n - 1].takes(channel(states[n - 1].cursor), states[n - 1 + 1]));
        lemma_one_page_more(history, states[0], n - 1, states[n - 1], states[n]);
    }
}

/// A sweep goes back as far as it may: it reads everything older than its anchor down to the
/// floor, within its pages, and keeps what passes its filters. It asks for no more pages than
/// allowed, the oldest id it names is the least it read, and behind that id lie exactly the
/// messages that come next. It says that it reached its cap exactly where its last page held
/// something and nothing it met lay at or below the floor.
pub proof fn lemma_a_sweep_goes_as_far_as_it_may(
    history: Seq<Message>,
    req: ScanChannelRequest,
    states: Seq<RestSweep>,
)
    requires
        descends(history),
        is_start_of(states[0], req),
        is_whole_sweep(history, states),
    ensures
        ({
            let start = states[0];
            let s = states.last();
            let all = older(history, start.cursor);
            let read = read_of_all(history, start);
            &&& states.len() - 1 <= start.max_pages
            &&& s.scanned == read.len()
            &&& s.matches@ == read.filter(|m: Message| start.filters.keeps(m))
            &&& read.len() == 0 ==> s.oldest is None
            &&& read.len() > 0 ==> s.oldest == Some(read.last().id)
            &&& forall|i: int| 0 <= i < read.len() ==> s.oldest->0 <= (#[trigger] read[i]).id
            &&& read.len() > 0 ==> older(history, s.oldest) == all.skip(read.len() as int)
            &&& s.reached_cap <==> all.len() > PAGE_SIZE * (start.max_pages - 1) && read.len() == met(
                history,
                start,
            ).len()
            &&& s.reached_cap <==> s.pages == start.max_pages && read.len() == met(history, start).len()
        }),
{
    let start = states[0];
    let all = older(history, start.cursor);
    assert(all.take(0) =~= seq![]);
    assert(start.matches@ =~= all.take(0).filter(|m: Message| start.filters.keeps(m))) by {
        reveal(Seq::filter);
    }
    assert(under_way(history, start, 0, start));
    let n = states.len() - 2;
    assert(states.len() > 1);
    lemma_states_stand(history, states, n);
    let channel = |anchor: Option<u64>| page_of(history, anchor);
    assert(states[n].takes(channel(states[n].cursor), states[n + 1]));
    let s = states.last();
    lemma_one_page_more(history, start, n, states[n], s);
    let reached = met(history, start);
    let k = above(reached, start.floor) as int;
    lemma_above_bounds(reached, start.floor);
    let read = read_of_all(history, start);
    assert(read =~= all.take(k));
    if k > 0 {
        lemma_behind(history, start.cursor, k);
        if let Some(a) = start.cursor {
            lemma_not_older_bounds(history, a);
        }
        assert forall|i: int| 0 <= i < read.len() implies s.oldest->0 <= (#[trigger] read[i]).id by {
            let skipped = match start.cursor {
                Some(anchor) => not_older(history, anchor) as int,
                None => 0,
            };
            assert(read[i] == history[skipped + i]);
            assert(read[k - 1] == history[skipped + k - 1]);
        }
    }
}

} // verus!
