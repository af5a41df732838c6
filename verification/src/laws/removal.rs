//! Messages that are taken away: each of them, once, and not before it was written down.

use vstd::prelude::*;

use crate::server::tools::raid::PurgePlan;
use crate::server::tools::removal::{Removal, RemovalStep};

verus! {

/// The messages that a step takes away.
pub open spec fn goes_with(s: RemovalStep) -> Seq<u64> {
    match s {
        RemovalStep::DeleteOne(id) => seq![id],
        RemovalStep::DeleteBulk(ids) => ids@,
        _ => Seq::empty(),
    }
}

/// The messages that are not gone yet, in the order in which they go.
pub open spec fn still_there(r: Removal) -> Seq<u64> {
    (if r.young_gone {
        Seq::empty()
    } else {
        r.young@
    }) + r.old@.skip(r.old_gone as int)
}

/// A removal is of every message of the purge, or of the one message, and starts with all of
/// them still there and nothing written.
pub proof fn lemma_a_removal_is_of_the_plan(plan: PurgePlan, r: Removal, message: u64, one: Removal)
    requires
        call_ensures(Removal::of_plan, (&plan,), r),
        call_ensures(Removal::of_one, (message,), one),
    ensures
        r.wf() && one.wf(),
        r.ledger_id is None && one.ledger_id is None,
        still_there(r) == plan.young@ + plan.old@,
        still_there(one) == seq![message],
{
    assert(r.old@.skip(0) =~= r.old@);
    assert(one.old@.skip(0) =~= one.old@);
    assert(still_there(one) =~= seq![message]);
}

/// How many messages go: all of them.
pub proof fn lemma_all_are_counted(r: Removal, n: u128)
    requires
        call_ensures(Removal::count, (&r,), n),
    ensures
        n == (r.young@ + r.old@).len(),
{
}

/// What comes next: the row before anything else; then messages that are still there, from the
/// front, at least one, in bulk only where there are several; and the end only where none is
/// left.
pub proof fn lemma_what_goes_next(r: Removal, s: RemovalStep)
    requires
        r.wf(),
        call_ensures(Removal::next, (&r,), s),
    ensures
        s is WriteRow <==> r.ledger_id is None,
        s matches RemovalStep::Done { ledger_id } ==> r.ledger_id == Some(ledger_id) && still_there(r).len() == 0,
        r.ledger_id is Some && still_there(r).len() == 0 ==> s is Done,
        r.ledger_id is Some && still_there(r).len() > 0 ==> goes_with(s).len() > 0 && goes_with(s)
            =~= still_there(r).take(goes_with(s).len() as int),
        s matches RemovalStep::DeleteBulk(ids) ==> ids@.len() > 1,
{
    let old = r.old@.skip(r.old_gone as int);
    let left = r.left();
    if r.ledger_id is None {
        assert(left[0] is Write);
    } else if !r.young_gone && r.young@.len() > 0 {
        assert(left[0] == crate::server::tools::removal::Step::Delete(r.young@));
        assert(still_there(r).take(r.young@.len() as int) =~= r.young@);
    } else if old.len() > 0 {
        assert(left[0] == crate::server::tools::removal::Step::Delete(seq![old[0]]));
        assert(still_there(r) =~= old);
        assert(still_there(r).take(1) =~= seq![old[0]]);
    } else {
        assert(left =~= Seq::empty());
    }
}

/// Once the row is written its id is kept, and every message is still there.
pub proof fn lemma_writing_takes_nothing_away(r: &mut Removal, ledger_id: i64)
    requires
        old(r).wf(),
        old(r).ledger_id is None,
        call_ensures(Removal::written, (r, ledger_id), ()),
    ensures
        final(r).wf(),
        final(r).ledger_id == Some(ledger_id),
        still_there(*final(r)) == still_there(*old(r)),
{
    let before = *old(r);
    let after = *final(r);
    assert(after.left().len() == before.left().len() - 1);
    assert(!before.young_gone && before.old_gone == 0);
    assert(after.old_gone == 0);
}

/// Once a step is done its messages are gone, and no other: what it took away stood at the
/// front of what was still there.
pub proof fn lemma_a_step_takes_its_own(r: &mut Removal, s: RemovalStep)
    requires
        old(r).wf(),
        old(r).ledger_id is Some,
        still_there(*old(r)).len() > 0,
        call_ensures(Removal::next, (old(r),), s),
        call_ensures(Removal::deleted, (r,), ()),
    ensures
        final(r).wf(),
        final(r).ledger_id == old(r).ledger_id,
        goes_with(s) + still_there(*final(r)) == still_there(*old(r)),
{
    let before = *old(r);
    let after = *final(r);
    lemma_what_goes_next(before, s);
    assert(after.left().len() == before.left().len() - 1);
    if !before.young_gone && before.young@.len() > 0 {
        assert(before.left()[0] == crate::server::tools::removal::Step::Delete(before.young@));
        assert(after.young_gone && after.old_gone == before.old_gone);
        assert(goes_with(s) =~= before.young@);
        assert(goes_with(s) + still_there(after) =~= still_there(before));
    } else {
        assert(before.left()[0] == crate::server::tools::removal::Step::Delete(
            seq![before.old@[before.old_gone as int]],
        ));
        assert(after.old_gone == before.old_gone + 1);
        assert(goes_with(s) =~= seq![before.old@[before.old_gone as int]]);
        assert(goes_with(s) + still_there(after) =~= still_there(before));
    }
}

} // verus!
