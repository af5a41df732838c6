//! Taking messages away: what they said is in the ledger before the first of them goes.

use vstd::prelude::*;

use crate::server::copy_ids;
use crate::server::tools::raid::PurgePlan;

verus! {

/// The next thing to do of a removal.
pub enum RemovalStep {
    WriteRow,
    DeleteOne(u64),
    DeleteBulk(Vec<u64>),
    Done { ledger_id: i64 },
}

/// A step, as a mathematical value.
pub enum Step {
    Write,
    Delete(Seq<u64>),
}

/// A removal under way: the row that tells of it, once it is written, and how far the
/// messages are gone.
pub struct Removal {
    pub young: Vec<u64>,
    pub old: Vec<u64>,
    pub ledger_id: Option<i64>,
    pub young_gone: bool,
    pub old_gone: usize,
}

/// The young messages go in one step, where there are any.
pub open spec fn young_steps(young: Seq<u64>) -> Seq<Step> {
    if young.len() == 0 {
        seq![]
    } else {
        seq![Step::Delete(young)]
    }
}

/// The old messages go one by one.
pub open spec fn old_steps(old: Seq<u64>) -> Seq<Step> {
    old.map_values(|id: u64| Step::Delete(seq![id]))
}

/// Everything to do of a removal, in order: the row, the young messages, the old ones.
pub open spec fn whole_removal(young: Seq<u64>, old: Seq<u64>) -> Seq<Step> {
    seq![Step::Write] + young_steps(young) + old_steps(old)
}

/// The messages that steps take away.
pub open spec fn taken_away(steps: Seq<Step>) -> Seq<u64>
    decreases steps.len(),
{
    if steps.len() == 0 {
        seq![]
    } else {
        taken_away(steps.drop_last()) + match steps.last() {
            Step::Write => seq![],
            Step::Delete(ids) => ids,
        }
    }
}

impl Removal {
    /// Nothing is gone before the row is written, and the old messages go last.
    pub open spec fn wf(self) -> bool {
        &&& self.old_gone <= self.old@.len()
        &&& self.young_gone ==> self.ledger_id is Some
        &&& self.old_gone > 0 ==> self.ledger_id is Some && (self.young_gone || self.young@.len() == 0)
        &&& self.young_gone ==> self.young@.len() > 0
    }

    /// What is left to do.
    pub open spec fn left(self) -> Seq<Step> {
        (if self.ledger_id is None {
            seq![Step::Write]
        } else {
            seq![]
        }) + (if self.young_gone {
            seq![]
        } else {
            young_steps(self.young@)
        }) + old_steps(self.old@.skip(self.old_gone as int))
    }

    /// A removal of the messages of a purge, of which nothing is done yet.
    pub fn of_plan(plan: &PurgePlan) -> (r: Self)
        ensures
            r.wf(),
            r.young@ == plan.young@,
            r.old@ == plan.old@,
            r.ledger_id is None,
            r.left() == whole_removal(plan.young@, plan.old@),
    {
        let r = Removal {
            young: copy_ids(&plan.young),
            old: copy_ids(&plan.old),
            ledger_id: None,
            young_gone: false,
            old_gone: 0,
        };
        assert(r.old@.skip(0) =~= r.old@);
        r
    }

    /// A removal of one message, of which nothing is done yet.
    pub fn of_one(message: u64) -> (r: Self)
        ensures
            r.wf(),
            r.young@ == seq![message],
            r.old@.len() == 0,
            r.ledger_id is None,
            r.left() == whole_removal(seq![message], seq![]),
    {
        let mut young: Vec<u64> = Vec::new();
        young.push(message);
        let r = Removal { young, old: Vec::new(), ledger_id: None, young_gone: false, old_gone: 0 };
        assert(r.young@ =~= seq![message]);
        assert(r.old@ =~= seq![]);
        assert(r.old@.skip(0) =~= seq![]);
        r
    }

    /// How many messages a removal is about.
    pub fn count(&self) -> (r: u128)
        ensures
            r == self.young@.len() + self.old@.len(),
    {
        self.young.len() as u128 + self.old.len() as u128
    }

    /// The next thing to do: the row before anything else. Two messages or more go in bulk,
    /// one alone.
    pub fn next(&self) -> (r: RemovalStep)
        requires
            self.wf(),
        ensures
            if self.left().len() == 0 {
                r matches RemovalStep::Done { ledger_id } && Some(ledger_id) == self.ledger_id
            } else {
                match self.left()[0] {
                    Step::Write => r is WriteRow,
                    Step::Delete(ids) => if ids.len() == 1 {
                        r == RemovalStep::DeleteOne(ids[0])
                    } else {
                        r matches RemovalStep::DeleteBulk(all) && all@ == ids
                    },
                }
            },
    {
        let ledger_id = match self.ledger_id {
            Some(id) => id,
            None => {
                return RemovalStep::WriteRow;
            },
        };
        if !self.young_gone && self.young.len() > 0 {
            assert(self.left()[0] == Step::Delete(self.young@));
            if self.young.len() == 1 {
                return RemovalStep::DeleteOne(self.young[0]);
            }
            return RemovalStep::DeleteBulk(copy_ids(&self.young));
        }
        if self.old_gone < self.old.len() {
            assert(self.left()[0] == Step::Delete(seq![self.old@[self.old_gone as int]]));
            return RemovalStep::DeleteOne(self.old[self.old_gone]);
        }
        RemovalStep::Done { ledger_id }
    }

    /// The row was written.
    pub fn written(&mut self, ledger_id: i64)
        requires
            old(self).wf(),
            old(self).ledger_id is None,
        ensures
            final(self).wf(),
            final(self).ledger_id == Some(ledger_id),
            final(self).young == old(self).young,
            final(self).old == old(self).old,
            old(self).left()[0] is Write,
            final(self).left() == old(self).left().drop_first(),
    {
        self.ledger_id = Some(ledger_id);
        assert(self.left() =~= old(self).left().drop_first());
    }

    /// The messages of the step that was next are gone.
    pub fn deleted(&mut self)
        requires
            old(self).wf(),
            old(self).left().len() > 0,
            old(self).ledger_id is Some,
        ensures
            final(self).wf(),
            final(self).ledger_id == old(self).ledger_id,
            final(self).young == old(self).young,
            final(self).old == old(self).old,
            old(self).left()[0] is Delete,
            final(self).left() == old(self).left().drop_first(),
    {
        if !self.young_gone && self.young.len() > 0 {
            self.young_gone = true;
            assert(self.left() =~= old(self).left().drop_first());
        } else if self.old_gone < self.old.len() {
            self.old_gone = self.old_gone + 1;
            assert(self.old@.skip(self.old_gone as int) =~= self.old@.skip(
                old(self).old_gone as int,
            ).drop_first());
            assert(self.left() =~= old(self).left().drop_first());
        }
    }
}

proof fn lemma_old_are_taken(front: Seq<Step>, old: Seq<u64>)
    ensures
        taken_away(front + old_steps(old)) == taken_away(front) + old,
    decreases old.len(),
{
    let all = front + old_steps(old);
    if old.len() == 0 {
        assert(all =~= front);
        assert(taken_away(front) + old =~= taken_away(front));
    } else {
        let rest = old.drop_last();
        lemma_old_are_taken(front, rest);
        assert(all.drop_last() =~= front + old_steps(rest));
        assert(all.last() == Step::Delete(seq![old.last()]));
        assert(taken_away(front) + rest + seq![old.last()] =~= taken_away(front) + old);
    }
}

/// What was said outlives the messages: the row is written first and once, and then every
/// message of the removal goes, each once, and no other.
pub proof fn lemma_the_row_comes_first(young: Seq<u64>, old: Seq<u64>)
    ensures
        whole_removal(young, old)[0] is Write,
        forall|i: int|
            0 < i < whole_removal(young, old).len() ==> (#[trigger] whole_removal(young, old)[i]) is Delete,
        taken_away(whole_removal(young, old)) == young + old,
{
    let front = seq![Step::Write] + young_steps(young);
    lemma_old_are_taken(front, old);
    reveal_with_fuel(taken_away, 3);
    assert(seq![Step::Write].drop_last() =~= seq![]);
    assert(taken_away(seq![Step::Write]) =~= seq![]);
    if young.len() == 0 {
        assert(front =~= seq![Step::Write]);
        assert(taken_away(front) =~= young);
    } else {
        assert(front.drop_last() =~= seq![Step::Write]);
        assert(front.last() == Step::Delete(young));
        assert(taken_away(front) =~= young);
    }
}

/// Nothing goes unrecorded, however far a removal got: where a message is gone, the row is
/// written.
pub proof fn lemma_nothing_goes_unrecorded(r: Removal)
    requires
        r.wf(),
        r.left().len() < whole_removal(r.young@, r.old@).len(),
    ensures
        r.ledger_id is Some,
{
    if r.ledger_id is None {
        assert(r.old@.skip(0) =~= r.old@);
    }
}

} // verus!
