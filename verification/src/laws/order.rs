//! Pieces that stand in a text one after the other.

use vstd::prelude::*;

use crate::text::joined;

verus! {

/// Pieces stand in a text, one behind the other.
#[verifier::opaque]
pub open spec fn in_order(s: Seq<char>, pieces: Seq<Seq<char>>) -> bool
    decreases pieces.len(),
{
    pieces.len() == 0 || exists|i: int| #[trigger]
        stands_at(s, pieces[0], i) && in_order(s.skip(i + pieces[0].len()), pieces.drop_first())
}

/// A piece stands in a text at an index.
pub open spec fn stands_at(s: Seq<char>, piece: Seq<char>, i: int) -> bool {
    0 <= i && i + piece.len() <= s.len() && s.subrange(i, i + piece.len()) == piece
}

/// Lists of pieces, one list behind the other.
pub open spec fn all_of(lists: Seq<Seq<Seq<char>>>) -> Seq<Seq<char>>
    decreases lists.len(),
{
    if lists.len() == 0 {
        seq![]
    } else {
        all_of(lists.drop_last()) + lists.last()
    }
}

/// A piece where there is one.
pub open spec fn perhaps(piece: Option<Seq<char>>) -> Seq<Seq<char>> {
    match piece {
        Some(piece) => seq![piece],
        None => seq![],
    }
}

pub proof fn lemma_none(s: Seq<char>)
    ensures
        in_order(s, seq![]),
{
    reveal_with_fuel(in_order, 2);
}

pub proof fn lemma_itself(s: Seq<char>)
    ensures
        in_order(s, seq![s]),
{
    reveal_with_fuel(in_order, 2);
    let n: int = 0;
    assert(s.subrange(n, n + s.len()) =~= s);
    assert(seq![s].drop_first() =~= seq![]);
    assert(stands_at(s, seq![s][0], n));
    assert(in_order(s.skip(n + s.len()), seq![s].drop_first()));
}

proof fn lemma_behind(a: Seq<char>, b: Seq<char>, q: Seq<Seq<char>>)
    requires
        in_order(b, q),
    ensures
        in_order(a + b, q),
{
    reveal_with_fuel(in_order, 2);
    if q.len() > 0 {
        let i = choose|i: int| #[trigger]
            stands_at(b, q[0], i) && in_order(b.skip(i + q[0].len()), q.drop_first());
        let k = a.len() + i;
        assert((a + b).subrange(k, k + q[0].len()) =~= b.subrange(i, i + q[0].len()));
        assert((a + b).skip(k + q[0].len()) =~= b.skip(i + q[0].len()));
        assert(stands_at(a + b, q[0], k));
    }
}

/// What stands in two texts stands in the one made of them.
pub proof fn lemma_both(a: Seq<char>, b: Seq<char>, p: Seq<Seq<char>>, q: Seq<Seq<char>>)
    requires
        in_order(a, p),
        in_order(b, q),
    ensures
        in_order(a + b, p + q),
    decreases p.len(),
{
    reveal_with_fuel(in_order, 2);
    if p.len() == 0 {
        assert(p + q =~= q);
        lemma_behind(a, b, q);
    } else {
        let n = p[0].len() as int;
        let i = choose|i: int| #[trigger]
            stands_at(a, p[0], i) && in_order(a.skip(i + p[0].len()), p.drop_first());
        lemma_both(a.skip(i + n), b, p.drop_first(), q);
        assert((p + q)[0] == p[0]);
        assert((a + b).subrange(i, i + n) =~= a.subrange(i, i + n));
        assert((a + b).skip(i + n) =~= a.skip(i + n) + b);
        assert((p + q).drop_first() =~= p.drop_first() + q);
        assert(stands_at(a + b, (p + q)[0], i));
    }
}

/// More behind it takes nothing away.
pub proof fn lemma_more(a: Seq<char>, b: Seq<char>, p: Seq<Seq<char>>)
    requires
        in_order(a, p),
    ensures
        in_order(a + b, p),
        in_order(b + a, p),
{
    lemma_none(b);
    lemma_both(a, b, p, seq![]);
    assert(p + seq![] =~= p);
    lemma_both(b, a, seq![], p);
    assert(seq![] + p =~= p);
}

/// A text and a piece at its end.
pub proof fn lemma_then(a: Seq<char>, b: Seq<char>, p: Seq<Seq<char>>)
    requires
        in_order(a, p),
    ensures
        in_order(a + b, p.push(b)),
{
    lemma_itself(b);
    lemma_both(a, b, p, seq![b]);
    assert(p + seq![b] =~= p.push(b));
}

/// What stands in each part stands in the parts joined.
pub proof fn lemma_each_joined(parts: Seq<Seq<char>>, sep: Seq<char>, lists: Seq<Seq<Seq<char>>>)
    requires
        parts.len() == lists.len(),
        forall|i: int| 0 <= i < parts.len() ==> in_order(parts[i], #[trigger] lists[i]),
    ensures
        in_order(joined(parts, sep), all_of(lists)),
    decreases parts.len(),
{
    reveal_with_fuel(in_order, 2);
    if parts.len() > 0 {
        let n = parts.len() - 1;
        let front = parts.drop_last();
        let fewer = lists.drop_last();
        assert forall|i: int| 0 <= i < front.len() implies in_order(front[i], #[trigger] fewer[i]) by {
            assert(in_order(parts[i], lists[i]));
        }
        lemma_each_joined(front, sep, fewer);
        assert(in_order(parts[n], lists[n]));
        if n == 0 {
            assert(fewer =~= seq![]);
            assert(all_of(lists) =~= lists[0]);
        } else {
            lemma_more(joined(front, sep), sep, all_of(fewer));
            lemma_both(joined(front, sep) + sep, parts[n], all_of(fewer), lists[n]);
        }
    }
}

/// Of pieces that stand in a text, those at the front stand in it, and those at the end.
pub proof fn lemma_fewer(s: Seq<char>, a: Seq<Seq<char>>, b: Seq<Seq<char>>)
    requires
        in_order(s, a + b),
    ensures
        in_order(s, a),
        in_order(s, b),
    decreases a.len(),
{
    reveal_with_fuel(in_order, 2);
    let all = a + b;
    if a.len() == 0 {
        assert(all =~= b);
    } else {
        let n = all[0].len() as int;
        let i = choose|i: int| #[trigger]
            stands_at(s, all[0], i) && in_order(s.skip(i + all[0].len()), all.drop_first());
        assert(all.drop_first() =~= a.drop_first() + b);
        lemma_fewer(s.skip(i + n), a.drop_first(), b);
        assert(all[0] == a[0]);
        assert(stands_at(s, a[0], i));
        lemma_behind(s.take(i + n), s.skip(i + n), b);
        assert(s.take(i + n) + s.skip(i + n) =~= s);
    }
}

/// The pieces that stand in a text are found in it, each of them.
pub proof fn lemma_each_is_found(s: Seq<char>, pieces: Seq<Seq<char>>, k: int)
    requires
        in_order(s, pieces),
        0 <= k < pieces.len(),
    ensures
        exists|i: int| stands_at(s, pieces[k], i),
    decreases pieces.len(),
{
    reveal_with_fuel(in_order, 2);
    let n = pieces[0].len() as int;
    let i = choose|i: int| #[trigger]
            stands_at(s, pieces[0], i) && in_order(s.skip(i + pieces[0].len()), pieces.drop_first());
    if k == 0 {
        assert(stands_at(s, pieces[k], i));
    } else {
        let rest = s.skip(i + n);
        lemma_each_is_found(rest, pieces.drop_first(), k - 1);
        let piece = pieces[k];
        assert(pieces.drop_first()[k - 1] == piece);
        let j = choose|j: int| stands_at(rest, piece, j);
        assert(s.subrange(i + n + j, i + n + j + piece.len()) =~= rest.subrange(j, j + piece.len()));
        assert(stands_at(s, piece, i + n + j));
    }
}

} // verus!
