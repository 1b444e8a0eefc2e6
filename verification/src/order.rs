//! Draw order: the render collaborator must draw the dragging tile (if
//! any) last, so that it appears on top of every other tile. The order is
//! computed with a stable sort on the dragging flag, so the tiles that are
//! not being dragged keep their slot order.

use vstd::prelude::*;
use crate::rack::Rack;
use itertools::Itertools;

verus! {

/// Relies on `itertools::Itertools::sorted_by_key`, which sorts through
/// `slice::sort_by_key`, a stable sort: sorted by a boolean key, the
/// `false` items come first, then the `true` items, each group in its
/// original relative order.
#[verifier::external_body]
fn sorted_by_flag(items: Vec<(bool, usize)>) -> (r: Vec<(bool, usize)>)
    ensures
        r@ == items@.filter(|p: (bool, usize)| !p.0) + items@.filter(|p: (bool, usize)| p.0),
{
    items.into_iter().sorted_by_key(|p: &(bool, usize)| p.0).collect()
}

impl Rack {
    /// Every slot index paired with its tile's dragging flag.
    pub open spec fn tagged_indices(self) -> Seq<(bool, usize)> {
        Seq::new(self.tiles@.len(), |i: int| (self.tiles@[i].dragging, i as usize))
    }

    /// The slot indices in draw order: the non-dragging tiles in slot
    /// order, then the dragging tiles in slot order.
    pub open spec fn draw_order_spec(self) -> Seq<usize> {
        (self.tagged_indices().filter(|p: (bool, usize)| !p.0) + self.tagged_indices().filter(
            |p: (bool, usize)| p.0,
        )).map_values(|p: (bool, usize)| p.1)
    }

    /// The slot indices in the order the render collaborator must draw
    /// them: every non-dragging tile first, the dragging tile last.
    pub fn draw_order(&self) -> (r: Vec<usize>)
        ensures
            r@ == self.draw_order_spec(),
    {
        let n = self.tiles.len();
        let mut items: Vec<(bool, usize)> = Vec::new();
        let mut j: usize = 0;
        while j < n
            invariant
                j <= n,
                n == self.tiles@.len(),
                items@.len() == j,
                forall|m: int|
                    0 <= m < j ==> #[trigger] items@[m] == (self.tiles@[m].dragging, m as usize),
            decreases n - j,
        {
            items.push((self.tiles[j].dragging, j));
            j = j + 1;
        }
        proof {
            assert(items@ =~= self.tagged_indices());
        }
        let sorted = sorted_by_flag(items);
        let mut out: Vec<usize> = Vec::new();
        let mut j: usize = 0;
        let m = sorted.len();
        while j < m
            invariant
                j <= m,
                m == sorted@.len(),
                sorted@ == self.tagged_indices().filter(|p: (bool, usize)| !p.0)
                    + self.tagged_indices().filter(|p: (bool, usize)| p.0),
                out@.len() == j,
                forall|t: int| 0 <= t < j ==> #[trigger] out@[t] == sorted@[t].1,
            decreases m - j,
        {
            out.push(sorted[j].1);
            j = j + 1;
        }
        proof {
            assert(out@ =~= self.draw_order_spec());
        }
        out
    }
}

/// A sequence where nothing satisfies the predicate filters to the empty
/// sequence.
proof fn lemma_filter_none(s: Seq<(bool, usize)>, pred: spec_fn((bool, usize)) -> bool)
    requires
        forall|i: int| 0 <= i < s.len() ==> !pred(#[trigger] s[i]),
    ensures
        s.filter(pred) == Seq::<(bool, usize)>::empty(),
    decreases s.len(),
{
    reveal(Seq::filter);
    if s.len() == 0 {
        assert(s.filter(pred) =~= Seq::<(bool, usize)>::empty());
    } else {
        lemma_filter_none(s.drop_last(), pred);
    }
}

/// A sequence where everything satisfies the predicate filters to itself.
proof fn lemma_filter_all(s: Seq<(bool, usize)>, pred: spec_fn((bool, usize)) -> bool)
    requires
        forall|i: int| 0 <= i < s.len() ==> pred(#[trigger] s[i]),
    ensures
        s.filter(pred) == s,
    decreases s.len(),
{
    reveal(Seq::filter);
    if s.len() > 0 {
        lemma_filter_all(s.drop_last(), pred);
        assert(s.drop_last().push(s.last()) =~= s);
    }
}

/// A sequence with exactly one element satisfying the predicate, at `k`,
/// filters to that single element.
proof fn lemma_filter_single(s: Seq<(bool, usize)>, pred: spec_fn((bool, usize)) -> bool, k: int)
    requires
        0 <= k < s.len(),
        pred(s[k]),
        forall|i: int| 0 <= i < s.len() && i != k ==> !pred(#[trigger] s[i]),
    ensures
        s.filter(pred) == seq![s[k]],
    decreases s.len(),
{
    reveal(Seq::filter);
    if k == s.len() - 1 {
        lemma_filter_none(s.drop_last(), pred);
        assert(s.filter(pred) =~= seq![s[k]]);
    } else {
        lemma_filter_single(s.drop_last(), pred, k);
        assert(s.drop_last()[k] == s[k]);
    }
}

/// A sequence where everything but the element at `k` satisfies the
/// predicate filters to the sequence with that element removed.
proof fn lemma_filter_except(s: Seq<(bool, usize)>, pred: spec_fn((bool, usize)) -> bool, k: int)
    requires
        0 <= k < s.len(),
        !pred(s[k]),
        forall|i: int| 0 <= i < s.len() && i != k ==> pred(#[trigger] s[i]),
    ensures
        s.filter(pred) == s.remove(k),
    decreases s.len(),
{
    reveal(Seq::filter);
    s.remove_ensures(k);
    if k == s.len() - 1 {
        lemma_filter_all(s.drop_last(), pred);
        assert(s.drop_last() =~= s.remove(k));
    } else {
        lemma_filter_except(s.drop_last(), pred, k);
        s.drop_last().remove_ensures(k);
        assert(s.drop_last().remove(k).push(s.last()) =~= s.remove(k));
    }
}

/// Drawing order contract, with a drag in progress: the order lists all
/// `size` slots, the dragging tile's slot comes last, and the other slots
/// keep their relative order (slot order, with the dragging slot left
/// out).
pub proof fn lemma_draw_order_dragging_last(r: Rack, k: int)
    requires
        r.wf(),
        r.dragging_index() == Some(k),
    ensures
        r.draw_order_spec().len() == r.size,
        r.draw_order_spec().last() == k as usize,
        forall|j: int|
            0 <= j < r.size - 1 ==> #[trigger] r.draw_order_spec()[j] == (if j < k {
                j as usize
            } else {
                (j + 1) as usize
            }),
{
    crate::rack::lemma_first_dragging_at(r.tiles@, 0);
    let tagged = r.tagged_indices();
    lemma_filter_single(tagged, |p: (bool, usize)| p.0, k);
    lemma_filter_except(tagged, |p: (bool, usize)| !p.0, k);
    tagged.remove_ensures(k);
}

/// Drawing order contract, with no drag in progress: the order is simply
/// slot order.
pub proof fn lemma_draw_order_at_rest(r: Rack)
    requires
        r.wf(),
        r.dragging_index() is None,
    ensures
        r.draw_order_spec() == Seq::new(r.tiles@.len(), |i: int| i as usize),
{
    crate::rack::lemma_first_dragging_at(r.tiles@, 0);
    let tagged = r.tagged_indices();
    lemma_filter_all(tagged, |p: (bool, usize)| !p.0);
    lemma_filter_none(tagged, |p: (bool, usize)| p.0);
    assert(r.draw_order_spec() =~= Seq::new(r.tiles@.len(), |i: int| i as usize));
}

} // verus!
