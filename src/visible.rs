use vstd::prelude::*;

verus! {

/// Whether `x` lies in the half-open window `[start, end)`.
pub open spec fn in_window(start: usize, end: usize, x: usize) -> bool {
    start <= x && x < end
}

/// The elements of `s` that lie in `[start, end)`, in their order in `s`.
pub open spec fn visible(start: usize, end: usize, s: Seq<usize>) -> Seq<usize>
    decreases s.len(),
{
    if s.len() == 0 {
        Seq::empty()
    } else {
        let rest = visible(start, end, s.drop_last());
        if in_window(start, end, s.last()) {
            rest.push(s.last())
        } else {
            rest
        }
    }
}

/// The positions in `s` of the elements that `visible` keeps, in order.
pub open spec fn kept_positions(start: usize, end: usize, s: Seq<usize>) -> Seq<int>
    decreases s.len(),
{
    if s.len() == 0 {
        Seq::empty()
    } else {
        let rest = kept_positions(start, end, s.drop_last());
        if in_window(start, end, s.last()) {
            rest.push(s.len() - 1)
        } else {
            rest
        }
    }
}

/// The indexes of `revealed` that lie in `[start, end)`, in their original
/// order.
pub fn get_visible_indexes(start: usize, end: usize, revealed: &[usize]) -> (r: Vec<usize>)
    ensures
        r@ == visible(start, end, revealed@),
{
    let mut r: Vec<usize> = Vec::new();
    let mut i: usize = 0;
    while i < revealed.len()
        invariant
            i <= revealed@.len(),
            r@ == visible(start, end, revealed@.take(i as int)),
        decreases revealed@.len() - i,
    {
        assert(revealed@.take(i + 1).drop_last() =~= revealed@.take(i as int));
        let x = revealed[i];
        if x >= start && x < end {
            r.push(x);
        }
        i = i + 1;
    }
    assert(revealed@.take(i as int) =~= revealed@);
    r
}

/// Selection keeps exactly the in-window elements, in order: every kept
/// element lies in `[start, end)`, it is the element at a position of
/// `revealed`, those positions strictly increase, and every position whose
/// element lies in the window is among them, so it is kept exactly once.
pub proof fn lemma_visible_selects_in_order(start: usize, end: usize, revealed: Seq<usize>)
    ensures
        ({
            let r = visible(start, end, revealed);
            let p = kept_positions(start, end, revealed);
            &&& p.len() == r.len()
            &&& forall|k: int| 0 <= k < r.len() ==> in_window(start, end, #[trigger] r[k])
            &&& forall|k: int|
                0 <= k < p.len() ==> 0 <= #[trigger] p[k] < revealed.len() && r[k] == revealed[p[k]]
            &&& forall|k1: int, k2: int| 0 <= k1 < k2 < p.len() ==> #[trigger] p[k1] < #[trigger] p[k2]
            &&& forall|i: int|
                0 <= i < revealed.len() && in_window(start, end, #[trigger] revealed[i])
                    ==> exists|k: int| 0 <= k < p.len() && p[k] == i
        }),
    decreases revealed.len(),
{
    if revealed.len() > 0 {
        let s = revealed.drop_last();
        lemma_visible_selects_in_order(start, end, s);
        let p = kept_positions(start, end, revealed);
        let ps = kept_positions(start, end, s);
        assert forall|i: int|
            0 <= i < revealed.len() && in_window(start, end, #[trigger] revealed[i])
                implies exists|k: int| 0 <= k < p.len() && p[k] == i by {
            if i < s.len() {
                assert(s[i] == revealed[i]);
                let k = choose|k: int| 0 <= k < ps.len() && ps[k] == i;
                assert(p[k] == i);
            } else {
                assert(p[ps.len() as int] == i);
            }
        }
    }
}

/// A window whose start lies past its end selects nothing.
pub proof fn lemma_empty_when_reversed(start: usize, end: usize, revealed: Seq<usize>)
    requires
        start > end,
    ensures
        visible(start, end, revealed) == Seq::<usize>::empty(),
    decreases revealed.len(),
{
    if revealed.len() > 0 {
        lemma_empty_when_reversed(start, end, revealed.drop_last());
    }
}

} // verus!
