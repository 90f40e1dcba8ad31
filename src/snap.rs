use vstd::arithmetic::div_mod::{lemma_fundamental_div_mod, lemma_hoist_over_denominator};
use vstd::prelude::*;

verus! {

/// Why a scroll offset could not be snapped.
#[derive(Clone, Copy, Debug, PartialEq, Eq, Structural)]
pub enum SnapError {
    /// The item height or the batch size is zero, so a batch spans no pixels.
    DivisionByZero,
    /// The batch pixel size, or the offset plus half a batch, exceeds `usize`.
    Overflow,
}

/// `scroll_top` rounded half-up to the nearest multiple of the batch pixel
/// size `item_height * batch_size`.
pub open spec fn snapped(scroll_top: int, item_height: int, batch_size: int) -> int {
    let batch_pixel_size = item_height * batch_size;
    let batch_index = ((scroll_top + batch_pixel_size / 2) / batch_pixel_size) * batch_size;
    batch_index * item_height
}

/// Snaps `scroll_top` to the nearest batch boundary, where a batch is
/// `batch_size` items of `item_height` pixels each. A zero item height or
/// batch size is reported as `DivisionByZero`; sizes whose arithmetic does
/// not fit in `usize` as `Overflow`.
pub fn snap_to_batch_offset(
    scroll_top: usize,
    item_height: usize,
    batch_size: usize,
) -> (r: Result<usize, SnapError>)
    ensures
        (item_height == 0 || batch_size == 0)
            <==> r == Err::<usize, SnapError>(SnapError::DivisionByZero),
        item_height > 0 && batch_size > 0 ==> (
            r == Err::<usize, SnapError>(SnapError::Overflow)
            <==> (item_height * batch_size > usize::MAX
                || scroll_top + (item_height * batch_size) / 2 > usize::MAX)),
        r is Ok ==> r->Ok_0 == snapped(scroll_top as int, item_height as int, batch_size as int),
{
    if item_height == 0 || batch_size == 0 {
        return Err(SnapError::DivisionByZero);
    }
    let batch_pixel_size = match item_height.checked_mul(batch_size) {
        Some(p) => p,
        None => return Err(SnapError::Overflow),
    };
    assert(batch_pixel_size > 0) by (nonlinear_arith)
        requires
            batch_pixel_size == item_height * batch_size,
            item_height > 0,
            batch_size > 0,
    ;
    let half = batch_pixel_size / 2;
    if scroll_top > usize::MAX - half {
        return Err(SnapError::Overflow);
    }
    let q = (scroll_top + half) / batch_pixel_size;
    proof {
        let p = batch_pixel_size as int;
        let t = (scroll_top + half) as int;
        lemma_fundamental_div_mod(t, p);
        assert(q * p <= t) by (nonlinear_arith)
            requires
                t == p * (t / p) + t % p,
                0 <= t % p,
                q == t / p,
        ;
        assert(q * batch_size <= q * p) by (nonlinear_arith)
            requires
                p == item_height * batch_size,
                item_height >= 1,
                q >= 0,
        ;
        assert((q * batch_size) * item_height == q * p) by (nonlinear_arith)
            requires
                p == item_height * batch_size,
        ;
    }
    let batch_index = q * batch_size;
    Ok(batch_index * item_height)
}

/// A snapped offset is a multiple of the batch pixel size, and so of the
/// item height.
pub proof fn lemma_snap_aligned(scroll_top: int, item_height: int, batch_size: int)
    requires
        scroll_top >= 0,
        item_height > 0,
        batch_size > 0,
    ensures
        snapped(scroll_top, item_height, batch_size) % (item_height * batch_size) == 0,
        snapped(scroll_top, item_height, batch_size) % item_height == 0,
{
    let p = item_height * batch_size;
    let q = (scroll_top + p / 2) / p;
    assert(p > 0) by (nonlinear_arith)
        requires
            p == item_height * batch_size,
            item_height > 0,
            batch_size > 0,
    ;
    assert(snapped(scroll_top, item_height, batch_size) == (q * batch_size) * item_height);
    assert((q * batch_size) * item_height == q * p) by (nonlinear_arith)
        requires
            p == item_height * batch_size,
    ;
    vstd::arithmetic::div_mod::lemma_mod_multiples_basic(q, p);
    vstd::arithmetic::div_mod::lemma_mod_multiples_basic(q * batch_size, item_height);
}

/// Snapping an offset that is already snapped, with the same item height and
/// batch size, leaves it unchanged.
pub proof fn lemma_snap_idempotent(scroll_top: int, item_height: int, batch_size: int)
    requires
        scroll_top >= 0,
        item_height > 0,
        batch_size > 0,
    ensures
        snapped(snapped(scroll_top, item_height, batch_size), item_height, batch_size)
            == snapped(scroll_top, item_height, batch_size),
{
    let p = item_height * batch_size;
    let q = (scroll_top + p / 2) / p;
    let s = snapped(scroll_top, item_height, batch_size);
    assert(p > 0) by (nonlinear_arith)
        requires
            p == item_height * batch_size,
            item_height > 0,
            batch_size > 0,
    ;
    assert(s == (q * batch_size) * item_height);
    assert((q * batch_size) * item_height == q * p) by (nonlinear_arith)
        requires
            p == item_height * batch_size,
    ;
    lemma_hoist_over_denominator(p / 2, q, p as nat);
    assert((p / 2) / p == 0) by {
        vstd::arithmetic::div_mod::lemma_basic_div(p / 2, p);
    }
    assert(p / 2 + q * p == s + p / 2);
    assert((s + p / 2) / p == q);
    assert(snapped(s, item_height, batch_size) == (q * batch_size) * item_height);
}

} // verus!
