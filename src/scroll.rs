use vstd::prelude::*;

verus! {

/// The offset that a navigation key leads to, over unbounded integers.
/// Unrecognised keys leave the offset where it is.
pub open spec fn scroll_target(
    key: Seq<char>,
    current_scroll: int,
    container_height: int,
    item_height: int,
    max_scroll: int,
) -> int {
    if key == "PageDown"@ {
        vstd::math::min(current_scroll + container_height, max_scroll)
    } else if key == "PageUp"@ {
        vstd::math::max(current_scroll - container_height, 0)
    } else if key == "ArrowDown"@ {
        vstd::math::min(current_scroll + item_height, max_scroll)
    } else if key == "ArrowUp"@ {
        vstd::math::max(current_scroll - item_height, 0)
    } else if key == "Home"@ {
        0
    } else if key == "End"@ {
        max_scroll
    } else {
        current_scroll
    }
}

/// Whether two strings hold the same characters.
pub fn same_text(a: &str, b: &str) -> (r: bool)
    ensures
        r == (a@ == b@),
{
    let n = a.unicode_len();
    if n != b.unicode_len() {
        return false;
    }
    let mut i: usize = 0;
    while i < n
        invariant
            n == a@.len(),
            n == b@.len(),
            i <= n,
            a@.subrange(0, i as int) == b@.subrange(0, i as int),
        decreases n - i,
    {
        if a.get_char(i) != b.get_char(i) {
            assert(a@[i as int] != b@[i as int]);
            return false;
        }
        assert(a@.subrange(0, i + 1) =~= a@.subrange(0, i as int).push(a@[i as int]));
        assert(b@.subrange(0, i + 1) =~= b@.subrange(0, i as int).push(b@[i as int]));
        i = i + 1;
    }
    assert(a@ =~= a@.subrange(0, n as int));
    assert(b@ =~= b@.subrange(0, n as int));
    true
}

/// `a + b`, capped at `cap`, without overflowing.
fn add_capped(a: usize, b: usize, cap: usize) -> (r: usize)
    ensures
        r == vstd::math::min(a + b, cap as int),
{
    if a >= cap || b >= cap - a {
        cap
    } else {
        a + b
    }
}

/// The new scroll offset for a navigation key: `PageDown` / `PageUp` move by
/// the container height, `ArrowDown` / `ArrowUp` by one item, `Home` and `End`
/// jump to the ends. Moving down stops at `max_scroll`, moving up at zero, and
/// any other key leaves `current_scroll` unchanged.
pub fn compute_scroll_target(
    key: &str,
    current_scroll: usize,
    container_height: usize,
    item_height: usize,
    max_scroll: usize,
) -> (r: usize)
    ensures
        r == scroll_target(
            key@,
            current_scroll as int,
            container_height as int,
            item_height as int,
            max_scroll as int,
        ),
{
    if same_text(key, "PageDown") {
        add_capped(current_scroll, container_height, max_scroll)
    } else if same_text(key, "PageUp") {
        current_scroll.saturating_sub(container_height)
    } else if same_text(key, "ArrowDown") {
        add_capped(current_scroll, item_height, max_scroll)
    } else if same_text(key, "ArrowUp") {
        current_scroll.saturating_sub(item_height)
    } else if same_text(key, "Home") {
        0
    } else if same_text(key, "End") {
        max_scroll
    } else {
        current_scroll
    }
}

} // verus!
