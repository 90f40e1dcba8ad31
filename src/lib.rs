//! Pure helpers for a virtualized (windowed) scrolling list: choosing the
//! visible indexes, snapping a scroll offset to a batch boundary, grouping
//! labels by first occurrence, and resolving navigation keys to offsets.

mod group;
mod scroll;
mod snap;
mod visible;

pub use group::{
    entries_view, group_indexes, grouped, has_key, label_of, lemma_grouped_first_occurrence,
};
pub use scroll::{compute_scroll_target, same_text, scroll_target};
pub use snap::{
    lemma_snap_aligned, lemma_snap_idempotent, snap_to_batch_offset, snapped, SnapError,
};
pub use visible::{
    get_visible_indexes, in_window, kept_positions, lemma_empty_when_reversed,
    lemma_visible_selects_in_order, visible,
};
