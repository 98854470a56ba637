use vstd::prelude::*;

use crate::label::{entry_label, label_of, lemma_label_len, opt_view, size_len, visible_len, Label};
use crate::layout::{left_widths, max_width, right_widths, rows_of, two_columns, Columns};

verus! {

/// A directory entry as read from disk: its file name, whether it is a
/// directory, and its size text where sizes were computed.
pub struct Entry {
    pub name: String,
    pub is_dir: bool,
    pub size: Option<String>,
}

/// Everything needed to print a listing: one label per entry, in the order
/// given, their two-column layout, and the spaces between the columns.
pub struct Listing {
    pub labels: Vec<Label>,
    pub columns: Columns,
    pub gap: usize,
}

/// The size text an entry shows: its size in size mode, nothing otherwise.
pub open spec fn shown_size(e: Entry, show_sizes: bool) -> Option<Seq<char>> {
    if show_sizes {
        match e.size {
            Some(t) => Some(t@),
            None => None,
        }
    } else {
        None
    }
}

/// The entry's name and size text are short enough for its label's width to
/// be counted in a `usize`.
pub open spec fn entry_fits(e: Entry) -> bool {
    e.name@.len() + 4 + match e.size {
        Some(t) => t@.len(),
        None => 0,
    } <= usize::MAX
}

/// The visible widths of a run of labels.
pub open spec fn label_widths(labels: Seq<Label>) -> Seq<usize> {
    Seq::new(labels.len(), |i: int| visible_len(labels[i]@) as usize)
}

/// The spaces between the columns: four in size mode, three otherwise.
pub open spec fn gap_of(show_sizes: bool) -> nat {
    if show_sizes {
        4
    } else {
        3
    }
}

/// The number of spaces between the two columns.
pub fn column_gap(show_sizes: bool) -> (r: usize)
    ensures
        r == gap_of(show_sizes),
{
    if show_sizes {
        4
    } else {
        3
    }
}

/// Formats every entry, in the order given, and lays the labels out in two
/// columns measured on their visible text.
pub fn plan_listing(entries: &Vec<Entry>, show_sizes: bool) -> (r: Listing)
    requires
        forall|i: int| 0 <= i < entries@.len() ==> #[trigger] entry_fits(entries@[i]),
    ensures
        r.labels@.len() == entries@.len(),
        forall|i: int|
            0 <= i < entries@.len() ==> (#[trigger] r.labels@[i])@ == label_of(
                entries@[i].name@,
                entries@[i].is_dir,
                shown_size(entries@[i], show_sizes),
            ),
        forall|i: int| 0 <= i < entries@.len() ==> visible_len(#[trigger] r.labels@[i]@) <= usize::MAX,
        r.columns.rows@ == rows_of(label_widths(r.labels@)),
        r.columns.left_width == max_width(left_widths(label_widths(r.labels@))),
        r.columns.right_width == max_width(right_widths(label_widths(r.labels@))),
        r.gap == gap_of(show_sizes),
{
    let n = entries.len();
    let mut labels: Vec<Label> = Vec::new();
    let mut widths: Vec<usize> = Vec::new();
    let mut i: usize = 0;
    while i < n
        invariant
            n == entries@.len(),
            i <= n,
            forall|j: int| 0 <= j < entries@.len() ==> #[trigger] entry_fits(entries@[j]),
            labels@.len() == i,
            widths@.len() == i,
            forall|j: int|
                0 <= j < i ==> (#[trigger] labels@[j])@ == label_of(
                    entries@[j].name@,
                    entries@[j].is_dir,
                    shown_size(entries@[j], show_sizes),
                ),
            forall|j: int| 0 <= j < i ==> visible_len(#[trigger] labels@[j]@) <= usize::MAX,
            forall|j: int| 0 <= j < i ==> widths@[j] == visible_len(#[trigger] labels@[j]@),
        decreases n - i,
    {
        let e = &entries[i];
        let size: Option<&str> = if show_sizes {
            match &e.size {
                Some(t) => Some(t.as_str()),
                None => None,
            }
        } else {
            None
        };
        assert(opt_view(size) == shown_size(entries@[i as int], show_sizes));
        let label = entry_label(e.name.as_str(), e.is_dir, size);
        proof {
            assert(entry_fits(entries@[i as int]));
            lemma_label_len(e.name@, e.is_dir, opt_view(size));
            assert(size_len(opt_view(size)) <= 3 + match e.size {
                Some(t) => t@.len(),
                None => 0,
            });
        }
        let w = label.width();
        labels.push(label);
        widths.push(w);
        i = i + 1;
    }
    assert(widths@ =~= label_widths(labels@));
    let columns = two_columns(&widths);
    Listing { labels, columns, gap: column_gap(show_sizes) }
}

} // verus!
