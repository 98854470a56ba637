use vstd::prelude::*;

verus! {

/// One printed line of the listing. `left` and `right` index the labels;
/// each pad is the number of spaces that follows its label, so that the
/// label and its pad fill the column's width.
#[derive(Clone, Copy, Debug, PartialEq, Eq, Structural)]
pub struct Row {
    pub left: usize,
    pub left_pad: usize,
    pub right: Option<usize>,
    pub right_pad: usize,
}

/// The listing cut into two columns.
pub struct Columns {
    pub rows: Vec<Row>,
    pub left_width: usize,
    pub right_width: usize,
}

/// The widest of a run of widths; 0 for none.
pub open spec fn max_width(w: Seq<usize>) -> nat
    decreases w.len(),
{
    if w.len() == 0 {
        0
    } else if max_width(w.drop_last()) >= w.last() {
        max_width(w.drop_last())
    } else {
        w.last() as nat
    }
}

/// The number of entries in the left column: the larger half.
pub open spec fn left_count(n: nat) -> nat {
    (n + 1) / 2
}

/// The widths of the left column's entries.
pub open spec fn left_widths(w: Seq<usize>) -> Seq<usize> {
    w.subrange(0, left_count(w.len()) as int)
}

/// The widths of the right column's entries.
pub open spec fn right_widths(w: Seq<usize>) -> Seq<usize> {
    w.subrange(left_count(w.len()) as int, w.len() as int)
}

/// Row `i` of the layout of entries with widths `w`: the `i`-th entry of the
/// left column beside the `i`-th of the right, where the right has one.
pub open spec fn row_of(w: Seq<usize>, i: int) -> Row {
    let h = left_count(w.len()) as int;
    let lw = max_width(left_widths(w));
    let rw = max_width(right_widths(w));
    if h + i < w.len() {
        Row {
            left: i as usize,
            left_pad: (lw - w[i]) as usize,
            right: Some((h + i) as usize),
            right_pad: (rw - w[h + i]) as usize,
        }
    } else {
        Row { left: i as usize, left_pad: (lw - w[i]) as usize, right: None, right_pad: 0 }
    }
}

/// The whole layout of entries with widths `w`.
pub open spec fn rows_of(w: Seq<usize>) -> Seq<Row> {
    Seq::new(left_count(w.len()), |i: int| row_of(w, i))
}

/// No width of a run exceeds its widest, and a run that is not empty has an
/// entry of that width.
pub proof fn lemma_max_width(w: Seq<usize>)
    ensures
        forall|j: int| 0 <= j < w.len() ==> w[j] <= max_width(w),
        w.len() > 0 ==> exists|j: int| 0 <= j < w.len() && w[j] == max_width(w),
        max_width(w) <= usize::MAX,
    decreases w.len(),
{
    if w.len() > 0 {
        let d = w.drop_last();
        lemma_max_width(d);
        assert forall|j: int| 0 <= j < w.len() implies w[j] <= max_width(w) by {
            if j < d.len() {
                assert(w[j] == d[j]);
            }
        }
        if d.len() == 0 {
            assert(w[0] == max_width(w));
        } else if max_width(d) >= w.last() {
            let j = choose|j: int| 0 <= j < d.len() && d[j] == max_width(d);
            assert(w[j] == d[j]);
        } else {
            assert(w[w.len() - 1] == max_width(w));
        }
    }
}

/// Whether entry `k` stands in row `r`, on either side.
pub open spec fn placed_in(r: Row, k: int) -> bool {
    r.left == k || r.right == Some(k as usize)
}

/// Whether entry `k` stands in some row of `rows`.
pub open spec fn is_placed(rows: Seq<Row>, k: int) -> bool {
    exists|i: int| 0 <= i < rows.len() && #[trigger] placed_in(rows[i], k)
}

/// Every one of the `n` entries stands in exactly one place: the layout has
/// ceil(n/2) rows, of which the first floor(n/2) carry a right entry, and an
/// odd last entry of the left column stands alone on the last row.
pub proof fn lemma_each_entry_once(w: Seq<usize>)
    requires
        w.len() <= usize::MAX,
    ensures
        rows_of(w).len() == (w.len() + 1) / 2,
        forall|i: int|
            0 <= i < rows_of(w).len() ==> (rows_of(w)[i].right.is_some() <==> i < w.len() / 2),
        forall|i: int|
            0 <= i < rows_of(w).len() ==> {
                &&& rows_of(w)[i].left < w.len()
                &&& rows_of(w)[i].right.is_some() ==> rows_of(w)[i].right.unwrap() < w.len()
            },
        forall|k: int| 0 <= k < w.len() ==> #[trigger] is_placed(rows_of(w), k),
        forall|k: int, i1: int, i2: int|
            0 <= i1 < rows_of(w).len() && 0 <= i2 < rows_of(w).len() && #[trigger] placed_in(
                rows_of(w)[i1],
                k,
            ) && #[trigger] placed_in(rows_of(w)[i2], k) ==> i1 == i2,
        forall|i: int|
            0 <= i < rows_of(w).len() && rows_of(w)[i].right.is_some() ==> rows_of(w)[i].left
                != rows_of(w)[i].right.unwrap(),
{
    let n = w.len() as int;
    let h = left_count(w.len()) as int;
    assert forall|k: int| 0 <= k < n implies #[trigger] is_placed(rows_of(w), k) by {
        if k < h {
            assert(placed_in(rows_of(w)[k], k));
        } else {
            assert(placed_in(rows_of(w)[k - h], k));
        }
    }
}

/// Each column lines up: in every row an entry and its pad together take
/// exactly the column's width, and that width is the widest entry of the
/// column (0 for an empty column).
pub proof fn lemma_columns_align(w: Seq<usize>)
    requires
        w.len() <= usize::MAX,
    ensures
        forall|i: int|
            0 <= i < rows_of(w).len() ==> w[rows_of(w)[i].left as int] + rows_of(w)[i].left_pad
                == max_width(left_widths(w)),
        forall|i: int|
            0 <= i < rows_of(w).len() && rows_of(w)[i].right.is_some() ==> w[rows_of(w)[i].right.unwrap() as int]
                + rows_of(w)[i].right_pad == max_width(right_widths(w)),
        forall|j: int| 0 <= j < left_widths(w).len() ==> left_widths(w)[j] <= max_width(left_widths(w)),
        left_widths(w).len() > 0 ==> exists|j: int|
            0 <= j < left_widths(w).len() && left_widths(w)[j] == max_width(left_widths(w)),
        forall|j: int| 0 <= j < right_widths(w).len() ==> right_widths(w)[j] <= max_width(right_widths(w)),
        right_widths(w).len() > 0 ==> exists|j: int|
            0 <= j < right_widths(w).len() && right_widths(w)[j] == max_width(right_widths(w)),
{
    let n = w.len() as int;
    let h = left_count(w.len()) as int;
    lemma_max_width(left_widths(w));
    lemma_max_width(right_widths(w));
    assert forall|i: int| 0 <= i < rows_of(w).len() implies w[rows_of(w)[i].left as int]
        + rows_of(w)[i].left_pad == max_width(left_widths(w)) by {
        assert(left_widths(w)[i] == w[i]);
    }
    assert forall|i: int| 0 <= i < rows_of(w).len() && rows_of(w)[i].right.is_some() implies w[rows_of(w)[i].right.unwrap() as int]
        + rows_of(w)[i].right_pad == max_width(right_widths(w)) by {
        assert(right_widths(w)[i] == w[h + i]);
    }
}

fn widest(w: &Vec<usize>, lo: usize, hi: usize) -> (r: usize)
    requires
        lo <= hi <= w@.len(),
    ensures
        r == max_width(w@.subrange(lo as int, hi as int)),
{
    let mut m: usize = 0;
    let mut i: usize = lo;
    while i < hi
        invariant
            lo <= i <= hi <= w@.len(),
            m == max_width(w@.subrange(lo as int, i as int)),
        decreases hi - i,
    {
        assert(w@.subrange(lo as int, i + 1).drop_last() =~= w@.subrange(lo as int, i as int));
        if w[i] > m {
            m = w[i];
        }
        i = i + 1;
    }
    m
}

/// Lays out entries of the given visible widths in two columns. The left
/// column takes the first, larger half and the right the rest; each column
/// is as wide as its widest entry. An odd last left entry stands alone.
pub fn two_columns(widths: &Vec<usize>) -> (r: Columns)
    ensures
        r.left_width == max_width(left_widths(widths@)),
        r.right_width == max_width(right_widths(widths@)),
        r.rows@ == rows_of(widths@),
{
    let n = widths.len();
    let h = n - n / 2;
    let lw = widest(widths, 0, h);
    let rw = widest(widths, h, n);
    proof {
        lemma_max_width(left_widths(widths@));
        lemma_max_width(right_widths(widths@));
        assert forall|j: int| 0 <= j < h implies widths@[j] <= lw by {
            assert(left_widths(widths@)[j] == widths@[j]);
        }
        assert forall|j: int| h <= j < n implies widths@[j] <= rw by {
            assert(right_widths(widths@)[j - h] == widths@[j]);
        }
    }
    let mut rows: Vec<Row> = Vec::new();
    let mut i: usize = 0;
    while i < h
        invariant
            n == widths@.len(),
            h == left_count(n as nat),
            i <= h,
            lw == max_width(left_widths(widths@)),
            rw == max_width(right_widths(widths@)),
            forall|j: int| 0 <= j < h ==> widths@[j] <= lw,
            forall|j: int| h <= j < n ==> widths@[j] <= rw,
            rows@ == rows_of(widths@).subrange(0, i as int),
        decreases h - i,
    {
        assert(left_widths(widths@)[i as int] == widths@[i as int]);
        let row = if h + i < n {
            assert(right_widths(widths@)[i as int] == widths@[h + i]);
            Row {
                left: i,
                left_pad: lw - widths[i],
                right: Some(h + i),
                right_pad: rw - widths[h + i],
            }
        } else {
            Row { left: i, left_pad: lw - widths[i], right: None, right_pad: 0 }
        };
        rows.push(row);
        i = i + 1;
        assert(rows@ =~= rows_of(widths@).subrange(0, i as int));
    }
    assert(rows@ =~= rows_of(widths@));
    Columns { rows, left_width: lw, right_width: rw }
}

} // verus!
