//! The flattened rows of a JSON document, and which of them a set of folds leaves on screen.
//!
//! A document is one row per scalar and two per container: the row that opens it and the row that
//! closes it. Folding a container hides everything after its opening row up to and with its
//! closing row.

use vstd::prelude::*;

verus! {

/// What a row is.
#[derive(Clone, Copy, Debug, PartialEq, Eq, Structural)]
pub enum OutlineKind {
    /// Opens a container that the row at `close` closes.
    Open { close: u32 },
    Close,
    Scalar,
}

/// One row of a document.
#[derive(Clone, Copy, Debug, PartialEq, Eq, Structural)]
pub struct OutlineRow {
    pub kind: OutlineKind,
    /// How deep the row is nested.
    pub depth: u16,
    /// How many characters of key are drawn.
    pub key_len: u32,
    /// How many characters of value are drawn.
    pub value_len: u32,
}

impl OutlineRow {
    pub open spec fn spec_is_open(self) -> bool {
        self.kind is Open
    }

    /// Whether the row opens a container.
    #[verifier::when_used_as_spec(spec_is_open)]
    pub fn is_open(self) -> (r: bool)
        ensures
            r == self.spec_is_open(),
    {
        matches!(self.kind, OutlineKind::Open { .. })
    }
}

/// A document as rows.
pub struct Outline {
    pub rows: Vec<OutlineRow>,
}

/// Whether row `f` opens a container that row `r` is inside of, or closes.
pub open spec fn encloses(rows: Seq<OutlineRow>, f: int, r: int) -> bool {
    rows[f].kind matches OutlineKind::Open { close } && f < r <= close
}

/// Whether the rows are those of a document: every opening row is closed by a later one, and
/// containers nest.
pub open spec fn is_document(rows: Seq<OutlineRow>) -> bool {
    &&& rows.len() <= u32::MAX
    &&& forall|f: int|
        0 <= f < rows.len() ==> (#[trigger] rows[f].kind matches OutlineKind::Open { close } ==> f
            < close < rows.len())
    &&& forall|f: int, g: int|
        0 <= f < rows.len() && 0 <= g < rows.len() && #[trigger] encloses(rows, f, g) ==> (
        rows[g].kind matches OutlineKind::Open { close: inner } ==> inner <= rows[f].kind->close)
    &&& forall|f: int|
        0 <= f < rows.len() ==> #[trigger] rows[f].key_len + rows[f].value_len <= u32::MAX
}

/// Whether a folded container hides row `r`.
pub open spec fn is_hidden(rows: Seq<OutlineRow>, folded: Seq<bool>, r: int) -> bool {
    exists|f: int| 0 <= f < rows.len() && folded[f] && #[trigger] encloses(rows, f, r)
}

/// The rows before row `n` that no fold hides, in order.
pub open spec fn visible_before(rows: Seq<OutlineRow>, folded: Seq<bool>, n: int) -> Seq<u32>
    decreases n,
{
    if n <= 0 {
        Seq::empty()
    } else if is_hidden(rows, folded, n - 1) {
        visible_before(rows, folded, n - 1)
    } else {
        visible_before(rows, folded, n - 1).push((n - 1) as u32)
    }
}

/// The rows that no fold hides, in order.
pub open spec fn visible_of(rows: Seq<OutlineRow>, folded: Seq<bool>) -> Seq<u32> {
    visible_before(rows, folded, rows.len() as int)
}

/// The drawn width of a row: thirteen pixels a level and eight and a half a character, in half
/// pixels.
pub open spec fn row_width(row: OutlineRow) -> int {
    26 * row.depth + 17 * (row.key_len + row.value_len)
}

/// A row's depth and drawn character count.
pub open spec fn row_extent(row: OutlineRow) -> (u16, u32) {
    (row.depth, (row.key_len + row.value_len) as u32)
}

/// The widest of the first `n` visible rows: its visible index, its width and its extent. The
/// first of several equally wide ones counts; a row of no width does not.
pub open spec fn widest_before(rows: Seq<OutlineRow>, visible: Seq<u32>, n: int) -> (
    int,
    int,
    (u16, u32),
)
    decreases n,
{
    if n <= 0 {
        (0, 0, (0, 0))
    } else {
        let best = widest_before(rows, visible, n - 1);
        let row = rows[visible[n - 1] as int];
        if row_width(row) > best.1 {
            (n - 1, row_width(row), row_extent(row))
        } else {
            best
        }
    }
}

/// The widest visible row.
pub open spec fn widest_of(rows: Seq<OutlineRow>, visible: Seq<u32>) -> (int, int, (u16, u32)) {
    widest_before(rows, visible, visible.len() as int)
}

/// The visible index is in order and holds exactly the rows that no fold hides.
pub proof fn lemma_visible(rows: Seq<OutlineRow>, folded: Seq<bool>, n: int)
    requires
        0 <= n <= rows.len() <= u32::MAX,
    ensures
        forall|i: int, j: int|
            0 <= i < j < visible_before(rows, folded, n).len() ==> #[trigger] visible_before(
                rows,
                folded,
                n,
            )[i] < #[trigger] visible_before(rows, folded, n)[j],
        forall|i: int|
            0 <= i < visible_before(rows, folded, n).len() ==> (#[trigger] visible_before(
                rows,
                folded,
                n,
            )[i]) < n && !is_hidden(rows, folded, visible_before(rows, folded, n)[i] as int),
        forall|r: int|
            0 <= r < n && !#[trigger] is_hidden(rows, folded, r) ==> visible_before(
                rows,
                folded,
                n,
            ).contains(r as u32),
        visible_before(rows, folded, n).len() <= n,
    decreases n,
{
    if n > 0 {
        lemma_visible(rows, folded, n - 1);
        let before = visible_before(rows, folded, n - 1);
        let now = visible_before(rows, folded, n);
        assert forall|r: int| 0 <= r < n && !#[trigger] is_hidden(rows, folded, r) implies now.contains(
            r as u32,
        ) by {
            if r < n - 1 {
                let i = before.index_of(r as u32);
                assert(now[i] == r as u32);
            } else {
                assert(now[before.len() as int] == r as u32);
            }
        }
    }
}

/// What is on screen is exactly what no folded container encloses, once and in order.
pub proof fn visible_rows_are_the_unhidden_ones(rows: Seq<OutlineRow>, folded: Seq<bool>, r: int)
    requires
        0 <= r < rows.len() <= u32::MAX,
    ensures
        visible_of(rows, folded).contains(r as u32) <==> !is_hidden(rows, folded, r),
        forall|i: int, j: int|
            0 <= i < j < visible_of(rows, folded).len() ==> #[trigger] visible_of(rows, folded)[i]
                < #[trigger] visible_of(rows, folded)[j],
{
    lemma_visible(rows, folded, rows.len() as int);
}

/// With nothing folded, every row is on screen.
pub proof fn unfolded_shows_everything(rows: Seq<OutlineRow>, folded: Seq<bool>, n: int)
    requires
        0 <= n <= rows.len() <= u32::MAX,
        forall|f: int| 0 <= f < rows.len() ==> !#[trigger] folded[f],
    ensures
        visible_before(rows, folded, n) == Seq::new(n as nat, |i: int| i as u32),
    decreases n,
{
    if n > 0 {
        unfolded_shows_everything(rows, folded, n - 1);
        assert(visible_before(rows, folded, n) =~= Seq::new(n as nat, |i: int| i as u32));
    } else {
        assert(visible_before(rows, folded, n) =~= Seq::new(n as nat, |i: int| i as u32));
    }
}

/// The widest row is at least as wide as every visible one, strictly wider than those above it,
/// and the extent is its own.
pub proof fn the_widest_row_is_the_widest(rows: Seq<OutlineRow>, visible: Seq<u32>, n: int)
    requires
        0 <= n <= visible.len(),
        forall|i: int| 0 <= i < visible.len() ==> (#[trigger] visible[i]) < rows.len(),
    ensures
        ({
            let best = widest_before(rows, visible, n);
            &&& best.1 >= 0
            &&& forall|i: int| 0 <= i < n ==> row_width(rows[#[trigger] visible[i] as int]) <= best.1
            &&& forall|i: int|
                0 <= i < best.0 ==> row_width(rows[#[trigger] visible[i] as int]) < best.1
            &&& best.1 > 0 ==> 0 <= best.0 < n && best.1 == row_width(
                rows[visible[best.0] as int],
            ) && best.2 == row_extent(rows[visible[best.0] as int])
            &&& best.1 == 0 ==> best.0 == 0 && best.2 == (0u16, 0u32)
        }),
    decreases n,
{
    if n > 0 {
        the_widest_row_is_the_widest(rows, visible, n - 1);
    }
}

impl Outline {
    /// Whether the rows are those of a document.
    pub open spec fn wf(self) -> bool {
        is_document(self.rows@)
    }

    pub fn len(&self) -> (r: usize)
        ensures
            r == self.rows.len(),
    {
        self.rows.len()
    }

    /// The rows that a set of folds leaves on screen.
    pub fn visible_rows(&self, folded: &Vec<bool>) -> (visible: Vec<u32>)
        requires
            self.wf(),
            folded.len() == self.rows.len(),
        ensures
            visible@ == visible_of(self.rows@, folded@),
    {
        let mut visible: Vec<u32> = Vec::new();
        let mut ix: usize = 0;
        while ix < self.rows.len()
            invariant
                self.wf(),
                folded.len() == self.rows.len(),
                ix <= self.rows.len(),
                visible@ == visible_before(self.rows@, folded@, ix as int),
                // Every folded container above is behind.
                forall|f: int|
                    0 <= f < ix && folded[f] ==> (#[trigger] self.rows[f].kind matches
                        OutlineKind::Open { close } ==> close < ix),
            decreases self.rows.len() - ix,
        {
            let ghost rows = self.rows@;
            proof {
                assert forall|f: int| 0 <= f < rows.len() && folded[f] implies !#[trigger] encloses(
                    rows,
                    f,
                    ix as int,
                ) by {
                    if f < ix {
                        assert(self.rows[f] == rows[f]);
                    }
                }
                assert(!is_hidden(rows, folded@, ix as int));
            }
            visible.push(ix as u32);
            let mut next: usize = ix + 1;
            if folded[ix] {
                if let OutlineKind::Open { close } = self.rows[ix].kind {
                    next = close as usize + 1;
                    proof {
                        assert forall|r: int| ix < r <= close implies is_hidden(
                            rows,
                            folded@,
                            r,
                        ) by {
                            assert(encloses(rows, ix as int, r));
                        }
                        lemma_skip_hidden(rows, folded@, ix + 1, next as int);
                        assert forall|f: int| 0 <= f < next && folded[f] implies (
                        #[trigger] self.rows[f].kind matches OutlineKind::Open { close: inner }
                            ==> inner < next) by {
                            if f > ix {
                                assert(encloses(rows, ix as int, f));
                            }
                        }
                    }
                }
            }
            ix = next;
        }
        visible
    }
}

/// Hidden rows add nothing to the visible index.
proof fn lemma_skip_hidden(rows: Seq<OutlineRow>, folded: Seq<bool>, from: int, to: int)
    requires
        0 <= from <= to <= rows.len(),
        forall|r: int| from <= r < to ==> is_hidden(rows, folded, r),
    ensures
        visible_before(rows, folded, to) == visible_before(rows, folded, from),
    decreases to - from,
{
    if from < to {
        lemma_skip_hidden(rows, folded, from, to - 1);
        assert(is_hidden(rows, folded, to - 1));
    }
}

/// The widest visible row: its visible index, and its depth and drawn character count.
pub fn widest_json_row(rows: &Vec<OutlineRow>, visible: &Vec<u32>) -> (r: (usize, (u16, u32)))
    requires
        forall|i: int| 0 <= i < visible.len() ==> (#[trigger] visible[i]) < rows.len(),
        forall|f: int|
            0 <= f < rows.len() ==> #[trigger] rows[f].key_len + rows[f].value_len <= u32::MAX,
    ensures
        r.0 == widest_of(rows@, visible@).0,
        r.1 == widest_of(rows@, visible@).2,
{
    let mut best: usize = 0;
    let mut widest: u64 = 0;
    let mut extent: (u16, u32) = (0, 0);
    let mut i: usize = 0;
    while i < visible.len()
        invariant
            i <= visible.len(),
            forall|i: int| 0 <= i < visible.len() ==> (#[trigger] visible[i]) < rows.len(),
            forall|f: int|
                0 <= f < rows.len() ==> #[trigger] rows[f].key_len + rows[f].value_len <= u32::MAX,
            widest_before(rows@, visible@, i as int) == (best as int, widest as int, extent),
        decreases visible.len() - i,
    {
        let row = rows[visible[i] as usize];
        let chars: u32 = row.key_len + row.value_len;
        let width: u64 = 26 * (row.depth as u64) + 17 * (chars as u64);
        if width > widest {
            widest = width;
            best = i;
            extent = (row.depth, chars);
        }
        i = i + 1;
    }
    (best, extent)
}

/// Folding a container hides the rows after the one that opens it, through the one that closes it,
/// and no others: the opening row stays.
pub proof fn a_fold_hides_what_it_encloses(
    rows: Seq<OutlineRow>,
    folded: Seq<bool>,
    f: int,
    close: u32,
    r: int,
)
    requires
        0 <= f < rows.len() <= u32::MAX,
        folded.len() == rows.len(),
        rows[f].kind == (OutlineKind::Open { close }),
        forall|g: int| 0 <= g < rows.len() ==> (#[trigger] folded[g] <==> g == f),
        0 <= r < rows.len(),
    ensures
        r <= f || close < r ==> visible_of(rows, folded).contains(r as u32),
        f < r <= close ==> !visible_of(rows, folded).contains(r as u32),
{
    visible_rows_are_the_unhidden_ones(rows, folded, r);
    if f < r <= close {
        assert(encloses(rows, f, r));
    }
}

/// Only a row that opens a container hides anything.
pub proof fn a_plain_row_hides_nothing(rows: Seq<OutlineRow>, folded: Seq<bool>, r: int)
    requires
        0 <= r < rows.len() <= u32::MAX,
        forall|g: int| 0 <= g < rows.len() && #[trigger] folded[g] ==> !(rows[g].kind is Open),
    ensures
        visible_of(rows, folded).contains(r as u32),
{
    visible_rows_are_the_unhidden_ones(rows, folded, r);
}

/// A row is wider by thirteen pixels for each level and by eight and a half for each character,
/// counted in half pixels, and its extent says how many of each it has.
pub proof fn a_row_is_as_wide_as_what_it_draws(a: OutlineRow, b: OutlineRow)
    requires
        a.key_len + a.value_len <= u32::MAX,
    ensures
        row_width(a) - row_width(b) == 26 * (a.depth - b.depth) + 17 * (a.key_len - b.key_len) + 17
            * (a.value_len - b.value_len),
        row_extent(a).0 == a.depth,
        row_extent(a).1 == a.key_len + a.value_len,
        a.depth == 0 && a.key_len == 0 && a.value_len == 0 ==> row_width(a) == 0,
{
}

/// The widest row on screen is at least as wide as each of them, and is the first that is.
pub proof fn no_visible_row_is_wider(rows: Seq<OutlineRow>, visible: Seq<u32>, i: int)
    requires
        0 <= i < visible.len(),
        forall|k: int| 0 <= k < visible.len() ==> (#[trigger] visible[k]) < rows.len(),
    ensures
        row_width(rows[visible[i] as int]) <= widest_of(rows, visible).1,
        i < widest_of(rows, visible).0 ==> row_width(rows[visible[i] as int]) < widest_of(
            rows,
            visible,
        ).1,
        i == widest_of(rows, visible).0 ==> row_width(rows[visible[i] as int]) == widest_of(
            rows,
            visible,
        ).1 || widest_of(rows, visible).1 == 0,
        0 <= widest_of(rows, visible).0 < visible.len(),
{
    the_widest_row_is_the_widest(rows, visible, visible.len() as int);
}

} // verus!
