//! The items of the grid overview, their cell arrangement, and the lookup
//! that carries per-item animation state from one arrangement to the next.
//!
//! A window is identified by an integer handle.

use vstd::prelude::*;
use crate::seqs::{first_match, lemma_first_match_at, lemma_first_match_none, lemma_first_match_props};

verus! {

/// A direction of keyboard navigation in the grid.
#[derive(Clone, Copy, Debug, PartialEq, Eq, Structural)]
pub enum GridDirection {
    Up,
    Down,
    Left,
    Right,
}

/// One cell of the grid: a whole scrolling-layout column shown through its
/// focused tile, a single tile of a tabbed column, or a floating window.
#[derive(Clone, Copy, Debug)]
pub enum GridItem {
    Column { col_idx: usize, window_id: u64 },
    Tab { col_idx: usize, tile_idx: usize, window_id: u64 },
    Floating { window_id: u64 },
}

impl GridItem {
    pub open spec fn spec_window_id(self) -> u64 {
        match self {
            GridItem::Column { window_id, .. } => window_id,
            GridItem::Tab { window_id, .. } => window_id,
            GridItem::Floating { window_id } => window_id,
        }
    }

    /// Two items are the same animated thing: the same kind of item showing
    /// the same window.
    pub open spec fn spec_same_animation_identity(self, other: GridItem) -> bool {
        match (self, other) {
            (GridItem::Column { window_id: a, .. }, GridItem::Column { window_id: b, .. }) => a == b,
            (GridItem::Tab { window_id: a, .. }, GridItem::Tab { window_id: b, .. }) => a == b,
            (GridItem::Floating { window_id: a }, GridItem::Floating { window_id: b }) => a == b,
            _ => false,
        }
    }

    /// Item equality: columns are equal when they are the same layout
    /// column, whatever tile they show; tabs and floating windows when they
    /// show the same window.
    pub open spec fn spec_eq(self, other: GridItem) -> bool {
        match (self, other) {
            (GridItem::Column { col_idx: a, .. }, GridItem::Column { col_idx: b, .. }) => a == b,
            (GridItem::Tab { window_id: a, .. }, GridItem::Tab { window_id: b, .. }) => a == b,
            (GridItem::Floating { window_id: a }, GridItem::Floating { window_id: b }) => a == b,
            _ => false,
        }
    }

    pub open spec fn spec_matches_animation_key(self, other: GridItem) -> bool {
        self.spec_same_animation_identity(other) || self.spec_eq(other)
    }

    /// The window that the item shows.
    pub fn window_id(&self) -> (id: u64)
        ensures
            id == self.spec_window_id(),
    {
        match self {
            GridItem::Column { window_id, .. } => *window_id,
            GridItem::Tab { window_id, .. } => *window_id,
            GridItem::Floating { window_id } => *window_id,
        }
    }

    /// Makes a column item show window `id`; other items stay as they are.
    pub fn set_column_window_id(&mut self, id: u64)
        ensures
            *final(self) == (match *old(self) {
                GridItem::Column { col_idx, .. } => GridItem::Column { col_idx, window_id: id },
                other => other,
            }),
    {
        if let GridItem::Column { window_id, .. } = self {
            *window_id = id;
        }
    }

    pub fn is_column(&self) -> (b: bool)
        ensures
            b == (*self is Column),
    {
        match self {
            GridItem::Column { .. } => true,
            _ => false,
        }
    }

    pub fn same_animation_identity(&self, other: &GridItem) -> (b: bool)
        ensures
            b == self.spec_same_animation_identity(*other),
    {
        match (self, other) {
            (GridItem::Column { window_id: a, .. }, GridItem::Column { window_id: b, .. }) => *a == *b,
            (GridItem::Tab { window_id: a, .. }, GridItem::Tab { window_id: b, .. }) => *a == *b,
            (GridItem::Floating { window_id: a }, GridItem::Floating { window_id: b }) => *a == *b,
            _ => false,
        }
    }

    /// Whether animation state kept for `other` belongs to this item: the
    /// same animated thing, or an equal item.
    pub fn matches_animation_key(&self, other: &GridItem) -> (b: bool)
        ensures
            b == self.spec_matches_animation_key(*other),
    {
        self.same_animation_identity(other) || self == other
    }
}

impl PartialEq for GridItem {
    fn eq(&self, other: &GridItem) -> (r: bool) {
        match (self, other) {
            (GridItem::Column { col_idx: a, .. }, GridItem::Column { col_idx: b, .. }) => *a == *b,
            (GridItem::Tab { window_id: a, .. }, GridItem::Tab { window_id: b, .. }) => *a == *b,
            (GridItem::Floating { window_id: a }, GridItem::Floating { window_id: b }) => *a == *b,
            _ => false,
        }
    }
}

impl vstd::std_specs::cmp::PartialEqSpecImpl for GridItem {
    open spec fn obeys_eq_spec() -> bool {
        true
    }

    open spec fn eq_spec(&self, other: &GridItem) -> bool {
        self.spec_eq(*other)
    }
}

/// Item equality is an equivalence relation.
pub proof fn lemma_item_eq_is_equivalence(a: GridItem, b: GridItem, c: GridItem)
    ensures
        a.spec_eq(a),
        a.spec_eq(b) ==> b.spec_eq(a),
        a.spec_eq(b) && b.spec_eq(c) ==> a.spec_eq(c),
{
}

/// Being the same animated thing is an equivalence relation, and the same
/// animated thing shows the same window.
pub proof fn lemma_animation_identity_is_equivalence(a: GridItem, b: GridItem, c: GridItem)
    ensures
        a.spec_same_animation_identity(a),
        a.spec_same_animation_identity(b) ==> b.spec_same_animation_identity(a),
        a.spec_same_animation_identity(b) && b.spec_same_animation_identity(c)
            ==> a.spec_same_animation_identity(c),
        a.spec_same_animation_identity(b) ==> a.spec_window_id() == b.spec_window_id(),
{
}

/// Where an item sits in the grid, and its geometry (computed elsewhere).
#[derive(Clone, Copy, Debug)]
pub struct GridEntryInfo<G> {
    pub row: usize,
    pub col: usize,
    pub geometry: G,
}

/// The arrangement of items in a grid of `cols` columns and `rows` rows,
/// filled row by row.
#[derive(Debug)]
pub struct GridLayout<G> {
    pub cols: usize,
    pub rows: usize,
    pub entries: Vec<(GridItem, GridEntryInfo<G>)>,
}

/// `n` divided by `d`, rounded up.
pub open spec fn ceil_div(n: int, d: int) -> int {
    (n + d - 1) / d
}

/// The grid dimensions for `n` items when `estimate` columns are proposed:
/// as many rows as it takes; then, if one column fewer still holds every
/// item in that many rows, one column fewer (and the rows that takes).
pub open spec fn grid_dimensions_spec(n: int, estimate: int) -> (int, int) {
    let rows = ceil_div(n, estimate);
    if (estimate - 1) * rows >= n && estimate > 1 {
        (estimate - 1, ceil_div(n, estimate - 1))
    } else {
        (estimate, rows)
    }
}

impl<G> GridLayout<G> {
    /// Every entry sits in the cell of its index, filled row by row, and a
    /// grid with entries has columns.
    pub open spec fn wf(&self) -> bool {
        &&& self.entries@.len() > 0 ==> self.cols > 0
        &&& forall|i: int|
            0 <= i < self.entries@.len() ==> {
                &&& (#[trigger] self.entries@[i]).1.row == i / (self.cols as int)
                &&& self.entries@[i].1.col == i % (self.cols as int)
            }
    }

    /// The layout without entries.
    pub fn empty() -> (r: GridLayout<G>)
        ensures
            r.cols == 0,
            r.rows == 0,
            r.entries@.len() == 0,
            r.wf(),
    {
        GridLayout { cols: 0, rows: 0, entries: Vec::new() }
    }

    /// Lays out `items` in a grid of `cols` columns and `rows` rows, row by
    /// row: the item at index `i` goes to row `i / cols`, column `i % cols`.
    pub fn from_entries(cols: usize, rows: usize, items: Vec<(GridItem, G)>) -> (r: GridLayout<G>)
        requires
            cols > 0,
        ensures
            r.cols == cols,
            r.rows == rows,
            r.entries@.len() == items@.len(),
            forall|i: int|
                0 <= i < items@.len() ==> (#[trigger] r.entries@[i]).0 == items@[i].0
                    && r.entries@[i].1.geometry == items@[i].1 && r.entries@[i].1.row == i
                    / (cols as int) && r.entries@[i].1.col == i % (cols as int),
            r.wf(),
    {
        let mut items = items;
        let ghost orig = items@;
        let n = items.len();
        // Take the items from the back, then from the back again, so that
        // they come out in their original order.
        let mut reversed: Vec<(GridItem, G)> = Vec::new();
        while items.len() > 0
            invariant
                items@.len() + reversed@.len() == n,
                n == orig.len(),
                items@ == orig.take(items@.len() as int),
                forall|j: int|
                    0 <= j < reversed@.len() ==> #[trigger] reversed@[j] == orig[n - 1 - j],
            decreases items@.len(),
        {
            let x = items.pop().unwrap();
            reversed.push(x);
            assert(items@ =~= orig.take(items@.len() as int));
        }
        let mut entries: Vec<(GridItem, GridEntryInfo<G>)> = Vec::new();
        while reversed.len() > 0
            invariant
                reversed@.len() + entries@.len() == n,
                n == orig.len(),
                cols > 0,
                forall|j: int|
                    0 <= j < reversed@.len() ==> #[trigger] reversed@[j] == orig[n - 1 - j],
                forall|i: int|
                    0 <= i < entries@.len() ==> (#[trigger] entries@[i]).0 == orig[i].0
                        && entries@[i].1.geometry == orig[i].1 && entries@[i].1.row == i
                        / (cols as int) && entries@[i].1.col == i % (cols as int),
            decreases reversed@.len(),
        {
            let idx = entries.len();
            let (item, geometry) = reversed.pop().unwrap();
            entries.push((item, GridEntryInfo { row: idx / cols, col: idx % cols, geometry }));
        }
        GridLayout { cols, rows, entries }
    }
}

/// What rounding up a division amounts to.
proof fn lemma_ceil_div(n: int, d: int)
    requires
        n >= 0,
        d > 0,
    ensures
        ceil_div(n, d) == n / d + (if n % d != 0 { 1int } else { 0int }),
        d * ceil_div(n, d) >= n,
        n > 0 ==> (ceil_div(n, d) - 1) * d < n,
        n > 0 ==> ceil_div(n, d) >= 1,
        d >= n ==> ceil_div(n, d) <= 1,
{
    let q = n / d;
    let m = n % d;
    vstd::arithmetic::div_mod::lemma_fundamental_div_mod(n, d);
    assert(n == q * d + m);
    assert(0 <= m < d);
    if m == 0 {
        assert(n + d - 1 == q * d + (d - 1));
        vstd::arithmetic::div_mod::lemma_fundamental_div_mod_converse(n + d - 1, d, q, d - 1);
    } else {
        assert((q + 1) * d == q * d + d) by (nonlinear_arith);
        assert(n + d - 1 == (q + 1) * d + (m - 1));
        vstd::arithmetic::div_mod::lemma_fundamental_div_mod_converse(n + d - 1, d, q + 1, m - 1);
    }
    let c = ceil_div(n, d);
    assert(d * c >= n && (c - 1) * d <= n - 1 + 0) by (nonlinear_arith)
        requires
            n == q * d + m,
            0 <= m < d,
            c == q + (if m != 0 { 1int } else { 0int }),
    {}
    if n > 0 {
        assert(c >= 1) by (nonlinear_arith)
            requires
                n > 0,
                d * c >= n,
                d > 0,
        {}
    }
    if d >= n {
        assert(c <= 1) by (nonlinear_arith)
            requires
                d >= n,
                n >= 0,
                (c - 1) * d <= n - 1 || n == 0,
                d > 0,
                n == 0 ==> c == 0,
        {}
    }
}

/// `n` divided by `d`, rounded up.
fn div_ceil(n: usize, d: usize) -> (r: usize)
    requires
        d > 0,
    ensures
        r == ceil_div(n as int, d as int),
{
    proof {
        lemma_ceil_div(n as int, d as int);
        vstd::arithmetic::div_mod::lemma_fundamental_div_mod(n as int, d as int);
    }
    let q = n / d;
    if n % d != 0 {
        assert(q < n) by (nonlinear_arith)
            requires
                n == d * (n / d) + n % d,
                n % d > 0,
                q == n / d,
                d > 0,
                n % d < d,
        {}
        q + 1
    } else {
        q
    }
}

/// The columns and rows of the grid for `n` items when the column estimate
/// from the area's aspect ratio is `estimate` (see `grid_dimensions_spec`).
pub fn grid_dimensions(n: usize, estimate: usize) -> (r: (usize, usize))
    requires
        n > 0,
        estimate > 0,
        n <= isize::MAX,
    ensures
        (r.0 as int, r.1 as int) == grid_dimensions_spec(n as int, estimate as int),
{
    let mut cols = estimate;
    let mut rows = div_ceil(n, cols);
    proof {
        lemma_ceil_div(n as int, cols as int);
        let c = cols as int;
        let r = rows as int;
        if c > n {
            assert(r <= 1);
            assert((c - 1) * r <= c - 1) by (nonlinear_arith)
                requires
                    r <= 1,
                    c >= 1,
            {}
        } else {
            assert((c - 1) * r <= 2 * n) by (nonlinear_arith)
                requires
                    (r - 1) * c < n,
                    c <= n,
                    c >= 1,
                    r >= 0,
            {}
        }
    }
    if (cols - 1) * rows >= n && cols > 1 {
        cols -= 1;
        rows = div_ceil(n, cols);
    }
    (cols, rows)
}

/// The grid holds every item, every row holds one, and the estimate is
/// never exceeded.
pub proof fn lemma_grid_dimensions_fit(n: int, estimate: int)
    requires
        n > 0,
        estimate > 0,
    ensures
        ({
            let (cols, rows) = grid_dimensions_spec(n, estimate);
            &&& 1 <= cols <= estimate
            &&& rows >= 1
            &&& cols * rows >= n
            &&& (rows - 1) * cols < n
        }),
{
    lemma_ceil_div(n, estimate);
    if estimate > 1 {
        lemma_ceil_div(n, estimate - 1);
    }
}

/// How the columns are chosen: with `rows` the fewest rows that hold `n`
/// items in `estimate` columns, the grid takes one column fewer exactly when
/// there are at least two and one fewer still holds every item in that many
/// rows; otherwise it takes the estimate. Its rows are then the fewest that
/// hold every item in its columns.
pub proof fn lemma_grid_dimensions_choice(n: int, estimate: int, rows: int)
    requires
        n > 0,
        estimate > 0,
        estimate * rows >= n,
        estimate * (rows - 1) < n,
    ensures
        ({
            let (c, r) = grid_dimensions_spec(n, estimate);
            &&& c == (if estimate > 1 && (estimate - 1) * rows >= n {
                estimate - 1
            } else {
                estimate
            })
            &&& c * r >= n
            &&& c * (r - 1) < n
        }),
{
    lemma_ceil_div(n, estimate);
    let q = ceil_div(n, estimate);
    assert(q == rows) by (nonlinear_arith)
        requires
            estimate > 0,
            estimate * rows >= n,
            estimate * (rows - 1) < n,
            estimate * q >= n,
            (q - 1) * estimate < n,
    {
        if q < rows {
            assert(estimate * q <= estimate * (rows - 1));
        }
        if q > rows {
            assert(estimate * rows <= estimate * (q - 1));
        }
    }
    lemma_grid_dimensions_fit(n, estimate);
    let (c, r) = grid_dimensions_spec(n, estimate);
    assert(c * (r - 1) == (r - 1) * c) by (nonlinear_arith);
}

/// Where the state kept for `item` sits in `entries`: the first entry of
/// the same animated thing, else the first entry equal to it.
pub open spec fn matching_index<T>(entries: Seq<(GridItem, T)>, item: GridItem) -> Option<int> {
    match first_match(entries, same_thing_as::<T>(item)) {
        Some(i) => Some(i),
        None => first_match(entries, equal_to::<T>(item)),
    }
}

/// Entries of the same animated thing as `item`.
pub open spec fn same_thing_as<T>(item: GridItem) -> spec_fn((GridItem, T)) -> bool {
    |e: (GridItem, T)| e.0.spec_same_animation_identity(item)
}

/// Entries of an item equal to `item`.
pub open spec fn equal_to<T>(item: GridItem) -> spec_fn((GridItem, T)) -> bool {
    |e: (GridItem, T)| e.0.spec_eq(item)
}

/// The state kept for `item` in `entries`, see `matching_index`.
pub fn matching_value<'a, T>(entries: &'a [(GridItem, T)], item: &GridItem) -> (r: Option<&'a T>)
    ensures
        match matching_index(entries@, *item) {
            Some(i) => r is Some && *r->0 == entries@[i].1,
            None => r is None,
        },
{
    let ghost same = same_thing_as::<T>(*item);
    let ghost equal = equal_to::<T>(*item);
    let n = entries.len();
    let mut i: usize = 0;
    while i < n
        invariant
            n == entries@.len(),
            i <= n,
            same == same_thing_as::<T>(*item),
            forall|j: int| 0 <= j < i ==> !same(#[trigger] entries@[j]),
        decreases n - i,
    {
        if entries[i].0.same_animation_identity(item) {
            proof {
                lemma_first_match_at(entries@, same, i as int);
            }
            return Some(&entries[i].1);
        }
        i += 1;
    }
    proof {
        lemma_first_match_none(entries@, same);
    }
    let mut i: usize = 0;
    while i < n
        invariant
            n == entries@.len(),
            i <= n,
            equal == equal_to::<T>(*item),
            first_match(entries@, same_thing_as::<T>(*item)) is None,
            forall|j: int| 0 <= j < i ==> !equal(#[trigger] entries@[j]),
        decreases n - i,
    {
        if entries[i].0 == *item {
            proof {
                lemma_first_match_at(entries@, equal, i as int);
            }
            return Some(&entries[i].1);
        }
        i += 1;
    }
    proof {
        lemma_first_match_none(entries@, equal);
    }
    None
}

/// The state kept for `item` comes from the first entry of the same
/// animated thing when there is one; otherwise from the first entry equal to
/// it; and there is none when no entry is either.
pub proof fn lemma_matching_index_prefers_identity<T>(entries: Seq<(GridItem, T)>, item: GridItem)
    ensures
        (exists|j: int| 0 <= j < entries.len() && (#[trigger] entries[j]).0.spec_same_animation_identity(item))
            ==> (matching_index(entries, item) matches Some(i) && 0 <= i < entries.len()
            && entries[i].0.spec_same_animation_identity(item) && forall|j: int|
            0 <= j < i ==> !(#[trigger] entries[j]).0.spec_same_animation_identity(item)),
        (forall|j: int| 0 <= j < entries.len() ==> !(#[trigger] entries[j]).0.spec_same_animation_identity(item))
            ==> match matching_index(entries, item) {
            Some(i) => 0 <= i < entries.len() && entries[i].0.spec_eq(item) && forall|j: int|
                0 <= j < i ==> !(#[trigger] entries[j]).0.spec_eq(item),
            None => forall|j: int| 0 <= j < entries.len() ==> !(#[trigger] entries[j]).0.spec_eq(item),
        },
{
    lemma_first_match_props(entries, same_thing_as::<T>(item));
    lemma_first_match_props(entries, equal_to::<T>(item));
    if exists|j: int| 0 <= j < entries.len() && (#[trigger] entries[j]).0.spec_same_animation_identity(item) {
        let j = choose|j: int| 0 <= j < entries.len() && (#[trigger] entries[j]).0.spec_same_animation_identity(item);
        assert(same_thing_as::<T>(item)(entries[j]));
        let i = first_match(entries, same_thing_as::<T>(item))->Some_0;
        assert forall|k: int| 0 <= k < i implies !(#[trigger] entries[k]).0.spec_same_animation_identity(item) by {
            assert(!same_thing_as::<T>(item)(entries[k]));
        }
    } else {
        assert forall|k: int| 0 <= k < entries.len() implies !same_thing_as::<T>(item)(#[trigger] entries[k]) by {}
        lemma_first_match_none(entries, same_thing_as::<T>(item));
        match first_match(entries, equal_to::<T>(item)) {
            Some(i) => {
                assert(equal_to::<T>(item)(entries[i]));
                assert forall|k: int| 0 <= k < i implies !(#[trigger] entries[k]).0.spec_eq(item) by {
                    assert(!equal_to::<T>(item)(entries[k]));
                }
            },
            None => {
                assert forall|k: int| 0 <= k < entries.len() implies !(#[trigger] entries[k]).0.spec_eq(item) by {
                    assert(!equal_to::<T>(item)(entries[k]));
                }
            },
        }
    }
}

} // verus!
