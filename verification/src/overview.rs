//! The grid overview's selection state: which cell is focused, which tile
//! of each multi-tile column is focused, and keyboard navigation.
//!
//! Animation and geometry live with the caller; the operations here say
//! when a focus-boost animation has to (re)start.

use vstd::prelude::*;
use crate::grid::{GridDirection, GridEntryInfo, GridItem, GridLayout};
use crate::seqs::{
    first_match, lemma_first_match_agree, lemma_first_match_at, lemma_first_match_none,
    lemma_first_match_props,
};

verus! {

/// The selection state of the grid overview.
#[derive(Debug)]
pub struct GridOverview<G> {
    /// Whether the overview is open (or opening).
    pub open: bool,
    pub layout: GridLayout<G>,
    /// The focused cell, as (row, column).
    pub focus: (usize, usize),
    /// The window that was active when the overview opened.
    pub saved_active_window_id: Option<u64>,
    /// The cell that was focused before the running focus-boost animation.
    pub previous_focus: Option<(usize, usize)>,
    /// For columns with several tiles: layout column index and focused tile.
    pub column_tile_focus: Vec<(usize, usize)>,
}

/// What a navigation step did besides moving the focus.
#[derive(Clone, Copy, Debug, PartialEq, Eq)]
pub struct Navigation {
    /// The (layout column, tile) that became focused within a column, when
    /// the step switched tiles instead of cells.
    pub tile: Option<(usize, usize)>,
    /// When the focus-boost animation restarts: the focus with which the
    /// current boosts are to be captured before it does.
    pub restart_focus_boost: Option<(usize, usize)>,
}

/// Where the open/close progress of the overview stands.
#[derive(Clone, Copy, Debug, PartialEq, Eq, Structural)]
pub enum ProgressState {
    /// Fully open.
    Open,
    /// Opening or closing; `done` when the animation has ended.
    Animating { done: bool },
}

/// The animations that have run out, and what is to be done about them.
#[derive(Clone, Copy, Debug, PartialEq, Eq)]
pub struct AnimationsAdvance {
    /// The open/close animation ended; the progress becomes `progress`
    /// (fully open, or none when the overview closed).
    pub finish_progress: bool,
    pub progress: Option<ProgressState>,
    /// The rearrange animation ended and is dropped.
    pub finish_rearrange: bool,
    /// The focus-boost animation ended: it is dropped and the captured
    /// boosts are cleared, after any syncing below.
    pub finish_focus_boost: bool,
    /// Entry positions and scales are to be synced to the layout's targets.
    pub sync_entries: bool,
    /// The sync also resets every focus boost to 1, as no focus-boost
    /// animation runs at the time of the sync.
    pub reset_focus_boosts: bool,
}

/// The focus kept when `layout` replaces the arrangement: the first cell
/// when it is empty, else the old focus clamped to its last row and column.
pub open spec fn clamped_focus<G>(focus: (usize, usize), layout: &GridLayout<G>) -> (usize, usize) {
    if layout.entries@.len() == 0 {
        (0usize, 0usize)
    } else {
        (
            if focus.0 < layout.rows {
                focus.0
            } else if layout.rows > 0 {
                (layout.rows - 1) as usize
            } else {
                0usize
            },
            if focus.1 < layout.cols {
                focus.1
            } else if layout.cols > 0 {
                (layout.cols - 1) as usize
            } else {
                0usize
            },
        )
    }
}

/// Entries of the tile-focus list for layout column `col`.
pub open spec fn column_is(col: usize) -> spec_fn((usize, usize)) -> bool {
    |e: (usize, usize)| e.0 == col
}

/// The focused tile of layout column `col`: the first entry for it, else 0.
pub open spec fn tile_focus(v: Seq<(usize, usize)>, col: usize) -> usize {
    match first_match(v, column_is(col)) {
        Some(i) => v[i].1,
        None => 0,
    }
}

/// The tile-focus list with the focused tile of `col` set to `tile`: the
/// first entry for `col` is overwritten, else an entry is appended.
pub open spec fn with_tile_focus(v: Seq<(usize, usize)>, col: usize, tile: usize) -> Seq<(usize, usize)> {
    match first_match(v, column_is(col)) {
        Some(i) => v.update(i, (col, tile)),
        None => v.push((col, tile)),
    }
}

/// `item` made to show window `id` if it is the column item of layout
/// column `col`.
pub open spec fn retargeted(item: GridItem, col: usize, id: u64) -> GridItem {
    match item {
        GridItem::Column { col_idx, .. } => if col_idx == col {
            GridItem::Column { col_idx, window_id: id }
        } else {
            item
        },
        _ => item,
    }
}

/// Entries whose item shows window `id`.
pub open spec fn shows_window<G>(id: u64) -> spec_fn((GridItem, GridEntryInfo<G>)) -> bool {
    |e: (GridItem, GridEntryInfo<G>)| e.0.spec_window_id() == id
}

/// Entries whose item equals `item`.
pub open spec fn is_item<G>(item: GridItem) -> spec_fn((GridItem, GridEntryInfo<G>)) -> bool {
    |e: (GridItem, GridEntryInfo<G>)| e.0.spec_eq(item)
}

/// The cell (row, column) of entry index `i` in a grid of `cols` columns.
pub open spec fn cell_of(i: int, cols: usize) -> (usize, usize) {
    ((i / cols as int) as usize, (i % cols as int) as usize)
}

/// The cell that a cross-cell step from `focus` in direction `dir` reaches
/// in a grid of `rows` rows and `cols` columns holding `len` items: one step
/// when it stays inside the grid, else no step; a step past the last item
/// lands on the last item.
pub open spec fn cross_cell_target(
    focus: (usize, usize),
    rows: usize,
    cols: usize,
    len: usize,
    dir: GridDirection,
) -> (usize, usize) {
    let (row, col) = focus;
    let step: (usize, usize) = match dir {
        GridDirection::Up => if row > 0 {
            ((row - 1) as usize, col)
        } else {
            (row, col)
        },
        GridDirection::Down => if row + 1 < rows {
            ((row + 1) as usize, col)
        } else {
            (row, col)
        },
        GridDirection::Left => if col > 0 {
            (row, (col - 1) as usize)
        } else {
            (row, col)
        },
        GridDirection::Right => if col + 1 < cols {
            (row, (col + 1) as usize)
        } else {
            (row, col)
        },
    };
    if step.0 * cols + step.1 >= len {
        let last = (len - 1) as usize;
        (last / cols, last % cols)
    } else {
        step
    }
}

impl<G> GridOverview<G> {
    /// The entry index of the focused cell.
    pub open spec fn focus_index(&self) -> int {
        self.focus.0 * self.layout.cols + self.focus.1
    }

    /// The index arithmetic of a step in direction `dir` fits in `usize`:
    /// the focused index, and the index of the neighbouring cell a step
    /// down or right computes.
    pub open spec fn navigation_fits(&self, dir: GridDirection) -> bool {
        let (row, col) = self.focus;
        let cols = self.layout.cols;
        &&& row * cols + col <= usize::MAX
        &&& dir == GridDirection::Down ==> row < usize::MAX && (row + 1 < self.layout.rows ==> (row
            + 1) * cols + col <= usize::MAX)
        &&& dir == GridDirection::Right ==> col < usize::MAX && (col + 1 < cols ==> row * cols + col
            + 1 <= usize::MAX)
    }

    /// The layout column of the focused cell, if it holds a column item.
    pub open spec fn column_at_focus(&self) -> Option<usize> {
        let idx = self.focus_index();
        if 0 <= idx < self.layout.entries@.len() {
            match self.layout.entries@[idx].0 {
                GridItem::Column { col_idx, .. } => Some(col_idx),
                _ => None,
            }
        } else {
            None
        }
    }

    /// Whether navigating in direction `dir` asks for the tile count of the
    /// focused column.
    pub open spec fn needs_tile_count(&self, dir: GridDirection) -> bool {
        self.layout.entries@.len() > 0 && dir == GridDirection::Down && self.column_at_focus() is Some
    }

    /// The tile switch that a step in direction `dir` makes within the
    /// focused column, given that column's tile count `count`.
    pub open spec fn tile_switch(&self, dir: GridDirection, count: usize) -> Option<(usize, usize)> {
        match self.column_at_focus() {
            Some(c) => {
                let cur = tile_focus(self.column_tile_focus@, c);
                match dir {
                    GridDirection::Up => if cur > 0 {
                        Some((c, (cur - 1) as usize))
                    } else {
                        None
                    },
                    GridDirection::Down => if count > 1 && cur + 1 < count {
                        Some((c, (cur + 1) as usize))
                    } else {
                        None
                    },
                    _ => None,
                }
            },
            None => None,
        }
    }

    /// The effect of a navigation step from this state: the new focus,
    /// previous focus, tile-focus list, and what the step reports.
    pub open spec fn navigation(&self, dir: GridDirection, count: usize) -> (
        (usize, usize),
        Option<(usize, usize)>,
        Seq<(usize, usize)>,
        Navigation,
    ) {
        if self.layout.entries@.len() == 0 {
            (
                self.focus,
                self.previous_focus,
                self.column_tile_focus@,
                Navigation { tile: None, restart_focus_boost: None },
            )
        } else if let Some((c, t)) = self.tile_switch(dir, count) {
            (
                self.focus,
                self.previous_focus,
                with_tile_focus(self.column_tile_focus@, c, t),
                Navigation { tile: Some((c, t)), restart_focus_boost: Some(self.focus) },
            )
        } else {
            let target = cross_cell_target(
                self.focus,
                self.layout.rows,
                self.layout.cols,
                self.layout.entries@.len() as usize,
                dir,
            );
            let animate = target != self.focus && self.open;
            (
                target,
                if animate {
                    Some(self.focus)
                } else {
                    self.previous_focus
                },
                self.column_tile_focus@,
                Navigation {
                    tile: None,
                    restart_focus_boost: if animate {
                        Some(self.focus)
                    } else {
                        None
                    },
                },
            )
        }
    }

    /// A closed overview with nothing laid out, focused on the first cell.
    pub fn new() -> (r: GridOverview<G>)
        ensures
            !r.open,
            r.layout.cols == 0,
            r.layout.rows == 0,
            r.layout.entries@.len() == 0,
            r.focus == (0usize, 0usize),
            r.saved_active_window_id is None,
            r.previous_focus is None,
            r.column_tile_focus@.len() == 0,
    {
        GridOverview {
            open: false,
            layout: GridLayout::empty(),
            focus: (0, 0),
            saved_active_window_id: None,
            previous_focus: None,
            column_tile_focus: Vec::new(),
        }
    }

    /// Opens a closed overview, or closes an open one.
    pub fn toggle(&mut self)
        ensures
            final(self).open == !old(self).open,
            final(self).layout == old(self).layout,
            final(self).focus == old(self).focus,
            final(self).saved_active_window_id == old(self).saved_active_window_id,
            final(self).previous_focus == old(self).previous_focus,
            final(self).column_tile_focus == old(self).column_tile_focus,
    {
        self.open = !self.open;
    }

    /// Takes a new arrangement and keeps the focus inside it: on the first
    /// cell when it is empty, else clamped to its last row and column.
    pub fn set_layout(&mut self, layout: GridLayout<G>)
        ensures
            final(self).layout == layout,
            final(self).focus == clamped_focus(old(self).focus, &layout),
            final(self).open == old(self).open,
            final(self).saved_active_window_id == old(self).saved_active_window_id,
            final(self).previous_focus == old(self).previous_focus,
            final(self).column_tile_focus == old(self).column_tile_focus,
    {
        self.layout = layout;
        if self.layout.entries.len() == 0 {
            self.focus = (0, 0);
        } else {
            let max_row = self.layout.rows.saturating_sub(1);
            let max_col = self.layout.cols.saturating_sub(1);
            let row = if self.focus.0 < max_row { self.focus.0 } else { max_row };
            let col = if self.focus.1 < max_col { self.focus.1 } else { max_col };
            self.focus = (row, col);
        }
    }

    /// Moves the focus to `focus`. When it moves while the overview is open,
    /// the old focus becomes the previous focus and is returned: the
    /// focus-boost animation restarts from the boosts it gave.
    pub fn set_focus(&mut self, focus: (usize, usize)) -> (r: Option<(usize, usize)>)
        ensures
            final(self).focus == focus,
            r == (if old(self).focus != focus && old(self).open {
                Some(old(self).focus)
            } else {
                None
            }),
            final(self).previous_focus == (if r is Some {
                r
            } else {
                old(self).previous_focus
            }),
            final(self).open == old(self).open,
            final(self).layout == old(self).layout,
            final(self).saved_active_window_id == old(self).saved_active_window_id,
            final(self).column_tile_focus == old(self).column_tile_focus,
    {
        if self.focus.0 == focus.0 && self.focus.1 == focus.1 {
            return None;
        }
        let old_focus = self.focus;
        let mut restart = None;
        if self.open {
            self.previous_focus = Some(old_focus);
            restart = Some(old_focus);
        }
        self.focus = focus;
        restart
    }

    /// Whether `new`, with navigation report `r`, is the outcome of a step
    /// from this state in direction `dir` when the focused column has
    /// `count` tiles.
    pub open spec fn navigated(&self, dir: GridDirection, count: usize, new: &Self, r: Navigation) -> bool {
        let (focus, previous, tiles, report) = self.navigation(dir, count);
        &&& new.focus == focus
        &&& new.previous_focus == previous
        &&& new.column_tile_focus@ == tiles
        &&& r == report
        &&& new.open == self.open
        &&& new.layout == self.layout
        &&& new.saved_active_window_id == self.saved_active_window_id
    }

    /// Moves the selection one step in direction `dir`. On a cell holding a
    /// column, up and down first switch between the column's tiles (down
    /// only while `get_tile_count` of the column says there is a next tile);
    /// otherwise the focus moves to the neighbouring cell, staying put at
    /// the grid's edge, and a step past the last item lands on it.
    pub fn navigate<F: Fn(usize) -> usize>(&mut self, dir: GridDirection, get_tile_count: F) -> (r: Navigation)
        requires
            old(self).layout.wf(),
            old(self).layout.entries@.len() > 0 ==> old(self).navigation_fits(dir),
            forall|c: usize| get_tile_count.requires((c,)),
        ensures
            old(self).needs_tile_count(dir) ==> exists|count: usize|
                #[trigger] get_tile_count.ensures((old(self).column_at_focus()->0,), count)
                    && old(self).navigated(dir, count, final(self), r),
            !old(self).needs_tile_count(dir) ==> old(self).navigated(dir, 0, final(self), r),
    {
        let len = self.layout.entries.len();
        if len == 0 {
            return Navigation { tile: None, restart_focus_boost: None };
        }
        let row = self.focus.0;
        let col = self.focus.1;
        let cols = self.layout.cols;
        assert(cols >= 1);
        let idx = row * cols + col;
        let current_col_idx: Option<usize> = if idx < len {
            match &self.layout.entries[idx].0 {
                GridItem::Column { col_idx, .. } => Some(*col_idx),
                _ => None,
            }
        } else {
            None
        };
        assert(current_col_idx == self.column_at_focus());
        let ghost mut count_seen: usize = 0;
        if let Some(c) = current_col_idx {
            match dir {
                GridDirection::Up => {
                    let current = self.get_column_tile_focus(c);
                    if current > 0 {
                        let tile = current - 1;
                        self.set_column_tile_focus_raw(c, tile);
                        return Navigation { tile: Some((c, tile)), restart_focus_boost: Some(self.focus) };
                    }
                },
                GridDirection::Down => {
                    let current = self.get_column_tile_focus(c);
                    let count = get_tile_count(c);
                    proof {
                        count_seen = count;
                    }
                    if count > 1 && current < count - 1 {
                        let tile = current + 1;
                        self.set_column_tile_focus_raw(c, tile);
                        return Navigation { tile: Some((c, tile)), restart_focus_boost: Some(self.focus) };
                    }
                },
                _ => {},
            }
        }
        assert(self.tile_switch(dir, count_seen) is None);
        let rows = self.layout.rows;
        let step: (usize, usize) = match dir {
            GridDirection::Up => if row > 0 {
                (row - 1, col)
            } else {
                (row, col)
            },
            GridDirection::Down => if row + 1 < rows {
                (row + 1, col)
            } else {
                (row, col)
            },
            GridDirection::Left => if col > 0 {
                (row, col - 1)
            } else {
                (row, col)
            },
            GridDirection::Right => if col + 1 < cols {
                (row, col + 1)
            } else {
                (row, col)
            },
        };
        proof {
            assert(step.0 * cols + step.1 <= usize::MAX) by (nonlinear_arith)
                requires
                    cols >= 1,
                    row * cols + col <= usize::MAX,
                    step.0 <= row || (step.0 == row + 1 && step.1 == col && (row + 1) * cols + col
                        <= usize::MAX),
                    step.0 <= row ==> (step.1 <= col || (step.0 == row && step.1 == col + 1 && row
                        * cols + col + 1 <= usize::MAX)),
            {
                if step.0 <= row {
                    assert(step.0 * cols <= row * cols);
                }
            }
        }
        let target_idx = step.0 * cols + step.1;
        let target = if target_idx >= len {
            let last = len - 1;
            (last / cols, last % cols)
        } else {
            step
        };
        let restart = self.set_focus(target);
        let r = Navigation { tile: None, restart_focus_boost: restart };
        r
    }

    /// The focused cell's entry index fits in `usize`.
    pub open spec fn focus_index_fits(&self) -> bool {
        self.focus_index() <= usize::MAX
    }

    /// The focused entry's index, when the focused cell holds an item.
    pub open spec fn focused_entry(&self) -> Option<int> {
        if self.focus_index() < self.layout.entries@.len() {
            Some(self.focus_index())
        } else {
            None
        }
    }

    fn focused_entry_index(&self) -> (r: Option<usize>)
        requires
            self.focus_index_fits(),
        ensures
            match self.focused_entry() {
                Some(i) => r == Some(i as usize),
                None => r is None,
            },
    {
        proof {
            assert(self.focus.0 * self.layout.cols >= 0) by (nonlinear_arith)
                requires
                    self.focus.0 >= 0,
                    self.layout.cols >= 0,
            {}
        }
        let idx = self.focus.0 * self.layout.cols + self.focus.1;
        if idx < self.layout.entries.len() {
            Some(idx)
        } else {
            None
        }
    }

    /// The window of the focused cell, if it holds an item. For a column
    /// item this is the window of the column's focused tile.
    pub fn focused_id(&self) -> (r: Option<u64>)
        requires
            self.focus_index_fits(),
        ensures
            match self.focused_entry() {
                Some(i) => r == Some(self.layout.entries@[i].0.spec_window_id()),
                None => r is None,
            },
    {
        match self.focused_entry_index() {
            Some(i) => Some(self.layout.entries[i].0.window_id()),
            None => None,
        }
    }

    /// The item of the focused cell, if any.
    pub fn focused_item(&self) -> (r: Option<&GridItem>)
        requires
            self.focus_index_fits(),
        ensures
            match self.focused_entry() {
                Some(i) => r is Some && *r->0 == self.layout.entries@[i].0,
                None => r is None,
            },
    {
        match self.focused_entry_index() {
            Some(i) => Some(&self.layout.entries[i].0),
            None => None,
        }
    }

    /// Where the focused item sits, if the focused cell holds one.
    pub fn focused_info(&self) -> (r: Option<&GridEntryInfo<G>>)
        requires
            self.focus_index_fits(),
        ensures
            match self.focused_entry() {
                Some(i) => r is Some && *r->0 == self.layout.entries@[i].1,
                None => r is None,
            },
    {
        match self.focused_entry_index() {
            Some(i) => Some(&self.layout.entries[i].1),
            None => None,
        }
    }

    /// Makes the focused cell show window `id`, if it holds a column item.
    pub fn set_focused_window_id(&mut self, id: u64)
        requires
            old(self).focus_index_fits(),
        ensures
            final(self).layout.entries@ == (match old(self).focused_entry() {
                Some(i) => {
                    let e = old(self).layout.entries@[i];
                    let item = match e.0 {
                        GridItem::Column { col_idx, .. } => GridItem::Column { col_idx, window_id: id },
                        other => other,
                    };
                    old(self).layout.entries@.update(i, (item, e.1))
                },
                None => old(self).layout.entries@,
            }),
            final(self).layout.cols == old(self).layout.cols,
            final(self).layout.rows == old(self).layout.rows,
            final(self).open == old(self).open,
            final(self).focus == old(self).focus,
            final(self).saved_active_window_id == old(self).saved_active_window_id,
            final(self).previous_focus == old(self).previous_focus,
            final(self).column_tile_focus == old(self).column_tile_focus,
    {
        if let Some(i) = self.focused_entry_index() {
            self.layout.entries[i].0.set_column_window_id(id);
        }
    }

    /// Where the first item that shows window `id` sits, if any.
    pub fn find_grid_info(&self, id: u64) -> (r: Option<&GridEntryInfo<G>>)
        ensures
            match first_match(self.layout.entries@, shows_window::<G>(id)) {
                Some(i) => r is Some && *r->0 == self.layout.entries@[i].1,
                None => r is None,
            },
    {
        let n = self.layout.entries.len();
        let mut i: usize = 0;
        while i < n
            invariant
                n == self.layout.entries@.len(),
                i <= n,
                forall|j: int|
                    0 <= j < i ==> !shows_window::<G>(id)(#[trigger] self.layout.entries@[j]),
            decreases n - i,
        {
            if self.layout.entries[i].0.window_id() == id {
                proof {
                    lemma_first_match_at(self.layout.entries@, shows_window::<G>(id), i as int);
                }
                return Some(&self.layout.entries[i].1);
            }
            i += 1;
        }
        proof {
            lemma_first_match_none(self.layout.entries@, shows_window::<G>(id));
        }
        None
    }

    /// The cell (row, column) of the first item that shows window `id`.
    pub fn find_grid_index(&self, id: u64) -> (r: Option<(usize, usize)>)
        requires
            first_match(self.layout.entries@, shows_window::<G>(id)) is Some ==> self.layout.cols > 0,
        ensures
            match first_match(self.layout.entries@, shows_window::<G>(id)) {
                Some(i) => r == Some(cell_of(i, self.layout.cols)),
                None => r is None,
            },
    {
        let n = self.layout.entries.len();
        let mut i: usize = 0;
        while i < n
            invariant
                n == self.layout.entries@.len(),
                i <= n,
                first_match(self.layout.entries@, shows_window::<G>(id)) is Some ==> self.layout.cols > 0,
                forall|j: int|
                    0 <= j < i ==> !shows_window::<G>(id)(#[trigger] self.layout.entries@[j]),
            decreases n - i,
        {
            if self.layout.entries[i].0.window_id() == id {
                proof {
                    lemma_first_match_at(self.layout.entries@, shows_window::<G>(id), i as int);
                }
                return Some((i / self.layout.cols, i % self.layout.cols));
            }
            i += 1;
        }
        proof {
            lemma_first_match_none(self.layout.entries@, shows_window::<G>(id));
        }
        None
    }

    /// The cell (row, column) of the first item equal to `item`.
    pub fn find_grid_index_for_item(&self, item: &GridItem) -> (r: Option<(usize, usize)>)
        requires
            first_match(self.layout.entries@, is_item::<G>(*item)) is Some ==> self.layout.cols > 0,
        ensures
            match first_match(self.layout.entries@, is_item::<G>(*item)) {
                Some(i) => r == Some(cell_of(i, self.layout.cols)),
                None => r is None,
            },
    {
        let n = self.layout.entries.len();
        let mut i: usize = 0;
        while i < n
            invariant
                n == self.layout.entries@.len(),
                i <= n,
                first_match(self.layout.entries@, is_item::<G>(*item)) is Some ==> self.layout.cols > 0,
                forall|j: int|
                    0 <= j < i ==> !is_item::<G>(*item)(#[trigger] self.layout.entries@[j]),
            decreases n - i,
        {
            if self.layout.entries[i].0 == *item {
                proof {
                    lemma_first_match_at(self.layout.entries@, is_item::<G>(*item), i as int);
                }
                return Some((i / self.layout.cols, i % self.layout.cols));
            }
            i += 1;
        }
        proof {
            lemma_first_match_none(self.layout.entries@, is_item::<G>(*item));
        }
        None
    }

    /// Steps the animations: `progress` is the open/close progress,
    /// `rearrange_done` and `focus_boost_done` say, for the rearrange and
    /// focus-boost animations that run, whether they ended. An ended
    /// open/close animation leaves the overview fully open, or without
    /// progress when it closed; when it opened and no rearrange runs, the
    /// entries are synced to the layout. An ended rearrange is dropped and
    /// the entries synced. An ended focus boost is dropped with the previous
    /// focus and the captured boosts.
    pub fn advance_animations(
        &mut self,
        progress: Option<ProgressState>,
        rearrange_done: Option<bool>,
        focus_boost_done: Option<bool>,
    ) -> (r: AnimationsAdvance)
        ensures
            r.finish_progress == (progress == Some(ProgressState::Animating { done: true })),
            r.progress == (if r.finish_progress {
                if old(self).open {
                    Some(ProgressState::Open)
                } else {
                    None
                }
            } else {
                progress
            }),
            r.finish_rearrange == (rearrange_done == Some(true)),
            r.finish_focus_boost == (focus_boost_done == Some(true)),
            r.sync_entries == ((r.finish_progress && old(self).open && rearrange_done is None)
                || r.finish_rearrange),
            r.reset_focus_boosts == (r.sync_entries && focus_boost_done is None),
            final(self).previous_focus == (if r.finish_focus_boost {
                None
            } else {
                old(self).previous_focus
            }),
            final(self).open == old(self).open,
            final(self).layout == old(self).layout,
            final(self).focus == old(self).focus,
            final(self).saved_active_window_id == old(self).saved_active_window_id,
            final(self).column_tile_focus == old(self).column_tile_focus,
    {
        let mut r = AnimationsAdvance {
            finish_progress: false,
            progress,
            finish_rearrange: false,
            finish_focus_boost: false,
            sync_entries: false,
            reset_focus_boosts: false,
        };
        if let Some(ProgressState::Animating { done: true }) = progress {
            r.finish_progress = true;
            r.progress = if self.open {
                Some(ProgressState::Open)
            } else {
                None
            };
            if self.open && rearrange_done.is_none() {
                r.sync_entries = true;
            }
        }
        if let Some(true) = rearrange_done {
            r.finish_rearrange = true;
            r.sync_entries = true;
        }
        r.reset_focus_boosts = r.sync_entries && focus_boost_done.is_none();
        if let Some(true) = focus_boost_done {
            r.finish_focus_boost = true;
            self.previous_focus = None;
        }
        r
    }

    /// The focused tile of layout column `col_idx` (0 when none was set).
    pub fn get_column_tile_focus(&self, col_idx: usize) -> (t: usize)
        ensures
            t == tile_focus(self.column_tile_focus@, col_idx),
    {
        let n = self.column_tile_focus.len();
        let mut i: usize = 0;
        while i < n
            invariant
                n == self.column_tile_focus@.len(),
                i <= n,
                forall|j: int|
                    0 <= j < i ==> !column_is(col_idx)(#[trigger] self.column_tile_focus@[j]),
            decreases n - i,
        {
            if self.column_tile_focus[i].0 == col_idx {
                proof {
                    lemma_first_match_at(self.column_tile_focus@, column_is(col_idx), i as int);
                }
                return self.column_tile_focus[i].1;
            }
            i += 1;
        }
        proof {
            lemma_first_match_none(self.column_tile_focus@, column_is(col_idx));
        }
        0
    }

    /// Sets the focused tile of layout column `col_idx`.
    fn set_column_tile_focus_raw(&mut self, col_idx: usize, tile_idx: usize)
        ensures
            final(self).column_tile_focus@ == with_tile_focus(
                old(self).column_tile_focus@,
                col_idx,
                tile_idx,
            ),
            final(self).open == old(self).open,
            final(self).layout == old(self).layout,
            final(self).focus == old(self).focus,
            final(self).saved_active_window_id == old(self).saved_active_window_id,
            final(self).previous_focus == old(self).previous_focus,
    {
        let n = self.column_tile_focus.len();
        let mut i: usize = 0;
        while i < n
            invariant
                n == self.column_tile_focus@.len(),
                i <= n,
                self.column_tile_focus@ == old(self).column_tile_focus@,
                self.open == old(self).open,
                self.layout == old(self).layout,
                self.focus == old(self).focus,
                self.saved_active_window_id == old(self).saved_active_window_id,
                self.previous_focus == old(self).previous_focus,
                forall|j: int|
                    0 <= j < i ==> !column_is(col_idx)(#[trigger] self.column_tile_focus@[j]),
            decreases n - i,
        {
            if self.column_tile_focus[i].0 == col_idx {
                proof {
                    lemma_first_match_at(self.column_tile_focus@, column_is(col_idx), i as int);
                }
                self.column_tile_focus.set(i, (col_idx, tile_idx));
                return;
            }
            i += 1;
        }
        proof {
            lemma_first_match_none(self.column_tile_focus@, column_is(col_idx));
        }
        self.column_tile_focus.push((col_idx, tile_idx));
    }

    /// Sets the focused tile of layout column `col_idx`, and makes that
    /// column's item show window `window_id`, the window of that tile.
    pub fn set_column_tile_focus(&mut self, col_idx: usize, tile_idx: usize, window_id: u64)
        ensures
            final(self).column_tile_focus@ == with_tile_focus(
                old(self).column_tile_focus@,
                col_idx,
                tile_idx,
            ),
            final(self).layout.entries@.len() == old(self).layout.entries@.len(),
            forall|i: int|
                0 <= i < old(self).layout.entries@.len() ==> (#[trigger] final(self).layout.entries@[i]).0 == retargeted(
                    old(self).layout.entries@[i].0,
                    col_idx,
                    window_id,
                ) && final(self).layout.entries@[i].1 == old(self).layout.entries@[i].1,
            final(self).layout.cols == old(self).layout.cols,
            final(self).layout.rows == old(self).layout.rows,
            final(self).open == old(self).open,
            final(self).focus == old(self).focus,
            final(self).saved_active_window_id == old(self).saved_active_window_id,
            final(self).previous_focus == old(self).previous_focus,
    {
        self.set_column_tile_focus_raw(col_idx, tile_idx);
        let ghost mid = self.layout.entries@;
        let n = self.layout.entries.len();
        let mut i: usize = 0;
        while i < n
            invariant
                n == self.layout.entries@.len(),
                n == mid.len(),
                mid == old(self).layout.entries@,
                i <= n,
                forall|j: int|
                    0 <= j < i ==> (#[trigger] self.layout.entries@[j]).0 == retargeted(
                        mid[j].0,
                        col_idx,
                        window_id,
                    ) && self.layout.entries@[j].1 == mid[j].1,
                forall|j: int| i <= j < n ==> #[trigger] self.layout.entries@[j] == mid[j],
                self.column_tile_focus@ == with_tile_focus(
                    old(self).column_tile_focus@,
                    col_idx,
                    tile_idx,
                ),
                self.layout.cols == old(self).layout.cols,
                self.layout.rows == old(self).layout.rows,
                self.open == old(self).open,
                self.focus == old(self).focus,
                self.saved_active_window_id == old(self).saved_active_window_id,
                self.previous_focus == old(self).previous_focus,
            decreases n - i,
        {
            let is_match = match &self.layout.entries[i].0 {
                GridItem::Column { col_idx: c, .. } => *c == col_idx,
                _ => false,
            };
            if is_match {
                self.layout.entries[i].0.set_column_window_id(window_id);
            }
            i += 1;
        }
    }
}

/// Setting the focused tile of a column is what reading it back gives, and
/// leaves every other column's focused tile as it was.
pub proof fn lemma_tile_focus_set_get(v: Seq<(usize, usize)>, col: usize, tile: usize, other: usize)
    ensures
        tile_focus(with_tile_focus(v, col, tile), col) == tile,
        other != col ==> tile_focus(with_tile_focus(v, col, tile), other) == tile_focus(v, other),
{
    let w = with_tile_focus(v, col, tile);
    lemma_first_match_props(v, column_is(col));
    match first_match(v, column_is(col)) {
        Some(i) => {
            assert forall|j: int| 0 <= j < i implies !column_is(col)(#[trigger] w[j]) by {
                assert(w[j] == v[j]);
            }
            lemma_first_match_at(w, column_is(col), i);
            if other != col {
                assert forall|j: int| 0 <= j < v.len() implies column_is(other)(#[trigger] v[j])
                    == column_is(other)(w[j]) by {
                    if j != i {
                        assert(w[j] == v[j]);
                    }
                }
                lemma_first_match_agree(v, w, column_is(other));
                lemma_first_match_props(v, column_is(other));
            }
        },
        None => {
            assert forall|j: int| 0 <= j < v.len() implies !column_is(col)(#[trigger] w[j]) by {
                assert(w[j] == v[j]);
            }
            lemma_first_match_at(w, column_is(col), v.len() as int);
            if other != col {
                assert forall|j: int| 0 <= j < v.len() implies column_is(other)(#[trigger] v[j])
                    == column_is(other)(w[j]) by {
                    assert(w[j] == v[j]);
                }
                assert(!column_is(other)(w[v.len() as int]));
                lemma_first_match_agree(v, w, column_is(other));
                lemma_first_match_props(v, column_is(other));
            }
        },
    }
}

/// After a step in a non-empty grid the focused cell holds an item, and a
/// tile switch is what the column's focused tile then reads.
pub proof fn lemma_navigation_lands_on_item<G>(s: GridOverview<G>, dir: GridDirection, count: usize)
    requires
        s.layout.wf(),
        0 < s.layout.entries@.len() <= usize::MAX,
    ensures
        ({
            let (focus, _, tiles, report) = s.navigation(dir, count);
            &&& 0 <= focus.0 * s.layout.cols + focus.1 < s.layout.entries@.len()
            &&& report.tile matches Some((c, t)) ==> tile_focus(tiles, c) == t
        }),
{
    let len = s.layout.entries@.len();
    let cols = s.layout.cols as int;
    if let Some((c, t)) = s.tile_switch(dir, count) {
        lemma_tile_focus_set_get(s.column_tile_focus@, c, t, c);
        assert(s.column_at_focus() is Some);
        assert(0 <= s.focus_index() < len);
    } else {
        let target = cross_cell_target(s.focus, s.layout.rows, s.layout.cols, len as usize, dir);
        let last = ((len as usize) - 1) as usize;
        assert(last == len - 1);
        vstd::arithmetic::div_mod::lemma_fundamental_div_mod(last as int, cols);
        let li = last as int;
        assert((li / cols) * cols + li % cols == li) by (nonlinear_arith)
            requires
                li == cols * (li / cols) + li % cols,
        {}
        assert(target.0 * cols + target.1 >= 0) by (nonlinear_arith)
            requires
                target.0 >= 0,
                target.1 >= 0,
                cols >= 0,
        {}
        let (row, col) = s.focus;
        let step: (usize, usize) = match dir {
            GridDirection::Up => if row > 0 {
                ((row - 1) as usize, col)
            } else {
                (row, col)
            },
            GridDirection::Down => if row + 1 < s.layout.rows {
                ((row + 1) as usize, col)
            } else {
                (row, col)
            },
            GridDirection::Left => if col > 0 {
                (row, (col - 1) as usize)
            } else {
                (row, col)
            },
            GridDirection::Right => if col + 1 < s.layout.cols {
                (row, (col + 1) as usize)
            } else {
                (row, col)
            },
        };
        if step.0 * cols + step.1 >= len {
            assert(target == (last / s.layout.cols, last % s.layout.cols));
            assert(target.0 * cols + target.1 == last);
        } else {
            assert(target == step);
        }
    }
}

/// After a new arrangement with rows and columns, the focus lies inside
/// the grid.
pub proof fn lemma_clamped_focus_in_grid<G>(focus: (usize, usize), layout: GridLayout<G>)
    requires
        layout.rows > 0,
        layout.cols > 0,
    ensures
        clamped_focus(focus, &layout).0 < layout.rows,
        clamped_focus(focus, &layout).1 < layout.cols,
{
}


/// A step up on a column item whose focused tile is below the top switches
/// to the tile above: the step reports it, that column then reads it, and
/// the focused cell stays where it was.
pub proof fn lemma_up_moves_to_the_tile_above<G>(
    s: GridOverview<G>,
    count: usize,
    new: GridOverview<G>,
    r: Navigation,
    c: usize,
    w: u64,
)
    requires
        0 <= s.focus.0 * s.layout.cols + s.focus.1 < s.layout.entries@.len(),
        s.layout.entries@[s.focus.0 * s.layout.cols + s.focus.1].0 == (GridItem::Column {
            col_idx: c,
            window_id: w,
        }),
        tile_focus(s.column_tile_focus@, c) > 0,
        s.navigated(GridDirection::Up, count, &new, r),
    ensures
        r.tile == Some((c, (tile_focus(s.column_tile_focus@, c) - 1) as usize)),
        tile_focus(new.column_tile_focus@, c) + 1 == tile_focus(s.column_tile_focus@, c),
        new.focus == s.focus,
{
    let t = tile_focus(s.column_tile_focus@, c);
    lemma_tile_focus_set_get(s.column_tile_focus@, c, (t - 1) as usize, c);
}

/// A step down on a column item whose focused tile has a tile below it
/// (by the column's tile count) switches to that tile: the step reports
/// it, that column then reads it, and the focused cell stays where it was.
pub proof fn lemma_down_moves_to_the_tile_below<G>(
    s: GridOverview<G>,
    count: usize,
    new: GridOverview<G>,
    r: Navigation,
    c: usize,
    w: u64,
)
    requires
        0 <= s.focus.0 * s.layout.cols + s.focus.1 < s.layout.entries@.len(),
        s.layout.entries@[s.focus.0 * s.layout.cols + s.focus.1].0 == (GridItem::Column {
            col_idx: c,
            window_id: w,
        }),
        tile_focus(s.column_tile_focus@, c) + 1 < count,
        s.navigated(GridDirection::Down, count, &new, r),
    ensures
        r.tile == Some((c, (tile_focus(s.column_tile_focus@, c) + 1) as usize)),
        tile_focus(new.column_tile_focus@, c) == tile_focus(s.column_tile_focus@, c) + 1,
        new.focus == s.focus,
{
    let t = tile_focus(s.column_tile_focus@, c);
    lemma_tile_focus_set_get(s.column_tile_focus@, c, (t + 1) as usize, c);
}

/// A new arrangement with items keeps the focus row at the smaller of the
/// old row and the last row, and the focus column at the smaller of the
/// old column and the last column; an empty one puts the focus on the first
/// cell.
pub proof fn lemma_new_layout_keeps_the_focus_clamped<G>(focus: (usize, usize), layout: GridLayout<G>)
    ensures
        layout.entries@.len() == 0 ==> clamped_focus(focus, &layout) == (0usize, 0usize),
        layout.entries@.len() > 0 && layout.rows > 0 ==> ({
            let row = clamped_focus(focus, &layout).0;
            &&& row <= focus.0
            &&& row < layout.rows
            &&& (row == focus.0 || row + 1 == layout.rows)
        }),
        layout.entries@.len() > 0 && layout.cols > 0 ==> ({
            let col = clamped_focus(focus, &layout).1;
            &&& col <= focus.1
            &&& col < layout.cols
            &&& (col == focus.1 || col + 1 == layout.cols)
        }),
        layout.entries@.len() > 0 && layout.rows == 0 ==> clamped_focus(focus, &layout).0 == 0,
        layout.entries@.len() > 0 && layout.cols == 0 ==> clamped_focus(focus, &layout).1 == 0,
{
}

/// A step from a cell holding an item, when it switches no tile (the cell
/// holds no column item, or the step is sideways), moves the focus to the
/// neighbouring cell in that direction if the grid has one there holding an
/// item, stays put at the grid's edge, and a step down to a row with no item
/// below lands on the last item. Moving the focus while the overview is
/// open restarts the focus boost from the old focus.
pub proof fn lemma_step_between_cells<G>(
    s: GridOverview<G>,
    dir: GridDirection,
    count: usize,
    new: GridOverview<G>,
    r: Navigation,
)
    requires
        s.layout.wf(),
        s.focus.1 < s.layout.cols,
        0 <= s.focus.0 * s.layout.cols + s.focus.1 < s.layout.entries@.len() <= usize::MAX,
        dir == GridDirection::Left || dir == GridDirection::Right || !(s.layout.entries@[s.focus.0
            * s.layout.cols + s.focus.1].0 is Column),
        s.navigated(dir, count, &new, r),
    ensures
        ({
            let (row, col) = s.focus;
            let cols = s.layout.cols as int;
            let len = s.layout.entries@.len() as int;
            let idx = row * cols + col;
            &&& r.tile is None
            &&& new.column_tile_focus@ == s.column_tile_focus@
            &&& dir == GridDirection::Left ==> new.focus == (if col > 0 {
                (row, (col - 1) as usize)
            } else {
                (row, col)
            })
            &&& dir == GridDirection::Right ==> new.focus == (if col + 1 < cols && idx + 1 < len {
                (row, (col + 1) as usize)
            } else {
                (row, col)
            })
            &&& dir == GridDirection::Up ==> new.focus == (if row > 0 {
                ((row - 1) as usize, col)
            } else {
                (row, col)
            })
            &&& dir == GridDirection::Down ==> {
                if row + 1 < s.layout.rows && idx + cols < len {
                    new.focus == ((row + 1) as usize, col)
                } else if row + 1 < s.layout.rows {
                    new.focus.0 * cols + new.focus.1 == len - 1 && new.focus.1 < cols
                } else {
                    new.focus == (row, col)
                }
            }
            &&& r.restart_focus_boost == (if new.focus != s.focus && s.open {
                Some(s.focus)
            } else {
                None
            })
        }),
{
    let (row, col) = s.focus;
    let cols = s.layout.cols as int;
    let len = s.layout.entries@.len() as int;
    let idx = row * cols + col;
    assert(s.focus_index() == idx);
    assert(s.tile_switch(dir, count) is None);
    let target = cross_cell_target(s.focus, s.layout.rows, s.layout.cols, len as usize, dir);
    assert(new.focus == target);
    assert(r.restart_focus_boost == (if target != s.focus && s.open {
        Some(s.focus)
    } else {
        None
    }));
    assert(cols > 0);
    let last = len - 1;
    let lq = last / cols;
    let lr = last % cols;
    vstd::arithmetic::div_mod::lemma_fundamental_div_mod(last, cols);
    assert(lq * cols + lr == last) by (nonlinear_arith)
        requires
            last == cols * lq + lr,
    {}
    assert(0 <= lr < cols);
    assert(lq >= 0) by (nonlinear_arith)
        requires
            last >= 0,
            cols > 0,
            lq == last / cols,
    {}
    if idx == last {
        vstd::arithmetic::div_mod::lemma_fundamental_div_mod_converse(last, cols, row as int, col as int);
    }
    assert((row + 1) * cols + col == idx + cols) by (nonlinear_arith)
        requires
            idx == row * cols + col,
    {}
    if row > 0 {
        assert((row - 1) * cols + col == idx - cols) by (nonlinear_arith)
            requires
                idx == row * cols + col,
        {}
    }
    match dir {
        GridDirection::Left => {
            if col > 0 {
                assert(row * cols + (col - 1) == idx - 1);
            }
        },
        GridDirection::Right => {
            if col + 1 < cols {
                assert(row * cols + (col + 1) == idx + 1);
            }
        },
        _ => {},
    }
}

/// Finding a window's cell: the cell of the first entry showing window `id`
/// (its row times the column count plus its column is that entry's index,
/// and its column is inside the grid), or none when no entry shows it.
pub proof fn lemma_find_gives_the_first_cell_showing<G>(
    entries: Seq<(GridItem, GridEntryInfo<G>)>,
    id: u64,
    cols: usize,
)
    requires
        cols > 0,
        entries.len() <= usize::MAX,
    ensures
        match first_match(entries, shows_window::<G>(id)) {
            Some(i) => {
                let (row, col) = cell_of(i, cols);
                &&& 0 <= i < entries.len()
                &&& entries[i].0.spec_window_id() == id
                &&& forall|j: int| 0 <= j < i ==> (#[trigger] entries[j]).0.spec_window_id() != id
                &&& row * cols + col == i
                &&& col < cols
            },
            None => forall|j: int| 0 <= j < entries.len() ==> (#[trigger] entries[j]).0.spec_window_id() != id,
        },
{
    lemma_first_match_props(entries, shows_window::<G>(id));
    if let Some(i) = first_match(entries, shows_window::<G>(id)) {
        assert forall|j: int| 0 <= j < i implies (#[trigger] entries[j]).0.spec_window_id() != id by {
            assert(!shows_window::<G>(id)(entries[j]));
        }
        let c = cols as int;
        vstd::arithmetic::div_mod::lemma_fundamental_div_mod(i, c);
        assert((i / c) * c + i % c == i) by (nonlinear_arith)
            requires
                i == c * (i / c) + i % c,
        {}
        assert(i / c >= 0) by (nonlinear_arith)
            requires
                i >= 0,
                c > 0,
        {}
        assert(i / c <= i) by (nonlinear_arith)
            requires
                i >= 0,
                c > 0,
        {}
    } else {
        assert forall|j: int| 0 <= j < entries.len() implies (#[trigger] entries[j]).0.spec_window_id() != id by {
            assert(!shows_window::<G>(id)(entries[j]));
        }
    }
}

} // verus!
