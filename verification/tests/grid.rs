use niri_overview::grid::{
    grid_dimensions, matching_value, GridDirection, GridItem, GridLayout,
};
use niri_overview::overview::{GridOverview, Navigation, ProgressState};

fn col(col_idx: usize, window_id: u64) -> GridItem {
    GridItem::Column { col_idx, window_id }
}

fn tab(col_idx: usize, tile_idx: usize, window_id: u64) -> GridItem {
    GridItem::Tab { col_idx, tile_idx, window_id }
}

fn floating(window_id: u64) -> GridItem {
    GridItem::Floating { window_id }
}

/// An overview over `items`, arranged in `cols` columns.
fn overview(items: Vec<GridItem>, cols: usize, open: bool) -> GridOverview<u32> {
    let n = items.len();
    let (c, rows) = if n == 0 { (cols, 0) } else { (cols, (n + cols - 1) / cols) };
    let entries: Vec<(GridItem, u32)> =
        items.into_iter().enumerate().map(|(i, it)| (it, i as u32)).collect();
    let mut o = GridOverview::new();
    o.set_layout(GridLayout::from_entries(c, rows, entries));
    o.open = open;
    o
}

#[test]
fn item_equality_follows_kind() {
    assert!(col(1, 10) == col(1, 11));
    assert!(col(1, 10) != col(2, 10));
    assert!(tab(1, 0, 10) == tab(2, 3, 10));
    assert!(tab(1, 0, 10) != tab(1, 0, 11));
    assert!(floating(5) == floating(5));
    assert!(floating(5) != col(5, 5));
}

#[test]
fn animation_identity_follows_window() {
    assert!(col(1, 10).same_animation_identity(&col(2, 10)));
    assert!(!col(1, 10).same_animation_identity(&col(1, 11)));
    assert!(!floating(10).same_animation_identity(&tab(0, 0, 10)));
    assert!(col(1, 10).matches_animation_key(&col(1, 11)));
    assert!(!col(1, 10).matches_animation_key(&col(2, 11)));
}

#[test]
fn item_accessors() {
    let mut c = col(3, 7);
    assert!(c.is_column());
    assert_eq!(c.window_id(), 7);
    c.set_column_window_id(9);
    assert_eq!(c.window_id(), 9);
    let mut t = tab(3, 1, 7);
    assert!(!t.is_column());
    t.set_column_window_id(9);
    assert_eq!(t.window_id(), 7);
}

#[test]
fn grid_dimensions_examples() {
    assert_eq!(grid_dimensions(3, 2), (2, 2));
    assert_eq!(grid_dimensions(5, 6), (5, 1));
    assert_eq!(grid_dimensions(4, 10), (9, 1));
    assert_eq!(grid_dimensions(4, 3), (2, 2));
    assert_eq!(grid_dimensions(7, 3), (3, 3));
    assert_eq!(grid_dimensions(1, 1), (1, 1));
}

#[test]
fn from_entries_fills_rows() {
    let l = GridLayout::from_entries(2, 2, vec![(floating(1), 'a'), (floating(2), 'b'), (floating(3), 'c')]);
    let cells: Vec<(usize, usize, char)> =
        l.entries.iter().map(|(_, info)| (info.row, info.col, info.geometry)).collect();
    assert_eq!(cells, vec![(0, 0, 'a'), (0, 1, 'b'), (1, 0, 'c')]);
    assert_eq!(l.entries[2].0.window_id(), 3);
}

#[test]
fn matching_value_prefers_identity_then_equality() {
    let entries = vec![(col(1, 10), 1.0), (col(2, 20), 2.0)];
    // Same window, other column: identity wins.
    assert_eq!(matching_value(&entries, &col(5, 20)), Some(&2.0));
    // Same column, other window: equality.
    assert_eq!(matching_value(&entries, &col(1, 30)), Some(&1.0));
    assert_eq!(matching_value(&entries, &floating(10)), None);
}

#[test]
fn navigate_moves_between_cells() {
    let mut o = overview(vec![floating(1), floating(2), floating(3)], 2, true);
    let r = o.navigate(GridDirection::Right, |_| 1);
    assert_eq!(o.focus, (0, 1));
    assert_eq!(r, Navigation { tile: None, restart_focus_boost: Some((0, 0)) });
    assert_eq!(o.previous_focus, Some((0, 0)));
    // Right at the edge stays.
    let r = o.navigate(GridDirection::Right, |_| 1);
    assert_eq!(o.focus, (0, 1));
    assert_eq!(r.restart_focus_boost, None);
    // Down onto the empty cell lands on the last item.
    o.navigate(GridDirection::Down, |_| 1);
    assert_eq!(o.focus, (1, 0));
    o.navigate(GridDirection::Up, |_| 1);
    assert_eq!(o.focus, (0, 0));
    o.navigate(GridDirection::Left, |_| 1);
    assert_eq!(o.focus, (0, 0));
}

#[test]
fn navigate_closed_overview_starts_no_animation() {
    let mut o = overview(vec![floating(1), floating(2)], 2, false);
    let r = o.navigate(GridDirection::Right, |_| 1);
    assert_eq!(o.focus, (0, 1));
    assert_eq!(r.restart_focus_boost, None);
    assert_eq!(o.previous_focus, None);
}

#[test]
fn navigate_empty_does_nothing() {
    let mut o = overview(vec![], 1, true);
    let r = o.navigate(GridDirection::Down, |_| 1);
    assert_eq!(r, Navigation { tile: None, restart_focus_boost: None });
    assert_eq!(o.focus, (0, 0));
}

#[test]
fn navigate_switches_tiles_within_a_column() {
    let mut o = overview(vec![col(4, 40), floating(2)], 2, true);
    let r = o.navigate(GridDirection::Down, |c| if c == 4 { 3 } else { 0 });
    assert_eq!(r, Navigation { tile: Some((4, 1)), restart_focus_boost: Some((0, 0)) });
    assert_eq!(o.get_column_tile_focus(4), 1);
    assert_eq!(o.focus, (0, 0));
    o.navigate(GridDirection::Down, |_| 3);
    assert_eq!(o.get_column_tile_focus(4), 2);
    // The last tile: down moves on to the cells (here: nowhere, one row).
    let r = o.navigate(GridDirection::Down, |_| 3);
    assert_eq!(r.tile, None);
    assert_eq!(o.get_column_tile_focus(4), 2);
    let r = o.navigate(GridDirection::Up, |_| 3);
    assert_eq!(r.tile, Some((4, 1)));
    // A single-tile column never switches.
    let mut o = overview(vec![col(4, 40), floating(2), floating(3)], 2, true);
    let r = o.navigate(GridDirection::Down, |_| 1);
    assert_eq!(r.tile, None);
    assert_eq!(o.focus, (1, 0));
}

#[test]
fn tile_focus_is_per_column() {
    let mut o = overview(vec![col(0, 1), col(1, 2)], 2, true);
    assert_eq!(o.get_column_tile_focus(1), 0);
    o.set_column_tile_focus(1, 3, 22);
    o.set_column_tile_focus(0, 2, 11);
    o.set_column_tile_focus(1, 4, 23);
    assert_eq!(o.get_column_tile_focus(1), 4);
    assert_eq!(o.get_column_tile_focus(0), 2);
    assert_eq!(o.column_tile_focus, vec![(1, 4), (0, 2)]);
    assert_eq!(o.layout.entries[1].0.window_id(), 23);
    assert_eq!(o.layout.entries[0].0.window_id(), 11);
}

#[test]
fn focused_lookups() {
    let mut o = overview(vec![col(0, 1), tab(1, 0, 2), floating(3)], 2, true);
    assert_eq!(o.focused_id(), Some(1));
    o.set_focused_window_id(9);
    assert_eq!(o.focused_id(), Some(9));
    o.set_focus((1, 0));
    assert_eq!(o.focused_id(), Some(3));
    assert_eq!(o.focused_info().map(|i| i.geometry), Some(2));
    o.set_focused_window_id(5);
    assert_eq!(o.focused_id(), Some(3));
    o.set_focus((1, 1));
    assert_eq!(o.focused_id(), None);
    assert!(o.focused_item().is_none());
    assert!(o.focused_info().is_none());
}

#[test]
fn find_by_window_and_item() {
    let o = overview(vec![col(0, 1), tab(1, 0, 2), floating(3)], 2, true);
    assert_eq!(o.find_grid_index(3), Some((1, 0)));
    assert_eq!(o.find_grid_index(4), None);
    assert_eq!(o.find_grid_info(2).map(|i| (i.row, i.col)), Some((0, 1)));
    assert_eq!(o.find_grid_index_for_item(&col(0, 99)), Some((0, 0)));
    assert_eq!(o.find_grid_index_for_item(&tab(7, 7, 2)), Some((0, 1)));
    assert_eq!(o.find_grid_index_for_item(&floating(1)), None);
}

#[test]
fn set_focus_reports_the_old_focus_when_open() {
    let mut o = overview(vec![floating(1), floating(2)], 2, true);
    assert_eq!(o.set_focus((0, 0)), None);
    assert_eq!(o.set_focus((0, 1)), Some((0, 0)));
    assert_eq!(o.previous_focus, Some((0, 0)));
    o.toggle();
    assert!(!o.open);
    assert_eq!(o.set_focus((0, 0)), None);
    assert_eq!(o.focus, (0, 0));
    assert_eq!(o.previous_focus, Some((0, 0)));
}

#[test]
fn set_layout_clamps_focus() {
    let mut o = overview(vec![floating(1), floating(2), floating(3), floating(4)], 2, true);
    o.set_focus((1, 1));
    o.set_layout(GridLayout::from_entries(3, 1, vec![(floating(1), 0), (floating(2), 0)]));
    assert_eq!(o.focus, (0, 1));
    o.set_layout(GridLayout::empty());
    assert_eq!(o.focus, (0, 0));
}

#[test]
fn advance_animations_decisions() {
    let mut o = overview(vec![floating(1)], 1, true);
    o.previous_focus = Some((0, 0));
    let r = o.advance_animations(Some(ProgressState::Animating { done: true }), None, Some(false));
    assert!(r.finish_progress);
    assert_eq!(r.progress, Some(ProgressState::Open));
    assert!(r.sync_entries);
    assert!(!r.reset_focus_boosts);
    assert!(!r.finish_focus_boost);
    assert_eq!(o.previous_focus, Some((0, 0)));

    let r = o.advance_animations(Some(ProgressState::Open), Some(true), Some(true));
    assert!(!r.finish_progress);
    assert_eq!(r.progress, Some(ProgressState::Open));
    assert!(r.finish_rearrange && r.sync_entries && r.finish_focus_boost);
    assert_eq!(o.previous_focus, None);

    o.toggle();
    let r = o.advance_animations(Some(ProgressState::Animating { done: true }), None, None);
    assert_eq!(r.progress, None);
    assert!(!r.sync_entries);

    let r = o.advance_animations(Some(ProgressState::Animating { done: false }), Some(false), None);
    assert!(!r.finish_progress && !r.finish_rearrange && !r.sync_entries);
}

#[test]
fn navigate_from_outside_the_grid_lands_on_the_last_item() {
    let mut o = overview(vec![floating(1), floating(2), floating(3)], 2, true);
    o.set_focus((5, 5));
    assert_eq!(o.focused_id(), None);
    let r = o.navigate(GridDirection::Up, |_| 1);
    assert_eq!(o.focus, (1, 0));
    assert_eq!(r.restart_focus_boost, Some((5, 5)));
    assert_eq!(o.focused_id(), Some(3));
}

#[test]
fn grid_dimensions_hold_every_item() {
    for n in 1..40usize {
        for estimate in 1..12usize {
            let (cols, rows) = grid_dimensions(n, estimate);
            assert!(cols >= 1 && cols <= estimate);
            assert!(cols * rows >= n);
            assert!((rows - 1) * cols < n);
        }
    }
}

#[test]
fn navigate_empty_ignores_any_focus() {
    let mut o = overview(vec![], 1, true);
    o.focus = (usize::MAX, usize::MAX);
    let r = o.navigate(GridDirection::Down, |_| 1);
    assert_eq!(r, Navigation { tile: None, restart_focus_boost: None });
    assert_eq!(o.focus, (usize::MAX, usize::MAX));
}
