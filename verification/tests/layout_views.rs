use bamboo::layout::{compute_visible_end, compute_visible_layout, ensure_focused_visible, Rect};
use bamboo::pane::Pane;
use bamboo::render::{view_row_sources, visible_row_range, RowSource};

fn mk_panes(n: usize) -> Vec<Pane> {
    let mut v = Vec::new();
    for i in 0..n {
        v.push(Pane::new(i, format!("Shell {}", i), 80, 24));
    }
    v
}

#[test]
fn three_panes_focus_third_collapse_second() {
    // Heights fill the screen exactly: the collapsed pane is 3 rows, the
    // two expanded panes share the slack by weight with the last absorbing
    // the remainder.
    let mut panes = mk_panes(3);
    panes[1].collapsed = true;
    let area = Rect::new(0, 0, 80, 24);
    let (layout, end) = compute_visible_layout(&panes, 0, area);
    assert_eq!(end, 3);
    assert_eq!(layout.len(), 3);
    // Minimums 5 + 3 + 5 = 13, slack 11 over weights 10 + 10:
    // pane 0 gets 5 + 11*10/20 = 10, pane 1 stays 3, pane 2 absorbs 11.
    assert_eq!(layout[0].0, 0);
    assert_eq!(layout[0].1, Rect::new(0, 0, 80, 10));
    assert_eq!(layout[1].0, 1);
    assert_eq!(layout[1].1, Rect::new(0, 10, 80, 3));
    assert_eq!(layout[2].0, 2);
    assert_eq!(layout[2].1, Rect::new(0, 13, 80, 11));
    let total: u16 = layout.iter().map(|(_, r)| r.height).sum();
    assert_eq!(total, area.height);
}

#[test]
fn weighted_distribution_follows_weights() {
    let mut panes = mk_panes(2);
    panes[0].weight = 30;
    panes[1].weight = 10;
    let area = Rect::new(0, 0, 80, 30);
    let (layout, _) = compute_visible_layout(&panes, 0, area);
    // Minimums 5 + 5 = 10, slack 20 over weights 30 + 10: pane 0 gets
    // 5 + 20*30/40 = 20, pane 1 absorbs the remaining 5 + 5.
    assert_eq!(layout[0].1.height, 20);
    assert_eq!(layout[1].1.height, 10);
}

#[test]
fn indicators_reserve_rows() {
    let panes = mk_panes(10);
    let area = Rect::new(0, 0, 80, 13);
    // Starting at pane 2 there are panes above and below: one row is
    // reserved at each end, so 11 rows remain for two minimum panes.
    let (layout, end) = compute_visible_layout(&panes, 2, area);
    assert_eq!(layout[0].1.y, 1);
    assert!(end < 10);
    let total: u16 = layout.iter().map(|(_, r)| r.height).sum();
    assert_eq!(total as u32 + 2, area.height as u32);
}

#[test]
fn single_pane_admitted_even_when_too_small() {
    let panes = mk_panes(1);
    let (layout, end) = compute_visible_layout(&panes, 0, Rect::new(0, 0, 80, 2));
    assert_eq!(end, 1);
    assert_eq!(layout.len(), 1);
    assert_eq!(layout[0].1.height, 5);
}

#[test]
fn viewport_paging_follows_focus() {
    // Six panes at minimum height on a screen that fits three: focusing
    // pane 5 advances the viewport until it is visible; focusing pane 0
    // snaps the viewport back to the top.
    let panes = mk_panes(6);
    let h: u16 = 17;
    assert_eq!(compute_visible_end(&panes, 0, h), 3);
    let mut vs: usize = 0;
    ensure_focused_visible(&panes, 5, &mut vs, h);
    assert_eq!(vs, 3);
    let end = compute_visible_end(&panes, vs, h);
    assert!(vs <= 5 && 5 < end);
    ensure_focused_visible(&panes, 0, &mut vs, h);
    assert_eq!(vs, 0);
}

#[test]
fn scroll_window_ends_at_offset_from_bottom() {
    // Scrollback of 50 lines, offset 20, 10-row inner area: the window
    // covers virtual rows [scrollback + rows - 30, scrollback + rows - 20).
    let (start, end) = visible_row_range(50, 10, 20, 10);
    assert_eq!(start, 30);
    assert_eq!(end, 40);

    let sources = view_row_sources(50, 10, 20, 10);
    assert_eq!(sources.len(), 10);
    for (k, s) in sources.iter().enumerate() {
        assert_eq!(*s, RowSource::FromScrollback(30 + k));
    }
}

#[test]
fn scroll_window_mixes_scrollback_and_live_rows() {
    // Offset 5 on a 10-row window over 8 scrollback rows and 10 live rows:
    // virtual rows 3..13, crossing from scrollback into the live grid.
    let sources = view_row_sources(8, 10, 5, 10);
    assert_eq!(sources.len(), 10);
    assert_eq!(sources[0], RowSource::FromScrollback(3));
    assert_eq!(sources[4], RowSource::FromScrollback(7));
    assert_eq!(sources[5], RowSource::FromLive(0));
    assert_eq!(sources[9], RowSource::FromLive(4));
}

#[test]
fn live_view_window_is_clamped_to_top() {
    let (start, end) = visible_row_range(0, 10, 0, 24);
    assert_eq!(start, 0);
    assert_eq!(end, 10);
}
