use bamboo::app_state::AppState;
use bamboo::config::{Config, LayoutConfig};
use bamboo::pane::Pane;

fn mk_panes(n: usize) -> Vec<Pane> {
    let mut v = Vec::new();
    for i in 0..n {
        v.push(Pane::new(i, format!("Shell {}", i), 80, 24));
    }
    v
}

fn mk_app(n: usize) -> AppState {
    AppState::new(mk_panes(n), LayoutConfig::Scroll, "/bin/sh".to_string())
}

#[test]
fn startup_with_empty_config() {
    // An empty pane list receives the single default "Shell" pane.
    let mut cfg = Config::base("/bin/sh".to_string());
    cfg.panes.clear();
    cfg.ensure_default_pane();
    assert_eq!(cfg.panes.len(), 1);
    assert_eq!(cfg.panes[0].name, "Shell");
    assert!(cfg.panes[0].command.is_none());
    assert!(cfg.panes[0].cwd.is_none());

    let app = AppState::new(
        vec![Pane::new(0, cfg.panes[0].name.clone(), 80, 24)],
        cfg.layout,
        cfg.default_shell.clone(),
    );
    assert_eq!(app.focused, 0);
    assert_eq!(app.viewport_start, 0);
    assert_eq!(app.panes.len(), 1);
    assert_eq!(app.panes[0].name, "Shell");
    assert!(!app.should_quit);
    assert_eq!(app.next_pane_id, 1);
}

#[test]
fn base_config_is_untouched_by_normalization() {
    let mut cfg = Config::base("/bin/zsh".to_string());
    cfg.ensure_default_pane();
    assert_eq!(cfg.panes.len(), 1);
    assert_eq!(cfg.default_shell, "/bin/zsh");
    assert!(matches!(cfg.layout, LayoutConfig::Scroll));
}

#[test]
fn focus_ignores_out_of_range() {
    let mut app = mk_app(3);
    app.focus(2);
    assert_eq!(app.focused, 2);
    app.focus(3);
    assert_eq!(app.focused, 2);
}

#[test]
fn focus_next_cycles_over_all_panes() {
    let mut app = mk_app(4);
    let start = app.focused;
    for _ in 0..4 {
        app.focus_next();
    }
    assert_eq!(app.focused, start);
}

#[test]
fn focus_prev_wraps_to_last() {
    let mut app = mk_app(3);
    app.focus_prev();
    assert_eq!(app.focused, 2);
    app.focus_prev();
    assert_eq!(app.focused, 1);
}

#[test]
fn toggle_collapse_twice_restores_state() {
    let mut app = mk_app(3);
    let before = app.panes[1].collapsed;
    app.toggle_collapse_at(1);
    assert_eq!(app.panes[1].collapsed, !before);
    app.toggle_collapse_at(1);
    assert_eq!(app.panes[1].collapsed, before);
}

#[test]
fn grow_and_shrink_are_inverse_without_clamping() {
    let mut app = mk_app(1);
    assert_eq!(app.panes[0].weight, 10);
    app.grow_focused_weight(7);
    assert_eq!(app.panes[0].weight, 17);
    app.shrink_focused_weight(7);
    assert_eq!(app.panes[0].weight, 10);
}

#[test]
fn weight_clamps_to_bounds() {
    let mut app = mk_app(1);
    app.grow_focused_weight(1000);
    assert_eq!(app.panes[0].weight, 50);
    app.shrink_focused_weight(1000);
    assert_eq!(app.panes[0].weight, 1);
}

#[test]
fn weight_untouched_on_collapsed_pane() {
    let mut app = mk_app(1);
    app.toggle_collapse_focused();
    app.grow_focused_weight(5);
    assert_eq!(app.panes[0].weight, 10);
}

#[test]
fn close_last_but_one() {
    // Two panes focused on index 1: closing index 1 leaves one pane,
    // focused at 0, and any further close is refused.
    let mut app = mk_app(2);
    app.focus(1);
    assert!(app.close_pane(1));
    assert_eq!(app.panes.len(), 1);
    assert_eq!(app.focused, 0);
    assert!(!app.close_pane(0));
    assert_eq!(app.panes.len(), 1);
}

#[test]
fn close_shifts_focus_past_the_hole() {
    let mut app = mk_app(3);
    app.focus(2);
    assert!(app.close_pane(0));
    assert_eq!(app.focused, 1);
    assert_eq!(app.panes[1].id, 2);
}

#[test]
fn close_out_of_range_is_refused() {
    let mut app = mk_app(3);
    assert!(!app.close_pane(3));
    assert_eq!(app.panes.len(), 3);
}

#[test]
fn close_clamps_viewport_start() {
    let mut app = mk_app(3);
    app.viewport_start = 2;
    app.focus(2);
    assert!(app.close_pane(2));
    assert_eq!(app.viewport_start, 1);
}

#[test]
fn add_pane_focuses_it() {
    let mut app = mk_app(2);
    let id = app.take_next_pane_id();
    assert_eq!(id, 2);
    assert_eq!(app.next_pane_id, 3);
    app.add_pane(Pane::new(id, "extra".to_string(), 80, 24));
    assert_eq!(app.panes.len(), 3);
    assert_eq!(app.focused, 2);
}

#[test]
fn paging_moves_by_last_rendered_count() {
    let mut app = mk_app(6);
    app.last_pane_areas = vec![
        (0, bamboo::layout::Rect::new(0, 0, 80, 8)),
        (1, bamboo::layout::Rect::new(0, 8, 80, 8)),
        (2, bamboo::layout::Rect::new(0, 16, 80, 8)),
    ];
    app.page_viewport_down();
    assert_eq!(app.viewport_start, 3);
    app.page_viewport_down();
    assert_eq!(app.viewport_start, 5);
    app.page_viewport_up();
    assert_eq!(app.viewport_start, 2);
}

#[test]
fn scroll_offset_clamps_to_scrollback() {
    let mut p = Pane::new(0, "p".to_string(), 80, 24);
    p.scroll_up(5);
    assert_eq!(p.scroll_offset, 0);
    p.scrollback = vec![vec![]; 7];
    p.scroll_up(5);
    assert_eq!(p.scroll_offset, 5);
    p.scroll_up(5);
    assert_eq!(p.scroll_offset, 7);
    p.scroll_down(3);
    assert_eq!(p.scroll_offset, 4);
    p.scroll_down(100);
    assert_eq!(p.scroll_offset, 0);
    p.scroll_up(2);
    p.scroll_to_bottom();
    assert_eq!(p.scroll_offset, 0);
}
