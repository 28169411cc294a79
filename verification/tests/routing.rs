use bamboo::app_state::AppState;
use bamboo::config::{Config, LayoutConfig};
use bamboo::events::{apply_pty_event, dispatch_event, AppEvent, PtyEvent};
use bamboo::input::{handle_key_event, handle_mouse_event, InputEffect, MouseEvent, MouseKind};
use bamboo::keys::{key_event_to_bytes, KeyCode, KeyEvent};
use bamboo::layout::Rect;
use bamboo::pane::{CellColor, GridCell, Pane};
use bamboo::render::{convert_color, last_content_row, TermColor};
use bamboo::text::{pane_status_text, split_command, truncate_chars, usize_to_string};

fn mk_app(n: usize) -> AppState {
    let mut v = Vec::new();
    for i in 0..n {
        v.push(Pane::new(i, format!("Shell {}", i), 80, 24));
    }
    let mut app = AppState::new(v, LayoutConfig::Scroll, "/bin/sh".to_string());
    app.term_cols = 80;
    app.term_rows = 24;
    app
}

fn press(code: KeyCode, ctrl: bool, alt: bool) -> KeyEvent {
    KeyEvent { code, ctrl, alt, press: true }
}

#[test]
fn key_encoding_table() {
    // Ctrl+a, the up arrow, and a two-byte UTF-8 character.
    let b = key_event_to_bytes(&press(KeyCode::Char('a'), true, false)).unwrap();
    assert_eq!(b, vec![0x01]);
    let b = key_event_to_bytes(&press(KeyCode::Up, false, false)).unwrap();
    assert_eq!(b, vec![0x1b, 0x5b, 0x41]);
    let b = key_event_to_bytes(&press(KeyCode::Char('\u{e9}'), false, false)).unwrap();
    assert_eq!(b, vec![0xc3, 0xa9]);
}

#[test]
fn key_encoding_specials() {
    assert_eq!(key_event_to_bytes(&press(KeyCode::Enter, false, false)).unwrap(), vec![0x0d]);
    assert_eq!(key_event_to_bytes(&press(KeyCode::Backspace, false, false)).unwrap(), vec![0x7f]);
    assert_eq!(key_event_to_bytes(&press(KeyCode::Tab, false, false)).unwrap(), vec![0x09]);
    assert_eq!(key_event_to_bytes(&press(KeyCode::Esc, false, false)).unwrap(), vec![0x1b]);
    assert_eq!(
        key_event_to_bytes(&press(KeyCode::PageUp, false, false)).unwrap(),
        vec![0x1b, 0x5b, 0x35, 0x7e]
    );
    assert_eq!(
        key_event_to_bytes(&press(KeyCode::F(1), false, false)).unwrap(),
        vec![0x1b, 0x4f, 0x50]
    );
    assert_eq!(
        key_event_to_bytes(&press(KeyCode::F(12), false, false)).unwrap(),
        vec![0x1b, 0x5b, 0x32, 0x34, 0x7e]
    );
    assert!(key_event_to_bytes(&press(KeyCode::F(13), false, false)).is_none());
    assert!(key_event_to_bytes(&press(KeyCode::Char('1'), true, false)).is_none());
    assert!(key_event_to_bytes(&press(KeyCode::Other, false, false)).is_none());
}

#[test]
fn ctrl_q_sets_quit() {
    let mut app = mk_app(2);
    let eff = handle_key_event(&mut app, &press(KeyCode::Char('q'), true, false));
    assert!(matches!(eff, InputEffect::Quiet));
    assert!(app.should_quit);
}

#[test]
fn alt_bindings_drive_focus_and_collapse() {
    let mut app = mk_app(3);
    handle_key_event(&mut app, &press(KeyCode::Char('j'), false, true));
    assert_eq!(app.focused, 1);
    handle_key_event(&mut app, &press(KeyCode::Char('k'), false, true));
    assert_eq!(app.focused, 0);
    handle_key_event(&mut app, &press(KeyCode::Char('c'), false, true));
    assert!(app.panes[0].collapsed);
    handle_key_event(&mut app, &press(KeyCode::Char('w'), false, true));
    assert_eq!(app.panes.len(), 2);
}

#[test]
fn ctrl_arrows_change_weight() {
    let mut app = mk_app(1);
    handle_key_event(&mut app, &press(KeyCode::Up, true, false));
    assert_eq!(app.panes[0].weight, 12);
    handle_key_event(&mut app, &press(KeyCode::Down, true, false));
    assert_eq!(app.panes[0].weight, 10);
}

#[test]
fn alt_n_requests_a_spawn() {
    let mut app = mk_app(2);
    let eff = handle_key_event(&mut app, &press(KeyCode::Char('n'), false, true));
    match eff {
        InputEffect::Spawn(rq) => {
            assert_eq!(rq.pane_id, 2);
            assert_eq!(rq.name, "Shell 2");
            assert_eq!(rq.cols, 78);
            // 24 rows over three panes: 8 - 2 = 6.
            assert_eq!(rq.rows, 6);
        }
        _ => panic!("expected a spawn request"),
    }
    assert_eq!(app.next_pane_id, 3);
    assert_eq!(app.panes.len(), 2);
}

#[test]
fn plain_keys_are_forwarded_to_the_focused_pane() {
    let mut app = mk_app(2);
    app.focus(1);
    let eff = handle_key_event(&mut app, &press(KeyCode::Char('x'), false, false));
    match eff {
        InputEffect::Write { pane_id, bytes } => {
            assert_eq!(pane_id, 1);
            assert_eq!(bytes, vec![b'x']);
        }
        _ => panic!("expected a write effect"),
    }
}

#[test]
fn release_events_are_ignored() {
    let mut app = mk_app(1);
    let eff = handle_key_event(
        &mut app,
        &KeyEvent { code: KeyCode::Char('q'), ctrl: true, alt: false, press: false },
    );
    assert!(matches!(eff, InputEffect::Quiet));
    assert!(!app.should_quit);
}

fn left_click(col: u16, row: u16) -> MouseEvent {
    MouseEvent { kind: MouseKind::LeftDown, column: col, row }
}

#[test]
fn click_focuses_toggles_and_closes() {
    let mut app = mk_app(3);
    app.last_pane_areas = vec![
        (0, Rect::new(0, 0, 80, 8)),
        (1, Rect::new(0, 8, 80, 8)),
        (2, Rect::new(0, 16, 80, 8)),
    ];
    // Body click focuses.
    handle_mouse_event(&mut app, &left_click(10, 20));
    assert_eq!(app.focused, 2);
    // Title-row click on the collapse toggle (columns 1..=3) focuses and
    // flips.
    handle_mouse_event(&mut app, &left_click(2, 8));
    assert_eq!(app.focused, 1);
    assert!(app.panes[1].collapsed);
    // Title-row click on the close button (columns width-4..=width-2).
    handle_mouse_event(&mut app, &left_click(77, 0));
    assert_eq!(app.panes.len(), 2);
    assert_eq!(app.panes[0].id, 1);
}

#[test]
fn wheel_scrolls_the_focused_pane() {
    let mut app = mk_app(1);
    app.panes[0].scrollback = vec![vec![]; 10];
    handle_mouse_event(&mut app, &MouseEvent { kind: MouseKind::ScrollUp, column: 0, row: 0 });
    assert_eq!(app.panes[0].scroll_offset, 3);
    handle_mouse_event(&mut app, &MouseEvent { kind: MouseKind::ScrollDown, column: 0, row: 0 });
    assert_eq!(app.panes[0].scroll_offset, 0);
}

#[test]
fn bottom_indicator_click_pages_down() {
    let mut app = mk_app(6);
    app.last_pane_areas = vec![(0, Rect::new(0, 0, 80, 12)), (1, Rect::new(0, 12, 80, 11))];
    handle_mouse_event(&mut app, &left_click(5, 23));
    assert_eq!(app.viewport_start, 2);
    app.last_pane_areas = vec![(2, Rect::new(0, 1, 80, 11)), (3, Rect::new(0, 12, 80, 11))];
    handle_mouse_event(&mut app, &left_click(5, 0));
    assert_eq!(app.viewport_start, 0);
}

#[test]
fn pty_closed_latches_the_pane() {
    let mut app = mk_app(3);
    apply_pty_event(&mut app, 1, &PtyEvent::Closed);
    assert!(!app.panes[0].closed);
    assert!(app.panes[1].closed);
    assert!(!app.panes[2].closed);
    // Data and unknown ids change nothing.
    apply_pty_event(&mut app, 0, &PtyEvent::Data(vec![1, 2, 3]));
    assert!(!app.panes[0].closed);
    apply_pty_event(&mut app, 99, &PtyEvent::Closed);
    assert_eq!(app.panes.len(), 3);
}

#[test]
fn dispatch_routes_all_event_kinds() {
    let mut app = mk_app(2);
    dispatch_event(&mut app, AppEvent::Resize(100, 40));
    assert_eq!((app.term_cols, app.term_rows), (100, 40));
    dispatch_event(&mut app, AppEvent::Tick);
    dispatch_event(&mut app, AppEvent::PtyOutput { pane_id: 0, event: PtyEvent::Closed });
    assert!(app.panes[0].closed);
    dispatch_event(&mut app, AppEvent::Key(press(KeyCode::Char('j'), false, true)));
    assert_eq!(app.focused, 1);
    dispatch_event(
        &mut app,
        AppEvent::Mouse(MouseEvent { kind: MouseKind::ScrollUp, column: 0, row: 0 }),
    );
    assert_eq!(app.panes[1].scroll_offset, 0);
}

#[test]
fn color_conversion_table() {
    assert_eq!(convert_color(CellColor::DefaultColor), TermColor::Reset);
    assert_eq!(convert_color(CellColor::Palette(0)), TermColor::Black);
    assert_eq!(convert_color(CellColor::Palette(6)), TermColor::Cyan);
    assert_eq!(convert_color(CellColor::Palette(9)), TermColor::LightRed);
    assert_eq!(convert_color(CellColor::Palette(15)), TermColor::Gray);
    assert_eq!(convert_color(CellColor::Palette(42)), TermColor::Indexed(42));
    assert_eq!(convert_color(CellColor::TrueColor(1, 2, 3)), TermColor::Rgb(1, 2, 3));
}

fn cell(text: &str) -> GridCell {
    GridCell {
        text: text.to_string(),
        fg: CellColor::DefaultColor,
        bg: CellColor::DefaultColor,
        bold: false,
        italic: false,
        underline: false,
    }
}

#[test]
fn last_content_row_finds_content_or_cursor() {
    let grid = vec![
        vec![cell("a")],
        vec![cell("")],
        vec![cell("b")],
        vec![cell("")],
    ];
    assert_eq!(last_content_row(&grid, 0), 2);
    let blank = vec![vec![cell("")], vec![cell("")], vec![cell("")]];
    assert_eq!(last_content_row(&blank, 1), 1);
    assert_eq!(last_content_row(&blank, 7), 2);
}

#[test]
fn snapshot_appends_and_evicts_fifo() {
    let mut p = Pane::new(0, "p".to_string(), 80, 24);
    let grid = vec![vec![cell("x"), cell("")], vec![cell("y"), cell("z")]];
    p.snapshot_scrollback(&grid);
    assert_eq!(p.scrollback.len(), 2);
    assert_eq!(p.scrollback[0][0].ch, 'x');
    assert_eq!(p.scrollback[0][1].ch, ' ');
    assert_eq!(p.scrollback[1][1].ch, 'z');

    // Push past the bound: the oldest rows leave first.
    let big: Vec<Vec<GridCell>> = (0..6000).map(|_| vec![cell("n")]).collect();
    p.snapshot_scrollback(&big);
    assert_eq!(p.scrollback.len(), 6002);
    p.snapshot_scrollback(&big);
    assert_eq!(p.scrollback.len(), 10000);
    assert_eq!(p.scrollback[0][0].ch, 'n');
}

#[test]
fn pane_resize_guards() {
    let mut p = Pane::new(0, "p".to_string(), 80, 24);
    assert!(!p.resize(0, 10));
    assert!(!p.resize(10, 0));
    assert!(!p.resize(80, 24));
    assert!(p.resize(100, 30));
    assert_eq!((p.cols, p.rows), (100, 30));
}

#[test]
fn status_text_shows_scroll_and_weight() {
    let mut p = Pane::new(0, "work".to_string(), 80, 24);
    assert_eq!(pane_status_text(&p), "work (w:10)");
    p.scrollback = vec![vec![]; 30];
    p.scroll_up(12);
    assert_eq!(pane_status_text(&p), "work [scroll: -12]");
    p.collapsed = true;
    assert_eq!(pane_status_text(&p), "work");
}

#[test]
fn decimal_rendering_and_truncation() {
    assert_eq!(usize_to_string(0), "0");
    assert_eq!(usize_to_string(9), "9");
    assert_eq!(usize_to_string(10), "10");
    assert_eq!(usize_to_string(54321), "54321");
    assert_eq!(truncate_chars("hello", 3), "hel");
    assert_eq!(truncate_chars("hello", 9), "hello");
    assert_eq!(truncate_chars("h\u{e9}llo", 2), "h\u{e9}");
}

#[test]
fn command_splitting() {
    let (exe, args) = split_command(&Some("sh -c ls".to_string()), "/bin/sh");
    assert_eq!(exe, "sh");
    assert_eq!(args, vec!["-c".to_string(), "ls".to_string()]);
    let (exe, args) = split_command(&None, "/bin/zsh");
    assert_eq!(exe, "/bin/zsh");
    assert!(args.is_empty());
    let (exe, args) = split_command(&Some("   ".to_string()), "/bin/sh");
    assert_eq!(exe, "/bin/sh");
    assert!(args.is_empty());
    let (exe, args) = split_command(&Some("  echo \t hi  ".to_string()), "/bin/sh");
    assert_eq!(exe, "echo");
    assert_eq!(args, vec!["hi".to_string()]);
}

#[test]
fn focused_pane_accessors() {
    let mut app = mk_app(2);
    app.focus(1);
    assert_eq!(app.focused_pane().unwrap().id, 1);
    app.focused_pane_mut().unwrap().scrollback = vec![vec![]; 4];
    app.focused_pane_mut().unwrap().scroll_up(2);
    assert_eq!(app.panes[1].scroll_offset, 2);
}

#[test]
fn resolve_cwd_expands_home() {
    let home = Some("/home/u".to_string());
    assert_eq!(
        Config::resolve_cwd(&Some("~/x/y".to_string()), &home),
        Some("/home/u/x/y".to_string())
    );
    assert_eq!(Config::resolve_cwd(&Some("~".to_string()), &home), Some("/home/u/~".to_string()));
    assert_eq!(Config::resolve_cwd(&Some("/abs".to_string()), &home), Some("/abs".to_string()));
    assert_eq!(Config::resolve_cwd(&Some("~/x".to_string()), &None), Some("~/x".to_string()));
    assert_eq!(Config::resolve_cwd(&None, &home), None);
}
