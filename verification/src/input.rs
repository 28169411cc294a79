//! The input router: keys and mouse events become state mutations, a spawn
//! request, or bytes for the focused PTY.

use vstd::prelude::*;
use vstd::string::{StrSliceExecFns, StringExecFns};
use crate::app_state::{
    spec_close, spec_focus, spec_focus_next, spec_focus_prev, spec_grow_focused, spec_page_down,
    spec_page_up, spec_shrink_focused, spec_toggle_at, AppModel, AppState,
};
use crate::keys::{key_event_to_bytes, spec_key_bytes, KeyCode, KeyEvent};
use crate::layout::Rect;
use crate::pane::{spec_scroll_down_pane, spec_scroll_up_pane, Pane};
use crate::text::{spec_udec, usize_to_string};

verus! {

/// Weight step of the grow/shrink keys.
pub const WEIGHT_STEP: u16 = 2;

/// Lines per scroll-wheel notch.
pub const WHEEL_LINES: usize = 3;

/// What the host side must carry out after a key was routed.
pub enum InputEffect {
    /// Nothing, or the state mutation already happened.
    Quiet,
    /// Spawn a new pane session with these parameters, then add the pane.
    Spawn(SpawnRequest),
    /// Write these bytes to the PTY of pane `pane_id`.
    Write { pane_id: usize, bytes: Vec<u8> },
}

/// Parameters of a requested pane spawn.
pub struct SpawnRequest {
    pub pane_id: usize,
    pub name: String,
    pub cols: u16,
    pub rows: u16,
}

/// Spec-level mirror of [`InputEffect`].
pub ghost enum KeyEffectModel {
    Quiet,
    Spawn { pane_id: int, name: Seq<char>, cols: int, rows: int },
    Write { pane_id: int, bytes: Seq<u8> },
}

/// Columns a freshly spawned pane gets: the terminal width minus the
/// borders, with a floor of 10.
pub open spec fn spec_spawn_cols(m: AppModel) -> int {
    if m.term_cols as int - 2 >= 10 {
        m.term_cols as int - 2
    } else {
        10
    }
}

/// Rows a freshly spawned pane gets: the terminal height split over the
/// panes it will then hold, minus the borders, with a floor of 5.
pub open spec fn spec_spawn_rows(m: AppModel) -> int {
    let share = (m.term_rows as int) / (m.panes.len() as int + 1);
    if share - 2 >= 5 {
        share - 2
    } else {
        5
    }
}

/// The state after a key event: ignored unless a press; `Ctrl+Q` sets the
/// quit flag; `Ctrl+Up`/`Ctrl+Down` grow and shrink the focused weight;
/// `Alt` with `j`/`l`, `k`/`h`, `n`, `w`, `c` cycles focus, spawns, closes
/// and collapses; everything else leaves the state alone (its bytes go to
/// the PTY instead).
pub open spec fn spec_key_state(m: AppModel, key: KeyEvent) -> AppModel {
    if !key.press {
        m
    } else if key.ctrl && key.code == KeyCode::Char('q') {
        AppModel { should_quit: true, ..m }
    } else if key.ctrl && key.code == KeyCode::Up {
        spec_grow_focused(m, WEIGHT_STEP as int)
    } else if key.ctrl && key.code == KeyCode::Down {
        spec_shrink_focused(m, WEIGHT_STEP as int)
    } else if key.alt && (key.code == KeyCode::Char('j') || key.code == KeyCode::Char('l')) {
        spec_focus_next(m)
    } else if key.alt && (key.code == KeyCode::Char('k') || key.code == KeyCode::Char('h')) {
        spec_focus_prev(m)
    } else if key.alt && key.code == KeyCode::Char('n') {
        AppModel { next_pane_id: m.next_pane_id + 1, ..m }
    } else if key.alt && key.code == KeyCode::Char('w') {
        spec_close(m, m.focused)
    } else if key.alt && key.code == KeyCode::Char('c') {
        spec_toggle_at(m, m.focused)
    } else {
        m
    }
}

/// Whether the key reaches the byte-forwarding fallthrough of the router.
pub open spec fn spec_key_falls_through(key: KeyEvent) -> bool {
    &&& key.press
    &&& !(key.ctrl && key.code == KeyCode::Char('q'))
    &&& !(key.ctrl && key.code == KeyCode::Up)
    &&& !(key.ctrl && key.code == KeyCode::Down)
    &&& !(key.alt && (key.code == KeyCode::Char('j') || key.code == KeyCode::Char('l')))
    &&& !(key.alt && (key.code == KeyCode::Char('k') || key.code == KeyCode::Char('h')))
    &&& !(key.alt && key.code == KeyCode::Char('n'))
    &&& !(key.alt && key.code == KeyCode::Char('w'))
    &&& !(key.alt && key.code == KeyCode::Char('c'))
}

/// What the host side is asked to do for a key event.
pub open spec fn spec_key_effect(m: AppModel, key: KeyEvent) -> KeyEffectModel {
    if key.press && key.alt && !(key.ctrl && key.code == KeyCode::Char('q')) && !(key.ctrl
        && key.code == KeyCode::Up) && !(key.ctrl && key.code == KeyCode::Down) && key.code
        == KeyCode::Char('n') {
        KeyEffectModel::Spawn {
            pane_id: m.next_pane_id,
            name: "Shell "@ + spec_udec(m.next_pane_id as nat),
            cols: spec_spawn_cols(m),
            rows: spec_spawn_rows(m),
        }
    } else if spec_key_falls_through(key) {
        match spec_key_bytes(key.code, key.ctrl) {
            Some(bytes) => if m.panes.len() > 0 {
                KeyEffectModel::Write { pane_id: m.panes[m.focused].id as int, bytes }
            } else {
                KeyEffectModel::Quiet
            },
            None => KeyEffectModel::Quiet,
        }
    } else {
        KeyEffectModel::Quiet
    }
}

/// Route one key event: apply its state mutation and return what the host
/// side must carry out.
pub fn handle_key_event(app: &mut AppState, key: &KeyEvent) -> (effect: InputEffect)
    requires
        old(app).wf(),
        key.press && key.alt && key.code == KeyCode::Char('n') ==> old(app)@.next_pane_id
            < usize::MAX && old(app)@.panes.len() + 1 < 65536,
    ensures
        final(app).wf(),
        final(app)@ == spec_key_state(old(app)@, *key),
        effect is Quiet <==> spec_key_effect(old(app)@, *key) is Quiet,
        effect matches InputEffect::Spawn(rq) ==> spec_key_effect(old(app)@, *key) matches
            KeyEffectModel::Spawn { pane_id, name, cols, rows } && rq.pane_id == pane_id
            && rq.name@ == name && rq.cols == cols && rq.rows == rows,
        effect matches InputEffect::Write { pane_id, bytes } ==> spec_key_effect(old(app)@, *key)
            matches KeyEffectModel::Write { pane_id: sp, bytes: sb } && pane_id == sp && bytes@
            == sb,
    {
    if !key.press {
        return InputEffect::Quiet;
    }
    if key.ctrl {
        match key.code {
            KeyCode::Char(c) => {
                if c == 'q' {
                    app.should_quit = true;
                    return InputEffect::Quiet;
                }
            },
            KeyCode::Up => {
                app.grow_focused_weight(WEIGHT_STEP);
                return InputEffect::Quiet;
            },
            KeyCode::Down => {
                app.shrink_focused_weight(WEIGHT_STEP);
                return InputEffect::Quiet;
            },
            _ => {},
        }
    }
    if key.alt {
        match key.code {
            KeyCode::Char(c) => {
                if c == 'j' || c == 'l' {
                    app.focus_next();
                    return InputEffect::Quiet;
                }
                if c == 'k' || c == 'h' {
                    app.focus_prev();
                    return InputEffect::Quiet;
                }
                if c == 'n' {
                    let rq = new_pane_request(app);
                    return InputEffect::Spawn(rq);
                }
                if c == 'w' {
                    let _closed = app.remove_focused_pane();
                    return InputEffect::Quiet;
                }
                if c == 'c' {
                    app.toggle_collapse_focused();
                    return InputEffect::Quiet;
                }
            },
            _ => {},
        }
    }
    match key_event_to_bytes(key) {
        Some(bytes) => {
            if app.panes.len() > 0 {
                let pane_id = app.panes[app.focused].id;
                InputEffect::Write { pane_id, bytes }
            } else {
                InputEffect::Quiet
            }
        },
        None => InputEffect::Quiet,
    }
}

/// Take the next pane id and compute the spawn parameters for a new pane:
/// name "Shell N", width over the full terminal, height an even share of
/// the terminal over the grown pane count.
pub fn new_pane_request(app: &mut AppState) -> (rq: SpawnRequest)
    requires
        old(app).wf(),
        old(app)@.next_pane_id < usize::MAX,
        old(app)@.panes.len() + 1 < 65536,
    ensures
        final(app).wf(),
        final(app)@ == (AppModel { next_pane_id: old(app)@.next_pane_id + 1, ..old(app)@ }),
        rq.pane_id == old(app)@.next_pane_id,
        rq.name@ == "Shell "@ + spec_udec(old(app)@.next_pane_id as nat),
        rq.cols as int == spec_spawn_cols(old(app)@),
        rq.rows as int == spec_spawn_rows(old(app)@),
    {
    let pane_id = app.take_next_pane_id();
    let mut name = String::new();
    name.append("Shell ");
    let num = usize_to_string(pane_id);
    name.append(num.as_str());
    assert(name@ =~= "Shell "@ + spec_udec(pane_id as nat));

    let cols: u16 = if app.term_cols >= 12 {
        app.term_cols - 2
    } else {
        10
    };
    let n_panes: u16 = (app.panes.len() + 1) as u16;
    let share: u16 = app.term_rows / n_panes;
    let rows: u16 = if share >= 7 {
        share - 2
    } else {
        5
    };
    SpawnRequest { pane_id, name, cols, rows }
}

/// The kind of a mouse event the router reads.
#[derive(Clone, Copy, PartialEq, Eq, Structural, Debug)]
pub enum MouseKind {
    LeftDown,
    ScrollUp,
    ScrollDown,
    Other,
}

/// A mouse event: its kind and the cell it happened on.
#[derive(Clone, Copy, PartialEq, Eq, Structural, Debug)]
pub struct MouseEvent {
    pub kind: MouseKind,
    pub column: u16,
    pub row: u16,
}

/// Whether panes are hidden below the last rendered layout.
pub open spec fn spec_has_below(m: AppModel) -> bool {
    m.last_pane_areas.len() > 0 && m.last_pane_areas.last().0 + 1 < m.panes.len()
}

/// Hit-test a click against the recorded layout rectangles, first match
/// wins: the close button or the collapse toggle on a title row, the title
/// row itself, or the pane body; anywhere else leaves the state alone.
pub open spec fn spec_hit_areas(m: AppModel, areas: Seq<(usize, Rect)>, col: int, row: int)
    -> AppModel
    decreases areas.len(),
{
    if areas.len() == 0 {
        m
    } else {
        let idx = areas[0].0 as int;
        let a = areas[0].1;
        if row == a.y && a.x <= col < a.x + a.width {
            if a.width >= 8 && a.x + a.width - 4 <= col <= a.x + a.width - 2 {
                spec_close(m, idx)
            } else if a.x + 1 <= col <= a.x + 3 {
                spec_toggle_at(spec_focus(m, idx), idx)
            } else {
                spec_focus(m, idx)
            }
        } else if a.x <= col < a.x + a.width && a.y < row < a.y + a.height {
            spec_focus(m, idx)
        } else {
            spec_hit_areas(m, areas.drop_first(), col, row)
        }
    }
}

/// The state after a mouse event: a click on the top indicator row pages
/// up, on the bottom indicator row pages down, elsewhere it is hit-tested
/// against the recorded layout; the wheel scrolls the focused pane.
pub open spec fn spec_mouse_state(m: AppModel, ev: MouseEvent) -> AppModel {
    match ev.kind {
        MouseKind::LeftDown => {
            if m.viewport_start > 0 && ev.row == 0 {
                spec_page_up(m)
            } else if spec_has_below(m) && ev.row as int == (if m.term_rows >= 1 {
                m.term_rows as int - 1
            } else {
                0
            }) {
                spec_page_down(m)
            } else {
                spec_hit_areas(m, m.last_pane_areas, ev.column as int, ev.row as int)
            }
        },
        MouseKind::ScrollUp => {
            if 0 <= m.focused < m.panes.len() {
                AppModel {
                    panes: m.panes.update(
                        m.focused,
                        spec_scroll_up_pane(m.panes[m.focused], WHEEL_LINES as int),
                    ),
                    ..m
                }
            } else {
                m
            }
        },
        MouseKind::ScrollDown => {
            if 0 <= m.focused < m.panes.len() {
                AppModel {
                    panes: m.panes.update(
                        m.focused,
                        spec_scroll_down_pane(m.panes[m.focused], WHEEL_LINES as int),
                    ),
                    ..m
                }
            } else {
                m
            }
        },
        MouseKind::Other => m,
    }
}

/// Route one mouse event; the whole effect is a state mutation.
pub fn handle_mouse_event(app: &mut AppState, ev: &MouseEvent)
    requires
        old(app).wf(),
    ensures
        final(app).wf(),
        final(app)@ == spec_mouse_state(old(app)@, *ev),
    {
    match ev.kind {
        MouseKind::LeftDown => {
            let col = ev.column;
            let row = ev.row;
            if app.viewport_start > 0 && row == 0 {
                app.page_viewport_up();
                return ;
            }
            let n = app.last_pane_areas.len();
            let has_below = if n > 0 {
                let last = app.last_pane_areas[n - 1];
                app.panes.len() > 0 && last.0 < app.panes.len() - 1
            } else {
                false
            };
            let bottom: u16 = if app.term_rows >= 1 {
                app.term_rows - 1
            } else {
                0
            };
            if has_below && row == bottom {
                app.page_viewport_down();
                return ;
            }
            let ghost m0 = old(app)@;
            let ghost areas = old(app)@.last_pane_areas;
            let mut k: usize = 0;
            assert(areas.skip(0) =~= areas);
            assert(has_below == spec_has_below(m0));
            assert(spec_mouse_state(m0, *ev) == spec_hit_areas(m0, areas, col as int, row as int));
            loop
                invariant
                    k <= n,
                    m0 == old(app)@,
                    app@ == m0,
                    app.wf(),
                    n == areas.len(),
                    app@.last_pane_areas == areas,
                    spec_hit_areas(m0, areas.skip(k as int), col as int, row as int)
                        == spec_hit_areas(m0, areas, col as int, row as int),
                    spec_mouse_state(m0, *ev) == spec_hit_areas(m0, areas, col as int, row as int),
                ensures
                    k == n,
                    spec_hit_areas(m0, areas, col as int, row as int) == m0,
                decreases n - k,
            {
                if k >= n {
                    assert(areas.skip(k as int) =~= Seq::<(usize, Rect)>::empty());
                    break;
                }
                let idx = app.last_pane_areas[k].0;
                let a = app.last_pane_areas[k].1;
                assert(areas.skip(k as int)[0] == areas[k as int]);
                assert(areas.skip(k as int).drop_first() =~= areas.skip(k as int + 1));
                if row == a.y && col >= a.x && col - a.x < a.width {
                    let rel = col - a.x;
                    if a.width >= 8 && rel >= a.width - 4 && rel <= a.width - 2 {
                        let _closed = app.close_pane(idx);
                        return ;
                    } else if rel >= 1 && rel <= 3 {
                        app.focus(idx);
                        app.toggle_collapse_at(idx);
                        return ;
                    } else {
                        app.focus(idx);
                        return ;
                    }
                }
                if col >= a.x && col - a.x < a.width && row > a.y && row - a.y < a.height {
                    app.focus(idx);
                    return ;
                }
                k = k + 1;
            }
        },
        MouseKind::ScrollUp => {
            let n = app.panes.len();
            if app.focused < n {
                let f = app.focused;
                let p: &mut Pane = &mut app.panes[f];
                assert(old(app)@.panes[f as int].wf());
                p.scroll_up(WHEEL_LINES);
                assert(app@.panes =~= spec_mouse_state(old(app)@, *ev).panes);
            }
        },
        MouseKind::ScrollDown => {
            let n = app.panes.len();
            if app.focused < n {
                let f = app.focused;
                let p: &mut Pane = &mut app.panes[f];
                assert(old(app)@.panes[f as int].wf());
                p.scroll_down(WHEEL_LINES);
                assert(app@.panes =~= spec_mouse_state(old(app)@, *ev).panes);
            }
        },
        MouseKind::Other => {},
    }
}

/// Record a new terminal size; pane resizes follow at the next render.
pub fn handle_resize(app: &mut AppState, cols: u16, rows: u16)
    requires
        old(app).wf(),
    ensures
        final(app).wf(),
        final(app)@ == (AppModel { term_cols: cols, term_rows: rows, ..old(app)@ }),
    {
    app.term_cols = cols;
    app.term_rows = rows;
}

} // verus!
