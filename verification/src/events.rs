//! The unified event stream and its dispatch: what one turn of the main
//! loop does to the state for each kind of event.

use vstd::prelude::*;
use crate::app_state::{AppModel, AppState};
use crate::input::{
    handle_key_event, handle_mouse_event, handle_resize, spec_key_effect, spec_key_state,
    spec_mouse_state, InputEffect, KeyEffectModel, MouseEvent,
};
use crate::keys::KeyEvent;
use crate::pane::Pane;

verus! {

/// What a pane's reader emits: a chunk of output already fed to the
/// emulator, or the end of the stream.
#[derive(Debug)]
pub enum PtyEvent {
    Data(Vec<u8>),
    Closed,
}

/// One event of the unified stream.
pub enum AppEvent {
    Key(KeyEvent),
    Mouse(MouseEvent),
    Resize(u16, u16),
    PtyOutput { pane_id: usize, event: PtyEvent },
    Tick,
}

/// Index of the first pane with the given id, or -1 when none has it.
pub open spec fn spec_find_pane(panes: Seq<Pane>, pane_id: int) -> int
    decreases panes.len(),
{
    if panes.len() == 0 {
        -1
    } else if panes[0].id == pane_id {
        0
    } else {
        let r = spec_find_pane(panes.drop_first(), pane_id);
        if r == -1 {
            -1
        } else {
            r + 1
        }
    }
}

/// The pane with its closed flag latched.
pub open spec fn latched_closed(p: Pane) -> Pane {
    Pane { closed: true, ..p }
}

/// The state after a PTY event: `Closed` latches the closed flag of the
/// first pane carrying the id; `Data` changes nothing (its bytes were
/// already fed to the emulator by the reader).
pub open spec fn spec_pty_state(m: AppModel, pane_id: int, closed: bool) -> AppModel {
    if closed {
        let i = spec_find_pane(m.panes, pane_id);
        if i >= 0 {
            AppModel { panes: m.panes.update(i, latched_closed(m.panes[i])), ..m }
        } else {
            m
        }
    } else {
        m
    }
}

proof fn lemma_find_pane_bounds(panes: Seq<Pane>, pane_id: int)
    ensures
        -1 <= spec_find_pane(panes, pane_id) < panes.len(),
        spec_find_pane(panes, pane_id) >= 0 ==> panes[spec_find_pane(panes, pane_id)].id
            == pane_id,
        spec_find_pane(panes, pane_id) >= 0 ==> forall|j: int|
            0 <= j < spec_find_pane(panes, pane_id) ==> (#[trigger] panes[j]).id != pane_id,
        spec_find_pane(panes, pane_id) == -1 ==> forall|j: int|
            0 <= j < panes.len() ==> (#[trigger] panes[j]).id != pane_id,
    decreases panes.len(),
{
    if panes.len() > 0 && panes[0].id != pane_id {
        let rest = panes.drop_first();
        lemma_find_pane_bounds(rest, pane_id);
        let rd = spec_find_pane(rest, pane_id);
        assert(forall|j: int| 1 <= j < panes.len() ==> panes[j] == (#[trigger] rest[j - 1]));
        if rd >= 0 {
            assert(panes[rd + 1] == rest[rd]);
            assert forall|j: int| 0 <= j < rd + 1 implies (#[trigger] panes[j]).id != pane_id by {
                if j >= 1 {
                    assert(panes[j] == rest[j - 1]);
                }
            }
        } else {
            assert forall|j: int| 0 <= j < panes.len() implies (#[trigger] panes[j]).id != pane_id
                by {
                if j >= 1 {
                    assert(panes[j] == rest[j - 1]);
                }
            }
        }
    }
}

/// Apply one PTY event to the state; see [`spec_pty_state`].
pub fn apply_pty_event(app: &mut AppState, pane_id: usize, event: &PtyEvent)
    requires
        old(app).wf(),
    ensures
        final(app).wf(),
        final(app)@ == spec_pty_state(
            old(app)@,
            pane_id as int,
            *event matches PtyEvent::Closed,
        ),
    {
    match event {
        PtyEvent::Data(_) => {},
        PtyEvent::Closed => {
            let ghost m0 = old(app)@;
            let n = app.panes.len();
            let mut k: usize = 0;
            proof {
                lemma_find_pane_bounds(m0.panes, pane_id as int);
            }
            loop
                invariant
                    k <= n,
                    m0 == old(app)@,
                    app@ == m0,
                    app.wf(),
                    *event is Closed,
                    n == m0.panes.len(),
                    -1 <= spec_find_pane(m0.panes, pane_id as int) < n,
                    spec_find_pane(m0.panes, pane_id as int) >= 0 ==> m0.panes[spec_find_pane(
                        m0.panes,
                        pane_id as int,
                    )].id == pane_id,
                    spec_find_pane(m0.panes, pane_id as int) >= 0 ==> forall|j: int|
                        0 <= j < spec_find_pane(m0.panes, pane_id as int) ==> (#[trigger] m0
                            .panes[j]).id != pane_id,
                    spec_find_pane(m0.panes, pane_id as int) == -1 ==> forall|j: int|
                        0 <= j < n ==> (#[trigger] m0.panes[j]).id != pane_id,
                    forall|j: int| 0 <= j < k ==> (#[trigger] m0.panes[j]).id != pane_id,
                ensures
                    k == n,
                    spec_find_pane(m0.panes, pane_id as int) == -1,
                decreases n - k,
            {
                if k >= n {
                    proof {
                        if spec_find_pane(m0.panes, pane_id as int) >= 0 {
                            let i = spec_find_pane(m0.panes, pane_id as int);
                            assert(m0.panes[i].id != pane_id);
                        }
                    }
                    break;
                }
                if app.panes[k].id == pane_id {
                    proof {
                        let i = spec_find_pane(m0.panes, pane_id as int);
                        assert(i == k as int);
                    }
                    let p: &mut Pane = &mut app.panes[k];
                    p.closed = true;
                    assert(app@.panes =~= spec_pty_state(m0, pane_id as int, true).panes);
                    return ;
                }
                k = k + 1;
            }
        },
    }
}

/// Dispatch one event of the unified stream: keys and mouse go to the
/// router, a resize records the new size, PTY events latch closed panes,
/// ticks only refresh. Returns what the host side must carry out.
pub fn dispatch_event(app: &mut AppState, event: AppEvent) -> (effect: InputEffect)
    requires
        old(app).wf(),
        event matches AppEvent::Key(k) && k.press && k.alt && k.code
            == crate::keys::KeyCode::Char('n') ==> old(app)@.next_pane_id < usize::MAX && old(
            app,
        )@.panes.len() + 1 < 65536,
    ensures
        final(app).wf(),
        event matches AppEvent::Key(k) ==> final(app)@ == spec_key_state(old(app)@, k),
        event matches AppEvent::Key(k) ==> (effect is Quiet <==> spec_key_effect(old(app)@, k)
            is Quiet),
        event matches AppEvent::Key(k) ==> (effect matches InputEffect::Spawn(rq)
            ==> spec_key_effect(old(app)@, k) matches KeyEffectModel::Spawn {
            pane_id,
            name,
            cols,
            rows,
        } && rq.pane_id == pane_id && rq.name@ == name && rq.cols == cols && rq.rows == rows),
        event matches AppEvent::Key(k) ==> (effect matches InputEffect::Write { pane_id, bytes }
            ==> spec_key_effect(old(app)@, k) matches KeyEffectModel::Write {
            pane_id: sp,
            bytes: sb,
        } && pane_id == sp && bytes@ == sb),
        event matches AppEvent::Mouse(mv) ==> final(app)@ == spec_mouse_state(old(app)@, mv)
            && effect is Quiet,
        event matches AppEvent::Resize(c, r) ==> final(app)@ == (AppModel {
            term_cols: c,
            term_rows: r,
            ..old(app)@
        }) && effect is Quiet,
        event matches AppEvent::PtyOutput { pane_id, event: pe } ==> final(app)@
            == spec_pty_state(old(app)@, pane_id as int, pe matches PtyEvent::Closed)
            && effect is Quiet,
        event matches AppEvent::Tick ==> final(app)@ == old(app)@ && effect is Quiet,
    {
    match event {
        AppEvent::Key(key) => handle_key_event(app, &key),
        AppEvent::Mouse(mv) => {
            handle_mouse_event(app, &mv);
            InputEffect::Quiet
        },
        AppEvent::Resize(cols, rows) => {
            handle_resize(app, cols, rows);
            InputEffect::Quiet
        },
        AppEvent::PtyOutput { pane_id, event: pe } => {
            apply_pty_event(app, pane_id, &pe);
            InputEffect::Quiet
        },
        AppEvent::Tick => InputEffect::Quiet,
    }
}

} // verus!
