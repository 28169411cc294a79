//! The application state: the ordered pane list, focus, viewport start, and
//! every mutation the input router applies to them.

use vstd::prelude::*;
use crate::config::LayoutConfig;
use crate::layout::{all_wf, Rect};
use crate::pane::{Pane, MAX_WEIGHT, MIN_WEIGHT};

verus! {

/// The mathematical model of the application state.
#[verifier::ext_equal]
pub ghost struct AppModel {
    pub panes: Seq<Pane>,
    pub focused: int,
    pub layout_mode: LayoutConfig,
    pub should_quit: bool,
    pub last_pane_areas: Seq<(usize, Rect)>,
    pub term_cols: u16,
    pub term_rows: u16,
    pub default_shell: Seq<char>,
    pub next_pane_id: int,
    pub viewport_start: int,
}

/// The application state.
pub struct AppState {
    pub panes: Vec<Pane>,
    pub focused: usize,
    pub layout_mode: LayoutConfig,
    pub should_quit: bool,
    pub last_pane_areas: Vec<(usize, Rect)>,
    pub term_cols: u16,
    pub term_rows: u16,
    pub default_shell: String,
    pub next_pane_id: usize,
    pub viewport_start: usize,
}

impl View for AppState {
    type V = AppModel;

    open spec fn view(&self) -> AppModel {
        AppModel {
            panes: self.panes@,
            focused: self.focused as int,
            layout_mode: self.layout_mode,
            should_quit: self.should_quit,
            last_pane_areas: self.last_pane_areas@,
            term_cols: self.term_cols,
            term_rows: self.term_rows,
            default_shell: self.default_shell@,
            next_pane_id: self.next_pane_id as int,
            viewport_start: self.viewport_start as int,
        }
    }
}

/// The state invariant: the focus points at a pane whenever one exists, the
/// viewport start stays below `max(1, len)`, and every pane satisfies its
/// own invariant.
pub open spec fn spec_wf(m: AppModel) -> bool {
    &&& m.panes.len() > 0 ==> 0 <= m.focused < m.panes.len()
    &&& m.panes.len() == 0 ==> m.focused == 0
    &&& 0 <= m.viewport_start < (if m.panes.len() == 0 {
        1int
    } else {
        m.panes.len() as int
    })
    &&& all_wf(m.panes)
}

/// Focus pane `idx`, ignored when out of range.
pub open spec fn spec_focus(m: AppModel, idx: int) -> AppModel {
    if 0 <= idx < m.panes.len() {
        AppModel { focused: idx, ..m }
    } else {
        m
    }
}

/// Focus the next pane, cycling; no-op when empty.
pub open spec fn spec_focus_next(m: AppModel) -> AppModel {
    if m.panes.len() > 0 {
        AppModel { focused: (m.focused + 1) % (m.panes.len() as int), ..m }
    } else {
        m
    }
}

/// Focus the previous pane, cycling; no-op when empty.
pub open spec fn spec_focus_prev(m: AppModel) -> AppModel {
    if m.panes.len() > 0 {
        AppModel {
            focused: (m.focused + m.panes.len() - 1) % (m.panes.len() as int),
            ..m
        }
    } else {
        m
    }
}

/// The pane with its collapse flag flipped.
pub open spec fn flip_collapsed(p: Pane) -> Pane {
    Pane { collapsed: !p.collapsed, ..p }
}

/// Flip the collapse flag of pane `idx`, ignored when out of range.
pub open spec fn spec_toggle_at(m: AppModel, idx: int) -> AppModel {
    if 0 <= idx < m.panes.len() {
        AppModel { panes: m.panes.update(idx, flip_collapsed(m.panes[idx])), ..m }
    } else {
        m
    }
}

/// A weight grown by `delta`, clamped at `MAX_WEIGHT`.
pub open spec fn grow_weight(w: int, delta: int) -> int {
    if w + delta <= MAX_WEIGHT {
        w + delta
    } else {
        MAX_WEIGHT as int
    }
}

/// A weight shrunk by `delta`, clamped at `MIN_WEIGHT`.
pub open spec fn shrink_weight(w: int, delta: int) -> int {
    if w - delta >= MIN_WEIGHT {
        w - delta
    } else {
        MIN_WEIGHT as int
    }
}

/// Grow the focused pane's weight; only on an expanded focused pane.
pub open spec fn spec_grow_focused(m: AppModel, delta: int) -> AppModel {
    if 0 <= m.focused < m.panes.len() && !m.panes[m.focused].collapsed {
        let p = m.panes[m.focused];
        AppModel {
            panes: m.panes.update(
                m.focused,
                Pane { weight: grow_weight(p.weight as int, delta) as u16, ..p },
            ),
            ..m
        }
    } else {
        m
    }
}

/// Shrink the focused pane's weight; only on an expanded focused pane.
pub open spec fn spec_shrink_focused(m: AppModel, delta: int) -> AppModel {
    if 0 <= m.focused < m.panes.len() && !m.panes[m.focused].collapsed {
        let p = m.panes[m.focused];
        AppModel {
            panes: m.panes.update(
                m.focused,
                Pane { weight: shrink_weight(p.weight as int, delta) as u16, ..p },
            ),
            ..m
        }
    } else {
        m
    }
}

/// Remove pane `idx`, adjust the focus past the hole, clamp focus and
/// viewport start into the shorter list. Refused when only one pane remains
/// or `idx` is out of range.
pub open spec fn spec_close(m: AppModel, idx: int) -> AppModel {
    if m.panes.len() <= 1 || idx < 0 || idx >= m.panes.len() {
        m
    } else {
        let panes2 = m.panes.remove(idx);
        let f1 = if m.focused > idx {
            m.focused - 1
        } else {
            m.focused
        };
        let f2 = if f1 >= panes2.len() {
            panes2.len() - 1
        } else {
            f1
        };
        let v2 = if m.viewport_start > 0 && m.viewport_start >= panes2.len() {
            panes2.len() - 1
        } else {
            m.viewport_start
        };
        AppModel { panes: panes2, focused: f2, viewport_start: v2, ..m }
    }
}

/// Append a pane and focus it.
pub open spec fn spec_add_pane(m: AppModel, p: Pane) -> AppModel {
    AppModel { panes: m.panes.push(p), focused: m.panes.len() as int, ..m }
}

/// Shift the viewport up by one page (the number of panes last rendered,
/// at least one), stopping at 0.
pub open spec fn spec_page_up(m: AppModel) -> AppModel {
    let page: int = if m.last_pane_areas.len() >= 1 {
        m.last_pane_areas.len() as int
    } else {
        1
    };
    AppModel {
        viewport_start: if m.viewport_start - page >= 0 {
            m.viewport_start - page
        } else {
            0
        },
        ..m
    }
}

/// Shift the viewport down by one page, stopping at the last pane.
pub open spec fn spec_page_down(m: AppModel) -> AppModel {
    let page: int = if m.last_pane_areas.len() >= 1 {
        m.last_pane_areas.len() as int
    } else {
        1
    };
    let maxv: int = if m.panes.len() == 0 {
        0
    } else {
        m.panes.len() - 1
    };
    AppModel {
        viewport_start: if m.viewport_start + page <= maxv {
            m.viewport_start + page
        } else {
            maxv
        },
        ..m
    }
}

impl AppState {
    /// The state invariant; see [`spec_wf`].
    pub open spec fn wf(self) -> bool {
        spec_wf(self@)
    }

    /// A fresh state over the given panes: pane 0 focused, viewport at the
    /// top, quit flag clear, no recorded layout, and the pane-id counter
    /// starting past the panes handed in.
    pub fn new(panes: Vec<Pane>, layout_mode: LayoutConfig, default_shell: String) -> (s:
        AppState)
        requires
            all_wf(panes@),
        ensures
            s@.panes == panes@,
            s@.focused == 0,
            s@.layout_mode == layout_mode,
            !s@.should_quit,
            s@.last_pane_areas.len() == 0,
            s@.term_cols == 0,
            s@.term_rows == 0,
            s@.default_shell == default_shell@,
            s@.next_pane_id == panes@.len(),
            s@.viewport_start == 0,
            s.wf(),
    {
        let next_pane_id = panes.len();
        AppState {
            panes,
            focused: 0,
            layout_mode,
            should_quit: false,
            last_pane_areas: Vec::new(),
            term_cols: 0,
            term_rows: 0,
            default_shell,
            next_pane_id,
            viewport_start: 0,
        }
    }

    /// Focus pane `idx` if it exists.
    pub fn focus(&mut self, idx: usize)
        requires
            old(self).wf(),
        ensures
            final(self)@ == spec_focus(old(self)@, idx as int),
            final(self).wf(),
    {
        if idx < self.panes.len() {
            self.focused = idx;
        }
    }

    /// Focus the next pane, cycling.
    pub fn focus_next(&mut self)
        requires
            old(self).wf(),
        ensures
            final(self)@ == spec_focus_next(old(self)@),
            final(self).wf(),
    {
        if self.panes.len() > 0 {
            self.focused = (self.focused + 1) % self.panes.len();
        }
    }

    /// Focus the previous pane, cycling.
    pub fn focus_prev(&mut self)
        requires
            old(self).wf(),
        ensures
            final(self)@ == spec_focus_prev(old(self)@),
            final(self).wf(),
    {
        if self.panes.len() > 0 {
            let len = self.panes.len();
            // The modular step `(focused + len - 1) % len`, computed without
            // letting the sum overflow.
            self.focused = if self.focused == 0 {
                len - 1
            } else {
                self.focused - 1
            };
            proof {
                let f = old(self)@.focused;
                let l = old(self)@.panes.len() as int;
                if f == 0 {
                    vstd::arithmetic::div_mod::lemma_small_mod((l - 1) as nat, l as nat);
                } else {
                    vstd::arithmetic::div_mod::lemma_mod_add_multiples_vanish(f - 1, l);
                    vstd::arithmetic::div_mod::lemma_small_mod((f - 1) as nat, l as nat);
                }
            }
        }
    }

    /// Flip the collapse flag of the focused pane.
    pub fn toggle_collapse_focused(&mut self)
        requires
            old(self).wf(),
        ensures
            final(self)@ == spec_toggle_at(old(self)@, old(self)@.focused),
            final(self).wf(),
    {
        let n = self.panes.len();
        if self.focused < n {
            let p: &mut Pane = &mut self.panes[self.focused];
            p.collapsed = !p.collapsed;
            assert(self@.panes =~= spec_toggle_at(old(self)@, old(self)@.focused).panes);
        }
    }

    /// Flip the collapse flag of pane `idx` if it exists.
    pub fn toggle_collapse_at(&mut self, idx: usize)
        requires
            old(self).wf(),
        ensures
            final(self)@ == spec_toggle_at(old(self)@, idx as int),
            final(self).wf(),
    {
        let n = self.panes.len();
        if idx < n {
            let p: &mut Pane = &mut self.panes[idx];
            p.collapsed = !p.collapsed;
            assert(self@.panes =~= spec_toggle_at(old(self)@, idx as int).panes);
        }
    }

    /// Grow the focused pane's weight by `delta`, clamped at `MAX_WEIGHT`;
    /// only on an expanded focused pane.
    pub fn grow_focused_weight(&mut self, delta: u16)
        requires
            old(self).wf(),
        ensures
            final(self)@ == spec_grow_focused(old(self)@, delta as int),
            final(self).wf(),
    {
        let n = self.panes.len();
        if self.focused < n {
            let p: &mut Pane = &mut self.panes[self.focused];
            if !p.collapsed {
                assert(old(self)@.panes[old(self)@.focused].wf());
                p.weight = if delta <= MAX_WEIGHT - p.weight {
                    p.weight + delta
                } else {
                    MAX_WEIGHT
                };
            }
            assert(self@.panes =~= spec_grow_focused(old(self)@, delta as int).panes);
        }
    }

    /// Shrink the focused pane's weight by `delta`, clamped at `MIN_WEIGHT`;
    /// only on an expanded focused pane.
    pub fn shrink_focused_weight(&mut self, delta: u16)
        requires
            old(self).wf(),
        ensures
            final(self)@ == spec_shrink_focused(old(self)@, delta as int),
            final(self).wf(),
    {
        let n = self.panes.len();
        if self.focused < n {
            let p: &mut Pane = &mut self.panes[self.focused];
            if !p.collapsed {
                assert(old(self)@.panes[old(self)@.focused].wf());
                p.weight = if delta < p.weight {
                    p.weight - delta
                } else {
                    MIN_WEIGHT
                };
            }
            assert(self@.panes =~= spec_shrink_focused(old(self)@, delta as int).panes);
        }
    }

    /// Hand out the next pane id and advance the counter.
    pub fn take_next_pane_id(&mut self) -> (id: usize)
        requires
            old(self).wf(),
            old(self).next_pane_id < usize::MAX,
        ensures
            id == old(self)@.next_pane_id,
            final(self)@ == (AppModel { next_pane_id: old(self)@.next_pane_id + 1, ..old(self)@ }),
            final(self).wf(),
    {
        let id = self.next_pane_id;
        self.next_pane_id = self.next_pane_id + 1;
        id
    }

    /// Append a pane and focus it.
    pub fn add_pane(&mut self, pane: Pane)
        requires
            old(self).wf(),
            pane.wf(),
        ensures
            final(self)@ == spec_add_pane(old(self)@, pane),
            final(self).wf(),
    {
        self.panes.push(pane);
        self.focused = self.panes.len() - 1;
        assert(forall|i: int|
            0 <= i < self@.panes.len() ==> (#[trigger] self@.panes[i]).wf());
    }

    /// Close pane `idx`: refused (returning false) when it is the last pane
    /// or out of range; otherwise removes it, keeps an existing pane
    /// focused, and clamps the viewport start.
    pub fn close_pane(&mut self, idx: usize) -> (closed: bool)
        requires
            old(self).wf(),
        ensures
            closed == (old(self)@.panes.len() > 1 && idx < old(self)@.panes.len()),
            final(self)@ == spec_close(old(self)@, idx as int),
            final(self).wf(),
            final(self)@.panes.len() > 0 ==> 0 <= final(self)@.focused < final(self)@.panes.len(),
    {
        if self.panes.len() <= 1 || idx >= self.panes.len() {
            return false;
        }
        self.panes.remove(idx);
        if self.focused > idx {
            self.focused = self.focused - 1;
        } else if self.focused >= self.panes.len() {
            self.focused = self.panes.len() - 1;
        }
        if self.viewport_start > 0 && self.viewport_start >= self.panes.len() {
            self.viewport_start = self.panes.len() - 1;
        }
        assert(forall|i: int|
            0 <= i < self@.panes.len() ==> (#[trigger] self@.panes[i]).wf());
        true
    }

    /// Close the focused pane, with the same refusals as [`Self::close_pane`].
    pub fn remove_focused_pane(&mut self) -> (closed: bool)
        requires
            old(self).wf(),
        ensures
            closed == (old(self)@.panes.len() > 1 && old(self)@.focused < old(self)@.panes.len()),
            final(self)@ == spec_close(old(self)@, old(self)@.focused),
            final(self).wf(),
    {
        let f = self.focused;
        self.close_pane(f)
    }

    /// Page the viewport up by the number of panes last rendered.
    pub fn page_viewport_up(&mut self)
        requires
            old(self).wf(),
        ensures
            final(self)@ == spec_page_up(old(self)@),
            final(self).wf(),
    {
        let page = if self.last_pane_areas.len() >= 1 {
            self.last_pane_areas.len()
        } else {
            1
        };
        self.viewport_start = if self.viewport_start >= page {
            self.viewport_start - page
        } else {
            0
        };
    }

    /// Page the viewport down, stopping at the last pane.
    pub fn page_viewport_down(&mut self)
        requires
            old(self).wf(),
        ensures
            final(self)@ == spec_page_down(old(self)@),
            final(self).wf(),
    {
        let page = if self.last_pane_areas.len() >= 1 {
            self.last_pane_areas.len()
        } else {
            1
        };
        let maxv = if self.panes.len() == 0 {
            0
        } else {
            self.panes.len() - 1
        };
        self.viewport_start = if page <= maxv && self.viewport_start <= maxv - page {
            self.viewport_start + page
        } else {
            maxv
        };
    }

    /// The focused pane for mutation, when one exists. The state afterwards
    /// carries whatever the caller wrote through the reference, at the
    /// focused index.
    pub fn focused_pane_mut(&mut self) -> (r: Option<&mut Pane>)
        requires
            old(self).wf(),
        ensures
            r is Some <==> old(self)@.panes.len() > 0,
            r is None ==> *final(self) == *old(self),
            r matches Some(p) ==> *p == old(self)@.panes[old(self)@.focused] && final(self)@ == (
            AppModel {
                panes: old(self)@.panes.update(old(self)@.focused, *final(p)),
                ..old(self)@
            }),
    {
        let n = self.panes.len();
        if self.focused < n {
            let f = self.focused;
            Some(&mut self.panes[f])
        } else {
            None
        }
    }

    /// The focused pane, when one exists.
    pub fn focused_pane(&self) -> (r: Option<&Pane>)
        requires
            self.wf(),
        ensures
            r is Some <==> self@.panes.len() > 0,
            r matches Some(p) ==> *p == self@.panes[self@.focused],
    {
        if self.focused < self.panes.len() {
            Some(&self.panes[self.focused])
        } else {
            None
        }
    }
}

/// Law: flipping the collapse flag at one index twice returns the state to
/// what it was.
pub proof fn lemma_toggle_collapse_idempotent(m: AppModel, idx: int)
    ensures
        spec_toggle_at(spec_toggle_at(m, idx), idx) == m,
{
    if 0 <= idx < m.panes.len() {
        let m1 = spec_toggle_at(m, idx);
        assert(m1.panes[idx] == flip_collapsed(m.panes[idx]));
        assert(flip_collapsed(flip_collapsed(m.panes[idx])) == m.panes[idx]);
        assert(spec_toggle_at(m1, idx).panes =~= m.panes);
        assert(spec_toggle_at(spec_toggle_at(m, idx), idx) =~= m);
    }
}

/// `spec_focus_next` applied `k` times.
pub open spec fn iter_focus_next(m: AppModel, k: nat) -> AppModel
    decreases k,
{
    if k == 0 {
        m
    } else {
        spec_focus_next(iter_focus_next(m, (k - 1) as nat))
    }
}

proof fn lemma_focus_iter(m: AppModel, k: nat)
    requires
        spec_wf(m),
        m.panes.len() > 0,
    ensures
        iter_focus_next(m, k) == (AppModel {
            focused: (m.focused + k) % (m.panes.len() as int),
            ..m
        }),
    decreases k,
{
    let len = m.panes.len() as int;
    if k == 0 {
        vstd::arithmetic::div_mod::lemma_small_mod(m.focused as nat, m.panes.len());
        assert(iter_focus_next(m, k) =~= (AppModel { focused: (m.focused + 0) % len, ..m }));
    } else {
        lemma_focus_iter(m, (k - 1) as nat);
        let prev = iter_focus_next(m, (k - 1) as nat);
        vstd::arithmetic::div_mod::lemma_add_mod_noop(m.focused + k - 1, 1, len);
        assert((prev.focused + 1) % len == (m.focused + k) % len) by {
            assert(prev.focused == (m.focused + k - 1) % len);
            assert(((m.focused + k - 1) % len + 1int % len) % len == (m.focused + k - 1 + 1) % len);
            if m.panes.len() == 1 {
                vstd::arithmetic::div_mod::lemma_small_mod(0nat, 1nat);
            } else {
                vstd::arithmetic::div_mod::lemma_small_mod(1nat, m.panes.len());
                assert(1int % len == 1);
            }
        }
        assert(iter_focus_next(m, k) =~= (AppModel {
            focused: (m.focused + k) % len,
            ..m
        }));
    }
}

/// Law: cycling the focus as many times as there are panes returns to the
/// same focus, and the state is unchanged.
pub proof fn lemma_focus_cycle(m: AppModel)
    requires
        spec_wf(m),
        m.panes.len() > 0,
    ensures
        iter_focus_next(m, m.panes.len()) == m,
{
    let len = m.panes.len() as int;
    lemma_focus_iter(m, m.panes.len());
    vstd::arithmetic::div_mod::lemma_add_mod_noop(m.focused, len, len);
    vstd::arithmetic::div_mod::lemma_small_mod(m.focused as nat, m.panes.len());
    vstd::arithmetic::div_mod::lemma_mod_self_0(len);
    vstd::arithmetic::div_mod::lemma_small_mod((m.focused % len) as nat, m.panes.len());
    assert((m.focused + len) % len == m.focused);
    assert(iter_focus_next(m, m.panes.len()) =~= m);
}

/// Law: growing then shrinking the focused weight by the same delta (or the
/// other way round) returns the state unchanged, whenever the first step
/// does not clamp.
pub proof fn lemma_grow_shrink_inverse(m: AppModel, delta: int)
    requires
        spec_wf(m),
        delta >= 0,
    ensures
        (0 <= m.focused < m.panes.len() && !m.panes[m.focused].collapsed
            ==> m.panes[m.focused].weight + delta <= MAX_WEIGHT) ==> spec_shrink_focused(
            spec_grow_focused(m, delta),
            delta,
        ) == m,
        (0 <= m.focused < m.panes.len() && !m.panes[m.focused].collapsed
            ==> m.panes[m.focused].weight - delta >= MIN_WEIGHT) ==> spec_grow_focused(
            spec_shrink_focused(m, delta),
            delta,
        ) == m,
{
    if 0 <= m.focused < m.panes.len() && !m.panes[m.focused].collapsed {
        let p = m.panes[m.focused];
        assert(p.wf());
        if p.weight + delta <= MAX_WEIGHT {
            let m1 = spec_grow_focused(m, delta);
            assert(m1.panes[m.focused] == (Pane { weight: (p.weight + delta) as u16, ..p }));
            assert(spec_shrink_focused(m1, delta).panes =~= m.panes);
            assert(spec_shrink_focused(spec_grow_focused(m, delta), delta) =~= m);
        }
        if p.weight - delta >= MIN_WEIGHT {
            let m1 = spec_shrink_focused(m, delta);
            assert(m1.panes[m.focused] == (Pane { weight: (p.weight - delta) as u16, ..p }));
            assert(spec_grow_focused(m1, delta).panes =~= m.panes);
            assert(spec_grow_focused(spec_shrink_focused(m, delta), delta) =~= m);
        }
    }
}

} // verus!
