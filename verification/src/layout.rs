//! The vertical viewport layout engine: which panes are visible from a given
//! viewport start, and the height of each, under indicator reservations and
//! weighted distribution of leftover rows.

use vstd::prelude::*;
use crate::pane::Pane;

verus! {

/// Height of a collapsed pane, borders included.
pub const COLLAPSED_HEIGHT: u16 = 3;

/// Minimum height of an expanded pane, borders included.
pub const MIN_EXPANDED_HEIGHT: u16 = 5;

/// Rows reserved for a "more above" or "more below" indicator.
pub const INDICATOR_HEIGHT: u16 = 1;

/// A rectangle on the host terminal, in cells.
#[derive(Clone, Copy, PartialEq, Eq, Structural, Debug)]
pub struct Rect {
    pub x: u16,
    pub y: u16,
    pub width: u16,
    pub height: u16,
}

impl Rect {
    pub fn new(x: u16, y: u16, width: u16, height: u16) -> (r: Rect)
        ensures
            r == (Rect { x, y, width, height }),
    {
        Rect { x, y, width, height }
    }
}

/// The minimum height a pane demands in the fit pass.
pub open spec fn spec_min_height(p: Pane) -> int {
    if p.collapsed {
        COLLAPSED_HEIGHT as int
    } else {
        MIN_EXPANDED_HEIGHT as int
    }
}

/// Exec twin of [`spec_min_height`].
pub fn min_height(p: &Pane) -> (h: u16)
    ensures
        h == spec_min_height(*p),
{
    if p.collapsed {
        COLLAPSED_HEIGHT
    } else {
        MIN_EXPANDED_HEIGHT
    }
}

/// The fit pass, walking panes from index `i` with `remaining` rows of
/// budget. A pane is admitted if its minimum height plus the row needed to
/// reserve a "below" indicator for the panes after it still fits; the first
/// pane (`any == false`) is always admitted. Returns the index of the first
/// pane not admitted, and the budget left after the admitted minimums.
pub open spec fn fit_pass(panes: Seq<Pane>, i: int, remaining: int, any: bool) -> (int, int)
    decreases panes.len() - i,
    when 0 <= i <= panes.len()
{
    if i >= panes.len() {
        (i, remaining)
    } else {
        let m = spec_min_height(panes[i]);
        let reserved: int = if i + 1 < panes.len() {
            INDICATOR_HEIGHT as int
        } else {
            0
        };
        if remaining < m + reserved && any {
            (i, remaining)
        } else {
            fit_pass(
                panes,
                i + 1,
                if remaining >= m {
                    remaining - m
                } else {
                    0
                },
                true,
            )
        }
    }
}

/// The budget the fit pass starts from: the full height, minus the row
/// reserved for the "above" indicator when the viewport starts past pane 0.
pub open spec fn start_budget(start: int, total_height: int) -> int {
    if start > 0 {
        if total_height >= INDICATOR_HEIGHT as int {
            total_height - INDICATOR_HEIGHT
        } else {
            0
        }
    } else {
        total_height
    }
}

/// Index of the first pane below the visible window, for a viewport starting
/// at `start` on a screen of height `total_height`.
pub open spec fn spec_visible_end(panes: Seq<Pane>, start: int, total_height: int) -> int {
    fit_pass(panes, start, start_budget(start, total_height), false).0
}

/// Budget left over after the fit pass, before the "below" indicator is
/// subtracted.
pub open spec fn spec_fit_remaining(panes: Seq<Pane>, start: int, total_height: int) -> int {
    fit_pass(panes, start, start_budget(start, total_height), false).1
}

/// The fit pass stays within the pane list, admits at least one pane when it
/// may admit any, and never returns a negative budget.
pub proof fn lemma_fit_pass_bounds(panes: Seq<Pane>, i: int, remaining: int, any: bool)
    requires
        0 <= i <= panes.len(),
        remaining >= 0,
    ensures
        i <= fit_pass(panes, i, remaining, any).0 <= panes.len(),
        !any && i < panes.len() ==> fit_pass(panes, i, remaining, any).0 >= i + 1,
        fit_pass(panes, i, remaining, any).1 >= 0,
        fit_pass(panes, i, remaining, any).1 <= remaining,
    decreases panes.len() - i,
{
    if i < panes.len() {
        let m = spec_min_height(panes[i]);
        let reserved: int = if i + 1 < panes.len() {
            1
        } else {
            0
        };
        if !(remaining < m + reserved && any) {
            let rem2 = if remaining >= m {
                remaining - m
            } else {
                0
            };
            lemma_fit_pass_bounds(panes, i + 1, rem2, true);
        }
    }
}

/// Every admitted pane after the first costs at least `COLLAPSED_HEIGHT`
/// rows, so the number of admitted panes is bounded by the budget.
pub proof fn lemma_fit_pass_count(panes: Seq<Pane>, i: int, remaining: int, any: bool)
    requires
        0 <= i <= panes.len(),
        remaining >= 0,
    ensures
        fit_pass(panes, i, remaining, any).0 - i <= remaining / 3 + if any {
            0int
        } else {
            1int
        },
    decreases panes.len() - i,
{
    if i < panes.len() {
        let m = spec_min_height(panes[i]);
        let reserved: int = if i + 1 < panes.len() {
            1
        } else {
            0
        };
        if !(remaining < m + reserved && any) {
            let rem2 = if remaining >= m {
                remaining - m
            } else {
                0
            };
            lemma_fit_pass_count(panes, i + 1, rem2, true);
        }
    }
}

/// Exec fit pass over the whole suffix starting at `start`, with `any` false
/// at the first pane. Returns the first non-admitted index and the budget
/// left.
fn fit_scan(panes: &Vec<Pane>, start: usize, budget: u16) -> (r: (usize, u16))
    requires
        start <= panes@.len(),
    ensures
        (r.0 as int, r.1 as int) == fit_pass(panes@, start as int, budget as int, false),
        start <= r.0 <= panes@.len(),
        r.1 <= budget,
{
    let ghost g_panes = panes@;
    let mut i: usize = start;
    let mut remaining: u16 = budget;
    loop
        invariant
            start <= i <= g_panes.len(),
            panes@ == g_panes,
            remaining <= budget,
            fit_pass(g_panes, start as int, budget as int, false) == fit_pass(
                g_panes,
                i as int,
                remaining as int,
                i > start,
            ),
        ensures
            (i as int, remaining as int) == fit_pass(g_panes, start as int, budget as int, false),
        decreases g_panes.len() - i,
    {
        if i >= panes.len() {
            break;
        }
        let m = min_height(&panes[i]);
        let reserved: u16 = if i + 1 < panes.len() {
            INDICATOR_HEIGHT
        } else {
            0
        };
        if remaining < m + reserved && i > start {
            break;
        }
        remaining = if remaining >= m {
            remaining - m
        } else {
            0
        };
        i = i + 1;
    }
    proof {
        lemma_fit_pass_bounds(panes@, i as int, remaining as int, i > start);
    }
    (i, remaining)
}

/// Index of the first pane below the visible window: the fit pass from
/// `start`, after reserving the "above" indicator row when `start > 0`.
pub fn compute_visible_end(panes: &Vec<Pane>, start: usize, total_height: u16) -> (end: usize)
    requires
        start <= panes@.len(),
    ensures
        end == spec_visible_end(panes@, start as int, total_height as int),
        start <= end <= panes@.len(),
        start < panes@.len() ==> end >= start + 1,
{
    let budget: u16 = if start > 0 {
        if total_height >= INDICATOR_HEIGHT {
            total_height - INDICATOR_HEIGHT
        } else {
            0
        }
    } else {
        total_height
    };
    let r = fit_scan(panes, start, budget);
    proof {
        lemma_fit_pass_bounds(panes@, start as int, budget as int, false);
    }
    r.0
}

/// Pre-layout adjustment: move `viewport_start` so the focused pane falls in
/// the visible window. Snaps back when the focus is above the viewport,
/// otherwise advances one pane at a time until the fit pass reaches the
/// focus.
pub fn ensure_focused_visible(
    panes: &Vec<Pane>,
    focused: usize,
    viewport_start: &mut usize,
    total_height: u16,
)
    requires
        panes@.len() > 0 ==> focused < panes@.len(),
        panes@.len() > 0 ==> *old(viewport_start) < panes@.len(),
        panes@.len() == 0 ==> *old(viewport_start) == 0,
    ensures
        panes@.len() == 0 ==> *final(viewport_start) == *old(viewport_start),
        panes@.len() > 0 ==> *final(viewport_start) <= focused,
        panes@.len() > 0 ==> focused < spec_visible_end(
            panes@,
            *final(viewport_start) as int,
            total_height as int,
        ),
        panes@.len() > 0 ==> *final(viewport_start) < panes@.len(),
        panes@.len() > 0 && focused < *old(viewport_start) ==> *final(viewport_start) == focused,
        panes@.len() > 0 && focused >= *old(viewport_start) ==> *old(viewport_start)
            <= *final(viewport_start) && (forall|w: int|
            *old(viewport_start) <= w < *final(viewport_start) ==> focused >= spec_visible_end(
                panes@,
                w,
                total_height as int,
            )),
    {
    if panes.len() == 0 {
        return ;
    }
    if focused < *viewport_start {
        *viewport_start = focused;
        proof {
            lemma_fit_pass_bounds(
                panes@,
                focused as int,
                start_budget(focused as int, total_height as int),
                false,
            );
        }
        return ;
    }
    let ghost vs0 = *viewport_start;
    loop
        invariant
            vs0 == *old(viewport_start),
            vs0 <= *viewport_start,
            *viewport_start <= focused < panes@.len(),
            forall|w: int|
                vs0 <= w < *viewport_start ==> focused >= spec_visible_end(
                    panes@,
                    w,
                    total_height as int,
                ),
        ensures
            vs0 <= *viewport_start <= focused < panes@.len(),
            focused < spec_visible_end(panes@, *viewport_start as int, total_height as int),
            forall|w: int|
                vs0 <= w < *viewport_start ==> focused >= spec_visible_end(
                    panes@,
                    w,
                    total_height as int,
                ),
        decreases panes@.len() - *viewport_start,
    {
        let end = compute_visible_end(panes, *viewport_start, total_height);
        if focused < end {
            break;
        }
        // `end >= viewport_start + 1`, so `focused >= end` keeps
        // `viewport_start < focused` after the advance.
        *viewport_start = *viewport_start + 1;
        if *viewport_start >= panes.len() {
            // The walk never reaches past the focus: the window starting at
            // the focus always admits it.
            proof {
                lemma_fit_pass_bounds(
                    panes@,
                    focused as int,
                    start_budget(focused as int, total_height as int),
                    false,
                );
                assert(false);
            }
            *viewport_start = panes.len() - 1;
            break;
        }
    }
}

/// All panes in the sequence satisfy the pane invariant.
pub open spec fn all_wf(panes: Seq<Pane>) -> bool {
    forall|i: int| 0 <= i < panes.len() ==> (#[trigger] panes[i]).wf()
}

/// Sum of the minimum heights of panes `[a, b)`.
pub open spec fn sum_min(panes: Seq<Pane>, a: int, b: int) -> int
    decreases b - a,
{
    if a >= b {
        0
    } else {
        spec_min_height(panes[a]) + sum_min(panes, a + 1, b)
    }
}

/// Sum of the weights of the expanded panes in `[a, b)`.
pub open spec fn sum_weight(panes: Seq<Pane>, a: int, b: int) -> int
    decreases b - a,
{
    if a >= b {
        0
    } else {
        (if panes[a].collapsed {
            0int
        } else {
            panes[a].weight as int
        }) + sum_weight(panes, a + 1, b)
    }
}

/// Sum of the floor-divided weight shares of the expanded panes in `[a, b)`,
/// out of slack `r` and total weight `w`.
pub open spec fn sum_bonus(panes: Seq<Pane>, a: int, b: int, r: int, w: int) -> int
    decreases b - a,
{
    if a >= b {
        0
    } else {
        (if panes[a].collapsed {
            0int
        } else {
            r * (panes[a].weight as int) / w
        }) + sum_bonus(panes, a + 1, b, r, w)
    }
}

/// Some pane in `[a, b)` is expanded.
pub open spec fn has_expanded(panes: Seq<Pane>, a: int, b: int) -> bool {
    exists|i: int| a <= i < b && !(#[trigger] panes[i]).collapsed
}

/// Index of the last expanded pane in `[a, b)`; `a - 1` when there is none.
pub open spec fn last_expanded(panes: Seq<Pane>, a: int, b: int) -> int
    decreases b - a,
{
    if a >= b {
        a - 1
    } else if !panes[b - 1].collapsed {
        b - 1
    } else {
        last_expanded(panes, a, b - 1)
    }
}

/// Rows left to distribute across expanded panes: the fit pass leftover,
/// minus the "below" indicator row, floored at zero.
pub open spec fn spec_slack(panes: Seq<Pane>, start: int, total_height: int) -> int {
    let end = spec_visible_end(panes, start, total_height);
    let rem = spec_fit_remaining(panes, start, total_height);
    let below: int = if end < panes.len() {
        INDICATOR_HEIGHT as int
    } else {
        0
    };
    if rem >= below {
        rem - below
    } else {
        0
    }
}

/// Whether slack is distributed: some visible pane is expanded and slack is
/// positive.
pub open spec fn spec_distributes(panes: Seq<Pane>, start: int, total_height: int) -> bool {
    let end = spec_visible_end(panes, start, total_height);
    &&& has_expanded(panes, start, end)
    &&& spec_slack(panes, start, total_height) > 0
    &&& sum_weight(panes, start, end) > 0
}

/// Extra rows pane `i` receives when slack `r` is distributed over total
/// weight `w`: its proportional floor share, except that the last expanded
/// pane absorbs whatever the earlier shares left of the slack.
pub open spec fn spec_bonus_at(panes: Seq<Pane>, start: int, end: int, r: int, w: int, i: int) -> int {
    if panes[i].collapsed {
        0
    } else if i == last_expanded(panes, start, end) {
        r - sum_bonus(panes, start, i, r, w)
    } else {
        r * (panes[i].weight as int) / w
    }
}

/// The height the layout gives pane `i` of the window starting at `start` on
/// a screen of height `total_height`.
pub open spec fn spec_height_at(panes: Seq<Pane>, start: int, total_height: int, i: int) -> int {
    let end = spec_visible_end(panes, start, total_height);
    let r = spec_slack(panes, start, total_height);
    let w = sum_weight(panes, start, end);
    spec_min_height(panes[i]) + if spec_distributes(panes, start, total_height) {
        spec_bonus_at(panes, start, end, r, w, i)
    } else {
        0
    }
}

/// Sum of the layout heights of panes `[a, b)`.
pub open spec fn sum_heights(panes: Seq<Pane>, start: int, total_height: int, a: int, b: int) -> int
    decreases b - a,
{
    if a >= b {
        0
    } else {
        spec_height_at(panes, start, total_height, a) + sum_heights(
            panes,
            start,
            total_height,
            a + 1,
            b,
        )
    }
}

proof fn lemma_sum_min_split(panes: Seq<Pane>, a: int, m: int, b: int)
    requires
        a <= m <= b,
    ensures
        sum_min(panes, a, b) == sum_min(panes, a, m) + sum_min(panes, m, b),
    decreases m - a,
{
    if a < m {
        lemma_sum_min_split(panes, a + 1, m, b);
    }
}

proof fn lemma_sum_weight_split(panes: Seq<Pane>, a: int, m: int, b: int)
    requires
        a <= m <= b,
    ensures
        sum_weight(panes, a, b) == sum_weight(panes, a, m) + sum_weight(panes, m, b),
    decreases m - a,
{
    if a < m {
        lemma_sum_weight_split(panes, a + 1, m, b);
    }
}

proof fn lemma_sum_bonus_split(panes: Seq<Pane>, a: int, m: int, b: int, r: int, w: int)
    requires
        a <= m <= b,
    ensures
        sum_bonus(panes, a, b, r, w) == sum_bonus(panes, a, m, r, w) + sum_bonus(
            panes,
            m,
            b,
            r,
            w,
        ),
    decreases m - a,
{
    if a < m {
        lemma_sum_bonus_split(panes, a + 1, m, b, r, w);
    }
}

proof fn lemma_sum_heights_split(panes: Seq<Pane>, start: int, h: int, a: int, m: int, b: int)
    requires
        a <= m <= b,
    ensures
        sum_heights(panes, start, h, a, b) == sum_heights(panes, start, h, a, m) + sum_heights(
            panes,
            start,
            h,
            m,
            b,
        ),
    decreases m - a,
{
    if a < m {
        lemma_sum_heights_split(panes, start, h, a + 1, m, b);
    }
}

/// Weight sums are nonnegative, bounded by 50 per pane, and positive exactly
/// when some pane in the range is expanded.
pub proof fn lemma_sum_weight_bounds(panes: Seq<Pane>, a: int, b: int)
    requires
        0 <= a <= b <= panes.len(),
        all_wf(panes),
    ensures
        0 <= sum_weight(panes, a, b) <= 50 * (b - a),
        has_expanded(panes, a, b) ==> sum_weight(panes, a, b) >= 1,
        !has_expanded(panes, a, b) ==> sum_weight(panes, a, b) == 0,
    decreases b - a,
{
    if a < b {
        lemma_sum_weight_bounds(panes, a + 1, b);
        assert(panes[a].wf());
        if has_expanded(panes, a, b) && panes[a].collapsed {
            let i = choose|i: int| a <= i < b && !(#[trigger] panes[i]).collapsed;
            assert(a + 1 <= i < b && !panes[i].collapsed);
        }
    }
}

/// Position and contents of the last expanded pane in a range.
pub proof fn lemma_last_expanded(panes: Seq<Pane>, a: int, b: int)
    requires
        a <= b,
    ensures
        has_expanded(panes, a, b) ==> a <= last_expanded(panes, a, b) < b,
        has_expanded(panes, a, b) ==> !panes[last_expanded(panes, a, b)].collapsed,
        forall|j: int|
            last_expanded(panes, a, b) < j < b ==> (#[trigger] panes[j]).collapsed,
        !has_expanded(panes, a, b) ==> last_expanded(panes, a, b) == a - 1,
    decreases b - a,
{
    if a >= b {
        assert(!has_expanded(panes, a, b));
    } else if !panes[b - 1].collapsed {
        assert(a <= b - 1 < b && !panes[b - 1].collapsed);
        assert(has_expanded(panes, a, b));
    } else {
        lemma_last_expanded(panes, a, b - 1);
        if has_expanded(panes, a, b) {
            let i = choose|i: int| a <= i < b && !(#[trigger] panes[i]).collapsed;
            assert(a <= i < b - 1 && !panes[i].collapsed);
            assert(has_expanded(panes, a, b - 1));
        }
        if has_expanded(panes, a, b - 1) {
            assert(has_expanded(panes, a, b));
        }
    }
}

/// A single proportional share is between 0 and the whole slack.
pub proof fn lemma_bonus_term_bound(r: int, wi: int, w: int)
    requires
        0 <= r,
        0 <= wi <= w,
        0 < w,
    ensures
        0 <= r * wi / w <= r,
{
    assert(r * wi >= 0) by (nonlinear_arith)
        requires
            r >= 0 && wi >= 0,
    ;
    vstd::arithmetic::div_mod::lemma_div_pos_is_pos(r * wi, w);
    vstd::arithmetic::mul::lemma_mul_inequality(wi, w, r);
    assert(r * wi <= r * w) by (nonlinear_arith)
        requires
            wi * r <= w * r,
    ;
    vstd::arithmetic::div_mod::lemma_div_is_ordered(r * wi, r * w, w);
    vstd::arithmetic::div_mod::lemma_div_multiples_vanish(r, w);
    assert(r * w == w * r) by (nonlinear_arith);
}

/// The floor shares never oversubscribe the slack: their sum times the total
/// weight stays below the slack times the summed weight.
pub proof fn lemma_sum_bonus_props(panes: Seq<Pane>, a: int, b: int, r: int, w: int)
    requires
        0 <= a <= b <= panes.len(),
        all_wf(panes),
        r >= 0,
        w > 0,
    ensures
        0 <= sum_bonus(panes, a, b, r, w),
        sum_bonus(panes, a, b, r, w) * w <= r * sum_weight(panes, a, b),
    decreases b - a,
{
    lemma_sum_weight_bounds(panes, a, b);
    if a >= b {
        assert(0 * w == 0) by (nonlinear_arith);
        assert(r * 0 == 0) by (nonlinear_arith);
    } else {
        lemma_sum_bonus_props(panes, a + 1, b, r, w);
        lemma_sum_weight_bounds(panes, a + 1, b);
        let sb2 = sum_bonus(panes, a + 1, b, r, w);
        let sw2 = sum_weight(panes, a + 1, b);
        if panes[a].collapsed {
            assert(sum_bonus(panes, a, b, r, w) == sb2);
            assert(sum_weight(panes, a, b) == sw2);
        } else {
            assert(panes[a].wf());
            let wi = panes[a].weight as int;
            let q = r * wi / w;
            assert(r * wi >= 0) by (nonlinear_arith)
                requires
                    r >= 0 && wi >= 0,
            ;
            vstd::arithmetic::div_mod::lemma_fundamental_div_mod(r * wi, w);
            vstd::arithmetic::div_mod::lemma_mod_bound(r * wi, w);
            vstd::arithmetic::div_mod::lemma_div_pos_is_pos(r * wi, w);
            assert(q * w <= r * wi) by (nonlinear_arith)
                requires
                    r * wi == w * q + (r * wi) % w && (r * wi) % w >= 0,
            ;
            assert((q + sb2) * w <= r * (wi + sw2)) by (nonlinear_arith)
                requires
                    q * w <= r * wi && sb2 * w <= r * sw2,
            ;
        }
    }
}

/// When the summed weight of a range is at most the total weight, its floor
/// shares sum to at most the slack.
pub proof fn lemma_sum_bonus_le(panes: Seq<Pane>, a: int, b: int, r: int, w: int)
    requires
        0 <= a <= b <= panes.len(),
        all_wf(panes),
        r >= 0,
        w > 0,
        sum_weight(panes, a, b) <= w,
    ensures
        0 <= sum_bonus(panes, a, b, r, w) <= r,
{
    lemma_sum_bonus_props(panes, a, b, r, w);
    lemma_sum_weight_bounds(panes, a, b);
    let sb = sum_bonus(panes, a, b, r, w);
    let sw = sum_weight(panes, a, b);
    assert(sb <= r) by (nonlinear_arith)
        requires
            sb * w <= r * sw && sw <= w && w > 0 && sb >= 0 && r >= 0,
    ;
}

/// Each pane's bonus is between 0 and the slack.
pub proof fn lemma_bonus_at_bounds(panes: Seq<Pane>, start: int, end: int, r: int, w: int, i: int)
    requires
        0 <= start <= i < end <= panes.len(),
        all_wf(panes),
        r >= 0,
        w == sum_weight(panes, start, end),
        w > 0,
    ensures
        0 <= spec_bonus_at(panes, start, end, r, w, i) <= r,
{
    if !panes[i].collapsed {
        lemma_sum_weight_split(panes, start, i, end);
        lemma_sum_weight_bounds(panes, start, i);
        lemma_sum_weight_bounds(panes, i, end);
        if i == last_expanded(panes, start, end) {
            lemma_sum_bonus_le(panes, start, i, r, w);
        } else {
            lemma_sum_weight_split(panes, i, i + 1, end);
            lemma_sum_weight_bounds(panes, i + 1, end);
            assert(panes[i].wf());
            assert(sum_weight(panes, i, i + 1) == panes[i].weight as int);
            lemma_bonus_term_bound(r, panes[i].weight as int, w);
        }
    }
}

/// Without saturation at the first pane, the fit pass leaves exactly the
/// budget minus the admitted minimum heights.
pub proof fn lemma_fit_exact(panes: Seq<Pane>, i: int, remaining: int, any: bool)
    requires
        0 <= i <= panes.len(),
        remaining >= 0,
        i < panes.len() && !any ==> remaining >= spec_min_height(panes[i]),
    ensures
        fit_pass(panes, i, remaining, any).1 == remaining - sum_min(
            panes,
            i,
            fit_pass(panes, i, remaining, any).0,
        ),
    decreases panes.len() - i,
{
    if i < panes.len() {
        let m = spec_min_height(panes[i]);
        let reserved: int = if i + 1 < panes.len() {
            1
        } else {
            0
        };
        if !(remaining < m + reserved && any) {
            lemma_fit_exact(panes, i + 1, remaining - m, true);
            lemma_fit_pass_bounds(panes, i + 1, remaining - m, true);
            let end = fit_pass(panes, i, remaining, any).0;
            lemma_sum_min_split(panes, i, i + 1, end);
        }
    }
}

/// When even the first pane's minimum does not fit, the fit pass admits it
/// alone and leaves no budget.
pub proof fn lemma_fit_saturated(panes: Seq<Pane>, start: int, total_height: int)
    requires
        0 <= start < panes.len(),
        total_height >= 0,
        start_budget(start, total_height) < spec_min_height(panes[start]),
    ensures
        spec_visible_end(panes, start, total_height) == start + 1,
        spec_fit_remaining(panes, start, total_height) == 0,
{
    let b0 = start_budget(start, total_height);
    assert(fit_pass(panes, start, b0, false) == fit_pass(panes, start + 1, 0, true));
    assert(fit_pass(panes, start + 1, 0, true) == (start + 1, 0int));
}

/// Sum of the emitted heights from `a` to the window's end: minimum heights
/// plus whatever of the slack is still to hand out at `a`.
proof fn lemma_sum_heights_gen(panes: Seq<Pane>, start: int, total_height: int, a: int)
    requires
        all_wf(panes),
        0 <= start <= panes.len(),
        total_height >= 0,
        start <= a <= spec_visible_end(panes, start, total_height),
    ensures
        !spec_distributes(panes, start, total_height) ==> sum_heights(
            panes,
            start,
            total_height,
            a,
            spec_visible_end(panes, start, total_height),
        ) == sum_min(panes, a, spec_visible_end(panes, start, total_height)),
        spec_distributes(panes, start, total_height) ==> sum_heights(
            panes,
            start,
            total_height,
            a,
            spec_visible_end(panes, start, total_height),
        ) == sum_min(panes, a, spec_visible_end(panes, start, total_height)) + (if a
            <= last_expanded(panes, start, spec_visible_end(panes, start, total_height)) {
            spec_slack(panes, start, total_height) - sum_bonus(
                panes,
                start,
                a,
                spec_slack(panes, start, total_height),
                sum_weight(panes, start, spec_visible_end(panes, start, total_height)),
            )
        } else {
            0
        }),
    decreases spec_visible_end(panes, start, total_height) - a,
{
    let end = spec_visible_end(panes, start, total_height);
    let r = spec_slack(panes, start, total_height);
    let w = sum_weight(panes, start, end);
    lemma_fit_pass_bounds(panes, start, start_budget(start, total_height), false);
    lemma_last_expanded(panes, start, end);
    let last = last_expanded(panes, start, end);
    if a < end {
        lemma_sum_heights_gen(panes, start, total_height, a + 1);
        if spec_distributes(panes, start, total_height) {
            if a < last {
                lemma_sum_bonus_split(panes, start, a, a + 1, r, w);
                assert(sum_bonus(panes, a + 1, a + 1, r, w) == 0);
                assert(sum_bonus(panes, a, a + 1, r, w) == (if panes[a].collapsed {
                    0int
                } else {
                    r * (panes[a].weight as int) / w
                }));
            } else if a == last {
                assert(spec_bonus_at(panes, start, end, r, w, a) == r - sum_bonus(
                    panes,
                    start,
                    a,
                    r,
                    w,
                ));
            } else {
                assert(panes[a].collapsed);
            }
        }
    }
}

/// The total of the emitted heights: the admitted minimums plus the whole
/// slack when it distributes; and in all cases at most the starting budget,
/// except in the saturated single-pane case where it is that pane's minimum.
pub proof fn lemma_layout_total(panes: Seq<Pane>, start: int, total_height: int)
    requires
        all_wf(panes),
        0 <= start <= panes.len(),
        total_height >= 0,
    ensures
        spec_distributes(panes, start, total_height) ==> sum_heights(
            panes,
            start,
            total_height,
            start,
            spec_visible_end(panes, start, total_height),
        ) == sum_min(panes, start, spec_visible_end(panes, start, total_height)) + spec_slack(
            panes,
            start,
            total_height,
        ),
        !spec_distributes(panes, start, total_height) ==> sum_heights(
            panes,
            start,
            total_height,
            start,
            spec_visible_end(panes, start, total_height),
        ) == sum_min(panes, start, spec_visible_end(panes, start, total_height)),
        start < panes.len() && start_budget(start, total_height) < spec_min_height(panes[start])
            ==> sum_heights(
            panes,
            start,
            total_height,
            start,
            spec_visible_end(panes, start, total_height),
        ) == spec_min_height(panes[start]),
        start == panes.len() || start_budget(start, total_height) >= spec_min_height(panes[start])
            ==> sum_heights(
            panes,
            start,
            total_height,
            start,
            spec_visible_end(panes, start, total_height),
        ) <= start_budget(start, total_height),
        sum_heights(
            panes,
            start,
            total_height,
            start,
            spec_visible_end(panes, start, total_height),
        ) >= 0,
{
    let end = spec_visible_end(panes, start, total_height);
    let rem = spec_fit_remaining(panes, start, total_height);
    let b0 = start_budget(start, total_height);
    let r = spec_slack(panes, start, total_height);
    lemma_fit_pass_bounds(panes, start, b0, false);
    lemma_last_expanded(panes, start, end);
    lemma_sum_heights_gen(panes, start, total_height, start);
    if spec_distributes(panes, start, total_height) {
        assert(last_expanded(panes, start, end) >= start);
        assert(sum_bonus(panes, start, start, r, sum_weight(panes, start, end)) == 0);
    }
    // Relate the leftover to the admitted minimums.
    if start == panes.len() {
        assert(end == start);
    } else if b0 >= spec_min_height(panes[start]) {
        lemma_fit_exact(panes, start, b0, false);
        // rem == b0 - sum_min(start, end), hence sums stay within b0.
        assert(rem == b0 - sum_min(panes, start, end));
        lemma_fit_pass_bounds(panes, start, b0, false);
    } else {
        lemma_fit_saturated(panes, start, total_height);
        assert(sum_min(panes, start, end) == spec_min_height(panes[start]) + sum_min(
            panes,
            start + 1,
            start + 1,
        ));
    }
}

/// Layout closure law: whenever the first visible pane's minimum fits the
/// budget, the emitted heights plus the indicator reservations fill the
/// screen exactly if any slack is distributed, and never exceed the screen
/// otherwise.
pub proof fn lemma_layout_closure(panes: Seq<Pane>, start: int, total_height: int)
    requires
        all_wf(panes),
        0 <= start <= panes.len(),
        total_height >= 0,
        start < panes.len() ==> start_budget(start, total_height) >= spec_min_height(
            panes[start],
        ),
    ensures
        spec_distributes(panes, start, total_height) ==> sum_heights(
            panes,
            start,
            total_height,
            start,
            spec_visible_end(panes, start, total_height),
        ) + (if start > 0 {
            1int
        } else {
            0int
        }) + (if spec_visible_end(panes, start, total_height) < panes.len() {
            1int
        } else {
            0int
        }) == total_height,
        !spec_distributes(panes, start, total_height) ==> sum_heights(
            panes,
            start,
            total_height,
            start,
            spec_visible_end(panes, start, total_height),
        ) <= total_height,
{
    let end = spec_visible_end(panes, start, total_height);
    let rem = spec_fit_remaining(panes, start, total_height);
    let b0 = start_budget(start, total_height);
    lemma_layout_total(panes, start, total_height);
    lemma_fit_pass_bounds(panes, start, b0, false);
    if start < panes.len() {
        lemma_fit_exact(panes, start, b0, false);
    }
}

proof fn lemma_sum_weight_step(panes: Seq<Pane>, a: int, i: int)
    requires
        a <= i,
    ensures
        sum_weight(panes, a, i + 1) == sum_weight(panes, a, i) + (if panes[i].collapsed {
            0int
        } else {
            panes[i].weight as int
        }),
{
    lemma_sum_weight_split(panes, a, i, i + 1);
    assert(sum_weight(panes, i + 1, i + 1) == 0);
}

proof fn lemma_sum_bonus_step(panes: Seq<Pane>, a: int, i: int, r: int, w: int)
    requires
        a <= i,
    ensures
        sum_bonus(panes, a, i + 1, r, w) == sum_bonus(panes, a, i, r, w) + (if panes[i].collapsed {
            0int
        } else {
            r * (panes[i].weight as int) / w
        }),
{
    lemma_sum_bonus_split(panes, a, i, i + 1, r, w);
    assert(sum_bonus(panes, i + 1, i + 1, r, w) == 0);
}

proof fn lemma_sum_heights_step(panes: Seq<Pane>, start: int, h: int, a: int, i: int)
    requires
        a <= i,
    ensures
        sum_heights(panes, start, h, a, i + 1) == sum_heights(panes, start, h, a, i)
            + spec_height_at(panes, start, h, i),
{
    lemma_sum_heights_split(panes, start, h, a, i, i + 1);
    assert(sum_heights(panes, start, h, i + 1, i + 1) == 0);
}

/// Minimum heights lie between 3 and 5 per pane.
pub proof fn lemma_sum_min_bounds(panes: Seq<Pane>, a: int, b: int)
    requires
        a <= b,
    ensures
        3 * (b - a) <= sum_min(panes, a, b) <= 5 * (b - a),
    decreases b - a,
{
    if a < b {
        lemma_sum_min_bounds(panes, a + 1, b);
    }
}

/// Every emitted height is at least the pane's minimum and no more than the
/// minimum plus the slack.
pub proof fn lemma_height_at_bounds(panes: Seq<Pane>, start: int, total_height: int, i: int)
    requires
        all_wf(panes),
        0 <= start <= panes.len(),
        total_height >= 0,
        start <= i < spec_visible_end(panes, start, total_height),
    ensures
        spec_min_height(panes[i]) <= spec_height_at(panes, start, total_height, i)
            <= spec_min_height(panes[i]) + spec_slack(panes, start, total_height),
{
    let end = spec_visible_end(panes, start, total_height);
    lemma_fit_pass_bounds(panes, start, start_budget(start, total_height), false);
    if spec_distributes(panes, start, total_height) {
        lemma_bonus_at_bounds(
            panes,
            start,
            end,
            spec_slack(panes, start, total_height),
            sum_weight(panes, start, end),
            i,
        );
    }
}

/// Partial sums of heights are nonnegative.
pub proof fn lemma_sum_heights_nonneg(panes: Seq<Pane>, start: int, total_height: int, a: int, b: int)
    requires
        all_wf(panes),
        0 <= start <= panes.len(),
        total_height >= 0,
        start <= a <= b <= spec_visible_end(panes, start, total_height),
    ensures
        sum_heights(panes, start, total_height, a, b) >= 0,
    decreases b - a,
{
    if a < b {
        lemma_height_at_bounds(panes, start, total_height, a);
        lemma_sum_heights_nonneg(panes, start, total_height, a + 1, b);
    }
}

/// The visible layout for a viewport starting at `viewport_start` on `area`:
/// one `(pane index, rectangle)` per admitted pane, stacked from the
/// post-indicator origin, heights as the weighted distribution assigns them;
/// and the index of the first pane below the window.
pub fn compute_visible_layout(panes: &Vec<Pane>, viewport_start: usize, area: Rect) -> (r: (
    Vec<(usize, Rect)>,
    usize,
))
    requires
        all_wf(panes@),
        viewport_start <= panes@.len(),
        area.y + area.height <= u16::MAX,
        area.y + 6 <= u16::MAX,
    ensures
        r.1 == spec_visible_end(panes@, viewport_start as int, area.height as int),
        viewport_start <= r.1 <= panes@.len(),
        r.0@.len() == r.1 - viewport_start,
        forall|k: int|
            0 <= k < r.0@.len() ==> (#[trigger] r.0@[k]).0 == viewport_start + k,
        forall|k: int|
            0 <= k < r.0@.len() ==> (#[trigger] r.0@[k]).1.x == area.x,
        forall|k: int|
            0 <= k < r.0@.len() ==> (#[trigger] r.0@[k]).1.width == area.width,
        forall|k: int|
            0 <= k < r.0@.len() ==> (#[trigger] r.0@[k]).1.height as int == spec_height_at(
                panes@,
                viewport_start as int,
                area.height as int,
                viewport_start + k,
            ),
        forall|k: int|
            0 <= k < r.0@.len() ==> (#[trigger] r.0@[k]).1.y as int == area.y + (
            if viewport_start > 0 {
                1int
            } else {
                0int
            }) + sum_heights(
                panes@,
                viewport_start as int,
                area.height as int,
                viewport_start as int,
                viewport_start + k,
            ),
{
    let ghost gp = panes@;
    let ghost gstart = viewport_start as int;
    let ghost gh = area.height as int;
    let start = viewport_start;
    let budget: u16 = if start > 0 {
        if area.height >= INDICATOR_HEIGHT {
            area.height - INDICATOR_HEIGHT
        } else {
            0
        }
    } else {
        area.height
    };
    assert(budget as int == start_budget(gstart, gh));
    let fr = fit_scan(panes, start, budget);
    let end = fr.0;
    let rem0 = fr.1;
    proof {
        lemma_fit_pass_bounds(gp, gstart, budget as int, false);
        lemma_fit_pass_count(gp, gstart, budget as int, false);
    }
    let below_exists = end < panes.len();
    let rem: u16 = if below_exists {
        if rem0 >= INDICATOR_HEIGHT {
            rem0 - INDICATOR_HEIGHT
        } else {
            0
        }
    } else {
        rem0
    };
    assert(rem as int == spec_slack(gp, gstart, gh));

    // Total weight of the expanded visible panes.
    let mut w_total: u32 = 0;
    let mut i: usize = start;
    while i < end
        invariant
            start <= i <= end <= gp.len(),
            panes@ == gp,
            all_wf(gp),
            end - start <= budget / 3 + 1,
            w_total as int == sum_weight(gp, start as int, i as int),
            w_total as int <= 50 * (i - start),
        decreases end - i,
    {
        proof {
            lemma_sum_weight_step(gp, start as int, i as int);
            assert(gp[i as int].wf());
        }
        if !panes[i].collapsed {
            w_total = w_total + panes[i].weight as u32;
        }
        i = i + 1;
    }

    // Last expanded pane of the window, if any.
    let mut has_exp = false;
    let mut last_exp: usize = 0;
    i = start;
    while i < end
        invariant
            start <= i <= end <= gp.len(),
            panes@ == gp,
            has_exp == has_expanded(gp, start as int, i as int),
            has_exp ==> start <= last_exp < i && last_exp == last_expanded(
                gp,
                start as int,
                i as int,
            ),
        decreases end - i,
    {
        proof {
            if gp[i as int].collapsed {
                if has_expanded(gp, start as int, i + 1) {
                    let j = choose|j: int|
                        start <= j < i + 1 && !(#[trigger] gp[j]).collapsed;
                    assert(start <= j < i && !gp[j].collapsed);
                    assert(has_expanded(gp, start as int, i as int));
                }
            } else {
                assert(start <= i < i + 1 && !gp[i as int].collapsed);
                assert(has_expanded(gp, start as int, i + 1));
            }
        }
        if !panes[i].collapsed {
            has_exp = true;
            last_exp = i;
        }
        i = i + 1;
    }

    let distribute = has_exp && rem > 0 && w_total > 0;
    proof {
        lemma_sum_weight_bounds(gp, start as int, end as int);
        assert(distribute == spec_distributes(gp, gstart, gh));
    }

    // The emitted heights fit in the budget (or the forced single minimum).
    proof {
        lemma_layout_total(gp, gstart, gh);
        lemma_last_expanded(gp, start as int, end as int);
        if distribute {
            if (budget as int) < spec_min_height(gp[gstart]) {
                lemma_fit_saturated(gp, gstart, gh);
                assert(false);
            } else {
                lemma_fit_exact(gp, gstart, budget as int, false);
                let j = last_exp as int;
                lemma_sum_min_split(gp, start as int, j, end as int);
                lemma_sum_min_split(gp, j, j + 1, end as int);
                lemma_sum_min_bounds(gp, start as int, j);
                lemma_sum_min_bounds(gp, j + 1, end as int);
                assert(sum_min(gp, j, j + 1) == spec_min_height(gp[j]) + sum_min(gp, j + 1, j + 1));
                assert(sum_min(gp, start as int, end as int) >= 5);
                assert(rem as int + 5 <= budget as int);
            }
        }
    }

    let mut result: Vec<(usize, Rect)> = Vec::new();
    let mut y: u16 = if start > 0 {
        area.y + INDICATOR_HEIGHT
    } else {
        area.y
    };
    let ghost y0 = area.y + (if viewport_start > 0 {
        1int
    } else {
        0int
    });
    let mut distributed: u16 = 0;
    proof {
        assert(y0 + sum_heights(gp, gstart, gh, gstart, end as int) <= u16::MAX);
    }
    i = start;
    while i < end
        invariant
            start <= i <= end <= gp.len(),
            panes@ == gp,
            all_wf(gp),
            gstart == start as int,
            gh >= 0,
            end as int == spec_visible_end(gp, gstart, gh),
            rem as int == spec_slack(gp, gstart, gh),
            w_total as int == sum_weight(gp, gstart, end as int),
            distribute == spec_distributes(gp, gstart, gh),
            distribute ==> start <= last_exp < end && last_exp == last_expanded(
                gp,
                gstart,
                end as int,
            ),
            distribute ==> rem as int + 5 <= u16::MAX,
            result@.len() == i - start,
            forall|k: int|
                0 <= k < result@.len() ==> (#[trigger] result@[k]).0 == start + k,
            forall|k: int|
                0 <= k < result@.len() ==> (#[trigger] result@[k]).1.x == area.x,
            forall|k: int|
                0 <= k < result@.len() ==> (#[trigger] result@[k]).1.width == area.width,
            forall|k: int|
                0 <= k < result@.len() ==> (#[trigger] result@[k]).1.height as int
                    == spec_height_at(gp, gstart, gh, start + k),
            forall|k: int|
                0 <= k < result@.len() ==> (#[trigger] result@[k]).1.y as int == y0 + sum_heights(
                    gp,
                    gstart,
                    gh,
                    gstart,
                    start + k,
                ),
            y as int == y0 + sum_heights(gp, gstart, gh, gstart, i as int),
            y as int + sum_heights(gp, gstart, gh, i as int, end as int) <= u16::MAX,
            distribute ==> distributed as int == sum_bonus(
                gp,
                gstart,
                if i <= last_exp {
                    i as int
                } else {
                    last_exp as int
                },
                rem as int,
                w_total as int,
            ),
            distributed <= rem,
        decreases end - i,
    {
        proof {
            assert(gp[i as int].wf());
            lemma_height_at_bounds(gp, gstart, gh, i as int);
            lemma_sum_heights_step(gp, gstart, gh, gstart, i as int);
            lemma_sum_heights_split(gp, gstart, gh, i as int, i + 1, end as int);
            lemma_sum_heights_step(gp, gstart, gh, i as int, i as int);
            lemma_sum_heights_nonneg(gp, gstart, gh, i + 1, end as int);
        }
        let mh = min_height(&panes[i]);
        let mut h: u16 = mh;
        if distribute && !panes[i].collapsed {
            proof {
                lemma_last_expanded(gp, gstart, end as int);
                lemma_bonus_at_bounds(
                    gp,
                    gstart,
                    end as int,
                    rem as int,
                    w_total as int,
                    i as int,
                );
            }
            if i == last_exp {
                h = MIN_EXPANDED_HEIGHT + (rem - distributed);
            } else {
                assert(i < last_exp);
                let wi = panes[i].weight;
                assert((rem as int) * (wi as int) <= 65535 * 50) by (nonlinear_arith)
                    requires
                        0 <= rem as int <= 65535 && 0 <= wi as int <= 50,
                ;
                let b32: u32 = (rem as u32) * (wi as u32) / w_total;
                assert(b32 as int == (rem as int) * (wi as int) / (w_total as int));
                assert(b32 as int == spec_bonus_at(
                    gp,
                    gstart,
                    end as int,
                    rem as int,
                    w_total as int,
                    i as int,
                ));
                let b: u16 = b32 as u16;
                proof {
                    lemma_sum_bonus_step(gp, gstart, i as int, rem as int, w_total as int);
                    lemma_sum_weight_split(gp, gstart, i + 1, end as int);
                    lemma_sum_weight_bounds(gp, i + 1, end as int);
                    lemma_sum_bonus_le(gp, gstart, i + 1, rem as int, w_total as int);
                }
                distributed = distributed + b;
                h = MIN_EXPANDED_HEIGHT + b;
            }
        }
        assert(h as int == spec_height_at(gp, gstart, gh, i as int));
        let entry: (usize, Rect) = (
            i,
            Rect { x: area.x, y, width: area.width, height: h },
        );
        result.push(entry);
        proof {
            if i + 1 <= last_exp {
                lemma_sum_bonus_step(gp, gstart, i as int, rem as int, w_total as int);
            }
        }
        y = y + h;
        i = i + 1;
    }
    (result, end)
}

} // verus!
