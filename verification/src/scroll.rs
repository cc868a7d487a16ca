//! How far the tabs are scrolled.

use vstd::prelude::*;

use crate::rect::{diff16, min16, smaller, sum16};

verus! {

/// The sum of the widths.
pub open spec fn total(widths: Seq<u16>) -> nat
    decreases widths.len(),
{
    if widths.len() == 0 {
        0
    } else {
        total(widths.drop_last()) + widths.last() as nat
    }
}

/// The cells that a run of tabs takes, with one free cell between neighbors.
pub open spec fn run_cells(widths: Seq<u16>) -> int {
    if widths.len() == 0 {
        0
    } else {
        total(widths) + widths.len() - 1
    }
}

/// Whether every tab from `start` on is fully visible in `available` cells.
pub open spec fn rest_fits(widths: Seq<u16>, start: int, available: u16) -> bool {
    run_cells(widths.skip(start)) <= available
}

/// Whether `start` is as far as the tabs scroll: from there on every tab is
/// fully visible and from no earlier tab on, or no tab but the last is left.
pub open spec fn is_max_scroll(widths: Seq<u16>, available: u16, start: int) -> bool {
    if widths.len() == 0 {
        start == 0
    } else {
        &&& 0 <= start < widths.len()
        &&& start == widths.len() - 1 || rest_fits(widths, start, available)
        &&& forall|s: int| 0 <= s < start ==> !#[trigger] rest_fits(widths, s, available)
    }
}

/// The cells before the focused tab when `start` is the first tab drawn.
pub open spec fn cells_before(widths: Seq<u16>, start: int, focused: int) -> int {
    total(widths.subrange(start, focused)) + (focused - start)
}

/// Whether the focused tab is at least partly visible when `start` is the first
/// tab drawn.
pub open spec fn shows(widths: Seq<u16>, start: int, focused: int, available: u16) -> bool {
    0 <= start <= focused && cells_before(widths, start, focused) < available
}

/// How far the middle of the visible part of the focused tab is from the middle
/// of the strip, in half cells and at most as far as a `u16` goes.
pub open spec fn off_center(widths: Seq<u16>, start: int, focused: int, available: u16) -> int {
    let before = cells_before(widths, start, focused);
    let visible = min16(widths[focused], diff16(available as int, before));
    let center = sum16(2 * before, visible as int);
    if center >= available {
        center - available
    } else {
        available - center
    }
}

/// Whether `start` centers the focused tab best. Of two that do so equally well,
/// the later one is taken.
pub open spec fn is_centered_scroll(
    widths: Seq<u16>,
    focused: int,
    available: u16,
    start: int,
) -> bool {
    if available == 0 {
        start == focused
    } else {
        &&& shows(widths, start, focused, available)
        &&& forall|s: int| #[trigger]
            shows(widths, s, focused, available) ==> {
                let d = off_center(widths, start, focused, available);
                let e = off_center(widths, s, focused, available);
                d < e || d == e && s <= start
            }
    }
}

proof fn lemma_total_join(a: Seq<u16>, b: Seq<u16>)
    ensures
        total(a + b) == total(a) + total(b),
    decreases b.len(),
{
    if b.len() == 0 {
        assert(a + b =~= a);
    } else {
        assert((a + b).drop_last() =~= a + b.drop_last());
        lemma_total_join(a, b.drop_last());
    }
}

/// The sum of a run is its first width and the sum of the rest.
pub(crate) proof fn lemma_total_step(widths: Seq<u16>, start: int, end: int)
    requires
        0 <= start < end <= widths.len(),
    ensures
        total(widths.subrange(start, end)) == widths[start] + total(
            widths.subrange(start + 1, end),
        ),
{
    let first = seq![widths[start]];
    assert(widths.subrange(start, end) =~= first + widths.subrange(start + 1, end));
    lemma_total_join(first, widths.subrange(start + 1, end));
    reveal_with_fuel(total, 2);
}

proof fn lemma_run_step(widths: Seq<u16>, start: int)
    requires
        0 <= start < widths.len() - 1,
    ensures
        run_cells(widths.skip(start)) == widths[start] + 1 + run_cells(widths.skip(start + 1)),
{
    lemma_total_step(widths, start, widths.len() as int);
    assert(widths.skip(start) =~= widths.subrange(start, widths.len() as int));
    assert(widths.skip(start + 1) =~= widths.subrange(start + 1, widths.len() as int));
}

/// Where the tabs from one on fit, those from a later one on fit too.
pub proof fn lemma_rest_fits_later(widths: Seq<u16>, start: int, later: int, available: u16)
    requires
        0 <= start <= later < widths.len(),
        rest_fits(widths, start, available),
    ensures
        rest_fits(widths, later, available),
    decreases later - start,
{
    if start < later {
        lemma_run_step(widths, start);
        lemma_rest_fits_later(widths, start + 1, later, available);
    }
}

/// The first tab to draw when the tabs are scrolled as far as they go.
pub open spec fn max_scroll(widths: Seq<u16>, available: u16) -> int {
    choose|start: int| is_max_scroll(widths, available, start)
}

/// The first tab to draw so that the focused tab is centered best.
pub open spec fn centered_scroll(widths: Seq<u16>, focused: int, available: u16) -> int {
    choose|start: int| is_centered_scroll(widths, focused, available, start)
}

proof fn lemma_max_scroll_exists(widths: Seq<u16>, available: u16, start: int) -> (found: int)
    requires
        0 <= start < widths.len(),
        start == widths.len() - 1 || rest_fits(widths, start, available),
    ensures
        is_max_scroll(widths, available, found),
    decreases start,
{
    if start > 0 && rest_fits(widths, start - 1, available) {
        lemma_max_scroll_exists(widths, available, start - 1)
    } else {
        assert forall|s: int| 0 <= s < start implies !#[trigger] rest_fits(widths, s, available) by {
            if rest_fits(widths, s, available) {
                lemma_rest_fits_later(widths, s, start - 1, available);
            }
        }
        start
    }
}

/// There is exactly one place as far as the tabs scroll.
pub proof fn lemma_max_scroll(widths: Seq<u16>, available: u16)
    ensures
        is_max_scroll(widths, available, max_scroll(widths, available)),
        forall|start: int| #[trigger]
            is_max_scroll(widths, available, start) ==> start == max_scroll(widths, available),
{
    if widths.len() == 0 {
        assert(is_max_scroll(widths, available, 0));
    } else {
        let found = lemma_max_scroll_exists(widths, available, widths.len() - 1);
        assert forall|start: int| #[trigger] is_max_scroll(widths, available, start) implies start
            == max_scroll(widths, available) by {
            let other = max_scroll(widths, available);
            assert(is_max_scroll(widths, available, other));
            if start < other {
                assert(!rest_fits(widths, start, available));
            }
            if other < start {
                assert(!rest_fits(widths, other, available));
            }
        }
    }
}

/// The place that centers the focused tab best among those before `end`.
proof fn lemma_centered_scroll_before(
    widths: Seq<u16>,
    focused: int,
    available: u16,
    start: int,
    end: int,
) -> (found: int)
    requires
        0 <= start < end,
        shows(widths, start, focused, available),
    ensures
        found < end,
        shows(widths, found, focused, available),
        forall|s: int| #[trigger]
            shows(widths, s, focused, available) && s < end ==> {
                let d = off_center(widths, found, focused, available);
                let e = off_center(widths, s, focused, available);
                d < e || d == e && s <= found
            },
    decreases end,
{
    let last = end - 1;
    let earlier = exists|s: int| #[trigger] shows(widths, s, focused, available) && s < last;
    if !earlier {
        start
    } else {
        let s = choose|s: int| #[trigger] shows(widths, s, focused, available) && s < last;
        let found = lemma_centered_scroll_before(widths, focused, available, s, last);
        let d = off_center(widths, found, focused, available);
        let e = off_center(widths, last, focused, available);
        if shows(widths, last, focused, available) && e <= d {
            last
        } else {
            found
        }
    }
}

/// There is exactly one place that centers the focused tab best.
pub proof fn lemma_centered_scroll(widths: Seq<u16>, focused: int, available: u16)
    requires
        0 <= focused < widths.len() || available == 0,
    ensures
        is_centered_scroll(widths, focused, available, centered_scroll(widths, focused, available)),
        forall|start: int| #[trigger]
            is_centered_scroll(widths, focused, available, start) ==> start == centered_scroll(
                widths,
                focused,
                available,
            ),
{
    if available == 0 {
        assert(is_centered_scroll(widths, focused, available, focused));
    } else {
        assert(widths.subrange(focused, focused) =~= Seq::<u16>::empty());
        assert(shows(widths, focused, focused, available));
        let found = lemma_centered_scroll_before(widths, focused, available, focused, focused + 1);
        assert(is_centered_scroll(widths, focused, available, found));
    }
}

/// The first tab to draw when the tabs are scrolled as far as they go: the
/// longest row of last tabs that is fully visible, and never less than the last
/// tab, however wide it is.
pub fn max_tab_scroll(widths: &[u16], available: u16) -> (start: usize)
    ensures
        is_max_scroll(widths@, available, start as int),
        start == max_scroll(widths@, available),
{
    proof {
        lemma_max_scroll(widths@, available);
    }
    if widths.len() == 0 {
        return 0;
    }
    let mut start: usize = widths.len() - 1;
    let mut used: u32 = widths[start] as u32;
    assert(run_cells(widths@.skip(start as int)) == used) by {
        let last = widths@.skip(start as int);
        assert(last =~= seq![widths@[start as int]]);
        reveal_with_fuel(total, 2);
    }
    while start > 0
        invariant_except_break
            used <= u16::MAX,
        invariant
            start < widths.len(),
            used == run_cells(widths@.skip(start as int)),
            start == widths.len() - 1 || rest_fits(widths@, start as int, available),
        ensures
            start == 0 || !rest_fits(widths@, start - 1, available),
        decreases start,
    {
        let required: u32 = used + 1 + widths[start - 1] as u32;
        proof {
            lemma_run_step(widths@, start - 1);
        }
        if required > available as u32 {
            break;
        }
        used = required;
        start = start - 1;
    }
    proof {
        assert forall|s: int| 0 <= s < start implies !#[trigger] rest_fits(widths@, s, available) by {
            if rest_fits(widths@, s, available) {
                lemma_rest_fits_later(widths@, s, start - 1, available);
            }
        }
    }
    start
}

fn distance(a: u16, b: u16) -> (d: u16)
    ensures
        d == if a >= b {
            a - b
        } else {
            b - a
        },
{
    if a >= b {
        a - b
    } else {
        b - a
    }
}

/// The cells before the focused tab, as far as a `u16` holds them.
fn measured_before(widths: &[u16], start: usize, focused: usize) -> (before: u16)
    requires
        start <= focused <= widths.len(),
        forall|i: int| 0 <= i < focused ==> widths@[i] < u16::MAX,
    ensures
        before == sum16(cells_before(widths@, start as int, focused as int), 0),
        cells_before(widths@, start as int, focused as int) >= 0,
{
    let mut before: u16 = 0;
    let mut i: usize = start;
    assert(widths@.subrange(start as int, start as int) =~= Seq::<u16>::empty());
    while i < focused
        invariant
            start <= i <= focused <= widths.len(),
            forall|j: int| 0 <= j < focused ==> widths@[j] < u16::MAX,
            before == sum16(cells_before(widths@, start as int, i as int), 0),
            cells_before(widths@, start as int, i as int) >= 0,
        decreases focused - i,
    {
        proof {
            let next = widths@.subrange(start as int, i + 1);
            assert(next.drop_last() =~= widths@.subrange(start as int, i as int));
            assert(next.last() == widths@[i as int]);
        }
        before = before.saturating_add(widths[i] + 1);
        i = i + 1;
    }
    before
}

/// The first tab to draw so that the focused tab is as close to the middle of
/// the strip as it can be.
pub fn centered_tab_scroll(focused: usize, widths: &[u16], available: u16) -> (start: usize)
    requires
        focused < widths.len() || available == 0,
        forall|i: int| 0 <= i < focused && i < widths.len() ==> widths@[i] < u16::MAX,
    ensures
        start <= focused,
        is_centered_scroll(widths@, focused as int, available, start as int),
        start == centered_scroll(widths@, focused as int, available),
{
    proof {
        lemma_centered_scroll(widths@, focused as int, available);
    }
    if available == 0 {
        return focused;
    }
    let mut best: usize = focused;
    let mut best_distance: u16 = u16::MAX;
    let mut start: usize = 0;
    while start <= focused
        invariant
            available > 0,
            start <= focused + 1,
            focused < widths.len(),
            forall|i: int| 0 <= i < focused ==> widths@[i] < u16::MAX,
            best <= focused,
            start <= focused || shows(widths@, best as int, focused as int, available),
            forall|s: int| #[trigger]
                shows(widths@, s, focused as int, available) && s < start ==> {
                    let e = off_center(widths@, s, focused as int, available);
                    best_distance < e || best_distance == e && s <= best
                },
            best_distance < u16::MAX || (exists|s: int|
                s < start && #[trigger] shows(widths@, s, focused as int, available))
                ==> shows(widths@, best as int, focused as int, available) && best_distance
                == off_center(widths@, best as int, focused as int, available),
        decreases focused + 1 - start,
    {
        let before: u16 = measured_before(widths, start, focused);
        if before < available {
            let visible: u16 = smaller(widths[focused], available - before);
            let center: u16 = before.saturating_add(before).saturating_add(visible);
            let d: u16 = distance(center, available);
            if d <= best_distance {
                best_distance = d;
                best = start;
            }
        }
        proof {
            if start == focused {
                assert(widths@.subrange(start as int, start as int) =~= Seq::<u16>::empty());
            }
        }
        start = start + 1;
    }
    proof {
        assert(widths@.subrange(focused as int, focused as int) =~= Seq::<u16>::empty());
        assert(shows(widths@, focused as int, focused as int, available));
    }
    best
}

} // verus!
