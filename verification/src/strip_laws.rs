//! What holds of every layout of the tab strip.

use vstd::prelude::*;

use crate::rect::{diff16, min16, sum16, Rect};
use crate::scroll::{
    cells_before, centered_scroll, lemma_centered_scroll, lemma_max_scroll, lemma_total_step,
    max_scroll, rest_fits, run_cells, shows,
};
use crate::strip::{
    new_tab_cells, overflows, settled_scroll, slots_end, slots_from, strip_cells, strip_layout,
    strip_left, strip_right, SlotView,
};

verus! {

/// The drawn tabs stand from left to right in their order, from the given tab
/// and column on. Each takes at least one cell and ends by the given column. One
/// cell is free between two of them, and no tab but the last is cut.
pub proof fn lemma_slots_in_order(widths: Seq<u16>, index: int, x: u16, right: u16)
    requires
        0 <= index,
    ensures
        ({
            let slots = slots_from(widths, index, x, right);
            &&& index < widths.len() ==> index + slots.len() <= widths.len()
            &&& index >= widths.len() ==> slots.len() == 0
            &&& slots.len() > 0 ==> slots[0].x == x
            &&& forall|k: int|
                0 <= k < slots.len() ==> (#[trigger] slots[k]).index == index + k && slots[k].x >= x
                    && 0 < slots[k].width <= widths[index + k] && slots[k].x + slots[k].width
                    <= right
            &&& forall|k: int|
                0 <= k < slots.len() - 1 ==> (#[trigger] slots[k]).width == widths[index + k]
            &&& forall|k: int, n: int|
                0 <= k && n == k + 1 && n < slots.len() ==> (#[trigger] slots[n]).x == (
                #[trigger] slots[k]).x + slots[k].width + 1
        }),
    decreases widths.len() - index,
{
    if index < widths.len() {
        let width = min16(widths[index], diff16(right as int, x as int));
        if 0 < width && width == widths[index] {
            let next = sum16(x as int, width + 1);
            let rest = slots_from(widths, index + 1, next, right);
            let slots = slots_from(widths, index, x, right);
            lemma_slots_in_order(widths, index + 1, next, right);
            assert(forall|k: int| 0 < k < slots.len() ==> #[trigger] slots[k] == rest[k - 1]);
            assert forall|k: int| 0 <= k < slots.len() implies (#[trigger] slots[k]).index == index
                + k && slots[k].x >= x && 0 < slots[k].width <= widths[index + k] && slots[k].x
                + slots[k].width <= right by {
                if k > 0 {
                    assert(slots[k] == rest[k - 1]);
                }
            }
            assert forall|k: int| 0 <= k < slots.len() - 1 implies (#[trigger] slots[k]).width
                == widths[index + k] by {
                if k > 0 {
                    assert(slots[k] == rest[k - 1]);
                }
            }
            assert forall|k: int, n: int| 0 <= k && n == k + 1 && n < slots.len() implies (
            #[trigger] slots[n]).x == (#[trigger] slots[k]).x + slots[k].width + 1 by {
                assert(slots[n] == rest[k]);
                if k > 0 {
                    assert(slots[k] == rest[k - 1]);
                } else {
                    assert(rest[0].x == next);
                }
            }
        }
    }
}

/// No two drawn tabs share a column, and at least one column is free between them.
pub proof fn lemma_slots_are_apart(
    widths: Seq<u16>,
    index: int,
    x: u16,
    right: u16,
    k: int,
    n: int,
)
    requires
        0 <= index,
        0 <= k < n < slots_from(widths, index, x, right).len(),
    ensures
        ({
            let slots = slots_from(widths, index, x, right);
            slots[k].x + slots[k].width < slots[n].x
        }),
    decreases n - k,
{
    let slots = slots_from(widths, index, x, right);
    lemma_slots_in_order(widths, index, x, right);
    assert(slots[k + 1].x == slots[k].x + slots[k].width + 1);
    if k + 1 < n {
        lemma_slots_are_apart(widths, index, x, right, k + 1, n);
    }
}

/// As long as cells are left, the next tab is drawn: where drawing stops before
/// the last tab, the strip is used up (or the next tab asks for no cell).
pub proof fn lemma_slots_use_the_strip(widths: Seq<u16>, index: int, x: u16, right: u16)
    requires
        0 <= index,
    ensures
        ({
            let slots = slots_from(widths, index, x, right);
            index + slots.len() < widths.len() ==> slots_end(slots, x) >= right || widths[index
                + slots.len()] == 0
        }),
    decreases widths.len() - index,
{
    if index < widths.len() {
        let width = min16(widths[index], diff16(right as int, x as int));
        if 0 < width && width == widths[index] {
            let next = sum16(x as int, width + 1);
            let rest = slots_from(widths, index + 1, next, right);
            let slots = slots_from(widths, index, x, right);
            lemma_slots_use_the_strip(widths, index + 1, next, right);
            if rest.len() > 0 {
                assert(slots.last() == rest.last());
            }
        }
    }
}

/// A tab is drawn where the tabs before it leave it a cell, and in full where
/// they leave it as many as it asks for.
pub proof fn lemma_slot_of_tab(widths: Seq<u16>, index: int, tab: int, x: u16, right: u16)
    requires
        0 <= index <= tab < widths.len(),
        forall|i: int| index <= i <= tab ==> widths[i] > 0,
        x + cells_before(widths, index, tab) < right,
    ensures
        ({
            let slots = slots_from(widths, index, x, right);
            &&& tab - index < slots.len()
            &&& slots[tab - index].index == tab
            &&& slots[tab - index].x == x + cells_before(widths, index, tab)
            &&& x + cells_before(widths, index, tab) + widths[tab] <= right
                ==> slots[tab - index].width == widths[tab]
        }),
    decreases tab - index,
{
    if index == tab {
        assert(widths.subrange(index, tab) =~= Seq::<u16>::empty());
    } else {
        lemma_total_step(widths, index, tab);
        lemma_slot_of_tab(
            widths,
            index + 1,
            tab,
            sum16(x as int, widths[index] + 1),
            right,
        );
    }
}

/// The columns for the tabs are as many as the cells left to them.
pub proof fn lemma_strip_columns(widths: Seq<u16>, content: Rect, mouse: bool)
    requires
        content.ends_on_screen(),
    ensures
        ({
            let left = strip_left(widths, content, mouse);
            let right = strip_right(widths, content, mouse);
            &&& strip_cells(widths, content, mouse) > 0 ==> right - left == strip_cells(
                widths,
                content,
                mouse,
            )
            &&& content.x <= left
            &&& right <= content.end()
        }),
{
}

pub(crate) proof fn lemma_cells_split(widths: Seq<u16>, start: int, end: int)
    requires
        0 <= start <= end < widths.len(),
    ensures
        cells_before(widths, start, end) + widths[end] <= run_cells(widths.skip(start)),
        end == widths.len() - 1 ==> cells_before(widths, start, end) + widths[end] == run_cells(
            widths.skip(start),
        ),
    decreases end - start,
{
    let rest = widths.skip(start);
    assert(rest =~= widths.subrange(start, widths.len() as int));
    lemma_total_step(widths, start, widths.len() as int);
    if start == end {
        assert(widths.subrange(start, end) =~= Seq::<u16>::empty());
        if end == widths.len() - 1 {
            assert(widths.subrange(start + 1, widths.len() as int) =~= Seq::<u16>::empty());
        }
    } else {
        lemma_total_step(widths, start, end);
        lemma_cells_split(widths, start + 1, end);
        assert(widths.skip(start + 1) =~= widths.subrange(start + 1, widths.len() as int));
    }
}

/// Whether tab `tab` is among the drawn ones.
pub open spec fn is_drawn(slots: Seq<SlotView>, tab: int) -> bool {
    exists|k: int| 0 <= k < slots.len() && (#[trigger] slots[k]).index == tab
}

/// Whether tab `tab` is drawn with all the cells that it asks for.
pub open spec fn is_drawn_in_full(slots: Seq<SlotView>, tab: int, width: u16) -> bool {
    exists|k: int|
        0 <= k < slots.len() && (#[trigger] slots[k]).index == tab && slots[k].width == width
}

/// Where all tabs fit, every one of them is drawn in full.
pub proof fn lemma_fitting_tabs_are_drawn(
    widths: Seq<u16>,
    focused: Option<int>,
    content: Rect,
    mouse: bool,
    scroll: int,
    reveal: bool,
    tab: int,
)
    requires
        content.ends_on_screen(),
        forall|i: int| 0 <= i < widths.len() ==> widths[i] > 0,
        run_cells(widths) + new_tab_cells(mouse) <= content.width,
        0 <= tab < widths.len(),
    ensures
        ({
            let strip = strip_layout(widths, focused, content, mouse, scroll, reveal);
            is_drawn_in_full(strip.slots, tab, widths[tab])
        }),
{
    let left = strip_left(widths, content, mouse);
    let right = strip_right(widths, content, mouse);
    assert(!overflows(widths, content, mouse));
    lemma_cells_split(widths, 0, tab);
    assert(widths.skip(0) =~= widths);
    lemma_strip_columns(widths, content, mouse);
    lemma_slot_of_tab(widths, 0, tab, left, right);
    let slots = slots_from(widths, 0, left, right);
    assert(slots[tab].index == tab);
}

/// Revealing the focused tab draws it, in a strip that is scrolled and has a
/// cell for tabs.
pub proof fn lemma_revealed_tab_is_drawn(
    widths: Seq<u16>,
    tab: int,
    content: Rect,
    mouse: bool,
    scroll: int,
)
    requires
        content.ends_on_screen(),
        forall|i: int| 0 <= i < widths.len() ==> widths[i] > 0,
        0 <= tab < widths.len(),
        overflows(widths, content, mouse),
        strip_cells(widths, content, mouse) > 0,
    ensures
        is_drawn(strip_layout(widths, Some(tab), content, mouse, scroll, true).slots, tab),
{
    let available = strip_cells(widths, content, mouse);
    let left = strip_left(widths, content, mouse);
    let right = strip_right(widths, content, mouse);
    let most = max_scroll(widths, available);
    let centered = centered_scroll(widths, tab, available);
    let first = settled_scroll(widths, Some(tab), content, mouse, scroll, true);
    lemma_max_scroll(widths, available);
    lemma_centered_scroll(widths, tab, available);
    lemma_strip_columns(widths, content, mouse);
    if centered <= most {
        assert(shows(widths, first, tab, available));
    } else {
        assert(rest_fits(widths, first, available));
        lemma_cells_split(widths, first, tab);
    }
    lemma_slot_of_tab(widths, first, tab, left, right);
    let slots = slots_from(widths, first, left, right);
    assert(slots[tab - first].index == tab);
}

/// Scrolled as far as it goes, the strip shows the last tab, and every tab that
/// is left is drawn in full unless it is the only one.
pub proof fn lemma_last_tabs_are_drawn(
    widths: Seq<u16>,
    focused: Option<int>,
    content: Rect,
    mouse: bool,
    scroll: int,
    reveal: bool,
    tab: int,
)
    requires
        content.ends_on_screen(),
        forall|i: int| 0 <= i < widths.len() ==> widths[i] > 0,
        overflows(widths, content, mouse),
        strip_cells(widths, content, mouse) > 0,
        ({
            let strip = strip_layout(widths, focused, content, mouse, scroll, reveal);
            strip.scroll == strip.max_scroll && strip.max_scroll <= tab < widths.len()
        }),
    ensures
        ({
            let strip = strip_layout(widths, focused, content, mouse, scroll, reveal);
            &&& is_drawn(strip.slots, tab)
            &&& strip.max_scroll < widths.len() - 1 ==> is_drawn_in_full(
                strip.slots,
                tab,
                widths[tab],
            )
        }),
{
    let available = strip_cells(widths, content, mouse);
    let left = strip_left(widths, content, mouse);
    let right = strip_right(widths, content, mouse);
    let first = max_scroll(widths, available);
    lemma_max_scroll(widths, available);
    lemma_strip_columns(widths, content, mouse);
    if first == widths.len() - 1 {
        assert(widths.subrange(first, first) =~= Seq::<u16>::empty());
    } else {
        assert(rest_fits(widths, first, available));
        lemma_cells_split(widths, first, tab);
    }
    lemma_slot_of_tab(widths, first, tab, left, right);
    let slots = slots_from(widths, first, left, right);
    assert(slots[tab - first].index == tab);
}

/// The strip is never scrolled beyond its last place, but for a focused tab to
/// reveal that is not there, and it then stays where it is until the tabs change.
pub proof fn lemma_scroll_settles(
    widths: Seq<u16>,
    focused: Option<int>,
    content: Rect,
    mouse: bool,
    scroll: int,
    reveal: bool,
)
    requires
        0 <= scroll,
        reveal ==> focused is Some,
        focused matches Some(f) ==> 0 <= f < widths.len(),
    ensures
        ({
            let strip = strip_layout(widths, focused, content, mouse, scroll, reveal);
            let again = strip_layout(widths, focused, content, mouse, strip.scroll, false);
            &&& 0 <= strip.scroll <= strip.max_scroll
            &&& again.scroll == strip.scroll
            &&& again == strip
        }),
{
    let available = strip_cells(widths, content, mouse);
    lemma_max_scroll(widths, available);
    if let Some(f) = focused {
        lemma_centered_scroll(widths, f, available);
    }
}

/// Every drawn tab is one of the tabs.
pub proof fn lemma_strip_indexes(
    widths: Seq<u16>,
    focused: Option<int>,
    content: Rect,
    mouse: bool,
    scroll: int,
    reveal: bool,
)
    requires
        0 <= scroll,
        focused matches Some(f) ==> 0 <= f < widths.len(),
    ensures
        ({
            let strip = strip_layout(widths, focused, content, mouse, scroll, reveal);
            &&& 0 <= strip.scroll
            &&& forall|k: int|
                0 <= k < strip.slots.len() ==> (#[trigger] strip.slots[k]).index == strip.scroll + k
                    && strip.slots[k].index < widths.len()
        }),
{
    let available = strip_cells(widths, content, mouse);
    let first = settled_scroll(widths, focused, content, mouse, scroll, reveal);
    let left = strip_left(widths, content, mouse);
    let right = strip_right(widths, content, mouse);
    lemma_max_scroll(widths, available);
    if let Some(f) = focused {
        lemma_centered_scroll(widths, f, available);
    }
    lemma_slots_in_order(widths, first, left, right);
}

/// Buttons and tabs stand side by side in the row and do not overlap: the left
/// button, the tabs, the right button, and the button that opens a tab.
pub proof fn lemma_strip_parts_are_apart(
    widths: Seq<u16>,
    focused: Option<int>,
    content: Rect,
    mouse: bool,
    scroll: int,
    reveal: bool,
)
    requires
        content.ends_on_screen(),
        0 <= scroll,
        focused matches Some(f) ==> 0 <= f < widths.len(),
    ensures
        ({
            let strip = strip_layout(widths, focused, content, mouse, scroll, reveal);
            &&& forall|k: int|
                0 <= k < strip.slots.len() ==> content.x <= (#[trigger] strip.slots[k]).x
                    && strip.slots[k].x + strip.slots[k].width <= content.end()
            &&& strip.buttons matches Some((back, on)) ==> {
                &&& back.x == content.x
                &&& forall|k: int|
                    0 <= k < strip.slots.len() ==> back.end() <= (#[trigger] strip.slots[k]).x
                        && strip.slots[k].x + strip.slots[k].width <= on.x
                &&& back.end() <= on.x
                &&& on.end() == strip.new_tab->0.x
            }
            &&& strip.new_tab matches Some(open) ==> {
                &&& content.x <= open.x
                &&& open.end() <= content.end()
                &&& forall|k: int|
                    0 <= k < strip.slots.len() ==> (#[trigger] strip.slots[k]).x
                        + strip.slots[k].width <= open.x
            }
        }),
{
    let available = strip_cells(widths, content, mouse);
    let first = settled_scroll(widths, focused, content, mouse, scroll, reveal);
    let left = strip_left(widths, content, mouse);
    let right = strip_right(widths, content, mouse);
    lemma_max_scroll(widths, available);
    if let Some(f) = focused {
        lemma_centered_scroll(widths, f, available);
    }
    lemma_slots_in_order(widths, first, left, right);
    lemma_slots_before_last(widths, first, left, right);
}

proof fn lemma_slots_before_last(widths: Seq<u16>, index: int, x: u16, right: u16)
    requires
        0 <= index,
    ensures
        ({
            let slots = slots_from(widths, index, x, right);
            forall|k: int|
                0 <= k < slots.len() ==> (#[trigger] slots[k]).x + slots[k].width
                    <= slots.last().x + slots.last().width
        }),
    decreases widths.len() - index,
{
    if index < widths.len() {
        let width = min16(widths[index], diff16(right as int, x as int));
        if 0 < width && width == widths[index] {
            let next = sum16(x as int, width + 1);
            let rest = slots_from(widths, index + 1, next, right);
            let slots = slots_from(widths, index, x, right);
            lemma_slots_before_last(widths, index + 1, next, right);
            lemma_slots_in_order(widths, index + 1, next, right);
            assert forall|k: int| 0 <= k < slots.len() implies (#[trigger] slots[k]).x
                + slots[k].width <= slots.last().x + slots.last().width by {
                if rest.len() > 0 {
                    assert(slots.last() == rest.last());
                    if k > 0 {
                        assert(slots[k] == rest[k - 1]);
                    }
                    assert(rest.last().x >= next);
                }
            }
        }
    }
}

} // verus!
