//! What holds of every tab row.

use vstd::prelude::*;

use crate::model::{ClientShellSnapshot, ClientShellTab, HitsView};
use crate::rect::Rect;
use crate::row::{centered_name, hits_after, row_strip, slot_hits, slot_rect, snapshot_strip};
use crate::scroll::{lemma_centered_scroll, lemma_max_scroll, run_cells};
use crate::status::{
    content_area, left_area, left_cells, lemma_row_parts_are_apart, right_area, right_cells,
};
use crate::strip::{
    new_tab_cells, overflows, settled_scroll, strip_cells, strip_left, strip_right, SlotView,
};
use crate::strip_laws::{
    lemma_fitting_tabs_are_drawn, lemma_revealed_tab_is_drawn, lemma_scroll_settles,
    lemma_slots_in_order, lemma_strip_indexes, lemma_strip_parts_are_apart,
};
use crate::tabs::{
    asked_widths, at_place, drop_column, first_set, focused_place, is_first_set, name_cells,
    place_of, row_hits, row_tabs, visible_tabs, with_id,
};

verus! {

proof fn lemma_focused_place(tabs: Seq<ClientShellTab>)
    ensures
        focused_place(tabs) matches Some(f) ==> 0 <= f < tabs.len() && tabs[f].focused,
{
    let flags = tabs.map_values(|tab: ClientShellTab| tab.focused);
    if exists|i: int| is_first_set(flags, i) {
        let i = choose|i: int| is_first_set(flags, i);
        assert(is_first_set(flags, i));
    }
}

/// A row that is drawn again, with the same tabs and in the same place, stays as
/// it is: revealing a tab or limiting the scroll place is done once. (Without a
/// focused tab there is nothing to reveal, and the place is not limited.)
pub proof fn lemma_redrawn_row_stays(
    area: Rect,
    snapshot: ClientShellSnapshot,
    mouse: bool,
    scroll: int,
    reveal: bool,
)
    requires
        0 <= scroll,
        reveal ==> focused_place(row_tabs(snapshot)) is Some,
    ensures
        ({
            let strip = snapshot_strip(area, snapshot, mouse, scroll, reveal);
            snapshot_strip(area, snapshot, mouse, strip.scroll, false) == strip
        }),
{
    let tabs = row_tabs(snapshot);
    let content = content_area(left_cells(snapshot), right_cells(snapshot), area);
    lemma_focused_place(tabs);
    lemma_scroll_settles(
        asked_widths(name_cells(tabs)),
        focused_place(tabs),
        content,
        mouse,
        scroll,
        reveal,
    );
}

/// Whether the mouse can hit a tab with the given identifier in one of the hits
/// from `first` on.
pub open spec fn has_hit_from(hits: HitsView, first: int, id: Seq<char>) -> bool {
    exists|k: int|
        first <= k < hits.tabs.len() && (#[trigger] hits.tabs[k]).1 == id && hits.tabs[k].0.width
            > 0
}

/// Revealing the focused tab draws it, whether the row is scrolled or all of its
/// tabs fit, as long as the statuses leave the tabs a cell: among the hits that
/// are added, one with at least one cell is that tab.
pub proof fn lemma_revealed_tab_has_a_hit(
    area: Rect,
    snapshot: ClientShellSnapshot,
    mouse: bool,
    scroll: int,
    hits: HitsView,
)
    requires
        area.ends_on_screen(),
        focused_place(row_tabs(snapshot)) is Some,
        ({
            let content = content_area(left_cells(snapshot), right_cells(snapshot), area);
            let widths = asked_widths(name_cells(row_tabs(snapshot)));
            &&& content.width > 0
            &&& overflows(widths, content, mouse) || run_cells(widths) + new_tab_cells(mouse)
                <= content.width
        }),
    ensures
        ({
            let tabs = row_tabs(snapshot);
            let strip = snapshot_strip(area, snapshot, mouse, scroll, true);
            has_hit_from(
                hits_after(hits, strip, tabs, area.y),
                hits.tabs.len() as int,
                tabs[focused_place(tabs)->0].tab_id@,
            )
        }),
{
    let tabs = row_tabs(snapshot);
    let widths = asked_widths(name_cells(tabs));
    let content = content_area(left_cells(snapshot), right_cells(snapshot), area);
    let strip = snapshot_strip(area, snapshot, mouse, scroll, true);
    let focused = focused_place(tabs)->0;
    lemma_focused_place(tabs);
    lemma_row_parts_are_apart(left_cells(snapshot), right_cells(snapshot), area);
    if overflows(widths, content, mouse) {
        lemma_revealed_tab_is_drawn(widths, focused, content, mouse, scroll);
    } else {
        lemma_fitting_tabs_are_drawn(
            widths,
            Some(focused),
            content,
            mouse,
            scroll,
            true,
            focused,
        );
    }
    let k = choose|k: int| 0 <= k < strip.slots.len() && (#[trigger] strip.slots[k]).index == focused;
    lemma_max_scroll(widths, strip_cells(widths, content, mouse));
    lemma_centered_scroll(widths, focused, strip_cells(widths, content, mouse));
    lemma_slots_in_order(
        widths,
        settled_scroll(widths, Some(focused), content, mouse, scroll, true),
        strip_left(widths, content, mouse),
        strip_right(widths, content, mouse),
    );
    let after = hits_after(hits, strip, tabs, area.y);
    assert(after.tabs[hits.tabs.len() + k] == slot_hits(strip.slots, tabs, area.y)[k]);
    assert(strip.slots[k].width > 0);
}

/// Whether the columns of a rectangle end before those of another one begin.
pub open spec fn is_left_of(a: Rect, b: Rect) -> bool {
    a.end() <= b.x
}

/// Whether the columns of a rectangle stand between the two statuses, as far as
/// these are shown.
pub open spec fn is_between(left: Option<Rect>, part: Rect, right: Option<Rect>) -> bool {
    &&& left matches Some(left) ==> is_left_of(left, part)
    &&& right matches Some(right) ==> is_left_of(part, right)
}

/// The statuses do not overlap with the tabs or their buttons: the left status is
/// to the left of every one of them, and the right one to the right, whether or
/// not any tab is drawn.
pub proof fn lemma_statuses_are_beside_the_tabs(
    area: Rect,
    snapshot: ClientShellSnapshot,
    mouse: bool,
    scroll: int,
    reveal: bool,
)
    requires
        area.ends_on_screen(),
        0 <= scroll,
    ensures
        ({
            let strip = snapshot_strip(area, snapshot, mouse, scroll, reveal);
            let left = left_area(left_cells(snapshot), right_cells(snapshot), area);
            let right = right_area(right_cells(snapshot), area);
            &&& forall|k: int|
                0 <= k < strip.slots.len() ==> is_between(
                    left,
                    slot_rect(#[trigger] strip.slots[k], area.y),
                    right,
                )
            &&& strip.buttons matches Some((back, on)) ==> is_between(left, back, right)
                && is_between(left, on, right)
            &&& strip.new_tab matches Some(button) ==> is_between(left, button, right)
        }),
{
    let tabs = row_tabs(snapshot);
    let content = content_area(left_cells(snapshot), right_cells(snapshot), area);
    lemma_focused_place(tabs);
    lemma_row_parts_are_apart(left_cells(snapshot), right_cells(snapshot), area);
    lemma_strip_parts_are_apart(
        asked_widths(name_cells(tabs)),
        focused_place(tabs),
        content,
        mouse,
        scroll,
        reveal,
    );
}

/// A name stands in the middle of its tab: the cells that it leaves are filled
/// with spaces, as many on the right as on the left or one more.
pub proof fn lemma_name_is_centered(name: Seq<char>, name_width: u16, width: u16)
    requires
        name_width <= width,
    ensures
        ({
            let text = centered_name(name, name_width, width);
            let left = (width - name_width) / 2;
            let right = width - name_width - left;
            &&& left <= right <= left + 1
            &&& text.len() == left + name.len() + right
            &&& text.subrange(left, left + name.len()) == name
            &&& forall|i: int| 0 <= i < left ==> text[i] == ' '
            &&& forall|i: int| left + name.len() <= i < text.len() ==> text[i] == ' '
        }),
{
    let text = centered_name(name, name_width, width);
    let left = (width - name_width) / 2;
    assert(text.subrange(left, left + name.len()) =~= name);
}

/// Whether no two tabs have the same identifier.
pub open spec fn has_distinct_ids(tabs: Seq<ClientShellTab>) -> bool {
    forall|i: int, j: int|
        0 <= i < tabs.len() && 0 <= j < tabs.len() && (#[trigger] tabs[i]).tab_id@ == (
        #[trigger] tabs[j]).tab_id@ ==> i == j
}

proof fn lemma_place_of_tab(tabs: Seq<ClientShellTab>, i: int)
    requires
        has_distinct_ids(tabs),
        0 <= i < tabs.len(),
    ensures
        place_of(tabs, tabs[i].tab_id@) == Some(i),
{
    let id = tabs[i].tab_id@;
    let flags = with_id(tabs, id);
    assert forall|j: int| 0 <= j < i implies !flags[j] by {
        assert(tabs[j].tab_id@ != id);
    }
    assert(is_first_set(flags, i));
}

proof fn lemma_all_hits_are_kept(hits: Seq<(Rect, Seq<char>)>, tabs: Seq<ClientShellTab>)
    requires
        forall|k: int| 0 <= k < hits.len() ==> place_of(tabs, (#[trigger] hits[k]).1) is Some,
    ensures
        row_hits(hits, tabs) == hits,
    decreases hits.len(),
{
    reveal(Seq::filter);
    if hits.len() > 0 {
        let fewer = hits.drop_last();
        assert forall|k: int| 0 <= k < fewer.len() implies place_of(
            tabs,
            (#[trigger] fewer[k]).1,
        ) is Some by {
            assert(fewer[k] == hits[k]);
        }
        lemma_all_hits_are_kept(fewer, tabs);
        assert(place_of(tabs, hits[hits.len() - 1].1) is Some);
        assert(row_hits(hits, tabs) =~= hits);
    } else {
        assert(row_hits(hits, tabs) =~= hits);
    }
}

proof fn lemma_visible_slots(slots: Seq<SlotView>, tabs: Seq<ClientShellTab>, y: u16)
    requires
        has_distinct_ids(tabs),
        forall|k: int| 0 <= k < slots.len() ==> 0 <= (#[trigger] slots[k]).index < tabs.len(),
    ensures
        visible_tabs(slot_hits(slots, tabs, y), tabs).len() == slots.len(),
        forall|k: int|
            0 <= k < slots.len() ==> #[trigger] visible_tabs(slot_hits(slots, tabs, y), tabs)[k] == (
                slots[k].index,
                slot_rect(slots[k], y),
            ),
{
    let hits = slot_hits(slots, tabs, y);
    assert forall|k: int| 0 <= k < hits.len() implies place_of(tabs, (#[trigger] hits[k]).1)
        == Some(slots[k].index) by {
        lemma_place_of_tab(tabs, slots[k].index);
    }
    lemma_all_hits_are_kept(hits, tabs);
}

/// The mark of a dragged tab stands where the tab would go: in the free cell
/// before the tab now at that place, at the start of the first tab, or right
/// after the last one.
#[verifier::spinoff_prover]
#[verifier::rlimit(40)]
pub proof fn lemma_drop_mark_stands_where_the_tab_goes(
    tabs: Seq<ClientShellTab>,
    name_widths: Seq<u16>,
    content: Rect,
    mouse: bool,
    scroll: int,
    reveal: bool,
    hits: HitsView,
    k: int,
)
    requires
        has_distinct_ids(tabs),
        name_widths.len() == tabs.len(),
        0 <= scroll,
        hits.tabs.len() == 0,
        0 <= k < row_strip(tabs, name_widths, content, mouse, scroll, reveal).slots.len(),
    ensures
        ({
            let strip = row_strip(tabs, name_widths, content, mouse, scroll, reveal);
            let after = hits_after(hits, strip, tabs, content.y);
            let count = tabs.len() as int;
            let column = |insert: int|
                drop_column(
                    visible_tabs(after.tabs, tabs),
                    count,
                    after.tab_scroll_left,
                    after.tab_scroll_right,
                    insert,
                );
            let slot = strip.slots[k];
            &&& k > 0 ==> column(slot.index) == Some(
                (strip.slots[k - 1].x + strip.slots[k - 1].width) as u16,
            )
            &&& slot.index == 0 ==> column(0) == Some(slot.x)
            &&& slot.index == count - 1 ==> column(count) == Some((slot.x + slot.width) as u16)
        }),
{
    let widths = asked_widths(name_widths);
    let focused = focused_place(tabs);
    let strip = row_strip(tabs, name_widths, content, mouse, scroll, reveal);
    let slots = strip.slots;
    let after = hits_after(hits, strip, tabs, content.y);
    let visible = visible_tabs(after.tabs, tabs);
    lemma_focused_place(tabs);
    lemma_strip_indexes(widths, focused, content, mouse, scroll, reveal);
    lemma_slots_in_order(
        widths,
        settled_scroll(widths, focused, content, mouse, scroll, reveal),
        strip_left(widths, content, mouse),
        strip_right(widths, content, mouse),
    );
    assert(after.tabs =~= slot_hits(slots, tabs, content.y));
    lemma_visible_slots(slots, tabs, content.y);
    let index = slots[k].index;
    let flags = at_place(visible, index);
    assert forall|j: int| 0 <= j < k implies !flags[j] by {
        assert(visible[j].0 == slots[j].index);
    }
    assert(visible[k].0 == index);
    assert(is_first_set(flags, k));
    if k > 0 {
        assert(slots[k].x == slots[k - 1].x + slots[k - 1].width + 1);
    }
    if index == tabs.len() - 1 {
        let count = tabs.len() as int;
        let after_last = at_place(visible, count);
        assert forall|j: int| 0 <= j < visible.len() implies !after_last[j] by {
            assert(visible[j].0 == slots[j].index);
        }
        assert(first_set(after_last) is None);
        assert(k == slots.len() - 1);
    }
}

} // verus!
