//! What the layout of the tab strip is for: which tabs are drawn, and where.

use vstd::prelude::*;

use crate::model::{MIN_TAB_STRIP_WIDTH, MIN_TAB_WIDTH, NEW_TAB_WIDTH, TAB_SCROLL_BUTTON_WIDTH};
use crate::rect::{diff16, min16, sum16, Rect};
use crate::scroll::{
    cells_before, centered_scroll, is_centered_scroll, lemma_centered_scroll, lemma_max_scroll,
    lemma_total_step, max_scroll, off_center, rest_fits, shows,
};
use crate::scroll_laws::{apart, cells_sum, lemma_cells_of_a_run, lemma_lead_is_not_negative};
use crate::strip::{
    overflows, settled_scroll, slots_from, strip_cells, strip_in_range, strip_layout, strip_left,
    strip_right, SlotView, StripView, TabStrip,
};
use crate::strip_laws::{
    lemma_cells_split, lemma_revealed_tab_is_drawn, lemma_slots_in_order,
    lemma_slots_use_the_strip, lemma_strip_columns,
};

verus! {

/// The first column after a row, at most the largest coordinate.
pub open spec fn row_end(content: Rect) -> int {
    if content.x + content.width <= u16::MAX {
        content.x + content.width
    } else {
        u16::MAX as int
    }
}

/// The height of what takes one line from `y` on: below the last line there is none.
pub open spec fn line_height(y: u16) -> int {
    if y < u16::MAX {
        1
    } else {
        0
    }
}

/// Whether the tabs, the free cells between them and the button for a new one take
/// more cells than the row has. With the mouse, a row without room for a tab and
/// all buttons is left as it is.
pub open spec fn needs_scrolling(widths: Seq<u16>, content: Rect, mouse: bool) -> bool {
    let gaps = if widths.len() > 0 {
        widths.len() - 1
    } else {
        0
    };
    let button = if mouse {
        NEW_TAB_WIDTH as int
    } else {
        0
    };
    &&& content.width < u16::MAX
    &&& cells_sum(widths) + gaps + button > content.width
    &&& mouse ==> content.width >= MIN_TAB_STRIP_WIDTH
}

/// The cells of the row that are left to the tabs.
pub open spec fn cells_for_tabs(widths: Seq<u16>, content: Rect, mouse: bool) -> int {
    let buttons = if !mouse {
        0
    } else if needs_scrolling(widths, content, mouse) {
        NEW_TAB_WIDTH + TAB_SCROLL_BUTTON_WIDTH + TAB_SCROLL_BUTTON_WIDTH
    } else {
        NEW_TAB_WIDTH as int
    };
    if buttons <= content.width {
        content.width - buttons
    } else {
        0
    }
}

/// Tabs are scrolled where they do not fit, and only there. With the mouse there
/// are then two buttons to do so, and always one to open a tab.
pub proof fn lemma_tabs_scroll_where_they_do_not_fit(
    widths: Seq<u16>,
    focused: Option<int>,
    content: Rect,
    mouse: bool,
    scroll: int,
    reveal: bool,
)
    ensures
        ({
            let strip = strip_layout(widths, focused, content, mouse, scroll, reveal);
            let scrolls = needs_scrolling(widths, content, mouse);
            &&& overflows(widths, content, mouse) == scrolls
            &&& strip_cells(widths, content, mouse) == cells_for_tabs(widths, content, mouse)
            &&& strip.max_scroll == max_scroll(
                widths,
                cells_for_tabs(widths, content, mouse) as u16,
            )
            &&& strip.buttons is Some <==> scrolls && mouse
            &&& strip.new_tab is Some <==> mouse
            &&& !scrolls ==> strip.scroll == 0
        }),
{
    lemma_cells_of_a_run(widths);
}

/// A row that is scrolled has room for its buttons and at least one tab of the
/// fewest cells.
pub proof fn lemma_scrolled_row_has_room_for_a_tab(widths: Seq<u16>, content: Rect)
    requires
        needs_scrolling(widths, content, true),
    ensures
        cells_for_tabs(widths, content, true) >= MIN_TAB_WIDTH,
        cells_for_tabs(widths, content, true) + NEW_TAB_WIDTH + TAB_SCROLL_BUTTON_WIDTH
            + TAB_SCROLL_BUTTON_WIDTH == content.width,
{
}

/// A focused tab that is to be revealed is brought to the place that centers it
/// best, or to the last place where that one is beyond it.
pub proof fn lemma_revealed_place_is_the_centering_one(
    widths: Seq<u16>,
    tab: int,
    content: Rect,
    mouse: bool,
    scroll: int,
)
    requires
        0 <= tab < widths.len(),
        needs_scrolling(widths, content, mouse),
    ensures
        ({
            let strip = strip_layout(widths, Some(tab), content, mouse, scroll, true);
            let available = cells_for_tabs(widths, content, mouse) as u16;
            ||| is_centered_scroll(widths, tab, available, strip.scroll) && strip.scroll
                <= strip.max_scroll
            ||| strip.scroll == strip.max_scroll && forall|start: int| #[trigger]
                is_centered_scroll(widths, tab, available, start) ==> start > strip.max_scroll
        }),
{
    let available = strip_cells(widths, content, mouse);
    lemma_tabs_scroll_where_they_do_not_fit(widths, Some(tab), content, mouse, scroll, true);
    lemma_centered_scroll(widths, tab, available);
}

/// A row that is scrolled stays where the user scrolled it, up to the last place.
/// With a focused tab to reveal, where it was scrolled before is of no account.
/// Without one, it stays.
pub proof fn lemma_scroll_place_is_kept_within_its_limit(
    widths: Seq<u16>,
    focused: Option<int>,
    content: Rect,
    mouse: bool,
    scroll: int,
    earlier: int,
)
    requires
        needs_scrolling(widths, content, mouse),
    ensures
        ({
            let strip = strip_layout(widths, focused, content, mouse, scroll, false);
            let revealed = strip_layout(widths, focused, content, mouse, scroll, true);
            let available = cells_for_tabs(widths, content, mouse) as u16;
            &&& strip.max_scroll == max_scroll(widths, available)
            &&& revealed.max_scroll == strip.max_scroll
            &&& scroll <= strip.max_scroll ==> strip.scroll == scroll
            &&& scroll >= strip.max_scroll ==> strip.scroll == strip.max_scroll
            &&& focused is None ==> revealed.scroll == scroll
            &&& focused is Some ==> revealed == strip_layout(
                widths,
                focused,
                content,
                mouse,
                earlier,
                true,
            )
        }),
{
    lemma_tabs_scroll_where_they_do_not_fit(widths, focused, content, mouse, scroll, false);
    lemma_tabs_scroll_where_they_do_not_fit(widths, focused, content, mouse, scroll, true);
}

/// The scroll buttons stand at the start of the row and near its end, each as
/// wide as it should be, and the button for a new tab takes the last cells. All of
/// them are in the line of the row.
pub proof fn lemma_buttons_stand_at_the_ends(
    widths: Seq<u16>,
    focused: Option<int>,
    content: Rect,
    mouse: bool,
    scroll: int,
    reveal: bool,
)
    ensures
        strip_layout(widths, focused, content, mouse, scroll, reveal).buttons matches Some(
            (back, on),
        ) ==> {
            let open = strip_layout(widths, focused, content, mouse, scroll, reveal).new_tab->0;
            &&& back.x == content.x
            &&& back.x + back.width == if content.x + TAB_SCROLL_BUTTON_WIDTH <= u16::MAX {
                content.x + TAB_SCROLL_BUTTON_WIDTH
            } else {
                u16::MAX as int
            }
            &&& on.width == TAB_SCROLL_BUTTON_WIDTH
            &&& on.x + on.width == open.x
            &&& open.width == NEW_TAB_WIDTH
            &&& open.x + open.width == row_end(content)
            &&& back.y == content.y && on.y == content.y && open.y == content.y
            &&& back.height == line_height(content.y)
            &&& on.height == line_height(content.y)
            &&& open.height == line_height(content.y)
        },
{
    lemma_tabs_scroll_where_they_do_not_fit(widths, focused, content, mouse, scroll, reveal);
}

/// The first column after the drawn tabs and a free cell, or the start of the row
/// where no tab is drawn.
pub open spec fn after_slots(slots: Seq<SlotView>, content: Rect) -> int {
    if slots.len() == 0 {
        content.x as int
    } else {
        slots.last().x + slots.last().width + 1
    }
}

/// In a row that is not scrolled, the button for a new tab follows the last tab
/// after a free cell. It is cut where the row ends.
pub proof fn lemma_new_tab_button_follows_the_tabs(
    widths: Seq<u16>,
    focused: Option<int>,
    content: Rect,
    scroll: int,
    reveal: bool,
)
    requires
        !needs_scrolling(widths, content, true),
    ensures
        ({
            let strip = strip_layout(widths, focused, content, true, scroll, reveal);
            let open = strip.new_tab->0;
            let from = after_slots(strip.slots, content);
            &&& from <= row_end(content) ==> open.x == from
            &&& from >= row_end(content) ==> open.x == row_end(content) && open.width == 0
            &&& open.x + NEW_TAB_WIDTH <= row_end(content) ==> open.width == NEW_TAB_WIDTH
            &&& open.x + NEW_TAB_WIDTH >= row_end(content) ==> open.x + open.width == row_end(
                content,
            )
            &&& open.y == content.y
            &&& open.height == line_height(content.y)
        }),
{
    lemma_tabs_scroll_where_they_do_not_fit(widths, focused, content, true, scroll, reveal);
}

/// The first column for tabs: after the left button, or at the start of the row.
pub open spec fn first_column(strip: StripView, content: Rect) -> int {
    match strip.buttons {
        Some((back, _)) => back.x + back.width,
        None => content.x as int,
    }
}

/// The first column after those for tabs: at the right button, or before the cells
/// for the button that opens a tab.
pub open spec fn last_column(strip: StripView, content: Rect, mouse: bool) -> int {
    match strip.buttons {
        Some((_, on)) => on.x as int,
        None => if !mouse {
            row_end(content)
        } else if row_end(content) >= NEW_TAB_WIDTH {
            row_end(content) - NEW_TAB_WIDTH
        } else {
            0
        },
    }
}

proof fn lemma_slots_and_columns(widths: Seq<u16>, index: int, x: u16, right: u16)
    requires
        0 <= index,
    ensures
        ({
            let slots = slots_from(widths, index, x, right);
            forall|k: int|
                0 <= k < slots.len() ==> {
                    &&& (#[trigger] slots[k]).width == min16(
                        widths[index + k],
                        (right - slots[k].x) as u16,
                    )
                    &&& slots[k].x == x + cells_before(widths, index, index + k)
                }
        }),
    decreases widths.len() - index,
{
    let slots = slots_from(widths, index, x, right);
    lemma_slots_in_order(widths, index, x, right);
    if index < widths.len() {
        assert(widths.subrange(index, index) =~= Seq::<u16>::empty());
        let width = min16(widths[index], diff16(right as int, x as int));
        if 0 < width && width == widths[index] {
            let next = sum16(x as int, width + 1);
            let rest = slots_from(widths, index + 1, next, right);
            lemma_slots_and_columns(widths, index + 1, next, right);
            lemma_slots_in_order(widths, index + 1, next, right);
            assert forall|k: int| 0 <= k < slots.len() implies {
                &&& (#[trigger] slots[k]).width == min16(
                    widths[index + k],
                    (right - slots[k].x) as u16,
                )
                &&& slots[k].x == x + cells_before(widths, index, index + k)
            } by {
                if k > 0 {
                    assert(slots[k] == rest[k - 1]);
                    lemma_total_step(widths, index, index + k);
                    assert(slots[1].x == slots[0].x + slots[0].width + 1);
                    assert(slots[1] == rest[0]);
                }
            }
        }
    }
}

/// The drawn tabs are those from the scroll place on, side by side from the first
/// column on with one free cell between neighbors. Each has all the cells that it
/// asks for, or those that are left, and no tab is left out while there are any.
pub proof fn lemma_tabs_are_drawn_side_by_side(
    widths: Seq<u16>,
    focused: Option<int>,
    content: Rect,
    mouse: bool,
    scroll: int,
    reveal: bool,
)
    requires
        0 <= scroll,
        focused matches Some(f) ==> 0 <= f < widths.len(),
    ensures
        ({
            let strip = strip_layout(widths, focused, content, mouse, scroll, reveal);
            let slots = strip.slots;
            let first = first_column(strip, content);
            let last = last_column(strip, content, mouse);
            let next = strip.scroll + slots.len();
            &&& 0 <= strip.scroll
            &&& slots.len() > 0 ==> slots[0].x == first
            &&& forall|k: int|
                0 <= k < slots.len() ==> {
                    &&& (#[trigger] slots[k]).index == strip.scroll + k
                    &&& slots[k].index < widths.len()
                    &&& 0 < slots[k].width <= widths[slots[k].index]
                    &&& slots[k].x + slots[k].width <= last
                    &&& slots[k].width < widths[slots[k].index] ==> slots[k].x + slots[k].width
                        == last
                }
            &&& forall|k: int, n: int|
                0 <= k && n == k + 1 && n < slots.len() ==> (#[trigger] slots[n]).x == (
                #[trigger] slots[k]).x + slots[k].width + 1
            &&& next < widths.len() && widths[next] > 0 ==> if slots.len() == 0 {
                first >= last
            } else {
                slots.last().x + slots.last().width + 1 >= last
            }
        }),
{
    let first = settled_scroll(widths, focused, content, mouse, scroll, reveal);
    let left = strip_left(widths, content, mouse);
    let right = strip_right(widths, content, mouse);
    let available = strip_cells(widths, content, mouse);
    lemma_tabs_scroll_where_they_do_not_fit(widths, focused, content, mouse, scroll, reveal);
    lemma_max_scroll(widths, available);
    if let Some(f) = focused {
        lemma_centered_scroll(widths, f, available);
    }
    lemma_slots_in_order(widths, first, left, right);
    lemma_slots_and_columns(widths, first, left, right);
    lemma_slots_use_the_strip(widths, first, left, right);
}

/// As long as the row is not scrolled to its last place, the last tab is not drawn
/// in full.
pub proof fn lemma_before_the_last_place_a_tab_is_hidden(
    widths: Seq<u16>,
    focused: Option<int>,
    content: Rect,
    mouse: bool,
    scroll: int,
    k: int,
)
    requires
        content.ends_on_screen(),
        needs_scrolling(widths, content, mouse),
        0 <= scroll,
        ({
            let strip = strip_layout(widths, focused, content, mouse, scroll, false);
            &&& scroll < strip.max_scroll
            &&& 0 <= k < strip.slots.len()
            &&& strip.slots[k].index == widths.len() - 1
        }),
    ensures
        ({
            let strip = strip_layout(widths, focused, content, mouse, scroll, false);
            strip.slots[k].width < widths[widths.len() - 1]
        }),
{
    let left = strip_left(widths, content, mouse);
    let right = strip_right(widths, content, mouse);
    let available = strip_cells(widths, content, mouse);
    lemma_tabs_scroll_where_they_do_not_fit(widths, focused, content, mouse, scroll, false);
    lemma_max_scroll(widths, available);
    lemma_slots_in_order(widths, scroll, left, right);
    lemma_slots_and_columns(widths, scroll, left, right);
    lemma_strip_columns(widths, content, mouse);
    assert(!rest_fits(widths, scroll, available));
    lemma_cells_split(widths, scroll, widths.len() - 1);
}

/// Twice the middle of a drawn tab, counted from the first column for tabs and as
/// far as a coordinate goes.
pub open spec fn slot_middle(slot: SlotView, first: int) -> int {
    let middle = 2 * (slot.x - first) + slot.width;
    if middle <= u16::MAX {
        middle
    } else {
        u16::MAX as int
    }
}

proof fn lemma_cells_before_shrink(widths: Seq<u16>, start: int, later: int, focused: int)
    requires
        0 <= start <= later <= focused < widths.len(),
    ensures
        cells_before(widths, start, focused) >= cells_before(widths, later, focused),
        start < later ==> cells_before(widths, start, focused) > cells_before(
            widths,
            later,
            focused,
        ),
    decreases later - start,
{
    if start < later {
        lemma_total_step(widths, start, focused);
        lemma_cells_before_shrink(widths, start + 1, later, focused);
    }
}

/// The earlier of the place that centers the focused tab and the last place is the
/// best one up to the last place.
proof fn lemma_nearest_up_to_the_last_place(
    widths: Seq<u16>,
    tab: int,
    available: u16,
    start: int,
    place: int,
)
    requires
        0 <= tab < widths.len(),
        ({
            let most = max_scroll(widths, available);
            let centered = centered_scroll(widths, tab, available);
            &&& start == if centered <= most {
                centered
            } else {
                most
            }
            &&& place <= most
        }),
        shows(widths, place, tab, available),
        shows(widths, start, tab, available),
    ensures
        ({
            let here = off_center(widths, start, tab, available);
            let there = off_center(widths, place, tab, available);
            here < there || here == there && place <= start
        }),
{
    let centered = centered_scroll(widths, tab, available);
    lemma_lead_is_not_negative(widths, start, tab);
    lemma_centered_scroll(widths, tab, available);
    if start < centered {
        lemma_cells_before_shrink(widths, start, centered, tab);
        lemma_cells_before_shrink(widths, place, start, tab);
        lemma_lead_is_not_negative(widths, place, tab);
        lemma_lead_is_not_negative(widths, centered, tab);
    }
}

/// How far a drawn tab is from the middle of the strip.
proof fn lemma_slot_off_center(
    widths: Seq<u16>,
    tab: int,
    left: u16,
    right: u16,
    start: int,
    k: int,
)
    requires
        0 <= start,
        left <= right,
        0 <= k < slots_from(widths, start, left, right).len(),
        slots_from(widths, start, left, right)[k].index == tab,
    ensures
        ({
            let slot = slots_from(widths, start, left, right)[k];
            let available = (right - left) as u16;
            &&& shows(widths, start, tab, available)
            &&& apart(slot_middle(slot, left as int), right - left) == off_center(
                widths,
                start,
                tab,
                available,
            )
        }),
{
    lemma_slots_in_order(widths, start, left, right);
    lemma_slots_and_columns(widths, start, left, right);
    lemma_lead_is_not_negative(widths, start, tab);
}

/// Revealing the focused tab brings it to the middle of the strip: at no place to
/// which the user could scroll instead is the middle of what is drawn of it nearer
/// to the middle of the columns for tabs. Of places that do equally well, it is
/// the last.
#[verifier::spinoff_prover]
pub proof fn lemma_revealed_tab_stands_nearest_the_middle(
    widths: Seq<u16>,
    tab: int,
    content: Rect,
    mouse: bool,
    scroll: int,
    place: int,
    k: int,
    n: int,
)
    requires
        content.ends_on_screen(),
        forall|i: int| 0 <= i < widths.len() ==> widths[i] > 0,
        0 <= tab < widths.len(),
        needs_scrolling(widths, content, mouse),
        0 <= place <= strip_layout(widths, Some(tab), content, mouse, place, false).max_scroll,
        ({
            let revealed = strip_layout(widths, Some(tab), content, mouse, scroll, true);
            0 <= k < revealed.slots.len() && revealed.slots[k].index == tab
        }),
        ({
            let scrolled = strip_layout(widths, Some(tab), content, mouse, place, false);
            0 <= n < scrolled.slots.len() && scrolled.slots[n].index == tab
        }),
    ensures
        ({
            let revealed = strip_layout(widths, Some(tab), content, mouse, scroll, true);
            let scrolled = strip_layout(widths, Some(tab), content, mouse, place, false);
            let first = first_column(revealed, content);
            let room = last_column(revealed, content, mouse) - first;
            let here = apart(slot_middle(revealed.slots[k], first), room);
            let there = apart(slot_middle(scrolled.slots[n], first), room);
            here < there || here == there && place <= revealed.scroll
        }),
{
    let left = strip_left(widths, content, mouse);
    let right = strip_right(widths, content, mouse);
    let available = strip_cells(widths, content, mouse);
    let start = settled_scroll(widths, Some(tab), content, mouse, scroll, true);
    lemma_tabs_scroll_where_they_do_not_fit(widths, Some(tab), content, mouse, scroll, true);
    lemma_tabs_scroll_where_they_do_not_fit(widths, Some(tab), content, mouse, place, false);
    lemma_max_scroll(widths, available);
    lemma_centered_scroll(widths, tab, available);
    lemma_slots_in_order(widths, start, left, right);
    lemma_strip_columns(widths, content, mouse);
    assert(left < right);
    assert(right - left == available);
    lemma_slot_off_center(widths, tab, left, right, start, k);
    lemma_slot_off_center(widths, tab, left, right, place, n);
    lemma_nearest_up_to_the_last_place(widths, tab, available, start, place);
}

/// In a strip that is scrolled, has a cell for tabs and has a focused tab to
/// reveal, the focused tab is drawn, and no place after it comes first.
pub proof fn lemma_revealed_tab_is_shown(
    widths: Seq<u16>,
    tab: int,
    content: Rect,
    mouse: bool,
    scroll: int,
)
    requires
        content.ends_on_screen(),
        content.width > 0,
        forall|i: int| 0 <= i < widths.len() ==> widths[i] > 0,
        0 <= tab < widths.len(),
        needs_scrolling(widths, content, mouse),
    ensures
        ({
            let strip = strip_layout(widths, Some(tab), content, mouse, scroll, true);
            &&& 0 <= strip.scroll <= tab
            &&& strip.scroll <= strip.max_scroll
            &&& tab - strip.scroll < strip.slots.len()
            &&& strip.slots[tab - strip.scroll].index == tab
        }),
{
    let available = strip_cells(widths, content, mouse);
    lemma_tabs_scroll_where_they_do_not_fit(widths, Some(tab), content, mouse, scroll, true);
    lemma_max_scroll(widths, available);
    lemma_centered_scroll(widths, tab, available);
    lemma_revealed_tab_is_drawn(widths, tab, content, mouse, scroll);
    let start = settled_scroll(widths, Some(tab), content, mouse, scroll, true);
    lemma_slots_in_order(
        widths,
        start,
        strip_left(widths, content, mouse),
        strip_right(widths, content, mouse),
    );
}

/// Tabs can be laid out unless one is as wide as the largest coordinate, and then
/// only where its width and a free cell are added: before a focused tab that is to
/// be revealed by scrolling, or where it is the first one drawn and in full.
pub proof fn lemma_only_the_widest_tabs_are_out_of_range(
    widths: Seq<u16>,
    focused: Option<int>,
    content: Rect,
    mouse: bool,
    scroll: int,
    reveal: bool,
)
    requires
        0 <= scroll,
        focused matches Some(f) ==> 0 <= f < widths.len(),
    ensures
        ({
            let strip = strip_layout(widths, focused, content, mouse, scroll, reveal);
            let before = reveal && needs_scrolling(widths, content, mouse) && focused is Some
                && exists|i: int| 0 <= i < focused->0 && widths[i] == u16::MAX;
            let drawn = strip.slots.len() > 0 && strip.slots[0].width == u16::MAX;
            strip_in_range(widths, focused, content, mouse, scroll, reveal) <==> !before && !drawn
        }),
{
    lemma_tabs_scroll_where_they_do_not_fit(widths, focused, content, mouse, scroll, reveal);
    lemma_tabs_are_drawn_side_by_side(widths, focused, content, mouse, scroll, reveal);
    let first = settled_scroll(widths, focused, content, mouse, scroll, reveal);
    lemma_slots_and_columns(
        widths,
        first,
        strip_left(widths, content, mouse),
        strip_right(widths, content, mouse),
    );
}

/// A strip stands for its own fields.
pub proof fn lemma_strip_stands_for_its_fields(strip: TabStrip)
    ensures
        strip@.scroll == strip.scroll,
        strip@.max_scroll == strip.max_scroll,
        strip@.buttons == strip.buttons,
        strip@.new_tab == strip.new_tab,
        strip@.slots.len() == strip.slots@.len(),
        forall|k: int|
            0 <= k < strip.slots@.len() ==> (#[trigger] strip@.slots[k]).index
                == strip.slots@[k].index && strip@.slots[k].x == strip.slots@[k].x
                && strip@.slots[k].width == strip.slots@[k].width,
{
}

} // verus!
