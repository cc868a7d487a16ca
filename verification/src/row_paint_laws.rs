//! What is painted for a tab row, and what the mouse can hit in it.

use vstd::prelude::*;

use crate::layout_laws::{
    lemma_buttons_stand_at_the_ends, lemma_tabs_are_drawn_side_by_side, line_height, row_end,
};
use crate::model::{ClientShellSnapshot, ClientShellTab, HitsView, Palette};
use crate::paint::{PaintView, Style};
use crate::rect::Rect;
use crate::row::{
    centered_name, drop_mark, hits_after, left_mark, marks_paint, new_tab_paint, parts_paint,
    right_mark, row_in_range, row_paint, row_strip, scroll_button_paint, slot_paint, slots_paint,
    snapshot_in_range, snapshot_strip, strip_paint, tab_style,
};
use crate::row_laws::{has_distinct_ids, lemma_drop_mark_stands_where_the_tab_goes};
use crate::status::{content_area, left_area, left_cells, right_area, right_cells};
use crate::status_paint::{row_bg, status_paint};
use crate::strip::{strip_in_range, strip_layout, StripView};
use crate::tabs::{
    asked_widths, drop_column, focused_place, name_cells, row_tabs, shown_name, visible_tabs,
};
use crate::tabs_laws::lemma_first_focused_tab;
use crate::text::cells;

verus! {

/// The focused tab stands out in the colors that are set for it, or else in the
/// accent color. It is bold if its label is custom or the theme says so.
pub proof fn lemma_style_of_the_focused_tab(tab: ClientShellTab, palette: Palette)
    requires
        tab.focused,
    ensures
        ({
            let style = tab_style(tab, palette);
            &&& palette.tab_active_fg is Some ==> style.fg == palette.tab_active_fg
            &&& palette.tab_active_fg is None ==> style.fg == Some(palette.panel_contrast_fg)
            &&& palette.tab_active_bg is Some ==> style.bg == palette.tab_active_bg
            &&& palette.tab_active_bg is None ==> style.bg == Some(palette.accent)
            &&& style.bold <==> tab.custom_label || palette.tab_active_bold
        }),
{
}

/// Other tabs are never bold. They have the foreground that is set for them, or
/// else one that tells custom labels from others.
pub proof fn lemma_style_of_other_tabs(tab: ClientShellTab, palette: Palette)
    requires
        !tab.focused,
    ensures
        ({
            let style = tab_style(tab, palette);
            &&& palette.tab_inactive_fg is Some ==> style.fg == palette.tab_inactive_fg
            &&& palette.tab_inactive_fg is None && tab.custom_label ==> style.fg == Some(
                palette.overlay1,
            )
            &&& palette.tab_inactive_fg is None && !tab.custom_label ==> style.fg == Some(
                palette.overlay0,
            )
            &&& style.bg == Some(palette.surface0)
            &&& !style.bold
        }),
{
}

/// Only whether it is focused and whether its label is custom matters for the
/// style of a tab.
pub proof fn lemma_style_depends_on_focus_and_label(
    tab: ClientShellTab,
    other: ClientShellTab,
    palette: Palette,
)
    requires
        tab.focused == other.focused,
        tab.custom_label == other.custom_label,
    ensures
        tab_style(tab, palette) == tab_style(other, palette),
{
}

/// A name without room beside it is left as it is.
pub proof fn lemma_long_names_are_kept(name: Seq<char>, name_width: u16, width: u16)
    requires
        name_width >= width,
    ensures
        centered_name(name, name_width, width) == name,
{
    assert(centered_name(name, name_width, width) =~= name);
}

/// Hits that are there stay, and every drawn tab is added with its cells and its
/// identifier. Buttons that are drawn take the places of the old ones, and those
/// that are not drawn leave them.
pub proof fn lemma_drawn_tabs_can_be_hit(
    hits: HitsView,
    strip: StripView,
    tabs: Seq<ClientShellTab>,
    y: u16,
)
    ensures
        ({
            let after = hits_after(hits, strip, tabs, y);
            let old = hits.tabs.len() as int;
            &&& after.tabs.len() == old + strip.slots.len()
            &&& forall|i: int| 0 <= i < old ==> #[trigger] after.tabs[i] == hits.tabs[i]
            &&& forall|k: int|
                0 <= k < strip.slots.len() ==> {
                    let slot = #[trigger] strip.slots[k];
                    let hit = after.tabs[old + k];
                    &&& hit.1 == tabs[slot.index].tab_id@
                    &&& hit.0.x == slot.x
                    &&& slot.x + slot.width <= u16::MAX ==> hit.0.width == slot.width
                    &&& slot.x + slot.width > u16::MAX ==> slot.x + hit.0.width == u16::MAX
                    &&& hit.0.y == y
                    &&& hit.0.height == line_height(y)
                }
            &&& strip.buttons matches Some((back, on)) ==> after.tab_scroll_left == back
                && after.tab_scroll_right == on
            &&& strip.buttons is None ==> after.tab_scroll_left == hits.tab_scroll_left
                && after.tab_scroll_right == hits.tab_scroll_right
            &&& strip.new_tab matches Some(open) ==> after.new_tab == open
            &&& strip.new_tab is None ==> after.new_tab == hits.new_tab
        }),
{
}

/// A row is laid out by the cells that its tabs ask for and by its focused tab,
/// and by nothing else of its tabs.
pub proof fn lemma_row_is_laid_out_by_widths_and_focus(
    tabs: Seq<ClientShellTab>,
    others: Seq<ClientShellTab>,
    name_widths: Seq<u16>,
    content: Rect,
    mouse: bool,
    scroll: int,
    reveal: bool,
)
    requires
        tabs.len() == others.len(),
        forall|i: int| 0 <= i < tabs.len() ==> (#[trigger] tabs[i]).focused == others[i].focused,
    ensures
        row_strip(tabs, name_widths, content, mouse, scroll, reveal) == row_strip(
            others,
            name_widths,
            content,
            mouse,
            scroll,
            reveal,
        ),
        row_strip(tabs, name_widths, content, mouse, scroll, reveal) == strip_layout(
            asked_widths(name_widths),
            focused_place(others),
            content,
            mouse,
            scroll,
            reveal,
        ),
        row_in_range(tabs, name_widths, content, mouse, scroll, reveal) == strip_in_range(
            asked_widths(name_widths),
            focused_place(others),
            content,
            mouse,
            scroll,
            reveal,
        ),
{
    lemma_first_focused_tab(tabs);
    lemma_first_focused_tab(others);
    if let Some(first) = focused_place(tabs) {
        assert(others[first].focused);
    }
    if let Some(first) = focused_place(others) {
        assert(tabs[first].focused);
    }
    if focused_place(tabs) is Some {
        let a = focused_place(tabs)->0;
        let b = focused_place(others)->0;
        assert(tabs[a].focused == others[a].focused);
        assert(tabs[b].focused == others[b].focused);
    }
}

/// The row of a snapshot is laid out for the tabs of the focused workspace, with
/// the cells that their names ask for, between the statuses.
pub proof fn lemma_row_is_laid_out_for_its_tabs(
    area: Rect,
    snapshot: ClientShellSnapshot,
    mouse: bool,
    scroll: int,
    reveal: bool,
    name_widths: Seq<u16>,
    content: Rect,
)
    requires
        name_widths.len() == row_tabs(snapshot).len(),
        forall|i: int|
            0 <= i < name_widths.len() ==> #[trigger] name_widths[i] == cells(
                shown_name(row_tabs(snapshot)[i]),
            ),
        content == content_area(left_cells(snapshot), right_cells(snapshot), area),
    ensures
        ({
            let tabs = row_tabs(snapshot);
            let widths = asked_widths(name_widths);
            let focused = focused_place(tabs);
            &&& snapshot_strip(area, snapshot, mouse, scroll, reveal) == strip_layout(
                widths,
                focused,
                content,
                mouse,
                scroll,
                reveal,
            )
            &&& row_strip(tabs, name_widths, content, mouse, scroll, reveal) == snapshot_strip(
                area,
                snapshot,
                mouse,
                scroll,
                reveal,
            )
            &&& snapshot_in_range(area, snapshot, mouse, scroll, reveal) == strip_in_range(
                widths,
                focused,
                content,
                mouse,
                scroll,
                reveal,
            )
            &&& row_in_range(tabs, name_widths, content, mouse, scroll, reveal)
                == snapshot_in_range(area, snapshot, mouse, scroll, reveal)
        }),
{
    assert(name_cells(row_tabs(snapshot)) =~= name_widths);
}

/// The number of steps before those of the tabs: the background, and the left
/// button if it is drawn.
pub open spec fn steps_before_tabs(strip: StripView) -> int {
    if strip.buttons is Some {
        2
    } else {
        1
    }
}

/// The number of steps before the marks: the background, the buttons, and the tabs.
pub open spec fn steps_before_marks(strip: StripView) -> int {
    let buttons: int = if strip.buttons is Some {
        2
    } else {
        0
    };
    let open: int = if strip.new_tab is Some {
        1
    } else {
        0
    };
    1 + buttons + strip.slots.len() + open
}

/// One if tabs are hidden to the left of the drawn ones, else none.
pub open spec fn hidden_left(strip: StripView) -> int {
    if strip.slots.len() > 0 && strip.slots[0].index > 0 {
        1
    } else {
        0
    }
}

/// One if tabs are hidden to the right of the drawn ones, else none.
pub open spec fn hidden_right(strip: StripView, count: int) -> int {
    if strip.slots.len() > 0 && strip.slots[strip.slots.len() - 1].index < count - 1 {
        1
    } else {
        0
    }
}

/// The column where a dragged tab would be dropped, if a place shows it.
pub open spec fn drag_column(
    insert: Option<int>,
    hits: HitsView,
    tabs: Seq<ClientShellTab>,
) -> Option<u16> {
    if insert is Some {
        drop_column(
            visible_tabs(hits.tabs, tabs),
            tabs.len() as int,
            hits.tab_scroll_left,
            hits.tab_scroll_right,
            insert->0,
        )
    } else {
        None
    }
}

/// One if a place shows where a dragged tab would be dropped, else none.
pub open spec fn dragged(insert: Option<int>, hits: HitsView, tabs: Seq<ClientShellTab>) -> int {
    if drag_column(insert, hits, tabs) is Some {
        1
    } else {
        0
    }
}

proof fn lemma_row_in_pieces(
    area: Rect,
    snapshot: ClientShellSnapshot,
    strip: StripView,
    hits: HitsView,
    insert: Option<int>,
    palette: Palette,
)
    ensures
        ({
            let tabs = row_tabs(snapshot);
            let content = content_area(left_cells(snapshot), right_cells(snapshot), area);
            let paint = row_paint(area, snapshot, strip, hits, insert, palette);
            let parts = parts_paint(strip, tabs, name_cells(tabs), content.y, palette);
            let left = left_mark(strip, hits, content, palette);
            let right = right_mark(strip, hits, content, tabs.len() as int, palette);
            let mark = drop_mark(insert, hits, tabs, content, palette);
            let marks = steps_before_marks(strip);
            &&& content.y == area.y
            &&& parts.len() == marks - 1
            &&& left.len() == hidden_left(strip)
            &&& right.len() == hidden_right(strip, tabs.len() as int)
            &&& mark.len() == dragged(insert, hits, tabs)
            &&& paint.len() >= marks + left.len() + right.len() + mark.len()
            &&& forall|i: int| 0 <= i < parts.len() ==> paint[i + 1] == #[trigger] parts[i]
            &&& left.len() > 0 ==> paint[marks] == left[0]
            &&& right.len() > 0 ==> paint[marks + left.len()] == right[0]
            &&& mark.len() > 0 ==> paint[marks + left.len() + right.len()] == mark[0]
        }),
{
    let tabs = row_tabs(snapshot);
    let content = content_area(left_cells(snapshot), right_cells(snapshot), area);
    let strip_steps = strip_paint(strip, hits, tabs, name_cells(tabs), content, insert, palette);
    let paint = row_paint(area, snapshot, strip, hits, insert, palette);
    let parts = parts_paint(strip, tabs, name_cells(tabs), content.y, palette);
    let marks = marks_paint(strip, hits, tabs, content, insert, palette);
    assert(slots_paint(strip.slots, tabs, name_cells(tabs), content.y, palette).len()
        == strip.slots.len());
    assert(forall|i: int|
        0 <= i < strip_steps.len() ==> paint[i + 1] == #[trigger] strip_steps[i]);
    assert forall|i: int| 0 <= i < parts.len() implies paint[i + 1] == #[trigger] parts[i] by {
        assert(strip_steps[i] == parts[i]);
    }
    assert forall|i: int| 0 <= i < marks.len() implies paint[parts.len() + i + 1]
        == #[trigger] marks[i] by {
        assert(strip_steps[parts.len() + i] == marks[i]);
    }
    let left = left_mark(strip, hits, content, palette);
    let right = right_mark(strip, hits, content, tabs.len() as int, palette);
    let mark = drop_mark(insert, hits, tabs, content, palette);
    if left.len() > 0 {
        assert(marks[0] == left[0]);
    }
    if right.len() > 0 {
        assert(marks[left.len() as int] == right[0]);
    }
    if mark.len() > 0 {
        assert(marks[(left.len() + right.len()) as int] == mark[0]);
    }
}

/// A row is painted on its background, which is laid over the whole of it before
/// anything else.
pub proof fn lemma_background_is_painted_first(
    area: Rect,
    snapshot: ClientShellSnapshot,
    strip: StripView,
    hits: HitsView,
    insert: Option<int>,
    palette: Palette,
)
    ensures
        ({
            let paint = row_paint(area, snapshot, strip, hits, insert, palette);
            &&& paint.len() > 0
            &&& paint[0] == (PaintView::Fill {
                area,
                style: Style { fg: None, bg: Some(row_bg(palette)), bold: false },
            })
        }),
{
}

/// Every drawn tab is painted over its cells, in its style, with its name in the
/// middle.
pub proof fn lemma_drawn_tabs_are_painted(
    area: Rect,
    snapshot: ClientShellSnapshot,
    strip: StripView,
    hits: HitsView,
    insert: Option<int>,
    palette: Palette,
    k: int,
)
    requires
        0 <= k < strip.slots.len(),
        0 <= strip.slots[k].index < row_tabs(snapshot).len(),
        strip.slots[k].x + strip.slots[k].width <= u16::MAX,
    ensures
        ({
            let slot = strip.slots[k];
            let tab = row_tabs(snapshot)[slot.index];
            let name = shown_name(tab);
            row_paint(area, snapshot, strip, hits, insert, palette)[steps_before_tabs(strip) + k]
                == (PaintView::Text {
                x: slot.x,
                y: area.y,
                width: slot.width,
                text: centered_name(name, cells(name), slot.width),
                style: tab_style(tab, palette),
            })
        }),
{
    let tabs = row_tabs(snapshot);
    let content = content_area(left_cells(snapshot), right_cells(snapshot), area);
    let parts = parts_paint(strip, tabs, name_cells(tabs), content.y, palette);
    lemma_row_in_pieces(area, snapshot, strip, hits, insert, palette);
    let at = steps_before_tabs(strip) + k - 1;
    assert(parts[at] == slot_paint(strip.slots[k], tabs, name_cells(tabs), content.y, palette));
}

/// The scroll buttons are painted around the tabs. Each stands out exactly where it
/// has an effect: the left one unless the first tab is drawn first, the right one
/// unless the tabs are scrolled to their last place.
pub proof fn lemma_scroll_buttons_are_painted(
    area: Rect,
    snapshot: ClientShellSnapshot,
    strip: StripView,
    hits: HitsView,
    insert: Option<int>,
    palette: Palette,
)
    requires
        strip.buttons is Some,
    ensures
        strip.buttons matches Some((back, on)) ==> {
            let paint = row_paint(area, snapshot, strip, hits, insert, palette);
            let first = paint[1];
            let second = paint[strip.slots.len() as int + 2];
            &&& first is Text && second is Text
            &&& first->x == back.x && first->y == area.y && first->width == back.width
            &&& second->x == on.x && second->y == area.y && second->width == on.width
            &&& first->text == " < "@ && second->text == " > "@
            &&& strip.scroll > 0 ==> first->Text_style.fg == Some(palette.overlay1)
            &&& strip.scroll <= 0 ==> first->Text_style.fg == Some(palette.overlay0)
            &&& strip.scroll < strip.max_scroll ==> second->Text_style.fg == Some(palette.overlay1)
            &&& strip.scroll >= strip.max_scroll ==> second->Text_style.fg == Some(
                palette.overlay0,
            )
            &&& first->Text_style.bg == Some(palette.surface0) && !first->Text_style.bold
            &&& second->Text_style.bg == Some(palette.surface0) && !second->Text_style.bold
        },
{
    let tabs = row_tabs(snapshot);
    let content = content_area(left_cells(snapshot), right_cells(snapshot), area);
    let parts = parts_paint(strip, tabs, name_cells(tabs), content.y, palette);
    lemma_row_in_pieces(area, snapshot, strip, hits, insert, palette);
    let buttons = strip.buttons->0;
    assert(parts[0] == scroll_button_paint(
        buttons.0,
        content.y,
        " < "@,
        strip.scroll > 0,
        palette,
    ));
    assert(parts[strip.slots.len() as int + 1] == scroll_button_paint(
        buttons.1,
        content.y,
        " > "@,
        strip.scroll < strip.max_scroll,
        palette,
    ));
}

/// The button that opens a tab is painted after the tabs and the scroll buttons, on
/// the background of the row.
pub proof fn lemma_new_tab_button_is_painted(
    area: Rect,
    snapshot: ClientShellSnapshot,
    strip: StripView,
    hits: HitsView,
    insert: Option<int>,
    palette: Palette,
)
    ensures
        strip.new_tab matches Some(open) ==> {
            let paint = row_paint(area, snapshot, strip, hits, insert, palette);
            paint[steps_before_marks(strip) - 1] == (PaintView::Text {
                x: open.x,
                y: area.y,
                width: open.width,
                text: " + "@,
                style: Style { fg: Some(palette.overlay1), bg: Some(row_bg(palette)), bold: false },
            })
        },
{
    let tabs = row_tabs(snapshot);
    let content = content_area(left_cells(snapshot), right_cells(snapshot), area);
    let parts = parts_paint(strip, tabs, name_cells(tabs), content.y, palette);
    lemma_row_in_pieces(area, snapshot, strip, hits, insert, palette);
    if let Some(open) = strip.new_tab {
        assert(parts[parts.len() - 1] == new_tab_paint(open, content.y, palette));
    }
}

/// Whether a step is the mark of hidden tabs at a column. It takes a cell exactly
/// if the column is one of the row.
pub open spec fn is_hidden_mark(
    step: PaintView,
    x: int,
    y: u16,
    in_row: bool,
    palette: Palette,
) -> bool {
    &&& step is Text
    &&& step->x == x
    &&& step->y == y
    &&& step->text == "…"@
    &&& in_row ==> step->width == 1
    &&& !in_row ==> step->width == 0
    &&& step->Text_style.fg == Some(palette.overlay0)
    &&& step->Text_style.bg is None
    &&& !step->Text_style.bold
}

/// Tabs that are hidden are marked on their side, next to the scroll button there
/// or else at the end of the row.
pub proof fn lemma_hidden_tabs_are_marked(
    area: Rect,
    snapshot: ClientShellSnapshot,
    strip: StripView,
    hits: HitsView,
    insert: Option<int>,
    palette: Palette,
)
    ensures
        ({
            let count = row_tabs(snapshot).len() as int;
            let content = content_area(left_cells(snapshot), right_cells(snapshot), area);
            let paint = row_paint(area, snapshot, strip, hits, insert, palette);
            let at = steps_before_marks(strip);
            let back = hits.tab_scroll_left;
            let on = hits.tab_scroll_right;
            let left = if back.width > 0 {
                row_end(back)
            } else {
                content.x as int
            };
            let edge = if on.width > 0 {
                on.x as int
            } else {
                row_end(content)
            };
            let right = if edge > 0 {
                edge - 1
            } else {
                0
            };
            &&& hidden_left(strip) == 1 ==> is_hidden_mark(
                paint[at],
                left,
                area.y,
                left < row_end(content),
                palette,
            )
            &&& hidden_right(strip, count) == 1 ==> is_hidden_mark(
                paint[at + hidden_left(strip)],
                right,
                area.y,
                content.x <= right && right < row_end(content),
                palette,
            )
        }),
{
    lemma_row_in_pieces(area, snapshot, strip, hits, insert, palette);
}

/// Wherever a place shows where a dragged tab would go, one step marks it there in
/// the accent color, in the last column of the row at most.
pub proof fn lemma_dragged_tab_is_marked(
    area: Rect,
    snapshot: ClientShellSnapshot,
    strip: StripView,
    hits: HitsView,
    insert: Option<int>,
    palette: Palette,
)
    ensures
        drag_column(insert, hits, row_tabs(snapshot)) matches Some(column) ==> {
            let count = row_tabs(snapshot).len() as int;
            let content = content_area(left_cells(snapshot), right_cells(snapshot), area);
            let paint = row_paint(area, snapshot, strip, hits, insert, palette);
            let at = steps_before_marks(strip) + hidden_left(strip) + hidden_right(strip, count);
            let step = paint[at];
            let last = if row_end(content) > 0 {
                row_end(content) - 1
            } else {
                0
            };
            &&& at < paint.len()
            &&& step is Text
            &&& column <= last ==> step->x == column
            &&& column >= last ==> step->x == last
            &&& step->y == area.y
            &&& step->width == 1
            &&& step->text == "│"@
            &&& step->Text_style.fg == Some(palette.accent)
            &&& step->Text_style.bg is None
            &&& !step->Text_style.bold
        },
{
    lemma_row_in_pieces(area, snapshot, strip, hits, insert, palette);
}

/// The steps of a row are its background, buttons, tabs and marks, then those of
/// the left status, and then those of the right one. There are no others.
pub proof fn lemma_statuses_are_painted_last(
    area: Rect,
    snapshot: ClientShellSnapshot,
    strip: StripView,
    hits: HitsView,
    insert: Option<int>,
    palette: Palette,
)
    ensures
        ({
            let tabs = row_tabs(snapshot);
            let paint = row_paint(area, snapshot, strip, hits, insert, palette);
            let left = status_paint(
                left_area(left_cells(snapshot), right_cells(snapshot), area),
                snapshot.tab_bar_left@,
                snapshot.tab_bar_left_separator@,
                palette,
            );
            let right = status_paint(
                right_area(right_cells(snapshot), area),
                snapshot.tab_bar_right@,
                snapshot.tab_bar_right_separator@,
                palette,
            );
            let at = steps_before_marks(strip) + hidden_left(strip) + hidden_right(
                strip,
                tabs.len() as int,
            ) + dragged(insert, hits, tabs);
            &&& paint.len() == at + left.len() + right.len()
            &&& paint.subrange(at, at + left.len()) == left
            &&& paint.skip(at + left.len()) == right
        }),
{
    lemma_row_in_pieces(area, snapshot, strip, hits, insert, palette);
    let tabs = row_tabs(snapshot);
    let content = content_area(left_cells(snapshot), right_cells(snapshot), area);
    let paint = row_paint(area, snapshot, strip, hits, insert, palette);
    let left = status_paint(
        left_area(left_cells(snapshot), right_cells(snapshot), area),
        snapshot.tab_bar_left@,
        snapshot.tab_bar_left_separator@,
        palette,
    );
    let right = status_paint(
        right_area(right_cells(snapshot), area),
        snapshot.tab_bar_right@,
        snapshot.tab_bar_right_separator@,
        palette,
    );
    let strip_steps = strip_paint(strip, hits, tabs, name_cells(tabs), content, insert, palette);
    let at = steps_before_marks(strip) + hidden_left(strip) + hidden_right(
        strip,
        tabs.len() as int,
    ) + dragged(insert, hits, tabs);
    assert(strip_steps.len() + 1 == at);
    assert(paint.subrange(at, at + left.len()) =~= left);
    assert(paint.skip(at + left.len()) =~= right);
}

/// Whether the steps of a row mark a dragged tab at a column, or in the last
/// column of the row if that is beyond it.
pub open spec fn marks_drag_at(
    paint: Seq<PaintView>,
    column: int,
    content: Rect,
    palette: Palette,
) -> bool {
    let x = if column < row_end(content) {
        column
    } else {
        row_end(content) - 1
    };
    exists|i: int|
        0 <= i < paint.len() && (#[trigger] paint[i]) is Text && paint[i]->x == x && paint[i]->y
            == content.y && paint[i]->width == 1 && paint[i]->text == "│"@
            && paint[i]->Text_style.fg == Some(palette.accent)
}

proof fn lemma_column_is_marked(
    area: Rect,
    snapshot: ClientShellSnapshot,
    strip: StripView,
    hits: HitsView,
    insert: int,
    palette: Palette,
    column: u16,
)
    requires
        drag_column(Some(insert), hits, row_tabs(snapshot)) == Some(column),
        row_end(content_area(left_cells(snapshot), right_cells(snapshot), area)) > 0,
    ensures
        marks_drag_at(
            row_paint(area, snapshot, strip, hits, Some(insert), palette),
            column as int,
            content_area(left_cells(snapshot), right_cells(snapshot), area),
            palette,
        ),
{
    lemma_dragged_tab_is_marked(area, snapshot, strip, hits, Some(insert), palette);
    let paint = row_paint(area, snapshot, strip, hits, Some(insert), palette);
    let at = steps_before_marks(strip) + hidden_left(strip) + hidden_right(
        strip,
        row_tabs(snapshot).len() as int,
    );
    assert(paint[at] is Text);
}

/// A tab that is dragged to a place is marked where it would go: in the free cell
/// before the drawn tab that is there now, at the start of the first tab, and right
/// after the last tab where it is dragged behind all of them.
pub proof fn lemma_drags_are_marked_where_the_tab_goes(
    area: Rect,
    snapshot: ClientShellSnapshot,
    mouse: bool,
    scroll: int,
    reveal: bool,
    hits: HitsView,
    palette: Palette,
    k: int,
)
    requires
        has_distinct_ids(row_tabs(snapshot)),
        0 <= scroll,
        hits.tabs.len() == 0,
        0 <= k < snapshot_strip(area, snapshot, mouse, scroll, reveal).slots.len(),
    ensures
        ({
            let tabs = row_tabs(snapshot);
            let content = content_area(left_cells(snapshot), right_cells(snapshot), area);
            let strip = snapshot_strip(area, snapshot, mouse, scroll, reveal);
            let after = hits_after(hits, strip, tabs, area.y);
            let paint = |insert: int|
                row_paint(area, snapshot, strip, after, Some(insert), palette);
            let slot = strip.slots[k];
            let count = tabs.len() as int;
            &&& k > 0 ==> marks_drag_at(
                paint(slot.index),
                strip.slots[k - 1].x + strip.slots[k - 1].width,
                content,
                palette,
            )
            &&& slot.index == 0 ==> marks_drag_at(paint(0), slot.x as int, content, palette)
            &&& slot.index == count - 1 ==> marks_drag_at(
                paint(count),
                slot.x + slot.width,
                content,
                palette,
            )
        }),
{
    let tabs = row_tabs(snapshot);
    let content = content_area(left_cells(snapshot), right_cells(snapshot), area);
    let strip = snapshot_strip(area, snapshot, mouse, scroll, reveal);
    let after = hits_after(hits, strip, tabs, area.y);
    let slot = strip.slots[k];
    let count = tabs.len() as int;
    lemma_drop_mark_stands_where_the_tab_goes(
        tabs,
        name_cells(tabs),
        content,
        mouse,
        scroll,
        reveal,
        hits,
        k,
    );
    lemma_first_focused_tab(tabs);
    lemma_tabs_are_drawn_side_by_side(
        asked_widths(name_cells(tabs)),
        focused_place(tabs),
        content,
        mouse,
        scroll,
        reveal,
    );
    lemma_buttons_stand_at_the_ends(
        asked_widths(name_cells(tabs)),
        focused_place(tabs),
        content,
        mouse,
        scroll,
        reveal,
    );
    assert(0 < slot.x + slot.width <= row_end(content));
    if k > 0 {
        let before = strip.slots[k - 1];
        assert(before.x + before.width + 1 == slot.x);
        lemma_column_is_marked(
            area,
            snapshot,
            strip,
            after,
            slot.index,
            palette,
            (before.x + before.width) as u16,
        );
    }
    if slot.index == 0 {
        lemma_column_is_marked(area, snapshot, strip, after, 0, palette, slot.x);
    }
    if slot.index == count - 1 {
        lemma_column_is_marked(
            area,
            snapshot,
            strip,
            after,
            count,
            palette,
            (slot.x + slot.width) as u16,
        );
    }
}

} // verus!
