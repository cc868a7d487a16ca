//! The tab row as a whole.

use vstd::prelude::*;

use crate::model::{
    ClientShellConfig, ClientShellSnapshot, ClientShellTab, HitsView, Palette, ShellHitMap,
};
use crate::paint::{Canvas, PaintView, Style};
use crate::rect::{diff16, min16, smaller, Rect};
use crate::status::{
    content_area, left_area, left_cells, right_area, right_cells, tab_bar_content_area,
    tab_bar_status_left_area, tab_bar_status_right_area,
};
use crate::status_paint::{render_tab_bar_status, row_bg, status_paint, tab_bar_bg};
use crate::strip::{
    index_of, strip_in_range, strip_layout, tab_strip_in_range, tab_strip_layout, SlotView,
    StripView, TabSlot, TabStrip,
};
use crate::strip_laws::lemma_strip_indexes;
use crate::tabs::{
    asked_widths, desired_widths, drop_column, focused_place, focused_tab, focused_workspace_tabs,
    name_cells, name_widths, row_tabs, shown_name, tab_drop_indicator_x, tab_label, tab_values,
    visible_tabs,
};
use crate::text::{push_spaces, spaces};

verus! {

/// The style of a tab.
pub open spec fn tab_style(tab: ClientShellTab, palette: Palette) -> Style {
    if tab.focused {
        Style {
            fg: match palette.tab_active_fg {
                Some(color) => Some(color),
                None => Some(palette.panel_contrast_fg),
            },
            bg: match palette.tab_active_bg {
                Some(color) => Some(color),
                None => Some(palette.accent),
            },
            bold: tab.custom_label || palette.tab_active_bold,
        }
    } else {
        Style {
            fg: match palette.tab_inactive_fg {
                Some(color) => Some(color),
                None => Some(
                    if tab.custom_label {
                        palette.overlay1
                    } else {
                        palette.overlay0
                    },
                ),
            },
            bg: Some(palette.surface0),
            bold: false,
        }
    }
}

/// The style of a tab.
pub fn style_of_tab(tab: &ClientShellTab, palette: &Palette) -> (style: Style)
    ensures
        style == tab_style(*tab, *palette),
{
    if tab.focused {
        Style {
            fg: match palette.tab_active_fg {
                Some(color) => Some(color),
                None => Some(palette.panel_contrast_fg),
            },
            bg: match palette.tab_active_bg {
                Some(color) => Some(color),
                None => Some(palette.accent),
            },
            bold: tab.custom_label || palette.tab_active_bold,
        }
    } else {
        let plain = if tab.custom_label {
            palette.overlay1
        } else {
            palette.overlay0
        };
        Style {
            fg: match palette.tab_inactive_fg {
                Some(color) => Some(color),
                None => Some(plain),
            },
            bg: Some(palette.surface0),
            bold: false,
        }
    }
}

/// A name of `name_width` cells in the middle of `width` cells. An odd cell goes
/// to the right.
pub open spec fn centered_name(name: Seq<char>, name_width: u16, width: u16) -> Seq<char> {
    let padding = diff16(width as int, name_width as int) as nat;
    let left = padding / 2;
    spaces(left) + name + spaces((padding - left) as nat)
}

/// A name of `name_width` cells in the middle of `width` cells.
pub fn center_name(name: &str, name_width: u16, width: u16) -> (text: String)
    ensures
        text@ == centered_name(name@, name_width, width),
{
    let padding: u16 = width.saturating_sub(name_width);
    let left: u16 = padding / 2;
    let mut text = String::new();
    push_spaces(&mut text, left);
    text.append(name);
    push_spaces(&mut text, padding - left);
    assert(text@ =~= centered_name(name@, name_width, width));
    text
}

/// The cells of a drawn tab.
pub open spec fn slot_rect(slot: SlotView, y: u16) -> Rect {
    Rect::cut(slot.x, y, slot.width, 1)
}

/// What is painted for a drawn tab.
pub open spec fn slot_paint(
    slot: SlotView,
    tabs: Seq<ClientShellTab>,
    name_widths: Seq<u16>,
    y: u16,
    palette: Palette,
) -> PaintView {
    let rect = slot_rect(slot, y);
    let tab = tabs[slot.index];
    PaintView::Text {
        x: rect.x,
        y: rect.y,
        width: rect.width,
        text: centered_name(shown_name(tab), name_widths[slot.index], slot.width),
        style: tab_style(tab, palette),
    }
}

/// What is painted for the drawn tabs.
pub open spec fn slots_paint(
    slots: Seq<SlotView>,
    tabs: Seq<ClientShellTab>,
    name_widths: Seq<u16>,
    y: u16,
    palette: Palette,
) -> Seq<PaintView> {
    slots.map_values(|slot: SlotView| slot_paint(slot, tabs, name_widths, y, palette))
}

/// The hits of the drawn tabs.
pub open spec fn slot_hits(
    slots: Seq<SlotView>,
    tabs: Seq<ClientShellTab>,
    y: u16,
) -> Seq<(Rect, Seq<char>)> {
    slots.map_values(|slot: SlotView| (slot_rect(slot, y), tabs[slot.index].tab_id@))
}

/// The hit map after a strip is drawn: its tabs are added, and the buttons that
/// are drawn take the places of the old ones.
pub open spec fn hits_after(
    hits: HitsView,
    strip: StripView,
    tabs: Seq<ClientShellTab>,
    y: u16,
) -> HitsView {
    HitsView {
        tabs: hits.tabs + slot_hits(strip.slots, tabs, y),
        tab_scroll_left: match strip.buttons {
            Some((left, _)) => left,
            None => hits.tab_scroll_left,
        },
        tab_scroll_right: match strip.buttons {
            Some((_, right)) => right,
            None => hits.tab_scroll_right,
        },
        new_tab: match strip.new_tab {
            Some(button) => button,
            None => hits.new_tab,
        },
    }
}

/// What is painted for a scroll button. It stands out where it has an effect.
pub open spec fn scroll_button_paint(
    button: Rect,
    y: u16,
    text: Seq<char>,
    active: bool,
    palette: Palette,
) -> PaintView {
    PaintView::Text {
        x: button.x,
        y,
        width: button.width,
        text,
        style: Style {
            fg: Some(
                if active {
                    palette.overlay1
                } else {
                    palette.overlay0
                },
            ),
            bg: Some(palette.surface0),
            bold: false,
        },
    }
}

/// What is painted for the button that opens a tab.
pub open spec fn new_tab_paint(button: Rect, y: u16, palette: Palette) -> PaintView {
    PaintView::Text {
        x: button.x,
        y,
        width: button.width,
        text: " + "@,
        style: Style { fg: Some(palette.overlay1), bg: Some(row_bg(palette)), bold: false },
    }
}

/// A mark of one cell, or of none where it does not stand in the row.
pub open spec fn mark_paint(
    x: u16,
    y: u16,
    shown: bool,
    text: Seq<char>,
    palette: Palette,
) -> PaintView {
    PaintView::Text {
        x,
        y,
        width: if shown {
            1
        } else {
            0
        },
        text,
        style: Style { fg: Some(palette.overlay0), bg: None, bold: false },
    }
}

/// The mark that tabs are hidden to the left, beside the scroll button there.
pub open spec fn left_mark(
    strip: StripView,
    hits: HitsView,
    content: Rect,
    palette: Palette,
) -> Seq<PaintView> {
    let x = if hits.tab_scroll_left.width > 0 {
        hits.tab_scroll_left.end()
    } else {
        content.x
    };
    if strip.slots.len() > 0 && strip.slots.first().index > 0 {
        seq![mark_paint(x, content.y, x < content.end(), "…"@, palette)]
    } else {
        Seq::empty()
    }
}

/// The mark that tabs are hidden to the right, beside the scroll button there.
pub open spec fn right_mark(
    strip: StripView,
    hits: HitsView,
    content: Rect,
    count: int,
    palette: Palette,
) -> Seq<PaintView> {
    let x = if hits.tab_scroll_right.width > 0 {
        diff16(hits.tab_scroll_right.x as int, 1)
    } else {
        diff16(content.end() as int, 1)
    };
    if strip.slots.len() > 0 && strip.slots.last().index + 1 < count {
        seq![mark_paint(x, content.y, content.x <= x < content.end(), "…"@, palette)]
    } else {
        Seq::empty()
    }
}

/// The mark where a dragged tab would be dropped.
pub open spec fn drop_mark(
    insert: Option<int>,
    hits: HitsView,
    tabs: Seq<ClientShellTab>,
    content: Rect,
    palette: Palette,
) -> Seq<PaintView> {
    let column = match insert {
        Some(insert) => drop_column(
            visible_tabs(hits.tabs, tabs),
            tabs.len() as int,
            hits.tab_scroll_left,
            hits.tab_scroll_right,
            insert,
        ),
        None => None,
    };
    match column {
        Some(column) => seq![
            PaintView::Text {
                x: min16(column, diff16(content.end() as int, 1)),
                y: content.y,
                width: 1,
                text: "│"@,
                style: Style { fg: Some(palette.accent), bg: None, bold: false },
            },
        ],
        None => Seq::empty(),
    }
}

/// What is painted for the tabs and their buttons, in this order: the left
/// button, the tabs, the right button, and the button that opens a tab.
pub open spec fn parts_paint(
    strip: StripView,
    tabs: Seq<ClientShellTab>,
    name_widths: Seq<u16>,
    y: u16,
    palette: Palette,
) -> Seq<PaintView> {
    let left = match strip.buttons {
        Some((left, _)) => seq![scroll_button_paint(left, y, " < "@, strip.scroll > 0, palette)],
        None => Seq::empty(),
    };
    let right = match strip.buttons {
        Some((_, right)) => seq![
            scroll_button_paint(right, y, " > "@, strip.scroll < strip.max_scroll, palette),
        ],
        None => Seq::empty(),
    };
    let new_tab = match strip.new_tab {
        Some(button) => seq![new_tab_paint(button, y, palette)],
        None => Seq::empty(),
    };
    left + slots_paint(strip.slots, tabs, name_widths, y, palette) + right + new_tab
}

/// What is painted over the tabs: the marks of hidden tabs, and the mark of a
/// dragged one.
pub open spec fn marks_paint(
    strip: StripView,
    hits: HitsView,
    tabs: Seq<ClientShellTab>,
    content: Rect,
    insert: Option<int>,
    palette: Palette,
) -> Seq<PaintView> {
    left_mark(strip, hits, content, palette) + right_mark(
        strip,
        hits,
        content,
        tabs.len() as int,
        palette,
    ) + drop_mark(insert, hits, tabs, content, palette)
}

/// What is painted for the tabs, their buttons, and their marks.
pub open spec fn strip_paint(
    strip: StripView,
    hits: HitsView,
    tabs: Seq<ClientShellTab>,
    name_widths: Seq<u16>,
    content: Rect,
    insert: Option<int>,
    palette: Palette,
) -> Seq<PaintView> {
    parts_paint(strip, tabs, name_widths, content.y, palette) + marks_paint(
        strip,
        hits,
        tabs,
        content,
        insert,
        palette,
    )
}

/// The strip of a row whose names take `name_widths` cells.
pub open spec fn row_strip(
    tabs: Seq<ClientShellTab>,
    name_widths: Seq<u16>,
    content: Rect,
    mouse: bool,
    scroll: int,
    reveal: bool,
) -> StripView {
    strip_layout(asked_widths(name_widths), focused_place(tabs), content, mouse, scroll, reveal)
}

/// Whether a row whose names take `name_widths` cells can be laid out.
pub open spec fn row_in_range(
    tabs: Seq<ClientShellTab>,
    name_widths: Seq<u16>,
    content: Rect,
    mouse: bool,
    scroll: int,
    reveal: bool,
) -> bool {
    strip_in_range(asked_widths(name_widths), focused_place(tabs), content, mouse, scroll, reveal)
}

fn paint_scroll_button(
    buffer: &mut Canvas,
    button: Rect,
    y: u16,
    text: &str,
    active: bool,
    palette: &Palette,
)
    ensures
        final(buffer)@ == old(buffer)@.push(
            scroll_button_paint(button, y, text@, active, *palette),
        ),
{
    let fg = if active {
        palette.overlay1
    } else {
        palette.overlay0
    };
    buffer.put_text(
        button.x,
        y,
        button.width,
        text,
        Style { fg: Some(fg), bg: Some(palette.surface0), bold: false },
    );
}

fn paint_mark(buffer: &mut Canvas, x: u16, y: u16, shown: bool, text: &str, palette: &Palette)
    ensures
        final(buffer)@ == old(buffer)@.push(mark_paint(x, y, shown, text@, *palette)),
{
    let width: u16 = if shown {
        1
    } else {
        0
    };
    buffer.put_text(
        x,
        y,
        width,
        text,
        Style { fg: Some(palette.overlay0), bg: None, bold: false },
    );
}

fn draw_slots(
    buffer: &mut Canvas,
    slots: &[TabSlot],
    tabs: &[&ClientShellTab],
    name_widths: &[u16],
    y: u16,
    palette: &Palette,
    hits: &mut ShellHitMap,
)
    requires
        name_widths.len() == tabs.len(),
        forall|k: int| 0 <= k < slots.len() ==> (#[trigger] slots@[k]).index < tabs.len(),
    ensures
        final(buffer)@ == old(buffer)@ + slots_paint(
            slots@.map_values(|slot: TabSlot| slot@),
            tab_values(tabs@),
            name_widths@,
            y,
            *palette,
        ),
        final(hits)@ == (HitsView {
            tabs: old(hits)@.tabs + slot_hits(
                slots@.map_values(|slot: TabSlot| slot@),
                tab_values(tabs@),
                y,
            ),
            ..old(hits)@
        }),
{
    let ghost views = slots@.map_values(|slot: TabSlot| slot@);
    let ghost paints = slots_paint(views, tab_values(tabs@), name_widths@, y, *palette);
    let ghost areas = slot_hits(views, tab_values(tabs@), y);
    let ghost painted = buffer@;
    let ghost hit = hits@;
    let mut i: usize = 0;
    assert(painted =~= painted + paints.take(0));
    assert(hit.tabs =~= hit.tabs + areas.take(0));
    while i < slots.len()
        invariant
            i <= slots.len(),
            name_widths.len() == tabs.len(),
            forall|k: int| 0 <= k < slots.len() ==> (#[trigger] slots@[k]).index < tabs.len(),
            views == slots@.map_values(|slot: TabSlot| slot@),
            paints == slots_paint(views, tab_values(tabs@), name_widths@, y, *palette),
            areas == slot_hits(views, tab_values(tabs@), y),
            buffer@ == painted + paints.take(i as int),
            hits@ == (HitsView { tabs: hit.tabs + areas.take(i as int), ..hit }),
        decreases slots.len() - i,
    {
        let slot: TabSlot = slots[i];
        let tab = tabs[slot.index];
        assert(views[i as int] == slot@);
        assert(tab_values(tabs@)[slot.index as int] == *tab);
        let rect = Rect::new(slot.x, y, slot.width, 1);
        let name = tab_label(tab);
        let text = center_name(name.as_str(), name_widths[slot.index], slot.width);
        buffer.put_text(rect.x, rect.y, rect.width, text.as_str(), style_of_tab(tab, palette));
        let ghost old_hits = hits@;
        hits.tabs.push((rect, tab.tab_id.clone()));
        proof {
            assert(hits@.tabs =~= old_hits.tabs.push((rect, tab.tab_id@)));
            assert(painted + paints.take(i + 1) =~= (painted + paints.take(i as int)).push(
                paints[i as int],
            ));
            assert(hit.tabs + areas.take(i + 1) =~= (hit.tabs + areas.take(i as int)).push(
                areas[i as int],
            ));
        }
        i = i + 1;
    }
    assert(paints.take(i as int) =~= paints);
    assert(areas.take(i as int) =~= areas);
}

fn draw_parts(
    buffer: &mut Canvas,
    strip: &TabStrip,
    tabs: &[&ClientShellTab],
    name_widths: &[u16],
    y: u16,
    palette: &Palette,
    hits: &mut ShellHitMap,
)
    requires
        name_widths.len() == tabs.len(),
        forall|k: int|
            0 <= k < strip.slots.len() ==> (#[trigger] strip.slots@[k]).index < tabs.len(),
    ensures
        final(buffer)@ == old(buffer)@ + parts_paint(
            strip@,
            tab_values(tabs@),
            name_widths@,
            y,
            *palette,
        ),
        final(hits)@ == hits_after(old(hits)@, strip@, tab_values(tabs@), y),
{
    let ghost start = buffer@;
    if let Some((left, _)) = strip.buttons {
        hits.tab_scroll_left = left;
        paint_scroll_button(buffer, left, y, " < ", strip.scroll > 0, palette);
    }
    draw_slots(buffer, strip.slots.as_slice(), tabs, name_widths, y, palette, hits);
    if let Some((_, right)) = strip.buttons {
        hits.tab_scroll_right = right;
        paint_scroll_button(
            buffer,
            right,
            y,
            " > ",
            strip.scroll < strip.max_scroll,
            palette,
        );
    }
    if let Some(button) = strip.new_tab {
        hits.new_tab = button;
        buffer.put_text(
            button.x,
            y,
            button.width,
            " + ",
            Style { fg: Some(palette.overlay1), bg: Some(tab_bar_bg(palette)), bold: false },
        );
    }
    assert(buffer@ =~= start + parts_paint(
        strip@,
        tab_values(tabs@),
        name_widths@,
        y,
        *palette,
    ));
}

fn draw_hidden_marks(
    buffer: &mut Canvas,
    strip: &TabStrip,
    count: usize,
    content: Rect,
    palette: &Palette,
    hits: &ShellHitMap,
)
    requires
        forall|k: int| 0 <= k < strip.slots.len() ==> (#[trigger] strip.slots@[k]).index < count,
    ensures
        final(buffer)@ == old(buffer)@ + left_mark(strip@, hits@, content, *palette) + right_mark(
            strip@,
            hits@,
            content,
            count as int,
            *palette,
        ),
{
    let ghost start = buffer@;
    if strip.slots.len() > 0 {
        assert(strip@.slots.first() == strip.slots@[0]@);
        assert(strip@.slots.last() == strip.slots@[strip.slots.len() - 1]@);
    }
    if strip.slots.len() > 0 && strip.slots[0].index > 0 {
        let x: u16 = if hits.tab_scroll_left.width > 0 {
            hits.tab_scroll_left.right()
        } else {
            content.x
        };
        paint_mark(buffer, x, content.y, x < content.right(), "…", palette);
    }
    assert(buffer@ =~= start + left_mark(strip@, hits@, content, *palette));
    let ghost middle = buffer@;
    if strip.slots.len() > 0 && strip.slots[strip.slots.len() - 1].index + 1 < count {
        let x: u16 = if hits.tab_scroll_right.width > 0 {
            hits.tab_scroll_right.x.saturating_sub(1)
        } else {
            content.right().saturating_sub(1)
        };
        paint_mark(buffer, x, content.y, x >= content.x && x < content.right(), "…", palette);
    }
    assert(buffer@ =~= middle + right_mark(strip@, hits@, content, count as int, *palette));
}

fn draw_drop_mark(
    buffer: &mut Canvas,
    insert_index: Option<usize>,
    tabs: &[&ClientShellTab],
    content: Rect,
    palette: &Palette,
    hits: &ShellHitMap,
)
    ensures
        final(buffer)@ == old(buffer)@ + drop_mark(
            index_of(insert_index),
            hits@,
            tab_values(tabs@),
            content,
            *palette,
        ),
{
    let ghost start = buffer@;
    if let Some(insert_index) = insert_index {
        if let Some(column) = tab_drop_indicator_x(hits, tabs, insert_index) {
            buffer.put_text(
                smaller(column, content.right().saturating_sub(1)),
                content.y,
                1,
                "│",
                Style { fg: Some(palette.accent), bg: None, bold: false },
            );
        }
    }
    assert(buffer@ =~= start + drop_mark(
        index_of(insert_index),
        hits@,
        tab_values(tabs@),
        content,
        *palette,
    ));
}

fn strip_of_row(
    tabs: &[&ClientShellTab],
    name_widths: &[u16],
    content: Rect,
    mouse: bool,
    scroll: usize,
    reveal: bool,
) -> (strip: TabStrip)
    requires
        name_widths.len() == tabs.len(),
        row_in_range(tab_values(tabs@), name_widths@, content, mouse, scroll as int, reveal),
    ensures
        strip@ == row_strip(
            tab_values(tabs@),
            name_widths@,
            content,
            mouse,
            scroll as int,
            reveal,
        ),
        forall|k: int|
            0 <= k < strip.slots.len() ==> (#[trigger] strip.slots@[k]).index < tabs.len(),
{
    let widths = desired_widths(name_widths);
    let focused = focused_tab(tabs);
    let strip: TabStrip = tab_strip_layout(
        widths.as_slice(),
        focused,
        content,
        mouse,
        scroll,
        reveal,
    );
    proof {
        lemma_strip_indexes(
            widths@,
            index_of(focused),
            content,
            mouse,
            scroll as int,
            reveal,
        );
        assert forall|k: int| 0 <= k < strip.slots@.len() implies (#[trigger] strip.slots@[k]).index
            < tabs.len() by {
            assert(strip@.slots[k].index == strip.slots@[k].index);
        }
    }
    strip
}

proof fn lemma_joined_strip(
    start: Seq<PaintView>,
    parts: Seq<PaintView>,
    left: Seq<PaintView>,
    right: Seq<PaintView>,
    drop: Seq<PaintView>,
)
    ensures
        start + parts + left + right + drop == start + (parts + (left + right + drop)),
{
    assert(start + parts + left + right + drop =~= start + (parts + (left + right + drop)));
}

proof fn lemma_joined_row(
    start: Seq<PaintView>,
    fill: PaintView,
    strip: Seq<PaintView>,
    left: Seq<PaintView>,
    right: Seq<PaintView>,
)
    ensures
        start.push(fill) + strip + left + right == start + (seq![fill] + strip + left + right),
{
    assert(start.push(fill) + strip + left + right =~= start + (seq![fill] + strip + left + right));
}

/// Draws the tabs, their buttons and their marks in `content`. `name_widths` are
/// the cells that the names of the tabs take.
#[verifier::spinoff_prover]
#[verifier::rlimit(40)]
pub fn draw_tab_strip(
    buffer: &mut Canvas,
    tabs: &[&ClientShellTab],
    name_widths: &[u16],
    content: Rect,
    config: &ClientShellConfig,
    tab_scroll: &mut usize,
    reveal_focused_tab: &mut bool,
    tab_drag_insert_index: Option<usize>,
    hits: &mut ShellHitMap,
)
    requires
        name_widths.len() == tabs.len(),
        row_in_range(
            tab_values(tabs@),
            name_widths@,
            content,
            config.mouse_capture,
            *old(tab_scroll) as int,
            *old(reveal_focused_tab),
        ),
    ensures
        ({
            let strip = row_strip(
                tab_values(tabs@),
                name_widths@,
                content,
                config.mouse_capture,
                *old(tab_scroll) as int,
                *old(reveal_focused_tab),
            );
            &&& *final(tab_scroll) == strip.scroll
            &&& !*final(reveal_focused_tab)
            &&& final(hits)@ == hits_after(old(hits)@, strip, tab_values(tabs@), content.y)
            &&& final(buffer)@ == old(buffer)@ + strip_paint(
                strip,
                final(hits)@,
                tab_values(tabs@),
                name_widths@,
                content,
                index_of(tab_drag_insert_index),
                config.palette,
            )
        }),
{
    let palette = &config.palette;
    let mouse = config.mouse_capture;
    let strip: TabStrip = strip_of_row(
        tabs,
        name_widths,
        content,
        mouse,
        *tab_scroll,
        *reveal_focused_tab,
    );
    let ghost view = strip@;
    let ghost row = tab_values(tabs@);
    *tab_scroll = strip.scroll;
    *reveal_focused_tab = false;
    let ghost start = buffer@;
    draw_parts(buffer, &strip, tabs, name_widths, content.y, palette, hits);
    draw_hidden_marks(buffer, &strip, tabs.len(), content, palette, hits);
    draw_drop_mark(buffer, tab_drag_insert_index, tabs, content, palette, hits);
    proof {
        lemma_joined_strip(
            start,
            parts_paint(view, row, name_widths@, content.y, *palette),
            left_mark(view, hits@, content, *palette),
            right_mark(view, hits@, content, tabs.len() as int, *palette),
            drop_mark(index_of(tab_drag_insert_index), hits@, row, content, *palette),
        );
    }
}

/// What is painted for the whole row: its background, the tabs, and the statuses.
pub open spec fn row_paint(
    area: Rect,
    snapshot: ClientShellSnapshot,
    strip: StripView,
    hits: HitsView,
    insert: Option<int>,
    palette: Palette,
) -> Seq<PaintView> {
    let left = left_cells(snapshot);
    let right = right_cells(snapshot);
    let tabs = row_tabs(snapshot);
    seq![
        PaintView::Fill {
            area,
            style: Style { fg: None, bg: Some(row_bg(palette)), bold: false },
        },
    ] + strip_paint(
        strip,
        hits,
        tabs,
        name_cells(tabs),
        content_area(left, right, area),
        insert,
        palette,
    ) + status_paint(
        left_area(left, right, area),
        snapshot.tab_bar_left@,
        snapshot.tab_bar_left_separator@,
        palette,
    ) + status_paint(
        right_area(right, area),
        snapshot.tab_bar_right@,
        snapshot.tab_bar_right_separator@,
        palette,
    )
}

/// Where the tabs of a snapshot and their buttons stand in the row.
pub open spec fn snapshot_strip(
    area: Rect,
    snapshot: ClientShellSnapshot,
    mouse: bool,
    scroll: int,
    reveal: bool,
) -> StripView {
    let tabs = row_tabs(snapshot);
    let content = content_area(left_cells(snapshot), right_cells(snapshot), area);
    row_strip(tabs, name_cells(tabs), content, mouse, scroll, reveal)
}

/// Whether the tabs of a snapshot can be laid out in the row.
pub open spec fn snapshot_in_range(
    area: Rect,
    snapshot: ClientShellSnapshot,
    mouse: bool,
    scroll: int,
    reveal: bool,
) -> bool {
    let tabs = row_tabs(snapshot);
    let content = content_area(left_cells(snapshot), right_cells(snapshot), area);
    row_in_range(tabs, name_cells(tabs), content, mouse, scroll, reveal)
}

/// Draws the tab row of a snapshot.
#[verifier::spinoff_prover]
#[verifier::rlimit(40)]
pub fn render_tab_bar(
    buffer: &mut Canvas,
    area: Rect,
    snapshot: &ClientShellSnapshot,
    config: &ClientShellConfig,
    tab_scroll: &mut usize,
    reveal_focused_tab: &mut bool,
    tab_drag_insert_index: Option<usize>,
    hits: &mut ShellHitMap,
)
    requires
        snapshot_in_range(
            area,
            *snapshot,
            config.mouse_capture,
            *old(tab_scroll) as int,
            *old(reveal_focused_tab),
        ),
    ensures
        ({
            let strip = snapshot_strip(
                area,
                *snapshot,
                config.mouse_capture,
                *old(tab_scroll) as int,
                *old(reveal_focused_tab),
            );
            &&& *final(tab_scroll) == strip.scroll
            &&& !*final(reveal_focused_tab)
            &&& final(hits)@ == hits_after(old(hits)@, strip, row_tabs(*snapshot), area.y)
            &&& final(buffer)@ == old(buffer)@ + row_paint(
                area,
                *snapshot,
                strip,
                final(hits)@,
                index_of(tab_drag_insert_index),
                config.palette,
            )
        }),
{
    let palette = &config.palette;
    let ghost start = buffer@;
    buffer.set_style(area, Style { fg: None, bg: Some(tab_bar_bg(palette)), bold: false });
    let tabs = focused_workspace_tabs(snapshot);
    let widths = name_widths(tabs.as_slice());
    let content = tab_bar_content_area(snapshot, area);
    draw_tab_strip(
        buffer,
        tabs.as_slice(),
        widths.as_slice(),
        content,
        config,
        tab_scroll,
        reveal_focused_tab,
        tab_drag_insert_index,
        hits,
    );
    render_tab_bar_status(
        buffer,
        tab_bar_status_left_area(snapshot, area),
        snapshot.tab_bar_left.as_slice(),
        snapshot.tab_bar_left_separator.as_str(),
        palette,
    );
    render_tab_bar_status(
        buffer,
        tab_bar_status_right_area(snapshot, area),
        snapshot.tab_bar_right.as_slice(),
        snapshot.tab_bar_right_separator.as_str(),
        palette,
    );
    proof {
        let left = left_cells(*snapshot);
        let right = right_cells(*snapshot);
        let strip = snapshot_strip(
            area,
            *snapshot,
            config.mouse_capture,
            *old(tab_scroll) as int,
            *old(reveal_focused_tab),
        );
        lemma_joined_row(
            start,
            PaintView::Fill {
                area,
                style: Style { fg: None, bg: Some(row_bg(*palette)), bold: false },
            },
            strip_paint(
                strip,
                hits@,
                row_tabs(*snapshot),
                name_cells(row_tabs(*snapshot)),
                content,
                index_of(tab_drag_insert_index),
                *palette,
            ),
            status_paint(
                left_area(left, right, area),
                snapshot.tab_bar_left@,
                snapshot.tab_bar_left_separator@,
                *palette,
            ),
            status_paint(
                right_area(right, area),
                snapshot.tab_bar_right@,
                snapshot.tab_bar_right_separator@,
                *palette,
            ),
        );
    }
}

/// Draws the tab row of a snapshot if its tabs can be laid out, and says whether
/// they can. If not, nothing changes.
#[verifier::spinoff_prover]
#[verifier::rlimit(40)]
pub fn try_render_tab_bar(
    buffer: &mut Canvas,
    area: Rect,
    snapshot: &ClientShellSnapshot,
    config: &ClientShellConfig,
    tab_scroll: &mut usize,
    reveal_focused_tab: &mut bool,
    tab_drag_insert_index: Option<usize>,
    hits: &mut ShellHitMap,
) -> (drawn: bool)
    ensures
        drawn == snapshot_in_range(
            area,
            *snapshot,
            config.mouse_capture,
            *old(tab_scroll) as int,
            *old(reveal_focused_tab),
        ),
        drawn ==> {
            let strip = snapshot_strip(
                area,
                *snapshot,
                config.mouse_capture,
                *old(tab_scroll) as int,
                *old(reveal_focused_tab),
            );
            &&& *final(tab_scroll) == strip.scroll
            &&& !*final(reveal_focused_tab)
            &&& final(hits)@ == hits_after(old(hits)@, strip, row_tabs(*snapshot), area.y)
            &&& final(buffer)@ == old(buffer)@ + row_paint(
                area,
                *snapshot,
                strip,
                final(hits)@,
                index_of(tab_drag_insert_index),
                config.palette,
            )
        },
        !drawn ==> {
            &&& *final(tab_scroll) == *old(tab_scroll)
            &&& *final(reveal_focused_tab) == *old(reveal_focused_tab)
            &&& *final(hits) == *old(hits)
            &&& *final(buffer) == *old(buffer)
        },
{
    let tabs = focused_workspace_tabs(snapshot);
    let widths = desired_widths(name_widths(tabs.as_slice()).as_slice());
    let content = tab_bar_content_area(snapshot, area);
    if !tab_strip_in_range(
        widths.as_slice(),
        focused_tab(tabs.as_slice()),
        content,
        config.mouse_capture,
        *tab_scroll,
        *reveal_focused_tab,
    ) {
        return false;
    }
    render_tab_bar(
        buffer,
        area,
        snapshot,
        config,
        tab_scroll,
        reveal_focused_tab,
        tab_drag_insert_index,
        hits,
    );
    true
}

} // verus!
