//! Where the tabs and their buttons stand in the row.

use vstd::prelude::*;

use crate::model::{MIN_TAB_STRIP_WIDTH, NEW_TAB_WIDTH, TAB_SCROLL_BUTTON_WIDTH};
use crate::rect::{diff16, min16, smaller, sum16, Rect};
use crate::scroll::{
    centered_scroll, centered_tab_scroll, max_scroll, max_tab_scroll, run_cells,
};

verus! {

/// A tab that is drawn: which one, from which column on, and how wide.
#[derive(Debug, Clone, Copy, PartialEq, Eq)]
pub struct TabSlot {
    pub index: usize,
    pub x: u16,
    pub width: u16,
}

/// What a slot stands for.
pub struct SlotView {
    pub index: int,
    pub x: u16,
    pub width: u16,
}

impl View for TabSlot {
    type V = SlotView;

    open spec fn view(&self) -> SlotView {
        SlotView { index: self.index as int, x: self.x, width: self.width }
    }
}

/// Where the tabs and their buttons stand.
#[derive(Debug, Clone, PartialEq, Eq)]
pub struct TabStrip {
    /// The first tab that is drawn.
    pub scroll: usize,
    /// The last place to which the tabs can be scrolled.
    pub max_scroll: usize,
    /// The buttons that scroll to the left and to the right.
    pub buttons: Option<(Rect, Rect)>,
    /// The drawn tabs, from left to right.
    pub slots: Vec<TabSlot>,
    /// The button that opens a tab.
    pub new_tab: Option<Rect>,
}

/// What a strip stands for.
pub struct StripView {
    pub scroll: int,
    pub max_scroll: int,
    pub buttons: Option<(Rect, Rect)>,
    pub slots: Seq<SlotView>,
    pub new_tab: Option<Rect>,
}

impl View for TabStrip {
    type V = StripView;

    open spec fn view(&self) -> StripView {
        StripView {
            scroll: self.scroll as int,
            max_scroll: self.max_scroll as int,
            buttons: self.buttons,
            slots: self.slots@.map_values(|slot: TabSlot| slot@),
            new_tab: self.new_tab,
        }
    }
}

/// The cells kept for the button that opens a tab: it is there for the mouse.
pub open spec fn new_tab_cells(mouse: bool) -> u16 {
    if mouse {
        NEW_TAB_WIDTH
    } else {
        0
    }
}

/// Whether the tabs need to be scrolled: together they are too wide, and with
/// the mouse the row has room for the scroll buttons.
pub open spec fn overflows(widths: Seq<u16>, content: Rect, mouse: bool) -> bool {
    &&& sum16(run_cells(widths), new_tab_cells(mouse) as int) > content.width
    &&& !mouse || content.width >= MIN_TAB_STRIP_WIDTH
}

/// Whether the scroll buttons are drawn.
pub open spec fn has_buttons(widths: Seq<u16>, content: Rect, mouse: bool) -> bool {
    overflows(widths, content, mouse) && mouse
}

/// The cells that are left to the tabs.
pub open spec fn strip_cells(widths: Seq<u16>, content: Rect, mouse: bool) -> u16 {
    if has_buttons(widths, content, mouse) {
        diff16(content.width as int, NEW_TAB_WIDTH + 2 * TAB_SCROLL_BUTTON_WIDTH)
    } else {
        diff16(content.width as int, new_tab_cells(mouse) as int)
    }
}

/// The first tab drawn: the first one where all fit, else the one that centers
/// the focused tab if that is to be revealed, else the one it was, and neither
/// of these beyond the last place to scroll to. With no tab to reveal, the
/// place stays.
pub open spec fn settled_scroll(
    widths: Seq<u16>,
    focused: Option<int>,
    content: Rect,
    mouse: bool,
    scroll: int,
    reveal: bool,
) -> int {
    let available = strip_cells(widths, content, mouse);
    let most = max_scroll(widths, available);
    if !overflows(widths, content, mouse) {
        0
    } else if !reveal {
        if scroll <= most {
            scroll
        } else {
            most
        }
    } else {
        match focused {
            Some(f) => {
                let centered = centered_scroll(widths, f, available);
                if centered <= most {
                    centered
                } else {
                    most
                }
            },
            None => scroll,
        }
    }
}

/// The button that scrolls to the left.
pub open spec fn left_button(content: Rect) -> Rect {
    Rect::cut(content.x, content.y, min16(TAB_SCROLL_BUTTON_WIDTH, content.width), 1)
}

/// The first column for tabs.
pub open spec fn strip_left(widths: Seq<u16>, content: Rect, mouse: bool) -> u16 {
    if has_buttons(widths, content, mouse) {
        left_button(content).end()
    } else {
        content.x
    }
}

/// The first column after the tabs.
pub open spec fn strip_right(widths: Seq<u16>, content: Rect, mouse: bool) -> u16 {
    if has_buttons(widths, content, mouse) {
        diff16(content.end() as int, NEW_TAB_WIDTH + TAB_SCROLL_BUTTON_WIDTH)
    } else {
        diff16(content.end() as int, new_tab_cells(mouse) as int)
    }
}

/// The tabs from `index` on, drawn from column `x` on: each as wide as it asks
/// for, with one free cell after it, until the columns before `right` are used
/// up. The last one may be cut.
pub open spec fn slots_from(widths: Seq<u16>, index: int, x: u16, right: u16) -> Seq<SlotView>
    decreases widths.len() - index,
{
    if !(0 <= index < widths.len()) {
        Seq::empty()
    } else {
        let width = min16(widths[index], diff16(right as int, x as int));
        let slot = SlotView { index, x, width };
        if width == 0 {
            Seq::empty()
        } else if width < widths[index] {
            seq![slot]
        } else {
            seq![slot] + slots_from(widths, index + 1, sum16(x as int, width + 1), right)
        }
    }
}

/// The column after the last slot and its free cell.
pub open spec fn slots_end(slots: Seq<SlotView>, left: u16) -> u16 {
    if slots.len() == 0 {
        left
    } else {
        sum16(slots.last().x as int, slots.last().width + 1)
    }
}

/// The button that scrolls to the right.
pub open spec fn right_button(content: Rect, right: u16) -> Rect {
    Rect::cut(right, content.y, TAB_SCROLL_BUTTON_WIDTH, 1)
}

/// The button that opens a tab, from column `x` on and no wider than the row.
pub open spec fn new_tab_button(content: Rect, x: u16) -> Rect {
    Rect::cut(
        min16(x, content.end()),
        content.y,
        min16(diff16(content.end() as int, x as int), NEW_TAB_WIDTH),
        1,
    )
}

/// Where the tabs and their buttons stand.
pub open spec fn strip_layout(
    widths: Seq<u16>,
    focused: Option<int>,
    content: Rect,
    mouse: bool,
    scroll: int,
    reveal: bool,
) -> StripView {
    let available = strip_cells(widths, content, mouse);
    let first = settled_scroll(widths, focused, content, mouse, scroll, reveal);
    let left = strip_left(widths, content, mouse);
    let right = strip_right(widths, content, mouse);
    let slots = slots_from(widths, first, left, right);
    let buttons = has_buttons(widths, content, mouse);
    let scroll_right = right_button(content, right);
    StripView {
        scroll: first,
        max_scroll: max_scroll(widths, available),
        buttons: if buttons {
            Some((left_button(content), scroll_right))
        } else {
            None
        },
        slots,
        new_tab: if buttons {
            Some(new_tab_button(content, scroll_right.end()))
        } else if mouse {
            Some(new_tab_button(content, slots_end(slots, left)))
        } else {
            None
        },
    }
}

/// Whether no tab is so wide that its width and a free cell exceed a `u16`
/// where the two are added: for the tabs before one that is centered, and for
/// the first one drawn.
pub open spec fn strip_in_range(
    widths: Seq<u16>,
    focused: Option<int>,
    content: Rect,
    mouse: bool,
    scroll: int,
    reveal: bool,
) -> bool {
    let first = settled_scroll(widths, focused, content, mouse, scroll, reveal);
    &&& overflows(widths, content, mouse) && reveal && focused is Some ==> forall|i: int|
        0 <= i < focused->0 ==> widths[i] < u16::MAX
    &&& 0 <= first < widths.len() ==> min16(
        widths[first],
        diff16(
            strip_right(widths, content, mouse) as int,
            strip_left(widths, content, mouse) as int,
        ),
    ) < u16::MAX
}

/// The cells of all tabs and of the free cells between them, as far as a `u16`
/// holds them.
fn measured_run(widths: &[u16]) -> (sum: u16)
    ensures
        sum == sum16(run_cells(widths@), 0),
        run_cells(widths@) >= 0,
{
    let mut sum: u16 = 0;
    let mut i: usize = 0;
    assert(widths@.take(0) =~= Seq::<u16>::empty());
    while i < widths.len()
        invariant
            i <= widths.len(),
            sum == sum16(run_cells(widths@.take(i as int)), 0),
            run_cells(widths@.take(i as int)) >= 0,
        decreases widths.len() - i,
    {
        proof {
            let next = widths@.take(i + 1);
            assert(next.drop_last() =~= widths@.take(i as int));
        }
        if i > 0 {
            sum = sum.saturating_add(1);
        }
        sum = sum.saturating_add(widths[i]);
        i = i + 1;
    }
    assert(widths@.take(i as int) =~= widths@);
    sum
}

fn tab_slots(widths: &[u16], first: usize, left: u16, right: u16) -> (slots: Vec<TabSlot>)
    requires
        first < widths.len() ==> min16(widths@[first as int], diff16(right as int, left as int))
            < u16::MAX,
    ensures
        slots@.map_values(|slot: TabSlot| slot@) == slots_from(widths@, first as int, left, right),
{
    let mut slots: Vec<TabSlot> = Vec::new();
    let mut index: usize = first;
    let mut x: u16 = left;
    let ghost all = slots_from(widths@, first as int, left, right);
    let ghost done = slots@.map_values(|slot: TabSlot| slot@);
    assert(done + all =~= all);
    while index < widths.len()
        invariant_except_break
            done + slots_from(widths@, index as int, x, right) == all,
            first <= index,
            index == first || x > 0,
            index == first ==> x == left,
        invariant
            first < widths.len() ==> min16(
                widths@[first as int],
                diff16(right as int, left as int),
            ) < u16::MAX,
            done == slots@.map_values(|slot: TabSlot| slot@),
        ensures
            done == all,
        decreases widths.len() - index,
    {
        let width: u16 = smaller(widths[index], right.saturating_sub(x));
        if width == 0 {
            assert(done + slots_from(widths@, index as int, x, right) =~= done);
            break;
        }
        let slot = TabSlot { index, x, width };
        slots.push(slot);
        let ghost before = done;
        proof {
            done = done.push(slot@);
            assert(slots@.map_values(|slot: TabSlot| slot@) =~= done);
        }
        if width < widths[index] {
            assert(before + slots_from(widths@, index as int, x, right) =~= done);
            break;
        }
        proof {
            let rest = slots_from(widths@, index + 1, sum16(x as int, width + 1), right);
            assert(before + (seq![slot@] + rest) =~= done + rest);
        }
        x = x.saturating_add(width + 1);
        index = index + 1;
        assert(index < widths.len() || done + slots_from(widths@, index as int, x, right) =~= done);
    }
    slots
}

/// The place that is left to the tabs.
struct Frame {
    overflow: bool,
    buttons: bool,
    available: u16,
    left: u16,
    right: u16,
    scroll_left: Rect,
}

impl Frame {
    spec fn of(self, widths: Seq<u16>, content: Rect, mouse: bool) -> bool {
        &&& self.overflow == overflows(widths, content, mouse)
        &&& self.buttons == has_buttons(widths, content, mouse)
        &&& self.available == strip_cells(widths, content, mouse)
        &&& self.left == strip_left(widths, content, mouse)
        &&& self.right == strip_right(widths, content, mouse)
        &&& self.scroll_left == left_button(content)
    }
}

fn frame_of(widths: &[u16], content: Rect, mouse: bool) -> (frame: Frame)
    ensures
        frame.of(widths@, content, mouse),
{
    let new_tab_width: u16 = if mouse {
        NEW_TAB_WIDTH
    } else {
        0
    };
    let desired: u16 = measured_run(widths).saturating_add(new_tab_width);
    let overflow = desired > content.width && (!mouse || content.width >= MIN_TAB_STRIP_WIDTH);
    let buttons = overflow && mouse;
    let available: u16 = if buttons {
        content.width.saturating_sub(NEW_TAB_WIDTH).saturating_sub(2 * TAB_SCROLL_BUTTON_WIDTH)
    } else {
        content.width.saturating_sub(new_tab_width)
    };
    let scroll_left = Rect::new(
        content.x,
        content.y,
        smaller(TAB_SCROLL_BUTTON_WIDTH, content.width),
        1,
    );
    let left: u16 = if buttons {
        scroll_left.right()
    } else {
        content.x
    };
    let right: u16 = if buttons {
        content.right().saturating_sub(NEW_TAB_WIDTH + TAB_SCROLL_BUTTON_WIDTH)
    } else {
        content.right().saturating_sub(new_tab_width)
    };
    Frame { overflow, buttons, available, left, right, scroll_left }
}

fn settle(
    widths: &[u16],
    focused: Option<usize>,
    Ghost(content): Ghost<Rect>,
    Ghost(mouse): Ghost<bool>,
    frame: &Frame,
    max_scroll: usize,
    scroll: usize,
    reveal: bool,
) -> (first: usize)
    requires
        frame.of(widths@, content, mouse),
        max_scroll == crate::scroll::max_scroll(widths@, frame.available),
        focused matches Some(f) ==> f < widths.len(),
        frame.overflow && reveal && focused is Some ==> forall|i: int|
            0 <= i < focused->0 ==> widths@[i] < u16::MAX,
    ensures
        first == settled_scroll(widths@, index_of(focused), content, mouse, scroll as int, reveal),
{
    if !frame.overflow {
        return 0;
    }
    let mut first: usize = scroll;
    if reveal {
        match focused {
            Some(f) => {
                first = centered_tab_scroll(f, widths, frame.available);
            },
            None => {
                return scroll;
            },
        }
    }
    if first > max_scroll {
        first = max_scroll;
    }
    first
}

/// Whether the tabs can be laid out: no tab is so wide that its width and a free
/// cell exceed a `u16` where the two are added.
pub fn tab_strip_in_range(
    widths: &[u16],
    focused: Option<usize>,
    content: Rect,
    mouse: bool,
    scroll: usize,
    reveal: bool,
) -> (in_range: bool)
    requires
        focused matches Some(f) ==> f < widths.len(),
    ensures
        in_range == strip_in_range(
            widths@,
            index_of(focused),
            content,
            mouse,
            scroll as int,
            reveal,
        ),
{
    let frame = frame_of(widths, content, mouse);
    if frame.overflow && reveal {
        if let Some(f) = focused {
            let mut i: usize = 0;
            while i < f
                invariant
                    f < widths.len(),
                    i <= f,
                    focused == Some(f),
                    reveal,
                    overflows(widths@, content, mouse),
                    forall|j: int| 0 <= j < i ==> widths@[j] < u16::MAX,
                decreases f - i,
            {
                if widths[i] == u16::MAX {
                    assert(!strip_in_range(
                        widths@,
                        index_of(focused),
                        content,
                        mouse,
                        scroll as int,
                        reveal,
                    ));
                    return false;
                }
                i = i + 1;
            }
        }
    }
    let most: usize = max_tab_scroll(widths, frame.available);
    let first: usize = settle(
        widths,
        focused,
        Ghost(content),
        Ghost(mouse),
        &frame,
        most,
        scroll,
        reveal,
    );
    first >= widths.len() || smaller(widths[first], frame.right.saturating_sub(frame.left))
        < u16::MAX
}

/// Lays out the tabs and their buttons in `content`. `widths` are the cells that
/// the tabs ask for, `focused` is the focused one of them, and `scroll` the first
/// one drawn so far. With `reveal`, the focused tab is brought to the middle.
pub fn tab_strip_layout(
    widths: &[u16],
    focused: Option<usize>,
    content: Rect,
    mouse: bool,
    scroll: usize,
    reveal: bool,
) -> (strip: TabStrip)
    requires
        focused matches Some(f) ==> f < widths.len(),
        strip_in_range(widths@, index_of(focused), content, mouse, scroll as int, reveal),
    ensures
        strip@ == strip_layout(
            widths@,
            index_of(focused),
            content,
            mouse,
            scroll as int,
            reveal,
        ),
{
    let frame = frame_of(widths, content, mouse);
    let most: usize = max_tab_scroll(widths, frame.available);
    let first: usize = settle(
        widths,
        focused,
        Ghost(content),
        Ghost(mouse),
        &frame,
        most,
        scroll,
        reveal,
    );
    let slots = tab_slots(widths, first, frame.left, frame.right);
    let scroll_right = Rect::new(frame.right, content.y, TAB_SCROLL_BUTTON_WIDTH, 1);
    let mut x: u16 = scroll_right.right();
    if !frame.buttons {
        x = frame.left;
        if slots.len() > 0 {
            let last: TabSlot = slots[slots.len() - 1];
            assert(slots@.map_values(|slot: TabSlot| slot@).last() == last@);
            x = last.x.saturating_add(last.width).saturating_add(1);
        }
    }
    let new_tab = if mouse {
        Some(
            Rect::new(
                smaller(x, content.right()),
                content.y,
                smaller(content.right().saturating_sub(x), NEW_TAB_WIDTH),
                1,
            ),
        )
    } else {
        None
    };
    TabStrip {
        scroll: first,
        max_scroll: most,
        buttons: if frame.buttons {
            Some((frame.scroll_left, scroll_right))
        } else {
            None
        },
        slots,
        new_tab,
    }
}

/// An optional position as a mathematical number.
pub open spec fn index_of(position: Option<usize>) -> Option<int> {
    match position {
        Some(p) => Some(p as int),
        None => None,
    }
}

} // verus!
