//! The status areas at both ends of the tab row.

use vstd::prelude::*;

use crate::model::{ClientShellSnapshot, ClientShellTabStatusSegment, MIN_TAB_STRIP_WIDTH};
use crate::rect::{diff16, sum16, Rect};
use crate::scroll::total;
use crate::text::{cells, display_width};

verus! {

/// The cells that the texts of the segments take.
pub open spec fn segment_widths(segments: Seq<ClientShellTabStatusSegment>) -> Seq<u16> {
    segments.map_values(|segment: ClientShellTabStatusSegment| cells(segment.text@))
}

/// The cells of pieces of the given widths with a separator between neighbors, as
/// far as a `u16` holds them.
pub open spec fn joined_cells(widths: Seq<u16>, separator_width: u16) -> u16 {
    let separators = if widths.len() == 0 {
        0
    } else {
        widths.len() - 1
    };
    sum16(total(widths) as int, separator_width * separators)
}

/// The width of a status area: its segments with a separator between
/// neighbors, as far as a `u16` holds it.
pub open spec fn status_cells(
    segments: Seq<ClientShellTabStatusSegment>,
    separator: Seq<char>,
) -> u16 {
    joined_cells(segment_widths(segments), cells(separator))
}

/// The product of two numbers of cells, at most `u16::MAX`.
fn times(a: u16, n: usize) -> (product: u16)
    ensures
        product == sum16(a * n, 0),
        a * n >= 0,
{
    assert(a * n >= 0) by (nonlinear_arith);
    if a == 0 {
        assert(a * n == 0) by (nonlinear_arith)
            requires
                a == 0,
        ;
        return 0;
    }
    if n > u16::MAX as usize {
        assert(a * n >= n) by (nonlinear_arith)
            requires
                a >= 1,
        ;
        return u16::MAX;
    }
    assert(a * n <= 0xffff * 0xffff) by (nonlinear_arith)
        requires
            a <= 0xffff,
            n <= 0xffff,
    ;
    let product: u32 = a as u32 * n as u32;
    if product <= u16::MAX as u32 {
        product as u16
    } else {
        u16::MAX
    }
}

/// The cells of pieces of the given widths with a separator of `separator_width`
/// cells between neighbors, at most `u16::MAX`.
pub fn joined_width(widths: &[u16], separator_width: u16) -> (width: u16)
    ensures
        width == joined_cells(widths@, separator_width),
{
    let mut content: u16 = 0;
    let mut i: usize = 0;
    assert(widths@.take(0) =~= Seq::<u16>::empty());
    while i < widths.len()
        invariant
            i <= widths.len(),
            content == sum16(total(widths@.take(i as int)) as int, 0),
        decreases widths.len() - i,
    {
        proof {
            assert(widths@.take(i + 1).drop_last() =~= widths@.take(i as int));
        }
        content = content.saturating_add(widths[i]);
        i = i + 1;
    }
    assert(widths@.take(i as int) =~= widths@);
    let separators: usize = widths.len().saturating_sub(1);
    content.saturating_add(times(separator_width, separators))
}

/// The width of a status area.
pub fn status_width(segments: &[ClientShellTabStatusSegment], separator: &str) -> (width: u16)
    ensures
        width == status_cells(segments@, separator@),
{
    let mut widths: Vec<u16> = Vec::new();
    let mut i: usize = 0;
    let ghost all = segment_widths(segments@);
    while i < segments.len()
        invariant
            i <= segments.len(),
            all == segment_widths(segments@),
            widths@ == all.take(i as int),
        decreases segments.len() - i,
    {
        widths.push(display_width(segments[i].text.as_str()));
        i = i + 1;
        assert(widths@ =~= all.take(i as int));
    }
    assert(all.take(i as int) =~= all);
    joined_width(widths.as_slice(), display_width(separator))
}

/// The width of the left status area.
pub open spec fn left_cells(snapshot: ClientShellSnapshot) -> u16 {
    status_cells(snapshot.tab_bar_left@, snapshot.tab_bar_left_separator@)
}

/// The width of the right status area.
pub open spec fn right_cells(snapshot: ClientShellSnapshot) -> u16 {
    status_cells(snapshot.tab_bar_right@, snapshot.tab_bar_right_separator@)
}

/// The combined width of both status areas, as far as a `u16` holds it.
pub open spec fn combined_cells(snapshot: ClientShellSnapshot) -> u16 {
    sum16(left_cells(snapshot) as int, right_cells(snapshot) as int)
}

/// The combined width of both status areas, by which a change of the layout of
/// the tabs is noticed.
pub fn tab_bar_status_width(snapshot: &ClientShellSnapshot) -> (width: u16)
    ensures
        width == sum16(left_cells(*snapshot) as int, right_cells(*snapshot) as int),
        width == combined_cells(*snapshot),
{
    status_width(
        snapshot.tab_bar_left.as_slice(),
        snapshot.tab_bar_left_separator.as_str(),
    ).saturating_add(
        status_width(
            snapshot.tab_bar_right.as_slice(),
            snapshot.tab_bar_right_separator.as_str(),
        ),
    )
}

/// Whether a status of `width` cells is shown in a row with `room` cells: there
/// is one, and with a free cell beside it the tabs keep their fewest cells.
pub open spec fn status_fits(width: u16, room: int) -> bool {
    width > 0 && width + 1 + MIN_TAB_STRIP_WIDTH <= room
}

/// Where a right status of `width` cells stands: at the end of the row.
pub open spec fn right_area(width: u16, area: Rect) -> Option<Rect> {
    if status_fits(width, area.width as int) {
        Some(Rect::cut(diff16(area.end() as int, width as int), area.y, width, 1))
    } else {
        None
    }
}

/// The cells that a status takes from the row, with a free cell beside it.
pub open spec fn reserved(status: Option<Rect>) -> int {
    match status {
        Some(status) => sum16(status.width as int, 1) as int,
        None => 0,
    }
}

/// Where a left status of `left` cells stands beside a right one: at the start
/// of the row, if what the right one leaves is enough.
pub open spec fn left_area(left: u16, right: u16, area: Rect) -> Option<Rect> {
    if status_fits(left, area.width - reserved(right_area(right, area))) {
        Some(Rect::cut(area.x, area.y, left, 1))
    } else {
        None
    }
}

/// What the status areas leave to the tabs.
pub open spec fn content_area(left: u16, right: u16, area: Rect) -> Rect {
    let left_reserved = reserved(left_area(left, right, area));
    let right_reserved = reserved(right_area(right, area));
    Rect {
        x: sum16(area.x as int, left_reserved),
        y: area.y,
        width: diff16(area.width as int, left_reserved + right_reserved),
        height: area.height,
    }
}

fn reserved_cells(status: Option<Rect>) -> (cells: u16)
    ensures
        cells == reserved(status),
{
    match status {
        Some(status) => status.width.saturating_add(1),
        None => 0,
    }
}

/// Places a right status of `width` cells.
pub fn place_right_status(width: u16, area: Rect) -> (status: Option<Rect>)
    ensures
        status == right_area(width, area),
{
    if width == 0 {
        return None;
    }
    let reserved: u16 = width.saturating_add(1);
    if area.width.saturating_sub(reserved) >= MIN_TAB_STRIP_WIDTH {
        Some(Rect::new(area.right().saturating_sub(width), area.y, width, 1))
    } else {
        None
    }
}

/// Places a left status of `left` cells. The right one, of `right` cells, comes
/// first.
pub fn place_left_status(left: u16, right: u16, area: Rect) -> (status: Option<Rect>)
    ensures
        status == left_area(left, right, area),
{
    if left == 0 {
        return None;
    }
    let right_reserved: u16 = reserved_cells(place_right_status(right, area));
    let remaining: u16 = area.width.saturating_sub(right_reserved);
    if remaining.saturating_sub(left.saturating_add(1)) >= MIN_TAB_STRIP_WIDTH {
        Some(Rect::new(area.x, area.y, left, 1))
    } else {
        None
    }
}

/// What statuses of `left` and `right` cells leave to the tabs.
pub fn place_content(left: u16, right: u16, area: Rect) -> (content: Rect)
    ensures
        content == content_area(left, right, area),
{
    let right_reserved: u16 = reserved_cells(place_right_status(right, area));
    let left_reserved: u16 = reserved_cells(place_left_status(left, right, area));
    Rect {
        x: area.x.saturating_add(left_reserved),
        width: area.width.saturating_sub(right_reserved).saturating_sub(left_reserved),
        y: area.y,
        height: area.height,
    }
}

/// Where the right status stands.
pub fn tab_bar_status_right_area(snapshot: &ClientShellSnapshot, area: Rect) -> (status: Option<
    Rect,
>)
    ensures
        status == right_area(right_cells(*snapshot), area),
{
    let width: u16 = status_width(
        snapshot.tab_bar_right.as_slice(),
        snapshot.tab_bar_right_separator.as_str(),
    );
    place_right_status(width, area)
}

/// Where the left status stands. Its place is reserved after that of the right
/// one, so a narrowing row drops the left status first and the tabs keep their
/// fewest cells either way.
pub fn tab_bar_status_left_area(snapshot: &ClientShellSnapshot, area: Rect) -> (status: Option<
    Rect,
>)
    ensures
        status == left_area(left_cells(*snapshot), right_cells(*snapshot), area),
{
    let left: u16 = status_width(
        snapshot.tab_bar_left.as_slice(),
        snapshot.tab_bar_left_separator.as_str(),
    );
    let right: u16 = status_width(
        snapshot.tab_bar_right.as_slice(),
        snapshot.tab_bar_right_separator.as_str(),
    );
    place_left_status(left, right, area)
}

/// What the status areas leave to the tabs.
pub fn tab_bar_content_area(snapshot: &ClientShellSnapshot, area: Rect) -> (content: Rect)
    ensures
        content == content_area(left_cells(*snapshot), right_cells(*snapshot), area),
{
    let left: u16 = status_width(
        snapshot.tab_bar_left.as_slice(),
        snapshot.tab_bar_left_separator.as_str(),
    );
    let right: u16 = status_width(
        snapshot.tab_bar_right.as_slice(),
        snapshot.tab_bar_right_separator.as_str(),
    );
    place_content(left, right, area)
}

/// With a status shown, the tabs keep their fewest cells. With none, they have
/// the whole row.
pub proof fn lemma_tabs_keep_their_cells(left: u16, right: u16, area: Rect)
    ensures
        ({
            let content = content_area(left, right, area);
            &&& left_area(left, right, area) is Some || right_area(right, area) is Some
                ==> content.width >= MIN_TAB_STRIP_WIDTH
            &&& left_area(left, right, area) is None && right_area(right, area) is None
                ==> content == area
        }),
{
}

/// The row narrows from a width at which both statuses are shown. At the first
/// width at which one is missing, it is the left one, and the right one is still
/// shown.
pub proof fn lemma_left_status_drops_first(left: u16, right: u16, wide: Rect, narrow: Rect)
    requires
        left_area(left, right, wide) is Some,
        right_area(right, wide) is Some,
        narrow.width == wide.width - 1,
        left_area(left, right, narrow) is None || right_area(right, narrow) is None,
    ensures
        left_area(left, right, narrow) is None,
        right_area(right, narrow) is Some,
{
}

/// Whether the right status is shown does not depend on the left one, and a row
/// that shows it still does when it gets wider.
pub proof fn lemma_right_status_stays(right: u16, narrow: Rect, wide: Rect)
    requires
        right_area(right, narrow) is Some,
        narrow.width <= wide.width,
    ensures
        right_area(right, wide) is Some,
{
}

/// The combined width tells what the statuses leave to the tabs: where both are
/// shown before and after, the tabs keep as many cells as long as it stays.
pub proof fn lemma_combined_width_tells_the_tab_cells(
    left: u16,
    right: u16,
    new_left: u16,
    new_right: u16,
    area: Rect,
)
    requires
        left_area(left, right, area) is Some,
        right_area(right, area) is Some,
        left_area(new_left, new_right, area) is Some,
        right_area(new_right, area) is Some,
        area.ends_on_screen(),
    ensures
        sum16(left as int, right as int) == sum16(new_left as int, new_right as int)
            <==> content_area(left, right, area).width == content_area(
            new_left,
            new_right,
            area,
        ).width,
{
}

/// The statuses and the tabs stand side by side: the left status, a free cell,
/// the tabs, a free cell, and the right status up to the end of the row.
pub proof fn lemma_row_parts_are_apart(left: u16, right: u16, area: Rect)
    requires
        area.ends_on_screen(),
    ensures
        ({
            let content = content_area(left, right, area);
            &&& match left_area(left, right, area) {
                Some(status) => status.x == area.x && status.width == left && status.end() + 1
                    == content.x,
                None => content.x == area.x,
            }
            &&& match right_area(right, area) {
                Some(status) => content.end() + 1 == status.x && status.width == right
                    && status.end() == area.end(),
                None => content.end() == area.end(),
            }
            &&& content.ends_on_screen()
        }),
{
}

} // verus!
