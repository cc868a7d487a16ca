//! What the status areas are for: how wide they are, and where they are shown.

use vstd::prelude::*;

use crate::layout_laws::{line_height, row_end};
use crate::model::{ClientShellSnapshot, ClientShellTabStatusSegment, MIN_TAB_STRIP_WIDTH};
use crate::rect::Rect;
use crate::scroll_laws::{cells_sum, lemma_cells_of_a_run};
use crate::status::{
    combined_cells, content_area, joined_cells, left_area, left_cells, right_area, right_cells,
    segment_widths, status_cells,
};
use crate::text::cells;

verus! {

/// Pieces side by side are as wide as all of them and a separator between
/// neighbors, as far as a coordinate goes.
pub proof fn lemma_joined_pieces_add_up(widths: Seq<u16>, separator_width: u16)
    ensures
        ({
            let joined = joined_cells(widths, separator_width);
            let needed = cells_sum(widths) + separator_width * (widths.len() - 1);
            &&& widths.len() == 0 ==> joined == 0
            &&& widths.len() > 0 ==> joined <= needed
            &&& widths.len() > 0 && joined < needed ==> joined == u16::MAX
        }),
{
    lemma_cells_of_a_run(widths);
    if widths.len() == 0 {
        assert(separator_width * 0 == 0) by (nonlinear_arith);
    } else {
        let n = widths.len() - 1;
        assert(separator_width * n >= 0) by (nonlinear_arith)
            requires
                n >= 0,
        ;
    }
}

/// A status is as wide as its segments, each measured by its text, and the
/// separators between them. The two sides do not share any of these.
pub proof fn lemma_statuses_are_measured_by_their_texts(
    snapshot: ClientShellSnapshot,
    left: Seq<u16>,
    right: Seq<u16>,
)
    requires
        left.len() == snapshot.tab_bar_left@.len(),
        right.len() == snapshot.tab_bar_right@.len(),
        forall|i: int|
            0 <= i < left.len() ==> #[trigger] left[i] == cells(snapshot.tab_bar_left@[i].text@),
        forall|i: int|
            0 <= i < right.len() ==> #[trigger] right[i] == cells(snapshot.tab_bar_right@[i].text@),
    ensures
        left_cells(snapshot) == joined_cells(left, cells(snapshot.tab_bar_left_separator@)),
        right_cells(snapshot) == joined_cells(right, cells(snapshot.tab_bar_right_separator@)),
{
    assert(segment_widths(snapshot.tab_bar_left@) =~= left);
    assert(segment_widths(snapshot.tab_bar_right@) =~= right);
}

/// The combined width is that of both statuses, as far as a coordinate goes,
/// whether or not they are shown.
pub proof fn lemma_combined_width_counts_both_sides(snapshot: ClientShellSnapshot)
    ensures
        ({
            let both = left_cells(snapshot) + right_cells(snapshot);
            &&& combined_cells(snapshot) <= both
            &&& combined_cells(snapshot) < both ==> combined_cells(snapshot) == u16::MAX
        }),
{
}

/// Only the texts of segments and the separator matter for the width of a status.
pub proof fn lemma_status_width_depends_on_texts_alone(
    segments: Seq<ClientShellTabStatusSegment>,
    others: Seq<ClientShellTabStatusSegment>,
    separator: Seq<char>,
    widths: Seq<u16>,
)
    requires
        segments.len() == others.len(),
        segments.len() == widths.len(),
        forall|i: int|
            0 <= i < segments.len() ==> (#[trigger] segments[i]).text@ == others[i].text@,
        forall|i: int|
            0 <= i < segments.len() ==> #[trigger] widths[i] == cells(segments[i].text@),
    ensures
        status_cells(segments, separator) == status_cells(others, separator),
        status_cells(segments, separator) == joined_cells(widths, cells(separator)),
{
    assert(segment_widths(segments) =~= widths);
    assert(segment_widths(others) =~= widths) by {
        assert forall|i: int| 0 <= i < widths.len() implies segment_widths(others)[i]
            == widths[i] by {
            assert(segments[i].text@ == others[i].text@);
        }
    }
}

/// The right status is shown exactly where it has a cell, and the row has room for
/// it, a free cell, and the fewest cells of the tabs. The left status is shown
/// exactly where it has a cell, and the row has room for the same beside the right
/// status as far as that is shown.
pub proof fn lemma_statuses_are_shown_where_they_fit(left: u16, right: u16, area: Rect)
    ensures
        ({
            let right_shown = right > 0 && right + 1 + MIN_TAB_STRIP_WIDTH <= area.width;
            let taken = if right_shown {
                right + 1
            } else {
                0
            };
            let left_shown = left > 0 && taken + left + 1 + MIN_TAB_STRIP_WIDTH <= area.width;
            &&& right_area(right, area) is Some <==> right_shown
            &&& left_area(left, right, area) is Some <==> left_shown
        }),
{
}

/// The right status ends with the row, the left one starts with it, and both have
/// the cells that they need, as far as coordinates go.
pub proof fn lemma_statuses_stand_at_the_ends(left: u16, right: u16, area: Rect)
    ensures
        right_area(right, area) matches Some(status) ==> {
            &&& status.x + right == row_end(area)
            &&& status.width == right
            &&& status.y == area.y
            &&& status.height == line_height(area.y)
        },
        left_area(left, right, area) matches Some(status) ==> {
            &&& status.x == area.x
            &&& area.x + left <= u16::MAX ==> status.width == left
            &&& area.x + left >= u16::MAX ==> status.x + status.width == u16::MAX
            &&& status.y == area.y
            &&& status.height == line_height(area.y)
        },
{
}

/// The tabs have what the shown statuses, each with a free cell beside it, leave of
/// the row: as many cells fewer, and as many columns further on.
pub proof fn lemma_tabs_have_what_statuses_leave(left: u16, right: u16, area: Rect)
    ensures
        ({
            let content = content_area(left, right, area);
            let before = match left_area(left, right, area) {
                Some(status) => status.width + 1,
                None => 0,
            };
            let after = match right_area(right, area) {
                Some(status) => status.width + 1,
                None => 0,
            };
            &&& before + content.width + after == area.width
            &&& content.x <= area.x + before
            &&& content.x < area.x + before ==> content.x == u16::MAX
            &&& content.y == area.y
            &&& content.height == area.height
        }),
{
}

} // verus!
