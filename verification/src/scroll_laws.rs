//! What holds of every place that the tabs are scrolled to.

use vstd::prelude::*;

use crate::scroll::{
    cells_before, centered_scroll, is_centered_scroll, is_max_scroll, lemma_centered_scroll,
    lemma_max_scroll, max_scroll, rest_fits, run_cells, shows, total,
};

verus! {

/// The sum of some widths.
pub open spec fn cells_sum(widths: Seq<u16>) -> int {
    widths.fold_left(0int, |sum: int, width: u16| sum + width)
}

/// The cells that tabs take side by side are the sum of their widths and one free
/// cell between neighbors.
pub proof fn lemma_cells_of_a_run(widths: Seq<u16>)
    ensures
        total(widths) == cells_sum(widths),
        widths.len() == 0 ==> run_cells(widths) == 0,
        widths.len() > 0 ==> run_cells(widths) == cells_sum(widths) + widths.len() - 1,
    decreases widths.len(),
{
    if widths.len() > 0 {
        lemma_cells_of_a_run(widths.drop_last());
    }
}

/// The cells that the tabs from `start` on take, with a free cell between neighbors.
pub open spec fn taken_from(widths: Seq<u16>, start: int) -> int {
    cells_sum(widths.skip(start)) + widths.len() - start - 1
}

/// Scrolled as far as they go, the tabs that are left fit, or only the last one is
/// left. With one tab more they would not fit.
pub proof fn lemma_furthest_place(widths: Seq<u16>, available: u16)
    ensures
        ({
            let place = max_scroll(widths, available);
            &&& is_max_scroll(widths, available, place)
            &&& widths.len() == 0 ==> place == 0
            &&& widths.len() > 0 ==> 0 <= place < widths.len()
            &&& 0 <= place < widths.len() - 1 ==> taken_from(widths, place) <= available
            &&& place > 0 ==> taken_from(widths, place - 1) > available
        }),
{
    let place = max_scroll(widths, available);
    lemma_max_scroll(widths, available);
    if widths.len() > 0 {
        lemma_cells_of_a_run(widths.skip(place));
        if place > 0 {
            assert(!rest_fits(widths, place - 1, available));
            lemma_cells_of_a_run(widths.skip(place - 1));
        }
    }
}

/// With more cells for them, the tabs never scroll further.
pub proof fn lemma_more_cells_scroll_less(widths: Seq<u16>, available: u16, more: u16)
    requires
        available <= more,
    ensures
        max_scroll(widths, more) <= max_scroll(widths, available),
{
    lemma_max_scroll(widths, available);
    lemma_max_scroll(widths, more);
    let place = max_scroll(widths, available);
    if widths.len() > 0 && place < max_scroll(widths, more) {
        assert(rest_fits(widths, place, available));
        assert(rest_fits(widths, place, more));
    }
}

/// The cells before the focused tab when `start` is the first tab drawn.
pub open spec fn lead(widths: Seq<u16>, start: int, focused: int) -> int {
    cells_sum(widths.subrange(start, focused)) + focused - start
}

/// Twice the middle of the drawn part of a tab that starts at `from` and may take
/// `width` cells, of `available` ones, as far as a coordinate goes.
pub open spec fn doubled_middle(from: int, width: u16, available: int) -> int {
    let drawn = if width <= available - from {
        width as int
    } else {
        available - from
    };
    if 2 * from + drawn <= u16::MAX {
        2 * from + drawn
    } else {
        u16::MAX as int
    }
}

/// How far two numbers are apart.
pub open spec fn apart(a: int, b: int) -> int {
    if a <= b {
        b - a
    } else {
        a - b
    }
}

/// The place that centers the focused tab shows it, and no other place that does
/// so brings its middle nearer to the middle of the strip. Of places that do
/// equally well it is the last. Without any cell it is the focused tab itself.
pub proof fn lemma_place_nearest_the_middle(
    widths: Seq<u16>,
    focused: int,
    available: u16,
    other: int,
)
    requires
        0 <= focused < widths.len() || available == 0,
    ensures
        ({
            let place = centered_scroll(widths, focused, available);
            let from = lead(widths, place, focused);
            let elsewhere = lead(widths, other, focused);
            let width = widths[focused];
            &&& is_centered_scroll(widths, focused, available, place)
            &&& available == 0 ==> place == focused
            &&& available > 0 ==> 0 <= place <= focused && from < available
            &&& available > 0 && 0 <= other <= focused && elsewhere < available ==> {
                let here = apart(
                    doubled_middle(from, width, available as int),
                    available as int,
                );
                let there = apart(
                    doubled_middle(elsewhere, width, available as int),
                    available as int,
                );
                here < there || here == there && other <= place
            }
        }),
{
    let place = centered_scroll(widths, focused, available);
    lemma_centered_scroll(widths, focused, available);
    if available > 0 {
        lemma_cells_of_a_run(widths.subrange(place, focused));
        lemma_lead_is_not_negative(widths, place, focused);
        if 0 <= other <= focused {
            lemma_cells_of_a_run(widths.subrange(other, focused));
            lemma_lead_is_not_negative(widths, other, focused);
            if lead(widths, other, focused) < available {
                assert(shows(widths, other, focused, available));
            }
        }
    }
}

pub(crate) proof fn lemma_lead_is_not_negative(widths: Seq<u16>, start: int, focused: int)
    requires
        0 <= start <= focused <= widths.len(),
    ensures
        cells_before(widths, start, focused) == lead(widths, start, focused),
        lead(widths, start, focused) >= 0,
{
    lemma_cells_of_a_run(widths.subrange(start, focused));
}

} // verus!
