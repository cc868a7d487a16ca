//! What is painted for a status area: every segment, in its own style, one after
//! the other.

use vstd::prelude::*;

use crate::model::{
    ClientShellStatusColor, ClientShellStatusSpan, ClientShellTabStatusSegment, Palette,
};
use crate::paint::{Canvas, Color, Paint, PaintView};
use crate::rect::Rect;
use crate::status_paint::{
    area_runs, placed_runs, row_bg, run_views, segment_runs, separator_runs, span_style,
    status_paint, terminal_color, RunView, StatusRun,
};
use crate::text::cells;

verus! {

/// The row has the background that is set for it, or else that of panels.
pub proof fn lemma_background_of_the_row(palette: Palette)
    ensures
        match palette.tab_bar_bg {
            Some(color) => row_bg(palette) == color,
            None => row_bg(palette) == palette.panel_bg,
        },
{
}

/// Whether `painted` is the color that a status color names, a direct one before
/// one of the terminal's palette, or `otherwise` where it names none.
pub open spec fn is_painted_as(
    color: Option<ClientShellStatusColor>,
    otherwise: Color,
    painted: Option<Color>,
) -> bool {
    match color {
        Some(color) => {
            &&& color.rgb matches Some((red, green, blue)) ==> painted == Some(
                Color::Rgb(red, green, blue),
            )
            &&& color.rgb is None && color.indexed is Some ==> painted == Some(
                Color::Indexed(color.indexed->0),
            )
            &&& color.rgb is None && color.indexed is None ==> painted == Some(otherwise)
        },
        None => painted == Some(otherwise),
    }
}

/// A status color stands for its direct color, or else for that of the terminal's
/// palette, or else for none.
pub proof fn lemma_direct_colors_come_first(
    color: Option<ClientShellStatusColor>,
    otherwise: Color,
)
    ensures
        is_painted_as(
            color,
            otherwise,
            match terminal_color(color) {
                Some(color) => Some(color),
                None => Some(otherwise),
            },
        ),
        terminal_color(color) is None <==> match color {
            Some(color) => color.rgb is None && color.indexed is None,
            None => true,
        },
{
}

/// Each color of a span is its own wherever it names one, whatever its other color
/// is, and it is bold exactly if it says so.
pub proof fn lemma_spans_keep_their_colors(span: ClientShellStatusSpan, palette: Palette)
    ensures
        is_painted_as(span.fg, palette.overlay1, span_style(span, palette).fg),
        is_painted_as(span.bg, row_bg(palette), span_style(span, palette).bg),
        span_style(span, palette).bold == span.bold,
{
}

proof fn lemma_placed_runs_join(a: Seq<RunView>, b: Seq<RunView>, x: u16, y: u16)
    ensures
        placed_runs(a + b, x, y).take(a.len() as int) == placed_runs(a, x, y),
{
    assert forall|k: int| 0 <= k < a.len() implies placed_runs(a + b, x, y)[k]
        == #[trigger] placed_runs(a, x, y)[k] by {
        assert((a + b).take(k) =~= a.take(k));
    }
    assert(placed_runs(a + b, x, y).take(a.len() as int) =~= placed_runs(a, x, y));
}

/// The number of steps that a segment is painted in: one for each of its spans, or
/// one for its text if it has none or is accented.
pub open spec fn steps_of(segment: ClientShellTabStatusSegment) -> nat {
    if segment.accent || segment.spans@.len() == 0 {
        1
    } else {
        segment.spans@.len()
    }
}

/// The number of steps for the separator before one more segment: one if it takes
/// a cell and has a segment before it.
pub open spec fn steps_between(
    segments: Seq<ClientShellTabStatusSegment>,
    separator: Seq<char>,
) -> nat {
    if segments.len() > 0 && cells(separator) > 0 {
        1
    } else {
        0
    }
}

proof fn lemma_area_runs_push(
    segments: Seq<ClientShellTabStatusSegment>,
    segment: ClientShellTabStatusSegment,
    separator: Seq<char>,
    palette: Palette,
)
    ensures
        ({
            let between = if segments.len() == 0 {
                Seq::<RunView>::empty()
            } else {
                separator_runs(separator, palette)
            };
            area_runs(segments.push(segment), separator, palette) == area_runs(
                segments,
                separator,
                palette,
            ) + (between + segment_runs(segment, palette))
        }),
{
    let more = segments.push(segment);
    let between = if segments.len() == 0 {
        Seq::<RunView>::empty()
    } else {
        separator_runs(separator, palette)
    };
    assert(more.drop_last() =~= segments);
    assert(area_runs(more, separator, palette) =~= area_runs(segments, separator, palette) + (
    between + segment_runs(segment, palette)));
}

/// Nothing is painted for a status that is not shown, or for one without segments.
/// One more segment is painted behind those before it, after a separator if there
/// is one, and leaves what is painted for them as it was.
pub proof fn lemma_segments_are_painted_in_order(
    status: Rect,
    segments: Seq<ClientShellTabStatusSegment>,
    segment: ClientShellTabStatusSegment,
    separator: Seq<char>,
    palette: Palette,
)
    ensures
        status_paint(None, segments, separator, palette).len() == 0,
        segments.len() == 0 ==> status_paint(Some(status), segments, separator, palette).len() == 0,
        ({
            let before = status_paint(Some(status), segments, separator, palette);
            let after = status_paint(Some(status), segments.push(segment), separator, palette);
            &&& after.take(before.len() as int) == before
            &&& after.len() == before.len() + steps_between(segments, separator) + steps_of(segment)
        }),
{
    let between = if segments.len() == 0 {
        Seq::<RunView>::empty()
    } else {
        separator_runs(separator, palette)
    };
    lemma_area_runs_push(segments, segment, separator, palette);
    lemma_placed_runs_join(
        area_runs(segments, separator, palette),
        between + segment_runs(segment, palette),
        status.x,
        status.y,
    );
}

/// Whether a step writes a text over all of its cells in the given line.
pub open spec fn writes(step: PaintView, y: u16, text: Seq<char>) -> bool {
    &&& step is Text
    &&& step->y == y
    &&& step->text == text
    &&& step->width == cells(text)
}

/// The separator between two segments is painted in the style of separators.
pub proof fn lemma_separators_are_painted(
    status: Rect,
    segments: Seq<ClientShellTabStatusSegment>,
    segment: ClientShellTabStatusSegment,
    separator: Seq<char>,
    palette: Palette,
)
    requires
        segments.len() > 0,
        cells(separator) > 0,
    ensures
        ({
            let before = status_paint(Some(status), segments, separator, palette).len() as int;
            let step = status_paint(
                Some(status),
                segments.push(segment),
                separator,
                palette,
            )[before];
            &&& writes(step, status.y, separator)
            &&& step->Text_style.fg == Some(palette.overlay0)
            &&& step->Text_style.bg == Some(row_bg(palette))
            &&& !step->Text_style.bold
        }),
{
    lemma_area_runs_push(segments, segment, separator, palette);
}

/// A segment that is accented or has no spans is painted as its text. An accented
/// one is bold, in the accent color and in the foreground that stands out against
/// it, whatever spans it has. Another one is in the colors of plain text.
pub proof fn lemma_plain_and_accented_segments_are_painted(
    status: Rect,
    segments: Seq<ClientShellTabStatusSegment>,
    segment: ClientShellTabStatusSegment,
    separator: Seq<char>,
    palette: Palette,
)
    requires
        segment.accent || segment.spans@.len() == 0,
    ensures
        ({
            let step = status_paint(
                Some(status),
                segments.push(segment),
                separator,
                palette,
            ).last();
            &&& writes(step, status.y, segment.text@)
            &&& segment.accent ==> {
                &&& step->Text_style.fg == Some(palette.panel_contrast_fg)
                &&& step->Text_style.bg == Some(palette.accent)
                &&& step->Text_style.bold
            }
            &&& !segment.accent ==> {
                &&& step->Text_style.fg == Some(palette.overlay1)
                &&& step->Text_style.bg == Some(row_bg(palette))
                &&& !step->Text_style.bold
            }
        }),
{
    lemma_area_runs_push(segments, segment, separator, palette);
}

/// The spans of a segment that is not accented are painted in their order, each as
/// its text. The step has the span's own background wherever it names one, whatever
/// its foreground is, and its own foreground whatever its background is, and is
/// bold exactly if the span is.
pub proof fn lemma_spans_are_painted_in_their_colors(
    status: Rect,
    segments: Seq<ClientShellTabStatusSegment>,
    segment: ClientShellTabStatusSegment,
    separator: Seq<char>,
    palette: Palette,
    i: int,
)
    requires
        !segment.accent,
        0 <= i < segment.spans@.len(),
    ensures
        ({
            let paint = status_paint(Some(status), segments.push(segment), separator, palette);
            let span = segment.spans@[i];
            let step = paint[paint.len() - segment.spans@.len() + i];
            &&& writes(step, status.y, span.text@)
            &&& is_painted_as(span.fg, palette.overlay1, step->Text_style.fg)
            &&& is_painted_as(span.bg, row_bg(palette), step->Text_style.bg)
            &&& step->Text_style.bold == span.bold
        }),
{
    lemma_area_runs_push(segments, segment, separator, palette);
    lemma_spans_keep_their_colors(segment.spans@[i], palette);
}

/// Runs are painted in their order, each as it is: the first one at the given
/// place, and each other one where the one before it ends, as far as coordinates go.
pub proof fn lemma_runs_are_painted_end_to_end(runs: Seq<RunView>, x: u16, y: u16, k: int)
    ensures
        placed_runs(runs, x, y).len() == runs.len(),
        0 <= k < runs.len() ==> {
            let paint = placed_runs(runs, x, y);
            &&& paint[k] is Text
            &&& paint[k]->y == y
            &&& paint[k]->width == runs[k].width
            &&& paint[k]->text == runs[k].text
            &&& paint[k]->Text_style == runs[k].style
            &&& k == 0 ==> paint[k]->x == x
            &&& k > 0 ==> {
                let end = paint[k - 1]->x + runs[k - 1].width;
                &&& paint[k]->x <= end
                &&& paint[k]->x < end ==> paint[k]->x == u16::MAX
            }
        },
{
    if 0 < k < runs.len() {
        assert(runs.take(k).drop_last() =~= runs.take(k - 1));
        assert(runs.take(k).last() == runs[k - 1]);
    } else {
        assert(runs.take(0) =~= Seq::<RunView>::empty());
    }
}

/// What is painted for a status starts in its first column, and each step starts
/// where the one before it ends, as far as coordinates go.
pub proof fn lemma_status_is_painted_end_to_end(
    status: Rect,
    segments: Seq<ClientShellTabStatusSegment>,
    separator: Seq<char>,
    palette: Palette,
    k: int,
)
    requires
        0 <= k < status_paint(Some(status), segments, separator, palette).len(),
    ensures
        ({
            let paint = status_paint(Some(status), segments, separator, palette);
            &&& paint[k] is Text
            &&& paint[k]->y == status.y
            &&& k == 0 ==> paint[k]->x == status.x
            &&& k > 0 ==> {
                let end = paint[k - 1]->x + paint[k - 1]->width;
                &&& paint[k]->x <= end
                &&& paint[k]->x < end ==> paint[k]->x == u16::MAX
            }
        }),
{
    lemma_runs_are_painted_end_to_end(
        area_runs(segments, separator, palette),
        status.x,
        status.y,
        k,
    );
}

/// A canvas stands for its steps and a list of runs for its runs, one for one.
pub proof fn lemma_lists_stand_for_what_they_hold(canvas: Canvas, runs: Seq<StatusRun>)
    ensures
        canvas@.len() == canvas.steps@.len(),
        forall|k: int| 0 <= k < canvas@.len() ==> #[trigger] canvas@[k] == canvas.steps@[k]@,
        run_views(runs).len() == runs.len(),
        forall|k: int| 0 <= k < runs.len() ==> #[trigger] run_views(runs)[k] == runs[k]@,
{
}

/// A run and a step stand for their own fields.
pub proof fn lemma_runs_and_steps_stand_for_their_fields(run: StatusRun, step: Paint)
    ensures
        run@.text == run.text@ && run@.width == run.width && run@.style == run.style,
        match step {
            Paint::Fill { area, style } => step@ is Fill && step@->area == area
                && step@->Fill_style == style,
            Paint::Text { x, y, width, text, style } => step@ is Text && step@->x == x && step@->y
                == y && step@->width == width && step@->text == text@ && step@->Text_style == style,
        },
{
}

} // verus!
