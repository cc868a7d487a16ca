//! How the status areas are painted.

use vstd::prelude::*;

use crate::model::{
    ClientShellStatusColor, ClientShellStatusSpan, ClientShellTabStatusSegment, Palette,
};
use crate::paint::{Canvas, Color, PaintView, Style};
use crate::rect::{sum16, Rect};
use crate::scroll::total;
use crate::status::{segment_widths, status_cells};
use crate::text::{cells, display_width};

verus! {

/// The background of the tab row.
pub open spec fn row_bg(palette: Palette) -> Color {
    match palette.tab_bar_bg {
        Some(color) => color,
        None => palette.panel_bg,
    }
}

/// The background of the tab row: its own color, or that of panels.
pub fn tab_bar_bg(palette: &Palette) -> (color: Color)
    ensures
        color == row_bg(*palette),
{
    match palette.tab_bar_bg {
        Some(color) => color,
        None => palette.panel_bg,
    }
}

/// The color that a status color stands for. A direct color goes before one of
/// the terminal's palette.
pub open spec fn terminal_color(color: Option<ClientShellStatusColor>) -> Option<Color> {
    match color {
        Some(ClientShellStatusColor { rgb: Some((red, green, blue)), indexed: _ }) => Some(
            Color::Rgb(red, green, blue),
        ),
        Some(ClientShellStatusColor { rgb: None, indexed: Some(index) }) => Some(
            Color::Indexed(index),
        ),
        _ => None,
    }
}

/// The color that a status color stands for.
pub fn status_color(color: Option<ClientShellStatusColor>) -> (terminal: Option<Color>)
    ensures
        terminal == terminal_color(color),
{
    match color {
        None => None,
        Some(color) => match (color.rgb, color.indexed) {
            (Some((red, green, blue)), _) => Some(Color::Rgb(red, green, blue)),
            (None, Some(index)) => Some(Color::Indexed(index)),
            (None, None) => None,
        },
    }
}

/// A piece of text to paint, with the cells that it takes.
#[derive(Debug, Clone, PartialEq, Eq)]
pub struct StatusRun {
    pub text: String,
    pub width: u16,
    pub style: Style,
}

/// What a piece of text stands for.
pub struct RunView {
    pub text: Seq<char>,
    pub width: u16,
    pub style: Style,
}

impl View for StatusRun {
    type V = RunView;

    open spec fn view(&self) -> RunView {
        RunView { text: self.text@, width: self.width, style: self.style }
    }
}

/// The views of a list of runs.
pub open spec fn run_views(runs: Seq<StatusRun>) -> Seq<RunView> {
    runs.map_values(|run: StatusRun| run@)
}

/// A run with the width that its text has on screen.
pub open spec fn run_of(text: Seq<char>, style: Style) -> RunView {
    RunView { text, width: cells(text), style }
}

/// The style of an accented segment.
pub open spec fn accent_style(palette: Palette) -> Style {
    Style { fg: Some(palette.panel_contrast_fg), bg: Some(palette.accent), bold: true }
}

/// The style of a segment without one of its own.
pub open spec fn plain_style(palette: Palette) -> Style {
    Style { fg: Some(palette.overlay1), bg: Some(row_bg(palette)), bold: false }
}

/// The style of a separator.
pub open spec fn separator_style(palette: Palette) -> Style {
    Style { fg: Some(palette.overlay0), bg: Some(row_bg(palette)), bold: false }
}

/// The style of a span: its own colors, and those of plain text where it has none.
pub open spec fn span_style(span: ClientShellStatusSpan, palette: Palette) -> Style {
    Style {
        fg: match terminal_color(span.fg) {
            Some(color) => Some(color),
            None => Some(palette.overlay1),
        },
        bg: match terminal_color(span.bg) {
            Some(color) => Some(color),
            None => Some(row_bg(palette)),
        },
        bold: span.bold,
    }
}

/// The runs of a segment: its spans, or its text where it has none or is accented.
pub open spec fn segment_runs(
    segment: ClientShellTabStatusSegment,
    palette: Palette,
) -> Seq<RunView> {
    if segment.accent {
        seq![run_of(segment.text@, accent_style(palette))]
    } else if segment.spans@.len() == 0 {
        seq![run_of(segment.text@, plain_style(palette))]
    } else {
        segment.spans@.map_values(
            |span: ClientShellStatusSpan| run_of(span.text@, span_style(span, palette)),
        )
    }
}

/// The run between two segments, if the separator takes any cells.
pub open spec fn separator_runs(separator: Seq<char>, palette: Palette) -> Seq<RunView> {
    if cells(separator) > 0 {
        seq![run_of(separator, separator_style(palette))]
    } else {
        Seq::empty()
    }
}

/// The runs of a status area, from left to right.
pub open spec fn area_runs(
    segments: Seq<ClientShellTabStatusSegment>,
    separator: Seq<char>,
    palette: Palette,
) -> Seq<RunView>
    decreases segments.len(),
{
    if segments.len() == 0 {
        Seq::empty()
    } else if segments.len() == 1 {
        segment_runs(segments[0], palette)
    } else {
        area_runs(segments.drop_last(), separator, palette) + separator_runs(separator, palette)
            + segment_runs(segments.last(), palette)
    }
}

/// The cells that the runs take together.
pub open spec fn runs_cells(runs: Seq<RunView>) -> nat
    decreases runs.len(),
{
    if runs.len() == 0 {
        0
    } else {
        runs_cells(runs.drop_last()) + runs.last().width as nat
    }
}

/// The runs painted end to end from `(x, y)` on.
pub open spec fn placed_runs(runs: Seq<RunView>, x: u16, y: u16) -> Seq<PaintView> {
    Seq::new(
        runs.len(),
        |k: int|
            PaintView::Text {
                x: sum16(x as int, runs_cells(runs.take(k)) as int),
                y,
                width: runs[k].width,
                text: runs[k].text,
                style: runs[k].style,
            },
    )
}

/// What is painted for a status area: nothing where it is not shown.
pub open spec fn status_paint(
    status: Option<Rect>,
    segments: Seq<ClientShellTabStatusSegment>,
    separator: Seq<char>,
    palette: Palette,
) -> Seq<PaintView> {
    match status {
        Some(status) => placed_runs(area_runs(segments, separator, palette), status.x, status.y),
        None => Seq::empty(),
    }
}

fn push_run(runs: &mut Vec<StatusRun>, text: &str, style: Style)
    ensures
        run_views(final(runs)@) == run_views(old(runs)@).push(run_of(text@, style)),
{
    let run = StatusRun { text: text.to_owned(), width: display_width(text), style };
    runs.push(run);
    assert(run_views(runs@) =~= run_views(old(runs)@).push(run_of(text@, style)));
}

fn push_segment(
    runs: &mut Vec<StatusRun>,
    segment: &ClientShellTabStatusSegment,
    palette: &Palette,
)
    ensures
        run_views(final(runs)@) == run_views(old(runs)@) + segment_runs(*segment, *palette),
{
    let bg = tab_bar_bg(palette);
    let ghost before = run_views(runs@);
    let ghost all = segment_runs(*segment, *palette);
    if segment.accent {
        push_run(
            runs,
            segment.text.as_str(),
            Style { fg: Some(palette.panel_contrast_fg), bg: Some(palette.accent), bold: true },
        );
        assert(run_views(runs@) =~= before + all);
    } else if segment.spans.len() == 0 {
        push_run(
            runs,
            segment.text.as_str(),
            Style { fg: Some(palette.overlay1), bg: Some(bg), bold: false },
        );
        assert(run_views(runs@) =~= before + all);
    } else {
        let mut i: usize = 0;
        assert(before =~= before + all.take(0));
        while i < segment.spans.len()
            invariant
                i <= segment.spans.len(),
                all.len() == segment.spans.len(),
                bg == row_bg(*palette),
                !segment.accent,
                segment.spans@.len() > 0,
                all == segment_runs(*segment, *palette),
                run_views(runs@) == before + all.take(i as int),
            decreases segment.spans.len() - i,
        {
            let span = &segment.spans[i];
            let style = Style {
                fg: match status_color(span.fg) {
                    Some(color) => Some(color),
                    None => Some(palette.overlay1),
                },
                bg: match status_color(span.bg) {
                    Some(color) => Some(color),
                    None => Some(bg),
                },
                bold: span.bold,
            };
            push_run(runs, span.text.as_str(), style);
            assert(before + all.take(i + 1) =~= (before + all.take(i as int)).push(all[i as int]));
            i = i + 1;
        }
        assert(all.take(i as int) =~= all);
    }
}

/// The run between two segments, for a separator of `width` cells. There is none
/// where it takes no cell.
pub fn separator_run(separator: &str, width: u16, palette: &Palette) -> (run: Option<StatusRun>)
    ensures
        match run {
            Some(run) => width > 0 && run@ == (RunView {
                text: separator@,
                width,
                style: separator_style(*palette),
            }),
            None => width == 0,
        },
{
    if width == 0 {
        return None;
    }
    let style = Style {
        fg: Some(palette.overlay0),
        bg: Some(tab_bar_bg(palette)),
        bold: false,
    };
    Some(StatusRun { text: separator.to_owned(), width, style })
}

/// The runs of a status area, with the cells that each of them takes.
pub fn status_runs(
    segments: &[ClientShellTabStatusSegment],
    separator: &str,
    palette: &Palette,
) -> (runs: Vec<StatusRun>)
    ensures
        run_views(runs@) == area_runs(segments@, separator@, *palette),
{
    let separator_width: u16 = display_width(separator);
    let mut runs: Vec<StatusRun> = Vec::new();
    let mut i: usize = 0;
    assert(run_views(runs@) =~= area_runs(segments@.take(0), separator@, *palette));
    while i < segments.len()
        invariant
            i <= segments.len(),
            separator_width == cells(separator@),
            run_views(runs@) == area_runs(segments@.take(i as int), separator@, *palette),
        decreases segments.len() - i,
    {
        let ghost done = run_views(runs@);
        if i > 0 {
            if let Some(run) = separator_run(separator, separator_width, palette) {
                runs.push(run);
            }
        }
        let ghost separated = if i > 0 {
            done + separator_runs(separator@, *palette)
        } else {
            done
        };
        assert(run_views(runs@) =~= separated);
        push_segment(&mut runs, &segments[i], palette);
        proof {
            let next = segments@.take(i + 1);
            assert(next.drop_last() =~= segments@.take(i as int));
            assert(next.last() == segments@[i as int]);
            assert(run_views(runs@) =~= area_runs(next, separator@, *palette));
        }
        i = i + 1;
    }
    assert(segments@.take(i as int) =~= segments@);
    runs
}

/// Paints the runs end to end from `(x, y)` on.
pub fn paint_runs(buffer: &mut Canvas, runs: &[StatusRun], x: u16, y: u16)
    ensures
        final(buffer)@ == old(buffer)@ + placed_runs(run_views(runs@), x, y),
{
    let ghost before = buffer@;
    let ghost views = run_views(runs@);
    let ghost all = placed_runs(views, x, y);
    let mut column: u16 = x;
    let mut i: usize = 0;
    assert(before =~= before + all.take(0));
    assert(views.take(0) =~= Seq::<RunView>::empty());
    while i < runs.len()
        invariant
            i <= runs.len(),
            views == run_views(runs@),
            all == placed_runs(views, x, y),
            column == sum16(x as int, runs_cells(views.take(i as int)) as int),
            buffer@ == before + all.take(i as int),
        decreases runs.len() - i,
    {
        let run = &runs[i];
        assert(views[i as int] == run@);
        buffer.put_text(column, y, run.width, run.text.as_str(), run.style);
        column = column.saturating_add(run.width);
        proof {
            assert(views.take(i + 1).drop_last() =~= views.take(i as int));
            assert(before + all.take(i + 1) =~= (before + all.take(i as int)).push(all[i as int]));
        }
        i = i + 1;
    }
    assert(all.take(i as int) =~= all);
}

/// Paints a status area.
pub fn render_tab_bar_status(
    buffer: &mut Canvas,
    status: Option<Rect>,
    segments: &[ClientShellTabStatusSegment],
    separator: &str,
    palette: &Palette,
)
    ensures
        final(buffer)@ == old(buffer)@ + status_paint(status, segments@, separator@, *palette),
{
    let status = match status {
        Some(status) => status,
        None => {
            assert(buffer@ =~= buffer@ + Seq::<PaintView>::empty());
            return;
        },
    };
    let runs = status_runs(segments, separator, palette);
    paint_runs(buffer, runs.as_slice(), status.x, status.y);
}

proof fn lemma_runs_cells_join(a: Seq<RunView>, b: Seq<RunView>)
    ensures
        runs_cells(a + b) == runs_cells(a) + runs_cells(b),
    decreases b.len(),
{
    if b.len() == 0 {
        assert(a + b =~= a);
    } else {
        assert((a + b).drop_last() =~= a + b.drop_last());
        lemma_runs_cells_join(a, b.drop_last());
    }
}

/// The cells that the spans of a segment take together, or its text where the
/// spans are not painted.
pub open spec fn painted_cells(segment: ClientShellTabStatusSegment, palette: Palette) -> nat {
    runs_cells(segment_runs(segment, palette))
}

/// A status area is as wide as what is painted in it, where the spans of each
/// segment take as many cells as its text.
pub proof fn lemma_status_is_as_wide_as_painted(
    segments: Seq<ClientShellTabStatusSegment>,
    separator: Seq<char>,
    palette: Palette,
)
    requires
        forall|i: int|
            0 <= i < segments.len() ==> #[trigger] painted_cells(segments[i], palette) == cells(
                segments[i].text@,
            ),
    ensures
        status_cells(segments, separator) == sum16(
            runs_cells(area_runs(segments, separator, palette)) as int,
            0,
        ),
{
    lemma_area_runs_cells(segments, separator, palette);
}

proof fn lemma_area_runs_cells(
    segments: Seq<ClientShellTabStatusSegment>,
    separator: Seq<char>,
    palette: Palette,
)
    requires
        forall|i: int|
            0 <= i < segments.len() ==> #[trigger] painted_cells(segments[i], palette) == cells(
                segments[i].text@,
            ),
    ensures
        runs_cells(area_runs(segments, separator, palette)) == total(segment_widths(segments))
            + cells(separator) * (if segments.len() == 0 {
            0
        } else {
            segments.len() - 1
        }),
    decreases segments.len(),
{
    let width = cells(separator) as int;
    let separators = if segments.len() == 0 {
        0
    } else {
        segments.len() - 1
    };
    assert(separators == 0 ==> width * separators == 0) by (nonlinear_arith);
    if segments.len() > 0 {
        assert(segment_widths(segments).drop_last() =~= segment_widths(segments.drop_last()));
    }
    if segments.len() == 0 {
    } else if segments.len() == 1 {
        assert(painted_cells(segments[0], palette) == cells(segments[0].text@));
        reveal_with_fuel(total, 2);
        assert(segments.drop_last() =~= Seq::<ClientShellTabStatusSegment>::empty());
    } else {
        let fewer = segments.drop_last();
        assert forall|i: int| 0 <= i < fewer.len() implies #[trigger] painted_cells(
            fewer[i],
            palette,
        ) == cells(fewer[i].text@) by {
            assert(painted_cells(segments[i], palette) == cells(segments[i].text@));
        }
        lemma_area_runs_cells(fewer, separator, palette);
        let start = area_runs(fewer, separator, palette);
        let middle = separator_runs(separator, palette);
        let end = segment_runs(segments.last(), palette);
        lemma_runs_cells_join(start + middle, end);
        lemma_runs_cells_join(start, middle);
        reveal_with_fuel(runs_cells, 2);
        assert(runs_cells(middle) == cells(separator));
        assert(painted_cells(segments[segments.len() - 1], palette) == cells(
            segments[segments.len() - 1].text@,
        ));
        let n = segments.len() as int;
        assert(width * (n - 2) + width == width * (n - 1)) by (nonlinear_arith);
    }
}

/// Segments without spans, and accented ones, are painted as wide as their text.
pub proof fn lemma_plain_segments_are_as_wide_as_their_text(
    segment: ClientShellTabStatusSegment,
    palette: Palette,
)
    requires
        segment.accent || segment.spans@.len() == 0,
    ensures
        painted_cells(segment, palette) == cells(segment.text@),
{
    reveal_with_fuel(runs_cells, 2);
}

} // verus!
