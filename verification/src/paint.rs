//! What is painted: colors, styles, and the list of paint steps.

use vstd::prelude::*;

use crate::rect::Rect;

verus! {

/// A terminal color.
#[derive(Debug, Clone, Copy, PartialEq, Eq, Structural)]
pub enum Color {
    Reset,
    Black,
    Red,
    Green,
    Yellow,
    Blue,
    Magenta,
    Cyan,
    Gray,
    DarkGray,
    LightRed,
    LightGreen,
    LightYellow,
    LightBlue,
    LightMagenta,
    LightCyan,
    White,
    Rgb(u8, u8, u8),
    Indexed(u8),
}

/// How text is painted. A color that is not set leaves the cell's color as it is.
#[derive(Debug, Clone, Copy, PartialEq, Eq)]
pub struct Style {
    pub fg: Option<Color>,
    pub bg: Option<Color>,
    pub bold: bool,
}

/// One step of painting.
#[derive(Debug, Clone, PartialEq, Eq)]
pub enum Paint {
    /// Gives every cell of `area` the style.
    Fill { area: Rect, style: Style },
    /// Writes `text` from `(x, y)` on, over at most `width` cells.
    Text { x: u16, y: u16, width: u16, text: String, style: Style },
}

/// What a paint step stands for.
pub enum PaintView {
    Fill { area: Rect, style: Style },
    Text { x: u16, y: u16, width: u16, text: Seq<char>, style: Style },
}

impl View for Paint {
    type V = PaintView;

    open spec fn view(&self) -> PaintView {
        match *self {
            Paint::Fill { area, style } => PaintView::Fill { area, style },
            Paint::Text { x, y, width, text, style } => PaintView::Text {
                x,
                y,
                width,
                text: text@,
                style,
            },
        }
    }
}

/// A list of paint steps, in the order in which they are carried out.
#[derive(Debug, Clone, PartialEq, Eq)]
pub struct Canvas {
    pub steps: Vec<Paint>,
}

impl View for Canvas {
    type V = Seq<PaintView>;

    open spec fn view(&self) -> Seq<PaintView> {
        self.steps@.map_values(|step: Paint| step@)
    }
}

impl Canvas {
    /// A canvas with nothing painted.
    pub fn new() -> (canvas: Canvas)
        ensures
            canvas@ == Seq::<PaintView>::empty(),
            canvas.steps@.len() == 0,
    {
        let canvas = Canvas { steps: Vec::new() };
        assert(canvas@ =~= Seq::<PaintView>::empty());
        canvas
    }

    /// Adds a step that gives every cell of `area` the style.
    pub fn set_style(&mut self, area: Rect, style: Style)
        ensures
            final(self)@ == old(self)@.push(PaintView::Fill { area, style }),
            final(self).steps@ == old(self).steps@.push(Paint::Fill { area, style }),
    {
        self.steps.push(Paint::Fill { area, style });
        assert(self@ =~= old(self)@.push(PaintView::Fill { area, style }));
    }

    /// Adds a step that writes `text` from `(x, y)` on, over at most `width` cells.
    pub fn put_text(&mut self, x: u16, y: u16, width: u16, text: &str, style: Style)
        ensures
            final(self)@ == old(self)@.push(
                PaintView::Text { x, y, width, text: text@, style },
            ),
            final(self).steps@.len() == old(self).steps@.len() + 1,
            final(self).steps@.drop_last() == old(self).steps@,
            final(self).steps@.last()@ == (PaintView::Text { x, y, width, text: text@, style }),
    {
        self.steps.push(Paint::Text { x, y, width, text: text.to_owned(), style });
        assert(self@ =~= old(self)@.push(PaintView::Text { x, y, width, text: text@, style }));
    }
}

} // verus!
