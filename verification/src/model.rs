//! What the shell knows of its tabs, its status segments and its theme.

use vstd::prelude::*;

use crate::paint::Color;
use crate::rect::Rect;

verus! {

/// The fewest cells that a tab asks for.
pub const MIN_TAB_WIDTH: u16 = 8;

/// The width of the button that opens a tab.
pub const NEW_TAB_WIDTH: u16 = 3;

/// The width of each of the two buttons that scroll the tabs.
pub const TAB_SCROLL_BUTTON_WIDTH: u16 = 3;

/// The fewest cells that the status areas leave to the tabs: one tab, the
/// button for a new one, and both scroll buttons.
pub const MIN_TAB_STRIP_WIDTH: u16 = MIN_TAB_WIDTH + NEW_TAB_WIDTH + TAB_SCROLL_BUTTON_WIDTH + TAB_SCROLL_BUTTON_WIDTH;

/// The colors of the tab row.
#[derive(Debug, Clone, PartialEq, Eq)]
pub struct Palette {
    pub accent: Color,
    pub panel_bg: Color,
    /// The foreground that stands out against the accent color.
    pub panel_contrast_fg: Color,
    pub surface0: Color,
    pub overlay0: Color,
    pub overlay1: Color,
    pub tab_bar_bg: Option<Color>,
    pub tab_active_fg: Option<Color>,
    pub tab_active_bg: Option<Color>,
    pub tab_active_bold: bool,
    pub tab_inactive_fg: Option<Color>,
}

/// The settings of the shell that the tab row depends on.
#[derive(Debug, Clone, PartialEq, Eq)]
pub struct ClientShellConfig {
    pub palette: Palette,
    /// Whether the mouse is captured, so that buttons are drawn.
    pub mouse_capture: bool,
}

/// A tab.
#[derive(Debug, Clone, PartialEq, Eq)]
pub struct ClientShellTab {
    pub tab_id: String,
    pub workspace_id: String,
    pub label: String,
    pub custom_label: bool,
    pub focused: bool,
    pub zoomed: bool,
}

/// A color of a status span: direct, or of the terminal's palette.
#[derive(Debug, Clone, Copy, PartialEq, Eq)]
pub struct ClientShellStatusColor {
    pub rgb: Option<(u8, u8, u8)>,
    pub indexed: Option<u8>,
}

/// A part of a status segment with a style of its own.
#[derive(Debug, Clone, PartialEq, Eq)]
pub struct ClientShellStatusSpan {
    pub text: String,
    pub fg: Option<ClientShellStatusColor>,
    pub bg: Option<ClientShellStatusColor>,
    pub bold: bool,
}

/// A segment of a status area.
#[derive(Debug, Clone, PartialEq, Eq)]
pub struct ClientShellTabStatusSegment {
    pub text: String,
    pub accent: bool,
    pub spans: Vec<ClientShellStatusSpan>,
}

/// What the shell shows.
#[derive(Debug, Clone, PartialEq, Eq)]
pub struct ClientShellSnapshot {
    pub focused_workspace_id: Option<String>,
    pub tabs: Vec<ClientShellTab>,
    pub tab_bar_left: Vec<ClientShellTabStatusSegment>,
    pub tab_bar_left_separator: String,
    pub tab_bar_right: Vec<ClientShellTabStatusSegment>,
    pub tab_bar_right_separator: String,
}

/// Where the mouse hits what.
#[derive(Debug, Clone, PartialEq, Eq)]
pub struct ShellHitMap {
    /// The drawn tabs, each with its identifier.
    pub tabs: Vec<(Rect, String)>,
    pub tab_scroll_left: Rect,
    pub tab_scroll_right: Rect,
    pub new_tab: Rect,
}

/// What a hit map stands for.
pub struct HitsView {
    pub tabs: Seq<(Rect, Seq<char>)>,
    pub tab_scroll_left: Rect,
    pub tab_scroll_right: Rect,
    pub new_tab: Rect,
}

impl View for ShellHitMap {
    type V = HitsView;

    open spec fn view(&self) -> HitsView {
        HitsView {
            tabs: self.tabs@.map_values(|hit: (Rect, String)| (hit.0, hit.1@)),
            tab_scroll_left: self.tab_scroll_left,
            tab_scroll_right: self.tab_scroll_right,
            new_tab: self.new_tab,
        }
    }
}

} // verus!
