use tab_bar::model::{
    ClientShellSnapshot, ClientShellStatusColor, ClientShellStatusSpan,
    ClientShellTabStatusSegment, Palette, MIN_TAB_STRIP_WIDTH,
};
use tab_bar::paint::{Canvas, Color, Paint, Style};
use tab_bar::rect::Rect;
use tab_bar::status::{
    joined_width, place_content, place_left_status, place_right_status, status_width, tab_bar_content_area,
    tab_bar_status_left_area, tab_bar_status_right_area, tab_bar_status_width,
};
use tab_bar::status_paint::{
    paint_runs, render_tab_bar_status, separator_run, status_color, status_runs, tab_bar_bg,
    StatusRun,
};
use tab_bar::text::display_width;

fn rect(x: u16, y: u16, width: u16, height: u16) -> Rect {
    Rect { x, y, width, height }
}

fn palette() -> Palette {
    Palette {
        accent: Color::Blue,
        panel_bg: Color::Black,
        panel_contrast_fg: Color::White,
        surface0: Color::DarkGray,
        overlay0: Color::Gray,
        overlay1: Color::Cyan,
        tab_bar_bg: None,
        tab_active_fg: None,
        tab_active_bg: None,
        tab_active_bold: false,
        tab_inactive_fg: None,
    }
}

fn plain(text: &str) -> ClientShellTabStatusSegment {
    ClientShellTabStatusSegment {
        text: text.to_string(),
        accent: false,
        spans: vec![],
    }
}

fn snapshot(left: &[&str], right: &[&str]) -> ClientShellSnapshot {
    ClientShellSnapshot {
        focused_workspace_id: None,
        tabs: vec![],
        tab_bar_left: left.iter().map(|text| plain(text)).collect(),
        tab_bar_left_separator: " ".to_string(),
        tab_bar_right: right.iter().map(|text| plain(text)).collect(),
        tab_bar_right_separator: " | ".to_string(),
    }
}

fn style(fg: Color, bg: Color, bold: bool) -> Style {
    Style {
        fg: Some(fg),
        bg: Some(bg),
        bold,
    }
}

#[test]
fn wide_characters_take_two_cells() {
    assert_eq!(display_width(""), 0);
    assert_eq!(display_width("tab"), 3);
    assert_eq!(display_width("日本"), 4);
    assert_eq!(display_width("e\u{301}"), 1);
}

#[test]
fn display_widths_stop_at_the_largest_coordinate() {
    assert_eq!(display_width(&"x".repeat(65_534)), u16::MAX - 1);
    assert_eq!(display_width(&"x".repeat(70_000)), u16::MAX);
}

#[test]
fn status_width_counts_separators_between_segments() {
    assert_eq!(status_width(&[], " | "), 0);
    assert_eq!(status_width(&[plain("abc")], " | "), 3);
    assert_eq!(status_width(&[plain("abc"), plain("de"), plain("")], " | "), 11);
    assert_eq!(status_width(&[plain("日"), plain("de")], ""), 4);
}

#[test]
fn status_width_stops_at_the_largest_coordinate() {
    let long = plain(&"x".repeat(40_000));
    assert_eq!(status_width(&[long.clone(), long.clone()], ""), u16::MAX);
    let separator = "-".repeat(40_000);
    assert_eq!(status_width(&[plain("a"), plain("b"), plain("c")], &separator), u16::MAX);
    assert_eq!(status_width(&[plain("a"), plain("b")], &separator), 40_002);
}

#[test]
fn combined_width_counts_both_sides() {
    assert_eq!(tab_bar_status_width(&snapshot(&["ab", "c"], &["d", "e"])), 4 + 5);
    assert_eq!(tab_bar_status_width(&snapshot(&[], &[])), 0);
    let long = "x".repeat(40_000);
    assert_eq!(tab_bar_status_width(&snapshot(&[&long], &[&long])), u16::MAX);
}

#[test]
fn statuses_stand_at_both_ends() {
    let area = rect(2, 3, 40, 1);
    let both = snapshot(&["abcde"], &["12:30"]);
    assert_eq!(tab_bar_status_left_area(&both, area), Some(rect(2, 3, 5, 1)));
    assert_eq!(tab_bar_status_right_area(&both, area), Some(rect(37, 3, 5, 1)));
    assert_eq!(tab_bar_content_area(&both, area), rect(8, 3, 28, 1));
}

#[test]
fn empty_statuses_take_no_place() {
    let area = rect(2, 3, 40, 2);
    let none = snapshot(&[], &[""]);
    assert_eq!(tab_bar_status_left_area(&none, area), None);
    assert_eq!(tab_bar_status_right_area(&none, area), None);
    assert_eq!(tab_bar_content_area(&none, area), area);
}

#[test]
fn a_narrowing_row_drops_the_left_status_first() {
    let both = 5 + 1 + 5 + 1 + MIN_TAB_STRIP_WIDTH;
    let one = 5 + 1 + MIN_TAB_STRIP_WIDTH;
    for width in 0..60 {
        let area = rect(0, 0, width, 1);
        let left = place_left_status(5, 5, area);
        let right = place_right_status(5, area);
        assert_eq!(left.is_some(), width >= both, "width: {width}");
        assert_eq!(right.is_some(), width >= one, "width: {width}");
        let content = place_content(5, 5, area);
        assert!(content.width >= width.min(MIN_TAB_STRIP_WIDTH), "width: {width}");
    }
}

#[test]
fn a_left_status_shows_where_the_right_one_is_too_wide() {
    let area = rect(0, 0, 30, 1);
    assert_eq!(place_right_status(20, area), None);
    assert_eq!(place_left_status(3, 20, area), Some(rect(0, 0, 3, 1)));
    assert_eq!(place_content(3, 20, area), rect(4, 0, 26, 1));
}

#[test]
fn a_left_status_over_the_edge_of_the_screen_is_cut() {
    let area = rect(u16::MAX - 3, u16::MAX, 40, 1);
    assert_eq!(
        place_left_status(10, 0, area),
        Some(rect(u16::MAX - 3, u16::MAX, 3, 0))
    );
    assert_eq!(place_right_status(10, area), Some(rect(u16::MAX - 10, u16::MAX, 10, 0)));
    assert_eq!(place_content(10, 0, area), rect(u16::MAX, u16::MAX, 36, 1));
}

#[test]
fn the_combined_width_tells_the_tab_cells() {
    let area = rect(0, 0, 60, 1);
    let content = place_content(9, 4, area);
    assert_eq!(content.width, 45);
    assert_eq!(place_content(4, 9, area).width, content.width);
    assert_ne!(place_content(4, 8, area).width, content.width);
}

#[test]
fn widest_status_is_never_shown() {
    assert_eq!(place_right_status(u16::MAX, rect(0, 0, u16::MAX, 1)), None);
    assert_eq!(place_left_status(u16::MAX, 0, rect(0, 0, u16::MAX, 1)), None);
}

#[test]
fn direct_colors_go_before_palette_colors() {
    let color = |rgb, indexed| Some(ClientShellStatusColor { rgb, indexed });
    assert_eq!(status_color(None), None);
    assert_eq!(status_color(color(None, None)), None);
    assert_eq!(status_color(color(None, Some(7))), Some(Color::Indexed(7)));
    assert_eq!(
        status_color(color(Some((1, 2, 3)), Some(7))),
        Some(Color::Rgb(1, 2, 3))
    );
}

#[test]
fn row_background_falls_back_to_panels() {
    let mut colors = palette();
    assert_eq!(tab_bar_bg(&colors), Color::Black);
    colors.tab_bar_bg = Some(Color::Red);
    assert_eq!(tab_bar_bg(&colors), Color::Red);
}

#[test]
fn segments_are_painted_end_to_end() {
    let segments = [
        ClientShellTabStatusSegment {
            text: "Z".to_string(),
            accent: true,
            spans: vec![],
        },
        plain("日本"),
        ClientShellTabStatusSegment {
            text: "okno".to_string(),
            accent: false,
            spans: vec![
                ClientShellStatusSpan {
                    text: "ok".to_string(),
                    fg: Some(ClientShellStatusColor {
                        rgb: None,
                        indexed: Some(2),
                    }),
                    bg: None,
                    bold: true,
                },
                ClientShellStatusSpan {
                    text: "no".to_string(),
                    fg: None,
                    bg: Some(ClientShellStatusColor {
                        rgb: Some((9, 8, 7)),
                        indexed: None,
                    }),
                    bold: false,
                },
            ],
        },
    ];
    let step = |x, width, text: &str, style| Paint::Text {
        x,
        y: 4,
        width,
        text: text.to_string(),
        style,
    };
    let width = status_width(&segments, "|");
    assert_eq!(width, 11);
    let mut canvas = Canvas::new();
    render_tab_bar_status(&mut canvas, Some(rect(30, 4, width, 1)), &segments, "|", &palette());
    assert_eq!(
        canvas.steps,
        vec![
            step(30, 1, "Z", style(Color::White, Color::Blue, true)),
            step(31, 1, "|", style(Color::Gray, Color::Black, false)),
            step(32, 4, "日本", style(Color::Cyan, Color::Black, false)),
            step(36, 1, "|", style(Color::Gray, Color::Black, false)),
            step(37, 2, "ok", style(Color::Indexed(2), Color::Black, true)),
            step(39, 2, "no", style(Color::Cyan, Color::Rgb(9, 8, 7), false)),
        ]
    );
}

#[test]
fn separators_without_width_are_not_painted() {
    let runs = status_runs(&[plain("a"), plain("b")], "", &palette());
    let texts: Vec<&str> = runs.iter().map(|run| run.text.as_str()).collect();
    assert_eq!(texts, vec!["a", "b"]);
}

#[test]
fn a_status_that_is_not_shown_paints_nothing() {
    let mut canvas = Canvas::new();
    render_tab_bar_status(&mut canvas, None, &[plain("a")], " ", &palette());
    assert_eq!(canvas, Canvas::new());
}

#[test]
fn runs_stop_at_the_edge_of_the_screen() {
    let run = |width| StatusRun {
        text: "x".to_string(),
        width,
        style: style(Color::Red, Color::Black, false),
    };
    let mut canvas = Canvas::new();
    paint_runs(&mut canvas, &[run(5), run(9), run(1)], u16::MAX - 6, 0);
    let columns: Vec<u16> = canvas
        .steps
        .iter()
        .map(|step| match step {
            Paint::Text { x, .. } => *x,
            Paint::Fill { .. } => unreachable!(),
        })
        .collect();
    assert_eq!(columns, vec![u16::MAX - 6, u16::MAX - 1, u16::MAX]);
}

#[test]
fn joined_widths_count_a_separator_between_neighbors() {
    assert_eq!(joined_width(&[], 9), 0);
    assert_eq!(joined_width(&[5], 9), 5);
    assert_eq!(joined_width(&[5, 0, 7], 3), 18);
    assert_eq!(joined_width(&[5, 0, 7], 0), 12);
    assert_eq!(joined_width(&[u16::MAX - 3, 1], 2), u16::MAX);
    assert_eq!(joined_width(&[u16::MAX - 4, 1], 2), u16::MAX - 1);
    assert_eq!(joined_width(&[u16::MAX, u16::MAX], 0), u16::MAX);
    assert_eq!(joined_width(&[0; 70_000], 1), u16::MAX);
    assert_eq!(joined_width(&[0; 70_000], 0), 0);
}

#[test]
fn a_separator_run_has_the_given_width() {
    assert_eq!(separator_run("|", 0, &palette()), None);
    assert_eq!(
        separator_run("|", 7, &palette()),
        Some(StatusRun {
            text: "|".to_string(),
            width: 7,
            style: style(Color::Gray, Color::Black, false),
        })
    );
}
