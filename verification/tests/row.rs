use tab_bar::model::{
    ClientShellConfig, ClientShellSnapshot, ClientShellTab, ClientShellTabStatusSegment, Palette,
    ShellHitMap,
};
use tab_bar::paint::{Canvas, Color, Paint, Style};
use tab_bar::rect::Rect;
use tab_bar::row::{center_name, render_tab_bar, style_of_tab, try_render_tab_bar};
use tab_bar::tabs::{
    desired_widths, focused_tab, focused_workspace_tabs, name_widths, tab_drop_indicator_x,
    tab_label,
};

fn rect(x: u16, y: u16, width: u16, height: u16) -> Rect {
    Rect { x, y, width, height }
}

fn config(mouse_capture: bool) -> ClientShellConfig {
    ClientShellConfig {
        palette: Palette {
            accent: Color::Blue,
            panel_bg: Color::Black,
            panel_contrast_fg: Color::White,
            surface0: Color::DarkGray,
            overlay0: Color::Gray,
            overlay1: Color::Cyan,
            tab_bar_bg: None,
            tab_active_fg: None,
            tab_active_bg: None,
            tab_active_bold: false,
            tab_inactive_fg: None,
        },
        mouse_capture,
    }
}

fn tab(id: &str, label: &str) -> ClientShellTab {
    ClientShellTab {
        tab_id: id.to_string(),
        workspace_id: "w1".to_string(),
        label: label.to_string(),
        custom_label: false,
        focused: false,
        zoomed: false,
    }
}

fn snapshot(tabs: Vec<ClientShellTab>) -> ClientShellSnapshot {
    ClientShellSnapshot {
        focused_workspace_id: Some("w1".to_string()),
        tabs,
        tab_bar_left: vec![],
        tab_bar_left_separator: String::new(),
        tab_bar_right: vec![],
        tab_bar_right_separator: String::new(),
    }
}

fn no_hits() -> ShellHitMap {
    ShellHitMap {
        tabs: vec![],
        tab_scroll_left: rect(0, 0, 0, 0),
        tab_scroll_right: rect(0, 0, 0, 0),
        new_tab: rect(0, 0, 0, 0),
    }
}

fn style(fg: Color, bg: Option<Color>, bold: bool) -> Style {
    Style {
        fg: Some(fg),
        bg,
        bold,
    }
}

fn text(x: u16, y: u16, width: u16, text: &str, style: Style) -> Paint {
    Paint::Text {
        x,
        y,
        width,
        text: text.to_string(),
        style,
    }
}

fn fill(area: Rect) -> Paint {
    Paint::Fill {
        area,
        style: Style {
            fg: None,
            bg: Some(Color::Black),
            bold: false,
        },
    }
}

#[test]
fn zoomed_tabs_are_marked() {
    let mut shell = tab("t", "build");
    assert_eq!(tab_label(&shell), "build");
    shell.zoomed = true;
    assert_eq!(tab_label(&shell), "build Z");
}

#[test]
fn the_row_holds_the_tabs_of_the_focused_workspace() {
    let mut other = tab("t2", "b");
    other.workspace_id = "w2".to_string();
    let mut shell = snapshot(vec![tab("t1", "a"), other, tab("t3", "c")]);
    let ids: Vec<&str> = focused_workspace_tabs(&shell)
        .iter()
        .map(|tab| tab.tab_id.as_str())
        .collect();
    assert_eq!(ids, vec!["t1", "t3"]);
    shell.focused_workspace_id = None;
    assert!(focused_workspace_tabs(&shell).is_empty());
}

#[test]
fn the_first_focused_tab_counts() {
    let plain = tab("t1", "a");
    let mut focused = tab("t2", "b");
    focused.focused = true;
    assert_eq!(focused_tab(&[&plain]), None);
    assert_eq!(focused_tab(&[&plain, &focused, &focused]), Some(1));
}

#[test]
fn tabs_ask_for_their_name_and_four_cells() {
    let wide = tab("t", "日本語");
    let short = tab("t", "a");
    assert_eq!(name_widths(&[&wide, &short]), vec![6, 1]);
    assert_eq!(desired_widths(&[6, 1, 4, 5, u16::MAX - 2]), vec![10, 8, 8, 9, u16::MAX]);
}

#[test]
fn names_are_centered() {
    assert_eq!(center_name("a", 1, 8), "   a    ");
    assert_eq!(center_name("日本", 4, 8), "  日本  ");
    assert_eq!(center_name("long name", 9, 4), "long name");
    assert_eq!(center_name("", 0, 0), "");
}

#[test]
fn tab_styles_follow_the_palette() {
    let mut colors = config(true).palette;
    let mut shell = tab("t", "a");
    assert_eq!(style_of_tab(&shell, &colors), style(Color::Gray, Some(Color::DarkGray), false));
    shell.custom_label = true;
    assert_eq!(style_of_tab(&shell, &colors), style(Color::Cyan, Some(Color::DarkGray), false));
    shell.focused = true;
    assert_eq!(style_of_tab(&shell, &colors), style(Color::White, Some(Color::Blue), true));
    shell.custom_label = false;
    assert_eq!(style_of_tab(&shell, &colors), style(Color::White, Some(Color::Blue), false));
    colors.tab_active_fg = Some(Color::Red);
    colors.tab_active_bg = Some(Color::Green);
    colors.tab_active_bold = true;
    colors.tab_inactive_fg = Some(Color::Yellow);
    assert_eq!(style_of_tab(&shell, &colors), style(Color::Red, Some(Color::Green), true));
    shell.focused = false;
    assert_eq!(style_of_tab(&shell, &colors), style(Color::Yellow, Some(Color::DarkGray), false));
}

#[test]
fn a_row_that_fits_is_drawn() {
    let mut first = tab("t1", "a");
    first.focused = true;
    let mut second = tab("t2", "bb");
    second.zoomed = true;
    let shell = snapshot(vec![first, second]);
    let area = rect(0, 1, 40, 1);
    let mut canvas = Canvas::new();
    let mut hits = no_hits();
    let mut scroll = 3;
    let mut reveal = true;
    render_tab_bar(
        &mut canvas,
        area,
        &shell,
        &config(true),
        &mut scroll,
        &mut reveal,
        None,
        &mut hits,
    );
    assert_eq!(scroll, 0);
    assert!(!reveal);
    assert_eq!(
        canvas.steps,
        vec![
            fill(area),
            text(0, 1, 8, "   a    ", style(Color::White, Some(Color::Blue), false)),
            text(9, 1, 8, "  bb Z  ", style(Color::Gray, Some(Color::DarkGray), false)),
            text(18, 1, 3, " + ", style(Color::Cyan, Some(Color::Black), false)),
        ]
    );
    assert_eq!(
        hits.tabs,
        vec![
            (rect(0, 1, 8, 1), "t1".to_string()),
            (rect(9, 1, 8, 1), "t2".to_string()),
        ]
    );
    assert_eq!(hits.new_tab, rect(18, 1, 3, 1));
    assert_eq!(hits.tab_scroll_left, rect(0, 0, 0, 0));
    assert_eq!(hits.tab_scroll_right, rect(0, 0, 0, 0));
}

#[test]
fn a_scrolled_row_has_buttons_and_marks() {
    let shell = snapshot(vec![
        tab("t1", "aaaaaa"),
        tab("t2", "bbbbbb"),
        tab("t3", "cccccc"),
        tab("t4", "dddddd"),
    ]);
    let area = rect(5, 2, 30, 1);
    let mut canvas = Canvas::new();
    let mut hits = no_hits();
    let mut scroll = 1;
    let mut reveal = false;
    render_tab_bar(
        &mut canvas,
        area,
        &shell,
        &config(true),
        &mut scroll,
        &mut reveal,
        Some(2),
        &mut hits,
    );
    let tab_style = style(Color::Gray, Some(Color::DarkGray), false);
    let active = style(Color::Cyan, Some(Color::DarkGray), false);
    let mark = style(Color::Gray, None, false);
    assert_eq!(scroll, 1);
    assert_eq!(
        canvas.steps,
        vec![
            fill(area),
            text(5, 2, 3, " < ", active),
            text(8, 2, 10, "  bbbbbb  ", tab_style),
            text(19, 2, 10, "  cccccc  ", tab_style),
            text(29, 2, 3, " > ", active),
            text(32, 2, 3, " + ", style(Color::Cyan, Some(Color::Black), false)),
            text(8, 2, 1, "…", mark),
            text(28, 2, 1, "…", mark),
            text(18, 2, 1, "│", style(Color::Blue, None, false)),
        ]
    );
    assert_eq!(hits.tab_scroll_left, rect(5, 2, 3, 1));
    assert_eq!(hits.tab_scroll_right, rect(29, 2, 3, 1));
    assert_eq!(hits.new_tab, rect(32, 2, 3, 1));
}

#[test]
fn buttons_without_effect_are_dimmed() {
    let shell = snapshot(vec![tab("t1", "aaaaaa"), tab("t2", "bbbbbb"), tab("t3", "cccccc")]);
    let dimmed = style(Color::Gray, Some(Color::DarkGray), false);
    for (start, text_of_button, x) in [(0, " < ", 5), (9, " > ", 29)] {
        let mut canvas = Canvas::new();
        let mut hits = no_hits();
        let mut scroll = start;
        let mut reveal = false;
        render_tab_bar(
            &mut canvas,
            rect(5, 2, 30, 1),
            &shell,
            &config(true),
            &mut scroll,
            &mut reveal,
            None,
            &mut hits,
        );
        assert!(canvas.steps.contains(&text(x, 2, 3, text_of_button, dimmed)));
    }
}

#[test]
fn marks_without_the_mouse_stand_at_the_ends() {
    let shell = snapshot(vec![tab("t1", "aaaaaa"), tab("t2", "bbbbbb"), tab("t3", "cccccc")]);
    let mut canvas = Canvas::new();
    let mut hits = no_hits();
    let mut scroll = 1;
    let mut reveal = false;
    render_tab_bar(
        &mut canvas,
        rect(5, 2, 12, 1),
        &shell,
        &config(false),
        &mut scroll,
        &mut reveal,
        None,
        &mut hits,
    );
    let tab_style = style(Color::Gray, Some(Color::DarkGray), false);
    let mark = style(Color::Gray, None, false);
    assert_eq!(
        canvas.steps,
        vec![
            fill(rect(5, 2, 12, 1)),
            text(5, 2, 10, "  bbbbbb  ", tab_style),
            text(16, 2, 1, "  cccccc  ".trim(), tab_style),
            text(5, 2, 1, "…", mark),
        ]
    );
}

#[test]
fn statuses_are_painted_last() {
    let mut shell = snapshot(vec![tab("t1", "a")]);
    let segment = |text: &str| ClientShellTabStatusSegment {
        text: text.to_string(),
        accent: false,
        spans: vec![],
    };
    shell.tab_bar_left = vec![segment("host")];
    shell.tab_bar_right = vec![segment("12:30")];
    let mut canvas = Canvas::new();
    let mut hits = no_hits();
    let mut scroll = 0;
    let mut reveal = false;
    render_tab_bar(
        &mut canvas,
        rect(0, 0, 60, 1),
        &shell,
        &config(false),
        &mut scroll,
        &mut reveal,
        None,
        &mut hits,
    );
    let plain = style(Color::Cyan, Some(Color::Black), false);
    assert_eq!(
        canvas.steps,
        vec![
            fill(rect(0, 0, 60, 1)),
            text(5, 0, 8, "   a    ", style(Color::Gray, Some(Color::DarkGray), false)),
            text(0, 0, 4, "host", plain),
            text(55, 0, 5, "12:30", plain),
        ]
    );
}

#[test]
fn drawing_adds_to_what_was_drawn() {
    let shell = snapshot(vec![tab("t1", "a")]);
    let mut canvas = Canvas::new();
    let mut hits = no_hits();
    let mut scroll = 0;
    let mut reveal = false;
    for round in 1..3 {
        render_tab_bar(
            &mut canvas,
            rect(0, 0, 40, 1),
            &shell,
            &config(false),
            &mut scroll,
            &mut reveal,
            None,
            &mut hits,
        );
        assert_eq!(canvas.steps.len(), 2 * round);
        assert_eq!(hits.tabs.len(), round);
    }
}

#[test]
fn a_tab_out_of_range_leaves_everything_as_it_is() {
    let mut last = tab("t2", "b");
    last.focused = true;
    let shell = snapshot(vec![tab("t1", &"x".repeat(65_540)), last]);
    let mut canvas = Canvas::new();
    let mut hits = no_hits();
    let mut scroll = 7;
    let mut reveal = true;
    let drawn = try_render_tab_bar(
        &mut canvas,
        rect(0, 0, 40, 1),
        &shell,
        &config(true),
        &mut scroll,
        &mut reveal,
        None,
        &mut hits,
    );
    assert!(!drawn);
    assert_eq!(canvas, Canvas::new());
    assert_eq!(hits, no_hits());
    assert_eq!((scroll, reveal), (7, true));
}

#[test]
fn a_tab_in_range_is_drawn() {
    let mut first = tab("t1", "a");
    first.focused = true;
    let shell = snapshot(vec![first]);
    let mut canvas = Canvas::new();
    let mut hits = no_hits();
    let mut scroll = 7;
    let mut reveal = true;
    let drawn = try_render_tab_bar(
        &mut canvas,
        rect(0, 0, 40, 1),
        &shell,
        &config(true),
        &mut scroll,
        &mut reveal,
        None,
        &mut hits,
    );
    assert!(drawn);
    assert_eq!((scroll, reveal), (0, false));
    assert_eq!(hits.tabs, vec![(rect(0, 0, 8, 1), "t1".to_string())]);
}

#[test]
fn the_drop_mark_stands_before_the_tab_at_its_place() {
    let tabs = [tab("t0", ""), tab("t1", ""), tab("t2", ""), tab("t3", ""), tab("t4", "")];
    let all: Vec<&ClientShellTab> = tabs.iter().collect();
    let mut hits = no_hits();
    hits.tab_scroll_left = rect(0, 0, 3, 1);
    hits.tab_scroll_right = rect(40, 0, 3, 1);
    assert_eq!(tab_drop_indicator_x(&hits, &all, 0), None);
    hits.tabs = vec![
        (rect(3, 0, 8, 1), "t1".to_string()),
        (rect(0, 0, 9, 1), "elsewhere".to_string()),
        (rect(12, 0, 8, 1), "t2".to_string()),
    ];
    assert_eq!(tab_drop_indicator_x(&hits, &all, 0), Some(3));
    assert_eq!(tab_drop_indicator_x(&hits, &all, 1), Some(2));
    assert_eq!(tab_drop_indicator_x(&hits, &all, 2), Some(11));
    assert_eq!(tab_drop_indicator_x(&hits, &all, 3), None);
    assert_eq!(tab_drop_indicator_x(&hits, &all, 5), Some(39));
    hits.tabs.push((rect(21, 0, 8, 1), "t4".to_string()));
    assert_eq!(tab_drop_indicator_x(&hits, &all, 5), Some(29));
    assert_eq!(tab_drop_indicator_x(&hits, &all, 9), Some(29));
    hits.tabs.insert(0, (rect(6, 0, 2, 1), "t0".to_string()));
    assert_eq!(tab_drop_indicator_x(&hits, &all, 0), Some(6));
}

#[test]
fn the_drop_mark_stops_at_the_edge_of_the_screen() {
    let only = tab("t0", "");
    let mut hits = no_hits();
    hits.tabs = vec![(rect(u16::MAX - 2, 0, 8, 1), "t0".to_string())];
    assert_eq!(tab_drop_indicator_x(&hits, &[&only], 1), Some(u16::MAX));
}

#[test]
fn a_revealed_tab_gets_a_hit_of_its_own() {
    let mut tabs = vec![
        tab("t1", "aaaaaa"),
        tab("t2", "bbbbbb"),
        tab("t3", "cccccc"),
        tab("t4", "dddddd"),
    ];
    tabs[3].focused = true;
    let shell = snapshot(tabs);
    for (width, mouse) in [(30, true), (17, true), (12, false), (1, false), (80, true)] {
        let mut canvas = Canvas::new();
        let mut hits = no_hits();
        hits.tabs = vec![(rect(0, 0, 0, 0), "t4".to_string())];
        let mut scroll = 0;
        let mut reveal = true;
        render_tab_bar(
            &mut canvas,
            rect(5, u16::MAX, width, 1),
            &shell,
            &config(mouse),
            &mut scroll,
            &mut reveal,
            None,
            &mut hits,
        );
        assert!(
            hits.tabs[1..].iter().any(|(area, id)| id == "t4" && area.width > 0),
            "width: {width}"
        );
    }
}

#[test]
fn buttons_stand_between_the_statuses_without_tabs() {
    let mut shell = snapshot(vec![]);
    let segment = |text: &str| ClientShellTabStatusSegment {
        text: text.to_string(),
        accent: false,
        spans: vec![],
    };
    shell.tab_bar_left = vec![segment("host")];
    shell.tab_bar_right = vec![segment("12:30")];
    let mut canvas = Canvas::new();
    let mut hits = no_hits();
    let mut scroll = 0;
    let mut reveal = false;
    render_tab_bar(
        &mut canvas,
        rect(10, 0, 60, 1),
        &shell,
        &config(true),
        &mut scroll,
        &mut reveal,
        None,
        &mut hits,
    );
    assert!(hits.tabs.is_empty());
    assert_eq!(hits.new_tab, rect(15, 0, 3, 1));
    let columns: Vec<u16> = canvas
        .steps
        .iter()
        .filter_map(|step| match step {
            Paint::Text { x, .. } => Some(*x),
            Paint::Fill { .. } => None,
        })
        .collect();
    assert_eq!(columns, vec![15, 10, 65]);
}
