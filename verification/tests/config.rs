use tab_bar::config::{
    color_problem, default_command_interval_seconds, default_command_timeout_seconds, default_datetime_format,
    note_entry, parse_tab_bar_status_color, tab_bar_status_diagnostics, TabBarSide,
    TabBarStatusEntryConfig, MAX_TAB_BAR_COMMAND_INTERVAL_SECONDS,
    MAX_TAB_BAR_COMMAND_TIMEOUT_SECONDS, MAX_TAB_BAR_STATUS_ENTRIES,
};
use tab_bar::datetime::{
    invalid_datetime_format, parse_tab_bar_datetime_format, unsupported_datetime_format,
    written_datetime_format,
};
use tab_bar::text::{blank, decimal_text};

#[test]
fn status_colors_accept_only_six_digit_hex() {
    assert_eq!(parse_tab_bar_status_color("#1a2B3c"), Some((26, 43, 60)));
    for value in ["1a2b3c", "#1a2b3", "#1a2b3cc", "#gg0000", "red", ""] {
        assert_eq!(parse_tab_bar_status_color(value), None, "value: {value}");
    }
}

#[test]
fn diagnostics_reject_invalid_datetime_and_command_schedules() {
    let entries = vec![
        TabBarStatusEntryConfig::Datetime {
            format: "%Q".into(),
        },
        TabBarStatusEntryConfig::Datetime {
            format: "%z".into(),
        },
        TabBarStatusEntryConfig::Command {
            command: String::new(),
            interval_seconds: 0,
            timeout_seconds: 0,
            ansi: false,
        },
        TabBarStatusEntryConfig::Command {
            command: "status.sh".into(),
            interval_seconds: MAX_TAB_BAR_COMMAND_INTERVAL_SECONDS + 1,
            timeout_seconds: MAX_TAB_BAR_COMMAND_TIMEOUT_SECONDS + 1,
            ansi: true,
        },
    ];

    let diagnostics = tab_bar_status_diagnostics(TabBarSide::Right, &entries).join("\n");
    assert!(diagnostics.contains("invalid datetime format"));
    assert!(diagnostics.contains("unsupported datetime format"));
    assert!(diagnostics.contains("command is empty"));
    assert!(diagnostics.contains("interval_seconds must be at least 1"));
    assert!(diagnostics.contains("interval_seconds may be at most"));
    assert!(diagnostics.contains("timeout_seconds must be at least 1"));
    assert!(diagnostics.contains("timeout_seconds may be at most"));
    assert!(diagnostics.contains("ui.tab_bar_right[0]"));
    assert!(parse_tab_bar_datetime_format("").is_err());
}

#[test]
fn diagnostics_name_the_configured_side_and_bad_entry_colors() {
    let diagnostics = tab_bar_status_diagnostics(
        TabBarSide::Left,
        &[TabBarStatusEntryConfig::Text {
            text: "prod".into(),
            fg: Some("blue".into()),
            bg: Some("#0000".into()),
            bold: false,
        }],
    );

    assert_eq!(
        diagnostics,
        vec![
            "ui.tab_bar_left[0] fg = \"blue\" is not a #rrggbb color; ignoring it".to_string(),
            "ui.tab_bar_left[0] bg = \"#0000\" is not a #rrggbb color; ignoring it".to_string(),
        ]
    );
}

fn command(command: &str, interval_seconds: u64, timeout_seconds: u64) -> TabBarStatusEntryConfig {
    TabBarStatusEntryConfig::Command {
        command: command.into(),
        interval_seconds,
        timeout_seconds,
        ansi: false,
    }
}

#[test]
fn every_color_is_read_back() {
    for (red, green, blue) in [(0, 0, 0), (255, 255, 255), (1, 16, 171), (26, 43, 60)] {
        let lower = format!("#{red:02x}{green:02x}{blue:02x}");
        let upper = lower.to_uppercase();
        assert_eq!(parse_tab_bar_status_color(&lower), Some((red, green, blue)));
        assert_eq!(parse_tab_bar_status_color(&upper), Some((red, green, blue)));
    }
}

#[test]
fn near_misses_are_no_colors() {
    for value in ["#", "##00000", "# 00000", "#+1+1+1", "#é0000", "#日00", "#0000000", "#00000g"] {
        assert_eq!(parse_tab_bar_status_color(value), None, "value: {value}");
    }
}

#[test]
fn sides_have_their_keys() {
    assert_eq!(TabBarSide::Left.config_key(), "ui.tab_bar_left");
    assert_eq!(TabBarSide::Right.config_key(), "ui.tab_bar_right");
}

#[test]
fn defaults_are_valid() {
    assert_eq!(default_datetime_format(), "%H:%M");
    assert_eq!(default_command_interval_seconds(), 5);
    assert_eq!(default_command_timeout_seconds(), 2);
    let entries = [
        TabBarStatusEntryConfig::Zoom,
        TabBarStatusEntryConfig::Hostname,
        TabBarStatusEntryConfig::Datetime {
            format: default_datetime_format(),
        },
        TabBarStatusEntryConfig::Text {
            text: String::new(),
            fg: None,
            bg: Some("#00ff00".into()),
            bold: true,
        },
        command(
            "status.sh",
            default_command_interval_seconds(),
            default_command_timeout_seconds(),
        ),
    ];
    assert!(tab_bar_status_diagnostics(TabBarSide::Left, &entries).is_empty());
}

#[test]
fn schedules_are_limited() {
    let entries = [
        command("a", 1, 1),
        command(
            "a",
            MAX_TAB_BAR_COMMAND_INTERVAL_SECONDS,
            MAX_TAB_BAR_COMMAND_TIMEOUT_SECONDS,
        ),
        command(" \t\u{3000}", 0, 0),
        command("a", u64::MAX, u64::MAX),
    ];
    assert_eq!(
        tab_bar_status_diagnostics(TabBarSide::Left, &entries),
        vec![
            "ui.tab_bar_left[2] command is empty; hiding entry",
            "ui.tab_bar_left[2] interval_seconds must be at least 1; hiding entry",
            "ui.tab_bar_left[2] timeout_seconds must be at least 1; hiding entry",
            "ui.tab_bar_left[3] interval_seconds may be at most 31536000; hiding entry",
            "ui.tab_bar_left[3] timeout_seconds may be at most 3600; hiding entry",
        ]
    );
}

#[test]
fn datetime_formats_are_diagnosed() {
    let entries = ["", "%Q", "%", "%z", "%H:%M"].map(|format| TabBarStatusEntryConfig::Datetime {
        format: format.into(),
    });
    assert_eq!(
        tab_bar_status_diagnostics(TabBarSide::Right, &entries),
        vec![
            "ui.tab_bar_right[0] datetime format is empty; hiding entry",
            "ui.tab_bar_right[1] has invalid datetime format: invalid component name `Q` at byte index 1; hiding entry",
            "ui.tab_bar_right[2] has invalid datetime format: expected valid escape sequence at byte index 0; hiding entry",
            "ui.tab_bar_right[3] has unsupported datetime format: The type being formatted does not contain sufficient information to format a component.; hiding entry",
        ]
    );
}

#[test]
fn datetime_formats_are_parsed() {
    let format = parse_tab_bar_datetime_format("%H:%M").unwrap();
    let parts = time::PrimitiveDateTime::MIN.format(&format).unwrap();
    assert_eq!(parts, "00:00");
    assert_eq!(
        parse_tab_bar_datetime_format("").unwrap_err(),
        "datetime format is empty"
    );
    assert_eq!(
        parse_tab_bar_datetime_format("%Q").unwrap_err(),
        "invalid datetime format: invalid component name `Q` at byte index 1"
    );
    assert!(parse_tab_bar_datetime_format("%z")
        .unwrap_err()
        .starts_with("unsupported datetime format: "));
    assert_eq!(invalid_datetime_format("why"), "invalid datetime format: why");
    assert_eq!(unsupported_datetime_format("why"), "unsupported datetime format: why");
}

#[test]
fn a_datetime_error_is_reported_as_given() {
    let mut diagnostics = vec!["before".to_string()];
    let entry = TabBarStatusEntryConfig::Datetime { format: "x".into() };
    note_entry(&mut diagnostics, "key[7]", &entry, &Some("a fault".to_string()));
    note_entry(&mut diagnostics, "key[8]", &entry, &None);
    assert_eq!(diagnostics, vec!["before", "key[7] has a fault; hiding entry"]);
}

#[test]
fn bad_colors_are_quoted() {
    let entries = [TabBarStatusEntryConfig::Text {
        text: String::new(),
        fg: None,
        bg: Some("a\"\n".into()),
        bold: false,
    }];
    assert_eq!(
        tab_bar_status_diagnostics(TabBarSide::Right, &entries),
        vec!["ui.tab_bar_right[0] bg = \"a\\\"\\n\" is not a #rrggbb color; ignoring it"]
    );
}

#[test]
fn entries_beyond_the_limit_are_ignored() {
    let mut entries = vec![TabBarStatusEntryConfig::Zoom; MAX_TAB_BAR_STATUS_ENTRIES];
    assert!(tab_bar_status_diagnostics(TabBarSide::Left, &entries).is_empty());
    entries[15] = command("", 1, 1);
    let last = "ui.tab_bar_left[15] command is empty; hiding entry";
    assert_eq!(tab_bar_status_diagnostics(TabBarSide::Left, &entries), vec![last]);
    entries.push(command("", 0, 0));
    assert_eq!(
        tab_bar_status_diagnostics(TabBarSide::Left, &entries),
        vec![
            "ui.tab_bar_left may contain at most 16 entries; ignoring extras",
            last,
        ]
    );
}

#[test]
fn both_sides_share_their_diagnostics() {
    let entries = [command("", 0, 9_999)];
    let left = tab_bar_status_diagnostics(TabBarSide::Left, &entries);
    let right = tab_bar_status_diagnostics(TabBarSide::Right, &entries);
    let tails = |list: &[String], side: TabBarSide| -> Vec<String> {
        list.iter()
            .map(|text| text.strip_prefix(side.config_key()).unwrap().to_string())
            .collect()
    };
    assert_eq!(tails(&left, TabBarSide::Left), tails(&right, TabBarSide::Right));
    assert_eq!(left.len(), 3);
}

#[test]
fn numbers_are_written_in_decimal() {
    for n in [0, 7, 10, 305, 31_536_000, u64::MAX] {
        assert_eq!(decimal_text(n), n.to_string());
    }
}

#[test]
fn white_space_is_blank() {
    assert!(blank(""));
    assert!(blank(" \t\r\n\u{b}\u{c}\u{85}\u{a0}\u{1680}\u{2000}\u{200a}\u{2028}\u{2029}\u{202f}\u{205f}\u{3000}"));
    for text in ["a", " a ", "\u{200b}", "\u{feff}", "\u{180e}"] {
        assert!(!blank(text), "text: {text:?}");
    }
}

#[test]
fn a_quoted_color_is_reported_as_given() {
    assert_eq!(
        color_problem("fg", "<blue>"),
        " fg = <blue> is not a #rrggbb color; ignoring it"
    );
    assert_eq!(color_problem("", ""), "  =  is not a #rrggbb color; ignoring it");
}

#[test]
fn digits_of_either_case_may_be_mixed() {
    for value in ["#abcdef", "#ABCDEF", "#aBcDeF", "#AbCdEf"] {
        assert_eq!(parse_tab_bar_status_color(value), Some((0xab, 0xcd, 0xef)), "value: {value}");
    }
}

#[test]
fn valid_entries_have_no_diagnostics_on_either_side() {
    for side in [TabBarSide::Left, TabBarSide::Right] {
        assert!(tab_bar_status_diagnostics(side, &[]).is_empty());
        assert!(tab_bar_status_diagnostics(side, &[TabBarStatusEntryConfig::Zoom]).is_empty());
    }
}

#[test]
fn a_format_is_kept_if_a_date_and_time_can_be_written() {
    let format = || time::format_description::parse_strftime_owned("%H").unwrap();
    assert_eq!(written_datetime_format(format(), Ok("00".to_string())), Ok(format()));
    assert_eq!(
        written_datetime_format(format(), Err("why".to_string())),
        Err("unsupported datetime format: why".to_string())
    );
}
