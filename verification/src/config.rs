//! The configuration of the status areas, and what is wrong with it.

use vstd::prelude::*;

use crate::datetime::{datetime_error, is_countable, parse_tab_bar_datetime_format};
use crate::text::{blank, decimal, decimal_text, is_blank, quote, quoted, texts};

verus! {

/// How often a command runs where nothing else is configured.
pub const DEFAULT_TAB_BAR_COMMAND_INTERVAL_SECONDS: u64 = 5;

/// How long a command may run where nothing else is configured.
pub const DEFAULT_TAB_BAR_COMMAND_TIMEOUT_SECONDS: u64 = 2;

/// The longest interval between two runs of a command.
pub const MAX_TAB_BAR_COMMAND_INTERVAL_SECONDS: u64 = 31_536_000;

/// The longest time that a command may run.
pub const MAX_TAB_BAR_COMMAND_TIMEOUT_SECONDS: u64 = 3_600;

/// The most entries of one status area.
pub const MAX_TAB_BAR_STATUS_ENTRIES: usize = 16;

/// Which end of the tab row a status area is drawn at. Both ends share one kind
/// of entry and one set of diagnostics.
#[derive(Debug, Clone, Copy, PartialEq, Eq, Hash)]
pub enum TabBarSide {
    Left,
    Right,
}

impl TabBarSide {
    /// The key under which this side is configured.
    pub open spec fn key(self) -> Seq<char> {
        match self {
            TabBarSide::Left => "ui.tab_bar_left"@,
            TabBarSide::Right => "ui.tab_bar_right"@,
        }
    }

    /// The dotted key under which this side is configured, for diagnostics.
    pub fn config_key(self) -> (key: &'static str)
        ensures
            key@ == self.key(),
    {
        match self {
            TabBarSide::Left => "ui.tab_bar_left",
            TabBarSide::Right => "ui.tab_bar_right",
        }
    }
}

/// The format of a datetime entry where nothing else is configured.
pub fn default_datetime_format() -> (format: String)
    ensures
        format@ == "%H:%M"@,
{
    "%H:%M".to_owned()
}

/// How often a command runs where nothing else is configured.
pub fn default_command_interval_seconds() -> (seconds: u64)
    ensures
        seconds == DEFAULT_TAB_BAR_COMMAND_INTERVAL_SECONDS,
{
    DEFAULT_TAB_BAR_COMMAND_INTERVAL_SECONDS
}

/// How long a command may run where nothing else is configured.
pub fn default_command_timeout_seconds() -> (seconds: u64)
    ensures
        seconds == DEFAULT_TAB_BAR_COMMAND_TIMEOUT_SECONDS,
{
    DEFAULT_TAB_BAR_COMMAND_TIMEOUT_SECONDS
}

/// An entry of a status area.
#[derive(Debug, Clone, PartialEq, Eq)]
pub enum TabBarStatusEntryConfig {
    Zoom,
    Hostname,
    Datetime { format: String },
    Text {
        text: String,
        /// Foreground color as `#rrggbb`. Unset keeps the theme color.
        fg: Option<String>,
        /// Background color as `#rrggbb`. Unset keeps the tab row background.
        bg: Option<String>,
        bold: bool,
    },
    Command {
        command: String,
        interval_seconds: u64,
        timeout_seconds: u64,
        /// Interpret SGR sequences in the last output line instead of stripping them.
        ansi: bool,
    },
}

/// Whether `c` is a hexadecimal digit.
pub open spec fn is_hex(c: char) -> bool {
    '0' <= c <= '9' || 'a' <= c <= 'f' || 'A' <= c <= 'F'
}

/// The value of a hexadecimal digit.
pub open spec fn hex_value(c: char) -> int {
    if c <= '9' {
        c as int - '0' as int
    } else if c <= 'F' {
        c as int - 'A' as int + 10
    } else {
        c as int - 'a' as int + 10
    }
}

/// The value of two hexadecimal digits.
pub open spec fn hex_byte(high: char, low: char) -> u8 {
    (hex_value(high) * 16 + hex_value(low)) as u8
}

/// Whether a text is a `#` and six hexadecimal digits.
pub open spec fn is_color_text(value: Seq<char>) -> bool {
    &&& value.len() == 7
    &&& value[0] == '#'
    &&& forall|i: int| 1 <= i < 7 ==> is_hex(#[trigger] value[i])
}

/// The color that a text names, if it names one.
pub open spec fn named_color(value: Seq<char>) -> Option<(u8, u8, u8)> {
    if is_color_text(value) {
        Some(
            (
                hex_byte(value[1], value[2]),
                hex_byte(value[3], value[4]),
                hex_byte(value[5], value[6]),
            ),
        )
    } else {
        None
    }
}

fn hex_digit(c: char) -> (value: Option<u8>)
    ensures
        value is Some <==> is_hex(c),
        value matches Some(v) ==> v == hex_value(c) && v < 16,
{
    if '0' <= c && c <= '9' {
        Some((c as u32 - '0' as u32) as u8)
    } else if 'a' <= c && c <= 'f' {
        Some((c as u32 - 'a' as u32 + 10) as u8)
    } else if 'A' <= c && c <= 'F' {
        Some((c as u32 - 'A' as u32 + 10) as u8)
    } else {
        None
    }
}

fn hex_pair(high: char, low: char) -> (value: Option<u8>)
    ensures
        value is Some <==> is_hex(high) && is_hex(low),
        value matches Some(v) ==> v == hex_byte(high, low),
{
    match (hex_digit(high), hex_digit(low)) {
        (Some(h), Some(l)) => Some(h * 16 + l),
        _ => None,
    }
}

/// Reads a `#rrggbb` status color. Nothing else is taken for a color, so a typo
/// never silently resolves.
pub fn parse_tab_bar_status_color(value: &str) -> (color: Option<(u8, u8, u8)>)
    ensures
        color == named_color(value@),
{
    if value.unicode_len() != 7 || value.get_char(0) != '#' {
        return None;
    }
    let red = hex_pair(value.get_char(1), value.get_char(2));
    let green = hex_pair(value.get_char(3), value.get_char(4));
    let blue = hex_pair(value.get_char(5), value.get_char(6));
    proof {
        let all = is_hex(value@[1]) && is_hex(value@[2]) && is_hex(value@[3]) && is_hex(value@[4])
            && is_hex(value@[5]) && is_hex(value@[6]);
        if all {
            assert forall|i: int| 1 <= i < 7 implies is_hex(#[trigger] value@[i]) by {
                assert(i == 1 || i == 2 || i == 3 || i == 4 || i == 5 || i == 6);
            }
        }
    }
    match (red, green, blue) {
        (Some(red), Some(green), Some(blue)) => Some((red, green, blue)),
        _ => None,
    }
}

/// A list with `problem` if there is one to note, else an empty list.
pub open spec fn noted(wrong: bool, problem: Seq<char>) -> Seq<Seq<char>> {
    if wrong {
        seq![problem]
    } else {
        Seq::empty()
    }
}

/// The problem of a color that is none, where `quote` is its text in quotes.
pub open spec fn color_problem_text(field: Seq<char>, quote: Seq<char>) -> Seq<char> {
    " "@ + field + " = "@ + quote + " is not a #rrggbb color; ignoring it"@
}

/// What is wrong with a color of a text entry.
pub open spec fn color_problems(field: Seq<char>, value: Option<String>) -> Seq<Seq<char>> {
    match value {
        Some(value) => noted(
            named_color(value@) is None,
            color_problem_text(field, quoted(value@)),
        ),
        None => Seq::empty(),
    }
}

/// What is wrong with a command and its schedule.
pub open spec fn command_problems(
    command: Seq<char>,
    interval_seconds: u64,
    timeout_seconds: u64,
) -> Seq<Seq<char>> {
    noted(is_blank(command), " command is empty; hiding entry"@) + noted(
        interval_seconds == 0,
        " interval_seconds must be at least 1; hiding entry"@,
    ) + noted(
        interval_seconds > MAX_TAB_BAR_COMMAND_INTERVAL_SECONDS,
        " interval_seconds may be at most "@ + decimal(
            MAX_TAB_BAR_COMMAND_INTERVAL_SECONDS as nat,
        ) + "; hiding entry"@,
    ) + noted(
        timeout_seconds == 0,
        " timeout_seconds must be at least 1; hiding entry"@,
    ) + noted(
        timeout_seconds > MAX_TAB_BAR_COMMAND_TIMEOUT_SECONDS,
        " timeout_seconds may be at most "@ + decimal(MAX_TAB_BAR_COMMAND_TIMEOUT_SECONDS as nat)
            + "; hiding entry"@,
    )
}

/// What is wrong with an entry, where `datetime` says what is wrong with its
/// datetime format.
pub open spec fn entry_problems(
    entry: TabBarStatusEntryConfig,
    datetime: Option<Seq<char>>,
) -> Seq<Seq<char>> {
    match entry {
        TabBarStatusEntryConfig::Datetime { format } => if format@.len() == 0 {
            seq![" datetime format is empty; hiding entry"@]
        } else {
            match datetime {
                Some(err) => seq![" has "@ + err + "; hiding entry"@],
                None => Seq::empty(),
            }
        },
        TabBarStatusEntryConfig::Text { text: _, fg, bg, bold: _ } => color_problems("fg"@, fg)
            + color_problems("bg"@, bg),
        TabBarStatusEntryConfig::Command {
            command,
            interval_seconds,
            timeout_seconds,
            ansi: _,
        } => command_problems(command@, interval_seconds, timeout_seconds),
        TabBarStatusEntryConfig::Zoom | TabBarStatusEntryConfig::Hostname => Seq::empty(),
    }
}

/// What is wrong with the datetime format of an entry, if it has one.
pub open spec fn entry_datetime_error(entry: TabBarStatusEntryConfig) -> Option<Seq<char>> {
    match entry {
        TabBarStatusEntryConfig::Datetime { format } => datetime_error(format@),
        _ => None,
    }
}

/// A list of texts, each with `start` before it.
pub open spec fn prefixed(start: Seq<char>, list: Seq<Seq<char>>) -> Seq<Seq<char>> {
    list.map_values(|text: Seq<char>| start + text)
}

/// The place of an entry, in brackets.
pub open spec fn bracketed(index: nat) -> Seq<char> {
    "["@ + decimal(index) + "]"@
}

/// What is wrong with the first `n` entries, each problem after the place of
/// its entry.
pub open spec fn entries_problems(
    entries: Seq<TabBarStatusEntryConfig>,
    n: nat,
) -> Seq<Seq<char>>
    decreases n,
{
    if n == 0 {
        Seq::empty()
    } else {
        let i = (n - 1) as nat;
        entries_problems(entries, i) + prefixed(
            bracketed(i),
            entry_problems(entries[i as int], entry_datetime_error(entries[i as int])),
        )
    }
}

/// The number of entries that are looked at.
pub open spec fn looked_at(entries: Seq<TabBarStatusEntryConfig>) -> nat {
    if entries.len() <= MAX_TAB_BAR_STATUS_ENTRIES {
        entries.len()
    } else {
        MAX_TAB_BAR_STATUS_ENTRIES as nat
    }
}

/// What is wrong with the entries of a status area.
pub open spec fn area_problems(entries: Seq<TabBarStatusEntryConfig>) -> Seq<Seq<char>> {
    noted(
        entries.len() > MAX_TAB_BAR_STATUS_ENTRIES,
        " may contain at most "@ + decimal(MAX_TAB_BAR_STATUS_ENTRIES as nat)
            + " entries; ignoring extras"@,
    ) + entries_problems(entries, looked_at(entries))
}

/// The diagnostics of a status area: its problems, each after the key of its side.
pub open spec fn area_diagnostics(
    side: TabBarSide,
    entries: Seq<TabBarStatusEntryConfig>,
) -> Seq<Seq<char>> {
    prefixed(side.key(), area_problems(entries))
}

proof fn lemma_prefixed_join(start: Seq<char>, a: Seq<Seq<char>>, b: Seq<Seq<char>>)
    ensures
        prefixed(start, a + b) == prefixed(start, a) + prefixed(start, b),
{
    assert(prefixed(start, a + b) =~= prefixed(start, a) + prefixed(start, b));
}

proof fn lemma_prefixed_twice(outer: Seq<char>, inner: Seq<char>, list: Seq<Seq<char>>)
    ensures
        prefixed(outer, prefixed(inner, list)) == prefixed(outer + inner, list),
{
    assert forall|i: int| 0 <= i < list.len() implies #[trigger] prefixed(
        outer,
        prefixed(inner, list),
    )[i] == prefixed(outer + inner, list)[i] by {
        assert(outer + (inner + list[i]) =~= outer + inner + list[i]);
    }
    assert(prefixed(outer, prefixed(inner, list)) =~= prefixed(outer + inner, list));
}

fn note(diagnostics: &mut Vec<String>, wrong: bool, start: &str, problem: &str)
    ensures
        texts(final(diagnostics)@) == texts(old(diagnostics)@) + prefixed(
            start@,
            noted(wrong, problem@),
        ),
{
    if wrong {
        diagnostics.push(start.to_owned().concat(problem));
    }
    assert(texts(diagnostics@) =~= texts(old(diagnostics)@) + prefixed(
        start@,
        noted(wrong, problem@),
    ));
}

/// The problem of a color that is none. `quote` is its text in quotes.
pub fn color_problem(field: &str, quote: &str) -> (problem: String)
    ensures
        problem@ == color_problem_text(field@, quote@),
{
    " ".to_owned().concat(field).concat(" = ").concat(quote).concat(
        " is not a #rrggbb color; ignoring it",
    )
}

fn note_color(diagnostics: &mut Vec<String>, start: &str, field: &str, value: &Option<String>)
    ensures
        texts(final(diagnostics)@) == texts(old(diagnostics)@) + prefixed(
            start@,
            color_problems(field@, *value),
        ),
{
    if let Some(value) = value {
        let wrong = parse_tab_bar_status_color(value.as_str()).is_none();
        let problem = color_problem(field, quote(value.as_str()).as_str());
        note(diagnostics, wrong, start, problem.as_str());
    } else {
        assert(texts(diagnostics@) =~= texts(diagnostics@) + prefixed(
            start@,
            Seq::<Seq<char>>::empty(),
        ));
    }
}

fn note_command(
    diagnostics: &mut Vec<String>,
    start: &str,
    command: &str,
    interval_seconds: u64,
    timeout_seconds: u64,
)
    ensures
        texts(final(diagnostics)@) == texts(old(diagnostics)@) + prefixed(
            start@,
            command_problems(command@, interval_seconds, timeout_seconds),
        ),
{
    let longest_interval = " interval_seconds may be at most ".to_owned().concat(
        decimal_text(MAX_TAB_BAR_COMMAND_INTERVAL_SECONDS).as_str(),
    ).concat("; hiding entry");
    let longest_timeout = " timeout_seconds may be at most ".to_owned().concat(
        decimal_text(MAX_TAB_BAR_COMMAND_TIMEOUT_SECONDS).as_str(),
    ).concat("; hiding entry");
    note(diagnostics, blank(command), start, " command is empty; hiding entry");
    note(
        diagnostics,
        interval_seconds == 0,
        start,
        " interval_seconds must be at least 1; hiding entry",
    );
    note(
        diagnostics,
        interval_seconds > MAX_TAB_BAR_COMMAND_INTERVAL_SECONDS,
        start,
        longest_interval.as_str(),
    );
    note(
        diagnostics,
        timeout_seconds == 0,
        start,
        " timeout_seconds must be at least 1; hiding entry",
    );
    note(
        diagnostics,
        timeout_seconds > MAX_TAB_BAR_COMMAND_TIMEOUT_SECONDS,
        start,
        longest_timeout.as_str(),
    );
    assert(texts(diagnostics@) =~= texts(old(diagnostics)@) + prefixed(
        start@,
        command_problems(command@, interval_seconds, timeout_seconds),
    ));
}

/// The view of an optional text.
pub open spec fn text_of(text: Option<String>) -> Option<Seq<char>> {
    match text {
        Some(text) => Some(text@),
        None => None,
    }
}

/// Adds the diagnostics of one entry, each after `start`. `datetime` says what is
/// wrong with the format of a datetime entry.
pub fn note_entry(
    diagnostics: &mut Vec<String>,
    start: &str,
    entry: &TabBarStatusEntryConfig,
    datetime: &Option<String>,
)
    ensures
        texts(final(diagnostics)@) == texts(old(diagnostics)@) + prefixed(
            start@,
            entry_problems(*entry, text_of(*datetime)),
        ),
{
    let ghost before = texts(diagnostics@);
    match entry {
        TabBarStatusEntryConfig::Datetime { format } => {
            if format.as_str().is_empty() {
                note(diagnostics, true, start, " datetime format is empty; hiding entry");
            } else if let Some(err) = datetime {
                let problem = " has ".to_owned().concat(err.as_str()).concat("; hiding entry");
                note(diagnostics, true, start, problem.as_str());
            }
        },
        TabBarStatusEntryConfig::Text { text: _, fg, bg, bold: _ } => {
            note_color(diagnostics, start, "fg", fg);
            note_color(diagnostics, start, "bg", bg);
        },
        TabBarStatusEntryConfig::Command {
            command,
            interval_seconds,
            timeout_seconds,
            ansi: _,
        } => {
            note_command(
                diagnostics,
                start,
                command.as_str(),
                *interval_seconds,
                *timeout_seconds,
            );
        },
        TabBarStatusEntryConfig::Zoom | TabBarStatusEntryConfig::Hostname => {},
    }
    assert(texts(diagnostics@) =~= before + prefixed(
        start@,
        entry_problems(*entry, text_of(*datetime)),
    ));
}

fn find_datetime_error(entry: &TabBarStatusEntryConfig) -> (err: Option<String>)
    requires
        entry matches TabBarStatusEntryConfig::Datetime { format } ==> is_countable(format@),
    ensures
        text_of(err) == entry_datetime_error(*entry),
{
    match entry {
        TabBarStatusEntryConfig::Datetime { format } => match parse_tab_bar_datetime_format(
            format.as_str(),
        ) {
            Ok(_) => None,
            Err(err) => Some(err),
        },
        _ => None,
    }
}

/// Says what is wrong with the configured entries of a status area.
pub fn tab_bar_status_diagnostics(
    side: TabBarSide,
    entries: &[TabBarStatusEntryConfig],
) -> (diagnostics: Vec<String>)
    requires
        forall|i: int|
            0 <= i < looked_at(entries@) ==> (#[trigger] entries@[i] matches
                TabBarStatusEntryConfig::Datetime { format } ==> is_countable(format@)),
    ensures
        texts(diagnostics@) == area_diagnostics(side, entries@),
{
    let key = side.config_key();
    let mut diagnostics: Vec<String> = Vec::new();
    let too_many = entries.len() > MAX_TAB_BAR_STATUS_ENTRIES;
    let problem = " may contain at most ".to_owned().concat(
        decimal_text(MAX_TAB_BAR_STATUS_ENTRIES as u64).as_str(),
    ).concat(" entries; ignoring extras");
    note(&mut diagnostics, too_many, key, problem.as_str());
    let ghost first = noted(too_many, problem@);
    let count: usize = if too_many {
        MAX_TAB_BAR_STATUS_ENTRIES
    } else {
        entries.len()
    };
    let mut i: usize = 0;
    assert(texts(diagnostics@) =~= prefixed(key@, first + entries_problems(entries@, 0)));
    while i < count
        invariant
            i <= count <= entries.len(),
            count == looked_at(entries@),
            key@ == side.key(),
            forall|i: int|
                0 <= i < looked_at(entries@) ==> (#[trigger] entries@[i] matches
                    TabBarStatusEntryConfig::Datetime { format } ==> is_countable(format@)),
            texts(diagnostics@) == prefixed(key@, first + entries_problems(entries@, i as nat)),
        decreases count - i,
    {
        let start = key.to_owned().concat("[").concat(decimal_text(i as u64).as_str()).concat("]");
        let entry = &entries[i];
        let datetime = find_datetime_error(entry);
        note_entry(&mut diagnostics, start.as_str(), entry, &datetime);
        proof {
            let problems = entry_problems(*entry, entry_datetime_error(*entry));
            let done = entries_problems(entries@, i as nat);
            let place = bracketed(i as nat);
            assert(start@ =~= key@ + place);
            lemma_prefixed_twice(key@, place, problems);
            lemma_prefixed_join(key@, first + done, prefixed(place, problems));
            assert(first + done + prefixed(place, problems) =~= first + entries_problems(
                entries@,
                (i + 1) as nat,
            ));
        }
        i = i + 1;
    }
    diagnostics
}

/// Whether two diagnostics, one of each side, are the keys of their sides and one
/// and the same text.
pub open spec fn share_text(left: Seq<char>, right: Seq<char>) -> bool {
    exists|text: Seq<char>|
        left == #[trigger] (TabBarSide::Left.key() + text) && right == TabBarSide::Right.key()
            + text
}

/// Both sides have the same diagnostics but for their keys: as many of them, and
/// each is the key of its side and a text that does not depend on the side.
pub proof fn lemma_sides_share_diagnostics(entries: Seq<TabBarStatusEntryConfig>)
    ensures
        ({
            let left = area_diagnostics(TabBarSide::Left, entries);
            let right = area_diagnostics(TabBarSide::Right, entries);
            &&& left.len() == right.len()
            &&& forall|i: int| 0 <= i < left.len() ==> share_text(#[trigger] left[i], right[i])
        }),
{
    let left = area_diagnostics(TabBarSide::Left, entries);
    let right = area_diagnostics(TabBarSide::Right, entries);
    assert forall|i: int| 0 <= i < left.len() implies share_text(#[trigger] left[i], right[i]) by {
        let text = area_problems(entries)[i];
        assert(left[i] == TabBarSide::Left.key() + text);
        assert(right[i] == TabBarSide::Right.key() + text);
    }
}

proof fn lemma_entries_problems_same(
    entries: Seq<TabBarStatusEntryConfig>,
    other: Seq<TabBarStatusEntryConfig>,
    n: nat,
)
    requires
        forall|i: int| 0 <= i < n ==> entries[i] == other[i],
    ensures
        entries_problems(entries, n) == entries_problems(other, n),
    decreases n,
{
    if n > 0 {
        lemma_entries_problems_same(entries, other, (n - 1) as nat);
    }
}

/// Entries beyond the most that are allowed are ignored: they add one diagnostic,
/// before those of the entries that are looked at, and what they hold is of no
/// account.
pub proof fn lemma_extra_entries_are_ignored(
    side: TabBarSide,
    entries: Seq<TabBarStatusEntryConfig>,
)
    requires
        entries.len() > MAX_TAB_BAR_STATUS_ENTRIES,
    ensures
        area_diagnostics(side, entries) == seq![
            side.key() + (" may contain at most "@ + decimal(MAX_TAB_BAR_STATUS_ENTRIES as nat)
                + " entries; ignoring extras"@),
        ] + area_diagnostics(side, entries.take(MAX_TAB_BAR_STATUS_ENTRIES as int)),
{
    let kept = entries.take(MAX_TAB_BAR_STATUS_ENTRIES as int);
    lemma_entries_problems_same(entries, kept, MAX_TAB_BAR_STATUS_ENTRIES as nat);
    assert(area_diagnostics(side, entries) =~= seq![
        side.key() + (" may contain at most "@ + decimal(MAX_TAB_BAR_STATUS_ENTRIES as nat)
            + " entries; ignoring extras"@),
    ] + area_diagnostics(side, kept));
}

/// Whether a color of a text entry is unset or a color.
pub open spec fn is_valid_color(value: Option<String>) -> bool {
    value matches Some(value) ==> is_color_text(value@)
}

/// Whether an entry can be shown as it is configured.
pub open spec fn is_valid_entry(entry: TabBarStatusEntryConfig) -> bool {
    match entry {
        TabBarStatusEntryConfig::Datetime { format } => datetime_error(format@) is None,
        TabBarStatusEntryConfig::Text { text: _, fg, bg, bold: _ } => is_valid_color(fg)
            && is_valid_color(bg),
        TabBarStatusEntryConfig::Command {
            command,
            interval_seconds,
            timeout_seconds,
            ansi: _,
        } => {
            &&& !is_blank(command@)
            &&& 1 <= interval_seconds <= MAX_TAB_BAR_COMMAND_INTERVAL_SECONDS
            &&& 1 <= timeout_seconds <= MAX_TAB_BAR_COMMAND_TIMEOUT_SECONDS
        },
        TabBarStatusEntryConfig::Zoom | TabBarStatusEntryConfig::Hostname => true,
    }
}

proof fn lemma_valid_entries_have_no_problems(entries: Seq<TabBarStatusEntryConfig>, n: nat)
    ensures
        entries_problems(entries, n).len() == 0 <==> (forall|i: int|
            0 <= i < n ==> is_valid_entry(#[trigger] entries[i])),
    decreases n,
{
    if n > 0 {
        let last = entries[n - 1];
        lemma_valid_entries_have_no_problems(entries, (n - 1) as nat);
        assert(entry_problems(last, entry_datetime_error(last)).len() == 0 <==> is_valid_entry(
            last,
        ));
        if forall|i: int| 0 <= i < n - 1 ==> is_valid_entry(#[trigger] entries[i]) {
            if is_valid_entry(last) {
                assert forall|i: int| 0 <= i < n implies is_valid_entry(#[trigger] entries[i]) by {
                    if i == n - 1 {
                        assert(entries[i] == last);
                    }
                }
            }
        }
    }
}

/// A configuration without diagnostics is one with no more entries than allowed
/// and nothing wrong in any of them.
pub proof fn lemma_no_diagnostics_iff_valid(
    side: TabBarSide,
    entries: Seq<TabBarStatusEntryConfig>,
)
    ensures
        area_diagnostics(side, entries).len() == 0 <==> entries.len()
            <= MAX_TAB_BAR_STATUS_ENTRIES && forall|i: int|
            0 <= i < entries.len() ==> is_valid_entry(#[trigger] entries[i]),
{
    lemma_valid_entries_have_no_problems(entries, looked_at(entries));
}

/// The hexadecimal digit of a value, in upper or lower case.
pub open spec fn hex_char(value: int, upper: bool) -> char {
    if value < 10 {
        ('0' as int + value) as char
    } else if upper {
        ('A' as int + value - 10) as char
    } else {
        ('a' as int + value - 10) as char
    }
}

/// A color as `#rrggbb`, where `upper` says of each of the six digits whether it
/// is in upper case.
pub open spec fn color_text(red: u8, green: u8, blue: u8, upper: Seq<bool>) -> Seq<char> {
    seq![
        '#',
        hex_char(red as int / 16, upper[0]),
        hex_char(red as int % 16, upper[1]),
        hex_char(green as int / 16, upper[2]),
        hex_char(green as int % 16, upper[3]),
        hex_char(blue as int / 16, upper[4]),
        hex_char(blue as int % 16, upper[5]),
    ]
}

/// Every color can be written as `#rrggbb`, with each digit in lower or in upper
/// case, and is read back as it was.
pub proof fn lemma_color_text_is_read_back(red: u8, green: u8, blue: u8, upper: Seq<bool>)
    requires
        upper.len() == 6,
    ensures
        named_color(color_text(red, green, blue, upper)) == Some((red, green, blue)),
{
    let text = color_text(red, green, blue, upper);
    assert forall|i: int| 1 <= i < 7 implies is_hex(#[trigger] text[i]) by {
        assert(i == 1 || i == 2 || i == 3 || i == 4 || i == 5 || i == 6);
    }
}

/// A color in lower-case digits, and the same one in upper-case digits, are both
/// read back as they were.
pub proof fn lemma_both_cases_are_read_back(red: u8, green: u8, blue: u8)
    ensures
        named_color(color_text(red, green, blue, Seq::new(6, |i: int| false))) == Some(
            (red, green, blue),
        ),
        named_color(color_text(red, green, blue, Seq::new(6, |i: int| true))) == Some(
            (red, green, blue),
        ),
{
    lemma_color_text_is_read_back(red, green, blue, Seq::new(6, |i: int| false));
    lemma_color_text_is_read_back(red, green, blue, Seq::new(6, |i: int| true));
}

} // verus!
