//! What the diagnostics of a status area are for: each says one thing that is
//! wrong, and where.

use vstd::prelude::*;

use crate::config::{
    area_diagnostics, area_problems, color_text, entries_problems, entry_datetime_error,
    entry_problems, is_hex, looked_at, named_color, prefixed, text_of, TabBarSide,
    TabBarStatusEntryConfig, MAX_TAB_BAR_COMMAND_INTERVAL_SECONDS,
    MAX_TAB_BAR_COMMAND_TIMEOUT_SECONDS, MAX_TAB_BAR_STATUS_ENTRIES,
};
use crate::datetime::{datetime_error, earliest_in, strftime_items};
use crate::text::{decimal, is_blank, is_white_space, quoted};

verus! {

/// A text that is read as a color is that color written as `#rrggbb`, with each
/// digit in one case or the other. No other text is a color.
pub proof fn lemma_only_colors_are_read(text: Seq<char>)
    ensures
        named_color(text) matches Some((red, green, blue)) ==> exists|upper: Seq<bool>|
            upper.len() == 6 && text == #[trigger] color_text(red, green, blue, upper),
{
    if let Some((red, green, blue)) = named_color(text) {
        assert forall|i: int| 1 <= i < 7 implies is_hex(#[trigger] text[i]) by {}
        let upper = Seq::new(6, |i: int| text[i + 1] <= 'F');
        assert(is_hex(text[1]) && is_hex(text[2]) && is_hex(text[3]) && is_hex(text[4]) && is_hex(
            text[5],
        ) && is_hex(text[6]));
        let written = color_text(red, green, blue, upper);
        assert(written[0] == text[0]);
        assert(written[1] == text[1]);
        assert(written[2] == text[2]);
        assert(written[3] == text[3]);
        assert(written[4] == text[4]);
        assert(written[5] == text[5]);
        assert(written[6] == text[6]);
        assert(text =~= written);
    }
}

/// Whether a text is blank depends on each of its characters.
pub proof fn lemma_blank_texts_grow_by_white_space(text: Seq<char>, c: char)
    ensures
        text.len() == 0 ==> is_blank(text),
        is_blank(text.push(c)) <==> is_blank(text) && is_white_space(c),
{
    let longer = text.push(c);
    if is_blank(longer) {
        assert forall|i: int| 0 <= i < text.len() implies is_white_space(#[trigger] text[i]) by {
            assert(longer[i] == text[i]);
        }
        assert(longer[text.len() as int] == c);
    }
}

/// A datetime format is right exactly if it is not empty, can be read, and a date
/// and time alone can be written in it. Each fault has its own message.
pub proof fn lemma_faults_of_datetime_formats(value: Seq<char>)
    ensures
        datetime_error(value) is None <==> value.len() > 0 && strftime_items(value) is Ok
            && earliest_in(strftime_items(value)->Ok_0) is Ok,
        value.len() == 0 ==> datetime_error(value) == Some("datetime format is empty"@),
        value.len() > 0 ==> (strftime_items(value) matches Err(err) ==> datetime_error(value)
            == Some("invalid datetime format: "@ + err)),
        value.len() > 0 ==> (strftime_items(value) matches Ok(format) ==> (earliest_in(
            format,
        ) matches Err(err) ==> datetime_error(value) == Some(
            "unsupported datetime format: "@ + err,
        ))),
{
}

/// A datetime entry has one problem at most: that its format is empty, or what is
/// wrong with it.
pub proof fn lemma_problems_of_datetime_entries(format: String, datetime: Option<String>)
    ensures
        ({
            let entry = TabBarStatusEntryConfig::Datetime { format };
            let problems = entry_problems(entry, text_of(datetime));
            &&& entry_datetime_error(entry) == datetime_error(format@)
            &&& format@.len() == 0 ==> problems.len() == 1 && problems[0]
                == " datetime format is empty; hiding entry"@
            &&& format@.len() > 0 && datetime is None ==> problems.len() == 0
            &&& format@.len() > 0 && datetime is Some ==> problems.len() == 1 && problems[0]
                == " has "@ + datetime->0@ + "; hiding entry"@
        }),
{
}

/// One if a condition holds, else none.
pub open spec fn one_if(condition: bool) -> int {
    if condition {
        1
    } else {
        0
    }
}

/// Whether a color is set to a text that is none.
pub open spec fn is_no_color(value: Option<String>) -> bool {
    value is Some && named_color(value->0@) is None
}

/// A text entry has a problem for each color that is set and is none, that of the
/// foreground first. What it shows, and whether in bold, is never one.
pub proof fn lemma_problems_of_text_entries(
    text: String,
    fg: Option<String>,
    bg: Option<String>,
    bold: bool,
    datetime: Option<Seq<char>>,
)
    ensures
        ({
            let problems = entry_problems(
                TabBarStatusEntryConfig::Text { text, fg, bg, bold },
                datetime,
            );
            let fault = " is not a #rrggbb color; ignoring it"@;
            &&& problems.len() == one_if(is_no_color(fg)) + one_if(is_no_color(bg))
            &&& is_no_color(fg) ==> problems[0] == " "@ + "fg"@ + " = "@ + quoted(fg->0@) + fault
            &&& is_no_color(bg) ==> problems[one_if(is_no_color(fg))] == " "@ + "bg"@ + " = "@
                + quoted(bg->0@) + fault
        }),
{
}

/// A command entry has a problem for a blank command, for an interval out of its
/// limits, and for a timeout out of its limits, in this order.
pub proof fn lemma_problems_of_command_entries(
    command: String,
    interval_seconds: u64,
    timeout_seconds: u64,
    ansi: bool,
    datetime: Option<Seq<char>>,
)
    ensures
        ({
            let problems = entry_problems(
                TabBarStatusEntryConfig::Command {
                    command,
                    interval_seconds,
                    timeout_seconds,
                    ansi,
                },
                datetime,
            );
            let most_interval = MAX_TAB_BAR_COMMAND_INTERVAL_SECONDS;
            let most_timeout = MAX_TAB_BAR_COMMAND_TIMEOUT_SECONDS;
            let blank = one_if(is_blank(command@));
            let interval = one_if(!(1 <= interval_seconds <= most_interval));
            let timeout = one_if(!(1 <= timeout_seconds <= most_timeout));
            &&& problems.len() == blank + interval + timeout
            &&& blank == 1 ==> problems[0] == " command is empty; hiding entry"@
            &&& interval_seconds == 0 ==> problems[blank]
                == " interval_seconds must be at least 1; hiding entry"@
            &&& interval_seconds > most_interval ==> problems[blank]
                == " interval_seconds may be at most "@ + decimal(most_interval as nat)
                + "; hiding entry"@
            &&& timeout_seconds == 0 ==> problems[blank + interval]
                == " timeout_seconds must be at least 1; hiding entry"@
            &&& timeout_seconds > most_timeout ==> problems[blank + interval]
                == " timeout_seconds may be at most "@ + decimal(most_timeout as nat)
                + "; hiding entry"@
        }),
{
}

/// Entries for the zoom state and the hostname have no problems.
pub proof fn lemma_other_entries_have_no_problems(datetime: Option<Seq<char>>)
    ensures
        entry_problems(TabBarStatusEntryConfig::Zoom, datetime).len() == 0,
        entry_problems(TabBarStatusEntryConfig::Hostname, datetime).len() == 0,
{
}

proof fn lemma_entries_problems_of_prefix(
    entries: Seq<TabBarStatusEntryConfig>,
    more: Seq<TabBarStatusEntryConfig>,
    n: nat,
)
    requires
        forall|i: int| 0 <= i < n ==> entries[i] == more[i],
    ensures
        entries_problems(entries, n) == entries_problems(more, n),
    decreases n,
{
    if n > 0 {
        lemma_entries_problems_of_prefix(entries, more, (n - 1) as nat);
    }
}

/// An area without entries has no diagnostics. As long as no more than the allowed
/// entries are there, one more entry leaves the diagnostics of the others as they
/// are, and adds its own behind them: each of its problems after the key of the
/// side and the place of the entry.
pub proof fn lemma_entries_are_diagnosed_one_by_one(
    side: TabBarSide,
    entries: Seq<TabBarStatusEntryConfig>,
    entry: TabBarStatusEntryConfig,
)
    requires
        entries.len() < MAX_TAB_BAR_STATUS_ENTRIES,
    ensures
        entries.len() == 0 ==> area_diagnostics(side, entries).len() == 0,
        ({
            let before = area_diagnostics(side, entries);
            let after = area_diagnostics(side, entries.push(entry));
            let problems = entry_problems(entry, entry_datetime_error(entry));
            &&& after.len() == before.len() + problems.len()
            &&& after.take(before.len() as int) == before
            &&& forall|i: int|
                0 <= i < problems.len() ==> after[before.len() + i] == side.key() + ("["@ + decimal(
                    entries.len(),
                ) + "]"@ + #[trigger] problems[i])
        }),
{
    let more = entries.push(entry);
    let n = entries.len();
    let before = area_diagnostics(side, entries);
    let after = area_diagnostics(side, more);
    let problems = entry_problems(entry, entry_datetime_error(entry));
    lemma_entries_problems_of_prefix(entries, more, n);
    assert(looked_at(more) == n + 1);
    assert(area_problems(entries) =~= entries_problems(entries, n));
    assert(area_problems(more) =~= area_problems(entries) + prefixed(
        "["@ + decimal(n) + "]"@,
        problems,
    ));
    assert(after.take(before.len() as int) =~= before);
}

} // verus!
