//! The formats of datetime entries.

use vstd::prelude::*;
use vstd::utf8::encode_utf8;

verus! {

/// `time::format_description::OwnedFormatItem`, a format as the time crate holds it.
#[verifier::external_type_specification]
#[verifier::external_body]
pub struct ExOwnedFormatItem(time::format_description::OwnedFormatItem);

/// What the time crate makes of a format in the notation of strftime: the
/// format, or the text of the error.
pub uninterp spec fn strftime_items(value: Seq<char>) -> Result<
    time::format_description::OwnedFormatItem,
    Seq<char>,
>;

/// What the time crate writes for the earliest date and time in a format: the
/// text, or the text of the error.
pub uninterp spec fn earliest_in(format: time::format_description::OwnedFormatItem) -> Result<
    Seq<char>,
    Seq<char>,
>;

/// Whether a format is short enough for its positions to be counted in a `u32`.
pub open spec fn is_countable(value: Seq<char>) -> bool {
    encode_utf8(value).len() <= u32::MAX
}

/// Calls `time::format_description::parse_strftime_owned`, and writes its error
/// out. Claimed: both are a function of the text alone, here called
/// `strftime_items`. The function counts bytes in a `u32`, so longer texts are
/// left out.
#[verifier::external_body]
fn parse_strftime(value: &str) -> (parsed: Result<time::format_description::OwnedFormatItem, String>)
    requires
        is_countable(value@),
    ensures
        match parsed {
            Ok(format) => strftime_items(value@) == Ok::<_, Seq<char>>(format),
            Err(err) => strftime_items(value@) == Err::<
                time::format_description::OwnedFormatItem,
                _,
            >(err@),
        },
{
    match time::format_description::parse_strftime_owned(value) {
        Ok(format) => Ok(format),
        Err(err) => Err(format!("{err}")),
    }
}

/// Calls `time::PrimitiveDateTime::format` on the earliest date and time, and
/// writes its error out. Claimed: both are a function of the format alone, here
/// called `earliest_in`.
#[verifier::external_body]
fn format_earliest(format: &time::format_description::OwnedFormatItem) -> (written: Result<
    String,
    String,
>)
    ensures
        match written {
            Ok(text) => earliest_in(*format) == Ok::<_, Seq<char>>(text@),
            Err(err) => earliest_in(*format) == Err::<Seq<char>, _>(err@),
        },
{
    match time::PrimitiveDateTime::MIN.format(format) {
        Ok(text) => Ok(text),
        Err(err) => Err(format!("{err}")),
    }
}

/// What is wrong with a datetime format, if anything.
pub open spec fn datetime_error(value: Seq<char>) -> Option<Seq<char>> {
    if value.len() == 0 {
        Some("datetime format is empty"@)
    } else {
        match strftime_items(value) {
            Err(err) => Some("invalid datetime format: "@ + err),
            Ok(format) => match earliest_in(format) {
                Err(err) => Some("unsupported datetime format: "@ + err),
                Ok(_) => None,
            },
        }
    }
}

/// The message for a format that cannot be read.
pub fn invalid_datetime_format(err: &str) -> (message: String)
    ensures
        message@ == "invalid datetime format: "@ + err@,
{
    "invalid datetime format: ".to_owned().concat(err)
}

/// The message for a format that a date and time alone cannot be written in.
pub fn unsupported_datetime_format(err: &str) -> (message: String)
    ensures
        message@ == "unsupported datetime format: "@ + err@,
{
    "unsupported datetime format: ".to_owned().concat(err)
}

/// Keeps a format in which a date and time alone can be written. `written` is what
/// came of writing one in it.
pub fn written_datetime_format(
    format: time::format_description::OwnedFormatItem,
    written: Result<String, String>,
) -> (kept: Result<time::format_description::OwnedFormatItem, String>)
    ensures
        match written {
            Ok(_) => kept == Ok::<_, String>(format),
            Err(err) => kept matches Err(message) && message@ == "unsupported datetime format: "@
                + err@,
        },
{
    match written {
        Ok(_) => Ok(format),
        Err(err) => Err(unsupported_datetime_format(err.as_str())),
    }
}

/// Reads a datetime format in the notation of strftime. It is refused if it is
/// empty, if it cannot be read, or if a date and time alone cannot be written in it.
pub fn parse_tab_bar_datetime_format(value: &str) -> (parsed: Result<
    time::format_description::OwnedFormatItem,
    String,
>)
    requires
        is_countable(value@),
    ensures
        match parsed {
            Ok(format) => datetime_error(value@) is None && strftime_items(value@) == Ok::<
                _,
                Seq<char>,
            >(format),
            Err(err) => datetime_error(value@) == Some(err@),
        },
{
    if value.is_empty() {
        return Err("datetime format is empty".to_owned());
    }
    match parse_strftime(value) {
        Err(err) => Err(invalid_datetime_format(err.as_str())),
        Ok(format) => {
            let written = format_earliest(&format);
            written_datetime_format(format, written)
        },
    }
}

} // verus!
