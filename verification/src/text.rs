//! Text helpers: widths on screen, decimal numbers, quoting and trimming.

use vstd::prelude::*;

verus! {

/// The views of a list of strings.
pub open spec fn texts(list: Seq<String>) -> Seq<Seq<char>> {
    list.map_values(|s: String| s@)
}

/// The number of terminal cells that ratatui gives `text`.
pub uninterp spec fn span_cells(text: Seq<char>) -> nat;

/// Calls `ratatui::text::Span::width` on the text as a raw span. Claimed: the
/// width is a function of the text alone, here called `span_cells`.
#[verifier::external_body]
fn span_width(text: &str) -> (cells: usize)
    ensures
        cells == span_cells(text@),
{
    ratatui::text::Span::raw(text).width()
}

/// The width of `text` on screen, as far as a `u16` holds it.
pub open spec fn cells(text: Seq<char>) -> u16 {
    if span_cells(text) <= u16::MAX {
        span_cells(text) as u16
    } else {
        u16::MAX
    }
}

/// The number of terminal cells that `text` takes, at most `u16::MAX`.
pub fn display_width(text: &str) -> (width: u16)
    ensures
        width == cells(text@),
{
    let width: usize = span_width(text);
    if width <= u16::MAX as usize {
        width as u16
    } else {
        u16::MAX
    }
}

/// The character of a digit below ten.
pub open spec fn digit(d: nat) -> char {
    ('0' as nat + d) as char
}

/// The decimal digits of `n`, without leading zeros.
pub open spec fn decimal(n: nat) -> Seq<char>
    decreases n,
{
    if n < 10 {
        seq![digit(n)]
    } else {
        decimal(n / 10).push(digit(n % 10))
    }
}

fn digit_text(d: u64) -> (text: &'static str)
    requires
        d < 10,
    ensures
        text@ == seq![digit(d as nat)],
{
    proof {
        reveal_strlit("0");
        reveal_strlit("1");
        reveal_strlit("2");
        reveal_strlit("3");
        reveal_strlit("4");
        reveal_strlit("5");
        reveal_strlit("6");
        reveal_strlit("7");
        reveal_strlit("8");
        reveal_strlit("9");
    }
    match d {
        0 => "0",
        1 => "1",
        2 => "2",
        3 => "3",
        4 => "4",
        5 => "5",
        6 => "6",
        7 => "7",
        8 => "8",
        _ => "9",
    }
}

/// Writes `n` in decimal.
pub fn decimal_text(n: u64) -> (text: String)
    ensures
        text@ == decimal(n as nat),
    decreases n,
{
    let mut text = if n < 10 {
        String::new()
    } else {
        decimal_text(n / 10)
    };
    text.append(digit_text(n % 10));
    text
}

/// What `{:?}` writes for a string: the text in double quotes, with escapes.
pub uninterp spec fn quoted(text: Seq<char>) -> Seq<char>;

/// Calls the `Debug` formatting of `str`. Claimed: what it writes is a
/// function of the text alone, here called `quoted`.
#[verifier::external_body]
pub(crate) fn quote(text: &str) -> (quote: String)
    ensures
        quote@ == quoted(text@),
{
    format!("{:?}", text)
}

/// Whether `c` has the Unicode property White_Space.
pub open spec fn is_white_space(c: char) -> bool {
    ||| '\u{9}' <= c <= '\u{d}'
    ||| c == '\u{20}'
    ||| c == '\u{85}'
    ||| c == '\u{a0}'
    ||| c == '\u{1680}'
    ||| '\u{2000}' <= c <= '\u{200a}'
    ||| c == '\u{2028}'
    ||| c == '\u{2029}'
    ||| c == '\u{202f}'
    ||| c == '\u{205f}'
    ||| c == '\u{3000}'
}

/// Whether `text` holds nothing but white space.
pub open spec fn is_blank(text: Seq<char>) -> bool {
    forall|i: int| 0 <= i < text.len() ==> is_white_space(#[trigger] text[i])
}

/// `text` from its first character that is no white space on.
pub open spec fn trimmed_start(text: Seq<char>) -> Seq<char>
    decreases text.len(),
{
    if text.len() > 0 && is_white_space(text.first()) {
        trimmed_start(text.drop_first())
    } else {
        text
    }
}

/// `text` up to its last character that is no white space.
pub open spec fn trimmed_end(text: Seq<char>) -> Seq<char>
    decreases text.len(),
{
    if text.len() > 0 && is_white_space(text.last()) {
        trimmed_end(text.drop_last())
    } else {
        text
    }
}

/// `str::trim`. Claimed: it takes away the leading and the trailing characters
/// that have the Unicode property White_Space, and nothing else.
pub assume_specification[ str::trim ](text: &str) -> (rest: &str)
    ensures
        rest@ == trimmed_end(trimmed_start(text@)),
;

proof fn lemma_trimmed_start_blank(text: Seq<char>)
    ensures
        trimmed_start(text).len() == 0 <==> is_blank(text),
        trimmed_start(text).len() > 0 ==> !is_white_space(trimmed_start(text).first()),
    decreases text.len(),
{
    if text.len() > 0 && is_white_space(text.first()) {
        let rest = text.drop_first();
        lemma_trimmed_start_blank(rest);
        if is_blank(rest) {
            assert forall|i: int| 0 <= i < text.len() implies is_white_space(#[trigger] text[i]) by {
                if i > 0 {
                    assert(rest[i - 1] == text[i]);
                }
            }
        }
        if is_blank(text) {
            assert forall|i: int| 0 <= i < rest.len() implies is_white_space(#[trigger] rest[i]) by {
                assert(rest[i] == text[i + 1]);
            }
        }
    } else if text.len() > 0 {
        assert(!is_white_space(text[0]));
    }
}

proof fn lemma_trimmed_end_keeps_first(text: Seq<char>)
    requires
        text.len() > 0,
        !is_white_space(text.first()),
    ensures
        trimmed_end(text).len() > 0,
    decreases text.len(),
{
    if is_white_space(text.last()) {
        assert(text.len() > 1);
        assert(text.drop_last().first() == text.first());
        lemma_trimmed_end_keeps_first(text.drop_last());
    }
}

/// Trimming leaves nothing exactly when the text holds nothing but white space.
pub proof fn lemma_trimmed_empty_iff_blank(text: Seq<char>)
    ensures
        trimmed_end(trimmed_start(text)).len() == 0 <==> is_blank(text),
{
    lemma_trimmed_start_blank(text);
    if trimmed_start(text).len() > 0 {
        lemma_trimmed_end_keeps_first(trimmed_start(text));
    }
}

/// Whether `text` holds nothing but white space.
pub fn blank(text: &str) -> (r: bool)
    ensures
        r == is_blank(text@),
{
    proof {
        lemma_trimmed_empty_iff_blank(text@);
    }
    text.trim().is_empty()
}

/// `n` spaces.
pub open spec fn spaces(n: nat) -> Seq<char> {
    Seq::new(n, |i: int| ' ')
}

/// Appends `n` spaces to `text`.
pub fn push_spaces(text: &mut String, n: u16)
    ensures
        final(text)@ == old(text)@ + spaces(n as nat),
{
    let mut i: u16 = 0;
    assert(text@ =~= old(text)@ + spaces(0));
    while i < n
        invariant
            i <= n,
            text@ == old(text)@ + spaces(i as nat),
        decreases n - i,
    {
        proof {
            reveal_strlit(" ");
        }
        text.append(" ");
        i = i + 1;
        assert(text@ =~= old(text)@ + spaces(i as nat));
    }
}

} // verus!
