//! What holds of every text and number.

use vstd::prelude::*;

use crate::text::{cells, decimal, spaces, span_cells, texts};

verus! {

/// The number that a row of decimal digits stands for.
pub open spec fn digits_value(digits: Seq<char>) -> int {
    digits.fold_left(0int, |value: int, c: char| value * 10 + (c as int - '0' as int))
}

/// A number is read back from its digits. There is at least one of them, and the
/// first is a zero only for zero itself.
pub proof fn lemma_number_is_read_back(n: nat)
    ensures
        digits_value(decimal(n)) == n,
        decimal(n).len() > 0,
        forall|i: int| 0 <= i < decimal(n).len() ==> '0' <= #[trigger] decimal(n)[i] <= '9',
        decimal(n)[0] == '0' ==> n == 0,
        n == 0 ==> decimal(n).len() == 1,
    decreases n,
{
    let digits = decimal(n);
    reveal_with_fuel(Seq::fold_left, 3);
    if n < 10 {
        assert(digits.drop_last() =~= Seq::<char>::empty());
    } else {
        lemma_number_is_read_back(n / 10);
        assert(digits.drop_last() =~= decimal(n / 10));
    }
}

/// The width of a text is the number of cells that it takes, and stops at the
/// largest coordinate.
pub proof fn lemma_width_of_text(text: Seq<char>)
    ensures
        cells(text) <= span_cells(text),
        cells(text) < span_cells(text) ==> cells(text) == u16::MAX,
{
}

/// A list of strings stands for their texts, one for one.
pub proof fn lemma_strings_stand_for_their_texts(list: Seq<String>)
    ensures
        texts(list).len() == list.len(),
        forall|i: int| 0 <= i < list.len() ==> #[trigger] texts(list)[i] == list[i]@,
{
}

/// Spaces are as many as asked for, and nothing else is among them.
pub proof fn lemma_spaces(n: nat)
    ensures
        spaces(n).len() == n,
        forall|i: int| 0 <= i < n ==> spaces(n)[i] == ' ',
{
}

} // verus!
