use vstd::prelude::*;
use vstd::string::StrSliceExecFns;

verus! {

/// The Unicode `White_Space` property, which `char::is_whitespace` and `str::trim` use.
pub open spec fn is_white_space(c: char) -> bool {
    ||| '\u{9}' <= c <= '\u{d}'
    ||| c == ' '
    ||| c == '\u{85}'
    ||| c == '\u{a0}'
    ||| c == '\u{1680}'
    ||| '\u{2000}' <= c <= '\u{200a}'
    ||| c == '\u{2028}'
    ||| c == '\u{2029}'
    ||| c == '\u{202f}'
    ||| c == '\u{205f}'
    ||| c == '\u{3000}'
}

/// A text that `trim` leaves unchanged: no white space at either end.
pub open spec fn is_trimmed(text: Seq<char>) -> bool {
    text.len() == 0 || (!is_white_space(text[0]) && !is_white_space(text.last()))
}

/// Whether a character is Unicode white space.
pub fn white_space(c: char) -> (white: bool)
    ensures
        white == is_white_space(c),
{
    ('\u{9}' <= c && c <= '\u{d}') || c == ' ' || c == '\u{85}' || c == '\u{a0}' || c == '\u{1680}'
        || ('\u{2000}' <= c && c <= '\u{200a}') || c == '\u{2028}' || c == '\u{2029}' || c
        == '\u{202f}' || c == '\u{205f}' || c == '\u{3000}'
}

/// Whether trimming white space would leave the text unchanged.
pub fn trimmed(value: &str) -> (unchanged: bool)
    ensures
        unchanged == is_trimmed(value@),
{
    let length = value.unicode_len();
    if length == 0 {
        true
    } else {
        !white_space(value.get_char(0)) && !white_space(value.get_char(length - 1))
    }
}

/// A non-empty text without surrounding white space.
pub open spec fn is_stable_text(text: Seq<char>) -> bool {
    text.len() > 0 && is_trimmed(text)
}

/// Whether the text is non-empty and has no surrounding white space.
pub fn stable_text(value: &str) -> (stable: bool)
    ensures
        stable == is_stable_text(value@),
{
    let length = value.unicode_len();
    length > 0 && trimmed(value)
}

/// Whether two texts are equal.
pub fn same_text(a: &String, b: &String) -> (same: bool)
    ensures
        same == (a@ == b@),
{
    a.eq(b)
}

/// Whether some text of `values` equals `wanted`.
pub fn contains_text(values: &[String], wanted: &String) -> (found: bool)
    ensures
        found == exists|j: int| 0 <= j < values@.len() && #[trigger] values@[j]@ == wanted@,
{
    let mut j: usize = 0;
    while j < values.len()
        invariant
            j <= values@.len(),
            forall|k: int| 0 <= k < j ==> #[trigger] values@[k]@ != wanted@,
        decreases values.len() - j,
    {
        if same_text(&values[j], wanted) {
            return true;
        }
        j = j + 1;
    }
    false
}

} // verus!
