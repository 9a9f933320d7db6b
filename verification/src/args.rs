//! What the command line says, once its words are at hand: sizes written in
//! decimal, and the line that names an image among several.

use vstd::prelude::*;

verus! {

/// `c` is one of the ten digits.
pub open spec fn is_digit(c: char) -> bool {
    '0' <= c <= '9'
}

/// The number that the digit `c` stands for.
pub open spec fn digit_value(c: char) -> nat
    recommends
        is_digit(c),
{
    (c as int - '0' as int) as nat
}

/// Every character of `s` is a digit.
pub open spec fn all_digits(s: Seq<char>) -> bool {
    forall|i: int| 0 <= i < s.len() ==> is_digit(#[trigger] s[i])
}

/// The number that `digits` write in decimal.
pub open spec fn value_of(digits: Seq<char>) -> nat
    decreases digits.len(),
{
    if digits.len() == 0 {
        0
    } else {
        10 * value_of(digits.drop_last()) + digit_value(digits.last())
    }
}

/// `s` without a plus sign in front.
pub open spec fn unsigned(s: Seq<char>) -> Seq<char> {
    if s.len() > 0 && s[0] == '+' {
        s.subrange(1, s.len() as int)
    } else {
        s
    }
}

/// The size that `s` writes: one or more digits, with or without a plus sign
/// in front, for a number that a `u32` can carry. Anything else writes none.
pub open spec fn parsed(s: Seq<char>) -> Option<u32> {
    let digits = unsigned(s);
    if digits.len() > 0 && all_digits(digits) && value_of(digits) <= u32::MAX {
        Some(value_of(digits) as u32)
    } else {
        None
    }
}

/// More digits never write a smaller number.
pub proof fn lemma_value_grows(digits: Seq<char>, n: int)
    requires
        0 <= n <= digits.len(),
    ensures
        value_of(digits.take(n)) <= value_of(digits),
    decreases digits.len(),
{
    if n < digits.len() {
        lemma_value_grows(digits.drop_last(), n);
        assert(digits.drop_last().take(n) =~= digits.take(n));
    } else {
        assert(digits.take(n) =~= digits);
    }
}

/// Reads a size written in decimal.
pub fn parse_size(s: &str) -> (out: Option<u32>)
    ensures
        out == parsed(s@),
{
    let len: usize = s.unicode_len();
    let start: usize = if len > 0 && s.get_char(0) == '+' {
        1
    } else {
        0
    };
    if start == len {
        return None;
    }
    let ghost digits = unsigned(s@);
    let mut value: u64 = 0;
    let mut at: usize = start;
    while at < len
        invariant
            start <= at <= len,
            len == s@.len(),
            digits == unsigned(s@),
            digits.len() == len - start,
            forall|i: int| 0 <= i < digits.len() ==> digits[i] == s@[start + i],
            all_digits(digits.take(at - start)),
            value == value_of(digits.take(at - start)),
            value <= u32::MAX,
        decreases len - at,
    {
        let c: char = s.get_char(at);
        if !('0' <= c && c <= '9') {
            assert(!is_digit(digits[at - start]));
            return None;
        }
        let ghost read = digits.take(at - start + 1);
        assert(read.drop_last() =~= digits.take(at - start));
        value = value * 10 + (c as u64 - '0' as u64);
        at = at + 1;
        if value > u32::MAX as u64 {
            proof {
                lemma_value_grows(digits, at - start);
            }
            return None;
        }
    }
    assert(digits.take(at - start) =~= digits);
    Some(value as u32)
}

/// A size on the command line that is no number.
#[derive(Clone, Debug, PartialEq, Eq)]
pub struct MalformedSize {
    pub text: String,
}

impl MalformedSize {
    /// What the user is told.
    pub fn message(&self) -> (out: String)
        ensures
            out@ == "Malformed size: "@ + self.text@,
    {
        let mut out: String = String::new();
        out.append("Malformed size: ");
        out.append(self.text.as_str());
        out
    }
}

/// Reads a size that may have been left out: none where none was given, the
/// number where the text writes one, and the text back where it does not.
pub fn parse_optional_int(opt: Option<String>) -> (out: Result<Option<u32>, MalformedSize>)
    ensures
        match opt {
            None => out == Ok::<Option<u32>, MalformedSize>(None),
            Some(text) => match parsed(text@) {
                Some(value) => out == Ok::<Option<u32>, MalformedSize>(Some(value)),
                None => out matches Err(error) && error.text@ == text@,
            },
        },
{
    match opt {
        None => Ok(None),
        Some(text) => match parse_size(text.as_str()) {
            Some(value) => Ok(Some(value)),
            None => Err(MalformedSize { text }),
        },
    }
}

/// The line that goes before an image's picture: its path where more than
/// one image is shown, nothing where there is one or none.
pub open spec fn header(path: Seq<char>, total: nat) -> Seq<char> {
    if total > 1 {
        path + "\n"@
    } else {
        Seq::empty()
    }
}

/// The text to write before the picture of the image at `path`, one of
/// `total` images.
pub fn path_header(path: &str, total: usize) -> (out: String)
    ensures
        out@ == header(path@, total as nat),
        total <= 1 ==> out@.len() == 0,
        total >= 2 ==> out@ == path@ + "\n"@,
{
    let mut out: String = String::new();
    if total > 1 {
        out.append(path);
        out.append("\n");
    }
    out
}

} // verus!
