//! Values given as lines of text: one decimal integer per non-blank line,
//! surrounding whitespace ignored.

use vstd::prelude::*;
use crate::spec::histogram;
use crate::engine::histogram_256;
use crate::input::{InputError, admissible, rejection, check_value};

verus! {

/// What `str::trim` returns for a text.
pub uninterp spec fn trimmed(s: Seq<char>) -> Seq<char>;

/// An ASCII decimal digit.
pub open spec fn is_digit(c: char) -> bool {
    '0' <= c <= '9'
}

/// One or more ASCII decimal digits.
pub open spec fn all_digits(s: Seq<char>) -> bool {
    s.len() > 0 && forall|i: int| 0 <= i < s.len() ==> is_digit(#[trigger] s[i])
}

/// The number that a run of decimal digits writes.
pub open spec fn digits_value(s: Seq<char>) -> int
    decreases s.len(),
{
    if s.len() == 0 {
        0
    } else {
        digits_value(s.drop_last()) * 10 + ((s.last() as u32) - ('0' as u32))
    }
}

/// The integer that `s` writes in decimal, with an optional `+` or `-`
/// sign, if it writes one.
pub open spec fn decimal_value(s: Seq<char>) -> Option<int> {
    if s.len() > 0 && (s[0] == '-' || s[0] == '+') {
        if all_digits(s.skip(1)) {
            Some(
                if s[0] == '-' {
                    -digits_value(s.skip(1))
                } else {
                    digits_value(s.skip(1))
                },
            )
        } else {
            None
        }
    } else if all_digits(s) {
        Some(digits_value(s))
    } else {
        None
    }
}

/// `s` writes an integer in decimal that fits in an `i64`.
pub open spec fn is_i64_text(s: Seq<char>) -> bool {
    decimal_value(s) is Some && i64::MIN <= decimal_value(s)->Some_0 <= i64::MAX
}

/// The line holds nothing but whitespace.
pub open spec fn is_blank(line: Seq<char>) -> bool {
    trimmed(line).len() == 0
}

/// The line is blank, or holds an integer the engine can count.
pub open spec fn line_admissible(line: Seq<char>) -> bool {
    is_blank(line) || (is_i64_text(trimmed(line)) && admissible(
        decimal_value(trimmed(line))->Some_0 as i64,
    ))
}

/// `e` is the error for the non-admissible line `line`.
pub open spec fn line_error(line: Seq<char>, e: InputError) -> bool {
    if !is_i64_text(trimmed(line)) {
        e matches InputError::Unparseable(text, _) && text@ == trimmed(line)
    } else {
        e == rejection(decimal_value(trimmed(line))->Some_0 as i64)
    }
}

/// The texts of the lines.
pub open spec fn texts(lines: Seq<String>) -> Seq<Seq<char>> {
    lines.map_values(|l: String| l@)
}

/// The values of the non-blank lines, in order.
pub open spec fn line_values(ls: Seq<Seq<char>>) -> Seq<u32>
    decreases ls.len(),
{
    if ls.len() == 0 {
        Seq::empty()
    } else if is_blank(ls.last()) {
        line_values(ls.drop_last())
    } else {
        line_values(ls.drop_last()).push(decimal_value(trimmed(ls.last()))->Some_0 as u32)
    }
}

/// The first non-admissible line of `ls` is at index `i`.
pub open spec fn first_bad_line(ls: Seq<Seq<char>>, i: int) -> bool {
    0 <= i < ls.len() && !line_admissible(ls[i]) && forall|j: int|
        0 <= j < i ==> line_admissible(#[trigger] ls[j])
}

/// Relies on `str::trim`: the text without leading and trailing whitespace,
/// which depends on the characters alone.
#[verifier::external_body]
fn trim_text(s: &str) -> (r: &str)
    ensures
        r@ == trimmed(s@),
{
    s.trim()
}

/// Relies on `str::parse::<i64>`: it accepts an optional `+` or `-` followed
/// by one or more ASCII digits whose value fits in an `i64`, and refuses
/// anything else (whitespace included); the refusal's text is kept.
#[verifier::external_body]
fn parse_i64(s: &str) -> (r: Result<i64, String>)
    ensures
        r is Ok <==> is_i64_text(s@),
        r is Ok ==> r->Ok_0 == decimal_value(s@)->Some_0,
{
    match s.parse::<i64>() {
        Ok(n) => Ok(n),
        Err(e) => Err(e.to_string()),
    }
}

/// The values of the non-blank lines, or the error for the first line that
/// is no decimal integer, is negative or is above `u32::MAX`.
pub fn values_from_lines(lines: &[String]) -> (r: Result<Vec<u32>, InputError>)
    ensures
        (forall|i: int| 0 <= i < lines@.len() ==> line_admissible(#[trigger] texts(lines@)[i]))
            <==> r is Ok,
        r is Ok ==> r->Ok_0@ == line_values(texts(lines@)),
        r is Err ==> exists|i: int|
            first_bad_line(texts(lines@), i) && line_error(texts(lines@)[i], r->Err_0),
{
    let ghost ls = texts(lines@);
    let mut out: Vec<u32> = Vec::new();
    let mut j: usize = 0;
    while j < lines.len()
        invariant
            j <= lines@.len(),
            ls == texts(lines@),
            forall|i: int| 0 <= i < j ==> line_admissible(#[trigger] ls[i]),
            out@ == line_values(ls.take(j as int)),
        decreases lines@.len() - j,
    {
        let t = trim_text(lines[j].as_str());
        proof {
            assert(ls.take(j + 1).drop_last() =~= ls.take(j as int));
            assert(ls.take(j + 1).last() == lines@[j as int]@);
        }
        if !t.is_empty() {
            match parse_i64(t) {
                Ok(n) => match check_value(n) {
                    Ok(x) => {
                        out.push(x);
                    },
                    Err(e) => {
                        assert(first_bad_line(ls, j as int));
                        return Err(e);
                    },
                },
                Err(reason) => {
                    assert(first_bad_line(ls, j as int));
                    return Err(InputError::Unparseable(t.to_owned(), reason));
                },
            }
        }
        j += 1;
    }
    assert(ls.take(j as int) =~= ls);
    Ok(out)
}

/// The histogram of the values of the non-blank lines, or the error for the
/// first line that is no decimal integer, is negative or is above
/// `u32::MAX`; no histogram is made then.
pub fn histogram_256_from_lines(lines: &[String]) -> (r: Result<[u32; 256], InputError>)
    ensures
        (forall|i: int| 0 <= i < lines@.len() ==> line_admissible(#[trigger] texts(lines@)[i]))
            <==> r is Ok,
        r is Ok ==> r->Ok_0@ == histogram(line_values(texts(lines@))),
        r is Err ==> exists|i: int|
            first_bad_line(texts(lines@), i) && line_error(texts(lines@)[i], r->Err_0),
{
    match values_from_lines(lines) {
        Ok(nums) => Ok(histogram_256(nums.as_slice())),
        Err(e) => Err(e),
    }
}

} // verus!
