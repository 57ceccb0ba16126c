//! Turning outside representations of the values into the engine's input:
//! signed integers, and lines of text holding one integer each.

use vstd::prelude::*;
use crate::spec::histogram;
use crate::engine::histogram_256;

verus! {

/// Why a value cannot be counted.
#[derive(Debug, PartialEq, Eq)]
pub enum InputError {
    /// A negative value.
    Negative(i64),
    /// A value above `u32::MAX`.
    OutOfRange(i64),
    /// A non-blank line that is no decimal integer: its trimmed text and
    /// the parser's reason.
    Unparseable(String, String),
}

/// A value the engine can count.
pub open spec fn admissible(n: i64) -> bool {
    0 <= n <= u32::MAX
}

/// The error for a value that is not admissible.
pub open spec fn rejection(n: i64) -> InputError {
    if n < 0 {
        InputError::Negative(n)
    } else {
        InputError::OutOfRange(n)
    }
}

/// The first non-admissible value of `v` is at index `i`.
pub open spec fn first_rejected(v: Seq<i64>, i: int) -> bool {
    0 <= i < v.len() && !admissible(v[i]) && forall|j: int| 0 <= j < i ==> admissible(#[trigger] v[j])
}

/// `v` with every (admissible) element as a `u32`.
pub open spec fn as_unsigned(v: Seq<i64>) -> Seq<u32> {
    v.map_values(|n: i64| n as u32)
}

/// Checks one value and converts it.
pub fn check_value(n: i64) -> (r: Result<u32, InputError>)
    ensures
        admissible(n) ==> r == Ok::<u32, InputError>(n as u32),
        !admissible(n) ==> r == Err::<u32, InputError>(rejection(n)),
{
    if n < 0 {
        Err(InputError::Negative(n))
    } else if n > u32::MAX as i64 {
        Err(InputError::OutOfRange(n))
    } else {
        Ok(n as u32)
    }
}

/// The values of `v` as `u32`, or the error for its first value that is
/// negative or above `u32::MAX`.
pub fn values_from_signed(v: &[i64]) -> (r: Result<Vec<u32>, InputError>)
    ensures
        (forall|i: int| 0 <= i < v@.len() ==> admissible(#[trigger] v@[i])) <==> r is Ok,
        r is Ok ==> r->Ok_0@ == as_unsigned(v@),
        r is Err ==> exists|i: int| first_rejected(v@, i) && r->Err_0 == rejection(v@[i]),
{
    let mut out: Vec<u32> = Vec::with_capacity(v.len());
    let mut j: usize = 0;
    while j < v.len()
        invariant
            j <= v@.len(),
            forall|i: int| 0 <= i < j ==> admissible(#[trigger] v@[i]),
            out@ == as_unsigned(v@.take(j as int)),
        decreases v@.len() - j,
    {
        match check_value(v[j]) {
            Ok(x) => {
                out.push(x);
                assert(as_unsigned(v@.take(j + 1)) =~= as_unsigned(v@.take(j as int)).push(x));
            },
            Err(e) => {
                assert(first_rejected(v@, j as int));
                return Err(e);
            },
        }
        j += 1;
    }
    assert(v@.take(j as int) =~= v@);
    Ok(out)
}

/// The histogram of `v`, or the error for its first value that is negative
/// or above `u32::MAX`; no histogram is made then.
pub fn histogram_256_signed(v: &[i64]) -> (r: Result<[u32; 256], InputError>)
    ensures
        (forall|i: int| 0 <= i < v@.len() ==> admissible(#[trigger] v@[i])) <==> r is Ok,
        r is Ok ==> r->Ok_0@ == histogram(as_unsigned(v@)),
        r is Err ==> exists|i: int| first_rejected(v@, i) && r->Err_0 == rejection(v@[i]),
{
    match values_from_signed(v) {
        Ok(nums) => Ok(histogram_256(nums.as_slice())),
        Err(e) => Err(e),
    }
}

} // verus!
