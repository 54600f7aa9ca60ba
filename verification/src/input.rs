//! Reading numbers line by line: what becomes of the list when one more
//! line of input arrives.

use vstd::prelude::*;

verus! {

/// The number that the standard library's decimal parser reads from a whole
/// line of text, or `None` where it rejects the line.
pub uninterp spec fn parsed_i32(line: Seq<char>) -> Option<i32>;

/// The list after one line: longer by the number read, or unchanged where
/// the line held no number.
pub open spec fn with_line(numbers: Seq<i32>, parsed: Option<i32>) -> Seq<i32> {
    match parsed {
        Some(number) => numbers.push(number),
        None => numbers,
    }
}

/// Calls `str::parse::<i32>` on the line and forgets the kind of error.
///
/// Trusted: the result is a function of the text alone, named
/// `parsed_i32`. Nothing is claimed about which texts are numbers.
#[verifier::external_body]
fn parse_line(line: &str) -> (parsed: Option<i32>)
    ensures
        parsed == parsed_i32(line@),
{
    line.parse::<i32>().ok()
}

/// Puts the outcome of parsing one line on record: a number is appended to
/// `numbers`, a rejected line leaves the list as it was. Returns whether
/// there was a number.
pub fn record(numbers: &mut Vec<i32>, parsed: Option<i32>) -> (accepted: bool)
    ensures
        accepted == parsed is Some,
        final(numbers)@ == with_line(old(numbers)@, parsed),
{
    match parsed {
        Some(number) => {
            numbers.push(number);
            true
        },
        None => false,
    }
}

/// Reads one line of input into `numbers`: the line is parsed as a decimal
/// `i32` and recorded. Returns whether the line was a number, so that the
/// caller can tell the user when it was not.
pub fn read_line(numbers: &mut Vec<i32>, line: &str) -> (accepted: bool)
    ensures
        accepted == parsed_i32(line@) is Some,
        final(numbers)@ == with_line(old(numbers)@, parsed_i32(line@)),
{
    let parsed = parse_line(line);
    record(numbers, parsed)
}

} // verus!
