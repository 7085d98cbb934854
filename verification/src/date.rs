//! Calendar dates, as `chrono` represents, reads and prints them.

use vstd::prelude::*;
use vstd::string::StringExecFns;
use chrono::NaiveDate;

verus! {

/// `chrono::NaiveDate`: a calendar date without a time zone. The library
/// carries such values through and never looks inside one.
#[verifier::external_type_specification]
#[verifier::external_body]
pub struct ExNaiveDate(chrono::NaiveDate);

/// The date that `chrono` reads from a text by `str::parse`, if it reads one.
pub uninterp spec fn parsed_date(text: Seq<char>) -> Option<NaiveDate>;

/// The date that `chrono` reads from a text under a `strftime` pattern, if it
/// reads one.
pub uninterp spec fn date_in_pattern(text: Seq<char>, pattern: Seq<char>) -> Option<NaiveDate>;

/// The text that `chrono` prints for a date.
pub uninterp spec fn printed_date(date: NaiveDate) -> Seq<char>;

/// The pattern of a due date on the command line: year, month and day.
pub const DUE_DATE_PATTERN: &'static str = "%Y-%m-%d";

/// `<NaiveDate as FromStr>::from_str`: the outcome depends on the text alone.
#[verifier::external_body]
pub(crate) fn read_date(text: &str) -> (r: Option<NaiveDate>)
    ensures
        r == parsed_date(text@),
{
    text.parse::<NaiveDate>().ok()
}

/// `NaiveDate::parse_from_str`: the outcome depends on the text and the
/// pattern alone.
#[verifier::external_body]
pub(crate) fn read_date_in(text: &str, pattern: &str) -> (r: Option<NaiveDate>)
    ensures
        r == date_in_pattern(text@, pattern@),
{
    NaiveDate::parse_from_str(text, pattern).ok()
}

/// `<NaiveDate as Display>::fmt`, through `to_string`: the text depends on
/// the date alone, and `str::parse` reads the same date back from it, as
/// chrono documents of what it prints.
#[verifier::external_body]
pub(crate) fn print_date(date: &NaiveDate) -> (text: String)
    ensures
        text@ == printed_date(*date),
        parsed_date(text@) == Some(*date),
{
    date.to_string()
}

/// What [`parse_due_date`] answers for a text.
pub open spec fn due_date_of(text: Seq<char>) -> Result<NaiveDate, Seq<char>> {
    match date_in_pattern(text, DUE_DATE_PATTERN@) {
        Some(date) => Ok(date),
        None => Err("Date format must be YYYY-MM-DD. Failed to parse: '"@ + text + "'"@),
    }
}

/// Reads a due date given as year, month and day. A text that is no such
/// date is refused with a message that names the format and quotes the text.
pub fn parse_due_date(s: &str) -> (r: Result<NaiveDate, String>)
    ensures
        match r {
            Ok(date) => due_date_of(s@) == Ok::<NaiveDate, Seq<char>>(date),
            Err(message) => due_date_of(s@) == Err::<NaiveDate, Seq<char>>(message@),
        },
{
    match read_date_in(s, DUE_DATE_PATTERN) {
        Some(date) => Ok(date),
        None => {
            let mut message = String::from_str("Date format must be YYYY-MM-DD. Failed to parse: '");
            message.append(s);
            message.append("'");
            Err(message)
        },
    }
}

} // verus!
