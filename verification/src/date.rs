//! Calendar dates as the task metadata uses them.
//!
//! A [`Date`] is the day number that `chrono` counts from January 1 of year 1
//! (day 1); parsing and printing go through `chrono`.
use vstd::prelude::*;

use chrono::{Datelike, NaiveDate};

verus! {

/// Day number (`NaiveDate::num_days_from_ce`) of the date that
/// `NaiveDate::parse_from_str(s, "%Y-%m-%d")` reads from `s`, if it reads one.
pub uninterp spec fn iso_date_day_number(s: Seq<char>) -> Option<i32>;

/// `Display` text (`%Y-%m-%d`) of the date whose day number is `n`, if
/// `NaiveDate::from_num_days_from_ce_opt(n)` gives one.
pub uninterp spec fn iso_date_text(n: i32) -> Option<Seq<char>>;

/// Calls `NaiveDate::parse_from_str(s, "%Y-%m-%d")` and keeps the day number.
/// Claims: the result is the name [`iso_date_day_number`] of `s`, and a parsed
/// date can be printed again (every `NaiveDate` lies in the range that
/// `from_num_days_from_ce_opt` accepts), in a text that reads back as the
/// same day (`Display` writes `%Y-%m-%d`, with a sign on years beyond four
/// digits, which `%Y` reads).
#[verifier::external_body]
fn parse_day_number(s: &str) -> (r: Option<i32>)
    ensures
        r == iso_date_day_number(s@),
        r matches Some(n) ==> (iso_date_text(n) matches Some(t) && iso_date_day_number(t) == Some(n)),
{
    match NaiveDate::parse_from_str(s, "%Y-%m-%d") {
        Ok(date) => Some(date.num_days_from_ce()),
        Err(_) => None,
    }
}

/// Calls `NaiveDate::from_num_days_from_ce_opt(n)` and prints the date with
/// its `Display` impl. Claims: the text is the name [`iso_date_text`] of `n`,
/// and it reads back (`%Y-%m-%d`) as day `n`.
#[verifier::external_body]
fn day_number_text(n: i32) -> (r: Option<String>)
    ensures
        match iso_date_text(n) {
            Some(t) => r matches Some(x) && x@ == t,
            None => r is None,
        },
        r matches Some(x) ==> iso_date_day_number(x@) == Some(n),
{
    match NaiveDate::from_num_days_from_ce_opt(n) {
        Some(date) => Some(date.to_string()),
        None => None,
    }
}

/// A calendar date, held as its day number.
#[derive(Debug, Clone, Copy, PartialEq, Eq, Structural)]
pub struct Date {
    day: i32,
}

impl Date {
    /// The date prints, and its text reads back as the same day.
    #[verifier::type_invariant]
    pub closed spec fn printable(self) -> bool {
        iso_date_text(self.day) matches Some(t) && iso_date_day_number(t) == Some(self.day)
    }

    /// A printable date's text reads back as the same day.
    pub proof fn lemma_text_reads_back(self)
        requires
            self.printable(),
        ensures
            iso_date_day_number(self.text()) matches Some(n) && n as int == self.day_number(),
    {
    }

    /// The day number: consecutive dates have consecutive numbers.
    pub closed spec fn day_number(self) -> int {
        self.day as int
    }

    /// A day number fits an `i32`.
    pub proof fn lemma_day_number_range(self)
        ensures
            i32::MIN <= self.day_number() <= i32::MAX,
    {
    }

    /// The `%Y-%m-%d` text of the date.
    pub closed spec fn text(self) -> Seq<char> {
        iso_date_text(self.day)->0
    }

    /// Reads a `YYYY-MM-DD` date.
    pub fn parse(s: &str) -> (r: Option<Date>)
        ensures
            r is Some <==> iso_date_day_number(s@) is Some,
            r matches Some(d) ==> d.day_number() == iso_date_day_number(s@)->0 as int,
    {
        match parse_day_number(s) {
            Some(day) => Some(Date { day }),
            None => None,
        }
    }

    /// The day number of the date.
    pub fn number(&self) -> (n: i32)
        ensures
            n as int == self.day_number(),
    {
        self.day
    }

    /// The `%Y-%m-%d` text of the date; it reads back as the same day.
    pub fn to_text(&self) -> (s: String)
        ensures
            s@ == self.text(),
            iso_date_day_number(s@) matches Some(n) && n as int == self.day_number(),
    {
        proof {
            use_type_invariant(self);
        }
        match day_number_text(self.day) {
            Some(text) => text,
            None => {
                proof {
                    assert(false);
                }
                String::new()
            },
        }
    }

    /// Same calendar day.
    pub fn same_day(&self, other: &Date) -> (b: bool)
        ensures
            b == (self.day_number() == other.day_number()),
    {
        self.day == other.day
    }
}

} // verus!
