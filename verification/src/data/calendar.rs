//! Calendar months of ISO-8601 sample dates, and the frequency that a run
//! of dates shows.

use vstd::prelude::*;

use super::grammar::SampleView;
use super::text::chars_of;

verus! {

/// `c` is an ASCII decimal digit.
pub open spec fn is_digit(c: char) -> bool {
    0x30 <= c as u32 <= 0x39
}

/// The value of an ASCII decimal digit.
pub open spec fn digit_value(c: char) -> int {
    c as u32 - 0x30
}

/// The year of a `YYYY-MM-DD` date.
pub open spec fn date_year(d: Seq<char>) -> int {
    1000 * digit_value(d[0]) + 100 * digit_value(d[1]) + 10 * digit_value(d[2]) + digit_value(d[3])
}

/// The month (1 to 12) of a `YYYY-MM-DD` date.
pub open spec fn date_month(d: Seq<char>) -> int {
    10 * digit_value(d[5]) + digit_value(d[6])
}

/// `d` is written `YYYY-MM-DD`, with a month from 01 to 12.
pub open spec fn is_iso_date(d: Seq<char>) -> bool {
    &&& d.len() == 10
    &&& is_digit(d[0]) && is_digit(d[1]) && is_digit(d[2]) && is_digit(d[3])
    &&& d[4] == '-'
    &&& is_digit(d[5]) && is_digit(d[6])
    &&& d[7] == '-'
    &&& is_digit(d[8]) && is_digit(d[9])
    &&& 1 <= date_month(d) <= 12
}

/// Months since the start of year 0 of the month that `d` falls in.
pub open spec fn month_number(d: Seq<char>) -> int {
    12 * date_year(d) + date_month(d) - 1
}

/// `b` falls three calendar months after `a`, both being ISO dates.
pub open spec fn three_months_apart(a: Seq<char>, b: Seq<char>) -> bool {
    &&& is_iso_date(a)
    &&& is_iso_date(b)
    &&& month_number(b) == month_number(a) + 3
}

/// The series ends in a quarterly run: it holds at least five samples and
/// each of its latest five falls three months after the one before it, so
/// that the fifth-latest falls a year before the latest.
pub open spec fn ends_quarterly(s: Seq<SampleView>) -> bool {
    &&& s.len() >= 5
    &&& forall|i: int| s.len() - 5 <= i < s.len() - 1 ==> three_months_apart(
        #[trigger] s[i].date,
        s[i + 1].date,
    )
}

/// The value of the character at `j` of `d`, read as a decimal digit.
pub open spec fn digit_at(d: Seq<char>, j: int) -> int {
    d[j] as u32 - 0x30
}

/// Every `YYYY-MM-DD` text with decimal digits and a month from 01 to 12,
/// December included, is an ISO date, and its month number is
/// 12 * year + month - 1.
pub proof fn lemma_iso_dates_are_numbered(d: Seq<char>)
    requires
        d.len() == 10,
        forall|j: int|
            0 <= j < 10 && j != 4 && j != 7 ==> 0x30 <= #[trigger] (d[j] as u32) <= 0x39,
        d[4] == '-',
        d[7] == '-',
        1 <= 10 * digit_at(d, 5) + digit_at(d, 6) <= 12,
    ensures
        is_iso_date(d),
        month_number(d) == 12 * (1000 * digit_at(d, 0) + 100 * digit_at(d, 1) + 10 * digit_at(d, 2)
            + digit_at(d, 3)) + 10 * digit_at(d, 5) + digit_at(d, 6) - 1,
{
    assert(0x30 <= (d[0] as u32) <= 0x39);
    assert(0x30 <= (d[1] as u32) <= 0x39);
    assert(0x30 <= (d[2] as u32) <= 0x39);
    assert(0x30 <= (d[3] as u32) <= 0x39);
    assert(0x30 <= (d[5] as u32) <= 0x39);
    assert(0x30 <= (d[6] as u32) <= 0x39);
    assert(0x30 <= (d[8] as u32) <= 0x39);
    assert(0x30 <= (d[9] as u32) <= 0x39);
}

/// Only `YYYY-MM-DD` texts with decimal digits and a month from 01 to 12
/// are ISO dates.
pub proof fn lemma_iso_dates_have_the_shape(d: Seq<char>)
    requires
        is_iso_date(d),
    ensures
        d.len() == 10,
        forall|j: int|
            0 <= j < 10 && j != 4 && j != 7 ==> 0x30 <= #[trigger] (d[j] as u32) <= 0x39,
        d[4] == '-',
        d[7] == '-',
        1 <= 10 * digit_at(d, 5) + digit_at(d, 6) <= 12,
{
}

/// Five latest dates, each exactly three calendar months after the one
/// before, end a quarterly run.
pub proof fn lemma_three_month_steps_are_quarterly(s: Seq<SampleView>)
    requires
        s.len() >= 5,
        forall|i: int|
            s.len() - 5 <= i < s.len() - 1 ==> is_iso_date(#[trigger] s[i].date) && is_iso_date(
                s[i + 1].date,
            ) && month_number(s[i + 1].date) - month_number(s[i].date) == 3,
    ensures
        ends_quarterly(s),
{
}

/// A quarterly run spans a year: its latest date falls exactly twelve
/// calendar months after the fifth-latest, and every step between them is
/// exactly three months.
pub proof fn lemma_quarterly_run_spans_a_year(s: Seq<SampleView>)
    requires
        ends_quarterly(s),
    ensures
        forall|i: int|
            s.len() - 5 <= i < s.len() - 1 ==> is_iso_date(#[trigger] s[i].date) && is_iso_date(
                s[i + 1].date,
            ) && month_number(s[i + 1].date) - month_number(s[i].date) == 3,
        is_iso_date(s[s.len() - 5].date),
        is_iso_date(s[s.len() - 1].date),
        month_number(s[s.len() - 1].date) == month_number(s[s.len() - 5].date) + 12,
{
    let n = s.len() as int;
    assert(three_months_apart(s[n - 5].date, s[n - 4].date));
    assert(three_months_apart(s[n - 4].date, s[n - 3].date));
    assert(three_months_apart(s[n - 3].date, s[n - 2].date));
    assert(three_months_apart(s[n - 2].date, s[n - 1].date));
}

/// Dates one calendar month apart, as in monthly data, never end a
/// quarterly run.
pub proof fn lemma_monthly_dates_are_not_quarterly(s: Seq<SampleView>)
    requires
        s.len() >= 2,
        is_iso_date(s[s.len() - 2].date),
        is_iso_date(s[s.len() - 1].date),
        month_number(s[s.len() - 1].date) == month_number(s[s.len() - 2].date) + 1,
    ensures
        !ends_quarterly(s),
{
    if ends_quarterly(s) {
        lemma_quarterly_run_spans_a_year(s);
        assert(month_number(s[s.len() - 1].date) - month_number(s[s.len() - 2].date) == 3);
    }
}

/// The month number of an ISO date, or `None` where `date` is not one.
pub fn month_number_of(date: &String) -> (m: Option<u32>)
    ensures
        match m {
            Some(v) => is_iso_date(date@) && v == month_number(date@),
            None => !is_iso_date(date@),
        },
{
    let d = chars_of(date.as_str());
    if d.len() != 10 {
        return None;
    }
    let mut i: usize = 0;
    while i < 10
        invariant
            i <= 10,
            d@.len() == 10,
            d@ == date@,
            forall|j: int| 0 <= j < i && j != 4 && j != 7 ==> is_digit(#[trigger] d@[j]),
        decreases 10 - i,
    {
        if i != 4 && i != 7 {
            let u = d[i] as u32;
            if u < 0x30 || u > 0x39 {
                return None;
            }
        }
        i = i + 1;
    }
    if d[4] != '-' || d[7] != '-' {
        return None;
    }
    let year = 1000 * (d[0] as u32 - 0x30) + 100 * (d[1] as u32 - 0x30) + 10 * (d[2] as u32 - 0x30)
        + (d[3] as u32 - 0x30);
    let month = 10 * (d[5] as u32 - 0x30) + (d[6] as u32 - 0x30);
    if month < 1 || month > 12 {
        return None;
    }
    Some(12 * year + month - 1)
}

} // verus!
