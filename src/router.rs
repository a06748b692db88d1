//! The path router: where a file goes under the output root, given its
//! capture date or the lack of one.

use vstd::prelude::*;
use crate::quarter::{month_to_quarter, quarter_label, label_of_quarter, quarter_of};
use crate::text::{decimal, push_decimal, digit_char};

verus! {

/// A capture date as the sorter reads it: a year and a month from 1 to 12.
#[derive(Clone, Copy, Debug, PartialEq, Eq, Structural)]
pub struct CaptureDate {
    pub year: u16,
    pub month: u8,
}

impl CaptureDate {
    /// A month from 1 to 12.
    pub open spec fn wf(self) -> bool {
        1 <= self.month <= 12
    }

    /// The date of `year` and `month`, where `month` is from 1 to 12.
    pub fn new(year: u16, month: u8) -> (r: Option<CaptureDate>)
        ensures
            r is Some <==> 1 <= month <= 12,
            r matches Some(d) ==> d.year == year && d.month == month && d.wf(),
    {
        if 1 <= month && month <= 12 {
            Some(CaptureDate { year, month })
        } else {
            None
        }
    }
}

/// The output root, relative to the working directory.
pub open spec fn output_root() -> Seq<char> {
    "sorted"@
}

/// The folder under the output root for files without a capture date.
pub open spec fn unknown_date_dir() -> Seq<char> {
    "date-unknown"@
}

/// The target folder of a file with capture date `date`, as a path of
/// segments joined by '/'.
pub open spec fn route(date: Option<CaptureDate>) -> Seq<char> {
    match date {
        Some(d) => output_root() + "/"@ + decimal(d.year as nat) + "/"@ + quarter_label(
            d.month as int,
        ),
        None => output_root() + "/"@ + unknown_date_dir(),
    }
}

/// The folder that a file with capture date `date` is copied into:
/// `sorted/<year>/<quarter label>` for a dated file, `sorted/date-unknown`
/// for one without a date.
pub fn target_dir(date: Option<CaptureDate>) -> (r: String)
    ensures
        r@ == route(date),
{
    let mut s = String::from_str("sorted/");
    assert(s@ == output_root() + "/"@) by {
        reveal_strlit("sorted/");
        reveal_strlit("sorted");
        reveal_strlit("/");
        assert(s@ =~= output_root() + "/"@);
    }
    match date {
        Some(d) => {
            push_decimal(&mut s, d.year as u64);
            s.append("/");
            s.append(month_to_quarter(d.month));
        },
        None => {
            s.append("date-unknown");
        },
    }
    s
}

/// A year of four digits is routed to `sorted/<the four digits>/<label>`,
/// where the label is one of the four quarter labels.
pub proof fn lemma_dated_route(year: u16, month: u8)
    requires
        1000 <= year <= 9999,
        1 <= month <= 12,
    ensures
        route(Some(CaptureDate { year, month })) == "sorted/"@ + decimal(year as nat) + "/"@
            + label_of_quarter(quarter_of(month as int)),
        decimal(year as nat) == seq![
            digit_char((year / 1000) as nat),
            digit_char((year / 100) as nat),
            digit_char((year / 10) as nat),
            digit_char(year as nat),
        ],
{
    reveal_strlit("sorted/");
    reveal_strlit("sorted");
    reveal_strlit("/");
    let y = year as nat;
    assert(decimal(y / 1000) == seq![digit_char(y / 1000)]);
    assert(decimal(y / 100) == decimal(y / 100 / 10).push(digit_char(y / 100 % 10)));
    assert(y / 100 / 10 == y / 1000);
    assert(decimal(y / 10) == decimal(y / 10 / 10).push(digit_char(y / 10 % 10)));
    assert(y / 10 / 10 == y / 100);
    assert(decimal(y) == decimal(y / 10).push(digit_char(y % 10)));
    assert(digit_char(y / 100 % 10) == digit_char(y / 100));
    assert(digit_char(y / 10 % 10) == digit_char(y / 10));
    assert(digit_char(y % 10) == digit_char(y));
    assert(decimal(y) =~= seq![
        digit_char(y / 1000),
        digit_char(y / 100),
        digit_char(y / 10),
        digit_char(y),
    ]);
    assert(output_root() + "/"@ =~= "sorted/"@);
}

/// A file without a capture date always goes to `sorted/date-unknown`.
pub proof fn lemma_undated_route()
    ensures
        route(None) == "sorted/date-unknown"@,
{
    reveal_strlit("sorted/date-unknown");
    reveal_strlit("sorted");
    reveal_strlit("/");
    reveal_strlit("date-unknown");
    assert(route(None) =~= "sorted/date-unknown"@);
}

} // verus!
