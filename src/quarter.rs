//! Quarter buckets: each month belongs to one of four labelled three-month
//! periods.

use vstd::prelude::*;

verus! {

/// The label of quarter `q` (1 to 4).
pub open spec fn label_of_quarter(q: int) -> Seq<char> {
    if q == 1 {
        "01 kvartal ⛄"@
    } else if q == 2 {
        "02 kvartal 🌺"@
    } else if q == 3 {
        "03 kvartal 🌅"@
    } else {
        "04 kvartal 🍁"@
    }
}

/// The label for a month outside 1 to 12.
pub open spec fn unknown_label() -> Seq<char> {
    "unknown"@
}

/// The quarter (1 to 4) that a month from 1 to 12 falls in.
pub open spec fn quarter_of(month: int) -> int {
    (month - 1) / 3 + 1
}

/// The label of the quarter of `month`, or the unknown label for a value
/// that is no month.
pub open spec fn quarter_label(month: int) -> Seq<char> {
    if 1 <= month <= 12 {
        label_of_quarter(quarter_of(month))
    } else {
        unknown_label()
    }
}

/// The label of the quarter that `month` falls in; "unknown" where `month`
/// is not from 1 to 12.
pub fn month_to_quarter(month: u8) -> (r: &'static str)
    ensures
        r@ == quarter_label(month as int),
{
    match month {
        1 | 2 | 3 => "01 kvartal ⛄",
        4 | 5 | 6 => "02 kvartal 🌺",
        7 | 8 | 9 => "03 kvartal 🌅",
        10 | 11 | 12 => "04 kvartal 🍁",
        _ => "unknown",
    }
}

/// Every month gets one of the four quarter labels; the four labels differ
/// from each other and from the unknown label, so two months share a label
/// exactly when they share a quarter.
pub proof fn lemma_month_labels(m: int, n: int)
    requires
        1 <= m <= 12,
        1 <= n <= 12,
    ensures
        quarter_label(m) == label_of_quarter(1) || quarter_label(m) == label_of_quarter(2)
            || quarter_label(m) == label_of_quarter(3) || quarter_label(m) == label_of_quarter(
            4,
        ),
        quarter_label(m) != unknown_label(),
        (quarter_label(m) == quarter_label(n)) <==> (quarter_of(m) == quarter_of(n)),
{
    reveal_strlit("01 kvartal ⛄");
    reveal_strlit("02 kvartal 🌺");
    reveal_strlit("03 kvartal 🌅");
    reveal_strlit("04 kvartal 🍁");
    reveal_strlit("unknown");
    let a = quarter_label(m);
    let b = quarter_label(n);
    assert(1 <= quarter_of(m) <= 4);
    assert(1 <= quarter_of(n) <= 4);
    assert(a[0] == '0' && a[1] != 'n');
    assert(unknown_label()[1] == 'n');
    if quarter_of(m) != quarter_of(n) {
        assert(a[1] != b[1]);
    }
}

} // verus!
