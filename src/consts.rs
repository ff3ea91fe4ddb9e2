//! Constants of the archive.
use chrono::Datelike;
use vstd::prelude::*;

verus! {

/// The address of the examination material archive.
pub const EXAM_URL: &'static str = "https://www.examinations.ie/exammaterialarchive/";

/// The first year with examination papers in the archive.
pub const FIRST_PAPER_YEAR: u32 = 1995;

/// The first year with marking schemes in the archive.
pub const FIRST_SCHEME_YEAR: u32 = 2001;

/// Relies on chrono's `Utc::now` and `Datelike::year`: the current year in
/// UTC, which depends on the clock.
#[verifier::external_body]
fn current_year() -> (r: i32) {
    chrono::Utc::now().year()
}

/// The years from `first` up to, not including, `until`.
pub fn years_between(first: u32, until: i32) -> (r: Vec<u32>)
    ensures
        r@.len() == if until as int > first as int {
            until as int - first as int
        } else {
            0
        },
        forall|i: int| 0 <= i < r@.len() ==> r@[i] == first as int + i,
{
    let mut r: Vec<u32> = Vec::new();
    if until < 0 {
        return r;
    }
    let end = until as u32;
    let mut y = first;
    while y < end
        invariant
            first <= y,
            end == until,
            y <= end || r@.len() == 0,
            r@.len() == y - first,
            forall|i: int| 0 <= i < r@.len() ==> r@[i] == first as int + i,
        decreases end - y,
    {
        r.push(y);
        y = y + 1;
    }
    r
}

/// The years with examination papers: from the first such year up to, not
/// including, the current year.
pub fn exam_paper_years() -> (r: Vec<u32>)
    ensures
        forall|i: int| 0 <= i < r@.len() ==> r@[i] == FIRST_PAPER_YEAR as int + i,
{
    years_between(FIRST_PAPER_YEAR, current_year())
}

/// The years with marking schemes: from the first such year up to, not
/// including, the current year.
pub fn marking_scheme_years() -> (r: Vec<u32>)
    ensures
        forall|i: int| 0 <= i < r@.len() ==> r@[i] == FIRST_SCHEME_YEAR as int + i,
{
    years_between(FIRST_SCHEME_YEAR, current_year())
}

} // verus!
