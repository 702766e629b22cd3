use vstd::prelude::*;

use crate::strings::opt_str_view;

verus! {

/// What can go wrong while building an invoice query.
#[derive(Debug)]
pub enum QueryError {
    /// Every query needs the organization it asks about.
    MissingOrganizationId,
    /// The date filter was not a calendar date the `%Y-%m-%d` format reads.
    InvalidDate,
}

/// A proleptic Gregorian leap year.
pub open spec fn is_leap_year(y: int) -> bool {
    (y % 4 == 0 && y % 100 != 0) || y % 400 == 0
}

/// How many days the month has in the year.
pub open spec fn days_in_month(y: int, m: int) -> int {
    if m == 2 {
        if is_leap_year(y) {
            29
        } else {
            28
        }
    } else if m == 4 || m == 6 || m == 9 || m == 11 {
        30
    } else {
        31
    }
}

/// A real calendar date.
pub open spec fn valid_date(y: int, m: int, d: int) -> bool {
    1 <= m <= 12 && 1 <= d <= days_in_month(y, m)
}

/// A calendar date, held as plain year, month and day.
#[derive(Clone, Copy, PartialEq, Eq, Structural, Debug)]
pub struct Date {
    pub year: i32,
    pub month: u8,
    pub day: u8,
}

impl Date {
    pub open spec fn wf(&self) -> bool {
        valid_date(self.year as int, self.month as int, self.day as int)
    }
}

/// What chrono's `%Y-%m-%d` parse yields for the text: the year, month and
/// day fields, or absence; a function of the text alone.
pub uninterp spec fn ymd_fields_of(s: Seq<char>) -> Option<(i32, u8, u8)>;

/// Relies on `chrono::NaiveDate::parse_from_str` with the `%Y-%m-%d`
/// format: each number may follow whitespace; the year takes one to four
/// digits, or a sign and then any number of digits; month and day take one
/// or two digits each; literal dashes stand between them; nothing may
/// trail; and the fields must name a real calendar date. The outcome is a
/// function of the text alone.
#[verifier::external_body]
fn parse_ymd(s: &str) -> (r: Option<(i32, u8, u8)>)
    ensures
        r == ymd_fields_of(s@),
{
    match chrono::NaiveDate::parse_from_str(s, "%Y-%m-%d") {
        Ok(d) => Some((
            chrono::Datelike::year(&d),
            chrono::Datelike::month(&d) as u8,
            chrono::Datelike::day(&d) as u8,
        )),
        Err(_) => None,
    }
}

/// What parsing a date filter yields: the fields the format read, if they
/// name a real calendar day.
pub open spec fn spec_parse_date(s: Seq<char>) -> Option<Date> {
    match ymd_fields_of(s) {
        Some((y, m, d)) => if valid_date(y as int, m as int, d as int) {
            Some(Date { year: y, month: m, day: d })
        } else {
            None
        },
        None => None,
    }
}

/// A proleptic Gregorian leap year.
fn is_leap_year_of(y: i32) -> (r: bool)
    ensures
        r == is_leap_year(y as int),
{
    let a: u64 = if y >= 0 {
        y as u64
    } else {
        (-(y as i64)) as u64
    };
    (a % 4 == 0 && a % 100 != 0) || a % 400 == 0
}

/// How many days the month has in the year.
fn days_in_month_of(y: i32, m: u8) -> (r: u8)
    ensures
        r as int == days_in_month(y as int, m as int),
{
    if m == 2 {
        if is_leap_year_of(y) {
            29
        } else {
            28
        }
    } else if m == 4 || m == 6 || m == 9 || m == 11 {
        30
    } else {
        31
    }
}

/// Parses a date filter with the `%Y-%m-%d` format and checks that the
/// fields name a real calendar day.
pub fn parse_date(s: &str) -> (r: Option<Date>)
    ensures
        r == spec_parse_date(s@),
        (r matches Some(d) ==> d.wf()),
{
    match parse_ymd(s) {
        Some((y, m, d)) => {
            if 1 <= m && m <= 12 && 1 <= d && d <= days_in_month_of(y, m) {
                Some(Date { year: y, month: m, day: d })
            } else {
                None
            }
        },
        None => None,
    }
}

/// One read-only invoice query: the organization asked about, and an
/// optional date filter.
pub struct Query {
    pub organization_id: String,
    pub date: Option<Date>,
}

/// Accumulates a query's parts; `build` checks what must be present.
pub struct QueryBuilder {
    pub organization_id: Option<String>,
    pub date: Option<Date>,
}

impl Query {
    pub fn builder() -> (r: QueryBuilder)
        ensures
            r.organization_id is None,
            r.date is None,
    {
        QueryBuilder { organization_id: None, date: None }
    }
}

impl QueryBuilder {
    pub fn organization_id(self, organization_id: &str) -> (r: Self)
        ensures
            opt_str_view(r.organization_id) == Some(organization_id@),
            r.date == self.date,
    {
        QueryBuilder { organization_id: Some(organization_id.to_owned()), date: self.date }
    }

    /// Sets the date filter; text the `%Y-%m-%d` format does not read as a
    /// real calendar date is refused.
    pub fn date(self, date: &str) -> (r: Result<Self, QueryError>)
        ensures
            (match r {
                Ok(b) => spec_parse_date(date@) is Some && b.date == spec_parse_date(date@)
                    && b.organization_id == self.organization_id,
                Err(QueryError::InvalidDate) => spec_parse_date(date@) is None,
                Err(_) => false,
            }),
    {
        match parse_date(date) {
            Some(d) => Ok(QueryBuilder { organization_id: self.organization_id, date: Some(d) }),
            None => Err(QueryError::InvalidDate),
        }
    }

    /// The finished query; an organization id must have been given.
    pub fn build(self) -> (r: Result<Query, QueryError>)
        ensures
            (match r {
                Ok(q) => opt_str_view(self.organization_id) == Some(q.organization_id@) && q.date
                    == self.date,
                Err(QueryError::MissingOrganizationId) => self.organization_id is None,
                Err(_) => false,
            }),
    {
        match self.organization_id {
            Some(organization_id) => Ok(Query { organization_id, date: self.date }),
            None => Err(QueryError::MissingOrganizationId),
        }
    }
}

} // verus!
