//! Calendar days as plain day numbers, and the navigation cursor.
//!
//! A day is the number of days since the start of the common era, as chrono
//! counts them (January 1 of year 1 is day 1). Calendar arithmetic that needs
//! month lengths and leap years is left to chrono.
use chrono::{Datelike, Local, Months, NaiveDate};
use vstd::prelude::*;

verus! {

/// What chrono gives for the same day of the month one month later, clamped
/// to that month's last day; `None` when either date is out of chrono's range.
pub uninterp spec fn month_after(day: int) -> Option<int>;

/// The same as `month_after`, one month earlier.
pub uninterp spec fn month_before(day: int) -> Option<int>;

/// The day written as `YYYY-MM-DD` by chrono; `None` out of chrono's range.
pub uninterp spec fn iso_text_of(day: int) -> Option<Seq<char>>;

/// The day written as `DD/Mon/YY` by chrono; `None` out of chrono's range.
pub uninterp spec fn short_text_of(day: int) -> Option<Seq<char>>;

/// Relies on chrono's `Local::now`, `DateTime::date_naive` and
/// `Datelike::num_days_from_ce`: today's day number in the local time zone.
/// Depends on the clock, so nothing is stated of it.
#[verifier::external_body]
pub(crate) fn today() -> (r: i32) {
    Local::now().date_naive().num_days_from_ce()
}

/// Relies on chrono's `NaiveDate::checked_add_months` with one month; the
/// day numbers go in and out through `NaiveDate::from_num_days_from_ce_opt`
/// and `Datelike::num_days_from_ce`.
#[verifier::external_body]
fn next_month(day: i32) -> (r: Option<i32>)
    ensures
        r matches Some(n) ==> month_after(day as int) == Some(n as int),
        r is None ==> month_after(day as int) is None,
{
    match NaiveDate::from_num_days_from_ce_opt(day) {
        Some(d) => match d.checked_add_months(Months::new(1)) {
            Some(n) => Some(n.num_days_from_ce()),
            None => None,
        },
        None => None,
    }
}

/// Relies on chrono's `NaiveDate::checked_sub_months` with one month; the
/// day numbers go in and out as for `next_month`.
#[verifier::external_body]
fn prev_month(day: i32) -> (r: Option<i32>)
    ensures
        r matches Some(n) ==> month_before(day as int) == Some(n as int),
        r is None ==> month_before(day as int) is None,
{
    match NaiveDate::from_num_days_from_ce_opt(day) {
        Some(d) => match d.checked_sub_months(Months::new(1)) {
            Some(n) => Some(n.num_days_from_ce()),
            None => None,
        },
        None => None,
    }
}

/// Relies on chrono's `Display` of `NaiveDate` (`%Y-%m-%d`), the day made
/// a date by `NaiveDate::from_num_days_from_ce_opt`.
#[verifier::external_body]
pub(crate) fn iso_text(day: i32) -> (r: Option<String>)
    ensures
        r matches Some(s) ==> iso_text_of(day as int) == Some(s@),
        r is None ==> iso_text_of(day as int) is None,
{
    match NaiveDate::from_num_days_from_ce_opt(day) {
        Some(d) => Some(d.to_string()),
        None => None,
    }
}

/// Relies on chrono's `NaiveDate::format` with `%d/%b/%y`, the day made a
/// date by `NaiveDate::from_num_days_from_ce_opt`.
#[verifier::external_body]
pub(crate) fn short_text(day: i32) -> (r: Option<String>)
    ensures
        r matches Some(s) ==> short_text_of(day as int) == Some(s@),
        r is None ==> short_text_of(day as int) is None,
{
    match NaiveDate::from_num_days_from_ce_opt(day) {
        Some(d) => Some(d.format("%d/%b/%y").to_string()),
        None => None,
    }
}

/// A direction on the grid of days; `Stay` moves nowhere.
#[derive(Clone, Copy, Debug, PartialEq, Eq, Structural)]
pub enum Absolute {
    Left,
    Up,
    Right,
    Down,
    Stay,
}

/// The signed number of days that a step in direction `d` moves on a grid
/// of weeks.
pub open spec fn seek_offset(d: Absolute) -> int {
    match d {
        Absolute::Left => -1,
        Absolute::Right => 1,
        Absolute::Up => -7,
        Absolute::Down => 7,
        Absolute::Stay => 0,
    }
}

/// One calendar day that a view is anchored to.
#[derive(Clone, Copy, Debug, PartialEq, Eq, Structural)]
pub struct Cursor {
    pub day: i32,
}

impl Cursor {
    /// A cursor on today.
    pub fn new() -> (r: Cursor) {
        Cursor { day: today() }
    }

    /// A cursor on the given day.
    pub fn at(day: i32) -> (r: Cursor)
        ensures
            r.day == day,
    {
        Cursor { day }
    }

    /// Moves to the same day of the next month, clamped to that month's last
    /// day; stays put at the end of the calendar.
    pub fn month_forward(&mut self)
        ensures
            final(self).day == match month_after(old(self).day as int) {
                Some(n) => n,
                None => old(self).day as int,
            },
    {
        if let Some(n) = next_month(self.day) {
            self.day = n;
        }
    }

    /// Moves to the same day of the previous month, clamped to that month's
    /// last day; stays put at the start of the calendar.
    pub fn month_backward(&mut self)
        ensures
            final(self).day == match month_before(old(self).day as int) {
                Some(n) => n,
                None => old(self).day as int,
            },
    {
        if let Some(n) = prev_month(self.day) {
            self.day = n;
        }
    }

    /// Snaps back to the given day (today, for the caller).
    pub fn reset_to(&mut self, today: i32)
        ensures
            final(self).day == today,
    {
        self.day = today;
    }

    /// Snaps back to today.
    pub fn reset(&mut self) {
        self.reset_to(today());
    }

    /// Moves by the signed number of days of one grid step; a step that would
    /// leave the range of day numbers is not taken.
    pub fn small_seek(&mut self, d: Absolute)
        ensures
            final(self).day == if i32::MIN <= old(self).day + seek_offset(d) <= i32::MAX {
                old(self).day + seek_offset(d)
            } else {
                old(self).day as int
            },
    {
        let delta: i32 = match d {
            Absolute::Left => -1,
            Absolute::Right => 1,
            Absolute::Up => -7,
            Absolute::Down => 7,
            Absolute::Stay => 0,
        };
        if let Some(n) = self.day.checked_add(delta) {
            self.day = n;
        }
    }
}

/// A move of a cursor.
#[derive(Clone, Copy, Debug, PartialEq, Eq, Structural)]
pub enum CursorMove {
    MonthForward,
    MonthBackward,
    Reset(i32),
    Seek(Absolute),
}

/// The day that move `m` takes a cursor on `day` to.
pub open spec fn moved_day(m: CursorMove, day: i32) -> int {
    match m {
        CursorMove::MonthForward => match month_after(day as int) {
            Some(n) => n,
            None => day as int,
        },
        CursorMove::MonthBackward => match month_before(day as int) {
            Some(n) => n,
            None => day as int,
        },
        CursorMove::Reset(t) => t as int,
        CursorMove::Seek(d) => if i32::MIN <= day + seek_offset(d) <= i32::MAX {
            day + seek_offset(d)
        } else {
            day as int
        },
    }
}

impl Cursor {
    /// Applies move `m`.
    pub fn apply(&mut self, m: CursorMove)
        ensures
            final(self).day == moved_day(m, old(self).day),
    {
        match m {
            CursorMove::MonthForward => self.month_forward(),
            CursorMove::MonthBackward => self.month_backward(),
            CursorMove::Reset(t) => self.reset_to(t),
            CursorMove::Seek(d) => self.small_seek(d),
        }
    }
}

} // verus!
