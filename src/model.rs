//! Transactions, rules and the calendar values they carry.
use vstd::prelude::*;

verus! {

/// A day of the proleptic Gregorian calendar.
#[derive(Clone, Copy, Debug, PartialEq, Eq, Structural)]
pub struct CalendarDate {
    pub year: i32,
    pub month: u32,
    pub day: u32,
}

/// A moment of a day: the date, the seconds since midnight and the
/// nanoseconds within that second.
#[derive(Clone, Copy, Debug, PartialEq, Eq, Structural)]
pub struct Timestamp {
    pub date: CalendarDate,
    pub seconds: u32,
    pub nanos: u32,
}

/// Seconds since midnight of 23:59:59.
pub const LAST_SECOND_OF_DAY: u32 = 86399;

impl CalendarDate {
    /// Month in 1..=12 and day in 1..=31.
    pub open spec fn wf(&self) -> bool {
        1 <= self.month <= 12 && 1 <= self.day <= 31
    }
}

/// Chronological order of days.
pub open spec fn date_le(a: CalendarDate, b: CalendarDate) -> bool {
    a.year < b.year || (a.year == b.year && (a.month < b.month || (a.month == b.month
        && a.day <= b.day)))
}

/// Chronological order of moments.
pub open spec fn moment_le(a: Timestamp, b: Timestamp) -> bool {
    if a.date == b.date {
        a.seconds < b.seconds || (a.seconds == b.seconds && a.nanos <= b.nanos)
    } else {
        date_le(a.date, b.date)
    }
}

/// Midnight at the start of `d`.
pub open spec fn start_of_day(d: CalendarDate) -> Timestamp {
    Timestamp { date: d, seconds: 0, nanos: 0 }
}

/// 23:59:59 of `d`.
pub open spec fn last_second_of_day(d: CalendarDate) -> Timestamp {
    Timestamp { date: d, seconds: LAST_SECOND_OF_DAY, nanos: 0 }
}

impl CalendarDate {
    /// Whether `self` is on or before `other`.
    pub fn on_or_before(&self, other: &CalendarDate) -> (r: bool)
        ensures
            r == date_le(*self, *other),
    {
        if self.year != other.year {
            self.year < other.year
        } else if self.month != other.month {
            self.month < other.month
        } else {
            self.day <= other.day
        }
    }
}

impl Timestamp {
    /// Midnight at the start of `d`.
    pub fn start_of(d: CalendarDate) -> (r: Timestamp)
        ensures
            r == start_of_day(d),
    {
        Timestamp { date: d, seconds: 0, nanos: 0 }
    }

    /// 23:59:59 of `d`.
    pub fn last_second_of(d: CalendarDate) -> (r: Timestamp)
        ensures
            r == last_second_of_day(d),
    {
        Timestamp { date: d, seconds: LAST_SECOND_OF_DAY, nanos: 0 }
    }

    /// Whether `self` is at or before `other`.
    pub fn at_or_before(&self, other: &Timestamp) -> (r: bool)
        ensures
            r == moment_le(*self, *other),
    {
        if self.date == other.date {
            self.seconds < other.seconds || (self.seconds == other.seconds && self.nanos
                <= other.nanos)
        } else {
            self.date.on_or_before(&other.date)
        }
    }
}

/// A named way of recognising transactions. `percentage` holds the IEEE-754 bits of
/// the fraction stamped onto matched transactions; `regexpr` is a
/// comma-separated list of patterns.
#[derive(Debug)]
pub struct Rule {
    pub id: i32,
    pub name: String,
    pub label: String,
    pub percentage: u32,
    pub category_id: i32,
    pub regexpr: Option<String>,
    pub date_start: Option<CalendarDate>,
    pub date_end: Option<CalendarDate>,
}

/// A ledger entry. `value` holds the IEEE-754 bits of the signed amount and
/// `perc_to_exclude` those of the fraction left out of reports. A
/// transaction without a category is uncategorized.
#[derive(Debug)]
pub struct Transaction {
    pub id: i32,
    pub account_id: i32,
    pub category_id: Option<i32>,
    pub value: u64,
    pub description: String,
    pub date: Timestamp,
    pub perc_to_exclude: u32,
    pub label: String,
}

/// Copy of an optional string.
pub fn copy_opt_string(s: &Option<String>) -> (r: Option<String>)
    ensures
        r == *s,
{
    match s {
        Some(x) => Some(x.clone()),
        None => None,
    }
}

impl Clone for Rule {
    fn clone(&self) -> (r: Self)
        ensures
            r == *self,
    {
        Rule {
            id: self.id,
            name: self.name.clone(),
            label: self.label.clone(),
            percentage: self.percentage,
            category_id: self.category_id,
            regexpr: copy_opt_string(&self.regexpr),
            date_start: self.date_start,
            date_end: self.date_end,
        }
    }
}

impl Clone for Transaction {
    fn clone(&self) -> (r: Self)
        ensures
            r == *self,
    {
        Transaction {
            id: self.id,
            account_id: self.account_id,
            category_id: self.category_id,
            value: self.value,
            description: self.description.clone(),
            date: self.date,
            perc_to_exclude: self.perc_to_exclude,
            label: self.label.clone(),
        }
    }
}

/// Whether `t` still waits for a category.
pub open spec fn is_uncategorized(t: Transaction) -> bool {
    t.category_id is None
}

/// `t` with the label, percentage and category of `r`.
pub open spec fn stamped(t: Transaction, r: Rule) -> Transaction {
    Transaction {
        label: r.label,
        perc_to_exclude: r.percentage,
        category_id: Some(r.category_id),
        ..t
    }
}

impl Transaction {
    /// Stamps the label, percentage and category of `rule` onto `self`.
    pub fn stamp(&mut self, rule: &Rule)
        ensures
            *final(self) == stamped(*old(self), *rule),
    {
        self.label = rule.label.clone();
        self.perc_to_exclude = rule.percentage;
        self.category_id = Some(rule.category_id);
    }
}

} // verus!
