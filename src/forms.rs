//! Reading the fields of a new rule as entered in a form.
use vstd::prelude::*;
use chrono::{Datelike, Timelike};
use crate::model::{CalendarDate, Rule, Timestamp, Transaction, copy_opt_string};

verus! {

/// The day that `text` writes in `format`, as chrono reads it.
pub uninterp spec fn parsed_date(text: Seq<char>, format: Seq<char>) -> Option<CalendarDate>;

#[verifier::external_type_specification]
#[verifier::external_body]
pub struct ExParseError(chrono::ParseError);

/// Relies on chrono::NaiveDate::parse_from_str: the day that `text` writes
/// in `format`, or the parser's error; a day it returns is a valid one.
#[verifier::external_body]
fn parse_date(text: &str, format: &str) -> (r: Result<CalendarDate, chrono::ParseError>)
    ensures
        r matches Ok(d) ==> parsed_date(text@, format@) == Some(d) && d.wf(),
        r is Err ==> parsed_date(text@, format@) is None,
{
    match chrono::NaiveDate::parse_from_str(text, format) {
        Ok(d) => Ok(CalendarDate { year: d.year(), month: d.month(), day: d.day() }),
        Err(e) => Err(e),
    }
}

/// Why the fields of a rule were refused.
#[derive(Clone, Copy, Debug, PartialEq, Eq, Structural)]
pub enum FormError {
    /// A date field does not hold a day written as year-month-day.
    BadDate,
    /// A number field holds something other than blanks or a number.
    BadNumber,
}

/// The format of a day in a form: year, month and day joined by dashes.
pub open spec fn form_date_format() -> Seq<char> {
    seq!['%', 'Y', '-', '%', 'm', '-', '%', 'd']
}

/// What an optional date field holds: nothing where it is absent or empty,
/// else the day it writes, or an error where it writes none.
pub open spec fn form_date(field: Option<Seq<char>>) -> Result<Option<CalendarDate>, FormError> {
    match field {
        None => Ok(None),
        Some(s) => if s.len() == 0 {
            Ok(None)
        } else {
            match parsed_date(s, form_date_format()) {
                Some(d) => Ok(Some(d)),
                None => Err(FormError::BadDate),
            }
        },
    }
}

/// Reads an optional date field of a rule form.
pub fn read_form_date(field: &Option<String>) -> (r: Result<Option<CalendarDate>, FormError>)
    ensures
        r == form_date(
            match field {
                Some(s) => Some(s@),
                None => None,
            },
        ),
        r matches Ok(Some(d)) ==> d.wf(),
{
    match field {
        None => Ok(None),
        Some(s) => {
            if s.as_str().is_empty() {
                Ok(None)
            } else {
                let format = "%Y-%m-%d";
                proof {
                    reveal_strlit("%Y-%m-%d");
                    assert(format@ =~= form_date_format());
                }
                match parse_date(s.as_str(), format) {
                    Ok(d) => Ok(Some(d)),
                    Err(_) => Err(FormError::BadDate),
                }
            }
        },
    }
}

/// What `str::trim` leaves of `s`.
pub uninterp spec fn trimmed(s: Seq<char>) -> Seq<char>;

/// Whether `c` is one of the ASCII digits.
pub open spec fn is_ascii_digit(c: char) -> bool {
    '0' <= c <= '9'
}

/// The number that the decimal digits `d` write.
pub open spec fn decimal_value(d: Seq<char>) -> int
    decreases d.len(),
{
    if d.len() == 0 {
        0
    } else {
        decimal_value(d.drop_last()) * 10 + (d.last() as int - '0' as int)
    }
}

/// The `i32` that `s` writes: an optional `+` or `-`, then one or more
/// ASCII digits, with a value in the range of `i32`.
pub open spec fn parsed_i32(s: Seq<char>) -> Option<i32> {
    let signed = s.len() > 0 && (s[0] == '-' || s[0] == '+');
    let digits = if signed {
        s.drop_first()
    } else {
        s
    };
    let value = if s.len() > 0 && s[0] == '-' {
        -decimal_value(digits)
    } else {
        decimal_value(digits)
    };
    if digits.len() > 0 && (forall|i: int| 0 <= i < digits.len() ==> is_ascii_digit(#[trigger] digits[i]))
        && i32::MIN <= value <= i32::MAX {
        Some(value as i32)
    } else {
        None
    }
}

/// Relies on str::trim: `s` without leading and trailing white space.
#[verifier::external_body]
fn trim(s: &str) -> (r: &str)
    ensures
        r@ == trimmed(s@),
{
    s.trim()
}

/// Relies on str::parse for `i32`: an optional sign followed by ASCII
/// digits, within the range of `i32`; anything else is an error.
#[verifier::external_body]
fn parse_i32(s: &str) -> (r: Option<i32>)
    ensures
        r == parsed_i32(s@),
{
    s.parse::<i32>().ok()
}

/// What an optional category field holds: nothing where it is absent or
/// blank, else the number it writes, or an error where it writes none.
pub open spec fn category_choice(field: Option<Seq<char>>) -> Result<Option<i32>, FormError> {
    match field {
        None => Ok(None),
        Some(s) => if trimmed(s).len() == 0 {
            Ok(None)
        } else {
            match parsed_i32(s) {
                Some(n) => Ok(Some(n)),
                None => Err(FormError::BadNumber),
            }
        },
    }
}

/// Reads the optional category field of a transaction form.
pub fn read_category_field(field: &Option<String>) -> (r: Result<Option<i32>, FormError>)
    ensures
        r == category_choice(
            match field {
                Some(s) => Some(s@),
                None => None,
            },
        ),
{
    match field {
        None => Ok(None),
        Some(s) => {
            if trim(s.as_str()).is_empty() {
                Ok(None)
            } else {
                match parse_i32(s.as_str()) {
                    Some(n) => Ok(Some(n)),
                    None => Err(FormError::BadNumber),
                }
            }
        },
    }
}

/// The moment that `text` writes in `format`, as chrono reads it.
pub uninterp spec fn parsed_moment(text: Seq<char>, format: Seq<char>) -> Option<Timestamp>;

/// Relies on chrono::NaiveDateTime::parse_from_str: the moment that `text`
/// writes in `format`, or the parser's error; the day of a moment it
/// returns is a valid one.
#[verifier::external_body]
fn parse_moment(text: &str, format: &str) -> (r: Result<Timestamp, chrono::ParseError>)
    ensures
        r matches Ok(t) ==> parsed_moment(text@, format@) == Some(t) && t.date.wf(),
        r is Err ==> parsed_moment(text@, format@) is None,
{
    match chrono::NaiveDateTime::parse_from_str(text, format) {
        Ok(dt) => Ok(Timestamp {
            date: CalendarDate { year: dt.year(), month: dt.month(), day: dt.day() },
            seconds: dt.num_seconds_from_midnight(),
            nanos: dt.nanosecond(),
        }),
        Err(e) => Err(e),
    }
}

/// The format of a moment in a form: a day, a `T`, then hours and minutes.
pub open spec fn form_moment_format() -> Seq<char> {
    seq!['%', 'Y', '-', '%', 'm', '-', '%', 'd', 'T', '%', 'H', ':', '%', 'M']
}

/// What a date field of the rule editing form holds: nothing where it is
/// blank, else the day it writes, or an error where it writes none.
pub open spec fn edit_date(field: Seq<char>) -> Result<Option<CalendarDate>, FormError> {
    if trimmed(field).len() == 0 {
        Ok(None)
    } else {
        match parsed_date(field, form_date_format()) {
            Some(d) => Ok(Some(d)),
            None => Err(FormError::BadDate),
        }
    }
}

/// Reads a date field of the rule editing form.
pub fn read_edit_date(field: &String) -> (r: Result<Option<CalendarDate>, FormError>)
    ensures
        r == edit_date(field@),
{
    if trim(field.as_str()).is_empty() {
        Ok(None)
    } else {
        let format = "%Y-%m-%d";
        proof {
            reveal_strlit("%Y-%m-%d");
            assert(format@ =~= form_date_format());
        }
        match parse_date(field.as_str(), format) {
            Ok(d) => Ok(Some(d)),
            Err(_) => Err(FormError::BadDate),
        }
    }
}

/// Reads the moment field of the transaction form.
pub fn read_form_moment(field: &String) -> (r: Result<Timestamp, FormError>)
    ensures
        r == match parsed_moment(field@, form_moment_format()) {
            Some(t) => Ok::<Timestamp, FormError>(t),
            None => Err(FormError::BadDate),
        },
{
    let format = "%Y-%m-%dT%H:%M";
    proof {
        reveal_strlit("%Y-%m-%dT%H:%M");
        assert(format@ =~= form_moment_format());
    }
    match parse_moment(field.as_str(), format) {
        Ok(t) => Ok(t),
        Err(_) => Err(FormError::BadDate),
    }
}

/// The fields of a new rule as entered. `percentage` holds the IEEE-754
/// bits of the fraction; absent or empty date fields mean no bound.
#[derive(Clone, Debug)]
pub struct AddRuleForm {
    pub name: String,
    pub label: String,
    pub percentage: u32,
    pub category_id: i32,
    pub regexpr: Option<String>,
    pub date_start: Option<String>,
    pub date_end: Option<String>,
}

/// The view of an optional string.
pub open spec fn opt_view(s: Option<String>) -> Option<Seq<char>> {
    match s {
        Some(x) => Some(x@),
        None => None,
    }
}

/// The rule that `form` describes under identifier `id`, or the error of
/// its first date field that writes no day.
pub fn add_account_rule_handler(form: &AddRuleForm, id: i32) -> (r: Result<Rule, FormError>)
    ensures
        match r {
            Ok(rule) => form_date(opt_view(form.date_start)) == Ok::<Option<CalendarDate>, FormError>(
                rule.date_start,
            ) && form_date(opt_view(form.date_end)) == Ok::<Option<CalendarDate>, FormError>(
                rule.date_end,
            ) && rule.id == id && rule.name == form.name && rule.label == form.label
                && rule.percentage == form.percentage && rule.category_id == form.category_id
                && rule.regexpr == form.regexpr,
            Err(e) => form_date(opt_view(form.date_start)) == Err::<Option<CalendarDate>, FormError>(e)
                || (form_date(opt_view(form.date_start)) is Ok && form_date(opt_view(form.date_end))
                == Err::<Option<CalendarDate>, FormError>(e)),
        },
{
    let date_start = match read_form_date(&form.date_start) {
        Ok(d) => d,
        Err(e) => {
            return Err(e);
        },
    };
    let date_end = match read_form_date(&form.date_end) {
        Ok(d) => d,
        Err(e) => {
            return Err(e);
        },
    };
    Ok(Rule {
        id,
        name: form.name.clone(),
        label: form.label.clone(),
        percentage: form.percentage,
        category_id: form.category_id,
        regexpr: copy_opt_string(&form.regexpr),
        date_start,
        date_end,
    })
}

/// The fields of an edited rule as entered. `percentage` holds the
/// IEEE-754 bits of the fraction; blank date fields mean no bound.
#[derive(Clone, Debug)]
pub struct RuleForm {
    pub name: String,
    pub label: String,
    pub percentage: u32,
    pub category_id: i32,
    pub regexpr: String,
    pub date_start: String,
    pub date_end: String,
}

/// Gives `rule` the fields of `form`, keeping its identifier. Where a date
/// field writes no day, fails with the error of the first such field and
/// leaves `rule` as it was.
pub fn edit_rule(rule: &mut Rule, form: &RuleForm) -> (r: Result<(), FormError>)
    ensures
        match r {
            Ok(()) => {
                &&& edit_date(form.date_start@) == Ok::<Option<CalendarDate>, FormError>(
                    final(rule).date_start,
                )
                &&& edit_date(form.date_end@) == Ok::<Option<CalendarDate>, FormError>(
                    final(rule).date_end,
                )
                &&& final(rule).id == old(rule).id
                &&& final(rule).name == form.name
                &&& final(rule).label == form.label
                &&& final(rule).percentage == form.percentage
                &&& final(rule).category_id == form.category_id
                &&& final(rule).regexpr == Some(form.regexpr)
            },
            Err(e) => {
                &&& *final(rule) == *old(rule)
                &&& (edit_date(form.date_start@) == Err::<Option<CalendarDate>, FormError>(e) || (
                edit_date(form.date_start@) is Ok && edit_date(form.date_end@) == Err::<
                    Option<CalendarDate>,
                    FormError,
                >(e)))
            },
        },
{
    let date_start = match read_edit_date(&form.date_start) {
        Ok(d) => d,
        Err(e) => {
            return Err(e);
        },
    };
    let date_end = match read_edit_date(&form.date_end) {
        Ok(d) => d,
        Err(e) => {
            return Err(e);
        },
    };
    rule.name = form.name.clone();
    rule.label = form.label.clone();
    rule.percentage = form.percentage;
    rule.category_id = form.category_id;
    rule.regexpr = Some(form.regexpr.clone());
    rule.date_start = date_start;
    rule.date_end = date_end;
    Ok(())
}

/// The fields of a new transaction as entered. `value` and
/// `perc_to_exclude` hold IEEE-754 bits; `category_id` is the raw text of
/// the optional category field.
#[derive(Clone, Debug)]
pub struct AddTransactionForm {
    pub description: String,
    pub value: u64,
    pub perc_to_exclude: u32,
    pub label: String,
    pub date: String,
    pub category_id: Option<String>,
}

/// The transaction that `form` describes under identifier `id` in account
/// `account_id`; fails where the category field is neither blank nor a
/// number, else where the moment field writes no moment.
pub fn add_transaction_handler(form: &AddTransactionForm, id: i32, account_id: i32) -> (r: Result<
    Transaction,
    FormError,
>)
    ensures
        match r {
            Ok(t) => {
                &&& category_choice(opt_view(form.category_id)) == Ok::<Option<i32>, FormError>(
                    t.category_id,
                )
                &&& parsed_moment(form.date@, form_moment_format()) == Some(t.date)
                &&& t.id == id
                &&& t.account_id == account_id
                &&& t.value == form.value
                &&& t.description == form.description
                &&& t.perc_to_exclude == form.perc_to_exclude
                &&& t.label == form.label
            },
            Err(e) => category_choice(opt_view(form.category_id)) == Err::<Option<i32>, FormError>(e)
                || (category_choice(opt_view(form.category_id)) is Ok && parsed_moment(
                form.date@,
                form_moment_format(),
            ) is None && e == FormError::BadDate),
        },
{
    let category_id = match read_category_field(&form.category_id) {
        Ok(c) => c,
        Err(e) => {
            return Err(e);
        },
    };
    let date = match read_form_moment(&form.date) {
        Ok(t) => t,
        Err(e) => {
            return Err(e);
        },
    };
    Ok(Transaction {
        id,
        account_id,
        category_id,
        value: form.value,
        description: form.description.clone(),
        date,
        perc_to_exclude: form.perc_to_exclude,
        label: form.label.clone(),
    })
}

} // verus!
