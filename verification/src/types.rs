//! The data model: priorities, calendar dates, timestamps and items,
//! together with the small total parsers that turn command-line text
//! into priorities and due dates.

use vstd::prelude::*;
use crate::chars::{digit_val, is_digit, eq_ci, digit_val_exec, is_digit_exec, eq_ci_exec, to_chars};

verus! {

/// Coarse urgency label of an item.
#[derive(Clone, Copy, Debug, PartialEq, Eq, Structural)]
pub enum Priority {
    High,
    Medium,
    Low,
}

/// A calendar date, valid in the proleptic Gregorian calendar.
#[derive(Clone, Copy, Debug, PartialEq, Eq, Structural)]
pub struct Date {
    pub year: u32,
    pub month: u32,
    pub day: u32,
}

/// A local civil time, to second precision.
#[derive(Clone, Copy, Debug, PartialEq, Eq, Structural)]
pub struct Timestamp {
    pub year: u32,
    pub month: u32,
    pub day: u32,
    pub hour: u32,
    pub minute: u32,
    pub second: u32,
}

pub open spec fn is_leap_year(y: int) -> bool {
    y % 4 == 0 && (y % 100 != 0 || y % 400 == 0)
}

pub open spec fn days_in_month(y: int, m: int) -> int {
    if m == 2 {
        if is_leap_year(y) { 29 } else { 28 }
    } else if m == 4 || m == 6 || m == 9 || m == 11 {
        30
    } else {
        31
    }
}

/// A year, month and day that name a real calendar day (years kept to
/// four digits, as the persisted format writes them).
pub open spec fn valid_ymd(y: int, m: int, d: int) -> bool {
    0 <= y <= 9999 && 1 <= m <= 12 && 1 <= d <= days_in_month(y, m)
}

impl Date {
    pub open spec fn wf(self) -> bool {
        valid_ymd(self.year as int, self.month as int, self.day as int)
    }
}

impl Timestamp {
    pub open spec fn wf(self) -> bool {
        valid_ymd(self.year as int, self.month as int, self.day as int)
            && self.hour <= 23 && self.minute <= 59 && self.second <= 59
    }

    /// Ordering of timestamps: lexicographic over the fields.
    pub open spec fn le(self, other: Timestamp) -> bool {
        if self.year != other.year { self.year < other.year }
        else if self.month != other.month { self.month < other.month }
        else if self.day != other.day { self.day < other.day }
        else if self.hour != other.hour { self.hour < other.hour }
        else if self.minute != other.minute { self.minute < other.minute }
        else { self.second <= other.second }
    }

    pub fn le_exec(&self, other: &Timestamp) -> (r: bool)
        ensures
            r == self.le(*other),
    {
        if self.year != other.year { self.year < other.year }
        else if self.month != other.month { self.month < other.month }
        else if self.day != other.day { self.day < other.day }
        else if self.hour != other.hour { self.hour < other.hour }
        else if self.minute != other.minute { self.minute < other.minute }
        else { self.second <= other.second }
    }
}

pub fn valid_ymd_exec(y: u32, m: u32, d: u32) -> (r: bool)
    ensures
        r == valid_ymd(y as int, m as int, d as int),
{
    let leap: bool = y % 4 == 0 && (y % 100 != 0 || y % 400 == 0);
    let dim: u32 = if m == 2 {
        if leap { 29 } else { 28 }
    } else if m == 4 || m == 6 || m == 9 || m == 11 {
        30
    } else {
        31
    };
    y <= 9999 && 1 <= m && m <= 12 && 1 <= d && d <= dim
}

/// One todo entry.
pub struct Item {
    pub id: u32,
    pub title: String,
    pub completed: bool,
    pub created_at: Timestamp,
    pub completed_at: Option<Timestamp>,
    pub priority: Priority,
    pub due_date: Option<Date>,
    pub categories: Vec<String>,
}

/// The mathematical model of an `Item`.
#[verifier::ext_equal]
pub ghost struct ItemModel {
    pub id: int,
    pub title: Seq<char>,
    pub completed: bool,
    pub created_at: Timestamp,
    pub completed_at: Option<Timestamp>,
    pub priority: Priority,
    pub due_date: Option<Date>,
    pub categories: Seq<Seq<char>>,
}

impl View for Item {
    type V = ItemModel;

    open spec fn view(&self) -> ItemModel {
        ItemModel {
            id: self.id as int,
            title: self.title@,
            completed: self.completed,
            created_at: self.created_at,
            completed_at: self.completed_at,
            priority: self.priority,
            due_date: self.due_date,
            categories: self.categories.deep_view(),
        }
    }
}

impl ItemModel {
    /// Well-formedness of one item: positive id, non-empty title,
    /// a completion stamp exactly when completed, completion not
    /// before creation, and valid calendar fields throughout.
    pub open spec fn wf(self) -> bool {
        &&& self.id >= 1
        &&& self.title.len() > 0
        &&& self.completed_at.is_some() <==> self.completed
        &&& self.completed ==> self.created_at.le(self.completed_at->0)
        &&& self.created_at.wf()
        &&& self.completed_at.is_some() ==> self.completed_at->0.wf()
        &&& self.due_date.is_some() ==> self.due_date->0.wf()
    }
}

/// Case-insensitive (ASCII) equality of two character sequences.
pub open spec fn matches_ci(a: Seq<char>, b: Seq<char>) -> bool {
    a.len() == b.len() && forall|i: int| 0 <= i < a.len() ==> eq_ci(a[i], b[i])
}

pub open spec fn high_chars() -> Seq<char> {
    seq!['h', 'i', 'g', 'h']
}

pub open spec fn medium_chars() -> Seq<char> {
    seq!['m', 'e', 'd', 'i', 'u', 'm']
}

pub open spec fn low_chars() -> Seq<char> {
    seq!['l', 'o', 'w']
}

/// The total map from an optional priority label to a priority: the
/// three names are accepted ignoring ASCII case, anything else,
/// including absence, degrades to `Low`.
pub open spec fn priority_of_text(s: Option<Seq<char>>) -> Priority {
    match s {
        Option::Some(t) => {
            if matches_ci(t, high_chars()) { Priority::High }
            else if matches_ci(t, medium_chars()) { Priority::Medium }
            else { Priority::Low }
        },
        Option::None => Priority::Low,
    }
}

pub open spec fn opt_text_view(s: Option<&String>) -> Option<Seq<char>> {
    match s {
        Option::Some(t) => Option::Some(t@),
        Option::None => Option::None,
    }
}

fn vec_matches_ci(v: &Vec<char>, w: &Vec<char>) -> (r: bool)
    ensures
        r == matches_ci(v@, w@),
{
    if v.len() != w.len() {
        return false;
    }
    let mut i: usize = 0;
    while i < v.len()
        invariant
            i <= v.len(),
            v.len() == w.len(),
            forall|j: int| 0 <= j < i ==> eq_ci(v@[j], w@[j]),
        decreases v.len() - i,
    {
        if !eq_ci_exec(v[i], w[i]) {
            return false;
        }
        i = i + 1;
    }
    true
}

/// Parses a priority label; unknown or absent labels yield `Low`.
pub fn parse_priority(s: Option<&String>) -> (r: Priority)
    ensures
        r == priority_of_text(opt_text_view(s)),
{
    match s {
        Option::None => Priority::Low,
        Option::Some(t) => {
            let cs = to_chars(t.as_str());
            let high: Vec<char> = vec!['h', 'i', 'g', 'h'];
            let medium: Vec<char> = vec!['m', 'e', 'd', 'i', 'u', 'm'];
            proof {
                assert(high@ =~= high_chars());
                assert(medium@ =~= medium_chars());
            }
            if vec_matches_ci(&cs, &high) {
                Priority::High
            } else if vec_matches_ci(&cs, &medium) {
                Priority::Medium
            } else {
                Priority::Low
            }
        },
    }
}

/// The total map from due-date text to an optional date: exactly the
/// form `YYYY-MM-DD` naming a real calendar day parses; any other text
/// yields no date.
pub open spec fn date_of_text(s: Seq<char>) -> Option<Date> {
    if s.len() == 10
        && is_digit(s[0]) && is_digit(s[1]) && is_digit(s[2]) && is_digit(s[3])
        && s[4] == '-'
        && is_digit(s[5]) && is_digit(s[6])
        && s[7] == '-'
        && is_digit(s[8]) && is_digit(s[9])
    {
        let y = digit_val(s[0]) * 1000 + digit_val(s[1]) * 100 + digit_val(s[2]) * 10
            + digit_val(s[3]);
        let m = digit_val(s[5]) * 10 + digit_val(s[6]);
        let d = digit_val(s[8]) * 10 + digit_val(s[9]);
        if valid_ymd(y, m, d) {
            Option::Some(Date { year: y as u32, month: m as u32, day: d as u32 })
        } else {
            Option::None
        }
    } else {
        Option::None
    }
}

/// Parses a `YYYY-MM-DD` due date; malformed text yields `None` and
/// never an error.
pub fn parse_date(s: &str) -> (r: Option<Date>)
    ensures
        r == date_of_text(s@),
{
    let cs = to_chars(s);
    if cs.len() != 10 {
        return None;
    }
    if !(is_digit_exec(cs[0]) && is_digit_exec(cs[1]) && is_digit_exec(cs[2])
        && is_digit_exec(cs[3]) && cs[4] == '-' && is_digit_exec(cs[5]) && is_digit_exec(cs[6])
        && cs[7] == '-' && is_digit_exec(cs[8]) && is_digit_exec(cs[9]))
    {
        return None;
    }
    let y: u32 = digit_val_exec(cs[0]) * 1000 + digit_val_exec(cs[1]) * 100
        + digit_val_exec(cs[2]) * 10 + digit_val_exec(cs[3]);
    let m: u32 = digit_val_exec(cs[5]) * 10 + digit_val_exec(cs[6]);
    let d: u32 = digit_val_exec(cs[8]) * 10 + digit_val_exec(cs[9]);
    if valid_ymd_exec(y, m, d) {
        Some(Date { year: y, month: m, day: d })
    } else {
        None
    }
}

} // verus!
