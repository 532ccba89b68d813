//! A calendar's arguments: years, months by number or by name, and the
//! month and year to show.
use vstd::prelude::*;
use vstd::string::*;
use crate::decimal::{decimal_text, push_decimal, Decimal};
use crate::text::{chars_of, lowercase, starts_with, in_lowercase};

verus! {

/// The names by which a month can be given, January first.
pub open spec fn month_names() -> Seq<Seq<char>> {
    seq![
        "january"@,
        "gebruary"@,
        "march"@,
        "april"@,
        "may"@,
        "june"@,
        "july"@,
        "august"@,
        "september"@,
        "october"@,
        "november"@,
        "december"@,
    ]
}

/// The complaint about a text that is no integer.
pub open spec fn invalid_integer(val: Seq<char>) -> Seq<char> {
    "Invalid integer \""@ + val + "\""@
}

/// Reads `val` as a decimal integer of the type asked for.
pub fn parse_int<T: Decimal>(val: &str) -> (r: Result<T, String>)
    ensures
        match r {
            Ok(n) => T::parsed(val@) == Some(n),
            Err(m) => T::parsed(val@) is None && m@ == invalid_integer(val@),
        },
{
    match T::parse(val) {
        Some(n) => Ok(n),
        None => {
            let mut m = String::from_str("Invalid integer \"");
            m.append(val);
            m.append("\"");
            Err(m)
        },
    }
}

/// The complaint about a year outside the calendar's range.
pub open spec fn year_out_of_range(year: Seq<char>) -> Seq<char> {
    "year \""@ + year + "\" not in the range 1 through 9999"@
}

/// What a text gives as a year: an integer from 1 to 9999.
pub open spec fn year_of(year: Seq<char>) -> Result<i32, Seq<char>> {
    match i32::parsed(year) {
        Some(n) => if 1 <= n <= 9999 {
            Ok(n)
        } else {
            Err(year_out_of_range(year))
        },
        None => Err(invalid_integer(year)),
    }
}

/// Reads a year.
pub fn parse_year(year: &str) -> (r: Result<i32, String>)
    ensures
        match r {
            Ok(n) => year_of(year@) == Ok::<i32, Seq<char>>(n),
            Err(m) => year_of(year@) == Err::<i32, Seq<char>>(m@),
        },
{
    match parse_int::<i32>(year) {
        Ok(num) => {
            if 1 <= num && num <= 9999 {
                Ok(num)
            } else {
                let mut m = String::from_str("year \"");
                m.append(year);
                m.append("\" not in the range 1 through 9999");
                Err(m)
            }
        },
        Err(m) => Err(m),
    }
}

/// The complaint about a month number outside the year.
pub open spec fn month_out_of_range(num: u32) -> Seq<char> {
    "month \""@ + decimal_text(num as nat) + "\" not in the range 1 through 12"@
}

/// The complaint about a text that names no month.
pub open spec fn invalid_month(month: Seq<char>) -> Seq<char> {
    "Invalid month \""@ + month + "\""@
}

/// The first place from `from` on whose month name begins with `start`.
pub open spec fn named_from(start: Seq<char>, from: int) -> Option<int>
    decreases 12 - from,
{
    if from < 0 || from >= 12 {
        None
    } else if start.is_prefix_of(month_names()[from]) {
        Some(from)
    } else {
        named_from(start, from + 1)
    }
}

/// What a text gives as a month. A number has to lie from 1 to 12. Any
/// other text names the first month whose name begins with it, whatever
/// the case of its letters.
pub open spec fn month_of(month: Seq<char>) -> Result<u32, Seq<char>> {
    match u32::parsed(month) {
        Some(n) => if 1 <= n <= 12 {
            Ok(n)
        } else {
            Err(month_out_of_range(n))
        },
        None => match named_from(lowercase(month), 0) {
            Some(i) => Ok((i + 1) as u32),
            None => Err(invalid_month(month)),
        },
    }
}

/// The month names, as strings.
fn names() -> (list: [&'static str; 12])
    ensures
        list@.len() == 12,
        forall|i: int| 0 <= i < 12 ==> (#[trigger] list@[i])@ == month_names()[i],
{
    [
        "january",
        "gebruary",
        "march",
        "april",
        "may",
        "june",
        "july",
        "august",
        "september",
        "october",
        "november",
        "december",
    ]
}

/// What the lowercase text `lower` gives as a month by name.
pub fn month_by_name(lower: &str) -> (r: Option<u32>)
    ensures
        r == match named_from(lower@, 0) {
            Some(i) => Some((i + 1) as u32),
            None => None::<u32>,
        },
{
    let list = names();
    let start = chars_of(lower);
    let mut i: usize = 0;
    while i < 12
        invariant
            i <= 12,
            start@ == lower@,
            list@.len() == 12,
            forall|k: int| 0 <= k < 12 ==> (#[trigger] list@[k])@ == month_names()[k],
            named_from(lower@, 0) == named_from(lower@, i as int),
        decreases 12 - i,
    {
        let name = chars_of(list[i]);
        if starts_with(&name, &start) {
            return Some((i + 1) as u32);
        }
        i += 1;
    }
    None
}

/// Reads a month, given by number or by name.
pub fn parse_month(month: &str) -> (r: Result<u32, String>)
    ensures
        match r {
            Ok(n) => month_of(month@) == Ok::<u32, Seq<char>>(n),
            Err(m) => month_of(month@) == Err::<u32, Seq<char>>(m@),
        },
{
    match parse_int::<u32>(month) {
        Ok(num) => {
            if 1 <= num && num <= 12 {
                Ok(num)
            } else {
                let mut m = String::from_str("month \"");
                push_decimal(&mut m, num as u128);
                m.append("\" not in the range 1 through 12");
                Err(m)
            }
        },
        Err(_) => {
            let lower = in_lowercase(month);
            match month_by_name(lower.as_str()) {
                Some(n) => Ok(n),
                None => {
                    let mut m = String::from_str("Invalid month \"");
                    m.append(month);
                    m.append("\"");
                    Err(m)
                },
            }
        },
    }
}

/// A day of the calendar.
#[derive(Clone, Copy, Debug, PartialEq, Eq, Structural)]
pub struct Date {
    pub year: i32,
    pub month: u32,
    pub day: u32,
}

/// What the calendar is asked to show.
#[derive(Debug)]
pub struct Config {
    /// The month to show; without one, the whole year.
    pub month: Option<u32>,
    /// The year to show.
    pub year: i32,
    /// The day on which the calendar is asked for.
    pub today: Date,
}

/// The month and year to show. Asked for the current year, the whole of
/// it is shown, whatever else was given. With neither month nor year
/// given, the current month is shown. A month alone is taken in the
/// current year, and a year alone is shown whole.
pub open spec fn shown(
    month: Option<u32>,
    year: Option<i32>,
    show_current_year: bool,
    today: Date,
) -> (Option<u32>, i32) {
    if show_current_year {
        (None, today.year)
    } else if month is None && year is None {
        (Some(today.month), today.year)
    } else {
        (
            month,
            match year {
                Some(y) => y,
                None => today.year,
            },
        )
    }
}

/// Builds the configuration from the arguments as they were given and the
/// current day. The month is read first, then the year; the first that
/// cannot be read is the error.
pub fn get_args(
    month: Option<String>,
    year: Option<String>,
    show_current_year: bool,
    today: Date,
) -> (r: Result<Config, String>)
    ensures
        match r {
            Ok(config) => {
                &&& month matches Some(m) ==> month_of(m@) is Ok
                &&& year matches Some(y) ==> year_of(y@) is Ok
                &&& config.today == today
                &&& (config.month, config.year) == shown(
                    match month {
                        Some(m) => Some(month_of(m@)->Ok_0),
                        None => None,
                    },
                    match year {
                        Some(y) => Some(year_of(y@)->Ok_0),
                        None => None,
                    },
                    show_current_year,
                    today,
                )
            },
            Err(e) => match month {
                Some(m) => match month_of(m@) {
                    Err(complaint) => e@ == complaint,
                    Ok(_) => year matches Some(y) && year_of(y@) == Err::<i32, Seq<char>>(e@),
                },
                None => year matches Some(y) && year_of(y@) == Err::<i32, Seq<char>>(e@),
            },
        },
{
    let month_read = match month {
        Some(m) => match parse_month(m.as_str()) {
            Ok(n) => Some(n),
            Err(e) => {
                return Err(e);
            },
        },
        None => None,
    };
    let year_read = match year {
        Some(y) => match parse_year(y.as_str()) {
            Ok(n) => Some(n),
            Err(e) => {
                return Err(e);
            },
        },
        None => None,
    };
    if show_current_year {
        Ok(Config { month: None, year: today.year, today: today })
    } else if month_read.is_none() && year_read.is_none() {
        Ok(Config { month: Some(today.month), year: today.year, today: today })
    } else {
        let y = match year_read {
            Some(y) => y,
            None => today.year,
        };
        Ok(Config { month: month_read, year: y, today: today })
    }
}

} // verus!
