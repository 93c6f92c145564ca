use vstd::prelude::*;
use crate::errors::CliError;
use crate::utils::{contains_str, lower_of, lowercase, occurs_at, str_eq};
use vstd::string::StrSliceExecFns;

verus! {

/// The value of a sequence of ASCII decimal digits.
pub open spec fn digits_value(s: Seq<char>) -> int
    decreases s.len(),
{
    if s.len() == 0 {
        0
    } else {
        digits_value(s.drop_last()) * 10 + (s.last() as int - '0' as int)
    }
}

pub open spec fn all_digits(s: Seq<char>) -> bool {
    forall|i: int| 0 <= i < s.len() ==> '0' <= #[trigger] s[i] <= '9'
}

/// The digits of a whole-number text: what follows an optional leading `+`.
pub open spec fn unsigned_digits(s: Seq<char>) -> Seq<char> {
    if s.len() > 0 && s[0] == '+' {
        s.drop_first()
    } else {
        s
    }
}

/// The `u32` written in `s` (an optional `+`, then one or more decimal
/// digits), or `None` when `s` is no such text or the value does not fit.
pub open spec fn u32_text(s: Seq<char>) -> Option<u32> {
    let d = unsigned_digits(s);
    if d.len() > 0 && all_digits(d) && digits_value(d) <= u32::MAX {
        Some(digits_value(d) as u32)
    } else {
        None
    }
}

proof fn lemma_digits_value_nonneg(s: Seq<char>)
    requires
        all_digits(s),
    ensures
        digits_value(s) >= 0,
    decreases s.len(),
{
    if s.len() > 0 {
        lemma_digits_value_nonneg(s.drop_last());
    }
}

proof fn lemma_digits_value_grows(s: Seq<char>, i: int)
    requires
        all_digits(s),
        0 <= i <= s.len(),
    ensures
        digits_value(s.subrange(0, i)) <= digits_value(s),
    decreases s.len() - i,
{
    if i < s.len() {
        let t = s.subrange(0, i + 1);
        assert(t.drop_last() == s.subrange(0, i));
        lemma_digits_value_nonneg(s.subrange(0, i));
        lemma_digits_value_grows(s, i + 1);
    } else {
        assert(s.subrange(0, i) == s);
    }
}

/// Reads a whole number of minutes, as `str::parse::<u32>` does.
pub fn parse_minutes(text: &str) -> (r: Option<u32>)
    ensures
        r == u32_text(text@),
{
    let n = text.unicode_len();
    let start: usize = if n > 0 && text.get_char(0) == '+' {
        1
    } else {
        0
    };
    let ghost d = unsigned_digits(text@);
    assert(d == text@.subrange(start as int, n as int));
    if start == n {
        return None;
    }
    let mut value: u64 = 0;
    let mut i: usize = start;
    while i < n
        invariant
            n == text@.len(),
            start <= i <= n,
            d == text@.subrange(start as int, n as int),
            d == unsigned_digits(text@),
            d.len() > 0,
            all_digits(d.subrange(0, i - start)),
            value == digits_value(d.subrange(0, i - start)),
            value <= u32::MAX,
        decreases n - i,
    {
        let c = text.get_char(i);
        assert(d[i - start] == c);
        if c < '0' || c > '9' {
            return None;
        }
        let digit = (c as u32 - '0' as u32) as u64;
        let ghost prefix = d.subrange(0, i + 1 - start);
        assert(prefix.drop_last() == d.subrange(0, i - start));
        assert(all_digits(prefix));
        if value > (u32::MAX as u64 - digit) / 10 {
            proof {
                assert(value * 10 + digit > u32::MAX) by (nonlinear_arith)
                    requires
                        value > (u32::MAX as u64 - digit) / 10,
                        digit <= 9,
                ;
                if all_digits(d) {
                    lemma_digits_value_grows(d, i + 1 - start);
                }
            }
            return None;
        }
        value = value * 10 + digit;
        i = i + 1;
    }
    assert(d.subrange(0, n - start) == d);
    Some(value as u32)
}

/// How an amount of time was given.
#[derive(Debug, Clone, PartialEq, Eq)]
pub enum TimeDirective {
    /// A whole number of minutes.
    Minutes(u32),
    /// `h::<hours>`: the text of a number of hours.
    Hours(String),
    /// `s::<HH:MM>`: from that time of day until now.
    Since(String),
    /// `t::<HH:MM>`: from now until that time of day.
    Until(String),
}

impl TimeDirective {
    /// Reads a time directive: `h::`, `s::` or `t::` and an argument, or a
    /// plain number of minutes. A text without `::` that is no whole number
    /// fails with `InvalidMinutes`; another directive with `InvalidTime`.
    pub fn from_str(time_str: &str) -> (r: Result<TimeDirective, CliError>)
        ensures
            ({
                let s = time_str@;
                let rest = s.subrange(3, s.len() as int);
                if occurs_at(s, "h::"@, 0) {
                    r is Ok && r->Ok_0 is Hours && r->Ok_0->Hours_0@ == rest
                } else if occurs_at(s, "s::"@, 0) {
                    r is Ok && r->Ok_0 is Since && r->Ok_0->Since_0@ == rest
                } else if occurs_at(s, "t::"@, 0) {
                    r is Ok && r->Ok_0 is Until && r->Ok_0->Until_0@ == rest
                } else if !exists|j: int| occurs_at(s, "::"@, j) {
                    match u32_text(s) {
                        Some(m) => r == Ok::<TimeDirective, CliError>(TimeDirective::Minutes(m)),
                        None => r is Err && r->Err_0 is InvalidMinutes
                            && r->Err_0->InvalidMinutes_input@ == s,
                    }
                } else {
                    r is Err && r->Err_0 is InvalidTime && r->Err_0->InvalidTime_input@ == s
                }
            }),
    {
        proof {
            reveal_strlit("h::");
            reveal_strlit("s::");
            reveal_strlit("t::");
        }
        let n = time_str.unicode_len();
        if crate::utils::starts_with(time_str, "h::") {
            Ok(TimeDirective::Hours(time_str.substring_char(3, n).to_owned()))
        } else if crate::utils::starts_with(time_str, "s::") {
            Ok(TimeDirective::Since(time_str.substring_char(3, n).to_owned()))
        } else if crate::utils::starts_with(time_str, "t::") {
            Ok(TimeDirective::Until(time_str.substring_char(3, n).to_owned()))
        } else if !contains_str(time_str, "::") {
            match parse_minutes(time_str) {
                Some(m) => Ok(TimeDirective::Minutes(m)),
                None => Err(CliError::InvalidMinutes { input: time_str.to_owned() }),
            }
        } else {
            Err(CliError::InvalidTime { input: time_str.to_owned() })
        }
    }
}

/// How a day was given.
#[derive(Debug, Clone, PartialEq, Eq)]
pub enum DateDirective {
    Today,
    Yesterday,
    /// The lowercased name of a day of the week, the latest such day before today.
    Weekday(String),
    /// The lowercased text of a `YYYY-MM-DD` date.
    Calendar(String),
}

impl DateDirective {
    /// Reads a date directive, ignoring case: a text with `-` is a calendar
    /// date; else `today`, `yesterday`, or the name of a weekday.
    pub fn from_str(date_str: &str) -> (r: DateDirective)
        ensures
            ({
                let s = lower_of(date_str@);
                if exists|j: int| occurs_at(s, "-"@, j) {
                    r is Calendar && r->Calendar_0@ == s
                } else if s == "today"@ {
                    r == DateDirective::Today
                } else if s == "yesterday"@ {
                    r == DateDirective::Yesterday
                } else {
                    r is Weekday && r->Weekday_0@ == s
                }
            }),
    {
        let input = lowercase(date_str);
        if contains_str(input.as_str(), "-") {
            DateDirective::Calendar(input)
        } else if str_eq(input.as_str(), "today") {
            DateDirective::Today
        } else if str_eq(input.as_str(), "yesterday") {
            DateDirective::Yesterday
        } else {
            DateDirective::Weekday(input)
        }
    }

    /// How many ISO weeks back the named weekday lies, both days counted from
    /// Monday: the current week when that day is already past this week,
    /// else the week before.
    pub fn weeks_back(today_from_monday: u32, day_from_monday: u32) -> (r: u32)
        ensures
            r == if today_from_monday > day_from_monday {
                0u32
            } else {
                1u32
            },
    {
        if today_from_monday > day_from_monday {
            0
        } else {
            1
        }
    }
}

} // verus!
