use vstd::prelude::*;

verus! {

pub open spec fn is_leap_year(year: int) -> bool {
    (year % 4 == 0 && year % 100 != 0) || year % 400 == 0
}

/// Number of days in `month` (1 to 12) of `year`, in the proleptic Gregorian calendar.
pub open spec fn days_in_month(year: int, month: int) -> int {
    if month == 2 {
        if is_leap_year(year) {
            29
        } else {
            28
        }
    } else if month == 4 || month == 6 || month == 9 || month == 11 {
        30
    } else {
        31
    }
}

pub open spec fn valid_date(year: int, month: int, day: int) -> bool {
    1 <= month <= 12 && 1 <= day <= days_in_month(year, month)
}

/// A day of the proleptic Gregorian calendar, as year, month and day.
#[derive(Debug, Clone, Copy, PartialEq, Eq)]
pub struct CalendarDate {
    year: i32,
    month: u32,
    day: u32,
}

impl CalendarDate {
    #[verifier::type_invariant]
    spec fn inv(&self) -> bool {
        valid_date(self.year as int, self.month as int, self.day as int)
    }

    pub closed spec fn spec_year(&self) -> int {
        self.year as int
    }

    pub closed spec fn spec_month(&self) -> int {
        self.month as int
    }

    pub closed spec fn spec_day(&self) -> int {
        self.day as int
    }

    /// The date `year`-`month`-`day`, or `None` when there is no such day.
    pub fn new(year: i32, month: u32, day: u32) -> (r: Option<Self>)
        ensures
            r is Some <==> valid_date(year as int, month as int, day as int),
            r is Some ==> r->0.spec_year() == year && r->0.spec_month() == month
                && r->0.spec_day() == day,
    {
        if month < 1 || month > 12 || day < 1 {
            return None;
        }
        let leap = (year % 4 == 0 && year % 100 != 0) || year % 400 == 0;
        let last: u32 = if month == 2 {
            if leap {
                29
            } else {
                28
            }
        } else if month == 4 || month == 6 || month == 9 || month == 11 {
            30
        } else {
            31
        };
        if day > last {
            None
        } else {
            Some(CalendarDate { year, month, day })
        }
    }

    pub fn year(&self) -> (r: i32)
        ensures
            r == self.spec_year(),
    {
        self.year
    }

    pub fn month(&self) -> (r: u32)
        ensures
            r == self.spec_month(),
            1 <= r <= 12,
    {
        proof {
            use_type_invariant(self);
        }
        self.month
    }

    pub fn day(&self) -> (r: u32)
        ensures
            r == self.spec_day(),
            1 <= r <= days_in_month(self.spec_year(), self.spec_month()),
    {
        proof {
            use_type_invariant(self);
        }
        self.day
    }
}

/// Upper bound (exclusive) of the sub-second part; values from one second
/// up stand for a leap second.
pub const NANOS_BOUND: u32 = 2_000_000_000;

/// A moment on the local clock: whole seconds since 1970-01-01 00:00:00 and
/// the nanoseconds past that second.
#[derive(Debug, Clone, Copy, PartialEq, Eq)]
pub struct Timestamp {
    seconds: i64,
    nanos: u32,
}

impl Timestamp {
    #[verifier::type_invariant]
    spec fn inv(&self) -> bool {
        self.nanos < NANOS_BOUND
    }

    pub closed spec fn spec_seconds(&self) -> int {
        self.seconds as int
    }

    pub closed spec fn spec_nanos(&self) -> int {
        self.nanos as int
    }

    /// Position of the moment on the time line: a later moment has a larger rank.
    pub closed spec fn rank(&self) -> int {
        self.seconds as int * NANOS_BOUND as int + self.nanos as int
    }

    /// The moment `seconds` and `nanos` after the epoch, or `None` when
    /// `nanos` is out of range.
    pub fn new(seconds: i64, nanos: u32) -> (r: Option<Self>)
        ensures
            r is Some <==> nanos < NANOS_BOUND,
            r is Some ==> r->0.spec_seconds() == seconds && r->0.spec_nanos() == nanos,
    {
        if nanos < NANOS_BOUND {
            Some(Timestamp { seconds, nanos })
        } else {
            None
        }
    }

    pub fn seconds(&self) -> (r: i64)
        ensures
            r == self.spec_seconds(),
    {
        self.seconds
    }

    pub fn nanos(&self) -> (r: u32)
        ensures
            r == self.spec_nanos(),
            r < NANOS_BOUND,
    {
        proof {
            use_type_invariant(self);
        }
        self.nanos
    }

    /// Whether `self` is strictly later than `other`.
    pub fn is_after(&self, other: &Timestamp) -> (r: bool)
        ensures
            r == (self.rank() > other.rank()),
    {
        proof {
            use_type_invariant(self);
            use_type_invariant(other);
            lemma_rank_order(*self, *other);
        }
        self.seconds > other.seconds || (self.seconds == other.seconds && self.nanos > other.nanos)
    }
}

proof fn lemma_rank_order(a: Timestamp, b: Timestamp)
    requires
        a.nanos < NANOS_BOUND,
        b.nanos < NANOS_BOUND,
    ensures
        (a.rank() > b.rank()) == (a.seconds > b.seconds || (a.seconds == b.seconds && a.nanos
            > b.nanos)),
{
    let (sa, sb) = (a.seconds as int, b.seconds as int);
    let k = NANOS_BOUND as int;
    if sa > sb {
        assert(sa * k >= sb * k + k) by (nonlinear_arith)
            requires
                sa >= sb + 1,
                k > 0,
        ;
    } else if sa < sb {
        assert(sb * k >= sa * k + k) by (nonlinear_arith)
            requires
                sb >= sa + 1,
                k > 0,
        ;
    }
}

} // verus!
