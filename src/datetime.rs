//! A calendar date and clock time as carried by a full poll command: fourteen
//! ASCII digits `YYYYMMDDHHMMSS`.
use vstd::prelude::*;

verus! {

pub open spec fn is_leap_year(year: int) -> bool {
    year % 4 == 0 && (year % 100 != 0 || year % 400 == 0)
}

pub open spec fn days_in_month(year: int, month: int) -> int {
    if month == 2 {
        if is_leap_year(year) {
            29
        } else {
            28
        }
    } else if month == 4 || month == 6 || month == 9 || month == 11 {
        30
    } else {
        31
    }
}

/// A day of the proleptic Gregorian calendar in the years `time` supports.
pub open spec fn calendar_date_exists(year: int, month: int, day: int) -> bool {
    &&& -9999 <= year <= 9999
    &&& 1 <= month <= 12
    &&& 1 <= day <= days_in_month(year, month)
}

pub open spec fn clock_time_exists(hour: int, minute: int, second: int) -> bool {
    hour < 24 && minute < 60 && second < 60
}

/// Relies on `time::Date::from_calendar_date` (the month number converted with
/// `time::Month::try_from`): it succeeds exactly for a day that exists in the
/// proleptic Gregorian calendar between the years -9999 and 9999.
#[verifier::external_body]
fn check_calendar_date(year: i32, month: u8, day: u8) -> (r: bool)
    ensures
        r == calendar_date_exists(year as int, month as int, day as int),
{
    match time::Month::try_from(month) {
        Ok(m) => time::Date::from_calendar_date(year, m, day).is_ok(),
        Err(_) => false,
    }
}

/// Relies on `time::Time::from_hms`: it succeeds exactly when the hour is
/// below 24 and the minute and second below 60.
#[verifier::external_body]
fn check_clock_time(hour: u8, minute: u8, second: u8) -> (r: bool)
    ensures
        r == clock_time_exists(hour as int, minute as int, second as int),
{
    time::Time::from_hms(hour, minute, second).is_ok()
}

/// A date and time without offset, with a year that has four digits.
#[derive(Debug, Clone, Copy, PartialEq, Eq, Structural)]
pub struct DateTime {
    year: u16,
    month: u8,
    day: u8,
    hour: u8,
    minute: u8,
    second: u8,
}

impl DateTime {
    #[verifier::type_invariant]
    closed spec fn inv(self) -> bool {
        self.wf()
    }

    pub closed spec fn spec_year(&self) -> u16 {
        self.year
    }

    pub closed spec fn spec_month(&self) -> u8 {
        self.month
    }

    pub closed spec fn spec_day(&self) -> u8 {
        self.day
    }

    pub closed spec fn spec_hour(&self) -> u8 {
        self.hour
    }

    pub closed spec fn spec_minute(&self) -> u8 {
        self.minute
    }

    pub closed spec fn spec_second(&self) -> u8 {
        self.second
    }

    pub open spec fn valid_parts(year: int, month: int, day: int, hour: int, minute: int, second: int) -> bool {
        &&& 0 <= year <= 9999
        &&& calendar_date_exists(year, month, day)
        &&& clock_time_exists(hour, minute, second)
    }

    pub open spec fn wf(&self) -> bool {
        Self::valid_parts(
            self.spec_year() as int,
            self.spec_month() as int,
            self.spec_day() as int,
            self.spec_hour() as int,
            self.spec_minute() as int,
            self.spec_second() as int,
        )
    }

    pub closed spec fn from_parts(year: u16, month: u8, day: u8, hour: u8, minute: u8, second: u8) -> DateTime {
        DateTime { year, month, day, hour, minute, second }
    }

    pub proof fn lemma_parts(year: u16, month: u8, day: u8, hour: u8, minute: u8, second: u8)
        ensures
            ({
                let d = Self::from_parts(year, month, day, hour, minute, second);
                d.spec_year() == year && d.spec_month() == month && d.spec_day() == day
                    && d.spec_hour() == hour && d.spec_minute() == minute && d.spec_second()
                    == second
            }),
    {
    }

    pub proof fn lemma_equal_parts(a: DateTime, b: DateTime)
        requires
            a.spec_year() == b.spec_year(),
            a.spec_month() == b.spec_month(),
            a.spec_day() == b.spec_day(),
            a.spec_hour() == b.spec_hour(),
            a.spec_minute() == b.spec_minute(),
            a.spec_second() == b.spec_second(),
        ensures
            a == b,
    {
    }

    /// The date and time with these parts, where they name an existing day
    /// of a year from 0 to 9999 and a time of day.
    pub fn new(year: u16, month: u8, day: u8, hour: u8, minute: u8, second: u8) -> (r: Option<
        DateTime,
    >)
        ensures
            Self::valid_parts(
                year as int,
                month as int,
                day as int,
                hour as int,
                minute as int,
                second as int,
            ) ==> r == Some(Self::from_parts(year, month, day, hour, minute, second)),
            !Self::valid_parts(
                year as int,
                month as int,
                day as int,
                hour as int,
                minute as int,
                second as int,
            ) ==> r is None,
    {
        if year <= 9999 && check_calendar_date(year as i32, month, day) && check_clock_time(
            hour,
            minute,
            second,
        ) {
            Some(DateTime { year, month, day, hour, minute, second })
        } else {
            None
        }
    }

    pub fn year(&self) -> (r: u16)
        ensures
            r == self.spec_year(),
    {
        self.year
    }

    pub fn month(&self) -> (r: u8)
        ensures
            r == self.spec_month(),
    {
        self.month
    }

    pub fn day(&self) -> (r: u8)
        ensures
            r == self.spec_day(),
    {
        self.day
    }

    pub fn hour(&self) -> (r: u8)
        ensures
            r == self.spec_hour(),
    {
        self.hour
    }

    pub fn minute(&self) -> (r: u8)
        ensures
            r == self.spec_minute(),
    {
        self.minute
    }

    pub fn second(&self) -> (r: u8)
        ensures
            r == self.spec_second(),
    {
        self.second
    }
}

pub open spec fn digit(n: int) -> u8 {
    (0x30 + n % 10) as u8
}

pub open spec fn is_digit(b: u8) -> bool {
    0x30 <= b <= 0x39
}

pub open spec fn digit_value(b: u8) -> int {
    b - 0x30
}

/// The two digits of `n`, which is below 100.
pub open spec fn two_digits(n: int) -> Seq<u8> {
    seq![digit(n / 10), digit(n)]
}

/// The four digits of `n`, which is below 10000.
pub open spec fn four_digits(n: int) -> Seq<u8> {
    seq![digit(n / 1000), digit(n / 100), digit(n / 10), digit(n)]
}

/// `YYYYMMDDHHMMSS`.
pub open spec fn datetime_digits(d: DateTime) -> Seq<u8> {
    four_digits(d.spec_year() as int) + two_digits(d.spec_month() as int) + two_digits(
        d.spec_day() as int,
    ) + two_digits(d.spec_hour() as int) + two_digits(d.spec_minute() as int) + two_digits(
        d.spec_second() as int,
    )
}

/// The number written by the digits `b[i..i+n]`.
pub open spec fn number_at(b: Seq<u8>, i: int, n: nat) -> int
    decreases n,
{
    if n == 0 {
        0
    } else {
        number_at(b, i, (n - 1) as nat) * 10 + digit_value(b[i + n - 1])
    }
}

/// What fourteen bytes mean as a date and time: all must be ASCII digits
/// and the parts must name an existing date and time.
pub open spec fn parse_datetime(b: Seq<u8>) -> Option<DateTime> {
    let year = number_at(b, 0, 4);
    let month = number_at(b, 4, 2);
    let day = number_at(b, 6, 2);
    let hour = number_at(b, 8, 2);
    let minute = number_at(b, 10, 2);
    let second = number_at(b, 12, 2);
    if (forall|i: int| 0 <= i < 14 ==> is_digit(#[trigger] b[i])) && DateTime::valid_parts(
        year,
        month,
        day,
        hour,
        minute,
        second,
    ) {
        Some(
            DateTime::from_parts(
                year as u16,
                month as u8,
                day as u8,
                hour as u8,
                minute as u8,
                second as u8,
            ),
        )
    } else {
        None
    }
}

fn push_two_digits(out: &mut Vec<u8>, n: u8)
    requires
        n < 100,
    ensures
        final(out)@ == old(out)@ + two_digits(n as int),
{
    out.push(0x30u8 + n / 10);
    out.push(0x30u8 + n % 10);
    assert(out@ =~= old(out)@ + two_digits(n as int));
}

impl DateTime {
    /// Appends `YYYYMMDDHHMMSS`.
    pub fn write_digits(&self, out: &mut Vec<u8>)
        ensures
            self.wf(),
            final(out)@ == old(out)@ + datetime_digits(*self),
    {
        proof {
            use_type_invariant(self);
        }
        let y = self.year;
        out.push(0x30u8 + (y / 1000) as u8);
        out.push(0x30u8 + ((y / 100) % 10) as u8);
        out.push(0x30u8 + ((y / 10) % 10) as u8);
        out.push(0x30u8 + (y % 10) as u8);
        assert(out@ =~= old(out)@ + four_digits(y as int));
        push_two_digits(out, self.month);
        push_two_digits(out, self.day);
        push_two_digits(out, self.hour);
        push_two_digits(out, self.minute);
        push_two_digits(out, self.second);
        assert(out@ =~= old(out)@ + datetime_digits(*self));
    }
}

fn read_number(b: &[u8], i: usize, n: usize) -> (r: u16)
    requires
        i + n <= b.len(),
        n <= 4,
        forall|k: int| i <= k < i + n ==> is_digit(#[trigger] b@[k]),
    ensures
        r == number_at(b@, i as int, n as nat),
        r < 10000,
        n == 2 ==> r < 100,
{
    let mut acc: u16 = 0;
    let mut k: usize = 0;
    while k < n
        invariant
            k <= n <= 4,
            i + n <= b.len(),
            forall|j: int| i <= j < i + n ==> is_digit(#[trigger] b@[j]),
            acc == number_at(b@, i as int, k as nat),
            acc < 10000,
            k == 0 ==> acc == 0,
            k == 1 ==> acc < 10,
            k == 2 ==> acc < 100,
            k == 3 ==> acc < 1000,
        decreases n - k,
    {
        let c = b[i + k];
        assert(is_digit(b@[i + k]));
        acc = acc * 10 + (c - 0x30u8) as u16;
        k = k + 1;
    }
    acc
}

/// Decodes `YYYYMMDDHHMMSS` from the 14 bytes at `i`.
pub fn parse_datetime_at(b: &[u8], i: usize) -> (r: Option<DateTime>)
    requires
        i + 14 <= b.len(),
    ensures
        r == parse_datetime(b@.subrange(i as int, i + 14)),
{
    let ghost s = b@.subrange(i as int, i + 14);
    let mut k: usize = 0;
    while k < 14
        invariant
            k <= 14,
            i + 14 <= b.len(),
            s == b@.subrange(i as int, i + 14),
            forall|j: int| 0 <= j < k ==> is_digit(#[trigger] s[j]),
        decreases 14 - k,
    {
        if !(0x30u8 <= b[i + k] && b[i + k] <= 0x39u8) {
            assert(!is_digit(s[k as int]));
            return None;
        }
        k = k + 1;
    }
    assert forall|j: int| i <= j < i + 14 implies is_digit(#[trigger] b@[j]) by {
        assert(b@[j] == s[j - i]);
    }
    proof {
        assert forall|m: int, n: nat| 0 <= m && m + n <= 14 implies number_at(b@, i + m, n)
            == #[trigger] number_at(s, m, n) by {
            lemma_number_at_shift(b@, s, i as int, m, n);
        }
    }
    let year = read_number(b, i, 4);
    let month = read_number(b, i + 4, 2);
    let day = read_number(b, i + 6, 2);
    let hour = read_number(b, i + 8, 2);
    let minute = read_number(b, i + 10, 2);
    let second = read_number(b, i + 12, 2);
    assert(number_at(s, 0, 4) == year);
    assert(number_at(s, 4, 2) == month);
    assert(number_at(s, 6, 2) == day);
    assert(number_at(s, 8, 2) == hour);
    assert(number_at(s, 10, 2) == minute);
    assert(number_at(s, 12, 2) == second);
    assert(forall|j: int| 0 <= j < 14 ==> is_digit(#[trigger] s[j]));
    DateTime::new(year, month as u8, day as u8, hour as u8, minute as u8, second as u8)
}

proof fn lemma_number_at_shift(b: Seq<u8>, s: Seq<u8>, i: int, m: int, n: nat)
    requires
        0 <= i,
        i + 14 <= b.len(),
        s == b.subrange(i, i + 14),
        0 <= m,
        m + n <= 14,
    ensures
        number_at(b, i + m, n) == number_at(s, m, n),
    decreases n,
{
    if n > 0 {
        lemma_number_at_shift(b, s, i, m, (n - 1) as nat);
        assert(s[m + n - 1] == b[i + m + n - 1]);
    }
}

proof fn lemma_two_digits(b: Seq<u8>, i: int, n: int)
    requires
        0 <= n < 100,
        0 <= i,
        i + 2 <= b.len(),
        b.subrange(i, i + 2) == two_digits(n),
    ensures
        number_at(b, i, 2) == n,
        is_digit(b[i]) && is_digit(b[i + 1]),
{
    assert(b[i] == b.subrange(i, i + 2)[0]);
    assert(b[i + 1] == b.subrange(i, i + 2)[1]);
    reveal_with_fuel(number_at, 3);
}

proof fn lemma_four_digits(b: Seq<u8>, n: int)
    requires
        0 <= n < 10000,
        4 <= b.len(),
        b.subrange(0, 4) == four_digits(n),
    ensures
        number_at(b, 0, 4) == n,
        forall|k: int| 0 <= k < 4 ==> is_digit(#[trigger] b[k]),
{
    assert(b[0] == b.subrange(0, 4)[0]);
    assert(b[1] == b.subrange(0, 4)[1]);
    assert(b[2] == b.subrange(0, 4)[2]);
    assert(b[3] == b.subrange(0, 4)[3]);
    reveal_with_fuel(number_at, 5);
}

/// Reading back the digits of a valid date and time gives it back.
pub proof fn lemma_datetime_round_trip(d: DateTime)
    requires
        d.wf(),
    ensures
        datetime_digits(d).len() == 14,
        parse_datetime(datetime_digits(d)) == Some(d),
{
    let b = datetime_digits(d);
    let y = d.spec_year() as int;
    assert(b.subrange(0, 4) =~= four_digits(y));
    assert(b.subrange(4, 6) =~= two_digits(d.spec_month() as int));
    assert(b.subrange(6, 8) =~= two_digits(d.spec_day() as int));
    assert(b.subrange(8, 10) =~= two_digits(d.spec_hour() as int));
    assert(b.subrange(10, 12) =~= two_digits(d.spec_minute() as int));
    assert(b.subrange(12, 14) =~= two_digits(d.spec_second() as int));
    lemma_four_digits(b, y);
    lemma_two_digits(b, 4, d.spec_month() as int);
    lemma_two_digits(b, 6, d.spec_day() as int);
    lemma_two_digits(b, 8, d.spec_hour() as int);
    lemma_two_digits(b, 10, d.spec_minute() as int);
    lemma_two_digits(b, 12, d.spec_second() as int);
    assert forall|i: int| 0 <= i < 14 implies is_digit(#[trigger] b[i]) by {
        if i >= 4 {
            let j = if i % 2 == 0 { i } else { i - 1 };
            assert(is_digit(b[j]) && is_digit(b[j + 1]));
        }
    }
    let e = DateTime::from_parts(
        y as u16,
        d.spec_month(),
        d.spec_day(),
        d.spec_hour(),
        d.spec_minute(),
        d.spec_second(),
    );
    DateTime::lemma_parts(
        y as u16,
        d.spec_month(),
        d.spec_day(),
        d.spec_hour(),
        d.spec_minute(),
        d.spec_second(),
    );
    DateTime::lemma_equal_parts(e, d);
}

} // verus!
