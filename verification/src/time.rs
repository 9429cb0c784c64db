//! Capture times: a local calendar time with its offset from UTC, checked
//! against the calendar when it is made.

use vstd::prelude::*;

use crate::text::digit_char;

verus! {

/// Whether `year` is a leap year of the proleptic Gregorian calendar.
pub open spec fn is_leap_year(year: int) -> bool {
    year % 4 == 0 && (year % 100 != 0 || year % 400 == 0)
}

/// The number of days of `month` (1 to 12) in `year`.
pub open spec fn days_in_month(year: int, month: int) -> int {
    if month == 2 {
        if is_leap_year(year) {
            29
        } else {
            28
        }
    } else if month == 4 || month == 6 || month == 9 || month == 11 {
        30
    } else {
        31
    }
}

/// Whether the six numbers name a second that exists on the calendar.
pub open spec fn valid_civil(
    year: int,
    month: int,
    day: int,
    hour: int,
    minute: int,
    second: int,
) -> bool {
    &&& 1 <= month <= 12
    &&& 1 <= day <= days_in_month(year, month)
    &&& 0 <= hour < 24
    &&& 0 <= minute < 60
    &&& 0 <= second < 60
}

/// Whether an offset from UTC, in minutes, is less than a day either way.
pub open spec fn valid_offset_minutes(offset: int) -> bool {
    -1440 < offset < 1440
}

/// Whether an offset from UTC, in seconds, is less than a day either way.
pub open spec fn valid_offset_seconds(offset: int) -> bool {
    -86_400 < offset < 86_400
}

/// The days of `year` that lie before its month `month`.
pub open spec fn days_before_month(year: int, month: int) -> int
    decreases month,
{
    if month <= 1 {
        0
    } else {
        days_before_month(year, month - 1) + days_in_month(year, month - 1)
    }
}

/// The days from the first day of the year 0 to the first day of `year`:
/// 365 for each year, and one more for each leap year among them.
pub open spec fn days_before_year(year: int) -> int {
    365 * year + (year + 3) / 4 - (year + 99) / 100 + (year + 399) / 400
}

/// The days from the first of January 1970 to the given day.
pub open spec fn days_from_epoch(year: int, month: int, day: int) -> int {
    days_before_year(year) + days_before_month(year, month) + (day - 1) - 719528
}

/// Seconds from the Unix epoch to the given local time at the given offset
/// (in seconds east of UTC): a day has 86400 seconds, and the clock at the
/// offset is ahead of UTC by the offset.
pub open spec fn unix_seconds(
    year: int,
    month: int,
    day: int,
    hour: int,
    minute: int,
    second: int,
    offset_seconds: int,
) -> int {
    days_from_epoch(year, month, day) * 86400 + hour * 3600 + minute * 60 + second
        - offset_seconds
}

/// The strftime patterns this library formats with; each is well formed.
pub open spec fn known_pattern(pattern: Seq<char>) -> bool {
    ||| pattern == "%b %-d, %Y"@
    ||| pattern == "%H:%M:%S %b %d %Y %Z"@
    ||| pattern == "%H:%M:%S"@
    ||| pattern == "%Z"@
    ||| pattern == "%-d %B, %Y"@
    ||| pattern == "%Y-%m-%d"@
}

/// The pattern that writes a date as year, month and day with hyphens
/// between them.
pub open spec fn iso_pattern() -> Seq<char> {
    "%Y-%m-%d"@
}

/// The date as chrono writes it under `%Y-%m-%d`: the year in four digits,
/// or with a plus sign in front where it has five, then the month and the
/// day in two digits each.
pub open spec fn iso_date(year: int, month: int, day: int) -> Seq<char> {
    if year < 10000 {
        seq![
            digit_char((year / 10 / 10 / 10 % 10) as nat),
            digit_char((year / 10 / 10 % 10) as nat),
            digit_char((year / 10 % 10) as nat),
            digit_char((year % 10) as nat),
            '-',
            digit_char((month / 10 % 10) as nat),
            digit_char((month % 10) as nat),
            '-',
            digit_char((day / 10 % 10) as nat),
            digit_char((day % 10) as nat),
        ]
    } else {
        seq![
            '+',
            digit_char((year / 10 / 10 / 10 / 10 % 10) as nat),
            digit_char((year / 10 / 10 / 10 % 10) as nat),
            digit_char((year / 10 / 10 % 10) as nat),
            digit_char((year / 10 % 10) as nat),
            digit_char((year % 10) as nat),
            '-',
            digit_char((month / 10 % 10) as nat),
            digit_char((month % 10) as nat),
            '-',
            digit_char((day / 10 % 10) as nat),
            digit_char((day % 10) as nat),
        ]
    }
}

/// A number below a hundred in two digits, the first a zero where the number
/// is below ten.
pub open spec fn two_digits(n: int) -> Seq<char> {
    seq![digit_char((n / 10 % 10) as nat), digit_char((n % 10) as nat)]
}

/// A number below a hundred in as many digits as it has.
pub open spec fn bare_digits(n: int) -> Seq<char> {
    if n < 10 {
        seq![digit_char(n as nat)]
    } else {
        two_digits(n)
    }
}

/// A year as chrono writes it under `%Y`: in four digits, or with a plus
/// sign in front where it has five.
pub open spec fn year_text(year: int) -> Seq<char> {
    if year < 10000 {
        seq![
            digit_char((year / 10 / 10 / 10 % 10) as nat),
            digit_char((year / 10 / 10 % 10) as nat),
            digit_char((year / 10 % 10) as nat),
            digit_char((year % 10) as nat),
        ]
    } else {
        seq![
            '+',
            digit_char((year / 10 / 10 / 10 / 10 % 10) as nat),
            digit_char((year / 10 / 10 / 10 % 10) as nat),
            digit_char((year / 10 / 10 % 10) as nat),
            digit_char((year / 10 % 10) as nat),
            digit_char((year % 10) as nat),
        ]
    }
}

/// The English name of a month (1 to 12), as chrono writes it under `%B`.
pub open spec fn month_name(month: int) -> Seq<char> {
    if month == 1 {
        "January"@
    } else if month == 2 {
        "February"@
    } else if month == 3 {
        "March"@
    } else if month == 4 {
        "April"@
    } else if month == 5 {
        "May"@
    } else if month == 6 {
        "June"@
    } else if month == 7 {
        "July"@
    } else if month == 8 {
        "August"@
    } else if month == 9 {
        "September"@
    } else if month == 10 {
        "October"@
    } else if month == 11 {
        "November"@
    } else {
        "December"@
    }
}

/// The first three letters of a month's English name, as chrono writes it
/// under `%b`.
pub open spec fn short_month_name(month: int) -> Seq<char> {
    if month == 1 {
        "Jan"@
    } else if month == 2 {
        "Feb"@
    } else if month == 3 {
        "Mar"@
    } else if month == 4 {
        "Apr"@
    } else if month == 5 {
        "May"@
    } else if month == 6 {
        "Jun"@
    } else if month == 7 {
        "Jul"@
    } else if month == 8 {
        "Aug"@
    } else if month == 9 {
        "Sep"@
    } else if month == 10 {
        "Oct"@
    } else if month == 11 {
        "Nov"@
    } else {
        "Dec"@
    }
}

/// The date under `%-d %B, %Y`: the day without padding, the month's name, a
/// comma and the year.
pub open spec fn long_date(year: int, month: int, day: int) -> Seq<char> {
    bare_digits(day) + seq![' '] + month_name(month) + seq![',', ' '] + year_text(year)
}

/// The date under `%b %-d, %Y`: the month's short name, the day without
/// padding, a comma and the year.
pub open spec fn short_date(year: int, month: int, day: int) -> Seq<char> {
    short_month_name(month) + seq![' '] + bare_digits(day) + seq![',', ' '] + year_text(year)
}

/// The time of day under `%H:%M:%S`: hour, minute and second in two digits
/// each, with colons between them.
pub open spec fn clock_text(hour: int, minute: int, second: int) -> Seq<char> {
    two_digits(hour) + seq![':'] + two_digits(minute) + seq![':'] + two_digits(second)
}

/// An offset of whole minutes as chrono names it under `%Z`: its sign, a
/// plus where it is zero, then its hours and minutes in two digits each.
pub open spec fn offset_name(offset_seconds: int) -> Seq<char> {
    let size = if offset_seconds < 0 {
        -offset_seconds
    } else {
        offset_seconds
    };
    seq![if offset_seconds < 0 { '-' } else { '+' }] + two_digits(size / 3600) + seq![':']
        + two_digits(size / 60 % 60)
}

/// The time under `%H:%M:%S %b %d %Y %Z`: the time of day, the month's short
/// name, the day in two digits, the year and the offset, a space between
/// each two.
pub open spec fn full_time(
    year: int,
    month: int,
    day: int,
    hour: int,
    minute: int,
    second: int,
    offset_seconds: int,
) -> Seq<char> {
    clock_text(hour, minute, second) + seq![' '] + short_month_name(month) + seq![' ']
        + two_digits(day) + seq![' '] + year_text(year) + seq![' '] + offset_name(offset_seconds)
}

/// The text of a date under one of the patterns for dates.
pub open spec fn date_text(year: int, month: int, day: int, pattern: Seq<char>) -> Seq<char> {
    if pattern == iso_pattern() {
        iso_date(year, month, day)
    } else if pattern == "%-d %B, %Y"@ {
        long_date(year, month, day)
    } else {
        short_date(year, month, day)
    }
}

/// The text of a local time at an offset under one of the known patterns.
pub open spec fn time_text(
    year: int,
    month: int,
    day: int,
    hour: int,
    minute: int,
    second: int,
    offset_seconds: int,
    pattern: Seq<char>,
) -> Seq<char> {
    if pattern == "%H:%M:%S"@ {
        clock_text(hour, minute, second)
    } else if pattern == "%Z"@ {
        offset_name(offset_seconds)
    } else if pattern == "%H:%M:%S %b %d %Y %Z"@ {
        full_time(year, month, day, hour, minute, second, offset_seconds)
    } else {
        date_text(year, month, day, pattern)
    }
}

/// The known patterns differ from one another, so each has the text that is
/// written out for it.
pub proof fn lemma_patterns(
    year: int,
    month: int,
    day: int,
    hour: int,
    minute: int,
    second: int,
    offset_seconds: int,
)
    ensures
        date_text(year, month, day, "%Y-%m-%d"@) == iso_date(year, month, day),
        date_text(year, month, day, "%-d %B, %Y"@) == long_date(year, month, day),
        date_text(year, month, day, "%b %-d, %Y"@) == short_date(year, month, day),
        time_text(year, month, day, hour, minute, second, offset_seconds, "%H:%M:%S"@)
            == clock_text(hour, minute, second),
        time_text(year, month, day, hour, minute, second, offset_seconds, "%Z"@) == offset_name(
            offset_seconds,
        ),
        time_text(
            year,
            month,
            day,
            hour,
            minute,
            second,
            offset_seconds,
            "%H:%M:%S %b %d %Y %Z"@,
        ) == full_time(year, month, day, hour, minute, second, offset_seconds),
        time_text(year, month, day, hour, minute, second, offset_seconds, "%b %-d, %Y"@)
            == short_date(year, month, day),
{
    reveal_strlit("%Y-%m-%d");
    reveal_strlit("%-d %B, %Y");
    reveal_strlit("%b %-d, %Y");
    reveal_strlit("%H:%M:%S");
    reveal_strlit("%Z");
    reveal_strlit("%H:%M:%S %b %d %Y %Z");
    assert("%-d %B, %Y"@[1] == '-');
    assert("%b %-d, %Y"@[1] == 'b');
    assert("%Y-%m-%d"@[1] == 'Y');
    assert("%H:%M:%S"@[1] == 'H');
    assert("%Z"@[1] == 'Z');
    assert("%H:%M:%S %b %d %Y %Z"@[1] == 'H');
    assert("%H:%M:%S"@.len() == 8);
    assert("%H:%M:%S %b %d %Y %Z"@.len() == 20);
}

/// Two digits that are written alike are the same digit, and no digit is
/// written as a sign.
proof fn lemma_digit(c: int, d: int)
    requires
        0 <= c < 10,
        0 <= d < 10,
    ensures
        digit_char(c as nat) == digit_char(d as nat) ==> c == d,
        digit_char(c as nat) != '+',
        digit_char(c as nat) != '-',
{
}

/// Two numbers below a hundred thousand with the same five digits are the
/// same number.
proof fn lemma_same_digits(m: int, n: int)
    requires
        0 <= m < 100000,
        0 <= n < 100000,
        m % 10 == n % 10,
        m / 10 % 10 == n / 10 % 10,
        m / 10 / 10 % 10 == n / 10 / 10 % 10,
        m / 10 / 10 / 10 % 10 == n / 10 / 10 / 10 % 10,
        m / 10 / 10 / 10 / 10 % 10 == n / 10 / 10 / 10 / 10 % 10,
    ensures
        m == n,
{
    let m1 = m / 10;
    let n1 = n / 10;
    let m2 = m1 / 10;
    let n2 = n1 / 10;
    let m3 = m2 / 10;
    let n3 = n2 / 10;
    let m4 = m3 / 10;
    let n4 = n3 / 10;
    assert(m4 < 10 && n4 < 10);
    assert(m4 == n4);
    assert(m3 == n3);
    assert(m2 == n2);
    assert(m1 == n1);
}

/// Two days are written differently under `%Y-%m-%d`, and no day is written
/// in fewer than ten characters.
pub proof fn lemma_iso_date(a: DateView, b: DateView)
    requires
        a.valid(),
        b.valid(),
    ensures
        iso_date(a.year, a.month, a.day).len() >= 10,
        iso_date(a.year, a.month, a.day) == iso_date(b.year, b.month, b.day) ==> a == b,
{
    let x = iso_date(a.year, a.month, a.day);
    let y = iso_date(b.year, b.month, b.day);
    if x == y {
        if a.year < 10000 && b.year < 10000 {
            assert(x[0] == y[0] && x[1] == y[1] && x[2] == y[2] && x[3] == y[3]);
            lemma_digit(a.year / 10 / 10 / 10 % 10, b.year / 10 / 10 / 10 % 10);
            lemma_digit(a.year / 10 / 10 % 10, b.year / 10 / 10 % 10);
            lemma_digit(a.year / 10 % 10, b.year / 10 % 10);
            lemma_digit(a.year % 10, b.year % 10);
            assert(a.year / 10 / 10 / 10 / 10 == 0 && b.year / 10 / 10 / 10 / 10 == 0);
            lemma_same_digits(a.year, b.year);
            assert(x[5] == y[5] && x[6] == y[6] && x[8] == y[8] && x[9] == y[9]);
        } else if a.year >= 10000 && b.year >= 10000 {
            assert(x[1] == y[1] && x[2] == y[2] && x[3] == y[3] && x[4] == y[4] && x[5] == y[5]);
            lemma_digit(a.year / 10 / 10 / 10 / 10 % 10, b.year / 10 / 10 / 10 / 10 % 10);
            lemma_digit(a.year / 10 / 10 / 10 % 10, b.year / 10 / 10 / 10 % 10);
            lemma_digit(a.year / 10 / 10 % 10, b.year / 10 / 10 % 10);
            lemma_digit(a.year / 10 % 10, b.year / 10 % 10);
            lemma_digit(a.year % 10, b.year % 10);
            lemma_same_digits(a.year, b.year);
            assert(x[7] == y[7] && x[8] == y[8] && x[10] == y[10] && x[11] == y[11]);
        } else {
            assert(x.len() != y.len());
        }
        lemma_digit(a.month / 10 % 10, b.month / 10 % 10);
        lemma_digit(a.month % 10, b.month % 10);
        lemma_digit(a.day / 10 % 10, b.day / 10 % 10);
        lemma_digit(a.day % 10, b.day % 10);
        assert(a.month / 10 < 10 && b.month / 10 < 10);
        assert(a.day / 10 < 10 && b.day / 10 < 10);
        assert(a.month == b.month);
        assert(a.day == b.day);
    }
}

/// The patterns that a date alone is formatted with: they name the day, the
/// month and the year and nothing of the time of day or the offset.
pub open spec fn date_pattern(pattern: Seq<char>) -> bool {
    ||| pattern == "%b %-d, %Y"@
    ||| pattern == "%-d %B, %Y"@
    ||| pattern == "%Y-%m-%d"@
}

/// What a `CaptureTime` stands for.
pub struct TimeView {
    pub year: int,
    pub month: int,
    pub day: int,
    pub hour: int,
    pub minute: int,
    pub second: int,
    pub offset_minutes: int,
    pub unix_seconds: i64,
}

impl TimeView {
    /// The local fields exist on the calendar, the offset is less than a day,
    /// and the instant is the one these determine.
    pub open spec fn valid(self) -> bool {
        &&& valid_civil(self.year, self.month, self.day, self.hour, self.minute, self.second)
        &&& valid_offset_minutes(self.offset_minutes)
        &&& 0 <= self.year <= u16::MAX
        &&& self.unix_seconds == unix_seconds(
            self.year,
            self.month,
            self.day,
            self.hour,
            self.minute,
            self.second,
            self.offset_minutes * 60,
        )
    }

    /// The local calendar date.
    pub open spec fn date(self) -> DateView {
        DateView { year: self.year, month: self.month, day: self.day }
    }

    /// The text of this time under `pattern`.
    pub open spec fn formatted(self, pattern: Seq<char>) -> Seq<char> {
        time_text(
            self.year,
            self.month,
            self.day,
            self.hour,
            self.minute,
            self.second,
            self.offset_minutes * 60,
            pattern,
        )
    }
}

/// What a `LocalDate` stands for.
pub struct DateView {
    pub year: int,
    pub month: int,
    pub day: int,
}

impl DateView {
    /// The day exists on the calendar.
    pub open spec fn valid(self) -> bool {
        &&& 0 <= self.year <= u16::MAX
        &&& 1 <= self.month <= 12
        &&& 1 <= self.day <= days_in_month(self.year, self.month)
    }

    /// The text of this date under `pattern`.
    pub open spec fn formatted(self, pattern: Seq<char>) -> Seq<char> {
        date_text(self.year, self.month, self.day, pattern)
    }
}

/// A calendar date that exists.
#[derive(Clone, Copy, Debug)]
pub struct LocalDate {
    year: u16,
    month: u8,
    day: u8,
}

impl View for LocalDate {
    type V = DateView;

    closed spec fn view(&self) -> DateView {
        DateView { year: self.year as int, month: self.month as int, day: self.day as int }
    }
}

impl LocalDate {
    /// Every value of this type is valid.
    #[verifier::type_invariant]
    pub open spec fn well_formed(self) -> bool {
        self@.valid()
    }

    pub fn year(&self) -> (y: u16)
        ensures
            y == self@.year,
    {
        self.year
    }

    pub fn month(&self) -> (m: u8)
        ensures
            m == self@.month,
    {
        self.month
    }

    pub fn day(&self) -> (d: u8)
        ensures
            d == self@.day,
    {
        self.day
    }

    /// Whether two dates are the same day.
    pub fn same_day(&self, other: &LocalDate) -> (b: bool)
        ensures
            b == (self@ == other@),
    {
        self.year == other.year && self.month == other.month && self.day == other.day
    }

    /// Formats the date under one of the patterns for dates.
    pub fn format(&self, pattern: &str) -> (s: String)
        requires
            date_pattern(pattern@),
        ensures
            s@ == self@.formatted(pattern@),
    {
        proof {
            use_type_invariant(self);
        }
        format_naive_date(self.year, self.month, self.day, pattern)
    }
}

/// A moment at which a photograph was taken: the local wall-clock time, the
/// offset of that clock from UTC, and the instant the two determine.
#[derive(Clone, Copy, Debug)]
pub struct CaptureTime {
    year: u16,
    month: u8,
    day: u8,
    hour: u8,
    minute: u8,
    second: u8,
    offset_minutes: i16,
    unix_seconds: i64,
}

impl View for CaptureTime {
    type V = TimeView;

    closed spec fn view(&self) -> TimeView {
        TimeView {
            year: self.year as int,
            month: self.month as int,
            day: self.day as int,
            hour: self.hour as int,
            minute: self.minute as int,
            second: self.second as int,
            offset_minutes: self.offset_minutes as int,
            unix_seconds: self.unix_seconds,
        }
    }
}

impl CaptureTime {
    /// Every value of this type is valid.
    #[verifier::type_invariant]
    pub open spec fn well_formed(self) -> bool {
        self@.valid()
    }

    /// Builds the capture time for the given local fields and offset.
    ///
    /// `None` exactly when the fields name no second of the calendar or the
    /// offset is a day or more.
    pub fn new(
        year: u16,
        month: u8,
        day: u8,
        hour: u8,
        minute: u8,
        second: u8,
        offset_minutes: i16,
    ) -> (r: Option<CaptureTime>)
        ensures
            r is Some <==> valid_civil(
                year as int,
                month as int,
                day as int,
                hour as int,
                minute as int,
                second as int,
            ) && valid_offset_minutes(offset_minutes as int),
            r matches Some(t) ==> {
                &&& t@.valid()
                &&& t@.year == year
                &&& t@.month == month
                &&& t@.day == day
                &&& t@.hour == hour
                &&& t@.minute == minute
                &&& t@.second == second
                &&& t@.offset_minutes == offset_minutes
            },
    {
        if offset_minutes <= -1440 || offset_minutes >= 1440 {
            return None;
        }
        let offset_seconds: i32 = (offset_minutes as i32) * 60;
        match local_timestamp(year, month, day, hour, minute, second, offset_seconds) {
            None => None,
            Some(unix_seconds) => Some(
                CaptureTime {
                    year,
                    month,
                    day,
                    hour,
                    minute,
                    second,
                    offset_minutes,
                    unix_seconds,
                },
            ),
        }
    }

    pub fn year(&self) -> (y: u16)
        ensures
            y == self@.year,
    {
        self.year
    }

    pub fn month(&self) -> (m: u8)
        ensures
            m == self@.month,
    {
        self.month
    }

    pub fn day(&self) -> (d: u8)
        ensures
            d == self@.day,
    {
        self.day
    }

    pub fn hour(&self) -> (h: u8)
        ensures
            h == self@.hour,
    {
        self.hour
    }

    pub fn minute(&self) -> (m: u8)
        ensures
            m == self@.minute,
    {
        self.minute
    }

    pub fn second(&self) -> (s: u8)
        ensures
            s == self@.second,
    {
        self.second
    }

    /// Minutes east of UTC.
    pub fn offset_minutes(&self) -> (o: i16)
        ensures
            o == self@.offset_minutes,
    {
        self.offset_minutes
    }

    /// Seconds since the Unix epoch; capture times are ordered by it.
    pub fn unix_seconds(&self) -> (t: i64)
        ensures
            t == self@.unix_seconds,
    {
        self.unix_seconds
    }

    /// The local calendar date of the capture.
    pub fn date(&self) -> (d: LocalDate)
        ensures
            d@ == self@.date(),
    {
        proof {
            use_type_invariant(self);
        }
        LocalDate { year: self.year, month: self.month, day: self.day }
    }

    /// Formats the time under one of the known patterns.
    pub fn format(&self, pattern: &str) -> (s: String)
        requires
            known_pattern(pattern@),
        ensures
            s@ == self@.formatted(pattern@),
    {
        proof {
            use_type_invariant(self);
        }
        let offset_seconds: i32 = (self.offset_minutes as i32) * 60;
        format_local_time(
            self.year,
            self.month,
            self.day,
            self.hour,
            self.minute,
            self.second,
            offset_seconds,
            pattern,
        )
    }
}

/// chrono's `FixedOffset::east_opt`, `TimeZone::with_ymd_and_hms` and
/// `DateTime::timestamp`: the instant of a local time at a fixed offset.
/// chrono builds the time when the date is on the Gregorian calendar, hour,
/// minute and second are in range, and the offset is within a day; its
/// count of seconds is that of the days since 1970 and of the time of day,
/// less the offset, as `unix_seconds` writes it out.
#[verifier::external_body]
fn local_timestamp(
    year: u16,
    month: u8,
    day: u8,
    hour: u8,
    minute: u8,
    second: u8,
    offset_seconds: i32,
) -> (r: Option<i64>)
    ensures
        r.is_some() == (valid_civil(
            year as int,
            month as int,
            day as int,
            hour as int,
            minute as int,
            second as int,
        ) && valid_offset_seconds(offset_seconds as int)),
        r matches Some(t) ==> t == unix_seconds(
            year as int,
            month as int,
            day as int,
            hour as int,
            minute as int,
            second as int,
            offset_seconds as int,
        ),
{
    let offset = chrono::FixedOffset::east_opt(offset_seconds)?;
    let (y, mo, d) = (i32::from(year), u32::from(month), u32::from(day));
    let (h, mi, s) = (u32::from(hour), u32::from(minute), u32::from(second));
    let local = chrono::TimeZone::with_ymd_and_hms(&offset, y, mo, d, h, mi, s).single()?;
    Some(local.timestamp())
}

/// chrono's `DateTime::format` on a valid local time at an offset of whole
/// minutes, under one of the known patterns. chrono writes the hour, minute,
/// second, month and day zero-padded to two digits, the day without padding
/// under `%-d`, the year zero-padded to four digits or signed where it has
/// more, the month by its English name or the first three letters of it, the
/// offset under `%Z` as its sign, hours and minutes with a colon, and every
/// other character of the pattern as it stands.
#[verifier::external_body]
fn format_local_time(
    year: u16,
    month: u8,
    day: u8,
    hour: u8,
    minute: u8,
    second: u8,
    offset_seconds: i32,
    pattern: &str,
) -> (s: String)
    requires
        valid_civil(
            year as int,
            month as int,
            day as int,
            hour as int,
            minute as int,
            second as int,
        ),
        valid_offset_seconds(offset_seconds as int),
        offset_seconds % 60 == 0,
        known_pattern(pattern@),
    ensures
        s@ == time_text(
            year as int,
            month as int,
            day as int,
            hour as int,
            minute as int,
            second as int,
            offset_seconds as int,
            pattern@,
        ),
{
    let offset = chrono::FixedOffset::east_opt(offset_seconds).unwrap();
    let (y, mo, d) = (i32::from(year), u32::from(month), u32::from(day));
    let (h, mi, s) = (u32::from(hour), u32::from(minute), u32::from(second));
    let local = chrono::TimeZone::with_ymd_and_hms(&offset, y, mo, d, h, mi, s).unwrap();
    local.format(pattern).to_string()
}

/// chrono's `NaiveDate::from_ymd_opt` and `NaiveDate::format` on a date of
/// the calendar, under one of the patterns for dates: chrono fails on an
/// item of the time of day or of the offset where it has only a date. It
/// writes the year zero-padded to four digits, or signed where it has more,
/// the month and the day zero-padded to two digits, the day without padding
/// under `%-d`, the month by its English name or the first three letters of
/// it, and every other character of the pattern as it stands.
#[verifier::external_body]
fn format_naive_date(year: u16, month: u8, day: u8, pattern: &str) -> (s: String)
    requires
        1 <= month <= 12,
        1 <= day <= days_in_month(year as int, month as int),
        date_pattern(pattern@),
    ensures
        s@ == date_text(year as int, month as int, day as int, pattern@),
{
    let date = chrono::NaiveDate::from_ymd_opt(
        i32::from(year),
        u32::from(month),
        u32::from(day),
    ).unwrap();
    date.format(pattern).to_string()
}

} // verus!
