//! The scalar value model: calendar and clock values as fixed-width integer
//! encodings, arbitrary-precision digit arrays, JSON text, and 128-bit type
//! ids. Only the integer encodings matter here; calendar formatting is exact
//! decimal rendering of the split-out fields.
use vstd::prelude::*;
use vstd::arithmetic::div_mod::lemma_fundamental_div_mod_converse;
use vstd::string::StringExecFns;
pub use crate::errors::OutOfRangeError;

verus! {

/// Number of microseconds in one civil day.
pub const MICROS_PER_DAY: u64 = 86_400_000_000;

/// The lowest day number `LocalDate` accepts (`-14712 * 365`).
pub const MIN_LOCAL_DATE_DAYS: i32 = -5_369_880;

/// `MIN_LOCAL_DATE_DAYS * MICROS_PER_DAY`: the lowest microsecond count whose
/// day number is still representable.
pub const MIN_LOCAL_DATETIME_MICROS: i64 = -463_957_632_000_000_000;

/// A 128-bit type id, as the raw big-endian integer value of its 16 bytes.
#[derive(Clone, Copy, Debug, PartialEq, Eq, Structural)]
pub struct Uuid(pub u128);

impl Uuid {
    pub fn from_u128(bits: u128) -> (r: Uuid)
        ensures
            r.0 == bits,
    {
        Uuid(bits)
    }

    pub fn to_u128(self) -> (r: u128)
        ensures
            r == self.0,
    {
        self.0
    }
}

/// A span of time in microseconds; the wire reserves day and month fields
/// that must be zero, so the microsecond count is the whole value.
#[derive(Clone, Copy, Debug, PartialEq, Eq, Structural)]
pub struct Duration {
    micros: i64,
}

impl Duration {
    pub closed spec fn spec_micros(self) -> i64 {
        self.micros
    }

    pub fn from_micros(micros: i64) -> (r: Duration)
        ensures
            r.spec_micros() == micros,
    {
        Duration { micros }
    }

    pub fn to_micros(self) -> (r: i64)
        ensures
            r == self.spec_micros(),
    {
        self.micros
    }

    /// True exactly when the duration is strictly positive.
    pub fn is_positive(&self) -> (r: bool)
        ensures
            r == (self.spec_micros() > 0),
    {
        self.micros > 0
    }

    /// True exactly when the duration is strictly negative.
    pub fn is_negative(&self) -> (r: bool)
        ensures
            r == (self.spec_micros() < 0),
    {
        self.micros < 0
    }

    /// The magnitude of the duration in microseconds; `i64::MIN` negates
    /// exactly into `u64`.
    pub fn abs_micros(&self) -> (r: u64)
        ensures
            self.spec_micros() >= 0 ==> r == self.spec_micros(),
            self.spec_micros() < 0 ==> r as int == -(self.spec_micros() as int),
    {
        if self.micros < 0 {
            (-(self.micros as i128)) as u64
        } else {
            self.micros as u64
        }
    }

    /// The magnitude as the standard library's (unsigned) duration.
    pub fn abs_duration(&self) -> std::time::Duration {
        std_duration_from_micros(self.abs_micros())
    }
}

/// Relies on `core::time::Duration::from_micros`: builds the standard
/// library's duration value for a microsecond count.
#[verifier::external_body]
fn std_duration_from_micros(micros: u64) -> std::time::Duration {
    std::time::Duration::from_micros(micros)
}

/// A calendar timestamp without a time zone: signed microseconds relative to
/// the epoch 2000-01-01 00:00:00.
#[derive(Clone, Copy, Debug, PartialEq, Eq, Structural)]
pub struct LocalDatetime {
    micros: i64,
}

/// A UTC timestamp: signed microseconds relative to 2000-01-01 00:00:00 UTC.
#[derive(Clone, Copy, Debug, PartialEq, Eq, Structural)]
pub struct Datetime {
    micros: i64,
}

/// A calendar date: signed days relative to 2000-01-01.
#[derive(Clone, Copy, Debug, PartialEq, Eq, Structural)]
pub struct LocalDate {
    days: i32,
}

/// A clock time: microseconds since midnight, always below one day.
#[derive(Clone, Copy, Debug, PartialEq, Eq, Structural)]
pub struct LocalTime {
    micros: u64,
}

impl LocalDatetime {
    pub closed spec fn spec_micros(self) -> i64 {
        self.micros
    }

    pub fn from_micros(micros: i64) -> (r: LocalDatetime)
        ensures
            r.spec_micros() == micros,
    {
        LocalDatetime { micros }
    }

    pub fn to_micros(self) -> (r: i64)
        ensures
            r == self.spec_micros(),
    {
        self.micros
    }

    /// The date part: the timestamp's day number, rounding toward minus
    /// infinity.
    pub fn date(self) -> (r: LocalDate)
        requires
            self.spec_micros() >= MIN_LOCAL_DATETIME_MICROS,
        ensures
            r.spec_days() == self.spec_micros() as int / MICROS_PER_DAY as int,
    {
        let (q, _r) = div_mod_floor_day(self.micros);
        LocalDate::from_days(q as i32)
    }

    /// The clock-time part: the timestamp's offset within its day.
    pub fn time(self) -> (r: LocalTime)
        ensures
            r.spec_micros() == self.spec_micros() as int % MICROS_PER_DAY as int,
    {
        let (_q, r) = div_mod_floor_day(self.micros);
        LocalTime::from_micros(r)
    }
}

impl Datetime {
    pub closed spec fn spec_micros(self) -> i64 {
        self.micros
    }

    pub fn from_micros(micros: i64) -> (r: Datetime)
        ensures
            r.spec_micros() == micros,
    {
        Datetime { micros }
    }

    pub fn to_micros(self) -> (r: i64)
        ensures
            r == self.spec_micros(),
    {
        self.micros
    }
}

/// Floor division and remainder of a microsecond count by one day, so that
/// `q * MICROS_PER_DAY + r == x` with `0 <= r < MICROS_PER_DAY`.
fn div_mod_floor_day(x: i64) -> (qr: (i64, u64))
    ensures
        qr.0 == x as int / MICROS_PER_DAY as int,
        qr.1 == x as int % MICROS_PER_DAY as int,
{
    let d: u64 = MICROS_PER_DAY;
    if x >= 0 {
        let q = (x as u64) / d;
        let r = (x as u64) % d;
        (q as i64, r)
    } else {
        let nx: u128 = (-(x as i128)) as u128;
        let qm: u128 = nx / (d as u128);
        let rm: u128 = nx % (d as u128);
        proof {
            vstd::arithmetic::div_mod::lemma_fundamental_div_mod(nx as int, d as int);
            assert(qm < 0x8000_0000) by (nonlinear_arith)
                requires
                    d as int * (qm as int) + rm as int == nx as int,
                    0 <= rm as int,
                    d == 86_400_000_000u64,
                    nx <= 0x8000_0000_0000_0000u128,
            ;
        }
        if rm == 0 {
            let q = -(qm as i64);
            proof {
                assert(q as int * (d as int) + 0 == x as int) by (nonlinear_arith)
                    requires
                        q as int == -(qm as int),
                        d as int * (qm as int) + rm as int == nx as int,
                        rm as int == 0,
                        nx as int == -(x as int),
                ;
                lemma_fundamental_div_mod_converse(x as int, d as int, q as int, 0);
            }
            (q, 0)
        } else {
            let q = -((qm + 1) as i64);
            let r = d - (rm as u64);
            proof {
                assert(q as int * (d as int) + r as int == x as int) by (nonlinear_arith)
                    requires
                        q as int == -(qm as int) - 1,
                        r as int == d as int - rm as int,
                        0 < rm as int,
                        (rm as int) < (d as int),
                        d as int * (qm as int) + rm as int == nx as int,
                        nx as int == -(x as int),
                ;
                lemma_fundamental_div_mod_converse(x as int, d as int, q as int, r as int);
            }
            (q, r)
        }
    }
}

impl LocalTime {
    pub closed spec fn spec_micros(self) -> u64 {
        self.micros
    }

    /// Every value of this type lies within one day.
    pub open spec fn wf(self) -> bool {
        self.spec_micros() < MICROS_PER_DAY
    }

    pub fn try_from_micros(micros: u64) -> (r: Result<LocalTime, OutOfRangeError>)
        ensures
            micros < MICROS_PER_DAY <==> r is Ok,
            r matches Ok(t) ==> t.spec_micros() == micros && t.wf(),
    {
        if micros < MICROS_PER_DAY {
            Ok(LocalTime { micros })
        } else {
            Err(OutOfRangeError)
        }
    }

    pub fn from_micros(micros: u64) -> (r: LocalTime)
        requires
            micros < MICROS_PER_DAY,
        ensures
            r.spec_micros() == micros && r.wf(),
    {
        LocalTime { micros }
    }

    pub fn to_micros(self) -> (r: u64)
        ensures
            r == self.spec_micros(),
    {
        self.micros
    }

    /// The hour, minute, second and microsecond of this clock time.
    pub fn parts(self) -> (r: (u8, u8, u8, u32))
        requires
            self.wf(),
        ensures
            r.0 as int == self.spec_micros() as int / 3_600_000_000,
            r.1 as int == (self.spec_micros() as int / 60_000_000) % 60,
            r.2 as int == (self.spec_micros() as int / 1_000_000) % 60,
            r.3 as int == self.spec_micros() as int % 1_000_000,
            r.0 < 24 && r.1 < 60 && r.2 < 60 && r.3 < 1_000_000,
    {
        let micros = self.micros;
        let microsecond = (micros % 1_000_000) as u32;
        let micros = micros / 1_000_000;
        let second = (micros % 60) as u8;
        let micros = micros / 60;
        let minute = (micros % 60) as u8;
        let micros = micros / 60;
        let hour = (micros % 24) as u8;
        proof {
            let m = self.spec_micros() as int;
            vstd::arithmetic::div_mod::lemma_div_denominator(m, 1_000_000, 60);
            vstd::arithmetic::div_mod::lemma_div_denominator(m, 60_000_000, 60);
            vstd::arithmetic::div_mod::lemma_div_denominator(m, 3_600_000_000, 24);
            assert(m / 3_600_000_000 < 24);
        }
        (hour, minute, second, microsecond)
    }
}

// ---------------------------------------------------------------------------
// Calendar arithmetic: proleptic Gregorian, day numbers relative to
// 2000-01-01 (the 2,483,649th day after -4800-01-01).
// ---------------------------------------------------------------------------
pub open spec fn spec_is_leap_year(y: int) -> bool {
    y % 400 == 0 || (y % 4 == 0 && y % 100 != 0)
}

/// Days before the first of month `m` (1 to 13, where 13 closes the year).
pub open spec fn spec_days_before_month(leap: bool, m: int) -> int
    recommends
        1 <= m <= 13,
{
    let base = if m <= 1 {
        0int
    } else if m == 2 {
        31
    } else if m == 3 {
        59
    } else if m == 4 {
        90
    } else if m == 5 {
        120
    } else if m == 6 {
        151
    } else if m == 7 {
        181
    } else if m == 8 {
        212
    } else if m == 9 {
        243
    } else if m == 10 {
        273
    } else if m == 11 {
        304
    } else if m == 12 {
        334
    } else {
        365
    };
    if leap && m >= 3 {
        base + 1
    } else {
        base
    }
}

/// The year, month and day combinations the calendar accepts.
pub open spec fn spec_ymd_valid(y: int, m: int, d: int) -> bool {
    &&& 1 <= d <= 31
    &&& 1 <= m <= 12
    &&& -4712 <= y <= 5874897
    &&& d - 1 + spec_days_before_month(spec_is_leap_year(y), m) < spec_days_before_month(
        spec_is_leap_year(y),
        m + 1,
    )
}

/// The day number of a calendar date: days lived since -4800-01-01 through
/// whole years, whole months, and days, shifted to the 2000-01-01 epoch.
pub open spec fn spec_days_from_ymd(y: int, m: int, d: int) -> int {
    let py = y + 4799;
    365 * py + py / 4 - py / 100 + py / 400 + 366 + spec_days_before_month(
        spec_is_leap_year(y),
        m,
    ) + (d - 1) - 2_483_649
}

/// The index (0-based) of the month holding day `d` of a year that starts on
/// the first of March.
pub open spec fn spec_march_month_index(d: int) -> int {
    if d >= 337 {
        11int
    } else if d >= 306 {
        10
    } else if d >= 275 {
        9
    } else if d >= 245 {
        8
    } else if d >= 214 {
        7
    } else if d >= 184 {
        6
    } else if d >= 153 {
        5
    } else if d >= 122 {
        4
    } else if d >= 92 {
        3
    } else if d >= 61 {
        2
    } else if d >= 31 {
        1
    } else {
        0
    }
}

/// The first day of the month holding day `d` of a year that starts on the
/// first of March.
pub open spec fn spec_march_month_start(d: int) -> int {
    if d >= 337 {
        337int
    } else if d >= 306 {
        306
    } else if d >= 275 {
        275
    } else if d >= 245 {
        245
    } else if d >= 214 {
        214
    } else if d >= 184 {
        184
    } else if d >= 153 {
        153
    } else if d >= 122 {
        122
    } else if d >= 92 {
        92
    } else if d >= 61 {
        61
    } else if d >= 31 {
        31
    } else {
        0
    }
}

/// The inverse of `spec_days_from_ymd`, mirrored from the executable
/// algorithm: the year, month and day of a day number.
pub open spec fn spec_to_ymd(days0: i32) -> (int, int, int) {
    let days = ((((days0 as i64) + 2_483_589) as u32)) as int;
    let y400 = days / 146097;
    let d1 = days % 146097;
    let y100 = if d1 / 36524 == 4 {
        3int
    } else {
        d1 / 36524
    };
    let d2 = d1 - 36524 * y100;
    let y4 = d2 / 1461;
    let d3 = d2 % 1461;
    let y1 = if d3 / 365 == 4 {
        3int
    } else {
        d3 / 365
    };
    let d4 = d3 - 365 * y1;
    let years = y1 + 4 * y4 + 100 * y100 + 400 * y400;
    let months = years * 12 + 2 + spec_march_month_index(d4);
    let year = months / 12 - 4800;
    let month = months % 12 + 1;
    let day = d4 - spec_march_month_start(d4) + 1;
    (year, month, day)
}

proof fn lemma_mod_shift_multiple(y: int, k: int, m: int)
    requires
        0 < m,
        k % m == 0,
    ensures
        (y + k) % m == y % m,
{
    vstd::arithmetic::div_mod::lemma_add_mod_noop(y, k, m);
    vstd::arithmetic::div_mod::lemma_mod_twice(y, m);
}

impl LocalDate {
    pub closed spec fn spec_days(self) -> i32 {
        self.days
    }

    pub fn from_days(days: i32) -> (r: LocalDate)
        requires
            days >= MIN_LOCAL_DATE_DAYS,
        ensures
            r.spec_days() == days,
    {
        LocalDate { days }
    }

    pub fn to_days(self) -> (r: i32)
        ensures
            r == self.spec_days(),
    {
        self.days
    }

    /// Whether `year` is a leap year.
    pub fn is_leap_year(year: i32) -> (r: bool)
        requires
            -4712 <= year <= 5_874_897,
        ensures
            r == spec_is_leap_year(year as int),
    {
        let shifted = (year + 4800) as u32;
        proof {
            lemma_mod_shift_multiple(year as int, 4800, 400);
            lemma_mod_shift_multiple(year as int, 4800, 100);
            lemma_mod_shift_multiple(year as int, 4800, 4);
        }
        shifted % 400 == 0 || (shifted % 4 == 0 && shifted % 100 != 0)
    }

    /// Days before the first of month `m`, months 1 to 13.
    fn days_before_month(leap: bool, m: u8) -> (r: u32)
        requires
            1 <= m <= 13,
        ensures
            r == spec_days_before_month(leap, m as int),
    {
        let base: u32 = match m {
            1 => 0,
            2 => 31,
            3 => 59,
            4 => 90,
            5 => 120,
            6 => 151,
            7 => 181,
            8 => 212,
            9 => 243,
            10 => 273,
            11 => 304,
            12 => 334,
            _ => 365,
        };
        if leap && m >= 3 {
            base + 1
        } else {
            base
        }
    }

    /// Builds the date for a calendar year, month and day, or rejects a
    /// combination the calendar does not contain.
    pub fn try_from_ymd(year: i32, month: u8, day: u8) -> (r: Result<LocalDate, OutOfRangeError>)
        ensures
            r is Ok <==> spec_ymd_valid(year as int, month as int, day as int),
            r matches Ok(d) ==> d.spec_days() == spec_days_from_ymd(
                year as int,
                month as int,
                day as int,
            ),
    {
        if day < 1 || day > 31 {
            return Err(OutOfRangeError);
        }
        if month < 1 || month > 12 {
            return Err(OutOfRangeError);
        }
        if year < -4712 || year > 5874897 {
            return Err(OutOfRangeError);
        }
        let leap = Self::is_leap_year(year);
        let before_m = Self::days_before_month(leap, month);
        let before_next = Self::days_before_month(leap, month + 1);
        let day_in_year = (day - 1) as u32 + before_m;
        if day_in_year >= before_next {
            return Err(OutOfRangeError);
        }
        let py = (year + 4799) as u32;
        proof {
            vstd::arithmetic::div_mod::lemma_div_is_ordered(py as int, 5_879_696, 4);
            vstd::arithmetic::div_mod::lemma_div_is_ordered(0, py as int, 4);
            vstd::arithmetic::div_mod::lemma_div_is_ordered(0, py as int, 100);
            vstd::arithmetic::div_mod::lemma_div_is_ordered(py as int / 100, py as int, 1);
            vstd::arithmetic::div_mod::lemma_div_is_ordered(0, py as int, 400);
            vstd::arithmetic::div_mod::lemma_div_is_ordered(py as int, 5_879_696, 400);
        }
        let quarter = py / 4;
        let century = py / 100;
        let quadcentury = py / 400;
        proof {
            assert(century * 100 <= py && 365 * py >= century * 100) by (nonlinear_arith)
                requires
                    century == py as int / 100,
                    0 <= py,
            ;
        }
        let days_from_year = 365 * py + quarter - century + quadcentury + 366;
        let total = days_from_year + day_in_year;
        let days = (total as i64) - 2_483_649;
        Ok(LocalDate { days: days as i32 })
    }

    /// The calendar year, month and day of this date, by the inverse of the
    /// day-number computation: whole 400-, 100-, 4- and 1-year spans counted
    /// from -4800-03-01, then the month found in a March-first year.
    pub fn to_ymd(self) -> (r: (i32, u8, u8))
        ensures
            r.0 == spec_to_ymd(self.spec_days()).0,
            r.1 == spec_to_ymd(self.spec_days()).1,
            r.2 == spec_to_ymd(self.spec_days()).2,
    {
        let days: u32 = #[verifier::truncate] (((self.days as i64) + 2_483_589) as u32);
        let y400 = days / 146097;
        let d1 = days % 146097;
        let y100a = d1 / 36524;
        let y100 = if y100a == 4 {
            3
        } else {
            y100a
        };
        proof {
            vstd::arithmetic::div_mod::lemma_fundamental_div_mod(d1 as int, 36524);
        }
        let d2 = d1 - 36524 * y100;
        let y4 = d2 / 1461;
        let d3 = d2 % 1461;
        let y1a = d3 / 365;
        let y1 = if y1a == 4 {
            3
        } else {
            y1a
        };
        proof {
            vstd::arithmetic::div_mod::lemma_fundamental_div_mod(d3 as int, 365);
        }
        let d4 = d3 - 365 * y1;
        let years = y1 + 4 * y4 + 100 * y100 + 400 * y400;
        let (idx, start) = Self::march_month_entry(d4);
        let months = years * 12 + 2 + idx;
        let year = (months / 12) as i32 - 4800;
        let month = (months % 12 + 1) as u8;
        let day = (d4 - start + 1) as u8;
        (year, month, day)
    }

    /// The index and first day of the month holding day `d` of a year that
    /// starts on the first of March.
    fn march_month_entry(d: u32) -> (r: (u32, u32))
        requires
            d <= 365,
        ensures
            r.0 == spec_march_month_index(d as int),
            r.1 == spec_march_month_start(d as int),
    {
        if d >= 337 {
            (11, 337)
        } else if d >= 306 {
            (10, 306)
        } else if d >= 275 {
            (9, 275)
        } else if d >= 245 {
            (8, 245)
        } else if d >= 214 {
            (7, 214)
        } else if d >= 184 {
            (6, 184)
        } else if d >= 153 {
            (5, 153)
        } else if d >= 122 {
            (4, 122)
        } else if d >= 92 {
            (3, 92)
        } else if d >= 61 {
            (2, 61)
        } else if d >= 31 {
            (1, 31)
        } else {
            (0, 0)
        }
    }

    /// Builds the date for a calendar year, month and day that is known to be
    /// valid.
    pub fn from_ymd(year: i32, month: u8, day: u8) -> (r: LocalDate)
        requires
            spec_ymd_valid(year as int, month as int, day as int),
        ensures
            r.spec_days() == spec_days_from_ymd(year as int, month as int, day as int),
    {
        match Self::try_from_ymd(year, month, day) {
            Ok(date) => date,
            Err(..) => LocalDate { days: 0 },  // never taken: the requires rules the inputs in
        }
    }
}

// ---------------------------------------------------------------------------
// Exact decimal rendering, for the human-readable forms of the calendar and
// clock values.
// ---------------------------------------------------------------------------
pub open spec fn spec_digit_char(d: int) -> char {
    if d == 0 {
        '0'
    } else if d == 1 {
        '1'
    } else if d == 2 {
        '2'
    } else if d == 3 {
        '3'
    } else if d == 4 {
        '4'
    } else if d == 5 {
        '5'
    } else if d == 6 {
        '6'
    } else if d == 7 {
        '7'
    } else if d == 8 {
        '8'
    } else {
        '9'
    }
}

pub open spec fn spec_zeros(w: int) -> Seq<char> {
    if w > 0 {
        Seq::new(w as nat, |i: int| '0')
    } else {
        Seq::empty()
    }
}

/// The decimal digits of `n`, left-padded with zeros to width `w`.
pub open spec fn spec_udec_pad(n: nat, w: int) -> Seq<char>
    decreases n,
{
    let digit = seq![spec_digit_char((n % 10) as int)];
    if n < 10 {
        spec_zeros(w - 1) + digit
    } else {
        spec_udec_pad(n / 10, w - 1) + digit
    }
}

proof fn lemma_udec_pad_nonpos(n: nat, w1: int, w2: int)
    requires
        w1 <= 0,
        w2 <= 0,
    ensures
        spec_udec_pad(n, w1) == spec_udec_pad(n, w2),
    decreases n,
{
    if n >= 10 {
        lemma_udec_pad_nonpos(n / 10, w1 - 1, w2 - 1);
    } else {
        assert(spec_zeros(w1 - 1) =~= spec_zeros(w2 - 1));
    }
}

fn digit_str(d: u64) -> (r: &'static str)
    requires
        d < 10,
    ensures
        r@ == seq![spec_digit_char(d as int)],
{
    proof {
        reveal_strlit("0");
        reveal_strlit("1");
        reveal_strlit("2");
        reveal_strlit("3");
        reveal_strlit("4");
        reveal_strlit("5");
        reveal_strlit("6");
        reveal_strlit("7");
        reveal_strlit("8");
        reveal_strlit("9");
        assert("0"@ =~= seq!['0']);
        assert("1"@ =~= seq!['1']);
        assert("2"@ =~= seq!['2']);
        assert("3"@ =~= seq!['3']);
        assert("4"@ =~= seq!['4']);
        assert("5"@ =~= seq!['5']);
        assert("6"@ =~= seq!['6']);
        assert("7"@ =~= seq!['7']);
        assert("8"@ =~= seq!['8']);
        assert("9"@ =~= seq!['9']);
    }
    match d {
        0 => "0",
        1 => "1",
        2 => "2",
        3 => "3",
        4 => "4",
        5 => "5",
        6 => "6",
        7 => "7",
        8 => "8",
        _ => "9",
    }
}

fn append_zeros(s: &mut String, w: usize)
    ensures
        final(s)@ == old(s)@ + spec_zeros(w as int),
{
    let mut i: usize = 0;
    while i < w
        invariant
            i <= w,
            s@ == old(s)@ + spec_zeros(i as int),
        decreases w - i,
    {
        s.append("0");
        i = i + 1;
        proof {
            reveal_strlit("0");
            assert("0"@ =~= seq!['0']);
            assert(old(s)@ + spec_zeros(i - 1) + "0"@ =~= old(s)@ + spec_zeros(i as int));
        }
    }
    proof {
        assert(s@ =~= old(s)@ + spec_zeros(w as int));
    }
}

/// Appends the decimal digits of `n`, left-padded with zeros to width `w`.
fn append_udec_pad(s: &mut String, n: u64, w: usize)
    ensures
        final(s)@ == old(s)@ + spec_udec_pad(n as nat, w as int),
    decreases n,
{
    if n < 10 {
        if w > 1 {
            append_zeros(s, w - 1);
        }
        let ds = digit_str(n);
        s.append(ds);
        proof {
            assert(s@ =~= old(s)@ + spec_udec_pad(n as nat, w as int));
        }
    } else {
        let w1: usize = if w > 0 {
            w - 1
        } else {
            0
        };
        append_udec_pad(s, n / 10, w1);
        let ds = digit_str(n % 10);
        s.append(ds);
        proof {
            if w == 0 {
                lemma_udec_pad_nonpos((n / 10) as nat, 0, -1);
            }
            assert(s@ =~= old(s)@ + spec_udec_pad(n as nat, w as int));
        }
    }
}

/// The exact text form of a clock time: `hh:mm:ss`, with the microseconds
/// appended as three digits when they are a whole millisecond count and six
/// digits otherwise.
pub open spec fn spec_local_time_str(m: u64) -> Seq<char> {
    let hour = m as int / 3_600_000_000;
    let minute = (m as int / 60_000_000) % 60;
    let second = (m as int / 1_000_000) % 60;
    let micro = m as int % 1_000_000;
    let base = spec_udec_pad(hour as nat, 2) + ":"@ + spec_udec_pad(minute as nat, 2) + ":"@
        + spec_udec_pad(second as nat, 2);
    if micro == 0 {
        base
    } else if micro % 1000 == 0 {
        base + "."@ + spec_udec_pad((micro / 1000) as nat, 3)
    } else {
        base + "."@ + spec_udec_pad(micro as nat, 6)
    }
}

/// The exact text form of a date: `yyyy-mm-dd`, a `+` ahead of years above
/// ten thousand, and a `-` with four year digits for negative years.
pub open spec fn spec_local_date_str(days: i32) -> Seq<char> {
    let y = spec_to_ymd(days).0;
    let m = spec_to_ymd(days).1;
    let d = spec_to_ymd(days).2;
    let md = "-"@ + spec_udec_pad(m as nat, 2) + "-"@ + spec_udec_pad(d as nat, 2);
    if y > 10_000 {
        "+"@ + spec_udec_pad(y as nat, 4) + md
    } else if y >= 0 {
        spec_udec_pad(y as nat, 4) + md
    } else {
        "-"@ + spec_udec_pad((-y) as nat, 4) + md
    }
}

impl LocalTime {
    /// The exact text of this clock time.
    pub fn to_debug_string(&self) -> (r: String)
        requires
            self.wf(),
        ensures
            r@ == spec_local_time_str(self.spec_micros()),
    {
        let (h, mi, se, us) = self.parts();
        let mut s = String::new();
        append_udec_pad(&mut s, h as u64, 2);
        s.append(":");
        append_udec_pad(&mut s, mi as u64, 2);
        s.append(":");
        append_udec_pad(&mut s, se as u64, 2);
        if us != 0 {
            if us % 1000 == 0 {
                s.append(".");
                append_udec_pad(&mut s, (us / 1000) as u64, 3);
            } else {
                s.append(".");
                append_udec_pad(&mut s, us as u64, 6);
            }
        }
        proof {
            assert(s@ =~= spec_local_time_str(self.spec_micros()));
        }
        s
    }

    /// The display form equals the exact text form.
    pub fn to_display_string(&self) -> (r: String)
        requires
            self.wf(),
        ensures
            r@ == spec_local_time_str(self.spec_micros()),
    {
        self.to_debug_string()
    }
}

impl LocalDate {
    /// The exact text of this date.
    pub fn to_debug_string(&self) -> (r: String)
        ensures
            r@ == spec_local_date_str(self.spec_days()),
    {
        let (y, m, d) = self.to_ymd();
        let mut s = String::new();
        if y > 10_000 {
            s.append("+");
        }
        if y >= 0 {
            append_udec_pad(&mut s, y as u64, 4);
        } else {
            s.append("-");
            append_udec_pad(&mut s, (-(y as i64)) as u64, 4);
        }
        s.append("-");
        append_udec_pad(&mut s, m as u64, 2);
        s.append("-");
        append_udec_pad(&mut s, d as u64, 2);
        proof {
            assert(s@ =~= spec_local_date_str(self.spec_days()));
        }
        s
    }

    /// The display form equals the exact text form.
    pub fn to_display_string(&self) -> (r: String)
        ensures
            r@ == spec_local_date_str(self.spec_days()),
    {
        self.to_debug_string()
    }
}

/// The exact text of a timestamp: its date and clock time joined by `sep`.
pub open spec fn spec_local_datetime_str(micros: i64, sep: Seq<char>) -> Seq<char> {
    spec_local_date_str((micros as int / MICROS_PER_DAY as int) as i32) + sep
        + spec_local_time_str((micros as int % MICROS_PER_DAY as int) as u64)
}

impl LocalDatetime {
    /// The exact text of this timestamp, the date and time joined by `T`.
    pub fn to_debug_string(&self) -> (r: String)
        requires
            self.spec_micros() >= MIN_LOCAL_DATETIME_MICROS,
        ensures
            r@ == spec_local_datetime_str(self.spec_micros(), "T"@),
    {
        let mut s = self.date().to_debug_string();
        s.append("T");
        let t = self.time().to_debug_string();
        s.append(t.as_str());
        proof {
            assert(s@ =~= spec_local_datetime_str(self.spec_micros(), "T"@));
        }
        s
    }

    /// The display text of this timestamp, the date and time joined by a
    /// space.
    pub fn to_display_string(&self) -> (r: String)
        requires
            self.spec_micros() >= MIN_LOCAL_DATETIME_MICROS,
        ensures
            r@ == spec_local_datetime_str(self.spec_micros(), " "@),
    {
        let mut s = self.date().to_debug_string();
        s.append(" ");
        let t = self.time().to_debug_string();
        s.append(t.as_str());
        proof {
            assert(s@ =~= spec_local_datetime_str(self.spec_micros(), " "@));
        }
        s
    }
}

impl Datetime {
    /// The exact text of this UTC timestamp: the timestamp text and `Z`.
    pub fn to_debug_string(&self) -> (r: String)
        requires
            self.spec_micros() >= MIN_LOCAL_DATETIME_MICROS,
        ensures
            r@ == spec_local_datetime_str(self.spec_micros(), "T"@) + "Z"@,
    {
        let mut s = LocalDatetime::from_micros(self.micros).to_debug_string();
        s.append("Z");
        s
    }

    /// The display text of this UTC timestamp: the timestamp text and ` UTC`.
    pub fn to_display_string(&self) -> (r: String)
        requires
            self.spec_micros() >= MIN_LOCAL_DATETIME_MICROS,
        ensures
            r@ == spec_local_datetime_str(self.spec_micros(), " "@) + " UTC"@,
    {
        let mut s = LocalDatetime::from_micros(self.micros).to_display_string();
        s.append(" UTC");
        s
    }
}

/// A digit array integer: sign, base-10000 digits, and the weight (the power
/// of 10000 of the first digit).
#[derive(Clone, Debug, PartialEq, Eq)]
pub struct BigInt {
    pub negative: bool,
    pub weight: i16,
    pub digits: Vec<u16>,
}

/// A digit array decimal: a `BigInt` layout plus the count of decimal digits
/// after the point.
#[derive(Clone, Debug, PartialEq, Eq)]
pub struct Decimal {
    pub negative: bool,
    pub weight: i16,
    pub decimal_digits: u16,
    pub digits: Vec<u16>,
}

/// JSON text that the caller asserts is well-formed; this layer only carries
/// it and frames it with the 1-byte format tag.
#[derive(Clone, Debug, PartialEq, Eq)]
pub struct Json {
    text: String,
}

impl Json {
    pub closed spec fn spec_text(&self) -> Seq<char> {
        self.text@
    }

    pub fn new_unchecked(text: String) -> (r: Json)
        ensures
            r.spec_text() == text@,
    {
        Json { text }
    }

    pub fn text(&self) -> (r: &String)
        ensures
            r@ == self.spec_text(),
    {
        &self.text
    }
}

// ---------------------------------------------------------------------------
// Mathematical views: each calendar value is the integer it wraps.
// ---------------------------------------------------------------------------
impl View for Duration {
    type V = i64;

    open spec fn view(&self) -> i64 {
        self.spec_micros()
    }
}

impl DeepView for Duration {
    type V = i64;

    open spec fn deep_view(&self) -> i64 {
        self.spec_micros()
    }
}

impl View for LocalDatetime {
    type V = i64;

    open spec fn view(&self) -> i64 {
        self.spec_micros()
    }
}

impl DeepView for LocalDatetime {
    type V = i64;

    open spec fn deep_view(&self) -> i64 {
        self.spec_micros()
    }
}

impl View for Datetime {
    type V = i64;

    open spec fn view(&self) -> i64 {
        self.spec_micros()
    }
}

impl DeepView for Datetime {
    type V = i64;

    open spec fn deep_view(&self) -> i64 {
        self.spec_micros()
    }
}

impl View for LocalDate {
    type V = i32;

    open spec fn view(&self) -> i32 {
        self.spec_days()
    }
}

impl DeepView for LocalDate {
    type V = i32;

    open spec fn deep_view(&self) -> i32 {
        self.spec_days()
    }
}

impl View for LocalTime {
    type V = u64;

    open spec fn view(&self) -> u64 {
        self.spec_micros()
    }
}

impl DeepView for LocalTime {
    type V = u64;

    open spec fn deep_view(&self) -> u64 {
        self.spec_micros()
    }
}

impl View for Uuid {
    type V = u128;

    open spec fn view(&self) -> u128 {
        self.0
    }
}

impl DeepView for Uuid {
    type V = u128;

    open spec fn deep_view(&self) -> u128 {
        self.0
    }
}

impl View for Json {
    type V = Seq<char>;

    open spec fn view(&self) -> Seq<char> {
        self.spec_text()
    }
}

impl DeepView for Json {
    type V = Seq<char>;

    open spec fn deep_view(&self) -> Seq<char> {
        self.spec_text()
    }
}

impl DeepView for BigInt {
    type V = crate::value::BigIntV;

    open spec fn deep_view(&self) -> crate::value::BigIntV {
        self@
    }
}

impl DeepView for Decimal {
    type V = crate::value::DecimalV;

    open spec fn deep_view(&self) -> crate::value::DecimalV {
        self@
    }
}

} // verus!
