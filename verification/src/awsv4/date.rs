//! UTC date-times and their compact textual forms (`%Y%m%dT%H%M%SZ` and
//! `%Y%m%d` in strftime notation, as chrono renders them).

use vstd::prelude::*;
use vstd::string::*;

verus! {

/// Smallest year a date can carry (the range chrono supports).
pub const MIN_YEAR: i32 = -262144;

/// Largest year a date can carry (the range chrono supports).
pub const MAX_YEAR: i32 = 262143;

/// Leap years of the proleptic Gregorian calendar.
pub open spec fn is_leap_year(year: int) -> bool {
    year % 4 == 0 && (year % 100 != 0 || year % 400 == 0)
}

/// Number of days in `month` (1 to 12) of `year`.
pub open spec fn days_in_month(year: int, month: int) -> int {
    if month == 2 {
        if is_leap_year(year) { 29 } else { 28 }
    } else if month == 4 || month == 6 || month == 9 || month == 11 {
        30
    } else {
        31
    }
}

/// A calendar date and a wall-clock time, field by field.
pub struct Civil {
    pub year: int,
    pub month: int,
    pub day: int,
    pub hour: int,
    pub minute: int,
    pub second: int,
}

/// The fields name an existing instant: a day of a month, an hour, a minute
/// and a second, where second 60 stands for a leap second.
pub open spec fn valid_civil(c: Civil) -> bool {
    &&& MIN_YEAR <= c.year <= MAX_YEAR
    &&& 1 <= c.month <= 12
    &&& 1 <= c.day <= days_in_month(c.year, c.month)
    &&& 0 <= c.hour < 24
    &&& 0 <= c.minute < 60
    &&& 0 <= c.second <= 60
}

/// The `Civil` value with the given fields.
pub open spec fn civil(year: int, month: int, day: int, hour: int, minute: int, second: int) -> Civil {
    Civil { year, month, day, hour, minute, second }
}

/// A UTC date-time with one-second resolution.
pub struct Date {
    year: i32,
    month: u8,
    day: u8,
    hour: u8,
    minute: u8,
    second: u8,
}

impl View for Date {
    type V = Civil;

    closed spec fn view(&self) -> Civil {
        Civil {
            year: self.year as int,
            month: self.month as int,
            day: self.day as int,
            hour: self.hour as int,
            minute: self.minute as int,
            second: self.second as int,
        }
    }
}

impl Date {
    #[verifier::type_invariant]
    spec fn well_formed(self) -> bool {
        valid_civil(self@)
    }

    /// The date-time with the given fields, or `None` where they name no
    /// instant (month 13, February 30, hour 24, ...).
    pub fn from_ymd_hms(year: i32, month: u32, day: u32, hour: u32, minute: u32, second: u32) -> (r:
        Option<Date>)
        ensures
            r is Some <==> valid_civil(
                civil(year as int, month as int, day as int, hour as int, minute as int, second as int),
            ),
            r matches Some(d) ==> d@ == civil(
                year as int,
                month as int,
                day as int,
                hour as int,
                minute as int,
                second as int,
            ),
    {
        if year < MIN_YEAR || year > MAX_YEAR || month < 1 || month > 12 || day < 1 || hour >= 24
            || minute >= 60 || second > 60 {
            return None;
        }
        if day > month_length(year, month) {
            return None;
        }
        Some(
            Date {
                year,
                month: month as u8,
                day: day as u8,
                hour: hour as u8,
                minute: minute as u8,
                second: second as u8,
            },
        )
    }

    /// The year.
    pub fn year(&self) -> (y: i32)
        ensures
            y == self@.year,
            valid_civil(self@),
    {
        proof {
            use_type_invariant(self);
        }
        self.year
    }

    /// The month, 1 to 12.
    pub fn month(&self) -> (m: u32)
        ensures
            m == self@.month,
            valid_civil(self@),
    {
        proof {
            use_type_invariant(self);
        }
        self.month as u32
    }

    /// The day of the month, from 1.
    pub fn day(&self) -> (d: u32)
        ensures
            d == self@.day,
            valid_civil(self@),
    {
        proof {
            use_type_invariant(self);
        }
        self.day as u32
    }

    /// The hour, 0 to 23.
    pub fn hour(&self) -> (h: u32)
        ensures
            h == self@.hour,
            valid_civil(self@),
    {
        proof {
            use_type_invariant(self);
        }
        self.hour as u32
    }

    /// The minute, 0 to 59.
    pub fn minute(&self) -> (m: u32)
        ensures
            m == self@.minute,
            valid_civil(self@),
    {
        proof {
            use_type_invariant(self);
        }
        self.minute as u32
    }

    /// The second, 0 to 60 (60 for a leap second).
    pub fn second(&self) -> (s: u32)
        ensures
            s == self@.second,
            valid_civil(self@),
    {
        proof {
            use_type_invariant(self);
        }
        self.second as u32
    }
}

/// Days in `month` of `year`, for a year in range and a month from 1 to 12.
fn month_length(year: i32, month: u32) -> (n: u32)
    requires
        MIN_YEAR <= year <= MAX_YEAR,
        1 <= month <= 12,
    ensures
        n == days_in_month(year as int, month as int),
{
    if month == 2 {
        // Shifting by a multiple of 400 keeps the leap-year pattern and makes
        // the year non-negative.
        let shifted: u32 = (year as i64 + 400000) as u32;
        assert(is_leap_year(year as int) == is_leap_year(shifted as int)) by {
            assert(shifted as int == year as int + 1000 * 400);
        }
        if shifted % 4 == 0 && (shifted % 100 != 0 || shifted % 400 == 0) {
            29
        } else {
            28
        }
    } else if month == 4 || month == 6 || month == 9 || month == 11 {
        30
    } else {
        31
    }
}

/// The decimal digit character for a value below 10.
pub open spec fn digit_char(d: int) -> char {
    ('0' as int + d) as char
}

/// Whether `c` is one of `0` to `9`.
pub open spec fn is_digit_char(c: char) -> bool {
    '0' <= c && c <= '9'
}

/// The decimal digits of `n`, left-padded with zeros to at least `width`
/// characters (no digits at all for zero at width zero).
pub open spec fn decimal(n: nat, width: nat) -> Seq<char>
    decreases n, width,
{
    if n == 0 && width == 0 {
        seq![]
    } else {
        decimal(n / 10, if width > 0 { (width - 1) as nat } else { 0 }).push(digit_char((n % 10) as int))
    }
}

/// A year as chrono's `%Y` writes it: four zero-padded digits for years 0 to
/// 9999, otherwise a sign and at least four digits.
pub open spec fn year_text(year: int) -> Seq<char> {
    if 0 <= year <= 9999 {
        decimal(year as nat, 4)
    } else if year < 0 {
        seq!['-'] + decimal((-year) as nat, 4)
    } else {
        seq!['+'] + decimal(year as nat, 4)
    }
}

/// `%Y%m%d`: year, two-digit month, two-digit day.
pub open spec fn compact_date(c: Civil) -> Seq<char> {
    year_text(c.year) + decimal(c.month as nat, 2) + decimal(c.day as nat, 2)
}

/// `%H%M%S`: two digits each for hour, minute and second.
pub open spec fn compact_time(c: Civil) -> Seq<char> {
    decimal(c.hour as nat, 2) + decimal(c.minute as nat, 2) + decimal(c.second as nat, 2)
}

/// `%Y%m%dT%H%M%SZ`: the date, `T`, the time, `Z`.
pub open spec fn compact_timestamp(c: Civil) -> Seq<char> {
    compact_date(c) + seq!['T'] + compact_time(c) + seq!['Z']
}

/// The one-character string for a decimal digit.
fn digit_str(d: u32) -> (s: &'static str)
    requires
        d < 10,
    ensures
        s@ == seq![digit_char(d as int)],
{
    proof {
        reveal_strlit("0");
        reveal_strlit("1");
        reveal_strlit("2");
        reveal_strlit("3");
        reveal_strlit("4");
        reveal_strlit("5");
        reveal_strlit("6");
        reveal_strlit("7");
        reveal_strlit("8");
        reveal_strlit("9");
    }
    match d {
        0 => "0",
        1 => "1",
        2 => "2",
        3 => "3",
        4 => "4",
        5 => "5",
        6 => "6",
        7 => "7",
        8 => "8",
        _ => "9",
    }
}

/// Appends the digits of `n`, zero-padded to at least `width`.
fn push_decimal(out: &mut String, n: u32, width: u32)
    ensures
        final(out)@ == old(out)@ + decimal(n as nat, width as nat),
    decreases n, width,
{
    if n == 0 && width == 0 {
        assert(decimal(0, 0) =~= seq![]);
        assert(out@ =~= out@ + decimal(0, 0));
        return;
    }
    let w: u32 = if width > 0 { width - 1 } else { 0 };
    push_decimal(out, n / 10, w);
    out.append(digit_str(n % 10));
    assert(out@ =~= old(out)@ + decimal(n as nat, width as nat));
}

/// Appends `%Y` of `year`.
fn push_year(out: &mut String, year: i32)
    ensures
        final(out)@ == old(out)@ + year_text(year as int),
{
    if 0 <= year && year <= 9999 {
        push_decimal(out, year as u32, 4);
    } else if year < 0 {
        proof {
            reveal_strlit("-");
        }
        out.append("-");
        push_decimal(out, (-(year as i64)) as u32, 4);
        assert(out@ =~= old(out)@ + year_text(year as int));
    } else {
        proof {
            reveal_strlit("+");
        }
        out.append("+");
        push_decimal(out, year as u32, 4);
        assert(out@ =~= old(out)@ + year_text(year as int));
    }
}

/// Compact textual forms of a timestamp.
pub trait DateFormatting {
    /// `%Y%m%dT%H%M%SZ`, such as `20240131T235959Z`.
    fn format_yyyymmddthhmmssz(&self) -> String;

    /// `%Y%m%d`, such as `20240131`.
    fn format_yyyymmdd(&self) -> String;
}

impl Date {
    fn push_compact_date(&self, out: &mut String)
        ensures
            final(out)@ == old(out)@ + compact_date(self@),
    {
        push_year(out, self.year);
        push_decimal(out, self.month as u32, 2);
        push_decimal(out, self.day as u32, 2);
        assert(out@ =~= old(out)@ + compact_date(self@));
    }
}

impl DateFormatting for Date {
    fn format_yyyymmddthhmmssz(&self) -> (text: String)
        ensures
            text@ == compact_timestamp(self@),
    {
        let mut out = String::new();
        self.push_compact_date(&mut out);
        proof {
            reveal_strlit("T");
            reveal_strlit("Z");
        }
        out.append("T");
        push_decimal(&mut out, self.hour as u32, 2);
        push_decimal(&mut out, self.minute as u32, 2);
        push_decimal(&mut out, self.second as u32, 2);
        out.append("Z");
        assert(out@ =~= compact_timestamp(self@));
        out
    }

    fn format_yyyymmdd(&self) -> (text: String)
        ensures
            text@ == compact_date(self@),
    {
        let mut out = String::new();
        self.push_compact_date(&mut out);
        assert(out@ =~= compact_date(self@));
        out
    }
}

/// Ten to the power `w`.
pub open spec fn pow10(w: nat) -> nat
    decreases w,
{
    if w == 0 { 1 } else { 10 * pow10((w - 1) as nat) }
}

/// A number below `10^w` is written in exactly `w` digits.
pub proof fn lemma_decimal_len(n: nat, w: nat)
    requires
        n < pow10(w),
    ensures
        decimal(n, w).len() == w,
    decreases w,
{
    if w > 0 {
        lemma_decimal_len(n / 10, (w - 1) as nat);
    }
}

/// The digits are all decimal digit characters.
pub proof fn lemma_decimal_digits(n: nat, w: nat)
    ensures
        forall|i: int| 0 <= i < decimal(n, w).len() ==> is_digit_char(#[trigger] decimal(n, w)[i]),
        decimal(n, w).len() >= w,
    decreases n, w,
{
    if !(n == 0 && w == 0) {
        let w1: nat = if w > 0 { (w - 1) as nat } else { 0 };
        lemma_decimal_digits(n / 10, w1);
        let inner = decimal(n / 10, w1);
        assert forall|i: int| 0 <= i < decimal(n, w).len() implies is_digit_char(
            #[trigger] decimal(n, w)[i],
        ) by {
            if i < inner.len() {
                assert(decimal(n, w)[i] == inner[i]);
            }
        }
    }
}

/// Two numbers with the same zero-padded digits are equal.
pub proof fn lemma_decimal_injective(a: nat, b: nat, w: nat)
    requires
        decimal(a, w) == decimal(b, w),
    ensures
        a == b,
    decreases a + b,
{
    if a != b {
        let w1: nat = if w > 0 { (w - 1) as nat } else { 0 };
        if a == 0 && w == 0 {
            assert(decimal(b, w).len() > 0);
        } else if b == 0 && w == 0 {
            assert(decimal(a, w).len() > 0);
        } else {
            let da = decimal(a, w);
            let db = decimal(b, w);
            assert(da.last() == digit_char((a % 10) as int));
            assert(db.last() == digit_char((b % 10) as int));
            assert(da.drop_last() =~= decimal(a / 10, w1));
            assert(db.drop_last() =~= decimal(b / 10, w1));
            lemma_decimal_injective(a / 10, b / 10, w1);
        }
    }
}

/// A year's text determines the year.
pub proof fn lemma_year_text_injective(y1: int, y2: int)
    requires
        year_text(y1) == year_text(y2),
    ensures
        y1 == y2,
{
    let t = year_text(y1);
    if 0 <= y1 <= 9999 {
        lemma_decimal_digits(y1 as nat, 4);
        assert(is_digit_char(t[0]));
    } else if y1 < 0 {
        assert(t[0] == '-');
    } else {
        assert(t[0] == '+');
    }
    if 0 <= y2 <= 9999 {
        lemma_decimal_digits(y2 as nat, 4);
        assert(is_digit_char(year_text(y2)[0]));
    } else if y2 < 0 {
        assert(year_text(y2)[0] == '-');
    } else {
        assert(year_text(y2)[0] == '+');
    }
    if 0 <= y1 <= 9999 {
        lemma_decimal_injective(y1 as nat, y2 as nat, 4);
    } else if y1 < 0 {
        assert(t.drop_first() =~= decimal((-y1) as nat, 4));
        assert(year_text(y2).drop_first() =~= decimal((-y2) as nat, 4));
        lemma_decimal_injective((-y1) as nat, (-y2) as nat, 4);
    } else {
        assert(t.drop_first() =~= decimal(y1 as nat, 4));
        assert(year_text(y2).drop_first() =~= decimal(y2 as nat, 4));
        lemma_decimal_injective(y1 as nat, y2 as nat, 4);
    }
}

/// Splits a compact timestamp into the year text and the twelve characters
/// that follow it.
proof fn lemma_timestamp_parts(c: Civil)
    requires
        valid_civil(c),
    ensures
        compact_timestamp(c) =~= year_text(c.year) + decimal(c.month as nat, 2) + decimal(
            c.day as nat,
            2,
        ) + seq!['T'] + decimal(c.hour as nat, 2) + decimal(c.minute as nat, 2) + decimal(
            c.second as nat,
            2,
        ) + seq!['Z'],
        decimal(c.month as nat, 2).len() == 2,
        decimal(c.day as nat, 2).len() == 2,
        decimal(c.hour as nat, 2).len() == 2,
        decimal(c.minute as nat, 2).len() == 2,
        decimal(c.second as nat, 2).len() == 2,
{
    assert(pow10(2) == 100) by {
        reveal_with_fuel(pow10, 3);
    }
    lemma_decimal_len(c.month as nat, 2);
    lemma_decimal_len(c.day as nat, 2);
    lemma_decimal_len(c.hour as nat, 2);
    lemma_decimal_len(c.minute as nat, 2);
    lemma_decimal_len(c.second as nat, 2);
}

/// The `%Y%m%dT%H%M%SZ` form of a date-time begins with its `%Y%m%d` form.
pub proof fn lemma_timestamp_extends_date(c: Civil)
    ensures
        compact_date(c).is_prefix_of(compact_timestamp(c)),
{
    assert(compact_timestamp(c).subrange(0, compact_date(c).len() as int) =~= compact_date(c));
}

/// Distinct date-times have distinct `%Y%m%dT%H%M%SZ` forms: the text names
/// the instant.
pub proof fn lemma_timestamp_injective(a: Civil, b: Civil)
    requires
        valid_civil(a),
        valid_civil(b),
        compact_timestamp(a) == compact_timestamp(b),
    ensures
        a == b,
{
    lemma_timestamp_parts(a);
    lemma_timestamp_parts(b);
    let t = compact_timestamp(a);
    let ya = year_text(a.year);
    let yb = year_text(b.year);
    assert(ya.len() == yb.len());
    let k = ya.len() as int;
    assert(t.subrange(0, k) =~= ya);
    assert(t.subrange(0, k) =~= yb);
    lemma_year_text_injective(a.year, b.year);
    assert(t.subrange(k, k + 2) =~= decimal(a.month as nat, 2));
    assert(t.subrange(k, k + 2) =~= decimal(b.month as nat, 2));
    lemma_decimal_injective(a.month as nat, b.month as nat, 2);
    assert(t.subrange(k + 2, k + 4) =~= decimal(a.day as nat, 2));
    assert(t.subrange(k + 2, k + 4) =~= decimal(b.day as nat, 2));
    lemma_decimal_injective(a.day as nat, b.day as nat, 2);
    assert(t.subrange(k + 5, k + 7) =~= decimal(a.hour as nat, 2));
    assert(t.subrange(k + 5, k + 7) =~= decimal(b.hour as nat, 2));
    lemma_decimal_injective(a.hour as nat, b.hour as nat, 2);
    assert(t.subrange(k + 7, k + 9) =~= decimal(a.minute as nat, 2));
    assert(t.subrange(k + 7, k + 9) =~= decimal(b.minute as nat, 2));
    lemma_decimal_injective(a.minute as nat, b.minute as nat, 2);
    assert(t.subrange(k + 9, k + 11) =~= decimal(a.second as nat, 2));
    assert(t.subrange(k + 9, k + 11) =~= decimal(b.second as nat, 2));
    lemma_decimal_injective(a.second as nat, b.second as nat, 2);
}

/// For years 0 to 9999 the forms have fixed widths: 16 characters for
/// `%Y%m%dT%H%M%SZ` and 8 for `%Y%m%d`.
pub proof fn lemma_fixed_width(c: Civil)
    requires
        valid_civil(c),
        0 <= c.year <= 9999,
    ensures
        compact_timestamp(c).len() == 16,
        compact_date(c).len() == 8,
{
    lemma_timestamp_parts(c);
    assert(pow10(4) == 10000) by {
        reveal_with_fuel(pow10, 5);
    }
    lemma_decimal_len(c.year as nat, 4);
}

/// The characters a compact timestamp is written with: digits, the year's
/// sign, `T` and `Z`.
pub open spec fn is_timestamp_char(c: char) -> bool {
    is_digit_char(c) || c == '+' || c == '-' || c == 'T' || c == 'Z'
}

proof fn lemma_concat_timestamp_chars(a: Seq<char>, b: Seq<char>)
    requires
        forall|i: int| 0 <= i < a.len() ==> is_timestamp_char(#[trigger] a[i]),
        forall|i: int| 0 <= i < b.len() ==> is_timestamp_char(#[trigger] b[i]),
    ensures
        forall|i: int| 0 <= i < (a + b).len() ==> is_timestamp_char(#[trigger] (a + b)[i]),
{
    assert forall|i: int| 0 <= i < (a + b).len() implies is_timestamp_char(#[trigger] (a + b)[i]) by {
        if i < a.len() {
            assert((a + b)[i] == a[i]);
        } else {
            assert((a + b)[i] == b[i - a.len()]);
        }
    }
}

proof fn lemma_decimal_timestamp_chars(n: nat, w: nat)
    ensures
        forall|i: int| 0 <= i < decimal(n, w).len() ==> is_timestamp_char(#[trigger] decimal(n, w)[i]),
{
    lemma_decimal_digits(n, w);
    assert forall|i: int| 0 <= i < decimal(n, w).len() implies is_timestamp_char(
        #[trigger] decimal(n, w)[i],
    ) by {
        assert(is_digit_char(decimal(n, w)[i]));
    }
}

/// A compact timestamp holds only digits, the year's sign, `T` and `Z`: no
/// `/`, no newline.
pub proof fn lemma_timestamp_chars(c: Civil)
    ensures
        forall|i: int|
            0 <= i < compact_timestamp(c).len() ==> is_timestamp_char(#[trigger] compact_timestamp(c)[i]),
        !compact_timestamp(c).contains('/'),
        !compact_timestamp(c).contains('\n'),
{
    let y = year_text(c.year);
    if 0 <= c.year <= 9999 {
        lemma_decimal_timestamp_chars(c.year as nat, 4);
    } else if c.year < 0 {
        lemma_decimal_timestamp_chars((-c.year) as nat, 4);
        lemma_concat_timestamp_chars(seq!['-'], decimal((-c.year) as nat, 4));
    } else {
        lemma_decimal_timestamp_chars(c.year as nat, 4);
        lemma_concat_timestamp_chars(seq!['+'], decimal(c.year as nat, 4));
    }
    lemma_decimal_timestamp_chars(c.month as nat, 2);
    lemma_decimal_timestamp_chars(c.day as nat, 2);
    lemma_decimal_timestamp_chars(c.hour as nat, 2);
    lemma_decimal_timestamp_chars(c.minute as nat, 2);
    lemma_decimal_timestamp_chars(c.second as nat, 2);
    let m = decimal(c.month as nat, 2);
    let d = decimal(c.day as nat, 2);
    let h = decimal(c.hour as nat, 2);
    let mi = decimal(c.minute as nat, 2);
    let se = decimal(c.second as nat, 2);
    lemma_concat_timestamp_chars(y, m);
    lemma_concat_timestamp_chars(y + m, d);
    lemma_concat_timestamp_chars(seq!['T'], h);
    lemma_concat_timestamp_chars(seq!['T'] + h, mi);
    lemma_concat_timestamp_chars(seq!['T'] + h + mi, se);
    lemma_concat_timestamp_chars(y + m + d, seq!['T'] + h + mi + se);
    lemma_concat_timestamp_chars(y + m + d + (seq!['T'] + h + mi + se), seq!['Z']);
    let t = compact_timestamp(c);
    assert(t =~= y + m + d + (seq!['T'] + h + mi + se) + seq!['Z']);
    if t.contains('/') {
        let i = choose|i: int| 0 <= i < t.len() && t[i] == '/';
        assert(is_timestamp_char(t[i]));
    }
    if t.contains('\n') {
        let i = choose|i: int| 0 <= i < t.len() && t[i] == '\n';
        assert(is_timestamp_char(t[i]));
    }
}

} // verus!
